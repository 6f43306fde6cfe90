use pairfq::commands::splitpairs::route;
use pairfq::commands::splitpairs::run;
use pairfq::commands::splitpairs::Role;
use pairfq::commands::splitpairs::SplitError;
use pairfq::record::Record;

fn stream_of(content: &str) -> Vec<Record> {
    let mut reader = needletail::parse_fastx_reader(content.as_bytes()).unwrap();
    let mut records = Vec::new();
    while let Some(record) = reader.next() {
        let record = record.unwrap();
        records.push(Record::new(
            record.id().to_vec(),
            record.seq().to_vec(),
            record.qual().map(|q| q.to_vec()),
        ));
    }
    records
}

#[test]
fn test_splitpairs() {
    let content = "\
@seq1/1
ACGT
+
IIII
@seq1/2
TGCA
+
IIII
@seq2/1
GGGG
+
IIII
@seq2/2
CCCC
+
IIII
";
    let (f_content, r_content) = run(&stream_of(content)).unwrap();

    assert!(f_content.contains("@seq1/1"));
    assert!(f_content.contains("@seq2/1"));
    assert!(!f_content.contains("@seq1/2"));

    assert!(r_content.contains("@seq1/2"));
    assert!(r_content.contains("@seq2/2"));
    assert!(!r_content.contains("@seq1/1"));

    assert_eq!(f_content, "@seq1/1\nACGT\n+\nIIII\n@seq2/1\nGGGG\n+\nIIII\n");
    assert_eq!(r_content, "@seq1/2\nTGCA\n+\nIIII\n@seq2/2\nCCCC\n+\nIIII\n");
}

#[test]
fn reads_without_suffix_alternate() {
    let (forward, reverse) = run(&stream_of(">a\nAC\n>b\nGT\n>c\nTT\n")).unwrap();
    assert_eq!(forward, ">a\nAC\n>c\nTT\n");
    assert_eq!(reverse, ">b\nGT\n");
}

#[test]
fn suffix_wins_over_place() {
    let (forward, reverse) = run(&stream_of(">a/2\nAC\n>b/1\nGT\n>c\nTT\n>d\nGG\n")).unwrap();
    assert_eq!(forward, ">b/1\nGT\n>c\nTT\n");
    assert_eq!(reverse, ">a/2\nAC\n>d\nGG\n");
}

#[test]
fn sides_by_suffix_and_place() {
    assert_eq!(route(b"a/1", 1), Role::Forward);
    assert_eq!(route(b"a/2", 0), Role::Reverse);
    assert_eq!(route(b"a", 0), Role::Forward);
    assert_eq!(route(b"a", 1), Role::Reverse);
    assert_eq!(route(b"a", 2), Role::Forward);
    assert_eq!(route(b"a", u64::MAX), Role::Reverse);
}

#[test]
fn first_read_that_is_no_text_stops_the_split() {
    let reads = vec![
        Record::new(b"a".to_vec(), b"AC".to_vec(), None),
        Record::new(b"b".to_vec(), vec![0xff], None),
        Record::new(vec![0xff], b"AC".to_vec(), None),
    ];
    assert_eq!(run(&reads), Err(SplitError::Encoding { read: 1 }));
    assert_eq!(run(&Vec::new()), Ok((String::new(), String::new())));
}

#[test]
fn words_of_the_split_error() {
    assert_eq!(
        SplitError::Encoding { read: 10 }.message(),
        "Read 10 holds bytes that are not UTF-8"
    );
}

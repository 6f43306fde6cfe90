use pairfq::commands::joinpairs::lockstep;
use pairfq::commands::joinpairs::mates_agree;
use pairfq::commands::joinpairs::pair_text;
use pairfq::commands::joinpairs::run;
use pairfq::commands::joinpairs::same_bytes;
use pairfq::commands::joinpairs::trim_suffixes;
use pairfq::commands::joinpairs::JoinError;
use pairfq::commands::joinpairs::Lockstep;
use pairfq::record::Record;

fn reads_of(content: &str) -> Vec<Record> {
    let mut reader = needletail::parse_fastx_reader(content.as_bytes()).unwrap();
    let mut records = Vec::new();
    while let Some(record) = reader.next() {
        let record = record.unwrap();
        records.push(Record::new(
            record.id().to_vec(),
            record.seq().to_vec(),
            record.qual().map(|q| q.to_vec()),
        ));
    }
    records
}

#[test]
fn test_joinpairs() {
    let fq1_content = "\
@seq1/1
ACGT
+
IIII
@seq2/1
GGGG
+
IIII
";
    let fq2_content = "\
@seq1/2
TGCA
+
IIII
@seq2/2
CCCC
+
IIII
";
    let content = run(&reads_of(fq1_content), &reads_of(fq2_content)).unwrap();
    let line_count = content.lines().count();

    assert_eq!(line_count, 16);
    assert_eq!(
        content,
        "@seq1/1\nACGT\n+\nIIII\n@seq1/2\nTGCA\n+\nIIII\n@seq2/1\nGGGG\n+\nIIII\n@seq2/2\nCCCC\n+\nIIII\n"
    );
}

#[test]
fn unequal_numbers_are_refused() {
    let two = reads_of("@a/1\nAC\n+\nII\n@b/1\nGT\n+\nII\n");
    let one = reads_of("@a/2\nAC\n+\nII\n");
    assert_eq!(run(&two, &one), Err(JoinError::Mismatch));
    assert_eq!(run(&one, &two), Err(JoinError::Mismatch));
    assert_eq!(run(&Vec::new(), &one), Err(JoinError::Mismatch));
}

#[test]
fn nothing_joins_to_nothing() {
    assert_eq!(run(&Vec::new(), &Vec::new()), Ok(String::new()));
}

#[test]
fn first_bad_pair_is_named() {
    let good = || Record::new(b"a".to_vec(), b"AC".to_vec(), None);
    let bad = || Record::new(b"a".to_vec(), vec![0xff], None);
    let forward = vec![good(), good(), bad()];
    let reverse = vec![good(), bad(), good()];
    assert_eq!(run(&forward, &reverse), Err(JoinError::Encoding { pair: 1 }));
    let forward = vec![good(), bad()];
    let reverse = vec![good()];
    assert_eq!(run(&forward, &reverse), Err(JoinError::Mismatch));
    let forward = vec![bad(), good()];
    let reverse = vec![good()];
    assert_eq!(run(&forward, &reverse), Err(JoinError::Encoding { pair: 0 }));
}

#[test]
fn one_pair_as_text() {
    let forward = Record::new(b"a/1".to_vec(), b"AC".to_vec(), None);
    let reverse = Record::new(b"a/2".to_vec(), b"GT".to_vec(), Some(b"II".to_vec()));
    assert_eq!(
        pair_text(&forward, &reverse),
        Some(">a/1\nAC\n@a/2\nGT\n+\nII\n".to_string())
    );
    let broken = Record::new(vec![0x80], b"GT".to_vec(), None);
    assert_eq!(pair_text(&forward, &broken), None);
    assert_eq!(pair_text(&broken, &reverse), None);
}

#[test]
fn streams_in_step() {
    assert_eq!(lockstep(true, true), Lockstep::Pair);
    assert_eq!(lockstep(false, false), Lockstep::Done);
    assert_eq!(lockstep(true, false), Lockstep::Mismatch);
    assert_eq!(lockstep(false, true), Lockstep::Mismatch);
}

#[test]
fn identifiers_of_mates() {
    assert!(mates_agree(b"seq1/1", b"seq1/2"));
    assert!(mates_agree(b"seq1", b"seq1"));
    assert!(mates_agree(b"seq1/1/1", b"seq1/2"));
    assert!(!mates_agree(b"seq1/1", b"seq2/2"));
    assert!(!mates_agree(b"seq1/2", b"seq1/2"));
    assert_eq!(trim_suffixes(b"a/1/1", b'1'), b"a");
    assert_eq!(trim_suffixes(b"a/1/2", b'1'), b"a/1/2");
    assert_eq!(trim_suffixes(b"/1", b'1'), b"");
    assert!(same_bytes(b"ab", b"ab"));
    assert!(!same_bytes(b"ab", b"abc"));
    assert!(!same_bytes(b"ab", b"ac"));
}

#[test]
fn words_of_the_join_errors() {
    assert_eq!(JoinError::Mismatch.message(), "Files have different number of records");
    assert_eq!(
        JoinError::Encoding { pair: 0 }.message(),
        "Pair 0 holds bytes that are not UTF-8"
    );
    assert_eq!(
        JoinError::Encoding { pair: 1234 }.message(),
        "Pair 1234 holds bytes that are not UTF-8"
    );
}

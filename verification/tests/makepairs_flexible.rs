use pairfq::commands::makepairs::run;
use pairfq::record::Record;
use pairfq::utils::write_records;

fn read_all(content: &str) -> Vec<Record> {
    let mut reader = needletail::parse_fastx_reader(content.as_bytes()).unwrap();
    let mut records = Vec::new();
    while let Some(record) = reader.next() {
        let record = record.unwrap();
        records.push(Record::new(
            record.id().to_vec(),
            record.seq().to_vec(),
            record.qual().map(|q| q.to_vec()),
        ));
    }
    records
}

fn written(records: &Vec<Record>) -> String {
    let mut out = Vec::new();
    write_records(&mut out, records);
    String::from_utf8(out).unwrap()
}

#[test]
fn test_makepairs_sra_style() {
    let f_content = "@SRR12345 length=10\nACGTACGTAC\n+\nIIIIIIIIII\n";
    let r_content = "@SRR12345 length=10\nTGCATGCATG\n+\nIIIIIIIIII\n";

    let (out, _) = run(
        Some(read_all(f_content)),
        Some(read_all(r_content)),
        None,
        false,
        false,
    )
    .unwrap();

    let fp_content = written(&out.forward_paired);
    let rp_content = written(&out.reverse_paired);

    assert!(fp_content.contains("@SRR12345 length=10"), "Forward header preserved");
    assert!(fp_content.contains("ACGTACGTAC"));
    assert!(rp_content.contains("TGCATGCATG"));
    assert_eq!(rp_content, "@SRR12345 length=10\nTGCATGCATG\n+\nIIIIIIIIII\n");
}

#[test]
fn header_comments_keep_reads_apart() {
    let f_content = "@seq1/1 comment1\nACGT\n+\nIIII\n";
    let r_content = "@seq1/2 comment2\nTGCA\n+\nIIII\n";
    let (out, _) = run(
        Some(read_all(f_content)),
        Some(read_all(r_content)),
        None,
        false,
        false,
    )
    .unwrap();
    assert!(out.forward_paired.is_empty());
    assert!(out.reverse_paired.is_empty());
    assert_eq!(written(&out.forward_single), f_content);
    assert_eq!(
        written(&out.reverse_single),
        "@seq1/2 comment2/2\nTGCA\n+\nIIII\n"
    );
}

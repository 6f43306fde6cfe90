use pairfq::record::copy_bytes;
use pairfq::record::Record;
use pairfq::utils::format_fastq;
use pairfq::utils::format_record;
use pairfq::utils::write_fastq;
use pairfq::utils::write_record;

#[test]
fn four_lines_with_qualities() {
    assert_eq!(format_fastq("seq1/1", "ACGT", Some("IIII")), "@seq1/1\nACGT\n+\nIIII\n");
}

#[test]
fn two_lines_without_qualities() {
    assert_eq!(format_fastq("seq1", "ACGT", None), ">seq1\nACGT\n");
}

#[test]
fn empty_parts() {
    assert_eq!(format_fastq("", "", Some("")), "@\n\n+\n\n");
    assert_eq!(format_fastq("", "", None), ">\n\n");
}

#[test]
fn bytes_are_appended() {
    let mut out = b"x".to_vec();
    write_fastq(&mut out, b"id", b"AC", Some(b"II"));
    write_fastq(&mut out, b"id2", b"GT", None);
    assert_eq!(out, b"x@id\nAC\n+\nII\n>id2\nGT\n".to_vec());
}

#[test]
fn bytes_need_not_be_text() {
    let mut out = Vec::new();
    let read = Record::new(vec![0xff, 0xfe], vec![0x80], None);
    write_record(&mut out, &read);
    assert_eq!(out, vec![b'>', 0xff, 0xfe, b'\n', 0x80, b'\n']);
}

#[test]
fn text_of_a_record() {
    let read = Record::new(b"caf\xc3\xa9".to_vec(), b"ACGT".to_vec(), Some(b"IIII".to_vec()));
    assert_eq!(format_record(&read), Some("@caf\u{e9}\nACGT\n+\nIIII\n".to_string()));
    assert!(read.has_quality());
}

#[test]
fn malformed_bytes_are_no_text() {
    let bad_id = Record::new(vec![0xff], b"ACGT".to_vec(), None);
    let bad_seq = Record::new(b"id".to_vec(), vec![0xc3], None);
    let bad_qual = Record::new(b"id".to_vec(), b"AC".to_vec(), Some(vec![0x80, 0x80]));
    assert_eq!(format_record(&bad_id), None);
    assert_eq!(format_record(&bad_seq), None);
    assert_eq!(format_record(&bad_qual), None);
    assert!(!bad_id.has_quality());
}

#[test]
fn copies_are_equal() {
    assert_eq!(copy_bytes(b"ACGT"), b"ACGT".to_vec());
    assert_eq!(copy_bytes(b""), Vec::<u8>::new());
}

#[test]
fn quality_length() {
    assert!(Record::new(b"a".to_vec(), b"ACGT".to_vec(), Some(b"IIII".to_vec())).qualities_fit());
    assert!(Record::new(b"a".to_vec(), b"ACGT".to_vec(), None).qualities_fit());
    assert!(!Record::new(b"a".to_vec(), b"ACGT".to_vec(), Some(b"III".to_vec())).qualities_fit());
}

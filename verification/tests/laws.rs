use pairfq::disk_join::run_ondisk;
use pairfq::memory_join::run_inmemory;
use pairfq::output::JoinOutput;
use pairfq::record::Record;
use pairfq::utils::write_records;

fn rec(id: &str, seq: &str, qual: Option<&str>) -> Record {
    Record::new(
        id.as_bytes().to_vec(),
        seq.as_bytes().to_vec(),
        qual.map(|q| q.as_bytes().to_vec()),
    )
}

fn side(prefix: &str, suffix: &str, from: usize, upto: usize) -> Vec<Record> {
    (from..upto)
        .map(|i| rec(&format!("{}{}{}", prefix, i, suffix), "ACGT", Some("IIII")))
        .collect()
}

fn bytes(records: &Vec<Record>) -> Vec<u8> {
    let mut out = Vec::new();
    write_records(&mut out, records);
    out
}

fn sorted_ids(records: &[Record]) -> Vec<Vec<u8>> {
    let mut ids: Vec<Vec<u8>> = records.iter().map(|r| r.id.clone()).collect();
    ids.sort();
    ids
}

fn both(forward: &dyn Fn() -> Vec<Record>, reverse: &dyn Fn() -> Vec<Record>) -> [JoinOutput; 2] {
    [
        run_inmemory(forward(), reverse()),
        run_ondisk(forward(), reverse()).unwrap(),
    ]
}

#[test]
fn disjoint_keys_pair_nothing() {
    let forward = || side("f", "/1", 0, 4);
    let reverse = || side("r", "/2", 0, 3);
    for out in both(&forward, &reverse) {
        assert_eq!(out.stats.forward_paired, 0);
        assert_eq!(out.stats.reverse_paired, 0);
        assert!(out.forward_paired.is_empty());
        assert!(out.reverse_paired.is_empty());
        assert_eq!(bytes(&out.forward_single), bytes(&forward()));
        assert_eq!(sorted_ids(&out.reverse_single), sorted_ids(&reverse()));
        assert_eq!(out.stats.forward_unpaired, 4);
        assert_eq!(out.stats.reverse_unpaired, 3);
    }
}

#[test]
fn equal_keys_leave_nothing_unpaired() {
    let forward = || side("s", "/1", 0, 5);
    let reverse = || {
        let mut reads = side("s", "/2", 0, 5);
        reads.reverse();
        reads
    };
    for out in both(&forward, &reverse) {
        assert_eq!(out.stats.total_unpaired(), 0);
        assert!(out.forward_single.is_empty());
        assert!(out.reverse_single.is_empty());
        assert_eq!(out.stats.total_paired(), 10);
    }
}

#[test]
fn equal_key_sets_with_a_repeated_forward_key_leave_a_singleton() {
    let forward = || vec![rec("a/1", "AC", None), rec("a/1", "GT", None)];
    let reverse = || vec![rec("a/2", "TT", None), rec("a/2", "GG", None)];
    for out in both(&forward, &reverse) {
        assert_eq!(out.stats.total_unpaired(), 1);
        assert_eq!(out.stats.forward_unpaired, 1);
    }
}

#[test]
fn counters_balance() {
    let forward = || {
        let mut reads = side("s", "/1", 0, 6);
        reads.extend(side("s", "/1", 2, 4));
        reads
    };
    let reverse = || side("s", "/2", 3, 9);
    for out in both(&forward, &reverse) {
        let s = out.stats;
        assert_eq!(s.forward_reads, s.forward_paired + s.forward_unpaired);
        assert_eq!(s.reverse_reads, s.reverse_paired + s.reverse_unpaired);
        assert_eq!(s.total_paired(), (s.forward_paired + s.reverse_paired) as u128);
        assert_eq!(s.total_unpaired(), (s.forward_unpaired + s.reverse_unpaired) as u128);
        assert_eq!(s.forward_paired, s.reverse_paired);
        assert_eq!(s.forward_reads, 8);
        assert_eq!(s.reverse_reads, 6);
        assert_eq!(s.forward_paired, 3);
        assert_eq!(s.forward_unpaired, 5);
        assert_eq!(s.reverse_unpaired, 3);
    }
}

#[test]
fn replaced_reverse_reads_are_counted_as_read_only() {
    let forward = || side("s", "/1", 0, 1);
    let reverse = || vec![rec("k/2", "AC", None), rec("k/2", "GT", None)];
    for out in both(&forward, &reverse) {
        let s = out.stats;
        assert_eq!(s.reverse_reads, 2);
        assert_eq!(s.reverse_paired + s.reverse_unpaired, 1);
        assert_eq!(s.forward_reads, s.forward_paired + s.forward_unpaired);
    }
}

#[test]
fn strategies_write_the_same_pairs() {
    let forward = || {
        let mut reads = side("s", "/1", 0, 7);
        reads.push(rec("plain", "ACGTN", Some("II|II")));
        reads.push(rec("fasta/1", "ACGT", None));
        reads.push(rec("odd/1", "AC", None));
        reads
    };
    let reverse = || {
        let mut reads = side("s", "/2", 4, 12);
        reads.push(rec("fasta/2", "TTTT", None));
        reads.push(rec("plain", "NACGT", Some("|IIII")));
        reads.push(rec("odd/2", "A|C\\G||T\\", None));
        reads.push(rec("left/2", "|", Some("\\")));
        reads.reverse();
        reads
    };
    let [memory, disk] = both(&forward, &reverse);
    assert_eq!(bytes(&memory.forward_paired), bytes(&disk.forward_paired));
    assert_eq!(bytes(&memory.reverse_paired), bytes(&disk.reverse_paired));
    assert_eq!(bytes(&memory.forward_single), bytes(&disk.forward_single));
    assert_eq!(memory.stats, disk.stats);
    assert_eq!(sorted_ids(&memory.reverse_single), sorted_ids(&disk.reverse_single));
    assert_eq!(memory.forward_paired.len(), 6);
    assert_eq!(memory.reverse_paired[5].seq, b"A|C\\G||T\\".to_vec());
    assert_eq!(memory.reverse_paired[5].qual, None);
    let mut sorted = memory.reverse_single;
    sorted.sort_by(|a, b| a.id.cmp(&b.id));
    assert_eq!(bytes(&sorted), bytes(&disk.reverse_single));
}

#[test]
fn a_bar_in_a_reverse_sequence_is_kept_by_both_strategies() {
    let forward = || vec![rec("a/1", "ACGT", None), rec("z/1", "TT", None)];
    let reverse = || vec![rec("a/2", "AC|GT", None), rec("b/2", "G\\|T|", Some("I|\\II"))];
    let [memory, disk] = both(&forward, &reverse);
    assert_eq!(bytes(&memory.reverse_paired), b">a/2\nAC|GT\n".to_vec());
    assert_eq!(bytes(&disk.reverse_paired), b">a/2\nAC|GT\n".to_vec());
    assert_eq!(bytes(&memory.reverse_single), b"@b/2\nG\\|T|\n+\nI|\\II\n".to_vec());
    assert_eq!(bytes(&disk.reverse_single), bytes(&memory.reverse_single));
    assert_eq!(memory, disk);
}

use pairfq::commands::makepairs::run;
use pairfq::commands::makepairs::select_strategy;
use pairfq::commands::makepairs::ArgumentError;
use pairfq::commands::makepairs::MakepairsError;
use pairfq::commands::makepairs::Strategy;
use pairfq::disk_join::run_ondisk;
use pairfq::interleaved::run_interleaved;
use pairfq::memory_join::run_inmemory;
use pairfq::output::JoinOutput;
use pairfq::record::Record;
use pairfq::stats::Stats;
use pairfq::utils::write_records;

fn parse(content: &str) -> Vec<Record> {
    let mut reader = needletail::parse_fastx_reader(content.as_bytes()).unwrap();
    let mut records = Vec::new();
    while let Some(record) = reader.next() {
        let record = record.unwrap();
        records.push(Record::new(
            record.id().to_vec(),
            record.seq().to_vec(),
            record.qual().map(|q| q.to_vec()),
        ));
    }
    records
}

fn fastq(id: &str, seq: &str) -> String {
    format!("@{}\n{}\n+\n{}\n", id, seq, "I".repeat(seq.len()))
}

fn build_fq_data() -> (String, String) {
    let bases = ["ACGT", "GGGG", "TTTT", "CCCC", "AAAA", "ACAC", "GTGT", "TGCA"];
    let mut forward = String::new();
    let mut reverse = String::new();
    for (i, seq) in bases.iter().enumerate() {
        forward.push_str(&fastq(&format!("seq{}/1", i + 1), seq));
        if i < 6 {
            let mate: String = seq.chars().rev().collect();
            reverse.push_str(&fastq(&format!("seq{}/2", i + 1), &mate));
        }
    }
    (forward, reverse)
}

fn text(records: &Vec<Record>) -> String {
    let mut out = Vec::new();
    write_records(&mut out, records);
    String::from_utf8(out).unwrap()
}

fn counts(out: &JoinOutput) -> [u64; 6] {
    [
        out.stats.forward_reads,
        out.stats.reverse_reads,
        out.stats.forward_paired,
        out.stats.reverse_paired,
        out.stats.forward_unpaired,
        out.stats.reverse_unpaired,
    ]
}

fn check_summary(summary: &str, expected: [&str; 8]) {
    let labels = [
        "Total forward reads",
        "Total reverse reads",
        "Total forward paired reads",
        "Total reverse paired reads",
        "Total forward unpaired reads",
        "Total reverse unpaired reads",
        "Total paired reads",
        "Total unpaired reads",
    ];
    for (label, number) in labels.iter().zip(expected.iter()) {
        assert!(summary.contains(label));
        assert!(summary.contains(number));
        let line = format!("{:<30} : {:>10}\n", label, number);
        assert!(summary.contains(&line), "missing line {:?} in {:?}", line, summary);
    }
}

#[test]
fn test_makepairs_inmemory() {
    let (fq1, fq2) = build_fq_data();
    let (out, summary) = run(Some(parse(&fq1)), Some(parse(&fq2)), None, false, true).unwrap();
    check_summary(&summary.unwrap(), ["8", "6", "6", "6", "2", "0", "12", "2"]);
    assert_eq!(counts(&out), [8, 6, 6, 6, 2, 0]);
}

#[test]
fn test_makepairs_ondisk() {
    let (fq1, fq2) = build_fq_data();
    let (out, summary) = run(Some(parse(&fq1)), Some(parse(&fq2)), None, true, true).unwrap();
    check_summary(&summary.unwrap(), ["8", "6", "6", "6", "2", "0", "12", "2"]);
    assert_eq!(counts(&out), [8, 6, 6, 6, 2, 0]);
}

#[test]
fn test_makepairs_interleaved() {
    let content = "\
@seq1/1
ACGT
+
IIII
@seq1/2
TGCA
+
IIII
@seq2/1
GGGG
+
IIII
@seq2/2
CCCC
+
IIII
@seq3/1
AAAA
+
IIII
";
    let (out, summary) = run(None, None, Some(parse(content)), false, true).unwrap();
    check_summary(&summary.unwrap(), ["3", "2", "2", "2", "1", "0", "4", "1"]);
    assert_eq!(counts(&out), [3, 2, 2, 2, 1, 0]);
    assert_eq!(
        text(&out.forward_paired),
        "@seq1/1\nACGT\n+\nIIII\n@seq2/1\nGGGG\n+\nIIII\n"
    );
    assert_eq!(
        text(&out.reverse_paired),
        "@seq1/2\nTGCA\n+\nIIII\n@seq2/2\nCCCC\n+\nIIII\n"
    );
    assert_eq!(text(&out.forward_single), "@seq3/1\nAAAA\n+\nIIII\n");
    assert!(out.reverse_single.is_empty());
}

#[test]
fn no_summary_unless_asked() {
    let (fq1, fq2) = build_fq_data();
    let (_, summary) = run(Some(parse(&fq1)), Some(parse(&fq2)), None, false, false).unwrap();
    assert!(summary.is_none());
}

#[test]
fn one_reverse_mate_missing() {
    let forward = parse(&(fastq("seq1/1", "ACGT") + &fastq("seq2/1", "GGGG")));
    let reverse = parse(&fastq("seq1/2", "TGCA"));
    let out = run_inmemory(forward, reverse);
    assert_eq!(text(&out.forward_paired), "@seq1/1\nACGT\n+\nIIII\n");
    assert_eq!(text(&out.forward_single), "@seq2/1\nGGGG\n+\nIIII\n");
    assert_eq!(text(&out.reverse_paired), "@seq1/2\nTGCA\n+\nIIII\n");
    assert_eq!(text(&out.reverse_single), "");
    assert_eq!(counts(&out), [2, 1, 1, 1, 1, 0]);
    assert_eq!(out.stats.total_paired(), 2);
    assert_eq!(out.stats.total_unpaired(), 1);
}

#[test]
fn one_reverse_mate_missing_on_disk() {
    let forward = parse(&(fastq("seq1/1", "ACGT") + &fastq("seq2/1", "GGGG")));
    let reverse = parse(&fastq("seq1/2", "TGCA"));
    let out = run_ondisk(forward, reverse).unwrap();
    assert_eq!(text(&out.forward_paired), "@seq1/1\nACGT\n+\nIIII\n");
    assert_eq!(text(&out.forward_single), "@seq2/1\nGGGG\n+\nIIII\n");
    assert_eq!(text(&out.reverse_paired), "@seq1/2\nTGCA\n+\nIIII\n");
    assert_eq!(text(&out.reverse_single), "");
    assert_eq!(counts(&out), [2, 1, 1, 1, 1, 0]);
    assert_eq!(out.stats.total_paired(), 2);
    assert_eq!(out.stats.total_unpaired(), 1);
}

#[test]
fn three_matching_pairs() {
    let forward = fastq("a/1", "ACGT") + &fastq("b/1", "GGGG") + &fastq("c/1", "TTTT");
    let reverse = fastq("c/2", "AAAA") + &fastq("a/2", "TGCA") + &fastq("b/2", "CCCC");
    for on_disk in [false, true] {
        let (out, _) =
            run(Some(parse(&forward)), Some(parse(&reverse)), None, on_disk, false).unwrap();
        assert_eq!(out.stats.total_paired(), 6);
        assert_eq!(out.stats.total_unpaired(), 0);
        assert_eq!(out.stats.forward_unpaired, 0);
        assert_eq!(out.stats.reverse_unpaired, 0);
        assert_eq!(text(&out.forward_paired), forward);
        assert_eq!(
            text(&out.reverse_paired),
            fastq("a/2", "TGCA") + &fastq("b/2", "CCCC") + &fastq("c/2", "AAAA")
        );
    }
}

#[test]
fn five_interleaved_reads() {
    let content = fastq("r1", "ACGT")
        + &fastq("r2", "TGCA")
        + &fastq("r3", "GGGG")
        + &fastq("r4", "CCCC")
        + &fastq("r5", "AAAA");
    let out = run_interleaved(parse(&content));
    assert_eq!(counts(&out), [3, 2, 2, 2, 1, 0]);
    assert_eq!(text(&out.forward_paired), fastq("r1", "ACGT") + &fastq("r3", "GGGG"));
    assert_eq!(text(&out.reverse_paired), fastq("r2", "TGCA") + &fastq("r4", "CCCC"));
    assert_eq!(text(&out.forward_single), fastq("r5", "AAAA"));
    assert!(out.reverse_single.is_empty());
}

#[test]
fn interleaved_pairs_by_position_only() {
    let content = fastq("x/2", "AC") + &fastq("y/1", "GT");
    let out = run_interleaved(parse(&content));
    assert_eq!(text(&out.forward_paired), fastq("x/2", "AC"));
    assert_eq!(text(&out.reverse_paired), fastq("y/1", "GT"));
    assert_eq!(counts(&out), [1, 1, 1, 1, 0, 0]);
}

#[test]
fn interleaved_counts_for_every_length() {
    for n in 0..9u64 {
        let reads: Vec<Record> = (0..n)
            .map(|i| Record::new(format!("r{}", i).into_bytes(), b"ACGT".to_vec(), None))
            .collect();
        let out = run_interleaved(reads);
        assert_eq!(
            (out.forward_paired.len() + out.reverse_paired.len()) as u64,
            2 * (n / 2)
        );
        assert_eq!(out.forward_single.len() as u64, n % 2);
        assert!(out.reverse_single.is_empty());
        assert_eq!(counts(&out), [n / 2 + n % 2, n / 2, n / 2, n / 2, n % 2, 0]);
        if n % 2 == 1 {
            assert_eq!(out.forward_single[0].id, format!("r{}", n - 1).into_bytes());
        }
    }
}

#[test]
fn empty_inputs() {
    let out = run_inmemory(Vec::new(), Vec::new());
    assert_eq!(counts(&out), [0, 0, 0, 0, 0, 0]);
    let out = run_ondisk(Vec::new(), Vec::new()).unwrap();
    assert_eq!(counts(&out), [0, 0, 0, 0, 0, 0]);
    let out = run_interleaved(Vec::new());
    assert_eq!(counts(&out), [0, 0, 0, 0, 0, 0]);
    assert_eq!(out.stats, Stats::new());
}

#[test]
fn later_reverse_read_replaces_earlier() {
    let forward = parse(&fastq("a/1", "ACGT"));
    let reverse = parse(&(fastq("a/2", "AAAA") + &fastq("a/2", "CCCC")));
    let out = run_inmemory(forward, reverse);
    assert_eq!(text(&out.reverse_paired), fastq("a/2", "CCCC"));
    assert_eq!(counts(&out), [1, 2, 1, 1, 0, 0]);
}

#[test]
fn repeated_forward_key_pairs_once() {
    let forward = parse(&(fastq("a/1", "ACGT") + &fastq("a/1", "GGGG")));
    let reverse = parse(&fastq("a/2", "TTTT"));
    let out = run_inmemory(forward, reverse);
    assert_eq!(text(&out.forward_paired), fastq("a/1", "ACGT"));
    assert_eq!(text(&out.forward_single), fastq("a/1", "GGGG"));
    assert_eq!(counts(&out), [2, 1, 1, 1, 1, 0]);
}

#[test]
fn reverse_singletons_get_suffix() {
    let forward = parse(&fastq("x/1", "ACGT"));
    let reverse = parse(&(fastq("plain", "AAAA") + &fastq("other/2", "CCCC")));
    let out = run_inmemory(forward, reverse);
    let mut singles: Vec<String> = out
        .reverse_single
        .iter()
        .map(|r| String::from_utf8(r.id.clone()).unwrap())
        .collect();
    singles.sort();
    assert_eq!(singles, vec!["other/2", "plain/2"]);
    assert_eq!(counts(&out), [1, 2, 0, 0, 1, 2]);
}

#[test]
fn disk_singletons_come_in_key_order() {
    let forward = parse(&fastq("x/1", "ACGT"));
    let reverse = parse(
        &(fastq("zeta/2", "AAAA")
            + &fastq("alpha/2", "CCCC")
            + &fastq("mid/2", "GGGG")
            + &fastq("alph/2", "TTTT")),
    );
    let out = run_ondisk(forward, reverse).unwrap();
    assert_eq!(
        text(&out.reverse_single),
        fastq("alph/2", "TTTT")
            + &fastq("alpha/2", "CCCC")
            + &fastq("mid/2", "GGGG")
            + &fastq("zeta/2", "AAAA")
    );
}

#[test]
fn fasta_reads_keep_their_form() {
    for on_disk in [false, true] {
        let (out, _) = run(
            Some(parse(">a/1\nACGT\n>b/1\nGGGG\n")),
            Some(parse(">a/2\nTGCA\n>c/2\nTT\n")),
            None,
            on_disk,
            false,
        )
        .unwrap();
        assert_eq!(text(&out.forward_paired), ">a/1\nACGT\n");
        assert_eq!(text(&out.reverse_paired), ">a/2\nTGCA\n");
        assert_eq!(text(&out.forward_single), ">b/1\nGGGG\n");
        assert_eq!(text(&out.reverse_single), ">c/2\nTT\n");
    }
}

#[test]
fn strategy_selection() {
    assert_eq!(select_strategy(true, false, false, false), Ok(Strategy::Interleaved));
    assert_eq!(select_strategy(true, false, false, true), Ok(Strategy::Interleaved));
    assert_eq!(select_strategy(false, true, true, false), Ok(Strategy::InMemory));
    assert_eq!(select_strategy(false, true, true, true), Ok(Strategy::External));
    assert_eq!(select_strategy(true, true, true, false), Err(ArgumentError::Conflicting));
    assert_eq!(select_strategy(true, true, false, false), Err(ArgumentError::Conflicting));
    assert_eq!(select_strategy(true, false, true, false), Err(ArgumentError::Conflicting));
    assert_eq!(select_strategy(false, true, false, false), Err(ArgumentError::Incomplete));
    assert_eq!(select_strategy(false, false, true, true), Err(ArgumentError::Incomplete));
    assert_eq!(select_strategy(false, false, false, false), Err(ArgumentError::Incomplete));
}

#[test]
fn argument_errors_come_before_any_work() {
    let wrong = run(None, None, None, false, false).unwrap_err();
    assert!(matches!(wrong, MakepairsError::Argument(ArgumentError::Incomplete)));
    let wrong = run(Some(Vec::new()), None, None, true, false).unwrap_err();
    assert!(matches!(wrong, MakepairsError::Argument(ArgumentError::Incomplete)));
    let wrong = run(Some(Vec::new()), Some(Vec::new()), Some(Vec::new()), false, false).unwrap_err();
    assert!(matches!(wrong, MakepairsError::Argument(ArgumentError::Conflicting)));
    assert_eq!(
        ArgumentError::Incomplete.message(),
        "Must provide either --infile or both --forward and --reverse"
    );
    assert_eq!(
        ArgumentError::Conflicting.message(),
        "--infile cannot be used with --forward or --reverse"
    );
}

#[test]
fn bare_suffixes_share_the_empty_key() {
    for on_disk in [false, true] {
        let (out, _) = run(
            Some(parse(&fastq("/1", "ACGT"))),
            Some(parse(&(fastq("/2", "TGCA") + &fastq("z/2", "GG")))),
            None,
            on_disk,
            false,
        )
        .unwrap();
        assert_eq!(text(&out.forward_paired), fastq("/1", "ACGT"));
        assert_eq!(text(&out.reverse_paired), fastq("/2", "TGCA"));
        assert_eq!(text(&out.reverse_single), fastq("z/2", "GG"));
        assert_eq!(counts(&out), [1, 2, 1, 1, 0, 1]);
    }
}

#[test]
fn a_thousand_reads() {
    let forward = || -> Vec<Record> {
        (0..1000)
            .map(|i| Record::new(format!("read{}/1", i).into_bytes(), b"ACGTACGT".to_vec(), None))
            .collect()
    };
    let reverse = || -> Vec<Record> {
        (500..1500)
            .rev()
            .map(|i| Record::new(format!("read{}/2", i).into_bytes(), b"TTTTACGT".to_vec(), None))
            .collect()
    };
    let memory = run_inmemory(forward(), reverse());
    let disk = run_ondisk(forward(), reverse()).unwrap();
    assert_eq!(counts(&memory), [1000, 1000, 500, 500, 500, 500]);
    assert_eq!(memory.stats, disk.stats);
    assert_eq!(text(&memory.forward_paired), text(&disk.forward_paired));
    assert_eq!(text(&memory.reverse_paired), text(&disk.reverse_paired));
    assert_eq!(memory.forward_paired[0].id, b"read500/1".to_vec());
    assert_eq!(memory.reverse_paired[0].id, b"read500/2".to_vec());
    assert_eq!(disk.reverse_single[0].id, b"read1000/2".to_vec());
    assert_eq!(disk.reverse_single[499].id, b"read1499/2".to_vec());
}

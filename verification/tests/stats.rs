use pairfq::stats::format_stats;
use pairfq::stats::Stats;
use pairfq::text::append_decimal;
use pairfq::text::append_left_aligned;
use pairfq::text::append_right_aligned;

#[test]
fn fresh_counters_are_zero() {
    let stats = Stats::new();
    assert_eq!(stats.forward_reads, 0);
    assert_eq!(stats.reverse_reads, 0);
    assert_eq!(stats.forward_paired, 0);
    assert_eq!(stats.reverse_paired, 0);
    assert_eq!(stats.forward_unpaired, 0);
    assert_eq!(stats.reverse_unpaired, 0);
    assert_eq!(stats.total_paired(), 0);
    assert_eq!(stats.total_unpaired(), 0);
}

#[test]
fn each_event_moves_its_counters() {
    let mut stats = Stats::new();
    stats.count_indexed();
    assert_eq!(stats, Stats { reverse_reads: 1, ..Stats::new() });
    stats.count_match();
    assert_eq!(
        stats,
        Stats { forward_reads: 1, reverse_reads: 1, forward_paired: 1, reverse_paired: 1, ..Stats::new() }
    );
    stats.count_forward_single();
    assert_eq!(stats.forward_reads, 2);
    assert_eq!(stats.forward_unpaired, 1);
    stats.count_reverse_single();
    assert_eq!(stats.reverse_unpaired, 1);
    stats.count_pair();
    assert_eq!(
        stats,
        Stats {
            forward_reads: 3,
            reverse_reads: 2,
            forward_paired: 2,
            reverse_paired: 2,
            forward_unpaired: 1,
            reverse_unpaired: 1,
        }
    );
    assert_eq!(stats.total_paired(), 4);
    assert_eq!(stats.total_unpaired(), 2);
}

#[test]
fn totals_do_not_overflow() {
    let stats = Stats {
        forward_reads: u64::MAX,
        reverse_reads: u64::MAX,
        forward_paired: u64::MAX,
        reverse_paired: u64::MAX,
        forward_unpaired: 0,
        reverse_unpaired: 0,
    };
    assert_eq!(stats.total_paired(), 2 * (u64::MAX as u128));
}

#[test]
fn report_layout() {
    let stats = Stats {
        forward_reads: 2,
        reverse_reads: 1,
        forward_paired: 1,
        reverse_paired: 1,
        forward_unpaired: 1,
        reverse_unpaired: 0,
    };
    let expected = "\
Total forward reads            :          2
Total reverse reads            :          1
Total forward paired reads     :          1
Total reverse paired reads     :          1
Total forward unpaired reads   :          1
Total reverse unpaired reads   :          0

Total paired reads             :          2
Total unpaired reads           :          1
";
    assert_eq!(format_stats(&stats), expected);
}

#[test]
fn wide_numbers_are_not_cut() {
    let stats = Stats { forward_reads: 12345678901234, ..Stats::new() };
    let report = format_stats(&stats);
    assert!(report.starts_with("Total forward reads            : 12345678901234\n"));
}

#[test]
fn decimal_digits() {
    for n in [0u128, 7, 10, 99, 100, 12345, u64::MAX as u128, u128::MAX] {
        let mut text = String::from("n=");
        append_decimal(&mut text, n);
        assert_eq!(text, format!("n={}", n));
    }
}

#[test]
fn columns() {
    let mut text = String::new();
    append_left_aligned(&mut text, "ab", 5);
    text.push('|');
    append_right_aligned(&mut text, "cd", 5);
    text.push('|');
    append_left_aligned(&mut text, "toolong", 3);
    text.push('|');
    append_right_aligned(&mut text, "toolong", 3);
    assert_eq!(text, "ab   |   cd|toolong|toolong");
}

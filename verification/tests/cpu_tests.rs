use std::collections::HashMap;

use sysmon::sensors::cpu::{
    advance_core_stats, core_deltas_fit, parse_stat_line, read_core_stats, CoreTicks, CpuStat,
};

fn stat(v: [u64; 8]) -> CpuStat {
    CpuStat {
        user: v[0],
        nice: v[1],
        system: v[2],
        idle: v[3],
        iowait: v[4],
        irq: v[5],
        softirq: v[6],
        steal: v[7],
    }
}

#[test]
fn parses_core_lines() {
    assert_eq!(
        parse_stat_line("cpu0 4705 150 1120 16250 520 0 33 0 0 0"),
        Some((0, stat([4705, 150, 1120, 16250, 520, 0, 33, 0])))
    );
    assert_eq!(
        parse_stat_line("  cpu12\t1 2 3 4 5 6 7 8"),
        Some((12, stat([1, 2, 3, 4, 5, 6, 7, 8])))
    );
}

#[test]
fn rejects_other_lines() {
    assert_eq!(parse_stat_line("cpu  4705 150 1120 16250 520 0 33 0 0 0"), None);
    assert_eq!(parse_stat_line("intr 114930548 113199788 3 0 5 263 0 4"), None);
    assert_eq!(parse_stat_line("ctxt 1990473"), None);
    assert_eq!(parse_stat_line(""), None);
    assert_eq!(parse_stat_line("cpu3 1 2 3 4 5 6 7"), None);
    assert_eq!(parse_stat_line("cpux 1 2 3 4 5 6 7 8"), None);
    assert_eq!(parse_stat_line("CPU1 1 2 3 4 5 6 7 8"), None);
}

#[test]
fn parse_edge_cases() {
    // every leading "cpu" is stripped before the core number is read
    assert_eq!(
        parse_stat_line("cpucpu3 1 2 3 4 5 6 7 8"),
        Some((3, stat([1, 2, 3, 4, 5, 6, 7, 8])))
    );
    // a leading plus sign is accepted, as str::parse accepts it
    assert_eq!(parse_stat_line("cpu+4 1 2 3 4 5 6 7 8"), Some((4, stat([1, 2, 3, 4, 5, 6, 7, 8]))));
    // a counter that does not parse counts as zero
    assert_eq!(
        parse_stat_line("cpu1 x 2 -3 4 5 6 7 18446744073709551616"),
        Some((1, stat([0, 2, 0, 4, 5, 6, 7, 0])))
    );
    assert_eq!(
        parse_stat_line("cpu1 18446744073709551615 0 0 0 0 0 0 0"),
        Some((1, stat([u64::MAX, 0, 0, 0, 0, 0, 0, 0])))
    );
    assert_eq!(parse_stat_line("cpu-1 1 2 3 4 5 6 7 8"), None);
}

#[test]
fn reads_all_cores() {
    let lines: Vec<String> = vec![
        "cpu  10 0 10 100 0 0 0 0 0 0".to_string(),
        "cpu0 5 0 5 50 0 0 0 0 0 0".to_string(),
        "cpu1 5 0 5 50 0 0 0 0 0 0".to_string(),
        "intr 1 2 3".to_string(),
        "cpu1 6 0 5 50 0 0 0 0 0 0".to_string(),
    ];
    let stats = read_core_stats(&lines);
    assert_eq!(stats.len(), 2);
    assert_eq!(stats[&0], stat([5, 0, 5, 50, 0, 0, 0, 0]));
    assert_eq!(stats[&1], stat([6, 0, 5, 50, 0, 0, 0, 0]));
}

#[test]
fn advance_counts_cores_in_both_readings() {
    let mut prev: HashMap<usize, CpuStat> = HashMap::new();
    prev.insert(0, stat([100, 10, 50, 1000, 5, 1, 2, 0]));
    prev.insert(1, stat([200, 0, 80, 900, 0, 0, 0, 0]));
    prev.insert(2, stat([7, 7, 7, 7, 7, 7, 7, 7]));
    let mut current: HashMap<usize, CpuStat> = HashMap::new();
    current.insert(0, stat([130, 20, 70, 1130, 5, 1, 2, 0]));
    current.insert(1, stat([200, 0, 80, 900, 0, 0, 0, 0]));
    current.insert(3, stat([1, 1, 1, 1, 1, 1, 1, 1]));
    let ticks = advance_core_stats(&mut prev, &current);
    assert_eq!(ticks.len(), 1);
    assert_eq!(ticks[&0], CoreTicks { busy_user: 40, busy_system: 20, total: 190 });
    // the counted core moves on; the idle one and the vanished one stay
    assert_eq!(prev.len(), 3);
    assert_eq!(prev[&0], current[&0]);
    assert_eq!(prev[&1], stat([200, 0, 80, 900, 0, 0, 0, 0]));
    assert_eq!(prev[&2], stat([7, 7, 7, 7, 7, 7, 7, 7]));
    assert!(!prev.contains_key(&3));
    // updating again with the same reading finds nothing
    let again = advance_core_stats(&mut prev, &current);
    assert!(again.is_empty());
}

#[test]
fn advance_saturates_counters_that_went_back() {
    let mut prev: HashMap<usize, CpuStat> = HashMap::new();
    prev.insert(5, stat([100, 0, 100, 100, 0, 0, 0, 0]));
    let mut current: HashMap<usize, CpuStat> = HashMap::new();
    current.insert(5, stat([50, 0, 120, 110, 0, 0, 0, 0]));
    let ticks = advance_core_stats(&mut prev, &current);
    assert_eq!(ticks[&5], CoreTicks { busy_user: 0, busy_system: 20, total: 30 });
}

#[test]
fn delta_overflow_is_detected() {
    let mut prev: HashMap<usize, CpuStat> = HashMap::new();
    prev.insert(0, stat([0; 8]));
    let mut current: HashMap<usize, CpuStat> = HashMap::new();
    current.insert(0, stat([u64::MAX, 1, 0, 0, 0, 0, 0, 0]));
    assert!(!core_deltas_fit(&prev, &current));
    current.insert(0, stat([u64::MAX, 0, 0, 0, 0, 0, 0, 0]));
    assert!(core_deltas_fit(&prev, &current));
    // a core missing from either reading is not summed
    current.insert(1, stat([u64::MAX; 8]));
    assert!(core_deltas_fit(&prev, &current));
    assert!(core_deltas_fit(&HashMap::new(), &HashMap::new()));
}

use sysmon::delta::{
    parse_channels, pick_temperature, sat_add_i64, sat_sub_i64, utilization_pct, ChannelSample,
    DeltaSession,
};

fn ch(group: &str, subgroup: &str, name: &str, value: i64) -> ChannelSample {
    ChannelSample {
        group: group.to_string(),
        subgroup: subgroup.to_string(),
        name: name.to_string(),
        value,
    }
}

#[test]
fn utilization_delta_example() {
    // busyDelta 30 over totalDelta 120 is 25 percent
    assert_eq!(utilization_pct(30, 120), 25);
    // a zero total never divides; it reads as idle
    assert_eq!(utilization_pct(30, 0), 0);
    assert_eq!(utilization_pct(0, 0), 0);
}

#[test]
fn utilization_always_a_percentage() {
    assert_eq!(utilization_pct(-500, 120), 0);
    assert_eq!(utilization_pct(500, 120), 100);
    assert_eq!(utilization_pct(i64::MAX, 1), 100);
    assert_eq!(utilization_pct(i64::MIN, i64::MAX), 0);
    assert_eq!(utilization_pct(30, -120), 0);
    for (b, t) in [(1i64, 3i64), (2, 3), (99, 100), (100, 100), (0, 7)] {
        let u = utilization_pct(b, t);
        assert!(u <= 100);
    }
}

#[test]
fn busy_channels_count_toward_both_accumulators() {
    // one busy channel and one idle channel in the activity subgroup:
    // the busy value joins both sums, so 30 busy / (30 + 90) total
    let deltas = vec![
        ch("GPU", "GPU Activity", "GPU Busy", 30),
        ch("GPU", "GPU Activity", "GPU Idle", 90),
    ];
    let m = parse_channels(&deltas);
    assert_eq!(m.utilization, 25);
    assert_eq!(m.temperature, 0);
    assert_eq!(m.gpu_name, "Apple GPU");
}

#[test]
fn unrelated_channels_are_ignored() {
    let deltas = vec![
        ch("CPU", "CPU Activity", "CPU Busy", 1000),
        ch("GPU", "Other", "GPU Busy", 1000),
        ch("GPU", "GPU Activity", "active residency", 50),
        ch("GPU", "GPU Activity", "idle residency", 50),
    ];
    let m = parse_channels(&deltas);
    assert_eq!(m.utilization, 50);
}

#[test]
fn first_positive_power_wins() {
    let deltas = vec![
        ch("Energy Model", "", "GPU Energy", 0),
        ch("Energy Model", "", "GPU Energy", 4200),
        ch("Energy Model", "", "GPU Energy", 9000),
    ];
    let m = parse_channels(&deltas);
    assert_eq!(m.power_mw, Some(4200));
}

#[test]
fn last_positive_core_clock_wins() {
    let deltas = vec![
        ch("GPU", "", "Core Clock A", 800),
        ch("GPU", "", "Core Clock B", 1200),
    ];
    let m = parse_channels(&deltas);
    assert_eq!(m.freq_mhz, Some(1200));
}

#[test]
fn model_name_prefix_is_picked_up() {
    let deltas = vec![
        ch("GPU", "GPU Activity", "GPU Busy", 1),
        ch("GPU", "", "Apple M2 Pro", 0),
    ];
    let m = parse_channels(&deltas);
    assert_eq!(m.gpu_name, "Apple M2 Pro");
}

#[test]
fn first_sample_yields_nothing_second_yields_reading() {
    let mut session = DeltaSession::new();
    let snap1 = vec![
        ch("GPU", "GPU Activity", "GPU Busy", 100),
        ch("GPU", "GPU Activity", "GPU Idle", 100),
    ];
    // a fresh subscription has no baseline: the first call only
    // primes it
    assert!(session.sample(snap1).is_none());
    assert!(session.has_baseline());
    let snap2 = vec![
        ch("GPU", "GPU Activity", "GPU Busy", 130),
        ch("GPU", "GPU Activity", "GPU Idle", 190),
    ];
    // deltas: busy 30, idle 90 -> total 120 -> 25 percent
    let m = session.sample(snap2).expect("second sample must yield a reading");
    assert_eq!(m.utilization, 25);
}

#[test]
fn baseline_replaced_every_sample() {
    let mut session = DeltaSession::new();
    assert!(session.sample(vec![ch("GPU", "GPU Activity", "GPU Busy", 10)]).is_none());
    let m1 = session.sample(vec![ch("GPU", "GPU Activity", "GPU Busy", 20)]).unwrap();
    assert_eq!(m1.utilization, 100);
    // the second snapshot became the new baseline: 20 -> 26 is a
    // delta of 6, not 16
    let m2 = session.sample(vec![ch("GPU", "GPU Activity", "GPU Busy", 26)]).unwrap();
    assert_eq!(m2.utilization, 100);
}

#[test]
fn channel_new_to_the_snapshot_counts_from_zero() {
    let mut session = DeltaSession::new();
    assert!(session.sample(vec![ch("GPU", "GPU Activity", "GPU Idle", 100)]).is_none());
    let m = session
        .sample(vec![
            ch("GPU", "GPU Activity", "GPU Idle", 160),
            ch("GPU", "GPU Activity", "GPU Busy", 20),
        ])
        .unwrap();
    // busy appeared fresh: delta 20 against total 20 + 60
    assert_eq!(m.utilization, 25);
}

#[test]
fn temperature_heuristic_whole_and_centi() {
    // a raw value already in whole degrees passes through
    assert_eq!(pick_temperature(&vec![45]), 45);
    // a centi-scaled value above the threshold is divided down
    assert_eq!(pick_temperature(&vec![4500]), 45);
    // out-of-range candidates are skipped; the first plausible wins
    assert_eq!(pick_temperature(&vec![0, 200, 4500, 60]), 45);
    // nothing plausible reads as unknown
    assert_eq!(pick_temperature(&vec![0, 151, 100000]), 0);
    assert_eq!(pick_temperature(&vec![]), 0);
}

#[test]
fn profiler_model_is_second_quoted_field() {
    let text = "{\n  \"SPDisplaysDataType\" : [\n    {\n      \"sppci_model\" : \"Apple M2 Pro\",\n      \"sppci_bus\" : \"spdisplays_builtin\"\n    }\n  ]\n}\n";
    assert_eq!(
        sysmon::delta::parse_profiler_model(text).as_deref(),
        Some("Apple M2 Pro")
    );
}

#[test]
fn profiler_model_absent_without_marker() {
    assert_eq!(sysmon::delta::parse_profiler_model("no such key here\n"), None);
    assert_eq!(sysmon::delta::parse_profiler_model(""), None);
    // a marker line without enough quoted fields is passed over
    let text = "sppci_model but unquoted\n\"sppci_model\" : \"Real Name\"\n";
    assert_eq!(
        sysmon::delta::parse_profiler_model(text).as_deref(),
        Some("Real Name")
    );
}

#[test]
fn saturating_arithmetic_pins_extremes() {
    assert_eq!(sat_add_i64(i64::MAX, 1), i64::MAX);
    assert_eq!(sat_add_i64(i64::MIN, -1), i64::MIN);
    assert_eq!(sat_add_i64(2, 3), 5);
    assert_eq!(sat_sub_i64(i64::MIN, 1), i64::MIN);
    assert_eq!(sat_sub_i64(10, 4), 6);
}

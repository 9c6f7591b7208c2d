use sysmon::delta::ChannelSample;
use sysmon::engine::GpuEngine;
use sysmon::gpu::GpuInfo;
use sysmon::history::HISTORY_LEN;
use sysmon::sysfs::SysfsDeviceRaw;

fn reading(name: &str, utilization: u32) -> GpuInfo {
    GpuInfo {
        name: name.to_string(),
        temperature: 50,
        utilization,
        memory_used: 100,
        memory_total: 200,
        fan_speed: Some(30),
        power_usage: Some(150_000),
        power_limit: Some(250_000),
    }
}

fn ch(group: &str, subgroup: &str, name: &str, value: i64) -> ChannelSample {
    ChannelSample {
        group: group.to_string(),
        subgroup: subgroup.to_string(),
        name: name.to_string(),
        value,
    }
}

fn raw_device(dir: &str) -> SysfsDeviceRaw {
    SysfsDeviceRaw {
        dir_name: dir.to_string(),
        device_present: true,
        uevent: None,
        busy_percent: Some("42\n".to_string()),
        vram_used: None,
        vram_total: None,
        hwmon: Vec::new(),
    }
}

#[test]
fn counter_success_locks_out_other_backends() {
    let mut engine = GpuEngine::without_counter();
    // the counter backend reported a device: the tick is settled
    let used = engine.begin_tick(vec![reading("Unit A", 60)]);
    assert!(used);
    assert!(!engine.needs_delta());
    assert!(!engine.needs_sysfs());
    assert_eq!(engine.gpus.len(), 1);

    // offers from the other backends in the same tick change nothing
    engine.offer_delta(
        Some(vec![ch("GPU", "GPU Activity", "GPU Busy", 10)]),
        &vec![45],
    );
    assert_eq!(engine.gpus.len(), 1);
    assert_eq!(engine.gpus[0].name, "Unit A");
    assert_eq!(engine.gpus[0].utilization, 60);

    let scraped = vec![raw_device("card0")];
    engine.offer_sysfs(None, Some(&scraped));
    assert_eq!(engine.gpus.len(), 1);
    assert_eq!(engine.gpus[0].name, "Unit A");
}

#[test]
fn empty_counter_falls_back_in_priority_order() {
    let mut engine = GpuEngine::without_counter();
    let used = engine.begin_tick(Vec::new());
    assert!(!used);
    assert!(engine.needs_delta());
    // delta backend unavailable on this host
    engine.offer_delta(None, &Vec::new());
    assert!(engine.needs_sysfs());
    let scraped = vec![raw_device("card0")];
    engine.offer_sysfs(None, Some(&scraped));
    assert!(!engine.needs_sysfs());
    assert_eq!(engine.gpus.len(), 1);
    assert_eq!(engine.gpus[0].name, "GPU (card0)");
    assert_eq!(engine.gpus[0].utilization, 42);
}

#[test]
fn all_backends_empty_is_a_valid_no_gpu_state() {
    let mut engine = GpuEngine::without_counter();
    engine.begin_tick(Vec::new());
    engine.offer_delta(None, &Vec::new());
    engine.offer_sysfs(None, None);
    assert!(!engine.has_gpu());
    assert_eq!(engine.gpus.len(), 0);
}

#[test]
fn delta_backend_needs_two_snapshots() {
    let mut engine = GpuEngine::without_counter();
    engine.begin_tick(Vec::new());
    // first snapshot only primes the baseline; the tick falls through
    engine.offer_delta(
        Some(vec![
            ch("GPU", "GPU Activity", "GPU Busy", 100),
            ch("GPU", "GPU Activity", "GPU Idle", 100),
            ch("GPU", "", "Apple M2", 0),
        ]),
        &Vec::new(),
    );
    assert!(engine.needs_sysfs());
    engine.offer_sysfs(None, None);

    // second tick: the delta against the baseline yields a reading
    engine.begin_tick(Vec::new());
    engine.offer_delta(
        Some(vec![
            ch("GPU", "GPU Activity", "GPU Busy", 130),
            ch("GPU", "GPU Activity", "GPU Idle", 190),
            ch("GPU", "", "Apple M2", 0),
        ]),
        &vec![4500],
    );
    assert!(!engine.needs_sysfs());
    assert_eq!(engine.gpus.len(), 1);
    assert_eq!(engine.gpus[0].name, "Apple M2");
    assert_eq!(engine.gpus[0].utilization, 25);
    assert_eq!(engine.gpus[0].temperature, 45);
    assert_eq!(engine.gpus[0].memory_used, 0);
    assert_eq!(engine.gpus[0].memory_total, 0);
}

#[test]
fn generic_model_name_asks_for_resolution() {
    let mut engine = GpuEngine::without_counter();
    engine.begin_tick(Vec::new());
    engine.offer_delta(Some(vec![ch("GPU", "GPU Activity", "GPU Busy", 10)]), &Vec::new());
    engine.offer_sysfs(None, None);
    engine.begin_tick(Vec::new());
    engine.offer_delta(Some(vec![ch("GPU", "GPU Activity", "GPU Busy", 30)]), &Vec::new());
    // no channel offered a usable model name: the reading is parked
    assert!(engine.needs_name());
    assert_eq!(engine.gpus.len(), 0);
    engine.provide_gpu_name("Apple M3 Max".to_string());
    assert!(!engine.needs_name());
    assert_eq!(engine.gpus.len(), 1);
    assert_eq!(engine.gpus[0].name, "Apple M3 Max");
    assert_eq!(engine.gpus[0].utilization, 100);
}

#[test]
fn history_window_tracks_committed_utilization() {
    let mut engine = GpuEngine::without_counter();
    engine.begin_tick(vec![reading("Unit A", 60)]);
    assert_eq!(engine.util_history.len(), 1);
    assert_eq!(engine.util_history[0].len(), HISTORY_LEN);
    assert_eq!(engine.util_history[0].get(HISTORY_LEN - 1), 60);
    engine.begin_tick(vec![reading("Unit A", 70), reading("Unit B", 10)]);
    assert_eq!(engine.util_history.len(), 2);
    assert_eq!(engine.util_history[0].len(), HISTORY_LEN);
    assert_eq!(engine.util_history[0].get(HISTORY_LEN - 1), 70);
    assert_eq!(engine.util_history[0].get(HISTORY_LEN - 2), 60);
    assert_eq!(engine.util_history[1].get(HISTORY_LEN - 1), 10);
}

#[test]
fn fallback_device_registers_once() {
    let mut engine = GpuEngine::without_counter();
    engine.add_fallback_device("Apple GPU".to_string());
    assert_eq!(engine.gpus.len(), 1);
    assert_eq!(engine.util_history.len(), 1);
    assert_eq!(engine.util_history[0].len(), HISTORY_LEN);
    // registering the same resolved name again yields one entry, not
    // two
    engine.add_fallback_device("Apple GPU".to_string());
    assert_eq!(engine.gpus.len(), 1);
    engine.add_fallback_device("Other GPU".to_string());
    assert_eq!(engine.gpus.len(), 2);
    assert_eq!(engine.gpus[1].name, "Other GPU");
    assert_eq!(engine.gpus[1].utilization, 0);
}

#[test]
fn counter_probe_on_this_host_degrades_to_empty() {
    // the real probe: on a host without the driver the backend
    // initializes to nothing and every poll is empty
    let engine = GpuEngine::new();
    let readings = engine.sample_counter();
    for r in &readings {
        assert!(r.utilization <= 100);
    }
}

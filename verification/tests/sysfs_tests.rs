use sysmon::sysfs::{parse_pci_listing, parse_uevent_slot, scan_devices, HwmonRaw, SysfsDeviceRaw};

fn raw_device(dir: &str) -> SysfsDeviceRaw {
    SysfsDeviceRaw {
        dir_name: dir.to_string(),
        device_present: true,
        uevent: None,
        busy_percent: None,
        vram_used: None,
        vram_total: None,
        hwmon: Vec::new(),
    }
}

const LISTING: &str = "00:02.0 Host bridge: Intel Corporation Device 9b61\n01:00.0 VGA compatible controller: Advanced Micro Devices, Inc.: Radeon RX 580\n02:00.0 3D controller: NVIDIA Corporation: GP108M\n";

#[test]
fn listing_keeps_only_display_lines() {
    let entries = parse_pci_listing(LISTING);
    assert_eq!(entries.len(), 2);
    assert_eq!(entries[0].slot, "01:00.0");
    assert_eq!(entries[0].product, "Radeon RX 580");
    assert_eq!(entries[1].slot, "02:00.0");
    assert_eq!(entries[1].product, "GP108M");
}

#[test]
fn listing_line_without_second_separator_keeps_whole_description() {
    let entries = parse_pci_listing("03:00.0 Display controller: Some Vendor Thing");
    assert_eq!(entries.len(), 1);
    assert_eq!(entries[0].product, "Some Vendor Thing");
}

#[test]
fn listing_tolerates_carriage_returns_and_blank_lines() {
    let entries = parse_pci_listing("\n01:00.0 VGA compatible controller: V: P\r\n\n");
    assert_eq!(entries.len(), 1);
    assert_eq!(entries[0].slot, "01:00.0");
    assert_eq!(entries[0].product, "P");
}

#[test]
fn uevent_slot_strips_key_and_domain() {
    let content = "DRIVER=amdgpu\nPCI_CLASS=30000\nPCI_SLOT_NAME=0000:01:00.0\n";
    assert_eq!(parse_uevent_slot(content).as_deref(), Some("01:00.0"));
    assert_eq!(parse_uevent_slot("DRIVER=amdgpu\n"), None);
}

#[test]
fn uevent_domain_prefix_strips_repeatedly() {
    let content = "PCI_SLOT_NAME=0000:0000:01:00.0\n";
    assert_eq!(parse_uevent_slot(content).as_deref(), Some("01:00.0"));
}

#[test]
fn listing_line_with_leading_whitespace_keeps_slot_token() {
    let entries = parse_pci_listing("   01:00.0 VGA compatible controller: V: P\n");
    assert_eq!(entries.len(), 1);
    assert_eq!(entries[0].slot, "01:00.0");
}

#[test]
fn scraped_device_resolves_name_and_fields() {
    let mut d = raw_device("card0");
    d.uevent = Some("PCI_SLOT_NAME=0000:01:00.0\n".to_string());
    d.busy_percent = Some("37\n".to_string());
    d.vram_used = Some("1048576\n".to_string());
    d.vram_total = Some("8589934592\n".to_string());
    d.hwmon = vec![HwmonRaw {
        temp_input: Some("45000\n".to_string()),
        power_average: Some("12000000\n".to_string()),
    }];
    let gpus = scan_devices(Some(LISTING), &vec![d]);
    assert_eq!(gpus.len(), 1);
    assert_eq!(gpus[0].name, "Radeon RX 580");
    assert_eq!(gpus[0].utilization, 37);
    assert_eq!(gpus[0].memory_used, 1048576);
    assert_eq!(gpus[0].memory_total, 8589934592);
    // milli-degree reading 45000 scales down to 45 degrees
    assert_eq!(gpus[0].temperature, 45);
    // micro-watt reading scales down to milliwatts
    assert_eq!(gpus[0].power_usage, Some(12000));
    assert_eq!(gpus[0].fan_speed, None);
    assert_eq!(gpus[0].power_limit, None);
}

#[test]
fn missing_vram_file_zeroes_memory_but_keeps_other_fields() {
    let mut d = raw_device("card0");
    d.busy_percent = Some("42\n".to_string());
    d.vram_total = Some("4096\n".to_string());
    d.hwmon = vec![HwmonRaw { temp_input: Some("61000\n".to_string()), power_average: None }];
    let gpus = scan_devices(None, &vec![d]);
    assert_eq!(gpus.len(), 1);
    assert_eq!(gpus[0].memory_used, 0);
    assert_eq!(gpus[0].utilization, 42);
    assert_eq!(gpus[0].temperature, 61);
    assert_eq!(gpus[0].memory_total, 4096);
}

#[test]
fn non_primary_entries_are_skipped() {
    let devs = vec![raw_device("card0-HDMI-A-1"), raw_device("renderD128"), raw_device("card1")];
    let gpus = scan_devices(None, &devs);
    assert_eq!(gpus.len(), 1);
    assert_eq!(gpus[0].name, "GPU (card1)");
}

#[test]
fn entries_without_device_directory_are_skipped() {
    let mut d = raw_device("card0");
    d.device_present = false;
    let gpus = scan_devices(None, &vec![d]);
    assert_eq!(gpus.len(), 0);
}

#[test]
fn identical_resolved_names_yield_one_entry() {
    // two entries whose slots resolve to the same product name: the
    // scan keeps exactly one device, not two
    let mut a = raw_device("card0");
    a.uevent = Some("PCI_SLOT_NAME=0000:01:00.0\n".to_string());
    let mut b = raw_device("card1");
    b.uevent = Some("PCI_SLOT_NAME=0000:01:00.0\n".to_string());
    let gpus = scan_devices(Some(LISTING), &vec![a, b]);
    assert_eq!(gpus.len(), 1);
    assert_eq!(gpus[0].name, "Radeon RX 580");
}

#[test]
fn unmatched_slot_falls_back_to_directory_name() {
    let mut d = raw_device("card2");
    d.uevent = Some("PCI_SLOT_NAME=0000:0a:00.0\n".to_string());
    let gpus = scan_devices(Some(LISTING), &vec![d]);
    assert_eq!(gpus.len(), 1);
    assert_eq!(gpus[0].name, "GPU (card2)");
}

#[test]
fn first_readable_sensor_wins() {
    let mut d = raw_device("card0");
    d.hwmon = vec![
        HwmonRaw { temp_input: None, power_average: None },
        HwmonRaw { temp_input: Some("oops".to_string()), power_average: Some("2000\n".to_string()) },
        HwmonRaw { temp_input: Some("51000\n".to_string()), power_average: Some("9000\n".to_string()) },
    ];
    let gpus = scan_devices(None, &vec![d]);
    assert_eq!(gpus[0].temperature, 51);
    assert_eq!(gpus[0].power_usage, Some(2));
}

#[test]
fn unreadable_busy_percent_reads_as_zero() {
    let mut d = raw_device("card0");
    d.busy_percent = Some("not a number".to_string());
    let gpus = scan_devices(None, &vec![d]);
    assert_eq!(gpus[0].utilization, 0);
}

#[test]
fn busy_percent_is_clamped() {
    let mut d = raw_device("card0");
    d.busy_percent = Some("250\n".to_string());
    let gpus = scan_devices(None, &vec![d]);
    assert_eq!(gpus[0].utilization, 100);
}

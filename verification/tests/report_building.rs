use hw_checker::cli::{Args, OutputFormat};
use hw_checker::cpu::{build_cpu_infos, cache_label, cache_labels, CacheParamSample, CpuSample};
use hw_checker::health::{battery_from_entry, motherboard_from_reads};
use hw_checker::model::RamInfo;
use hw_checker::report::{assemble_report, format_uptime, Identity};
use hw_checker::usb::{usb_device_from_sample, UsbDeviceSample};

fn identity() -> Identity {
    Identity {
        os_name: "TestOS".to_string(),
        os_version: "1.0".to_string(),
        kernel_version: "6.1".to_string(),
        hostname: "host".to_string(),
        uptime: 3700,
    }
}

fn empty_ram() -> RamInfo {
    RamInfo { total: 100, used: 10, free: 90, swap_total: 0, swap_used: 0, sticks: Vec::new() }
}

#[test]
fn report_from_empty_sources_still_assembles() {
    // Zero disks, zero USB devices, no firmware table access: the
    // report still comes out, with empty collections and no board.
    let report = assemble_report(
        identity(),
        Vec::new(),
        empty_ram(),
        Vec::new(),
        Vec::new(),
        Vec::new(),
        Vec::new(),
        None,
        Vec::new(),
    );
    assert_eq!(report.os_name, "TestOS");
    assert_eq!(report.hostname, "host");
    assert_eq!(report.uptime, 3700);
    assert!(report.storage.is_empty());
    assert!(report.usb.is_empty());
    assert!(report.ram.sticks.is_empty());
    assert!(report.pci.is_empty());
    assert!(report.battery.is_empty());
    assert_eq!(report.motherboard, None);
    assert_eq!(report.ram.total, 100);
}

#[test]
fn uptime_formats_days_hours_minutes() {
    assert_eq!(format_uptime(90061), "1d 1h 1m");
    assert_eq!(format_uptime(3700), "1h 1m");
    assert_eq!(format_uptime(125), "2m");
    assert_eq!(format_uptime(0), "0m");
    assert_eq!(format_uptime(86400), "1d 0h 0m");
}

#[test]
fn cache_size_is_ways_times_partitions_times_line_size_times_sets() {
    // 8 ways x 1 partition x 64-byte lines x 64 sets = 32768 bytes = 32 KB.
    let p = CacheParamSample { level: 1, ways: 8, partitions: 1, line_size: 64, sets: 64 };
    assert_eq!(cache_label(&p), "32 KB");
}

#[test]
fn cache_labels_fill_per_level_and_ignore_other_levels() {
    let params = vec![
        CacheParamSample { level: 1, ways: 8, partitions: 1, line_size: 64, sets: 64 },
        CacheParamSample { level: 2, ways: 8, partitions: 1, line_size: 64, sets: 1024 },
        CacheParamSample { level: 3, ways: 16, partitions: 1, line_size: 64, sets: 8192 },
        CacheParamSample { level: 4, ways: 1, partitions: 1, line_size: 1, sets: 1 },
    ];
    let (l1, l2, l3) = cache_labels(&params);
    assert_eq!(l1.as_deref(), Some("32 KB"));
    assert_eq!(l2.as_deref(), Some("512 KB"));
    assert_eq!(l3.as_deref(), Some("8192 KB"));
}

#[test]
fn no_cache_parameters_leave_all_labels_unset() {
    let (l1, l2, l3) = cache_labels(&Vec::new());
    assert_eq!(l1, None);
    assert_eq!(l2, None);
    assert_eq!(l3, None);
}

#[test]
fn cpu_records_broadcast_package_data_onto_every_core() {
    let samples = vec![
        CpuSample {
            model: "TestCPU".to_string(),
            vendor_id: "GenuineTest".to_string(),
            frequency: 3600,
            usage_centi: 1250,
        },
        CpuSample {
            model: "TestCPU".to_string(),
            vendor_id: "GenuineTest".to_string(),
            frequency: 3400,
            usage_centi: 500,
        },
    ];
    let l1 = Some("32 KB".to_string());
    let out = build_cpu_infos(&samples, "TestVendor", 2, &l1, &None, &None);
    assert_eq!(out.len(), 2);
    assert_eq!(out[0].frequency, 3600);
    assert_eq!(out[1].frequency, 3400);
    assert_eq!(out[1].usage_centi, 500);
    for core in &out {
        assert_eq!(core.brand, "TestVendor");
        assert_eq!(core.cores, 2);
        assert_eq!(core.l1_cache.as_deref(), Some("32 KB"));
        assert_eq!(core.l2_cache, None);
        assert_eq!(core.l3_cache, None);
    }
}

#[test]
fn usb_ids_survive_a_failed_open_with_both_strings_absent() {
    let sample = UsbDeviceSample {
        bus: 1,
        address: 4,
        vendor_id: 0x046d,
        product_id: 0xc52b,
        strings: None,
    };
    let dev = usb_device_from_sample(&sample);
    assert_eq!(dev.bus, 1);
    assert_eq!(dev.address, 4);
    assert_eq!(dev.vendor_id, 0x046d);
    assert_eq!(dev.product_id, 0xc52b);
    assert_eq!(dev.manufacturer, None);
    assert_eq!(dev.product, None);
}

#[test]
fn usb_strings_carry_over_from_a_successful_open() {
    let sample = UsbDeviceSample {
        bus: 2,
        address: 3,
        vendor_id: 0x046d,
        product_id: 0xc52b,
        strings: Some((Some("Logitech".to_string()), None)),
    };
    let dev = usb_device_from_sample(&sample);
    assert_eq!(dev.manufacturer.as_deref(), Some("Logitech"));
    assert_eq!(dev.product, None);
}

#[test]
fn motherboard_fields_degrade_independently_to_unknown() {
    let mb = motherboard_from_reads(
        Some("ASUSTeK\n".to_string()),
        None,
        Some("American Megatrends Inc.\n".to_string()),
        None,
        Some("04/20/2021\n".to_string()),
    );
    assert_eq!(mb.vendor, "ASUSTeK");
    assert_eq!(mb.product, "Unknown");
    assert_eq!(mb.bios_vendor, "American Megatrends Inc.");
    assert_eq!(mb.bios_version, "Unknown");
    assert_eq!(mb.bios_date, "04/20/2021");
}

#[test]
fn battery_entries_need_the_battery_prefix() {
    assert_eq!(battery_from_entry("AC".to_string(), None, None), None);
    assert_eq!(battery_from_entry("hidpp_battery_0".to_string(), None, None), None);
    let bat = battery_from_entry(
        "BAT0".to_string(),
        Some("Discharging\n".to_string()),
        Some("95\n".to_string()),
    )
    .unwrap();
    assert_eq!(bat.name, "BAT0");
    assert_eq!(bat.status, "Discharging");
    assert_eq!(bat.capacity, 95);
}

#[test]
fn battery_defaults_on_missing_or_malformed_reads() {
    let bat = battery_from_entry("BAT1".to_string(), None, Some("n/a".to_string())).unwrap();
    assert_eq!(bat.status, "Unknown");
    assert_eq!(bat.capacity, 0);
}

#[test]
fn section_filters_select_their_sections() {
    let args = Args {
        format: OutputFormat::Table,
        cpu: true,
        ram: false,
        storage: false,
        network: false,
        usb: false,
        pci: false,
        health: false,
        config: None,
        full: false,
        tui: false,
    };
    assert!(args.any_filter());
    let s = args.selected_sections();
    assert!(s.cpu);
    assert!(!s.ram);
    assert!(!s.health);
}

#[test]
fn full_switch_selects_every_section() {
    let args = Args {
        format: OutputFormat::Json,
        cpu: false,
        ram: false,
        storage: false,
        network: false,
        usb: false,
        pci: false,
        health: false,
        config: None,
        full: true,
        tui: false,
    };
    assert!(args.any_filter());
    let s = args.selected_sections();
    assert!(s.cpu && s.ram && s.storage && s.network && s.usb && s.pci && s.health);
}

#[test]
fn no_flags_select_nothing() {
    let args = Args {
        format: OutputFormat::Yaml,
        cpu: false,
        ram: false,
        storage: false,
        network: false,
        usb: false,
        pci: false,
        health: false,
        config: None,
        full: false,
        tui: false,
    };
    assert!(!args.any_filter());
}

use hw_checker::model::{HardwareReport, NetworkInfo, RamInfo};
use hw_checker::session::{
    next_tab, prev_tab, App, CpuMetricSample, NetMetricSample, RefreshSample, SessionInput,
    TAB_COUNT,
};

fn empty_report() -> HardwareReport {
    HardwareReport {
        os_name: "TestOS".to_string(),
        os_version: "1.0".to_string(),
        kernel_version: "6.1".to_string(),
        hostname: "host".to_string(),
        uptime: 10,
        cpu: Vec::new(),
        ram: RamInfo { total: 100, used: 10, free: 90, swap_total: 50, swap_used: 5, sticks: Vec::new() },
        storage: Vec::new(),
        network: Vec::new(),
        usb: Vec::new(),
        pci: Vec::new(),
        motherboard: None,
        battery: Vec::new(),
    }
}

#[test]
fn next_from_last_tab_wraps_to_first() {
    assert_eq!(next_tab(TAB_COUNT - 1), 0);
}

#[test]
fn previous_from_first_tab_wraps_to_last() {
    assert_eq!(prev_tab(0), TAB_COUNT - 1);
}

#[test]
fn navigation_steps_between_neighbours() {
    assert_eq!(next_tab(0), 1);
    assert_eq!(next_tab(1), 2);
    assert_eq!(prev_tab(2), 1);
}

#[test]
fn session_starts_on_first_tab() {
    let app = App::new(empty_report());
    assert_eq!(app.active_tab, 0);
}

#[test]
fn input_navigation_wraps_both_directions() {
    let mut app = App::new(empty_report());
    assert!(!app.handle_input(SessionInput::PrevTab));
    assert_eq!(app.active_tab, TAB_COUNT - 1);
    assert!(!app.handle_input(SessionInput::NextTab));
    assert_eq!(app.active_tab, 0);
}

#[test]
fn select_input_jumps_to_tab() {
    let mut app = App::new(empty_report());
    app.handle_input(SessionInput::SelectTab(2));
    assert_eq!(app.active_tab, 2);
    // An index beyond the tabs changes nothing.
    app.handle_input(SessionInput::SelectTab(9));
    assert_eq!(app.active_tab, 2);
}

#[test]
fn quit_input_ends_the_session_and_other_keys_do_nothing() {
    let mut app = App::new(empty_report());
    assert!(!app.handle_input(SessionInput::Other));
    assert_eq!(app.active_tab, 0);
    assert!(app.handle_input(SessionInput::Quit));
}

#[test]
fn refresh_updates_present_interface_and_keeps_absent_one() {
    let mut report = empty_report();
    report.network = vec![
        NetworkInfo {
            name: "eth0".to_string(),
            received: 100,
            transmitted: 200,
            mac_address: "aa:bb".to_string(),
        },
        NetworkInfo {
            name: "wlan0".to_string(),
            received: 7,
            transmitted: 8,
            mac_address: "cc:dd".to_string(),
        },
    ];
    let mut app = App::new(report);
    let sample = RefreshSample {
        cpus: Vec::new(),
        used_memory: 20,
        free_memory: 80,
        used_swap: 6,
        uptime: 11,
        networks: vec![NetMetricSample {
            name: "eth0".to_string(),
            received: 150,
            transmitted: 250,
        }],
    };
    app.update_metrics(&sample);
    // eth0 is present in the refreshed sample: updated in place by name.
    assert_eq!(app.report.network[0].received, 150);
    assert_eq!(app.report.network[0].transmitted, 250);
    assert_eq!(app.report.network[0].mac_address, "aa:bb");
    // wlan0 is absent from the refreshed sample: last known values stay.
    assert_eq!(app.report.network[1].received, 7);
    assert_eq!(app.report.network[1].transmitted, 8);
}

#[test]
fn refresh_patches_cpu_by_index_and_memory_counters() {
    let mut report = empty_report();
    report.cpu = vec![
        hw_checker::model::CpuInfo {
            model: "TestCPU".to_string(),
            vendor_id: "GenuineTest".to_string(),
            brand: "Test".to_string(),
            cores: 4,
            frequency: 2000,
            usage_centi: 1000,
            l1_cache: Some("32 KB".to_string()),
            l2_cache: None,
            l3_cache: None,
        },
        hw_checker::model::CpuInfo {
            model: "TestCPU".to_string(),
            vendor_id: "GenuineTest".to_string(),
            brand: "Test".to_string(),
            cores: 4,
            frequency: 2000,
            usage_centi: 2000,
            l1_cache: None,
            l2_cache: None,
            l3_cache: None,
        },
    ];
    let mut app = App::new(report);
    let sample = RefreshSample {
        cpus: vec![CpuMetricSample { usage_centi: 5500, frequency: 3600 }],
        used_memory: 42,
        free_memory: 58,
        used_swap: 9,
        uptime: 99,
        networks: Vec::new(),
    };
    app.update_metrics(&sample);
    // Core 0 is matched by index; core 1 has no sample and stays.
    assert_eq!(app.report.cpu[0].usage_centi, 5500);
    assert_eq!(app.report.cpu[0].frequency, 3600);
    assert_eq!(app.report.cpu[0].model, "TestCPU");
    assert_eq!(app.report.cpu[0].l1_cache.as_deref(), Some("32 KB"));
    assert_eq!(app.report.cpu[1].usage_centi, 2000);
    assert_eq!(app.report.cpu[1].frequency, 2000);
    // Memory counters and uptime are overwritten; totals stay.
    assert_eq!(app.report.ram.used, 42);
    assert_eq!(app.report.ram.free, 58);
    assert_eq!(app.report.ram.swap_used, 9);
    assert_eq!(app.report.ram.total, 100);
    assert_eq!(app.report.ram.swap_total, 50);
    assert_eq!(app.report.uptime, 99);
}

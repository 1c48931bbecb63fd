use hw_checker::pci::{annotate_pci_devices, pci_device_from_sample, PciFunctionSample};
use hw_checker::pci_db::PciDb;

fn fixture_lines() -> Vec<String> {
    vec![
        "# PCI ID registry fixture".to_string(),
        "".to_string(),
        "10de NVIDIA Corporation".to_string(),
        "\t1b80 GP104 [GeForce GTX 1080]".to_string(),
        "\t\t1043 8591 ROG STRIX GTX 1080".to_string(),
        "8086 Intel Corporation".to_string(),
        "\t1237 440FX - 82441FX PMC [Natoma]".to_string(),
        "C 03 Display controller".to_string(),
        "bad line without hex id".to_string(),
    ]
}

#[test]
fn lookup_known_pair_returns_both_names() {
    let db = PciDb::parse(&fixture_lines());
    let (vendor, device) = db.lookup(0x10de, 0x1b80);
    assert_eq!(vendor.as_deref(), Some("NVIDIA Corporation"));
    assert_eq!(device.as_deref(), Some("GP104 [GeForce GTX 1080]"));
}

#[test]
fn lookup_unknown_device_under_known_vendor_falls_back() {
    let db = PciDb::parse(&fixture_lines());
    let (vendor, device) = db.lookup(0x10de, 0xabcd);
    assert_eq!(vendor.as_deref(), Some("NVIDIA Corporation"));
    assert_eq!(device, None);
}

#[test]
fn lookup_unknown_vendor_returns_no_names() {
    let db = PciDb::parse(&fixture_lines());
    let (vendor, device) = db.lookup(0x1234, 0x5678);
    assert_eq!(vendor, None);
    assert_eq!(device, None);
}

#[test]
fn second_vendor_record_is_indexed_too() {
    let db = PciDb::parse(&fixture_lines());
    let (vendor, device) = db.lookup(0x8086, 0x1237);
    assert_eq!(vendor.as_deref(), Some("Intel Corporation"));
    assert_eq!(device.as_deref(), Some("440FX - 82441FX PMC [Natoma]"));
}

#[test]
fn subsystem_lines_are_not_modeled() {
    let db = PciDb::parse(&fixture_lines());
    // The two-tab subsystem id must not have been filed as a device of
    // the current vendor.
    let (_, device) = db.lookup(0x10de, 0x1043);
    assert_eq!(device, None);
}

#[test]
fn comment_class_and_malformed_lines_are_skipped() {
    let lines = vec![
        "# only comments".to_string(),
        "C 02 Network controller".to_string(),
        "zzzz Not Hex".to_string(),
    ];
    let db = PciDb::parse(&lines);
    let (vendor, device) = db.lookup(0x02, 0x0001);
    assert_eq!(vendor, None);
    assert_eq!(device, None);
}

#[test]
fn device_line_before_any_vendor_is_ignored() {
    let lines = vec!["\t1b80 Orphan Device".to_string(), "10de NVIDIA Corporation".to_string()];
    let db = PciDb::parse(&lines);
    let (_, device) = db.lookup(0x10de, 0x1b80);
    assert_eq!(device, None);
}

#[test]
fn empty_database_degrades_every_lookup() {
    let db = PciDb::empty();
    let (vendor, device) = db.lookup(0x10de, 0x1b80);
    assert_eq!(vendor, None);
    assert_eq!(device, None);
}

#[test]
fn annotation_keeps_ids_and_resolves_names() {
    let db = PciDb::parse(&fixture_lines());
    let raw = vec![
        PciFunctionSample { slot: "00:02.0".to_string(), vendor_id: 0x10de, device_id: 0x1b80 },
        PciFunctionSample { slot: "00:1f.3".to_string(), vendor_id: 0x1234, device_id: 0x0001 },
    ];
    let out = annotate_pci_devices(&db, &raw);
    assert_eq!(out.len(), 2);
    assert_eq!(out[0].slot, "00:02.0");
    assert_eq!(out[0].vendor_id, 0x10de);
    assert_eq!(out[0].device_id, 0x1b80);
    assert_eq!(out[0].vendor_name.as_deref(), Some("NVIDIA Corporation"));
    assert_eq!(out[0].device_name.as_deref(), Some("GP104 [GeForce GTX 1080]"));
    assert_eq!(out[0].class_name, None);
    assert_eq!(out[1].vendor_name, None);
    assert_eq!(out[1].device_name, None);
}

#[test]
fn single_function_annotation_matches_lookup() {
    let db = PciDb::parse(&fixture_lines());
    let sample = PciFunctionSample {
        slot: "01:00.0".to_string(),
        vendor_id: 0x8086,
        device_id: 0xffff,
    };
    let dev = pci_device_from_sample(&db, &sample);
    // 0xffff is the sentinel: the vendor-only entry itself.
    assert_eq!(dev.vendor_name.as_deref(), Some("Intel Corporation"));
    assert_eq!(dev.device_name, None);
}

use hw_checker::mem::{
    build_ram_sticks, clean_field, map_ram_manufacturer, stick_from_record, MemoryDeviceRecord,
};

fn record(manufacturer: &str, part: &str, serial: &str, speed: Option<&str>) -> MemoryDeviceRecord {
    MemoryDeviceRecord {
        manufacturer: manufacturer.to_string(),
        part_number: part.to_string(),
        serial_number: serial.to_string(),
        speed_raw: speed.map(|s| s.to_string()),
    }
}

#[test]
fn clean_keeps_ordinary_values_trimmed() {
    assert_eq!(clean_field("  Samsung  ").as_deref(), Some("Samsung"));
}

#[test]
fn clean_discards_placeholders() {
    assert_eq!(clean_field(""), None);
    assert_eq!(clean_field("   "), None);
    assert_eq!(clean_field("Unknown"), None);
    assert_eq!(clean_field("UNKNOWN"), None);
    assert_eq!(clean_field("none"), None);
    assert_eq!(clean_field("Not Specified"), None);
    assert_eq!(clean_field("Empty Slot"), None);
    assert_eq!(clean_field("0"), None);
}

#[test]
fn clean_keeps_zero_prefixed_codes() {
    // Only a literal "0" is a placeholder; "0198" is a real code.
    assert_eq!(clean_field("0198").as_deref(), Some("0198"));
}

#[test]
fn manufacturer_codes_map_to_vendor_names() {
    assert_eq!(map_ram_manufacturer("0198"), "Kingston");
    assert_eq!(map_ram_manufacturer("04CB"), "ADATA");
    assert_eq!(map_ram_manufacturer("00AD"), "SK Hynix");
    assert_eq!(map_ram_manufacturer("80AD"), "SK Hynix");
    assert_eq!(map_ram_manufacturer("00CE"), "Samsung");
    assert_eq!(map_ram_manufacturer("80CE"), "Samsung");
    assert_eq!(map_ram_manufacturer("012F"), "Micron");
    assert_eq!(map_ram_manufacturer("812F"), "Micron");
    assert_eq!(map_ram_manufacturer("029E"), "Corsair");
    assert_eq!(map_ram_manufacturer("829E"), "Corsair");
    assert_eq!(map_ram_manufacturer("0423"), "Crucial");
    assert_eq!(map_ram_manufacturer("8423"), "Crucial");
    assert_eq!(map_ram_manufacturer("059B"), "Crucial");
    assert_eq!(map_ram_manufacturer("859B"), "Crucial");
}

#[test]
fn manufacturer_match_is_case_insensitive_and_by_substring() {
    assert_eq!(map_ram_manufacturer("Mfg 80ad Rev2"), "SK Hynix");
}

#[test]
fn unmatched_manufacturer_code_passes_through() {
    assert_eq!(map_ram_manufacturer("SomeVendor"), "SomeVendor");
}

#[test]
fn speed_parsing_extracts_digits_from_unit_suffix() {
    let stick = stick_from_record(&record("Samsung", "M378A1K43CB2", "12345", Some("3200 MT/s")))
        .unwrap();
    assert_eq!(stick.speed, Some(3200));
}

#[test]
fn speed_digits_are_collected_across_non_digits() {
    let stick = stick_from_record(&record("Samsung", "part", "sn", Some("MTs(2667)"))).unwrap();
    assert_eq!(stick.speed, Some(2667));
}

#[test]
fn zero_speed_maps_to_none_never_some_zero() {
    let stick = stick_from_record(&record("Samsung", "part", "sn", Some("0 MT/s"))).unwrap();
    assert_eq!(stick.speed, None);
}

#[test]
fn digitless_speed_maps_to_none() {
    let stick = stick_from_record(&record("Samsung", "part", "sn", Some("Unknown"))).unwrap();
    assert_eq!(stick.speed, None);
}

#[test]
fn missing_speed_field_stays_none() {
    let stick = stick_from_record(&record("Samsung", "part", "sn", None)).unwrap();
    assert_eq!(stick.speed, None);
}

#[test]
fn overlong_speed_maps_to_none() {
    // 99999 does not fit the speed field; the parse counts as zero.
    let stick = stick_from_record(&record("Samsung", "part", "sn", Some("99999 MT/s"))).unwrap();
    assert_eq!(stick.speed, None);
}

#[test]
fn record_with_placeholder_manufacturer_is_excluded_entirely() {
    let recs = vec![
        record("Samsung", "part-a", "sn-a", Some("3200")),
        record("Unknown", "part-b", "sn-b", Some("3200")),
        record("0198", "part-c", "sn-c", None),
    ];
    let sticks = build_ram_sticks(&recs);
    // The count strictly decreases: the placeholder record is gone, not
    // present with empty fields.
    assert_eq!(sticks.len(), 2);
    assert_eq!(sticks[0].manufacturer.as_deref(), Some("Samsung"));
    assert_eq!(sticks[1].manufacturer.as_deref(), Some("Kingston"));
    assert_eq!(sticks[1].part_number.as_deref(), Some("part-c"));
}

#[test]
fn cleaned_fields_propagate_into_the_stick() {
    let stick =
        stick_from_record(&record("  80CE  ", "  M378A1K43CB2  ", "Not Specified", Some("2400")))
            .unwrap();
    assert_eq!(stick.manufacturer.as_deref(), Some("Samsung"));
    assert_eq!(stick.part_number.as_deref(), Some("M378A1K43CB2"));
    assert_eq!(stick.serial_number, None);
    assert_eq!(stick.speed, Some(2400));
}

use diskinfo::device::{capacity_gib_text, controller_label, disk_name, media_gib_text, DkMinfo};
use diskinfo::instance_map::{physical_address, resolve_module, PhysicalAddress};
use diskinfo::report::{device_module, disk_report, passes_inspection, DeviceProbe};
use diskinfo::stats::{stat_filter_name, stat_value, StatError, StatField, StatRecord, StatValue};
use diskinfo::text::{contains_chars, split_chars};

fn text_field(name: &str, value: &str) -> StatField {
    StatField { name: name.to_string(), value: StatValue::Text(value.to_string()) }
}

fn identity_record(vendor: &str, product: &str, serial: &str) -> StatRecord {
    StatRecord {
        fields: vec![
            StatField { name: "Soft Errors".to_string(), value: StatValue::UInt32(0) },
            text_field("Vendor", vendor),
            text_field("Product", product),
            text_field("Serial No", serial),
        ],
    }
}

fn addr(bus: &str, instance: &str) -> PhysicalAddress {
    PhysicalAddress { bus: bus.to_string(), instance: instance.to_string() }
}

const LINK: &str = "../../devices/pci@0,0/pci15ad,1976@10/sd@0,0:q,raw";

#[test]
fn unknown_controller_codes() {
    for code in [0u16, 1, 12, 14, 19, 21, 100, u16::MAX] {
        assert_eq!(controller_label(code), "UNKNOWN");
    }
}

#[test]
fn known_controller_codes() {
    assert_eq!(controller_label(20), "ATA");
    assert_eq!(controller_label(13), "SCSI");
}

#[test]
fn gib_of_round_numbers() {
    assert_eq!(capacity_gib_text(512, 2097152), "1.00");
    assert_eq!(capacity_gib_text(512, 1048576), "0.50");
    assert_eq!(capacity_gib_text(4096, 26214400), "100.00");
}

#[test]
fn gib_of_zero_and_small() {
    assert_eq!(capacity_gib_text(0, 123), "0.00");
    assert_eq!(capacity_gib_text(512, 0), "0.00");
    assert_eq!(capacity_gib_text(1, 1), "0.00");
}

#[test]
fn gib_rounds_to_nearest_hundredth() {
    // 1.004 GiB rounds down, 1.006 GiB rounds up.
    let gib: u64 = 1 << 30;
    assert_eq!(capacity_gib_text(1, gib + gib * 4 / 1000), "1.00");
    assert_eq!(capacity_gib_text(1, gib + gib * 6 / 1000), "1.01");
    // exactly 0.125 GiB is a tie: to even.
    assert_eq!(capacity_gib_text(1, gib / 8), "0.12");
    assert_eq!(capacity_gib_text(1, gib * 3 / 8), "0.38");
}

#[test]
fn gib_of_largest_inputs() {
    assert_eq!(capacity_gib_text(u32::MAX, u64::MAX), "73786976277658337276.00");
}

#[test]
fn gib_of_media_record() {
    let m = DkMinfo { dki_media_type: 0, dki_lbsize: 512, dki_capacity: 2097152 };
    assert_eq!(media_gib_text(&m), "1.00");
}

#[test]
fn whole_disk_suffix_kept() {
    assert_eq!(disk_name("c0t0d0p0"), Some("c0t0d0".to_string()));
    assert_eq!(disk_name("c1t5000CCA0d0p0"), Some("c1t5000CCA0d0".to_string()));
}

#[test]
fn other_suffixes_excluded() {
    assert_eq!(disk_name("c0t0d0s0"), None);
    assert_eq!(disk_name("c0t0d0p1"), None);
    assert_eq!(disk_name("0"), None);
    assert_eq!(disk_name(""), None);
    assert_eq!(disk_name("p0"), Some(String::new()));
}

#[test]
fn address_from_link_target() {
    let a = physical_address(LINK).unwrap();
    assert_eq!(a.bus, "pci15ad,1976@10");
    assert_eq!(a.instance, "sd@0,0");
}

#[test]
fn address_needs_two_segments() {
    assert!(physical_address("sd@0,0:q,raw").is_none());
    assert!(physical_address("").is_none());
    let a = physical_address("a/b").unwrap();
    assert_eq!(a.bus, "a");
    assert_eq!(a.instance, "b");
}

#[test]
fn last_matching_instance_line_wins() {
    let map = "\"/pci@0,0/pci15ad,1976@10/sd@0,0\" 3 \"sd\"\n\
               \"/pci@0,0/pci15ad,1976@10/sd@1,0\" 4 \"sd\"\n\
               \"/pci@0,0/pci15ad,1976@10/sd@0,0\" 7 \"sd\"\n\
               \"/pci@0,0/other@2/sd@0,0\" 9 \"sd\"\n";
    let r = resolve_module(map, &addr("pci15ad,1976@10", "sd@0,0"));
    assert_eq!(r, Some("sd7".to_string()));
}

#[test]
fn single_matching_instance_line() {
    let map = "\"/pci@0,0/pci15ad,1976@10/sd@0,0\" 3 \"sd\"\n\"/pci@0,0\" 0 \"pci\"\n";
    assert_eq!(resolve_module(map, &addr("pci15ad,1976@10", "sd@0,0")), Some("sd3".to_string()));
}

#[test]
fn instance_tokens_skip_repeated_spaces() {
    let map = "\"/pci@0,0/pci15ad,1976@10/sd@0,0\"   5   \"sd\"  \n";
    assert_eq!(resolve_module(map, &addr("pci15ad,1976@10", "sd@0,0")), Some("sd5".to_string()));
}

#[test]
fn no_matching_instance_line() {
    let map = "\"/pci@0,0/pci15ad,1976@10/sd@1,0\" 4 \"sd\"\n";
    assert_eq!(resolve_module(map, &addr("pci15ad,1976@10", "sd@0,0")), None);
    assert_eq!(resolve_module("", &addr("pci15ad,1976@10", "sd@0,0")), None);
}

#[test]
fn matching_line_without_instance_token() {
    let map = "\"/pci@0,0/pci15ad,1976@10/sd@0,0\" 3 \"sd\"\npci15ad,1976@10/sd@0,0\n";
    assert_eq!(resolve_module(map, &addr("pci15ad,1976@10", "sd@0,0")), None);
}

#[test]
fn filter_name_of_module() {
    assert_eq!(stat_filter_name("sd3"), "sd3,err");
    assert_eq!(stat_filter_name(""), ",err");
}

#[test]
fn last_statistics_record_wins() {
    let records = vec![identity_record("OLD", "P0", "S0"), identity_record("NEW", "P1", "S1")];
    assert_eq!(stat_value(&records, "Vendor"), Ok("NEW".to_string()));
    assert_eq!(stat_value(&records, "Product"), Ok("P1".to_string()));
    assert_eq!(stat_value(&records, "Serial No"), Ok("S1".to_string()));
}

#[test]
fn statistics_errors() {
    let records = vec![identity_record("ACME", "DISK1", "S123")];
    assert_eq!(stat_value(&records, "Revision"), Err(StatError::MissingField));
    assert_eq!(stat_value(&records, "Soft Errors"), Err(StatError::UnexpectedKind));
    assert_eq!(stat_value(&Vec::new(), "Vendor"), Ok(String::new()));
}

#[test]
fn earlier_record_without_field_is_an_error() {
    let records = vec![
        StatRecord { fields: vec![text_field("Product", "P0")] },
        identity_record("ACME", "DISK1", "S123"),
    ];
    assert_eq!(stat_value(&records, "Vendor"), Err(StatError::MissingField));
    assert_eq!(stat_value(&records, "Product"), Ok("DISK1".to_string()));
}

#[test]
fn earlier_record_with_number_is_an_error() {
    let records = vec![
        StatRecord { fields: vec![StatField { name: "Vendor".to_string(), value: StatValue::UInt64(7) }] },
        identity_record("ACME", "DISK1", "S123"),
    ];
    assert_eq!(stat_value(&records, "Vendor"), Err(StatError::UnexpectedKind));
}

#[test]
fn first_failing_record_gives_the_error() {
    let records = vec![
        StatRecord { fields: vec![StatField { name: "Vendor".to_string(), value: StatValue::Int32(-1) }] },
        StatRecord { fields: vec![] },
    ];
    assert_eq!(stat_value(&records, "Vendor"), Err(StatError::UnexpectedKind));
}

#[test]
fn inspection_decision() {
    assert!(passes_inspection(true, 0));
    assert!(!passes_inspection(true, 1));
    assert!(!passes_inspection(true, -1));
    assert!(!passes_inspection(false, 0));
}

#[test]
fn removable_device_skipped() {
    let map = "\"/pci@0,0/pci15ad,1976@10/sd@0,0\" 3 \"sd\"\n";
    let probe = DeviceProbe { opened: true, removable: 1, link_target: Some(LINK.to_string()) };
    assert_eq!(device_module(&probe, map), None);
}

#[test]
fn unopened_device_skipped() {
    let map = "\"/pci@0,0/pci15ad,1976@10/sd@0,0\" 3 \"sd\"\n";
    let probe = DeviceProbe { opened: false, removable: 0, link_target: Some(LINK.to_string()) };
    assert_eq!(device_module(&probe, map), None);
}

#[test]
fn unreadable_link_skipped() {
    let map = "\"/pci@0,0/pci15ad,1976@10/sd@0,0\" 3 \"sd\"\n";
    let probe = DeviceProbe { opened: true, removable: 0, link_target: None };
    assert_eq!(device_module(&probe, map), None);
}

#[test]
fn report_error_order() {
    let m = DkMinfo { dki_media_type: 0, dki_lbsize: 512, dki_capacity: 1 };
    let records = vec![StatRecord { fields: vec![text_field("Vendor", "ACME")] }];
    assert_eq!(disk_report("c0t0d0", 13, &m, &records).err(), Some(StatError::MissingField));
}

#[test]
fn end_to_end_one_disk() {
    let node = "c0t0d0p0";
    let disk = disk_name(node).unwrap();
    let map = "\"/pci@0,0\" 0 \"pci\"\n\"/pci@0,0/pci15ad,1976@10/sd@0,0\" 3 \"sd\"\n";
    let probe = DeviceProbe { opened: true, removable: 0, link_target: Some(LINK.to_string()) };
    let module = device_module(&probe, map).unwrap();
    assert_eq!(module, "sd3");
    assert_eq!(stat_filter_name(&module), "sd3,err");
    let records = vec![identity_record("ACME", "DISK1", "S123")];
    let m = DkMinfo { dki_media_type: 0, dki_lbsize: 512, dki_capacity: 1048576 };
    let row = disk_report(&disk, 20, &m, &records).unwrap();
    assert_eq!(row.ctype, "ATA");
    assert_eq!(row.disk, "c0t0d0");
    assert_eq!(row.vendor, "ACME");
    assert_eq!(row.product, "DISK1");
    assert_eq!(row.serial, "S123");
    assert_eq!(row.size_gib, "0.50");
}

#[test]
fn split_on_separator() {
    let s: Vec<char> = "a//b/".chars().collect();
    let p = split_chars(&s, '/');
    let got: Vec<String> = p.iter().map(|v| v.iter().collect()).collect();
    assert_eq!(got, vec!["a", "", "b", ""]);
    assert_eq!(split_chars(&Vec::new(), '/').len(), 1);
}

#[test]
fn substring_search() {
    let hay: Vec<char> = "pci15ad,1976@10".chars().collect();
    let yes: Vec<char> = "1976@".chars().collect();
    let no: Vec<char> = "1977".chars().collect();
    assert!(contains_chars(&hay, &yes));
    assert!(!contains_chars(&hay, &no));
    assert!(contains_chars(&hay, &Vec::new()));
    assert!(contains_chars(&hay, &hay));
}


use arp_scan::addrs::MacAddress;
use arp_scan::vendor::Vendor;
use arp_scan::vendor::VendorRecord;
use arp_scan::vendor::oui_key_string;

fn record(oui: &str, name: &str) -> VendorRecord {
    VendorRecord {
        oui: oui.to_string(),
        name: Some(name.to_string()),
    }
}

fn sample_vendor() -> Vendor {
    Vendor::from_records(Some(vec![
        record("002272", "American Micro-Fuel Device Corp."),
        record("010101", "SomeCorp"),
        record("405582", "Nokia"),
        record("405582", "Shadowed Duplicate"),
        record("CC9DA2", "Eltex Enterprise Ltd."),
    ]))
}

#[test]
fn should_report_loaded_database() {
    assert_eq!(sample_vendor().has_vendor_db(), true);
}

#[test]
fn should_handle_missing_database() {
    let vendor = Vendor::from_records(None);

    assert_eq!(vendor.has_vendor_db(), false);
    assert_eq!(
        vendor.search_by_mac(&MacAddress(0x40, 0x55, 0x82, 0xc3, 0xe5, 0x5b)),
        None
    );
}

#[test]
fn should_find_vendor_by_oui() {
    let vendor = sample_vendor();
    let mac = MacAddress(0x40, 0x55, 0x82, 0xc3, 0xe5, 0x5b);

    assert_eq!(vendor.search_by_mac(&mac), Some("Nokia".to_string()));
}

#[test]
fn should_find_first_matching_record() {
    let vendor = sample_vendor();
    let mac = MacAddress(0x00, 0x22, 0x72, 0xd7, 0xb5, 0x23);

    assert_eq!(
        vendor.search_by_mac(&mac),
        Some("American Micro-Fuel Device Corp.".to_string())
    );
}

#[test]
fn should_handle_unknown_oui() {
    let vendor = sample_vendor();
    let mac = MacAddress(0xbb, 0xbb, 0xbb, 0xd2, 0xf5, 0xb6);

    assert_eq!(vendor.search_by_mac(&mac), None);
}

#[test]
fn should_pad_key_with_zeroes() {
    // The key of 01:01:01 must be 010101, never 1 1 1: an unpadded key
    // would miss its entry.
    let vendor = sample_vendor();
    let mac = MacAddress(0x01, 0x01, 0x01, 0x67, 0xb2, 0x1d);

    assert_eq!(oui_key_string(&mac), "010101".to_string());
    assert_eq!(vendor.search_by_mac(&mac), Some("SomeCorp".to_string()));
}

#[test]
fn should_fill_in_nameless_records() {
    let vendor = Vendor::from_records(Some(vec![VendorRecord {
        oui: "0A0B0C".to_string(),
        name: None,
    }]));
    let mac = MacAddress(0x0a, 0x0b, 0x0c, 0x00, 0x00, 0x00);

    assert_eq!(vendor.search_by_mac(&mac), Some("(no vendor)".to_string()));
}

#[test]
fn should_render_uppercase_keys() {
    assert_eq!(
        oui_key_string(&MacAddress(0xcc, 0x9d, 0xa2, 0x14, 0x2e, 0x6f)),
        "CC9DA2".to_string()
    );
}

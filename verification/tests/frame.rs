use arp_scan::addrs::Ipv4Address;
use arp_scan::addrs::MacAddress;
use arp_scan::frame::build_arp_request;
use arp_scan::options::OutputFormat;
use arp_scan::options::ProfileType;
use arp_scan::options::ScanOptions;
use arp_scan::options::ScanTiming;

fn plain_options() -> ScanOptions {
    ScanOptions {
        profile: ProfileType::Default,
        interface_name: None,
        network_range: None,
        timeout_ms: 2000,
        resolve_hostname: true,
        source_ipv4: None,
        source_mac: None,
        destination_mac: None,
        vlan_id: None,
        retry_count: 1,
        scan_timing: ScanTiming::Interval(10),
        randomize_targets: false,
        output: OutputFormat::Plain,
        oui_file: "/usr/share/arp-scan/ieee-oui.csv".to_string(),
        hw_type: None,
        hw_addr: None,
        proto_type: None,
        proto_addr: None,
        arp_operation: None,
        packet_help: false,
    }
}

const IFACE_MAC: MacAddress = MacAddress(0x02, 0x11, 0x22, 0x33, 0x44, 0x55);

#[test]
fn should_build_42_byte_arp_frame() {
    let frame = build_arp_request(
        &IFACE_MAC,
        &Ipv4Address::new(192, 168, 0, 7),
        &Ipv4Address::new(192, 168, 0, 9),
        &plain_options(),
    );

    assert_eq!(frame.len(), 42);
    // Destination: broadcast; source: the interface's address.
    assert_eq!(&frame[0..6], &[0xff; 6]);
    assert_eq!(&frame[6..12], &[0x02, 0x11, 0x22, 0x33, 0x44, 0x55]);
    // Ethernet type: ARP.
    assert_eq!(&frame[12..14], &[0x08, 0x06]);
    // Hardware Ethernet, protocol IPv4, lengths 6 and 4, operation request.
    assert_eq!(&frame[14..22], &[0x00, 0x01, 0x08, 0x00, 0x06, 0x04, 0x00, 0x01]);
    // Sender hardware and protocol addresses.
    assert_eq!(&frame[22..28], &[0x02, 0x11, 0x22, 0x33, 0x44, 0x55]);
    assert_eq!(&frame[28..32], &[192, 168, 0, 7]);
    // Target hardware and protocol addresses.
    assert_eq!(&frame[32..38], &[0xff; 6]);
    assert_eq!(&frame[38..42], &[192, 168, 0, 9]);
}

#[test]
fn should_build_46_byte_frame_on_vlan_45() {
    let mut options = plain_options();
    options.vlan_id = Some(45);

    let frame = build_arp_request(
        &IFACE_MAC,
        &Ipv4Address::new(10, 0, 0, 1),
        &Ipv4Address::new(10, 0, 0, 1),
        &options,
    );

    assert_eq!(frame.len(), 46);
    assert_eq!(&frame[12..14], &[0x81, 0x00]);
    // Priority 1, not drop-eligible, VLAN id 45.
    let tci = (frame[14] as u16) * 256 + frame[15] as u16;
    assert_eq!(tci >> 13, 1);
    assert_eq!((tci >> 12) & 1, 0);
    assert_eq!(tci & 0x0fff, 45);
    // Inner Ethernet type: ARP.
    assert_eq!(&frame[16..18], &[0x08, 0x06]);
}

#[test]
fn should_permit_vlan_zero_as_priority_tag() {
    let mut options = plain_options();
    options.vlan_id = Some(0);

    let frame = build_arp_request(
        &IFACE_MAC,
        &Ipv4Address::new(10, 0, 0, 1),
        &Ipv4Address::new(10, 0, 0, 2),
        &options,
    );

    assert_eq!(frame.len(), 46);
    assert_eq!(&frame[12..14], &[0x81, 0x00]);
    assert_eq!(&frame[14..16], &[0x20, 0x00]);
    assert_eq!(&frame[16..18], &[0x08, 0x06]);
}

#[test]
fn should_honor_field_overrides() {
    let mut options = plain_options();
    options.destination_mac = Some(MacAddress(0x00, 0x01, 0x02, 0x03, 0x04, 0x05));
    options.source_mac = Some(MacAddress(0x0a, 0x0b, 0x0c, 0x0d, 0x0e, 0x0f));
    options.hw_type = Some(6);
    options.proto_type = Some(0x86dd);
    options.hw_addr = Some(8);
    options.proto_addr = Some(16);
    options.arp_operation = Some(2);

    let frame = build_arp_request(
        &IFACE_MAC,
        &Ipv4Address::new(10, 0, 0, 1),
        &Ipv4Address::new(10, 0, 0, 2),
        &options,
    );

    assert_eq!(&frame[0..6], &[0x00, 0x01, 0x02, 0x03, 0x04, 0x05]);
    assert_eq!(&frame[6..12], &[0x0a, 0x0b, 0x0c, 0x0d, 0x0e, 0x0f]);
    assert_eq!(&frame[14..22], &[0x00, 0x06, 0x86, 0xdd, 0x08, 0x10, 0x00, 0x02]);
    assert_eq!(&frame[22..28], &[0x0a, 0x0b, 0x0c, 0x0d, 0x0e, 0x0f]);
}

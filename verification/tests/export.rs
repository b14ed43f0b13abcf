use arp_scan::accumulator::ResponseSummary;
use arp_scan::accumulator::TargetDetails;
use arp_scan::addrs::Ipv4Address;
use arp_scan::addrs::MacAddress;
use arp_scan::addrs::ipv4_string;
use arp_scan::addrs::mac_string;
use arp_scan::addrs::parse_ipv4;
use arp_scan::addrs::parse_mac;
use arp_scan::export::get_serializable_result;
use arp_scan::export::sort_targets;

fn target(a: u8, b: u8, c: u8, d: u8) -> TargetDetails {
    TargetDetails {
        ipv4: Ipv4Address::new(a, b, c, d),
        mac: MacAddress(0xde, 0xad, 0xbe, 0xef, 0x00, 0x01),
        hostname: None,
        vendor: None,
    }
}

#[test]
fn should_sort_targets_by_address() {
    let mut targets = vec![
        target(192, 168, 1, 30),
        target(10, 0, 0, 1),
        target(192, 168, 1, 2),
    ];
    sort_targets(&mut targets);

    assert_eq!(targets[0].ipv4, Ipv4Address::new(10, 0, 0, 1));
    assert_eq!(targets[1].ipv4, Ipv4Address::new(192, 168, 1, 2));
    assert_eq!(targets[2].ipv4, Ipv4Address::new(192, 168, 1, 30));
}

#[test]
fn should_serialize_summary_and_fields() {
    let summary = ResponseSummary {
        packet_count: 7,
        arp_count: 3,
        duration_ms: 2500,
    };
    let mut detail = target(192, 168, 1, 35);
    detail.hostname = Some("printer.local".to_string());
    let result = get_serializable_result(summary, vec![detail]);

    assert_eq!(result.packet_count, 7);
    assert_eq!(result.arp_count, 3);
    assert_eq!(result.duration_ms, 2500);
    assert_eq!(result.results.len(), 1);
    assert_eq!(result.results[0].ipv4, "192.168.1.35".to_string());
    assert_eq!(result.results[0].mac, "de:ad:be:ef:00:01".to_string());
    assert_eq!(result.results[0].hostname, "printer.local".to_string());
    assert_eq!(result.results[0].vendor, "".to_string());
}

#[test]
fn should_render_addresses() {
    assert_eq!(
        ipv4_string(&Ipv4Address::new(192, 168, 1, 1)),
        "192.168.1.1".to_string()
    );
    assert_eq!(ipv4_string(&Ipv4Address::new(0, 0, 0, 0)), "0.0.0.0".to_string());
    assert_eq!(
        mac_string(&MacAddress(0x00, 0x1a, 0xff, 0x05, 0x90, 0xab)),
        "00:1a:ff:05:90:ab".to_string()
    );
}

#[test]
fn should_parse_addresses() {
    assert_eq!(parse_ipv4("192.168.1.1"), Some(Ipv4Address::new(192, 168, 1, 1)));
    assert_eq!(parse_ipv4("255.255.255.255"), Some(Ipv4Address::new(255, 255, 255, 255)));
    assert_eq!(parse_ipv4("256.0.0.1"), None);
    assert_eq!(parse_ipv4("1.2.3"), None);
    assert_eq!(parse_ipv4("1.2.3.4.5"), None);
    assert_eq!(parse_ipv4("01.2.3.4"), None);
    assert_eq!(parse_ipv4(""), None);

    assert_eq!(
        parse_mac("12:34:56:78:90:ab"),
        Some(MacAddress(0x12, 0x34, 0x56, 0x78, 0x90, 0xab))
    );
    assert_eq!(
        parse_mac("FF:FF:FF:FF:FF:FF"),
        Some(MacAddress(0xff, 0xff, 0xff, 0xff, 0xff, 0xff))
    );
    assert_eq!(parse_mac("12:34:56:78:90"), None);
    assert_eq!(parse_mac("12:34:56:78:90:ab:cd"), None);
    assert_eq!(parse_mac("::::::"), None);
    assert_eq!(parse_mac("zz:34:56:78:90:ab"), None);
}

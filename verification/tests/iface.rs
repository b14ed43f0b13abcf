use arp_scan::addrs::Ipv4Address;
use arp_scan::addrs::MacAddress;
use arp_scan::iface::InterfaceInfo;
use arp_scan::iface::InterfaceIp;
use arp_scan::iface::compute_network_configuration;
use arp_scan::iface::find_source_ip;
use arp_scan::iface::select_default_interface;
use arp_scan::options::OutputFormat;
use arp_scan::options::ProfileType;
use arp_scan::options::ScanOptions;
use arp_scan::options::ScanTiming;
use arp_scan::range::Cidr;

fn cidr(a: u8, b: u8, c: u8, d: u8, prefix: u8) -> Cidr {
    Cidr {
        ip: Ipv4Address::new(a, b, c, d).value,
        prefix,
    }
}

fn iface(name: &str, up: bool, loopback: bool, ips: Vec<InterfaceIp>) -> InterfaceInfo {
    InterfaceInfo {
        name: name.to_string(),
        mac: Some(MacAddress(2, 0, 0, 0, 0, 1)),
        is_up: up,
        is_loopback: loopback,
        ips,
    }
}

fn base_options() -> ScanOptions {
    ScanOptions {
        profile: ProfileType::Default,
        interface_name: None,
        network_range: None,
        timeout_ms: 2000,
        resolve_hostname: true,
        source_ipv4: None,
        source_mac: None,
        destination_mac: None,
        vlan_id: None,
        retry_count: 1,
        scan_timing: ScanTiming::Interval(10),
        randomize_targets: false,
        output: OutputFormat::Plain,
        oui_file: "/usr/share/arp-scan/ieee-oui.csv".to_string(),
        hw_type: None,
        hw_addr: None,
        proto_type: None,
        proto_addr: None,
        arp_operation: None,
        packet_help: false,
    }
}

#[test]
fn should_skip_unusable_interfaces() {
    let interfaces = vec![
        iface("lo", true, true, vec![InterfaceIp::V4(cidr(127, 0, 0, 1, 8))]),
        iface("down0", false, false, vec![InterfaceIp::V4(cidr(10, 0, 0, 2, 24))]),
        iface("v6only", true, false, vec![InterfaceIp::Other]),
        iface("eth0", true, false, vec![InterfaceIp::V4(cidr(10, 0, 0, 3, 24))]),
    ];

    assert_eq!(select_default_interface(&interfaces), Some(3));
}

#[test]
fn should_find_no_default_interface() {
    let interfaces = vec![iface("lo", true, true, vec![InterfaceIp::V4(cidr(127, 0, 0, 1, 8))])];

    assert_eq!(select_default_interface(&interfaces), None);
}

#[test]
fn should_prefer_forced_source_ip() {
    let i = iface("eth0", true, false, vec![InterfaceIp::V4(cidr(10, 0, 0, 3, 24))]);

    assert_eq!(
        find_source_ip(&i, Some(Ipv4Address::new(192, 168, 0, 42))),
        Some(Ipv4Address::new(192, 168, 0, 42))
    );
    assert_eq!(find_source_ip(&i, None), Some(Ipv4Address::new(10, 0, 0, 3)));
}

#[test]
fn should_find_no_source_ip_without_ipv4() {
    let i = iface("v6only", true, false, vec![InterfaceIp::Other]);

    assert_eq!(find_source_ip(&i, None), None);
}

#[test]
fn should_pick_interface_by_name() {
    let interfaces = vec![
        iface("eth0", true, false, vec![InterfaceIp::V4(cidr(10, 0, 0, 3, 24))]),
        iface("wlan0", true, false, vec![InterfaceIp::V4(cidr(192, 168, 1, 9, 24))]),
    ];
    let mut options = base_options();
    options.interface_name = Some("wlan0".to_string());

    let (ix, networks) = compute_network_configuration(&interfaces, &options).unwrap();
    assert_eq!(ix, 1);
    assert_eq!(networks, vec![cidr(192, 168, 1, 9, 24)]);
}

#[test]
fn should_prefer_requested_networks() {
    let interfaces = vec![iface("eth0", true, false, vec![InterfaceIp::V4(cidr(10, 0, 0, 3, 24))])];
    let mut options = base_options();
    options.network_range = Some(vec![cidr(172, 16, 0, 0, 30)]);

    let (ix, networks) = compute_network_configuration(&interfaces, &options).unwrap();
    assert_eq!(ix, 0);
    assert_eq!(networks, vec![cidr(172, 16, 0, 0, 30)]);
}

#[test]
fn should_report_missing_interface() {
    let interfaces = vec![iface("eth0", true, false, vec![InterfaceIp::V4(cidr(10, 0, 0, 3, 24))])];
    let mut options = base_options();
    options.interface_name = Some("tun9".to_string());

    assert_eq!(
        compute_network_configuration(&interfaces, &options).unwrap_err(),
        "Could not find interface with name tun9".to_string()
    );
}

#[test]
fn should_report_missing_default_interface() {
    let interfaces: Vec<InterfaceInfo> = vec![];

    assert_eq!(
        compute_network_configuration(&interfaces, &base_options()).unwrap_err(),
        "Could not find a default network interface".to_string()
    );
}

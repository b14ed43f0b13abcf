use arp_scan::addrs::Ipv4Address;
use arp_scan::addrs::MacAddress;
use arp_scan::options::OutputFormat;
use arp_scan::options::ProfileType;
use arp_scan::options::RawArgs;
use arp_scan::options::ScanOptions;
use arp_scan::options::ScanTiming;
use arp_scan::options::compute_networks;
use arp_scan::range::Cidr;

fn cidr(a: u8, b: u8, c: u8, d: u8, prefix: u8) -> Cidr {
    Cidr {
        ip: Ipv4Address::new(a, b, c, d).value,
        prefix,
    }
}

fn empty_args() -> RawArgs {
    RawArgs {
        profile: None,
        interface: None,
        file_lines: None,
        network: None,
        timeout: None,
        source_ip: None,
        destination_mac: None,
        source_mac: None,
        vlan: None,
        retry_count: None,
        interval: None,
        bandwidth: None,
        oui_file: None,
        numeric: false,
        random: false,
        output: None,
        hw_type: None,
        hw_addr: None,
        proto_type: None,
        proto_addr: None,
        arp_operation: None,
        packet_help: false,
    }
}

#[test]
fn should_have_no_network_default() {
    let networks = compute_networks(None, None);
    assert_eq!(networks, Ok(None));
}

#[test]
fn should_handle_single_ipv4_arg() {
    let networks = compute_networks(None, Some(&"192.168.1.20".to_string()));

    let target_network = vec![cidr(192, 168, 1, 20, 32)];

    assert_eq!(networks, Ok(Some(target_network)));
}

#[test]
fn should_handle_multiple_ipv4_arg() {
    let networks = compute_networks(None, Some(&"192.168.1.20,192.168.1.50".to_string()));

    let target_network = vec![cidr(192, 168, 1, 20, 32), cidr(192, 168, 1, 50, 32)];

    assert_eq!(networks, Ok(Some(target_network)));
}

#[test]
fn should_handle_single_network_arg() {
    let networks = compute_networks(None, Some(&"192.168.1.0/24".to_string()));

    let target_network = vec![cidr(192, 168, 1, 0, 24)];

    assert_eq!(networks, Ok(Some(target_network)));
}

#[test]
fn should_handle_network_mix_arg() {
    let networks = compute_networks(
        None,
        Some(&"192.168.20.1,192.168.1.0/24,192.168.5.4/28".to_string()),
    );

    let target_network = vec![
        cidr(192, 168, 20, 1, 32),
        cidr(192, 168, 1, 0, 24),
        cidr(192, 168, 5, 4, 28),
    ];

    assert_eq!(networks, Ok(Some(target_network)));
}

#[test]
fn should_handle_file_input() {
    let lines = vec![
        "192.168.1.1".to_string(),
        "192.168.1.2".to_string(),
        "192.168.2.0/29".to_string(),
    ];
    let networks = compute_networks(Some(&lines), None);

    let target_network = vec![
        cidr(192, 168, 1, 1, 32),
        cidr(192, 168, 1, 2, 32),
        cidr(192, 168, 2, 0, 29),
    ];

    assert_eq!(networks, Ok(Some(target_network)));
}

#[test]
fn should_fail_incorrect_network() {
    let networks = compute_networks(None, Some(&"500.10.10.10/24".to_string()));

    assert_eq!(
        networks,
        Err("Expected valid IPv4 network range (invalid address: 500.10.10.10/24)".to_string())
    );
}

#[test]
fn should_fail_bad_prefix() {
    let networks = compute_networks(None, Some(&"10.0.0.0/33".to_string()));

    assert_eq!(
        networks,
        Err("Expected valid IPv4 network range (invalid prefix)".to_string())
    );

    let networks = compute_networks(None, Some(&"10.0.0.0/255.255.0.255".to_string()));

    assert_eq!(
        networks,
        Err("Expected valid IPv4 network range (invalid prefix)".to_string())
    );
}

#[test]
fn should_fail_unreadable_network() {
    let networks = compute_networks(None, Some(&"no-network".to_string()));

    assert_eq!(
        networks,
        Err("Expected valid IPv4 network range (invalid address: no-network)".to_string())
    );
}

#[test]
fn should_apply_default_profile() {
    let options = ScanOptions::new(&empty_args()).unwrap();

    assert_eq!(options.profile, ProfileType::Default);
    assert_eq!(options.timeout_ms, 2000);
    assert_eq!(options.retry_count, 1);
    assert_eq!(options.scan_timing, ScanTiming::Interval(10));
    assert!(options.resolve_hostname);
    assert!(!options.randomize_targets);
    assert_eq!(options.output, OutputFormat::Plain);
    assert_eq!(options.oui_file, "/usr/share/arp-scan/ieee-oui.csv".to_string());
    assert_eq!(options.vlan_id, None);
}

#[test]
fn should_apply_fast_profile() {
    let mut args = empty_args();
    args.profile = Some("fast".to_string());
    let options = ScanOptions::new(&args).unwrap();

    assert_eq!(options.profile, ProfileType::Fast);
    assert_eq!(options.timeout_ms, 800);
    assert_eq!(options.scan_timing, ScanTiming::Interval(0));
}

#[test]
fn should_apply_stealth_profile() {
    let mut args = empty_args();
    args.profile = Some("s".to_string());
    let options = ScanOptions::new(&args).unwrap();

    assert_eq!(options.profile, ProfileType::Stealth);
    assert_eq!(options.scan_timing, ScanTiming::Interval(20));
    assert!(!options.resolve_hostname);
    assert!(options.randomize_targets);
}

#[test]
fn should_apply_chaos_profile() {
    let mut args = empty_args();
    args.profile = Some("chaos".to_string());
    let options = ScanOptions::new(&args).unwrap();

    assert_eq!(options.profile, ProfileType::Chaos);
    assert_eq!(options.retry_count, 2);
    assert!(options.randomize_targets);
    assert!(options.resolve_hostname);
}

#[test]
fn should_reject_unknown_profile() {
    let mut args = empty_args();
    args.profile = Some("bogus".to_string());

    assert_eq!(
        ScanOptions::new(&args).unwrap_err(),
        "Expected correct profile name (default/fast/stealth/chaos)".to_string()
    );
}

#[test]
fn should_parse_every_field() {
    let mut args = empty_args();
    args.network = Some("10.0.0.0/30".to_string());
    args.timeout = Some("5s".to_string());
    args.source_ip = Some("192.168.0.42".to_string());
    args.destination_mac = Some("12:34:56:78:90:ab".to_string());
    args.source_mac = Some("ff:ff:ff:ff:ff:fe".to_string());
    args.vlan = Some("45".to_string());
    args.retry_count = Some("3".to_string());
    args.interval = Some("20ms".to_string());
    args.output = Some("json".to_string());
    args.hw_type = Some("1".to_string());
    args.hw_addr = Some("6".to_string());
    args.proto_type = Some("2048".to_string());
    args.proto_addr = Some("4".to_string());
    args.arp_operation = Some("1".to_string());
    args.numeric = true;

    let options = ScanOptions::new(&args).unwrap();

    assert_eq!(options.network_range, Some(vec![cidr(10, 0, 0, 0, 30)]));
    assert_eq!(options.timeout_ms, 5000);
    assert_eq!(options.source_ipv4, Some(Ipv4Address::new(192, 168, 0, 42)));
    assert_eq!(
        options.destination_mac,
        Some(MacAddress(0x12, 0x34, 0x56, 0x78, 0x90, 0xab))
    );
    assert_eq!(
        options.source_mac,
        Some(MacAddress(0xff, 0xff, 0xff, 0xff, 0xff, 0xfe))
    );
    assert_eq!(options.vlan_id, Some(45));
    assert_eq!(options.retry_count, 3);
    assert_eq!(options.scan_timing, ScanTiming::Interval(20));
    assert_eq!(options.output, OutputFormat::Json);
    assert_eq!(options.hw_type, Some(1));
    assert_eq!(options.hw_addr, Some(6));
    assert_eq!(options.proto_type, Some(2048));
    assert_eq!(options.proto_addr, Some(4));
    assert_eq!(options.arp_operation, Some(1));
    assert!(!options.resolve_hostname);
}

#[test]
fn should_accept_vlan_zero() {
    let mut args = empty_args();
    args.vlan = Some("0".to_string());
    let options = ScanOptions::new(&args).unwrap();

    assert_eq!(options.vlan_id, Some(0));
}

#[test]
fn should_pick_bandwidth_timing() {
    let mut args = empty_args();
    args.bandwidth = Some("336000".to_string());
    let options = ScanOptions::new(&args).unwrap();

    assert_eq!(options.scan_timing, ScanTiming::Bandwidth(336000));
}

#[test]
fn should_reject_bad_interval() {
    let mut args = empty_args();
    args.interval = Some("3z".to_string());

    assert_eq!(
        ScanOptions::new(&args).unwrap_err(),
        "Expected correct interval, invalid milliseconds".to_string()
    );
}

#[test]
fn should_reject_bad_source_ip() {
    let mut args = empty_args();
    args.source_ip = Some("960.0.0.1".to_string());

    assert_eq!(
        ScanOptions::new(&args).unwrap_err(),
        "Expected valid IPv4 as source IP".to_string()
    );
}

#[test]
fn should_reject_bad_vlan() {
    let mut args = empty_args();
    args.vlan = Some("70000".to_string());

    assert_eq!(
        ScanOptions::new(&args).unwrap_err(),
        "Expected valid VLAN identifier".to_string()
    );
}

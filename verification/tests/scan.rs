use arp_scan::accumulator::ScanAccumulator;
use arp_scan::addrs::Ipv4Address;
use arp_scan::addrs::MacAddress;
use arp_scan::frame::build_arp_request;
use arp_scan::options::OutputFormat;
use arp_scan::options::ProfileType;
use arp_scan::options::ScanOptions;
use arp_scan::options::ScanTiming;
use arp_scan::range::Cidr;
use arp_scan::schedule::SenderSchedule;
use arp_scan::timing::compute_scan_estimation;

fn cidr(a: u8, b: u8, c: u8, d: u8, prefix: u8) -> Cidr {
    Cidr {
        ip: Ipv4Address::new(a, b, c, d).value,
        prefix,
    }
}

fn options_with(timing: ScanTiming, retry_count: usize, timeout_ms: u64) -> ScanOptions {
    ScanOptions {
        profile: ProfileType::Default,
        interface_name: None,
        network_range: None,
        timeout_ms,
        resolve_hostname: true,
        source_ipv4: None,
        source_mac: None,
        destination_mac: None,
        vlan_id: None,
        retry_count,
        scan_timing: timing,
        randomize_targets: false,
        output: OutputFormat::Plain,
        oui_file: "/usr/share/arp-scan/ieee-oui.csv".to_string(),
        hw_type: None,
        hw_addr: None,
        proto_type: None,
        proto_addr: None,
        arp_operation: None,
        packet_help: false,
    }
}

/// A well-formed ARP reply frame from the given sender.
fn reply_frame(sender_ip: Ipv4Address, sender_mac: MacAddress) -> Vec<u8> {
    let mut options = options_with(ScanTiming::Interval(10), 1, 500);
    options.source_mac = Some(sender_mac);
    options.source_ipv4 = Some(sender_ip);
    options.arp_operation = Some(2);
    build_arp_request(
        &sender_mac,
        &sender_ip,
        &Ipv4Address::new(10, 0, 0, 99),
        &options,
    )
}

fn drain_schedule(schedule: &mut SenderSchedule) -> Vec<u32> {
    let mut out = Vec::new();
    while let Some(ip) = schedule.next_emission(false) {
        out.push(ip.value);
    }
    out
}

#[test]
fn should_emit_one_frame_for_single_host() {
    let networks = vec![cidr(10, 0, 0, 5, 32)];
    let mut schedule = SenderSchedule::new(&networks, 1, false);

    let emissions = drain_schedule(&mut schedule);
    assert_eq!(emissions, vec![Ipv4Address::new(10, 0, 0, 5).value]);

    let frame = build_arp_request(
        &MacAddress(0x02, 0, 0, 0, 0, 1),
        &Ipv4Address::new(10, 0, 0, 1),
        &Ipv4Address::new(10, 0, 0, 5),
        &options_with(ScanTiming::Interval(10), 1, 500),
    );
    assert_eq!(&frame[38..42], &[10, 0, 0, 5]);
}

#[test]
fn should_emit_nothing_with_zero_retries() {
    let networks = vec![cidr(10, 0, 0, 0, 24)];
    let mut schedule = SenderSchedule::new(&networks, 0, false);

    assert_eq!(schedule.next_emission(false), None);
}

#[test]
fn should_emit_nothing_over_empty_networks() {
    let networks: Vec<Cidr> = vec![];
    let mut schedule = SenderSchedule::new(&networks, 3, true);

    assert_eq!(schedule.next_emission(false), None);
}

#[test]
fn should_stop_emitting_once_cancelled() {
    let networks = vec![cidr(10, 0, 0, 0, 22)];
    let mut schedule = SenderSchedule::new(&networks, 1, false);

    assert!(schedule.next_emission(false).is_some());
    assert_eq!(schedule.next_emission(true), None);
    // Cancellation does not consume targets; clearing it resumes.
    assert!(schedule.next_emission(false).is_some());
}

#[test]
fn should_emit_randomized_block_once_per_pass() {
    let networks = vec![cidr(10, 0, 0, 0, 28)];
    let mut schedule = SenderSchedule::new(&networks, 1, true);

    let mut emissions = drain_schedule(&mut schedule);
    assert_eq!(emissions.len(), 16);
    emissions.sort();
    let base = Ipv4Address::new(10, 0, 0, 0).value;
    for (k, v) in emissions.iter().enumerate() {
        assert_eq!(*v, base + k as u32);
    }
}

#[test]
fn should_emit_two_randomized_passes() {
    let networks = vec![cidr(10, 0, 0, 0, 29)];
    let mut schedule = SenderSchedule::new(&networks, 2, true);

    let mut emissions = drain_schedule(&mut schedule);
    assert_eq!(emissions.len(), 16);
    emissions.sort();
    let base = Ipv4Address::new(10, 0, 0, 0).value;
    for (k, v) in emissions.iter().enumerate() {
        assert_eq!(*v, base + (k / 2) as u32);
    }
}

#[test]
fn should_count_and_filter_received_frames() {
    let mut acc = ScanAccumulator::new();

    // A frame too short for an Ethernet header.
    acc.process_frame(&[0u8; 10]);
    // An Ethernet frame that is not ARP.
    let mut ipv4_frame = vec![0u8; 60];
    ipv4_frame[12] = 0x08;
    ipv4_frame[13] = 0x00;
    acc.process_frame(&ipv4_frame);
    // An ARP frame cut short of its payload.
    let mut short_arp = vec![0u8; 20];
    short_arp[12] = 0x08;
    short_arp[13] = 0x06;
    acc.process_frame(&short_arp);
    // A whole ARP reply.
    let reply = reply_frame(
        Ipv4Address::new(192, 168, 1, 35),
        MacAddress(0xaa, 0xbb, 0xcc, 0x00, 0x11, 0x22),
    );
    acc.process_frame(&reply);

    assert_eq!(acc.packet_count, 4);
    assert_eq!(acc.arp_count, 1);
    assert_eq!(acc.targets.len(), 1);
    assert_eq!(acc.targets[0].ipv4, Ipv4Address::new(192, 168, 1, 35));
    assert_eq!(acc.targets[0].mac, MacAddress(0xaa, 0xbb, 0xcc, 0x00, 0x11, 0x22));
    assert_eq!(acc.targets[0].hostname, None);
    assert_eq!(acc.targets[0].vendor, None);
}

#[test]
fn should_keep_most_recent_reply_per_sender() {
    let mut acc = ScanAccumulator::new();
    let ip = Ipv4Address::new(192, 168, 1, 35);

    acc.process_frame(&reply_frame(ip, MacAddress(1, 1, 1, 1, 1, 1)));
    acc.process_frame(&reply_frame(
        Ipv4Address::new(192, 168, 1, 36),
        MacAddress(2, 2, 2, 2, 2, 2),
    ));
    acc.process_frame(&reply_frame(ip, MacAddress(3, 3, 3, 3, 3, 3)));

    assert_eq!(acc.targets.len(), 2);
    assert_eq!(acc.targets[0].ipv4, ip);
    assert_eq!(acc.targets[0].mac, MacAddress(3, 3, 3, 3, 3, 3));
    assert_eq!(acc.targets[1].ipv4, Ipv4Address::new(192, 168, 1, 36));
    assert!(acc.arp_count <= acc.packet_count);
    assert!(acc.targets.len() <= acc.arp_count);
}

#[test]
fn should_finalize_into_summary() {
    let mut acc = ScanAccumulator::new();
    acc.process_frame(&reply_frame(
        Ipv4Address::new(10, 0, 0, 1),
        MacAddress(1, 2, 3, 4, 5, 6),
    ));
    let (summary, targets) = acc.into_summary(1234);

    assert_eq!(summary.packet_count, 1);
    assert_eq!(summary.arp_count, 1);
    assert_eq!(summary.duration_ms, 1234);
    assert_eq!(targets.len(), 1);
}

#[test]
fn should_estimate_bandwidth_capped_scan() {
    // 256 hosts at 42 bytes each, 86_016 bits, under a 336 kbit/s budget.
    let options = options_with(ScanTiming::Bandwidth(336_000), 1, 2000);
    let estimation = compute_scan_estimation(256, &options);

    assert_eq!(estimation.request_size, 10_752);
    assert_eq!(estimation.bandwidth, 336_000);
    // 86_016_000 / 336_000 = 256 ms of emission; the per-request budget of
    // 1 ms falls below the assumed 3 ms cost, so the interval clamps to
    // zero.
    assert_eq!(estimation.interval_ms, 0);
    assert_eq!(estimation.duration_ms, 256 + 2000 + 500);
}

#[test]
fn should_estimate_interval_scan() {
    let options = options_with(ScanTiming::Interval(10), 1, 2000);
    let estimation = compute_scan_estimation(256, &options);

    assert_eq!(estimation.request_size, 10_752);
    assert_eq!(estimation.interval_ms, 10);
    // 256 requests, 13 ms each.
    assert_eq!(estimation.duration_ms, 3328 + 2000 + 500);
    assert_eq!(estimation.bandwidth, 10_752_000 / 3328);
}

#[test]
fn should_estimate_vlan_packet_size() {
    let mut options = options_with(ScanTiming::Interval(0), 1, 800);
    options.vlan_id = Some(45);
    let estimation = compute_scan_estimation(16, &options);

    assert_eq!(estimation.request_size, 16 * 46);
}

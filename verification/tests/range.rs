use arp_scan::addrs::Ipv4Address;
use arp_scan::range::Cidr;
use arp_scan::range::NetworkIterator;
use arp_scan::range::compute_network_size;
use arp_scan::range::host_count_of_networks;
use arp_scan::range::parse_cidr;

fn cidr(a: u8, b: u8, c: u8, d: u8, prefix: u8) -> Cidr {
    Cidr {
        ip: Ipv4Address::new(a, b, c, d).value,
        prefix,
    }
}

fn ip(a: u8, b: u8, c: u8, d: u8) -> Ipv4Address {
    Ipv4Address::new(a, b, c, d)
}

fn drain(mut it: NetworkIterator) -> Vec<u32> {
    let mut out = Vec::new();
    while let Some(addr) = it.next() {
        out.push(addr.value);
    }
    out
}

#[test]
fn should_iterate_over_empty_networks() {
    let mut iterator = NetworkIterator::new(&vec![], false);

    assert_eq!(iterator.next(), None);
}

#[test]
fn should_iterate_over_single_address() {
    let target_network = vec![cidr(192, 168, 1, 1, 32)];

    let mut iterator = NetworkIterator::new(&target_network, false);

    assert_eq!(iterator.next(), Some(ip(192, 168, 1, 1)));
    assert_eq!(iterator.next(), None);
}

#[test]
fn should_iterate_over_multiple_address() {
    let target_network = vec![cidr(192, 168, 1, 1, 24)];

    let mut iterator = NetworkIterator::new(&target_network, false);

    assert_eq!(iterator.next(), Some(ip(192, 168, 1, 0)));
    assert_eq!(iterator.next(), Some(ip(192, 168, 1, 1)));
    assert_eq!(iterator.next(), Some(ip(192, 168, 1, 2)));
}

#[test]
fn should_iterate_over_multiple_networks() {
    let target_network = vec![cidr(192, 168, 1, 1, 32), cidr(10, 10, 20, 20, 32)];

    let mut iterator = NetworkIterator::new(&target_network, false);

    assert_eq!(iterator.next(), Some(ip(192, 168, 1, 1)));
    assert_eq!(iterator.next(), Some(ip(10, 10, 20, 20)));
    assert_eq!(iterator.next(), None);
}

#[test]
fn should_iterate_with_random() {
    let target_network = vec![cidr(192, 168, 1, 1, 32), cidr(10, 10, 20, 20, 32)];

    let mut iterator = NetworkIterator::new(&target_network, true);

    assert_eq!(iterator.next().is_some(), true);
    assert_eq!(iterator.next().is_some(), true);
    assert_eq!(iterator.next(), None);
}

#[test]
fn should_yield_whole_block_in_order() {
    let addrs = drain(NetworkIterator::new(&vec![cidr(192, 168, 1, 1, 24)], false));

    assert_eq!(addrs.len(), 256);
    let base = ip(192, 168, 1, 0).value;
    for (k, v) in addrs.iter().enumerate() {
        assert_eq!(*v, base + k as u32);
    }
}

#[test]
fn should_randomize_to_the_same_multiset() {
    let networks = vec![cidr(10, 0, 0, 0, 28), cidr(192, 168, 5, 4, 30)];

    let mut sequential = drain(NetworkIterator::new(&networks, false));
    let mut randomized = drain(NetworkIterator::new(&networks, true));

    sequential.sort();
    randomized.sort();
    assert_eq!(sequential, randomized);
}

#[test]
fn should_randomize_large_block_past_pool_refills() {
    let networks = vec![cidr(10, 1, 0, 0, 21)];

    let mut sequential = drain(NetworkIterator::new(&networks, false));
    let mut randomized = drain(NetworkIterator::new(&networks, true));

    assert_eq!(sequential.len(), 2048);
    sequential.sort();
    randomized.sort();
    assert_eq!(sequential, randomized);
}

#[test]
fn should_parse_plain_address_as_full_prefix() {
    assert_eq!(parse_cidr("192.168.1.20"), Some(cidr(192, 168, 1, 20, 32)));
}

#[test]
fn should_parse_network_with_prefix() {
    assert_eq!(parse_cidr("192.168.1.0/24"), Some(cidr(192, 168, 1, 0, 24)));
}

#[test]
fn should_parse_network_with_netmask() {
    assert_eq!(
        parse_cidr("10.0.0.0/255.255.255.0"),
        Some(cidr(10, 0, 0, 0, 24))
    );
}

#[test]
fn should_reject_unreadable_networks() {
    assert_eq!(parse_cidr("500.10.10.10/24"), None);
    assert_eq!(parse_cidr("no-network"), None);
    assert_eq!(parse_cidr("10.0.0.0/33"), None);
    assert_eq!(parse_cidr("10.0.0.0/8/8"), None);
    assert_eq!(parse_cidr("10.0.0.0/255.255.0.255"), None);
    assert_eq!(parse_cidr("01.2.3.4"), None);
}

#[test]
fn should_compute_network_sizes() {
    assert_eq!(compute_network_size(&cidr(192, 168, 1, 1, 32)), 1);
    assert_eq!(compute_network_size(&cidr(192, 168, 1, 1, 24)), 256);
    assert_eq!(compute_network_size(&cidr(10, 0, 0, 0, 8)), 16_777_216);
    assert_eq!(compute_network_size(&cidr(0, 0, 0, 0, 0)), 4_294_967_296);
}

#[test]
fn should_count_hosts_across_networks() {
    let networks = vec![cidr(10, 0, 0, 0, 28), cidr(192, 168, 1, 1, 32)];

    assert_eq!(host_count_of_networks(&networks), 17);
}

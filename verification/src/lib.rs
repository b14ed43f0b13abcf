//! Core of an ARP scanner: wire-format encoding of Ethernet/802.1Q/ARP
//! request frames, a streaming iterator over unions of IPv4 networks with
//! optional randomized ordering, a timing planner, the receiver-side
//! accumulator of ARP replies, the sender emission schedule, and the
//! post-scan enrichment rules (OUI vendor lookup, hostname acceptance).

pub mod accumulator;
pub mod addrs;
pub mod digits;
pub mod export;
pub mod frame;
pub mod iface;
pub mod options;
pub mod range;
pub mod schedule;
pub mod time;
pub mod vendor;
pub mod timing;

//! Scan options: what the user asked for, resolved against profile
//! defaults, with every textual field parsed and checked.

use vstd::prelude::*;

use crate::addrs::Ipv4Address;
use crate::addrs::MacAddress;
use crate::addrs::spec_parse_ipv4;
use crate::addrs::spec_parse_mac;
use crate::addrs::parse_ipv4;
use crate::addrs::parse_mac;
use crate::digits::parse_u64_spec;
use crate::digits::parse_u64_range;
use crate::digits::run_until;
use crate::digits::scan_until;
use crate::range::Cidr;
use crate::range::cidr_failure_is_prefix;
use crate::range::cidr_prefix_failed;
use crate::range::spec_parse_cidr;
use crate::range::parse_cidr;
use crate::time::spec_parse_to_milliseconds;
use crate::time::parse_to_milliseconds;

verus! {

/// How the results are rendered at the end of the scan.
#[derive(Clone, Copy, PartialEq, Eq, Structural, Debug)]
pub enum OutputFormat {
    Plain,
    Json,
    Yaml,
    Csv,
}

/// A named bundle of default options.
#[derive(Clone, Copy, PartialEq, Eq, Structural, Debug)]
pub enum ProfileType {
    Default,
    Fast,
    Stealth,
    Chaos,
}

/// The user's rate intent: a fixed pause between requests, or a bit-rate
/// budget from which the pause is derived.
#[derive(Clone, Copy, PartialEq, Eq, Structural, Debug)]
pub enum ScanTiming {
    Interval(u64),
    Bandwidth(u64),
}

/// Does `s` name this exact string?
fn string_is(s: &String, lit: &str) -> (r: bool)
    ensures
        r == (s@ == lit@),
{
    let owned = String::from_str(lit);
    s.eq(&owned)
}

/// The pieces of `s` from `from` on, split at every comma, as the standard
/// library splits.
pub open spec fn split_commas(s: Seq<char>, from: int) -> Seq<Seq<char>>
    recommends
        0 <= from <= s.len(),
    decreases s.len() - from,
{
    let l = run_until(s, from, ',');
    if from + l >= s.len() {
        seq![s.subrange(from, from + l)]
    } else {
        seq![s.subrange(from, from + l)] + split_commas(s, from + l + 1)
    }
}

/// Split `s` at every comma.
fn split_commas_exec(s: &String) -> (r: Vec<String>)
    ensures
        r.deep_view() == split_commas(s@, 0),
{
    let n = s.as_str().unicode_len();
    let mut parts: Vec<String> = Vec::new();
    let mut from: usize = 0;
    proof {
        assert(split_commas(s@, 0) =~~= parts.deep_view() + split_commas(s@, 0));
    }
    loop
        invariant_except_break
            split_commas(s@, 0) =~~= parts.deep_view() + split_commas(s@, from as int),
        invariant
            from <= n == s@.len(),
        ensures
            split_commas(s@, 0) =~~= parts.deep_view(),
        decreases n - from,
    {
        let ghost parts_before = parts.deep_view();
        let l = scan_until(s.as_str(), from, ',');
        let piece = s.as_str().substring_char(from, from + l);
        parts.push(String::from_str(piece));
        proof {
            assert(parts.deep_view() =~= parts_before.push(piece@));
            assert(piece@ == s@.subrange(from as int, from as int + l as int));
        }
        if from + l >= n {
            proof {
                assert(split_commas(s@, from as int) =~= seq![
                    s@.subrange(from as int, from as int + l as int),
                ]);
                assert(parts.deep_view() =~~= parts_before + split_commas(s@, from as int));
            }
            break ;
        }
        proof {
            assert(split_commas(s@, from as int) =~~= seq![
                s@.subrange(from as int, from as int + l as int),
            ] + split_commas(s@, from as int + l + 1));
            assert(parts.deep_view() + split_commas(s@, from as int + l + 1) =~~= parts_before
                + split_commas(s@, from as int));
        }
        from = from + l + 1;
    }
    parts
}

/// The list of network texts the user asked to scan: the lines of the given
/// file, or the comma-separated pieces of the `network` argument, or
/// nothing when neither (or both) came.
pub open spec fn required_network_texts(
    file_lines: Option<Seq<Seq<char>>>,
    network_value: Option<Seq<char>>,
) -> Option<Seq<Seq<char>>> {
    match (file_lines, network_value) {
        (Some(lines), None) => Some(lines),
        (None, Some(raw)) => Some(split_commas(raw, 0)),
        _ => None,
    }
}

/// The complaint one unreadable network text earns, as ipnetwork words its
/// failure kinds: a failure on the prefix alone is its own kind, any other
/// names the whole text.
#[verifier::opaque]
pub open spec fn network_text_error(t: Seq<char>) -> Seq<char> {
    if cidr_failure_is_prefix(t) {
        "Expected valid IPv4 network range (invalid prefix)"@
    } else {
        "Expected valid IPv4 network range (invalid address: "@ + t + ")"@
    }
}

/// The networks named by a list of texts: each text read in CIDR notation,
/// or the first failure reported.
pub open spec fn networks_of_texts(ts: Seq<Seq<char>>) -> Result<Seq<Cidr>, Seq<char>>
    decreases ts.len(),
{
    if ts.len() == 0 {
        Ok(Seq::empty())
    } else {
        match spec_parse_cidr(ts[0]) {
            Some(c) => match networks_of_texts(ts.drop_first()) {
                Ok(rest) => Ok(seq![c] + rest),
                Err(e) => Err(e),
            },
            None => Err(network_text_error(ts[0])),
        }
    }
}

/// What `compute_networks` returns, over the views of its inputs.
#[verifier::opaque]
pub open spec fn spec_compute_networks(
    file_lines: Option<Seq<Seq<char>>>,
    network_value: Option<Seq<char>>,
) -> Result<Option<Seq<Cidr>>, Seq<char>> {
    match required_network_texts(file_lines, network_value) {
        None => Ok(None),
        Some(ts) => match networks_of_texts(ts) {
            Ok(cs) => Ok(Some(cs)),
            Err(e) => Err(e),
        },
    }
}

/// The view of an optional string.
pub open spec fn opt_str_view(o: Option<&String>) -> Option<Seq<char>> {
    match o {
        Some(s) => Some(s@),
        None => None,
    }
}

/// The deep view of optional file lines.
pub open spec fn opt_lines_view(o: Option<&Vec<String>>) -> Option<Seq<Seq<char>>> {
    match o {
        Some(v) => Some(v.deep_view()),
        None => None,
    }
}

/// Gather the network texts the user asked to scan, from the lines of the
/// file given with one flag or the comma-separated value of the other.
pub fn list_required_networks(
    file_lines: Option<&Vec<String>>,
    network_value: Option<&String>,
) -> (r: Option<Vec<String>>)
    ensures
        (match (r, required_network_texts(opt_lines_view(file_lines), opt_str_view(network_value))) {
            (Some(v), Some(ts)) => v.deep_view() == ts,
            (None, None) => true,
            _ => false,
        }),
{
    match (file_lines, network_value) {
        (Some(lines), None) => {
            let mut copied: Vec<String> = Vec::new();
            let mut i: usize = 0;
            while i < lines.len()
                invariant
                    i <= lines@.len(),
                    copied.deep_view() =~= lines.deep_view().subrange(0, i as int),
                decreases lines@.len() - i,
            {
                let ghost before = copied.deep_view();
                let line: &String = &lines[i];
                copied.push(line.clone());
                proof {
                    assert(copied.deep_view() =~= before.push(line@));
                    assert(copied.deep_view() =~= lines.deep_view().subrange(0, i as int + 1));
                }
                i = i + 1;
            }
            proof {
                assert(copied.deep_view() =~= lines.deep_view());
            }
            Some(copied)
        },
        (None, Some(raw)) => Some(split_commas_exec(raw)),
        (Some(_), Some(_)) => None,
        (None, None) => None,
    }
}

/// Read the whole requested network range: every network named on the
/// command line or in the given file, or the first unreadable one reported.
pub fn compute_networks(
    file_lines: Option<&Vec<String>>,
    network_value: Option<&String>,
) -> (r: Result<Option<Vec<Cidr>>, String>)
    ensures
        (match (
            r,
            spec_compute_networks(opt_lines_view(file_lines), opt_str_view(network_value)),
        ) {
            (Ok(None), Ok(None)) => true,
            (Ok(Some(v)), Ok(Some(cs))) => v@ == cs && (forall|i: int|
                0 <= i < v@.len() ==> (#[trigger] v@[i]).wf()),
            (Err(e), Err(w)) => e@ == w,
            _ => false,
        }),
{
    let texts = match list_required_networks(file_lines, network_value) {
        Some(t) => t,
        None => {
            proof {
                reveal(spec_compute_networks);
            }
            return Ok(None);
        },
    };
    let ghost ts = texts.deep_view();
    let mut networks: Vec<Cidr> = Vec::new();
    let mut i: usize = 0;
    proof {
        assert(ts.subrange(0, ts.len() as int) =~= ts);
    }
    while i < texts.len()
        invariant
            i <= texts@.len(),
            ts == texts.deep_view(),
            required_network_texts(opt_lines_view(file_lines), opt_str_view(network_value))
                == Some(ts),
            networks@.len() == i,
            forall|k: int| 0 <= k < i ==> (#[trigger] networks@[k]).wf(),
            (networks_of_texts(ts) matches Ok(all) ==> networks_of_texts(
                ts.subrange(i as int, ts.len() as int),
            ) matches Ok(rest) && all == networks@ + rest),
            (networks_of_texts(ts) matches Err(e) ==> networks_of_texts(
                ts.subrange(i as int, ts.len() as int),
            ) matches Err(e2) && e == e2),
        decreases texts@.len() - i,
    {
        let ghost suffix = ts.subrange(i as int, ts.len() as int);
        let text: &String = &texts[i];
        proof {
            assert(suffix[0] == ts[i as int]);
            assert(text@ == ts[i as int]);
            assert(suffix.drop_first() =~= ts.subrange(i as int + 1, ts.len() as int));
        }
        match parse_cidr(text.as_str()) {
            Some(c) => {
                let ghost before = networks@;
                networks.push(c);
                proof {
                    let rest = networks_of_texts(suffix.drop_first());
                    assert(before + seq![c] =~= networks@);
                    if networks_of_texts(ts) is Ok {
                        assert(networks_of_texts(suffix)->Ok_0 == seq![c] + rest->Ok_0);
                        assert(before + (seq![c] + rest->Ok_0) =~= networks@ + rest->Ok_0);
                    }
                }
                i = i + 1;
            },
            None => {
                let msg: String = if cidr_prefix_failed(text.as_str()) {
                    String::from_str("Expected valid IPv4 network range (invalid prefix)")
                } else {
                    let mut body = String::from_str(
                        "Expected valid IPv4 network range (invalid address: ",
                    );
                    body.append(text.as_str());
                    body.append(")");
                    body
                };
                proof {
                    reveal(spec_compute_networks);
                    reveal(network_text_error);
                    assert(spec_parse_cidr(text@) is None);
                    assert(networks_of_texts(suffix) == Err::<Seq<Cidr>, Seq<char>>(
                        network_text_error(ts[i as int]),
                    ));
                    assert(msg@ =~= network_text_error(ts[i as int]));
                    if networks_of_texts(ts) is Ok {
                        assert(false);
                    }
                }
                return Err(msg);
            },
        }
    }
    proof {
        reveal(spec_compute_networks);
        assert(ts.subrange(ts.len() as int, ts.len() as int) =~= Seq::<Seq<char>>::empty());
        assert(networks@ + Seq::<Cidr>::empty() =~= networks@);
    }
    Ok(Some(networks))
}

/// The view of an optional owned string.
pub open spec fn opt_view(o: Option<String>) -> Option<Seq<char>> {
    match o {
        Some(s) => Some(s@),
        None => None,
    }
}

/// The deep view of optional owned file lines.
pub open spec fn lines_view(o: Option<Vec<String>>) -> Option<Seq<Seq<char>>> {
    match o {
        Some(v) => Some(v.deep_view()),
        None => None,
    }
}

/// The profile named on the command line, with no name meaning the default
/// profile and an unknown name meaning an error.
pub open spec fn spec_profile_of(t: Option<Seq<char>>) -> Option<ProfileType> {
    match t {
        None => Some(ProfileType::Default),
        Some(s) => if s == "default"@ || s == "d"@ {
            Some(ProfileType::Default)
        } else if s == "fast"@ || s == "f"@ {
            Some(ProfileType::Fast)
        } else if s == "stealth"@ || s == "s"@ {
            Some(ProfileType::Stealth)
        } else if s == "chaos"@ || s == "c"@ {
            Some(ProfileType::Chaos)
        } else {
            None
        },
    }
}

/// The output format named on the command line, with no name meaning plain
/// text and an unknown name meaning an error.
pub open spec fn spec_output_of(t: Option<Seq<char>>) -> Option<OutputFormat> {
    match t {
        None => Some(OutputFormat::Plain),
        Some(s) => if s == "json"@ {
            Some(OutputFormat::Json)
        } else if s == "yaml"@ {
            Some(OutputFormat::Yaml)
        } else if s == "plain"@ || s == "text"@ {
            Some(OutputFormat::Plain)
        } else if s == "csv"@ {
            Some(OutputFormat::Csv)
        } else {
            None
        },
    }
}

/// A decimal number fitting in 16 bits, as the standard library reads one.
pub open spec fn spec_u16_of(s: Seq<char>) -> Option<u16> {
    match parse_u64_spec(s) {
        Some(v) => if v <= 0xFFFF {
            Some(v as u16)
        } else {
            None
        },
        None => None,
    }
}

/// A decimal number fitting in 8 bits, as the standard library reads one.
pub open spec fn spec_u8_of(s: Seq<char>) -> Option<u8> {
    match parse_u64_spec(s) {
        Some(v) => if v <= 0xFF {
            Some(v as u8)
        } else {
            None
        },
        None => None,
    }
}

/// A decimal number fitting in a machine word, as the standard library
/// reads one.
pub open spec fn spec_usize_of(s: Seq<char>) -> Option<usize> {
    match parse_u64_spec(s) {
        Some(v) => if v <= usize::MAX {
            Some(v as usize)
        } else {
            None
        },
        None => None,
    }
}

/// The drain timeout: the parsed flag, or the profile's default.
pub open spec fn spec_timeout_ms(t: Option<Seq<char>>, p: ProfileType) -> Result<u64, Seq<char>> {
    match t {
        Some(s) => match spec_parse_to_milliseconds(s) {
            Ok(v) => Ok(v),
            Err(w) => Err("Expected correct timeout, "@ + w),
        },
        None => Ok(
            if p is Fast {
                800
            } else {
                2000
            },
        ),
    }
}

/// The retry count: the parsed flag, or the profile's default.
pub open spec fn spec_retry_count(t: Option<Seq<char>>, p: ProfileType) -> Result<
    usize,
    Seq<char>,
> {
    match t {
        Some(s) => match spec_usize_of(s) {
            Some(v) => Ok(v),
            None => Err("Expected positive number for host retry count"@),
        },
        None => Ok(
            if p is Chaos {
                2
            } else {
                1
            },
        ),
    }
}

/// The rate intent: a bandwidth in bits per second, an interval duration,
/// or the profile's default interval when neither flag came.
pub open spec fn spec_scan_timing(
    b: Option<Seq<char>>,
    i: Option<Seq<char>>,
    p: ProfileType,
) -> Result<ScanTiming, Seq<char>> {
    match (b, i) {
        (Some(bt), None) => match parse_u64_spec(bt) {
            Some(v) => Ok(ScanTiming::Bandwidth(v)),
            None => Err("Expected positive number for bandwidth"@),
        },
        (None, Some(it)) => match spec_parse_to_milliseconds(it) {
            Ok(v) => Ok(ScanTiming::Interval(v)),
            Err(w) => Err("Expected correct interval, "@ + w),
        },
        _ => Ok(
            match p {
                ProfileType::Stealth => ScanTiming::Interval(20),
                ProfileType::Fast => ScanTiming::Interval(0),
                _ => ScanTiming::Interval(10),
            },
        ),
    }
}

/// Read a 16-bit field.
fn parse_u16_text(s: &String) -> (r: Option<u16>)
    ensures
        r == spec_u16_of(s@),
{
    let n = s.as_str().unicode_len();
    proof {
        assert(s@.subrange(0, n as int) =~= s@);
    }
    match parse_u64_range(s.as_str(), 0, n) {
        Some(v) => if v <= 0xFFFF {
            Some(v as u16)
        } else {
            None
        },
        None => None,
    }
}

/// Read an 8-bit field.
fn parse_u8_text(s: &String) -> (r: Option<u8>)
    ensures
        r == spec_u8_of(s@),
{
    let n = s.as_str().unicode_len();
    proof {
        assert(s@.subrange(0, n as int) =~= s@);
    }
    match parse_u64_range(s.as_str(), 0, n) {
        Some(v) => if v <= 0xFF {
            Some(v as u8)
        } else {
            None
        },
        None => None,
    }
}

/// Read a machine-word field.
fn parse_usize_text(s: &String) -> (r: Option<usize>)
    ensures
        r == spec_usize_of(s@),
{
    let n = s.as_str().unicode_len();
    proof {
        assert(s@.subrange(0, n as int) =~= s@);
    }
    match parse_u64_range(s.as_str(), 0, n) {
        Some(v) => if v <= usize::MAX as u64 {
            Some(v as usize)
        } else {
            None
        },
        None => None,
    }
}

/// Pick the rate intent from the two mutually exclusive flags, falling back
/// to the profile's default interval.
pub fn compute_scan_timing(
    bandwidth: Option<&String>,
    interval: Option<&String>,
    profile: &ProfileType,
) -> (r: Result<ScanTiming, String>)
    ensures
        (match (
            r,
            spec_scan_timing(opt_str_view(bandwidth), opt_str_view(interval), *profile),
        ) {
            (Ok(a), Ok(b)) => a == b,
            (Err(e), Err(w)) => e@ == w,
            _ => false,
        }),
{
    match (bandwidth, interval) {
        (Some(bt), None) => {
            let n = bt.as_str().unicode_len();
            proof {
                assert(bt@.subrange(0, n as int) =~= bt@);
            }
            match parse_u64_range(bt.as_str(), 0, n) {
                Some(v) => Ok(ScanTiming::Bandwidth(v)),
                None => Err(String::from_str("Expected positive number for bandwidth")),
            }
        },
        (None, Some(it)) => match parse_to_milliseconds(it.as_str()) {
            Ok(v) => Ok(ScanTiming::Interval(v)),
            Err(e) => {
                let mut msg = String::from_str("Expected correct interval, ");
                msg.append(e);
                Err(msg)
            },
        },
        _ => Ok(
            match profile {
                ProfileType::Stealth => ScanTiming::Interval(20),
                ProfileType::Fast => ScanTiming::Interval(0),
                _ => ScanTiming::Interval(10),
            },
        ),
    }
}

/// Everything the user asked for on the command line, as raw text, before
/// any of it is parsed or checked.  The file named with the list flag is
/// already read into its lines.
pub struct RawArgs {
    pub profile: Option<String>,
    pub interface: Option<String>,
    pub file_lines: Option<Vec<String>>,
    pub network: Option<String>,
    pub timeout: Option<String>,
    pub source_ip: Option<String>,
    pub destination_mac: Option<String>,
    pub source_mac: Option<String>,
    pub vlan: Option<String>,
    pub retry_count: Option<String>,
    pub interval: Option<String>,
    pub bandwidth: Option<String>,
    pub oui_file: Option<String>,
    pub numeric: bool,
    pub random: bool,
    pub output: Option<String>,
    pub hw_type: Option<String>,
    pub hw_addr: Option<String>,
    pub proto_type: Option<String>,
    pub proto_addr: Option<String>,
    pub arp_operation: Option<String>,
    pub packet_help: bool,
}

/// The scan options, resolved: every field parsed, every default applied.
/// Built once and never mutated afterwards.
#[derive(Debug)]
pub struct ScanOptions {
    pub profile: ProfileType,
    pub interface_name: Option<String>,
    pub network_range: Option<Vec<Cidr>>,
    pub timeout_ms: u64,
    pub resolve_hostname: bool,
    pub source_ipv4: Option<Ipv4Address>,
    pub source_mac: Option<MacAddress>,
    pub destination_mac: Option<MacAddress>,
    pub vlan_id: Option<u16>,
    pub retry_count: usize,
    pub scan_timing: ScanTiming,
    pub randomize_targets: bool,
    pub output: OutputFormat,
    pub oui_file: String,
    pub hw_type: Option<u16>,
    pub hw_addr: Option<u8>,
    pub proto_type: Option<u16>,
    pub proto_addr: Option<u8>,
    pub arp_operation: Option<u16>,
    pub packet_help: bool,
}

/// The first complaint `ScanOptions::new` raises for these arguments, in
/// the order the fields are checked, or nothing when all of them parse.
pub open spec fn spec_new_error(a: RawArgs) -> Option<Seq<char>> {
    match spec_profile_of(opt_view(a.profile)) {
        None => Some("Expected correct profile name (default/fast/stealth/chaos)"@),
        Some(p) => match spec_compute_networks(lines_view(a.file_lines), opt_view(a.network)) {
            Err(e) => Some(e),
            Ok(_) => match spec_timeout_ms(opt_view(a.timeout), p) {
                Err(e) => Some(e),
                Ok(_) => if a.source_ip matches Some(s) && spec_parse_ipv4(s@) is None {
                    Some("Expected valid IPv4 as source IP"@)
                } else if a.destination_mac matches Some(s) && spec_parse_mac(s@) is None {
                    Some("Expected valid MAC address as destination"@)
                } else if a.source_mac matches Some(s) && spec_parse_mac(s@) is None {
                    Some("Expected valid MAC address as source"@)
                } else if a.vlan matches Some(s) && spec_u16_of(s@) is None {
                    Some("Expected valid VLAN identifier"@)
                } else {
                    match spec_retry_count(opt_view(a.retry_count), p) {
                        Err(e) => Some(e),
                        Ok(_) => match spec_scan_timing(
                            opt_view(a.bandwidth),
                            opt_view(a.interval),
                            p,
                        ) {
                            Err(e) => Some(e),
                            Ok(_) => if spec_output_of(opt_view(a.output)) is None {
                                Some("Expected correct output format (json/yaml/plain)"@)
                            } else if a.hw_type matches Some(s) && spec_u16_of(s@) is None {
                                Some("Expected valid ARP hardware type number"@)
                            } else if a.hw_addr matches Some(s) && spec_u8_of(s@) is None {
                                Some("Expected valid ARP hardware address length"@)
                            } else if a.proto_type matches Some(s) && spec_u16_of(s@) is None {
                                Some("Expected valid ARP proto type number"@)
                            } else if a.proto_addr matches Some(s) && spec_u8_of(s@) is None {
                                Some("Expected valid ARP hardware address length"@)
                            } else if a.arp_operation matches Some(s) && spec_u16_of(s@)
                                is None {
                                Some("Expected valid ARP operation number"@)
                            } else {
                                None
                            },
                        },
                    }
                },
            },
        },
    }
}

impl ScanOptions {
    /// Every network the options carry is well-formed.
    pub open spec fn wf(self) -> bool {
        match self.network_range {
            Some(v) => forall|i: int| 0 <= i < v@.len() ==> (#[trigger] v@[i]).wf(),
            None => true,
        }
    }

    /// Resolve the raw command-line values into scan options: parse every
    /// field, apply the profile's defaults, and report the first field that
    /// does not parse.
    #[verifier::rlimit(100)]
    #[verifier::spinoff_prover]
    pub fn new(args: &RawArgs) -> (r: Result<ScanOptions, String>)
        ensures
            r is Ok <==> spec_new_error(*args) is None,
            (match r {
                Err(e) => spec_new_error(*args) == Some(e@),
                Ok(o) => {
                    &&& o.wf()
                    &&& spec_profile_of(opt_view(args.profile)) == Some(o.profile)
                    &&& (match (o.interface_name, args.interface) {
                        (Some(a1), Some(b)) => a1@ == b@,
                        (None, None) => true,
                        _ => false,
                    })
                    &&& spec_compute_networks(lines_view(args.file_lines), opt_view(args.network))
                        == Ok::<_, Seq<char>>(
                        match o.network_range {
                            Some(v) => Some(v@),
                            None => None::<Seq<Cidr>>,
                        },
                    )
                    &&& spec_timeout_ms(opt_view(args.timeout), o.profile) == Ok::<_, Seq<char>>(
                        o.timeout_ms,
                    )
                    &&& o.resolve_hostname == (!args.numeric && !(o.profile is Stealth))
                    &&& o.source_ipv4 == (match args.source_ip {
                        Some(s) => spec_parse_ipv4(s@),
                        None => None,
                    })
                    &&& o.destination_mac == (match args.destination_mac {
                        Some(s) => spec_parse_mac(s@),
                        None => None,
                    })
                    &&& o.source_mac == (match args.source_mac {
                        Some(s) => spec_parse_mac(s@),
                        None => None,
                    })
                    &&& o.vlan_id == (match args.vlan {
                        Some(s) => spec_u16_of(s@),
                        None => None,
                    })
                    &&& spec_retry_count(opt_view(args.retry_count), o.profile) == Ok::<
                        _,
                        Seq<char>,
                    >(o.retry_count)
                    &&& spec_scan_timing(
                        opt_view(args.bandwidth),
                        opt_view(args.interval),
                        o.profile,
                    ) == Ok::<_, Seq<char>>(o.scan_timing)
                    &&& o.randomize_targets == (args.random || o.profile is Stealth || o.profile
                        is Chaos)
                    &&& spec_output_of(opt_view(args.output)) == Some(o.output)
                    &&& o.oui_file@ == (match args.oui_file {
                        Some(s) => s@,
                        None => "/usr/share/arp-scan/ieee-oui.csv"@,
                    })
                    &&& o.hw_type == (match args.hw_type {
                        Some(s) => spec_u16_of(s@),
                        None => None,
                    })
                    &&& o.hw_addr == (match args.hw_addr {
                        Some(s) => spec_u8_of(s@),
                        None => None,
                    })
                    &&& o.proto_type == (match args.proto_type {
                        Some(s) => spec_u16_of(s@),
                        None => None,
                    })
                    &&& o.proto_addr == (match args.proto_addr {
                        Some(s) => spec_u8_of(s@),
                        None => None,
                    })
                    &&& o.arp_operation == (match args.arp_operation {
                        Some(s) => spec_u16_of(s@),
                        None => None,
                    })
                    &&& o.packet_help == args.packet_help
                },
            }),
    {
        let profile: ProfileType = match &args.profile {
            Some(t) => if string_is(t, "default") || string_is(t, "d") {
                ProfileType::Default
            } else if string_is(t, "fast") || string_is(t, "f") {
                ProfileType::Fast
            } else if string_is(t, "stealth") || string_is(t, "s") {
                ProfileType::Stealth
            } else if string_is(t, "chaos") || string_is(t, "c") {
                ProfileType::Chaos
            } else {
                return Err(
                    String::from_str("Expected correct profile name (default/fast/stealth/chaos)"),
                );
            },
            None => ProfileType::Default,
        };
        let interface_name: Option<String> = match &args.interface {
            Some(s) => Some(s.clone()),
            None => None,
        };
        let file_ref: Option<&Vec<String>> = match &args.file_lines {
            Some(v) => Some(v),
            None => None,
        };
        let network_ref: Option<&String> = match &args.network {
            Some(s) => Some(s),
            None => None,
        };
        let network_range: Option<Vec<Cidr>> = match compute_networks(file_ref, network_ref) {
            Ok(v) => v,
            Err(e) => {
                return Err(e);
            },
        };
        let timeout_ms: u64 = match &args.timeout {
            Some(t) => match parse_to_milliseconds(t.as_str()) {
                Ok(v) => v,
                Err(e) => {
                    let mut msg = String::from_str("Expected correct timeout, ");
                    msg.append(e);
                    return Err(msg);
                },
            },
            None => match profile {
                ProfileType::Fast => 800,
                _ => 2000,
            },
        };
        let resolve_hostname: bool = !args.numeric && !(match profile {
            ProfileType::Stealth => true,
            _ => false,
        });
        let source_ipv4: Option<Ipv4Address> = match &args.source_ip {
            Some(s) => match parse_ipv4(s.as_str()) {
                Some(ip) => Some(ip),
                None => {
                    return Err(String::from_str("Expected valid IPv4 as source IP"));
                },
            },
            None => None,
        };
        let destination_mac: Option<MacAddress> = match &args.destination_mac {
            Some(s) => match parse_mac(s.as_str()) {
                Some(m) => Some(m),
                None => {
                    return Err(String::from_str("Expected valid MAC address as destination"));
                },
            },
            None => None,
        };
        let source_mac: Option<MacAddress> = match &args.source_mac {
            Some(s) => match parse_mac(s.as_str()) {
                Some(m) => Some(m),
                None => {
                    return Err(String::from_str("Expected valid MAC address as source"));
                },
            },
            None => None,
        };
        let vlan_id: Option<u16> = match &args.vlan {
            Some(s) => match parse_u16_text(s) {
                Some(v) => Some(v),
                None => {
                    return Err(String::from_str("Expected valid VLAN identifier"));
                },
            },
            None => None,
        };
        let retry_count: usize = match &args.retry_count {
            Some(s) => match parse_usize_text(s) {
                Some(v) => v,
                None => {
                    return Err(String::from_str("Expected positive number for host retry count"));
                },
            },
            None => match profile {
                ProfileType::Chaos => 2,
                _ => 1,
            },
        };
        let bandwidth_ref: Option<&String> = match &args.bandwidth {
            Some(s) => Some(s),
            None => None,
        };
        let interval_ref: Option<&String> = match &args.interval {
            Some(s) => Some(s),
            None => None,
        };
        let scan_timing: ScanTiming = match compute_scan_timing(
            bandwidth_ref,
            interval_ref,
            &profile,
        ) {
            Ok(t) => t,
            Err(e) => {
                return Err(e);
            },
        };
        let output: OutputFormat = match &args.output {
            Some(t) => if string_is(t, "json") {
                OutputFormat::Json
            } else if string_is(t, "yaml") {
                OutputFormat::Yaml
            } else if string_is(t, "plain") || string_is(t, "text") {
                OutputFormat::Plain
            } else if string_is(t, "csv") {
                OutputFormat::Csv
            } else {
                return Err(String::from_str("Expected correct output format (json/yaml/plain)"));
            },
            None => OutputFormat::Plain,
        };
        let randomize_targets: bool = args.random || (match profile {
            ProfileType::Stealth | ProfileType::Chaos => true,
            _ => false,
        });
        let oui_file: String = match &args.oui_file {
            Some(s) => s.clone(),
            None => String::from_str("/usr/share/arp-scan/ieee-oui.csv"),
        };
        let hw_type: Option<u16> = match &args.hw_type {
            Some(s) => match parse_u16_text(s) {
                Some(v) => Some(v),
                None => {
                    return Err(String::from_str("Expected valid ARP hardware type number"));
                },
            },
            None => None,
        };
        let hw_addr: Option<u8> = match &args.hw_addr {
            Some(s) => match parse_u8_text(s) {
                Some(v) => Some(v),
                None => {
                    return Err(String::from_str("Expected valid ARP hardware address length"));
                },
            },
            None => None,
        };
        let proto_type: Option<u16> = match &args.proto_type {
            Some(s) => match parse_u16_text(s) {
                Some(v) => Some(v),
                None => {
                    return Err(String::from_str("Expected valid ARP proto type number"));
                },
            },
            None => None,
        };
        let proto_addr: Option<u8> = match &args.proto_addr {
            Some(s) => match parse_u8_text(s) {
                Some(v) => Some(v),
                None => {
                    return Err(String::from_str("Expected valid ARP hardware address length"));
                },
            },
            None => None,
        };
        let arp_operation: Option<u16> = match &args.arp_operation {
            Some(s) => match parse_u16_text(s) {
                Some(v) => Some(v),
                None => {
                    return Err(String::from_str("Expected valid ARP operation number"));
                },
            },
            None => None,
        };
        Ok(
            ScanOptions {
                profile,
                interface_name,
                network_range,
                timeout_ms,
                resolve_hostname,
                source_ipv4,
                source_mac,
                destination_mac,
                vlan_id,
                retry_count,
                scan_timing,
                randomize_targets,
                output,
                oui_file,
                hw_type,
                hw_addr,
                proto_type,
                proto_addr,
                arp_operation,
                packet_help: args.packet_help,
            },
        )
    }

    /// Will the results be rendered as plain text?
    pub fn is_plain_output(&self) -> (r: bool)
        ensures
            r == (self.output is Plain),
    {
        match self.output {
            OutputFormat::Plain => true,
            _ => false,
        }
    }

    /// Were the frames asked to carry an 802.1Q tag?
    pub fn has_vlan(&self) -> (r: bool)
        ensures
            r == (self.vlan_id is Some),
    {
        match self.vlan_id {
            Some(_) => true,
            None => false,
        }
    }

    /// Was a description of the request frame asked for?
    pub fn request_protocol_print(&self) -> (r: bool)
        ensures
            r == self.packet_help,
    {
        self.packet_help
    }
}

} // verus!

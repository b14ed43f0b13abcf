//! IPv4 network ranges and the streaming iterator over a union of them.
//!
//! A scan may target a union of CIDR blocks whose total host count is far
//! larger than memory, so the iterator never materialises more than one
//! block cursor and, in randomized mode, a pool of at most a thousand
//! addresses.

use vstd::prelude::*;
use vstd::arithmetic::power2::pow2;
use vstd::arithmetic::power2::lemma_pow2_pos;
use vstd::arithmetic::power2::lemma_pow2_adds;
use vstd::arithmetic::power2::lemma_pow2_strictly_increases;
use vstd::arithmetic::power2::lemma2_to64;
use vstd::arithmetic::div_mod::lemma_fundamental_div_mod;
use vstd::arithmetic::div_mod::lemma_mod_bound;
use vstd::arithmetic::div_mod::lemma_div_pos_is_pos;
use vstd::arithmetic::mul::lemma_mul_inequality;
use vstd::arithmetic::mul::lemma_mul_is_distributive_sub;
use vstd::arithmetic::mul::lemma_mul_nonnegative;
use vstd::seq_lib::lemma_multiset_commutative;
use vstd::seq_lib::to_multiset_remove;
use vstd::seq_lib::to_multiset_contains;
use vstd::seq_lib::to_multiset_len;
use vstd::multiset::group_multiset_axioms;
use rand::seq::SliceRandom;

use crate::addrs::Ipv4Address;
use crate::addrs::spec_parse_ipv4;
use crate::addrs::parse_ipv4;
use crate::digits::parse_u64_range;
use crate::digits::parse_u64_spec;
use crate::digits::run_until;
use crate::digits::scan_until;

verus! {

/// An IPv4 network in CIDR notation: an address and a prefix length.  The
/// address need not be the network address; the network is derived from it.
#[derive(Clone, Copy, PartialEq, Eq, Structural, Debug)]
pub struct Cidr {
    pub ip: u32,
    pub prefix: u8,
}

impl Cidr {
    /// A prefix length names between 0 and 32 fixed leading bits.
    pub open spec fn wf(self) -> bool {
        self.prefix <= 32
    }

    /// How many addresses the network holds.
    pub open spec fn size(self) -> nat {
        pow2((32 - self.prefix) as nat)
    }

    /// The network address: `ip` with its host part cleared.
    pub open spec fn base(self) -> int {
        self.ip - (self.ip as int % self.size() as int)
    }

    /// Every address of the network, in ascending order, network address
    /// and broadcast address included.
    pub open spec fn addrs(self) -> Seq<u32> {
        Seq::new(self.size(), |i: int| (self.base() + i) as u32)
    }
}

/// The size of a network is a positive power of two, and the network sits
/// entirely inside the 32-bit address space.
pub proof fn lemma_cidr_bounds(c: Cidr)
    requires
        c.wf(),
    ensures
        1 <= c.size() <= 0x1_0000_0000,
        0 <= c.base() <= c.ip,
        c.base() + c.size() <= 0x1_0000_0000,
{
    let e = (32 - c.prefix) as nat;
    let p = c.prefix as nat;
    lemma_pow2_pos(e);
    lemma_pow2_pos(p);
    lemma_pow2_adds(e, p);
    lemma2_to64();
    let s = c.size() as int;
    let t = pow2(p) as int;
    assert(s * t == 0x1_0000_0000);
    let x = c.ip as int;
    lemma_fundamental_div_mod(x, s);
    lemma_mod_bound(x, s);
    lemma_div_pos_is_pos(x, s);
    let q = x / s;
    let r = x % s;
    assert(c.base() == s * q);
    lemma_mul_nonnegative(s, q);
    if q >= t {
        lemma_mul_inequality(t, q, s);
        assert(false);
    }
    lemma_mul_inequality(q, t - 1, s);
    lemma_mul_is_distributive_sub(s, t, 1);
    if s > 0x1_0000_0000 {
        lemma_mul_inequality(1, t, s);
        assert(false);
    }
}

/// The number of addresses in the network, computed.
pub fn network_size(prefix: u8) -> (r: u64)
    requires
        prefix <= 32,
    ensures
        r as nat == pow2((32 - prefix) as nat),
{
    let e: u8 = 32 - prefix;
    let mut r: u64 = 1;
    let mut i: u8 = 0;
    proof {
        lemma2_to64();
    }
    while i < e
        invariant
            i <= e <= 32,
            r as nat == pow2(i as nat),
        decreases e - i,
    {
        proof {
            lemma_pow2_strictly_increases(i as nat, 32);
            lemma2_to64();
            lemma_pow2_adds(i as nat, 1);
        }
        r = r * 2;
        i = i + 1;
    }
    r
}

/// The network address of `c`, computed.
pub fn network_base(c: &Cidr) -> (r: u32)
    requires
        c.wf(),
    ensures
        r == c.base(),
{
    proof {
        lemma_cidr_bounds(*c);
    }
    let size: u64 = network_size(c.prefix);
    let ip64: u64 = c.ip as u64;
    let rem: u64 = ip64 % size;
    proof {
        lemma_fundamental_div_mod(ip64 as int, size as int);
        lemma_mul_nonnegative(size as int, ip64 as int / size as int);
        lemma_mod_bound(ip64 as int, size as int);
        lemma_div_pos_is_pos(ip64 as int, size as int);
    }
    let b: u64 = ip64 - rem;
    b as u32
}

/// The value of the netmask with `p` leading one bits.
pub open spec fn mask_value(p: u8) -> int {
    0x1_0000_0000 - pow2((32 - p) as nat)
}

/// No two prefix lengths share a netmask.
proof fn lemma_mask_value_injective(p1: u8, p2: u8)
    requires
        p1 <= 32,
        p2 <= 32,
        mask_value(p1) == mask_value(p2),
    ensures
        p1 == p2,
{
    if p1 < p2 {
        lemma_pow2_strictly_increases((32 - p2) as nat, (32 - p1) as nat);
    }
    if p2 < p1 {
        lemma_pow2_strictly_increases((32 - p1) as nat, (32 - p2) as nat);
    }
}

/// The prefix length whose netmask is `v`, if `v` is a netmask: that is,
/// if its binary form is some ones followed by zeros.
pub open spec fn spec_mask_prefix(v: u32) -> Option<u8> {
    if exists|p: u8| p <= 32 && v as int == mask_value(p) {
        Some(choose|p: u8| p <= 32 && v as int == mask_value(p))
    } else {
        None
    }
}

/// The prefix length whose netmask is `v`, computed.
fn mask_to_prefix(v: u32) -> (r: Option<u8>)
    ensures
        r == spec_mask_prefix(v),
        (match r {
            Some(p) => p <= 32,
            None => true,
        }),
{
    let mut p: u8 = 0;
    while p <= 32
        invariant
            p <= 33,
            forall|k: u8| k < p ==> v as int != mask_value(k),
        decreases 33 - p,
    {
        let size: u64 = network_size(p);
        proof {
            if p > 0 {
                lemma_pow2_strictly_increases((32 - p) as nat, 32);
            }
            lemma2_to64();
        }
        let mask: u64 = 0x1_0000_0000u64 - size;
        if (v as u64) == mask {
            proof {
                assert(v as int == mask_value(p));
                let chosen = choose|k: u8| k <= 32 && v as int == mask_value(k);
                lemma_mask_value_injective(p, chosen);
            }
            return Some(p);
        }
        p = p + 1;
    }
    proof {
        assert forall|k: u8| !(k <= 32 && v as int == mask_value(k)) by {
            if k <= 32 {
                assert(v as int != mask_value(k));
            }
        }
    }
    None
}

/// The prefix length named by the text after the slash: either a netmask in
/// dotted-quad form, or a number of at most 255 read in decimal, required
/// to be at most 32.
pub open spec fn prefix_of_text(t: Seq<char>) -> Option<u8> {
    match spec_parse_ipv4(t) {
        Some(mask) => spec_mask_prefix(mask.value),
        None => match parse_u64_spec(t) {
            Some(v) => if v <= 32 {
                Some(v as u8)
            } else {
                None
            },
            None => None,
        },
    }
}

/// Read the prefix length named by the text after the slash.
fn parse_prefix_text(t: &str) -> (r: Option<u8>)
    ensures
        r == prefix_of_text(t@),
        (match r {
            Some(p) => p <= 32,
            None => true,
        }),
{
    match parse_ipv4(t) {
        Some(mask) => mask_to_prefix(mask.value),
        None => {
            let n = t.unicode_len();
            proof {
                assert(t@.subrange(0, n as int) =~= t@);
            }
            match parse_u64_range(t, 0, n) {
                Some(v) => if v <= 32 {
                    Some(v as u8)
                } else {
                    None
                },
                None => None,
            }
        },
    }
}

/// The network named by `s`: a dotted-quad address, optionally followed by
/// one slash and a prefix length or netmask.  A bare address is its own
/// one-address network.  This is how ipnetwork reads an IPv4 network.
pub open spec fn spec_parse_cidr(s: Seq<char>) -> Option<Cidr> {
    let l = run_until(s, 0, '/') as int;
    if l == s.len() {
        match spec_parse_ipv4(s) {
            Some(ip) => Some(Cidr { ip: ip.value, prefix: 32 }),
            None => None,
        }
    } else if run_until(s, l + 1, '/') != s.len() - (l + 1) {
        None
    } else {
        match spec_parse_ipv4(s.subrange(0, l)) {
            Some(ip) => match prefix_of_text(s.subrange(l + 1, s.len() as int)) {
                Some(p) => Some(Cidr { ip: ip.value, prefix: p }),
                None => None,
            },
            None => None,
        }
    }
}

/// Read an IPv4 network in CIDR notation, as ipnetwork would.
pub fn parse_cidr(s: &str) -> (r: Option<Cidr>)
    ensures
        r == spec_parse_cidr(s@),
        (match r {
            Some(c) => c.wf(),
            None => true,
        }),
{
    let n = s.unicode_len();
    let l = scan_until(s, 0, '/');
    if l == n {
        match parse_ipv4(s) {
            Some(ip) => Some(Cidr { ip: ip.value, prefix: 32 }),
            None => None,
        }
    } else {
        let l2 = scan_until(s, l + 1, '/');
        if l2 != n - (l + 1) {
            return None;
        }
        let addr_part = s.substring_char(0, l);
        let ip = match parse_ipv4(addr_part) {
            Some(ip) => ip,
            None => {
                return None;
            },
        };
        let prefix_part = s.substring_char(l + 1, n);
        match parse_prefix_text(prefix_part) {
            Some(p) => Some(Cidr { ip: ip.value, prefix: p }),
            None => None,
        }
    }
}

/// The addresses of a list of networks, in list order then ascending order,
/// duplicates kept.
pub open spec fn networks_addrs(ns: Seq<Cidr>) -> Seq<u32>
    decreases ns.len(),
{
    if ns.len() == 0 {
        Seq::empty()
    } else {
        ns.first().addrs() + networks_addrs(ns.drop_first())
    }
}

/// Taking one network out of the list takes exactly its addresses out of
/// the union's multiset.
proof fn lemma_networks_addrs_remove(ns: Seq<Cidr>, j: int)
    requires
        0 <= j < ns.len(),
    ensures
        networks_addrs(ns).to_multiset() == ns[j].addrs().to_multiset().add(
            networks_addrs(ns.remove(j)).to_multiset(),
        ),
    decreases j,
{
    broadcast use group_multiset_axioms;

    if j == 0 {
        assert(ns.remove(0) =~= ns.drop_first());
        lemma_multiset_commutative(ns.first().addrs(), networks_addrs(ns.drop_first()));
    } else {
        let tail = ns.drop_first();
        lemma_networks_addrs_remove(tail, j - 1);
        lemma_multiset_commutative(ns.first().addrs(), networks_addrs(tail));
        assert(ns.remove(j).first() == ns.first());
        assert(ns.remove(j).drop_first() =~= tail.remove(j - 1));
        lemma_multiset_commutative(
            ns.remove(j).first().addrs(),
            networks_addrs(ns.remove(j).drop_first()),
        );
        assert(networks_addrs(ns).to_multiset() =~= ns[j].addrs().to_multiset().add(
            networks_addrs(ns.remove(j)).to_multiset(),
        ));
    }
}

/// Reordering a list of networks reorders, but never changes, the multiset
/// of addresses the union holds.  With the iterator's construction contract
/// this says that a randomized pass visits exactly the addresses that a
/// sequential pass visits.
pub proof fn lemma_networks_addrs_permutation(s1: Seq<Cidr>, s2: Seq<Cidr>)
    requires
        s1.to_multiset() == s2.to_multiset(),
    ensures
        networks_addrs(s1).to_multiset() == networks_addrs(s2).to_multiset(),
    decreases s1.len(),
{
    broadcast use group_multiset_axioms;

    to_multiset_len(s1);
    to_multiset_len(s2);
    if s1.len() == 0 {
        assert(s2.len() == 0);
    } else {
        let x = s1[0];
        to_multiset_contains(s1, x);
        to_multiset_contains(s2, x);
        assert(s1.contains(x));
        assert(s2.contains(x));
        let j = choose|j: int| 0 <= j < s2.len() && s2[j] == x;
        to_multiset_remove(s1, 0);
        to_multiset_remove(s2, j);
        assert(s1.remove(0).to_multiset() =~= s2.remove(j).to_multiset());
        lemma_networks_addrs_permutation(s1.remove(0), s2.remove(j));
        lemma_networks_addrs_remove(s1, 0);
        lemma_networks_addrs_remove(s2, j);
        assert(networks_addrs(s1).to_multiset() =~= networks_addrs(s2).to_multiset());
    }
}

/// Relies on rand's `SliceRandom::shuffle`, a Fisher–Yates shuffle: it
/// reorders the elements in place and neither adds nor removes any, so the
/// multiset of elements is unchanged.  Which order comes out depends on the
/// thread's generator, so nothing more is stated.
#[verifier::external_body]
fn shuffle_in_place<T>(items: &mut Vec<T>)
    ensures
        final(items)@.to_multiset() == old(items)@.to_multiset(),
{
    items.shuffle(&mut rand::rng());
}

/// A position inside one network: the addresses `base + offset` up to
/// `base + size` are still to be yielded.
#[derive(Clone, Copy)]
struct Cursor {
    base: u32,
    size: u64,
    offset: u64,
}

impl Cursor {
    spec fn wf(self) -> bool {
        self.offset < self.size && self.base + self.size <= 0x1_0000_0000
    }

    spec fn rest(self) -> Seq<u32> {
        Seq::new((self.size - self.offset) as nat, |i: int| (self.base + self.offset + i) as u32)
    }
}

/// What a cursor, present or not, still has to yield.
spec fn cursor_rest(c: Option<Cursor>) -> Seq<u32> {
    match c {
        Some(k) => k.rest(),
        None => Seq::empty(),
    }
}

/// A lazy, finite, non-restartable producer of every address in a union of
/// networks.  Sequential mode yields the addresses in order; randomized
/// mode shuffles the network list once and then draws from a bounded pool
/// refilled a thousand addresses at a time, so memory stays bounded however
/// large the union is.
pub struct NetworkIterator {
    networks: Vec<Cidr>,
    current: Option<Cursor>,
    is_random: bool,
    random_pool: Vec<u32>,
}

impl NetworkIterator {
    /// Internal consistency: every pending network is well-formed, the
    /// cursor has something left, and only randomized mode keeps a pool.
    pub closed spec fn wf(self) -> bool {
        &&& forall|i: int| 0 <= i < self.networks@.len() ==> (#[trigger] self.networks@[i]).wf()
        &&& match self.current {
            Some(c) => c.wf(),
            None => true,
        }
        &&& (!self.is_random ==> self.random_pool@.len() == 0)
    }

    /// Was the iterator built to randomize its order?
    pub closed spec fn randomized(self) -> bool {
        self.is_random
    }

    /// Every address the iterator has still to yield, in the order a
    /// sequential iterator would yield them.
    pub closed spec fn remaining(self) -> Seq<u32> {
        self.random_pool@.reverse() + cursor_rest(self.current) + networks_addrs(self.networks@)
    }

    pub fn new(networks_ref: &Vec<Cidr>, is_random: bool) -> (r: NetworkIterator)
        requires
            forall|i: int| 0 <= i < networks_ref@.len() ==> (#[trigger] networks_ref@[i]).wf(),
        ensures
            r.wf(),
            r.randomized() == is_random,
            r.remaining().to_multiset() == networks_addrs(networks_ref@).to_multiset(),
            !is_random ==> r.remaining() == networks_addrs(networks_ref@),
    {
        let mut networks: Vec<Cidr> = Vec::new();
        let mut i: usize = 0;
        while i < networks_ref.len()
            invariant
                i <= networks_ref@.len(),
                networks@ =~= networks_ref@.subrange(0, i as int),
            decreases networks_ref@.len() - i,
        {
            networks.push(networks_ref[i]);
            proof {
                assert(networks@ =~= networks_ref@.subrange(0, i as int + 1));
            }
            i = i + 1;
        }
        proof {
            assert(networks@ =~= networks_ref@);
        }
        if is_random {
            let ghost before = networks@;
            shuffle_in_place(&mut networks);
            proof {
                broadcast use group_multiset_axioms;

                lemma_networks_addrs_permutation(networks@, before);
                assert forall|k: int|
                    0 <= k < networks@.len() implies (#[trigger] networks@[k]).wf() by {
                    to_multiset_contains(networks@, networks@[k]);
                    to_multiset_contains(before, networks@[k]);
                    assert(networks@.contains(networks@[k]));
                    assert(before.contains(networks@[k]));
                    let m = choose|m: int| 0 <= m < before.len() && before[m] == networks@[k];
                    assert(before[m].wf());
                }
            }
        }
        let r = NetworkIterator { networks, current: None, is_random, random_pool: Vec::new() };
        proof {
            assert(r.remaining() =~= networks_addrs(r.networks@));
        }
        r
    }

    /// Move the first pending network into the cursor.
    fn load_next_network(&mut self)
        requires
            old(self).wf(),
            old(self).current is None,
            old(self).networks@.len() > 0,
        ensures
            final(self).wf(),
            final(self).is_random == old(self).is_random,
            final(self).random_pool@ == old(self).random_pool@,
            final(self).current is Some,
            final(self).networks@ == old(self).networks@.drop_first(),
            final(self).remaining() == old(self).remaining(),
    {
        let c = self.networks.remove(0);
        proof {
            lemma_cidr_bounds(c);
            assert(old(self).networks@.remove(0) =~= old(self).networks@.drop_first());
            assert forall|k: int|
                0 <= k < self.networks@.len() implies (#[trigger] self.networks@[k]).wf() by {
                assert(self.networks@[k] == old(self).networks@[k + 1]);
            }
        }
        let size: u64 = network_size(c.prefix);
        let base: u32 = network_base(&c);
        self.current = Some(Cursor { base, size, offset: 0 });
        proof {
            assert(cursor_rest(self.current) =~= c.addrs());
            assert(networks_addrs(old(self).networks@) == c.addrs() + networks_addrs(
                self.networks@,
            ));
            assert(self.remaining() =~= old(self).remaining());
        }
    }

    /// Yield the cursor's next address, dropping the cursor when it
    /// empties.
    fn take_from_cursor(&mut self) -> (v: u32)
        requires
            old(self).wf(),
            old(self).current is Some,
        ensures
            final(self).wf(),
            final(self).is_random == old(self).is_random,
            final(self).random_pool@ == old(self).random_pool@,
            final(self).networks@ == old(self).networks@,
            cursor_rest(old(self).current).len() > 0,
            v == cursor_rest(old(self).current)[0],
            cursor_rest(final(self).current) == cursor_rest(old(self).current).drop_first(),
    {
        match self.current {
            Some(c) => {
                let v: u32 = c.base + (c.offset as u32);
                let new_offset: u64 = c.offset + 1;
                if new_offset == c.size {
                    self.current = None;
                } else {
                    self.current = Some(Cursor { base: c.base, size: c.size, offset: new_offset });
                }
                proof {
                    assert(cursor_rest(self.current) =~= c.rest().drop_first());
                }
                v
            },
            None => {
                proof {
                    assert(false);
                }
                0
            },
        }
    }

    /// In randomized mode, make sure the pool has something whenever any
    /// address is left, moving up to a thousand addresses in and shuffling
    /// them.
    fn refill_pool(&mut self)
        requires
            old(self).wf(),
            old(self).is_random,
        ensures
            final(self).wf(),
            final(self).is_random,
            final(self).remaining().to_multiset() == old(self).remaining().to_multiset(),
            final(self).random_pool@.len() > 0 || final(self).remaining().len() == 0,
    {
        if self.random_pool.len() > 0 {
            return ;
        }
        loop
            invariant
                self.wf(),
                self.is_random,
                self.remaining().to_multiset() == old(self).remaining().to_multiset(),
            ensures
                self.wf(),
                self.is_random,
                self.remaining().to_multiset() == old(self).remaining().to_multiset(),
                self.random_pool@.len() > 0 || (self.current is None && self.networks@.len() == 0),
            decreases self.networks@.len(), cursor_rest(self.current).len(),
        {
            if self.random_pool.len() >= 1000 {
                break ;
            }
            if self.current.is_none() {
                if self.networks.len() == 0 {
                    break ;
                }
                self.load_next_network();
            }
            let ghost mid = *self;
            let v = self.take_from_cursor();
            let ghost taken = *self;
            self.random_pool.push(v);
            proof {
                broadcast use group_multiset_axioms;

                lemma_remaining_parts(mid);
                lemma_remaining_parts(*self);
                assert(cursor_rest(mid.current) =~= seq![v] + cursor_rest(taken.current));
                lemma_multiset_commutative(seq![v], cursor_rest(taken.current));
                assert(self.random_pool@.reverse() =~= seq![v] + mid.random_pool@.reverse());
                lemma_multiset_commutative(seq![v], mid.random_pool@.reverse());
                assert(self.remaining().to_multiset() =~= mid.remaining().to_multiset());
            }
        }
        let ghost filled = *self;
        shuffle_in_place(&mut self.random_pool);
        proof {
            broadcast use group_multiset_axioms;

            lemma_remaining_parts(filled);
            lemma_remaining_parts(*self);
            filled.random_pool@.lemma_reverse_to_multiset();
            self.random_pool@.lemma_reverse_to_multiset();
            to_multiset_len(filled.random_pool@);
            to_multiset_len(self.random_pool@);
            assert(self.remaining().to_multiset() =~= filled.remaining().to_multiset());
            if self.random_pool.len() == 0 {
                assert(filled.random_pool@.len() == 0);
                assert(self.remaining() =~= Seq::<u32>::empty());
            }
        }
    }

    /// Yield the next address of the union, if one is left.  Sequentially
    /// built iterators yield exactly the head of `remaining`; randomized
    /// ones yield some remaining address.  Either way the yielded address
    /// leaves the remainder's multiset, and nothing else changes it.
    pub fn next(&mut self) -> (r: Option<Ipv4Address>)
        requires
            old(self).wf(),
        ensures
            final(self).wf(),
            final(self).randomized() == old(self).randomized(),
            old(self).remaining().len() == 0 ==> r is None && final(self).remaining().len() == 0,
            old(self).remaining().len() > 0 ==> (match r {
                Some(ip) => old(self).remaining().to_multiset().count(ip.value) > 0
                    && final(self).remaining().to_multiset() == old(
                    self).remaining().to_multiset().remove(ip.value),
                None => false,
            }),
            !old(self).randomized() && old(self).remaining().len() > 0 ==> (match r {
                Some(ip) => ip.value == old(self).remaining()[0] && final(self).remaining() == old(
                    self).remaining().drop_first(),
                None => false,
            }),
    {
        if self.is_random {
            self.refill_pool();
            let ghost mid = *self;
            let popped = self.random_pool.pop();
            match popped {
                Some(v) => {
                    proof {
                        broadcast use group_multiset_axioms;

                        assert(mid.random_pool@.reverse() =~= seq![v]
                            + self.random_pool@.reverse());
                        assert(mid.remaining() =~= seq![v] + self.remaining());
                        to_multiset_remove(mid.remaining(), 0);
                        assert(mid.remaining().remove(0) =~= self.remaining());
                        assert(mid.remaining()[0] == v);
                        to_multiset_contains(mid.remaining(), v);
                        to_multiset_len(old(self).remaining());
                        to_multiset_len(mid.remaining());
                    }
                    Some(Ipv4Address { value: v })
                },
                None => {
                    proof {
                        to_multiset_len(old(self).remaining());
                        to_multiset_len(mid.remaining());
                    }
                    None
                },
            }
        } else {
            if self.current.is_none() {
                if self.networks.len() == 0 {
                    proof {
                        assert(old(self).remaining().len() == 0);
                    }
                    return None;
                }
                self.load_next_network();
            }
            let ghost mid = *self;
            let v = self.take_from_cursor();
            proof {
                broadcast use group_multiset_axioms;

                assert(mid.random_pool@.len() == 0);
                assert(mid.remaining() =~= cursor_rest(mid.current) + networks_addrs(
                    mid.networks@,
                ));
                assert(self.remaining() =~= mid.remaining().drop_first());
                assert(mid.remaining()[0] == v);
                assert(old(self).remaining() == mid.remaining());
                to_multiset_remove(old(self).remaining(), 0);
                assert(old(self).remaining().remove(0) =~= self.remaining());
                to_multiset_contains(old(self).remaining(), v);
            }
            Some(Ipv4Address { value: v })
        }
    }
}

/// Did reading `s` as a network fail on its prefix alone: a single slash
/// and a well-formed address before it, but no prefix length or netmask
/// after it?  ipnetwork reports such a failure as its own kind.
pub open spec fn cidr_failure_is_prefix(s: Seq<char>) -> bool {
    let l = run_until(s, 0, '/') as int;
    &&& l < s.len()
    &&& run_until(s, l + 1, '/') == s.len() - (l + 1)
    &&& spec_parse_ipv4(s.subrange(0, l)) is Some
    &&& prefix_of_text(s.subrange(l + 1, s.len() as int)) is None
}

/// Did reading `s` as a network fail on its prefix alone, checked.
pub fn cidr_prefix_failed(s: &str) -> (r: bool)
    ensures
        r == cidr_failure_is_prefix(s@),
{
    let n = s.unicode_len();
    let l = scan_until(s, 0, '/');
    if l == n {
        return false;
    }
    let l2 = scan_until(s, l + 1, '/');
    if l2 != n - (l + 1) {
        return false;
    }
    let addr_part = s.substring_char(0, l);
    if parse_ipv4(addr_part).is_none() {
        return false;
    }
    let prefix_part = s.substring_char(l + 1, n);
    parse_prefix_text(prefix_part).is_none()
}

/// How many addresses one network holds, as the timing planner counts them.
pub fn compute_network_size(ip_network: &Cidr) -> (r: u128)
    requires
        ip_network.wf(),
    ensures
        r == ip_network.size(),
{
    network_size(ip_network.prefix) as u128
}

/// Appending a network to the list appends its addresses to the union.
proof fn lemma_networks_addrs_snoc(ns: Seq<Cidr>, v: Cidr)
    ensures
        networks_addrs(ns.push(v)) =~= networks_addrs(ns) + v.addrs(),
    decreases ns.len(),
{
    if ns.len() == 0 {
        assert(ns.push(v).drop_first() =~= Seq::<Cidr>::empty());
        assert(ns.push(v).first() == v);
        assert(networks_addrs(ns.push(v)) == v.addrs() + networks_addrs(Seq::<Cidr>::empty()));
    } else {
        lemma_networks_addrs_snoc(ns.drop_first(), v);
        assert(ns.push(v).drop_first() =~= ns.drop_first().push(v));
        assert(ns.push(v).first() == ns.first());
        assert(networks_addrs(ns.push(v)) == ns.first().addrs() + networks_addrs(
            ns.drop_first().push(v),
        ));
        assert(networks_addrs(ns) == ns.first().addrs() + networks_addrs(ns.drop_first()));
    }
}

/// How many addresses a union of networks holds, counted across every
/// network, duplicates included.
pub fn host_count_of_networks(networks: &Vec<Cidr>) -> (r: u128)
    requires
        forall|i: int| 0 <= i < networks@.len() ==> (#[trigger] networks@[i]).wf(),
        networks@.len() <= 0xFFFF_FFFF_FFFF_FFFF,
    ensures
        r == networks_addrs(networks@).len(),
{
    let mut total: u128 = 0;
    let mut i: usize = 0;
    proof {
        assert(networks@.subrange(0, 0) =~= Seq::<Cidr>::empty());
    }
    while i < networks.len()
        invariant
            i <= networks@.len() <= 0xFFFF_FFFF_FFFF_FFFF,
            forall|k: int| 0 <= k < networks@.len() ==> (#[trigger] networks@[k]).wf(),
            total == networks_addrs(networks@.subrange(0, i as int)).len(),
            total <= i * 0x1_0000_0000,
        decreases networks@.len() - i,
    {
        let c = networks[i];
        proof {
            lemma_cidr_bounds(c);
            lemma_networks_addrs_snoc(networks@.subrange(0, i as int), c);
            assert(networks@.subrange(0, i as int).push(c) =~= networks@.subrange(
                0,
                i as int + 1,
            ));
        }
        total = total + compute_network_size(&c);
        i = i + 1;
    }
    proof {
        assert(networks@.subrange(0, networks@.len() as int) =~= networks@);
    }
    total
}

/// The remainder's multiset splits into its pool, cursor and
/// pending-network parts.
proof fn lemma_remaining_parts(it: NetworkIterator)
    ensures
        it.remaining().to_multiset() == it.random_pool@.reverse().to_multiset().add(
            cursor_rest(it.current).to_multiset(),
        ).add(networks_addrs(it.networks@).to_multiset()),
{
    lemma_multiset_commutative(
        it.random_pool@.reverse() + cursor_rest(it.current),
        networks_addrs(it.networks@),
    );
    lemma_multiset_commutative(it.random_pool@.reverse(), cursor_rest(it.current));
}

} // verus!

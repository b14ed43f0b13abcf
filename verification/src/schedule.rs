//! The sender's side of the scan: one emission per tick, every target once
//! per pass, as many passes as retries were asked for, and an immediate
//! stop when the shared flag says so.

use vstd::prelude::*;
use vstd::seq_lib::to_multiset_len;
use vstd::multiset::Multiset;

use crate::addrs::Ipv4Address;
use crate::range::Cidr;
use crate::range::NetworkIterator;
use crate::range::networks_addrs;

verus! {

/// What the sender loop still has to do: the pending passes over the whole
/// union of networks, and the pass currently under way.
pub struct SenderSchedule {
    networks: Vec<Cidr>,
    randomize: bool,
    passes_left: usize,
    current: Option<NetworkIterator>,
}

impl SenderSchedule {
    /// Internal consistency: well-formed networks, and a pass under way
    /// never owes an address outside the union.
    pub closed spec fn wf(self) -> bool {
        &&& forall|i: int| 0 <= i < self.networks@.len() ==> (#[trigger] self.networks@[i]).wf()
        &&& match self.current {
            Some(it) => it.wf() && (forall|v: u32|
                #[trigger] it.remaining().to_multiset().count(v) <= networks_addrs(
                    self.networks@,
                ).to_multiset().count(v)),
            None => true,
        }
    }

    /// How many addresses one pass visits.
    pub closed spec fn pass_size(self) -> nat {
        networks_addrs(self.networks@).len()
    }

    /// The multiset of addresses a full pass visits.
    pub closed spec fn target_pool(self) -> Multiset<u32> {
        networks_addrs(self.networks@).to_multiset()
    }

    /// How many emissions are still owed, counting the pending passes and
    /// what is left of the pass under way.
    pub closed spec fn remaining_emissions(self) -> nat {
        (self.passes_left * self.pass_size() + (match self.current {
            Some(it) => it.remaining().len(),
            None => 0nat,
        })) as nat
    }

    /// What the pass under way still owes.  Between passes, and before the
    /// first, a whole pass over the union is owed.
    pub closed spec fn pass_remaining(self) -> Multiset<u32> {
        match self.current {
            Some(it) => it.remaining().to_multiset(),
            None => self.target_pool(),
        }
    }

    /// Where the next emission is drawn from: the pass under way, or, once
    /// it owes nothing, a fresh pass over the whole union.
    pub closed spec fn pass_source(self) -> Multiset<u32> {
        match self.current {
            Some(it) => if it.remaining().len() > 0 {
                it.remaining().to_multiset()
            } else {
                self.target_pool()
            },
            None => self.target_pool(),
        }
    }

    /// A schedule of `retry_count` passes over the union of `networks`.
    /// With no retries, or no networks, nothing is owed.
    pub fn new(networks: &Vec<Cidr>, retry_count: usize, randomize: bool) -> (r: SenderSchedule)
        requires
            forall|i: int| 0 <= i < networks@.len() ==> (#[trigger] networks@[i]).wf(),
        ensures
            r.wf(),
            r.remaining_emissions() == retry_count * networks_addrs(networks@).len(),
            r.target_pool() == networks_addrs(networks@).to_multiset(),
    {
        let mut copied: Vec<Cidr> = Vec::new();
        let mut i: usize = 0;
        while i < networks.len()
            invariant
                i <= networks@.len(),
                copied@ =~= networks@.subrange(0, i as int),
                forall|k: int| 0 <= k < networks@.len() ==> (#[trigger] networks@[k]).wf(),
            decreases networks@.len() - i,
        {
            copied.push(networks[i]);
            proof {
                assert(copied@ =~= networks@.subrange(0, i as int + 1));
            }
            i = i + 1;
        }
        proof {
            assert(copied@ =~= networks@);
        }
        SenderSchedule { networks: copied, randomize, passes_left: retry_count, current: None }
    }

    /// The next address to emit to, or nothing when the stop flag is set or
    /// every pass is done.  A set stop flag changes nothing.  Each emission
    /// lowers what is owed by one and is drawn from the pass under way, a
    /// fresh pass opening at the whole union: so within one pass every
    /// address of the union is emitted exactly once.
    pub fn next_emission(&mut self, stopped: bool) -> (r: Option<Ipv4Address>)
        requires
            old(self).wf(),
        ensures
            final(self).wf(),
            final(self).target_pool() == old(self).target_pool(),
            stopped ==> r is None && *final(self) == *old(self),
            !stopped ==> ((r is None) <==> old(self).remaining_emissions() == 0),
            !stopped && r is None ==> final(self).remaining_emissions() == 0
                && final(self).pass_remaining() == final(self).target_pool(),
            !stopped && old(self).remaining_emissions() > 0 ==> (match r {
                Some(ip) => final(self).remaining_emissions() == old(self).remaining_emissions()
                    - 1 && old(self).target_pool().count(ip.value) > 0
                    && old(self).pass_source().count(ip.value) > 0
                    && final(self).pass_remaining() == old(self).pass_source().remove(ip.value),
                None => false,
            }),
    {
        if stopped {
            return None;
        }
        loop
            invariant
                !stopped,
                self.wf(),
                self.target_pool() == old(self).target_pool(),
                self.remaining_emissions() == old(self).remaining_emissions(),
                (match self.current {
                    Some(it) => (it.remaining().len() > 0 ==> it.remaining().to_multiset()
                        == old(self).pass_source()) && (it.remaining().len() == 0 ==> old(
                        self).pass_source() == old(self).target_pool()),
                    None => old(self).pass_source() == old(self).target_pool(),
                }),
            ensures
                self.wf(),
                self.target_pool() == old(self).target_pool(),
                self.remaining_emissions() == old(self).remaining_emissions(),
                self.current is None,
                old(self).remaining_emissions() == 0,
            decreases self.passes_left, (match self.current {
                Some(_) => 1int,
                None => 0int,
            }),
        {
            let ghost head = *self;
            if self.current.is_none() {
                if self.passes_left == 0 {
                    proof {
                        assert(self.passes_left * self.pass_size() == 0) by (nonlinear_arith)
                            requires
                                self.passes_left == 0,
                        ;
                        assert(self.remaining_emissions() == 0);
                    }
                    break ;
                }
                self.passes_left = self.passes_left - 1;
                let ghost p = self.passes_left as nat;
                let ghost s = self.pass_size();
                let fresh = NetworkIterator::new(&self.networks, self.randomize);
                proof {
                    to_multiset_len(fresh.remaining());
                    to_multiset_len(networks_addrs(self.networks@));
                    assert((p + 1) * s == p * s + s) by (nonlinear_arith);
                }
                self.current = Some(fresh);
            }
            let ghost pre = *self;
            proof {
                assert(match pre.current {
                    Some(it2) => it2.remaining().to_multiset() == old(self).pass_source() || (
                    it2.remaining().len() == 0 && old(self).pass_source() == old(
                        self).target_pool()),
                    None => false,
                });
            }
            let taken = self.current.take();
            match taken {
                Some(mut it) => {
                    let ghost it_before = it;
                    let popped = it.next();
                    proof {
                        if it_before.remaining().len() > 0 {
                            to_multiset_len(it_before.remaining());
                            to_multiset_len(it.remaining());
                        }
                    }
                    match popped {
                        Some(ip) => {
                            proof {
                                assert(it_before.remaining().len() > 0);
                                assert(it_before.remaining().to_multiset() == old(
                                    self).pass_source());
                                assert(it.remaining().to_multiset()
                                    == it_before.remaining().to_multiset().remove(ip.value));
                                assert forall|v: u32|
                                    #[trigger] it.remaining().to_multiset().count(v)
                                    <= networks_addrs(self.networks@).to_multiset().count(v) by {
                                    assert(it_before.remaining().to_multiset().count(v)
                                        <= networks_addrs(self.networks@).to_multiset().count(v));
                                }
                                assert(old(self).pass_source().count(ip.value) > 0);
                                assert(old(self).target_pool().count(ip.value) > 0);
                            }
                            self.current = Some(it);
                            proof {
                                assert(self.pass_remaining() == old(self).pass_source().remove(
                                    ip.value,
                                ));
                            }
                            return Some(ip);
                        },
                        None => {
                            proof {
                                assert(it_before.remaining().len() == 0);
                                if head.current is Some {
                                    assert(pre == head);
                                }
                                assert(old(self).pass_source() == old(self).target_pool());
                            }
                        },
                    }
                },
                None => {
                    proof {
                        assert(false);
                    }
                },
            }
        }
        None
    }
}

} // verus!

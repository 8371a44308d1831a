//! Client-side shared state: the observed listener map and the pending
//! new-group slot.
//!
//! The listener map mirrors what the engine has reported: each listener's
//! addresses accumulate as `NewListenAddr` events arrive and shrink as
//! `ListenerClosed` events name them; an entry whose last address goes is
//! dropped whole. The pending slot hands a locally created group's descriptor
//! to the group manager, which takes it on the first matching
//! self-subscription; a second `new_group` before that overwrites the first.

use vstd::prelude::*;

use crate::events::FrontendEvent;
use crate::events::FrontendEventV;
use crate::ids::GroupId;
use crate::kmap::KMap;
use crate::kmap::MapKey;
use crate::models::GroupInfo;

verus! {

impl MapKey for u64 {
    fn key_eq(&self, other: &Self) -> (r: bool)
        ensures
            r == (self@ == other@),
    {
        *self == *other
    }

    fn dup(&self) -> (r: Self)
        ensures
            r@ == self@,
    {
        *self
    }
}

/// The views of a list of addresses.
pub open spec fn addr_views(v: Seq<String>) -> Seq<Seq<char>> {
    v.map_values(|s: String| s@)
}

/// Whether `v` holds a string whose view is `s`.
pub fn contains_str(v: &Vec<String>, s: &String) -> (r: bool)
    ensures
        r == addr_views(v@).contains(s@),
{
    let n = v.len();
    let mut i: usize = 0;
    while i < n
        invariant
            i <= n,
            n == v@.len(),
            forall|j: int| 0 <= j < i ==> addr_views(v@)[j] != s@,
        decreases n - i,
    {
        if v[i] == *s {
            proof {
                assert(addr_views(v@)[i as int] == s@);
            }
            return true;
        }
        i += 1;
    }
    proof {
        if addr_views(v@).contains(s@) {
            let j = choose|j: int| 0 <= j < v@.len() && addr_views(v@)[j] == s@;
        }
    }
    false
}

/// A new-address report: the listener gains the address at the end of its
/// list, which springs into being when absent.
pub open spec fn listen_add(m: Map<u64, Seq<Seq<char>>>, l: u64, a: Seq<char>) -> Map<
    u64,
    Seq<Seq<char>>,
> {
    m.insert(
        l,
        (if m.dom().contains(l) {
            m[l]
        } else {
            Seq::<Seq<char>>::empty()
        }).push(a),
    )
}

/// A close report: the listener loses the named addresses, and disappears
/// whole when none remain; an unknown listener is left alone.
pub open spec fn listen_close(m: Map<u64, Seq<Seq<char>>>, l: u64, closed: Seq<Seq<char>>) -> Map<
    u64,
    Seq<Seq<char>>,
> {
    if m.dom().contains(l) {
        let rem = m[l].filter(|a: Seq<char>| !closed.contains(a));
        if rem.len() == 0 {
            m.remove(l)
        } else {
            m.insert(l, rem)
        }
    } else {
        m
    }
}

/// Client-side state shared with the dispatcher and the command facade.
#[derive(Debug)]
pub struct ClientState {
    listeners: KMap<u64, Vec<String>>,
    /// The descriptor of a locally created group, waiting for the matching
    /// self-subscription to be observed.
    pub pending_new_group: Option<(GroupId, GroupInfo)>,
}

impl ClientState {
    /// The pending new-group slot's content.
    pub closed spec fn pending(&self) -> Option<(GroupId, GroupInfo)> {
        self.pending_new_group
    }

    /// The listener map, keyed by listener identifier.
    pub closed spec fn listeners_map(&self) -> Map<u64, Vec<String>> {
        self.listeners@
    }

    /// The whole listener map, each value as its address views.
    pub open spec fn addr_map(&self) -> Map<u64, Seq<Seq<char>>> {
        self.listeners_map().map_values(|v: Vec<String>| addr_views(v@))
    }

    /// The addresses currently recorded for one listener.
    pub open spec fn addrs_of(&self, l: u64) -> Seq<Seq<char>> {
        if self.listeners_map().dom().contains(l) {
            addr_views(self.listeners_map()[l]@)
        } else {
            Seq::<Seq<char>>::empty()
        }
    }

    pub closed spec fn wf(&self) -> bool {
        self.listeners.wf()
    }

    pub fn new() -> (r: ClientState)
        ensures
            r.wf(),
            r.listeners_map() == Map::<u64, Vec<String>>::empty(),
            r.pending() is None,
    {
        ClientState { listeners: KMap::new(), pending_new_group: None }
    }

    /// Stashes a locally created group until its self-subscription arrives;
    /// an earlier stash is overwritten.
    pub fn set_pending_new_group(&mut self, group_id: GroupId, group_info: GroupInfo)
        requires
            old(self).wf(),
        ensures
            final(self).wf(),
            final(self).pending() == Some((group_id, group_info)),
            final(self).listeners_map() == old(self).listeners_map(),
    {
        self.pending_new_group = Some((group_id, group_info));
    }

    /// All recorded listeners with their addresses.
    pub fn get_listeners(&self) -> (r: Vec<(u64, Vec<String>)>)
        requires
            self.wf(),
        ensures
            forall|i: int|
                0 <= i < r@.len() ==> self.listeners_map().dom().contains(#[trigger] r@[i].0)
                    && addr_views(r@[i].1@) == self.addrs_of(r@[i].0),
            forall|i: int, j: int| 0 <= i < j < r@.len() ==> r@[i].0 != r@[j].0,
            forall|l: u64|
                #[trigger] self.listeners_map().dom().contains(l) ==> exists|i: int|
                    0 <= i < r@.len() && r@[i].0 == l,
    {
        self.listeners.observe();
        let n = self.listeners.count();
        let mut r: Vec<(u64, Vec<String>)> = Vec::new();
        let mut i: usize = 0;
        while i < n
            invariant
                i <= n,
                self.wf(),
                n == self.listeners.key_seq().len(),
                r@.len() == i,
                forall|j: int| 0 <= j < i ==> r@[j].0 == self.listeners.key_seq()[j],
                forall|j: int|
                    0 <= j < i ==> r@[j].1@ == self.listeners_map()[self.listeners.key_seq()[j]]@,
            decreases n - i,
        {
            let (k, v) = self.listeners.entry_at(i);
            r.push((k.dup(), crate::events::clone_string_vec(v)));
            i += 1;
        }
        proof {
            assert forall|l: u64|
                #[trigger] self.listeners_map().dom().contains(l) implies exists|i: int|
                0 <= i < r@.len() && r@[i].0 == l by {
                let i = choose|i: int|
                    0 <= i < self.listeners.key_seq().len() && self.listeners.key_seq()[i] == l;
                assert(r@[i].0 == l);
            }
            assert forall|i: int, j: int| 0 <= i < j < r@.len() implies r@[i].0 != r@[j].0 by {
                assert(self.listeners.key_seq()[i] != self.listeners.key_seq()[j]);
            }
            assert forall|i: int|
                0 <= i < r@.len() implies self.listeners_map().dom().contains(#[trigger] r@[i].0)
                && addr_views(r@[i].1@) == self.addrs_of(r@[i].0) by {
                assert(self.listeners_map()[self.listeners.key_seq()[i]] == self.listeners.val_seq()[
                    i]);
            }
        }
        r
    }

    /// Duplicates of all listener identifiers.
    pub fn listener_ids(&self) -> (r: Vec<u64>)
        requires
            self.wf(),
        ensures
            forall|i: int|
                0 <= i < r@.len() ==> self.listeners_map().dom().contains(#[trigger] r@[i]),
            forall|l: u64|
                #[trigger] self.listeners_map().dom().contains(l) ==> r@.contains(l),
    {
        self.listeners.observe();
        let r = self.listeners.keys();
        proof {
            let ks = self.listeners.key_seq();
            assert(r@.map_values(|k: u64| k@) == ks);
            assert forall|i: int| 0 <= i < r@.len() implies self.listeners_map().dom().contains(
                #[trigger] r@[i],
            ) by {
                assert(ks[i] == r@[i]);
            }
            assert forall|l: u64|
                #[trigger] self.listeners_map().dom().contains(l) implies r@.contains(l) by {
                let i = choose|i: int| 0 <= i < ks.len() && ks[i] == l;
                assert(r@[i] == l);
            }
        }
        r
    }

    /// Records a newly reported listening address and returns the
    /// presentation event announcing the listener's current address list.
    pub fn apply_new_listen_addr(&mut self, listener_id: u64, address: String) -> (r:
        FrontendEvent)
        requires
            old(self).wf(),
        ensures
            final(self).wf(),
            final(self).pending() == old(self).pending(),
            final(self).listeners_map().dom() == old(self).listeners_map().dom().insert(
                listener_id,
            ),
            final(self).addrs_of(listener_id) == old(self).addrs_of(listener_id).push(address@),
            final(self).addr_map() == listen_add(old(self).addr_map(), listener_id, address@),
            forall|l2: u64|
                l2 != listener_id && old(self).listeners_map().dom().contains(l2) ==> final(self).listeners_map()[l2] == old(self).listeners_map()[l2],
            r@ == (FrontendEventV::Listen {
                listener_id,
                addresses: final(self).addrs_of(listener_id),
            }),
    {
        let taken = self.listeners.remove(&listener_id);
        let mut addrs = match taken {
            Some(v) => v,
            None => Vec::new(),
        };
        addrs.push(address);
        let current = crate::events::clone_string_vec(&addrs);
        self.listeners.insert(listener_id, addrs);
        proof {
            assert(self.listeners_map().dom() =~= old(self).listeners_map().dom().insert(
                listener_id,
            ));
            assert(self.addrs_of(listener_id) =~= old(self).addrs_of(listener_id).push(
                current@[current@.len() - 1]@,
            ));
            assert(self.addr_map() =~= listen_add(
                old(self).addr_map(),
                listener_id,
                current@[current@.len() - 1]@,
            ));
        }
        FrontendEvent::Listen { listener_id, addresses: current }
    }

    /// Forgets the closed addresses of a listener and returns the
    /// presentation event announcing what remains; a listener with no
    /// remaining address is dropped whole. An unknown listener is left alone.
    pub fn apply_listener_closed(&mut self, listener_id: u64, addresses: &Vec<String>) -> (r:
        Option<FrontendEvent>)
        requires
            old(self).wf(),
        ensures
            final(self).wf(),
            final(self).pending() == old(self).pending(),
            forall|l2: u64|
                l2 != listener_id && old(self).listeners_map().dom().contains(l2) ==> final(self).listeners_map().dom().contains(l2) && final(self).listeners_map()[l2] == old(
                    self,
                ).listeners_map()[l2],
            forall|l2: u64|
                l2 != listener_id && !old(self).listeners_map().dom().contains(l2) ==> !final(self).listeners_map().dom().contains(l2),
            final(self).addr_map() == listen_close(
                old(self).addr_map(),
                listener_id,
                addr_views(addresses@),
            ),
            if old(self).listeners_map().dom().contains(listener_id) {
                {
                    let remaining = old(self).addrs_of(listener_id).filter(
                        |a: Seq<char>| !addr_views(addresses@).contains(a),
                    );
                    &&& final(self).addrs_of(listener_id) == remaining
                    &&& final(self).listeners_map().dom().contains(listener_id) <==> remaining.len()
                        != 0
                    &&& r matches Some(ev) && ev@ == (FrontendEventV::Listen {
                        listener_id,
                        addresses: remaining,
                    })
                }
            } else {
                &&& !final(self).listeners_map().dom().contains(listener_id)
                &&& r is None
            },
    {
        let taken = self.listeners.remove(&listener_id);
        match taken {
            Some(v) => {
                let ghost pred = |a: Seq<char>| !addr_views(addresses@).contains(a);
                let n = v.len();
                let mut kept: Vec<String> = Vec::new();
                let mut i: usize = 0;
                while i < n
                    invariant
                        i <= n,
                        n == v@.len(),
                        pred == (|a: Seq<char>| !addr_views(addresses@).contains(a)),
                        addr_views(kept@) == addr_views(v@).take(i as int).filter(pred),
                    decreases n - i,
                {
                    proof {
                        reveal(Seq::filter);
                        assert(addr_views(v@).take(i + 1).drop_last() =~= addr_views(v@).take(
                            i as int,
                        ));
                        assert(addr_views(v@).take(i + 1).last() == v@[i as int]@);
                    }
                    if !contains_str(addresses, &v[i]) {
                        kept.push(v[i].clone());
                        proof {
                            assert(addr_views(kept@) =~= addr_views(v@).take(i + 1).filter(pred));
                        }
                    } else {
                        proof {
                            assert(addr_views(kept@) =~= addr_views(v@).take(i + 1).filter(pred));
                        }
                    }
                    i += 1;
                }
                proof {
                    assert(addr_views(v@).take(n as int) =~= addr_views(v@));
                }
                let remaining = crate::events::clone_string_vec(&kept);
                let keep = kept.len() != 0;
                if keep {
                    self.listeners.insert(listener_id, kept);
                    proof {
                        assert(self.addrs_of(listener_id) =~= addr_views(remaining@));
                        assert(self.addr_map() =~= listen_close(
                            old(self).addr_map(),
                            listener_id,
                            addr_views(addresses@),
                        ));
                    }
                } else {
                    proof {
                        assert(addr_views(kept@).len() == 0);
                        assert(addr_views(remaining@) =~= addr_views(kept@));
                        assert(self.addr_map() =~= listen_close(
                            old(self).addr_map(),
                            listener_id,
                            addr_views(addresses@),
                        ));
                    }
                }
                Some(FrontendEvent::Listen { listener_id, addresses: remaining })
            },
            None => {
                proof {
                    assert(self.listeners_map() =~= old(self).listeners_map());
                    assert(self.addr_map() =~= listen_close(
                        old(self).addr_map(),
                        listener_id,
                        addr_views(addresses@),
                    ));
                }
                None
            },
        }
    }
}

} // verus!

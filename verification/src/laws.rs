//! Laws relating the two managers and the listener map across events.
//!
//! The group manager and the user manager each react to the same subscription
//! events; the lemmas here state that their two mirrors — per-group
//! subscriber sets on one side, per-peer topic sets on the other — stay
//! consistent, and that the listener map accumulates exactly what was
//! reported.

use vstd::prelude::*;

use crate::client::listen_add;
use crate::client::listen_close;
use crate::group::GroupManager;
use crate::group::spec_adopt_group;
use crate::group::spec_subscribe_known;
use crate::ids::topic_of;
use crate::user::UserManager;
use crate::user::same_subs_except;

verus! {

/// Mirror consistency: a topic stands in a peer's subscription set exactly
/// when some known group with that topic lists the peer as a subscriber.
pub open spec fn mirror(gm: GroupManager, um: UserManager) -> bool {
    &&& forall|p: Seq<char>, t: Seq<char>|
        #[trigger] um.subscriptions(p).contains(t) ==> exists|g: Seq<char>|
            #[trigger] gm.has_group_spec(g) && topic_of(g) == t && gm.group_subs(g).contains(p)
    &&& forall|g: Seq<char>, p: Seq<char>|
        gm.has_group_spec(g) && #[trigger] gm.group_subs(g).contains(p) ==> um.subscriptions(
            p,
        ).contains(topic_of(g))
}

/// No two known groups hash to the same topic.
pub open spec fn unique_topics(gm: GroupManager) -> bool {
    forall|g1: Seq<char>, g2: Seq<char>|
        #![trigger gm.has_group_spec(g1), gm.has_group_spec(g2)]
        gm.has_group_spec(g1) && gm.has_group_spec(g2) && topic_of(g1) == topic_of(g2) ==> g1 == g2
}

/// Law (mirror consistency, subscription to a known group): when both
/// managers record the same subscription event — the group manager adding
/// `p` to the known group `g` with topic `t`, the user manager adding `t` to
/// `p`'s topics — a consistent pair of mirrors stays consistent.
pub proof fn lemma_mirror_subscribe_known(
    gm0: GroupManager,
    gm1: GroupManager,
    um0: UserManager,
    um1: UserManager,
    g: Seq<char>,
    t: Seq<char>,
    p: Seq<char>,
)
    requires
        gm0.wf(),
        mirror(gm0, um0),
        spec_subscribe_known(gm0, gm1, g, t, p),
        um1.subscriptions(p) == um0.subscriptions(p).insert(t),
        same_subs_except(um0, um1, p),
    ensures
        mirror(gm1, um1),
        unique_topics(gm0) ==> unique_topics(gm1),
{
    assert(gm1.states_map().dom() =~= gm0.states_map().dom());
    assert forall|p2: Seq<char>, t2: Seq<char>|
        #[trigger] um1.subscriptions(p2).contains(t2) implies exists|g2: Seq<char>|
        #[trigger] gm1.has_group_spec(g2) && topic_of(g2) == t2 && gm1.group_subs(g2).contains(
            p2,
        ) by {
        if p2 == p && t2 == t {
            assert(gm1.has_group_spec(g) && topic_of(g) == t && gm1.group_subs(g).contains(p));
        } else {
            assert(um0.subscriptions(p2).contains(t2));
            let g2 = choose|g2: Seq<char>|
                #[trigger] gm0.has_group_spec(g2) && topic_of(g2) == t2 && gm0.group_subs(
                    g2,
                ).contains(p2);
            if g2 == g {
                assert(gm1.group_subs(g) == gm0.group_subs(g).insert(p));
                assert(gm1.has_group_spec(g2) && topic_of(g2) == t2 && gm1.group_subs(g2).contains(
                    p2,
                ));
            } else {
                assert(gm1.states_map()[g2] == gm0.states_map()[g2]);
                assert(gm1.has_group_spec(g2) && topic_of(g2) == t2 && gm1.group_subs(g2).contains(
                    p2,
                ));
            }
        }
    }
    assert forall|g2: Seq<char>, p2: Seq<char>|
        gm1.has_group_spec(g2) && #[trigger] gm1.group_subs(g2).contains(p2) implies um1
        .subscriptions(p2).contains(topic_of(g2)) by {
        if g2 == g {
            if p2 == p {
                assert(um1.subscriptions(p).contains(t));
            } else {
                assert(gm0.group_subs(g).contains(p2));
                assert(um0.subscriptions(p2).contains(topic_of(g)));
            }
        } else {
            assert(gm1.states_map()[g2] == gm0.states_map()[g2]);
            assert(gm0.group_subs(g2).contains(p2));
            assert(um0.subscriptions(p2).contains(topic_of(g2)));
        }
    }
    if unique_topics(gm0) {
        assert forall|g1: Seq<char>, g2: Seq<char>|
            gm1.has_group_spec(g1) && gm1.has_group_spec(g2) && topic_of(g1) == topic_of(
                g2,
            ) implies g1 == g2 by {
            assert(gm0.has_group_spec(g1) && gm0.has_group_spec(g2));
        }
    }
}

/// Law (mirror consistency, adoption of a new group): when the group manager
/// adopts a fresh group `g` for the previously unknown topic `t` with `p` as
/// its first subscriber, and the user manager adds `t` to `p`'s topics, a
/// consistent pair of mirrors stays consistent, and topics stay unique.
pub proof fn lemma_mirror_subscribe_adopt(
    gm0: GroupManager,
    gm1: GroupManager,
    um0: UserManager,
    um1: UserManager,
    g: Seq<char>,
    info: crate::models::GroupInfo,
    t: Seq<char>,
    p: Seq<char>,
)
    requires
        gm0.wf(),
        mirror(gm0, um0),
        !gm0.has_topic(t),
        topic_of(g) == t,
        spec_adopt_group(gm0, gm1, g, info, p),
        um1.subscriptions(p) == um0.subscriptions(p).insert(t),
        same_subs_except(um0, um1, p),
    ensures
        mirror(gm1, um1),
        unique_topics(gm0) ==> unique_topics(gm1),
{
    assert(!gm0.has_group_spec(g));
    assert(gm1.group_subs(g) == Set::<Seq<char>>::empty().insert(p));
    assert forall|p2: Seq<char>, t2: Seq<char>|
        #[trigger] um1.subscriptions(p2).contains(t2) implies exists|g2: Seq<char>|
        #[trigger] gm1.has_group_spec(g2) && topic_of(g2) == t2 && gm1.group_subs(g2).contains(
            p2,
        ) by {
        if p2 == p && t2 == t {
            assert(gm1.has_group_spec(g) && topic_of(g) == t && gm1.group_subs(g).contains(p));
        } else {
            assert(um0.subscriptions(p2).contains(t2));
            let g2 = choose|g2: Seq<char>|
                #[trigger] gm0.has_group_spec(g2) && topic_of(g2) == t2 && gm0.group_subs(
                    g2,
                ).contains(p2);
            assert(g2 != g);
            assert(gm1.states_map()[g2] == gm0.states_map()[g2]);
            assert(gm1.has_group_spec(g2) && topic_of(g2) == t2 && gm1.group_subs(g2).contains(
                p2,
            ));
        }
    }
    assert forall|g2: Seq<char>, p2: Seq<char>|
        gm1.has_group_spec(g2) && #[trigger] gm1.group_subs(g2).contains(p2) implies um1
        .subscriptions(p2).contains(topic_of(g2)) by {
        if g2 == g {
            assert(p2 == p);
            assert(um1.subscriptions(p).contains(t));
        } else {
            assert(gm0.has_group_spec(g2));
            assert(gm1.states_map()[g2] == gm0.states_map()[g2]);
            assert(gm0.group_subs(g2).contains(p2));
            assert(um0.subscriptions(p2).contains(topic_of(g2)));
        }
    }
    if unique_topics(gm0) {
        assert forall|g1: Seq<char>, g2: Seq<char>|
            gm1.has_group_spec(g1) && gm1.has_group_spec(g2) && topic_of(g1) == topic_of(
                g2,
            ) implies g1 == g2 by {
            if g1 != g && g2 != g {
                assert(gm0.has_group_spec(g1) && gm0.has_group_spec(g2));
            } else if g1 == g && g2 != g {
                assert(gm0.has_group_spec(g2) && topic_of(g2) == t);
            } else if g2 == g && g1 != g {
                assert(gm0.has_group_spec(g1) && topic_of(g1) == t);
            }
        }
    }
}

/// Law (mirror consistency, unsubscription): when the group manager removes
/// `p` from the group `g` with topic `t` and the user manager removes `t`
/// from `p`'s topics, a consistent pair of mirrors with unique topics stays
/// consistent. Removing a peer that is not a subscriber changes neither side.
pub proof fn lemma_mirror_unsubscribe(
    gm0: GroupManager,
    gm1: GroupManager,
    um0: UserManager,
    um1: UserManager,
    g: Seq<char>,
    t: Seq<char>,
    p: Seq<char>,
)
    requires
        gm0.wf(),
        mirror(gm0, um0),
        unique_topics(gm0),
        gm0.has_group_spec(g),
        topic_of(g) == t,
        gm1.groups_map() == gm0.groups_map(),
        crate::group::same_states_except(gm0, gm1, g),
        gm1.group_subs(g) == gm0.group_subs(g).remove(p),
        um1.subscriptions(p) == um0.subscriptions(p).remove(t),
        same_subs_except(um0, um1, p),
    ensures
        mirror(gm1, um1),
        unique_topics(gm1),
{
    assert(gm1.states_map().dom() =~= gm0.states_map().dom());
    assert forall|p2: Seq<char>, t2: Seq<char>|
        #[trigger] um1.subscriptions(p2).contains(t2) implies exists|g2: Seq<char>|
        #[trigger] gm1.has_group_spec(g2) && topic_of(g2) == t2 && gm1.group_subs(g2).contains(
            p2,
        ) by {
        assert(um0.subscriptions(p2).contains(t2));
        let g2 = choose|g2: Seq<char>|
            #[trigger] gm0.has_group_spec(g2) && topic_of(g2) == t2 && gm0.group_subs(g2).contains(
                p2,
            );
        if g2 == g {
            if p2 == p {
                assert(t2 != t);
                assert(topic_of(g2) == t);
                assert(false);
            } else {
                assert(gm1.group_subs(g).contains(p2));
            }
        } else {
            assert(gm1.states_map()[g2] == gm0.states_map()[g2]);
        }
        assert(gm1.has_group_spec(g2) && topic_of(g2) == t2 && gm1.group_subs(g2).contains(p2));
    }
    assert forall|g2: Seq<char>, p2: Seq<char>|
        gm1.has_group_spec(g2) && #[trigger] gm1.group_subs(g2).contains(p2) implies um1
        .subscriptions(p2).contains(topic_of(g2)) by {
        if g2 == g {
            assert(gm0.group_subs(g).contains(p2) && p2 != p);
            assert(um0.subscriptions(p2).contains(t));
        } else {
            assert(gm1.states_map()[g2] == gm0.states_map()[g2]);
            assert(gm0.group_subs(g2).contains(p2));
            assert(um0.subscriptions(p2).contains(topic_of(g2)));
            if p2 == p {
                if topic_of(g2) == t {
                    assert(gm0.has_group_spec(g2) && gm0.has_group_spec(g) && topic_of(g2)
                        == topic_of(g));
                    assert(g2 == g);
                }
                assert(topic_of(g2) != t);
            }
        }
    }
    assert forall|g1: Seq<char>, g2: Seq<char>|
        gm1.has_group_spec(g1) && gm1.has_group_spec(g2) && topic_of(g1) == topic_of(
            g2,
        ) implies g1 == g2 by {
        assert(gm0.has_group_spec(g1) && gm0.has_group_spec(g2));
    }
}

/// Law (mirror consistency, untouched events): an event that changes neither
/// manager's subscription mirror — message delivery, discovery, expiry, an
/// inbound request — leaves a consistent pair consistent.
pub proof fn lemma_mirror_untouched(
    gm0: GroupManager,
    gm1: GroupManager,
    um0: UserManager,
    um1: UserManager,
)
    requires
        mirror(gm0, um0),
        gm1.groups_map().dom() == gm0.groups_map().dom(),
        forall|g: Seq<char>|
            #[trigger] gm0.has_group_spec(g) ==> gm1.group_subs(g) == gm0.group_subs(g),
        forall|p: Seq<char>| um1.subscriptions(p) == um0.subscriptions(p),
    ensures
        mirror(gm1, um1),
{
    assert forall|p2: Seq<char>, t2: Seq<char>|
        #[trigger] um1.subscriptions(p2).contains(t2) implies exists|g2: Seq<char>|
        #[trigger] gm1.has_group_spec(g2) && topic_of(g2) == t2 && gm1.group_subs(g2).contains(
            p2,
        ) by {
        assert(um0.subscriptions(p2).contains(t2));
        let g2 = choose|g2: Seq<char>|
            #[trigger] gm0.has_group_spec(g2) && topic_of(g2) == t2 && gm0.group_subs(g2).contains(
                p2,
            );
        assert(gm1.has_group_spec(g2) && topic_of(g2) == t2 && gm1.group_subs(g2).contains(p2));
    }
    assert forall|g2: Seq<char>, p2: Seq<char>|
        gm1.has_group_spec(g2) && #[trigger] gm1.group_subs(g2).contains(p2) implies um1
        .subscriptions(p2).contains(topic_of(g2)) by {
        assert(gm0.has_group_spec(g2) && gm0.group_subs(g2).contains(p2));
    }
}

/// Law (history append-only): under any reaction the group manager's
/// contract allows — it touches at most one group `g`, and where `g` was
/// already known its history is only ever extended — the history of every
/// previously known group afterwards begins with its history before.
pub proof fn lemma_history_append_only(gm0: GroupManager, gm1: GroupManager, g: Seq<char>)
    requires
        gm0.wf(),
        crate::group::same_states_except(gm0, gm1, g),
        gm0.states_map().dom().contains(g) ==> gm0.group_history(g).is_prefix_of(
            gm1.group_history(g),
        ),
    ensures
        forall|g2: Seq<char>|
            #[trigger] gm0.states_map().dom().contains(g2) ==> gm0.group_history(
                g2,
            ).is_prefix_of(gm1.group_history(g2)),
{
    assert forall|g2: Seq<char>|
        #[trigger] gm0.states_map().dom().contains(g2) implies gm0.group_history(
        g2,
    ).is_prefix_of(gm1.group_history(g2)) by {
        if g2 != g {
            assert(gm1.states_map()[g2] == gm0.states_map()[g2]);
            assert(gm0.group_history(g2).is_prefix_of(gm1.group_history(g2))) by {
                assert(gm1.group_history(g2).take(gm0.group_history(g2).len() as int)
                    =~= gm0.group_history(g2));
            }
        }
    }
}

/// Law (self-visibility): when the engine's re-injected publish reaches the
/// group manager — the known group's history gains the stamped message — the
/// next observation of that history ends in exactly that message.
pub proof fn lemma_publish_self_visible(
    gm0: GroupManager,
    gm1: GroupManager,
    g: Seq<char>,
    m: crate::models::GroupMessage,
)
    requires
        gm0.has_group_spec(g),
        gm1.group_history(g) == gm0.group_history(g).push(m),
    ensures
        gm1.group_history(g).len() > 0,
        gm1.group_history(g).last() == m,
{
}

/// Law (descriptor adoption): once a self-subscription adopts a group, the
/// descriptor map carries exactly the stashed descriptor under the stashed
/// identifier.
pub proof fn lemma_descriptor_adopted(
    gm0: GroupManager,
    gm1: GroupManager,
    g: Seq<char>,
    info: crate::models::GroupInfo,
    p: Seq<char>,
)
    requires
        spec_adopt_group(gm0, gm1, g, info, p),
    ensures
        gm1.has_group_spec(g),
        gm1.groups_map()[g] == info,
{
}

/// Law (idempotent unsubscribe): removing a peer that never subscribed
/// leaves the subscriber set exactly as it was; the handler's contract adds
/// that no presentation event is emitted then.
pub proof fn lemma_unsubscribe_idempotent(subs: Set<Seq<char>>, p: Seq<char>)
    requires
        !subs.contains(p),
    ensures
        subs.remove(p) == subs,
{
    assert(subs.remove(p) =~= subs);
}

/// Law (pending slot singularity): an emptied slot adopts nothing, so one
/// stash is consumed by at most one self-subscription; that a second stash
/// overwrites the first is the contract of the slot's setter.
pub proof fn lemma_pending_slot_spent(peer: Seq<char>, local: Seq<char>, topic: Seq<char>)
    ensures
        !crate::group::adopts_pending(None, peer, local, topic),
{
}

/// An appended history begins with the history it extends.
pub proof fn lemma_push_extends(h: Seq<crate::models::GroupMessage>, m: crate::models::GroupMessage)
    ensures
        h.is_prefix_of(h.push(m)),
{
    assert(h.push(m).take(h.len() as int) =~= h);
}

/// Adds folded over one listener's map entry, oldest first.
pub open spec fn fold_adds(
    m: Map<u64, Seq<Seq<char>>>,
    l: u64,
    adds: Seq<Seq<char>>,
) -> Map<u64, Seq<Seq<char>>>
    decreases adds.len(),
{
    if adds.len() == 0 {
        m
    } else {
        listen_add(fold_adds(m, l, adds.drop_last()), l, adds.last())
    }
}

/// Law (listener accounting): starting from a map without listener `l`, a
/// run of new-address reports accumulates exactly those addresses in order;
/// a close report then leaves exactly the accumulated addresses minus the
/// closed ones, and removes the listener entirely when none remain.
pub proof fn lemma_listener_accounting(
    m: Map<u64, Seq<Seq<char>>>,
    l: u64,
    adds: Seq<Seq<char>>,
    closed: Seq<Seq<char>>,
)
    requires
        !m.dom().contains(l),
    ensures
        adds.len() == 0 ==> fold_adds(m, l, adds) == m,
        adds.len() > 0 ==> fold_adds(m, l, adds).dom().contains(l) && fold_adds(m, l, adds)[l]
            == adds,
        ({
            let after = listen_close(fold_adds(m, l, adds), l, closed);
            let remaining = adds.filter(|a: Seq<char>| !closed.contains(a));
            &&& (adds.len() > 0 && remaining.len() > 0) ==> after.dom().contains(l) && after[l]
                == remaining
            &&& (adds.len() == 0 || remaining.len() == 0) ==> !after.dom().contains(l)
        }),
    decreases adds.len(),
{
    if adds.len() == 0 {
    } else {
        let prev = adds.drop_last();
        lemma_listener_accounting(m, l, prev, closed);
        let folded = fold_adds(m, l, adds);
        if prev.len() == 0 {
            assert(folded[l] =~= adds);
        } else {
            assert(fold_adds(m, l, prev)[l] == prev);
            assert(folded[l] =~= adds);
        }
        reveal(Seq::filter);
        assert(adds.filter(|a: Seq<char>| !closed.contains(a)) == (if !closed.contains(
            adds.last(),
        ) {
            prev.filter(|a: Seq<char>| !closed.contains(a)).push(adds.last())
        } else {
            prev.filter(|a: Seq<char>| !closed.contains(a))
        }));
    }
}

} // verus!

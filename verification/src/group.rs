//! The group manager: descriptors and per-group state, and its reactions to
//! inbound events.
//!
//! Descriptor map and state map always share their key set: a group exists in
//! one exactly when it exists in the other. Histories only grow, except when
//! a group is removed or overwritten whole. A group is found by topic by
//! scanning the keys and hashing each; the expected population is small.
//!
//! The manager's reaction to an event that needs a descriptor the node does
//! not hold is split from the transport: the caller first asks
//! [`GroupManager::subscribe_need`] whether a descriptor must be pulled from
//! the subscribing peer, performs that request, and hands the outcome to
//! [`GroupManager::handle_event`].

use vstd::prelude::*;
use vstd::string::StringExecFns;

use crate::codec::Request;
use crate::codec::RequestV;
use crate::codec::Response;
use crate::codec::ResponseV;
use crate::errors::NetworkError;
use crate::events::FrontendEvent;
use crate::events::FrontendEventV;
use crate::events::HandlerOutcome;
use crate::events::InboundEvent;
use crate::events::events_view;
use crate::ids::GroupId;
use crate::ids::PeerId;
use crate::ids::TopicHash;
use crate::ids::topic_of;
use crate::kmap::KMap;
use crate::kmap::MapKey;
use crate::models::GroupInfo;
use crate::models::GroupMessage;
use crate::models::GroupState;

verus! {

/// Mirrors of the known groups: their descriptors and their local state.
#[derive(Debug)]
pub struct GroupManager {
    groups: KMap<GroupId, GroupInfo>,
    states: KMap<GroupId, GroupState>,
}

/// Whether a self-subscription adopts the pending new-group slot: the
/// subscriber is the local peer and the slot's group hashes to the observed
/// topic.
pub open spec fn adopts_pending(
    pending: Option<(GroupId, GroupInfo)>,
    peer: Seq<char>,
    local: Seq<char>,
    topic: Seq<char>,
) -> bool {
    match pending {
        Some((gid, info)) => peer == local && topic_of(gid@) == topic,
        None => false,
    }
}

/// The state maps of `pre` and `post` agree on every group but `g`.
pub open spec fn same_states_except(pre: GroupManager, post: GroupManager, g: Seq<char>) -> bool {
    &&& post.states_map().dom() == pre.states_map().dom().insert(g)
    &&& forall|g2: Seq<char>|
        g2 != g && pre.states_map().dom().contains(g2) ==> post.states_map()[g2] == pre.states_map()[g2]
}

/// A subscription by `p` to the already-known group `g` with topic `t`.
pub open spec fn spec_subscribe_known(
    pre: GroupManager,
    post: GroupManager,
    g: Seq<char>,
    t: Seq<char>,
    p: Seq<char>,
) -> bool {
    &&& pre.has_group_spec(g)
    &&& topic_of(g) == t
    &&& post.groups_map() == pre.groups_map()
    &&& same_states_except(pre, post, g)
    &&& post.group_history(g) == pre.group_history(g)
    &&& post.group_subs(g) == pre.group_subs(g).insert(p)
}

/// Adoption of a new group `g` described by `info`, subscribed to by `p`.
pub open spec fn spec_adopt_group(
    pre: GroupManager,
    post: GroupManager,
    g: Seq<char>,
    info: GroupInfo,
    p: Seq<char>,
) -> bool {
    &&& post.groups_map() == pre.groups_map().insert(g, info)
    &&& same_states_except(pre, post, g)
    &&& post.group_history(g) == Seq::<GroupMessage>::empty()
    &&& post.group_subs(g) == Set::<Seq<char>>::empty().insert(p)
}

impl GroupManager {
    /// The descriptor map, keyed by group-identifier views.
    pub closed spec fn groups_map(&self) -> Map<Seq<char>, GroupInfo> {
        self.groups@
    }

    /// The state map, keyed by group-identifier views.
    pub closed spec fn states_map(&self) -> Map<Seq<char>, GroupState> {
        self.states@
    }

    pub open spec fn has_group_spec(&self, g: Seq<char>) -> bool {
        self.groups_map().dom().contains(g)
    }

    /// Whether some known group hashes to topic `t`.
    pub open spec fn has_topic(&self, t: Seq<char>) -> bool {
        exists|g: Seq<char>| #[trigger] self.has_group_spec(g) && topic_of(g) == t
    }

    pub open spec fn group_history(&self, g: Seq<char>) -> Seq<GroupMessage> {
        self.states_map()[g]@.history
    }

    pub open spec fn group_subs(&self, g: Seq<char>) -> Set<Seq<char>> {
        self.states_map()[g]@.subscribers
    }

    /// Both backing maps are well-formed.
    pub closed spec fn reps_wf(&self) -> bool {
        self.groups.wf() && self.states.wf()
    }

    /// A group has a descriptor exactly when it has a state.
    pub open spec fn maps_consistent(&self) -> bool {
        self.groups_map().dom() == self.states_map().dom()
    }

    /// Every group has a descriptor exactly when it has a state, and every
    /// state is well-formed.
    pub open spec fn wf(&self) -> bool {
        &&& self.reps_wf()
        &&& self.maps_consistent()
        &&& forall|g: Seq<char>|
            #[trigger] self.states_map().dom().contains(g) ==> self.states_map()[g].wf()
    }

    pub fn new() -> (r: GroupManager)
        ensures
            r.wf(),
            r.groups_map() == Map::<Seq<char>, GroupInfo>::empty(),
            r.states_map() == Map::<Seq<char>, GroupState>::empty(),
    {
        let r = GroupManager { groups: KMap::new(), states: KMap::new() };
        proof {
            assert(r.groups_map().dom() =~= r.states_map().dom());
        }
        r
    }

    /// Inserts (or overwrites) a group's descriptor, with a fresh state.
    pub fn add_group(&mut self, group_id: GroupId, group_info: GroupInfo)
        requires
            old(self).wf(),
        ensures
            final(self).wf(),
            final(self).groups_map() == old(self).groups_map().insert(group_id@, group_info),
            same_states_except(*old(self), *final(self), group_id@),
            final(self).group_history(group_id@) == Seq::<GroupMessage>::empty(),
            final(self).group_subs(group_id@) == Set::<Seq<char>>::empty(),
    {
        let gid2 = group_id.dup();
        self.groups.insert(group_id, group_info);
        let st = GroupState::new();
        proof {
            assert(st@.subscribers =~= Set::<Seq<char>>::empty());
        }
        self.states.insert(gid2, st);
        proof {
            assert(self.states_map().dom() =~= old(self).states_map().dom().insert(gid2@));
            assert(self.groups_map().dom() =~= self.states_map().dom());
        }
    }

    /// Drops a group's descriptor and state together.
    pub fn remove_group(&mut self, group_id: &GroupId)
        requires
            old(self).wf(),
        ensures
            final(self).wf(),
            final(self).groups_map() == old(self).groups_map().remove(group_id@),
            final(self).states_map() == old(self).states_map().remove(group_id@),
    {
        self.groups.remove(group_id);
        self.states.remove(group_id);
        proof {
            assert(self.groups_map().dom() =~= self.states_map().dom());
        }
    }

    /// All known groups with their descriptors.
    pub fn get_groups(&self) -> (r: Vec<(GroupId, GroupInfo)>)
        requires
            self.wf(),
        ensures
            forall|i: int|
                0 <= i < r@.len() ==> #[trigger] self.has_group_spec(r@[i].0@) && r@[i].1
                    == self.groups_map()[r@[i].0@],
            forall|i: int, j: int| 0 <= i < j < r@.len() ==> r@[i].0@ != r@[j].0@,
            forall|g: Seq<char>|
                #[trigger] self.has_group_spec(g) ==> exists|i: int| 0 <= i < r@.len() && r@[i].0@
                    == g,
    {
        self.groups.observe();
        let n = self.groups.count();
        let mut r: Vec<(GroupId, GroupInfo)> = Vec::new();
        let mut i: usize = 0;
        while i < n
            invariant
                i <= n,
                self.wf(),
                n == self.groups.key_seq().len(),
                r@.len() == i,
                forall|j: int| 0 <= j < i ==> r@[j].0@ == self.groups.key_seq()[j],
                forall|j: int| 0 <= j < i ==> r@[j].1 == self.groups_map()[self.groups.key_seq()[j]],
            decreases n - i,
        {
            let (k, v) = self.groups.entry_at(i);
            r.push((k.dup(), v.clone()));
            i += 1;
        }
        proof {
            assert forall|g: Seq<char>|
                #[trigger] self.has_group_spec(g) implies exists|i: int|
                0 <= i < r@.len() && r@[i].0@ == g by {
                let i = choose|i: int|
                    0 <= i < self.groups.key_seq().len() && self.groups.key_seq()[i] == g;
                assert(r@[i].0@ == g);
            }
            assert forall|i: int, j: int| 0 <= i < j < r@.len() implies r@[i].0@ != r@[j].0@ by {
                assert(self.groups.key_seq()[i] != self.groups.key_seq()[j]);
            }
        }
        r
    }

    /// Appends a message to the group's history, if the group is known.
    pub fn add_message(&mut self, group_id: &GroupId, message: GroupMessage)
        requires
            old(self).wf(),
        ensures
            final(self).wf(),
            final(self).groups_map() == old(self).groups_map(),
            old(self).has_group_spec(group_id@) ==> {
                &&& same_states_except(*old(self), *final(self), group_id@)
                &&& final(self).group_history(group_id@) == old(self).group_history(
                    group_id@,
                ).push(message)
                &&& final(self).group_subs(group_id@) == old(self).group_subs(group_id@)
            },
            !old(self).has_group_spec(group_id@) ==> final(self).groups_map() == old(
                self,
            ).groups_map() && final(self).states_map() == old(self).states_map(),
    {
        let taken = self.states.remove(group_id);
        match taken {
            Some(mut st) => {
                st.push_message(message);
                self.states.insert(group_id.dup(), st);
                proof {
                    assert(self.states_map() =~= old(self).states_map().insert(
                        group_id@,
                        self.states_map()[group_id@],
                    ));
                    assert(self.states_map().dom() =~= old(self).states_map().dom().insert(
                        group_id@,
                    ));
                    assert(self.states_map().dom() =~= old(self).states_map().dom());
                    assert(self.groups_map().dom() =~= self.states_map().dom());
                }
            },
            None => {
                proof {
                    assert(self.states_map() =~= old(self).states_map());
                }
            },
        }
    }

    /// The group's descriptor, if known.
    pub fn get_group_info(&self, group_id: &GroupId) -> (r: Option<GroupInfo>)
        requires
            self.wf(),
        ensures
            match r {
                Some(v) => self.has_group_spec(group_id@) && v == self.groups_map()[group_id@],
                None => !self.has_group_spec(group_id@),
            },
    {
        match self.groups.get(group_id) {
            Some(v) => Some(v.clone()),
            None => None,
        }
    }

    /// A copy of the group's state, if known.
    pub fn get_group_state(&self, group_id: &GroupId) -> (r: Option<GroupState>)
        requires
            self.wf(),
        ensures
            match r {
                Some(v) => self.has_group_spec(group_id@) && v.wf() && v@ == self.states_map()[
                    group_id@]@,
                None => !self.has_group_spec(group_id@),
            },
    {
        match self.states.get(group_id) {
            Some(v) => Some(v.clone_state()),
            None => None,
        }
    }

    pub fn has_group(&self, group_id: &GroupId) -> (r: bool)
        requires
            self.wf(),
        ensures
            r == self.has_group_spec(group_id@),
    {
        self.groups.contains_key(group_id)
    }

    pub fn is_group_exist(&self, group_id: &GroupId) -> (r: bool)
        requires
            self.wf(),
        ensures
            r == self.has_group_spec(group_id@),
    {
        self.groups.contains_key(group_id)
    }

    /// Whether some known group hashes to this topic.
    pub fn has_group_by_hash(&self, topic_hash: &TopicHash) -> (r: bool)
        requires
            self.wf(),
        ensures
            r == self.has_topic(topic_hash@),
    {
        match self.get_group_by_hash(topic_hash) {
            Some(_) => true,
            None => false,
        }
    }

    /// The first known group hashing to this topic, if any.
    pub fn get_group_by_hash(&self, topic_hash: &TopicHash) -> (r: Option<GroupId>)
        requires
            self.wf(),
        ensures
            match r {
                Some(g) => self.has_group_spec(g@) && topic_of(g@) == topic_hash@,
                None => !self.has_topic(topic_hash@),
            },
    {
        self.groups.observe();
        let n = self.groups.count();
        let mut i: usize = 0;
        while i < n
            invariant
                i <= n,
                self.wf(),
                n == self.groups.key_seq().len(),
                forall|j: int|
                    0 <= j < i ==> topic_of(#[trigger] self.groups.key_seq()[j]) != topic_hash@,
            decreases n - i,
        {
            let (k, _) = self.groups.entry_at(i);
            let t = k.topic();
            if t.key_eq(topic_hash) {
                return Some(k.dup());
            }
            i += 1;
        }
        proof {
            if self.has_topic(topic_hash@) {
                let g = choose|g: Seq<char>|
                    #[trigger] self.has_group_spec(g) && topic_of(g) == topic_hash@;
                let j = choose|j: int|
                    0 <= j < self.groups.key_seq().len() && self.groups.key_seq()[j] == g;
                assert(topic_of(self.groups.key_seq()[j]) != topic_hash@);
            }
        }
        None
    }

    /// Records a subscriber of a known group.
    pub fn add_subscribe(&mut self, group_id: &GroupId, peer_id: PeerId)
        requires
            old(self).wf(),
        ensures
            final(self).wf(),
            final(self).groups_map() == old(self).groups_map(),
            old(self).has_group_spec(group_id@) ==> {
                &&& same_states_except(*old(self), *final(self), group_id@)
                &&& final(self).group_history(group_id@) == old(self).group_history(group_id@)
                &&& final(self).group_subs(group_id@) == old(self).group_subs(group_id@).insert(
                    peer_id@,
                )
            },
            !old(self).has_group_spec(group_id@) ==> final(self).groups_map() == old(
                self,
            ).groups_map() && final(self).states_map() == old(self).states_map(),
    {
        let taken = self.states.remove(group_id);
        match taken {
            Some(mut st) => {
                st.add_subscriber(peer_id);
                self.states.insert(group_id.dup(), st);
                proof {
                    assert(self.states_map().dom() =~= old(self).states_map().dom().insert(
                        group_id@,
                    ));
                    assert(self.states_map().dom() =~= old(self).states_map().dom());
                    assert(self.groups_map().dom() =~= self.states_map().dom());
                }
            },
            None => {
                proof {
                    assert(self.states_map() =~= old(self).states_map());
                }
            },
        }
    }

    /// Removes a subscriber of a known group; reports whether the set
    /// actually changed.
    pub fn remove_subscribe(&mut self, group_id: &GroupId, peer_id: &PeerId) -> (r: bool)
        requires
            old(self).wf(),
        ensures
            final(self).wf(),
            final(self).groups_map() == old(self).groups_map(),
            r == (old(self).has_group_spec(group_id@) && old(self).group_subs(group_id@).contains(
                peer_id@,
            )),
            old(self).has_group_spec(group_id@) ==> {
                &&& same_states_except(*old(self), *final(self), group_id@)
                &&& final(self).group_history(group_id@) == old(self).group_history(group_id@)
                &&& final(self).group_subs(group_id@) == old(self).group_subs(group_id@).remove(
                    peer_id@,
                )
            },
            !old(self).has_group_spec(group_id@) ==> final(self).groups_map() == old(
                self,
            ).groups_map() && final(self).states_map() == old(self).states_map(),
    {
        let taken = self.states.remove(group_id);
        match taken {
            Some(mut st) => {
                let removed = st.remove_subscriber(peer_id);
                self.states.insert(group_id.dup(), st);
                proof {
                    assert(self.states_map().dom() =~= old(self).states_map().dom().insert(
                        group_id@,
                    ));
                    assert(self.states_map().dom() =~= old(self).states_map().dom());
                    assert(self.groups_map().dom() =~= self.states_map().dom());
                }
                removed
            },
            None => {
                proof {
                    assert(self.states_map() =~= old(self).states_map());
                }
                false
            },
        }
    }

    /// Whether the group is known and has at least one subscriber.
    pub fn has_any_subscriber(&self, group_id: &GroupId) -> (r: bool)
        requires
            self.wf(),
        ensures
            r == (self.has_group_spec(group_id@) && self.group_subs(group_id@) != Set::<
                Seq<char>,
            >::empty()),
    {
        match self.states.get(group_id) {
            Some(st) => !st.no_subscribers(),
            None => false,
        }
    }

    /// Whether handling `Subscribed { peer_id, topic }` will need the
    /// descriptor pulled from the subscribing peer: the topic is unknown and
    /// the pending new-group slot does not cover it.
    pub fn subscribe_need(
        &self,
        peer_id: &PeerId,
        topic: &TopicHash,
        local_peer: &PeerId,
        pending_new_group: &Option<(GroupId, GroupInfo)>,
    ) -> (r: Option<Request>)
        requires
            self.wf(),
        ensures
            match r {
                Some(req) => req@ == RequestV::Group(topic@) && !self.has_topic(topic@)
                    && !adopts_pending(*pending_new_group, peer_id@, local_peer@, topic@),
                None => self.has_topic(topic@) || adopts_pending(
                    *pending_new_group,
                    peer_id@,
                    local_peer@,
                    topic@,
                ),
            },
    {
        if self.has_group_by_hash(topic) {
            return None;
        }
        let adopt = match pending_new_group {
            Some((gid, _)) => peer_id.key_eq(local_peer) && gid.topic().key_eq(topic),
            None => false,
        };
        if adopt {
            None
        } else {
            Some(Request::Group(topic.clone()))
        }
    }

    /// Reacts to one inbound event.
    ///
    /// `pending_new_group` is the client's pending new-group slot; it is
    /// taken exactly when a self-subscription matches it. `fetched` is the
    /// outcome of the descriptor pull that [`Self::subscribe_need`] asked
    /// for, and is consulted only when that call returned a request.
    pub fn handle_event(
        &mut self,
        event: &InboundEvent,
        local_peer: &PeerId,
        pending_new_group: &mut Option<(GroupId, GroupInfo)>,
        fetched: Option<Result<(GroupId, GroupInfo), NetworkError>>,
    ) -> (r: HandlerOutcome)
        requires
            old(self).wf(),
        ensures
            final(self).wf(),
            match event {
                InboundEvent::InboundRequest { request, channel } => {
                    &&& *final(self) == *old(self)
                    &&& *final(pending_new_group) == *old(pending_new_group)
                    &&& r.events@ == Seq::<FrontendEvent>::empty()
                    &&& r.result is Ok
                    &&& match request {
                        Request::Group(t) => match r.response {
                            Some(resp) => resp@ matches ResponseV::Group((g, i))
                                && old(self).has_group_spec(g) && topic_of(g) == t@ && i == old(
                                self,
                            ).groups_map()[g]@,
                            None => !old(self).has_topic(t@),
                        },
                        _ => r.response is None,
                    }
                },
                InboundEvent::Message { topic, message } => {
                    &&& *final(pending_new_group) == *old(pending_new_group)
                    &&& r.response is None
                    &&& r.result is Ok
                    &&& final(self).groups_map() == old(self).groups_map()
                    &&& if old(self).has_topic(topic@) {
                        exists|g: Seq<char>|
                            {
                                &&& #[trigger] old(self).has_group_spec(g)
                                &&& topic_of(g) == topic@
                                &&& same_states_except(*old(self), *final(self), g)
                                &&& final(self).group_history(g) == old(self).group_history(
                                    g,
                                ).push(*message)
                                &&& final(self).group_subs(g) == old(self).group_subs(g)
                                &&& events_view(r.events@) == seq![
                                    FrontendEventV::Message { group_id: g, message: message@ },
                                ]
                            }
                    } else {
                        *final(self) == *old(self) && r.events@ == Seq::<FrontendEvent>::empty()
                    }
                },
                InboundEvent::Subscribed { peer_id, topic } => {
                    &&& r.response is None
                    &&& if old(self).has_topic(topic@) {
                        &&& *final(pending_new_group) == *old(pending_new_group)
                        &&& r.result is Ok
                        &&& exists|g: Seq<char>|
                            {
                                &&& spec_subscribe_known(*old(self), *final(self), g, topic@, peer_id@)
                                &&& events_view(r.events@) == seq![
                                    FrontendEventV::Subscribed { group_id: g, peer_id: peer_id@ },
                                ]
                            }
                    } else if adopts_pending(
                        *old(pending_new_group),
                        peer_id@,
                        local_peer@,
                        topic@,
                    ) {
                        &&& *final(pending_new_group) is None
                        &&& r.result is Ok
                        &&& {
                            let (gid, info) = old(pending_new_group)->Some_0;
                            &&& spec_adopt_group(*old(self), *final(self), gid@, info, peer_id@)
                            &&& events_view(r.events@) == seq![
                                FrontendEventV::GroupUpdate { group_id: gid@, group_info: info@ },
                                FrontendEventV::Subscribed { group_id: gid@, peer_id: peer_id@ },
                            ]
                        }
                    } else {
                        match fetched {
                            Some(Ok(pair)) => {
                                &&& *final(pending_new_group) == *old(pending_new_group)
                                &&& r.result is Ok
                                &&& spec_adopt_group(
                                    *old(self),
                                    *final(self),
                                    pair.0@,
                                    pair.1,
                                    peer_id@,
                                )
                                &&& events_view(r.events@) == seq![
                                    FrontendEventV::GroupUpdate {
                                        group_id: pair.0@,
                                        group_info: pair.1@,
                                    },
                                    FrontendEventV::Subscribed {
                                        group_id: pair.0@,
                                        peer_id: peer_id@,
                                    },
                                ]
                            },
                            _ => {
                                &&& *final(self) == *old(self)
                                &&& *final(pending_new_group) == *old(pending_new_group)
                                &&& r.events@ == Seq::<FrontendEvent>::empty()
                                &&& (r.result matches Err(NetworkError::Other(m)) && m@
                                    == "group not found"@)
                            },
                        }
                    }
                },
                InboundEvent::Unsubscribed { peer_id, topic } => {
                    &&& *final(pending_new_group) == *old(pending_new_group)
                    &&& r.response is None
                    &&& r.result is Ok
                    &&& final(self).groups_map() == old(self).groups_map()
                    &&& if old(self).has_topic(topic@) {
                        exists|g: Seq<char>|
                            {
                                &&& #[trigger] old(self).has_group_spec(g)
                                &&& topic_of(g) == topic@
                                &&& same_states_except(*old(self), *final(self), g)
                                &&& final(self).group_history(g) == old(self).group_history(g)
                                &&& final(self).group_subs(g) == old(self).group_subs(g).remove(
                                    peer_id@,
                                )
                                &&& events_view(r.events@) == (if old(self).group_subs(g).contains(
                                    peer_id@,
                                ) {
                                    seq![
                                        FrontendEventV::Unsubscribed {
                                            group_id: g,
                                            peer_id: peer_id@,
                                        },
                                    ]
                                } else {
                                    Seq::<FrontendEventV>::empty()
                                })
                            }
                    } else {
                        *final(self) == *old(self) && r.events@ == Seq::<FrontendEvent>::empty()
                    }
                },
                _ => {
                    &&& *final(self) == *old(self)
                    &&& *final(pending_new_group) == *old(pending_new_group)
                    &&& r.events@ == Seq::<FrontendEvent>::empty()
                    &&& r.response is None
                    &&& r.result is Ok
                },
            },
    {
        match event {
            InboundEvent::InboundRequest { request, channel } => {
                let response = match request {
                    Request::Group(t) => match self.get_group_by_hash(t) {
                        Some(gid) => {
                            let info = match self.get_group_info(&gid) {
                                Some(info) => info,
                                None => {
                                    // unreachable: descriptor and state share keys
                                    proof {
                                        assert(false);
                                    }
                                    GroupInfo { name: String::new(), description: None }
                                },
                            };
                            Some(Response::Group((gid, info)))
                        },
                        None => None,
                    },
                    _ => None,
                };
                HandlerOutcome { events: Vec::new(), response, result: Ok(()) }
            },
            InboundEvent::Message { topic, message } => {
                let mut events: Vec<FrontendEvent> = Vec::new();
                match self.get_group_by_hash(topic) {
                    Some(gid) => {
                        self.add_message(&gid, message.clone());
                        events.push(
                            FrontendEvent::Message { group_id: gid, message: message.clone() },
                        );
                        proof {
                            assert(events_view(events@) =~= seq![
                                FrontendEventV::Message { group_id: gid@, message: message@ },
                            ]);
                        }
                    },
                    None => {},
                }
                HandlerOutcome { events, response: None, result: Ok(()) }
            },
            InboundEvent::Subscribed { peer_id, topic } => {
                let mut events: Vec<FrontendEvent> = Vec::new();
                let known = self.get_group_by_hash(topic);
                let ghost was_known = old(self).has_topic(topic@);
                let gid = match known {
                    Some(gid) => gid,
                    None => {
                        let adopt = match &*pending_new_group {
                            Some((gid0, _)) => peer_id.key_eq(local_peer) && gid0.topic().key_eq(
                                topic,
                            ),
                            None => false,
                        };
                        let pair = if adopt {
                            pending_new_group.take()
                        } else {
                            match fetched {
                                Some(Ok(p)) => Some(p),
                                _ => None,
                            }
                        };
                        match pair {
                            Some((gid, info)) => {
                                events.push(
                                    FrontendEvent::GroupUpdate {
                                        group_id: gid.dup(),
                                        group_info: info.clone(),
                                    },
                                );
                                self.add_group(gid.dup(), info);
                                gid
                            },
                            None => {
                                return HandlerOutcome {
                                    events,
                                    response: None,
                                    result: Err(
                                        NetworkError::Other(String::from_str("group not found")),
                                    ),
                                };
                            },
                        }
                    },
                };
                let ghost gv = gid@;
                self.add_subscribe(&gid, peer_id.clone());
                events.push(
                    FrontendEvent::Subscribed { group_id: gid, peer_id: peer_id.clone() },
                );
                proof {
                    if was_known {
                        assert(events_view(events@) =~= seq![
                            FrontendEventV::Subscribed { group_id: gv, peer_id: peer_id@ },
                        ]);
                        assert(spec_subscribe_known(*old(self), *self, gv, topic@, peer_id@));
                    } else {
                        let iv = events@[0]->GroupUpdate_group_info@;
                        assert(events_view(events@) =~= seq![
                            FrontendEventV::GroupUpdate { group_id: gv, group_info: iv },
                            FrontendEventV::Subscribed { group_id: gv, peer_id: peer_id@ },
                        ]);
                        assert(final(self).states_map().dom() =~= old(self).states_map().dom().insert(
                            gv,
                        ));
                        assert(final(self).group_subs(gv) =~= Set::<Seq<char>>::empty().insert(
                            peer_id@,
                        ));
                    }
                }
                HandlerOutcome { events, response: None, result: Ok(()) }
            },
            InboundEvent::Unsubscribed { peer_id, topic } => {
                let mut events: Vec<FrontendEvent> = Vec::new();
                match self.get_group_by_hash(topic) {
                    Some(gid) => {
                        let gid2 = gid.dup();
                        if self.remove_subscribe(&gid, peer_id) {
                            events.push(
                                FrontendEvent::Unsubscribed {
                                    group_id: gid2,
                                    peer_id: peer_id.clone(),
                                },
                            );
                            proof {
                                assert(events_view(events@) =~= seq![
                                    FrontendEventV::Unsubscribed {
                                        group_id: gid@,
                                        peer_id: peer_id@,
                                    },
                                ]);
                            }
                        }
                    },
                    None => {},
                }
                HandlerOutcome { events, response: None, result: Ok(()) }
            },
            _ => HandlerOutcome { events: Vec::new(), response: None, result: Ok(()) },
        }
    }
}

} // verus!

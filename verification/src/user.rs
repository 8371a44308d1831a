//! The user manager: profiles of observed peers and the mirror of each
//! peer's topic subscriptions, and its reactions to inbound events.
//!
//! A profile the node does not hold is pulled from the peer itself; as with
//! the group manager, the caller first asks [`UserManager::fetch_need`]
//! whether a pull is due, performs it, and hands the outcome to
//! [`UserManager::handle_event`].

use vstd::prelude::*;
use vstd::string::StringExecFns;

use crate::codec::Request;
use crate::codec::RequestV;
use crate::codec::Response;
use crate::codec::ResponseV;
use crate::errors::ManagerError;
use crate::errors::NetworkError;
use crate::events::FrontendEvent;
use crate::events::FrontendEventV;
use crate::events::HandlerOutcome;
use crate::events::InboundEvent;
use crate::events::events_view;
use crate::ids::PeerId;
use crate::ids::TopicHash;
use crate::kmap::KMap;
use crate::kmap::MapKey;
use crate::models::LocalUserInfo;
use crate::models::UserInfo;
use crate::models::UserInfoV;
use crate::models::UserState;
use crate::models::opt_view;

verus! {

/// Profiles of observed peers, and which topics each peer subscribes to.
#[derive(Debug)]
pub struct UserManager {
    users: KMap<PeerId, UserInfo>,
    user_subscribe: KMap<PeerId, KMap<TopicHash, ()>>,
}

/// The subscription sets of `pre` and `post` agree on every peer but `p`.
pub open spec fn same_subs_except(pre: UserManager, post: UserManager, p: Seq<char>) -> bool {
    forall|p2: Seq<char>| p2 != p ==> post.subscriptions(p2) == pre.subscriptions(p2)
}

/// The profile the local node synthesizes for itself.
pub open spec fn local_profile(local_user: LocalUserInfo) -> UserInfoV {
    UserInfoV {
        name: local_user.name@,
        avatar: opt_view(local_user.avatar),
        status: UserState::Online,
    }
}

impl UserManager {
    /// The profile map, keyed by peer views.
    pub closed spec fn users_map(&self) -> Map<Seq<char>, UserInfo> {
        self.users@
    }

    /// The topics this peer is mirrored as subscribed to.
    pub closed spec fn subscriptions(&self, p: Seq<char>) -> Set<Seq<char>> {
        if self.user_subscribe@.dom().contains(p) {
            self.user_subscribe@[p]@.dom()
        } else {
            Set::<Seq<char>>::empty()
        }
    }

    pub open spec fn has_user_spec(&self, p: Seq<char>) -> bool {
        self.users_map().dom().contains(p)
    }

    pub closed spec fn wf(&self) -> bool {
        &&& self.users.wf()
        &&& self.user_subscribe.wf()
        &&& forall|p: Seq<char>|
            #[trigger] self.user_subscribe@.dom().contains(p) ==> self.user_subscribe@[p].wf()
    }

    pub fn new() -> (r: UserManager)
        ensures
            r.wf(),
            r.users_map() == Map::<Seq<char>, UserInfo>::empty(),
            forall|p: Seq<char>| r.subscriptions(p) == Set::<Seq<char>>::empty(),
    {
        UserManager { users: KMap::new(), user_subscribe: KMap::new() }
    }

    pub fn add_user(&mut self, peer_id: PeerId, user_info: UserInfo)
        requires
            old(self).wf(),
        ensures
            final(self).wf(),
            final(self).users_map() == old(self).users_map().insert(peer_id@, user_info),
            forall|p: Seq<char>| final(self).subscriptions(p) == old(self).subscriptions(p),
    {
        self.users.insert(peer_id, user_info);
    }

    pub fn remove_user(&mut self, peer_id: &PeerId)
        requires
            old(self).wf(),
        ensures
            final(self).wf(),
            final(self).users_map() == old(self).users_map().remove(peer_id@),
            forall|p: Seq<char>| final(self).subscriptions(p) == old(self).subscriptions(p),
    {
        self.users.remove(peer_id);
    }

    /// Records that the peer subscribes to the topic; refused while no
    /// profile is held for the peer.
    fn add_subscribe(&mut self, peer_id: PeerId, topic: TopicHash) -> (r: Result<
        (),
        ManagerError,
    >)
        requires
            old(self).wf(),
        ensures
            final(self).wf(),
            final(self).users_map() == old(self).users_map(),
            match r {
                Ok(()) => {
                    &&& old(self).has_user_spec(peer_id@)
                    &&& final(self).subscriptions(peer_id@) == old(self).subscriptions(
                        peer_id@,
                    ).insert(topic@)
                    &&& same_subs_except(*old(self), *final(self), peer_id@)
                },
                Err(e) => {
                    &&& !old(self).has_user_spec(peer_id@)
                    &&& e matches ManagerError::PeerNotExist(p) && p@ == peer_id@
                    &&& forall|p2: Seq<char>|
                        final(self).subscriptions(p2) == old(self).subscriptions(p2)
                },
            },
    {
        if !self.users.contains_key(&peer_id) {
            return Err(ManagerError::PeerNotExist(peer_id));
        }
        let taken = self.user_subscribe.remove(&peer_id);
        let mut set = match taken {
            Some(s) => s,
            None => KMap::new(),
        };
        set.insert(topic, ());
        self.user_subscribe.insert(peer_id, set);
        proof {
            assert(self.subscriptions(peer_id@) =~= old(self).subscriptions(peer_id@).insert(
                topic@,
            ));
            assert forall|p2: Seq<char>| p2 != peer_id@ implies self.subscriptions(p2) == old(
                self,
            ).subscriptions(p2) by {
            }
        }
        Ok(())
    }

    /// Forgets that the peer subscribes to the topic; reports whether the
    /// mirror actually changed.
    fn remove_subscribe(&mut self, peer_id: &PeerId, topic: &TopicHash) -> (r: bool)
        requires
            old(self).wf(),
        ensures
            final(self).wf(),
            final(self).users_map() == old(self).users_map(),
            final(self).subscriptions(peer_id@) == old(self).subscriptions(peer_id@).remove(
                topic@,
            ),
            same_subs_except(*old(self), *final(self), peer_id@),
            r == old(self).subscriptions(peer_id@).contains(topic@),
    {
        let taken = self.user_subscribe.remove(peer_id);
        match taken {
            Some(mut set) => {
                let removed = set.remove(topic);
                self.user_subscribe.insert(peer_id.dup(), set);
                proof {
                    assert(self.subscriptions(peer_id@) =~= old(self).subscriptions(
                        peer_id@,
                    ).remove(topic@));
                }
                match removed {
                    Some(_) => true,
                    None => false,
                }
            },
            None => {
                proof {
                    assert(self.user_subscribe@ =~= old(self).user_subscribe@);
                    assert(self.subscriptions(peer_id@) =~= old(self).subscriptions(
                        peer_id@,
                    ).remove(topic@));
                }
                false
            },
        }
    }

    pub fn get_user_info(&self, peer_id: &PeerId) -> (r: Option<UserInfo>)
        requires
            self.wf(),
        ensures
            match r {
                Some(v) => self.has_user_spec(peer_id@) && v == self.users_map()[peer_id@],
                None => !self.has_user_spec(peer_id@),
            },
    {
        match self.users.get(peer_id) {
            Some(v) => Some(v.clone()),
            None => None,
        }
    }

    /// Sets the peer's status, if a profile is held.
    pub fn change_user_status(&mut self, peer_id: &PeerId, status: UserState)
        requires
            old(self).wf(),
        ensures
            final(self).wf(),
            forall|p: Seq<char>| final(self).subscriptions(p) == old(self).subscriptions(p),
            old(self).has_user_spec(peer_id@) ==> {
                &&& final(self).users_map().dom() == old(self).users_map().dom()
                &&& final(self).users_map()[peer_id@]@ == (UserInfoV {
                    status,
                    ..old(self).users_map()[peer_id@]@
                })
                &&& forall|p2: Seq<char>|
                    p2 != peer_id@ && old(self).users_map().dom().contains(p2)
                        ==> final(self).users_map()[p2] == old(self).users_map()[p2]
            },
            !old(self).has_user_spec(peer_id@)
                ==> final(self).users_map() == old(self).users_map(),
    {
        let taken = self.users.remove(peer_id);
        match taken {
            Some(mut u) => {
                u.status = status;
                self.users.insert(peer_id.dup(), u);
                proof {
                    assert(self.users_map().dom() =~= old(self).users_map().dom());
                }
            },
            None => {
                proof {
                    assert(self.users_map() =~= old(self).users_map());
                }
            },
        }
    }

    /// The topics the peer is known to subscribe to, if any record is held.
    pub fn get_user_subscribe(&self, peer_id: &PeerId) -> (r: Option<Vec<TopicHash>>)
        requires
            self.wf(),
        ensures
            match r {
                Some(v) => v@.map_values(|t: TopicHash| t@).to_set() == self.subscriptions(
                    peer_id@,
                ),
                None => self.subscriptions(peer_id@) == Set::<Seq<char>>::empty(),
            },
    {
        match self.user_subscribe.get(peer_id) {
            Some(set) => {
                set.observe();
                let keys = set.keys();
                proof {
                    let ks = set.key_seq();
                    let rv = keys@.map_values(|t: TopicHash| t@);
                    assert(rv == ks);
                    assert(rv.to_set() =~= self.subscriptions(peer_id@)) by {
                        assert forall|k: Seq<char>| rv.to_set().contains(k) implies self
                            .subscriptions(peer_id@).contains(k) by {
                            let i = choose|i: int| 0 <= i < rv.len() && rv[i] == k;
                            assert(ks[i] == k);
                        }
                        assert forall|k: Seq<char>| self.subscriptions(peer_id@).contains(
                            k,
                        ) implies rv.to_set().contains(k) by {
                            let i = choose|i: int| 0 <= i < ks.len() && ks[i] == k;
                            assert(rv[i] == k);
                        }
                    }
                }
                Some(keys)
            },
            None => None,
        }
    }

    pub fn has_user(&self, peer_id: &PeerId) -> (r: bool)
        requires
            self.wf(),
        ensures
            r == self.has_user_spec(peer_id@),
    {
        self.users.contains_key(peer_id)
    }

    /// All held profiles.
    pub fn get_users(&self) -> (r: Vec<(PeerId, UserInfo)>)
        requires
            self.wf(),
        ensures
            forall|i: int|
                0 <= i < r@.len() ==> #[trigger] self.has_user_spec(r@[i].0@) && r@[i].1
                    == self.users_map()[r@[i].0@],
            forall|i: int, j: int| 0 <= i < j < r@.len() ==> r@[i].0@ != r@[j].0@,
            forall|p: Seq<char>|
                #[trigger] self.has_user_spec(p) ==> exists|i: int| 0 <= i < r@.len() && r@[i].0@
                    == p,
    {
        self.users.observe();
        let n = self.users.count();
        let mut r: Vec<(PeerId, UserInfo)> = Vec::new();
        let mut i: usize = 0;
        while i < n
            invariant
                i <= n,
                self.wf(),
                n == self.users.key_seq().len(),
                r@.len() == i,
                forall|j: int| 0 <= j < i ==> r@[j].0@ == self.users.key_seq()[j],
                forall|j: int| 0 <= j < i ==> r@[j].1 == self.users_map()[self.users.key_seq()[j]],
            decreases n - i,
        {
            let (k, v) = self.users.entry_at(i);
            r.push((k.dup(), v.clone()));
            i += 1;
        }
        proof {
            assert forall|p: Seq<char>|
                #[trigger] self.has_user_spec(p) implies exists|i: int|
                0 <= i < r@.len() && r@[i].0@ == p by {
                let i = choose|i: int|
                    0 <= i < self.users.key_seq().len() && self.users.key_seq()[i] == p;
                assert(r@[i].0@ == p);
            }
            assert forall|i: int, j: int| 0 <= i < j < r@.len() implies r@[i].0@ != r@[j].0@ by {
                assert(self.users.key_seq()[i] != self.users.key_seq()[j]);
            }
        }
        r
    }

    /// Whether handling this event will need the peer's profile pulled from
    /// the peer itself: a discovery of, or a subscription by, a peer with no
    /// held profile — except the local peer, whose profile is synthesized.
    pub fn fetch_need(&self, event: &InboundEvent, local_peer: &PeerId) -> (r: Option<Request>)
        requires
            self.wf(),
        ensures
            match r {
                Some(req) => match event {
                    InboundEvent::PeerDiscovered { peer_id } => req@ == RequestV::User(peer_id@)
                        && !self.has_user_spec(peer_id@),
                    InboundEvent::Subscribed { peer_id, topic } => req@ == RequestV::User(peer_id@)
                        && !self.has_user_spec(peer_id@) && peer_id@ != local_peer@,
                    _ => false,
                },
                None => match event {
                    InboundEvent::PeerDiscovered { peer_id } => self.has_user_spec(peer_id@),
                    InboundEvent::Subscribed { peer_id, topic } => self.has_user_spec(peer_id@)
                        || peer_id@ == local_peer@,
                    _ => true,
                },
            },
    {
        match event {
            InboundEvent::PeerDiscovered { peer_id } => {
                if self.has_user(peer_id) {
                    None
                } else {
                    Some(Request::User(peer_id.clone()))
                }
            },
            InboundEvent::Subscribed { peer_id, topic } => {
                if self.has_user(peer_id) || peer_id.key_eq(local_peer) {
                    None
                } else {
                    Some(Request::User(peer_id.clone()))
                }
            },
            _ => None,
        }
    }

    /// Reacts to one inbound event.
    ///
    /// `fetched` is the outcome of the profile pull that [`Self::fetch_need`]
    /// asked for: the pulled profile, the request's failure, or `None` where
    /// the peer answered with something that is not a profile.
    pub fn handle_event(
        &mut self,
        event: &InboundEvent,
        local_peer: &PeerId,
        local_user: &LocalUserInfo,
        fetched: Option<Result<UserInfo, NetworkError>>,
    ) -> (r: HandlerOutcome)
        requires
            old(self).wf(),
        ensures
            final(self).wf(),
            match event {
                InboundEvent::InboundRequest { request, channel } => {
                    &&& *final(self) == *old(self)
                    &&& r.events@ == Seq::<FrontendEvent>::empty()
                    &&& r.result is Ok
                    &&& match request {
                        Request::User(p) => match r.response {
                            Some(resp) => resp@ matches ResponseV::User(u) && (if old(
                                self,
                            ).has_user_spec(p@) {
                                u == old(self).users_map()[p@]@
                            } else {
                                p@ == local_peer@ && u == local_profile(*local_user)
                            }),
                            None => !old(self).has_user_spec(p@) && p@ != local_peer@,
                        },
                        _ => r.response is None,
                    }
                },
                InboundEvent::PeerDiscovered { peer_id } => {
                    &&& r.response is None
                    &&& r.events@.len() <= 1
                    &&& if old(self).has_user_spec(peer_id@) {
                        &&& *final(self) == *old(self)
                        &&& r.events@ == Seq::<FrontendEvent>::empty()
                        &&& r.result is Ok
                    } else {
                        match fetched {
                            Some(Ok(u)) => {
                                &&& final(self).users_map() == old(self).users_map().insert(
                                    peer_id@,
                                    u,
                                )
                                &&& forall|p2: Seq<char>|
                                    final(self).subscriptions(p2) == old(self).subscriptions(p2)
                                &&& events_view(r.events@) == seq![
                                    FrontendEventV::UserUpdate { peer_id: peer_id@, user_info: u@ },
                                ]
                                &&& r.result is Ok
                            },
                            Some(Err(e)) => {
                                &&& *final(self) == *old(self)
                                &&& r.events@ == Seq::<FrontendEvent>::empty()
                                &&& (r.result matches Err(e2) && e2 == e)
                            },
                            None => {
                                &&& *final(self) == *old(self)
                                &&& r.events@ == Seq::<FrontendEvent>::empty()
                                &&& r.result is Ok
                            },
                        }
                    }
                },
                InboundEvent::PeerExpired { peer_id } => {
                    &&& r.response is None
                    &&& r.result is Ok
                    &&& forall|p2: Seq<char>|
                        final(self).subscriptions(p2) == old(self).subscriptions(p2)
                    &&& if old(self).has_user_spec(peer_id@) {
                        &&& final(self).users_map().dom() == old(self).users_map().dom()
                        &&& final(self).users_map()[peer_id@]@ == (UserInfoV {
                            status: UserState::Offline,
                            ..old(self).users_map()[peer_id@]@
                        })
                        &&& forall|p2: Seq<char>|
                            p2 != peer_id@ && old(self).users_map().dom().contains(p2)
                                ==> final(self).users_map()[p2] == old(self).users_map()[p2]
                        &&& events_view(r.events@) == seq![
                            FrontendEventV::UserUpdate {
                                peer_id: peer_id@,
                                user_info: final(self).users_map()[peer_id@]@,
                            },
                        ]
                    } else {
                        &&& final(self).users_map() == old(self).users_map()
                        &&& r.events@ == Seq::<FrontendEvent>::empty()
                    }
                },
                InboundEvent::Subscribed { peer_id, topic } => {
                    &&& r.response is None
                    &&& if old(self).has_user_spec(peer_id@) {
                        &&& final(self).users_map() == old(self).users_map()
                        &&& final(self).subscriptions(peer_id@) == old(self).subscriptions(
                            peer_id@,
                        ).insert(topic@)
                        &&& same_subs_except(*old(self), *final(self), peer_id@)
                        &&& r.events@ == Seq::<FrontendEvent>::empty()
                        &&& r.result is Ok
                    } else if peer_id@ == local_peer@ {
                        &&& final(self).users_map().dom() == old(self).users_map().dom().insert(
                            peer_id@,
                        )
                        &&& final(self).users_map()[peer_id@]@ == local_profile(*local_user)
                        &&& forall|p2: Seq<char>|
                            p2 != peer_id@ && old(self).users_map().dom().contains(p2)
                                ==> final(self).users_map()[p2] == old(self).users_map()[p2]
                        &&& final(self).subscriptions(peer_id@) == old(self).subscriptions(
                            peer_id@,
                        ).insert(topic@)
                        &&& same_subs_except(*old(self), *final(self), peer_id@)
                        &&& events_view(r.events@) == seq![
                            FrontendEventV::UserUpdate {
                                peer_id: peer_id@,
                                user_info: local_profile(*local_user),
                            },
                        ]
                        &&& r.result is Ok
                    } else {
                        match fetched {
                            Some(Ok(u)) => {
                                &&& final(self).users_map() == old(self).users_map().insert(
                                    peer_id@,
                                    u,
                                )
                                &&& final(self).subscriptions(peer_id@) == old(self).subscriptions(
                                    peer_id@,
                                ).insert(topic@)
                                &&& same_subs_except(*old(self), *final(self), peer_id@)
                                &&& events_view(r.events@) == seq![
                                    FrontendEventV::UserUpdate { peer_id: peer_id@, user_info: u@ },
                                ]
                                &&& r.result is Ok
                            },
                            _ => {
                                &&& *final(self) == *old(self)
                                &&& r.events@ == Seq::<FrontendEvent>::empty()
                                &&& (r.result matches Err(NetworkError::Other(m)) && m@
                                    == "user not found"@)
                            },
                        }
                    }
                },
                InboundEvent::Unsubscribed { peer_id, topic } => {
                    &&& r.response is None
                    &&& r.result is Ok
                    &&& r.events@ == Seq::<FrontendEvent>::empty()
                    &&& final(self).users_map() == old(self).users_map()
                    &&& final(self).subscriptions(peer_id@) == old(self).subscriptions(
                        peer_id@,
                    ).remove(topic@)
                    &&& same_subs_except(*old(self), *final(self), peer_id@)
                },
                _ => {
                    &&& *final(self) == *old(self)
                    &&& r.events@ == Seq::<FrontendEvent>::empty()
                    &&& r.response is None
                    &&& r.result is Ok
                },
            },
    {
        match event {
            InboundEvent::InboundRequest { request, channel } => {
                let response = match request {
                    Request::User(p) => match self.get_user_info(p) {
                        Some(u) => Some(Response::User(u)),
                        None => {
                            if p.key_eq(local_peer) {
                                Some(Response::User(local_user.to_user_info()))
                            } else {
                                None
                            }
                        },
                    },
                    _ => None,
                };
                HandlerOutcome { events: Vec::new(), response, result: Ok(()) }
            },
            InboundEvent::PeerDiscovered { peer_id } => {
                let mut events: Vec<FrontendEvent> = Vec::new();
                if self.has_user(peer_id) {
                    HandlerOutcome { events, response: None, result: Ok(()) }
                } else {
                    match fetched {
                        Some(Ok(u)) => {
                            events.push(
                                FrontendEvent::UserUpdate {
                                    peer_id: peer_id.clone(),
                                    user_info: u.clone(),
                                },
                            );
                            self.add_user(peer_id.clone(), u);
                            proof {
                                assert(events_view(events@) =~= seq![events@[0]@]);
                            }
                            HandlerOutcome { events, response: None, result: Ok(()) }
                        },
                        Some(Err(e)) => HandlerOutcome { events, response: None, result: Err(e) },
                        None => HandlerOutcome { events, response: None, result: Ok(()) },
                    }
                }
            },
            InboundEvent::PeerExpired { peer_id } => {
                let mut events: Vec<FrontendEvent> = Vec::new();
                if self.has_user(peer_id) {
                    self.change_user_status(peer_id, UserState::Offline);
                    let updated = match self.get_user_info(peer_id) {
                        Some(u) => u,
                        None => {
                            // unreachable: the profile was just updated in place
                            proof {
                                assert(false);
                            }
                            UserInfo::new(String::new(), None)
                        },
                    };
                    events.push(
                        FrontendEvent::UserUpdate { peer_id: peer_id.clone(), user_info: updated },
                    );
                    proof {
                        assert(events_view(events@) =~= seq![events@[0]@]);
                    }
                }
                HandlerOutcome { events, response: None, result: Ok(()) }
            },
            InboundEvent::Subscribed { peer_id, topic } => {
                let mut events: Vec<FrontendEvent> = Vec::new();
                if !self.has_user(peer_id) {
                    let profile = if peer_id.key_eq(local_peer) {
                        Some(local_user.to_user_info())
                    } else {
                        match fetched {
                            Some(Ok(u)) => Some(u),
                            _ => None,
                        }
                    };
                    match profile {
                        Some(u) => {
                            events.push(
                                FrontendEvent::UserUpdate {
                                    peer_id: peer_id.clone(),
                                    user_info: u.clone(),
                                },
                            );
                            self.add_user(peer_id.clone(), u);
                            proof {
                                assert(events_view(events@) =~= seq![events@[0]@]);
                            }
                        },
                        None => {
                            return HandlerOutcome {
                                events,
                                response: None,
                                result: Err(
                                    NetworkError::Other(String::from_str("user not found")),
                                ),
                            };
                        },
                    }
                }
                match self.add_subscribe(peer_id.clone(), topic.clone()) {
                    Ok(()) => HandlerOutcome { events, response: None, result: Ok(()) },
                    Err(e) => {
                        // unreachable: the profile is present by now
                        proof {
                            assert(false);
                        }
                        HandlerOutcome {
                            events,
                            response: None,
                            result: Err(NetworkError::ManagerError(e)),
                        }
                    },
                }
            },
            InboundEvent::Unsubscribed { peer_id, topic } => {
                self.remove_subscribe(peer_id, topic);
                HandlerOutcome { events: Vec::new(), response: None, result: Ok(()) }
            },
            _ => HandlerOutcome { events: Vec::new(), response: None, result: Ok(()) },
        }
    }
}

} // verus!

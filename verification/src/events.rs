//! The two event streams: inbound events, raised by the network engine for
//! the dispatcher, and frontend events, raised by the managers for the
//! presentation layer.

use vstd::prelude::*;

use crate::codec::Request;
use crate::ids::GroupId;
use crate::ids::PeerId;
use crate::ids::TopicHash;
use crate::models::GroupInfo;
use crate::models::GroupMessage;
use crate::models::GroupMessageV;
use crate::models::GroupState;
use crate::models::GroupStateV;
use crate::models::UserInfo;
use crate::models::UserInfoV;

verus! {

/// Capacity of every queue between the long-lived tasks; a full queue blocks
/// the sender rather than dropping events.
pub const QUEUE_CAPACITY: usize = 100;

pub fn clone_string_vec(v: &Vec<String>) -> (r: Vec<String>)
    ensures
        r@ == v@,
{
    let mut r: Vec<String> = Vec::new();
    let n = v.len();
    let mut i: usize = 0;
    while i < n
        invariant
            i <= n,
            n == v@.len(),
            r@ == v@.take(i as int),
        decreases n - i,
    {
        r.push(v[i].clone());
        proof {
            assert(r@ =~= v@.take(i + 1));
        }
        i += 1;
    }
    proof {
        assert(r@ =~= v@);
    }
    r
}

/// One classified event out of the network engine. An inbound request's
/// response channel is owned by the surrounding runtime and named here by a
/// token; the runtime hands the channel out at most once per token.
#[derive(Debug)]
pub enum InboundEvent {
    InboundRequest { request: Request, channel: u64 },
    Message { topic: TopicHash, message: GroupMessage },
    Subscribed { peer_id: PeerId, topic: TopicHash },
    Unsubscribed { peer_id: PeerId, topic: TopicHash },
    PeerDiscovered { peer_id: PeerId },
    PeerExpired { peer_id: PeerId },
    NewListenAddr { listener_id: u64, address: String },
    ListenerClosed { listener_id: u64, addresses: Vec<String> },
}

impl Clone for InboundEvent {
    fn clone(&self) -> (r: Self)
        ensures
            match self {
                InboundEvent::ListenerClosed { listener_id, addresses } => (r
                    matches InboundEvent::ListenerClosed { listener_id: l2, addresses: a2 } && l2
                    == *listener_id && a2@ == addresses@),
                _ => r == *self,
            },
    {
        match self {
            InboundEvent::InboundRequest { request, channel } => InboundEvent::InboundRequest {
                request: clone_request(request),
                channel: *channel,
            },
            InboundEvent::Message { topic, message } => InboundEvent::Message {
                topic: topic.clone(),
                message: message.clone(),
            },
            InboundEvent::Subscribed { peer_id, topic } => InboundEvent::Subscribed {
                peer_id: peer_id.clone(),
                topic: topic.clone(),
            },
            InboundEvent::Unsubscribed { peer_id, topic } => InboundEvent::Unsubscribed {
                peer_id: peer_id.clone(),
                topic: topic.clone(),
            },
            InboundEvent::PeerDiscovered { peer_id } => InboundEvent::PeerDiscovered {
                peer_id: peer_id.clone(),
            },
            InboundEvent::PeerExpired { peer_id } => InboundEvent::PeerExpired {
                peer_id: peer_id.clone(),
            },
            InboundEvent::NewListenAddr { listener_id, address } => InboundEvent::NewListenAddr {
                listener_id: *listener_id,
                address: address.clone(),
            },
            InboundEvent::ListenerClosed { listener_id, addresses } => InboundEvent::ListenerClosed {
                listener_id: *listener_id,
                addresses: clone_string_vec(addresses),
            },
        }
    }
}

fn clone_request(r: &Request) -> (res: Request)
    ensures
        res == *r,
{
    match r {
        Request::File(f) => Request::File(f.clone()),
        Request::Group(t) => Request::Group(t.clone()),
        Request::User(p) => Request::User(p.clone()),
    }
}

/// What one event handler did: presentation events to emit, a response to
/// send on the event's channel, and the handler's own outcome.
pub struct HandlerOutcome {
    pub events: Vec<FrontendEvent>,
    pub response: Option<crate::codec::Response>,
    pub result: Result<(), crate::errors::NetworkError>,
}

/// One structured event for the presentation layer.
#[derive(Debug)]
pub enum FrontendEvent {
    Listen { listener_id: u64, addresses: Vec<String> },
    Message { group_id: GroupId, message: GroupMessage },
    Subscribed { group_id: GroupId, peer_id: PeerId },
    Unsubscribed { group_id: GroupId, peer_id: PeerId },
    GroupUpdate { group_id: GroupId, group_info: GroupInfo },
    GroupStateUpdate { group_id: GroupId, group_state: GroupState },
    UserUpdate { peer_id: PeerId, user_info: UserInfo },
    BackendError(String),
}

pub enum FrontendEventV {
    Listen { listener_id: u64, addresses: Seq<Seq<char>> },
    Message { group_id: Seq<char>, message: GroupMessageV },
    Subscribed { group_id: Seq<char>, peer_id: Seq<char> },
    Unsubscribed { group_id: Seq<char>, peer_id: Seq<char> },
    GroupUpdate { group_id: Seq<char>, group_info: crate::models::GroupInfoV },
    GroupStateUpdate { group_id: Seq<char>, group_state: GroupStateV },
    UserUpdate { peer_id: Seq<char>, user_info: UserInfoV },
    BackendError(Seq<char>),
}

impl View for FrontendEvent {
    type V = FrontendEventV;

    open spec fn view(&self) -> FrontendEventV {
        match self {
            FrontendEvent::Listen { listener_id, addresses } => FrontendEventV::Listen {
                listener_id: *listener_id,
                addresses: addresses@.map_values(|s: String| s@),
            },
            FrontendEvent::Message { group_id, message } => FrontendEventV::Message {
                group_id: group_id@,
                message: message@,
            },
            FrontendEvent::Subscribed { group_id, peer_id } => FrontendEventV::Subscribed {
                group_id: group_id@,
                peer_id: peer_id@,
            },
            FrontendEvent::Unsubscribed { group_id, peer_id } => FrontendEventV::Unsubscribed {
                group_id: group_id@,
                peer_id: peer_id@,
            },
            FrontendEvent::GroupUpdate { group_id, group_info } => FrontendEventV::GroupUpdate {
                group_id: group_id@,
                group_info: group_info@,
            },
            FrontendEvent::GroupStateUpdate { group_id, group_state } => {
                FrontendEventV::GroupStateUpdate {
                    group_id: group_id@,
                    group_state: group_state@,
                }
            },
            FrontendEvent::UserUpdate { peer_id, user_info } => FrontendEventV::UserUpdate {
                peer_id: peer_id@,
                user_info: user_info@,
            },
            FrontendEvent::BackendError(s) => FrontendEventV::BackendError(s@),
        }
    }
}

/// The views of a batch of frontend events, in order.
pub open spec fn events_view(v: Seq<FrontendEvent>) -> Seq<FrontendEventV> {
    v.map_values(|e: FrontendEvent| e@)
}

/// The event name under which each frontend event reaches the external sink.
pub open spec fn spec_event_name(e: FrontendEventV) -> Seq<char> {
    match e {
        FrontendEventV::Listen { .. } => "listen"@,
        FrontendEventV::Message { .. } => "message"@,
        FrontendEventV::Subscribed { .. } => "subscribed"@,
        FrontendEventV::Unsubscribed { .. } => "unsubscribed"@,
        FrontendEventV::GroupUpdate { .. } => "group-update"@,
        FrontendEventV::GroupStateUpdate { .. } => "group-state-update"@,
        FrontendEventV::UserUpdate { .. } => "user-update"@,
        FrontendEventV::BackendError(..) => "error"@,
    }
}

impl FrontendEvent {
    /// The fixed event-name convention of the presentation loop.
    pub fn event_name(&self) -> (r: &'static str)
        ensures
            r@ == spec_event_name(self@),
    {
        match self {
            FrontendEvent::Listen { .. } => "listen",
            FrontendEvent::Message { .. } => "message",
            FrontendEvent::Subscribed { .. } => "subscribed",
            FrontendEvent::Unsubscribed { .. } => "unsubscribed",
            FrontendEvent::GroupUpdate { .. } => "group-update",
            FrontendEvent::GroupStateUpdate { .. } => "group-state-update",
            FrontendEvent::UserUpdate { .. } => "user-update",
            FrontendEvent::BackendError(..) => "error",
        }
    }
}

} // verus!

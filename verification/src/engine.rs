//! The network engine's own bookkeeping: the pending-dial and
//! pending-request maps, and the stamping of outgoing publishes.
//!
//! The engine is the sole owner of the transport state machine; the
//! surrounding runtime drives that machine and keeps the reply channels,
//! naming each by a token. What is decided here — which dial and which
//! request a completion belongs to, and what a publish injects back into the
//! inbound stream — is verified.

use vstd::prelude::*;

use crate::codec::encode_group_message;
use crate::codec::spec_message_payload;
use crate::events::InboundEvent;
use crate::ids::PeerId;
use crate::ids::TopicHash;
use crate::kmap::KMap;
use crate::models::GroupMessage;
use crate::models::Message;

verus! {

/// Relies on chrono's wall clock: seconds since the epoch, right now.
/// Nothing is promised of the value.
#[verifier::external_body]
fn now_seconds() -> (r: i64) {
    chrono::Utc::now().timestamp()
}

/// The engine's pending maps: who is being dialed, and which requests await
/// a response. Values are the runtime's reply-channel tokens.
#[derive(Debug)]
pub struct EnginePending {
    pending_dial: KMap<PeerId, u64>,
    pending_request: KMap<u64, u64>,
}

impl EnginePending {
    pub closed spec fn dials(&self) -> Map<Seq<char>, u64> {
        self.pending_dial@
    }

    pub closed spec fn requests(&self) -> Map<u64, u64> {
        self.pending_request@
    }

    pub closed spec fn wf(&self) -> bool {
        self.pending_dial.wf() && self.pending_request.wf()
    }

    pub fn new() -> (r: EnginePending)
        ensures
            r.wf(),
            r.dials() == Map::<Seq<char>, u64>::empty(),
            r.requests() == Map::<u64, u64>::empty(),
    {
        EnginePending { pending_dial: KMap::new(), pending_request: KMap::new() }
    }

    /// Whether no dial of this peer is in flight; a second dial of the same
    /// peer is dropped with a warning, never recorded.
    pub fn dial_vacant(&self, peer_id: &PeerId) -> (r: bool)
        requires
            self.wf(),
        ensures
            r == !self.dials().dom().contains(peer_id@),
    {
        !self.pending_dial.contains_key(peer_id)
    }

    pub fn record_dial(&mut self, peer_id: PeerId, token: u64)
        requires
            old(self).wf(),
        ensures
            final(self).wf(),
            final(self).dials() == old(self).dials().insert(peer_id@, token),
            final(self).requests() == old(self).requests(),
    {
        self.pending_dial.insert(peer_id, token);
    }

    /// Takes the reply token of a completed dial, if one was pending; after
    /// the call no reply for this peer remains.
    pub fn complete_dial(&mut self, peer_id: &PeerId) -> (r: Option<u64>)
        requires
            old(self).wf(),
        ensures
            final(self).wf(),
            final(self).dials() == old(self).dials().remove(peer_id@),
            final(self).requests() == old(self).requests(),
            match r {
                Some(token) => old(self).dials().dom().contains(peer_id@) && old(self).dials()[
                    peer_id@] == token,
                None => !old(self).dials().dom().contains(peer_id@),
            },
    {
        self.pending_dial.remove(peer_id)
    }

    pub fn record_request(&mut self, request_id: u64, token: u64)
        requires
            old(self).wf(),
        ensures
            final(self).wf(),
            final(self).requests() == old(self).requests().insert(request_id, token),
            final(self).dials() == old(self).dials(),
    {
        self.pending_request.insert(request_id, token);
    }

    /// Takes the reply token of a completed request; after the call no reply
    /// for this request identifier remains, and a dangling identifier yields
    /// nothing.
    pub fn complete_request(&mut self, request_id: u64) -> (r: Option<u64>)
        requires
            old(self).wf(),
        ensures
            final(self).wf(),
            final(self).requests() == old(self).requests().remove(request_id),
            final(self).dials() == old(self).dials(),
            match r {
                Some(token) => old(self).requests().dom().contains(request_id) && old(
                    self,
                ).requests()[request_id] == token,
                None => !old(self).requests().dom().contains(request_id),
            },
    {
        self.pending_request.remove(&request_id)
    }
}

/// Stamps an outgoing publish with the local peer and the wall clock, and
/// frames its pub/sub payload. The caller publishes the payload bytes and
/// re-injects the stamped message as an inbound event, so the local node
/// sees its own send.
pub fn publish_prepare(message: Message, local_peer: &PeerId) -> (r: (GroupMessage, Vec<u8>))
    ensures
        r.0.message == message,
        r.0.source@ == local_peer@,
        r.1@ == spec_message_payload(r.0@),
{
    let stamped = GroupMessage {
        source: local_peer.clone(),
        timestamp: now_seconds(),
        message,
    };
    let payload = encode_group_message(&stamped);
    (stamped, payload)
}

/// The inbound event the engine re-injects when the local node publishes on
/// a topic, so local managers observe the send.
pub fn self_message_event(topic: &TopicHash, stamped: &GroupMessage) -> (r: InboundEvent)
    ensures
        r matches InboundEvent::Message { topic: t, message: m } && t@ == topic@ && m == *stamped,
{
    InboundEvent::Message { topic: topic.clone(), message: stamped.clone() }
}

/// The synthetic event the engine re-injects after the local node subscribes
/// to a topic, so self-joins take the same path as remote ones.
pub fn self_subscribed_event(topic: &TopicHash, local_peer: &PeerId) -> (r: InboundEvent)
    ensures
        r matches InboundEvent::Subscribed { peer_id: p, topic: t } && p@ == local_peer@ && t@
            == topic@,
{
    InboundEvent::Subscribed { peer_id: local_peer.clone(), topic: topic.clone() }
}

/// The synthetic event the engine re-injects after the local node
/// unsubscribes from a topic.
pub fn self_unsubscribed_event(topic: &TopicHash, local_peer: &PeerId) -> (r: InboundEvent)
    ensures
        r matches InboundEvent::Unsubscribed { peer_id: p, topic: t } && p@ == local_peer@ && t@
            == topic@,
{
    InboundEvent::Unsubscribed { peer_id: local_peer.clone(), topic: topic.clone() }
}

/// The 32-byte secret-key material derived from a deterministic seed: the
/// first byte is the seed, the rest are zero.
pub fn seed_key_bytes(seed: u8) -> (r: Vec<u8>)
    ensures
        r@.len() == 32,
        r@[0] == seed,
        forall|i: int| 1 <= i < 32 ==> r@[i] == 0u8,
{
    let mut r: Vec<u8> = Vec::new();
    r.push(seed);
    let mut i: usize = 1;
    while i < 32
        invariant
            1 <= i <= 32,
            r@.len() == i,
            r@[0] == seed,
            forall|j: int| 1 <= j < i ==> r@[j] == 0u8,
        decreases 32 - i,
    {
        r.push(0u8);
        i += 1;
    }
    r
}

} // verus!

//! Identifier types: peers, groups and pub/sub topics.
//!
//! A peer is named by the base58 form of its cryptographic identity, a group
//! by the string form of its freshly minted 128-bit identifier, and a topic
//! by the hash string the pub/sub layer derives from the group identifier.
//! All three are carried as strings and compared by value.

use vstd::prelude::*;

use crate::kmap::MapKey;

verus! {

/// Cryptographic identity of a node, in its base58 string form.
#[derive(Debug, Eq, Hash)]
pub struct PeerId {
    pub id: String,
}

impl Clone for PeerId {
    fn clone(&self) -> (r: Self)
        ensures
            r == *self,
    {
        PeerId { id: self.id.clone() }
    }
}

impl MapKey for PeerId {
    fn key_eq(&self, other: &Self) -> (r: bool)
        ensures
            r == (self@ == other@),
    {
        self.id == other.id
    }

    fn dup(&self) -> (r: Self)
        ensures
            r@ == self@,
    {
        self.clone()
    }
}

impl View for PeerId {
    type V = Seq<char>;

    open spec fn view(&self) -> Seq<char> {
        self.id@
    }
}

impl PartialEq for PeerId {
    fn eq(&self, other: &Self) -> (r: bool) {
        self.id == other.id
    }
}

impl vstd::std_specs::cmp::PartialEqSpecImpl for PeerId {
    open spec fn obeys_eq_spec() -> bool {
        true
    }

    open spec fn eq_spec(&self, other: &Self) -> bool {
        self.id@ == other.id@
    }
}

impl PeerId {
    pub fn new(id: String) -> (r: PeerId)
        ensures
            r@ == id@,
    {
        PeerId { id }
    }
}

/// Identifier of a chat group, minted by the creating peer; its string form
/// deterministically yields the group's topic hash.
#[derive(Debug, Eq, Hash)]
pub struct GroupId {
    pub id: String,
}

impl Clone for GroupId {
    fn clone(&self) -> (r: Self)
        ensures
            r == *self,
    {
        GroupId { id: self.id.clone() }
    }
}

impl MapKey for GroupId {
    fn key_eq(&self, other: &Self) -> (r: bool)
        ensures
            r == (self@ == other@),
    {
        self.id == other.id
    }

    fn dup(&self) -> (r: Self)
        ensures
            r@ == self@,
    {
        self.clone()
    }
}

impl View for GroupId {
    type V = Seq<char>;

    open spec fn view(&self) -> Seq<char> {
        self.id@
    }
}

impl PartialEq for GroupId {
    fn eq(&self, other: &Self) -> (r: bool) {
        self.id == other.id
    }
}

impl vstd::std_specs::cmp::PartialEqSpecImpl for GroupId {
    open spec fn obeys_eq_spec() -> bool {
        true
    }

    open spec fn eq_spec(&self, other: &Self) -> bool {
        self.id@ == other.id@
    }
}

/// The topic-hash string that the pub/sub layer derives from a group
/// identifier's string form. The derivation itself is the pub/sub layer's;
/// this crate names it `topic_of`.
pub uninterp spec fn topic_of(group: Seq<char>) -> Seq<char>;

/// Routing key on the pub/sub layer, as its string form.
#[derive(Debug, Eq, Hash)]
pub struct TopicHash {
    pub hash: String,
}

impl Clone for TopicHash {
    fn clone(&self) -> (r: Self)
        ensures
            r == *self,
    {
        TopicHash { hash: self.hash.clone() }
    }
}

impl MapKey for TopicHash {
    fn key_eq(&self, other: &Self) -> (r: bool)
        ensures
            r == (self@ == other@),
    {
        self.hash == other.hash
    }

    fn dup(&self) -> (r: Self)
        ensures
            r@ == self@,
    {
        self.clone()
    }
}

impl View for TopicHash {
    type V = Seq<char>;

    open spec fn view(&self) -> Seq<char> {
        self.hash@
    }
}

impl PartialEq for TopicHash {
    fn eq(&self, other: &Self) -> (r: bool) {
        self.hash == other.hash
    }
}

impl vstd::std_specs::cmp::PartialEqSpecImpl for TopicHash {
    open spec fn obeys_eq_spec() -> bool {
        true
    }

    open spec fn eq_spec(&self, other: &Self) -> bool {
        self.hash@ == other.hash@
    }
}

impl GroupId {
    /// Mints a fresh group identifier.
    ///
    /// Relies on uuid's version-4 generation; the value is random and nothing
    /// is promised of it.
    #[verifier::external_body]
    pub fn new() -> (r: GroupId) {
        GroupId { id: uuid::Uuid::new_v4().to_string() }
    }

    /// The topic hash that the pub/sub layer uses as the routing key for this
    /// group.
    ///
    /// Relies on libp2p's `Sha256Topic`: the hash is a function of the topic
    /// string alone.
    #[verifier::external_body]
    pub fn topic(&self) -> (r: TopicHash)
        ensures
            r@ == topic_of(self@),
    {
        TopicHash { hash: libp2p::gossipsub::Sha256Topic::new(self.id.as_str()).hash().into_string() }
    }
}

} // verus!

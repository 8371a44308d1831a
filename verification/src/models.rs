//! Shared model types: descriptors, messages, profiles, settings.

use vstd::prelude::*;
use vstd::string::StringExecFns;

use crate::ids::PeerId;
use crate::kmap::KMap;
use crate::kmap::MapKey;

verus! {

/// The view of an optional string.
pub open spec fn opt_view(o: Option<String>) -> Option<Seq<char>> {
    match o {
        Some(s) => Some(s@),
        None => None,
    }
}

pub fn clone_opt_string(o: &Option<String>) -> (r: Option<String>)
    ensures
        r == *o,
{
    match o {
        Some(s) => Some(s.clone()),
        None => None,
    }
}

/// Description of a shared file. Two descriptions are the same file whenever
/// their names agree; the other fields are advisory.
#[derive(Debug)]
pub struct FileInfo {
    pub name: String,
    pub size: u64,
    /// Media type, as its string form.
    pub file_type: Option<String>,
    pub hash: Option<String>,
}

pub struct FileInfoV {
    pub name: Seq<char>,
    pub size: u64,
    pub file_type: Option<Seq<char>>,
    pub hash: Option<Seq<char>>,
}

impl View for FileInfo {
    type V = FileInfoV;

    open spec fn view(&self) -> FileInfoV {
        FileInfoV {
            name: self.name@,
            size: self.size,
            file_type: opt_view(self.file_type),
            hash: opt_view(self.hash),
        }
    }
}

impl Clone for FileInfo {
    fn clone(&self) -> (r: Self)
        ensures
            r == *self,
    {
        FileInfo {
            name: self.name.clone(),
            size: self.size,
            file_type: clone_opt_string(&self.file_type),
            hash: clone_opt_string(&self.hash),
        }
    }
}

impl PartialEq for FileInfo {
    /// Files are compared by name alone.
    fn eq(&self, other: &Self) -> (r: bool) {
        self.name == other.name
    }
}

impl Eq for FileInfo {

}

impl vstd::std_specs::cmp::PartialEqSpecImpl for FileInfo {
    open spec fn obeys_eq_spec() -> bool {
        true
    }

    open spec fn eq_spec(&self, other: &Self) -> bool {
        self.name@ == other.name@
    }
}

/// Payload of a chat message.
#[derive(Debug)]
pub enum Message {
    Text(String),
    File(FileInfo),
}

pub enum MessageV {
    Text(Seq<char>),
    File(FileInfoV),
}

impl View for Message {
    type V = MessageV;

    open spec fn view(&self) -> MessageV {
        match self {
            Message::Text(s) => MessageV::Text(s@),
            Message::File(f) => MessageV::File(f@),
        }
    }
}

impl Clone for Message {
    fn clone(&self) -> (r: Self)
        ensures
            r == *self,
    {
        match self {
            Message::Text(s) => Message::Text(s.clone()),
            Message::File(f) => Message::File(f.clone()),
        }
    }
}

/// A chat message as it travels on a topic: the payload stamped with its
/// source peer and the sender's wall-clock seconds.
#[derive(Debug)]
pub struct GroupMessage {
    pub source: PeerId,
    pub timestamp: i64,
    pub message: Message,
}

pub struct GroupMessageV {
    pub source: Seq<char>,
    pub timestamp: i64,
    pub message: MessageV,
}

impl View for GroupMessage {
    type V = GroupMessageV;

    open spec fn view(&self) -> GroupMessageV {
        GroupMessageV { source: self.source@, timestamp: self.timestamp, message: self.message@ }
    }
}

impl Clone for GroupMessage {
    fn clone(&self) -> (r: Self)
        ensures
            r == *self,
    {
        GroupMessage {
            source: self.source.clone(),
            timestamp: self.timestamp,
            message: self.message.clone(),
        }
    }
}

/// Descriptor of a group, immutable once observed.
#[derive(Debug)]
pub struct GroupInfo {
    pub name: String,
    pub description: Option<String>,
}

pub struct GroupInfoV {
    pub name: Seq<char>,
    pub description: Option<Seq<char>>,
}

impl View for GroupInfo {
    type V = GroupInfoV;

    open spec fn view(&self) -> GroupInfoV {
        GroupInfoV { name: self.name@, description: opt_view(self.description) }
    }
}

impl Clone for GroupInfo {
    fn clone(&self) -> (r: Self)
        ensures
            r == *self,
    {
        GroupInfo { name: self.name.clone(), description: clone_opt_string(&self.description) }
    }
}

/// Whether a peer is currently reachable.
#[derive(Debug, Clone, Copy, PartialEq, Eq, Structural)]
pub enum UserState {
    Online,
    Offline,
}

impl Default for UserState {
    fn default() -> (r: Self)
        ensures
            r == UserState::Online,
    {
        UserState::Online
    }
}

/// Profile of a peer as observed on the network.
#[derive(Debug)]
pub struct UserInfo {
    pub name: String,
    /// Avatar location, as its URL string.
    pub avatar: Option<String>,
    pub status: UserState,
}

pub struct UserInfoV {
    pub name: Seq<char>,
    pub avatar: Option<Seq<char>>,
    pub status: UserState,
}

impl View for UserInfo {
    type V = UserInfoV;

    open spec fn view(&self) -> UserInfoV {
        UserInfoV { name: self.name@, avatar: opt_view(self.avatar), status: self.status }
    }
}

impl Clone for UserInfo {
    fn clone(&self) -> (r: Self)
        ensures
            r == *self,
    {
        UserInfo {
            name: self.name.clone(),
            avatar: clone_opt_string(&self.avatar),
            status: self.status,
        }
    }
}

impl UserInfo {
    pub fn new(name: String, avatar: Option<String>) -> (r: UserInfo)
        ensures
            r.name == name,
            r.avatar == avatar,
            r.status == UserState::Online,
    {
        UserInfo { name, avatar, status: UserState::Online }
    }
}

impl Default for UserInfo {
    fn default() -> (r: Self)
        ensures
            r.name@ == "Anonymous"@,
            r.avatar is None,
            r.status == UserState::Online,
    {
        UserInfo { name: anonymous_name(), avatar: None, status: UserState::Online }
    }
}

fn anonymous_name() -> (r: String)
    ensures
        r@ == "Anonymous"@,
{
    String::from_str("Anonymous")
}

/// The local identity, projected to a [`UserInfo`] on request.
#[derive(Debug)]
pub struct LocalUserInfo {
    pub peer_id: Option<PeerId>,
    pub name: String,
    pub avatar: Option<String>,
}

impl LocalUserInfo {
    /// The profile this node answers with when asked about itself; the local
    /// peer always reports itself online.
    pub fn to_user_info(&self) -> (r: UserInfo)
        ensures
            r.name@ == self.name@,
            opt_view(r.avatar) == opt_view(self.avatar),
            r.status == UserState::Online,
    {
        UserInfo {
            name: self.name.clone(),
            avatar: clone_opt_string(&self.avatar),
            status: UserState::Online,
        }
    }
}

impl Clone for LocalUserInfo {
    fn clone(&self) -> (r: Self)
        ensures
            r.peer_id == self.peer_id,
            r.name == self.name,
            r.avatar == self.avatar,
    {
        LocalUserInfo {
            peer_id: match &self.peer_id {
                Some(p) => Some(p.clone()),
                None => None,
            },
            name: self.name.clone(),
            avatar: clone_opt_string(&self.avatar),
        }
    }
}

impl Default for LocalUserInfo {
    fn default() -> (r: Self)
        ensures
            r.peer_id is None,
            r.name@ == "Anonymous"@,
            r.avatar is None,
    {
        LocalUserInfo { peer_id: None, name: anonymous_name(), avatar: None }
    }
}

/// Node settings: where received files go, and who the local user is.
#[derive(Debug)]
pub struct Setting {
    /// Receive directory, as its path string.
    pub recv_path: String,
    pub user_info: UserInfo,
}

impl Clone for Setting {
    fn clone(&self) -> (r: Self)
        ensures
            r == *self,
    {
        Setting { recv_path: self.recv_path.clone(), user_info: self.user_info.clone() }
    }
}

/// Where the bytes of a shared file can be found.
#[derive(Debug)]
pub enum FileSource {
    /// A path on the local disk, as its string form.
    Local(String),
    Remote(PeerId),
}

impl FileSource {
    pub fn is_local(&self) -> (r: bool)
        ensures
            r == (self is Local),
    {
        match self {
            FileSource::Local(_) => true,
            FileSource::Remote(_) => false,
        }
    }

    pub fn is_remote(&self) -> (r: bool)
        ensures
            r == (self is Remote),
    {
        match self {
            FileSource::Local(_) => false,
            FileSource::Remote(_) => true,
        }
    }
}

/// Local mirror of one group: its message history, append-only, and the set
/// of peers currently subscribed to its topic.
#[derive(Debug)]
pub struct GroupState {
    pub history: Vec<GroupMessage>,
    subs: KMap<PeerId, ()>,
}

#[verifier::ext_equal]
pub struct GroupStateV {
    pub history: Seq<GroupMessage>,
    pub subscribers: Set<Seq<char>>,
}

impl View for GroupState {
    type V = GroupStateV;

    closed spec fn view(&self) -> GroupStateV {
        GroupStateV { history: self.history@, subscribers: self.subs@.dom() }
    }
}

impl GroupState {
    pub closed spec fn wf(&self) -> bool {
        self.subs.wf()
    }

    pub fn new() -> (r: GroupState)
        ensures
            r.wf(),
            r@.history == Seq::<GroupMessage>::empty(),
            r@.subscribers == Set::<Seq<char>>::empty(),
    {
        let r = GroupState { history: Vec::new(), subs: KMap::new() };
        proof {
            assert(r@.subscribers =~= Set::<Seq<char>>::empty());
        }
        r
    }

    pub fn history(&self) -> (r: &Vec<GroupMessage>)
        ensures
            r@ == self@.history,
    {
        &self.history
    }

    pub fn push_message(&mut self, m: GroupMessage)
        requires
            old(self).wf(),
        ensures
            final(self).wf(),
            final(self)@.history == old(self)@.history.push(m),
            final(self)@.subscribers == old(self)@.subscribers,
    {
        self.history.push(m);
    }

    pub fn has_subscriber(&self, p: &PeerId) -> (r: bool)
        requires
            self.wf(),
        ensures
            r == self@.subscribers.contains(p@),
    {
        self.subs.contains_key(p)
    }

    pub fn add_subscriber(&mut self, p: PeerId)
        requires
            old(self).wf(),
        ensures
            final(self).wf(),
            final(self)@.history == old(self)@.history,
            final(self)@.subscribers == old(self)@.subscribers.insert(p@),
    {
        self.subs.insert(p, ());
        proof {
            assert(self.subs@.dom() =~= old(self).subs@.dom().insert(p@));
        }
    }

    /// Removes the peer; reports whether the set actually changed.
    pub fn remove_subscriber(&mut self, p: &PeerId) -> (r: bool)
        requires
            old(self).wf(),
        ensures
            final(self).wf(),
            final(self)@.history == old(self)@.history,
            final(self)@.subscribers == old(self)@.subscribers.remove(p@),
            r == old(self)@.subscribers.contains(p@),
    {
        let r = self.subs.remove(p);
        proof {
            assert(self.subs@.dom() =~= old(self).subs@.dom().remove(p@));
        }
        match r {
            Some(_) => true,
            None => false,
        }
    }

    pub fn no_subscribers(&self) -> (r: bool)
        requires
            self.wf(),
        ensures
            r == (self@.subscribers == Set::<Seq<char>>::empty()),
    {
        self.subs.observe();
        if self.subs.count() == 0 {
            proof {
                assert(self@.subscribers =~= Set::<Seq<char>>::empty());
            }
            true
        } else {
            proof {
                let k = self.subs.key_seq()[0];
                assert(self@.subscribers.contains(k));
                assert(self@.subscribers != Set::<Seq<char>>::empty());
            }
            false
        }
    }

    /// Duplicates of all subscribers.
    pub fn subscribers(&self) -> (r: Vec<PeerId>)
        requires
            self.wf(),
        ensures
            r@.map_values(|p: PeerId| p@).to_set() == self@.subscribers,
            forall|i: int, j: int| 0 <= i < j < r@.len() ==> r@[i]@ != r@[j]@,
    {
        self.subs.observe();
        let r = self.subs.keys();
        proof {
            let ks = self.subs.key_seq();
            let rv = r@.map_values(|p: PeerId| p@);
            assert(rv == ks);
            assert forall|i: int, j: int| 0 <= i < j < r@.len() implies r@[i]@ != r@[j]@ by {
                assert(rv[i] == r@[i]@ && rv[j] == r@[j]@);
                assert(ks[i] != ks[j]);
            }
            assert(rv.to_set() =~= self@.subscribers) by {
                assert forall|k: Seq<char>| rv.to_set().contains(k) implies self@
                    .subscribers.contains(k) by {
                    let i = choose|i: int| 0 <= i < rv.len() && rv[i] == k;
                    assert(ks[i] == k);
                }
                assert forall|k: Seq<char>| self@.subscribers.contains(k) implies rv
                    .to_set().contains(k) by {
                    let i = choose|i: int| 0 <= i < ks.len() && ks[i] == k;
                    assert(rv[i] == k);
                }
            }
        }
        r
    }

    pub fn clone_state(&self) -> (r: GroupState)
        requires
            self.wf(),
        ensures
            r.wf(),
            r@ == self@,
    {
        let mut history: Vec<GroupMessage> = Vec::new();
        let mut i: usize = 0;
        let n = self.history.len();
        while i < n
            invariant
                i <= n,
                n == self.history@.len(),
                history@ == self.history@.take(i as int),
            decreases n - i,
        {
            history.push(self.history[i].clone());
            proof {
                assert(history@ =~= self.history@.take(i + 1));
            }
            i += 1;
        }
        proof {
            assert(history@ =~= self.history@);
        }
        self.subs.observe();
        let old_keys = self.subs.keys();
        let mut subs: KMap<PeerId, ()> = KMap::new();
        let mut j: usize = 0;
        let m = old_keys.len();
        while j < m
            invariant
                j <= m,
                m == old_keys@.len(),
                old_keys@.map_values(|p: PeerId| p@) == self.subs.key_seq(),
                subs.wf(),
                subs@.dom() == self.subs.key_seq().take(j as int).to_set(),
            decreases m - j,
        {
            let ghost pre = subs@.dom();
            subs.insert(old_keys[j].dup(), ());
            proof {
                let ks = self.subs.key_seq();
                let k = ks[j as int];
                assert(old_keys@.map_values(|p: PeerId| p@)[j as int] == old_keys@[j as int]@);
                assert(old_keys@[j as int]@ == k);
                assert(subs@.dom() =~= pre.insert(k));
                assert(subs@.dom() =~= ks.take(j + 1).to_set()) by {
                    assert forall|y: Seq<char>| ks.take(j + 1).to_set().contains(y) implies subs@
                        .dom().contains(y) by {
                        let i = choose|i: int| 0 <= i < j + 1 && #[trigger] ks.take(j + 1)[i] == y;
                        if i < j {
                            assert(ks.take(j as int)[i] == y);
                            assert(ks.take(j as int).to_set().contains(y));
                        }
                    }
                    assert forall|y: Seq<char>| subs@.dom().contains(y) implies ks.take(
                        j + 1,
                    ).to_set().contains(y) by {
                        if y == k {
                            assert(ks.take(j + 1)[j as int] == y);
                        } else {
                            assert(ks.take(j as int).to_set().contains(y));
                            let i = choose|i: int| 0 <= i < j && #[trigger] ks.take(j as int)[i] == y;
                            assert(ks.take(j + 1)[i] == y);
                        }
                    }
                }
            }
            j += 1;
        }
        proof {
            assert(self.subs.key_seq().take(m as int) =~= self.subs.key_seq());
            let ks = self.subs.key_seq();
            assert(ks.to_set() =~= self.subs@.dom()) by {
                assert forall|k: Seq<char>| ks.to_set().contains(k) implies self.subs@
                    .dom().contains(k) by {
                    let i = choose|i: int| 0 <= i < ks.len() && ks[i] == k;
                }
                assert forall|k: Seq<char>| self.subs@.dom().contains(k) implies ks
                    .to_set().contains(k) by {
                    let i = choose|i: int| 0 <= i < ks.len() && ks[i] == k;
                }
            }
            assert(subs@.dom() =~= self.subs@.dom());
        }
        let r = GroupState { history, subs };
        proof {
            assert(r@ =~= self@);
        }
        r
    }
}

} // verus!

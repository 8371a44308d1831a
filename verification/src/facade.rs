//! The command surface: per-manager action invocation by name, and the small
//! decisions behind the externally exposed commands — dialling, listener
//! selection, group creation.
//!
//! Parameters and results of the action surface travel as JSON documents in
//! strings; the byte forms are the same `json_of_*` names the codec uses,
//! read through the UTF-8 encoding of the returned text.

use vstd::prelude::*;
use vstd::string::StrSliceExecFns;
use vstd::string::StringExecFns;
use vstd::utf8::encode_utf8;

use crate::client::ClientState;
use crate::codec::json_of_user;
use crate::codec::string_from_json;
use crate::errors::ManagerError;
use crate::errors::NetworkError;
use crate::group::GroupManager;
use crate::ids::GroupId;
use crate::ids::PeerId;
use crate::ids::TopicHash;
use crate::ids::topic_of;
use crate::kmap::MapKey;
use crate::models::FileInfo;
use crate::models::FileInfoV;
use crate::models::GroupInfo;
use crate::models::GroupInfoV;
use crate::models::GroupMessage;
use crate::models::Message;
use crate::models::Setting;
use crate::models::UserInfo;
use crate::models::UserInfoV;
use crate::models::UserState;
use crate::user::UserManager;

verus! {

/// Whether `a` and `b` are the same characters.
pub fn str_is(a: &str, b: &str) -> (r: bool)
    ensures
        r == (a@ == b@),
{
    a.to_owned() == b.to_owned()
}

/// A manager: a named reaction to inbound events plus an action surface.
pub trait AppManager {
    spec fn name_spec(&self) -> Seq<char>;

    fn name(&self) -> (r: &'static str)
        ensures
            r@ == self.name_spec(),
    ;
}

impl AppManager for GroupManager {
    open spec fn name_spec(&self) -> Seq<char> {
        "group"@
    }

    fn name(&self) -> (r: &'static str)
        ensures
            r@ == self.name_spec(),
    {
        "group"
    }
}

impl AppManager for UserManager {
    open spec fn name_spec(&self) -> Seq<char> {
        "user"@
    }

    fn name(&self) -> (r: &'static str)
        ensures
            r@ == self.name_spec(),
    {
        "user"
    }
}

/// The trailing peer-id component of a multiaddr, base58-encoded, where the
/// address parses and ends in one.
pub uninterp spec fn addr_peer(addr: Seq<char>) -> Option<Seq<char>>;

/// Relies on Multiaddr parsing and its `P2p` protocol component: the result
/// is a function of the address string alone.
#[verifier::external_body]
fn peer_component(addr: &String) -> (r: Option<PeerId>)
    ensures
        match r {
            Some(p) => addr_peer(addr@) == Some(p@),
            None => addr_peer(addr@) is None,
        },
{
    let parsed: libp2p::Multiaddr = addr.parse().ok()?;
    match parsed.iter().last() {
        Some(libp2p::multiaddr::Protocol::P2p(p)) => Some(PeerId { id: p.to_base58() }),
        _ => None,
    }
}

/// The peer a dial command must address: the address's trailing peer-id
/// component, or the invalid-address error when it has none.
pub fn dial_target(addr: &String) -> (r: Result<PeerId, NetworkError>)
    ensures
        match r {
            Ok(p) => addr_peer(addr@) == Some(p@),
            Err(e) => addr_peer(addr@) is None && (e matches NetworkError::InvalidAddress(m) && m@
                == "Expect peer multiaddr to contain peer ID."@),
        },
{
    match peer_component(addr) {
        Some(p) => Ok(p),
        None => Err(
            NetworkError::InvalidAddress(
                String::from_str("Expect peer multiaddr to contain peer ID."),
            ),
        ),
    }
}

/// The default address a listen command falls back to.
pub fn default_listen_addr() -> (r: String)
    ensures
        r@ == "/ip4/0.0.0.0/tcp/0"@,
{
    String::from_str("/ip4/0.0.0.0/tcp/0")
}

/// The listeners a stop command removes: the named one, or every recorded
/// one when none is named.
pub fn stop_listen_targets(client: &ClientState, listener_id: Option<u64>) -> (r: Vec<u64>)
    requires
        client.wf(),
    ensures
        match listener_id {
            Some(l) => r@ == seq![l],
            None => {
                &&& forall|i: int|
                    0 <= i < r@.len() ==> client.listeners_map().dom().contains(#[trigger] r@[i])
                &&& forall|l: u64|
                    #[trigger] client.listeners_map().dom().contains(l) ==> r@.contains(l)
            },
        },
{
    match listener_id {
        Some(l) => {
            let mut r: Vec<u64> = Vec::new();
            r.push(l);
            proof {
                assert(r@ =~= seq![l]);
            }
            r
        },
        None => client.listener_ids(),
    }
}

/// Mints a group, stashes its descriptor in the pending slot, and returns
/// the identifier with the topic the caller must now subscribe to. The
/// engine's self-injected subscription event is what makes the group
/// manager adopt the descriptor.
pub fn new_group(client: &mut ClientState, group_info: GroupInfo) -> (r: (GroupId, TopicHash))
    requires
        old(client).wf(),
    ensures
        final(client).wf(),
        final(client).pending() matches Some((g, i)) && g@ == r.0@ && i == group_info,
        r.1@ == topic_of(r.0@),
        final(client).listeners_map() == old(client).listeners_map(),
{
    let group_id = GroupId::new();
    let topic = group_id.topic();
    client.set_pending_new_group(group_id.dup(), group_info);
    (group_id, topic)
}

/// The names under which the managers are registered.
pub fn get_managers() -> (r: Vec<String>)
    ensures
        r@.len() == 2,
        r@[0]@ == "group"@,
        r@[1]@ == "user"@,
{
    let mut r: Vec<String> = Vec::new();
    r.push(String::from_str("group"));
    r.push(String::from_str("user"));
    r
}

/// The JSON bytes serde produces for a list of group entries.
pub uninterp spec fn json_of_groups(pairs: Seq<(Seq<char>, GroupInfoV)>) -> Seq<u8>;

/// The JSON bytes serde produces for a group's state: its message rows and
/// its subscribers.
pub uninterp spec fn json_of_group_state(
    rows: Seq<(Seq<char>, i64, Option<Seq<char>>, Option<FileInfoV>)>,
    subscribers: Seq<Seq<char>>,
) -> Seq<u8>;

/// The JSON bytes serde produces for a list of user entries.
pub uninterp spec fn json_of_users(pairs: Seq<(Seq<char>, UserInfoV)>) -> Seq<u8>;

pub open spec fn group_pairs_view(v: Seq<(GroupId, GroupInfo)>) -> Seq<(Seq<char>, GroupInfoV)> {
    v.map_values(|p: (GroupId, GroupInfo)| (p.0@, p.1@))
}

pub open spec fn user_pairs_view(v: Seq<(PeerId, UserInfo)>) -> Seq<(Seq<char>, UserInfoV)> {
    v.map_values(|p: (PeerId, UserInfo)| (p.0@, p.1@))
}

/// One history entry flattened for serialization: source, timestamp, and the
/// text or file payload.
pub open spec fn row_of(m: GroupMessage) -> (Seq<char>, i64, Option<Seq<char>>, Option<
    FileInfoV,
>) {
    (
        m.source@,
        m.timestamp,
        match m.message {
            Message::Text(s) => Some(s@),
            Message::File(_) => None,
        },
        match m.message {
            Message::File(f) => Some(f@),
            Message::Text(_) => None,
        },
    )
}

pub open spec fn rows_of(history: Seq<GroupMessage>) -> Seq<
    (Seq<char>, i64, Option<Seq<char>>, Option<FileInfoV>),
> {
    history.map_values(|m: GroupMessage| row_of(m))
}

/// The view of one flattened history row as built for serialization.
pub open spec fn exec_row_view(t: (String, i64, Option<String>, Option<FileInfo>)) -> (
    Seq<char>,
    i64,
    Option<Seq<char>>,
    Option<FileInfoV>,
) {
    (
        t.0@,
        t.1,
        crate::models::opt_view(t.2),
        match t.3 {
            Some(f) => Some(f@),
            None => None,
        },
    )
}

/// Relies on serde_json::to_string over the tuples of each entry's fields.
#[verifier::external_body]
fn groups_json_text(pairs: &Vec<(GroupId, GroupInfo)>) -> (r: String)
    ensures
        encode_utf8(r@) == json_of_groups(group_pairs_view(pairs@)),
{
    let rows: Vec<_> = pairs.iter().map(|(g, i)| (&g.id, &i.name, &i.description)).collect();
    serde_json::to_string(&rows).unwrap()
}

/// Relies on serde_json::to_string over the tuples of each row's fields.
#[verifier::external_body]
fn group_state_json_text(
    rows: &Vec<(String, i64, Option<String>, Option<FileInfo>)>,
    subscribers: &Vec<PeerId>,
) -> (r: String)
    ensures
        encode_utf8(r@) == json_of_group_state(
            rows@.map_values(
                |t: (String, i64, Option<String>, Option<FileInfo>)| exec_row_view(t),
            ),
            subscribers@.map_values(|p: PeerId| p@),
        ),
{
    let rows2: Vec<_> = rows
        .iter()
        .map(
            |(s, t, x, f)|
                (s, t, x, f.as_ref().map(|f| (&f.name, f.size, &f.file_type, &f.hash))),
        )
        .collect();
    let subs2: Vec<&String> = subscribers.iter().map(|p| &p.id).collect();
    serde_json::to_string(&(rows2, subs2)).unwrap()
}

/// The view of one flattened profile row.
pub open spec fn user_row_view(t: (String, String, Option<String>, bool)) -> (
    Seq<char>,
    UserInfoV,
) {
    (
        t.0@,
        UserInfoV {
            name: t.1@,
            avatar: crate::models::opt_view(t.2),
            status: if t.3 {
                UserState::Online
            } else {
                UserState::Offline
            },
        },
    )
}

/// Relies on serde_json::to_string over the tuples of each entry's fields.
#[verifier::external_body]
fn users_json_text(rows: &Vec<(String, String, Option<String>, bool)>) -> (r: String)
    ensures
        encode_utf8(r@) == json_of_users(
            rows@.map_values(|t: (String, String, Option<String>, bool)| user_row_view(t)),
        ),
{
    let rows2: Vec<_> = rows.iter().map(|(p, n, a, o)| (p, n, a, o)).collect();
    serde_json::to_string(&rows2).unwrap()
}

/// Relies on serde_json::to_string over the tuple of the profile's fields;
/// the byte form is the same as the codec's user body.
#[verifier::external_body]
fn user_json_text(name: &String, avatar: &Option<String>, online: bool) -> (r: String)
    ensures
        encode_utf8(r@) == json_of_user(name@, crate::models::opt_view(*avatar), online),
{
    serde_json::to_string(&(name, avatar, online)).unwrap()
}

/// Parses a JSON string parameter. Inputs that are not JSON strings yield
/// nothing; what a parse failure looked like is not modelled here.
fn parse_string_param(params: &String) -> (r: Option<String>)
{
    let bytes = params.as_str().as_bytes_vec();
    string_from_json(&bytes)
}

/// What the group manager's action surface may answer.
pub open spec fn group_invoke_post(
    gm: GroupManager,
    action: Seq<char>,
    params_given: bool,
    r: Result<String, ManagerError>,
) -> bool {
    if action == "get_groups"@ {
        r matches Ok(s) && exists|pairs: Seq<(GroupId, GroupInfo)>|
            enumerates_groups(gm, #[trigger] group_pairs_view(pairs)) && encode_utf8(s@)
                == json_of_groups(group_pairs_view(pairs))
    } else if action == "get_group_state"@ && params_given {
        match r {
            Ok(s) => exists|g: Seq<char>, subs: Seq<Seq<char>>|
                {
                    &&& gm.has_group_spec(g)
                    &&& subs.to_set() == gm.group_subs(g)
                    &&& (forall|i: int, j: int| 0 <= i < j < subs.len() ==> subs[i] != subs[j])
                    &&& encode_utf8(s@) == #[trigger] json_of_group_state(
                        rows_of(gm.group_history(g)),
                        subs,
                    )
                },
            Err(e) => match e {
                ManagerError::GroupNotExist(g) => !gm.has_group_spec(g@),
                ManagerError::InvalidParams(_) => true,
                _ => false,
            },
        }
    } else {
        r matches Err(ManagerError::InvalidAction(a)) && a@ == action
    }
}

/// `pairs` lists exactly the descriptor map's entries, without repetition.
pub open spec fn enumerates_groups(gm: GroupManager, pv: Seq<(Seq<char>, GroupInfoV)>) -> bool {
    &&& forall|i: int|
        0 <= i < pv.len() ==> #[trigger] gm.has_group_spec(pv[i].0) && gm.groups_map()[pv[i].0]@
            == pv[i].1
    &&& forall|i: int, j: int| 0 <= i < j < pv.len() ==> pv[i].0 != pv[j].0
    &&& forall|g: Seq<char>|
        #[trigger] gm.has_group_spec(g) ==> exists|i: int| 0 <= i < pv.len() && pv[i].0 == g
}

/// `pairs` lists exactly the profile map's entries, without repetition.
pub open spec fn enumerates_users(um: UserManager, pv: Seq<(Seq<char>, UserInfoV)>) -> bool {
    &&& forall|i: int|
        0 <= i < pv.len() ==> #[trigger] um.has_user_spec(pv[i].0) && um.users_map()[pv[i].0]@
            == pv[i].1
    &&& forall|i: int, j: int| 0 <= i < j < pv.len() ==> pv[i].0 != pv[j].0
    &&& forall|p: Seq<char>|
        #[trigger] um.has_user_spec(p) ==> exists|i: int| 0 <= i < pv.len() && pv[i].0 == p
}

/// What the user manager's action surface may answer.
pub open spec fn user_invoke_post(
    um: UserManager,
    action: Seq<char>,
    params_given: bool,
    r: Result<String, ManagerError>,
) -> bool {
    if action == "get_users"@ {
        r matches Ok(s) && exists|pairs: Seq<(PeerId, UserInfo)>|
            enumerates_users(um, #[trigger] user_pairs_view(pairs)) && encode_utf8(s@)
                == json_of_users(user_pairs_view(pairs))
    } else if action == "get_user_info"@ && params_given {
        match r {
            Ok(s) => exists|p: Seq<char>|
                #[trigger] um.has_user_spec(p) && encode_utf8(s@) == json_of_user(
                    um.users_map()[p]@.name,
                    um.users_map()[p]@.avatar,
                    um.users_map()[p]@.status is Online,
                ),
            Err(e) => match e {
                ManagerError::PeerNotExist(p) => !um.has_user_spec(p@),
                ManagerError::InvalidParams(_) => true,
                _ => false,
            },
        }
    } else {
        r matches Err(ManagerError::InvalidAction(a)) && a@ == action
    }
}

impl GroupManager {
    /// The group manager's action surface: `get_groups` and
    /// `get_group_state`; every other action name is invalid.
    pub fn invoke(&self, action: &str, params: Option<&String>) -> (r: Result<
        String,
        ManagerError,
    >)
        requires
            self.wf(),
        ensures
            group_invoke_post(*self, action@, params is Some, r),
    {
        if str_is(action, "get_groups") {
            let pairs = self.get_groups();
            let text = groups_json_text(&pairs);
            proof {
                assert(enumerates_groups(*self, group_pairs_view(pairs@))) by {
                    assert forall|i: int| 0 <= i < pairs@.len() implies #[trigger] self
                        .has_group_spec(group_pairs_view(pairs@)[i].0) && self.groups_map()[
                        group_pairs_view(pairs@)[i].0]@ == group_pairs_view(pairs@)[i].1 by {
                        assert(group_pairs_view(pairs@)[i] == (pairs@[i].0@, pairs@[i].1@));
                    }
                    assert forall|i: int, j: int|
                        0 <= i < j < pairs@.len() implies group_pairs_view(pairs@)[i].0
                        != group_pairs_view(pairs@)[j].0 by {
                        assert(pairs@[i].0@ != pairs@[j].0@);
                    }
                    assert forall|g: Seq<char>| #[trigger] self.has_group_spec(g) implies exists|
                        i: int,
                    | 0 <= i < group_pairs_view(pairs@).len() && group_pairs_view(pairs@)[i].0
                        == g by {
                        let i = choose|i: int| 0 <= i < pairs@.len() && pairs@[i].0@ == g;
                        assert(group_pairs_view(pairs@)[i].0 == g);
                    }
                }
            }
            Ok(text)
        } else if str_is(action, "get_group_state") && params.is_some() {
            let params = match params {
                Some(p) => p,
                None => {
                    return Err(ManagerError::InvalidAction(action.to_owned()));
                },
            };
            let gid = match parse_string_param(params) {
                Some(s) => GroupId { id: s },
                None => {
                    return Err(
                        ManagerError::InvalidParams(String::from_str("expected a string")),
                    );
                },
            };
            let state = match self.get_group_state(&gid) {
                Some(st) => st,
                None => {
                    return Err(ManagerError::GroupNotExist(gid));
                },
            };
            let history = state.history();
            let mut rows: Vec<(String, i64, Option<String>, Option<FileInfo>)> = Vec::new();
            let n = history.len();
            let mut i: usize = 0;
            while i < n
                invariant
                    i <= n,
                    n == history@.len(),
                    rows@.len() == i,
                    forall|j: int|
                        0 <= j < i ==> #[trigger] exec_row_view(rows@[j]) == row_of(history@[j]),
                decreases n - i,
            {
                let m = &history[i];
                let row = match &m.message {
                    Message::Text(s) => (m.source.id.clone(), m.timestamp, Some(s.clone()), None),
                    Message::File(f) => (m.source.id.clone(), m.timestamp, None, Some(f.clone())),
                };
                proof {
                    assert(exec_row_view(row) == row_of(history@[i as int]));
                }
                rows.push(row);
                i += 1;
            }
            let subs = state.subscribers();
            let text = group_state_json_text(&rows, &subs);
            proof {
                let g = gid@;
                let subs_v = subs@.map_values(|p: PeerId| p@);
                assert(rows@.map_values(
                    |t: (String, i64, Option<String>, Option<FileInfo>)| exec_row_view(t),
                ) =~= rows_of(self.group_history(g)));
                assert(self.has_group_spec(g));
                assert(subs_v.to_set() == self.group_subs(g));
                assert(encode_utf8(text@) == json_of_group_state(
                    rows_of(self.group_history(g)),
                    subs_v,
                ));
            }
            Ok(text)
        } else {
            Err(ManagerError::InvalidAction(action.to_owned()))
        }
    }
}

impl UserManager {
    /// The user manager's action surface: `get_users` and `get_user_info`;
    /// every other action name is invalid.
    pub fn invoke(&self, action: &str, params: Option<&String>) -> (r: Result<
        String,
        ManagerError,
    >)
        requires
            self.wf(),
        ensures
            user_invoke_post(*self, action@, params is Some, r),
    {
        if str_is(action, "get_users") {
            let pairs = self.get_users();
            let mut rows: Vec<(String, String, Option<String>, bool)> = Vec::new();
            let n = pairs.len();
            let mut i: usize = 0;
            while i < n
                invariant
                    i <= n,
                    n == pairs@.len(),
                    rows@.len() == i,
                    forall|j: int|
                        0 <= j < i ==> #[trigger] user_row_view(rows@[j]) == (
                            pairs@[j].0@,
                            pairs@[j].1@,
                        ),
                decreases n - i,
            {
                let (p, u) = &pairs[i];
                let online = match u.status {
                    UserState::Online => true,
                    UserState::Offline => false,
                };
                rows.push(
                    (
                        p.id.clone(),
                        u.name.clone(),
                        crate::models::clone_opt_string(&u.avatar),
                        online,
                    ),
                );
                i += 1;
            }
            let text = users_json_text(&rows);
            proof {
                let pv = rows@.map_values(
                    |t: (String, String, Option<String>, bool)| user_row_view(t),
                );
                assert(pv =~= user_pairs_view(pairs@)) by {
                    assert forall|j: int| 0 <= j < pv.len() implies pv[j] == user_pairs_view(
                        pairs@,
                    )[j] by {
                        assert(user_row_view(rows@[j]) == (pairs@[j].0@, pairs@[j].1@));
                    }
                }
                assert(enumerates_users(*self, user_pairs_view(pairs@))) by {
                    assert forall|i2: int| 0 <= i2 < pairs@.len() implies #[trigger] self
                        .has_user_spec(user_pairs_view(pairs@)[i2].0) && self.users_map()[
                        user_pairs_view(pairs@)[i2].0]@ == user_pairs_view(pairs@)[i2].1 by {
                        assert(user_pairs_view(pairs@)[i2] == (pairs@[i2].0@, pairs@[i2].1@));
                    }
                    assert forall|i2: int, j2: int|
                        0 <= i2 < j2 < pairs@.len() implies user_pairs_view(pairs@)[i2].0
                        != user_pairs_view(pairs@)[j2].0 by {
                        assert(pairs@[i2].0@ != pairs@[j2].0@);
                    }
                    assert forall|p: Seq<char>| #[trigger] self.has_user_spec(p) implies exists|
                        i2: int,
                    | 0 <= i2 < user_pairs_view(pairs@).len() && user_pairs_view(pairs@)[i2].0
                        == p by {
                        let i2 = choose|i2: int| 0 <= i2 < pairs@.len() && pairs@[i2].0@ == p;
                        assert(user_pairs_view(pairs@)[i2].0 == p);
                    }
                }
            }
            Ok(text)
        } else if str_is(action, "get_user_info") && params.is_some() {
            let params = match params {
                Some(p) => p,
                None => {
                    return Err(ManagerError::InvalidAction(action.to_owned()));
                },
            };
            let peer = match parse_string_param(params) {
                Some(s) => PeerId { id: s },
                None => {
                    return Err(
                        ManagerError::InvalidParams(String::from_str("expected a string")),
                    );
                },
            };
            match self.get_user_info(&peer) {
                Some(u) => {
                    let online = match u.status {
                        UserState::Online => true,
                        UserState::Offline => false,
                    };
                    let text = user_json_text(&u.name, &u.avatar, online);
                    Ok(text)
                },
                None => Err(ManagerError::PeerNotExist(peer)),
            }
        } else {
            Err(ManagerError::InvalidAction(action.to_owned()))
        }
    }
}

/// Looks up the named manager and invokes the action on it; a name that is
/// not registered is a command-not-found error.
pub fn invoke_manager(
    group: &GroupManager,
    user: &UserManager,
    name: &str,
    action: &str,
    params: Option<&String>,
) -> (r: Result<String, NetworkError>)
    requires
        group.wf(),
        user.wf(),
    ensures
        match r {
            Ok(s) => (name@ == "group"@ && group_invoke_post(
                *group,
                action@,
                params is Some,
                Ok(s),
            )) || (name@ == "user"@ && user_invoke_post(*user, action@, params is Some, Ok(s))),
            Err(e) => match e {
                NetworkError::ManagerError(me) => (name@ == "group"@ && group_invoke_post(
                    *group,
                    action@,
                    params is Some,
                    Err(me),
                )) || (name@ == "user"@ && user_invoke_post(
                    *user,
                    action@,
                    params is Some,
                    Err(me),
                )),
                NetworkError::CommandNotFound(n) => n@ == name@ && name@ != "group"@ && name@
                    != "user"@,
                _ => false,
            },
        },
{
    if str_is(name, "group") {
        match group.invoke(action, params) {
            Ok(s) => Ok(s),
            Err(e) => Err(NetworkError::ManagerError(e)),
        }
    } else if str_is(name, "user") {
        match user.invoke(action, params) {
            Ok(s) => Ok(s),
            Err(e) => Err(NetworkError::ManagerError(e)),
        }
    } else {
        Err(NetworkError::CommandNotFound(name.to_owned()))
    }
}

impl Setting {
    /// Adopts the other setting's receive path when it differs and exists on
    /// disk; a missing path is collected as a validation failure. Whether the
    /// path exists is the caller's to establish.
    pub fn merge(&mut self, other: Setting, other_path_exists: bool) -> (r: Result<
        (),
        crate::errors::SettingError,
    >)
        ensures
            final(self).user_info == old(self).user_info,
            if old(self).recv_path@ == other.recv_path@ {
                final(self).recv_path == old(self).recv_path && r is Ok
            } else if other_path_exists {
                final(self).recv_path == other.recv_path && r is Ok
            } else {
                &&& final(self).recv_path == old(self).recv_path
                &&& r matches Err(e) && e.kinds_spec().len() == 1 && (e.kinds_spec()[0]
                    matches crate::errors::SettingErrorKind::InvalidPath(p) && p@
                    == other.recv_path@)
            },
    {
        let mut kinds: Vec<crate::errors::SettingErrorKind> = Vec::new();
        if !(self.recv_path == other.recv_path) {
            if !other_path_exists {
                kinds.push(crate::errors::SettingErrorKind::InvalidPath(other.recv_path));
            } else {
                self.recv_path = other.recv_path;
            }
        }
        if kinds.len() != 0 {
            Err(crate::errors::SettingError::new(kinds))
        } else {
            Ok(())
        }
    }
}

} // verus!

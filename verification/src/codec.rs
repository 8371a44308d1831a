//! Wire codec of the request/response protocol.
//!
//! A frame's payload is a short ASCII tag (`/file`, `/group`, `/user`,
//! `/error`), one space, and a type-dependent body. JSON bodies are carried
//! as JSON arrays of the record's fields; their exact byte forms are named by
//! the `json_of_*` spec functions and produced by serde. The length prefix
//! around each frame, and the substream it travels on, belong to the
//! transport and stay outside this crate; the size bounds the reader must
//! enforce are [`MAX_REQUEST_SIZE`] and [`MAX_RESPONSE_SIZE`].
//!
//! Decoding inverts encoding: see the round-trip clauses on
//! [`FileExchangeCodec::decode_request`] and
//! [`FileExchangeCodec::decode_response`].

use vstd::prelude::*;
use vstd::string::StrSliceExecFns;
use vstd::utf8::encode_utf8;
use vstd::utf8::encode_utf8_decode_utf8;
use vstd::utf8::encode_utf8_valid_utf8;
use vstd::utf8::valid_utf8;

use crate::ids::GroupId;
use crate::ids::PeerId;
use crate::ids::TopicHash;
use crate::models::FileInfo;
use crate::models::FileInfoV;
use crate::models::GroupInfo;
use crate::models::GroupInfoV;
use crate::models::GroupMessage;
use crate::models::GroupMessageV;
use crate::models::Message;
use crate::models::MessageV;
use crate::models::UserInfo;
use crate::models::UserInfoV;
use crate::models::UserState;
use crate::models::opt_view;

verus! {

/// Largest accepted request frame, in bytes.
pub const MAX_REQUEST_SIZE: usize = 1000000;

/// Largest accepted response frame, in bytes.
pub const MAX_RESPONSE_SIZE: usize = 500000000;

/// An addressed request for metadata or file bytes.
#[derive(Debug)]
pub enum Request {
    File(FileInfo),
    Group(TopicHash),
    User(PeerId),
}

pub enum RequestV {
    File(FileInfoV),
    Group(Seq<char>),
    User(Seq<char>),
}

impl View for Request {
    type V = RequestV;

    open spec fn view(&self) -> RequestV {
        match self {
            Request::File(f) => RequestV::File(f@),
            Request::Group(t) => RequestV::Group(t@),
            Request::User(p) => RequestV::User(p@),
        }
    }
}

impl Clone for Request {
    fn clone(&self) -> (r: Self)
        ensures
            r@ == self@,
    {
        match self {
            Request::File(f) => Request::File(f.clone()),
            Request::Group(t) => Request::Group(t.clone()),
            Request::User(p) => Request::User(p.clone()),
        }
    }
}

/// The answer to a [`Request`].
#[derive(Debug)]
pub enum Response {
    File(Vec<u8>),
    Group((GroupId, GroupInfo)),
    User(UserInfo),
}

pub enum ResponseV {
    File(Seq<u8>),
    Group((Seq<char>, GroupInfoV)),
    User(UserInfoV),
}

impl View for Response {
    type V = ResponseV;

    open spec fn view(&self) -> ResponseV {
        match self {
            Response::File(b) => ResponseV::File(b@),
            Response::Group((g, i)) => ResponseV::Group((g@, i@)),
            Response::User(u) => ResponseV::User(u@),
        }
    }
}

/// A request as it enters the request/response substream.
#[derive(Debug)]
pub struct FileRequest(pub Request);

/// A response as it leaves the request/response substream.
#[derive(Debug)]
pub struct FileResponse(pub Response);

/// Why a frame was rejected.
#[derive(Debug)]
pub enum CodecError {
    /// The frame was empty.
    UnexpectedEof,
    /// The frame had no tag, an unknown tag, or a body that did not parse.
    InvalidData,
    /// The frame was a well-formed `/error` response carrying this message.
    Remote(String),
}

/// Name under which the protocol is negotiated.
#[derive(Debug, Clone)]
pub struct FileExchangeProtocol();

impl FileExchangeProtocol {
    pub fn name(&self) -> (r: &'static str)
        ensures
            r@ == "file-exchange-protocol"@,
    {
        "file-exchange-protocol"
    }
}

/// The JSON bytes serde produces for a file record.
pub uninterp spec fn json_of_file(f: FileInfoV) -> Seq<u8>;

/// The JSON bytes serde produces for a lone string.
pub uninterp spec fn json_of_str(s: Seq<char>) -> Seq<u8>;

/// The JSON bytes serde produces for a group identifier and its descriptor.
pub uninterp spec fn json_of_group_entry(group: Seq<char>, info: GroupInfoV) -> Seq<u8>;

/// The JSON bytes serde produces for a user profile; `online` carries the
/// status.
pub uninterp spec fn json_of_user(name: Seq<char>, avatar: Option<Seq<char>>, online: bool) -> Seq<
    u8,
>;

/// The JSON bytes serde produces for a stamped chat message; exactly one of
/// `text` and `file` is present.
pub uninterp spec fn json_of_message(
    source: Seq<char>,
    timestamp: i64,
    text: Option<Seq<char>>,
    file: Option<FileInfoV>,
) -> Seq<u8>;

/// Relies on serde_json::to_vec over the tuple of the record's fields.
#[verifier::external_body]
fn file_to_json(f: &FileInfo) -> (r: Vec<u8>)
    ensures
        r@ == json_of_file(f@),
{
    serde_json::to_vec(&(&f.name, f.size, &f.file_type, &f.hash)).unwrap()
}

/// Relies on serde_json::from_slice inverting serde_json::to_vec on the same
/// tuple shape.
#[verifier::external_body]
fn file_from_json(b: &Vec<u8>) -> (r: Option<FileInfo>)
    ensures
        match r {
            Some(x) => forall|f: FileInfoV| b@ == json_of_file(f) ==> x@ == f,
            None => forall|f: FileInfoV| b@ != json_of_file(f),
        },
{
    let (name, size, file_type, hash): (String, u64, Option<String>, Option<String>) =
        serde_json::from_slice(b).ok()?;
    Some(FileInfo { name, size, file_type, hash })
}

/// Relies on serde_json::to_vec over a lone string.
#[verifier::external_body]
fn string_to_json(s: &String) -> (r: Vec<u8>)
    ensures
        r@ == json_of_str(s@),
{
    serde_json::to_vec(s).unwrap()
}

/// Relies on serde_json::from_slice inverting serde_json::to_vec on a lone
/// string.
#[verifier::external_body]
pub(crate) fn string_from_json(b: &Vec<u8>) -> (r: Option<String>)
    ensures
        match r {
            Some(x) => forall|s: Seq<char>| b@ == json_of_str(s) ==> x@ == s,
            None => forall|s: Seq<char>| b@ != json_of_str(s),
        },
{
    serde_json::from_slice(b).ok()
}

/// Relies on serde_json::to_vec over the tuple of identifier, name and
/// description.
#[verifier::external_body]
fn group_entry_to_json(group: &GroupId, info: &GroupInfo) -> (r: Vec<u8>)
    ensures
        r@ == json_of_group_entry(group@, info@),
{
    serde_json::to_vec(&(&group.id, &info.name, &info.description)).unwrap()
}

/// Relies on serde_json::from_slice inverting serde_json::to_vec on the same
/// tuple shape.
#[verifier::external_body]
fn group_entry_from_json(b: &Vec<u8>) -> (r: Option<(GroupId, GroupInfo)>)
    ensures
        match r {
            Some(x) => forall|g: Seq<char>, i: GroupInfoV|
                b@ == json_of_group_entry(g, i) ==> x.0@ == g && x.1@ == i,
            None => forall|g: Seq<char>, i: GroupInfoV| b@ != json_of_group_entry(g, i),
        },
{
    let (id, name, description): (String, String, Option<String>) =
        serde_json::from_slice(b).ok()?;
    Some((GroupId { id }, GroupInfo { name, description }))
}

/// Relies on serde_json::to_vec over the tuple of name, avatar and status.
#[verifier::external_body]
fn user_to_json(name: &String, avatar: &Option<String>, online: bool) -> (r: Vec<u8>)
    ensures
        r@ == json_of_user(name@, opt_view(*avatar), online),
{
    serde_json::to_vec(&(name, avatar, online)).unwrap()
}

/// Relies on serde_json::from_slice inverting serde_json::to_vec on the same
/// tuple shape.
#[verifier::external_body]
fn user_from_json(b: &Vec<u8>) -> (r: Option<(String, Option<String>, bool)>)
    ensures
        match r {
            Some(x) => forall|n: Seq<char>, a: Option<Seq<char>>, online: bool|
                b@ == json_of_user(n, a, online) ==> x.0@ == n && opt_view(x.1) == a && x.2
                    == online,
            None => forall|n: Seq<char>, a: Option<Seq<char>>, online: bool|
                b@ != json_of_user(n, a, online),
        },
{
    serde_json::from_slice(b).ok()
}

/// Relies on serde_json::to_vec over the tuple of source, timestamp and the
/// two payload alternatives.
#[verifier::external_body]
fn message_to_json(
    source: &PeerId,
    timestamp: i64,
    text: Option<&String>,
    file: Option<&FileInfo>,
) -> (r: Vec<u8>)
    ensures
        r@ == json_of_message(
            source@,
            timestamp,
            match text {
                Some(s) => Some(s@),
                None => None,
            },
            match file {
                Some(f) => Some(f@),
                None => None,
            },
        ),
{
    let file_fields = file.map(|f| (&f.name, f.size, &f.file_type, &f.hash));
    serde_json::to_vec(&(&source.id, timestamp, text, file_fields)).unwrap()
}

/// Relies on serde_json::from_slice inverting serde_json::to_vec on the same
/// tuple shape.
#[verifier::external_body]
fn message_from_json(b: &Vec<u8>) -> (r: Option<(PeerId, i64, Option<String>, Option<FileInfo>)>)
    ensures
        match r {
            Some(x) => forall|s: Seq<char>, ts: i64, text: Option<Seq<char>>, file: Option<
                FileInfoV,
            >|
                b@ == json_of_message(s, ts, text, file) ==> x.0@ == s && x.1 == ts && opt_view(
                    x.2,
                ) == text && (match x.3 {
                    Some(f) => file matches Some(fv) && f@ == fv,
                    None => file is None,
                }),
            None => forall|s: Seq<char>, ts: i64, text: Option<Seq<char>>, file: Option<FileInfoV>|
                b@ != json_of_message(s, ts, text, file),
        },
{
    let (id, timestamp, text, file_fields): (
        String,
        i64,
        Option<String>,
        Option<(String, u64, Option<String>, Option<String>)>,
    ) = serde_json::from_slice(b).ok()?;
    let file = file_fields.map(
        |(name, size, file_type, hash)| FileInfo { name, size, file_type, hash },
    );
    Some((PeerId { id }, timestamp, text, file))
}

/// Relies on String::from_utf8: it accepts exactly the valid UTF-8 byte
/// strings and returns the characters they encode.
#[verifier::external_body]
fn bytes_to_string(b: &Vec<u8>) -> (r: Option<String>)
    ensures
        r is Some <==> valid_utf8(b@),
        r matches Some(s) ==> encode_utf8(s@) == b@,
{
    String::from_utf8(b.clone()).ok()
}

pub open spec fn tag_file() -> Seq<u8> {
    seq![47u8, 102u8, 105u8, 108u8, 101u8, 32u8]
}

pub open spec fn tag_group() -> Seq<u8> {
    seq![47u8, 103u8, 114u8, 111u8, 117u8, 112u8, 32u8]
}

pub open spec fn tag_user() -> Seq<u8> {
    seq![47u8, 117u8, 115u8, 101u8, 114u8, 32u8]
}

pub open spec fn tag_error() -> Seq<u8> {
    seq![47u8, 101u8, 114u8, 114u8, 111u8, 114u8, 32u8]
}

/// The bytes of a request frame.
pub open spec fn spec_encode_request(r: RequestV) -> Seq<u8> {
    match r {
        RequestV::File(f) => tag_file() + json_of_file(f),
        RequestV::Group(t) => tag_group() + encode_utf8(t),
        RequestV::User(p) => tag_user() + json_of_str(p),
    }
}

/// The bytes of a response frame.
pub open spec fn spec_encode_response(r: ResponseV) -> Seq<u8> {
    match r {
        ResponseV::File(b) => tag_file() + b,
        ResponseV::Group((g, i)) => tag_group() + json_of_group_entry(g, i),
        ResponseV::User(u) => tag_user() + json_of_user(u.name, u.avatar, u.status is Online),
    }
}

/// The bytes of a generic error response frame.
pub open spec fn spec_encode_error(msg: Seq<char>) -> Seq<u8> {
    tag_error() + encode_utf8(msg)
}

/// The canonical JSON payload of a stamped chat message on the pub/sub layer.
pub open spec fn spec_message_payload(m: GroupMessageV) -> Seq<u8> {
    match m.message {
        MessageV::Text(s) => json_of_message(m.source, m.timestamp, Some(s), None),
        MessageV::File(f) => json_of_message(m.source, m.timestamp, None, Some(f)),
    }
}

/// Appends `body` to `out`.
fn push_body(out: &mut Vec<u8>, body: &Vec<u8>)
    ensures
        final(out)@ == old(out)@ + body@,
{
    let mut i: usize = 0;
    let n = body.len();
    while i < n
        invariant
            i <= n,
            n == body@.len(),
            out@ == old(out)@ + body@.take(i as int),
        decreases n - i,
    {
        out.push(body[i]);
        proof {
            assert(out@ =~= old(out)@ + body@.take(i + 1));
        }
        i += 1;
    }
    proof {
        assert(out@ =~= old(out)@ + body@);
    }
}

/// Codec of the file-exchange protocol: the byte form of each frame.
#[derive(Clone)]
pub struct FileExchangeCodec();

impl FileExchangeCodec {
    /// Position of the first space in `data`, if any.
    fn find_space(data: &Vec<u8>) -> (r: Option<usize>)
        ensures
            match r {
                Some(i) => i < data@.len() && data@[i as int] == 32u8 && forall|j: int|
                    0 <= j < i ==> data@[j] != 32u8,
                None => forall|j: int| 0 <= j < data@.len() ==> data@[j] != 32u8,
            },
    {
        let n = data.len();
        let mut i: usize = 0;
        while i < n
            invariant
                i <= n,
                n == data@.len(),
                forall|j: int| 0 <= j < i ==> data@[j] != 32u8,
            decreases n - i,
        {
            if data[i] == 32u8 {
                return Some(i);
            }
            i += 1;
        }
        None
    }

    /// Copies `data[from..]` out.
    fn body_of(data: &Vec<u8>, from: usize) -> (r: Vec<u8>)
        requires
            from <= data@.len(),
        ensures
            r@ == data@.subrange(from as int, data@.len() as int),
    {
        let n = data.len();
        let mut r: Vec<u8> = Vec::new();
        let mut i: usize = from;
        while i < n
            invariant
                from <= i <= n,
                n == data@.len(),
                r@ == data@.subrange(from as int, i as int),
            decreases n - i,
        {
            r.push(data[i]);
            proof {
                assert(r@ =~= data@.subrange(from as int, i + 1));
            }
            i += 1;
        }
        r
    }

    /// Encodes a request frame.
    pub fn encode_request(&self, req: &Request) -> (r: Vec<u8>)
        ensures
            r@ == spec_encode_request(req@),
    {
        match req {
            Request::File(f) => {
                let mut out: Vec<u8> = vec![47u8, 102u8, 105u8, 108u8, 101u8, 32u8];
                proof {
                    assert(out@ =~= tag_file());
                }
                let body = file_to_json(f);
                push_body(&mut out, &body);
                out
            },
            Request::Group(t) => {
                let mut out: Vec<u8> = vec![47u8, 103u8, 114u8, 111u8, 117u8, 112u8, 32u8];
                proof {
                    assert(out@ =~= tag_group());
                }
                let body = t.hash.as_str().as_bytes_vec();
                push_body(&mut out, &body);
                out
            },
            Request::User(p) => {
                let mut out: Vec<u8> = vec![47u8, 117u8, 115u8, 101u8, 114u8, 32u8];
                proof {
                    assert(out@ =~= tag_user());
                }
                let body = string_to_json(&p.id);
                push_body(&mut out, &body);
                out
            },
        }
    }

    /// Encodes a response frame.
    pub fn encode_response(&self, resp: &Response) -> (r: Vec<u8>)
        ensures
            r@ == spec_encode_response(resp@),
    {
        match resp {
            Response::File(b) => {
                let mut out: Vec<u8> = vec![47u8, 102u8, 105u8, 108u8, 101u8, 32u8];
                proof {
                    assert(out@ =~= tag_file());
                }
                push_body(&mut out, b);
                out
            },
            Response::Group((g, i)) => {
                let mut out: Vec<u8> = vec![47u8, 103u8, 114u8, 111u8, 117u8, 112u8, 32u8];
                proof {
                    assert(out@ =~= tag_group());
                }
                let body = group_entry_to_json(g, i);
                push_body(&mut out, &body);
                out
            },
            Response::User(u) => {
                let mut out: Vec<u8> = vec![47u8, 117u8, 115u8, 101u8, 114u8, 32u8];
                proof {
                    assert(out@ =~= tag_user());
                }
                let online = match u.status {
                    UserState::Online => true,
                    UserState::Offline => false,
                };
                let body = user_to_json(&u.name, &u.avatar, online);
                push_body(&mut out, &body);
                out
            },
        }
    }

    /// Encodes a generic error response frame.
    pub fn encode_error(&self, msg: &String) -> (r: Vec<u8>)
        ensures
            r@ == spec_encode_error(msg@),
    {
        let mut out: Vec<u8> = vec![47u8, 101u8, 114u8, 114u8, 111u8, 114u8, 32u8];
        proof {
            assert(out@ =~= tag_error());
        }
        let body = msg.as_str().as_bytes_vec();
        push_body(&mut out, &body);
        out
    }

    /// Decodes a request frame: the inverse of [`Self::encode_request`]. An
    /// empty frame is an unexpected-EOF error; a frame without a known tag is
    /// an invalid-data error.
    pub fn decode_request(&self, data: &Vec<u8>) -> (r: Result<Request, CodecError>)
        ensures
            data@.len() == 0 <==> r matches Err(CodecError::UnexpectedEof),
            forall|q: RequestV|
                data@ == spec_encode_request(q) ==> (r matches Ok(x) && x@ == q),
    {
        if data.len() == 0 {
            proof {
                assert forall|q: RequestV| data@ != spec_encode_request(q) by {
                    assert(spec_encode_request(q).len() >= 6) by {
                        match q {
                            RequestV::File(f) => assert(spec_encode_request(q) == tag_file()
                                + json_of_file(f)),
                            RequestV::Group(t) => assert(spec_encode_request(q) == tag_group()
                                + encode_utf8(t)),
                            RequestV::User(p) => assert(spec_encode_request(q) == tag_user()
                                + json_of_str(p)),
                        }
                    }
                }
            }
            return Err(CodecError::UnexpectedEof);
        }
        let space = match Self::find_space(data) {
            Some(i) => i,
            None => {
                proof {
                    assert forall|q: RequestV|
                        data@ != spec_encode_request(q) by {
                        match q {
                            RequestV::File(f) => {
                                assert(spec_encode_request(q)[5] == 32u8);
                            },
                            RequestV::Group(t) => {
                                assert(spec_encode_request(q)[6] == 32u8);
                            },
                            RequestV::User(p) => {
                                assert(spec_encode_request(q)[5] == 32u8);
                            },
                        }
                    }
                }
                return Err(CodecError::InvalidData);
            },
        };
        let body = Self::body_of(data, space + 1);
        if space == 5 && data[0] == 47u8 && data[1] == 102u8 && data[2] == 105u8 && data[3]
            == 108u8 && data[4] == 101u8 {
            // "/file"
            proof {
                assert forall|q: RequestV|
                    data@ == spec_encode_request(q) implies q is File && body@
                    == json_of_file(q->File_0) by {
                    match q {
                        RequestV::File(f) => {
                            assert(data@ == tag_file() + json_of_file(f));
                            assert(body@ =~= json_of_file(f));
                        },
                        RequestV::Group(t) => {
                            assert(data@[1] == (tag_group() + encode_utf8(t))[1]);
                        },
                        RequestV::User(p) => {
                            assert(data@[1] == (tag_user() + json_of_str(p))[1]);
                        },
                    }
                }
            }
            match file_from_json(&body) {
                Some(f) => Ok(Request::File(f)),
                None => Err(CodecError::InvalidData),
            }
        } else if space == 6 && data[0] == 47u8 && data[1] == 103u8 && data[2] == 114u8 && data[3]
            == 111u8 && data[4] == 117u8 && data[5] == 112u8 {
            // "/group"
            proof {
                assert forall|q: RequestV|
                    data@ == spec_encode_request(q) implies q is Group && body@
                    == encode_utf8(q->Group_0) by {
                    match q {
                        RequestV::Group(t) => {
                            assert(data@ == tag_group() + encode_utf8(t));
                            assert(body@ =~= encode_utf8(t));
                        },
                        RequestV::File(f) => {
                            assert(data@[5] == (tag_file() + json_of_file(f))[5]);
                        },
                        RequestV::User(p) => {
                            assert(data@[5] == (tag_user() + json_of_str(p))[5]);
                        },
                    }
                }
            }
            match bytes_to_string(&body) {
                Some(s) => {
                    proof {
                        assert forall|q: RequestV|
                            data@ == spec_encode_request(q) implies q == RequestV::Group(s@) by {
                            let t = q->Group_0;
                            encode_utf8_decode_utf8(t);
                            encode_utf8_decode_utf8(s@);
                        }
                    }
                    Ok(Request::Group(TopicHash { hash: s }))
                },
                None => {
                    proof {
                        assert forall|q: RequestV| data@ != spec_encode_request(q) by {
                            if data@ == spec_encode_request(q) {
                                encode_utf8_valid_utf8(q->Group_0);
                            }
                        }
                    }
                    Err(CodecError::InvalidData)
                },
            }
        } else if space == 5 && data[0] == 47u8 && data[1] == 117u8 && data[2] == 115u8 && data[3]
            == 101u8 && data[4] == 114u8 {
            // "/user"
            proof {
                assert forall|q: RequestV|
                    data@ == spec_encode_request(q) implies q is User && body@
                    == json_of_str(q->User_0) by {
                    match q {
                        RequestV::User(p) => {
                            assert(data@ == tag_user() + json_of_str(p));
                            assert(body@ =~= json_of_str(p));
                        },
                        RequestV::File(f) => {
                            assert(data@[1] == (tag_file() + json_of_file(f))[1]);
                        },
                        RequestV::Group(t) => {
                            assert(data@[2] == (tag_group() + encode_utf8(t))[2]);
                        },
                    }
                }
            }
            match string_from_json(&body) {
                Some(s) => Ok(Request::User(PeerId { id: s })),
                None => Err(CodecError::InvalidData),
            }
        } else {
            proof {
                assert forall|q: RequestV| data@ != spec_encode_request(q) by {
                    match q {
                        RequestV::File(f) => {
                            let e = tag_file() + json_of_file(f);
                            if data@ == e {
                                assert(data@[0] == 47u8 && data@[1] == 102u8 && data@[2] == 105u8
                                    && data@[3] == 108u8 && data@[4] == 101u8 && data@[5] == 32u8);
                            }
                        },
                        RequestV::Group(t) => {
                            let e = tag_group() + encode_utf8(t);
                            if data@ == e {
                                assert(data@[0] == 47u8 && data@[1] == 103u8 && data@[2] == 114u8
                                    && data@[3] == 111u8 && data@[4] == 117u8 && data@[5] == 112u8
                                    && data@[6] == 32u8);
                            }
                        },
                        RequestV::User(p) => {
                            let e = tag_user() + json_of_str(p);
                            if data@ == e {
                                assert(data@[0] == 47u8 && data@[1] == 117u8 && data@[2] == 115u8
                                    && data@[3] == 101u8 && data@[4] == 114u8 && data@[5] == 32u8);
                            }
                        },
                    }
                }
            }
            Err(CodecError::InvalidData)
        }
    }

    /// Decodes a response frame: the inverse of [`Self::encode_response`],
    /// with `/error` frames surfacing as [`CodecError::Remote`]. An empty
    /// frame is an unexpected-EOF error; a frame without a known tag is an
    /// invalid-data error.
    pub fn decode_response(&self, data: &Vec<u8>) -> (r: Result<Response, CodecError>)
        ensures
            data@.len() == 0 <==> r matches Err(CodecError::UnexpectedEof),
            forall|q: ResponseV|
                data@ == spec_encode_response(q) ==> (r matches Ok(x) && x@ == q),
            forall|msg: Seq<char>|
                data@ == spec_encode_error(msg) ==> (r matches Err(CodecError::Remote(m)) && m@
                    == msg),
    {
        if data.len() == 0 {
            proof {
                assert forall|q: ResponseV| data@ != spec_encode_response(q) by {
                    assert(spec_encode_response(q).len() >= 6) by {
                        match q {
                            ResponseV::File(b) => assert(spec_encode_response(q) == tag_file()
                                + b),
                            ResponseV::Group(p) => assert(spec_encode_response(q) == tag_group()
                                + json_of_group_entry(p.0, p.1)),
                            ResponseV::User(u) => assert(spec_encode_response(q) == tag_user()
                                + json_of_user(u.name, u.avatar, u.status is Online)),
                        }
                    }
                }
                assert forall|msg: Seq<char>| data@ != spec_encode_error(msg) by {
                    assert(spec_encode_error(msg).len() >= 7);
                }
            }
            return Err(CodecError::UnexpectedEof);
        }
        let space = match Self::find_space(data) {
            Some(i) => i,
            None => {
                proof {
                    assert forall|q: ResponseV|
                        data@ != spec_encode_response(q) by {
                        match q {
                            ResponseV::File(b) => {
                                assert(spec_encode_response(q)[5] == 32u8);
                            },
                            ResponseV::Group(p) => {
                                assert(spec_encode_response(q)[6] == 32u8);
                            },
                            ResponseV::User(u) => {
                                assert(spec_encode_response(q)[5] == 32u8);
                            },
                        }
                    }
                    assert forall|msg: Seq<char>|
                        data@ != spec_encode_error(msg) by {
                        assert(spec_encode_error(msg)[6] == 32u8);
                    }
                }
                return Err(CodecError::InvalidData);
            },
        };
        let body = Self::body_of(data, space + 1);
        if space == 5 && data[0] == 47u8 && data[1] == 102u8 && data[2] == 105u8 && data[3]
            == 108u8 && data[4] == 101u8 {
            // "/file"
            proof {
                assert forall|q: ResponseV|
                    data@ == spec_encode_response(q) implies q is File && body@ == q->File_0 by {
                    match q {
                        ResponseV::File(b) => {
                            assert(data@ == tag_file() + b);
                            assert(body@ =~= b);
                        },
                        ResponseV::Group(p) => {
                            assert(data@[1] == (tag_group() + json_of_group_entry(p.0, p.1))[1]);
                        },
                        ResponseV::User(u) => {
                            assert(data@[1] == (tag_user() + json_of_user(
                                u.name,
                                u.avatar,
                                u.status is Online,
                            ))[1]);
                        },
                    }
                }
                assert forall|msg: Seq<char>|
                    data@ != spec_encode_error(msg) by {
                    if data@ == spec_encode_error(msg) {
                        assert(data@[1] == (tag_error() + encode_utf8(msg))[1]);
                    }
                }
            }
            Ok(Response::File(body))
        } else if space == 6 && data[0] == 47u8 && data[1] == 103u8 && data[2] == 114u8 && data[3]
            == 111u8 && data[4] == 117u8 && data[5] == 112u8 {
            // "/group"
            proof {
                assert forall|q: ResponseV|
                    data@ == spec_encode_response(q) implies q is Group && body@
                    == json_of_group_entry(q->Group_0.0, q->Group_0.1) by {
                    match q {
                        ResponseV::Group(p) => {
                            assert(data@ == tag_group() + json_of_group_entry(p.0, p.1));
                            assert(body@ =~= json_of_group_entry(p.0, p.1));
                        },
                        ResponseV::File(b) => {
                            assert(data@[5] == (tag_file() + b)[5]);
                        },
                        ResponseV::User(u) => {
                            assert(data@[5] == (tag_user() + json_of_user(
                                u.name,
                                u.avatar,
                                u.status is Online,
                            ))[5]);
                        },
                    }
                }
                assert forall|msg: Seq<char>|
                    data@ != spec_encode_error(msg) by {
                    if data@ == spec_encode_error(msg) {
                        assert(data@[1] == (tag_error() + encode_utf8(msg))[1]);
                    }
                }
            }
            match group_entry_from_json(&body) {
                Some((g, i)) => Ok(Response::Group((g, i))),
                None => Err(CodecError::InvalidData),
            }
        } else if space == 5 && data[0] == 47u8 && data[1] == 117u8 && data[2] == 115u8 && data[3]
            == 101u8 && data[4] == 114u8 {
            // "/user"
            proof {
                assert forall|q: ResponseV|
                    data@ == spec_encode_response(q) implies q is User && body@ == json_of_user(
                    q->User_0.name,
                    q->User_0.avatar,
                    q->User_0.status is Online,
                ) by {
                    match q {
                        ResponseV::User(u) => {
                            assert(data@ == tag_user() + json_of_user(
                                u.name,
                                u.avatar,
                                u.status is Online,
                            ));
                            assert(body@ =~= json_of_user(u.name, u.avatar, u.status is Online));
                        },
                        ResponseV::File(b) => {
                            assert(data@[1] == (tag_file() + b)[1]);
                        },
                        ResponseV::Group(p) => {
                            assert(data@[1] == (tag_group() + json_of_group_entry(p.0, p.1))[1]);
                        },
                    }
                }
                assert forall|msg: Seq<char>|
                    data@ != spec_encode_error(msg) by {
                    if data@ == spec_encode_error(msg) {
                        assert(data@[2] == (tag_error() + encode_utf8(msg))[2]);
                    }
                }
            }
            match user_from_json(&body) {
                Some((name, avatar, online)) => {
                    let status = if online {
                        UserState::Online
                    } else {
                        UserState::Offline
                    };
                    Ok(Response::User(UserInfo { name, avatar, status }))
                },
                None => Err(CodecError::InvalidData),
            }
        } else if space == 6 && data[0] == 47u8 && data[1] == 101u8 && data[2] == 114u8 && data[3]
            == 114u8 && data[4] == 111u8 && data[5] == 114u8 {
            // "/error"
            proof {
                assert forall|q: ResponseV|
                    data@ != spec_encode_response(q) by {
                    match q {
                        ResponseV::File(b) => {
                            if data@ == spec_encode_response(q) {
                                assert(data@[1] == (tag_file() + b)[1]);
                            }
                        },
                        ResponseV::Group(p) => {
                            if data@ == spec_encode_response(q) {
                                assert(data@[1] == (tag_group() + json_of_group_entry(p.0, p.1))[
                                    1]);
                            }
                        },
                        ResponseV::User(u) => {
                            if data@ == spec_encode_response(q) {
                                assert(data@[1] == (tag_user() + json_of_user(
                                    u.name,
                                    u.avatar,
                                    u.status is Online,
                                ))[1]);
                            }
                        },
                    }
                }
                assert forall|msg: Seq<char>|
                    data@ == spec_encode_error(msg) implies body@ == encode_utf8(msg) by {
                    assert(data@ == tag_error() + encode_utf8(msg));
                    assert(body@ =~= encode_utf8(msg));
                }
            }
            match bytes_to_string(&body) {
                Some(s) => {
                    proof {
                        assert forall|msg: Seq<char>|
                            data@ == spec_encode_error(msg) implies s@ == msg by {
                            encode_utf8_decode_utf8(msg);
                            encode_utf8_decode_utf8(s@);
                        }
                    }
                    Err(CodecError::Remote(s))
                },
                None => {
                    proof {
                        assert forall|msg: Seq<char>| data@ != spec_encode_error(msg) by {
                            if data@ == spec_encode_error(msg) {
                                encode_utf8_valid_utf8(msg);
                            }
                        }
                    }
                    Err(CodecError::InvalidData)
                },
            }
        } else {
            proof {
                assert forall|q: ResponseV| data@ != spec_encode_response(q) by {
                    match q {
                        ResponseV::File(b) => {
                            if data@ == spec_encode_response(q) {
                                assert(data@[0] == 47u8 && data@[1] == 102u8 && data@[2] == 105u8
                                    && data@[3] == 108u8 && data@[4] == 101u8 && data@[5] == 32u8);
                            }
                        },
                        ResponseV::Group(p) => {
                            if data@ == spec_encode_response(q) {
                                assert(data@[0] == 47u8 && data@[1] == 103u8 && data@[2] == 114u8
                                    && data@[3] == 111u8 && data@[4] == 117u8 && data@[5] == 112u8
                                    && data@[6] == 32u8);
                            }
                        },
                        ResponseV::User(u) => {
                            if data@ == spec_encode_response(q) {
                                assert(data@[0] == 47u8 && data@[1] == 117u8 && data@[2] == 115u8
                                    && data@[3] == 101u8 && data@[4] == 114u8 && data@[5] == 32u8);
                            }
                        },
                    }
                }
                assert forall|msg: Seq<char>| data@ != spec_encode_error(msg) by {
                    if data@ == spec_encode_error(msg) {
                        assert(data@[0] == 47u8 && data@[1] == 101u8 && data@[2] == 114u8 && data@[
                            3] == 114u8 && data@[4] == 111u8 && data@[5] == 114u8 && data@[6]
                            == 32u8);
                    }
                }
            }
            Err(CodecError::InvalidData)
        }
    }
}

/// Encodes a stamped chat message for the pub/sub layer.
pub fn encode_group_message(m: &GroupMessage) -> (r: Vec<u8>)
    ensures
        r@ == spec_message_payload(m@),
{
    match &m.message {
        Message::Text(s) => message_to_json(&m.source, m.timestamp, Some(s), None),
        Message::File(f) => message_to_json(&m.source, m.timestamp, None, Some(f)),
    }
}

/// Decodes a pub/sub payload back into a stamped chat message: the inverse of
/// [`encode_group_message`]. Payloads carrying both or neither alternative
/// are malformed.
pub fn decode_group_message(b: &Vec<u8>) -> (r: Option<GroupMessage>)
    ensures
        forall|m: GroupMessageV|
            b@ == spec_message_payload(m) ==> (r matches Some(x) && x@ == m),
{
    match message_from_json(b) {
        Some((source, timestamp, text, file)) => {
            match (text, file) {
                (Some(s), None) => Some(
                    GroupMessage { source, timestamp, message: Message::Text(s) },
                ),
                (None, Some(f)) => Some(
                    GroupMessage { source, timestamp, message: Message::File(f) },
                ),
                _ => None,
            }
        },
        None => None,
    }
}

} // verus!

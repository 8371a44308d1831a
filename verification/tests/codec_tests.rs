use chat_core::PeerId;
use chat_core::TopicHash;
use chat_core::codec::CodecError;
use chat_core::codec::FileExchangeCodec;
use chat_core::codec::FileExchangeProtocol;
use chat_core::codec::MAX_REQUEST_SIZE;
use chat_core::codec::MAX_RESPONSE_SIZE;
use chat_core::codec::Request;
use chat_core::codec::Response;
use chat_core::codec::decode_group_message;
use chat_core::codec::encode_group_message;
use chat_core::ids::GroupId;
use chat_core::models::FileInfo;
use chat_core::models::GroupInfo;
use chat_core::models::GroupMessage;
use chat_core::models::Message;
use chat_core::models::UserInfo;
use chat_core::models::UserState;

fn peer(s: &str) -> PeerId {
    PeerId::new(s.to_string())
}

fn sample_file() -> FileInfo {
    FileInfo {
        name: "notes.txt".to_string(),
        size: 1234,
        file_type: Some("text/plain".to_string()),
        hash: Some("abc123".to_string()),
    }
}

#[test]
fn protocol_name_is_fixed() {
    assert_eq!(FileExchangeProtocol().name(), "file-exchange-protocol");
    assert_eq!(MAX_REQUEST_SIZE, 1_000_000);
    assert_eq!(MAX_RESPONSE_SIZE, 500_000_000);
}

#[test]
fn request_file_round_trip() {
    let codec = FileExchangeCodec();
    let frame = codec.encode_request(&Request::File(sample_file()));
    assert!(frame.starts_with(b"/file "));
    match codec.decode_request(&frame) {
        Ok(Request::File(f)) => {
            assert_eq!(f.name, "notes.txt");
            assert_eq!(f.size, 1234);
            assert_eq!(f.file_type.as_deref(), Some("text/plain"));
            assert_eq!(f.hash.as_deref(), Some("abc123"));
        }
        other => panic!("unexpected decode: {other:?}"),
    }
}

#[test]
fn request_group_round_trip() {
    let codec = FileExchangeCodec();
    let topic = TopicHash { hash: "someTopicHash".to_string() };
    let frame = codec.encode_request(&Request::Group(topic));
    assert_eq!(&frame[..], b"/group someTopicHash");
    match codec.decode_request(&frame) {
        Ok(Request::Group(t)) => assert_eq!(t.hash, "someTopicHash"),
        other => panic!("unexpected decode: {other:?}"),
    }
}

#[test]
fn request_user_round_trip() {
    let codec = FileExchangeCodec();
    let frame = codec.encode_request(&Request::User(peer("12D3KooWExamplePeer")));
    // cross-check the body against serde's own encoding of the identifier
    let expected_body = serde_json::to_vec(&"12D3KooWExamplePeer".to_string()).unwrap();
    assert_eq!(&frame[..6], b"/user ");
    assert_eq!(&frame[6..], &expected_body[..]);
    match codec.decode_request(&frame) {
        Ok(Request::User(p)) => assert_eq!(p.id, "12D3KooWExamplePeer"),
        other => panic!("unexpected decode: {other:?}"),
    }
}

#[test]
fn response_file_round_trip_exact_bytes() {
    let codec = FileExchangeCodec();
    // bytes containing spaces, tags and non-UTF-8 must come back untouched
    let payload = vec![47u8, 102, 105, 108, 101, 32, 0, 255, 32, 32, 1];
    let frame = codec.encode_response(&Response::File(payload.clone()));
    match codec.decode_response(&frame) {
        Ok(Response::File(b)) => assert_eq!(b, payload),
        other => panic!("unexpected decode: {other:?}"),
    }
}

#[test]
fn response_group_round_trip() {
    let codec = FileExchangeCodec();
    let gid = GroupId { id: "5f2c9bf0-9d6e-4e2a-a5d9-1f0e2cafe000".to_string() };
    let info = GroupInfo { name: "g".to_string(), description: None };
    let frame = codec.encode_response(&Response::Group((gid, info)));
    match codec.decode_response(&frame) {
        Ok(Response::Group((g, i))) => {
            assert_eq!(g.id, "5f2c9bf0-9d6e-4e2a-a5d9-1f0e2cafe000");
            assert_eq!(i.name, "g");
            assert!(i.description.is_none());
        }
        other => panic!("unexpected decode: {other:?}"),
    }
}

#[test]
fn response_user_round_trip_keeps_status() {
    let codec = FileExchangeCodec();
    let user = UserInfo {
        name: "alice".to_string(),
        avatar: Some("https://example.org/a.png".to_string()),
        status: UserState::Offline,
    };
    let frame = codec.encode_response(&Response::User(user));
    match codec.decode_response(&frame) {
        Ok(Response::User(u)) => {
            assert_eq!(u.name, "alice");
            assert_eq!(u.avatar.as_deref(), Some("https://example.org/a.png"));
            assert!(matches!(u.status, UserState::Offline));
        }
        other => panic!("unexpected decode: {other:?}"),
    }
}

#[test]
fn error_frame_surfaces_message() {
    let codec = FileExchangeCodec();
    let frame = codec.encode_error(&"file not found".to_string());
    assert_eq!(&frame[..], b"/error file not found");
    match codec.decode_response(&frame) {
        Err(CodecError::Remote(m)) => assert_eq!(m, "file not found"),
        other => panic!("unexpected decode: {other:?}"),
    }
}

#[test]
fn empty_frame_is_unexpected_eof() {
    let codec = FileExchangeCodec();
    assert!(matches!(codec.decode_request(&Vec::new()), Err(CodecError::UnexpectedEof)));
    assert!(matches!(codec.decode_response(&Vec::new()), Err(CodecError::UnexpectedEof)));
}

#[test]
fn unknown_tag_is_invalid_data() {
    let codec = FileExchangeCodec();
    assert!(matches!(codec.decode_request(&b"/nope body".to_vec()), Err(CodecError::InvalidData)));
    assert!(matches!(codec.decode_request(&b"nospace".to_vec()), Err(CodecError::InvalidData)));
    assert!(matches!(
        codec.decode_response(&b"/nope body".to_vec()),
        Err(CodecError::InvalidData)
    ));
}

#[test]
fn malformed_json_body_is_invalid_data() {
    let codec = FileExchangeCodec();
    assert!(matches!(
        codec.decode_request(&b"/file not-json".to_vec()),
        Err(CodecError::InvalidData)
    ));
    assert!(matches!(
        codec.decode_request(&b"/user 42".to_vec()),
        Err(CodecError::InvalidData)
    ));
}

#[test]
fn group_message_text_round_trip() {
    let m = GroupMessage {
        source: peer("sourcePeer"),
        timestamp: 1700000000,
        message: Message::Text("hello".to_string()),
    };
    let payload = encode_group_message(&m);
    let back = decode_group_message(&payload).expect("payload decodes");
    assert_eq!(back.source.id, "sourcePeer");
    assert_eq!(back.timestamp, 1700000000);
    match back.message {
        Message::Text(s) => assert_eq!(s, "hello"),
        other => panic!("unexpected payload: {other:?}"),
    }
}

#[test]
fn group_message_file_round_trip() {
    let m = GroupMessage {
        source: peer("sourcePeer"),
        timestamp: 42,
        message: Message::File(sample_file()),
    };
    let payload = encode_group_message(&m);
    let back = decode_group_message(&payload).expect("payload decodes");
    match back.message {
        Message::File(f) => {
            assert_eq!(f.name, "notes.txt");
            assert_eq!(f.size, 1234);
        }
        other => panic!("unexpected payload: {other:?}"),
    }
}

#[test]
fn malformed_group_message_payload_is_dropped() {
    assert!(decode_group_message(&b"not json".to_vec()).is_none());
    // a payload with neither text nor file is malformed
    let neither = serde_json::to_vec(&(
        "p".to_string(),
        7i64,
        Option::<String>::None,
        Option::<(String, u64, Option<String>, Option<String>)>::None,
    ))
    .unwrap();
    assert!(decode_group_message(&neither).is_none());
}

#[test]
fn file_info_equality_is_by_name() {
    let a = sample_file();
    let mut b = sample_file();
    b.size = 9999;
    b.hash = None;
    assert!(a == b);
    let mut c = sample_file();
    c.name = "other.txt".to_string();
    assert!(a != c);
}

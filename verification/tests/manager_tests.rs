use chat_core::PeerId;
use chat_core::client::ClientState;
use chat_core::codec::Request;
use chat_core::codec::Response;
use chat_core::engine::EnginePending;
use chat_core::engine::publish_prepare;
use chat_core::engine::seed_key_bytes;
use chat_core::engine::self_message_event;
use chat_core::engine::self_subscribed_event;
use chat_core::errors::ManagerError;
use chat_core::errors::NetworkError;
use chat_core::errors::SettingError;
use chat_core::errors::SettingErrorKind;
use chat_core::events::FrontendEvent;
use chat_core::events::InboundEvent;
use chat_core::facade;
use chat_core::facade::AppManager;
use chat_core::group::GroupManager;
use chat_core::ids::GroupId;
use chat_core::models::GroupInfo;
use chat_core::models::GroupMessage;
use chat_core::models::LocalUserInfo;
use chat_core::models::Message;
use chat_core::models::Setting;
use chat_core::models::UserInfo;
use chat_core::models::UserState;
use chat_core::user::UserManager;

fn peer(s: &str) -> PeerId {
    PeerId::new(s.to_string())
}

fn info(name: &str) -> GroupInfo {
    GroupInfo { name: name.to_string(), description: None }
}

fn local_user(name: &str) -> LocalUserInfo {
    LocalUserInfo { peer_id: None, name: name.to_string(), avatar: None }
}

fn text(s: &str) -> Message {
    Message::Text(s.to_string())
}

/// Drives one inbound event through the group manager, performing the
/// descriptor pull against `responder` (if any), the way the dispatcher
/// would ask the subscribing peer.
fn group_step(
    gm: &mut GroupManager,
    event: InboundEvent,
    local: &PeerId,
    pending: &mut Option<(GroupId, GroupInfo)>,
    responder: Option<&mut GroupManager>,
) -> chat_core::events::HandlerOutcome {
    let fetched = match &event {
        InboundEvent::Subscribed { peer_id, topic } => {
            match gm.subscribe_need(peer_id, topic, local, pending) {
                Some(req) => match responder {
                    Some(other) => {
                        let answer = other.handle_event(
                            &InboundEvent::InboundRequest { request: req, channel: 1 },
                            local,
                            &mut None,
                            None,
                        );
                        match answer.response {
                            Some(Response::Group(pair)) => Some(Ok(pair)),
                            _ => Some(Err(NetworkError::RequestError("no response".to_string()))),
                        }
                    }
                    None => Some(Err(NetworkError::RequestError("no peer".to_string()))),
                },
                None => None,
            }
        }
        _ => None,
    };
    gm.handle_event(&event, local, pending, fetched)
}

#[test]
fn new_group_stashes_pending_slot() {
    let mut client = ClientState::new();
    let (gid, topic) = facade::new_group(&mut client, info("g"));
    assert_eq!(topic.hash, gid.topic().hash);
    match &client.pending_new_group {
        Some((g, i)) => {
            assert_eq!(g.id, gid.id);
            assert_eq!(i.name, "g");
        }
        None => panic!("slot empty"),
    }
}

#[test]
fn pending_slot_overwrite_keeps_second() {
    // two group creations cannot coexist: the second overwrites the first
    let mut client = ClientState::new();
    let (first, _) = facade::new_group(&mut client, info("one"));
    let (second, _) = facade::new_group(&mut client, info("two"));
    match &client.pending_new_group {
        Some((g, i)) => {
            assert_ne!(g.id, first.id);
            assert_eq!(g.id, second.id);
            assert_eq!(i.name, "two");
        }
        None => panic!("slot empty"),
    }
}

#[test]
fn self_subscription_adopts_descriptor_once() {
    // descriptor adoption: after new_group, the self-subscription makes
    // get_groups contain the mapping, and the slot is cleared exactly once
    let a = peer("A");
    let mut client = ClientState::new();
    let mut gm = GroupManager::new();
    let (gid, topic) = facade::new_group(&mut client, info("g"));
    let ev = self_subscribed_event(&topic, &a);
    let out = group_step(&mut gm, ev, &a, &mut client.pending_new_group, None);
    assert!(out.result.is_ok());
    assert!(client.pending_new_group.is_none());
    let groups = gm.get_groups();
    assert_eq!(groups.len(), 1);
    assert_eq!(groups[0].0.id, gid.id);
    assert_eq!(groups[0].1.name, "g");
    assert_eq!(out.events.len(), 2);
    assert!(matches!(&out.events[0], FrontendEvent::GroupUpdate { .. }));
    assert!(matches!(&out.events[1], FrontendEvent::Subscribed { .. }));
    // a second matching self-subscription finds the group known: no adoption
    let mut client2 = ClientState::new();
    let (_, topic2) = facade::new_group(&mut client2, info("other"));
    let again = self_subscribed_event(&topic, &a);
    let out2 = group_step(&mut gm, again, &a, &mut client2.pending_new_group, None);
    assert!(out2.result.is_ok());
    assert!(client2.pending_new_group.is_some());
    assert_eq!(gm.get_groups().len(), 1);
    let _ = topic2;
}

#[test]
fn mismatched_slot_is_not_taken() {
    // the slot is cleared only by a self-subscription with matching topic
    let a = peer("A");
    let mut client = ClientState::new();
    let mut gm = GroupManager::new();
    let (_gid, _topic) = facade::new_group(&mut client, info("g"));
    let unrelated = chat_core::TopicHash { hash: "someOtherTopic".to_string() };
    let ev = self_subscribed_event(&unrelated, &a);
    let out = group_step(&mut gm, ev, &a, &mut client.pending_new_group, None);
    assert!(out.result.is_err());
    assert!(client.pending_new_group.is_some());
    assert!(gm.get_groups().is_empty());
}

#[test]
fn publish_is_self_visible() {
    // after a publish, the next observation of the history ends in the message
    let a = peer("A");
    let mut client = ClientState::new();
    let mut gm = GroupManager::new();
    let (gid, topic) = facade::new_group(&mut client, info("g"));
    let ev = self_subscribed_event(&topic, &a);
    group_step(&mut gm, ev, &a, &mut client.pending_new_group, None);

    let (stamped, _payload) = publish_prepare(text("hi"), &a);
    let ev = self_message_event(&topic, &stamped);
    let out = group_step(&mut gm, ev, &a, &mut client.pending_new_group, None);
    assert!(out.result.is_ok());
    let state = gm.get_group_state(&gid).expect("group state");
    let history = state.history();
    assert_eq!(history.len(), 1);
    assert_eq!(history[0].source.id, "A");
    assert!(matches!(&history[0].message, Message::Text(s) if s == "hi"));
    assert!(matches!(&out.events[0], FrontendEvent::Message { .. }));
}

#[test]
fn histories_only_grow() {
    let a = peer("A");
    let mut client = ClientState::new();
    let mut gm = GroupManager::new();
    let (gid, topic) = facade::new_group(&mut client, info("g"));
    group_step(
        &mut gm,
        self_subscribed_event(&topic, &a),
        &a,
        &mut client.pending_new_group,
        None,
    );
    let mut seen: Vec<String> = Vec::new();
    for word in ["one", "two", "three"] {
        let (stamped, _) = publish_prepare(text(word), &a);
        group_step(
            &mut gm,
            self_message_event(&topic, &stamped),
            &a,
            &mut client.pending_new_group,
            None,
        );
        let state = gm.get_group_state(&gid).unwrap();
        let history = state.history();
        // the earlier observation is a prefix of the later one
        assert!(history.len() == seen.len() + 1);
        for (i, s) in seen.iter().enumerate() {
            assert!(matches!(&history[i].message, Message::Text(t) if t == s));
        }
        seen.push(word.to_string());
    }
}

#[test]
fn unsubscribe_of_non_subscriber_is_silent() {
    // idempotent unsubscribe: a no-op, and no Unsubscribed event
    let a = peer("A");
    let b = peer("B");
    let mut client = ClientState::new();
    let mut gm = GroupManager::new();
    let (gid, topic) = facade::new_group(&mut client, info("g"));
    group_step(
        &mut gm,
        self_subscribed_event(&topic, &a),
        &a,
        &mut client.pending_new_group,
        None,
    );
    let before = gm.get_group_state(&gid).unwrap().subscribers().len();
    let ev = InboundEvent::Unsubscribed { peer_id: b.clone(), topic: topic.clone() };
    let out = gm.handle_event(&ev, &a, &mut None, None);
    assert!(out.result.is_ok());
    assert!(out.events.is_empty());
    assert_eq!(gm.get_group_state(&gid).unwrap().subscribers().len(), before);
    // a real unsubscribe does emit the event
    let ev = InboundEvent::Unsubscribed { peer_id: a.clone(), topic: topic.clone() };
    let out = gm.handle_event(&ev, &a, &mut None, None);
    assert_eq!(out.events.len(), 1);
    assert!(matches!(&out.events[0], FrontendEvent::Unsubscribed { .. }));
}

#[test]
fn message_for_unknown_topic_is_dropped() {
    let a = peer("A");
    let mut gm = GroupManager::new();
    let (stamped, _) = publish_prepare(text("hello"), &a);
    let topic = chat_core::TopicHash { hash: "unknownTopic".to_string() };
    let out = gm.handle_event(&self_message_event(&topic, &stamped), &a, &mut None, None);
    assert!(out.result.is_ok());
    assert!(out.events.is_empty());
    assert!(gm.get_groups().is_empty());
}

#[test]
fn user_discovery_pulls_profile() {
    let a = peer("A");
    let b = peer("B");
    let mut um = UserManager::new();
    let ev = InboundEvent::PeerDiscovered { peer_id: b.clone() };
    assert!(um.fetch_need(&ev, &a).is_some());
    let fetched = Some(Ok(UserInfo::new("bob".to_string(), None)));
    let out = um.handle_event(&ev, &a, &local_user("me"), fetched);
    assert!(out.result.is_ok());
    assert_eq!(out.events.len(), 1);
    let got = um.get_user_info(&b).expect("profile");
    assert_eq!(got.name, "bob");
    // a second discovery of the same peer needs no pull
    assert!(um.fetch_need(&ev, &a).is_none());
}

#[test]
fn peer_expiry_marks_offline() {
    let a = peer("A");
    let b = peer("B");
    let mut um = UserManager::new();
    um.add_user(b.clone(), UserInfo::new("bob".to_string(), None));
    let out = um.handle_event(&InboundEvent::PeerExpired { peer_id: b.clone() }, &a, &local_user("me"), None);
    assert!(out.result.is_ok());
    assert!(matches!(um.get_user_info(&b).unwrap().status, UserState::Offline));
    assert_eq!(out.events.len(), 1);
}

#[test]
fn local_subscription_synthesizes_profile() {
    let a = peer("A");
    let topic = chat_core::TopicHash { hash: "t".to_string() };
    let mut um = UserManager::new();
    let ev = InboundEvent::Subscribed { peer_id: a.clone(), topic };
    assert!(um.fetch_need(&ev, &a).is_none());
    let out = um.handle_event(&ev, &a, &local_user("me"), None);
    assert!(out.result.is_ok());
    assert_eq!(um.get_user_info(&a).unwrap().name, "me");
    assert!(matches!(um.get_user_info(&a).unwrap().status, UserState::Online));
}

#[test]
fn remote_subscription_without_profile_fails() {
    let a = peer("A");
    let b = peer("B");
    let topic = chat_core::TopicHash { hash: "t".to_string() };
    let mut um = UserManager::new();
    let ev = InboundEvent::Subscribed { peer_id: b.clone(), topic };
    assert!(matches!(um.fetch_need(&ev, &a), Some(Request::User(p)) if p.id == "B"));
    let out = um.handle_event(&ev, &a, &local_user("me"), None);
    assert!(matches!(out.result, Err(NetworkError::Other(_))));
    assert!(um.get_user_info(&b).is_none());
}

#[test]
fn inbound_user_request_answers_known_or_local() {
    let a = peer("A");
    let b = peer("B");
    let mut um = UserManager::new();
    // unknown remote peer: no answer, the channel is dropped
    let ev = InboundEvent::InboundRequest { request: Request::User(b.clone()), channel: 7 };
    let out = um.handle_event(&ev, &a, &local_user("me"), None);
    assert!(out.response.is_none());
    // the local peer is synthesized
    let ev = InboundEvent::InboundRequest { request: Request::User(a.clone()), channel: 8 };
    let out = um.handle_event(&ev, &a, &local_user("me"), None);
    assert!(matches!(out.response, Some(Response::User(u)) if u.name == "me"));
}

#[test]
fn invoke_surface_dispatches_and_rejects() {
    // unknown action and unknown manager
    let gm = GroupManager::new();
    let um = UserManager::new();
    match facade::invoke_manager(&gm, &um, "group", "no_such", None) {
        Err(NetworkError::ManagerError(ManagerError::InvalidAction(a))) => {
            assert_eq!(a, "no_such")
        }
        other => panic!("unexpected: {other:?}"),
    }
    match facade::invoke_manager(&gm, &um, "nope", "x", None) {
        Err(NetworkError::CommandNotFound(n)) => assert_eq!(n, "nope"),
        other => panic!("unexpected: {other:?}"),
    }
    assert_eq!(gm.name(), "group");
    assert_eq!(um.name(), "user");
    let names = facade::get_managers();
    assert_eq!(names, vec!["group".to_string(), "user".to_string()]);
}

#[test]
fn invoke_get_groups_lists_descriptors() {
    let mut gm = GroupManager::new();
    let um = UserManager::new();
    let gid = GroupId { id: "gid-1".to_string() };
    gm.add_group(gid, info("g"));
    let out = facade::invoke_manager(&gm, &um, "group", "get_groups", None).unwrap();
    let rows: Vec<(String, String, Option<String>)> = serde_json::from_str(&out).unwrap();
    assert_eq!(rows, vec![("gid-1".to_string(), "g".to_string(), None)]);
}

#[test]
fn invoke_get_group_state_errors() {
    let gm = GroupManager::new();
    let um = UserManager::new();
    let params = serde_json::to_string(&"missing-gid".to_string()).unwrap();
    match facade::invoke_manager(&gm, &um, "group", "get_group_state", Some(&params)) {
        Err(NetworkError::ManagerError(ManagerError::GroupNotExist(g))) => {
            assert_eq!(g.id, "missing-gid")
        }
        other => panic!("unexpected: {other:?}"),
    }
    let bad = "42".to_string();
    match facade::invoke_manager(&gm, &um, "group", "get_group_state", Some(&bad)) {
        Err(NetworkError::ManagerError(ManagerError::InvalidParams(_))) => {}
        other => panic!("unexpected: {other:?}"),
    }
    match facade::invoke_manager(&gm, &um, "group", "get_group_state", None) {
        Err(NetworkError::ManagerError(ManagerError::InvalidAction(a))) => {
            assert_eq!(a, "get_group_state")
        }
        other => panic!("unexpected: {other:?}"),
    }
}

#[test]
fn invoke_get_user_info_round_trips() {
    let gm = GroupManager::new();
    let mut um = UserManager::new();
    um.add_user(peer("B"), UserInfo::new("bob".to_string(), None));
    let params = serde_json::to_string(&"B".to_string()).unwrap();
    let out = facade::invoke_manager(&gm, &um, "user", "get_user_info", Some(&params)).unwrap();
    let row: (String, Option<String>, bool) = serde_json::from_str(&out).unwrap();
    assert_eq!(row, ("bob".to_string(), None, true));
    let missing = serde_json::to_string(&"C".to_string()).unwrap();
    match facade::invoke_manager(&gm, &um, "user", "get_user_info", Some(&missing)) {
        Err(NetworkError::ManagerError(ManagerError::PeerNotExist(p))) => assert_eq!(p.id, "C"),
        other => panic!("unexpected: {other:?}"),
    }
}

#[test]
fn dial_requires_trailing_peer_id() {
    // an address without a peer component is rejected
    match facade::dial_target(&"/ip4/127.0.0.1/tcp/9000".to_string()) {
        Err(NetworkError::InvalidAddress(m)) => {
            assert_eq!(m, "Expect peer multiaddr to contain peer ID.")
        }
        other => panic!("unexpected: {other:?}"),
    }
    // one ending in /p2p/<id> is accepted, and yields that identifier
    let keypair = libp2p::identity::Keypair::generate_ed25519();
    let real = libp2p::PeerId::from(keypair.public());
    let addr = format!("/ip4/127.0.0.1/tcp/9000/p2p/{real}");
    match facade::dial_target(&addr) {
        Ok(p) => assert_eq!(p.id, real.to_base58()),
        other => panic!("unexpected: {other:?}"),
    }
    assert_eq!(facade::default_listen_addr(), "/ip4/0.0.0.0/tcp/0");
}

#[test]
fn topic_derivation_matches_pubsub_layer() {
    let gid = GroupId { id: "5f2c9bf0-9d6e-4e2a-a5d9-1f0e2cafe000".to_string() };
    let expected = libp2p::gossipsub::Sha256Topic::new(gid.id.clone()).hash().into_string();
    assert_eq!(gid.topic().hash, expected);
    // deterministic: the same identifier always yields the same topic
    assert_eq!(gid.topic().hash, gid.topic().hash);
}

#[test]
fn listener_map_accumulates_and_shrinks() {
    // listener accounting: accumulated addresses minus the closed ones,
    // until the listener is removed entirely
    let mut client = ClientState::new();
    let ev = client.apply_new_listen_addr(9, "/ip4/1.2.3.4/tcp/1".to_string());
    assert!(matches!(&ev, FrontendEvent::Listen { listener_id: 9, addresses } if addresses.len() == 1));
    client.apply_new_listen_addr(9, "/ip4/1.2.3.4/tcp/2".to_string());
    client.apply_new_listen_addr(10, "/ip4/5.6.7.8/tcp/1".to_string());
    let all = client.get_listeners();
    assert_eq!(all.len(), 2);

    let closed = vec!["/ip4/1.2.3.4/tcp/1".to_string()];
    let ev = client.apply_listener_closed(9, &closed).expect("known listener");
    match ev {
        FrontendEvent::Listen { listener_id, addresses } => {
            assert_eq!(listener_id, 9);
            assert_eq!(addresses, vec!["/ip4/1.2.3.4/tcp/2".to_string()]);
        }
        other => panic!("unexpected event: {other:?}"),
    }
    // closing the rest drops the entry whole
    let closed = vec!["/ip4/1.2.3.4/tcp/2".to_string()];
    client.apply_listener_closed(9, &closed).expect("known listener");
    let all = client.get_listeners();
    assert_eq!(all.len(), 1);
    assert_eq!(all[0].0, 10);
    // an unknown listener is left alone
    assert!(client.apply_listener_closed(99, &closed).is_none());
    // stop-listen targets: the named one, or all
    assert_eq!(facade::stop_listen_targets(&client, Some(7)), vec![7]);
    assert_eq!(facade::stop_listen_targets(&client, None), vec![10]);
}

#[test]
fn engine_pending_maps_complete_once() {
    let mut pending = EnginePending::new();
    assert!(pending.dial_vacant(&peer("B")));
    pending.record_dial(peer("B"), 11);
    assert!(!pending.dial_vacant(&peer("B")));
    assert_eq!(pending.complete_dial(&peer("B")), Some(11));
    // a pending reply never remains after its completion was observed
    assert_eq!(pending.complete_dial(&peer("B")), None);

    pending.record_request(3, 21);
    pending.record_request(4, 22);
    assert_eq!(pending.complete_request(3), Some(21));
    assert_eq!(pending.complete_request(3), None);
    assert_eq!(pending.complete_request(5), None);
    assert_eq!(pending.complete_request(4), Some(22));
}

#[test]
fn deterministic_seed_key_shape() {
    let bytes = seed_key_bytes(7);
    assert_eq!(bytes.len(), 32);
    assert_eq!(bytes[0], 7);
    assert!(bytes[1..].iter().all(|b| *b == 0));
}

#[test]
fn setting_merge_validates_path() {
    let mut s = Setting { recv_path: "/old".to_string(), user_info: UserInfo::new("me".to_string(), None) };
    // a missing path is collected, the old one kept
    let other = Setting { recv_path: "/new".to_string(), user_info: UserInfo::new("x".to_string(), None) };
    let err = s.merge(other, false).unwrap_err();
    assert_eq!(err.kinds().len(), 1);
    assert_eq!(s.recv_path, "/old");
    // an existing path is adopted; the user profile is never merged
    let other = Setting { recv_path: "/new".to_string(), user_info: UserInfo::new("x".to_string(), None) };
    assert!(s.merge(other, true).is_ok());
    assert_eq!(s.recv_path, "/new");
    assert_eq!(s.user_info.name, "me");
}

#[test]
fn frontend_event_names_follow_convention() {
    let a = peer("A");
    let gid = GroupId { id: "g".to_string() };
    let ev = FrontendEvent::Subscribed { group_id: gid, peer_id: a };
    assert_eq!(ev.event_name(), "subscribed");
    assert_eq!(FrontendEvent::BackendError("x".to_string()).event_name(), "error");
    assert_eq!(
        FrontendEvent::Listen { listener_id: 0, addresses: Vec::new() }.event_name(),
        "listen"
    );
}

#[test]
fn errors_render_with_taxonomy_tags() {
    let e = NetworkError::CommandNotFound("nope".to_string());
    assert_eq!(e.describe(), "command not found: nope");
    let e = NetworkError::ManagerError(ManagerError::InvalidAction("x".to_string()));
    assert_eq!(e.describe(), "Manager error: invalid action: x");
    let e = SettingError::new(vec![
        SettingErrorKind::InvalidPath("/a".to_string()),
        SettingErrorKind::InvalidPath("/b".to_string()),
    ]);
    assert_eq!(e.describe(), "Setting error: invalid path: /a, invalid path: /b");
    let e = NetworkError::InvalidAddress("addr".to_string());
    assert_eq!(e.describe(), "invalid address: addr");
    let e = NetworkError::Other("plain".to_string());
    assert_eq!(e.describe(), "plain");
}

#[test]
fn presentation_queue_is_bounded() {
    // backpressure: the queue accepts its capacity and then blocks the sender
    let (tx, mut rx) = tokio::sync::mpsc::channel::<u32>(chat_core::QUEUE_CAPACITY);
    for i in 0..100u32 {
        tx.try_send(i).expect("within capacity");
    }
    match tx.try_send(100) {
        Err(tokio::sync::mpsc::error::TrySendError::Full(_)) => {}
        other => panic!("expected a full queue, got {other:?}"),
    }
    // nothing was dropped: draining yields everything in order
    for i in 0..100u32 {
        assert_eq!(rx.try_recv().unwrap(), i);
    }
}

//! Two-node walkthroughs: each test drives the verified state machines of
//! two peers with the event sequences the transport would deliver.

use chat_core::PeerId;
use chat_core::client::ClientState;
use chat_core::codec::Request;
use chat_core::codec::Response;
use chat_core::engine::publish_prepare;
use chat_core::engine::self_message_event;
use chat_core::engine::self_subscribed_event;
use chat_core::events::FrontendEvent;
use chat_core::events::InboundEvent;
use chat_core::facade;
use chat_core::group::GroupManager;
use chat_core::models::GroupInfo;
use chat_core::models::LocalUserInfo;
use chat_core::models::Message;
use chat_core::user::UserManager;

struct Node {
    peer: PeerId,
    client: ClientState,
    groups: GroupManager,
    users: UserManager,
    local_user: LocalUserInfo,
}

impl Node {
    fn new(name: &str) -> Node {
        Node {
            peer: PeerId::new(name.to_string()),
            client: ClientState::new(),
            groups: GroupManager::new(),
            users: UserManager::new(),
            local_user: LocalUserInfo { peer_id: None, name: name.to_lowercase(), avatar: None },
        }
    }

    /// Dispatches one inbound event to both managers, pulling descriptors and
    /// profiles from `remote` where the handlers ask for them.
    fn dispatch(&mut self, event: InboundEvent, remote: Option<&mut Node>) -> Vec<FrontendEvent> {
        let mut emitted = Vec::new();
        let (group_fetch, user_fetch) = match &event {
            InboundEvent::Subscribed { peer_id, topic } => (
                self.groups.subscribe_need(peer_id, topic, &self.peer, &self.client.pending_new_group),
                self.users.fetch_need(&event, &self.peer),
            ),
            InboundEvent::PeerDiscovered { .. } => (None, self.users.fetch_need(&event, &self.peer)),
            _ => (None, None),
        };
        let (group_fetched, user_fetched) = match remote {
            Some(other) => {
                let g = group_fetch.map(|req| {
                    let out = other.groups.handle_event(
                        &InboundEvent::InboundRequest { request: req, channel: 1 },
                        &other.peer.clone(),
                        &mut None,
                        None,
                    );
                    match out.response {
                        Some(Response::Group(pair)) => Ok(pair),
                        _ => Err(chat_core::errors::NetworkError::RequestError(
                            "group not answered".to_string(),
                        )),
                    }
                });
                let u = user_fetch.map(|req| {
                    let out = other.users.handle_event(
                        &InboundEvent::InboundRequest { request: req, channel: 2 },
                        &other.peer.clone(),
                        &other.local_user,
                        None,
                    );
                    match out.response {
                        Some(Response::User(u)) => Ok(u),
                        _ => Err(chat_core::errors::NetworkError::RequestError(
                            "user not answered".to_string(),
                        )),
                    }
                });
                (g, u)
            }
            None => (
                group_fetch.map(|_| {
                    Err(chat_core::errors::NetworkError::RequestError("no peer".to_string()))
                }),
                user_fetch.map(|_| {
                    Err(chat_core::errors::NetworkError::RequestError("no peer".to_string()))
                }),
            ),
        };
        let out = self.groups.handle_event(
            &event,
            &self.peer.clone(),
            &mut self.client.pending_new_group,
            group_fetched,
        );
        emitted.extend(out.events);
        let out = self.users.handle_event(&event, &self.peer.clone(), &self.local_user, user_fetched);
        emitted.extend(out.events);
        emitted
    }

    fn subscriber_names(&self, gid: &chat_core::GroupId) -> Vec<String> {
        let state = self.groups.get_group_state(gid).expect("group state");
        let mut names: Vec<String> =
            state.subscribers().into_iter().map(|p| p.id).collect();
        names.sort();
        names
    }
}

fn text(s: &str) -> Message {
    Message::Text(s.to_string())
}

#[test]
fn two_peer_local_chat() {
    // A creates a group; B subscribes; A's subscriber set becomes {A, B} and
    // B learns the descriptor through a pull from its peer.
    let mut a = Node::new("A");
    let mut b = Node::new("B");
    let (gid, topic) = facade::new_group(&mut a.client, GroupInfo {
        name: "g".to_string(),
        description: None,
    });

    // A's engine injects the self-subscription; A adopts its own descriptor.
    a.dispatch(self_subscribed_event(&topic, &a.peer.clone()), None);

    // B subscribes: B's own node sees Subscribed{B}, and so does A.
    let ev = InboundEvent::Subscribed { peer_id: b.peer.clone(), topic: topic.clone() };
    let b_events = b.dispatch(ev.clone(), Some(&mut a));
    a.dispatch(ev, None);

    assert_eq!(a.subscriber_names(&gid), vec!["A".to_string(), "B".to_string()]);
    assert_eq!(b.subscriber_names(&gid), vec!["B".to_string()]);
    let update = b_events.iter().find_map(|e| match e {
        FrontendEvent::GroupUpdate { group_id, group_info } => {
            Some((group_id.id.clone(), group_info.name.clone()))
        }
        _ => None,
    });
    assert_eq!(update, Some((gid.id.clone(), "g".to_string())));
}

#[test]
fn backfill_is_not_provided_on_join() {
    // A publishes before B joins: B starts with an empty history, but sees
    // the next message A publishes.
    let mut a = Node::new("A");
    let mut b = Node::new("B");
    let (gid, topic) = facade::new_group(&mut a.client, GroupInfo {
        name: "g".to_string(),
        description: None,
    });
    a.dispatch(self_subscribed_event(&topic, &a.peer.clone()), None);

    let (hi, _) = publish_prepare(text("hi"), &a.peer.clone());
    a.dispatch(self_message_event(&topic, &hi), None);

    // B joins now.
    let ev = InboundEvent::Subscribed { peer_id: b.peer.clone(), topic: topic.clone() };
    b.dispatch(ev.clone(), Some(&mut a));
    a.dispatch(ev, None);
    assert_eq!(b.groups.get_group_state(&gid).unwrap().history().len(), 0);

    // The next publish reaches both.
    let (hello, _) = publish_prepare(text("hello"), &a.peer.clone());
    a.dispatch(self_message_event(&topic, &hello), None);
    b.dispatch(self_message_event(&topic, &hello), None);

    let b_history = b.groups.get_group_state(&gid).unwrap().history().clone();
    assert_eq!(b_history.len(), 1);
    assert!(matches!(&b_history[0].message, Message::Text(s) if s == "hello"));
    assert_eq!(a.groups.get_group_state(&gid).unwrap().history().len(), 2);
}

#[test]
fn descriptor_pull_then_history() {
    // A message on an unknown topic is dropped; after pulling the descriptor
    // on the subscription, the next delivery is appended.
    let mut a = Node::new("A");
    let mut b = Node::new("B");
    let (gid, topic) = facade::new_group(&mut a.client, GroupInfo {
        name: "g".to_string(),
        description: None,
    });
    a.dispatch(self_subscribed_event(&topic, &a.peer.clone()), None);

    let (hello, _) = publish_prepare(text("hello"), &a.peer.clone());
    a.dispatch(self_message_event(&topic, &hello), None);

    // the delivery reaches B before B knows the group: dropped
    let dropped = b.dispatch(self_message_event(&topic, &hello), None);
    assert!(dropped.is_empty());
    assert!(b.groups.get_groups().is_empty());

    // B subscribes and pulls the descriptor from A
    let ev = InboundEvent::Subscribed { peer_id: b.peer.clone(), topic: topic.clone() };
    b.dispatch(ev, Some(&mut a));
    assert_eq!(b.groups.get_groups().len(), 1);

    // the delivery is retried (gossip redelivers to new subscribers through
    // the next publish); B now appends it
    b.dispatch(self_message_event(&topic, &hello), None);
    let history = b.groups.get_group_state(&gid).unwrap().history().clone();
    assert_eq!(history.len(), 1);
    assert!(matches!(&history[0].message, Message::Text(s) if s == "hello"));
}

#[test]
fn subscription_mirrors_agree() {
    // mirror consistency, observed at runtime: a peer's topic set matches
    // the groups that list it, after joins and leaves
    let mut a = Node::new("A");
    let mut b = Node::new("B");
    let (gid, topic) = facade::new_group(&mut a.client, GroupInfo {
        name: "g".to_string(),
        description: None,
    });
    a.dispatch(self_subscribed_event(&topic, &a.peer.clone()), None);
    let ev = InboundEvent::Subscribed { peer_id: b.peer.clone(), topic: topic.clone() };
    b.dispatch(ev.clone(), Some(&mut a));
    a.dispatch(ev, Some(&mut b));

    let topics_of_b = a.users.get_user_subscribe(&b.peer).expect("b's topics at a");
    assert_eq!(topics_of_b.len(), 1);
    assert_eq!(topics_of_b[0].hash, topic.hash);
    assert!(a.subscriber_names(&gid).contains(&"B".to_string()));

    // B leaves: both sides of A's mirror forget it together
    let ev = InboundEvent::Unsubscribed { peer_id: b.peer.clone(), topic: topic.clone() };
    a.dispatch(ev, None);
    assert!(a.users.get_user_subscribe(&b.peer).map_or(true, |v| v.is_empty()));
    assert!(!a.subscriber_names(&gid).contains(&"B".to_string()));
}

#[test]
fn discovery_records_profile_from_peer() {
    // on discovery the profile is pulled from the peer itself
    let mut a = Node::new("A");
    let mut b = Node::new("B");
    // B knows its own profile only through its local user: seed it by a
    // self-subscription to some topic
    let t = chat_core::TopicHash { hash: "warmup".to_string() };
    let (_g, _t2) = facade::new_group(&mut b.client, GroupInfo {
        name: "w".to_string(),
        description: None,
    });
    let _ = t;
    let ev = InboundEvent::PeerDiscovered { peer_id: b.peer.clone() };
    let events = a.dispatch(ev, Some(&mut b));
    // B had no stored profile, so it answered with its synthesized local one
    assert_eq!(a.users.get_user_info(&b.peer).expect("profile").name, "b");
    assert!(events.iter().any(|e| matches!(e, FrontendEvent::UserUpdate { .. })));
}

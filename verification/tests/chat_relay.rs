//! End-to-end tests of the chat relay core: rendering, the wire codec,
//! membership claims, the session lifecycle, self-filtering, and the
//! lossy fanout hub.

use chat_relay::codec::decode_envelope;
use chat_relay::hub::LocalFanoutHub;
use chat_relay::hub::SubscriberQueue;
use chat_relay::message::ChatMessage;
use chat_relay::message::IdLabeledMessage;
use chat_relay::registry::ChatRoomUser;
use chat_relay::registry::RoomRegistry;
use chat_relay::relay::ChatRoomPublisherService;
use chat_relay::relay::ChatRoomSubscriberService;
use chat_relay::server_id::ServerId;
use chat_relay::session::JoinOutcome;
use chat_relay::session::Session;

fn join(username: &str, room_name: &str) -> ChatMessage {
    ChatMessage::Join { username: username.to_owned(), room_name: room_name.to_owned() }
}

fn leave(username: &str, room_name: &str) -> ChatMessage {
    ChatMessage::Leave { username: username.to_owned(), room_name: room_name.to_owned() }
}

fn chat(username: &str, room_name: &str, context: &str) -> ChatMessage {
    ChatMessage::Chat {
        username: username.to_owned(),
        room_name: room_name.to_owned(),
        context: context.to_owned(),
    }
}

#[test]
fn render_join() {
    assert_eq!(join("alice", "lobby").message_context(), "alice joined.");
}

#[test]
fn render_leave() {
    assert_eq!(leave("carol", "lobby").message_context(), "carol left.");
}

#[test]
fn render_chat() {
    assert_eq!(chat("bob", "lobby", "hey").message_context(), "bob: hey");
}

#[test]
fn encode_matches_wire_format() {
    let envelope = IdLabeledMessage {
        id: ServerId::from_string("s1".to_owned()),
        msg: chat("alice", "lobby", "hi"),
    };
    assert_eq!(
        envelope.encode(),
        "{\"id\":\"s1\",\"msg\":{\"Chat\":{\"username\":\"alice\",\"room_name\":\"lobby\",\"context\":\"hi\"}}}"
    );
}

#[test]
fn encode_join_and_leave_wire_format() {
    let id = ServerId::from_string("x".to_owned());
    let j = IdLabeledMessage { id: id.clone(), msg: join("a", "r") };
    assert_eq!(
        j.encode(),
        "{\"id\":\"x\",\"msg\":{\"Join\":{\"username\":\"a\",\"room_name\":\"r\"}}}"
    );
    let l = IdLabeledMessage { id, msg: leave("a", "r") };
    assert_eq!(
        l.encode(),
        "{\"id\":\"x\",\"msg\":{\"Leave\":{\"username\":\"a\",\"room_name\":\"r\"}}}"
    );
}

#[test]
fn encode_escapes_special_characters() {
    let envelope = IdLabeledMessage {
        id: ServerId::from_string("s".to_owned()),
        msg: chat("a\"b", "r\\n", "tab\there"),
    };
    assert_eq!(
        envelope.encode(),
        "{\"id\":\"s\",\"msg\":{\"Chat\":{\"username\":\"a\\\"b\",\"room_name\":\"r\\\\n\",\"context\":\"tab\\u0009here\"}}}"
    );
}

#[test]
fn decode_inverts_encode_for_each_variant() {
    let cases = vec![
        join("alice", "lobby"),
        leave("bob", "lobby"),
        chat("carol", "lobby", "hello there"),
        chat("d\"ve", "ro\\om", "line\nbreak\tand \u{1f600} emoji"),
        chat("", "", ""),
    ];
    for msg in cases {
        let envelope = IdLabeledMessage {
            id: ServerId::from_string("0f0e-proc".to_owned()),
            msg,
        };
        let wire = envelope.encode();
        let back = decode_envelope(&wire).expect("canonical wire text must decode");
        assert_eq!(back, envelope);
    }
}

#[test]
fn every_control_character_survives_the_round_trip() {
    for b in 0u8..32 {
        let c = b as char;
        let msg = chat("user", "room", &format!("a{}b", c));
        let envelope = IdLabeledMessage { id: ServerId::from_string("pid".to_owned()), msg };
        let wire = envelope.encode();
        assert!(wire.contains("\\u00"), "control characters must be escaped: {:?}", wire);
        assert_eq!(decode_envelope(&wire), Some(envelope));
    }
}

#[test]
fn decode_rejects_malformed_payloads() {
    assert_eq!(decode_envelope(""), None);
    assert_eq!(decode_envelope("not json at all"), None);
    assert_eq!(decode_envelope("{\"id\":\"s1\"}"), None);
    assert_eq!(
        decode_envelope("{\"id\":\"s1\",\"msg\":{\"Shout\":{\"username\":\"a\",\"room_name\":\"r\"}}}"),
        None
    );
    // trailing bytes after a well-formed envelope
    assert_eq!(
        decode_envelope("{\"id\":\"x\",\"msg\":{\"Join\":{\"username\":\"a\",\"room_name\":\"r\"}}}extra"),
        None
    );
    // unterminated string
    assert_eq!(decode_envelope("{\"id\":\"s1"), None);
    // bad escape
    assert_eq!(
        decode_envelope("{\"id\":\"s\\q1\",\"msg\":{\"Join\":{\"username\":\"a\",\"room_name\":\"r\"}}}"),
        None
    );
    // \u escape outside the control range is not canonical
    assert_eq!(
        decode_envelope("{\"id\":\"s\\u0041\",\"msg\":{\"Join\":{\"username\":\"a\",\"room_name\":\"r\"}}}"),
        None
    );
}

#[test]
fn server_id_is_36_characters_and_compares_by_value() {
    let id = ServerId::new();
    assert_eq!(id.as_str().chars().count(), 36);
    let same = ServerId::from_string(id.as_str().to_owned());
    assert!(id.same_origin(&same));
    let other = ServerId::from_string("another".to_owned());
    assert!(!id.same_origin(&other));
    assert_eq!(id, same);
}

#[test]
fn claim_is_exclusive_until_released() {
    let mut registry = RoomRegistry::new();
    assert!(!registry.is_username_member("lobby", "alice"));
    let guard = ChatRoomUser::try_new(&mut registry, "lobby", "alice")
        .expect("first claim must succeed");
    assert_eq!(guard.room_name(), "lobby");
    assert_eq!(guard.username(), "alice");
    assert!(registry.is_username_member("lobby", "alice"));
    // a second claim of the live pair yields no guard
    assert!(ChatRoomUser::try_new(&mut registry, "lobby", "alice").is_none());
    // other pairs are unaffected
    assert!(ChatRoomUser::try_new(&mut registry, "lobby", "bob").is_some());
    assert!(ChatRoomUser::try_new(&mut registry, "attic", "alice").is_some());
    guard.release(&mut registry);
    assert!(!registry.is_username_member("lobby", "alice"));
    assert!(ChatRoomUser::try_new(&mut registry, "lobby", "alice").is_some());
}

#[test]
fn add_and_remove_are_idempotent() {
    let mut registry = RoomRegistry::new();
    registry.add_username_to_room("lobby", "alice");
    registry.add_username_to_room("lobby", "alice");
    assert!(registry.is_username_member("lobby", "alice"));
    registry.remove_username_from_room("lobby", "alice");
    assert!(!registry.is_username_member("lobby", "alice"));
    registry.remove_username_from_room("lobby", "alice");
    assert!(!registry.is_username_member("lobby", "alice"));
}

#[test]
fn session_lifecycle_cleans_up_membership() {
    let mut registry = RoomRegistry::new();
    let mut session = Session::new("test-room".to_owned());
    let outcome = session.on_identity_frame(&mut registry, "alice".to_owned());
    let join_event = match outcome {
        JoinOutcome::Accepted { join_event } => join_event,
        JoinOutcome::Rejected { .. } => panic!("fresh username must be accepted"),
    };
    assert_eq!(join_event, join("alice", "test-room"));
    assert!(registry.is_username_member("test-room", "alice"));

    let msg = session.chat_event("hello".to_owned());
    assert_eq!(msg, chat("alice", "test-room", "hello"));

    let leave_event = session.on_pumps_finished();
    assert_eq!(leave_event, leave("alice", "test-room"));
    session.finish(&mut registry);
    assert!(!registry.is_username_member("test-room", "alice"));
}

#[test]
fn session_abort_cleans_up_membership() {
    let mut registry = RoomRegistry::new();
    let mut session = Session::new("test-room".to_owned());
    match session.on_identity_frame(&mut registry, "bob".to_owned()) {
        JoinOutcome::Accepted { .. } => {}
        JoinOutcome::Rejected { .. } => panic!("fresh username must be accepted"),
    }
    assert!(registry.is_username_member("test-room", "bob"));
    // the transport failed mid-session: the one teardown path still runs
    session.abort(&mut registry);
    assert!(!registry.is_username_member("test-room", "bob"));
}

#[test]
fn taken_username_gets_one_rejection_and_no_events() {
    let mut registry = RoomRegistry::new();
    let mut first = Session::new("test-room".to_owned());
    match first.on_identity_frame(&mut registry, "alice".to_owned()) {
        JoinOutcome::Accepted { .. } => {}
        JoinOutcome::Rejected { .. } => panic!("fresh username must be accepted"),
    }
    let mut second = Session::new("test-room".to_owned());
    match second.on_identity_frame(&mut registry, "alice".to_owned()) {
        JoinOutcome::Accepted { .. } => panic!("a live username must be rejected"),
        JoinOutcome::Rejected { rejection_line } => {
            assert_eq!(rejection_line, "Username already taken.");
        }
    }
    // the rejected session claimed nothing and the holder is untouched
    assert!(registry.is_username_member("test-room", "alice"));
    first.on_pumps_finished();
    first.finish(&mut registry);
    assert!(!registry.is_username_member("test-room", "alice"));
}

#[test]
fn subscriber_filters_own_traffic_and_delivers_foreign() {
    let id_a = ServerId::from_string("process-a".to_owned());
    let id_b = ServerId::from_string("process-b".to_owned());
    let publisher_a = ChatRoomPublisherService::new(id_a.clone(), "chan".to_owned());
    let subscriber_a = ChatRoomSubscriberService::new(id_a, "chan".to_owned());
    let subscriber_b = ChatRoomSubscriberService::new(id_b, "chan".to_owned());
    assert_eq!(publisher_a.channel_name(), "chan");
    assert_eq!(subscriber_a.channel_name(), "chan");

    let (line, payload) = publisher_a.prepare(&chat("bob", "lobby", "hey"));
    assert_eq!(line, "bob: hey");
    // the publishing process drops its own envelope: local delivery
    // happened through the direct hub post already
    assert_eq!(subscriber_a.handle_payload(&payload), None);
    // every other process renders and delivers it exactly once
    assert_eq!(subscriber_b.handle_payload(&payload), Some("bob: hey".to_owned()));
    // garbage on the bus is dropped silently
    assert_eq!(subscriber_b.handle_payload("%%garbled-frame%%"), None);
}

#[test]
fn subscriber_queue_drops_oldest_when_full() {
    let mut q = SubscriberQueue::new(2);
    q.push("one");
    q.push("two");
    q.push("three");
    assert_eq!(q.pop(), Some("two".to_owned()));
    assert_eq!(q.pop(), Some("three".to_owned()));
    assert_eq!(q.pop(), None);
}

#[test]
fn slow_subscriber_never_blocks_producers() {
    let mut hub = LocalFanoutHub::new(3);
    let fast = hub.subscribe();
    let slow = hub.subscribe();
    hub.publish("l1");
    assert_eq!(hub.recv(fast), Some("l1".to_owned()));
    // the slow subscriber stops reading; producers keep going unharmed
    for k in 0..100 {
        hub.publish(&format!("m{}", k));
    }
    // on resuming it sees only a suffix of what was posted, in order
    assert_eq!(hub.recv(slow), Some("m97".to_owned()));
    assert_eq!(hub.recv(slow), Some("m98".to_owned()));
    assert_eq!(hub.recv(slow), Some("m99".to_owned()));
    assert_eq!(hub.recv(slow), None);
}

#[test]
fn hub_delivers_to_every_live_subscriber_after_they_joined() {
    let mut hub = LocalFanoutHub::new(8);
    let early = hub.subscribe();
    hub.publish("before");
    let late = hub.subscribe();
    hub.publish("after");
    assert_eq!(hub.recv(early), Some("before".to_owned()));
    assert_eq!(hub.recv(early), Some("after".to_owned()));
    // a subscription sees only lines posted after it was created
    assert_eq!(hub.recv(late), Some("after".to_owned()));
    assert_eq!(hub.recv(late), None);
    hub.unsubscribe(late);
    hub.publish("final line");
    assert_eq!(hub.recv(early), Some("final line".to_owned()));
    assert_eq!(hub.recv(late), None);
}

//! End-to-end tests of the chat core: the role matrix, the message
//! store, the connection registry, the session machine and the frame
//! pipeline.

use hotel_chat::chat::ChatCore;
use hotel_chat::directory::UserRecord;
use hotel_chat::errors::AppError;
use hotel_chat::registry::ConnectionRegistry;
use hotel_chat::roles::can_chat;
use hotel_chat::session::{SessionPhase, SocketSession};
use hotel_chat::store::MessageStore;
use hotel_chat::UserRole;

const U1: u128 = 0x550e8400e29b41d4a716446655440000;
const U2: u128 = 0x550e8400e29b41d4a716446655440001;
const U3: u128 = 0x550e8400e29b41d4a716446655440002;

fn staff(id: u128, name: &str, role: UserRole) -> UserRecord {
    UserRecord {
        id,
        role,
        username: Some(name.to_string()),
        full_name: None,
        email: None,
        password_hash: String::new(),
        deactivated: false,
    }
}

#[test]
fn test_can_chat_matches_exactly_the_allowed_pairs() {
    let roles = [
        UserRole::Admin,
        UserRole::Receptionist,
        UserRole::Guest,
        UserRole::Cleaner,
    ];
    let allowed = [
        (UserRole::Guest, UserRole::Receptionist),
        (UserRole::Receptionist, UserRole::Guest),
        (UserRole::Admin, UserRole::Receptionist),
        (UserRole::Receptionist, UserRole::Admin),
        (UserRole::Admin, UserRole::Cleaner),
        (UserRole::Cleaner, UserRole::Admin),
    ];
    let mut checked = 0;
    for a in roles {
        for b in roles {
            let expected = allowed.contains(&(a, b));
            assert_eq!(can_chat(a, b), expected, "pair {:?}/{:?}", a, b);
            checked += 1;
        }
    }
    assert_eq!(checked, 16);
    assert_eq!(allowed.len(), 6);
}

#[test]
fn test_can_chat_is_symmetric_and_denies_same_role() {
    let roles = [
        UserRole::Admin,
        UserRole::Receptionist,
        UserRole::Guest,
        UserRole::Cleaner,
    ];
    for a in roles {
        assert!(!can_chat(a, a));
        for b in roles {
            assert_eq!(can_chat(a, b), can_chat(b, a));
        }
    }
}

#[test]
fn test_append_then_history_ends_with_new_unread_message() {
    let mut store = MessageStore::new();
    store.append(U1, U2, "first".to_string(), None, 10);
    store.append(U2, U1, "second".to_string(), None, 20);
    let m = store.append(U1, U2, "third".to_string(), None, 30);
    assert_eq!(m.id, 2);
    assert!(!m.is_read);

    let history = store.history(U1, U2);
    assert_eq!(history.len(), 3);
    let last = history.last().unwrap();
    assert_eq!(last.content, "third");
    assert_eq!(last.sender_id, U1);
    assert_eq!(last.receiver_id, U2);
    assert!(!last.is_read);
}

#[test]
fn test_store_clock_keeps_timestamps_ascending() {
    let mut store = MessageStore::new();
    let a = store.append(U1, U2, "a".to_string(), None, 100);
    let b = store.append(U1, U2, "b".to_string(), None, 50); // wall clock went backwards
    let c = store.append(U1, U2, "c".to_string(), None, 200);
    assert_eq!(a.created_at, 100);
    assert_eq!(b.created_at, 100);
    assert_eq!(c.created_at, 200);
}

#[test]
fn test_mark_read_flips_one_direction_only() {
    let mut store = MessageStore::new();
    store.append(U1, U2, "a to b".to_string(), None, 1);
    store.append(U1, U2, "a to b again".to_string(), None, 2);
    store.append(U2, U1, "b to a".to_string(), None, 3);

    let flipped = store.mark_read_from_to(U1, U2);
    assert_eq!(flipped, 2);

    let history = store.history(U1, U2);
    assert_eq!(history.len(), 3);
    for m in &history {
        if m.sender_id == U1 {
            assert!(m.is_read, "messages from U1 to U2 must now be read");
        } else {
            assert!(!m.is_read, "messages from U2 to U1 must be untouched");
        }
    }

    // Marking again flips nothing further.
    assert_eq!(store.mark_read_from_to(U1, U2), 0);
}

#[test]
fn test_unread_count_per_direction() {
    let mut store = MessageStore::new();
    store.append(U1, U2, "x".to_string(), None, 1);
    store.append(U1, U2, "y".to_string(), None, 2);
    store.append(U2, U1, "z".to_string(), None, 3);
    assert_eq!(store.unread_count(U1, U2), 2);
    assert_eq!(store.unread_count(U2, U1), 1);
    store.mark_read_from_to(U1, U2);
    assert_eq!(store.unread_count(U1, U2), 0);
    assert_eq!(store.unread_count(U2, U1), 1);
}

#[test]
fn test_registry_delivers_in_order_to_connected_user() {
    let mut reg = ConnectionRegistry::new();
    assert!(!reg.is_connected(U1));
    reg.connect(U1);
    assert!(reg.is_connected(U1));

    assert!(reg.deliver_if_present(U1, "one".to_string()));
    assert!(reg.deliver_if_present(U1, "two".to_string()));
    assert_eq!(reg.next_outbound(U1).as_deref(), Some("one"));
    assert_eq!(reg.next_outbound(U1).as_deref(), Some("two"));
    assert_eq!(reg.next_outbound(U1), None);
}

#[test]
fn test_registry_drops_oldest_when_backlog_full() {
    let mut reg = ConnectionRegistry::new();
    reg.connect(U1);
    for i in 0..101u32 {
        assert!(reg.deliver_if_present(U1, format!("m{}", i)));
    }
    // The backlog holds 100 payloads; the very first one was dropped.
    assert_eq!(reg.next_outbound(U1).as_deref(), Some("m1"));
    let mut drained = 1;
    while reg.next_outbound(U1).is_some() {
        drained += 1;
    }
    assert_eq!(drained, 100);
}

#[test]
fn test_registry_disconnect_drops_live_path() {
    let mut reg = ConnectionRegistry::new();
    reg.connect(U1);
    reg.disconnect(U1);
    assert!(!reg.is_connected(U1));
    // A send to a disconnected user is silently discarded.
    assert!(!reg.deliver_if_present(U1, "lost".to_string()));
    assert_eq!(reg.next_outbound(U1), None);
}

#[test]
fn test_second_connect_shares_the_entry() {
    let mut reg = ConnectionRegistry::new();
    reg.connect(U1);
    assert!(reg.deliver_if_present(U1, "pending".to_string()));
    // A second connect for the same user reuses the entry, backlog included.
    reg.connect(U1);
    assert_eq!(reg.next_outbound(U1).as_deref(), Some("pending"));
}

#[test]
fn test_admin_sends_hello_to_cleaner() {
    // Admin u1 and cleaner u2 connect; u1 sends a frame for u2.
    let mut core = ChatCore::new();
    assert!(core.directory.add_user(staff(U1, "u1", UserRole::Admin)));
    assert!(core.directory.add_user(staff(U2, "u2", UserRole::Cleaner)));
    core.registry.connect(U1);
    core.registry.connect(U2);

    let frame =
        "{\"receiver_id\":\"550e8400-e29b-41d4-a716-446655440001\",\"content\":\"hello\",\"image_url\":null}";
    let sent = core.handle_frame(U1, UserRole::Admin, frame, 1000);
    let m = sent.expect("an allowed, well-formed frame must be stored");
    assert_eq!(m.sender_id, U1);
    assert_eq!(m.receiver_id, U2);
    assert_eq!(m.content, "hello");
    assert_eq!(m.image_url, None);
    assert!(!m.is_read);

    // Exactly one stored record.
    let history = core.store.history(U1, U2);
    assert_eq!(history.len(), 1);

    // u2's socket receives the rendered frame with matching content.
    let delivered = core.registry.next_outbound(U2).expect("u2 is connected");
    assert_eq!(
        delivered,
        "{\"id\":0,\
         \"sender_id\":\"550e8400-e29b-41d4-a716-446655440000\",\
         \"receiver_id\":\"550e8400-e29b-41d4-a716-446655440001\",\
         \"content\":\"hello\",\"image_url\":null,\"is_read\":false,\"created_at\":1000}"
    );

    // u1's contact list shows u2 with no unread messages (the message
    // flowed the other way); u2's shows u1 with one.
    let u1_contacts = core.get_contacts(U1, UserRole::Admin);
    let u2_entry = u1_contacts.iter().find(|c| c.id == U2).expect("cleaner visible to admin");
    assert_eq!(u2_entry.unread_count, 0);
    assert_eq!(u2_entry.name, "u2");

    let u2_contacts = core.get_contacts(U2, UserRole::Cleaner);
    let u1_entry = u2_contacts.iter().find(|c| c.id == U1).expect("admin visible to cleaner");
    assert_eq!(u1_entry.unread_count, 1);
}

#[test]
fn test_offline_receiver_message_survives_for_history() {
    let mut core = ChatCore::new();
    assert!(core.directory.add_user(staff(U1, "u1", UserRole::Admin)));
    assert!(core.directory.add_user(staff(U2, "u2", UserRole::Cleaner)));
    core.registry.connect(U1);
    // u2 is NOT connected.

    let frame =
        "{\"receiver_id\":\"550e8400-e29b-41d4-a716-446655440001\",\"content\":\"later\",\"image_url\":null}";
    assert!(core.handle_frame(U1, UserRole::Admin, frame, 5).is_some());
    assert_eq!(core.registry.next_outbound(U2), None);

    // u2 reconnects and fetches history: the message is there and the
    // fetch marks it read.
    core.registry.connect(U2);
    let history = core
        .get_chat_history(U2, UserRole::Cleaner, U1)
        .expect("cleaner may chat with admin");
    assert_eq!(history.len(), 1);
    assert_eq!(history[0].content, "later");
    assert!(history[0].is_read);
}

#[test]
fn test_handle_frame_ignores_malformed_unknown_and_denied() {
    let mut core = ChatCore::new();
    assert!(core.directory.add_user(staff(U1, "guest1", UserRole::Guest)));
    assert!(core.directory.add_user(staff(U2, "cleaner1", UserRole::Cleaner)));
    core.registry.connect(U2);

    // Malformed JSON.
    assert!(core.handle_frame(U1, UserRole::Guest, "not json", 1).is_none());
    // Unknown receiver.
    let unknown =
        "{\"receiver_id\":\"550e8400-e29b-41d4-a716-446655440099\",\"content\":\"x\",\"image_url\":null}";
    assert!(core.handle_frame(U1, UserRole::Guest, unknown, 2).is_none());
    // Guest to cleaner is a denied pair.
    let denied =
        "{\"receiver_id\":\"550e8400-e29b-41d4-a716-446655440001\",\"content\":\"x\",\"image_url\":null}";
    assert!(core.handle_frame(U1, UserRole::Guest, denied, 3).is_none());

    // Nothing was stored, nothing delivered.
    assert_eq!(core.store.history(U1, U2).len(), 0);
    assert_eq!(core.registry.next_outbound(U2), None);
}

#[test]
fn test_get_history_allowed_pair_is_ascending_and_denied_pair_forbidden() {
    let mut core = ChatCore::new();
    assert!(core.directory.add_user(staff(U1, "guest_g", UserRole::Guest)));
    assert!(core.directory.add_user(staff(U2, "reception_r", UserRole::Receptionist)));
    assert!(core.directory.add_user(staff(U3, "guest_g2", UserRole::Guest)));

    core.store.append(U1, U2, "hi".to_string(), None, 10);
    core.store.append(U2, U1, "hello".to_string(), None, 20);
    core.store.append(U1, U2, "how late is checkout?".to_string(), None, 30);

    let history = core
        .get_chat_history(U1, UserRole::Guest, U2)
        .expect("guest and receptionist are an allowed pair");
    assert_eq!(history.len(), 3);
    for w in history.windows(2) {
        assert!(w[0].created_at <= w[1].created_at);
    }

    // Guest targeting another guest is a denied pair.
    match core.get_chat_history(U1, UserRole::Guest, U3) {
        Err(AppError::Forbidden(_)) => {}
        other => panic!("expected Forbidden, got {:?}", other.map(|v| v.len())),
    }

    // An unknown counterpart is not found.
    match core.get_chat_history(U1, UserRole::Guest, 42) {
        Err(AppError::NotFound(_)) => {}
        other => panic!("expected NotFound, got {:?}", other.map(|v| v.len())),
    }
}

#[test]
fn test_get_history_returns_updated_read_flags() {
    let mut core = ChatCore::new();
    assert!(core.directory.add_user(staff(U1, "g", UserRole::Guest)));
    assert!(core.directory.add_user(staff(U2, "r", UserRole::Receptionist)));
    core.store.append(U2, U1, "welcome".to_string(), None, 1);

    let history = core.get_chat_history(U1, UserRole::Guest, U2).expect("allowed pair");
    assert_eq!(history.len(), 1);
    assert!(history[0].is_read, "the fetch itself acknowledges receipt");
    assert_eq!(core.store.unread_count(U2, U1), 0);
}

#[test]
fn test_contact_list_filters_by_role_and_deactivation() {
    let mut core = ChatCore::new();
    assert!(core.directory.add_user(staff(U1, "admin1", UserRole::Admin)));
    assert!(core.directory.add_user(staff(U2, "cleaner1", UserRole::Cleaner)));
    assert!(core.directory.add_user(staff(U3, "guest1", UserRole::Guest)));
    let mut gone = staff(42, "cleaner_gone", UserRole::Cleaner);
    gone.deactivated = true;
    assert!(core.directory.add_user(gone));

    let contacts = core.get_contacts(U1, UserRole::Admin);
    // An admin sees receptionists and cleaners; not guests, not
    // deactivated accounts, not themselves.
    assert_eq!(contacts.len(), 1);
    assert_eq!(contacts[0].id, U2);
    assert_eq!(contacts[0].role, UserRole::Cleaner);
}

#[test]
fn test_contact_display_name_falls_back_to_identity_text() {
    let mut core = ChatCore::new();
    assert!(core.directory.add_user(staff(U1, "r", UserRole::Receptionist)));
    let nameless = UserRecord {
        id: U2,
        role: UserRole::Guest,
        username: None,
        full_name: None,
        email: None,
        password_hash: String::new(),
        deactivated: false,
    };
    assert!(core.directory.add_user(nameless));

    let contacts = core.get_contacts(U1, UserRole::Receptionist);
    let guest = contacts.iter().find(|c| c.id == U2).expect("guest visible to receptionist");
    assert_eq!(guest.name, "User 550e8400-e29b-41d4-a716-446655440001");
}

#[test]
fn test_session_rejects_missing_or_invalid_token() {
    let mut session = SocketSession::open();
    assert_eq!(session.phase, SessionPhase::Connecting);
    let r = session.authenticate(None);
    match r {
        Err(AppError::Unauthorized(_)) => {}
        _ => panic!("a missing token must be rejected before the upgrade"),
    }
    assert_eq!(session.phase, SessionPhase::Closed);
}

#[test]
fn test_session_lifecycle_registers_and_removes_the_entry() {
    let mut reg = ConnectionRegistry::new();
    let mut session = SocketSession::open();
    session
        .authenticate(Some((U1, UserRole::Receptionist)))
        .expect("valid claims authenticate");
    assert_eq!(session.phase, SessionPhase::Authenticated);

    session.activate(&mut reg);
    assert_eq!(session.phase, SessionPhase::Active);
    assert!(reg.is_connected(U1));

    session.begin_close();
    assert_eq!(session.phase, SessionPhase::Closing);
    session.finish_close(&mut reg);
    assert_eq!(session.phase, SessionPhase::Closed);
    assert!(!reg.is_connected(U1));

    // A send after disconnect is dropped from the live path...
    assert!(!reg.deliver_if_present(U1, "dropped".to_string()));
    // ...but the durable path does not depend on the registry at all.
}

#[test]
fn test_empty_content_is_accepted_at_this_layer() {
    // No content validation is enforced on inbound frames: an empty
    // content is persisted and delivered like any other.
    let mut core = ChatCore::new();
    assert!(core.directory.add_user(staff(U1, "u1", UserRole::Admin)));
    assert!(core.directory.add_user(staff(U2, "u2", UserRole::Cleaner)));
    core.registry.connect(U2);
    let frame =
        "{\"receiver_id\":\"550e8400-e29b-41d4-a716-446655440001\",\"content\":\"\",\"image_url\":null}";
    let m = core.handle_frame(U1, UserRole::Admin, frame, 1).expect("empty content is allowed");
    assert_eq!(m.content, "");
    assert_eq!(core.store.history(U1, U2).len(), 1);
    assert!(core.registry.next_outbound(U2).is_some());
}

//! Tests of the wire codec, the identity text form, the upload helpers,
//! the middleware decisions and the account flows.

use hotel_chat::auth::{AuthService, Claims};
use hotel_chat::directory::{UserDirectory, UserRecord};
use hotel_chat::errors::AppError;
use hotel_chat::ids::{parse_uuid, uuid_chars};
use hotel_chat::message::Message;
use hotel_chat::middleware::{require_admin, require_auth, require_guest, require_staff};
use hotel_chat::uploads::{make_image_url, make_object_name, pick_extension};
use hotel_chat::wire::{parse_incoming, serialize_outbound};
use hotel_chat::UserRole;

const U1: u128 = 0x550e8400e29b41d4a716446655440000;
const U2: u128 = 0x550e8400e29b41d4a716446655440001;
const U1_TEXT: &str = "550e8400-e29b-41d4-a716-446655440000";
const U2_TEXT: &str = "550e8400-e29b-41d4-a716-446655440001";

fn chars_of(s: &str) -> Vec<char> {
    s.chars().collect()
}

#[test]
fn test_uuid_text_round_trip() {
    let rendered: String = uuid_chars(U1).iter().collect();
    assert_eq!(rendered, U1_TEXT);
    assert_eq!(parse_uuid(&chars_of(U1_TEXT)), Some(U1));
    // Uppercase hex digits are accepted on the way in.
    assert_eq!(
        parse_uuid(&chars_of("550E8400-E29B-41D4-A716-446655440000")),
        Some(U1)
    );
    assert_eq!(parse_uuid(&chars_of("not-a-uuid")), None);
    assert_eq!(
        parse_uuid(&chars_of("550e8400e29b41d4a716446655440000")),
        None,
        "dashes are required"
    );
    assert_eq!(
        parse_uuid(&chars_of("550e8400-e29b-41d4-a716-44665544000g")),
        None,
        "a non-hex digit is rejected"
    );
}

#[test]
fn test_parse_incoming_accepts_the_documented_shape() {
    let f = parse_incoming(
        "{\"receiver_id\":\"550e8400-e29b-41d4-a716-446655440001\",\"content\":\"hi\",\"image_url\":null}",
    )
    .expect("well-formed frame");
    assert_eq!(f.receiver_id, U2);
    assert_eq!(f.content, "hi");
    assert_eq!(f.image_url, None);
}

#[test]
fn test_parse_incoming_member_order_and_whitespace_are_free() {
    let f = parse_incoming(
        " { \"image_url\" : \"http://x/y.png\" ,\n\t\"content\": \"hi\", \"receiver_id\": \"550e8400-e29b-41d4-a716-446655440000\" } ",
    )
    .expect("members may come in any order");
    assert_eq!(f.receiver_id, U1);
    assert_eq!(f.content, "hi");
    assert_eq!(f.image_url.as_deref(), Some("http://x/y.png"));
}

#[test]
fn test_parse_incoming_image_url_may_be_absent() {
    let f = parse_incoming(
        "{\"receiver_id\":\"550e8400-e29b-41d4-a716-446655440001\",\"content\":\"no image\"}",
    )
    .expect("image_url is optional");
    assert_eq!(f.image_url, None);
}

#[test]
fn test_parse_incoming_decodes_escapes() {
    let f = parse_incoming(
        "{\"receiver_id\":\"550e8400-e29b-41d4-a716-446655440001\",\"content\":\"a\\\"b\\\\c\\nd\\u0041\",\"image_url\":null}",
    )
    .expect("escapes are part of the grammar");
    assert_eq!(f.content, "a\"b\\c\ndA");
}

#[test]
fn test_parse_incoming_rejects_malformed_frames() {
    // Not JSON at all.
    assert!(parse_incoming("hello").is_none());
    // Missing required members.
    assert!(parse_incoming("{\"content\":\"x\"}").is_none());
    assert!(parse_incoming("{\"receiver_id\":\"550e8400-e29b-41d4-a716-446655440001\"}").is_none());
    // A receiver id that is not an identity text.
    assert!(parse_incoming("{\"receiver_id\":\"u2\",\"content\":\"x\"}").is_none());
    // Duplicate member.
    assert!(parse_incoming(
        "{\"receiver_id\":\"550e8400-e29b-41d4-a716-446655440001\",\"content\":\"x\",\"content\":\"y\"}"
    )
    .is_none());
    // Unknown member.
    assert!(parse_incoming(
        "{\"receiver_id\":\"550e8400-e29b-41d4-a716-446655440001\",\"content\":\"x\",\"extra\":\"y\"}"
    )
    .is_none());
    // Null where a string is required.
    assert!(parse_incoming(
        "{\"receiver_id\":null,\"content\":\"x\"}"
    )
    .is_none());
    // Trailing text after the object.
    assert!(parse_incoming(
        "{\"receiver_id\":\"550e8400-e29b-41d4-a716-446655440001\",\"content\":\"x\"} tail"
    )
    .is_none());
    // An unescaped control character inside a string.
    assert!(parse_incoming(
        "{\"receiver_id\":\"550e8400-e29b-41d4-a716-446655440001\",\"content\":\"a\nb\"}"
    )
    .is_none());
}

#[test]
fn test_serialize_outbound_renders_the_documented_frame() {
    let m = Message {
        id: 7,
        sender_id: U1,
        receiver_id: U2,
        content: "say \"hi\"\n".to_string(),
        image_url: Some("http://x/y.png".to_string()),
        is_read: true,
        created_at: -5,
        updated_at: -5,
    };
    let rendered = serialize_outbound(&m);
    assert_eq!(
        rendered,
        "{\"id\":7,\
         \"sender_id\":\"550e8400-e29b-41d4-a716-446655440000\",\
         \"receiver_id\":\"550e8400-e29b-41d4-a716-446655440001\",\
         \"content\":\"say \\\"hi\\\"\\n\",\
         \"image_url\":\"http://x/y.png\",\
         \"is_read\":true,\"created_at\":-5}"
    );
}

#[test]
fn test_serialize_then_parse_content_survives() {
    // The outbound renderer and the inbound grammar agree on string
    // escaping: a rendered content comes back unchanged when quoted in
    // an inbound frame.
    let m = Message {
        id: 0,
        sender_id: U1,
        receiver_id: U2,
        content: "tab\there \"quoted\" back\\slash".to_string(),
        image_url: None,
        is_read: false,
        created_at: 0,
        updated_at: 0,
    };
    let rendered = serialize_outbound(&m);
    let content_part = rendered
        .split("\"content\":")
        .nth(1)
        .unwrap()
        .split(",\"image_url\"")
        .next()
        .unwrap();
    let frame = format!(
        "{{\"receiver_id\":\"{}\",\"content\":{}}}",
        U2_TEXT, content_part
    );
    let parsed = parse_incoming(&frame).expect("rendered content is valid inbound content");
    assert_eq!(parsed.content, m.content);
}

#[test]
fn test_pick_extension() {
    assert_eq!(pick_extension(Some("photo.jpg")), "jpg");
    assert_eq!(pick_extension(Some("archive.tar.gz")), "gz");
    assert_eq!(pick_extension(Some("noext")), "noext");
    assert_eq!(pick_extension(Some("trailing.")), "");
    assert_eq!(pick_extension(None), "jpg");
}

#[test]
fn test_object_name_and_url_assembly() {
    let name = make_object_name(U1, U2, "png");
    assert_eq!(
        name,
        "550e8400-e29b-41d4-a716-446655440000_550e8400-e29b-41d4-a716-446655440001.png"
    );
    let url = make_image_url("http://localhost:9000", "chat-images", &name);
    assert_eq!(
        url,
        "http://localhost:9000/chat-images/550e8400-e29b-41d4-a716-446655440000_550e8400-e29b-41d4-a716-446655440001.png"
    );
}

#[test]
fn test_middleware_access_decisions() {
    let admin = Claims { sub: 1, role: UserRole::Admin, exp: 100, iat: 0 };
    let guest = Claims { sub: 2, role: UserRole::Guest, exp: 100, iat: 0 };

    assert!(matches!(require_auth(None), Err(AppError::Unauthorized(_))));
    assert!(require_auth(Some(&guest)).is_ok());

    assert!(require_admin(Some(&admin)).is_ok());
    assert!(matches!(require_admin(Some(&guest)), Err(AppError::Forbidden(_))));

    assert!(require_guest(Some(&guest)).is_ok());
    assert!(matches!(require_guest(Some(&admin)), Err(AppError::Forbidden(_))));

    assert!(require_staff(Some(&admin)).is_ok());
    assert!(matches!(require_staff(Some(&guest)), Err(AppError::Forbidden(_))));

    let who = require_auth(Some(&admin)).unwrap();
    assert_eq!(who.user_id, 1);
    assert_eq!(who.role, UserRole::Admin);
}

#[test]
fn test_make_claims_expiry_is_one_shift() {
    let c = AuthService::make_claims(5, UserRole::Guest, 1_000_000);
    assert_eq!(c.sub, 5);
    assert_eq!(c.iat, 1_000_000);
    assert_eq!(c.exp, 1_000_000 + 8 * 3600);
    assert!(!AuthService::claims_expired(&c, 1_000_000));
    assert!(AuthService::claims_expired(&c, c.exp));
}

#[test]
fn test_create_user_validations_and_login() {
    let mut dir = UserDirectory::new();

    // Password too short.
    assert!(matches!(
        AuthService::create_user(&mut dir, 1, "alice", "short", UserRole::Admin),
        Err(AppError::ValidationError(_))
    ));
    // Username too short and too long.
    assert!(matches!(
        AuthService::create_user(&mut dir, 1, "ab", "password1", UserRole::Admin),
        Err(AppError::ValidationError(_))
    ));
    let long_name = "x".repeat(51);
    assert!(matches!(
        AuthService::create_user(&mut dir, 1, &long_name, "password1", UserRole::Admin),
        Err(AppError::ValidationError(_))
    ));

    let info = AuthService::create_user(&mut dir, 1, "alice", "password1", UserRole::Admin)
        .expect("valid request");
    assert_eq!(info.id, 1);
    assert_eq!(info.username.as_deref(), Some("alice"));
    assert_eq!(info.role, UserRole::Admin);

    // The username is now taken.
    assert!(matches!(
        AuthService::create_user(&mut dir, 2, "alice", "password1", UserRole::Cleaner),
        Err(AppError::ValidationError(_))
    ));

    // Login succeeds with the right password and fails generically with
    // a wrong one or an unknown username.
    assert!(AuthService::login(&dir, "alice", "password1").is_ok());
    match AuthService::login(&dir, "alice", "wrong") {
        Err(AppError::Unauthorized(m)) => assert_eq!(m, "Invalid credentials"),
        _ => panic!("wrong password must be unauthorized"),
    }
    match AuthService::login(&dir, "bob", "password1") {
        Err(AppError::Unauthorized(m)) => assert_eq!(m, "Invalid credentials"),
        _ => panic!("unknown username must be unauthorized"),
    }
}

#[test]
fn test_register_guest_and_guest_login() {
    let mut dir = UserDirectory::new();

    // Bad email and weak password are validation errors.
    assert!(matches!(
        AuthService::register_guest(&mut dir, 1, "nope", "SecurePass123", "John Doe"),
        Err(AppError::ValidationError(_))
    ));
    assert!(matches!(
        AuthService::register_guest(&mut dir, 1, "guest@example.com", "weak", "John Doe"),
        Err(AppError::ValidationError(_))
    ));
    assert!(matches!(
        AuthService::register_guest(&mut dir, 1, "guest@example.com", "SecurePass123", "   "),
        Err(AppError::ValidationError(_))
    ));

    // The stored email is trimmed and lowercased; the name is trimmed.
    let g = AuthService::register_guest(
        &mut dir,
        1,
        "  Guest@Example.COM  ",
        "SecurePass123",
        "  John Doe  ",
    )
    .expect("valid registration");
    assert_eq!(g.email, "guest@example.com");
    assert_eq!(g.full_name, "John Doe");
    assert_eq!(g.role, UserRole::Guest);

    // The same email registers only once.
    assert!(matches!(
        AuthService::register_guest(&mut dir, 2, "guest@example.com", "SecurePass123", "Jane"),
        Err(AppError::Conflict(_))
    ));

    // Guest login is case-insensitive in the address and checks the
    // password.
    assert!(AuthService::login_guest(&dir, "GUEST@EXAMPLE.COM", "SecurePass123").is_ok());
    match AuthService::login_guest(&dir, "guest@example.com", "WrongPass123") {
        Err(AppError::Unauthorized(m)) => assert_eq!(m, "Invalid email or password"),
        _ => panic!("wrong password must be unauthorized"),
    }
    match AuthService::login_guest(&dir, "other@example.com", "SecurePass123") {
        Err(AppError::Unauthorized(m)) => assert_eq!(m, "Invalid email or password"),
        _ => panic!("unknown email must be unauthorized"),
    }
}

#[test]
fn test_staff_account_cannot_use_guest_login_flow() {
    let mut dir = UserDirectory::new();
    let hash = AuthService::hash_password("StaffPass1").unwrap();
    assert!(dir.add_user(UserRecord {
        id: 7,
        role: UserRole::Receptionist,
        username: Some("reception".to_string()),
        full_name: None,
        email: Some("staff@example.com".to_string()),
        password_hash: hash,
        deactivated: false,
    }));

    // Even with the right password, a staff account is rejected by the
    // guest login with the same generic message.
    match AuthService::login_guest(&dir, "staff@example.com", "StaffPass1") {
        Err(AppError::Unauthorized(m)) => assert_eq!(m, "Invalid email or password"),
        _ => panic!("staff must not pass the guest login"),
    }
}

#[test]
fn test_get_guest_by_id_gates_on_role() {
    let mut dir = UserDirectory::new();
    AuthService::register_guest(&mut dir, 1, "g@example.com", "SecurePass123", "G")
        .expect("valid registration");
    AuthService::create_user(&mut dir, 2, "staff1", "password1", UserRole::Admin)
        .expect("valid staff");

    assert!(AuthService::get_guest_by_id(&dir, 1).is_ok());
    assert!(matches!(
        AuthService::get_guest_by_id(&dir, 2),
        Err(AppError::Forbidden(_))
    ));
    assert!(matches!(
        AuthService::get_guest_by_id(&dir, 99),
        Err(AppError::NotFound(_))
    ));
    assert!(matches!(
        AuthService::get_user_by_id(&dir, 99),
        Err(AppError::NotFound(_))
    ));
    let rec = AuthService::get_user_by_id(&dir, 2).expect("known id");
    assert_eq!(rec.username.as_deref(), Some("staff1"));
}

#[test]
fn test_duplicate_id_is_a_storage_failure() {
    let mut dir = UserDirectory::new();
    AuthService::create_user(&mut dir, 1, "alice", "password1", UserRole::Admin)
        .expect("valid request");
    // A second record under the same identity cannot be stored.
    assert!(matches!(
        AuthService::create_user(&mut dir, 1, "bob", "password1", UserRole::Cleaner),
        Err(AppError::StorageError(_))
    ));
}

#[test]
fn test_unparseable_hash_is_an_internal_error() {
    assert!(matches!(
        AuthService::verify_password("anything", "not-a-phc-string"),
        Err(AppError::InternalError(_))
    ));
}

use rustdesk_account_server::error::ErrorKind;
use rustdesk_account_server::handlers::{
    accessible_book, bearer_token, optional_bearer_token, device_alias, device_password, device_share_token, login_user,
    peer_for_book, personal_book, registration_fields, require_address_book, require_changed_tag,
    require_new_peer, require_new_username, require_updated_peer, session_user, shared_profiles_page,
    update_for_book, validate_device_share_token, validate_password, validate_peer_id,
    validate_tag_name, validate_username, DEFAULT_DEVICE_PASSWORD,
};
use rustdesk_account_server::model::{
    AddressBookProfile, PageQuery, PeerPayload, PeerUpdate, RegisterRequest, User,
};
use rustdesk_account_server::store::BookKind;

#[test]
fn device_alias_uses_requested_name_then_account_then_hostname() {
    assert_eq!(
        device_alias(" Workstation ", Some("alice"), "host-a", "123"),
        "Workstation"
    );
    assert_eq!(device_alias("   ", Some("alice"), "host-a", "123"), "alice");
    assert_eq!(device_alias("", None, "host-a", "123"), "host-a");
    assert_eq!(device_alias("", None, "", "123"), "123");
}

#[test]
fn blank_device_password_uses_private_default() {
    assert_eq!(device_password(None), DEFAULT_DEVICE_PASSWORD);
    assert_eq!(device_password(Some("")), DEFAULT_DEVICE_PASSWORD);
    assert_eq!(device_password(Some("custom")), "custom");
}

#[test]
fn device_share_token_requires_sufficient_entropy() {
    assert!(validate_device_share_token(&"a".repeat(32)).is_ok());
    assert!(validate_device_share_token("short").is_err());
    assert!(validate_device_share_token(&format!("{}\n", "a".repeat(32))).is_err());
}

#[test]
fn device_alias_trims_unicode_white_space_and_skips_blank_account() {
    assert_eq!(device_alias("\u{3000}Desk\t", None, "h", "1"), "Desk");
    assert_eq!(device_alias("", Some("  "), " host ", "1"), "host");
}

#[test]
fn share_token_bounds_are_inclusive() {
    assert!(validate_device_share_token(&"a".repeat(256)).is_ok());
    assert!(validate_device_share_token(&"a".repeat(257)).is_err());
    assert!(validate_device_share_token(&"a".repeat(31)).is_err());
    // 16 two-byte characters make 32 bytes.
    assert!(validate_device_share_token(&"é".repeat(16)).is_ok());
    let error = validate_device_share_token("short").unwrap_err();
    assert_eq!(error.kind, ErrorKind::BadRequest);
    assert_eq!(error.message, "Invalid device share token");
}

#[test]
fn username_rules() {
    assert!(validate_username("alice_01.x-y").is_ok());
    let short = validate_username("ab").unwrap_err();
    assert_eq!(short.message, "Username must contain between 3 and 64 characters");
    assert!(validate_username(&"a".repeat(64)).is_ok());
    assert!(validate_username(&"a".repeat(65)).is_err());
    let bad = validate_username("ali ce").unwrap_err();
    assert_eq!(
        bad.message,
        "Username may only contain letters, numbers, dot, underscore, and hyphen"
    );
    assert_eq!(bad.kind, ErrorKind::BadRequest);
}

#[test]
fn password_and_peer_id_rules() {
    assert!(validate_password("12345678").is_ok());
    assert!(validate_password("1234567").is_err());
    assert!(validate_password(&"x".repeat(256)).is_ok());
    assert!(validate_password(&"x".repeat(257)).is_err());
    assert!(validate_peer_id("123456789").is_ok());
    assert!(validate_peer_id("").is_err());
    assert!(validate_peer_id(&"1".repeat(65)).is_err());
    assert_eq!(validate_peer_id("12\u{7f}").unwrap_err().message, "Invalid RustDesk ID");
}

#[test]
fn tag_name_rules() {
    assert!(validate_tag_name("work").is_ok());
    assert!(validate_tag_name("   ").is_err());
    assert!(validate_tag_name(&"t".repeat(65)).is_err());
}

#[test]
fn bearer_token_forms() {
    assert_eq!(bearer_token(Some(Some("Bearer abc"))).unwrap(), "abc");
    assert_eq!(bearer_token(None).unwrap_err().message, "Missing bearer token");
    assert_eq!(
        bearer_token(Some(None)).unwrap_err().message,
        "Invalid authorization header"
    );
    assert_eq!(bearer_token(Some(Some("Bearer "))).unwrap_err().message, "Invalid bearer token");
    assert_eq!(bearer_token(Some(Some("Basic abc"))).unwrap_err().kind, ErrorKind::Unauthorized);
}

#[test]
fn device_share_token_header_forms() {
    let token = "b".repeat(40);
    assert_eq!(device_share_token(Some(Some(&token))).unwrap(), token);
    assert_eq!(device_share_token(None).unwrap_err().kind, ErrorKind::Unauthorized);
    assert_eq!(device_share_token(Some(Some("short"))).unwrap_err().kind, ErrorKind::BadRequest);
}

#[test]
fn registration_checks_in_order() {
    let request = RegisterRequest {
        username: "  alice ".to_owned(),
        password: "longenough".to_owned(),
        display_name: " Alice ".to_owned(),
    };
    let (username, display_name) = registration_fields(true, &request).unwrap();
    assert_eq!(username, "alice");
    assert_eq!(display_name, "Alice");
    let refused = registration_fields(false, &request).unwrap_err();
    assert_eq!(refused.kind, ErrorKind::Forbidden);
    assert_eq!(refused.message, "Registration is disabled");
    let long_name = RegisterRequest {
        username: "alice".to_owned(),
        password: "longenough".to_owned(),
        display_name: "d".repeat(129),
    };
    assert_eq!(
        registration_fields(true, &long_name).unwrap_err().message,
        "Display name is too long"
    );
}

#[test]
fn login_needs_a_record_and_a_matching_password() {
    let user = User { id: 7, username: "alice".to_owned(), display_name: "A".to_owned() };
    let missing = login_user(None, "whatever").unwrap_err();
    assert_eq!(missing.kind, ErrorKind::Unauthorized);
    assert_eq!(missing.message, "Invalid username or password");
    let wrong = login_user(Some((user, "not a phc string".to_owned())), "pw").unwrap_err();
    assert_eq!(wrong.message, "Invalid username or password");
}

#[test]
fn page_query_limits_and_offsets() {
    let query = PageQuery { current: 3, page_size: 20, ab: String::new() };
    assert_eq!(query.limit_and_offset(), (20, 40));
    let query = PageQuery { current: 0, page_size: 0, ab: String::new() };
    assert_eq!(query.limit_and_offset(), (1, 0));
    let query = PageQuery { current: 2, page_size: 9000, ab: String::new() };
    assert_eq!(query.limit_and_offset(), (500, 500));
}

#[test]
fn book_access_and_listing_rules() {
    assert_eq!(accessible_book(Some(BookKind::Global)).unwrap(), BookKind::Global);
    assert_eq!(accessible_book(None).unwrap_err().kind, ErrorKind::Forbidden);
    assert!(require_address_book("").is_err());
    assert!(require_address_book("guid").is_ok());
    let profile = AddressBookProfile {
        guid: "g".to_owned(),
        name: "Shared devices".to_owned(),
        owner: "All accounts".to_owned(),
        note: String::new(),
        rule: 3,
    };
    let page = shared_profiles_page(profile, 1);
    assert_eq!(page.total, 1);
    assert_eq!(page.data.len(), 1);
    let profile = AddressBookProfile {
        guid: "g".to_owned(),
        name: "n".to_owned(),
        owner: String::new(),
        note: String::new(),
        rule: 3,
    };
    let page = shared_profiles_page(profile, 2);
    assert_eq!(page.total, 1);
    assert!(page.data.is_empty());
}

fn sample_peer() -> PeerPayload {
    PeerPayload {
        id: "123".to_owned(),
        hash: "h".to_owned(),
        password: "secret".to_owned(),
        username: "u".to_owned(),
        hostname: "host".to_owned(),
        platform: "Linux".to_owned(),
        alias: "a".to_owned(),
        tags: vec!["t".to_owned()],
        note: "n".to_owned(),
        same_server: None,
    }
}

#[test]
fn personal_books_store_no_password_and_global_books_keep_hashes() {
    let (peer, password) = peer_for_book(BookKind::Global, sample_peer());
    assert_eq!(peer.password, "secret");
    assert_eq!(password, "secret");
    let (peer, password) = peer_for_book(BookKind::Personal, sample_peer());
    assert_eq!(peer.password, "");
    assert_eq!(password, "");
    assert_eq!(peer.alias, "a");
    let update = PeerUpdate {
        id: "123".to_owned(),
        hash: Some("h2".to_owned()),
        password: Some("p2".to_owned()),
        username: None,
        hostname: None,
        platform: None,
        alias: Some("b".to_owned()),
        tags: None,
        note: None,
    };
    let personal = update_for_book(BookKind::Personal, update);
    assert_eq!(personal.password, None);
    assert_eq!(personal.hash.as_deref(), Some("h2"));
    let global = update_for_book(BookKind::Global, personal);
    assert_eq!(global.hash, None);
    assert_eq!(global.alias.as_deref(), Some("b"));
}

#[test]
fn anonymous_requests_have_no_bearer_token() {
    assert_eq!(optional_bearer_token(None).unwrap(), None);
    assert_eq!(optional_bearer_token(Some(Some("Bearer t0k"))).unwrap(), Some("t0k".to_owned()));
    assert_eq!(
        optional_bearer_token(Some(Some("Token t0k"))).unwrap_err().message,
        "Invalid bearer token"
    );
}

#[test]
fn lookups_that_find_nothing_get_their_answers() {
    assert_eq!(require_new_username(true).unwrap_err().kind, ErrorKind::Conflict);
    assert!(require_new_username(false).is_ok());
    let taken = require_new_peer(true).unwrap_err();
    assert_eq!(taken.kind, ErrorKind::Conflict);
    assert_eq!(taken.message, "RustDesk ID already exists");
    assert_eq!(require_updated_peer(false).unwrap_err().kind, ErrorKind::NotFound);
    assert!(require_updated_peer(true).is_ok());
    assert_eq!(require_changed_tag(false).unwrap_err().message, "Tag was not found");
    let missing = personal_book(None).unwrap_err();
    assert_eq!(missing.kind, ErrorKind::Internal);
    assert_eq!(missing.kind.status(), 500);
    assert_eq!(personal_book(Some("g".to_owned())).unwrap(), "g");
    assert_eq!(session_user(None).unwrap_err().message, "Session expired or invalid");
    assert_eq!(ErrorKind::BadRequest.status(), 400);
    assert_eq!(ErrorKind::Unauthorized.status(), 401);
    assert_eq!(ErrorKind::Forbidden.status(), 403);
    assert_eq!(ErrorKind::NotFound.status(), 404);
    assert_eq!(ErrorKind::Conflict.status(), 409);
}

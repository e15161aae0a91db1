use rustdesk_account_server::crypto::token_hash;
use rustdesk_account_server::device::{
    device_upsert_action, prepare_device, unshare_action, unshare_token_hash, DeviceAction,
};
use rustdesk_account_server::error::ErrorKind;
use rustdesk_account_server::handlers::DEFAULT_DEVICE_PASSWORD;
use rustdesk_account_server::model::{DeviceUpsertRequest, User};

fn request(password: Option<&str>) -> DeviceUpsertRequest {
    DeviceUpsertRequest {
        id: "123456789".to_owned(),
        alias: "".to_owned(),
        hostname: "desk-host".to_owned(),
        platform: "Linux".to_owned(),
        username: " carol ".to_owned(),
        password: password.map(|p| p.to_owned()),
        share_token: "s".repeat(40),
    }
}

#[test]
fn anonymous_device_uses_host_name_and_default_password() {
    let record = prepare_device(request(None), None).unwrap();
    assert_eq!(record.peer.alias, "desk-host");
    assert_eq!(record.peer.username, "carol");
    assert_eq!(record.peer.password, DEFAULT_DEVICE_PASSWORD);
    assert_eq!(record.announced_password, None);
    assert_eq!(record.token_hash, token_hash(&"s".repeat(40)));
    assert_eq!(record.owner, None);
}

#[test]
fn signed_in_device_uses_account_name() {
    let user = User { id: 4, username: "dave".to_owned(), display_name: "D".to_owned() };
    let record = prepare_device(request(Some("pw")), Some(&user)).unwrap();
    assert_eq!(record.peer.alias, "dave");
    assert_eq!(record.peer.username, "dave");
    assert_eq!(record.peer.password, "pw");
    assert_eq!(record.announced_password.as_deref(), Some("pw"));
    assert_eq!(record.owner, Some(4));
}

#[test]
fn device_announcement_errors() {
    let mut bad_id = request(None);
    bad_id.id = String::new();
    assert_eq!(prepare_device(bad_id, None).unwrap_err().message, "Invalid RustDesk ID");
    let mut bad_token = request(None);
    bad_token.share_token = "short".to_owned();
    assert_eq!(
        prepare_device(bad_token, None).unwrap_err().message,
        "Invalid device share token"
    );
    let mut long_alias = request(None);
    long_alias.alias = "x".repeat(129);
    assert_eq!(
        prepare_device(long_alias, None).unwrap_err().message,
        "Device alias must not exceed 128 characters or contain control characters"
    );
    let mut long_host = request(None);
    long_host.alias = "ok".to_owned();
    long_host.hostname = "h".repeat(256);
    assert_eq!(prepare_device(long_host, None).unwrap_err().message, "Device metadata is too long");
    let long_password = request(Some(&"p".repeat(257)));
    assert_eq!(
        prepare_device(long_password, None).unwrap_err().message,
        "Device password is too long"
    );
}

#[test]
fn new_device_is_inserted_with_its_token() {
    let record = prepare_device(request(None), None).unwrap();
    let hash = record.token_hash.clone();
    match device_upsert_action(record, None).unwrap() {
        DeviceAction::Insert { peer, password, token_hash, owner } => {
            assert_eq!(password, DEFAULT_DEVICE_PASSWORD);
            assert_eq!(peer.id, "123456789");
            assert_eq!(token_hash, hash);
            assert_eq!(owner, None);
        }
        DeviceAction::Update { .. } => panic!("expected an insert"),
    }
}

#[test]
fn listed_device_keeps_password_unless_it_announces_one() {
    let record = prepare_device(request(None), None).unwrap();
    let hash = record.token_hash.clone();
    match device_upsert_action(record, Some(hash.clone())).unwrap() {
        DeviceAction::Update { update, store_token_hash } => {
            assert_eq!(update.password, None);
            assert_eq!(update.alias.as_deref(), Some("desk-host"));
            assert_eq!(update.hash, None);
            assert_eq!(update.tags, None);
            assert_eq!(store_token_hash, None);
        }
        DeviceAction::Insert { .. } => panic!("expected an update"),
    }
    let record = prepare_device(request(Some("new-pw")), None).unwrap();
    let hash = record.token_hash.clone();
    match device_upsert_action(record, Some(String::new())).unwrap() {
        DeviceAction::Update { update, store_token_hash } => {
            assert_eq!(update.password.as_deref(), Some("new-pw"));
            assert_eq!(store_token_hash, Some(hash));
        }
        DeviceAction::Insert { .. } => panic!("expected an update"),
    }
}

#[test]
fn listed_device_with_other_token_is_refused() {
    let record = prepare_device(request(None), None).unwrap();
    let error = device_upsert_action(record, Some("0".repeat(64))).unwrap_err();
    assert_eq!(error.kind, ErrorKind::Unauthorized);
    assert_eq!(error.message, "Device share token does not match");
}

#[test]
fn unsharing_requires_the_stored_token() {
    let token = "t".repeat(48);
    let hash = unshare_token_hash("123", Some(Some(&token))).unwrap();
    assert_eq!(hash, token_hash(&token));
    assert_eq!(unshare_action(None, &hash).unwrap(), false);
    assert_eq!(unshare_action(Some(hash.clone()), &hash).unwrap(), true);
    assert_eq!(
        unshare_action(Some(String::new()), &hash).unwrap_err().kind,
        ErrorKind::Unauthorized
    );
    assert!(unshare_action(Some("f".repeat(64)), &hash).is_err());
    assert_eq!(
        unshare_token_hash("", Some(Some(&token))).unwrap_err().message,
        "Invalid RustDesk ID"
    );
    assert_eq!(
        unshare_token_hash("123", None).unwrap_err().message,
        "Missing device share token"
    );
}

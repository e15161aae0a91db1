use base64::engine::general_purpose::STANDARD;
use base64::Engine;
use rustdesk_account_server::crypto::{Crypto, CryptoError};
use rustdesk_account_server::model::{PeerPayload, PeerUpdate, User};
use rustdesk_account_server::store::{
    book_kind_for_row, global_profile, live_session_user, new_book_guid, merge_peer_update, new_peer_row, parse_tags, peer_from_row,
    personal_book_name, rename_tags, renamed_tag_rows, renamed_tags_json, retain_tags, tag_rows_without,
    tags_json_without, BookKind,
    StoreError, StoredPeer, GLOBAL_BOOK_GUID,
};

fn crypto() -> Crypto {
    Crypto::new(&STANDARD.encode([11_u8; 32])).unwrap()
}

fn strings(items: &[&str]) -> Vec<String> {
    items.iter().map(|s| s.to_string()).collect()
}

#[test]
fn global_book_is_everyones_and_personal_books_their_owners() {
    assert_eq!(book_kind_for_row("global", None, 5), Some(BookKind::Global));
    assert_eq!(book_kind_for_row("global", Some(9), 5), Some(BookKind::Global));
    assert_eq!(book_kind_for_row("personal", Some(5), 5), Some(BookKind::Personal));
    assert_eq!(book_kind_for_row("personal", Some(6), 5), None);
    assert_eq!(book_kind_for_row("personal", None, 5), None);
    assert_eq!(book_kind_for_row("other", Some(5), 5), None);
    assert_eq!(GLOBAL_BOOK_GUID, "global-shared-devices");
}

#[test]
fn global_profile_fields() {
    let profile = global_profile("g".to_owned(), "Shared devices".to_owned());
    assert_eq!(profile.owner, "All accounts");
    assert_eq!(profile.note, "Visible and writable by every signed-in account");
    assert_eq!(profile.rule, 3);
    assert_eq!(profile.name, "Shared devices");
}

#[test]
fn personal_book_names() {
    assert_eq!(personal_book_name(42), "personal-42");
    assert_eq!(personal_book_name(0), "personal-0");
    assert_eq!(personal_book_name(-7), "personal--7");
    assert_eq!(personal_book_name(i64::MIN), "personal--9223372036854775808");
}

#[test]
fn tags_parse_or_default_to_none() {
    assert_eq!(parse_tags(r#"["a","b"]"#), strings(&["a", "b"]));
    assert!(parse_tags("not json").is_empty());
    assert!(parse_tags("[1,2]").is_empty());
}

#[test]
fn renaming_replaces_every_occurrence() {
    let (tags, replaced) = rename_tags(&strings(&["a", "b", "a"]), "a", "c");
    assert_eq!(tags, strings(&["c", "b", "c"]));
    assert!(replaced);
    let (tags, replaced) = rename_tags(&strings(&["x"]), "a", "c");
    assert_eq!(tags, strings(&["x"]));
    assert!(!replaced);
    assert_eq!(
        renamed_tags_json(r#"["a","b"]"#, "a", "z"),
        Some(r#"["z","b"]"#.to_owned())
    );
    assert_eq!(renamed_tags_json(r#"["b"]"#, "a", "z"), None);
    assert_eq!(renamed_tags_json("garbage", "a", "z"), None);
}

#[test]
fn deleting_tags_keeps_the_others_in_order() {
    let kept = retain_tags(&strings(&["a", "b", "c", "b"]), &strings(&["b", "z"]));
    assert_eq!(kept, strings(&["a", "c"]));
    assert_eq!(
        tags_json_without(r#"["a","b"]"#, &strings(&["a"])),
        Some(r#"["b"]"#.to_owned())
    );
    assert_eq!(tags_json_without(r#"["a"]"#, &strings(&["q"])), None);
}

fn listed_peer() -> PeerPayload {
    PeerPayload {
        id: "777".to_owned(),
        hash: "hh".to_owned(),
        password: "ignored".to_owned(),
        username: "bob".to_owned(),
        hostname: "box".to_owned(),
        platform: "Windows".to_owned(),
        alias: "Box".to_owned(),
        tags: strings(&["office"]),
        note: "note".to_owned(),
        same_server: None,
    }
}

#[test]
fn rows_round_trip_through_the_store() {
    let crypto = crypto();
    let row = new_peer_row(&listed_peer(), "device-secret", &crypto).unwrap();
    assert_eq!(row.tags_json, r#"["office"]"#);
    assert_ne!(row.encrypted_password, "device-secret");
    let peer = peer_from_row("777".to_owned(), row, &crypto).unwrap();
    assert_eq!(peer.password, "device-secret");
    assert_eq!(peer.tags, strings(&["office"]));
    assert_eq!(peer.same_server, Some(true));
    assert_eq!(peer.alias, "Box");
}

#[test]
fn unreadable_stored_password_fails_the_row() {
    let row = StoredPeer {
        hash: String::new(),
        encrypted_password: "***".to_owned(),
        username: String::new(),
        hostname: String::new(),
        platform: String::new(),
        alias: String::new(),
        tags_json: "[]".to_owned(),
        note: String::new(),
    };
    assert_eq!(
        peer_from_row("1".to_owned(), row, &crypto()).err(),
        Some(StoreError::Crypto(CryptoError::StoredNotBase64))
    );
}

#[test]
fn updates_replace_only_given_fields() {
    let crypto = crypto();
    let existing = new_peer_row(&listed_peer(), "old", &crypto).unwrap();
    let old_password = existing.encrypted_password.clone();
    let update = PeerUpdate {
        id: "777".to_owned(),
        hash: None,
        password: None,
        username: None,
        hostname: Some("new-box".to_owned()),
        platform: None,
        alias: None,
        tags: Some(strings(&["a", "b"])),
        note: None,
    };
    let merged = merge_peer_update(existing, update, &crypto).unwrap();
    assert_eq!(merged.encrypted_password, old_password);
    assert_eq!(merged.hostname, "new-box");
    assert_eq!(merged.username, "bob");
    assert_eq!(merged.tags_json, r#"["a","b"]"#);
    let update = PeerUpdate {
        id: "777".to_owned(),
        hash: Some("h2".to_owned()),
        password: Some("fresh".to_owned()),
        username: None,
        hostname: None,
        platform: None,
        alias: None,
        tags: None,
        note: None,
    };
    let merged = merge_peer_update(merged, update, &crypto).unwrap();
    assert_eq!(merged.hash, "h2");
    assert_eq!(merged.tags_json, r#"["a","b"]"#);
    let peer = peer_from_row("777".to_owned(), merged, &crypto).unwrap();
    assert_eq!(peer.password, "fresh");
}

#[test]
fn book_guids_are_random_v4_uuids() {
    let guid = new_book_guid();
    assert_eq!(guid.len(), 36);
    let chars: Vec<char> = guid.chars().collect();
    for (i, c) in chars.iter().enumerate() {
        if [8, 13, 18, 23].contains(&i) {
            assert_eq!(*c, '-');
        } else {
            assert!(c.is_ascii_digit() || ('a'..='f').contains(c));
        }
    }
    assert_eq!(chars[14], '4');
    assert!(['8', '9', 'a', 'b'].contains(&chars[19]));
    assert_ne!(guid, new_book_guid());
}

#[test]
fn sessions_count_until_they_expire() {
    let user = || User { id: 1, username: "u".to_owned(), display_name: String::new() };
    assert_eq!(live_session_user(Some((user(), 101)), 100).map(|u| u.id), Some(1));
    assert!(live_session_user(Some((user(), 100)), 100).is_none());
    assert!(live_session_user(None, 100).is_none());
}

fn rows(items: &[(&str, &str)]) -> Vec<(String, String)> {
    items.iter().map(|(id, tags)| (id.to_string(), tags.to_string())).collect()
}

#[test]
fn rename_rewrites_only_devices_holding_the_tag() {
    let stored = rows(&[("1", r#"["a","b"]"#), ("2", r#"["b"]"#), ("3", r#"["a","a"]"#)]);
    assert_eq!(
        renamed_tag_rows(1, &stored, "a", "z"),
        rows(&[("1", r#"["z","b"]"#), ("3", r#"["z","z"]"#)])
    );
}

#[test]
fn rename_of_no_tag_row_rewrites_no_device() {
    let stored = rows(&[("1", r#"["a","b"]"#)]);
    assert!(renamed_tag_rows(0, &stored, "a", "z").is_empty());
}

#[test]
fn deleting_tags_rewrites_only_devices_holding_them() {
    let stored = rows(&[("1", r#"["a","b","c"]"#), ("2", r#"["b"]"#), ("3", "garbage")]);
    assert_eq!(
        tag_rows_without(&stored, &strings(&["a", "c"])),
        rows(&[("1", r#"["b"]"#)])
    );
}

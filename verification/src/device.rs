//! Desktop clients sharing themselves in the global address book.
//!
//! A device announces itself with a share token. The first announcement stores
//! the SHA-256 of the token with the device's entry; from then on only a request
//! carrying the same token may change or remove that entry.

use vstd::prelude::*;
use vstd::utf8::encode_utf8;

use crate::crypto::{sha256, token_hash};
use crate::encoding::hex_lower_spec;
use crate::error::{ApiError, ErrorKind};
use crate::handlers::{
    answers, device_alias, device_alias_spec, device_password, device_share_token, fails_with,
    peer_id_problem, share_token_problem, validate_device_share_token, validate_peer_id,
    DEFAULT_DEVICE_PASSWORD,
};
use crate::model::{DeviceUpsertRequest, PeerPayload, PeerUpdate, User};
use crate::text::{byte_len, has_control, has_control_spec, str_byte_len, trim, trim_spec};

verus! {

broadcast use vstd::string::group_string_axioms;

/// The stored form of a device share token: lowercase hexadecimal SHA-256 of its bytes.
pub open spec fn token_hash_spec(token: Seq<char>) -> Seq<char> {
    hex_lower_spec(sha256(encode_utf8(token)))
}

/// The name of the signed-in account, if any.
pub open spec fn account_name(user: Option<&User>) -> Option<Seq<char>> {
    match user {
        Some(u) => Some(u.username@),
        None => None,
    }
}

/// The password a device announcement asks to store: the one it gives when not
/// empty, else none.
pub open spec fn announced_password(password: Option<String>) -> Option<Seq<char>> {
    match password {
        Some(p) => if p@.len() > 0 {
            Some(p@)
        } else {
            None
        },
        None => None,
    }
}

/// What is wrong with a device announcement, checked in this order: the RustDesk ID,
/// the share token, the listed name (at most 128 bytes, no control character), the
/// host name (at most 255 bytes), platform and user name (at most 128 bytes each),
/// and the password (at most 256 bytes).
pub open spec fn device_problem(request: DeviceUpsertRequest, account: Option<Seq<char>>) -> Option<
    Seq<char>,
> {
    let alias = device_alias_spec(request.alias@, account, request.hostname@, request.id@);
    if peer_id_problem(request.id@) is Some {
        peer_id_problem(request.id@)
    } else if share_token_problem(request.share_token@) is Some {
        share_token_problem(request.share_token@)
    } else if byte_len(alias) > 128 || has_control_spec(alias) {
        Some("Device alias must not exceed 128 characters or contain control characters"@)
    } else if byte_len(request.hostname@) > 255 || byte_len(request.platform@) > 128 || byte_len(
        request.username@,
    ) > 128 {
        Some("Device metadata is too long"@)
    } else if request.password is Some && byte_len(request.password->0@) > 256 {
        Some("Device password is too long"@)
    } else {
        None
    }
}

/// A device announcement that passed validation.
#[derive(Debug)]
pub struct DeviceRecord {
    /// The entry of the device, with the password that a new entry gets.
    pub peer: PeerPayload,
    /// The password that the device announced, when it announced a non-empty one.
    pub announced_password: Option<String>,
    /// The stored form of the device's share token.
    pub token_hash: String,
    /// The signed-in account that announces the device, if any.
    pub owner: Option<i64>,
}

/// The validated announcement of a device by `request`, signed in as `user` or not.
pub fn prepare_device(request: DeviceUpsertRequest, user: Option<&User>) -> (res: Result<
    DeviceRecord,
    ApiError,
>)
    ensures
        answers(res, device_problem(request, account_name(user))),
        res matches Ok(r) ==> {
            &&& r.peer.id == request.id
            &&& r.peer.hash@.len() == 0
            &&& announced_password(request.password) is Some ==> r.peer.password@
                == announced_password(request.password)->0
            &&& announced_password(request.password) is None ==> r.peer.password@
                == DEFAULT_DEVICE_PASSWORD@
            &&& user matches Some(u) ==> r.peer.username@ == u.username@
            &&& user is None ==> r.peer.username@ == trim_spec(request.username@)
            &&& r.peer.hostname == request.hostname
            &&& r.peer.platform == request.platform
            &&& r.peer.alias@ == device_alias_spec(
                request.alias@,
                account_name(user),
                request.hostname@,
                request.id@,
            )
            &&& r.peer.tags@.len() == 0
            &&& r.peer.note@.len() == 0
            &&& r.peer.same_server == Some(true)
            &&& announced_password(request.password) is Some ==> (r.announced_password is Some
                && r.announced_password->0@ == announced_password(request.password)->0)
            &&& announced_password(request.password) is None ==> r.announced_password is None
            &&& r.token_hash@ == token_hash_spec(request.share_token@)
            &&& user matches Some(u) ==> r.owner == Some(u.id)
            &&& user is None ==> r.owner is None
        },
{
    validate_peer_id(request.id.as_str())?;
    validate_device_share_token(request.share_token.as_str())?;
    let alias = device_alias(
        request.alias.as_str(),
        match user {
            Some(u) => Some(u.username.as_str()),
            None => None,
        },
        request.hostname.as_str(),
        request.id.as_str(),
    );
    if str_byte_len(alias.as_str()) > 128 || has_control(alias.as_str()) {
        return Err(
            ApiError::bad_request(
                "Device alias must not exceed 128 characters or contain control characters",
            ),
        );
    }
    if str_byte_len(request.hostname.as_str()) > 255 || str_byte_len(request.platform.as_str())
        > 128 || str_byte_len(request.username.as_str()) > 128 {
        return Err(ApiError::bad_request("Device metadata is too long"));
    }
    let too_long = match &request.password {
        Some(p) => str_byte_len(p.as_str()) > 256,
        None => false,
    };
    if too_long {
        return Err(ApiError::bad_request("Device password is too long"));
    }
    let password = device_password(
        match &request.password {
            Some(p) => Some(p.as_str()),
            None => None,
        },
    ).to_owned();
    let announced = match request.password {
        Some(p) => if p.as_str().is_empty() {
            None
        } else {
            Some(p)
        },
        None => None,
    };
    let peer_username = match user {
        Some(u) => u.username.clone(),
        None => trim(request.username.as_str()),
    };
    let device_token_hash = token_hash(request.share_token.as_str());
    let peer = PeerPayload {
        id: request.id,
        hash: String::new(),
        password,
        username: peer_username,
        hostname: request.hostname,
        platform: request.platform,
        alias,
        tags: Vec::new(),
        note: String::new(),
        same_server: Some(true),
    };
    Ok(
        DeviceRecord {
            peer,
            announced_password: announced,
            token_hash: device_token_hash,
            owner: match user {
                Some(u) => Some(u.id),
                None => None,
            },
        },
    )
}

/// What announcing a device does to the global address book.
#[derive(Debug)]
pub enum DeviceAction {
    /// The device is listed: change its entry, and store the token hash where the
    /// entry has none yet.
    Update { update: PeerUpdate, store_token_hash: Option<String> },
    /// The device is new: add its entry, owned by the signed-in account, or by the
    /// service's own account where no one is signed in.
    Insert { peer: PeerPayload, password: String, token_hash: String, owner: Option<i64> },
}

/// What announcing the validated device does, given the token hash stored with its
/// entry (`None` where the book does not list it; empty where no token was stored).
/// A listed device with a stored token is only changed under the same token; the
/// change keeps the stored password unless the device announced a new one.
pub fn device_upsert_action(record: DeviceRecord, stored_token_hash: Option<String>) -> (res: Result<
    DeviceAction,
    ApiError,
>)
    ensures
        stored_token_hash matches Some(s) ==> (s@.len() > 0 && s@ != record.token_hash@
            ==> fails_with(res, ErrorKind::Unauthorized, "Device share token does not match"@)),
        stored_token_hash matches Some(s) ==> ((s@.len() == 0 || s@ == record.token_hash@) ==> (
        res matches Ok(DeviceAction::Update { update, store_token_hash }) && {
            &&& update.id == record.peer.id
            &&& update.hash is None
            &&& update.password == record.announced_password
            &&& update.username == Some(record.peer.username)
            &&& update.hostname == Some(record.peer.hostname)
            &&& update.platform == Some(record.peer.platform)
            &&& update.alias == Some(record.peer.alias)
            &&& update.tags is None
            &&& update.note is None
            &&& s@.len() == 0 ==> store_token_hash == Some(record.token_hash)
            &&& s@.len() > 0 ==> store_token_hash is None
        })),
        stored_token_hash is None ==> (res matches Ok(
            DeviceAction::Insert { peer, password, token_hash, owner },
        ) && peer == record.peer && password == record.peer.password && token_hash
            == record.token_hash && owner == record.owner),
{
    match stored_token_hash {
        Some(stored) => {
            if !stored.as_str().is_empty() && stored != record.token_hash {
                return Err(ApiError::unauthorized("Device share token does not match"));
            }
            let store_token_hash = if stored.as_str().is_empty() {
                Some(record.token_hash)
            } else {
                None
            };
            Ok(
                DeviceAction::Update {
                    update: PeerUpdate {
                        id: record.peer.id,
                        hash: None,
                        password: record.announced_password,
                        username: Some(record.peer.username),
                        hostname: Some(record.peer.hostname),
                        platform: Some(record.peer.platform),
                        alias: Some(record.peer.alias),
                        tags: None,
                        note: None,
                    },
                    store_token_hash,
                },
            )
        },
        None => {
            let password = record.peer.password.clone();
            Ok(
                DeviceAction::Insert {
                    peer: record.peer,
                    password,
                    token_hash: record.token_hash,
                    owner: record.owner,
                },
            )
        },
    }
}

/// The stored form of the share token that a request to stop sharing device
/// `peer_id` carries in its `x-device-share-token` header (absent, not visible
/// ASCII, or its text).
pub fn unshare_token_hash(peer_id: &str, header: Option<Option<&str>>) -> (res: Result<
    String,
    ApiError,
>)
    ensures
        peer_id_problem(peer_id@) is Some ==> answers(res, peer_id_problem(peer_id@)),
        peer_id_problem(peer_id@) is None && header is None ==> fails_with(
            res,
            ErrorKind::Unauthorized,
            "Missing device share token"@,
        ),
        peer_id_problem(peer_id@) is None && header == Some(None::<&str>) ==> fails_with(
            res,
            ErrorKind::Unauthorized,
            "Invalid device share token"@,
        ),
        peer_id_problem(peer_id@) is None ==> (header matches Some(Some(v)) ==> (answers(
            res,
            share_token_problem(v@),
        ) && (res is Ok ==> res->Ok_0@ == token_hash_spec(v@)))),
{
    validate_peer_id(peer_id)?;
    let token = device_share_token(header)?;
    Ok(token_hash(token.as_str()))
}

/// Whether to remove a shared device, given the token hash stored with its entry
/// (`None` where it is not listed, and nothing is removed) and the hash of the token
/// that the request carries: only an entry with a stored token, and the same one, is
/// removed.
pub fn unshare_action(stored_token_hash: Option<String>, requested_hash: &str) -> (res: Result<
    bool,
    ApiError,
>)
    ensures
        stored_token_hash is None ==> res == Ok::<bool, ApiError>(false),
        stored_token_hash matches Some(s) ==> ((s@.len() == 0 || s@ != requested_hash@)
            ==> fails_with(res, ErrorKind::Unauthorized, "Device share token does not match"@)),
        stored_token_hash matches Some(s) ==> ((s@.len() > 0 && s@ == requested_hash@) ==> res
            == Ok::<bool, ApiError>(true)),
{
    match stored_token_hash {
        None => Ok(false),
        Some(stored) => {
            if stored.as_str().is_empty() || !crate::text::str_eq(stored.as_str(), requested_hash) {
                return Err(ApiError::unauthorized("Device share token does not match"));
            }
            Ok(true)
        },
    }
}

} // verus!

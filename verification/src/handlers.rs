//! The rules of the HTTP API: what each request must satisfy, and what is
//! answered. The handlers of the server read requests and the database, and
//! ask these functions what to do.

use vstd::prelude::*;

use crate::crypto::{argon2_verifies, verify_password};
use crate::error::{is_api_error, ApiError, ErrorKind};
use crate::model::{
    AddressBookProfile, LoginResponse, Page, PeerPayload, PeerUpdate, RegisterRequest, User,
    UserPayload,
};
use crate::store::BookKind;
use crate::text::{
    byte_len, has_control, has_control_spec, is_ascii_alphanumeric, is_ascii_alphanumeric_spec,
    chars_of, str_byte_len, strip_prefix, trim, trim_spec,
};

verus! {

broadcast use vstd::string::group_string_axioms;

/// The password that a shared device gets when it announces none.
pub const DEFAULT_DEVICE_PASSWORD: &'static str = "Zdrive-2026";

/// The view of an optional string.
pub open spec fn opt_str(o: Option<&str>) -> Option<Seq<char>> {
    match o {
        Some(s) => Some(s@),
        None => None,
    }
}

/// Whether `res` is the error of class `kind` with message `message`.
pub open spec fn fails_with<T>(res: Result<T, ApiError>, kind: ErrorKind, message: Seq<char>) -> bool {
    res matches Err(e) && is_api_error(e, kind, message)
}

/// Whether `res` is a bad request with the message of `problem`, or success where
/// there is no problem.
pub open spec fn answers<T>(res: Result<T, ApiError>, problem: Option<Seq<char>>) -> bool {
    match problem {
        None => res is Ok,
        Some(message) => fails_with(res, ErrorKind::BadRequest, message),
    }
}

/// The name a shared device is listed under: the requested alias, else the
/// signed-in account's name, else the host name, each trimmed and if not blank;
/// else the RustDesk ID.
pub open spec fn device_alias_spec(
    requested: Seq<char>,
    username: Option<Seq<char>>,
    hostname: Seq<char>,
    peer_id: Seq<char>,
) -> Seq<char> {
    if trim_spec(requested).len() > 0 {
        trim_spec(requested)
    } else if username is Some && trim_spec(username->0).len() > 0 {
        trim_spec(username->0)
    } else if trim_spec(hostname).len() > 0 {
        trim_spec(hostname)
    } else {
        peer_id
    }
}

/// The name a shared device is listed under (see `device_alias_spec`).
pub fn device_alias(requested: &str, username: Option<&str>, hostname: &str, peer_id: &str) -> (res:
    String)
    ensures
        res@ == device_alias_spec(requested@, opt_str(username), hostname@, peer_id@),
{
    let requested = trim(requested);
    if !requested.as_str().is_empty() {
        return requested;
    }
    if let Some(username) = username {
        let username = trim(username);
        if !username.as_str().is_empty() {
            return username;
        }
    }
    let hostname = trim(hostname);
    if !hostname.as_str().is_empty() {
        return hostname;
    }
    peer_id.to_owned()
}

/// The password of a shared device: the one requested when it is not empty,
/// else the default device password.
pub fn device_password<'a>(requested: Option<&'a str>) -> (res: &'a str)
    ensures
        requested is Some && requested->0@.len() > 0 ==> res@ == requested->0@,
        !(requested is Some && requested->0@.len() > 0) ==> res@ == DEFAULT_DEVICE_PASSWORD@,
{
    match requested {
        Some(value) if !value.is_empty() => value,
        _ => DEFAULT_DEVICE_PASSWORD,
    }
}

/// An internal error carrying the message of what failed.
pub fn internal(message: &str) -> (e: ApiError)
    ensures
        is_api_error(e, ErrorKind::Internal, message@),
{
    ApiError::internal(message)
}

/// What is wrong with a device share token: it must hold 32 to 256 bytes and no
/// control character.
pub open spec fn share_token_problem(token: Seq<char>) -> Option<Seq<char>> {
    if !(32 <= byte_len(token) <= 256) || has_control_spec(token) {
        Some("Invalid device share token"@)
    } else {
        None
    }
}

pub fn validate_device_share_token(token: &str) -> (res: Result<(), ApiError>)
    ensures
        answers(res, share_token_problem(token@)),
{
    let len = str_byte_len(token);
    if !(32 <= len && len <= 256) || has_control(token) {
        return Err(ApiError::bad_request("Invalid device share token"));
    }
    Ok(())
}

/// The characters allowed in a user name.
pub open spec fn username_char(c: char) -> bool {
    is_ascii_alphanumeric_spec(c) || c == '.' || c == '_' || c == '-'
}

/// What is wrong with a user name: it must hold 3 to 64 bytes, all of them
/// ASCII letters, digits, dots, underscores or hyphens.
pub open spec fn username_problem(username: Seq<char>) -> Option<Seq<char>> {
    if !(3 <= byte_len(username) <= 64) {
        Some("Username must contain between 3 and 64 characters"@)
    } else if !(forall|i: int| 0 <= i < username.len() ==> username_char(#[trigger] username[i])) {
        Some("Username may only contain letters, numbers, dot, underscore, and hyphen"@)
    } else {
        None
    }
}

/// A user name of 3 to 64 bytes is accepted exactly when each of its characters is
/// an ASCII letter of either case, an ASCII digit, a dot, an underscore or a hyphen.
pub proof fn usernames_allow_letters_digits_and_three_marks(username: Seq<char>)
    requires
        3 <= byte_len(username) <= 64,
    ensures
        username_problem(username) is None <==> (forall|i: int|
            0 <= i < username.len() ==> {
                let c = #[trigger] username[i];
                ||| 'a' <= c <= 'z'
                ||| 'A' <= c <= 'Z'
                ||| '0' <= c <= '9'
                ||| c == '.'
                ||| c == '_'
                ||| c == '-'
            }),
        forall|c: char| 'A' <= c <= 'Z' ==> username_char(c),
        forall|c: char| 'a' <= c <= 'z' ==> username_char(c),
{
}

pub fn validate_username(username: &str) -> (res: Result<(), ApiError>)
    ensures
        answers(res, username_problem(username@)),
        3 <= byte_len(username@) <= 64 ==> (res is Ok <==> forall|i: int|
            0 <= i < username@.len() ==> {
                let c = #[trigger] username@[i];
                ||| 'a' <= c <= 'z'
                ||| 'A' <= c <= 'Z'
                ||| '0' <= c <= '9'
                ||| c == '.'
                ||| c == '_'
                ||| c == '-'
            }),
{
    proof {
        if 3 <= byte_len(username@) <= 64 {
            usernames_allow_letters_digits_and_three_marks(username@);
        }
    }
    let len = str_byte_len(username);
    if !(3 <= len && len <= 64) {
        return Err(ApiError::bad_request("Username must contain between 3 and 64 characters"));
    }
    let chars = chars_of(username);
    let mut i: usize = 0;
    while i < chars.len()
        invariant
            i <= chars@.len(),
            chars@ == username@,
            3 <= byte_len(username@) <= 64,
            forall|k: int| 0 <= k < i ==> username_char(#[trigger] chars@[k]),
        decreases chars@.len() - i,
    {
        let c = chars[i];
        if !(is_ascii_alphanumeric(c) || c == '.' || c == '_' || c == '-') {
            assert(!username_char(username@[i as int]));
            return Err(
                ApiError::bad_request(
                    "Username may only contain letters, numbers, dot, underscore, and hyphen",
                ),
            );
        }
        i = i + 1;
    }
    Ok(())
}

/// What is wrong with a password: it must hold 8 to 256 bytes.
pub open spec fn password_problem(password: Seq<char>) -> Option<Seq<char>> {
    if byte_len(password) < 8 || byte_len(password) > 256 {
        Some("Password must contain between 8 and 256 characters"@)
    } else {
        None
    }
}

pub fn validate_password(password: &str) -> (res: Result<(), ApiError>)
    ensures
        answers(res, password_problem(password@)),
{
    let len = str_byte_len(password);
    if len < 8 || len > 256 {
        return Err(ApiError::bad_request("Password must contain between 8 and 256 characters"));
    }
    Ok(())
}

/// What is wrong with a RustDesk ID: it must be non-empty, hold at most 64 bytes
/// and no control character.
pub open spec fn peer_id_problem(peer_id: Seq<char>) -> Option<Seq<char>> {
    if peer_id.len() == 0 || byte_len(peer_id) > 64 || has_control_spec(peer_id) {
        Some("Invalid RustDesk ID"@)
    } else {
        None
    }
}

pub fn validate_peer_id(peer_id: &str) -> (res: Result<(), ApiError>)
    ensures
        answers(res, peer_id_problem(peer_id@)),
{
    if peer_id.is_empty() || str_byte_len(peer_id) > 64 || has_control(peer_id) {
        return Err(ApiError::bad_request("Invalid RustDesk ID"));
    }
    Ok(())
}

/// What is wrong with a tag name: it must not be blank and hold at most 64 bytes.
pub open spec fn tag_name_problem(name: Seq<char>) -> Option<Seq<char>> {
    if trim_spec(name).len() == 0 || byte_len(name) > 64 {
        Some("Invalid tag name"@)
    } else {
        None
    }
}

pub fn validate_tag_name(name: &str) -> (res: Result<(), ApiError>)
    ensures
        answers(res, tag_name_problem(name@)),
{
    let trimmed = trim(name);
    if trimmed.as_str().is_empty() || str_byte_len(name) > 64 {
        return Err(ApiError::bad_request("Invalid tag name"));
    }
    Ok(())
}

/// The token of an `Authorization` header of the form `Bearer <token>`.
pub open spec fn bearer_of(value: Seq<char>) -> Option<Seq<char>> {
    let prefix = "Bearer "@;
    if value.len() > prefix.len() && value.take(prefix.len() as int) == prefix {
        Some(value.skip(prefix.len() as int))
    } else {
        None
    }
}

/// A header `Bearer <t>` with `t` not empty carries exactly the token `t`, no
/// character of it removed or changed, and a header carries a token only in that form.
pub proof fn bearer_header_carries_its_token_unchanged(t: Seq<char>, value: Seq<char>)
    ensures
        t.len() > 0 ==> bearer_of("Bearer "@ + t) == Some(t),
        bearer_of(value) matches Some(token) ==> token.len() > 0 && value == "Bearer "@ + token,
{
    reveal_strlit("Bearer ");
    let prefix = "Bearer "@;
    if t.len() > 0 {
        let v = prefix + t;
        assert(v.take(prefix.len() as int) =~= prefix);
        assert(v.skip(prefix.len() as int) =~= t);
    }
    if bearer_of(value) is Some {
        assert(value =~= value.take(prefix.len() as int) + value.skip(prefix.len() as int));
    }
}

/// The bearer token of a request. `header` is the `Authorization` header: absent,
/// present but not visible ASCII, or its text.
pub fn bearer_token(header: Option<Option<&str>>) -> (res: Result<String, ApiError>)
    ensures
        header is None ==> fails_with(res, ErrorKind::Unauthorized, "Missing bearer token"@),
        header == Some(None::<&str>) ==> fails_with(
            res,
            ErrorKind::Unauthorized,
            "Invalid authorization header"@,
        ),
        header matches Some(Some(v)) ==> (bearer_of(v@) is None ==> fails_with(
            res,
            ErrorKind::Unauthorized,
            "Invalid bearer token"@,
        )),
        header matches Some(Some(v)) ==> (bearer_of(v@) is Some ==> (res matches Ok(t) && t@
            == bearer_of(v@)->0)),
        header matches Some(Some(v)) ==> (res matches Ok(t) ==> t@.len() > 0 && v@ == "Bearer "@
            + t@),
{
    proof {
        if let Some(Some(v)) = header {
            bearer_header_carries_its_token_unchanged(v@, v@);
        }
    }
    match header {
        None => Err(ApiError::unauthorized("Missing bearer token")),
        Some(None) => Err(ApiError::unauthorized("Invalid authorization header")),
        Some(Some(value)) => match strip_prefix(value, "Bearer ") {
            Some(token) => {
                if token.as_str().is_empty() {
                    Err(ApiError::unauthorized("Invalid bearer token"))
                } else {
                    Ok(token)
                }
            },
            None => Err(ApiError::unauthorized("Invalid bearer token")),
        },
    }
}

/// The bearer token of a request that may be anonymous: none where it has no
/// `Authorization` header; otherwise the header must hold a bearer token.
pub fn optional_bearer_token(header: Option<Option<&str>>) -> (res: Result<Option<String>, ApiError>)
    ensures
        header is None ==> res matches Ok(None),
        header == Some(None::<&str>) ==> fails_with(
            res,
            ErrorKind::Unauthorized,
            "Invalid authorization header"@,
        ),
        header matches Some(Some(v)) ==> (bearer_of(v@) is None ==> fails_with(
            res,
            ErrorKind::Unauthorized,
            "Invalid bearer token"@,
        )),
        header matches Some(Some(v)) ==> (bearer_of(v@) is Some ==> (res matches Ok(Some(t))
            && t@ == bearer_of(v@)->0)),
{
    if header.is_none() {
        return Ok(None);
    }
    let token = bearer_token(header)?;
    Ok(Some(token))
}

/// The device share token of a request, from its `x-device-share-token` header:
/// absent, present but not visible ASCII, or its text.
pub fn device_share_token(header: Option<Option<&str>>) -> (res: Result<String, ApiError>)
    ensures
        header is None ==> fails_with(res, ErrorKind::Unauthorized, "Missing device share token"@),
        header == Some(None::<&str>) ==> fails_with(
            res,
            ErrorKind::Unauthorized,
            "Invalid device share token"@,
        ),
        header matches Some(Some(v)) ==> answers(res, share_token_problem(v@)),
        header matches Some(Some(v)) ==> (res is Ok ==> res->Ok_0@ == v@),
{
    match header {
        None => Err(ApiError::unauthorized("Missing device share token")),
        Some(None) => Err(ApiError::unauthorized("Invalid device share token")),
        Some(Some(token)) => {
            validate_device_share_token(token)?;
            Ok(token.to_owned())
        },
    }
}

/// The account of a session lookup; no account means the session expired or never was.
pub fn session_user(found: Option<User>) -> (res: Result<User, ApiError>)
    ensures
        found is None ==> fails_with(res, ErrorKind::Unauthorized, "Session expired or invalid"@),
        found matches Some(u) ==> (res matches Ok(v) && v == u),
{
    match found {
        Some(user) => Ok(user),
        None => Err(ApiError::unauthorized("Session expired or invalid")),
    }
}

/// The kind of an address book an account may use; none means it may not.
pub fn accessible_book(kind: Option<BookKind>) -> (res: Result<BookKind, ApiError>)
    ensures
        kind is None ==> fails_with(res, ErrorKind::Forbidden, "Address book is not accessible"@),
        kind matches Some(k) ==> (res matches Ok(v) && v == k),
{
    match kind {
        Some(kind) => Ok(kind),
        None => Err(ApiError::forbidden("Address book is not accessible")),
    }
}

/// Why a registration is refused, class and message, checked in this order:
/// registration disabled, user name, password, display name longer than 128 bytes.
/// The user name and display name are taken trimmed.
pub open spec fn registration_problem(
    allow_registration: bool,
    username: Seq<char>,
    password: Seq<char>,
    display_name: Seq<char>,
) -> Option<(ErrorKind, Seq<char>)> {
    if !allow_registration {
        Some((ErrorKind::Forbidden, "Registration is disabled"@))
    } else if username_problem(trim_spec(username)) is Some {
        Some((ErrorKind::BadRequest, username_problem(trim_spec(username))->0))
    } else if password_problem(password) is Some {
        Some((ErrorKind::BadRequest, password_problem(password)->0))
    } else if byte_len(trim_spec(display_name)) > 128 {
        Some((ErrorKind::BadRequest, "Display name is too long"@))
    } else {
        None
    }
}

/// The trimmed user name and display name of an acceptable registration.
pub fn registration_fields(allow_registration: bool, request: &RegisterRequest) -> (res: Result<
    (String, String),
    ApiError,
>)
    ensures
        res is Ok <==> registration_problem(
            allow_registration,
            request.username@,
            request.password@,
            request.display_name@,
        ) is None,
        res matches Ok(fields) ==> fields.0@ == trim_spec(request.username@) && fields.1@
            == trim_spec(request.display_name@),
        res matches Err(e) ==> registration_problem(
            allow_registration,
            request.username@,
            request.password@,
            request.display_name@,
        ) == Some((e.kind, e.message@)),
{
    if !allow_registration {
        return Err(ApiError::forbidden("Registration is disabled"));
    }
    let username = trim(request.username.as_str());
    let display_name = trim(request.display_name.as_str());
    validate_username(username.as_str())?;
    validate_password(request.password.as_str())?;
    if str_byte_len(display_name.as_str()) > 128 {
        return Err(ApiError::bad_request("Display name is too long"));
    }
    Ok((username, display_name))
}

/// A registration under a name that is already taken is a conflict.
pub fn require_new_username(exists: bool) -> (res: Result<(), ApiError>)
    ensures
        exists ==> fails_with(res, ErrorKind::Conflict, "Username already exists"@),
        !exists ==> res is Ok,
{
    if exists {
        return Err(ApiError::conflict("Username already exists"));
    }
    Ok(())
}

/// The account that signs in: the one found under the user name, when the password
/// matches its stored hash. Either failure gets the same answer.
pub fn login_user(record: Option<(User, String)>, password: &str) -> (res: Result<User, ApiError>)
    ensures
        res is Ok <==> (record matches Some(r) && argon2_verifies(password@, r.1@)),
        res matches Ok(u) ==> (record matches Some(r) && u == r.0),
        res is Err ==> fails_with(res, ErrorKind::Unauthorized, "Invalid username or password"@),
{
    match record {
        None => Err(ApiError::unauthorized("Invalid username or password")),
        Some((user, password_hash)) => {
            if !verify_password(password, password_hash.as_str()) {
                return Err(ApiError::unauthorized("Invalid username or password"));
            }
            Ok(user)
        },
    }
}

/// The answer to a successful sign-in or registration.
pub fn login_response(token: String, user: &User) -> (res: LoginResponse)
    ensures
        res.access_token == token,
        res.token_type@ == "access_token"@,
        res.user.name@ == user.username@,
        res.user.display_name@ == user.display_name@,
        res.user.avatar@.len() == 0,
        res.user.email@.len() == 0,
        res.user.note@.len() == 0,
        res.user.status == 1,
        !res.user.is_admin,
{
    LoginResponse {
        access_token: token,
        token_type: "access_token".to_owned(),
        user: UserPayload::from_user(user),
    }
}

/// When a session issued at `now` expires.
pub fn session_expiry(now: i64, lifetime_seconds: i64) -> (res: i64)
    requires
        i64::MIN <= now + lifetime_seconds <= i64::MAX,
    ensures
        res == now + lifetime_seconds,
{
    now + lifetime_seconds
}

/// The personal address book of an account, which registration always creates.
pub fn personal_book(guid: Option<String>) -> (res: Result<String, ApiError>)
    ensures
        guid is None ==> fails_with(res, ErrorKind::Internal, "personal address book is missing"@),
        guid matches Some(g) ==> (res matches Ok(v) && v == g),
{
    match guid {
        Some(guid) => Ok(guid),
        None => Err(ApiError::internal("personal address book is missing")),
    }
}

/// The listing of shared address books: the global book, which is on the first page only.
pub fn shared_profiles_page(profile: AddressBookProfile, current: u32) -> (res: Page<
    AddressBookProfile,
>)
    ensures
        res.total == 1,
        current <= 1 ==> res.data@ == seq![profile],
        current > 1 ==> res.data@.len() == 0,
{
    let mut data: Vec<AddressBookProfile> = Vec::new();
    if current <= 1 {
        data.push(profile);
    }
    Page { total: 1, data }
}

/// A listing of devices must name its address book.
pub fn require_address_book(ab: &str) -> (res: Result<(), ApiError>)
    ensures
        ab@.len() == 0 ==> fails_with(res, ErrorKind::BadRequest, "Missing address book"@),
        ab@.len() > 0 ==> res is Ok,
{
    if ab.is_empty() {
        return Err(ApiError::bad_request("Missing address book"));
    }
    Ok(())
}

/// Adding a device that the book already lists is a conflict.
pub fn require_new_peer(exists: bool) -> (res: Result<(), ApiError>)
    ensures
        exists ==> fails_with(res, ErrorKind::Conflict, "RustDesk ID already exists"@),
        !exists ==> res is Ok,
{
    if exists {
        return Err(ApiError::conflict("RustDesk ID already exists"));
    }
    Ok(())
}

/// Updating a device that the book does not list is not found.
pub fn require_updated_peer(updated: bool) -> (res: Result<(), ApiError>)
    ensures
        !updated ==> fails_with(res, ErrorKind::NotFound, "RustDesk ID was not found"@),
        updated ==> res is Ok,
{
    if !updated {
        return Err(ApiError::not_found("RustDesk ID was not found"));
    }
    Ok(())
}

/// Changing a tag that the book does not have is not found.
pub fn require_changed_tag(changed: bool) -> (res: Result<(), ApiError>)
    ensures
        !changed ==> fails_with(res, ErrorKind::NotFound, "Tag was not found"@),
        changed ==> res is Ok,
{
    if !changed {
        return Err(ApiError::not_found("Tag was not found"));
    }
    Ok(())
}

/// A device added to a book, and the password stored for it: the global book keeps
/// the shared password, a personal book stores none.
pub fn peer_for_book(kind: BookKind, peer: PeerPayload) -> (res: (PeerPayload, String))
    ensures
        kind == BookKind::Global ==> res.0 == peer && res.1@ == peer.password@,
        kind == BookKind::Personal ==> res.0 == (PeerPayload { password: res.0.password, ..peer })
            && res.0.password@.len() == 0 && res.1@.len() == 0,
{
    let mut peer = peer;
    if kind == BookKind::Global {
        let password = peer.password.clone();
        (peer, password)
    } else {
        peer.password = String::new();
        (peer, String::new())
    }
}

/// A change to a device of a book: a personal book stores no password, and the
/// global book keeps its hashes.
pub fn update_for_book(kind: BookKind, update: PeerUpdate) -> (res: PeerUpdate)
    ensures
        kind == BookKind::Personal ==> res == (PeerUpdate { password: None, ..update }),
        kind == BookKind::Global ==> res == (PeerUpdate { hash: None, ..update }),
{
    let mut update = update;
    if kind == BookKind::Personal {
        update.password = None;
    } else {
        update.hash = None;
    }
    update
}

} // verus!

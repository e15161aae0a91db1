//! What the database stores and how rows become records and back: address book
//! access, device rows with sealed passwords and JSON tag lists, and the changes
//! that renaming and deleting tags make to the tag lists of devices.

use vstd::prelude::*;

use crate::crypto::{aes_gcm_max_plaintext, sealed, unseal, Crypto, CryptoError};
use crate::model::{AddressBookProfile, PeerPayload, PeerUpdate, User};
use crate::text::{byte_len, push_char, str_eq};

verus! {

broadcast use vstd::string::group_string_axioms;

/// The guid of the address book that every account shares.
pub const GLOBAL_BOOK_GUID: &'static str = "global-shared-devices";

/// The tag list that a JSON text denotes, where it is a JSON array of strings.
pub uninterp spec fn json_string_array(text: Seq<char>) -> Option<Seq<Seq<char>>>;

/// The JSON text that `serde_json::to_string` writes for a list of strings.
pub uninterp spec fn json_of_strings(items: Seq<Seq<char>>) -> Seq<char>;

/// `serde_json::from_str::<Vec<String>>`: the strings of a JSON array of strings.
/// The text that `serde_json::to_string` wrote for a list of strings reads back as
/// that list.
#[verifier::external_body]
fn parse_string_array(text: &str) -> (res: Option<Vec<String>>)
    ensures
        res is None <==> json_string_array(text@) is None,
        res is Some ==> res->Some_0.deep_view() == json_string_array(text@)->0,
        forall|items: Seq<Seq<char>>|
            text@ == #[trigger] json_of_strings(items) ==> (res is Some && res->Some_0.deep_view()
                == items),
{
    serde_json::from_str::<Vec<String>>(text).ok()
}

/// `serde_json::to_string` of a list of strings. It fails only where a `Serialize`
/// impl fails or a map has keys that are not strings, so a list of strings always
/// serialises; the arm for its error is never taken.
#[verifier::external_body]
fn string_array_json(items: &Vec<String>) -> (res: String)
    ensures
        res@ == json_of_strings(items.deep_view()),
{
    match serde_json::to_string(items) {
        Ok(text) => text,
        Err(_) => String::new(),
    }
}

/// The tags that a stored tag list holds; a list that does not parse holds none.
pub open spec fn tags_of(text: Seq<char>) -> Seq<Seq<char>> {
    match json_string_array(text) {
        Some(tags) => tags,
        None => seq![],
    }
}

/// The tags of a stored tag list (none where it does not parse). A list written
/// by `serde_json::to_string` reads back as itself.
pub fn parse_tags(text: &str) -> (res: Vec<String>)
    ensures
        res.deep_view() == tags_of(text@),
        forall|items: Seq<Seq<char>>|
            text@ == #[trigger] json_of_strings(items) ==> res.deep_view() == items,
{
    match parse_string_array(text) {
        Some(tags) => tags,
        None => {
            let empty: Vec<String> = Vec::new();
            assert(empty.deep_view() =~= seq![]);
            empty
        },
    }
}

/// Why the store could not build a row or a record.
#[derive(Debug, Clone, Copy, PartialEq, Eq, Structural)]
pub enum StoreError {
    /// A password could not be sealed or a stored one opened.
    Crypto(CryptoError),
}

/// The kind of an address book.
#[derive(Debug, Clone, Copy, PartialEq, Eq, Structural)]
pub enum BookKind {
    Personal,
    Global,
}

/// How an account may use a book whose row has `kind` and `owner`: every account
/// uses the global book; a personal book only its owner; otherwise not at all.
pub open spec fn book_kind_spec(kind: Seq<char>, owner: Option<i64>, user_id: i64) -> Option<
    BookKind,
> {
    if kind == "global"@ {
        Some(BookKind::Global)
    } else if kind == "personal"@ && owner == Some(user_id) {
        Some(BookKind::Personal)
    } else {
        None
    }
}

/// Every signed-in account has full use of the global book, and a personal book is
/// open to its owner alone.
pub proof fn global_book_is_shared_and_personal_books_are_private(
    owner: Option<i64>,
    user_id: i64,
)
    ensures
        book_kind_spec("global"@, owner, user_id) == Some(BookKind::Global),
        book_kind_spec("personal"@, owner, user_id) is Some <==> owner == Some(user_id),
{
    reveal_strlit("global");
    reveal_strlit("personal");
    assert("personal"@.len() != "global"@.len());
}

/// How account `user_id` may use the book whose row has `kind` and `owner`.
pub fn book_kind_for_row(kind: &str, owner: Option<i64>, user_id: i64) -> (res: Option<BookKind>)
    ensures
        res == book_kind_spec(kind@, owner, user_id),
{
    if str_eq(kind, "global") {
        Some(BookKind::Global)
    } else if str_eq(kind, "personal") && owner == Some(user_id) {
        Some(BookKind::Personal)
    } else {
        None
    }
}

/// The profile of the global book, from its row's guid and name.
pub fn global_profile(guid: String, name: String) -> (res: AddressBookProfile)
    ensures
        res.guid == guid,
        res.name == name,
        res.owner@ == "All accounts"@,
        res.note@ == "Visible and writable by every signed-in account"@,
        res.rule == 3,
{
    AddressBookProfile {
        guid,
        name,
        owner: "All accounts".to_owned(),
        note: "Visible and writable by every signed-in account".to_owned(),
        rule: 3,
    }
}

/// The decimal digits of a natural number, most significant first.
pub open spec fn decimal_digits(n: nat) -> Seq<char>
    decreases n,
{
    if n < 10 {
        seq![(n + 48) as char]
    } else {
        decimal_digits(n / 10) + seq![((n % 10) + 48) as char]
    }
}

/// An integer as `format!("{}")` writes it.
pub open spec fn decimal(n: int) -> Seq<char> {
    if n < 0 {
        seq!['-'] + decimal_digits((-n) as nat)
    } else {
        decimal_digits(n as nat)
    }
}

fn push_decimal_digits(s: &mut String, n: u64)
    ensures
        final(s)@ == old(s)@ + decimal_digits(n as nat),
    decreases n,
{
    if n >= 10 {
        push_decimal_digits(s, n / 10);
    }
    let d = (n % 10) as u8;
    push_char(s, (d + 48) as char);
    proof {
        assert(n % 10 == d);
    }
}

/// The name of the personal book of account `user_id`: `personal-` and the id.
pub fn personal_book_name(user_id: i64) -> (res: String)
    ensures
        res@ == "personal-"@ + decimal(user_id as int),
{
    let mut name = "personal-".to_owned();
    if user_id < 0 {
        push_char(&mut name, '-');
        let magnitude: u64 = if user_id == i64::MIN {
            9223372036854775808u64
        } else {
            (-user_id) as u64
        };
        push_decimal_digits(&mut name, magnitude);
        assert(name@ =~= "personal-"@ + decimal(user_id as int));
    } else {
        push_decimal_digits(&mut name, user_id as u64);
    }
    name
}

/// The account of a session found under a token's hash, with the session's expiry:
/// a session counts until the second it expires.
pub fn live_session_user(found: Option<(User, i64)>, now: i64) -> (res: Option<User>)
    ensures
        found matches Some(s) ==> (s.1 > now ==> res == Some(s.0)),
        found matches Some(s) ==> (s.1 <= now ==> res is None),
        found is None ==> res is None,
{
    match found {
        Some((user, expires_at)) => if expires_at > now {
            Some(user)
        } else {
            None
        },
        None => None,
    }
}

/// A lowercase hexadecimal digit.
pub open spec fn is_lower_hex_digit(c: char) -> bool {
    ('0' <= c && c <= '9') || ('a' <= c && c <= 'f')
}

/// The hyphenated lowercase text of a random (version 4, RFC 4122 variant) UUID.
pub open spec fn is_uuid_v4_text(s: Seq<char>) -> bool {
    &&& s.len() == 36
    &&& forall|i: int|
        0 <= i < 36 ==> if i == 8 || i == 13 || i == 18 || i == 23 {
            #[trigger] s[i] == '-'
        } else {
            is_lower_hex_digit(s[i])
        }
    &&& s[14] == '4'
    &&& (s[19] == '8' || s[19] == '9' || s[19] == 'a' || s[19] == 'b')
}

/// `Uuid::new_v4().to_string()`: a random UUID in hyphenated lowercase form. Which
/// UUID is random; only its form is stated.
#[verifier::external_body]
fn uuid_v4_text() -> (res: String)
    ensures
        is_uuid_v4_text(res@),
{
    uuid::Uuid::new_v4().to_string()
}

/// A fresh guid for a personal address book: a random UUID.
pub fn new_book_guid() -> (res: String)
    ensures
        is_uuid_v4_text(res@),
{
    uuid_v4_text()
}

/// The columns of a device row that the service reads and writes.
#[derive(Debug)]
pub struct StoredPeer {
    pub hash: String,
    pub encrypted_password: String,
    pub username: String,
    pub hostname: String,
    pub platform: String,
    pub alias: String,
    pub tags_json: String,
    pub note: String,
}

/// The device that the row of `peer_id` lists, its password opened with the master
/// key and its tags parsed; a stored password that does not open fails the listing.
/// A row that `new_peer_row` or `merge_peer_update` wrote gives back the password
/// that was sealed and the tags that were written.
pub fn peer_from_row(peer_id: String, row: StoredPeer, crypto: &Crypto) -> (res: Result<
    PeerPayload,
    StoreError,
>)
    ensures
        res is Ok <==> unseal(crypto@, row.encrypted_password@) is Ok,
        res matches Err(e) ==> unseal(crypto@, row.encrypted_password@) == Err::<
            Seq<char>,
            CryptoError,
        >(e->Crypto_0) && e is Crypto,
        res matches Ok(p) ==> {
            &&& p.id == peer_id
            &&& p.hash == row.hash
            &&& unseal(crypto@, row.encrypted_password@) == Ok::<Seq<char>, CryptoError>(
                p.password@,
            )
            &&& p.username == row.username
            &&& p.hostname == row.hostname
            &&& p.platform == row.platform
            &&& p.alias == row.alias
            &&& p.tags.deep_view() == tags_of(row.tags_json@)
            &&& p.note == row.note
            &&& p.same_server == Some(true)
        },
        forall|password: Seq<char>|
            #[trigger] sealed(crypto@, password, row.encrypted_password@) ==> (res matches Ok(p)
                && p.password@ == password),
        forall|tags: Seq<Seq<char>>|
            row.tags_json@ == #[trigger] json_of_strings(tags) ==> (res is Ok ==> res->Ok_0.tags.deep_view() == tags),
{
    let password = match crypto.decrypt(row.encrypted_password.as_str()) {
        Ok(password) => password,
        Err(e) => return Err(StoreError::Crypto(e)),
    };
    let tags = parse_tags(row.tags_json.as_str());
    Ok(
        PeerPayload {
            id: peer_id,
            hash: row.hash,
            password,
            username: row.username,
            hostname: row.hostname,
            platform: row.platform,
            alias: row.alias,
            tags,
            note: row.note,
            same_server: Some(true),
        },
    )
}

/// The row that adding `peer` with the stored password `password` writes: the
/// password sealed, the tags as a JSON array.
pub fn new_peer_row(peer: &PeerPayload, password: &str, crypto: &Crypto) -> (res: Result<
    StoredPeer,
    StoreError,
>)
    ensures
        byte_len(password@) > aes_gcm_max_plaintext() ==> res == Err::<StoredPeer, StoreError>(
            StoreError::Crypto(CryptoError::EncryptionFailed),
        ),
        byte_len(password@) <= aes_gcm_max_plaintext() ==> res is Ok,
        res matches Ok(r) ==> {
            &&& r.hash@ == peer.hash@
            &&& sealed(crypto@, password@, r.encrypted_password@)
            &&& r.username@ == peer.username@
            &&& r.hostname@ == peer.hostname@
            &&& r.platform@ == peer.platform@
            &&& r.alias@ == peer.alias@
            &&& r.tags_json@ == json_of_strings(peer.tags.deep_view())
            &&& r.note@ == peer.note@
        },
{
    let encrypted_password = match crypto.encrypt(password) {
        Ok(stored) => stored,
        Err(e) => return Err(StoreError::Crypto(e)),
    };
    let tags_json = string_array_json(&peer.tags);
    Ok(
        StoredPeer {
            hash: peer.hash.clone(),
            encrypted_password,
            username: peer.username.clone(),
            hostname: peer.hostname.clone(),
            platform: peer.platform.clone(),
            alias: peer.alias.clone(),
            tags_json,
            note: peer.note.clone(),
        },
    )
}

/// The stored value of a text field after an update: the given one, else the old one.
pub open spec fn updated(given: Option<String>, stored: String) -> String {
    match given {
        Some(v) => v,
        None => stored,
    }
}

/// An update replaces a stored text field by exactly the value given, the empty
/// text included, and only a field left out keeps its stored value.
pub proof fn given_field_replaces_stored(given: Option<String>, stored: String)
    ensures
        given matches Some(v) ==> updated(given, stored)@ == v@,
        given matches Some(v) && v@.len() == 0 ==> updated(given, stored)@.len() == 0,
        given is None ==> updated(given, stored)@ == stored@,
{
}

/// The row of a device after `update`: each field given replaces the stored one; a
/// given password is sealed, given tags are written as a JSON array.
pub fn merge_peer_update(existing: StoredPeer, update: PeerUpdate, crypto: &Crypto) -> (res: Result<
    StoredPeer,
    StoreError,
>)
    ensures
        res matches Ok(r) ==> {
            &&& r.hash == updated(update.hash, existing.hash)
            &&& r.username == updated(update.username, existing.username)
            &&& r.hostname == updated(update.hostname, existing.hostname)
            &&& r.platform == updated(update.platform, existing.platform)
            &&& r.alias == updated(update.alias, existing.alias)
            &&& r.note == updated(update.note, existing.note)
            &&& update.password is None ==> r.encrypted_password == existing.encrypted_password
            &&& update.password matches Some(p) ==> sealed(crypto@, p@, r.encrypted_password@)
            &&& update.tags is None ==> r.tags_json == existing.tags_json
            &&& update.tags matches Some(t) ==> r.tags_json@ == json_of_strings(t.deep_view())
        },
        update.password matches Some(p) && byte_len(p@) > aes_gcm_max_plaintext() ==> res == Err::<
            StoredPeer,
            StoreError,
        >(StoreError::Crypto(CryptoError::EncryptionFailed)),
        res is Err <==> (update.password matches Some(p) && byte_len(p@)
            > aes_gcm_max_plaintext()),
        res matches Ok(r) ==> {
            &&& update.hash matches Some(v) ==> r.hash@ == v@
            &&& update.username matches Some(v) ==> r.username@ == v@
            &&& update.hostname matches Some(v) ==> r.hostname@ == v@
            &&& update.platform matches Some(v) ==> r.platform@ == v@
            &&& update.alias matches Some(v) ==> r.alias@ == v@
            &&& update.note matches Some(v) ==> r.note@ == v@
            &&& update.hash is None ==> r.hash@ == existing.hash@
            &&& update.username is None ==> r.username@ == existing.username@
            &&& update.hostname is None ==> r.hostname@ == existing.hostname@
            &&& update.platform is None ==> r.platform@ == existing.platform@
            &&& update.alias is None ==> r.alias@ == existing.alias@
            &&& update.note is None ==> r.note@ == existing.note@
        },
{
    let encrypted_password = match update.password {
        Some(password) => match crypto.encrypt(password.as_str()) {
            Ok(stored) => stored,
            Err(e) => return Err(StoreError::Crypto(e)),
        },
        None => existing.encrypted_password,
    };
    let tags_json = match update.tags {
        Some(tags) => string_array_json(&tags),
        None => existing.tags_json,
    };
    Ok(
        StoredPeer {
            hash: match update.hash {
                Some(v) => v,
                None => existing.hash,
            },
            encrypted_password,
            username: match update.username {
                Some(v) => v,
                None => existing.username,
            },
            hostname: match update.hostname {
                Some(v) => v,
                None => existing.hostname,
            },
            platform: match update.platform {
                Some(v) => v,
                None => existing.platform,
            },
            alias: match update.alias {
                Some(v) => v,
                None => existing.alias,
            },
            tags_json,
            note: match update.note {
                Some(v) => v,
                None => existing.note,
            },
        },
    )
}

/// A tag list with every occurrence of `from` replaced by `to`.
pub open spec fn renamed(tags: Seq<Seq<char>>, from: Seq<char>, to: Seq<char>) -> Seq<Seq<char>> {
    tags.map_values(|t: Seq<char>| if t == from { to } else { t })
}

/// Renaming a tag to another name leaves no tag under the old name, keeps the
/// number of tags, and changes no other tag.
pub proof fn renaming_replaces_every_occurrence(
    tags: Seq<Seq<char>>,
    from: Seq<char>,
    to: Seq<char>,
)
    requires
        from != to,
    ensures
        !renamed(tags, from, to).contains(from),
        renamed(tags, from, to).len() == tags.len(),
        forall|i: int|
            0 <= i < tags.len() && tags[i] != from ==> #[trigger] renamed(tags, from, to)[i]
                == tags[i],
        forall|i: int|
            0 <= i < tags.len() && tags[i] == from ==> #[trigger] renamed(tags, from, to)[i] == to,
{
    let r = renamed(tags, from, to);
    if r.contains(from) {
        let k = choose|k: int| 0 <= k < r.len() && r[k] == from;
        assert(r[k] == (if tags[k] == from {
            to
        } else {
            tags[k]
        }));
    }
}

/// Replaces every occurrence of the tag `from` by `to`; says whether there was one.
pub fn rename_tags(tags: &Vec<String>, from: &str, to: &str) -> (res: (Vec<String>, bool))
    ensures
        res.0.deep_view() == renamed(tags.deep_view(), from@, to@),
        res.1 == tags.deep_view().contains(from@),
{
    let mut out: Vec<String> = Vec::new();
    let mut replaced = false;
    let mut i: usize = 0;
    while i < tags.len()
        invariant
            i <= tags@.len(),
            out.deep_view() == renamed(tags.deep_view().take(i as int), from@, to@),
            replaced == tags.deep_view().take(i as int).contains(from@),
        decreases tags@.len() - i,
    {
        let ghost prev = tags.deep_view().take(i as int);
        let tag = &tags[i];
        if str_eq(tag.as_str(), from) {
            out.push(to.to_owned());
            replaced = true;
        } else {
            out.push(tag.clone());
        }
        proof {
            let next = tags.deep_view().take(i + 1);
            assert(next =~= prev.push(tag@));
            assert(renamed(next, from@, to@) =~= renamed(prev, from@, to@).push(
                if tag@ == from@ {
                    to@
                } else {
                    tag@
                },
            ));
            assert(out.deep_view() =~= renamed(next, from@, to@));
            if tag@ == from@ {
                assert(next[i as int] == from@);
            } else {
                assert(next.contains(from@) ==> prev.contains(from@)) by {
                    if next.contains(from@) {
                        let k = choose|k: int| 0 <= k < next.len() && next[k] == from@;
                        assert(prev[k] == from@);
                    }
                }
            }
        }
        i = i + 1;
    }
    assert(tags.deep_view().take(tags@.len() as int) =~= tags.deep_view());
    (out, replaced)
}

/// The stored tag list of a device after renaming the tag `from` to `to`: `None`
/// where the list does not hold `from` and stays as it is.
pub fn renamed_tags_json(tags_json: &str, from: &str, to: &str) -> (res: Option<String>)
    ensures
        res is None <==> !tags_of(tags_json@).contains(from@),
        res matches Some(text) ==> text@ == json_of_strings(
            renamed(tags_of(tags_json@), from@, to@),
        ),
{
    let tags = parse_tags(tags_json);
    let (tags, replaced) = rename_tags(&tags, from, to);
    if !replaced {
        return None;
    }
    Some(string_array_json(&tags))
}

/// The tag lists that renaming the tag `from` to `to` writes back, for device rows
/// `(device id, stored tag list)`: in row order, one for each device whose list
/// holds `from`, with that list renamed.
pub open spec fn renamed_rows(
    rows: Seq<(Seq<char>, Seq<char>)>,
    from: Seq<char>,
    to: Seq<char>,
) -> Seq<(Seq<char>, Seq<char>)>
    decreases rows.len(),
{
    if rows.len() == 0 {
        seq![]
    } else {
        let rest = renamed_rows(rows.drop_last(), from, to);
        let text = rows.last().1;
        if tags_of(text).contains(from) {
            rest.push((rows.last().0, json_of_strings(renamed(tags_of(text), from, to))))
        } else {
            rest
        }
    }
}

/// The device tag lists to write back after renaming the tag `from` to `to`, where
/// the rename changed `changed` tag rows: none where no tag row changed, else the
/// rewritten list of each device row `(device id, stored tag list)` that holds `from`.
pub fn renamed_tag_rows(changed: usize, rows: &Vec<(String, String)>, from: &str, to: &str) -> (res:
    Vec<(String, String)>)
    ensures
        changed == 0 ==> res@.len() == 0,
        changed > 0 ==> res.deep_view() == renamed_rows(rows.deep_view(), from@, to@),
        changed > 0 ==> forall|i: int|
            0 <= i < rows@.len() && tags_of(rows@[i].1@).contains(from@) ==> res.deep_view().contains(
                (rows@[i].0@, json_of_strings(renamed(tags_of(#[trigger] rows@[i].1@), from@, to@))),
            ),
{
    proof {
        renaming_rewrites_every_device_holding_the_tag(rows.deep_view(), from@, to@);
        assert forall|i: int| 0 <= i < rows@.len() implies rows.deep_view()[i].1 == #[trigger] rows@[
            i].1@ && rows.deep_view()[i].0 == rows@[i].0@ by {}
    }
    let mut out: Vec<(String, String)> = Vec::new();
    if changed == 0 {
        return out;
    }
    let mut i: usize = 0;
    while i < rows.len()
        invariant
            i <= rows@.len(),
            out.deep_view() == renamed_rows(rows.deep_view().take(i as int), from@, to@),
        decreases rows@.len() - i,
    {
        let ghost prev = rows.deep_view().take(i as int);
        let row = &rows[i];
        let rewritten = renamed_tags_json(row.1.as_str(), from, to);
        match rewritten {
            Some(text) => {
                out.push((row.0.clone(), text));
            },
            None => {},
        }
        proof {
            let next = rows.deep_view().take(i + 1);
            assert(next.drop_last() =~= prev);
            assert(next.last() == (row.0@, row.1@));
            assert(out.deep_view() =~= renamed_rows(next, from@, to@));
        }
        i = i + 1;
    }
    assert(rows.deep_view().take(rows@.len() as int) =~= rows.deep_view());
    out
}

/// A tag list without the tags named in `names`, in its order.
pub open spec fn without(tags: Seq<Seq<char>>, names: Seq<Seq<char>>) -> Seq<Seq<char>> {
    tags.filter(unnamed(names))
}

/// Whether a tag is not one of `names`.
pub open spec fn unnamed(names: Seq<Seq<char>>) -> spec_fn(Seq<char>) -> bool {
    |t: Seq<char>| !names.contains(t)
}

/// Deleting tags keeps exactly the tags that are not named: a tag remains if and
/// only if the list held it and it is not one of `names`.
pub proof fn deleting_keeps_exactly_the_unnamed(tags: Seq<Seq<char>>, names: Seq<Seq<char>>)
    ensures
        forall|t: Seq<char>|
            #[trigger] without(tags, names).contains(t) <==> (tags.contains(t) && !names.contains(
                t,
            )),
        without(tags, names).len() <= tags.len(),
{
    let pred = unnamed(names);
    tags.lemma_filter_len(pred);
    assert forall|t: Seq<char>| #[trigger]
        without(tags, names).contains(t) <==> (tags.contains(t) && !names.contains(t)) by {
        if tags.contains(t) && !names.contains(t) {
            let i = choose|i: int| 0 <= i < tags.len() && tags[i] == t;
            tags.lemma_filter_contains(pred, i);
        }
        if without(tags, names).contains(t) {
            tags.lemma_filter_contains_rev(pred, t);
            let k = choose|k: int|
                0 <= k < without(tags, names).len() && without(tags, names)[k] == t;
            tags.lemma_filter_pred(pred, k);
        }
    }
}

/// Whether `name` is one of `names`.
fn is_listed(names: &[String], name: &str) -> (res: bool)
    ensures
        res == names.deep_view().contains(name@),
{
    let mut i: usize = 0;
    while i < names.len()
        invariant
            i <= names@.len(),
            forall|k: int| 0 <= k < i ==> names.deep_view()[k] != name@,
        decreases names@.len() - i,
    {
        if str_eq(names[i].as_str(), name) {
            assert(names.deep_view()[i as int] == name@);
            return true;
        }
        i = i + 1;
    }
    false
}

/// The tags that are not named in `names`, in their order.
pub fn retain_tags(tags: &Vec<String>, names: &[String]) -> (res: Vec<String>)
    ensures
        res.deep_view() == without(tags.deep_view(), names.deep_view()),
{
    let mut out: Vec<String> = Vec::new();
    let mut i: usize = 0;
    while i < tags.len()
        invariant
            i <= tags@.len(),
            out.deep_view() == without(tags.deep_view().take(i as int), names.deep_view()),
        decreases tags@.len() - i,
    {
        let ghost prev = tags.deep_view().take(i as int);
        let tag = &tags[i];
        let listed = is_listed(names, tag.as_str());
        if !listed {
            out.push(tag.clone());
        }
        proof {
            let next = tags.deep_view().take(i + 1);
            assert(next.drop_last() =~= prev);
            assert(next.last() == tag@);
            reveal_with_fuel(Seq::filter, 1);
            assert(out.deep_view() =~= without(next, names.deep_view()));
        }
        i = i + 1;
    }
    assert(tags.deep_view().take(tags@.len() as int) =~= tags.deep_view());
    out
}

/// The stored tag list of a device after deleting the tags in `names`: `None` where
/// the list holds none of them and stays as it is.
pub fn tags_json_without(tags_json: &str, names: &[String]) -> (res: Option<String>)
    ensures
        res is None <==> without(tags_of(tags_json@), names.deep_view()).len() == tags_of(
            tags_json@,
        ).len(),
        res matches Some(text) ==> text@ == json_of_strings(
            without(tags_of(tags_json@), names.deep_view()),
        ),
{
    let tags = parse_tags(tags_json);
    let kept = retain_tags(&tags, names);
    if kept.len() == tags.len() {
        return None;
    }
    Some(string_array_json(&kept))
}

/// The tag lists that deleting the tags in `names` writes back, for device rows
/// `(device id, stored tag list)`: in row order, one for each device whose list
/// holds one of `names`, with those tags taken out.
pub open spec fn rows_without(rows: Seq<(Seq<char>, Seq<char>)>, names: Seq<Seq<char>>) -> Seq<
    (Seq<char>, Seq<char>),
>
    decreases rows.len(),
{
    if rows.len() == 0 {
        seq![]
    } else {
        let rest = rows_without(rows.drop_last(), names);
        let tags = tags_of(rows.last().1);
        if without(tags, names).len() == tags.len() {
            rest
        } else {
            rest.push((rows.last().0, json_of_strings(without(tags, names))))
        }
    }
}

/// The device tag lists to write back after deleting the tags in `names`: the
/// shortened list of each device row `(device id, stored tag list)` that holds one.
pub fn tag_rows_without(rows: &Vec<(String, String)>, names: &[String]) -> (res: Vec<
    (String, String),
>)
    ensures
        res.deep_view() == rows_without(rows.deep_view(), names.deep_view()),
        forall|i: int|
            0 <= i < rows@.len() && holds_any(tags_of(rows@[i].1@), names.deep_view())
                ==> res.deep_view().contains(
                (
                    rows@[i].0@,
                    json_of_strings(without(tags_of(#[trigger] rows@[i].1@), names.deep_view())),
                ),
            ),
{
    proof {
        deleting_rewrites_every_device_holding_a_deleted_tag(rows.deep_view(), names.deep_view());
        assert forall|i: int| 0 <= i < rows@.len() implies rows.deep_view()[i].1 == #[trigger] rows@[
            i].1@ && rows.deep_view()[i].0 == rows@[i].0@ by {}
    }
    let mut out: Vec<(String, String)> = Vec::new();
    let mut i: usize = 0;
    while i < rows.len()
        invariant
            i <= rows@.len(),
            out.deep_view() == rows_without(rows.deep_view().take(i as int), names.deep_view()),
        decreases rows@.len() - i,
    {
        let ghost prev = rows.deep_view().take(i as int);
        let row = &rows[i];
        let kept = tags_json_without(row.1.as_str(), names);
        match kept {
            Some(text) => {
                out.push((row.0.clone(), text));
            },
            None => {},
        }
        proof {
            let next = rows.deep_view().take(i + 1);
            assert(next.drop_last() =~= prev);
            assert(next.last() == (row.0@, row.1@));
            assert(out.deep_view() =~= rows_without(next, names.deep_view()));
        }
        i = i + 1;
    }
    assert(rows.deep_view().take(rows@.len() as int) =~= rows.deep_view());
    out
}

/// Whether a tag list holds one of `names`.
pub open spec fn holds_any(tags: Seq<Seq<char>>, names: Seq<Seq<char>>) -> bool {
    exists|k: int| 0 <= k < tags.len() && names.contains(#[trigger] tags[k])
}

/// Deleting tags shortens a tag list exactly when the list holds one of them.
proof fn lemma_without_shortens(tags: Seq<Seq<char>>, names: Seq<Seq<char>>)
    ensures
        without(tags, names).len() < tags.len() <==> holds_any(tags, names),
        without(tags, names).len() <= tags.len(),
    decreases tags.len(),
{
    reveal_with_fuel(Seq::filter, 1);
    tags.lemma_filter_len(unnamed(names));
    if tags.len() > 0 {
        let init = tags.drop_last();
        lemma_without_shortens(init, names);
        if holds_any(init, names) {
            let k = choose|k: int| 0 <= k < init.len() && names.contains(#[trigger] init[k]);
            assert(tags[k] == init[k]);
        }
        if holds_any(tags, names) && !names.contains(tags.last()) {
            let k = choose|k: int| 0 <= k < tags.len() && names.contains(#[trigger] tags[k]);
            assert(init[k] == tags[k]);
        }
        if names.contains(tags.last()) {
            assert(names.contains(tags[tags.len() - 1]));
        }
    }
}

/// Renaming a tag writes back the list of every device row that holds the tag, at
/// any position, with the tag renamed, and writes back nothing else.
pub proof fn renaming_rewrites_every_device_holding_the_tag(
    rows: Seq<(Seq<char>, Seq<char>)>,
    from: Seq<char>,
    to: Seq<char>,
)
    ensures
        forall|i: int|
            0 <= i < rows.len() && tags_of(rows[i].1).contains(from) ==> renamed_rows(
                rows,
                from,
                to,
            ).contains((rows[i].0, json_of_strings(renamed(tags_of(#[trigger] rows[i].1), from, to)))),
        forall|r: (Seq<char>, Seq<char>)| #[trigger]
            renamed_rows(rows, from, to).contains(r) ==> exists|i: int|
                0 <= i < rows.len() && tags_of(#[trigger] rows[i].1).contains(from) && r == (
                    rows[i].0,
                    json_of_strings(renamed(tags_of(rows[i].1), from, to)),
                ),
    decreases rows.len(),
{
    if rows.len() > 0 {
        let init = rows.drop_last();
        let rest = renamed_rows(init, from, to);
        let res = renamed_rows(rows, from, to);
        let n = rows.len() - 1;
        renaming_rewrites_every_device_holding_the_tag(init, from, to);
        assert forall|i: int|
            0 <= i < rows.len() && tags_of(rows[i].1).contains(from) implies res.contains(
            (rows[i].0, json_of_strings(renamed(tags_of(#[trigger] rows[i].1), from, to))),
        ) by {
            let r = (rows[i].0, json_of_strings(renamed(tags_of(rows[i].1), from, to)));
            if i < n {
                assert(init[i] == rows[i]);
                assert(rest.contains(r));
                let j = choose|j: int| 0 <= j < rest.len() && rest[j] == r;
                assert(res[j] == r);
            } else {
                assert(res[res.len() - 1] == r);
            }
        }
        assert forall|r: (Seq<char>, Seq<char>)| #[trigger] res.contains(r) implies exists|i: int|
            0 <= i < rows.len() && tags_of(#[trigger] rows[i].1).contains(from) && r == (
                rows[i].0,
                json_of_strings(renamed(tags_of(rows[i].1), from, to)),
            ) by {
            let j = choose|j: int| 0 <= j < res.len() && res[j] == r;
            if j < rest.len() {
                assert(rest[j] == r);
                assert(rest.contains(r));
                let i = choose|i: int|
                    0 <= i < init.len() && tags_of(#[trigger] init[i].1).contains(from) && r == (
                        init[i].0,
                        json_of_strings(renamed(tags_of(init[i].1), from, to)),
                    );
                assert(rows[i] == init[i]);
            } else {
                assert(rows[n] == rows.last());
            }
        }
    }
}

/// Deleting tags writes back the list of every device row that holds one of them,
/// with exactly the remaining tags, the empty list included, and writes back
/// nothing else.
pub proof fn deleting_rewrites_every_device_holding_a_deleted_tag(
    rows: Seq<(Seq<char>, Seq<char>)>,
    names: Seq<Seq<char>>,
)
    ensures
        forall|i: int|
            0 <= i < rows.len() && holds_any(tags_of(rows[i].1), names) ==> rows_without(
                rows,
                names,
            ).contains((rows[i].0, json_of_strings(without(tags_of(#[trigger] rows[i].1), names)))),
        forall|r: (Seq<char>, Seq<char>)| #[trigger]
            rows_without(rows, names).contains(r) ==> exists|i: int|
                0 <= i < rows.len() && holds_any(tags_of(#[trigger] rows[i].1), names) && r == (
                    rows[i].0,
                    json_of_strings(without(tags_of(rows[i].1), names)),
                ),
    decreases rows.len(),
{
    if rows.len() > 0 {
        let init = rows.drop_last();
        let rest = rows_without(init, names);
        let res = rows_without(rows, names);
        let n = rows.len() - 1;
        deleting_rewrites_every_device_holding_a_deleted_tag(init, names);
        lemma_without_shortens(tags_of(rows.last().1), names);
        assert forall|i: int|
            0 <= i < rows.len() && holds_any(tags_of(rows[i].1), names) implies res.contains(
            (rows[i].0, json_of_strings(without(tags_of(#[trigger] rows[i].1), names))),
        ) by {
            let r = (rows[i].0, json_of_strings(without(tags_of(rows[i].1), names)));
            if i < n {
                assert(init[i] == rows[i]);
                assert(rest.contains(r));
                let j = choose|j: int| 0 <= j < rest.len() && rest[j] == r;
                assert(res[j] == r);
            } else {
                assert(res[res.len() - 1] == r);
            }
        }
        assert forall|r: (Seq<char>, Seq<char>)| #[trigger] res.contains(r) implies exists|i: int|
            0 <= i < rows.len() && holds_any(tags_of(#[trigger] rows[i].1), names) && r == (
                rows[i].0,
                json_of_strings(without(tags_of(rows[i].1), names)),
            ) by {
            let j = choose|j: int| 0 <= j < res.len() && res[j] == r;
            if j < rest.len() {
                assert(rest[j] == r);
                assert(rest.contains(r));
                let i = choose|i: int|
                    0 <= i < init.len() && holds_any(tags_of(#[trigger] init[i].1), names) && r == (
                        init[i].0,
                        json_of_strings(without(tags_of(init[i].1), names)),
                    );
                assert(rows[i] == init[i]);
            } else {
                assert(rows[n] == rows.last());
            }
        }
    }
}

} // verus!

//! The records that the API reads and writes.

use vstd::prelude::*;

verus! {

/// A signed-in account.
#[derive(Debug, Clone)]
pub struct User {
    pub id: i64,
    pub username: String,
    pub display_name: String,
}

/// A request to create an account.
#[derive(Debug)]
pub struct RegisterRequest {
    pub username: String,
    pub password: String,
    pub display_name: String,
}

/// A request to sign in.
#[derive(Debug)]
pub struct LoginRequest {
    pub username: String,
    pub password: String,
}

/// A desktop client announcing itself for the shared address book.
#[derive(Debug)]
pub struct DeviceUpsertRequest {
    pub id: String,
    pub alias: String,
    pub hostname: String,
    pub platform: String,
    pub username: String,
    pub password: Option<String>,
    /// The secret that the device proves ownership of its shared entry with.
    pub share_token: String,
}

/// An account as the client displays it.
#[derive(Debug)]
pub struct UserPayload {
    pub name: String,
    pub display_name: String,
    pub avatar: String,
    pub email: String,
    pub note: String,
    pub status: i32,
    pub is_admin: bool,
}

impl UserPayload {
    /// The payload of an account: its name and display name, empty avatar, email and
    /// note, status 1, not an administrator.
    pub fn from_user(user: &User) -> (res: UserPayload)
        ensures
            res.name@ == user.username@,
            res.display_name@ == user.display_name@,
            res.avatar@.len() == 0,
            res.email@.len() == 0,
            res.note@.len() == 0,
            res.status == 1,
            !res.is_admin,
    {
        UserPayload {
            name: user.username.clone(),
            display_name: user.display_name.clone(),
            avatar: String::new(),
            email: String::new(),
            note: String::new(),
            status: 1,
            is_admin: false,
        }
    }
}

/// A new session: the bearer token and the account it belongs to.
#[derive(Debug)]
pub struct LoginResponse {
    pub access_token: String,
    /// Always `access_token`; serialised under the name `type`.
    pub token_type: String,
    pub user: UserPayload,
}

/// Paging parameters of a listing.
#[derive(Debug)]
pub struct PageQuery {
    pub current: u32,
    pub page_size: u32,
    pub ab: String,
}

/// The page requested when none is given.
pub fn default_page() -> (res: u32)
    ensures
        res == 1,
{
    1
}

/// The page size requested when none is given.
pub fn default_page_size() -> (res: u32)
    ensures
        res == 100,
{
    100
}

/// The page size in effect: the requested size held between 1 and 500.
pub open spec fn effective_page_size(page_size: u32) -> int {
    if page_size < 1 {
        1
    } else if page_size > 500 {
        500
    } else {
        page_size as int
    }
}

/// The page in effect: pages are numbered from 1, and page 0 is page 1.
pub open spec fn effective_page(current: u32) -> int {
    if current < 1 {
        1
    } else {
        current as int
    }
}

impl PageQuery {
    /// The SQL `LIMIT` and `OFFSET` of the page: the effective page size, and the
    /// number of rows on the pages before it.
    pub fn limit_and_offset(&self) -> (res: (i64, i64))
        ensures
            res.0 == effective_page_size(self.page_size),
            res.1 == (effective_page(self.current) - 1) * effective_page_size(self.page_size),
            1 <= res.0 <= 500,
            res.1 >= 0,
    {
        let limit: i64 = if self.page_size < 1 {
            1
        } else if self.page_size > 500 {
            500
        } else {
            self.page_size as i64
        };
        let page: i64 = if self.current < 1 {
            1
        } else {
            self.current as i64
        };
        assert(0 <= (page - 1) * limit <= 4294967295 * 500) by (nonlinear_arith)
            requires
                1 <= page <= 4294967295,
                1 <= limit <= 500,
        ;
        (limit, (page - 1) * limit)
    }
}

/// Consecutive pages are adjacent: from page 1 on, the next page starts where this
/// one ends.
pub proof fn consecutive_pages_are_adjacent(current: u32, page_size: u32)
    requires
        1 <= current < u32::MAX,
    ensures
        (effective_page((current + 1) as u32) - 1) * effective_page_size(page_size) == (
        effective_page(current) - 1) * effective_page_size(page_size) + effective_page_size(
            page_size,
        ),
{
    let s = effective_page_size(page_size);
    let c = current as int;
    assert((c + 1 - 1) * s == (c - 1) * s + s) by (nonlinear_arith);
}

/// One page of a listing and the number of rows in all pages.
#[derive(Debug)]
pub struct Page<T> {
    pub total: i64,
    pub data: Vec<T>,
}

/// An address book that several accounts share.
#[derive(Debug)]
pub struct AddressBookProfile {
    pub guid: String,
    pub name: String,
    pub owner: String,
    pub note: String,
    pub rule: i32,
}

/// A device entry of an address book.
#[derive(Debug, Clone)]
pub struct PeerPayload {
    pub id: String,
    pub hash: String,
    pub password: String,
    pub username: String,
    pub hostname: String,
    pub platform: String,
    pub alias: String,
    pub tags: Vec<String>,
    pub note: String,
    pub same_server: Option<bool>,
}

/// A change to a device entry: each field given replaces the stored one.
#[derive(Debug)]
pub struct PeerUpdate {
    pub id: String,
    pub hash: Option<String>,
    pub password: Option<String>,
    pub username: Option<String>,
    pub hostname: Option<String>,
    pub platform: Option<String>,
    pub alias: Option<String>,
    pub tags: Option<Vec<String>>,
    pub note: Option<String>,
}

/// A tag of an address book and its colour.
#[derive(Debug)]
pub struct TagPayload {
    pub name: String,
    pub color: i64,
}

/// A request to rename a tag.
#[derive(Debug)]
pub struct RenameTagRequest {
    pub old: String,
    pub new: String,
}

} // verus!

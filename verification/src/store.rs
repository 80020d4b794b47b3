//! The relational state: one in-memory store holding every table.
//!
//! Each table keeps its rows in insertion order with strictly increasing,
//! positive ids, so the pagination engine can treat any table scan as a
//! sorted result set. The store also carries the request clock: callers
//! set it from their environment, and inserts stamp rows with it.

use vstd::prelude::*;
use crate::album::{Album, AlbumMembership};
use crate::photo::{Photo, PhotoAttr};
use crate::publishing::PublishedAlbum;
use crate::user::{PasswordReset, User};

verus! {

/// The whole relational state.
pub struct Store {
    pub users: Vec<User>,
    pub photos: Vec<Photo>,
    pub photo_attrs: Vec<PhotoAttr>,
    pub albums: Vec<Album>,
    pub memberships: Vec<AlbumMembership>,
    pub published: Vec<PublishedAlbum>,
    pub password_resets: Vec<PasswordReset>,
    pub next_user_id: i32,
    pub next_photo_id: i32,
    pub next_album_id: i32,
    pub next_published_id: i32,
    /// The current time in seconds, as last set by the caller; inserts
    /// stamp rows with it.
    pub clock: i64,
}

/// Ids are positive, strictly increasing along the table, and below the
/// table's next free id.
pub open spec fn ids_ok(ids: Seq<int>, next: int) -> bool {
    &&& forall|i: int| 0 <= i < ids.len() ==> 1 <= #[trigger] ids[i] < next
    &&& forall|i: int, j: int| 0 <= i < j < ids.len() ==> #[trigger] ids[i] < #[trigger] ids[j]
}

pub open spec fn user_ids(users: Seq<User>) -> Seq<int> {
    users.map_values(|u: User| u.id as int)
}

pub open spec fn photo_ids(photos: Seq<Photo>) -> Seq<int> {
    photos.map_values(|p: Photo| p.id as int)
}

pub open spec fn album_ids(albums: Seq<Album>) -> Seq<int> {
    albums.map_values(|a: Album| a.id as int)
}

pub open spec fn published_ids(pubs: Seq<PublishedAlbum>) -> Seq<int> {
    pubs.map_values(|p: PublishedAlbum| p.id as int)
}

/// In a table whose ids satisfy `ids_ok`, the i-th id is at least i + 1.
proof fn lemma_ids_lower_bound(ids: Seq<int>, next: int, i: int)
    requires
        ids_ok(ids, next),
        0 <= i < ids.len(),
    ensures
        ids[i] >= i + 1,
    decreases i,
{
    if i > 0 {
        lemma_ids_lower_bound(ids, next, i - 1);
    }
}

/// A table with ids below `next` holds fewer than `next` rows.
pub proof fn lemma_table_len(ids: Seq<int>, next: int)
    requires
        ids_ok(ids, next),
    ensures
        ids.len() < next || ids.len() == 0,
{
    if ids.len() > 0 {
        lemma_ids_lower_bound(ids, next, ids.len() - 1);
    }
}

impl Store {
    /// The store's well-formedness: what the database schema enforced.
    pub open spec fn wf(self) -> bool {
        &&& self.next_user_id >= 1
        &&& self.next_photo_id >= 1
        &&& self.next_album_id >= 1
        &&& self.next_published_id >= 1
        &&& ids_ok(user_ids(self.users@), self.next_user_id as int)
        &&& ids_ok(photo_ids(self.photos@), self.next_photo_id as int)
        &&& ids_ok(album_ids(self.albums@), self.next_album_id as int)
        &&& ids_ok(published_ids(self.published@), self.next_published_id as int)
        // account emails are unique
        &&& forall|i: int, j: int|
            0 <= i < j < self.users@.len() ==> #[trigger] self.users@[i].email@
                != #[trigger] self.users@[j].email@
        // at most one membership row per (photo, album) pair
        &&& member_pairs_unique(self.memberships@)
        // at most one attribute row per (photo, key) pair
        &&& forall|i: int, j: int|
            0 <= i < j < self.photo_attrs@.len() ==> !(#[trigger] self.photo_attrs@[i].photo_id
                == #[trigger] self.photo_attrs@[j].photo_id && self.photo_attrs@[i].key@
                == self.photo_attrs@[j].key@)
        // attribute rows only reference photos that have been handed out
        &&& forall|i: int|
            0 <= i < self.photo_attrs@.len() ==> #[trigger] self.photo_attrs@[i].photo_id
                < self.next_photo_id
        // reset tokens are unique
        &&& forall|i: int, j: int|
            0 <= i < j < self.password_resets@.len() ==> #[trigger] self.password_resets@[i].uuid@
                != #[trigger] self.password_resets@[j].uuid@
    }

    pub fn new() -> (s: Store)
        ensures
            s.wf(),
            s.users@.len() == 0,
            s.photos@.len() == 0,
            s.photo_attrs@.len() == 0,
            s.albums@.len() == 0,
            s.memberships@.len() == 0,
            s.published@.len() == 0,
            s.password_resets@.len() == 0,
            s.clock == 0,
    {
        Store {
            users: Vec::new(),
            photos: Vec::new(),
            photo_attrs: Vec::new(),
            albums: Vec::new(),
            memberships: Vec::new(),
            published: Vec::new(),
            password_resets: Vec::new(),
            next_user_id: 1,
            next_photo_id: 1,
            next_album_id: 1,
            next_published_id: 1,
            clock: 0,
        }
    }

    /// Sets the request clock; the caller reads the time from its
    /// environment and hands it in as a plain value.
    pub fn set_clock(&mut self, now: i64)
        requires
            old(self).wf(),
        ensures
            final(self).wf(),
            *final(self) == (Store { clock: now, ..*old(self) }),
    {
        self.clock = now;
    }
}

/// The two stores agree on everything but the album table.
pub open spec fn same_except_albums(s1: Store, s2: Store) -> bool {
    s2 == (Store { albums: s2.albums, next_album_id: s2.next_album_id, ..s1 })
}

/// The two stores agree on everything but the membership table.
pub open spec fn same_except_memberships(s1: Store, s2: Store) -> bool {
    s2 == (Store { memberships: s2.memberships, ..s1 })
}

/// The two stores agree on everything but the photo and attribute tables.
pub open spec fn same_except_photos(s1: Store, s2: Store) -> bool {
    s2 == (Store {
        photos: s2.photos,
        photo_attrs: s2.photo_attrs,
        next_photo_id: s2.next_photo_id,
        ..s1
    })
}

/// The two stores agree on everything but the user table.
pub open spec fn same_except_users(s1: Store, s2: Store) -> bool {
    s2 == (Store { users: s2.users, next_user_id: s2.next_user_id, ..s1 })
}

/// The two stores agree on everything but the published-album table.
pub open spec fn same_except_published(s1: Store, s2: Store) -> bool {
    s2 == (Store { published: s2.published, next_published_id: s2.next_published_id, ..s1 })
}

/// The two stores agree on everything but the password-reset table.
pub open spec fn same_except_resets(s1: Store, s2: Store) -> bool {
    s2 == (Store { password_resets: s2.password_resets, ..s1 })
}

/// Whether some photo row carries this id.
pub open spec fn has_photo_id(photos: Seq<Photo>, id: int) -> bool {
    exists|i: int| 0 <= i < photos.len() && #[trigger] photos[i].id == id
}

/// No two membership rows tie the same photo into the same album.
pub open spec fn member_pairs_unique(ms: Seq<AlbumMembership>) -> bool {
    forall|i: int, j: int|
        0 <= i < j < ms.len() ==> !(#[trigger] ms[i].photo_id == #[trigger] ms[j].photo_id
            && ms[i].album_id == ms[j].album_id)
}

/// Whether a membership row ties `pid` into `aid`.
pub open spec fn is_member(ms: Seq<AlbumMembership>, pid: int, aid: int) -> bool {
    exists|i: int|
        0 <= i < ms.len() && #[trigger] ms[i].photo_id == pid && ms[i].album_id == aid
}

/// The membership row tying `pid` into `aid`; meaningful only when
/// `is_member` holds (the pair is unique in a well-formed store).
pub open spec fn member_row(ms: Seq<AlbumMembership>, pid: int, aid: int) -> AlbumMembership {
    ms[choose|i: int|
        0 <= i < ms.len() && #[trigger] ms[i].photo_id == pid && ms[i].album_id == aid]
}

} // verus!

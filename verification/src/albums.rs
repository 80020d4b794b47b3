//! The album service: ownership-scoped album CRUD, membership changes
//! that report the album's full current state, and the publish workflow.
//!
//! Two deliberate collapses run through the contracts here. An album
//! that does not exist and an album owned by someone else produce the
//! very same not-found error, so a caller cannot probe for other users'
//! albums. Likewise every way a published link can fail — a hash the
//! codec never produced, a missing or inactive publish row, a vanished
//! owner or album — collapses to a not-found error that names only the
//! hash.

use vstd::prelude::*;
use crate::album::{self, AlbumMembership, AlbumPhoto, add_members, album_join, remove_members};
use crate::codec::{Codec, decoded_pub_id, harsh_decode_hex, hash_decoded, hash_encoded, encode_id};
use crate::decimal::{dec_rep, dec_rep_signed, i32_to_string, parse_dec_i32, parse_i32_digits};
use crate::errors::{ApiError, Status};
use crate::pagination::{Page, PageRow, Pagination, DEFAULT_PER_PAGE, page_item_seq,
    page_next_key, page_remaining};
use crate::photo::{PhotoAttr, attrs_of};
use crate::photos::{Photo, photo_matches};
use crate::publishing::{PublishedAlbum, user_published_seq};
use crate::s3::S3Access;
use crate::store::{Store, has_photo_id, same_except_albums, same_except_memberships,
    same_except_published};
use crate::user::User;

verus! {

/// One photo as it sits in an album: the decorated photo plus the
/// membership row's presentation metadata.
#[derive(Debug, PartialEq)]
pub struct AlbumEntry {
    pub photo: Photo,
    pub ordering: Option<i16>,
    pub caption: Option<String>,
    pub updated_at: i64,
}

/// How an album entry reflects one row of the membership join.
pub open spec fn entry_matches(
    e: AlbumEntry,
    user_uuid: Seq<char>,
    s3: S3Access,
    ap: AlbumPhoto,
    attrs: Seq<PhotoAttr>,
) -> bool {
    &&& photo_matches(e.photo, user_uuid, s3, ap.photo, attrs)
    &&& e.ordering == ap.membership.ordering
    &&& e.caption == ap.membership.caption
    &&& e.updated_at == ap.membership.updated_at
}

impl AlbumEntry {
    fn new(
        user: &User,
        s3: &S3Access,
        photo: crate::photo::Photo,
        membership: AlbumMembership,
        attrs: Vec<PhotoAttr>,
    ) -> (r: AlbumEntry)
        ensures
            photo_matches(r.photo, user.uuid@, *s3, photo, attrs@),
            r.ordering == membership.ordering,
            r.caption == membership.caption,
            r.updated_at == membership.updated_at,
    {
        AlbumEntry {
            photo: Photo::new(user, s3, photo, attrs),
            ordering: membership.ordering,
            caption: membership.caption,
            updated_at: membership.updated_at,
        }
    }
}

/// The album shape the API serves: the row plus one page of its photos.
#[derive(Debug, PartialEq)]
pub struct Album {
    pub id: i32,
    pub created_at: i64,
    pub name: Option<String>,
    pub photos: Page<AlbumEntry>,
}

/// How an API album reflects an album row of store `s` under request
/// `page`: header fields copied, and the photo page drawn from the
/// membership join exactly as the pagination engine defines it.
pub open spec fn album_matches(
    r: Album,
    user_uuid: Seq<char>,
    s3: S3Access,
    s: Store,
    a: album::Album,
    page: Pagination,
) -> bool {
    let rows = album_join(s.photos@, s.memberships@, a.id as int);
    let its = page_item_seq(rows, page);
    &&& r.id == a.id
    &&& r.created_at == a.created_at
    &&& r.name == a.name
    &&& r.photos.key == page.key
    &&& r.photos.remaining == page_remaining(rows, page)
    &&& match r.photos.next_key {
        Some(k) => page_next_key(rows, page) == Some(k as int),
        None => page_next_key(rows, page) is None,
    }
    &&& r.photos.items@.len() == its.len()
    &&& forall|i: int|
        0 <= i < its.len() ==> entry_matches(
            #[trigger] r.photos.items@[i],
            user_uuid,
            s3,
            its[i],
            attrs_of(s.photo_attrs@, its[i].photo.id as int),
        )
}

pub type AlbumResult = Result<Album, ApiError>;

/// The form a new album arrives in: an optional name.
pub struct NewAlbum {
    pub name: Option<String>,
}

impl NewAlbum {
    fn name(&self) -> (r: Option<&str>)
        ensures
            match r {
                Some(n) => self.name matches Some(own) && n@ == own@,
                None => self.name is None,
            },
    {
        match self.name {
            Some(ref name) => Some(name.as_str()),
            None => None,
        }
    }
}

/// Whether user `uid` owns an album with id `id` in store `s`.
pub open spec fn owns_album(s: Store, uid: int, id: int) -> bool {
    exists|i: int|
        0 <= i < s.albums@.len() && #[trigger] s.albums@[i].id == id && s.albums@[i].user_id
            == uid
}

/// The message every failed album fetch carries: it names the id and
/// nothing of the cause.
pub open spec fn album_not_found_msg(id: int) -> Seq<char> {
    "could not find album with id="@ + dec_rep_signed(id)
}

/// The message every failed published-album step carries: it names the
/// hash and nothing of the cause.
pub open spec fn published_not_found_msg(hash: Seq<char>) -> Seq<char> {
    "no published album with id="@ + hash
}

/// An absent album and another user's album answer alike: any two errors
/// of the fetch-album shape for the same id agree in status and message,
/// so the caller cannot tell the causes apart.
pub proof fn lemma_album_not_found_uniform(e1: ApiError, e2: ApiError, id: int)
    requires
        e1.status is NotFound,
        e1.message@ == album_not_found_msg(id),
        e2.status is NotFound,
        e2.message@ == album_not_found_msg(id),
    ensures
        e1.status == e2.status,
        e1.message@ == e2.message@,
{
}

/// A decodable hash with no live publish row behind it — missing row,
/// toggled inactive, vanished owner or album, wrong owner — answers
/// alike: any two errors of that shape for the same hash agree in status
/// and message.
pub proof fn lemma_published_not_found_uniform(e1: ApiError, e2: ApiError, hash: Seq<char>)
    requires
        e1.status is NotFound,
        e1.message@ == published_not_found_msg(hash),
        e2.status is NotFound,
        e2.message@ == published_not_found_msg(hash),
    ensures
        e1.status == e2.status,
        e1.message@ == e2.message@,
{
}

/// Loads the album scoped to its owner; a missing id and a foreign owner
/// fail identically.
fn fetch_db_album(db: &Store, user: &User, id: i32) -> (r: Result<album::Album, ApiError>)
    ensures
        r is Ok <==> owns_album(*db, user.id as int, id as int),
        r matches Ok(a) ==> a.id == id && a.user_id == user.id && db.albums@.contains(a),
        r matches Err(e) ==> e.status is NotFound && e.message@ == album_not_found_msg(id as int),
{
    match album::Album::by_id(db, user, id) {
        Some(a) => {
            proof {
                let w = choose|i: int|
                    0 <= i < db.albums@.len() && db.albums@[i] == a;
                assert(db.albums@[w].id == id && db.albums@[w].user_id == user.id);
            }
            Ok(a)
        },
        None => {
            let mut message = "could not find album with id=".to_owned();
            let digits = i32_to_string(id);
            message.append(digits.as_str());
            Err(ApiError { status: Status::NotFound, message })
        },
    }
}

/// Loads one page of an album's photos and decorates them.
fn load_photos_page(
    user: &User,
    s3: &S3Access,
    db: &Store,
    album_row: album::Album,
    page: Pagination,
) -> (r: Album)
    requires
        db.wf(),
    ensures
        album_matches(r, user.uuid@, *s3, *db, album_row, page),
{
    let pg = album_row.get_photos(db, page);
    let ghost rows = album_join(db.photos@, db.memberships@, album_row.id as int);
    let ghost its = page_item_seq(rows, page);
    let mut entries: Vec<AlbumEntry> = Vec::new();
    let mut j: usize = 0;
    let count = pg.items.len();
    proof {
        assert(pg.items@.len() == its.len());
    }
    while j < count
        invariant
            0 <= j <= count,
            count == pg.items@.len(),
            pg.items@.len() == its.len(),
            forall|t: int|
                0 <= t < its.len() ==> (#[trigger] pg.items@[t]).0 == its[t].photo
                    && pg.items@[t].1 == its[t].membership && pg.items@[t].2@ == attrs_of(
                    db.photo_attrs@,
                    its[t].photo.id as int,
                ),
            entries@.len() == j,
            forall|t: int|
                0 <= t < j ==> entry_matches(
                    #[trigger] entries@[t],
                    user.uuid@,
                    *s3,
                    its[t],
                    attrs_of(db.photo_attrs@, its[t].photo.id as int),
                ),
            db.wf(),
        decreases count - j,
    {
        let (p, m, attrs) = {
            let tuple = &pg.items[j];
            (tuple.0.duplicate(), tuple.1.duplicate(), crate::photos::clone_attr_vec(&tuple.2))
        };
        entries.push(AlbumEntry::new(user, s3, p, m, attrs));
        j += 1;
    }
    Album {
        id: album_row.id,
        created_at: album_row.created_at,
        name: album_row.name,
        photos: Page {
            key: pg.key,
            next_key: pg.next_key,
            remaining: pg.remaining,
            items: entries,
        },
    }
}

/// Creates an album and answers with it and an empty photo page; fails
/// only when the album table has no id left.
pub fn create_album(db: &mut Store, user: &User, details: NewAlbum) -> (r: AlbumResult)
    requires
        old(db).wf(),
    ensures
        final(db).wf(),
        same_except_albums(*old(db), *final(db)),
        r is Ok <==> old(db).next_album_id < i32::MAX,
        r matches Err(e) ==> e.status is InternalServerError && *final(db) == *old(db),
        r matches Ok(al) ==> al.id == old(db).next_album_id && al.created_at == old(db).clock
            && (match (al.name, details.name) {
            (Some(n), Some(g)) => n@ == g@,
            (None, None) => true,
            _ => false,
        }) && al.photos.key is None && al.photos.next_key is None && al.photos.remaining == 0
            && al.photos.items@.len() == 0,
        r matches Ok(al) ==> final(db).albums@.len() == old(db).albums@.len() + 1
            && final(db).albums@ == old(db).albums@.push(final(db).albums@.last())
            && final(db).albums@.last().id == al.id
            && final(db).albums@.last().user_id == user.id
            && final(db).albums@.last().created_at == al.created_at,
{
    let album_row = match album::Album::create(db, user, details.name()) {
        Ok(a) => a,
        Err(e) => {
            return Err(e);
        },
    };
    Ok(Album {
        id: album_row.id,
        created_at: album_row.created_at,
        name: album_row.name,
        photos: Page::empty(),
    })
}

/// Loads an album the caller owns, with the requested page of photos. An
/// id that does not exist and an id owned by another user produce the
/// same not-found answer.
pub fn fetch_album(db: &Store, user: &User, s3: &S3Access, id: i32, page: Pagination) -> (r:
    AlbumResult)
    requires
        db.wf(),
    ensures
        r is Ok <==> owns_album(*db, user.id as int, id as int),
        r matches Err(e) ==> e.status is NotFound && e.message@ == album_not_found_msg(id as int),
        r matches Ok(al) ==> exists|i: int|
            0 <= i < db.albums@.len() && #[trigger] db.albums@[i].id == id && db.albums@[i].user_id
                == user.id && album_matches(al, user.uuid@, *s3, *db, db.albums@[i], page),
{
    let album_row = match fetch_db_album(db, user, id) {
        Ok(a) => a,
        Err(e) => {
            return Err(e);
        },
    };
    let ghost row = album_row;
    let loaded = load_photos_page(user, s3, db, album_row, page);
    proof {
        let w = choose|i: int| 0 <= i < db.albums@.len() && db.albums@[i] == row;
        assert(db.albums@[w].id == id && db.albums@[w].user_id == user.id && album_matches(
            loaded,
            user.uuid@,
            *s3,
            *db,
            db.albums@[w],
            page,
        ));
    }
    Ok(loaded)
}

/// Adds photos to an album the caller owns and answers with the album's
/// full first page. The membership insert is idempotent; an unknown
/// photo id fails the whole request with nothing changed.
pub fn add_photos_to_album(
    db: &mut Store,
    user: &User,
    s3: &S3Access,
    id: i32,
    photo_ids: Vec<i32>,
) -> (r: AlbumResult)
    requires
        old(db).wf(),
    ensures
        final(db).wf(),
        r is Ok <==> (owns_album(*old(db), user.id as int, id as int) && (forall|j: int|
            0 <= j < photo_ids@.len() ==> has_photo_id(
                old(db).photos@,
                #[trigger] photo_ids@[j] as int,
            ))),
        !owns_album(*old(db), user.id as int, id as int) ==> (r matches Err(e) && e.status
            is NotFound && e.message@ == album_not_found_msg(id as int) && *final(db) == *old(db)),
        (r matches Err(e) && e.status is InternalServerError) ==> *final(db) == *old(db),
        r is Ok ==> same_except_memberships(*old(db), *final(db)) && final(db).memberships@
            == add_members(old(db).memberships@, photo_ids@, id, old(db).clock),
        r matches Ok(al) ==> exists|i: int|
            0 <= i < final(db).albums@.len() && #[trigger] final(db).albums@[i].id == id
                && final(db).albums@[i].user_id == user.id && album_matches(
                al,
                user.uuid@,
                *s3,
                *final(db),
                final(db).albums@[i],
                (Pagination { key: None, per_page: DEFAULT_PER_PAGE }),
            ),
{
    let album_row = match fetch_db_album(db, user, id) {
        Ok(a) => a,
        Err(e) => {
            return Err(e);
        },
    };
    match album_row.add_photos(db, &photo_ids) {
        Ok(_) => {},
        Err(e) => {
            return Err(e);
        },
    }
    let ghost row = album_row;
    let loaded = load_photos_page(user, s3, db, album_row, Pagination::first());
    proof {
        let w = choose|i: int| 0 <= i < db.albums@.len() && db.albums@[i] == row;
        assert(db.albums@[w].id == id && db.albums@[w].user_id == user.id && album_matches(
            loaded,
            user.uuid@,
            *s3,
            *db,
            db.albums@[w],
            (Pagination { key: None, per_page: DEFAULT_PER_PAGE }),
        ));
    }
    Ok(loaded)
}

/// Removes photos from an album the caller owns and answers with the
/// album's full first page. Ids that are not members are silently
/// skipped, so removing a stranger is a no-op.
pub fn remove_photos_from_album(
    db: &mut Store,
    user: &User,
    s3: &S3Access,
    id: i32,
    photo_ids: Vec<i32>,
) -> (r: AlbumResult)
    requires
        old(db).wf(),
    ensures
        final(db).wf(),
        r is Ok <==> owns_album(*old(db), user.id as int, id as int),
        r matches Err(e) ==> e.status is NotFound && e.message@ == album_not_found_msg(id as int)
            && *final(db) == *old(db),
        r is Ok ==> same_except_memberships(*old(db), *final(db)) && final(db).memberships@
            == remove_members(old(db).memberships@, photo_ids@, id),
        r matches Ok(al) ==> exists|i: int|
            0 <= i < final(db).albums@.len() && #[trigger] final(db).albums@[i].id == id
                && final(db).albums@[i].user_id == user.id && album_matches(
                al,
                user.uuid@,
                *s3,
                *final(db),
                final(db).albums@[i],
                (Pagination { key: None, per_page: DEFAULT_PER_PAGE }),
            ),
{
    let album_row = match fetch_db_album(db, user, id) {
        Ok(a) => a,
        Err(e) => {
            return Err(e);
        },
    };
    match album_row.remove_photos(db, &photo_ids) {
        Ok(_) => {},
        Err(e) => {
            proof {
                assert(false);
            }
            return Err(e);
        },
    }
    let ghost row = album_row;
    let loaded = load_photos_page(user, s3, db, album_row, Pagination::first());
    proof {
        let w = choose|i: int| 0 <= i < db.albums@.len() && db.albums@[i] == row;
        assert(db.albums@[w].id == id && db.albums@[w].user_id == user.id && album_matches(
            loaded,
            user.uuid@,
            *s3,
            *db,
            db.albums@[w],
            (Pagination { key: None, per_page: DEFAULT_PER_PAGE }),
        ));
    }
    Ok(loaded)
}

/// The requested page of the caller's albums, each with an empty photo
/// page (the listing does not expand contents).
pub fn user_albums(db: &Store, user: &User, page: Pagination) -> (r: Result<Page<Album>, ApiError>)
    requires
        db.wf(),
    ensures
        r is Ok,
        ({
            let rows = album::user_albums_seq(db.albums@, user.id as int);
            let its = page_item_seq(rows, page);
            r matches Ok(pg) ==> {
                &&& pg.key == page.key
                &&& pg.remaining == page_remaining(rows, page)
                &&& match pg.next_key {
                    Some(k) => page_next_key(rows, page) == Some(k as int),
                    None => page_next_key(rows, page) is None,
                }
                &&& pg.items@.len() == its.len()
                &&& forall|i: int|
                    0 <= i < its.len() ==> (#[trigger] pg.items@[i]).id == its[i].id
                        && pg.items@[i].created_at == its[i].created_at && pg.items@[i].name
                        == its[i].name && pg.items@[i].photos.items@.len() == 0
                        && pg.items@[i].photos.remaining == 0
            }
        }),
{
    let db_page = album::Album::for_user(db, user, page);
    let ghost rows = album::user_albums_seq(db.albums@, user.id as int);
    let ghost its = page_item_seq(rows, page);
    let mut items: Vec<Album> = Vec::new();
    let mut j: usize = 0;
    let count = db_page.items.len();
    proof {
        assert(db_page.items@ == its);
    }
    while j < count
        invariant
            0 <= j <= count,
            count == db_page.items@.len(),
            db_page.items@ == its,
            items@.len() == j,
            forall|t: int|
                0 <= t < j ==> (#[trigger] items@[t]).id == its[t].id && items@[t].created_at
                    == its[t].created_at && items@[t].name == its[t].name
                    && items@[t].photos.items@.len() == 0 && items@[t].photos.remaining == 0,
        decreases count - j,
    {
        let row = {
            let r = &db_page.items[j];
            crate::pagination::PageRow::duplicate(r)
        };
        items.push(Album {
            id: row.id,
            created_at: row.created_at,
            name: row.name,
            photos: Page::empty(),
        });
        j += 1;
    }
    Ok(Page {
        key: db_page.key,
        next_key: db_page.next_key,
        remaining: db_page.remaining,
        items,
    })
}

/// The form a publish toggle arrives in.
pub struct ToggleActive {
    pub active: bool,
}

/// A published album as the API serves it: the obfuscated hash stands in
/// for the publish row's id.
#[derive(Debug, PartialEq)]
pub struct UrlFriendlyAlbum {
    pub album_id: i32,
    pub created_at: i64,
    pub hash: String,
    pub active: bool,
}

impl UrlFriendlyAlbum {
    /// Wraps a publish row for the API, encoding its id.
    pub fn new(codec: &Codec, published: PublishedAlbum) -> (r: UrlFriendlyAlbum)
        requires
            published.id >= 0,
        ensures
            r.album_id == published.album_id,
            r.active == published.active,
            r.created_at == published.created_at,
            r.hash@ == hash_encoded(codec.spec_salt(), dec_rep(published.id as int)),
            hash_decoded(codec.spec_salt(), r.hash@) == Some(dec_rep(published.id as int)),
    {
        let hash = encode_id(codec, published.id);
        UrlFriendlyAlbum {
            hash,
            album_id: published.album_id,
            active: published.active,
            created_at: published.created_at,
        }
    }

    /// Recovers a published-album id from a user-supplied string. Any
    /// failure — a string the codec never produced, digits that do not
    /// parse — is reported with the very not-found answer a missing
    /// publish row gets, never as a distinct decode error.
    pub fn decode_id(codec: &Codec, given_id: &str) -> (r: Result<i32, ApiError>)
        ensures
            match r {
                Ok(id) => decoded_pub_id(codec.spec_salt(), given_id@) == Some(id) && id >= 0,
                Err(e) => decoded_pub_id(codec.spec_salt(), given_id@) is None && e.status
                    is NotFound && e.message@ == published_not_found_msg(given_id@),
            },
    {
        match harsh_decode_hex(codec, given_id) {
            Some(digits) => {
                match parse_i32_digits(digits.as_str()) {
                    Some(id) => {
                        proof {
                            crate::decimal::lemma_parse_nonneg(digits@);
                        }
                        Ok(id)
                    },
                    None => pub_not_found(None, given_id),
                }
            },
            None => pub_not_found(None, given_id),
        }
    }
}

/// The uniform not-found answer of the published-album paths.
fn pub_not_found<T>(album: Option<T>, hash_id: &str) -> (r: Result<T, ApiError>)
    ensures
        match album {
            Some(v) => r == Ok::<T, ApiError>(v),
            None => r matches Err(e) && e.status is NotFound && e.message@
                == published_not_found_msg(hash_id@),
        },
{
    let mut message = "no published album with id=".to_owned();
    message.append(hash_id);
    ApiError::not_found(album, message)
}

/// Publishes an album the caller owns and answers with its public,
/// hash-addressed shape. Publishing an album of another user fails like
/// a missing album.
pub fn publish_album(db: &mut Store, user: &User, codec: &Codec, id: i32) -> (r: Result<
    UrlFriendlyAlbum,
    ApiError,
>)
    requires
        old(db).wf(),
    ensures
        final(db).wf(),
        same_except_published(*old(db), *final(db)),
        r is Ok <==> (owns_album(*old(db), user.id as int, id as int) && old(db).next_published_id
            < i32::MAX),
        !owns_album(*old(db), user.id as int, id as int) ==> (r matches Err(e) && e.status
            is NotFound && e.message@ == album_not_found_msg(id as int) && *final(db) == *old(db)),
        (r matches Err(e) && e.status is InternalServerError) ==> *final(db) == *old(db),
        r matches Ok(u) ==> final(db).published@.len() == old(db).published@.len() + 1
            && final(db).published@ == old(db).published@.push(final(db).published@.last())
            && final(db).published@.last().id == old(db).next_published_id
            && final(db).published@.last().album_id == id
            && final(db).published@.last().user_id == user.id
            && final(db).published@.last().active == true,
        r matches Ok(u) ==> u.album_id == id && u.active == true && u.created_at == old(db).clock
            && u.hash@ == hash_encoded(
            codec.spec_salt(),
            dec_rep(old(db).next_published_id as int),
        ) && hash_decoded(codec.spec_salt(), u.hash@) == Some(
            dec_rep(old(db).next_published_id as int),
        ),
{
    let album_row = match fetch_db_album(db, user, id) {
        Ok(a) => a,
        Err(e) => {
            return Err(e);
        },
    };
    let published = match PublishedAlbum::publish(db, album_row) {
        Ok(p) => p,
        Err(e) => {
            return Err(e);
        },
    };
    Ok(UrlFriendlyAlbum::new(codec, published))
}

/// Looks a publish row up by its public hash; an undecodable hash and a
/// decodable one with no row behind it answer with the one uniform
/// published-not-found message.
fn get_published_album(db: &Store, codec: &Codec, hash_id: &String) -> (r: Result<
    PublishedAlbum,
    ApiError,
>)
    requires
        db.wf(),
    ensures
        match r {
            Ok(p) => db.published@.contains(p) && decoded_pub_id(codec.spec_salt(), hash_id@)
                == Some(p.id),
            Err(e) => e.status is NotFound && e.message@ == published_not_found_msg(hash_id@)
                && match decoded_pub_id(codec.spec_salt(), hash_id@) {
                None => true,
                Some(pid) => forall|i: int|
                    0 <= i < db.published@.len() ==> #[trigger] db.published@[i].id != pid,
            },
        },
{
    let published_album_id = match UrlFriendlyAlbum::decode_id(codec, hash_id.as_str()) {
        Ok(id) => id,
        Err(e) => {
            return Err(e);
        },
    };
    let album = PublishedAlbum::by_id(db, published_album_id);
    pub_not_found(album, hash_id.as_str())
}

/// As `get_published_album`, but only for rows the caller owns; a row of
/// another owner is reported exactly like a missing one.
fn get_users_published_album(db: &Store, user: &User, codec: &Codec, hash_id: &String) -> (r:
    Result<PublishedAlbum, ApiError>)
    requires
        db.wf(),
    ensures
        match r {
            Ok(p) => db.published@.contains(p) && decoded_pub_id(codec.spec_salt(), hash_id@)
                == Some(p.id) && p.user_id == user.id,
            Err(e) => e.status is NotFound && e.message@ == published_not_found_msg(hash_id@)
                && match decoded_pub_id(codec.spec_salt(), hash_id@) {
                None => true,
                Some(pid) => forall|i: int|
                    0 <= i < db.published@.len() ==> !(#[trigger] db.published@[i].id == pid
                        && db.published@[i].user_id == user.id),
            },
        },
{
    let album = match get_published_album(db, codec, hash_id) {
        Ok(a) => a,
        Err(e) => {
            return Err(e);
        },
    };
    if album.user_id != user.id {
        proof {
            // the id is unique in a well-formed table, so no row with
            // this id is the caller's
            let w = choose|w: int| 0 <= w < db.published@.len() && db.published@[w] == album;
            assert forall|i: int|
                0 <= i < db.published@.len() implies !(#[trigger] db.published@[i].id == album.id
                && db.published@[i].user_id == user.id) by {
                if db.published@[i].id == album.id && i != w {
                    assert(crate::store::published_ids(db.published@)[i]
                        == db.published@[i].id as int);
                    assert(crate::store::published_ids(db.published@)[w]
                        == db.published@[w].id as int);
                }
            }
        }
        pub_not_found(None, hash_id.as_str())
    } else {
        Ok(album)
    }
}

/// Deletes the caller's publish row behind the hash; afterwards the hash
/// no longer resolves. Wrong-owner and absent rows fail identically.
pub fn delete_published_album(db: &mut Store, user: &User, codec: &Codec, hash_id: String) -> (r:
    Result<(), ApiError>)
    requires
        old(db).wf(),
    ensures
        final(db).wf(),
        same_except_published(*old(db), *final(db)),
        r is Ok <==> (match decoded_pub_id(codec.spec_salt(), hash_id@) {
            Some(pid) => exists|i: int|
                0 <= i < old(db).published@.len() && #[trigger] old(db).published@[i].id == pid
                    && old(db).published@[i].user_id == user.id,
            None => false,
        }),
        r matches Err(e) ==> e.status is NotFound && e.message@ == published_not_found_msg(
            hash_id@,
        ) && *final(db) == *old(db),
        r is Ok ==> (match decoded_pub_id(codec.spec_salt(), hash_id@) {
            Some(pid) => exists|i: int|
                0 <= i < old(db).published@.len() && #[trigger] old(db).published@[i].id == pid
                    && final(db).published@ == old(db).published@.remove(i),
            None => false,
        }),
{
    let album = match get_users_published_album(db, user, codec, &hash_id) {
        Ok(a) => a,
        Err(e) => {
            return Err(e);
        },
    };
    let ghost found = album;
    match album.delete(db) {
        Ok(_) => {},
        Err(e) => {
            proof {
                assert(false);
            }
            return Err(e);
        },
    }
    proof {
        let w = choose|w: int|
            0 <= w < old(db).published@.len() && old(db).published@[w] == found;
        assert(old(db).published@[w].id == found.id);
    }
    Ok(())
}

/// Sets the active flag of the caller's publish row behind the hash; an
/// inactive publish stops resolving for readers but stays deletable and
/// togglable by its owner.
pub fn toggle_published_album(
    db: &mut Store,
    user: &User,
    codec: &Codec,
    hash_id: String,
    active: ToggleActive,
) -> (r: Result<(), ApiError>)
    requires
        old(db).wf(),
    ensures
        final(db).wf(),
        same_except_published(*old(db), *final(db)),
        r is Ok <==> (match decoded_pub_id(codec.spec_salt(), hash_id@) {
            Some(pid) => exists|i: int|
                0 <= i < old(db).published@.len() && #[trigger] old(db).published@[i].id == pid
                    && old(db).published@[i].user_id == user.id,
            None => false,
        }),
        r matches Err(e) ==> e.status is NotFound && e.message@ == published_not_found_msg(
            hash_id@,
        ) && *final(db) == *old(db),
        r is Ok ==> (match decoded_pub_id(codec.spec_salt(), hash_id@) {
            Some(pid) => exists|i: int|
                0 <= i < old(db).published@.len() && #[trigger] old(db).published@[i].id == pid
                    && final(db).published@ == old(db).published@.update(
                    i,
                    (PublishedAlbum { active: active.active, ..old(db).published@[i] }),
                ),
            None => false,
        }),
{
    let album = match get_users_published_album(db, user, codec, &hash_id) {
        Ok(a) => a,
        Err(e) => {
            return Err(e);
        },
    };
    let ghost found = album;
    let updated = match album.set_active(db, active.active) {
        Ok(u) => u,
        Err(e) => {
            proof {
                assert(false);
            }
            return Err(e);
        },
    };
    proof {
        let w = choose|w: int|
            0 <= w < old(db).published@.len() && #[trigger] old(db).published@[w].id == found.id
                && db.published@ == old(db).published@.update(
                w,
                (PublishedAlbum { active: active.active, ..found }),
            );
        assert(old(db).published@[w] == found) by {
            let v = choose|v: int|
                0 <= v < old(db).published@.len() && old(db).published@[v] == found;
            if v != w {
                assert(crate::store::published_ids(old(db).published@)[v]
                    == old(db).published@[v].id as int);
                assert(crate::store::published_ids(old(db).published@)[w]
                    == old(db).published@[w].id as int);
            }
        }
        assert((PublishedAlbum { active: active.active, ..found }) == (PublishedAlbum {
            active: active.active,
            ..old(db).published@[w]
        }));
    }
    Ok(())
}

/// Every publish row of the caller, in its public shape.
pub fn user_published_albums(db: &Store, user: &User, codec: &Codec) -> (r: Result<
    Vec<UrlFriendlyAlbum>,
    ApiError,
>)
    requires
        db.wf(),
    ensures
        r is Ok,
        ({
            let pubs = user_published_seq(db.published@, user.id as int);
            r matches Ok(v) ==> v@.len() == pubs.len() && forall|i: int|
                0 <= i < pubs.len() ==> (#[trigger] v@[i]).album_id == pubs[i].album_id
                    && v@[i].active == pubs[i].active && v@[i].created_at == pubs[i].created_at
                    && v@[i].hash@ == hash_encoded(
                    codec.spec_salt(),
                    dec_rep(pubs[i].id as int),
                ) && hash_decoded(codec.spec_salt(), v@[i].hash@) == Some(
                    dec_rep(pubs[i].id as int),
                )
        }),
{
    let rows = PublishedAlbum::for_user(db, user);
    let ghost pubs = user_published_seq(db.published@, user.id as int);
    proof {
        assert(forall|i: int|
            0 <= i < db.published@.len() ==> (#[trigger] db.published@[i]).id >= 1) by {
            assert(forall|i: int|
                0 <= i < db.published@.len() ==> crate::store::published_ids(db.published@)[i]
                    == #[trigger] db.published@[i].id as int);
        }
        crate::publishing::lemma_user_published_members(
            db.published@,
            user.id as int,
            db.published@.len() as int,
        );
    }
    let mut out: Vec<UrlFriendlyAlbum> = Vec::new();
    let mut i: usize = 0;
    let count = rows.len();
    while i < count
        invariant
            0 <= i <= count,
            count == rows@.len(),
            rows@ == pubs,
            forall|t: int| 0 <= t < pubs.len() ==> (#[trigger] pubs[t]).id >= 1,
            out@.len() == i,
            forall|t: int|
                0 <= t < i ==> (#[trigger] out@[t]).album_id == pubs[t].album_id && out@[t].active
                    == pubs[t].active && out@[t].created_at == pubs[t].created_at && out@[t].hash@
                    == hash_encoded(codec.spec_salt(), dec_rep(pubs[t].id as int)) && hash_decoded(
                    codec.spec_salt(),
                    out@[t].hash@,
                ) == Some(dec_rep(pubs[t].id as int)),
        decreases count - i,
    {
        let row = rows[i].duplicate();
        out.push(UrlFriendlyAlbum::new(codec, row));
        i += 1;
    }
    Ok(out)
}

/// Whether a publish-row id resolves to servable photos: the row exists
/// and is active, its owner exists, and the owner still owns the album.
pub open spec fn published_viewable(s: Store, pid: int) -> bool {
    exists|i: int, j: int, k: int| #[trigger] viewable_witness(s, pid, i, j, k)
}

pub open spec fn viewable_witness(s: Store, pid: int, i: int, j: int, k: int) -> bool {
    &&& 0 <= i < s.published@.len()
    &&& 0 <= j < s.users@.len()
    &&& 0 <= k < s.albums@.len()
    &&& s.published@[i].id == pid
    &&& s.published@[i].active
    &&& s.users@[j].id == s.published@[i].user_id
    &&& s.albums@[k].id == s.published@[i].album_id
    &&& s.albums@[k].user_id == s.users@[j].id
}

/// Serves a page of a published album's photos to anyone holding the
/// hash. Every failure — an undecodable hash, a missing or inactive
/// publish row, a vanished owner or album — is the same not-found
/// answer: a reader learns nothing about why a link is dead.
pub fn get_published_photos(
    db: &Store,
    s3: &S3Access,
    codec: &Codec,
    hash_id: String,
    page: Pagination,
) -> (r: AlbumResult)
    requires
        db.wf(),
    ensures
        r is Ok <==> (match decoded_pub_id(codec.spec_salt(), hash_id@) {
            Some(pid) => published_viewable(*db, pid as int),
            None => false,
        }),
        r matches Err(e) ==> e.status is NotFound && e.message@ == published_not_found_msg(
            hash_id@,
        ),
        r matches Ok(al) ==> (match decoded_pub_id(codec.spec_salt(), hash_id@) {
            Some(pid) => exists|i: int, j: int, k: int|
                #[trigger] viewable_witness(*db, pid as int, i, j, k) && album_matches(
                    al,
                    db.users@[j].uuid@,
                    *s3,
                    *db,
                    db.albums@[k],
                    page,
                ),
            None => false,
        }),
{
    let published = match get_published_album(db, codec, &hash_id) {
        Ok(p) => p,
        Err(e) => {
            return Err(e);
        },
    };
    let ghost pid = published.id as int;
    proof {
        let w = choose|w: int| 0 <= w < db.published@.len() && db.published@[w] == published;
        assert(db.published@[w].id == published.id);
        // the publish-row id picks out exactly one row
        assert forall|i: int|
            0 <= i < db.published@.len() && #[trigger] db.published@[i].id == published.id
            implies db.published@[i] == published by {
            if i != w {
                assert(crate::store::published_ids(db.published@)[i]
                    == db.published@[i].id as int);
                assert(crate::store::published_ids(db.published@)[w]
                    == db.published@[w].id as int);
            }
        }
    }
    if !published.active {
        proof {
            assert(!published_viewable(*db, pid)) by {
                if published_viewable(*db, pid) {
                    let (i, j, k) = choose|i: int, j: int, k: int|
                        viewable_witness(*db, pid, i, j, k);
                    assert(db.published@[i] == published);
                }
            }
        }
        return pub_not_found(None, hash_id.as_str());
    }
    let owner = match User::by_id(db, published.user_id) {
        Some(u) => u,
        None => {
            proof {
                assert(!published_viewable(*db, pid)) by {
                    if published_viewable(*db, pid) {
                        let (i, j, k) = choose|i: int, j: int, k: int|
                            viewable_witness(*db, pid, i, j, k);
                        assert(db.published@[i] == published);
                        assert(db.users@[j].id == published.user_id);
                    }
                }
            }
            return pub_not_found(None, hash_id.as_str());
        },
    };
    let album_row = match album::Album::by_id(db, &owner, published.album_id) {
        Some(a) => a,
        None => {
            proof {
                assert(!published_viewable(*db, pid)) by {
                    if published_viewable(*db, pid) {
                        let (i, j, k) = choose|i: int, j: int, k: int|
                            viewable_witness(*db, pid, i, j, k);
                        assert(db.published@[i] == published);
                        let u = choose|u: int|
                            0 <= u < db.users@.len() && db.users@[u] == owner;
                        assert(db.users@[j].id == owner.id);
                        // the user id picks out exactly one row
                        if j != u {
                            assert(crate::store::user_ids(db.users@)[j]
                                == db.users@[j].id as int);
                            assert(crate::store::user_ids(db.users@)[u]
                                == db.users@[u].id as int);
                        }
                        assert(db.users@[j] == owner);
                        assert(db.albums@[k].id == published.album_id && db.albums@[k].user_id
                            == owner.id);
                    }
                }
            }
            return pub_not_found(None, hash_id.as_str());
        },
    };
    let ghost arow = album_row;
    let ghost ownr = owner;
    let loaded = load_photos_page(&owner, s3, db, album_row, page);
    proof {
        let i = choose|i: int| 0 <= i < db.published@.len() && db.published@[i] == published;
        let j = choose|j: int| 0 <= j < db.users@.len() && db.users@[j] == ownr;
        let k = choose|k: int| 0 <= k < db.albums@.len() && db.albums@[k] == arow;
        assert(viewable_witness(*db, pid, i, j, k));
        assert(album_matches(loaded, db.users@[j].uuid@, *s3, *db, db.albums@[k], page));
    }
    Ok(loaded)
}

} // verus!

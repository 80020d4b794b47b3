//! Photos and their free-form attributes.

use vstd::prelude::*;
use vstd::string::*;
use crate::errors::{ApiError, Status};
use crate::pagination::{Page, PageRow, Pagination, page_item_seq, page_next_key, page_remaining,
    paginate, sorted_by_key};
use crate::store::{Store, has_photo_id, ids_ok, lemma_table_len, photo_ids, same_except_photos};
use crate::user::User;
use crate::util::{lowercase, uuid};

verus! {

/// An uploaded (or still pending) photo row.
#[derive(Debug, PartialEq)]
pub struct Photo {
    pub id: i32,
    pub uuid: String,
    /// The owning user's id.
    pub owner: i32,
    /// Whether the binary object has landed in storage.
    pub present: Option<bool>,
    pub created_at: i64,
    pub updated_at: i64,
}

/// Free-form metadata on a photo, keyed by a lowercased tag.
#[derive(Debug, PartialEq)]
pub struct PhotoAttr {
    pub photo_id: i32,
    pub key: String,
    pub value: String,
    pub updated_at: i64,
}

impl PageRow for Photo {
    open spec fn row_key(&self) -> int {
        self.id as int
    }

    fn key_of(&self) -> (k: i32)
        ensures
            k as int == self.row_key(),
    {
        self.id
    }

    fn duplicate(&self) -> (d: Self)
        ensures
            d == *self,
    {
        Photo {
            id: self.id,
            uuid: self.uuid.clone(),
            owner: self.owner,
            present: self.present,
            created_at: self.created_at,
            updated_at: self.updated_at,
        }
    }
}

impl PhotoAttr {
    pub fn duplicate(&self) -> (r: Self)
        ensures
            r == *self,
    {
        PhotoAttr {
            photo_id: self.photo_id,
            key: self.key.clone(),
            value: self.value.clone(),
            updated_at: self.updated_at,
        }
    }
}

/// The attribute rows of photo `pid` among the first `n` rows of `attrs`,
/// in table order.
pub open spec fn attrs_of_prefix(attrs: Seq<PhotoAttr>, pid: int, n: int) -> Seq<PhotoAttr>
    decreases n,
{
    if n <= 0 {
        Seq::empty()
    } else {
        attrs_of_prefix(attrs, pid, n - 1) + if attrs[n - 1].photo_id == pid {
            seq![attrs[n - 1]]
        } else {
            Seq::empty()
        }
    }
}

/// All attribute rows of photo `pid`, in table order.
pub open spec fn attrs_of(attrs: Seq<PhotoAttr>, pid: int) -> Seq<PhotoAttr> {
    attrs_of_prefix(attrs, pid, attrs.len() as int)
}

/// Collects the attribute rows of one photo.
pub fn collect_attrs(attrs: &Vec<PhotoAttr>, pid: i32) -> (out: Vec<PhotoAttr>)
    ensures
        out@ == attrs_of(attrs@, pid as int),
{
    let mut out: Vec<PhotoAttr> = Vec::new();
    let mut i: usize = 0;
    while i < attrs.len()
        invariant
            0 <= i <= attrs@.len(),
            out@ =~= attrs_of_prefix(attrs@, pid as int, i as int),
        decreases attrs@.len() - i,
    {
        if attrs[i].photo_id == pid {
            out.push(attrs[i].duplicate());
        }
        i += 1;
    }
    out
}

/// The photos owned by `uid` among the first `n` table rows, in id order.
pub open spec fn user_photos_prefix(photos: Seq<Photo>, uid: int, n: int) -> Seq<Photo>
    decreases n,
{
    if n <= 0 {
        Seq::<Photo>::empty()
    } else {
        user_photos_prefix(photos, uid, n - 1) + if photos[n - 1].owner == uid {
            seq![photos[n - 1]]
        } else {
            Seq::<Photo>::empty()
        }
    }
}

/// All photos owned by `uid`, in id order.
pub open spec fn user_photos_seq(photos: Seq<Photo>, uid: int) -> Seq<Photo> {
    user_photos_prefix(photos, uid, photos.len() as int)
}

proof fn lemma_user_photos_sorted(photos: Seq<Photo>, uid: int, n: int)
    requires
        0 <= n <= photos.len(),
        forall|i: int, j: int|
            0 <= i < j < photos.len() ==> #[trigger] photos[i].id < #[trigger] photos[j].id,
    ensures
        sorted_by_key(user_photos_prefix(photos, uid, n)),
        user_photos_prefix(photos, uid, n).len() <= n,
        user_photos_prefix(photos, uid, n).len() > 0 ==> n > 0,
        n > 0 ==> forall|t: int|
            0 <= t < user_photos_prefix(photos, uid, n).len()
                ==> #[trigger] user_photos_prefix(photos, uid, n)[t].row_key() <= photos[n
                - 1].row_key(),
    decreases n,
{
    if n > 0 {
        lemma_user_photos_sorted(photos, uid, n - 1);
        let front = user_photos_prefix(photos, uid, n - 1);
        let whole = user_photos_prefix(photos, uid, n);
        if photos[n - 1].owner == uid {
            assert(whole =~= front.push(photos[n - 1]));
            assert(forall|t: int|
                0 <= t < front.len() ==> #[trigger] front[t].row_key() < photos[n - 1].row_key());
        } else {
            assert(whole =~= front);
            if n >= 2 {
                assert(photos[n - 2].row_key() <= photos[n - 1].row_key());
            }
        }
    }
}

impl Photo {
    /// The requested page of `user`'s photos, each with its attribute rows.
    pub fn by_user(db: &Store, user: &User, page: Pagination) -> (r: Page<
        (Photo, Vec<PhotoAttr>),
    >)
        requires
            db.wf(),
        ensures
            ({
                let rows = user_photos_seq(db.photos@, user.id as int);
                let its = page_item_seq(rows, page);
                &&& r.key == page.key
                &&& r.remaining == page_remaining(rows, page)
                &&& match r.next_key {
                    Some(k) => page_next_key(rows, page) == Some(k as int),
                    None => page_next_key(rows, page) is None,
                }
                &&& r.items@.len() == its.len()
                &&& forall|i: int|
                    0 <= i < its.len() ==> #[trigger] r.items@[i].0 == its[i] && r.items@[i].1@
                        == attrs_of(db.photo_attrs@, its[i].id as int)
            }),
    {
        let ghost uid = user.id as int;
        proof {
            assert(forall|i: int, j: int|
                0 <= i < j < db.photos@.len() ==> #[trigger] db.photos@[i].id
                    < #[trigger] db.photos@[j].id) by {
                assert(forall|i: int|
                    0 <= i < db.photos@.len() ==> photo_ids(db.photos@)[i]
                        == #[trigger] db.photos@[i].id as int);
            }
            lemma_user_photos_sorted(db.photos@, uid, db.photos@.len() as int);
            lemma_table_len(photo_ids(db.photos@), db.next_photo_id as int);
        }
        let mut rows: Vec<Photo> = Vec::new();
        let mut i: usize = 0;
        while i < db.photos.len()
            invariant
                0 <= i <= db.photos@.len(),
                uid == user.id as int,
                rows@ =~= user_photos_prefix(db.photos@, uid, i as int),
            decreases db.photos@.len() - i,
        {
            if db.photos[i].owner == user.id {
                rows.push(db.photos[i].duplicate());
            }
            i += 1;
        }
        proof {
            assert(rows@.len() <= db.photos@.len());
            assert(photo_ids(db.photos@).len() == db.photos@.len());
        }
        let pg = paginate(&rows, page);
        let mut items: Vec<(Photo, Vec<PhotoAttr>)> = Vec::new();
        let ghost its = pg.items@;
        let mut j: usize = 0;
        while j < pg.items.len()
            invariant
                0 <= j <= pg.items@.len(),
                pg.items@ == its,
                items@.len() == j,
                forall|t: int|
                    0 <= t < j ==> #[trigger] items@[t].0 == its[t] && items@[t].1@ == attrs_of(
                        db.photo_attrs@,
                        its[t].id as int,
                    ),
            decreases pg.items@.len() - j,
        {
            let entry = &pg.items[j];
            let attrs = collect_attrs(&db.photo_attrs, entry.id);
            items.push((entry.duplicate(), attrs));
            j += 1;
        }
        proof {
            let rows = user_photos_seq(db.photos@, user.id as int);
            let full = page_item_seq(rows, page);
            assert(its == full);
            assert(items@.len() == full.len());
            assert(forall|t: int|
                0 <= t < full.len() ==> #[trigger] items@[t].0 == full[t] && items@[t].1@
                    == attrs_of(db.photo_attrs@, full[t].id as int));
        }
        Page { key: pg.key, next_key: pg.next_key, remaining: pg.remaining, items }
    }
}

/// A photo about to be inserted: its fresh identity token and its owner.
pub struct NewPhoto {
    pub uuid: String,
    pub owner: i32,
}

impl NewPhoto {
    /// Mints the identity token for a photo `owner` is about to upload.
    pub fn new(owner: &User) -> (r: NewPhoto)
        ensures
            r.owner == owner.id,
            r.uuid@.len() == 32,
    {
        NewPhoto { owner: owner.id, uuid: uuid().0 }
    }

    /// Inserts the photo row, not yet present in storage; fails only when
    /// the table has no id left to hand out.
    pub fn insert(self, db: &mut Store) -> (r: Result<Photo, ApiError>)
        requires
            old(db).wf(),
        ensures
            final(db).wf(),
            same_except_photos(*old(db), *final(db)),
            final(db).photo_attrs@ == old(db).photo_attrs@,
            r is Ok <==> old(db).next_photo_id < i32::MAX,
            r matches Err(e) ==> e.status is InternalServerError && *final(db) == *old(db),
            r matches Ok(p) ==> {
                &&& p.id == old(db).next_photo_id
                &&& p.uuid == self.uuid
                &&& p.owner == self.owner
                &&& p.present is None
                &&& p.created_at == old(db).clock
                &&& final(db).photos@ == old(db).photos@.push(p)
                &&& final(db).next_photo_id == old(db).next_photo_id + 1
            },
    {
        if db.next_photo_id == i32::MAX {
            return Err(ApiError {
                status: Status::InternalServerError,
                message: "unexpected server error".to_owned(),
            });
        }
        let row = Photo {
            id: db.next_photo_id,
            uuid: self.uuid,
            owner: self.owner,
            present: None,
            created_at: db.clock,
            updated_at: db.clock,
        };
        let copy = row.duplicate();
        db.photos.push(row);
        db.next_photo_id = db.next_photo_id + 1;
        proof {
            assert(photo_ids(db.photos@) =~= photo_ids(old(db).photos@).push(copy.id as int));
        }
        Ok(copy)
    }
}

/// An attribute row about to be inserted for a photo.
pub struct NewPhotoAttr {
    pub photo_id: i32,
    pub key: String,
    pub value: String,
}

impl NewPhotoAttr {
    pub fn new(photo: &Photo, value: AttributeKeyValue) -> (r: NewPhotoAttr)
        ensures
            r.photo_id == photo.id,
            r.key == value.key,
            r.value == value.value,
    {
        NewPhotoAttr { photo_id: photo.id, key: value.key, value: value.value }
    }

    /// Inserts the attribute row. Fails, changing nothing, when the photo
    /// does not exist or the photo already carries the key — the foreign
    /// key and uniqueness the schema enforced.
    pub fn insert(self, db: &mut Store) -> (r: Result<PhotoAttr, ApiError>)
        requires
            old(db).wf(),
        ensures
            final(db).wf(),
            same_except_photos(*old(db), *final(db)),
            final(db).photos@ == old(db).photos@,
            final(db).next_photo_id == old(db).next_photo_id,
            r is Ok <==> has_photo_id(old(db).photos@, self.photo_id as int) && (forall|i: int|
                0 <= i < old(db).photo_attrs@.len() ==> !(#[trigger] old(db).photo_attrs@[i].photo_id
                    == self.photo_id && old(db).photo_attrs@[i].key@ == self.key@)),
            r matches Err(e) ==> e.status is InternalServerError && *final(db) == *old(db),
            r matches Ok(a) ==> {
                &&& a.photo_id == self.photo_id
                &&& a.key == self.key
                &&& a.value == self.value
                &&& a.updated_at == old(db).clock
                &&& final(db).photo_attrs@ == old(db).photo_attrs@.push(a)
            },
    {
        if !photo_id_exists(&db.photos, self.photo_id) {
            return Err(ApiError {
                status: Status::InternalServerError,
                message: "unexpected server error".to_owned(),
            });
        }
        let mut i: usize = 0;
        while i < db.photo_attrs.len()
            invariant
                0 <= i <= db.photo_attrs@.len(),
                *db == *old(db),
                old(db).wf(),
                forall|j: int|
                    0 <= j < i ==> !(#[trigger] db.photo_attrs@[j].photo_id == self.photo_id
                        && db.photo_attrs@[j].key@ == self.key@),
            decreases db.photo_attrs@.len() - i,
        {
            if db.photo_attrs[i].photo_id == self.photo_id && db.photo_attrs[i].key.eq(&self.key) {
                return Err(ApiError {
                    status: Status::InternalServerError,
                    message: "unexpected server error".to_owned(),
                });
            }
            i += 1;
        }
        let row = PhotoAttr {
            photo_id: self.photo_id,
            key: self.key,
            value: self.value,
            updated_at: db.clock,
        };
        let copy = row.duplicate();
        proof {
            // the referenced photo's id is below the next free id
            let w = choose|w: int|
                0 <= w < db.photos@.len() && #[trigger] db.photos@[w].id == self.photo_id as int;
            assert(photo_ids(db.photos@)[w] == db.photos@[w].id as int);
        }
        db.photo_attrs.push(row);
        Ok(copy)
    }
}

/// Whether any photo row carries this id.
pub fn photo_id_exists(photos: &Vec<Photo>, pid: i32) -> (r: bool)
    ensures
        r == crate::store::has_photo_id(photos@, pid as int),
{
    let mut i: usize = 0;
    while i < photos.len()
        invariant
            0 <= i <= photos@.len(),
            forall|j: int| 0 <= j < i ==> #[trigger] photos@[j].id != pid,
        decreases photos@.len() - i,
    {
        if photos[i].id == pid {
            return true;
        }
        i += 1;
    }
    false
}

/// A validated attribute key/value pair: the key is non-empty, at most 30
/// bytes, stored lowercase; the value is non-empty and at most 100 bytes.
#[derive(Debug, PartialEq)]
pub struct AttributeKeyValue {
    pub key: String,
    pub value: String,
}

impl AttributeKeyValue {
    /// Checks the table constraints on an attribute and lowercases the key.
    pub fn new(key: &str, value: &str) -> (r: Result<AttributeKeyValue, &'static str>)
        ensures
            key@.len() == 0 ==> r == Err::<AttributeKeyValue, &'static str>("TAG_EMPTY"),
            key@.len() > 30 ==> r == Err::<AttributeKeyValue, &'static str>(
                "TAG_TOO_LONG_MAX_30",
            ),
            0 < key@.len() <= 30 && value@.len() == 0 ==> r == Err::<
                AttributeKeyValue,
                &'static str,
            >("VALUE_EMPTY"),
            0 < key@.len() <= 30 && value@.len() > 100 ==> r == Err::<
                AttributeKeyValue,
                &'static str,
            >("VALUE_TOO_LONG_MAX_100"),
            0 < key@.len() <= 30 && 0 < value@.len() <= 100 ==> (r matches Ok(kv) && kv.key@
                == crate::util::lower_of(key@) && kv.value@ == value@),
            (0 < key@.len() <= 30 && 0 < value@.len() <= 100 && (forall|i: int|
                0 <= i < key@.len() ==> 'a' <= #[trigger] key@[i] <= 'z')) ==> (r matches Ok(kv)
                && kv.key@ == key@),
    {
        if key.is_empty() {
            return Err("TAG_EMPTY");
        }
        if key.unicode_len() > 30 {
            return Err("TAG_TOO_LONG_MAX_30");
        }
        if value.is_empty() {
            return Err("VALUE_EMPTY");
        }
        if value.unicode_len() > 100 {
            return Err("VALUE_TOO_LONG_MAX_100");
        }
        Ok(AttributeKeyValue { key: lowercase(key), value: value.to_owned() })
    }
}

} // verus!

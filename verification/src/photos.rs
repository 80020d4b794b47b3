//! The photo service: the client-facing photo shape, upload bookkeeping
//! and paginated listings.

use vstd::prelude::*;
use crate::errors::{ApiError, Status};
use crate::pagination::{Page, PageRow, Pagination, page_item_seq, page_next_key, page_remaining};
use crate::photo::{self, AttributeKeyValue, NewPhoto, NewPhotoAttr, PhotoAttr, attrs_of,
    user_photos_seq};
use crate::s3::{S3Access, entity_url_of};
use crate::store::{Store, same_except_photos};
use crate::user::User;

verus! {

/// The photo shape the API serves: the stored row decorated with its
/// public URL and its attributes.
#[derive(Debug, PartialEq)]
pub struct Photo {
    pub id: i32,
    pub uuid: String,
    pub url: String,
    pub present: bool,
    pub created_at: i64,
    pub attributes: Vec<(String, String)>,
}

/// How an API photo reflects a stored photo row: fields copied, the URL
/// resolved through the CDN, the attribute rows as key/value pairs in
/// table order.
pub open spec fn photo_matches(
    r: Photo,
    user_uuid: Seq<char>,
    s3: S3Access,
    p: photo::Photo,
    attrs: Seq<PhotoAttr>,
) -> bool {
    &&& r.id == p.id
    &&& r.uuid@ == p.uuid@
    &&& r.present == (p.present == Some(true))
    &&& r.created_at == p.created_at
    &&& r.url@ == entity_url_of(s3.cdn_url@, s3.spec_prefix(), user_uuid, p.uuid@)
    &&& r.attributes@.len() == attrs.len()
    &&& forall|i: int|
        0 <= i < attrs.len() ==> #[trigger] r.attributes@[i].0@ == attrs[i].key@
            && r.attributes@[i].1@ == attrs[i].value@
}

impl Photo {
    /// Decorates a stored photo row for the API.
    pub fn new(user: &User, s3: &S3Access, photo: photo::Photo, attributes: Vec<PhotoAttr>) -> (r:
        Photo)
        ensures
            photo_matches(r, user.uuid@, *s3, photo, attributes@),
    {
        let mut attr_pairs: Vec<(String, String)> = Vec::new();
        let mut i: usize = 0;
        while i < attributes.len()
            invariant
                0 <= i <= attributes@.len(),
                attr_pairs@.len() == i,
                forall|j: int|
                    0 <= j < i ==> #[trigger] attr_pairs@[j].0@ == attributes@[j].key@
                        && attr_pairs@[j].1@ == attributes@[j].value@,
            decreases attributes@.len() - i,
        {
            attr_pairs.push((attributes[i].key.clone(), attributes[i].value.clone()));
            i += 1;
        }
        let url = s3.cdn_url_of_entity(user.uuid.as_str(), photo.uuid.as_str());
        let present = match photo.present {
            Some(p) => p,
            None => false,
        };
        Photo {
            id: photo.id,
            uuid: photo.uuid,
            url,
            present,
            created_at: photo.created_at,
            attributes: attr_pairs,
        }
    }
}

/// A photo row that exists while its bytes are still on the way: the
/// client gets the photo shape plus where to put the bytes.
#[derive(Debug)]
pub struct PendingUpload {
    pub photo: Photo,
    pub upload: crate::s3::UploadResponse,
}

/// Creates the photo row and its filename attribute in one step, and
/// hands back the decorated photo. The filename must validate as an
/// attribute value; the two inserts cannot half-happen (the attribute
/// insert is proved to succeed once the photo row is in).
pub fn create_photo(user: &User, db: &mut Store, s3: &S3Access, upload: &crate::s3::UploadRequest) -> (r:
    Result<Photo, ApiError>)
    requires
        old(db).wf(),
    ensures
        final(db).wf(),
        same_except_photos(*old(db), *final(db)),
        upload.filename@.len() == 0 ==> (r matches Err(e) && e.status is BadRequest && e.message@
            == "VALUE_EMPTY"@ && *final(db) == *old(db)),
        upload.filename@.len() > 100 ==> (r matches Err(e) && e.status is BadRequest && e.message@
            == "VALUE_TOO_LONG_MAX_100"@ && *final(db) == *old(db)),
        0 < upload.filename@.len() <= 100 ==> (r is Ok <==> old(db).next_photo_id < i32::MAX),
        (r matches Err(e) && e.status is InternalServerError) ==> *final(db) == *old(db),
        r matches Ok(p) ==> p.id == old(db).next_photo_id && p.present == false
            && p.created_at == old(db).clock && p.url@ == entity_url_of(
            s3.cdn_url@,
            s3.spec_prefix(),
            user.uuid@,
            p.uuid@,
        ) && p.attributes@.len() == 1 && p.attributes@[0].0@ == "filename"@ && p.attributes@[0].1@
            == upload.filename@,
        r matches Ok(p) ==> final(db).photos@.len() == old(db).photos@.len() + 1
            && final(db).photos@.last().id == p.id
            && final(db).photos@.last().owner == user.id
            && final(db).photos@ == old(db).photos@.push(final(db).photos@.last()),
        r matches Ok(p) ==> final(db).photo_attrs@.len() == old(db).photo_attrs@.len() + 1
            && final(db).photo_attrs@ == old(db).photo_attrs@.push(final(db).photo_attrs@.last())
            && final(db).photo_attrs@.last().photo_id == p.id
            && final(db).photo_attrs@.last().key@ == "filename"@
            && final(db).photo_attrs@.last().value@ == upload.filename@,
{
    proof {
        reveal_strlit("filename");
    }
    let filename = match AttributeKeyValue::new("filename", upload.filename.as_str()) {
        Ok(kv) => kv,
        Err(msg) => {
            return Err(ApiError { status: Status::BadRequest, message: msg.to_owned() });
        },
    };
    proof {
        // "filename" is all lowercase ASCII, so the stored key is itself
        assert(forall|i: int|
            0 <= i < "filename"@.len() ==> 'a' <= #[trigger] "filename"@[i] <= 'z');
    }
    let new_photo = NewPhoto::new(user);
    let photo_row = match new_photo.insert(db) {
        Ok(p) => p,
        Err(e) => {
            return Err(e);
        },
    };
    let attr_row = NewPhotoAttr::new(&photo_row, filename);
    proof {
        // the photo row is fresh: it exists, and no attribute row can
        // reference its id yet, so the attribute insert must succeed
        assert(crate::store::has_photo_id(db.photos@, photo_row.id as int)) by {
            assert(db.photos@[db.photos@.len() - 1].id == photo_row.id);
        }
        assert(forall|i: int|
            0 <= i < db.photo_attrs@.len() ==> #[trigger] db.photo_attrs@[i].photo_id
                < photo_row.id);
    }
    let attr = match attr_row.insert(db) {
        Ok(a) => a,
        Err(_) => {
            proof {
                assert(false);
            }
            return Err(ApiError {
                status: Status::InternalServerError,
                message: "unexpected server error".to_owned(),
            });
        },
    };
    let mut attrs: Vec<PhotoAttr> = Vec::new();
    attrs.push(attr);
    let decorated = Photo::new(user, s3, photo_row, attrs);
    proof {
        assert(decorated.id == old(db).next_photo_id);
        assert(decorated.present == false);
        assert(decorated.created_at == old(db).clock);
        assert(decorated.url@ == entity_url_of(
            s3.cdn_url@,
            s3.spec_prefix(),
            user.uuid@,
            decorated.uuid@,
        ));
        assert(decorated.attributes@.len() == 1);
        assert(decorated.attributes@[0].0@ == "filename"@);
        assert(decorated.attributes@[0].1@ == upload.filename@);
        assert(db.photos@.last().id == decorated.id);
        assert(db.photos@ == old(db).photos@.push(db.photos@.last()));
        assert(db.photo_attrs@ == old(db).photo_attrs@.push(db.photo_attrs@.last()));
        assert(db.photo_attrs@.last().photo_id == decorated.id);
        assert(db.photo_attrs@.last().key@ == "filename"@);
        assert(db.photo_attrs@.last().value@ == upload.filename@);
    }
    Ok(decorated)
}

/// The requested page of `user`'s photos, decorated for the API.
pub fn user_photos(user: &User, db: &Store, s3: &S3Access, pagination: Pagination) -> (r: Result<
    Page<Photo>,
    ApiError,
>)
    requires
        db.wf(),
    ensures
        r is Ok,
        ({
            let rows = user_photos_seq(db.photos@, user.id as int);
            let its = page_item_seq(rows, pagination);
            r matches Ok(page) ==> {
                &&& page.key == pagination.key
                &&& page.remaining == page_remaining(rows, pagination)
                &&& match page.next_key {
                    Some(k) => page_next_key(rows, pagination) == Some(k as int),
                    None => page_next_key(rows, pagination) is None,
                }
                &&& page.items@.len() == its.len()
                &&& forall|i: int|
                    0 <= i < its.len() ==> photo_matches(
                        #[trigger] page.items@[i],
                        user.uuid@,
                        *s3,
                        its[i],
                        attrs_of(db.photo_attrs@, its[i].id as int),
                    )
            }
        }),
{
    let pg = photo::Photo::by_user(db, user, pagination);
    let ghost rows = user_photos_seq(db.photos@, user.id as int);
    let ghost its = page_item_seq(rows, pagination);
    let mut items: Vec<Photo> = Vec::new();
    proof {
        assert(pg.items@.len() == its.len());
        assert forall|t: int| 0 <= t < pg.items@.len() implies (#[trigger] pg.items@[t]).0
            == its[t] && pg.items@[t].1@ == attrs_of(db.photo_attrs@, its[t].id as int) by {
            assert(pg.items@[t].0 == its[t]);
        }
    }
    let mut j: usize = 0;
    let count = pg.items.len();
    while j < count
        invariant
            0 <= j <= count,
            count == pg.items@.len(),
            pg.items@.len() == its.len(),
            forall|t: int|
                0 <= t < pg.items@.len() ==> (#[trigger] pg.items@[t]).0 == its[t]
                    && pg.items@[t].1@ == attrs_of(db.photo_attrs@, its[t].id as int),
            items@.len() == j,
            forall|t: int|
                0 <= t < j ==> photo_matches(
                    #[trigger] items@[t],
                    user.uuid@,
                    *s3,
                    its[t],
                    attrs_of(db.photo_attrs@, its[t].id as int),
                ),
            db.wf(),
        decreases count - j,
    {
        let (p, attrs) = {
            let pair = &pg.items[j];
            (pair.0.duplicate(), clone_attr_vec(&pair.1))
        };
        items.push(Photo::new(user, s3, p, attrs));
        j += 1;
    }
    Ok(Page { key: pg.key, next_key: pg.next_key, remaining: pg.remaining, items })
}

pub(crate) fn clone_attr_vec(v: &Vec<PhotoAttr>) -> (r: Vec<PhotoAttr>)
    ensures
        r@ == v@,
{
    let mut out: Vec<PhotoAttr> = Vec::new();
    let mut i: usize = 0;
    while i < v.len()
        invariant
            0 <= i <= v@.len(),
            out@ =~= v@.take(i as int),
        decreases v@.len() - i,
    {
        out.push(v[i].duplicate());
        proof {
            assert(v@.take(i as int + 1) =~= v@.take(i as int).push(v@[i as int]));
        }
        i += 1;
    }
    proof {
        assert(v@.take(v@.len() as int) =~= v@);
    }
    out
}

} // verus!

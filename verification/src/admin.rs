//! The admin dashboard numbers: account and photo counts alongside the
//! storage configuration.

use vstd::prelude::*;
use crate::errors::ApiError;
use crate::photo::Photo;
use crate::s3::S3Access;
use crate::store::Store;
use crate::user::User;

verus! {

/// Everything the dashboard shows.
#[derive(Debug)]
pub struct AdminContext {
    pub users: UserStats,
    pub s3: S3Stats,
    pub photos: PhotoStats,
}

#[derive(Debug)]
pub struct UserStats {
    pub total: i64,
    pub subscribed: i64,
}

#[derive(Debug)]
pub struct S3Stats {
    pub bucket: String,
    pub cdn: String,
    pub cdn_prefix: Option<String>,
}

#[derive(Debug)]
pub struct PhotoStats {
    pub created: i64,
    pub uploaded: i64,
}

/// How many of the first `n` accounts carry a subscription expiry.
pub open spec fn subscribed_count(users: Seq<User>, n: int) -> int
    decreases n,
{
    if n <= 0 {
        0
    } else {
        subscribed_count(users, n - 1) + if users[n - 1].subscription_expires is Some {
            1int
        } else {
            0int
        }
    }
}

/// How many of the first `n` photos have a recorded presence flag.
pub open spec fn present_count(photos: Seq<Photo>, n: int) -> int
    decreases n,
{
    if n <= 0 {
        0
    } else {
        present_count(photos, n - 1) + if photos[n - 1].present is Some {
            1int
        } else {
            0int
        }
    }
}

fn count_users(db: &Store) -> (r: UserStats)
    requires
        db.users@.len() <= i64::MAX,
    ensures
        r.total == db.users@.len(),
        r.subscribed == subscribed_count(db.users@, db.users@.len() as int),
{
    let mut subscribed: i64 = 0;
    let mut i: usize = 0;
    while i < db.users.len()
        invariant
            0 <= i <= db.users@.len(),
            db.users@.len() <= i64::MAX,
            subscribed == subscribed_count(db.users@, i as int),
            0 <= subscribed <= i,
        decreases db.users@.len() - i,
    {
        if db.users[i].subscription_expires.is_some() {
            subscribed = subscribed + 1;
        }
        i += 1;
    }
    UserStats { total: db.users.len() as i64, subscribed }
}

fn count_photos(db: &Store) -> (r: PhotoStats)
    requires
        db.photos@.len() <= i64::MAX,
    ensures
        r.created == db.photos@.len(),
        r.uploaded == present_count(db.photos@, db.photos@.len() as int),
{
    let mut uploaded: i64 = 0;
    let mut i: usize = 0;
    while i < db.photos.len()
        invariant
            0 <= i <= db.photos@.len(),
            db.photos@.len() <= i64::MAX,
            uploaded == present_count(db.photos@, i as int),
            0 <= uploaded <= i,
        decreases db.photos@.len() - i,
    {
        if db.photos[i].present.is_some() {
            uploaded = uploaded + 1;
        }
        i += 1;
    }
    PhotoStats { created: db.photos.len() as i64, uploaded }
}

fn s3_stats(s3: &S3Access) -> (r: S3Stats)
    ensures
        r.bucket == s3.bucket,
        r.cdn == s3.cdn_url,
        r.cdn_prefix == s3.cdn_prefix,
{
    let cdn_prefix = match &s3.cdn_prefix {
        Some(p) => Some(p.clone()),
        None => None,
    };
    S3Stats { bucket: s3.bucket.clone(), cdn: s3.cdn_url.clone(), cdn_prefix }
}

/// Collects the dashboard: total and subscribed accounts, created and
/// present photos, and the storage configuration.
pub fn fetch_dashboard(s3: &S3Access, db: &Store) -> (r: Result<AdminContext, ApiError>)
    requires
        db.wf(),
    ensures
        r is Ok,
        r matches Ok(ctx) ==> ctx.users.total == db.users@.len() && ctx.users.subscribed
            == subscribed_count(db.users@, db.users@.len() as int) && ctx.photos.created
            == db.photos@.len() && ctx.photos.uploaded == present_count(
            db.photos@,
            db.photos@.len() as int,
        ) && ctx.s3.bucket == s3.bucket && ctx.s3.cdn == s3.cdn_url && ctx.s3.cdn_prefix
            == s3.cdn_prefix,
{
    proof {
        crate::store::lemma_table_len(
            crate::store::user_ids(db.users@),
            db.next_user_id as int,
        );
        crate::store::lemma_table_len(
            crate::store::photo_ids(db.photos@),
            db.next_photo_id as int,
        );
    }
    let users = count_users(db);
    let s3 = s3_stats(s3);
    let photos = count_photos(db);
    Ok(AdminContext { users, s3, photos })
}

} // verus!

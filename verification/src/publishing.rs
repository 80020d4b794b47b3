//! Published albums: public, owner-togglable references to an album.

use vstd::prelude::*;
use crate::album::Album;
use crate::errors::{ApiError, Status};
use crate::store::{Store, published_ids, same_except_published};
use crate::user::User;
use crate::pagination::PageRow;

verus! {

/// A publish row; `active` is the only state it carries.
#[derive(Debug, PartialEq)]
pub struct PublishedAlbum {
    pub id: i32,
    pub album_id: i32,
    pub user_id: i32,
    pub active: bool,
    pub created_at: i64,
}

impl PageRow for PublishedAlbum {
    open spec fn row_key(&self) -> int {
        self.id as int
    }

    fn key_of(&self) -> (k: i32)
        ensures
            k as int == self.row_key(),
    {
        self.id
    }

    fn duplicate(&self) -> (d: Self)
        ensures
            d == *self,
    {
        PublishedAlbum {
            id: self.id,
            album_id: self.album_id,
            user_id: self.user_id,
            active: self.active,
            created_at: self.created_at,
        }
    }
}

/// The publish rows of user `uid` among the first `n` table rows, in order.
pub open spec fn user_published_prefix(
    pubs: Seq<PublishedAlbum>,
    uid: int,
    n: int,
) -> Seq<PublishedAlbum>
    decreases n,
{
    if n <= 0 {
        Seq::<PublishedAlbum>::empty()
    } else {
        user_published_prefix(pubs, uid, n - 1) + if pubs[n - 1].user_id == uid {
            seq![pubs[n - 1]]
        } else {
            Seq::<PublishedAlbum>::empty()
        }
    }
}

/// All publish rows of user `uid`, in order.
pub open spec fn user_published_seq(pubs: Seq<PublishedAlbum>, uid: int) -> Seq<PublishedAlbum> {
    user_published_prefix(pubs, uid, pubs.len() as int)
}

/// Rows restricted to one owner keep the table's positive ids.
pub proof fn lemma_user_published_members(pubs: Seq<PublishedAlbum>, uid: int, n: int)
    requires
        0 <= n <= pubs.len(),
        forall|i: int| 0 <= i < pubs.len() ==> (#[trigger] pubs[i]).id >= 1,
    ensures
        forall|t: int|
            0 <= t < user_published_prefix(pubs, uid, n).len() ==> (#[trigger] user_published_prefix(
                pubs,
                uid,
                n,
            )[t]).id >= 1,
    decreases n,
{
    if n > 0 {
        lemma_user_published_members(pubs, uid, n - 1);
        let front = user_published_prefix(pubs, uid, n - 1);
        let whole = user_published_prefix(pubs, uid, n);
        if pubs[n - 1].user_id == uid {
            assert(whole =~= front.push(pubs[n - 1]));
        } else {
            assert(whole =~= front);
        }
    }
}

impl PublishedAlbum {
    /// Inserts a publish row for `album`, active from the start; fails
    /// only when the table has no id left to hand out.
    pub fn publish(db: &mut Store, album: Album) -> (r: Result<PublishedAlbum, ApiError>)
        requires
            old(db).wf(),
        ensures
            final(db).wf(),
            same_except_published(*old(db), *final(db)),
            r is Ok <==> old(db).next_published_id < i32::MAX,
            r matches Err(e) ==> e.status is InternalServerError && *final(db) == *old(db),
            r matches Ok(p) ==> {
                &&& p.id == old(db).next_published_id
                &&& p.album_id == album.id
                &&& p.user_id == album.user_id
                &&& p.active == true
                &&& p.created_at == old(db).clock
                &&& final(db).published@ == old(db).published@.push(p)
                &&& final(db).next_published_id == old(db).next_published_id + 1
            },
    {
        if db.next_published_id == i32::MAX {
            return Err(ApiError {
                status: Status::InternalServerError,
                message: "unexpected server error".to_owned(),
            });
        }
        let row = PublishedAlbum {
            id: db.next_published_id,
            album_id: album.id,
            user_id: album.user_id,
            active: true,
            created_at: db.clock,
        };
        let copy = row.duplicate();
        db.published.push(row);
        db.next_published_id = db.next_published_id + 1;
        proof {
            assert(published_ids(db.published@) =~= published_ids(old(db).published@).push(
                copy.id as int,
            ));
        }
        Ok(copy)
    }

    /// Flips the active flag of this publish row; fails, changing
    /// nothing, when the row is gone.
    pub fn set_active(self, db: &mut Store, new_active: bool) -> (r: Result<
        PublishedAlbum,
        ApiError,
    >)
        requires
            old(db).wf(),
        ensures
            final(db).wf(),
            same_except_published(*old(db), *final(db)),
            final(db).next_published_id == old(db).next_published_id,
            match r {
                Ok(p) => p == (PublishedAlbum { active: new_active, ..self }) && exists|i: int|
                    0 <= i < old(db).published@.len() && #[trigger] old(db).published@[i].id
                        == self.id && final(db).published@ == old(db).published@.update(i, p),
                Err(e) => e.status is InternalServerError && *final(db) == *old(db) && forall|
                    i: int,
                |
                    0 <= i < old(db).published@.len() ==> #[trigger] old(db).published@[i].id
                        != self.id,
            },
    {
        let mut i: usize = 0;
        while i < db.published.len()
            invariant
                0 <= i <= db.published@.len(),
                *db == *old(db),
                old(db).wf(),
                forall|j: int| 0 <= j < i ==> #[trigger] db.published@[j].id != self.id,
            decreases db.published@.len() - i,
        {
            if db.published[i].id == self.id {
                let row = PublishedAlbum { active: new_active, ..self };
                let copy = row.duplicate();
                let ghost before = db.published@;
                db.published.remove(i);
                db.published.insert(i, row);
                proof {
                    assert(db.published@ =~= before.update(i as int, copy));
                    assert(published_ids(db.published@) =~= published_ids(before).update(
                        i as int,
                        copy.id as int,
                    ));
                    assert(published_ids(db.published@) =~= published_ids(before)) by {
                        assert(before[i as int].id == copy.id);
                        assert(published_ids(before)[i as int] == before[i as int].id as int);
                    }
                }
                return Ok(copy);
            }
            i += 1;
        }
        Err(ApiError {
            status: Status::InternalServerError,
            message: "unexpected server error".to_owned(),
        })
    }

    /// Deletes this publish row; deleting an already absent row is a
    /// silent no-op.
    pub fn delete(self, db: &mut Store) -> (r: Result<(), ApiError>)
        requires
            old(db).wf(),
        ensures
            final(db).wf(),
            same_except_published(*old(db), *final(db)),
            final(db).next_published_id == old(db).next_published_id,
            r is Ok,
            (exists|i: int|
                0 <= i < old(db).published@.len() && #[trigger] old(db).published@[i].id == self.id
                    && final(db).published@ == old(db).published@.remove(i)) || (*final(db) == *old(
                db,
            ) && forall|i: int|
                0 <= i < old(db).published@.len() ==> #[trigger] old(db).published@[i].id
                    != self.id),
    {
        let mut i: usize = 0;
        while i < db.published.len()
            invariant
                0 <= i <= db.published@.len(),
                *db == *old(db),
                old(db).wf(),
                forall|j: int| 0 <= j < i ==> #[trigger] db.published@[j].id != self.id,
            decreases db.published@.len() - i,
        {
            if db.published[i].id == self.id {
                let ghost before = db.published@;
                db.published.remove(i);
                proof {
                    assert forall|a: int, b: int|
                        0 <= a < b < published_ids(db.published@).len() implies #[trigger] published_ids(
                        db.published@,
                    )[a] < #[trigger] published_ids(db.published@)[b] by {
                        let a0 = if a < i as int {
                            a
                        } else {
                            a + 1
                        };
                        let b0 = if b < i as int {
                            b
                        } else {
                            b + 1
                        };
                        assert(published_ids(before)[a0] < published_ids(before)[b0]);
                        assert(published_ids(db.published@)[a] == published_ids(before)[a0]);
                        assert(published_ids(db.published@)[b] == published_ids(before)[b0]);
                    }
                    assert forall|a: int|
                        0 <= a < published_ids(db.published@).len() implies 1
                        <= #[trigger] published_ids(db.published@)[a]
                        < db.next_published_id as int by {
                        let a0 = if a < i as int {
                            a
                        } else {
                            a + 1
                        };
                        assert(published_ids(db.published@)[a] == published_ids(before)[a0]);
                        assert(1 <= published_ids(before)[a0] < db.next_published_id as int);
                    }
                }
                return Ok(());
            }
            i += 1;
        }
        Ok(())
    }

    /// The publish row with this id, whoever owns it: published links are
    /// looked up without a session.
    pub fn by_id(db: &Store, given_id: i32) -> (r: Option<PublishedAlbum>)
        ensures
            match r {
                Some(p) => db.published@.contains(p) && p.id == given_id,
                None => forall|i: int|
                    0 <= i < db.published@.len() ==> #[trigger] db.published@[i].id != given_id,
            },
    {
        let mut i: usize = 0;
        while i < db.published.len()
            invariant
                0 <= i <= db.published@.len(),
                forall|j: int| 0 <= j < i ==> #[trigger] db.published@[j].id != given_id,
            decreases db.published@.len() - i,
        {
            if db.published[i].id == given_id {
                return Some(db.published[i].duplicate());
            }
            i += 1;
        }
        None
    }

    /// Every publish row of `user`, in table order.
    pub fn for_user(db: &Store, user: &User) -> (r: Vec<PublishedAlbum>)
        ensures
            r@ == user_published_seq(db.published@, user.id as int),
    {
        let mut out: Vec<PublishedAlbum> = Vec::new();
        let mut i: usize = 0;
        while i < db.published.len()
            invariant
                0 <= i <= db.published@.len(),
                out@ =~= user_published_prefix(db.published@, user.id as int, i as int),
            decreases db.published@.len() - i,
        {
            if db.published[i].user_id == user.id {
                out.push(db.published[i].duplicate());
            }
            i += 1;
        }
        out
    }
}

} // verus!

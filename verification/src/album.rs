//! Albums and the membership rows tying photos into them.

use vstd::prelude::*;
use crate::errors::{ApiError, Status};
use crate::pagination::{Page, PageRow, Pagination, page_correct, page_item_seq, page_next_key,
    page_remaining, paginate, sorted_by_key};
use crate::photo::{Photo, PhotoAttr, attrs_of, collect_attrs};
use crate::store::{Store, album_ids, ids_ok, is_member, member_pairs_unique, member_row,
    lemma_table_len, has_photo_id, same_except_albums, same_except_memberships};
use crate::user::User;

verus! {

/// A photo album row.
#[derive(Debug, PartialEq)]
pub struct Album {
    pub id: i32,
    pub user_id: i32,
    pub name: Option<String>,
    pub created_at: i64,
}

/// The join row tying a photo into an album, with presentation metadata.
#[derive(Debug, PartialEq)]
pub struct AlbumMembership {
    pub photo_id: i32,
    pub album_id: i32,
    pub ordering: Option<i16>,
    pub caption: Option<String>,
    pub updated_at: i64,
}

fn clone_opt_string(o: &Option<String>) -> (r: Option<String>)
    ensures
        r == *o,
{
    match o {
        Some(s) => Some(s.clone()),
        None => None,
    }
}

impl PageRow for Album {
    open spec fn row_key(&self) -> int {
        self.id as int
    }

    fn key_of(&self) -> (k: i32)
        ensures
            k as int == self.row_key(),
    {
        self.id
    }

    fn duplicate(&self) -> (d: Self)
        ensures
            d == *self,
    {
        Album {
            id: self.id,
            user_id: self.user_id,
            name: clone_opt_string(&self.name),
            created_at: self.created_at,
        }
    }
}

impl AlbumMembership {
    pub fn duplicate(&self) -> (r: Self)
        ensures
            r == *self,
    {
        AlbumMembership {
            photo_id: self.photo_id,
            album_id: self.album_id,
            ordering: self.ordering,
            caption: clone_opt_string(&self.caption),
            updated_at: self.updated_at,
        }
    }
}

/// One row of the membership-to-photo join an album page is built from.
#[derive(Debug, PartialEq)]
pub struct AlbumPhoto {
    pub photo: Photo,
    pub membership: AlbumMembership,
}

impl PageRow for AlbumPhoto {
    open spec fn row_key(&self) -> int {
        self.photo.id as int
    }

    fn key_of(&self) -> (k: i32)
        ensures
            k as int == self.row_key(),
    {
        self.photo.id
    }

    fn duplicate(&self) -> (d: Self)
        ensures
            d == *self,
    {
        AlbumPhoto { photo: self.photo.duplicate(), membership: self.membership.duplicate() }
    }
}

/// The albums of user `uid` among the first `n` table rows, in id order.
pub open spec fn user_albums_prefix(albums: Seq<Album>, uid: int, n: int) -> Seq<Album>
    decreases n,
{
    if n <= 0 {
        Seq::<Album>::empty()
    } else {
        user_albums_prefix(albums, uid, n - 1) + if albums[n - 1].user_id == uid {
            seq![albums[n - 1]]
        } else {
            Seq::<Album>::empty()
        }
    }
}

/// All albums of user `uid`, in id order.
pub open spec fn user_albums_seq(albums: Seq<Album>, uid: int) -> Seq<Album> {
    user_albums_prefix(albums, uid, albums.len() as int)
}

/// A table ordered by strictly increasing id stays so ordered after
/// restriction to one owner.
proof fn lemma_user_albums_sorted(albums: Seq<Album>, uid: int, n: int)
    requires
        0 <= n <= albums.len(),
        forall|i: int, j: int|
            0 <= i < j < albums.len() ==> #[trigger] albums[i].id < #[trigger] albums[j].id,
    ensures
        sorted_by_key(user_albums_prefix(albums, uid, n)),
        user_albums_prefix(albums, uid, n).len() <= n,
        user_albums_prefix(albums, uid, n).len() > 0 ==> n > 0,
        n > 0 ==> forall|t: int|
            0 <= t < user_albums_prefix(albums, uid, n).len()
                ==> #[trigger] user_albums_prefix(albums, uid, n)[t].row_key() <= albums[n
                - 1].row_key(),
    decreases n,
{
    if n > 0 {
        lemma_user_albums_sorted(albums, uid, n - 1);
        let front = user_albums_prefix(albums, uid, n - 1);
        let whole = user_albums_prefix(albums, uid, n);
        if albums[n - 1].user_id == uid {
            assert(whole =~= front.push(albums[n - 1]));
            assert(forall|t: int|
                0 <= t < front.len() ==> #[trigger] front[t].row_key() < albums[n - 1].row_key());
        } else {
            assert(whole =~= front);
            if n >= 2 {
                assert(albums[n - 2].row_key() <= albums[n - 1].row_key());
            }
        }
    }
}

/// The join of the membership table with the photo table for album `aid`,
/// over the first `n` photo rows, in photo-id order.
pub open spec fn album_join_prefix(
    photos: Seq<Photo>,
    ms: Seq<AlbumMembership>,
    aid: int,
    n: int,
) -> Seq<AlbumPhoto>
    decreases n,
{
    if n <= 0 {
        Seq::<AlbumPhoto>::empty()
    } else {
        album_join_prefix(photos, ms, aid, n - 1) + if is_member(
            ms,
            photos[n - 1].id as int,
            aid,
        ) {
            seq![
                AlbumPhoto {
                    photo: photos[n - 1],
                    membership: member_row(ms, photos[n - 1].id as int, aid),
                },
            ]
        } else {
            Seq::<AlbumPhoto>::empty()
        }
    }
}

/// The full membership join for album `aid`: its member photos with their
/// membership rows, in photo-id order.
pub open spec fn album_join(photos: Seq<Photo>, ms: Seq<AlbumMembership>, aid: int) -> Seq<
    AlbumPhoto,
> {
    album_join_prefix(photos, ms, aid, photos.len() as int)
}

proof fn lemma_album_join_sorted(photos: Seq<Photo>, ms: Seq<AlbumMembership>, aid: int, n: int)
    requires
        0 <= n <= photos.len(),
        forall|i: int, j: int|
            0 <= i < j < photos.len() ==> #[trigger] photos[i].id < #[trigger] photos[j].id,
    ensures
        sorted_by_key(album_join_prefix(photos, ms, aid, n)),
        album_join_prefix(photos, ms, aid, n).len() <= n,
        album_join_prefix(photos, ms, aid, n).len() > 0 ==> n > 0,
        n > 0 ==> forall|t: int|
            0 <= t < album_join_prefix(photos, ms, aid, n).len()
                ==> #[trigger] album_join_prefix(photos, ms, aid, n)[t].row_key() <= photos[n
                - 1].row_key(),
    decreases n,
{
    if n > 0 {
        lemma_album_join_sorted(photos, ms, aid, n - 1);
        let front = album_join_prefix(photos, ms, aid, n - 1);
        let whole = album_join_prefix(photos, ms, aid, n);
        if is_member(ms, photos[n - 1].id as int, aid) {
            let e = AlbumPhoto {
                photo: photos[n - 1],
                membership: member_row(ms, photos[n - 1].id as int, aid),
            };
            assert(whole =~= front.push(e));
            assert(forall|t: int|
                0 <= t < front.len() ==> #[trigger] front[t].row_key() < photos[n - 1].row_key());
        } else {
            assert(whole =~= front);
            if n >= 2 {
                assert(photos[n - 2].row_key() <= photos[n - 1].row_key());
            }
        }
    }
}

/// Every photo of the join carries a positive id, as the photo table does.
proof fn lemma_album_join_positive(photos: Seq<Photo>, ms: Seq<AlbumMembership>, aid: int, n: int)
    requires
        0 <= n <= photos.len(),
        forall|i: int| 0 <= i < photos.len() ==> (#[trigger] photos[i]).id >= 1,
    ensures
        forall|t: int|
            0 <= t < album_join_prefix(photos, ms, aid, n).len() ==> (#[trigger] album_join_prefix(
                photos,
                ms,
                aid,
                n,
            )[t]).photo.id >= 1,
    decreases n,
{
    if n > 0 {
        lemma_album_join_positive(photos, ms, aid, n - 1);
        let front = album_join_prefix(photos, ms, aid, n - 1);
        let whole = album_join_prefix(photos, ms, aid, n);
        if is_member(ms, photos[n - 1].id as int, aid) {
            assert(whole =~= front.push(
                AlbumPhoto {
                    photo: photos[n - 1],
                    membership: member_row(ms, photos[n - 1].id as int, aid),
                },
            ));
        } else {
            assert(whole =~= front);
        }
    }
}

/// First-page counts over an album's photos: with no cursor, an album of
/// `n` member photos fits in one page of size `p` exactly when `n <= p`,
/// and then nothing remains beyond the page; past that the page holds
/// exactly `p` photos, `n - p` remain, and the cursor is the id of the
/// last (greatest-id) member photo. The cursor is absent exactly when
/// the album is empty.
pub proof fn lemma_album_first_page(s: Store, aid: int, p: Pagination)
    requires
        s.wf(),
        p.key is None,
        p.per_page >= 1,
    ensures
        ({
            let rows = album_join(s.photos@, s.memberships@, aid);
            &&& rows.len() <= p.per_page ==> crate::pagination::page_item_seq(rows, p) == rows
                && crate::pagination::page_remaining(rows, p) == 0
            &&& rows.len() > p.per_page ==> crate::pagination::page_item_seq(rows, p) == rows.take(
                p.per_page as int,
            ) && crate::pagination::page_remaining(rows, p) == rows.len() - p.per_page
            &&& (rows.len() == 0 <==> crate::pagination::page_next_key(rows, p) is None)
            &&& rows.len() > 0 ==> crate::pagination::page_next_key(rows, p) == Some(
                rows.last().row_key(),
            )
        }),
{
    assert(forall|i: int, j: int|
        0 <= i < j < s.photos@.len() ==> #[trigger] s.photos@[i].id
            < #[trigger] s.photos@[j].id) by {
        assert(forall|i: int|
            0 <= i < s.photos@.len() ==> crate::store::photo_ids(s.photos@)[i]
                == #[trigger] s.photos@[i].id as int);
    }
    assert(forall|i: int| 0 <= i < s.photos@.len() ==> (#[trigger] s.photos@[i]).id >= 1) by {
        assert(forall|i: int|
            0 <= i < s.photos@.len() ==> crate::store::photo_ids(s.photos@)[i]
                == #[trigger] s.photos@[i].id as int);
    }
    lemma_album_join_sorted(s.photos@, s.memberships@, aid, s.photos@.len() as int);
    lemma_album_join_positive(s.photos@, s.memberships@, aid, s.photos@.len() as int);
    crate::pagination::lemma_first_page_counts(
        album_join(s.photos@, s.memberships@, aid),
        p,
    );
}

/// How many membership rows tie photos into album `aid`.
pub open spec fn album_member_count(ms: Seq<AlbumMembership>, aid: int) -> int
    decreases ms.len(),
{
    if ms.len() == 0 {
        0
    } else {
        album_member_count(ms.drop_last(), aid) + if ms.last().album_id == aid {
            1int
        } else {
            0int
        }
    }
}

/// Membership of a pair after one row is appended.
proof fn lemma_push_membership(ms: Seq<AlbumMembership>, row: AlbumMembership, q: int, b: int)
    ensures
        is_member(ms.push(row), q, b) <==> (is_member(ms, q, b) || (q == row.photo_id
            && b == row.album_id)),
{
    let res = ms.push(row);
    if q == row.photo_id && b == row.album_id {
        assert(res[ms.len() as int].photo_id == q && res[ms.len() as int].album_id == b);
    }
    if is_member(ms, q, b) {
        let w = choose|w: int|
            0 <= w < ms.len() && #[trigger] ms[w].photo_id == q && ms[w].album_id == b;
        assert(res[w].photo_id == q && res[w].album_id == b);
    }
    if is_member(res, q, b) && !(q == row.photo_id && b == row.album_id) {
        let w = choose|w: int|
            0 <= w < res.len() && #[trigger] res[w].photo_id == q && res[w].album_id == b;
        assert(w < ms.len());
        assert(ms[w].photo_id == q && ms[w].album_id == b);
    }
}

/// Appending one membership row grows the join by one exactly when the
/// row is of this album and its photo sits among the first `n` rows.
proof fn lemma_join_grow(
    photos: Seq<Photo>,
    front: Seq<AlbumMembership>,
    row: AlbumMembership,
    aid: int,
    n: int,
)
    requires
        0 <= n <= photos.len(),
        forall|i: int, j: int|
            0 <= i < j < photos.len() ==> #[trigger] photos[i].id != #[trigger] photos[j].id,
        member_pairs_unique(front.push(row)),
    ensures
        row.album_id != aid ==> album_join_prefix(photos, front.push(row), aid, n).len()
            == album_join_prefix(photos, front, aid, n).len(),
        row.album_id == aid ==> album_join_prefix(photos, front.push(row), aid, n).len()
            == album_join_prefix(photos, front, aid, n).len() + (if exists|i: int|
            0 <= i < n && #[trigger] photos[i].id == row.photo_id {
            1int
        } else {
            0int
        }),
    decreases n,
{
    let ms = front.push(row);
    if n > 0 {
        lemma_join_grow(photos, front, row, aid, n - 1);
        let pid = photos[n - 1].id as int;
        lemma_push_membership(front, row, pid, aid);
        if row.album_id == aid {
            if photos[n - 1].id == row.photo_id {
                // the fresh pair is counted here and nowhere earlier
                assert(!is_member(front, pid, aid)) by {
                    if is_member(front, pid, aid) {
                        let w = choose|w: int|
                            0 <= w < front.len() && #[trigger] front[w].photo_id == pid
                                && front[w].album_id == aid;
                        assert(ms[w].photo_id == row.photo_id && ms[w].album_id == row.album_id);
                        assert(ms[ms.len() - 1].photo_id == row.photo_id);
                    }
                }
                assert(is_member(ms, pid, aid));
                assert(!(exists|i: int|
                    0 <= i < n - 1 && #[trigger] photos[i].id == row.photo_id)) by {
                    if exists|i: int| 0 <= i < n - 1 && #[trigger] photos[i].id == row.photo_id {
                        let w = choose|w: int|
                            0 <= w < n - 1 && #[trigger] photos[w].id == row.photo_id;
                        assert(photos[w].id != photos[n - 1].id);
                    }
                }
                assert(exists|i: int| 0 <= i < n && #[trigger] photos[i].id == row.photo_id) by {
                    assert(photos[n - 1].id == row.photo_id);
                }
            } else {
                assert(is_member(ms, pid, aid) == is_member(front, pid, aid));
                assert((exists|i: int| 0 <= i < n && #[trigger] photos[i].id == row.photo_id)
                    == (exists|i: int|
                    0 <= i < n - 1 && #[trigger] photos[i].id == row.photo_id)) by {
                    if exists|i: int| 0 <= i < n && #[trigger] photos[i].id == row.photo_id {
                        let w = choose|w: int|
                            0 <= w < n && #[trigger] photos[w].id == row.photo_id;
                        assert(w != n - 1);
                        assert(0 <= w < n - 1 && photos[w].id == row.photo_id);
                    }
                }
            }
        } else {
            assert(is_member(ms, pid, aid) == is_member(front, pid, aid));
        }
    }
}

/// With no membership rows at all, the join is empty.
proof fn lemma_join_empty(photos: Seq<Photo>, aid: int, n: int)
    requires
        0 <= n <= photos.len(),
    ensures
        album_join_prefix(photos, Seq::<AlbumMembership>::empty(), aid, n).len() == 0,
    decreases n,
{
    if n > 0 {
        lemma_join_empty(photos, aid, n - 1);
        assert(!is_member(Seq::<AlbumMembership>::empty(), photos[n - 1].id as int, aid));
    }
}

/// The join holds exactly one row per membership of the album, provided
/// every membership of the album names a photo the table holds (the
/// foreign key the inserts enforce).
pub proof fn lemma_album_join_count(photos: Seq<Photo>, ms: Seq<AlbumMembership>, aid: int)
    requires
        forall|i: int, j: int|
            0 <= i < j < photos.len() ==> #[trigger] photos[i].id != #[trigger] photos[j].id,
        member_pairs_unique(ms),
        forall|k: int|
            0 <= k < ms.len() && #[trigger] ms[k].album_id == aid ==> has_photo_id(
                photos,
                ms[k].photo_id as int,
            ),
    ensures
        album_join(photos, ms, aid).len() == album_member_count(ms, aid),
    decreases ms.len(),
{
    if ms.len() == 0 {
        assert(ms =~= Seq::<AlbumMembership>::empty());
        lemma_join_empty(photos, aid, photos.len() as int);
    } else {
        let front = ms.drop_last();
        let row = ms.last();
        assert(ms =~= front.push(row));
        assert(member_pairs_unique(front));
        assert(forall|k: int|
            0 <= k < front.len() && #[trigger] front[k].album_id == aid ==> has_photo_id(
                photos,
                front[k].photo_id as int,
            )) by {
            assert(forall|k: int| 0 <= k < front.len() ==> front[k] == ms[k]);
        }
        lemma_album_join_count(photos, front, aid);
        lemma_join_grow(photos, front, row, aid, photos.len() as int);
        assert(album_join(photos, ms, aid) == album_join_prefix(
            photos,
            front.push(row),
            aid,
            photos.len() as int,
        ));
        assert(album_member_count(ms, aid) == album_member_count(front, aid) + (
        if row.album_id == aid {
            1int
        } else {
            0int
        }));
        if row.album_id == aid {
            assert(ms[ms.len() - 1].album_id == aid);
            assert(has_photo_id(photos, row.photo_id as int));
            assert(exists|i: int|
                0 <= i < photos.len() && #[trigger] photos[i].id == row.photo_id) by {
                let w = choose|w: int|
                    0 <= w < photos.len() && #[trigger] photos[w].id == row.photo_id as int;
                assert(photos[w].id == row.photo_id);
            }
            assert(album_join_prefix(photos, front.push(row), aid, photos.len() as int).len()
                == album_join_prefix(photos, front, aid, photos.len() as int).len() + 1);
        }
    }
}

/// The album's first-page item count follows its membership count: with
/// no cursor, a page of size `p` shows every member photo when they fit
/// and exactly `p` of them otherwise. Together with the membership-count
/// laws this gives the walk-through counts: three fresh photos in, three
/// items; one member out, two items.
pub proof fn lemma_album_page_count(s: Store, aid: int, p: Pagination)
    requires
        s.wf(),
        p.key is None,
        p.per_page >= 1,
        forall|k: int|
            0 <= k < s.memberships@.len() && #[trigger] s.memberships@[k].album_id == aid
                ==> has_photo_id(s.photos@, s.memberships@[k].photo_id as int),
    ensures
        album_join(s.photos@, s.memberships@, aid).len() == album_member_count(
            s.memberships@,
            aid,
        ),
        album_member_count(s.memberships@, aid) <= p.per_page ==> page_item_seq(
            album_join(s.photos@, s.memberships@, aid),
            p,
        ).len() == album_member_count(s.memberships@, aid),
        album_member_count(s.memberships@, aid) > p.per_page ==> page_item_seq(
            album_join(s.photos@, s.memberships@, aid),
            p,
        ).len() == p.per_page,
{
    assert(forall|i: int, j: int|
        0 <= i < j < s.photos@.len() ==> #[trigger] s.photos@[i].id
            != #[trigger] s.photos@[j].id) by {
        assert(forall|i: int|
            0 <= i < s.photos@.len() ==> crate::store::photo_ids(s.photos@)[i]
                == #[trigger] s.photos@[i].id as int);
    }
    lemma_album_join_count(s.photos@, s.memberships@, aid);
    lemma_album_first_page(s, aid, p);
}

/// Adding distinct photos none of which is a member yet grows the
/// album's membership count by exactly their number.
pub proof fn lemma_add_members_count(ms: Seq<AlbumMembership>, ids: Seq<i32>, aid: i32, t: i64)
    requires
        forall|a: int, b: int| 0 <= a < b < ids.len() ==> #[trigger] ids[a] != #[trigger] ids[b],
        forall|j: int|
            0 <= j < ids.len() ==> !is_member(ms, #[trigger] ids[j] as int, aid as int),
    ensures
        album_member_count(add_members(ms, ids, aid, t), aid as int) == album_member_count(
            ms,
            aid as int,
        ) + ids.len(),
    decreases ids.len(),
{
    if ids.len() > 0 {
        let row = AlbumMembership {
            photo_id: ids[0],
            album_id: aid,
            ordering: None,
            caption: None,
            updated_at: t,
        };
        let ms1 = add_member(ms, ids[0], aid, t);
        assert(!is_member(ms, ids[0] as int, aid as int));
        assert(ms1 == ms.push(row));
        assert(ms1.drop_last() =~= ms);
        assert(album_member_count(ms1, aid as int) == album_member_count(ms, aid as int) + 1);
        assert forall|j: int| 0 <= j < ids.drop_first().len() implies !is_member(
            ms1,
            #[trigger] ids.drop_first()[j] as int,
            aid as int,
        ) by {
            assert(ids.drop_first()[j] == ids[j + 1]);
            assert(ids[j + 1] != ids[0]);
            lemma_push_membership(ms, row, ids[j + 1] as int, aid as int);
        }
        assert(forall|a: int, b: int|
            0 <= a < b < ids.drop_first().len() ==> #[trigger] ids.drop_first()[a]
                != #[trigger] ids.drop_first()[b]) by {
            assert(forall|a: int|
                0 <= a < ids.drop_first().len() ==> #[trigger] ids.drop_first()[a] == ids[a
                    + 1]);
        }
        lemma_add_members_count(ms1, ids.drop_first(), aid, t);
    }
}

/// Every row the bulk insert leaves behind was either there before or
/// ties one of the inserted ids into this album.
pub proof fn lemma_add_members_rows(ms: Seq<AlbumMembership>, ids: Seq<i32>, aid: i32, t: i64)
    ensures
        forall|k: int|
            0 <= k < add_members(ms, ids, aid, t).len() ==> ms.contains(
                #[trigger] add_members(ms, ids, aid, t)[k],
            ) || (add_members(ms, ids, aid, t)[k].album_id == aid && ids.contains(
                add_members(ms, ids, aid, t)[k].photo_id,
            )),
    decreases ids.len(),
{
    if ids.len() > 0 {
        let row = AlbumMembership {
            photo_id: ids[0],
            album_id: aid,
            ordering: None,
            caption: None,
            updated_at: t,
        };
        let ms1 = add_member(ms, ids[0], aid, t);
        lemma_add_members_rows(ms1, ids.drop_first(), aid, t);
        let res = add_members(ms, ids, aid, t);
        assert(res == add_members(ms1, ids.drop_first(), aid, t));
        assert forall|k: int| 0 <= k < res.len() implies ms.contains(#[trigger] res[k]) || (
        res[k].album_id == aid && ids.contains(res[k].photo_id)) by {
            if ms1.contains(res[k]) {
                let w = choose|w: int| 0 <= w < ms1.len() && ms1[w] == res[k];
                if ms1 == ms {
                    assert(ms.contains(res[k]));
                } else {
                    assert(ms1 == ms.push(row));
                    if w < ms.len() {
                        assert(ms[w] == res[k]);
                        assert(ms.contains(res[k]));
                    } else {
                        assert(res[k] == row);
                        assert(ids[0] == row.photo_id);
                        assert(ids.contains(row.photo_id));
                    }
                }
            } else if res[k].album_id == aid && ids.drop_first().contains(res[k].photo_id) {
                let j = choose|j: int|
                    0 <= j < ids.drop_first().len() && ids.drop_first()[j] == res[k].photo_id;
                assert(ids[j + 1] == res[k].photo_id);
                assert(ids.contains(res[k].photo_id));
            }
        }
    }
}

/// Scenario counts, composed: an album with no members gains distinct,
/// existing photos; its first page, big enough to hold them, then shows
/// exactly one entry per photo added.
pub proof fn lemma_empty_album_add_counts(
    s0: Store,
    s1: Store,
    ids: Seq<i32>,
    aid: i32,
    t: i64,
    p: Pagination,
)
    requires
        s0.wf(),
        s1.wf(),
        s1.photos@ == s0.photos@,
        s1.memberships@ == add_members(s0.memberships@, ids, aid, t),
        forall|k: int| 0 <= k < s0.memberships@.len() ==> #[trigger] s0.memberships@[k].album_id != aid,
        forall|a: int, b: int| 0 <= a < b < ids.len() ==> #[trigger] ids[a] != #[trigger] ids[b],
        forall|j: int|
            0 <= j < ids.len() ==> has_photo_id(s1.photos@, #[trigger] ids[j] as int),
        p.key is None,
        p.per_page >= 1,
        ids.len() <= p.per_page,
    ensures
        album_member_count(s1.memberships@, aid as int) == ids.len(),
        page_item_seq(album_join(s1.photos@, s1.memberships@, aid as int), p).len() == ids.len(),
{
    assert(forall|j: int|
        0 <= j < ids.len() ==> !is_member(s0.memberships@, #[trigger] ids[j] as int, aid as int))
        by {
        assert forall|j: int| 0 <= j < ids.len() implies !is_member(
            s0.memberships@,
            #[trigger] ids[j] as int,
            aid as int,
        ) by {
            if is_member(s0.memberships@, ids[j] as int, aid as int) {
                let w = choose|w: int|
                    0 <= w < s0.memberships@.len() && #[trigger] s0.memberships@[w].photo_id
                        == ids[j] as int && s0.memberships@[w].album_id == aid as int;
                assert(s0.memberships@[w].album_id != aid);
            }
        }
    }
    lemma_add_members_count(s0.memberships@, ids, aid, t);
    assert(album_member_count(s0.memberships@, aid as int) == 0) by {
        lemma_member_count_none(s0.memberships@, aid as int);
    }
    lemma_add_members_rows(s0.memberships@, ids, aid, t);
    assert forall|k: int|
        0 <= k < s1.memberships@.len() && #[trigger] s1.memberships@[k].album_id
            == aid as int implies has_photo_id(s1.photos@, s1.memberships@[k].photo_id as int) by {
        if s0.memberships@.contains(s1.memberships@[k]) {
            let w = choose|w: int|
                0 <= w < s0.memberships@.len() && s0.memberships@[w] == s1.memberships@[k];
            assert(s0.memberships@[w].album_id != aid);
        } else {
            let j = choose|j: int|
                0 <= j < ids.len() && ids[j] == s1.memberships@[k].photo_id;
        }
    }
    lemma_album_page_count(s1, aid as int, p);
}

/// Scenario counts, composed: removing one member photo takes the
/// album's first page, big enough to hold the rest, from `n` entries
/// down to `n - 1`.
pub proof fn lemma_remove_member_page_count(
    s0: Store,
    s1: Store,
    pid: i32,
    aid: i32,
    p: Pagination,
)
    requires
        s0.wf(),
        s1.wf(),
        s1.photos@ == s0.photos@,
        s1.memberships@ == remove_members(s0.memberships@, seq![pid], aid),
        is_member(s0.memberships@, pid as int, aid as int),
        forall|k: int|
            0 <= k < s0.memberships@.len() && #[trigger] s0.memberships@[k].album_id
                == aid as int ==> has_photo_id(s0.photos@, s0.memberships@[k].photo_id as int),
        p.key is None,
        p.per_page >= 1,
        album_member_count(s0.memberships@, aid as int) - 1 <= p.per_page,
    ensures
        album_member_count(s1.memberships@, aid as int) == album_member_count(
            s0.memberships@,
            aid as int,
        ) - 1,
        page_item_seq(album_join(s1.photos@, s1.memberships@, aid as int), p).len()
            == album_member_count(s0.memberships@, aid as int) - 1,
{
    lemma_remove_one_member_count(s0.memberships@, pid, aid);
    lemma_remove_members_shape(s0.memberships@, seq![pid], aid);
    assert forall|k: int|
        0 <= k < s1.memberships@.len() && #[trigger] s1.memberships@[k].album_id
            == aid as int implies has_photo_id(s1.photos@, s1.memberships@[k].photo_id as int) by {
        assert(s0.memberships@.contains(s1.memberships@[k]));
        let w = choose|w: int|
            0 <= w < s0.memberships@.len() && s0.memberships@[w] == s1.memberships@[k];
        assert(s0.memberships@[w].album_id == aid as int);
    }
    lemma_album_page_count(s1, aid as int, p);
}

/// A table with no rows of the album counts zero members.
proof fn lemma_member_count_none(ms: Seq<AlbumMembership>, aid: int)
    requires
        forall|k: int| 0 <= k < ms.len() ==> #[trigger] ms[k].album_id != aid,
    ensures
        album_member_count(ms, aid) == 0,
    decreases ms.len(),
{
    if ms.len() > 0 {
        assert(forall|k: int|
            0 <= k < ms.drop_last().len() ==> #[trigger] ms.drop_last()[k].album_id != aid);
        lemma_member_count_none(ms.drop_last(), aid);
    }
}

/// Removing one photo takes the album's membership count down by one
/// exactly when the photo was a member.
pub proof fn lemma_remove_one_member_count(ms: Seq<AlbumMembership>, pid: i32, aid: i32)
    requires
        member_pairs_unique(ms),
    ensures
        album_member_count(remove_members(ms, seq![pid], aid), aid as int) == album_member_count(
            ms,
            aid as int,
        ) - (if is_member(ms, pid as int, aid as int) {
            1int
        } else {
            0int
        }),
    decreases ms.len(),
{
    if ms.len() > 0 {
        let front = ms.drop_last();
        let last = ms.last();
        assert(ms =~= front.push(last));
        assert(member_pairs_unique(front));
        lemma_remove_one_member_count(front, pid, aid);
        lemma_push_membership(front, last, pid as int, aid as int);
        let res = remove_members(ms, seq![pid], aid);
        let fres = remove_members(front, seq![pid], aid);
        assert(seq![pid].contains(last.photo_id) <==> last.photo_id == pid) by {
            if seq![pid].contains(last.photo_id) {
                let w = choose|w: int| 0 <= w < 1 && seq![pid][w] == last.photo_id;
            }
            if last.photo_id == pid {
                assert(seq![pid][0] == last.photo_id);
            }
        }
        if last.album_id == aid && last.photo_id == pid {
            // the dropped row is the unique carrier of the pair
            assert(res =~= fres);
            assert(is_member(ms, pid as int, aid as int)) by {
                assert(ms[ms.len() - 1].photo_id == pid && ms[ms.len() - 1].album_id == aid);
            }
            assert(!is_member(front, pid as int, aid as int)) by {
                if is_member(front, pid as int, aid as int) {
                    let w = choose|w: int|
                        0 <= w < front.len() && #[trigger] front[w].photo_id == pid as int
                            && front[w].album_id == aid as int;
                    assert(ms[w].photo_id == pid && ms[w].album_id == aid);
                    assert(ms[ms.len() - 1].photo_id == pid);
                }
            }
        } else {
            assert(res =~= fres.push(last));
            assert(res.drop_last() =~= fres);
            assert(is_member(ms, pid as int, aid as int) == is_member(
                front,
                pid as int,
                aid as int,
            ));
        }
    } else {
        assert(remove_members(ms, seq![pid], aid) =~= ms);
    }
}

/// One insert of the membership (`pid`, `aid`): a no-op when the pair is
/// already present.
pub open spec fn add_member(
    ms: Seq<AlbumMembership>,
    pid: i32,
    aid: i32,
    t: i64,
) -> Seq<AlbumMembership> {
    if is_member(ms, pid as int, aid as int) {
        ms
    } else {
        ms.push(
            AlbumMembership {
                photo_id: pid,
                album_id: aid,
                ordering: None,
                caption: None,
                updated_at: t,
            },
        )
    }
}

/// The bulk insert: each id in turn, conflicts dropped.
pub open spec fn add_members(
    ms: Seq<AlbumMembership>,
    ids: Seq<i32>,
    aid: i32,
    t: i64,
) -> Seq<AlbumMembership>
    decreases ids.len(),
{
    if ids.len() == 0 {
        ms
    } else {
        add_members(add_member(ms, ids[0], aid, t), ids.drop_first(), aid, t)
    }
}

/// The bulk delete: every membership of `aid` whose photo is named in
/// `ids` goes; everything else keeps its place.
pub open spec fn remove_members(
    ms: Seq<AlbumMembership>,
    ids: Seq<i32>,
    aid: i32,
) -> Seq<AlbumMembership>
    decreases ms.len(),
{
    if ms.len() == 0 {
        Seq::<AlbumMembership>::empty()
    } else {
        remove_members(ms.drop_last(), ids, aid) + if ms.last().album_id == aid && ids.contains(
            ms.last().photo_id,
        ) {
            Seq::<AlbumMembership>::empty()
        } else {
            seq![ms.last()]
        }
    }
}

fn contains_i32(v: &Vec<i32>, x: i32) -> (r: bool)
    ensures
        r == v@.contains(x),
{
    let mut i: usize = 0;
    while i < v.len()
        invariant
            0 <= i <= v@.len(),
            forall|j: int| 0 <= j < i ==> #[trigger] v@[j] != x,
        decreases v@.len() - i,
    {
        if v[i] == x {
            return true;
        }
        i += 1;
    }
    false
}

/// Looks up the membership row for a (photo, album) pair.
fn find_membership(ms: &Vec<AlbumMembership>, pid: i32, aid: i32) -> (r: Option<AlbumMembership>)
    ensures
        match r {
            Some(m) => is_member(ms@, pid as int, aid as int) && m.photo_id == pid && m.album_id
                == aid && ms@.contains(m) && (member_pairs_unique(ms@) ==> m == member_row(
                ms@,
                pid as int,
                aid as int,
            )),
            None => !is_member(ms@, pid as int, aid as int),
        },
{
    let mut i: usize = 0;
    while i < ms.len()
        invariant
            0 <= i <= ms@.len(),
            forall|j: int|
                0 <= j < i ==> !(#[trigger] ms@[j].photo_id == pid && ms@[j].album_id == aid),
        decreases ms@.len() - i,
    {
        if ms[i].photo_id == pid && ms[i].album_id == aid {
            let found = ms[i].duplicate();
            proof {
                assert(ms@[i as int].photo_id == pid && ms@[i as int].album_id == aid);
                if member_pairs_unique(ms@) {
                    let w = choose|w: int|
                        0 <= w < ms@.len() && #[trigger] ms@[w].photo_id == pid as int
                            && ms@[w].album_id == aid as int;
                    assert(ms@[w].photo_id == pid && ms@[w].album_id == aid);
                    assert(w == i as int);
                }
            }
            return Some(found);
        }
        i += 1;
    }
    None
}

impl Album {
    /// Inserts a fresh album for `user`; fails only when the table has no
    /// id left to hand out.
    pub fn create(db: &mut Store, user: &User, album_name: Option<&str>) -> (r: Result<
        Album,
        ApiError,
    >)
        requires
            old(db).wf(),
        ensures
            final(db).wf(),
            same_except_albums(*old(db), *final(db)),
            r is Ok <==> old(db).next_album_id < i32::MAX,
            r matches Err(e) ==> e.status is InternalServerError && *final(db) == *old(db),
            r matches Ok(a) ==> {
                &&& a.id == old(db).next_album_id
                &&& a.user_id == user.id
                &&& a.created_at == old(db).clock
                &&& match (a.name, album_name) {
                    (Some(n), Some(g)) => n@ == g@,
                    (None, None) => true,
                    _ => false,
                }
                &&& final(db).albums@ == old(db).albums@.push(a)
                &&& final(db).next_album_id == old(db).next_album_id + 1
            },
    {
        if db.next_album_id == i32::MAX {
            return Err(ApiError {
                status: Status::InternalServerError,
                message: "unexpected server error".to_owned(),
            });
        }
        let name: Option<String> = match album_name {
            Some(n) => Some(n.to_owned()),
            None => None,
        };
        let row = Album {
            id: db.next_album_id,
            user_id: user.id,
            name,
            created_at: db.clock,
        };
        let copy = row.duplicate();
        db.albums.push(row);
        db.next_album_id = db.next_album_id + 1;
        proof {
            assert(album_ids(db.albums@) =~= album_ids(old(db).albums@).push(copy.id as int));
        }
        Ok(copy)
    }

    /// The requested page of `user`'s albums.
    pub fn for_user(db: &Store, user: &User, page: Pagination) -> (r: Page<Album>)
        requires
            db.wf(),
        ensures
            page_correct(r, user_albums_seq(db.albums@, user.id as int), page),
    {
        let ghost uid = user.id as int;
        proof {
            assert(forall|i: int, j: int|
                0 <= i < j < db.albums@.len() ==> #[trigger] db.albums@[i].id
                    < #[trigger] db.albums@[j].id) by {
                assert(forall|i: int|
                    0 <= i < db.albums@.len() ==> album_ids(db.albums@)[i]
                        == #[trigger] db.albums@[i].id as int);
            }
            lemma_user_albums_sorted(db.albums@, uid, db.albums@.len() as int);
            lemma_table_len(album_ids(db.albums@), db.next_album_id as int);
        }
        let mut rows: Vec<Album> = Vec::new();
        let mut i: usize = 0;
        while i < db.albums.len()
            invariant
                0 <= i <= db.albums@.len(),
                rows@ =~= user_albums_prefix(db.albums@, uid, i as int),
                uid == user.id as int,
            decreases db.albums@.len() - i,
        {
            if db.albums[i].user_id == user.id {
                rows.push(db.albums[i].duplicate());
            }
            i += 1;
        }
        proof {
            assert(rows@.len() <= db.albums@.len());
            assert(album_ids(db.albums@).len() == db.albums@.len());
        }
        paginate(&rows, page)
    }

    /// The album with this id, provided `user` owns it. Absent albums and
    /// albums of other owners are equally invisible.
    pub fn by_id(db: &Store, user: &User, album_id: i32) -> (r: Option<Album>)
        ensures
            match r {
                Some(a) => a.id == album_id && a.user_id == user.id && db.albums@.contains(a),
                None => forall|i: int|
                    0 <= i < db.albums@.len() ==> !(#[trigger] db.albums@[i].id == album_id
                        && db.albums@[i].user_id == user.id),
            },
    {
        let mut i: usize = 0;
        while i < db.albums.len()
            invariant
                0 <= i <= db.albums@.len(),
                forall|j: int|
                    0 <= j < i ==> !(#[trigger] db.albums@[j].id == album_id
                        && db.albums@[j].user_id == user.id),
            decreases db.albums@.len() - i,
        {
            if db.albums[i].id == album_id && db.albums[i].user_id == user.id {
                return Some(db.albums[i].duplicate());
            }
            i += 1;
        }
        None
    }

    /// Bulk-inserts membership rows for this album, dropping ids that are
    /// already members. Fails, changing nothing, exactly when some id
    /// names no photo — the foreign key the schema enforced.
    pub fn add_photos(&self, db: &mut Store, photos: &Vec<i32>) -> (r: Result<usize, ApiError>)
        requires
            old(db).wf(),
        ensures
            final(db).wf(),
            same_except_memberships(*old(db), *final(db)),
            r is Ok <==> (forall|j: int|
                0 <= j < photos@.len() ==> has_photo_id(old(db).photos@, #[trigger] photos@[j] as int)),
            r matches Err(e) ==> e.status is InternalServerError && *final(db) == *old(db),
            r matches Ok(n) ==> final(db).memberships@ == add_members(
                old(db).memberships@,
                photos@,
                self.id,
                old(db).clock,
            ) && n == final(db).memberships@.len() - old(db).memberships@.len(),
    {
        // first pass: the whole statement fails if any photo id is unknown
        let mut i: usize = 0;
        while i < photos.len()
            invariant
                0 <= i <= photos@.len(),
                *db == *old(db),
                old(db).wf(),
                forall|j: int|
                    0 <= j < i ==> has_photo_id(db.photos@, #[trigger] photos@[j] as int),
            decreases photos@.len() - i,
        {
            if !crate::photo::photo_id_exists(&db.photos, photos[i]) {
                return Err(ApiError {
                    status: Status::InternalServerError,
                    message: "unexpected server error".to_owned(),
                });
            }
            i += 1;
        }
        // second pass: insert, dropping pairs that already exist
        let ghost start_ms = db.memberships@;
        let ghost t = db.clock;
        proof {
            assert(photos@.skip(0) =~= photos@);
        }
        let before = db.memberships.len();
        let mut i: usize = 0;
        while i < photos.len()
            invariant
                0 <= i <= photos@.len(),
                old(db).wf(),
                db.wf(),
                same_except_memberships(*old(db), *db),
                db.clock == t,
                before == start_ms.len(),
                start_ms == old(db).memberships@,
                db.memberships@.len() >= before,
                add_members(start_ms, photos@, self.id, t) == add_members(
                    db.memberships@,
                    photos@.skip(i as int),
                    self.id,
                    t,
                ),
            decreases photos@.len() - i,
        {
            let ghost ms_before = db.memberships@;
            let pid = photos[i];
            let already = find_membership(&db.memberships, pid, self.id);
            match already {
                Some(_) => {
                    proof {
                        assert(add_member(ms_before, pid, self.id, t) == ms_before);
                    }
                },
                None => {
                    db.memberships.push(AlbumMembership {
                        photo_id: pid,
                        album_id: self.id,
                        ordering: None,
                        caption: None,
                        updated_at: db.clock,
                    });
                    proof {
                        assert(add_member(ms_before, pid, self.id, t) =~= db.memberships@);
                        assert forall|a: int, b: int|
                            0 <= a < b < db.memberships@.len() implies !(#[trigger] db.memberships@[a].photo_id
                            == #[trigger] db.memberships@[b].photo_id && db.memberships@[a].album_id
                            == db.memberships@[b].album_id) by {
                            if b == db.memberships@.len() - 1 {
                                assert(!is_member(ms_before, pid as int, self.id as int));
                                assert(!(ms_before[a].photo_id == pid && ms_before[a].album_id
                                    == self.id));
                            }
                        }
                    }
                },
            }
            proof {
                assert(photos@.skip(i as int).drop_first() =~= photos@.skip(i as int + 1));
                assert(photos@.skip(i as int)[0] == photos@[i as int]);
                assert(add_members(db.memberships@, photos@.skip(i as int + 1), self.id, t)
                    == add_members(ms_before, photos@.skip(i as int), self.id, t));
            }
            i += 1;
        }
        proof {
            assert(photos@.skip(photos@.len() as int) =~= Seq::<i32>::empty());
            assert(db.memberships@ == add_members(start_ms, photos@, self.id, t));
        }
        Ok(db.memberships.len() - before)
    }

    /// Deletes the membership rows of this album whose photo is named in
    /// `photos`; ids that are not members are silently skipped. Reports
    /// how many ids were handed in, not how many rows went.
    pub fn remove_photos(&self, db: &mut Store, photos: &Vec<i32>) -> (r: Result<usize, ApiError>)
        requires
            old(db).wf(),
        ensures
            final(db).wf(),
            same_except_memberships(*old(db), *final(db)),
            final(db).memberships@ == remove_members(old(db).memberships@, photos@, self.id),
            r == Ok::<usize, ApiError>(photos@.len() as usize),
    {
        let mut kept: Vec<AlbumMembership> = Vec::new();
        let mut i: usize = 0;
        while i < db.memberships.len()
            invariant
                0 <= i <= db.memberships@.len(),
                kept@ =~= remove_members(db.memberships@.take(i as int), photos@, self.id),
                *db == *old(db),
            decreases db.memberships@.len() - i,
        {
            let m = &db.memberships[i];
            let drop_it = m.album_id == self.id && contains_i32(photos, m.photo_id);
            if !drop_it {
                kept.push(db.memberships[i].duplicate());
            }
            proof {
                assert(db.memberships@.take(i as int + 1).drop_last() =~= db.memberships@.take(
                    i as int,
                ));
                assert(db.memberships@.take(i as int + 1).last() == db.memberships@[i as int]);
            }
            i += 1;
        }
        proof {
            assert(db.memberships@.take(db.memberships@.len() as int) =~= db.memberships@);
            lemma_remove_members_shape(db.memberships@, photos@, self.id);
        }
        db.memberships = kept;
        Ok(photos.len())
    }
}

impl Album {
    /// The requested page of this album's photos, each with its
    /// membership row and its attribute rows.
    pub fn get_photos(&self, db: &Store, page: Pagination) -> (r: Page<
        (Photo, AlbumMembership, Vec<PhotoAttr>),
    >)
        requires
            db.wf(),
        ensures
            ({
                let rows = album_join(db.photos@, db.memberships@, self.id as int);
                let its = page_item_seq(rows, page);
                &&& r.key == page.key
                &&& r.remaining == page_remaining(rows, page)
                &&& match r.next_key {
                    Some(k) => page_next_key(rows, page) == Some(k as int),
                    None => page_next_key(rows, page) is None,
                }
                &&& r.items@.len() == its.len()
                &&& forall|i: int|
                    0 <= i < its.len() ==> #[trigger] r.items@[i].0 == its[i].photo
                        && r.items@[i].1 == its[i].membership && r.items@[i].2@ == attrs_of(
                        db.photo_attrs@,
                        its[i].photo.id as int,
                    )
            }),
    {
        let ghost aid = self.id as int;
        proof {
            assert(forall|i: int, j: int|
                0 <= i < j < db.photos@.len() ==> #[trigger] db.photos@[i].id
                    < #[trigger] db.photos@[j].id) by {
                assert(forall|i: int|
                    0 <= i < db.photos@.len() ==> crate::store::photo_ids(db.photos@)[i]
                        == #[trigger] db.photos@[i].id as int);
            }
            lemma_album_join_sorted(db.photos@, db.memberships@, aid, db.photos@.len() as int);
            lemma_table_len(crate::store::photo_ids(db.photos@), db.next_photo_id as int);
        }
        let mut rows: Vec<AlbumPhoto> = Vec::new();
        let mut i: usize = 0;
        while i < db.photos.len()
            invariant
                0 <= i <= db.photos@.len(),
                aid == self.id as int,
                member_pairs_unique(db.memberships@),
                rows@ =~= album_join_prefix(db.photos@, db.memberships@, aid, i as int),
            decreases db.photos@.len() - i,
        {
            match find_membership(&db.memberships, db.photos[i].id, self.id) {
                Some(m) => {
                    rows.push(AlbumPhoto { photo: db.photos[i].duplicate(), membership: m });
                },
                None => {},
            }
            i += 1;
        }
        proof {
            assert(rows@.len() <= db.photos@.len());
            assert(crate::store::photo_ids(db.photos@).len() == db.photos@.len());
        }
        let pg = paginate(&rows, page);
        let mut items: Vec<(Photo, AlbumMembership, Vec<PhotoAttr>)> = Vec::new();
        let ghost its = pg.items@;
        let mut j: usize = 0;
        while j < pg.items.len()
            invariant
                0 <= j <= pg.items@.len(),
                pg.items@ == its,
                items@.len() == j,
                forall|t: int|
                    0 <= t < j ==> #[trigger] items@[t].0 == its[t].photo && items@[t].1
                        == its[t].membership && items@[t].2@ == attrs_of(
                        db.photo_attrs@,
                        its[t].photo.id as int,
                    ),
            decreases pg.items@.len() - j,
        {
            let entry = &pg.items[j];
            let attrs = collect_attrs(&db.photo_attrs, entry.photo.id);
            items.push((entry.photo.duplicate(), entry.membership.duplicate(), attrs));
            j += 1;
        }
        Page { key: pg.key, next_key: pg.next_key, remaining: pg.remaining, items }
    }
}

/// Membership of a pair after one insert: the pair inserted, or anything
/// already present.
proof fn lemma_add_member_membership(
    ms: Seq<AlbumMembership>,
    pid: i32,
    aid: i32,
    t: i64,
    q: int,
    b: int,
)
    ensures
        is_member(add_member(ms, pid, aid, t), q, b) <==> (is_member(ms, q, b) || (q == pid
            && b == aid)),
{
    let res = add_member(ms, pid, aid, t);
    if is_member(ms, pid as int, aid as int) {
        assert(res == ms);
    } else {
        assert(res == ms.push(
            AlbumMembership {
                photo_id: pid,
                album_id: aid,
                ordering: None,
                caption: None,
                updated_at: t,
            },
        ));
        if q == pid && b == aid {
            assert(res[ms.len() as int].photo_id == pid && res[ms.len() as int].album_id == aid);
            assert(is_member(res, q, b));
        }
        if is_member(ms, q, b) {
            let w = choose|w: int|
                0 <= w < ms.len() && #[trigger] ms[w].photo_id == q && ms[w].album_id == b;
            assert(res[w].photo_id == q && res[w].album_id == b);
        }
        if is_member(res, q, b) && !(q == pid && b == aid) {
            let w = choose|w: int|
                0 <= w < res.len() && #[trigger] res[w].photo_id == q && res[w].album_id == b;
            assert(w < ms.len());
        }
    }
}

/// Membership of a pair after the bulk insert: a pair of this album whose
/// photo is listed, or anything already present.
proof fn lemma_add_members_membership(
    ms: Seq<AlbumMembership>,
    ids: Seq<i32>,
    aid: i32,
    t: i64,
    q: int,
    b: int,
)
    ensures
        is_member(add_members(ms, ids, aid, t), q, b) <==> (is_member(ms, q, b) || (b == aid
            && exists|j: int| 0 <= j < ids.len() && #[trigger] ids[j] == q)),
    decreases ids.len(),
{
    if ids.len() > 0 {
        lemma_add_member_membership(ms, ids[0], aid, t, q, b);
        lemma_add_members_membership(add_member(ms, ids[0], aid, t), ids.drop_first(), aid, t, q, b);
        assert(forall|j: int|
            0 <= j < ids.drop_first().len() ==> #[trigger] ids.drop_first()[j] == ids[j + 1]);
        if b == aid && exists|j: int| 0 <= j < ids.len() && #[trigger] ids[j] == q {
            let j = choose|j: int| 0 <= j < ids.len() && #[trigger] ids[j] == q;
            if j > 0 {
                assert(ids.drop_first()[j - 1] == q);
            }
        }
    }
}

/// A bulk insert whose pairs are all present already changes nothing.
proof fn lemma_add_members_noop(ms: Seq<AlbumMembership>, ids: Seq<i32>, aid: i32, t: i64)
    requires
        forall|j: int|
            0 <= j < ids.len() ==> is_member(ms, #[trigger] ids[j] as int, aid as int),
    ensures
        add_members(ms, ids, aid, t) == ms,
    decreases ids.len(),
{
    if ids.len() > 0 {
        assert(is_member(ms, ids[0] as int, aid as int));
        assert(add_member(ms, ids[0], aid, t) == ms);
        assert(forall|j: int|
            0 <= j < ids.drop_first().len() ==> #[trigger] ids.drop_first()[j] == ids[j + 1]);
        lemma_add_members_noop(ms, ids.drop_first(), aid, t);
    }
}

/// Adding the same photos to the same album twice is the same as adding
/// them once, whatever times the two requests carried.
pub proof fn lemma_add_photos_idempotent(
    ms: Seq<AlbumMembership>,
    ids: Seq<i32>,
    aid: i32,
    t1: i64,
    t2: i64,
)
    ensures
        add_members(add_members(ms, ids, aid, t1), ids, aid, t2) == add_members(ms, ids, aid, t1),
{
    let once = add_members(ms, ids, aid, t1);
    assert forall|j: int| 0 <= j < ids.len() implies is_member(
        once,
        #[trigger] ids[j] as int,
        aid as int,
    ) by {
        lemma_add_members_membership(ms, ids, aid, t1, ids[j] as int, aid as int);
    }
    lemma_add_members_noop(once, ids, aid, t2);
}

/// How many membership rows tie `pid` into `aid`.
pub open spec fn member_count(ms: Seq<AlbumMembership>, pid: int, aid: int) -> int
    decreases ms.len(),
{
    if ms.len() == 0 {
        0
    } else {
        member_count(ms.drop_last(), pid, aid) + if ms.last().photo_id == pid
            && ms.last().album_id == aid {
            1int
        } else {
            0int
        }
    }
}

/// In a table with unique pairs, a present pair is present on exactly one
/// row: together with idempotence this is the "exactly one membership row
/// after a duplicate add" guarantee.
pub proof fn lemma_member_count_one(ms: Seq<AlbumMembership>, pid: int, aid: int)
    requires
        member_pairs_unique(ms),
    ensures
        is_member(ms, pid, aid) ==> member_count(ms, pid, aid) == 1,
        !is_member(ms, pid, aid) ==> member_count(ms, pid, aid) == 0,
    decreases ms.len(),
{
    if ms.len() > 0 {
        let front = ms.drop_last();
        assert(member_pairs_unique(front));
        lemma_member_count_one(front, pid, aid);
        if ms.last().photo_id == pid && ms.last().album_id == aid {
            // the last row carries the pair, so no earlier row may
            assert(!is_member(front, pid, aid)) by {
                if is_member(front, pid, aid) {
                    let w = choose|w: int|
                        0 <= w < front.len() && #[trigger] front[w].photo_id == pid
                            && front[w].album_id == aid;
                    assert(ms[w].photo_id == pid && ms[w].album_id == aid);
                    assert(ms[ms.len() - 1].photo_id == pid);
                }
            }
            assert(is_member(ms, pid, aid)) by {
                assert(ms[ms.len() - 1].photo_id == pid && ms[ms.len() - 1].album_id == aid);
            }
        } else {
            if is_member(ms, pid, aid) {
                let w = choose|w: int|
                    0 <= w < ms.len() && #[trigger] ms[w].photo_id == pid && ms[w].album_id
                        == aid;
                assert(w < front.len());
                assert(front[w].photo_id == pid && front[w].album_id == aid);
            }
            if is_member(front, pid, aid) {
                let w = choose|w: int|
                    0 <= w < front.len() && #[trigger] front[w].photo_id == pid
                        && front[w].album_id == aid;
                assert(ms[w].photo_id == pid && ms[w].album_id == aid);
            }
        }
    }
}

/// Removing photos that are not members of the album leaves the
/// membership table exactly as it was.
pub proof fn lemma_remove_absent_noop(ms: Seq<AlbumMembership>, ids: Seq<i32>, aid: i32)
    requires
        forall|j: int|
            0 <= j < ids.len() ==> !is_member(ms, #[trigger] ids[j] as int, aid as int),
    ensures
        remove_members(ms, ids, aid) == ms,
    decreases ms.len(),
{
    if ms.len() > 0 {
        let front = ms.drop_last();
        assert forall|j: int| 0 <= j < ids.len() implies !is_member(
            front,
            #[trigger] ids[j] as int,
            aid as int,
        ) by {
            if is_member(front, ids[j] as int, aid as int) {
                let w = choose|w: int|
                    0 <= w < front.len() && #[trigger] front[w].photo_id == ids[j] as int
                        && front[w].album_id == aid as int;
                assert(ms[w].photo_id == ids[j] && ms[w].album_id == aid);
            }
        }
        lemma_remove_absent_noop(front, ids, aid);
        if ms.last().album_id == aid && ids.contains(ms.last().photo_id) {
            let j = choose|j: int| 0 <= j < ids.len() && ids[j] == ms.last().photo_id;
            assert(ms[ms.len() - 1].photo_id == ids[j] && ms[ms.len() - 1].album_id == aid);
            assert(is_member(ms, ids[j] as int, aid as int));
        } else {
            assert(remove_members(ms, ids, aid) =~= ms);
        }
    }
}

/// Rows surviving a bulk delete were all in the table, and the pair
/// uniqueness of the table carries over to them.
proof fn lemma_remove_members_shape(ms: Seq<AlbumMembership>, ids: Seq<i32>, aid: i32)
    ensures
        forall|p: int, a: int|
            is_member(remove_members(ms, ids, aid), p, a) ==> is_member(ms, p, a),
        member_pairs_unique(ms) ==> member_pairs_unique(remove_members(ms, ids, aid)),
        forall|t: int|
            0 <= t < remove_members(ms, ids, aid).len() ==> ms.contains(
                #[trigger] remove_members(ms, ids, aid)[t],
            ),
    decreases ms.len(),
{
    if ms.len() > 0 {
        let front = ms.drop_last();
        lemma_remove_members_shape(front, ids, aid);
        let fres = remove_members(front, ids, aid);
        let res = remove_members(ms, ids, aid);
        assert(forall|p: int, a: int| is_member(fres, p, a) ==> is_member(front, p, a));
        assert(forall|p: int, a: int| is_member(front, p, a) ==> is_member(ms, p, a));
        assert(forall|t: int| 0 <= t < front.len() ==> ms.contains(#[trigger] front[t]));
        if !(ms.last().album_id == aid && ids.contains(ms.last().photo_id)) {
            assert(res =~= fres.push(ms.last()));
            assert(ms.contains(ms.last()));
            if member_pairs_unique(ms) {
                assert(member_pairs_unique(front));
                assert forall|a: int, b: int| 0 <= a < b < res.len() implies !(#[trigger] res[a].photo_id
                    == #[trigger] res[b].photo_id && res[a].album_id == res[b].album_id) by {
                    if b == res.len() - 1 {
                        // res[a] sits somewhere in front; the last row's pair
                        // is distinct from every front row's pair
                        assert(is_member(fres, res[a].photo_id as int, res[a].album_id as int));
                        assert(is_member(front, res[a].photo_id as int, res[a].album_id as int));
                        if res[a].photo_id == ms.last().photo_id && res[a].album_id
                            == ms.last().album_id {
                            let w = choose|w: int|
                                0 <= w < front.len() && #[trigger] front[w].photo_id
                                    == res[a].photo_id as int && front[w].album_id
                                    == res[a].album_id as int;
                            assert(ms[w].photo_id == ms.last().photo_id && ms[w].album_id
                                == ms.last().album_id);
                        }
                    }
                }
            }
        } else {
            assert(res =~= fres);
        }
    }
}

} // verus!

//! Keyset pagination over rows with a unique, strictly increasing integer
//! id: a page holds the rows whose id lies past the caller's cursor, up to
//! `per_page` of them, together with how many rows the whole result set
//! still holds beyond this page and the cursor for the next call.

use vstd::prelude::*;

verus! {

pub const DEFAULT_PER_PAGE: i64 = 30;

/// A caller's pagination request: an optional exclusive lower bound on the
/// id (`None` means "from the start") and a page size.
#[derive(Debug, Clone, Copy, PartialEq)]
pub struct Pagination {
    pub key: Option<i32>,
    pub per_page: i64,
}

impl Pagination {
    /// Builds a request, substituting the default page size when the one
    /// given is absent, zero or negative.
    pub fn new(key: Option<i32>, per_page: Option<i64>) -> (r: Pagination)
        ensures
            r.key == key,
            r.per_page == match per_page {
                Some(pp) => if pp >= 1 {
                    pp as int
                } else {
                    DEFAULT_PER_PAGE as int
                },
                None => DEFAULT_PER_PAGE as int,
            },
            r.per_page >= 1,
    {
        let per_page = match per_page {
            Some(per_page) if per_page >= 1 => per_page,
            _ => DEFAULT_PER_PAGE,
        };
        Pagination { key, per_page }
    }

    /// The first page, with the default page size.
    pub fn first() -> (r: Pagination)
        ensures
            r.key is None,
            r.per_page == DEFAULT_PER_PAGE as int,
    {
        Pagination::new(None, None)
    }

    /// The page after the given cursor, with the default page size.
    pub fn page(key: i32) -> (r: Pagination)
        ensures
            r.key == Some(key),
            r.per_page == DEFAULT_PER_PAGE as int,
    {
        Pagination::new(Some(key), None)
    }

    pub fn limit(&self) -> (r: i64)
        ensures
            r == self.per_page,
    {
        self.per_page
    }
}

/// The cursor a list of form items asks for: the parsed value of the
/// last item named "key", absent when none parses.
pub open spec fn form_key(items: Seq<(String, String)>, n: int) -> Option<i32>
    decreases n,
{
    if n <= 0 {
        None
    } else if items[n - 1].0@ == "key"@ {
        crate::decimal::parse_signed_i32(items[n - 1].1@)
    } else {
        form_key(items, n - 1)
    }
}

/// The page size a list of form items asks for: the parsed value of the
/// last item named "page_size", absent when none parses.
pub open spec fn form_page_size(items: Seq<(String, String)>, n: int) -> Option<i64>
    decreases n,
{
    if n <= 0 {
        None
    } else if items[n - 1].0@ == "page_size"@ {
        crate::decimal::parse_signed_i64(items[n - 1].1@)
    } else {
        form_page_size(items, n - 1)
    }
}

impl Pagination {
    /// Reads a request from already-split form items, ignoring unknown
    /// names and values that do not parse; the web layer splits the raw
    /// query string. A later item overrides an earlier one of the same
    /// name.
    pub fn from_form(items: &Vec<(String, String)>) -> (r: Pagination)
        ensures
            r.key == form_key(items@, items@.len() as int),
            r.per_page == match form_page_size(items@, items@.len() as int) {
                Some(pp) => if pp >= 1 {
                    pp as int
                } else {
                    DEFAULT_PER_PAGE as int
                },
                None => DEFAULT_PER_PAGE as int,
            },
    {
        let mut max_key: Option<i32> = None;
        let mut per_page: Option<i64> = None;
        let mut i: usize = 0;
        while i < items.len()
            invariant
                0 <= i <= items@.len(),
                max_key == form_key(items@, i as int),
                per_page == form_page_size(items@, i as int),
            decreases items@.len() - i,
        {
            proof {
                // distinct item names: the two literals differ in length
                reveal_strlit("key");
                reveal_strlit("page_size");
                assert("key"@.len() == 3 && "page_size"@.len() == 9);
            }
            let pair = &items[i];
            if crate::util::str_eq(pair.0.as_str(), "key") {
                max_key = crate::decimal::parse_i32_signed(pair.1.as_str());
            } else if crate::util::str_eq(pair.0.as_str(), "page_size") {
                per_page = crate::decimal::parse_i64_signed(pair.1.as_str());
            }
            i += 1;
        }
        Pagination::new(max_key, per_page)
    }
}

/// A page of results, carrying the request key that produced it, the
/// cursor for the next page, and the count of rows not returned.
#[derive(Debug, PartialEq)]
pub struct Page<T> {
    pub key: Option<i32>,
    pub next_key: Option<i32>,
    pub remaining: i64,
    pub items: Vec<T>,
}

impl<T> Page<T> {
    pub fn empty() -> (r: Self)
        ensures
            r.key is None,
            r.next_key is None,
            r.remaining == 0,
            r.items@ =~= Seq::<T>::empty(),
    {
        Page { key: None, next_key: None, remaining: 0, items: Vec::new() }
    }

    pub fn is_empty(&self) -> (r: bool)
        ensures
            r == (self.items@.len() == 0),
    {
        self.items.is_empty()
    }

    /// Hands the whole item vector to `item_mapper` and keeps the paging
    /// metadata; the result's items are whatever the mapper promises of
    /// its output.
    pub fn map_items<U, F: FnOnce(Vec<T>) -> Vec<U>>(self, item_mapper: F) -> (r: Page<U>)
        requires
            item_mapper.requires((self.items,)),
        ensures
            r.key == self.key,
            r.next_key == self.next_key,
            r.remaining == self.remaining,
            item_mapper.ensures((self.items,), r.items),
    {
        let Page { key, next_key, remaining, items } = self;
        Page { items: item_mapper(items), key, remaining, next_key }
    }

    /// Maps each item in place, keeping the paging metadata and the
    /// item order.
    pub fn map<U, F: Fn(T) -> U>(self, mapper: F) -> (r: Page<U>)
        requires
            forall|i: int|
                0 <= i < self.items@.len() ==> mapper.requires((#[trigger] self.items@[i],)),
        ensures
            r.key == self.key,
            r.next_key == self.next_key,
            r.remaining == self.remaining,
            r.items@.len() == self.items@.len(),
            forall|i: int|
                0 <= i < self.items@.len() ==> mapper.ensures(
                    (#[trigger] self.items@[i],),
                    r.items@[i],
                ),
    {
        let Page { key, next_key, remaining, items } = self;
        let ghost orig = items@;
        let mut src = items;
        let mut out: Vec<U> = Vec::new();
        while src.len() > 0
            invariant
                out@.len() + src@.len() == orig.len(),
                src@ =~= orig.skip(out@.len() as int),
                forall|i: int| 0 <= i < orig.len() ==> mapper.requires((#[trigger] orig[i],)),
                forall|i: int|
                    0 <= i < out@.len() ==> mapper.ensures((#[trigger] orig[i],), out@[i]),
            decreases src@.len(),
        {
            let ghost done = out@.len() as int;
            let x = src.remove(0);
            proof {
                assert(x == orig[done]);
                assert(src@ =~= orig.skip(done + 1));
            }
            out.push(mapper(x));
        }
        Page { key, next_key, remaining, items: out }
    }
}

/// A row type the engine can paginate: it exposes its integer id and can
/// be copied out of the backing table.
pub trait PageRow: Sized {
    spec fn row_key(&self) -> int;

    fn key_of(&self) -> (k: i32)
        ensures
            k as int == self.row_key(),
    ;

    fn duplicate(&self) -> (d: Self)
        ensures
            d == *self,
    ;
}

/// Row ids strictly increase along the table.
pub open spec fn sorted_by_key<T: PageRow>(rows: Seq<T>) -> bool {
    forall|i: int, j: int|
        0 <= i < j < rows.len() ==> #[trigger] rows[i].row_key() < #[trigger] rows[j].row_key()
}

/// The effective exclusive lower bound of a request.
pub open spec fn start_key(p: Pagination) -> int {
    match p.key {
        Some(k) => k as int,
        None => 0,
    }
}

/// How many trailing rows of `rows` have an id above `k`; on a sorted
/// table this is the index where the requested page begins.
pub open spec fn cut_index<T: PageRow>(rows: Seq<T>, k: int) -> int
    decreases rows.len(),
{
    if rows.len() == 0 {
        0
    } else if rows.last().row_key() > k {
        cut_index(rows.drop_last(), k)
    } else {
        rows.len() as int
    }
}

/// The number of items the page returns.
pub open spec fn page_len<T: PageRow>(rows: Seq<T>, p: Pagination) -> int {
    let avail = rows.len() - cut_index(rows, start_key(p));
    if p.per_page <= 0 {
        0
    } else if p.per_page <= avail {
        p.per_page as int
    } else {
        avail
    }
}

/// The rows a request returns: the first `per_page` rows past the cursor.
pub open spec fn page_item_seq<T: PageRow>(rows: Seq<T>, p: Pagination) -> Seq<T> {
    let cut = cut_index(rows, start_key(p));
    rows.subrange(cut, cut + page_len(rows, p))
}

/// The rows of the whole result set not returned with this page; an empty
/// page reports zero.
pub open spec fn page_remaining<T: PageRow>(rows: Seq<T>, p: Pagination) -> int {
    if page_len(rows, p) == 0 {
        0
    } else {
        rows.len() - page_len(rows, p)
    }
}

/// The forward cursor: the greatest id of the whole result set, reported
/// only when the page is non-empty.
pub open spec fn page_next_key<T: PageRow>(rows: Seq<T>, p: Pagination) -> Option<int> {
    if page_len(rows, p) == 0 {
        None
    } else {
        Some(rows.last().row_key())
    }
}

/// What `paginate` promises of its result.
pub open spec fn page_correct<T: PageRow>(pg: Page<T>, rows: Seq<T>, p: Pagination) -> bool {
    &&& pg.key == p.key
    &&& pg.items@ == page_item_seq(rows, p)
    &&& pg.remaining == page_remaining(rows, p)
    &&& match pg.next_key {
        Some(k) => page_next_key(rows, p) == Some(k as int),
        None => page_next_key(rows, p) is None,
    }
}

/// On a sorted table the cut index splits the rows into those at or below
/// the cursor and those above it.
pub proof fn lemma_cut_index<T: PageRow>(rows: Seq<T>, k: int)
    requires
        sorted_by_key(rows),
    ensures
        0 <= cut_index(rows, k) <= rows.len(),
        forall|i: int| 0 <= i < cut_index(rows, k) ==> #[trigger] rows[i].row_key() <= k,
        forall|i: int|
            cut_index(rows, k) <= i < rows.len() ==> #[trigger] rows[i].row_key() > k,
    decreases rows.len(),
{
    if rows.len() > 0 {
        if rows.last().row_key() > k {
            let front = rows.drop_last();
            assert(sorted_by_key(front));
            lemma_cut_index(front, k);
            assert(forall|i: int|
                cut_index(rows, k) <= i < rows.len() - 1 ==> #[trigger] rows[i].row_key()
                    == front[i].row_key());
            assert(forall|i: int|
                0 <= i < cut_index(rows, k) ==> #[trigger] rows[i].row_key()
                    == front[i].row_key());
        } else {
            // the last id is at most k, and every earlier id is below it
            assert(forall|i: int|
                0 <= i < rows.len() - 1 ==> #[trigger] rows[i].row_key() < rows.last().row_key());
        }
    }
}

/// Produces the page of `rows` that `p` requests. `rows` must be sorted
/// by strictly increasing id, as the backing tables keep them.
pub fn paginate<T: PageRow>(rows: &Vec<T>, p: Pagination) -> (pg: Page<T>)
    requires
        sorted_by_key(rows@),
        rows@.len() <= i64::MAX,
    ensures
        page_correct(pg, rows@, p),
{
    let ghost k_spec = start_key(p);
    proof {
        lemma_cut_index(rows@, k_spec);
    }
    let k: i32 = match p.key {
        Some(key) => key,
        None => 0,
    };
    let n = rows.len();
    let mut start: usize = 0;
    while start < n && rows[start].key_of() <= k
        invariant
            0 <= start <= n,
            n == rows@.len(),
            k as int == k_spec,
            forall|i: int| 0 <= i < start ==> #[trigger] rows@[i].row_key() <= k_spec,
        decreases n - start,
    {
        start += 1;
    }
    let ghost cut = cut_index(rows@, k_spec);
    proof {
        // start stopped exactly at the boundary the spec names
        if start < n {
            assert(rows@[start as int].row_key() > k_spec);
        }
        assert(start as int == cut) by {
            if (start as int) < cut {
                assert(rows@[start as int].row_key() <= k_spec);
            }
            if (start as int) > cut {
                assert(rows@[cut].row_key() > k_spec);
                assert(rows@[cut].row_key() <= k_spec);
            }
        }
    }
    let avail = n - start;
    let m: usize = if p.per_page <= 0 {
        0
    } else if p.per_page <= avail as i64 {
        p.per_page as usize
    } else {
        avail
    };
    assert(m as int == page_len(rows@, p));
    let mut items: Vec<T> = Vec::new();
    let mut idx = start;
    while idx < start + m
        invariant
            start <= idx <= start + m,
            start + m <= n,
            n == rows@.len(),
            items@ =~= rows@.subrange(start as int, idx as int),
        decreases start + m - idx,
    {
        items.push(rows[idx].duplicate());
        proof {
            assert(rows@.subrange(start as int, idx + 1) =~= rows@.subrange(
                start as int,
                idx as int,
            ).push(rows@[idx as int]));
        }
        idx += 1;
    }
    let remaining: i64 = if m == 0 {
        0
    } else {
        (n - m) as i64
    };
    let next_key: Option<i32> = if m == 0 {
        None
    } else {
        Some(rows[n - 1].key_of())
    };
    proof {
        assert(items@ == page_item_seq(rows@, p));
    }
    Page { key: p.key, next_key, remaining, items }
}

/// First-page counts: over a table of `n` rows with positive ids and no
/// cursor, a page of size `per_page` returns every row when `n` fits in
/// one page (and then reports nothing remaining), and otherwise returns
/// exactly `per_page` rows, reports `n - per_page` remaining, and hands
/// back the last row's id as the cursor. The cursor is absent exactly
/// when the table is empty.
pub proof fn lemma_first_page_counts<T: PageRow>(rows: Seq<T>, p: Pagination)
    requires
        p.per_page >= 1,
        p.key is None,
        sorted_by_key(rows),
        forall|i: int| 0 <= i < rows.len() ==> #[trigger] rows[i].row_key() >= 1,
    ensures
        rows.len() <= p.per_page ==> page_item_seq(rows, p) == rows && page_remaining(rows, p)
            == 0,
        rows.len() > p.per_page ==> page_item_seq(rows, p) == rows.take(p.per_page as int)
            && page_remaining(rows, p) == rows.len() - p.per_page,
        rows.len() == 0 <==> page_next_key(rows, p) is None,
        rows.len() > 0 ==> page_next_key(rows, p) == Some(rows.last().row_key()),
{
    lemma_cut_index(rows, 0);
    let cut = cut_index(rows, 0);
    assert(cut == 0) by {
        if cut > 0 {
            assert(rows[0].row_key() <= 0);
        }
    }
    if rows.len() <= p.per_page {
        assert(page_item_seq(rows, p) =~= rows);
    } else {
        assert(page_item_seq(rows, p) =~= rows.take(p.per_page as int));
    }
}

} // verus!

use vstd::prelude::*;

verus! {

/// First index of the 1-indexed `page` of `size` items in a listing of `len`
/// items (page 0 is read as page 1), clamped to `len`.
pub open spec fn page_start(len: int, page: int, size: int) -> int {
    let skipped = if page >= 1 { (page - 1) * size } else { 0 };
    if skipped < len { skipped } else { len }
}

/// One past the last index of that page, clamped to `len`.
pub open spec fn page_end(len: int, page: int, size: int) -> int {
    let start = page_start(len, page, size);
    if start + size < len { start + size } else { len }
}

/// The slice `[start, end)` of `all` that a page shows.
pub open spec fn page_of<A>(all: Seq<A>, page: int, size: int) -> Seq<A> {
    all.subrange(page_start(all.len() as int, page, size), page_end(all.len() as int, page, size))
}

/// Number of pages needed for `total` items; a page size of zero gives no pages.
pub open spec fn page_count(total: int, size: int) -> int {
    if size <= 0 { 0 } else { (total + size - 1) / size }
}

/// Pages `1..=n` laid end to end.
pub open spec fn concat_pages<A>(all: Seq<A>, size: int, n: nat) -> Seq<A>
    decreases n,
{
    if n == 0 {
        Seq::empty()
    } else {
        concat_pages(all, size, (n - 1) as nat) + page_of(all, n as int, size)
    }
}

/// Number of pages for `total` items, as the listing reports it.
pub fn pages_for(total: usize, size: u32) -> (r: u64)
    ensures
        r == page_count(total as int, size as int),
{
    if size == 0 {
        0
    } else {
        let t = total as u128;
        let s = size as u128;
        let q = (t + s - 1) / s;
        proof {
            let (ti, si, qi) = (t as int, s as int, q as int);
            assert(qi <= ti) by (nonlinear_arith)
                requires qi == (ti + si - 1) / si, si >= 1, ti >= 0;
        }
        q as u64
    }
}

/// The items of `page` (1-indexed) when `all` is cut into pages of `size`.
pub fn select_page<A>(all: Vec<A>, page: u32, size: u32) -> (r: Vec<A>)
    ensures
        r@ == page_of(all@, page as int, size as int),
{
    let total = all.len();
    let skipped: u128 = if page >= 1 {
        let p = (page - 1) as u128;
        let z = size as u128;
        assert(p * z <= 0xffff_ffffu128 * 0xffff_ffffu128) by (nonlinear_arith)
            requires p <= 0xffff_ffffu128, z <= 0xffff_ffffu128;
        p * z
    } else {
        0
    };
    let start: usize = if skipped < total as u128 { skipped as usize } else { total };
    let end: usize = if size as u64 <= (total - start) as u64 { start + size as usize } else { total };
    let mut all = all;
    all.truncate(end);
    let r = all.split_off(start);
    r
}

proof fn lemma_concat_pages_prefix<A>(all: Seq<A>, size: int, n: nat)
    requires
        size > 0,
    ensures
        concat_pages(all, size, n) == all.subrange(
            0,
            if n * size < all.len() { n * size } else { all.len() as int },
        ),
    decreases n,
{
    if n == 0 {
        assert(n * size == 0) by (nonlinear_arith)
            requires n == 0;
        assert(concat_pages(all, size, n) =~= all.subrange(0, 0));
    } else {
        let m = (n - 1) as nat;
        lemma_concat_pages_prefix(all, size, m);
        assert(m * size + size == n * size) by (nonlinear_arith)
            requires m + 1 == n;
        assert(m * size >= 0) by (nonlinear_arith)
            requires size > 0;
        let prev = if m * size < all.len() { m * size } else { all.len() as int };
        let cur = if n * size < all.len() { n * size } else { all.len() as int };
        assert(page_start(all.len() as int, n as int, size) == prev);
        assert(page_end(all.len() as int, n as int, size) == cur);
        assert(concat_pages(all, size, n) == concat_pages(all, size, m) + page_of(all, n as int, size));
        assert(all.subrange(0, prev) + all.subrange(prev, cur) =~= all.subrange(0, cur));
    }
}

/// Paging law: no page holds more than `size` items, and pages `1..=pages`
/// laid end to end give back the whole listing, each item once.
pub proof fn lemma_pages_reassemble<A>(all: Seq<A>, size: int)
    requires
        size > 0,
    ensures
        forall|page: int| (#[trigger] page_of(all, page, size)).len() <= size,
        concat_pages(all, size, page_count(all.len() as int, size) as nat) == all,
        all.no_duplicates() ==> concat_pages(
            all,
            size,
            page_count(all.len() as int, size) as nat,
        ).no_duplicates(),
{
    let len = all.len() as int;
    let n = page_count(len, size);
    assert(n >= 0 && n * size >= len) by (nonlinear_arith)
        requires n == (len + size - 1) / size, size > 0, len >= 0;
    lemma_concat_pages_prefix(all, size, n as nat);
    assert(all.subrange(0, len) =~= all);
}

} // verus!

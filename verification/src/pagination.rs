//! Paging through stored positions by index: a page holds the next keys
//! after (or before) a cursor, in ascending or descending order, at most
//! `limit` of them (10 by default, 30 at most).
use vstd::prelude::*;

verus! {

/// Direction of a paged read.
#[derive(Clone, Copy, Debug, PartialEq, Eq, Structural)]
pub enum OrderBy {
    Asc,
    Desc,
}

pub const MAX_LIMIT: u32 = 30;

pub const DEFAULT_LIMIT: u32 = 10;

/// True when the read goes in ascending key order.
pub fn is_ascending(order_by: OrderBy) -> (b: bool)
    ensures
        b == (order_by == OrderBy::Asc),
{
    match order_by {
        OrderBy::Asc => true,
        OrderBy::Desc => false,
    }
}

/// The page size: the requested limit (10 when absent), at most 30.
pub open spec fn spec_page_limit(limit: Option<u32>) -> nat {
    let l = match limit {
        Some(l) => l,
        None => 10u32,
    };
    if l < 30 {
        l as nat
    } else {
        30
    }
}

pub fn page_limit(limit: Option<u32>) -> (r: usize)
    ensures
        r as nat == spec_page_limit(limit),
{
    let l = match limit {
        Some(l) => l,
        None => DEFAULT_LIMIT,
    };
    if l < MAX_LIMIT {
        l as usize
    } else {
        MAX_LIMIT as usize
    }
}

/// A key lies strictly between the optional bounds.
pub open spec fn in_window(k: u128, lower: Option<u128>, upper: Option<u128>) -> bool {
    &&& lower matches Some(l) ==> l < k
    &&& upper matches Some(u) ==> k < u
}

/// The keys in the order of the read.
pub open spec fn ordered_keys(keys: Seq<u128>, descending: bool) -> Seq<u128> {
    if descending {
        keys.reverse()
    } else {
        keys
    }
}

/// The first `limit` keys in read order that lie in the window.
pub open spec fn spec_page(
    keys: Seq<u128>,
    descending: bool,
    lower: Option<u128>,
    upper: Option<u128>,
    limit: nat,
) -> Seq<u128> {
    let c = ordered_keys(keys, descending).filter(|k: u128| in_window(k, lower, upper));
    if limit < c.len() {
        c.take(limit as int)
    } else {
        c
    }
}

proof fn lemma_filter_take_step(s: Seq<u128>, j: int, p: spec_fn(u128) -> bool)
    requires
        0 <= j < s.len(),
    ensures
        s.take(j + 1).filter(p) == if p(s[j]) {
            s.take(j).filter(p).push(s[j])
        } else {
            s.take(j).filter(p)
        },
{
    reveal_with_fuel(Seq::filter, 1);
    assert(s.take(j + 1).drop_last() =~= s.take(j));
    assert(s.take(j + 1).last() == s[j]);
}

proof fn lemma_filter_split(s: Seq<u128>, j: int, p: spec_fn(u128) -> bool)
    requires
        0 <= j <= s.len(),
    ensures
        s.filter(p) == s.take(j).filter(p) + s.skip(j).filter(p),
{
    assert(s =~= s.take(j) + s.skip(j));
    Seq::filter_distributes_over_add(s.take(j), s.skip(j), p);
}

fn collect_page(
    keys: &Vec<u128>,
    descending: bool,
    lower: Option<u128>,
    upper: Option<u128>,
    limit: usize,
) -> (r: Vec<u128>)
    ensures
        r@ == spec_page(keys@, descending, lower, upper, limit as nat),
{
    let ghost s = ordered_keys(keys@, descending);
    let ghost p = |k: u128| in_window(k, lower, upper);
    let n = keys.len();
    let mut r: Vec<u128> = Vec::new();
    let mut j: usize = 0;
    while j < n && r.len() < limit
        invariant
            n == keys.len(),
            s == ordered_keys(keys@, descending),
            s.len() == n,
            p == (|k: u128| in_window(k, lower, upper)),
            j <= n,
            r@ == s.take(j as int).filter(p),
            r.len() <= limit,
        decreases n - j,
    {
        let k = if descending {
            keys[n - 1 - j]
        } else {
            keys[j]
        };
        assert(k == s[j as int]);
        proof {
            lemma_filter_take_step(s, j as int, p);
        }
        let inside = match lower {
            Some(l) => l < k,
            None => true,
        } && match upper {
            Some(u) => k < u,
            None => true,
        };
        if inside {
            r.push(k);
        }
        j = j + 1;
    }
    proof {
        lemma_filter_split(s, j as int, p);
        let c = s.filter(p);
        if j == n {
            assert(s.skip(j as int) =~= Seq::<u128>::empty());
            reveal_with_fuel(Seq::filter, 1);
            assert(s.skip(j as int).filter(p) =~= Seq::<u128>::empty());
            assert(c =~= r@);
            if limit < c.len() {
            } else {
            }
        } else {
            assert(r.len() == limit);
            assert(c.take(limit as int) =~= r@);
            s.skip(j as int).lemma_filter_len(p);
        }
    }
    r
}

/// A page of the main position store. Whatever the order, the page starts
/// after `start_after`: ascending reads keys above it from the lowest up,
/// descending reads (by default) keys above it from the highest down.
pub fn read_positions(
    keys: &Vec<u128>,
    start_after: Option<u128>,
    limit: Option<u32>,
    order_by: Option<OrderBy>,
) -> (r: Vec<u128>)
    ensures
        r@ == spec_page(
            keys@,
            order_by != Some(OrderBy::Asc),
            start_after,
            None,
            spec_page_limit(limit),
        ),
{
    let l = page_limit(limit);
    let descending = match order_by {
        Some(o) => !is_ascending(o),
        None => true,
    };
    collect_page(keys, descending, start_after, None, l)
}

/// A page of an index (of one owner's or one asset's positions): ascending
/// (the default) reads the keys after `start_after`, from the lowest up;
/// descending reads keys below it from the highest down.
pub fn indexer_page(
    keys: &Vec<u128>,
    start_after: Option<u128>,
    limit: Option<u32>,
    order_by: Option<OrderBy>,
) -> (r: Vec<u128>)
    ensures
        order_by != Some(OrderBy::Desc) ==> r@ == spec_page(
            keys@,
            false,
            start_after,
            None,
            spec_page_limit(limit),
        ),
        order_by == Some(OrderBy::Desc) ==> r@ == spec_page(
            keys@,
            true,
            None,
            start_after,
            spec_page_limit(limit),
        ),
{
    let l = page_limit(limit);
    match order_by {
        Some(OrderBy::Desc) => collect_page(keys, true, None, start_after, l),
        _ => collect_page(keys, false, start_after, None, l),
    }
}

/// A page of one owner's positions (see `indexer_page`).
pub fn read_positions_with_user_indexer(
    keys: &Vec<u128>,
    start_after: Option<u128>,
    limit: Option<u32>,
    order_by: Option<OrderBy>,
) -> (r: Vec<u128>)
    ensures
        order_by != Some(OrderBy::Desc) ==> r@ == spec_page(
            keys@,
            false,
            start_after,
            None,
            spec_page_limit(limit),
        ),
        order_by == Some(OrderBy::Desc) ==> r@ == spec_page(
            keys@,
            true,
            None,
            start_after,
            spec_page_limit(limit),
        ),
{
    indexer_page(keys, start_after, limit, order_by)
}

/// A page of one asset's positions (see `indexer_page`).
pub fn read_positions_with_asset_indexer(
    keys: &Vec<u128>,
    start_after: Option<u128>,
    limit: Option<u32>,
    order_by: Option<OrderBy>,
) -> (r: Vec<u128>)
    ensures
        order_by != Some(OrderBy::Desc) ==> r@ == spec_page(
            keys@,
            false,
            start_after,
            None,
            spec_page_limit(limit),
        ),
        order_by == Some(OrderBy::Desc) ==> r@ == spec_page(
            keys@,
            true,
            None,
            start_after,
            spec_page_limit(limit),
        ),
{
    indexer_page(keys, start_after, limit, order_by)
}


/// A page holds at most `limit` keys, each of them a stored key lying
/// strictly between the cursor bounds.
pub proof fn lemma_page_within_bounds(
    keys: Seq<u128>,
    descending: bool,
    lower: Option<u128>,
    upper: Option<u128>,
    limit: nat,
)
    ensures
        spec_page(keys, descending, lower, upper, limit).len() <= limit,
        forall|i: int|
            0 <= i < spec_page(keys, descending, lower, upper, limit).len() ==> {
                let k = #[trigger] spec_page(keys, descending, lower, upper, limit)[i];
                in_window(k, lower, upper) && keys.contains(k)
            },
{
    let o = ordered_keys(keys, descending);
    let p = |k: u128| in_window(k, lower, upper);
    let c = o.filter(p);
    let page = spec_page(keys, descending, lower, upper, limit);
    assert forall|i: int| 0 <= i < page.len() implies in_window(page[i], lower, upper)
        && keys.contains(page[i]) by {
        assert(page[i] == c[i]);
        o.lemma_filter_pred(p, i);
        assert(c.contains(c[i]));
        #[allow(deprecated)]
        o.lemma_filter_contains_rev(p, c[i]);
        let j = choose|j: int| 0 <= j < o.len() && o[j] == c[i];
        if descending {
            assert(o[j] == keys[keys.len() - 1 - j]);
        }
    }
}

} // verus!

//! The list of packages as the report takes it: cut at the row limit and
//! ordered from the most recently updated to the least.

use vstd::prelude::*;
use vstd::string::StringExecFns;
use crate::records::{crate_views, Crate, CrateView};
use crate::text::{lemma_text_before_transitive, lemma_text_order, text_before, text_lt};

verus! {

/// Package `a` of the list comes before package `b` in the report: it was
/// updated later, or at the same time and stands earlier in the list.
pub open spec fn newer_first(crates: Seq<CrateView>, a: int, b: int) -> bool {
    text_before(crates[b].updated_at, crates[a].updated_at) || (crates[a].updated_at
        == crates[b].updated_at && a < b)
}

/// `order` names the places `lo..hi` of the list, each once, from the
/// package that comes first to the one that comes last.
pub open spec fn orders_range(crates: Seq<CrateView>, order: Seq<int>, lo: int, hi: int) -> bool {
    &&& order.len() == hi - lo
    &&& forall|k: int| 0 <= k < order.len() ==> lo <= #[trigger] order[k] < hi
    &&& forall|j: int, k: int|
        0 <= j < k < order.len() ==> newer_first(crates, #[trigger] order[j], #[trigger] order[k])
    &&& forall|i: int| lo <= i < hi ==> #[trigger] order.contains(i)
}

/// `order` names every place of the list once, from the package that
/// comes first in the report to the one that comes last.
pub open spec fn is_newest_first(crates: Seq<CrateView>, order: Seq<int>) -> bool {
    orders_range(crates, order, 0, crates.len() as int)
}

/// The packages of the list in the given order of places.
pub open spec fn arranged(crates: Seq<CrateView>, order: Seq<int>) -> Seq<CrateView> {
    Seq::new(order.len(), |k: int| crates[order[k]])
}

/// The order that names every place of the list once, from the package
/// that comes first in the report to the one that comes last. There is
/// such an order for every list, and one only.
pub open spec fn newest_first_order(crates: Seq<CrateView>) -> Seq<int> {
    choose|order: Seq<int>| is_newest_first(crates, order)
}

/// The list from the most recently updated package to the least, packages
/// of one time in the order in which they stood.
pub open spec fn newest_first(crates: Seq<CrateView>) -> Seq<CrateView> {
    arranged(crates, newest_first_order(crates))
}

/// Of two packages at different places exactly one comes before the
/// other, and none comes before itself.
pub proof fn lemma_newer_first_total(crates: Seq<CrateView>, a: int, b: int)
    ensures
        !(newer_first(crates, a, b) && newer_first(crates, b, a)),
        a != b ==> newer_first(crates, a, b) || newer_first(crates, b, a),
        !newer_first(crates, a, a),
{
    lemma_text_order(crates[a].updated_at, crates[b].updated_at);
    lemma_text_order(crates[a].updated_at, crates[a].updated_at);
}

/// What comes before a package comes before every package after it.
pub proof fn lemma_newer_first_transitive(crates: Seq<CrateView>, a: int, b: int, c: int)
    requires
        newer_first(crates, a, b),
        newer_first(crates, b, c),
    ensures
        newer_first(crates, a, c),
{
    let ta = crates[a].updated_at;
    let tb = crates[b].updated_at;
    let tc = crates[c].updated_at;
    if text_before(tb, ta) && text_before(tc, tb) {
        lemma_text_before_transitive(tc, tb, ta);
    }
}

/// There is one order only that names every place of the list from the
/// package that comes first to the one that comes last.
pub proof fn lemma_newest_first_unique(crates: Seq<CrateView>, one: Seq<int>, other: Seq<int>)
    requires
        is_newest_first(crates, one),
        is_newest_first(crates, other),
    ensures
        one == other,
{
    assert forall|k: int| 0 <= k < one.len() implies one[k] == other[k] by {
        lemma_orders_agree(crates, one, other, k);
    }
    assert(one =~= other);
}

proof fn lemma_place_of(crates: Seq<CrateView>, order: Seq<int>, place: int, from: int) -> (at: int)
    requires
        0 <= from <= order.len(),
        forall|j: int| 0 <= j < order.len() ==> #[trigger] order[j] != place,
        forall|j: int| 0 <= j < from ==> newer_first(crates, #[trigger] order[j], place),
    ensures
        from <= at <= order.len(),
        forall|j: int| 0 <= j < at ==> newer_first(crates, #[trigger] order[j], place),
        at < order.len() ==> newer_first(crates, place, order[at]),
    decreases order.len() - from,
{
    if from == order.len() || newer_first(crates, place, order[from]) {
        from
    } else {
        lemma_newer_first_total(crates, place, order[from]);
        lemma_place_of(crates, order, place, from + 1)
    }
}

proof fn lemma_order_of_first(crates: Seq<CrateView>, hi: int) -> (order: Seq<int>)
    requires
        0 <= hi <= crates.len(),
    ensures
        orders_range(crates, order, 0, hi),
    decreases hi,
{
    if hi == 0 {
        Seq::empty()
    } else {
        let before = lemma_order_of_first(crates, hi - 1);
        let place = hi - 1;
        let at = lemma_place_of(crates, before, place, 0);
        let order = before.insert(at, place);
        before.insert_ensures(at, place);
        assert forall|j: int, k: int| 0 <= j < k < order.len() implies newer_first(
            crates,
            #[trigger] order[j],
            #[trigger] order[k],
        ) by {
            if k < at {
                assert(order[j] == before[j] && order[k] == before[k]);
            } else if k == at {
                assert(order[j] == before[j]);
            } else if j < at {
                assert(order[j] == before[j] && order[k] == before[k - 1]);
            } else if j == at {
                assert(order[k] == before[k - 1]);
                if k - 1 > at {
                    lemma_newer_first_transitive(crates, place, before[at], before[k - 1]);
                }
            } else {
                assert(order[j] == before[j - 1] && order[k] == before[k - 1]);
            }
        }
        assert forall|k: int| 0 <= k < order.len() implies 0 <= #[trigger] order[k] < hi by {
            if k < at {
                assert(order[k] == before[k]);
            } else if k > at {
                assert(order[k] == before[k - 1]);
            }
        }
        assert forall|i: int| 0 <= i < hi implies #[trigger] order.contains(i) by {
            if i == place {
                assert(order[at] == i);
            } else {
                assert(before.contains(i));
                let was = choose|was: int| 0 <= was < before.len() && before[was] == i;
                if was < at {
                    assert(order[was] == i);
                } else {
                    assert(order[was + 1] == i);
                }
            }
        }
        order
    }
}

/// Every list has an order that names its places from the package that
/// comes first in the report to the one that comes last.
pub proof fn lemma_newest_first_exists(crates: Seq<CrateView>)
    ensures
        exists|order: Seq<int>| is_newest_first(crates, order),
{
    let order = lemma_order_of_first(crates, crates.len() as int);
    assert(is_newest_first(crates, order));
}

/// The ordered list holds every package of the list once: it is as long
/// as the list, its order names every place once, and each of its
/// packages is the one at the place that the order names. Of two of its
/// packages the later was not updated after the earlier, and where both
/// were updated at one time they stand as they stood in the list.
pub proof fn lemma_newest_first(crates: Seq<CrateView>)
    ensures
        is_newest_first(crates, newest_first_order(crates)),
        newest_first(crates).len() == crates.len(),
        forall|k: int|
            0 <= k < crates.len() ==> #[trigger] newest_first(crates)[k]
                == crates[newest_first_order(crates)[k]],
        forall|j: int, k: int|
            0 <= j < k < crates.len() ==> !text_before(
                (#[trigger] newest_first(crates)[j]).updated_at,
                (#[trigger] newest_first(crates)[k]).updated_at,
            ),
{
    lemma_newest_first_exists(crates);
    let order = newest_first_order(crates);
    assert forall|j: int, k: int| 0 <= j < k < crates.len() implies !text_before(
        (#[trigger] newest_first(crates)[j]).updated_at,
        (#[trigger] newest_first(crates)[k]).updated_at,
    ) by {
        assert(newer_first(crates, order[j], order[k]));
        lemma_text_order(crates[order[j]].updated_at, crates[order[k]].updated_at);
    }
}

/// The ordered list is the list in whatever order names its places from
/// the package that comes first to the one that comes last.
pub proof fn lemma_newest_first_is(crates: Seq<CrateView>, order: Seq<int>)
    requires
        is_newest_first(crates, order),
    ensures
        newest_first_order(crates) == order,
        newest_first(crates) == arranged(crates, order),
        newest_first(crates).len() == crates.len(),
{
    lemma_newest_first_unique(crates, order, newest_first_order(crates));
}

proof fn lemma_orders_agree(crates: Seq<CrateView>, one: Seq<int>, other: Seq<int>, k: int)
    requires
        is_newest_first(crates, one),
        is_newest_first(crates, other),
        0 <= k < one.len(),
    ensures
        forall|j: int| 0 <= j <= k ==> one[j] == other[j],
    decreases k,
{
    if k > 0 {
        lemma_orders_agree(crates, one, other, k - 1);
    }
    lemma_newer_first_total(crates, one[k], other[k]);
    lemma_not_before_the_other(crates, one, other, k);
    lemma_not_before_the_other(crates, other, one, k);
}

proof fn lemma_not_before_the_other(
    crates: Seq<CrateView>,
    one: Seq<int>,
    other: Seq<int>,
    k: int,
)
    requires
        is_newest_first(crates, one),
        is_newest_first(crates, other),
        0 <= k < one.len(),
        forall|j: int| 0 <= j < k ==> one[j] == other[j],
    ensures
        !newer_first(crates, one[k], other[k]),
{
    let x = one[k];
    let y = other[k];
    assert(other.contains(x));
    let m = choose|m: int| 0 <= m < other.len() && other[m] == x;
    lemma_newer_first_total(crates, x, y);
    lemma_newer_first_total(crates, x, x);
    if m < k {
        assert(one[m] == x);
        assert(newer_first(crates, one[m], one[k]));
    } else if m > k {
        assert(newer_first(crates, other[k], other[m]));
    }
}

/// The places that a list of indexes names.
pub open spec fn places(order: Seq<usize>) -> Seq<int> {
    order.map_values(|place: usize| place as int)
}

fn updated_later(crates: &Vec<Crate>, a: usize, b: usize) -> (later: bool)
    requires
        a < crates.len(),
        b < crates.len(),
    ensures
        later == text_before(crate_views(crates@)[b as int].updated_at, crate_views(
            crates@,
        )[a as int].updated_at),
{
    text_lt(crates[b].updated_at.as_str(), crates[a].updated_at.as_str())
}

fn merge_orders(crates: &Vec<Crate>, left: &Vec<usize>, right: &Vec<usize>, Ghost(lo): Ghost<
    int,
>, Ghost(mid): Ghost<int>, Ghost(hi): Ghost<int>) -> (merged: Vec<usize>)
    requires
        0 <= lo <= mid <= hi <= crates.len(),
        orders_range(crate_views(crates@), places(left@), lo, mid),
        orders_range(crate_views(crates@), places(right@), mid, hi),
    ensures
        orders_range(crate_views(crates@), places(merged@), lo, hi),
{
    let ghost views = crate_views(crates@);
    let ghost l = places(left@);
    let ghost r = places(right@);
    let mut merged: Vec<usize> = Vec::new();
    let mut li: usize = 0;
    let mut ri: usize = 0;
    while li < left.len() || ri < right.len()
        invariant
            0 <= lo <= mid <= hi <= crates.len(),
            views == crate_views(crates@),
            l == places(left@),
            r == places(right@),
            orders_range(views, l, lo, mid),
            orders_range(views, r, mid, hi),
            li <= left.len(),
            ri <= right.len(),
            merged.len() == li + ri,
            forall|k: int| 0 <= k < merged.len() ==> lo <= #[trigger] places(merged@)[k] < hi,
            forall|j: int, k: int|
                0 <= j < k < merged.len() ==> newer_first(
                    views,
                    #[trigger] places(merged@)[j],
                    #[trigger] places(merged@)[k],
                ),
            forall|j: int, k: int|
                0 <= j < merged.len() && li <= k < l.len() ==> newer_first(
                    views,
                    #[trigger] places(merged@)[j],
                    #[trigger] l[k],
                ),
            forall|j: int, k: int|
                0 <= j < merged.len() && ri <= k < r.len() ==> newer_first(
                    views,
                    #[trigger] places(merged@)[j],
                    #[trigger] r[k],
                ),
            forall|k: int| 0 <= k < li ==> places(merged@).contains(#[trigger] l[k]),
            forall|k: int| 0 <= k < ri ==> places(merged@).contains(#[trigger] r[k]),
        decreases left.len() - li + right.len() - ri,
    {
        let ghost before = places(merged@);
        let take_right = if li == left.len() {
            true
        } else if ri == right.len() {
            false
        } else {
            assert(lo <= l[li as int] < mid);
            assert(mid <= r[ri as int] < hi);
            updated_later(crates, right[ri], left[li])
        };
        if take_right {
            let next = right[ri];
            proof {
                let x = next as int;
                assert(x == r[ri as int]);
                assert(mid <= x < hi);
                assert forall|k: int| ri < k < r.len() implies newer_first(
                    views,
                    x,
                    #[trigger] r[k],
                ) by {}
                assert forall|k: int| li <= k < l.len() implies newer_first(
                    views,
                    x,
                    #[trigger] l[k],
                ) by {
                    assert(newer_first(views, x, l[li as int]));
                    if k > li {
                        assert(newer_first(views, l[li as int], l[k]));
                        lemma_newer_first_transitive(views, x, l[li as int], l[k]);
                    }
                }
                assert(places(merged@.push(next)) =~= before.push(x));
            }
            merged.push(next);
            ri += 1;
            proof {
                let after = places(merged@);
                assert forall|k: int| 0 <= k < li implies after.contains(#[trigger] l[k]) by {
                    let at = choose|at: int| 0 <= at < before.len() && before[at] == l[k];
                    assert(after[at] == l[k]);
                }
                assert forall|k: int| 0 <= k < ri implies after.contains(#[trigger] r[k]) by {
                    if k < ri - 1 {
                        let at = choose|at: int| 0 <= at < before.len() && before[at] == r[k];
                        assert(after[at] == r[k]);
                    } else {
                        assert(after[before.len() as int] == r[k]);
                    }
                }
            }
        } else {
            let next = left[li];
            proof {
                let x = next as int;
                assert(x == l[li as int]);
                assert(lo <= x < mid);
                assert forall|k: int| li < k < l.len() implies newer_first(
                    views,
                    x,
                    #[trigger] l[k],
                ) by {}
                assert forall|k: int| ri <= k < r.len() implies newer_first(
                    views,
                    x,
                    #[trigger] r[k],
                ) by {
                    let y = r[ri as int];
                    assert(mid <= y < hi);
                    lemma_newer_first_total(views, x, y);
                    lemma_text_order(views[x].updated_at, views[y].updated_at);
                    assert(newer_first(views, x, y));
                    if k > ri {
                        assert(newer_first(views, y, r[k]));
                        lemma_newer_first_transitive(views, x, y, r[k]);
                    }
                }
                assert(places(merged@.push(next)) =~= before.push(x));
            }
            merged.push(next);
            li += 1;
            proof {
                let after = places(merged@);
                assert forall|k: int| 0 <= k < ri implies after.contains(#[trigger] r[k]) by {
                    let at = choose|at: int| 0 <= at < before.len() && before[at] == r[k];
                    assert(after[at] == r[k]);
                }
                assert forall|k: int| 0 <= k < li implies after.contains(#[trigger] l[k]) by {
                    if k < li - 1 {
                        let at = choose|at: int| 0 <= at < before.len() && before[at] == l[k];
                        assert(after[at] == l[k]);
                    } else {
                        assert(after[before.len() as int] == l[k]);
                    }
                }
            }
        }
    }
    proof {
        let all = places(merged@);
        assert forall|i: int| lo <= i < hi implies #[trigger] all.contains(i) by {
            if i < mid {
                assert(l.contains(i));
                let k = choose|k: int| 0 <= k < l.len() && l[k] == i;
                assert(all.contains(l[k]));
            } else {
                assert(r.contains(i));
                let k = choose|k: int| 0 <= k < r.len() && r[k] == i;
                assert(all.contains(r[k]));
            }
        }
    }
    merged
}

fn order_range(crates: &Vec<Crate>, lo: usize, hi: usize) -> (order: Vec<usize>)
    requires
        lo <= hi <= crates.len(),
    ensures
        orders_range(crate_views(crates@), places(order@), lo as int, hi as int),
    decreases hi - lo,
{
    if hi - lo == 0 {
        let order: Vec<usize> = Vec::new();
        assert(places(order@) =~= Seq::<int>::empty());
        order
    } else if hi - lo == 1 {
        let mut order: Vec<usize> = Vec::new();
        order.push(lo);
        assert(places(order@) =~= seq![lo as int]);
        assert(places(order@)[0] == lo);
        order
    } else {
        let mid = lo + (hi - lo) / 2;
        let left = order_range(crates, lo, mid);
        let right = order_range(crates, mid, hi);
        merge_orders(crates, &left, &right, Ghost(lo as int), Ghost(mid as int), Ghost(hi as int))
    }
}

/// Orders the packages from the most recently updated to the least.
/// Packages of one time keep the order in which they stood.
pub fn sort_newest_first(crates: &Vec<Crate>) -> (sorted: Vec<Crate>)
    ensures
        sorted.len() == crates.len(),
        is_newest_first(crate_views(crates@), newest_first_order(crate_views(crates@))),
        crate_views(sorted@) == newest_first(crate_views(crates@)),
{
    let ghost views = crate_views(crates@);
    let order = order_range(crates, 0, crates.len());
    let ghost found = places(order@);
    proof {
        lemma_newest_first_is(views, found);
    }
    let mut sorted: Vec<Crate> = Vec::new();
    let mut k: usize = 0;
    while k < order.len()
        invariant
            k <= order.len(),
            views == crate_views(crates@),
            found == places(order@),
            is_newest_first(views, found),
            sorted.len() == k,
            forall|j: int| 0 <= j < k ==> (#[trigger] sorted[j])@ == views[found[j]],
        decreases order.len() - k,
    {
        assert(0 <= found[k as int] < crates.len());
        sorted.push(crates[order[k]].clone());
        k += 1;
    }
    assert(crate_views(sorted@) =~= arranged(views, found));
    sorted
}

/// The number of rows that are taken of `rows` rows under a limit: all of
/// them with the limit 0, which is no limit, or with no more rows than the
/// limit; else as many as the limit says.
pub open spec fn rows_read(limit: nat, rows: nat) -> nat {
    if limit == 0 || rows <= limit {
        rows
    } else {
        limit
    }
}

/// Finds how many of `rows` rows are taken under a limit: all of them with
/// the limit 0, else the first `limit` of them, or all where there are
/// fewer.
pub fn rows_to_read(limit: u32, rows: usize) -> (taken: usize)
    ensures
        taken == rows_read(limit as nat, rows as nat),
        taken <= rows,
        limit > 0 ==> taken <= limit,
{
    if limit == 0 || rows <= limit as usize {
        rows
    } else {
        limit as usize
    }
}

/// The place of the first of the first `rows` rows that could not be
/// read, where there is one.
pub open spec fn first_failure(records: Seq<Result<Crate, String>>, rows: int) -> Option<int>
    decreases rows,
{
    if rows <= 0 {
        None
    } else {
        match first_failure(records, rows - 1) {
            Some(at) => Some(at),
            None => if records[rows - 1] is Err {
                Some(rows - 1)
            } else {
                None
            },
        }
    }
}

/// The packages of the first `rows` rows, where all of them could be
/// read.
pub open spec fn read_rows(records: Seq<Result<Crate, String>>, rows: int) -> Seq<CrateView> {
    Seq::new(rows as nat, |i: int| records[i]->Ok_0@)
}

/// The message for a row that could not be read.
pub open spec fn failure_text(reason: Seq<char>) -> Seq<char> {
    "error: "@ + reason
}

/// The first failure is a row that could not be read, and every row
/// before it could.
pub proof fn lemma_first_failure(records: Seq<Result<Crate, String>>, rows: int)
    requires
        0 <= rows <= records.len(),
    ensures
        match first_failure(records, rows) {
            Some(at) => {
                &&& 0 <= at < rows
                &&& records[at] is Err
                &&& forall|i: int| 0 <= i < at ==> records[i] is Ok
            },
            None => forall|i: int| 0 <= i < rows ==> records[i] is Ok,
        },
    decreases rows,
{
    if rows > 0 {
        lemma_first_failure(records, rows - 1);
    }
}

/// Makes the list of packages of the rows of the registry's table, each
/// of them a package or the reason why it could not be read. With a limit
/// that is not 0 only the first `limit` rows are taken, and the rows
/// behind them are not looked at. The first of the rows taken that could
/// not be read fails the whole list, with its reason after `error: `;
/// else the list is ordered from the most recently updated package to the
/// least.
pub fn read_crates(limit: u32, records: &Vec<Result<Crate, String>>) -> (loaded: Result<
    Vec<Crate>,
    String,
>)
    ensures
        match loaded {
            Ok(crates) => {
                &&& crates.len() == rows_read(limit as nat, records.len() as nat)
                &&& first_failure(
                    records@,
                    rows_read(limit as nat, records.len() as nat) as int,
                ) is None
                &&& crate_views(crates@) == newest_first(
                    read_rows(records@, rows_read(limit as nat, records.len() as nat) as int),
                )
            },
            Err(message) => {
                &&& first_failure(
                    records@,
                    rows_read(limit as nat, records.len() as nat) as int,
                ) matches Some(at)
                &&& message@ == failure_text(records@[at]->Err_0@)
            },
        },
{
    let rows = rows_to_read(limit, records.len());
    let mut crates: Vec<Crate> = Vec::new();
    let mut i: usize = 0;
    while i < rows
        invariant
            i <= rows <= records.len(),
            rows == rows_read(limit as nat, records.len() as nat),
            first_failure(records@, i as int) is None,
            crate_views(crates@) == read_rows(records@, i as int),
        decreases rows - i,
    {
        let record = &records[i];
        assert(*record == records@[i as int]);
        match record {
            Ok(krate) => {
                let copy = krate.clone();
                assert(records@[i as int]->Ok_0 == *krate);
                assert(crate_views(crates@.push(copy)) =~= read_rows(records@, i as int).push(
                    krate@,
                ));
                assert(read_rows(records@, i as int + 1) =~= read_rows(records@, i as int).push(
                    krate@,
                ));
                crates.push(copy);
            },
            Err(reason) => {
                let mut message = "error: ".to_owned();
                message.append(reason.as_str());
                proof {
                    assert(records@[i as int]->Err_0 == *reason);
                    assert(first_failure(records@, i as int + 1) == Some(i as int));
                    lemma_first_failure_stays(records@, i as int + 1, rows as int);
                }
                return Err(message);
            },
        }
        i += 1;
    }
    Ok(sort_newest_first(&crates))
}

proof fn lemma_first_failure_stays(records: Seq<Result<Crate, String>>, rows: int, more: int)
    requires
        0 <= rows <= more,
        first_failure(records, rows) is Some,
    ensures
        first_failure(records, more) == first_failure(records, rows),
    decreases more - rows,
{
    if rows < more {
        lemma_first_failure_stays(records, rows, more - 1);
    }
}

} // verus!

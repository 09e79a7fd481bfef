//! General laws of the navigation-and-search state machine, stated over the
//! same specification functions that the operations' contracts use.

use vstd::prelude::*;

use crate::browser::{traversal_ok, Browser};
use crate::listing::{EnterKind, Entry};
use crate::search::{
    cyclic_next, cyclic_prev, first_from, first_from_idx, last_below, lemma_target_rows_membership,
    name_matches, names_of, search_targets, strictly_sorted, SearchController,
};

verus! {

/// A refresh that reads back an unchanged directory is idempotent: listing,
/// targets and selection are identical before and after.
pub proof fn lemma_refresh_unchanged_dir(b0: Browser, b1: Browser)
    requires
        b0.wf(),
        b0.search.targets_wf(b0.view.entries@),
        traversal_ok(b0, b1, EnterKind::Refresh, b0.view.entries@),
    ensures
        b1.view.entries@ == b0.view.entries@,
        b1.search.targets@ == b0.search.targets@,
        b1.view.selection == b0.view.selection,
{
}

/// Applying the outcome of a refresh twice with the same directory contents
/// gives the same listing, targets and selection as applying it once.
pub proof fn lemma_refresh_idempotent(b0: Browser, b1: Browser, b2: Browser, es: Seq<Entry>)
    requires
        traversal_ok(b0, b1, EnterKind::Refresh, es),
        traversal_ok(b1, b2, EnterKind::Refresh, es),
    ensures
        b2.view.entries@ == b1.view.entries@,
        b2.search.targets@ == b1.search.targets@,
        b2.view.selection == b1.view.selection,
{
}

/// Appending a character to the keyword and then removing it restores the
/// target set to exactly what it was before the two calls, whatever the
/// keyword and the entry set.
pub proof fn lemma_append_remove_round_trip(
    s0: SearchController,
    s1: SearchController,
    s2: SearchController,
    entries: Seq<Entry>,
    c: char,
)
    requires
        s0.targets_wf(entries),
        s1.spec_keyword() == s0.spec_keyword().push(c),
        s1.targets@ == search_targets(names_of(entries), s1.spec_keyword()),
        s2.spec_keyword() == s1.spec_keyword().drop_last(),
        s2.targets@ == search_targets(names_of(entries), s2.spec_keyword()),
    ensures
        s2.targets@ == s0.targets@,
{
    assert(s0.spec_keyword().push(c).drop_last() =~= s0.spec_keyword());
}

/// The target set holds exactly the rows of the matching entries: row
/// `i + 2` is a target if and only if the keyword is non-empty and the name
/// of the entry at index `i`, lower-cased, contains the lower-cased keyword
/// as a substring.
pub proof fn lemma_search_targets_membership(entries: Seq<Entry>, kw: Seq<char>, i: int)
    requires
        0 <= i < entries.len(),
        entries.len() + 2 <= usize::MAX,
    ensures
        search_targets(names_of(entries), kw).contains((i + 2) as usize) <==> (kw.len() > 0
            && name_matches(entries[i].name@, kw)),
{
    if kw.len() > 0 {
        lemma_target_rows_membership(names_of(entries), kw, i);
        assert(names_of(entries)[i] == entries[i].name@);
    }
}

proof fn lemma_first_from_idx_props(ts: Seq<usize>, bound: int)
    ensures
        match first_from_idx(ts, bound) {
            Some(j) => 0 <= j < ts.len() && ts[j] >= bound && (forall|l: int|
                0 <= l < j ==> ts[l] < bound),
            None => forall|l: int| 0 <= l < ts.len() ==> ts[l] < bound,
        },
    decreases ts.len(),
{
    if ts.len() == 0 {
    } else if ts[0] >= bound {
    } else {
        let dl = ts.drop_first();
        lemma_first_from_idx_props(dl, bound);
        assert(forall|l: int| 1 <= l < ts.len() ==> #[trigger] ts[l] == dl[l - 1]);
        match first_from_idx(dl, bound) {
            Some(j) => {
                assert(ts[j + 1] == dl[j]);
            },
            None => {},
        }
    }
}

/// With sorted targets, `first_from` yields the least target at or above the
/// bound, or says that none reaches it.
proof fn lemma_first_from_min(ts: Seq<usize>, bound: int)
    requires
        strictly_sorted(ts),
    ensures
        match first_from(ts, bound) {
            Some(t) => ts.contains(t) && t >= bound && (forall|l: int|
                0 <= l < ts.len() && ts[l] >= bound ==> ts[l] >= t),
            None => forall|l: int| 0 <= l < ts.len() ==> ts[l] < bound,
        },
{
    lemma_first_from_idx_props(ts, bound);
    match first_from_idx(ts, bound) {
        Some(j) => {
            assert(ts[j] == ts[j]);
            assert(forall|l: int| 0 <= l < ts.len() && ts[l] >= bound ==> l >= j);
            assert(forall|l: int| 0 <= l < ts.len() && l >= j ==> ts[l] >= ts[j]);
        },
        None => {},
    }
}

/// With sorted targets, `last_below` yields the greatest target strictly
/// below the bound, or says that none is below it.
proof fn lemma_last_below_max(ts: Seq<usize>, bound: int)
    requires
        strictly_sorted(ts),
    ensures
        match last_below(ts, bound) {
            Some(t) => ts.contains(t) && t < bound && (forall|l: int|
                0 <= l < ts.len() && ts[l] < bound ==> ts[l] <= t),
            None => forall|l: int| 0 <= l < ts.len() ==> ts[l] >= bound,
        },
    decreases ts.len(),
{
    if ts.len() == 0 {
    } else if ts.last() < bound {
        assert(ts.contains(ts.last())) by {
            assert(ts[ts.len() - 1] == ts.last());
        }
        assert(forall|l: int| 0 <= l < ts.len() ==> #[trigger] ts[l] <= ts[ts.len() - 1]);
    } else {
        let dl = ts.drop_last();
        assert(forall|l: int| 0 <= l < ts.len() - 1 ==> #[trigger] ts[l] == dl[l]);
        assert(strictly_sorted(dl));
        lemma_last_below_max(dl, bound);
        match last_below(dl, bound) {
            Some(t) => {
                let j = choose|j: int| 0 <= j < dl.len() && dl[j] == t;
                assert(ts[j] == t);
                assert(ts.contains(t));
                assert(forall|l: int| 0 <= l < ts.len() && #[trigger] ts[l] < bound ==> l
                    < ts.len() - 1);
            },
            None => {},
        }
    }
}

/// Cycling forward and then backward from the same starting selection lands
/// on the nearest target at or below the start — or, when every target lies
/// above it, wraps to the highest target. In particular the two moves are
/// circular, not clamping.
pub proof fn lemma_next_then_previous(ts: Seq<usize>, cur: usize)
    requires
        strictly_sorted(ts),
        ts.len() > 0,
    ensures
        cyclic_prev(ts, cyclic_next(ts, cur)) == (match last_below(ts, cur as int + 1) {
            Some(t) => t,
            None => ts.last(),
        }),
{
    let x = cyclic_next(ts, cur);
    lemma_first_from_min(ts, cur as int + 1);
    lemma_last_below_max(ts, cur as int + 1);
    lemma_last_below_max(ts, x as int);
    assert(forall|l: int| 0 <= l < ts.len() ==> #[trigger] ts[l] >= ts[0]);
    assert(forall|l: int| 0 <= l < ts.len() ==> #[trigger] ts[l] <= ts.last());
    match first_from(ts, cur as int + 1) {
        Some(t) => {
            // x is the least target strictly above cur, so the targets below
            // x are exactly the targets at or below cur.
            assert(x == t);
            let jx = choose|j: int| 0 <= j < ts.len() && ts[j] == x;
            match last_below(ts, cur as int + 1) {
                Some(b) => {
                    let jb = choose|j: int| 0 <= j < ts.len() && ts[j] == b;
                    match last_below(ts, x as int) {
                        Some(b2) => {
                            let jb2 = choose|j: int| 0 <= j < ts.len() && ts[j] == b2;
                            assert(b2 <= cur);
                            assert(b <= b2 && b2 <= b);
                        },
                        None => {
                            assert(ts[jb] >= x);
                            assert(false);
                        },
                    }
                },
                None => {
                    // every target is above cur, hence at or above x: nothing
                    // lies below x, and both sides wrap to the highest target.
                    match last_below(ts, x as int) {
                        Some(b2) => {
                            let jb2 = choose|j: int| 0 <= j < ts.len() && ts[j] == b2;
                            assert(false);
                        },
                        None => {},
                    }
                },
            }
        },
        None => {
            // every target is at or below cur: forward wraps to the lowest
            // target, below which nothing lies, so backward wraps to the
            // highest, which is also the nearest at or below cur.
            assert(x == ts[0]);
            match last_below(ts, x as int) {
                Some(b2) => {
                    let jb2 = choose|j: int| 0 <= j < ts.len() && ts[j] == b2;
                    assert(false);
                },
                None => {},
            }
            match last_below(ts, cur as int + 1) {
                Some(b) => {
                    let jb = choose|j: int| 0 <= j < ts.len() && ts[j] == b;
                    assert(ts.last() <= b);
                    assert(b == ts.last());
                },
                None => {
                    assert(ts[0] >= cur as int + 1);
                    assert(false);
                },
            }
        },
    }
}

} // verus!

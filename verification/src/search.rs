//! Incremental search: the active keyword, the rows whose entry names match
//! it, and the cycling and jump operations that move the selection through
//! those rows.
//!
//! The target set is recomputed in full on every keyword change; it is the
//! ordered set of rows at least 2 whose entry name, lower-cased, contains the
//! lower-cased keyword as a substring. An empty keyword has no targets.
//! Cycling through targets is circular, unlike plain selection movement,
//! which clamps.

use vstd::prelude::*;

use crate::listing::{DirectoryView, Entry};
use crate::text::{contains_chars, is_substring, lower_chars, lower_of, pop_char, push_char};

verus! {

/// The entry name at row `i + 2` matches keyword `kw`: lower-cased, it
/// contains the lower-cased keyword as a substring.
pub open spec fn name_matches(name: Seq<char>, kw: Seq<char>) -> bool {
    is_substring(lower_of(kw), lower_of(name))
}

/// The display names of a listing, in listing order.
pub open spec fn names_of(entries: Seq<Entry>) -> Seq<Seq<char>> {
    entries.map_values(|e: Entry| e.name@)
}

/// The rows whose names match `kw`, in ascending order. The name at index
/// `i` sits at row `i + 2`, behind the two synthetic rows.
pub open spec fn target_rows(names: Seq<Seq<char>>, kw: Seq<char>) -> Seq<usize>
    decreases names.len(),
{
    if names.len() == 0 {
        Seq::empty()
    } else {
        let rest = target_rows(names.drop_last(), kw);
        if name_matches(names.last(), kw) {
            rest.push((names.len() + 1) as usize)
        } else {
            rest
        }
    }
}

/// The target set for a keyword: empty for the empty keyword, otherwise the
/// matching rows in ascending order.
pub open spec fn search_targets(names: Seq<Seq<char>>, kw: Seq<char>) -> Seq<usize> {
    if kw.len() == 0 {
        Seq::empty()
    } else {
        target_rows(names, kw)
    }
}

/// Every element is strictly below every later one.
pub open spec fn strictly_sorted(ts: Seq<usize>) -> bool {
    forall|j1: int, j2: int| 0 <= j1 < j2 < ts.len() ==> ts[j1] < ts[j2]
}

/// Every target is a valid entry row of a listing with `n_entries` entries.
pub open spec fn targets_in_range(ts: Seq<usize>, n_entries: int) -> bool {
    forall|j: int| 0 <= j < ts.len() ==> 2 <= #[trigger] ts[j] < n_entries + 2
}

pub proof fn lemma_target_rows_in_range(names: Seq<Seq<char>>, kw: Seq<char>)
    requires
        names.len() + 2 <= usize::MAX,
    ensures
        forall|j: int|
            0 <= j < target_rows(names, kw).len() ==> 2 <= #[trigger] target_rows(names, kw)[j]
                <= names.len() + 1,
        strictly_sorted(target_rows(names, kw)),
    decreases names.len(),
{
    if names.len() > 0 {
        lemma_target_rows_in_range(names.drop_last(), kw);
    }
}

/// Rows of the current target set are valid entry rows, in strictly
/// ascending order.
pub proof fn lemma_search_targets_in_range(entries: Seq<Entry>, kw: Seq<char>)
    requires
        entries.len() + 2 <= usize::MAX,
    ensures
        forall|j: int|
            0 <= j < search_targets(names_of(entries), kw).len() ==> 2 <= #[trigger] search_targets(
                names_of(entries),
                kw,
            )[j] < entries.len() + 2,
        strictly_sorted(search_targets(names_of(entries), kw)),
{
    if kw.len() > 0 {
        lemma_target_rows_in_range(names_of(entries), kw);
    }
}

/// The target rows are exactly the rows of the matching names: row `i + 2`
/// is a target if and only if the name at index `i` matches the keyword.
pub proof fn lemma_target_rows_membership(names: Seq<Seq<char>>, kw: Seq<char>, i: int)
    requires
        0 <= i < names.len(),
        names.len() + 2 <= usize::MAX,
    ensures
        target_rows(names, kw).contains((i + 2) as usize) <==> name_matches(names[i], kw),
    decreases names.len(),
{
    lemma_target_rows_in_range(names, kw);
    let ts = target_rows(names, kw);
    let dl = names.drop_last();
    let rest = target_rows(dl, kw);
    let row = (i + 2) as usize;
    if i == names.len() - 1 {
        if name_matches(names.last(), kw) {
            assert(ts[ts.len() - 1] == row);
            assert(ts.contains(row));
        } else {
            // all rows of the remaining targets belong to earlier names
            lemma_target_rows_in_range(dl, kw);
            if ts.contains(row) {
                let j = choose|j: int| 0 <= j < ts.len() && ts[j] == row;
                assert(rest[j] <= dl.len() + 1);
                assert(false);
            }
        }
    } else {
        lemma_target_rows_membership(dl, kw, i);
        lemma_target_rows_in_range(dl, kw);
        assert(dl[i] == names[i]);
        if name_matches(names.last(), kw) {
            // pushing the last row neither adds nor hides an earlier row
            if rest.contains(row) {
                let j = choose|j: int| 0 <= j < rest.len() && rest[j] == row;
                assert(ts[j] == row);
                assert(ts.contains(row));
            }
            if ts.contains(row) {
                let j = choose|j: int| 0 <= j < ts.len() && ts[j] == row;
                assert(j < ts.len() - 1);
                assert(rest[j] == row);
                assert(rest.contains(row));
            }
        } else {
            assert(ts == rest);
        }
    }
}

/// Index of the first element of `ts` that is at least `bound`, scanning in
/// sequence order.
pub open spec fn first_from_idx(ts: Seq<usize>, bound: int) -> Option<int>
    decreases ts.len(),
{
    if ts.len() == 0 {
        None
    } else if ts[0] >= bound {
        Some(0)
    } else {
        match first_from_idx(ts.drop_first(), bound) {
            Some(j) => Some(j + 1),
            None => None,
        }
    }
}

/// The first element of `ts` that is at least `bound`.
pub open spec fn first_from(ts: Seq<usize>, bound: int) -> Option<usize> {
    match first_from_idx(ts, bound) {
        Some(j) => Some(ts[j]),
        None => None,
    }
}

/// The last element of `ts` that is strictly below `bound`, scanning from
/// the end.
pub open spec fn last_below(ts: Seq<usize>, bound: int) -> Option<usize>
    decreases ts.len(),
{
    if ts.len() == 0 {
        None
    } else if ts.last() < bound {
        Some(ts.last())
    } else {
        last_below(ts.drop_last(), bound)
    }
}

pub proof fn lemma_first_from_idx_is(ts: Seq<usize>, bound: int, j: int)
    requires
        0 <= j < ts.len(),
        ts[j] >= bound,
        forall|l: int| 0 <= l < j ==> ts[l] < bound,
    ensures
        first_from_idx(ts, bound) == Some(j),
    decreases j,
{
    if j > 0 {
        assert(forall|l: int| 0 <= l < j - 1 ==> ts.drop_first()[l] == ts[l + 1]);
        lemma_first_from_idx_is(ts.drop_first(), bound, j - 1);
    }
}

pub proof fn lemma_first_from_idx_none(ts: Seq<usize>, bound: int)
    requires
        forall|l: int| 0 <= l < ts.len() ==> ts[l] < bound,
    ensures
        first_from_idx(ts, bound) == None::<int>,
    decreases ts.len(),
{
    if ts.len() > 0 {
        assert(forall|l: int| 0 <= l < ts.len() - 1 ==> ts.drop_first()[l] == ts[l + 1]);
        lemma_first_from_idx_none(ts.drop_first(), bound);
    }
}

pub proof fn lemma_last_below_is(ts: Seq<usize>, bound: int, j: int)
    requires
        0 <= j < ts.len(),
        ts[j] < bound,
        forall|l: int| j < l < ts.len() ==> ts[l] >= bound,
    ensures
        last_below(ts, bound) == Some(ts[j]),
    decreases ts.len(),
{
    if j < ts.len() - 1 {
        lemma_last_below_is(ts.drop_last(), bound, j);
    }
}

pub proof fn lemma_last_below_none(ts: Seq<usize>, bound: int)
    requires
        forall|l: int| 0 <= l < ts.len() ==> ts[l] >= bound,
    ensures
        last_below(ts, bound) == None::<usize>,
    decreases ts.len(),
{
    if ts.len() > 0 {
        lemma_last_below_none(ts.drop_last(), bound);
    }
}

/// The selected row, or row 0 when nothing is selected.
pub open spec fn sel_or_zero(sel: Option<usize>) -> usize {
    match sel {
        Some(s) => s,
        None => 0,
    }
}

/// The row that cycling forward from `cur` lands on: the first target
/// strictly above `cur`, wrapping to the lowest target.
pub open spec fn cyclic_next(ts: Seq<usize>, cur: usize) -> usize
    recommends
        ts.len() > 0,
{
    match first_from(ts, cur as int + 1) {
        Some(t) => t,
        None => ts[0],
    }
}

/// The row that cycling backward from `cur` lands on: the last target
/// strictly below `cur`, wrapping to the highest target.
pub open spec fn cyclic_prev(ts: Seq<usize>, cur: usize) -> usize
    recommends
        ts.len() > 0,
{
    match last_below(ts, cur as int) {
        Some(t) => t,
        None => ts.last(),
    }
}

/// The row that the while-typing jump lands on: the first target at or
/// after `anchor`, wrapping to the lowest target.
pub open spec fn nearest_from(ts: Seq<usize>, anchor: usize) -> usize
    recommends
        ts.len() > 0,
{
    match first_from(ts, anchor as int) {
        Some(t) => t,
        None => ts[0],
    }
}

/// Where the selection ends up after a keystroke jump: with no targets it
/// falls back to the recover point (or stays put without one); otherwise it
/// is the target nearest at or after the anchor, the anchor being the
/// recover point or, without one, the current selection.
pub open spec fn jump_sel(ts: Seq<usize>, recover: Option<usize>, sel: Option<usize>) -> Option<
    usize,
> {
    if ts.len() == 0 {
        match recover {
            Some(r) => Some(r),
            None => sel,
        }
    } else {
        Some(
            nearest_from(
                ts,
                match recover {
                    Some(r) => r,
                    None => sel_or_zero(sel),
                },
            ),
        )
    }
}

/// Incremental-search state: the active keyword (`None` when search is
/// inactive), the matching rows, and the selection captured when search was
/// entered.
pub struct SearchController {
    pub keyword: Option<String>,
    pub targets: Vec<usize>,
    pub recover_point: Option<usize>,
}

impl SearchController {
    /// The characters of the active keyword; the empty sequence when search
    /// is inactive.
    pub open spec fn spec_keyword(&self) -> Seq<char> {
        match self.keyword {
            Some(k) => k@,
            None => Seq::empty(),
        }
    }

    /// The target set is exactly what the keyword matches in `entries`.
    /// Established by every operation that touches the keyword or targets;
    /// the laws take it as a hypothesis.
    pub open spec fn targets_wf(&self, entries: Seq<Entry>) -> bool {
        self.targets@ == search_targets(names_of(entries), self.spec_keyword())
    }

    /// The recover point, if set, is a valid logical row of `entries`.
    pub open spec fn recover_wf(&self, entries: Seq<Entry>) -> bool {
        match self.recover_point {
            Some(r) => r < entries.len() + 2,
            None => true,
        }
    }

    /// Structural well-formedness against a listing: targets and recover
    /// point are valid logical rows.
    pub open spec fn wf(&self, entries: Seq<Entry>) -> bool {
        targets_in_range(self.targets@, entries.len() as int) && self.recover_wf(entries)
    }

    /// Inactive search: no keyword, no targets, no recover point.
    pub fn new() -> (r: SearchController)
        ensures
            r.keyword is None,
            r.targets@ == Seq::<usize>::empty(),
            r.recover_point is None,
    {
        SearchController { keyword: None, targets: Vec::new(), recover_point: None }
    }

    /// Set the keyword and recompute the full target set against the current
    /// listing.
    pub fn search(&mut self, keyword: String, view: &DirectoryView)
        requires
            view.wf(),
        ensures
            final(self).keyword == Some(keyword),
            final(self).targets@ == search_targets(names_of(view.entries@), keyword@),
            final(self).recover_point == old(self).recover_point,
            targets_in_range(final(self).targets@, view.entries@.len() as int),
    {
        proof {
            lemma_search_targets_in_range(view.entries@, keyword@);
        }
        let mut targets: Vec<usize> = Vec::new();
        if keyword.as_str().is_empty() {
            self.keyword = Some(keyword);
            self.targets = targets;
            return ;
        }
        let kw_low = lower_chars(keyword.as_str());
        let n = view.entries.len();
        let mut i: usize = 0;
        while i < n
            invariant
                n == view.entries@.len(),
                n + 2 <= usize::MAX,
                i <= n,
                kw_low@ == lower_of(keyword@),
                targets@ == target_rows(names_of(view.entries@).take(i as int), keyword@),
            decreases n - i,
        {
            let name_low = lower_chars(view.entries[i].name.as_str());
            if contains_chars(&name_low, &kw_low) {
                targets.push(i + 2);
            }
            proof {
                let names = names_of(view.entries@);
                let pre = names.take(i as int + 1);
                assert(pre.drop_last() =~= names.take(i as int));
                assert(pre.last() == names[i as int]);
                assert(names[i as int] == view.entries@[i as int].name@);
            }
            i += 1;
        }
        proof {
            assert(names_of(view.entries@).take(n as int) =~= names_of(view.entries@));
        }
        self.keyword = Some(keyword);
        self.targets = targets;
    }

    /// Enter search mode: drop any previous keyword and targets and capture
    /// the current selection as the recover point.
    pub fn enter_search_mode(&mut self, view: &DirectoryView)
        ensures
            final(self).keyword is None,
            final(self).targets@ == Seq::<usize>::empty(),
            final(self).recover_point == view.selection,
    {
        self.keyword = None;
        self.targets = Vec::new();
        self.recover_point = view.selection;
    }

    /// Dismiss the keyword and its targets; the recover point is untouched.
    pub fn clear_search(&mut self)
        ensures
            final(self).keyword is None,
            final(self).targets@ == Seq::<usize>::empty(),
            final(self).recover_point == old(self).recover_point,
    {
        self.keyword = None;
        self.targets = Vec::new();
    }

    /// Put the selection back on the recover point, if one is set.
    pub fn recover_selection(&self, view: &mut DirectoryView)
        requires
            old(view).wf(),
            self.recover_wf(old(view).entries@),
        ensures
            final(view).entries == old(view).entries,
            final(view).selection == match self.recover_point {
                Some(r) => Some(r),
                None => old(view).selection,
            },
            final(view).wf(),
    {
        match self.recover_point {
            Some(r) => {
                view.selection = Some(r);
            },
            None => {},
        }
    }

    /// Leave search: restore the selection to the recover point and clear
    /// keyword, targets and recover point.
    pub fn cancel_search(&mut self, view: &mut DirectoryView)
        requires
            old(view).wf(),
            old(self).recover_wf(old(view).entries@),
        ensures
            final(self).keyword is None,
            final(self).targets@ == Seq::<usize>::empty(),
            final(self).recover_point is None,
            final(view).entries == old(view).entries,
            final(view).selection == match old(self).recover_point {
                Some(r) => Some(r),
                None => old(view).selection,
            },
            final(view).wf(),
    {
        self.recover_selection(view);
        self.keyword = None;
        self.targets = Vec::new();
        self.recover_point = None;
    }

    /// Extend the keyword by one character (starting one if search had none)
    /// and recompute the targets.
    pub fn append_char(&mut self, c: char, view: &DirectoryView)
        requires
            view.wf(),
        ensures
            final(self).keyword is Some,
            final(self).spec_keyword() == old(self).spec_keyword().push(c),
            final(self).targets@ == search_targets(
                names_of(view.entries@),
                final(self).spec_keyword(),
            ),
            final(self).recover_point == old(self).recover_point,
            targets_in_range(final(self).targets@, view.entries@.len() as int),
    {
        let mut kw: String = match &self.keyword {
            Some(k) => k.clone(),
            None => String::new(),
        };
        push_char(&mut kw, c);
        self.search(kw, view);
    }

    /// Shorten the keyword by one character and recompute the targets.
    /// Returns true — and changes nothing — when the keyword was already
    /// empty or absent: the caller must then leave search mode.
    pub fn remove_last_char(&mut self, view: &DirectoryView) -> (was_empty: bool)
        requires
            view.wf(),
        ensures
            was_empty == (old(self).spec_keyword().len() == 0),
            was_empty ==> *final(self) == *old(self),
            !was_empty ==> {
                &&& final(self).keyword is Some
                &&& final(self).spec_keyword() == old(self).spec_keyword().drop_last()
                &&& final(self).targets@ == search_targets(
                    names_of(view.entries@),
                    final(self).spec_keyword(),
                )
                &&& final(self).recover_point == old(self).recover_point
                &&& targets_in_range(final(self).targets@, view.entries@.len() as int)
            },
    {
        let was_empty: bool = match &self.keyword {
            None => true,
            Some(k) => k.as_str().is_empty(),
        };
        if was_empty {
            return true;
        }
        let mut kw: String = match &self.keyword {
            Some(k) => k.clone(),
            None => {
                proof {
                    assert(false);
                }
                String::new()
            },
        };
        pop_char(&mut kw);
        self.search(kw, view);
        false
    }

    /// Cycle the selection forward to the first target strictly after it,
    /// wrapping to the lowest target; with no targets, do nothing.
    pub fn select_next_target(&self, view: &mut DirectoryView)
        requires
            old(view).wf(),
            targets_in_range(self.targets@, old(view).entries@.len() as int),
        ensures
            final(view).entries == old(view).entries,
            self.targets@.len() == 0 ==> final(view).selection == old(view).selection,
            self.targets@.len() > 0 ==> final(view).selection == Some(
                cyclic_next(self.targets@, sel_or_zero(old(view).selection)),
            ),
            final(view).wf(),
    {
        let n = self.targets.len();
        if n == 0 {
            return ;
        }
        let cur: usize = match view.selection {
            Some(s) => s,
            None => 0,
        };
        let mut idx: usize = 0;
        while idx < n
            invariant
                old(view).wf(),
                targets_in_range(self.targets@, old(view).entries@.len() as int),
                view == old(view),
                n == self.targets@.len(),
                n > 0,
                cur == sel_or_zero(old(view).selection),
                idx <= n,
                forall|l: int| 0 <= l < idx ==> self.targets@[l] <= cur,
            decreases n - idx,
        {
            let t = self.targets[idx];
            if t > cur {
                proof {
                    lemma_first_from_idx_is(self.targets@, cur as int + 1, idx as int);
                }
                view.selection = Some(t);
                return ;
            }
            idx += 1;
        }
        proof {
            lemma_first_from_idx_none(self.targets@, cur as int + 1);
        }
        view.selection = Some(self.targets[0]);
    }

    /// Cycle the selection backward to the last target strictly before it,
    /// wrapping to the highest target; with no targets, do nothing.
    pub fn select_previous_target(&self, view: &mut DirectoryView)
        requires
            old(view).wf(),
            targets_in_range(self.targets@, old(view).entries@.len() as int),
        ensures
            final(view).entries == old(view).entries,
            self.targets@.len() == 0 ==> final(view).selection == old(view).selection,
            self.targets@.len() > 0 ==> final(view).selection == Some(
                cyclic_prev(self.targets@, sel_or_zero(old(view).selection)),
            ),
            final(view).wf(),
    {
        let n = self.targets.len();
        if n == 0 {
            return ;
        }
        let cur: usize = match view.selection {
            Some(s) => s,
            None => 0,
        };
        let mut idx: usize = n;
        while idx > 0
            invariant
                old(view).wf(),
                targets_in_range(self.targets@, old(view).entries@.len() as int),
                view == old(view),
                n == self.targets@.len(),
                n > 0,
                cur == sel_or_zero(old(view).selection),
                idx <= n,
                forall|l: int| idx <= l < n ==> self.targets@[l] >= cur,
            decreases idx,
        {
            idx -= 1;
            let t = self.targets[idx];
            if t < cur {
                proof {
                    lemma_last_below_is(self.targets@, cur as int, idx as int);
                }
                view.selection = Some(t);
                return ;
            }
        }
        proof {
            lemma_last_below_none(self.targets@, cur as int);
        }
        view.selection = Some(self.targets[n - 1]);
    }

    /// While typing: move the selection to the first target at or after the
    /// anchor (the recover point, or the current selection without one),
    /// wrapping to the lowest target; with no targets, fall back to the
    /// recover point.
    pub fn jump_to_nearest_target(&self, view: &mut DirectoryView)
        requires
            old(view).wf(),
            targets_in_range(self.targets@, old(view).entries@.len() as int),
            self.recover_wf(old(view).entries@),
        ensures
            final(view).entries == old(view).entries,
            final(view).selection == jump_sel(
                self.targets@,
                self.recover_point,
                old(view).selection,
            ),
            final(view).wf(),
    {
        let n = self.targets.len();
        if n == 0 {
            self.recover_selection(view);
            return ;
        }
        let anchor: usize = match self.recover_point {
            Some(r) => r,
            None => match view.selection {
                Some(s) => s,
                None => 0,
            },
        };
        let mut idx: usize = 0;
        while idx < n
            invariant
                old(view).wf(),
                targets_in_range(self.targets@, old(view).entries@.len() as int),
                view == old(view),
                n == self.targets@.len(),
                n > 0,
                anchor == (match self.recover_point {
                    Some(r) => r,
                    None => sel_or_zero(old(view).selection),
                }),
                idx <= n,
                forall|l: int| 0 <= l < idx ==> self.targets@[l] < anchor,
            decreases n - idx,
        {
            let t = self.targets[idx];
            if t >= anchor {
                proof {
                    lemma_first_from_idx_is(self.targets@, anchor as int, idx as int);
                }
                view.selection = Some(t);
                return ;
            }
            idx += 1;
        }
        proof {
            lemma_first_from_idx_none(self.targets@, anchor as int);
        }
        view.selection = Some(self.targets[0]);
    }
}

} // verus!

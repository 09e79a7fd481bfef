//! The directory view: the entry list of the current directory, the selection
//! cursor, and the decision part of traversal.
//!
//! The rendered list always carries two synthetic rows on top: row 0 ascends
//! to the parent directory, row 1 refreshes the current one. Real entries sit
//! at rows `2..(2 + len)`, so the entry behind row `r` is `entries[r - 2]`.
//!
//! Movement clamps at the ends of the row range rather than wrapping; cycling
//! through search targets (in [`crate::search`]) is circular by design, and
//! the two policies are deliberately distinct.

use vstd::prelude::*;
use vstd::string::*;

verus! {

/// One member of the current directory: its display name and whether it is
/// itself a directory. The front end keeps the traversable path; the core
/// only needs the name (for matching and display) and the kind flag.
pub struct Entry {
    pub name: String,
    pub is_dir: bool,
}

/// What pressing Enter on the current selection asks the caller to do.
/// The caller performs the filesystem side and reports back through
/// [`crate::browser::Browser::finish_enter`].
#[derive(Clone, Copy, PartialEq, Eq, Structural, Debug)]
pub enum EnterKind {
    /// No row is selected: nothing to do.
    Stay,
    /// Row 0: change to the parent directory, then re-read it.
    Ascend,
    /// Row 1: re-read the current directory without changing it.
    Refresh,
    /// Row `i + 2`: change into the directory entry at index `i`, then
    /// re-read.
    Descend(usize),
}

/// The two recoverable error kinds: the directory cannot be read, or the
/// selected row cannot be traversed into.
#[derive(Clone, Copy, PartialEq, Eq, Structural, Debug)]
pub enum NavError {
    Filesystem,
    Navigation,
}

/// The entry list and the selection cursor.
pub struct DirectoryView {
    pub entries: Vec<Entry>,
    /// Selected logical row, always below `entries.len() + 2`.
    pub selection: Option<usize>,
}

impl DirectoryView {
    /// Number of logical rows: the two synthetic rows plus one per entry.
    pub open spec fn spec_row_count(&self) -> int {
        self.entries@.len() as int + 2
    }

    /// The selection, if set, is a valid logical row, and the row count
    /// itself fits in `usize`.
    pub open spec fn wf(&self) -> bool {
        &&& self.entries@.len() + 2 <= usize::MAX
        &&& match self.selection {
            Some(s) => s < self.spec_row_count(),
            None => true,
        }
    }

    /// The row that moving down from `pre` lands on: one step down, clamped
    /// to the last row; the first row when nothing was selected.
    pub open spec fn sel_after_down(pre: DirectoryView) -> usize {
        match pre.selection {
            None => 0,
            Some(s) => if s + 1 < pre.spec_row_count() {
                (s + 1) as usize
            } else {
                (pre.spec_row_count() - 1) as usize
            },
        }
    }

    /// The row that moving up from `pre` lands on: one step up, clamped to
    /// row 0; the last row when nothing was selected.
    pub open spec fn sel_after_up(pre: DirectoryView) -> usize {
        match pre.selection {
            None => (pre.spec_row_count() - 1) as usize,
            Some(s) => if s > 0 {
                (s - 1) as usize
            } else {
                0
            },
        }
    }

    /// What Enter does on the current selection. Selecting a non-directory
    /// entry is refused outright with a `Navigation` error, before any
    /// filesystem work.
    pub open spec fn spec_enter_plan(&self) -> Result<EnterKind, NavError> {
        match self.selection {
            None => Ok(EnterKind::Stay),
            Some(s) => if s == 0 {
                Ok(EnterKind::Ascend)
            } else if s == 1 {
                Ok(EnterKind::Refresh)
            } else if self.entries@[s - 2].is_dir {
                Ok(EnterKind::Descend((s - 2) as usize))
            } else {
                Err(NavError::Navigation)
            },
        }
    }

    /// A fresh view of `entries` with the cursor on row 0.
    pub fn new(entries: Vec<Entry>) -> (r: DirectoryView)
        requires
            entries@.len() + 2 <= usize::MAX,
        ensures
            r.entries == entries,
            r.selection == Some(0usize),
            r.wf(),
    {
        DirectoryView { entries, selection: Some(0) }
    }

    /// Number of logical rows.
    pub fn row_count(&self) -> (n: usize)
        requires
            self.wf(),
        ensures
            n == self.spec_row_count(),
    {
        self.entries.len() + 2
    }

    /// Move the selection one row down, clamping at the last row.
    pub fn move_selection_down(&mut self)
        requires
            old(self).wf(),
        ensures
            final(self).entries == old(self).entries,
            final(self).selection == Some(Self::sel_after_down(*old(self))),
            final(self).wf(),
    {
        let rows = self.row_count();
        let next: usize = match self.selection {
            None => 0,
            Some(s) => if s + 1 < rows {
                s + 1
            } else {
                rows - 1
            },
        };
        self.selection = Some(next);
    }

    /// Move the selection one row up, clamping at row 0.
    pub fn move_selection_up(&mut self)
        requires
            old(self).wf(),
        ensures
            final(self).entries == old(self).entries,
            final(self).selection == Some(Self::sel_after_up(*old(self))),
            final(self).wf(),
    {
        let rows = self.row_count();
        let prev: usize = match self.selection {
            None => rows - 1,
            Some(s) => if s > 0 {
                s - 1
            } else {
                0
            },
        };
        self.selection = Some(prev);
    }

    /// The text of each logical row, for the rendering layer: the two
    /// synthetic rows, then each entry's name, with a slash appended to
    /// directories.
    pub fn display_rows(&self) -> (r: Vec<String>)
        requires
            self.wf(),
        ensures
            r@.len() == self.entries@.len() + 2,
            r@[0]@ == "../"@,
            r@[1]@ == "./"@,
            forall|i: int|
                0 <= i < self.entries@.len() ==> r@[i + 2]@ == (if self.entries@[i].is_dir {
                    self.entries@[i].name@ + "/"@
                } else {
                    self.entries@[i].name@
                }),
    {
        let mut r: Vec<String> = Vec::new();
        r.push(String::from_str("../"));
        r.push(String::from_str("./"));
        let n = self.entries.len();
        let mut i: usize = 0;
        while i < n
            invariant
                n == self.entries@.len(),
                n + 2 <= usize::MAX,
                i <= n,
                r@.len() == i + 2,
                r@[0]@ == "../"@,
                r@[1]@ == "./"@,
                forall|l: int|
                    0 <= l < i ==> #[trigger] r@[l + 2]@ == (if self.entries@[l].is_dir {
                        self.entries@[l].name@ + "/"@
                    } else {
                        self.entries@[l].name@
                    }),
            decreases n - i,
        {
            let e = &self.entries[i];
            let mut name = e.name.clone();
            if e.is_dir {
                name.append("/");
            }
            r.push(name);
            i += 1;
        }
        r
    }

    /// Decide what Enter on the current selection asks for.
    pub fn enter_plan(&self) -> (r: Result<EnterKind, NavError>)
        requires
            self.wf(),
        ensures
            r == self.spec_enter_plan(),
    {
        match self.selection {
            None => Ok(EnterKind::Stay),
            Some(s) => if s == 0 {
                Ok(EnterKind::Ascend)
            } else if s == 1 {
                Ok(EnterKind::Refresh)
            } else if self.entries[s - 2].is_dir {
                Ok(EnterKind::Descend(s - 2))
            } else {
                Err(NavError::Navigation)
            },
        }
    }
}

} // verus!

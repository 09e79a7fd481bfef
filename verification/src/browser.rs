//! The mode state machine and key dispatch: one key press in, one state
//! mutation plus one request to the caller out.
//!
//! The caller (an unverified front end) reads key presses, performs the
//! filesystem side of traversal requests, and reports the outcome back
//! through [`Browser::finish_enter`]; everything else about a key press
//! happens here.

use vstd::prelude::*;
use vstd::string::*;

use crate::listing::{DirectoryView, EnterKind, Entry, NavError};
use crate::search::{
    cyclic_next, cyclic_prev, first_from_idx, jump_sel, lemma_first_from_idx_is,
    lemma_first_from_idx_none, names_of, search_targets, sel_or_zero, SearchController,
};

verus! {

/// Which component a key press is routed to. Search mode is entered with the
/// search key and left by committing, cancelling, or erasing past an empty
/// keyword.
#[derive(Clone, Copy, PartialEq, Eq, Structural, Debug)]
pub enum Mode {
    Normal,
    Search,
}

/// The key presses the core reacts to. Character keys carry the character;
/// everything else the front end may see is simply not forwarded.
#[derive(Clone, Copy, PartialEq, Eq, Structural, Debug)]
pub enum Key {
    Char(char),
    Up,
    Down,
    Enter,
    Backspace,
    Esc,
}

/// What the caller must do after a key press.
#[derive(Clone, Copy, PartialEq, Eq, Structural, Debug)]
pub enum Action {
    /// Nothing; redraw and read the next key.
    Idle,
    /// Exit, emitting the current working directory.
    QuitCurrentDir,
    /// Exit, emitting `.` so the enclosing shell stays in place.
    QuitUnchanged,
    /// Perform the filesystem side of the given traversal and report the
    /// outcome through [`Browser::finish_enter`].
    Traverse(EnterKind),
}

/// What the status line shows about the selection: the 1-based rank of the
/// first target at or after the cursor, the number of targets, and the
/// cursor row itself.
#[derive(Clone, Copy, PartialEq, Eq, Structural, Debug)]
pub struct RulerInfo {
    pub position: usize,
    pub total: usize,
    pub row: usize,
}

/// The whole core state: the directory view, the search state, the mode, and
/// the message line.
pub struct Browser {
    pub view: DirectoryView,
    pub search: SearchController,
    pub mode: Mode,
    /// Text for the message line: the typed query while searching, or the
    /// last error.
    pub message: String,
    pub message_is_error: bool,
}

/// The message line is untouched.
pub open spec fn same_message(pre: Browser, post: Browser) -> bool {
    post.message == pre.message && post.message_is_error == pre.message_is_error
}

/// The selection moved one row down (clamped); everything else is untouched.
pub open spec fn moved_down(pre: Browser, post: Browser) -> bool {
    &&& post.view.entries == pre.view.entries
    &&& post.view.selection == Some(DirectoryView::sel_after_down(pre.view))
    &&& post.search == pre.search
    &&& post.mode == pre.mode
    &&& same_message(pre, post)
}

/// The selection moved one row up (clamped); everything else is untouched.
pub open spec fn moved_up(pre: Browser, post: Browser) -> bool {
    &&& post.view.entries == pre.view.entries
    &&& post.view.selection == Some(DirectoryView::sel_after_up(pre.view))
    &&& post.search == pre.search
    &&& post.mode == pre.mode
    &&& same_message(pre, post)
}

/// Search mode was entered: previous keyword and targets dropped, the
/// current selection captured as recover point, the message line primed with
/// the search prompt.
pub open spec fn entered_search(pre: Browser, post: Browser) -> bool {
    &&& post.view == pre.view
    &&& post.search.keyword is None
    &&& post.search.targets@ == Seq::<usize>::empty()
    &&& post.search.recover_point == pre.view.selection
    &&& post.mode == Mode::Search
    &&& post.message@ == "/"@
    &&& post.message_is_error == false
}

/// The selection cycled forward through the targets; no-op without targets.
pub open spec fn cycled_next(pre: Browser, post: Browser) -> bool {
    &&& post.view.entries == pre.view.entries
    &&& (pre.search.targets@.len() == 0 ==> post.view.selection == pre.view.selection)
    &&& (pre.search.targets@.len() > 0 ==> post.view.selection == Some(
        cyclic_next(pre.search.targets@, sel_or_zero(pre.view.selection)),
    ))
    &&& post.search == pre.search
    &&& post.mode == pre.mode
    &&& same_message(pre, post)
}

/// The selection cycled backward through the targets; no-op without targets.
pub open spec fn cycled_prev(pre: Browser, post: Browser) -> bool {
    &&& post.view.entries == pre.view.entries
    &&& (pre.search.targets@.len() == 0 ==> post.view.selection == pre.view.selection)
    &&& (pre.search.targets@.len() > 0 ==> post.view.selection == Some(
        cyclic_prev(pre.search.targets@, sel_or_zero(pre.view.selection)),
    ))
    &&& post.search == pre.search
    &&& post.mode == pre.mode
    &&& same_message(pre, post)
}

/// Enter was pressed in normal mode: either the state is untouched and the
/// caller is asked to traverse, or — on a non-directory selection — the
/// error is put on the message line and nothing else changes.
pub open spec fn entered(pre: Browser, post: Browser, action: Action) -> bool {
    match pre.view.spec_enter_plan() {
        Ok(k) => post == pre && action == (if k is Stay {
            Action::Idle
        } else {
            Action::Traverse(k)
        }),
        Err(_) => {
            &&& post.view == pre.view
            &&& post.search == pre.search
            &&& post.mode == pre.mode
            &&& post.message@ == "Error: not a directory"@
            &&& post.message_is_error == true
            &&& action == Action::Idle
        },
    }
}

/// Escape in normal mode: a committed keyword and its targets are dismissed
/// without a mode change; with no keyword set, nothing happens.
pub open spec fn dismissed_filter(pre: Browser, post: Browser) -> bool {
    if pre.search.keyword is Some {
        &&& post.view == pre.view
        &&& post.search.keyword is None
        &&& post.search.targets@ == Seq::<usize>::empty()
        &&& post.search.recover_point == pre.search.recover_point
        &&& post.mode == pre.mode
        &&& post.message@ == Seq::<char>::empty()
        &&& post.message_is_error == false
    } else {
        post == pre
    }
}

/// A character was typed in search mode: the keyword grows by it, the
/// targets are recomputed in full, the selection jumps to the nearest target
/// from the anchor, and the message line shows the query.
pub open spec fn typed_char(pre: Browser, post: Browser, c: char) -> bool {
    let kw = pre.search.spec_keyword().push(c);
    let ts = search_targets(names_of(pre.view.entries@), kw);
    &&& post.view.entries == pre.view.entries
    &&& post.view.selection == jump_sel(ts, pre.search.recover_point, pre.view.selection)
    &&& post.search.keyword is Some
    &&& post.search.spec_keyword() == kw
    &&& post.search.targets@ == ts
    &&& post.search.recover_point == pre.search.recover_point
    &&& post.mode == Mode::Search
    &&& post.message@ == "/"@ + kw
    &&& post.message_is_error == pre.message_is_error
}

/// Backspace in search mode with a non-empty keyword: the keyword shrinks by
/// one character, the targets are recomputed, the selection is restored
/// toward the recover point and then jumps to the nearest target.
pub open spec fn erased_char(pre: Browser, post: Browser) -> bool {
    let kw = pre.search.spec_keyword().drop_last();
    let ts = search_targets(names_of(pre.view.entries@), kw);
    &&& post.view.entries == pre.view.entries
    &&& post.view.selection == jump_sel(ts, pre.search.recover_point, pre.view.selection)
    &&& post.search.keyword is Some
    &&& post.search.spec_keyword() == kw
    &&& post.search.targets@ == ts
    &&& post.search.recover_point == pre.search.recover_point
    &&& post.mode == Mode::Search
    &&& post.message@ == "/"@ + kw
    &&& post.message_is_error == pre.message_is_error
}

/// Search was cancelled: the selection returns to the recover point, and
/// keyword, targets and recover point are cleared.
pub open spec fn cancelled(pre: Browser, post: Browser) -> bool {
    &&& post.view.entries == pre.view.entries
    &&& post.view.selection == (match pre.search.recover_point {
        Some(r) => Some(r),
        None => pre.view.selection,
    })
    &&& post.search.keyword is None
    &&& post.search.targets@ == Seq::<usize>::empty()
    &&& post.search.recover_point is None
    &&& post.mode == Mode::Normal
    &&& post.message@ == Seq::<char>::empty()
    &&& post.message_is_error == pre.message_is_error
}

/// Search was committed: only the mode returns to normal; keyword, targets
/// and recover point persist for cycling.
pub open spec fn committed(pre: Browser, post: Browser) -> bool {
    &&& post.view == pre.view
    &&& post.search == pre.search
    &&& post.mode == Mode::Normal
    &&& same_message(pre, post)
}

/// One step of the normal-mode key dispatch.
pub open spec fn step_normal(pre: Browser, post: Browser, key: Key, action: Action) -> bool {
    match key {
        Key::Char(c) => if c == 'w' {
            post == pre && action == Action::QuitCurrentDir
        } else if c == 'q' {
            post == pre && action == Action::QuitUnchanged
        } else if c == 'j' {
            moved_down(pre, post) && action == Action::Idle
        } else if c == 'k' {
            moved_up(pre, post) && action == Action::Idle
        } else if c == '/' {
            entered_search(pre, post) && action == Action::Idle
        } else if c == 'n' {
            cycled_next(pre, post) && action == Action::Idle
        } else if c == 'N' {
            cycled_prev(pre, post) && action == Action::Idle
        } else {
            post == pre && action == Action::Idle
        },
        Key::Down => moved_down(pre, post) && action == Action::Idle,
        Key::Up => moved_up(pre, post) && action == Action::Idle,
        Key::Enter => entered(pre, post, action),
        Key::Esc => dismissed_filter(pre, post) && action == Action::Idle,
        Key::Backspace => post == pre && action == Action::Idle,
    }
}

/// One step of the search-mode key dispatch.
pub open spec fn step_search(pre: Browser, post: Browser, key: Key, action: Action) -> bool {
    match key {
        Key::Char(c) => typed_char(pre, post, c) && action == Action::Idle,
        Key::Backspace => (if pre.search.spec_keyword().len() == 0 {
            cancelled(pre, post)
        } else {
            erased_char(pre, post)
        }) && action == Action::Idle,
        Key::Enter => committed(pre, post) && action == Action::Idle,
        Key::Esc => cancelled(pre, post) && action == Action::Idle,
        Key::Up => post == pre && action == Action::Idle,
        Key::Down => post == pre && action == Action::Idle,
    }
}

/// The whole state machine: what one key press does, given the mode.
pub open spec fn step(pre: Browser, post: Browser, key: Key, action: Action) -> bool {
    match pre.mode {
        Mode::Normal => step_normal(pre, post, key, action),
        Mode::Search => step_search(pre, post, key, action),
    }
}

/// The selection after a refresh: kept where it was, clamped to the last row
/// when the new listing is shorter.
pub open spec fn clamp_sel(sel: Option<usize>, rows: int) -> Option<usize> {
    match sel {
        None => None,
        Some(s) => if s < rows {
            Some(s)
        } else {
            Some((rows - 1) as usize)
        },
    }
}

/// The recover point after a traversal: kept if still a valid row of the new
/// listing, dropped otherwise.
pub open spec fn clamp_recover(r: Option<usize>, rows: int) -> Option<usize> {
    match r {
        None => None,
        Some(x) => if x < rows {
            Some(x)
        } else {
            None
        },
    }
}

/// A traversal succeeded: the listing is replaced wholesale by what was
/// read, the targets are recomputed against it under the kept keyword, and
/// the selection resets to row 0 — except after a plain refresh, where it
/// stays (clamped to the new last row if the listing shrank).
pub open spec fn traversal_ok(pre: Browser, post: Browser, kind: EnterKind, es: Seq<Entry>) -> bool {
    let rows = es.len() as int + 2;
    &&& post.view.entries@ == es
    &&& post.view.selection == (if kind is Refresh {
        clamp_sel(pre.view.selection, rows)
    } else {
        Some(0usize)
    })
    &&& post.search.keyword == pre.search.keyword
    &&& post.search.targets@ == search_targets(names_of(es), pre.search.spec_keyword())
    &&& post.search.recover_point == clamp_recover(pre.search.recover_point, rows)
    &&& post.mode == pre.mode
    &&& same_message(pre, post)
}

/// A traversal failed in the filesystem: the whole core state is left alone
/// and only the message line reports the error text.
pub open spec fn traversal_failed(pre: Browser, post: Browser, text: Seq<char>) -> bool {
    &&& post.view == pre.view
    &&& post.search == pre.search
    &&& post.mode == pre.mode
    &&& post.message@ == "Error: "@ + text
    &&& post.message_is_error == true
}

impl Browser {
    pub open spec fn wf(&self) -> bool {
        &&& self.view.wf()
        &&& self.search.wf(self.view.entries@)
    }

    /// A fresh browser over the startup listing: cursor on row 0, search
    /// inactive, normal mode, and an initial message (the front end uses it
    /// to surface a startup warning).
    pub fn new(entries: Vec<Entry>, message: String, message_is_error: bool) -> (r: Browser)
        requires
            entries@.len() + 2 <= usize::MAX,
        ensures
            r.view.entries == entries,
            r.view.selection == Some(0usize),
            r.search.keyword is None,
            r.search.targets@ == Seq::<usize>::empty(),
            r.search.recover_point is None,
            r.mode == Mode::Normal,
            r.message == message,
            r.message_is_error == message_is_error,
            r.wf(),
    {
        Browser {
            view: DirectoryView::new(entries),
            search: SearchController::new(),
            mode: Mode::Normal,
            message,
            message_is_error,
        }
    }

    /// Route one key press: mutate the core state and say what the caller
    /// must do, exactly as the [`step`] relation describes.
    pub fn handle_key(&mut self, key: Key) -> (action: Action)
        requires
            old(self).wf(),
        ensures
            step(*old(self), *final(self), key, action),
            final(self).wf(),
    {
        match self.mode {
            Mode::Normal => match key {
                Key::Char(c) => {
                    if c == 'w' {
                        Action::QuitCurrentDir
                    } else if c == 'q' {
                        Action::QuitUnchanged
                    } else if c == 'j' {
                        self.view.move_selection_down();
                        Action::Idle
                    } else if c == 'k' {
                        self.view.move_selection_up();
                        Action::Idle
                    } else if c == '/' {
                        self.search.enter_search_mode(&self.view);
                        self.mode = Mode::Search;
                        self.message = String::from_str("/");
                        self.message_is_error = false;
                        Action::Idle
                    } else if c == 'n' {
                        self.search.select_next_target(&mut self.view);
                        Action::Idle
                    } else if c == 'N' {
                        self.search.select_previous_target(&mut self.view);
                        Action::Idle
                    } else {
                        Action::Idle
                    }
                },
                Key::Down => {
                    self.view.move_selection_down();
                    Action::Idle
                },
                Key::Up => {
                    self.view.move_selection_up();
                    Action::Idle
                },
                Key::Enter => {
                    match self.view.enter_plan() {
                        Ok(EnterKind::Stay) => Action::Idle,
                        Ok(k) => Action::Traverse(k),
                        Err(_) => {
                            self.message = String::from_str("Error: not a directory");
                            self.message_is_error = true;
                            Action::Idle
                        },
                    }
                },
                Key::Esc => {
                    if self.search.keyword.is_some() {
                        self.search.clear_search();
                        self.message = String::new();
                        self.message_is_error = false;
                    }
                    Action::Idle
                },
                Key::Backspace => Action::Idle,
            },
            Mode::Search => match key {
                Key::Char(c) => {
                    self.search.append_char(c, &self.view);
                    self.message = self.prompt_message();
                    self.search.jump_to_nearest_target(&mut self.view);
                    Action::Idle
                },
                Key::Backspace => {
                    let was_empty = self.search.remove_last_char(&self.view);
                    if was_empty {
                        self.search.cancel_search(&mut self.view);
                        self.message = String::new();
                        self.mode = Mode::Normal;
                    } else {
                        self.message = self.prompt_message();
                        self.search.recover_selection(&mut self.view);
                        self.search.jump_to_nearest_target(&mut self.view);
                    }
                    Action::Idle
                },
                Key::Enter => {
                    self.mode = Mode::Normal;
                    Action::Idle
                },
                Key::Esc => {
                    self.search.cancel_search(&mut self.view);
                    self.message = String::new();
                    self.mode = Mode::Normal;
                    Action::Idle
                },
                Key::Up => Action::Idle,
                Key::Down => Action::Idle,
            },
        }
    }

    /// The search prompt: a slash followed by the active keyword.
    fn prompt_message(&self) -> (r: String)
        ensures
            r@ == "/"@ + self.search.spec_keyword(),
    {
        let mut m = String::from_str("/");
        match &self.search.keyword {
            Some(k) => {
                m.append(k.as_str());
            },
            None => {
                proof {
                    assert(m@ =~= "/"@ + self.search.spec_keyword());
                }
            },
        }
        m
    }

    /// Apply the outcome of the filesystem side of a traversal the caller
    /// was asked to perform. On success the new listing replaces the old one
    /// wholesale; on failure nothing changes but the message line, and the
    /// error kind says whether the target was untraversable (`Navigation`,
    /// for a descent) or the directory unreadable (`Filesystem`).
    pub fn finish_enter(&mut self, kind: EnterKind, outcome: Result<Vec<Entry>, String>) -> (r:
        Result<(), NavError>)
        requires
            old(self).wf(),
            !(kind is Stay),
            match outcome {
                Ok(es) => es@.len() + 2 <= usize::MAX,
                Err(_) => true,
            },
        ensures
            match outcome {
                Ok(es) => traversal_ok(*old(self), *final(self), kind, es@) && r == Ok::<
                    (),
                    NavError,
                >(()),
                Err(text) => traversal_failed(*old(self), *final(self), text@) && r == Err::<
                    (),
                    NavError,
                >(
                    if kind is Descend {
                        NavError::Navigation
                    } else {
                        NavError::Filesystem
                    },
                ),
            },
            final(self).wf(),
    {
        match outcome {
            Ok(es) => {
                let rows = es.len() + 2;
                self.view.entries = es;
                self.view.selection = if kind == EnterKind::Refresh {
                    match self.view.selection {
                        None => None,
                        Some(s) => if s < rows {
                            Some(s)
                        } else {
                            Some(rows - 1)
                        },
                    }
                } else {
                    Some(0)
                };
                self.search.recover_point = match self.search.recover_point {
                    None => None,
                    Some(x) => if x < rows {
                        Some(x)
                    } else {
                        None
                    },
                };
                let kw_opt: Option<String> = match &self.search.keyword {
                    Some(k) => Some(k.clone()),
                    None => None,
                };
                match kw_opt {
                    Some(kw) => {
                        self.search.search(kw, &self.view);
                    },
                    None => {
                        self.search.targets = Vec::new();
                    },
                }
                Ok(())
            },
            Err(text) => {
                let mut m = String::from_str("Error: ");
                m.append(text.as_str());
                self.message = m;
                self.message_is_error = true;
                match kind {
                    EnterKind::Descend(_) => Err(NavError::Navigation),
                    _ => Err(NavError::Filesystem),
                }
            },
        }
    }

    /// What the ruler shows: with targets, the rank of the first target at
    /// or after the cursor (or the target count when the cursor is past them
    /// all) out of the target count, plus the cursor row; `position` and
    /// `total` are 0 without targets.
    pub open spec fn spec_ruler(&self) -> RulerInfo {
        let row = sel_or_zero(self.view.selection);
        RulerInfo {
            position: match first_from_idx(self.search.targets@, row as int) {
                Some(j) => (j + 1) as usize,
                None => self.search.targets@.len() as usize,
            },
            total: self.search.targets@.len() as usize,
            row: row,
        }
    }

    /// Compute the ruler numbers for the status line.
    pub fn ruler(&self) -> (r: RulerInfo)
        requires
            self.wf(),
        ensures
            r == self.spec_ruler(),
    {
        let row: usize = match self.view.selection {
            Some(s) => s,
            None => 0,
        };
        let n = self.search.targets.len();
        let mut idx: usize = 0;
        let mut position: usize = n;
        let mut found = false;
        while idx < n && !found
            invariant
                n == self.search.targets@.len(),
                idx <= n,
                !found ==> position == n && forall|l: int|
                    0 <= l < idx ==> self.search.targets@[l] < row,
                found ==> idx < n && position == idx + 1 && first_from_idx(
                    self.search.targets@,
                    row as int,
                ) == Some(idx as int),
            decreases n - idx, (if found { 0int } else { 1int }),
        {
            if self.search.targets[idx] >= row {
                proof {
                    lemma_first_from_idx_is(self.search.targets@, row as int, idx as int);
                }
                position = idx + 1;
                found = true;
            } else {
                idx += 1;
            }
        }
        proof {
            if !found {
                lemma_first_from_idx_none(self.search.targets@, row as int);
            }
        }
        RulerInfo { position, total: n, row }
    }
}

} // verus!

use dirnav::browser::{Action, Browser, Key, Mode, RulerInfo};
use dirnav::listing::{DirectoryView, EnterKind, Entry, NavError};
use dirnav::search::SearchController;

fn entry(name: &str, is_dir: bool) -> Entry {
    Entry { name: name.to_string(), is_dir }
}

fn sample_entries() -> Vec<Entry> {
    vec![entry(".git", true), entry("README.md", false), entry("src", true)]
}

fn sample_browser() -> Browser {
    Browser::new(sample_entries(), String::new(), false)
}

#[test]
fn selection_stays_in_bounds_under_movement() {
    // Three entries: logical rows 0..=4.
    let mut v = DirectoryView::new(sample_entries());
    assert_eq!(v.selection, Some(0));
    v.move_selection_up();
    assert_eq!(v.selection, Some(0)); // clamped at the top
    for _ in 0..10 {
        v.move_selection_down();
        let s = v.selection.unwrap();
        assert!(s <= 4);
    }
    assert_eq!(v.selection, Some(4)); // clamped at the bottom
    v.move_selection_up();
    assert_eq!(v.selection, Some(3));
}

#[test]
fn movement_on_empty_listing() {
    // Only the two synthetic rows exist.
    let mut v = DirectoryView::new(Vec::new());
    v.move_selection_down();
    assert_eq!(v.selection, Some(1));
    v.move_selection_down();
    assert_eq!(v.selection, Some(1));
    v.move_selection_up();
    assert_eq!(v.selection, Some(0));
    v.move_selection_up();
    assert_eq!(v.selection, Some(0));
}

#[test]
fn refresh_is_idempotent_on_unchanged_directory() {
    let mut b = sample_browser();
    b.handle_key(Key::Down); // row 1
    let r = b.finish_enter(EnterKind::Refresh, Ok(sample_entries()));
    assert_eq!(r, Ok(()));
    let names1: Vec<String> = b.view.entries.iter().map(|e| e.name.clone()).collect();
    let sel1 = b.view.selection;
    let r2 = b.finish_enter(EnterKind::Refresh, Ok(sample_entries()));
    assert_eq!(r2, Ok(()));
    let names2: Vec<String> = b.view.entries.iter().map(|e| e.name.clone()).collect();
    assert_eq!(names1, names2);
    assert_eq!(sel1, b.view.selection);
    assert_eq!(names1, vec![".git", "README.md", "src"]);
}

#[test]
fn ascend_resets_selection_to_row_zero() {
    let mut b = sample_browser();
    for _ in 0..3 {
        b.handle_key(Key::Down);
    }
    assert_eq!(b.view.selection, Some(3));
    b.handle_key(Key::Up);
    b.handle_key(Key::Up);
    b.handle_key(Key::Up);
    assert_eq!(b.view.selection, Some(0));
    let a = b.handle_key(Key::Enter);
    assert_eq!(a, Action::Traverse(EnterKind::Ascend));
    // The parent listing has different contents and a different length.
    let parent = vec![entry("projects", true), entry("notes.txt", false)];
    let r = b.finish_enter(EnterKind::Ascend, Ok(parent));
    assert_eq!(r, Ok(()));
    assert_eq!(b.view.selection, Some(0));
    assert_eq!(b.view.entries.len(), 2);
}

#[test]
fn append_then_remove_restores_targets() {
    let view = DirectoryView::new(sample_entries());
    let mut sc = SearchController::new();
    sc.search("re".to_string(), &view);
    let before = sc.targets.clone();
    assert_eq!(before, vec![3]);
    sc.append_char('x', &view); // "rex" matches nothing
    assert_eq!(sc.targets, Vec::<usize>::new());
    let was_empty = sc.remove_last_char(&view);
    assert!(!was_empty);
    assert_eq!(sc.targets, before);
}

#[test]
fn cycle_next_then_previous_wraps_circularly() {
    // Eight entries, rows 2..=9; names picked so "a" matches rows 2, 5 and 9.
    let names = ["a0", "b1", "b2", "a3", "b4", "b5", "b6", "a7"];
    let es: Vec<Entry> = names.iter().map(|n| entry(n, false)).collect();
    let mut view = DirectoryView::new(es);
    let mut sc = SearchController::new();
    sc.search("a".to_string(), &view);
    assert_eq!(sc.targets, vec![2, 5, 9]);
    view.selection = Some(9);
    sc.select_next_target(&mut view);
    assert_eq!(view.selection, Some(2)); // wrapped forward
    sc.select_previous_target(&mut view);
    assert_eq!(view.selection, Some(9)); // wrapped backward
    view.selection = Some(5);
    sc.select_next_target(&mut view);
    assert_eq!(view.selection, Some(9));
    sc.select_previous_target(&mut view);
    assert_eq!(view.selection, Some(5));
}

#[test]
fn cycling_without_targets_is_a_no_op() {
    let mut view = DirectoryView::new(sample_entries());
    let sc = SearchController::new();
    view.selection = Some(3);
    sc.select_next_target(&mut view);
    assert_eq!(view.selection, Some(3));
    sc.select_previous_target(&mut view);
    assert_eq!(view.selection, Some(3));
}

#[test]
fn typing_jumps_and_backspacing_to_empty_cancels() {
    let mut b = sample_browser();
    assert_eq!(b.handle_key(Key::Char('/')), Action::Idle);
    assert_eq!(b.mode, Mode::Search);
    assert_eq!(b.message, "/");
    b.handle_key(Key::Char('r'));
    assert_eq!(b.search.targets, vec![3, 4]); // "readme.md" and "src"
    b.handle_key(Key::Char('e'));
    assert_eq!(b.search.targets, vec![3]); // only "readme.md"
    assert_eq!(b.message, "/re");
    assert_eq!(b.view.selection, Some(3)); // jumped to the match
    b.handle_key(Key::Backspace); // keyword "r"
    assert_eq!(b.search.targets, vec![3, 4]);
    b.handle_key(Key::Backspace); // keyword ""
    assert_eq!(b.search.targets, Vec::<usize>::new());
    assert_eq!(b.mode, Mode::Search);
    b.handle_key(Key::Backspace); // backspace on empty keyword: cancel
    assert_eq!(b.mode, Mode::Normal);
    assert_eq!(b.search.keyword, None);
    assert_eq!(b.view.selection, Some(0)); // restored to the pre-search row
    assert_eq!(b.message, "");
}

#[test]
fn refresh_row_keeps_selection_and_length() {
    let mut b = sample_browser();
    b.handle_key(Key::Down); // row 1, the refresh row
    assert_eq!(b.view.selection, Some(1));
    let a = b.handle_key(Key::Enter);
    assert_eq!(a, Action::Traverse(EnterKind::Refresh));
    let len_before = b.view.entries.len();
    let r = b.finish_enter(EnterKind::Refresh, Ok(sample_entries()));
    assert_eq!(r, Ok(()));
    assert_eq!(b.view.entries.len(), len_before);
    assert_eq!(b.view.selection, Some(1));
}

#[test]
fn entering_non_directory_is_a_navigation_error() {
    let mut b = sample_browser();
    b.handle_key(Key::Down);
    b.handle_key(Key::Down);
    b.handle_key(Key::Down); // row 3: "README.md", not a directory
    assert_eq!(b.view.selection, Some(3));
    let names_before: Vec<String> = b.view.entries.iter().map(|e| e.name.clone()).collect();
    assert_eq!(b.view.enter_plan(), Err(NavError::Navigation));
    let a = b.handle_key(Key::Enter);
    assert_eq!(a, Action::Idle); // no traversal is requested
    assert_eq!(b.message, "Error: not a directory");
    assert!(b.message_is_error);
    let names_after: Vec<String> = b.view.entries.iter().map(|e| e.name.clone()).collect();
    assert_eq!(names_before, names_after);
    assert_eq!(b.view.selection, Some(3));
}

#[test]
fn descend_failure_reports_navigation_error() {
    let mut b = sample_browser();
    b.view.selection = Some(2); // ".git", a directory
    let a = b.handle_key(Key::Enter);
    assert_eq!(a, Action::Traverse(EnterKind::Descend(0)));
    let r = b.finish_enter(EnterKind::Descend(0), Err("permission denied".to_string()));
    assert_eq!(r, Err(NavError::Navigation));
    assert_eq!(b.message, "Error: permission denied");
    assert!(b.message_is_error);
    assert_eq!(b.view.selection, Some(2));
    assert_eq!(b.view.entries.len(), 3);
}

#[test]
fn refresh_failure_reports_filesystem_error() {
    let mut b = sample_browser();
    let r = b.finish_enter(EnterKind::Refresh, Err("unreadable".to_string()));
    assert_eq!(r, Err(NavError::Filesystem));
    assert_eq!(b.message, "Error: unreadable");
    assert!(b.message_is_error);
    assert_eq!(b.view.entries.len(), 3);
}

#[test]
fn search_is_case_insensitive_both_ways() {
    let view = DirectoryView::new(sample_entries());
    let mut sc = SearchController::new();
    sc.search("readme".to_string(), &view);
    assert_eq!(sc.targets, vec![3]);
    sc.search("EADME".to_string(), &view);
    assert_eq!(sc.targets, vec![3]);
    sc.search("GIT".to_string(), &view);
    assert_eq!(sc.targets, vec![2]);
}

#[test]
fn empty_keyword_has_no_targets() {
    let view = DirectoryView::new(sample_entries());
    let mut sc = SearchController::new();
    sc.search(String::new(), &view);
    assert_eq!(sc.targets, Vec::<usize>::new());
    assert_eq!(sc.keyword, Some(String::new()));
}

#[test]
fn quit_keys_request_the_right_exit() {
    let mut b = sample_browser();
    assert_eq!(b.handle_key(Key::Char('w')), Action::QuitCurrentDir);
    assert_eq!(b.handle_key(Key::Char('q')), Action::QuitUnchanged);
}

#[test]
fn commit_keeps_targets_for_cycling() {
    let mut b = sample_browser();
    b.handle_key(Key::Char('/'));
    b.handle_key(Key::Char('s'));
    assert_eq!(b.search.targets, vec![4]); // "src"
    b.handle_key(Key::Enter); // commit
    assert_eq!(b.mode, Mode::Normal);
    assert_eq!(b.search.targets, vec![4]); // targets persist
    assert_eq!(b.search.keyword, Some("s".to_string()));
    b.view.selection = Some(0);
    b.handle_key(Key::Char('n'));
    assert_eq!(b.view.selection, Some(4));
    b.handle_key(Key::Char('n'));
    assert_eq!(b.view.selection, Some(4)); // single target cycles to itself
}

#[test]
fn escape_in_normal_mode_dismisses_committed_filter() {
    let mut b = sample_browser();
    b.handle_key(Key::Char('/'));
    b.handle_key(Key::Char('s'));
    b.handle_key(Key::Enter); // commit; selection jumped to row 4
    assert_eq!(b.view.selection, Some(4));
    b.handle_key(Key::Esc);
    assert_eq!(b.search.keyword, None);
    assert_eq!(b.search.targets, Vec::<usize>::new());
    assert_eq!(b.view.selection, Some(4)); // dismissal does not move the cursor
    assert_eq!(b.message, "");
}

#[test]
fn escape_in_search_mode_restores_selection() {
    let mut b = sample_browser();
    b.view.selection = Some(2);
    b.handle_key(Key::Char('/'));
    b.handle_key(Key::Char('s'));
    assert_eq!(b.view.selection, Some(4)); // jumped to "src"
    b.handle_key(Key::Esc);
    assert_eq!(b.mode, Mode::Normal);
    assert_eq!(b.view.selection, Some(2)); // back at the recover point
    assert_eq!(b.search.keyword, None);
    assert_eq!(b.search.recover_point, None);
}

#[test]
fn jump_anchors_at_recover_point_and_wraps() {
    let mut b = sample_browser();
    b.view.selection = Some(4); // anchor below the only match to come
    b.handle_key(Key::Char('/'));
    b.handle_key(Key::Char('g')); // ".git" at row 2, strictly above is nothing
    assert_eq!(b.search.targets, vec![2]);
    assert_eq!(b.view.selection, Some(2)); // wrapped to the first target
}

#[test]
fn typing_with_no_match_returns_to_recover_point() {
    let mut b = sample_browser();
    b.view.selection = Some(3);
    b.handle_key(Key::Char('/'));
    b.handle_key(Key::Char('s')); // jumps to row 4
    assert_eq!(b.view.selection, Some(4));
    b.handle_key(Key::Char('z')); // "sz" matches nothing
    assert_eq!(b.search.targets, Vec::<usize>::new());
    assert_eq!(b.view.selection, Some(3)); // back at the recover point
}

#[test]
fn display_rows_marks_directories() {
    let v = DirectoryView::new(sample_entries());
    let rows = v.display_rows();
    assert_eq!(rows, vec!["../", "./", ".git/", "README.md", "src/"]);
}

#[test]
fn ruler_counts_targets_from_the_cursor() {
    let mut b = sample_browser();
    assert_eq!(b.ruler(), RulerInfo { position: 0, total: 0, row: 0 });
    b.handle_key(Key::Char('/'));
    b.handle_key(Key::Char('r')); // targets {3, 4}, cursor jumps to 3
    assert_eq!(b.ruler(), RulerInfo { position: 1, total: 2, row: 3 });
    b.handle_key(Key::Enter);
    b.handle_key(Key::Char('n')); // cursor to 4
    assert_eq!(b.ruler(), RulerInfo { position: 2, total: 2, row: 4 });
    b.view.selection = Some(0);
    assert_eq!(b.ruler(), RulerInfo { position: 1, total: 2, row: 0 });
}

#[test]
fn traversal_recomputes_targets_under_kept_keyword() {
    let mut b = sample_browser();
    b.handle_key(Key::Char('/'));
    b.handle_key(Key::Char('e')); // matches "readme.md" at row 3
    b.handle_key(Key::Enter); // commit
    assert_eq!(b.search.targets, vec![3]);
    let new_dir = vec![entry("examples", true), entry("main.rs", false), entry("lib.rs", false)];
    let r = b.finish_enter(EnterKind::Descend(2), Ok(new_dir));
    assert_eq!(r, Ok(()));
    // "examples" at row 2 is the only name in the new listing containing "e".
    assert_eq!(b.search.keyword, Some("e".to_string()));
    assert_eq!(b.search.targets, vec![2]);
    assert_eq!(b.view.selection, Some(0));
}

#[test]
fn refresh_clamps_selection_when_listing_shrinks() {
    let mut b = sample_browser();
    b.view.selection = Some(4);
    let r = b.finish_enter(EnterKind::Refresh, Ok(vec![entry("only", true)]));
    assert_eq!(r, Ok(()));
    assert_eq!(b.view.selection, Some(2)); // clamped to the new last row
}

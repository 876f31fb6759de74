use tui_rs_file_dialog::dialog::{row_prefix, FileDialog, SelectOutcome};
use tui_rs_file_dialog::dispatch::{DispatchResult, KeyInput, ScanRequest};
use tui_rs_file_dialog::listing::RawEntry;
use tui_rs_file_dialog::pattern::FilePattern;

fn file(n: &str) -> RawEntry {
    RawEntry { name: n.to_string(), is_dir: false }
}

fn dir(n: &str) -> RawEntry {
    RawEntry { name: n.to_string(), is_dir: true }
}

fn strs(v: &[&str]) -> Vec<String> {
    v.iter().map(|s| s.to_string()).collect()
}

fn sample() -> Vec<RawEntry> {
    vec![file("a.toml"), file("b.txt"), dir("sub")]
}

#[test]
fn new_clamps_size_and_starts_closed() {
    let d = FileDialog::new(150, 200, strs(&["tmp"]), sample());
    assert_eq!(d.width, 100);
    assert_eq!(d.height, 100);
    assert!(!d.is_open());
    assert_eq!(d.items, strs(&["..", "sub/", "a.toml", "b.txt"]));
    assert_eq!(d.cursor, Some(1));
}

#[test]
fn cursor_stays_within_the_listing() {
    let mut d = FileDialog::new(50, 50, strs(&[]), sample());
    d.open();
    assert_eq!(d.cursor, None);
    for _ in 0..20 {
        d.next();
        let c = d.cursor.unwrap();
        assert!(c < d.items.len());
    }
    assert_eq!(d.cursor, Some(d.items.len() - 1));
    for _ in 0..20 {
        d.previous();
        let c = d.cursor.unwrap();
        assert!(c < d.items.len());
    }
    assert_eq!(d.cursor, Some(0));
}

#[test]
fn moves_in_a_single_row_listing_stay_put() {
    let mut d = FileDialog::new(50, 50, strs(&[]), vec![]);
    assert_eq!(d.items, strs(&[".."]));
    assert_eq!(d.cursor, Some(0));
    d.next();
    assert_eq!(d.cursor, Some(0));
    d.previous();
    assert_eq!(d.cursor, Some(0));
}

#[test]
fn toggle_twice_restores_the_selection() {
    let mut d = FileDialog::new(50, 50, strs(&["tmp"]), sample());
    d.set_multi_selection(true);
    d.open();
    d.next();
    d.next();
    let before = d.selected.clone();
    d.toggle_selection();
    assert_ne!(d.selected, before);
    d.toggle_selection();
    assert_eq!(d.selected, before);
}

#[test]
fn first_toggle_with_unset_cursor_only_moves() {
    let mut d = FileDialog::new(50, 50, strs(&["tmp"]), sample());
    d.set_multi_selection(true);
    d.open();
    assert_eq!(d.cursor, None);
    d.toggle_selection();
    assert_eq!(d.cursor, Some(1));
    assert!(d.selected.iter().all(|s| !s));
}

#[test]
fn single_selection_pick_closes_and_reports_one_path() {
    let mut d = FileDialog::new(50, 50, strs(&["tmp", "x"]), sample());
    d.open();
    assert_eq!(d.selected_files(), None);
    d.next();
    d.next();
    assert_eq!(d.items[d.cursor.unwrap()], "a.toml");
    let r = d.select();
    assert!(matches!(r, SelectOutcome::Picked));
    assert!(!d.is_open());
    assert_eq!(d.selected_files(), Some(strs(&["/tmp/x/a.toml"])));
    assert_eq!(d.selected_files(), Some(strs(&[])));
}

#[test]
fn select_with_unset_cursor_only_moves() {
    let mut d = FileDialog::new(50, 50, strs(&["tmp"]), sample());
    d.open();
    let r = d.select();
    assert!(matches!(r, SelectOutcome::Moved));
    assert_eq!(d.cursor, Some(1));
    assert!(d.is_open());
}

#[test]
fn select_on_parent_row_asks_for_the_parent_scan() {
    let mut d = FileDialog::new(50, 50, strs(&["a", "b"]), sample());
    d.open();
    d.next();
    d.previous();
    assert_eq!(d.items[d.cursor.unwrap()], "..");
    match d.select() {
        SelectOutcome::NeedsScan(t) => assert_eq!(t, strs(&["a"])),
        _ => panic!("expected a scan request"),
    }
    assert_eq!(d.current_dir, strs(&["a", "b"]));
}

#[test]
fn select_on_directory_row_asks_for_its_scan() {
    let mut d = FileDialog::new(50, 50, strs(&["a", "b"]), sample());
    d.open();
    d.next();
    assert_eq!(d.items[d.cursor.unwrap()], "sub/");
    match d.select() {
        SelectOutcome::NeedsScan(t) => assert_eq!(t, strs(&["a", "b", "sub"])),
        _ => panic!("expected a scan request"),
    }
}

#[test]
fn set_dir_commits_the_scanned_listing() {
    let mut d = FileDialog::new(50, 50, strs(&["a"]), sample());
    d.open();
    d.set_dir(strs(&["a", "sub"]), vec![file("inner.txt")]);
    assert_eq!(d.current_dir, strs(&["a", "sub"]));
    assert_eq!(d.items, strs(&["..", "inner.txt"]));
    assert_eq!(d.cursor, Some(1));
    assert!(d.selected.iter().all(|s| !s));
    assert!(d.is_open());
}

#[test]
fn up_pops_one_component_and_rescans() {
    let mut d = FileDialog::new(50, 50, strs(&["a", "b"]), sample());
    assert_eq!(d.parent_dir(), strs(&["a"]));
    d.up(vec![dir("b"), file("c.txt")]);
    assert_eq!(d.current_dir, strs(&["a"]));
    assert_eq!(d.items, strs(&["..", "b/", "c.txt"]));
}

#[test]
fn up_at_the_root_keeps_the_root() {
    let mut d = FileDialog::new(50, 50, strs(&[]), sample());
    assert_eq!(d.parent_dir(), strs(&[]));
    d.up(vec![dir("etc")]);
    assert_eq!(d.current_dir, strs(&[]));
    assert_eq!(d.items, strs(&["..", "etc/"]));
}

#[test]
fn filter_commits_apply_and_reset() {
    let mut d = FileDialog::new(50, 50, strs(&["tmp"]), sample());
    d.set_filter(FilePattern::Extension("toml".to_string()), sample());
    assert_eq!(d.items, strs(&["..", "sub/", "a.toml"]));
    d.reset_filter(sample());
    assert_eq!(d.items, strs(&["..", "sub/", "a.toml", "b.txt"]));
}

#[test]
fn toggle_show_hidden_commits_the_flag_with_the_listing() {
    let raw = || vec![dir(".git"), file("readme")];
    let mut d = FileDialog::new(50, 50, strs(&["tmp"]), raw());
    assert_eq!(d.items, strs(&["..", "readme"]));
    d.toggle_show_hidden(raw());
    assert!(d.show_hidden);
    assert_eq!(d.items, strs(&["..", ".git/", "readme"]));
    d.toggle_show_hidden(raw());
    assert!(!d.show_hidden);
    assert_eq!(d.items, strs(&["..", "readme"]));
}

#[test]
fn open_resets_the_session() {
    let mut d = FileDialog::new(50, 50, strs(&["tmp"]), sample());
    d.set_multi_selection(true);
    d.open();
    d.next();
    d.toggle_selection();
    assert!(d.selected.iter().any(|s| *s));
    d.close();
    d.open();
    assert!(d.selected.iter().all(|s| !s));
    assert_eq!(d.cursor, None);
    assert!(d.is_open());
}

#[test]
fn multi_selection_reports_paths_in_row_order() {
    let mut d = FileDialog::new(50, 50, strs(&["tmp"]), sample());
    d.set_multi_selection(true);
    d.open();
    d.next();
    d.next();
    d.toggle_selection();
    d.next();
    d.toggle_selection();
    assert!(d.is_open());
    assert_eq!(d.selected_files(), None);
    d.close();
    assert_eq!(d.selected_files(), Some(strs(&["/tmp/a.toml", "/tmp/b.txt"])));
}

#[test]
fn row_prefix_marks_selection_only_in_multi_mode() {
    assert_eq!(row_prefix(true, true), "☑ ");
    assert_eq!(row_prefix(true, false), "☐ ");
    assert_eq!(row_prefix(false, true), "");
    assert_eq!(row_prefix(false, false), "");
}

#[test]
fn closed_dialog_passes_events_through() {
    let mut d = FileDialog::new(50, 50, strs(&["tmp"]), sample());
    let r = d.dispatch(KeyInput::Char('q'));
    assert!(matches!(r, DispatchResult::PassThrough));
    assert!(!d.is_open());
}

#[test]
fn quit_keys_close_the_dialog() {
    let mut d = FileDialog::new(50, 50, strs(&["tmp"]), sample());
    d.open();
    assert!(matches!(d.dispatch(KeyInput::Char('q')), DispatchResult::Consumed));
    assert!(!d.is_open());
    d.open();
    assert!(matches!(d.dispatch(KeyInput::Esc), DispatchResult::Consumed));
    assert!(!d.is_open());
}

#[test]
fn movement_keys_move_the_cursor() {
    let mut d = FileDialog::new(50, 50, strs(&["tmp"]), sample());
    d.open();
    d.dispatch(KeyInput::Char('j'));
    assert_eq!(d.cursor, Some(1));
    d.dispatch(KeyInput::Down);
    assert_eq!(d.cursor, Some(2));
    d.dispatch(KeyInput::Char('k'));
    assert_eq!(d.cursor, Some(1));
    d.dispatch(KeyInput::Up);
    assert_eq!(d.cursor, Some(0));
}

#[test]
fn space_only_selects_in_multi_selection_mode() {
    let mut d = FileDialog::new(50, 50, strs(&["tmp"]), sample());
    d.open();
    d.next();
    d.next();
    assert!(matches!(d.dispatch(KeyInput::Char(' ')), DispatchResult::Consumed));
    assert!(d.selected.iter().all(|s| !s));
    d.set_multi_selection(true);
    assert!(matches!(d.dispatch(KeyInput::Char(' ')), DispatchResult::Consumed));
    assert!(d.selected[2]);
}

#[test]
fn up_and_hidden_keys_request_scans() {
    let mut d = FileDialog::new(50, 50, strs(&["a", "b"]), sample());
    d.open();
    match d.dispatch(KeyInput::Char('u')) {
        DispatchResult::Scan(ScanRequest::Navigate(t)) => assert_eq!(t, strs(&["a"])),
        _ => panic!("expected a navigation scan"),
    }
    match d.dispatch(KeyInput::Char('I')) {
        DispatchResult::Scan(ScanRequest::ToggleHidden(t)) => assert_eq!(t, strs(&["a", "b"])),
        _ => panic!("expected a hidden-toggle scan"),
    }
    assert_eq!(d.current_dir, strs(&["a", "b"]));
}

#[test]
fn enter_dispatches_select() {
    let mut d = FileDialog::new(50, 50, strs(&["tmp"]), sample());
    d.open();
    d.next();
    match d.dispatch(KeyInput::Enter) {
        DispatchResult::Scan(ScanRequest::Navigate(t)) => assert_eq!(t, strs(&["tmp", "sub"])),
        _ => panic!("expected a navigation scan"),
    }
    d.next();
    assert_eq!(d.items[d.cursor.unwrap()], "a.toml");
    assert!(matches!(d.dispatch(KeyInput::Enter), DispatchResult::Consumed));
    assert!(!d.is_open());
    assert_eq!(d.selected_files(), Some(strs(&["/tmp/a.toml"])));
}

#[test]
fn unknown_keys_are_consumed_without_effect() {
    let mut d = FileDialog::new(50, 50, strs(&["tmp"]), sample());
    d.open();
    d.next();
    let items = d.items.clone();
    assert!(matches!(d.dispatch(KeyInput::Char('z')), DispatchResult::Consumed));
    assert!(matches!(d.dispatch(KeyInput::Other), DispatchResult::Consumed));
    assert_eq!(d.items, items);
    assert_eq!(d.cursor, Some(1));
    assert!(d.is_open());
}

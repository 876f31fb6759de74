use tui_rs_file_dialog::listing::{build_listing, RawEntry};
use tui_rs_file_dialog::paths::{dir_path_string, entry_path_string, strip_entry_string};
use tui_rs_file_dialog::pattern::FilePattern;
use tui_rs_file_dialog::rect::{centered_rect, Rect};

fn file(n: &str) -> RawEntry {
    RawEntry { name: n.to_string(), is_dir: false }
}

fn dir(n: &str) -> RawEntry {
    RawEntry { name: n.to_string(), is_dir: true }
}

fn strs(v: &[&str]) -> Vec<String> {
    v.iter().map(|s| s.to_string()).collect()
}

#[test]
fn scan_filters_sorts_and_prepends_parent() {
    let raw = vec![file("a.toml"), file("b.txt"), dir("sub")];
    let filter = Some(FilePattern::Extension("toml".to_string()));
    let items = build_listing(&raw, &filter, false);
    assert_eq!(items, strs(&["..", "sub/", "a.toml"]));
}

#[test]
fn scan_of_empty_directory_is_only_parent() {
    let raw: Vec<RawEntry> = vec![];
    let items = build_listing(&raw, &None, false);
    assert_eq!(items, strs(&[".."]));
}

#[test]
fn first_element_is_always_parent() {
    let raw = vec![file("zzz"), dir("aaa")];
    let items = build_listing(&raw, &None, false);
    assert_eq!(items[0], "..");
    let items = build_listing(&raw, &Some(FilePattern::Substring("q".to_string())), true);
    assert_eq!(items[0], "..");
}

#[test]
fn directories_precede_files_each_group_ascending() {
    let raw = vec![file("gamma"), dir("zeta"), file("alpha"), dir("beta")];
    let items = build_listing(&raw, &None, false);
    assert_eq!(items, strs(&["..", "beta/", "zeta/", "alpha", "gamma"]));
}

#[test]
fn hidden_names_are_skipped_without_show_hidden() {
    let raw = vec![dir(".git"), file(".profile"), file("readme"), dir("src")];
    let items = build_listing(&raw, &None, false);
    assert_eq!(items, strs(&["..", "src/", "readme"]));
    for e in items.iter().skip(1) {
        assert!(!e.starts_with('.'));
    }
}

#[test]
fn show_hidden_adds_hidden_directory_into_its_group() {
    let raw = vec![dir(".git"), file(".profile"), file("readme"), dir("src")];
    let items = build_listing(&raw, &None, true);
    assert_eq!(items, strs(&["..", ".git/", "src/", ".profile", "readme"]));
}

#[test]
fn equal_names_stay_as_duplicates() {
    let raw = vec![file("x"), dir("x"), file("x")];
    let items = build_listing(&raw, &None, false);
    assert_eq!(items, strs(&["..", "x/", "x", "x"]));
}

#[test]
fn filter_never_drops_directories() {
    let raw = vec![dir("sub"), file("keep.rs"), file("drop.txt")];
    let filter = Some(FilePattern::Extension("rs".to_string()));
    let items = build_listing(&raw, &filter, false);
    assert_eq!(items, strs(&["..", "sub/", "keep.rs"]));
}

#[test]
fn extension_filter_is_case_insensitive() {
    let p = FilePattern::Extension("toml".to_string());
    assert!(p.matches("Cargo.TOML", false));
    assert!(p.matches("a.toml", false));
    assert!(!p.matches("a.tom", false));
    let q = FilePattern::Extension("TOML".to_string());
    assert!(q.matches("a.toml", false));
}

#[test]
fn extension_filter_needs_a_real_extension() {
    let p = FilePattern::Extension("bashrc".to_string());
    assert!(!p.matches(".bashrc", false));
    let q = FilePattern::Extension("toml".to_string());
    assert!(!q.matches("toml", false));
    assert!(q.matches("a.b.toml", false));
}

#[test]
fn substring_filter_is_case_sensitive() {
    let p = FilePattern::Substring("sub".to_string());
    assert!(p.matches("a_sub_b", false));
    assert!(!p.matches("a_Sub_b", false));
    assert!(p.matches("anything", true));
}

#[test]
fn paths_render_as_absolute_strings() {
    assert_eq!(dir_path_string(&strs(&[])), "/");
    assert_eq!(dir_path_string(&strs(&["a", "b"])), "/a/b");
    assert_eq!(entry_path_string(&strs(&["a", "b"]), "sub/"), "/a/b/sub");
    assert_eq!(entry_path_string(&strs(&[]), "x.txt"), "/x.txt");
    assert_eq!(strip_entry_string("sub/"), "sub");
    assert_eq!(strip_entry_string(".."), "..");
}

#[test]
fn centered_rect_centers_with_integer_percentages() {
    let r = Rect { x: 0, y: 0, width: 100, height: 40 };
    let c = centered_rect(50, 50, r);
    assert_eq!(c, Rect { x: 25, y: 10, width: 50, height: 20 });
    let full = centered_rect(100, 100, r);
    assert_eq!(full, Rect { x: 0, y: 0, width: 100, height: 40 });
    let off = Rect { x: 7, y: 3, width: 80, height: 24 };
    let c2 = centered_rect(25, 50, off);
    assert_eq!(c2.width, 20);
    assert_eq!(c2.height, 12);
    assert_eq!(c2.x, 7 + 80 * 37 / 100);
    assert_eq!(c2.y, 3 + 24 * 25 / 100);
}

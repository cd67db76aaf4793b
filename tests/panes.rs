use rc::pane::{
    arrange_entries, format_io_error, listed_size, Entry, LoadPoll, LoadResult, PaneState, SizeDisplayMode, SizeResult,
};
use rc::dialog::{handle_yes_no_keys, DialogKey, DialogResult};
use rc::state::{parse_state_line, state_line};

fn e(name: &str, dir: bool) -> Entry {
    Entry { name: name.to_string(), path: format!("/home/u/{}", name), is_dir: dir, size: None }
}

fn names(v: &[Entry]) -> Vec<String> {
    v.iter().map(|x| x.name.clone()).collect()
}

#[test]
fn listing_puts_parent_and_dirs_first() {
    let raw = vec![e("zeta.txt", false), e("Beta", true), e(".hidden", false), e("alpha", true), e("Alpha.md", false), e("b.rs", false)];
    let r = arrange_entries(&"/home/u".to_string(), raw, false);
    assert_eq!(names(&r), vec!["..", "alpha", "Beta", "Alpha.md", "b.rs", "zeta.txt"]);
    assert_eq!(r[0].path, "/home");
    assert!(r[0].is_dir);
    let raw = vec![e(".hidden", false), e("a", false)];
    let r = arrange_entries(&"/".to_string(), raw, true);
    assert_eq!(names(&r), vec![".hidden", "a"]);
}

#[test]
fn listing_keeps_order_of_equal_names() {
    let mut x = e("Same", false);
    x.path = "/first".to_string();
    let mut y = e("same", false);
    y.path = "/second".to_string();
    let r = arrange_entries(&"/".to_string(), vec![x, y], false);
    assert_eq!(r[0].path, "/first");
    assert_eq!(r[1].path, "/second");
}

#[test]
fn size_column_by_mode() {
    assert_eq!(listed_size(SizeDisplayMode::Off, false, Some(5)), None);
    assert_eq!(listed_size(SizeDisplayMode::Quick, true, Some(4096)), Some(4096));
    assert_eq!(listed_size(SizeDisplayMode::Full, false, Some(5)), Some(5));
    assert_eq!(listed_size(SizeDisplayMode::Full, true, Some(4096)), None);
    assert_eq!(SizeDisplayMode::Off.cycle(), SizeDisplayMode::Quick);
    assert_eq!(SizeDisplayMode::Quick.cycle(), SizeDisplayMode::Full);
    assert_eq!(SizeDisplayMode::Full.cycle(), SizeDisplayMode::Off);
}

#[test]
fn stale_load_result_is_discarded() {
    let mut p = PaneState::new("/one".to_string(), vec![e("..", true), e("a", false)]);
    let req = p.load_entries_async(10);
    assert_eq!(req.path, "/one");
    assert!(p.is_loading_any());
    p.path = "/two".to_string();
    let r = p.poll_load_result(LoadPoll::Ready(LoadResult { path: req.path, entries: Ok(vec![e("x", false)]) }), 20);
    assert!(r.is_none());
    assert_eq!(names(&p.entries), vec!["..", "a"]);
    assert!(!p.is_loading_any());
}

#[test]
fn matching_load_result_is_applied() {
    let mut p = PaneState::new("/one".to_string(), vec![]);
    assert_eq!(p.cursor, None);
    let req = p.load_entries_async(0);
    assert!(p.poll_load_result(LoadPoll::Pending, 50).is_none());
    assert!(!p.is_loading(50));
    assert!(p.is_loading(100));
    let r = p.poll_load_result(LoadPoll::Ready(LoadResult { path: req.path, entries: Ok(vec![e("a", true), e("b", false)]) }), 120);
    assert_eq!(r, Some(Ok(())));
    assert_eq!(p.cursor, Some(0));
    assert_eq!(names(&p.entries), vec!["a", "b"]);
    assert!(p.poll_load_result(LoadPoll::Disconnected, 130).is_none());
}

#[test]
fn load_errors_and_disconnects_are_reported() {
    let mut p = PaneState::new("/one".to_string(), vec![e("a", false)]);
    let req = p.load_entries_async(0);
    let r = p.poll_load_result(LoadPoll::Ready(LoadResult { path: req.path, entries: Err("Permission denied".to_string()) }), 1);
    assert_eq!(r, Some(Err("Permission denied".to_string())));
    assert_eq!(names(&p.entries), vec!["a"]);
    p.load_entries_async(2);
    let r = p.poll_load_result(LoadPoll::Disconnected, 3);
    assert_eq!(r, Some(Err("Loading thread disconnected".to_string())));
    assert_eq!(format_io_error(true, &"x".to_string()), "Permission denied");
    assert_eq!(format_io_error(false, &"No such file".to_string()), "Cannot open directory: No such file");
}

#[test]
fn size_results_patch_entries_by_path() {
    let mut p = PaneState::new("/home/u".to_string(), vec![e("..", true), e("d1", true), e("d2", true), e("f", false)]);
    p.size_mode = SizeDisplayMode::Full;
    p.load_entries(vec![e("..", true), e("d1", true), e("d2", true), e("f", false)], 5);
    assert!(p.is_calculating_sizes());
    assert_eq!(p.size_targets(), vec!["/home/u/d1".to_string(), "/home/u/d2".to_string()]);
    p.poll_size_results(vec![SizeResult { path: "/home/u/d2".to_string(), size: 42 }, SizeResult { path: "/gone".to_string(), size: 1 }], false);
    assert_eq!(p.entries[2].size, Some(42));
    assert_eq!(p.entries[1].size, None);
    assert!(p.is_calculating_sizes());
    p.poll_size_results(vec![SizeResult { path: "/home/u/d1".to_string(), size: 7 }], true);
    assert_eq!(p.entries[1].size, Some(7));
    assert!(!p.is_calculating_sizes());
    p.poll_size_results(vec![SizeResult { path: "/home/u/f".to_string(), size: 9 }], false);
    assert_eq!(p.entries[3].size, None);
}

#[test]
fn cursor_moves_and_selection() {
    let mut p = PaneState::new("/home/u".to_string(), vec![e("..", true), e("a", false), e("b", false), e("c", false)]);
    p.toggle_selection();
    assert!(p.selected.is_empty());
    assert_eq!(p.cursor, Some(1));
    p.toggle_selection();
    p.toggle_selection();
    assert_eq!(p.selected, vec![1, 2]);
    assert_eq!(p.cursor, Some(3));
    p.move_down();
    assert_eq!(p.cursor, Some(3));
    p.page_up(10);
    assert_eq!(p.cursor, Some(0));
    p.page_down(2);
    assert_eq!(p.cursor, Some(2));
    p.toggle_selection();
    assert_eq!(p.selected, vec![1]);
    let picked: Vec<String> = p.selected_entries().iter().map(|x| x.name.clone()).collect();
    assert_eq!(picked, vec!["a"]);
    p.select_all();
    assert_eq!(p.selected, vec![1, 2, 3]);
    p.move_up();
    assert_eq!(p.cursor, Some(2));
    assert_eq!(p.selected_entry().unwrap().name, "b");
}

#[test]
fn entering_a_directory() {
    let mut p = PaneState::new("/home/u".to_string(), vec![e("..", true), e("sub", true)]);
    p.move_down();
    assert_eq!(p.selected_dir(), Some("/home/u/sub".to_string()));
    let r = p.enter_selected("/home/u/sub".to_string(), Err("Permission denied".to_string()), 0);
    assert_eq!(r, Err("Permission denied".to_string()));
    assert_eq!(p.path, "/home/u");
    let r = p.enter_selected("/home/u/sub".to_string(), Ok(vec![e("..", true), e("x", false)]), 0);
    assert_eq!(r, Ok(()));
    assert_eq!(p.path, "/home/u/sub");
    assert_eq!(p.cursor, Some(0));
    p.cycle_size_mode();
    assert_eq!(p.size_mode, SizeDisplayMode::Quick);
    p.toggle_hidden();
    assert!(p.show_hidden);
}

#[test]
fn yes_no_keys() {
    assert!(matches!(handle_yes_no_keys(DialogKey::Char('Y')), DialogResult::Accept));
    assert!(matches!(handle_yes_no_keys(DialogKey::Enter), DialogResult::Accept));
    assert!(matches!(handle_yes_no_keys(DialogKey::Char('n')), DialogResult::Reject));
    assert!(matches!(handle_yes_no_keys(DialogKey::Esc), DialogResult::Reject));
    assert!(matches!(handle_yes_no_keys(DialogKey::Char('q')), DialogResult::Pending));
}

#[test]
fn state_file_lines() {
    assert_eq!(parse_state_line(&"right=/srv/data".to_string()), Some("/srv/data".to_string()));
    assert_eq!(parse_state_line(&"left=/x".to_string()), None);
    assert_eq!(parse_state_line(&"right".to_string()), None);
    assert_eq!(state_line(&"/srv".to_string()), "right=/srv");
}

#[test]
fn search_wraps_around_ignoring_case() {
    let mut p = PaneState::new("/d".to_string(), vec![e("..", true), e("Alpha", false), e("beta", false), e("ALPHABET", false)]);
    p.search_jump(&"alp".to_string());
    assert_eq!(p.cursor, Some(1));
    p.search_next(&"ALP".to_string());
    assert_eq!(p.cursor, Some(3));
    p.search_next(&"alp".to_string());
    assert_eq!(p.cursor, Some(1));
    p.search_jump(&"Beta".to_string());
    assert_eq!(p.cursor, Some(2));
    p.search_jump(&"zzz".to_string());
    assert_eq!(p.cursor, Some(2));
    p.search_next(&"bet".to_string());
    assert_eq!(p.cursor, Some(3));
}

#[test]
fn navigating_to_the_parent() {
    let mut p = PaneState::new("/home/u".to_string(), vec![e("a", false)]);
    assert_eq!(p.parent_dir(), Some("/home".to_string()));
    assert_eq!(p.navigate_to_parent(Err("Permission denied".to_string()), 0), Err("Permission denied".to_string()));
    assert_eq!(p.path, "/home/u");
    assert_eq!(p.navigate_to_parent(Ok(vec![e("..", true), e("u", true)]), 0), Ok(()));
    assert_eq!(p.path, "/home");
    assert_eq!(p.cursor, Some(0));
    let mut root = PaneState::new("/".to_string(), vec![]);
    assert_eq!(root.parent_dir(), None);
    assert_eq!(root.navigate_to_parent(Ok(vec![e("x", false)]), 0), Ok(()));
    assert!(root.entries.is_empty());
}

use i3_switcher_x11::i3wm::{focus_workspace, move_window_command, recenter_command};
use i3_switcher_x11::screenshot::{find_monitor, pixbuf_layout, screenshot_path};
use i3_switcher_x11::style::{css_file_path, css_to_create, DEFAULT_CSS};
use i3_switcher_x11::tabs::{Tab, TabsList};
use i3_switcher_x11::text::{append_decimal_i32, append_decimal_u64};

fn names(tabs: &TabsList<u32>) -> Vec<String> {
    tabs.tabs_vec.iter().map(|t| t.name.clone()).collect()
}

fn list(ws: &[&str]) -> TabsList<u32> {
    let v: Vec<String> = ws.iter().map(|s| s.to_string()).collect();
    TabsList::new(&v)
}

#[test]
fn focus_command_names_the_workspace() {
    assert_eq!(focus_workspace("3".to_string()), "workspace 3");
    assert_eq!(focus_workspace("2: web".to_string()), "workspace 2: web");
}

#[test]
fn move_command_writes_numbers_in_decimal() {
    assert_eq!(
        move_window_command("t", -5, 120),
        "[title=\"t\"] move window to position -5 120"
    );
    assert_eq!(
        recenter_command(),
        "[title=\"i3switcherX11\"] move window to position 0 0"
    );
}

#[test]
fn decimal_extremes() {
    let mut s = String::from("x=");
    append_decimal_i32(&mut s, i32::MIN);
    assert_eq!(s, "x=-2147483648");
    let mut s = String::new();
    append_decimal_i32(&mut s, i32::MAX);
    assert_eq!(s, "2147483647");
    let mut s = String::new();
    append_decimal_i32(&mut s, 0);
    assert_eq!(s, "0");
    let mut s = String::new();
    append_decimal_u64(&mut s, u64::MAX);
    assert_eq!(s, u64::MAX.to_string());
}

#[test]
fn tab_new_without_name_is_empty() {
    let t: Tab<u32> = Tab::new(None, None);
    assert_eq!(t.name, "");
    assert_eq!(t.picture, None);
    let t: Tab<u32> = Tab::new(Some(7), Some("1"));
    assert_eq!(t.name, "1");
    assert_eq!(t.picture, Some(7));
}

#[test]
fn new_list_follows_workspaces() {
    let tabs = list(&["1", "2", "3"]);
    assert_eq!(names(&tabs), vec!["1", "2", "3"]);
    assert!(tabs.tabs_vec.iter().all(|t| t.picture.is_none()));
}

#[test]
fn add_then_remove_restores() {
    let mut tabs = list(&["1", "2"]);
    tabs.add_new_tab(None, &"9".to_string());
    assert_eq!(names(&tabs), vec!["1", "2", "9"]);
    tabs.remove_tab(&"9".to_string());
    assert_eq!(names(&tabs), vec!["1", "2"]);
}

#[test]
fn remove_takes_first_match_only() {
    let mut tabs = list(&["a", "b", "a"]);
    tabs.tabs_vec[2].picture = Some(5);
    tabs.remove_tab(&"a".to_string());
    assert_eq!(names(&tabs), vec!["b", "a"]);
    assert_eq!(tabs.tabs_vec[1].picture, Some(5));
    tabs.remove_tab(&"zz".to_string());
    assert_eq!(names(&tabs), vec!["b", "a"]);
}

#[test]
fn find_tab_first_position() {
    let tabs = list(&["a", "b", "b"]);
    assert_eq!(tabs.find_tab(&"b".to_string()), Some(1));
    assert_eq!(tabs.find_tab(&"c".to_string()), None);
}

#[test]
fn set_image_cases() {
    let mut tabs = list(&["1", "2"]);
    assert!(tabs.set_image("2".to_string(), Some(42)));
    assert_eq!(tabs.tabs_vec[1].picture, Some(42));
    assert_eq!(tabs.tabs_vec[0].picture, None);
    assert!(tabs.set_image("nope".to_string(), Some(1)));
    assert_eq!(names(&tabs), vec!["1", "2"]);
    assert!(!tabs.set_image("1".to_string(), None));
    assert_eq!(tabs.tabs_vec[0].picture, None);
}

#[test]
fn reorder_moves_current_first() {
    let mut tabs = list(&["1", "2", "3"]);
    assert!(tabs.reorder_prev_first(&Some("3".to_string())));
    assert_eq!(names(&tabs), vec!["3", "1", "2"]);
    assert!(tabs.reorder_prev_first(&Some("3".to_string())));
    assert_eq!(names(&tabs), vec!["3", "1", "2"]);
    assert!(!tabs.reorder_prev_first(&Some("7".to_string())));
    assert!(!tabs.reorder_prev_first(&None));
    assert_eq!(names(&tabs), vec!["3", "1", "2"]);
}

#[test]
fn reorder_needs_two_tabs() {
    let mut tabs = list(&["1"]);
    assert!(!tabs.reorder_prev_first(&Some("1".to_string())));
    assert_eq!(names(&tabs), vec!["1"]);
}

#[test]
fn screenshot_paths_and_monitors() {
    assert_eq!(screenshot_path("2"), "/tmp/2.png");
    let monitors = vec!["HDMI-1".to_string(), "eDP-1".to_string(), "eDP-1".to_string()];
    assert_eq!(find_monitor(&monitors, "eDP-1"), Some(1));
    assert_eq!(find_monitor(&monitors, "DP-3"), None);
}

#[test]
fn pixbuf_layout_casts() {
    let l = pixbuf_layout(1920, 1080, 7680);
    assert_eq!((l.width, l.height, l.row_stride), (1920, 1080, 7680));
    assert!(l.has_alpha);
    assert_eq!(l.bits_per_sample, 8);
    let l = pixbuf_layout(u32::MAX, 3, 1usize << 32);
    assert_eq!(l.width, -1);
    assert_eq!(l.row_stride, 0);
}

#[test]
fn style_file() {
    assert_eq!(css_file_path("/home/me"), "/home/me/.i3-switcher-style.css");
    assert_eq!(css_to_create(true), None);
    assert_eq!(css_to_create(false), Some(DEFAULT_CSS.to_string()));
    assert!(DEFAULT_CSS.contains(".focused_tab"));
}

#[test]
fn style_file_created_once() {
    // Where the file is missing it is created with the default style; once it
    // exists, nothing more is written.
    let first = css_to_create(false);
    assert_eq!(first.as_deref(), Some(DEFAULT_CSS));
    assert_eq!(css_to_create(first.is_some()), None);
}

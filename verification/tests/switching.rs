use i3_switcher_x11::events::{handle_workspace_event, WorkspaceAction, WorkspaceEvent};
use i3_switcher_x11::overlay::{center_command, OverlayState};
use i3_switcher_x11::state::{KeyCodes, KeyEvent, RefreshAction, SwitcherState};
use i3_switcher_x11::tabs::TabsList;

const KEYS: KeyCodes = KeyCodes { alt_key: 64, tab_key: 23 };

fn list(ws: &[&str]) -> TabsList<u32> {
    let v: Vec<String> = ws.iter().map(|s| s.to_string()).collect();
    TabsList::new(&v)
}

fn names(tabs: &TabsList<u32>) -> Vec<String> {
    tabs.tabs_vec.iter().map(|t| t.name.clone()).collect()
}

fn flags(a: RefreshAction) -> Option<Vec<bool>> {
    match a {
        RefreshAction::Show { highlighted } => highlighted,
        RefreshAction::Hide => panic!("expected Show"),
    }
}

#[test]
fn tab_without_alt_does_nothing() {
    let mut s = SwitcherState::new();
    s.on_key_press(KEYS.tab_key, &KEYS);
    assert!(!s.is_visible);
    assert_eq!(s.selected_index, -1);
    assert!(!s.selected_index_changed);
}

#[test]
fn alt_tab_shows_and_selects() {
    let mut s = SwitcherState::new();
    s.on_key_press(KEYS.alt_key, &KEYS);
    assert!(s.alt_pressed && !s.is_visible);
    s.on_key_press(KEYS.tab_key, &KEYS);
    assert!(s.is_visible && s.selected_index_changed);
    assert_eq!(s.selected_index, 0);
    s.on_key_press(KEYS.tab_key, &KEYS);
    assert_eq!(s.selected_index, 1);
}

#[test]
fn alt_release_asks_switch_once() {
    let mut s = SwitcherState::new();
    s.on_key_release(KEYS.alt_key, &KEYS);
    assert!(!s.should_switch);
    s.on_key_press(KEYS.alt_key, &KEYS);
    s.on_key_release(KEYS.tab_key, &KEYS);
    assert!(!s.should_switch && s.alt_pressed);
    s.on_key_release(KEYS.alt_key, &KEYS);
    assert!(s.should_switch && !s.alt_pressed);
}

#[test]
fn refresh_wraps_selection() {
    let tabs = list(&["1", "2", "3"]);
    let mut s = SwitcherState::new();
    s.is_visible = true;
    s.selected_index_changed = true;
    s.selected_index = 3;
    let f = flags(s.refresh(&tabs)).unwrap();
    assert_eq!(s.selected_index, 0);
    assert_eq!(f, vec![true, false, false]);
    assert_eq!(s.focused_tab_name.as_deref(), Some("1"));
    assert!(!s.selected_index_changed);

    s.selected_index = -1;
    s.selected_index_changed = true;
    let f = flags(s.refresh(&tabs)).unwrap();
    assert_eq!(s.selected_index, 2);
    assert_eq!(f, vec![false, false, true]);
    assert_eq!(s.focused_tab_name.as_deref(), Some("3"));

    assert_eq!(flags(s.refresh(&tabs)), None);
}

#[test]
fn refresh_hidden_and_empty() {
    let tabs = list(&[]);
    let mut s = SwitcherState::new();
    assert!(matches!(s.refresh(&tabs), RefreshAction::Hide));
    s.is_visible = true;
    s.selected_index_changed = true;
    s.focused_tab_name = Some("old".to_string());
    let f = flags(s.refresh(&tabs)).unwrap();
    assert!(f.is_empty());
    // No tabs: the count taken as an i8 is 0, and -1 goes to 0 - 1.
    assert_eq!(s.selected_index, -1);
    assert_eq!(s.focused_tab_name.as_deref(), Some("old"));
}

#[test]
fn refresh_many_tabs_compares_as_i8() {
    let ws: Vec<String> = (0..200).map(|i| i.to_string()).collect();
    let tabs: TabsList<u32> = TabsList::new(&ws);
    let mut s = SwitcherState::new();
    s.is_visible = true;
    s.selected_index_changed = true;
    s.selected_index = 5;
    let f = flags(s.refresh(&tabs)).unwrap();
    // 200 taken as an i8 is -56, and 5 >= -56, so the selection starts over.
    assert_eq!(s.selected_index, 0);
    // Positions 0 and 0 + 256 would match; only 0 is below 200.
    assert_eq!(f.iter().filter(|b| **b).count(), 1);
    assert_eq!(s.focused_tab_name.as_deref(), Some("0"));
}

#[test]
fn switch_round_returns_to_previous() {
    let mut tabs = list(&["1", "2", "3"]);
    let mut s = SwitcherState::new();
    s.current_ws_name = Some("2".to_string());
    // Alt+Tab, Tab: selects the second tab.
    s.on_key_press(KEYS.alt_key, &KEYS);
    s.on_key_press(KEYS.tab_key, &KEYS);
    s.on_key_press(KEYS.tab_key, &KEYS);
    let _ = s.refresh(&tabs);
    assert_eq!(s.focused_tab_name.as_deref(), Some("2"));
    s.on_key_press(KEYS.tab_key, &KEYS);
    let _ = s.refresh(&tabs);
    assert_eq!(s.focused_tab_name.as_deref(), Some("3"));
    s.on_key_release(KEYS.alt_key, &KEYS);
    let a = s.begin_switch(&mut tabs).expect("switch");
    assert!(a.rerender_tabs);
    assert_eq!(a.capture.as_deref(), Some("2"));
    assert_eq!(a.focus_command.as_deref(), Some("workspace 3"));
    assert_eq!(names(&tabs), vec!["2", "1", "3"]);
    assert_eq!(s.current_ws_name.as_deref(), Some("3"));
    assert_eq!(s.selected_index, -1);
    assert!(!s.is_visible && !s.should_switch && s.selected_index_changed);
    assert!(s.begin_switch(&mut tabs).is_none());
    // Alt+Tab once goes back to "2".
    s.on_key_press(KEYS.alt_key, &KEYS);
    s.on_key_press(KEYS.tab_key, &KEYS);
    let _ = s.refresh(&tabs);
    assert_eq!(s.selected_index, 0);
    assert_eq!(s.focused_tab_name.as_deref(), Some("2"));
}

#[test]
fn switch_requested_while_hidden_is_dropped() {
    let mut tabs = list(&["1", "2"]);
    let mut s = SwitcherState::new();
    s.should_switch = true;
    assert!(s.begin_switch(&mut tabs).is_none());
    assert!(!s.should_switch);
    assert_eq!(names(&tabs), vec!["1", "2"]);
}

#[test]
fn workspace_events() {
    let mut tabs = list(&["1"]);
    match handle_workspace_event(&mut tabs, WorkspaceEvent::Init("5".to_string())) {
        WorkspaceAction::RerenderAndRecenter(c) => {
            assert_eq!(c, "[title=\"i3switcherX11\"] move window to position 0 0")
        }
        _ => panic!("expected recenter"),
    }
    assert_eq!(names(&tabs), vec!["1", "5"]);
    assert!(matches!(
        handle_workspace_event(&mut tabs, WorkspaceEvent::Empty("5".to_string())),
        WorkspaceAction::Rerender
    ));
    assert_eq!(names(&tabs), vec!["1"]);
    assert!(matches!(
        handle_workspace_event(&mut tabs, WorkspaceEvent::Other),
        WorkspaceAction::Nothing
    ));
    assert_eq!(names(&tabs), vec!["1"]);
}

#[test]
fn overlay_keys_and_selection() {
    let mut o = OverlayState::new();
    o.on_grabbed_key_press();
    assert!(o.is_visible);
    o.on_grabbed_key_release(23, 64);
    assert!(o.is_visible);
    o.selected_index = 7;
    let ws = vec!["a".to_string(), "b".to_string()];
    let marked = o.select_workspace(&ws);
    assert_eq!(o.selected_index, 0);
    assert_eq!(marked, vec![true, false]);
    assert_eq!(o.focused_ws_name.as_deref(), Some("a"));
    o.selected_index = 1;
    let marked = o.select_workspace(&ws);
    assert_eq!(marked, vec![false, true]);
    assert!(o.on_key_released("Tab").is_none());
    o.current_ws_name = Some("a".to_string());
    let sw = o.on_key_released("Alt_L").expect("switch");
    assert_eq!(sw.capture_path.as_deref(), Some("/tmp/a.png"));
    assert_eq!(sw.focus_command.as_deref(), Some("workspace b"));
    assert_eq!(o.current_ws_name.as_deref(), Some("b"));
    assert!(!o.is_visible);
    assert_eq!(o.selected_index, -1);
    o.on_grabbed_key_release(64, 64);
    assert!(!o.is_visible);
}

#[test]
fn overlay_centering_rounds_toward_zero() {
    assert_eq!(
        center_command(1920, 1080, 1000, 301),
        "[title=\"i3switcherX11\"] move window to position 460 389"
    );
    assert_eq!(
        center_command(100, 100, 103, 103),
        "[title=\"i3switcherX11\"] move window to position -1 -1"
    );
}

#[test]
fn refresh_many_tabs_wraps_to_last() {
    let ws: Vec<String> = (0..200).map(|i| i.to_string()).collect();
    let tabs: TabsList<u32> = TabsList::new(&ws);
    let mut s = SwitcherState::new();
    s.is_visible = true;
    s.selected_index_changed = true;
    s.selected_index = -100;
    let f = flags(s.refresh(&tabs)).unwrap();
    // 200 as an i8 is -56; -100 is below it and below 0, so it goes to -57,
    // which is position 199 modulo 256: the last tab.
    assert_eq!(s.selected_index, -57);
    assert_eq!(f.iter().position(|b| *b), Some(199));
    assert_eq!(f.iter().filter(|b| **b).count(), 1);
    assert_eq!(s.focused_tab_name.as_deref(), Some("199"));
}

#[test]
fn one_alt_tab_with_many_tabs_returns_first() {
    let ws: Vec<String> = (0..256).map(|i| i.to_string()).collect();
    let mut tabs: TabsList<u32> = TabsList::new(&ws);
    let mut s = SwitcherState::new();
    s.current_ws_name = Some("17".to_string());
    s.on_key_event(KeyEvent::Press(KEYS.alt_key), &KEYS);
    s.on_key_event(KeyEvent::Press(KEYS.tab_key), &KEYS);
    let _ = s.refresh(&tabs);
    assert_eq!(s.focused_tab_name.as_deref(), Some("0"));
    s.on_key_event(KeyEvent::Release(KEYS.alt_key), &KEYS);
    let a = s.begin_switch(&mut tabs).expect("switch");
    assert_eq!(a.focus_command.as_deref(), Some("workspace 0"));
    assert_eq!(s.current_ws_name.as_deref(), Some("0"));
    assert_eq!(tabs.tabs_vec[0].name, "17");
    assert!(!s.is_visible && !s.should_switch);
    assert_eq!(s.selected_index, -1);
}

#[test]
fn key_events_sequence() {
    let mut s = SwitcherState::new();
    // Tab and an Alt release without Alt held do nothing.
    s.on_key_event(KeyEvent::Press(KEYS.tab_key), &KEYS);
    s.on_key_event(KeyEvent::Release(KEYS.alt_key), &KEYS);
    assert!(!s.is_visible && !s.should_switch && s.selected_index == -1);
    s.on_key_event(KeyEvent::Press(KEYS.alt_key), &KEYS);
    s.on_key_event(KeyEvent::Press(KEYS.tab_key), &KEYS);
    s.on_key_event(KeyEvent::Release(KEYS.tab_key), &KEYS);
    s.on_key_event(KeyEvent::Press(KEYS.tab_key), &KEYS);
    assert_eq!(s.selected_index, 1);
    assert!(s.is_visible && !s.should_switch);
    s.on_key_event(KeyEvent::Release(KEYS.alt_key), &KEYS);
    assert!(s.should_switch && s.is_visible && !s.alt_pressed);
    s.on_key_event(KeyEvent::Press(KEYS.tab_key), &KEYS);
    assert_eq!(s.selected_index, 1);
}

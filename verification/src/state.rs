//! The switcher's shared state and how key presses and the window's timers
//! change it.
//!
//! The key listener reports presses and releases of the grabbed keys; the
//! window's timers then ask what to draw and whether to switch workspace. Each
//! step here takes the state and what happened, and gives the next state and
//! what the window has to do.

use vstd::prelude::*;
use crate::tabs::{
    Tab, TabsList, has_tab_named, opt_text, position_of, spec_reordered,
    lemma_reorder_keeps_tabs, lemma_reorder_puts_current_first, lemma_reorder_moves_one_tab,
    is_first_named,
};
use crate::i3wm::{focus_workspace, focus_command_text};

verus! {

/// The key codes of the two keys that the switcher grabs.
pub struct KeyCodes {
    pub alt_key: u32,
    pub tab_key: u32,
}

/// A press or a release of the key with this code, as the key listener
/// reads it.
pub enum KeyEvent {
    Press(u32),
    Release(u32),
}

/// What the key listener and the window share.
pub struct SwitcherState {
    /// The switcher's window is wanted on screen.
    pub is_visible: bool,
    /// Alt was released after Alt+Tab: the selected workspace is to be focused.
    pub should_switch: bool,
    /// The tab selected by the Tab presses; -1 before the first press.
    pub selected_index: i8,
    /// The selection moved and the highlighted tab is to be updated.
    pub selected_index_changed: bool,
    /// The name of the highlighted tab.
    pub focused_tab_name: Option<String>,
    /// The name of the workspace that the switcher last focused.
    pub current_ws_name: Option<String>,
    /// Alt is held down.
    pub alt_pressed: bool,
}

/// What the window does once a switch was asked for.
pub struct SwitchAction {
    /// The tabs moved and are to be drawn again.
    pub rerender_tabs: bool,
    /// The workspace whose tab gets a fresh screenshot, taken now.
    pub capture: Option<String>,
    /// The i3 command to send, that focuses the selected workspace.
    pub focus_command: Option<String>,
}

/// What the window does on a refresh.
pub enum RefreshAction {
    /// Hide the window where it is shown.
    Hide,
    /// Show the window where it is hidden; where there are flags, highlight
    /// exactly the tabs whose flag is set.
    Show { highlighted: Option<Vec<bool>> },
}

/// The state after a press of the key `keycode`.
pub open spec fn spec_key_press(s: SwitcherState, keycode: u32, keys: KeyCodes) -> SwitcherState {
    let alt = s.alt_pressed || keycode == keys.alt_key;
    if keycode == keys.tab_key && alt {
        SwitcherState {
            alt_pressed: alt,
            is_visible: true,
            selected_index: (s.selected_index + 1) as i8,
            selected_index_changed: true,
            ..s
        }
    } else {
        SwitcherState { alt_pressed: alt, ..s }
    }
}

/// A press of `keycode` moves the selection one step.
pub open spec fn press_moves_selection(s: SwitcherState, keycode: u32, keys: KeyCodes) -> bool {
    keycode == keys.tab_key && (s.alt_pressed || keycode == keys.alt_key)
}

/// The state after a release of the key `keycode`.
pub open spec fn spec_key_release(s: SwitcherState, keycode: u32, keys: KeyCodes) -> SwitcherState {
    if keycode == keys.alt_key && s.alt_pressed {
        SwitcherState { should_switch: true, alt_pressed: false, ..s }
    } else {
        s
    }
}

/// A switch takes place on this timer step.
pub open spec fn switches(s: SwitcherState) -> bool {
    s.should_switch && s.is_visible
}

/// The state after the switching timer's step.
pub open spec fn spec_after_switch(s: SwitcherState) -> SwitcherState {
    if !s.should_switch {
        s
    } else if !s.is_visible {
        SwitcherState { should_switch: false, ..s }
    } else {
        SwitcherState {
            should_switch: false,
            is_visible: false,
            current_ws_name: match s.focused_tab_name {
                Some(name) => Some(name),
                None => s.current_ws_name,
            },
            selected_index: -1i8,
            selected_index_changed: true,
            ..s
        }
    }
}

/// The tabs after the switching timer's step: on a switch, the tab of the
/// workspace being left comes first.
pub open spec fn spec_tabs_after_switch<P>(s: SwitcherState, tabs: Seq<Tab<P>>) -> Seq<Tab<P>> {
    if switches(s) {
        spec_reordered(tabs, opt_text(s.current_ws_name))
    } else {
        tabs
    }
}

/// The selection brought back within the tabs: past the last tab it starts
/// over at the first, before the first it goes to the last. The tab count is
/// taken as an `i8`, as the selection is one.
pub open spec fn normalized_selection(selected: i8, tab_count: nat) -> i8 {
    if selected >= (tab_count as i8) {
        0
    } else if selected < 0 {
        ((tab_count as i8) - 1) as i8
    } else {
        selected
    }
}

/// The tab at position `i` is highlighted for the selection `selected`
/// (positions are compared as `i8`, as the selection is one).
pub open spec fn is_selected_at(i: int, selected: i8) -> bool {
    (i as i8) == selected
}

/// The last of the first `n` positions that is highlighted for `selected`.
pub open spec fn last_selected(n: nat, selected: i8) -> Option<int>
    decreases n,
{
    if n == 0 {
        None
    } else if is_selected_at(n - 1, selected) {
        Some(n - 1)
    } else {
        last_selected((n - 1) as nat, selected)
    }
}

/// The state after a refresh of the window over the tabs `tabs`.
pub open spec fn spec_refresh<P>(s: SwitcherState, tabs: Seq<Tab<P>>) -> SwitcherState {
    if s.is_visible && s.selected_index_changed {
        let sel = normalized_selection(s.selected_index, tabs.len());
        SwitcherState {
            selected_index: sel,
            selected_index_changed: false,
            focused_tab_name: match last_selected(tabs.len(), sel) {
                Some(i) => Some(tabs[i].name),
                None => s.focused_tab_name,
            },
            ..s
        }
    } else {
        s
    }
}

/// Of the tabs that a selection highlights, the one whose name is taken is the
/// last: no highlighted tab comes after it; where none is highlighted, none
/// is found.
pub proof fn lemma_last_selected_is_last(n: nat, selected: i8)
    ensures
        last_selected(n, selected) matches Some(p) ==> {
            &&& 0 <= p < n
            &&& is_selected_at(p, selected)
            &&& forall|j: int| p < j < n ==> !#[trigger] is_selected_at(j, selected)
        },
        last_selected(n, selected) is None ==> forall|j: int| 0 <= j < n ==> !#[trigger] is_selected_at(j, selected),
    decreases n,
{
    if n > 0 {
        lemma_last_selected_is_last((n - 1) as nat, selected);
    }
}

/// The position found is among the first `n`, and is highlighted.
pub proof fn lemma_last_selected_in_range(n: nat, selected: i8)
    ensures
        last_selected(n, selected) matches Some(i) ==> 0 <= i < n && is_selected_at(i, selected),
    decreases n,
{
    if n > 0 {
        lemma_last_selected_in_range((n - 1) as nat, selected);
    }
}

/// The position, among the first 256, that the selection `selected`
/// highlights: the one equal to it modulo 256.
pub open spec fn selected_position(selected: i8) -> int {
    if selected >= 0 {
        selected as int
    } else {
        selected + 256
    }
}

proof fn lemma_u8_cast_injective(x: u8, y: u8)
    by (bit_vector)
    requires
        (x as i8) == (y as i8),
    ensures
        x == y,
{
}

proof fn lemma_i8_through_u8(v: i8)
    by (bit_vector)
    requires
        v < 0,
    ensures
        ((v as u8) as i8) == v,
        (v as u8) == v + 256,
{
}

proof fn lemma_u16_256_as_i8(x: u16)
    by (bit_vector)
    requires
        x == 256,
    ensures
        (x as i8) == 0,
{
}

/// Among the first 256 positions, two that are equal as `i8` are equal.
proof fn lemma_position_cast_injective(i: int, j: int)
    requires
        0 <= i < 256,
        0 <= j < 256,
        (i as i8) == (j as i8),
    ensures
        i == j,
{
    let x = i as u8;
    let y = j as u8;
    assert(x == i);
    assert(y == j);
    assert((x as i8) == (i as i8));
    assert((y as i8) == (j as i8));
    lemma_u8_cast_injective(x, y);
}

/// Up to 256, a tab count taken as an `i8` keeps counts below 128 and takes
/// 256 away from the others.
pub proof fn lemma_count_as_i8(n: nat)
    requires
        n <= 256,
    ensures
        (n as i8) == if n < 128 { n as int } else { n - 256 },
{
    if n == 256 {
        let x = n as u16;
        assert(x == n);
        assert((x as i8) == (n as i8));
        lemma_u16_256_as_i8(x);
    } else if n >= 128 {
        let v = (n - 256) as i8;
        assert(v == n - 256);
        lemma_i8_through_u8(v);
        let x = v as u8;
        assert(x == n);
        assert((x as i8) == (n as i8));
    }
}

/// The selection highlights exactly its own position among the first 256.
pub proof fn lemma_selected_position(selected: i8)
    ensures
        0 <= selected_position(selected) < 256,
        is_selected_at(selected_position(selected), selected),
        forall|i: int| 0 <= i < 256 ==>
            (#[trigger] is_selected_at(i, selected) <==> i == selected_position(selected)),
{
    let p = selected_position(selected);
    if selected < 0 {
        lemma_i8_through_u8(selected);
        let x = selected as u8;
        assert(x == p);
        assert((x as i8) == (p as i8));
    }
    assert forall|i: int| 0 <= i < 256 implies
        (#[trigger] is_selected_at(i, selected) <==> i == p) by {
        if is_selected_at(i, selected) {
            lemma_position_cast_injective(i, p);
        }
    }
}

/// With at most 256 tabs, a selection whose position is among the tabs
/// highlights that tab and no other.
pub proof fn lemma_last_selected_unique(n: nat, selected: i8)
    requires
        n <= 256,
        selected_position(selected) < n,
    ensures
        last_selected(n, selected) == Some(selected_position(selected)),
    decreases n,
{
    lemma_selected_position(selected);
    if n - 1 != selected_position(selected) {
        assert(!is_selected_at(n - 1, selected));
        lemma_last_selected_unique((n - 1) as nat, selected);
    }
}

/// With 1 to 256 tabs, a refresh after the selection moved leaves it on
/// exactly one tab, highlights that tab alone and takes its name as the one to
/// switch to. With up to 127 tabs the selection is that tab's position itself;
/// with more, the position is the selection modulo 256.
pub proof fn lemma_refresh_selects_a_tab<P>(s: SwitcherState, tabs: Seq<Tab<P>>)
    requires
        s.is_visible,
        s.selected_index_changed,
        1 <= tabs.len() <= 256,
    ensures
        ({
            let after = spec_refresh(s, tabs);
            let p = selected_position(after.selected_index);
            &&& 0 <= p < tabs.len()
            &&& tabs.len() <= 127 ==> p == after.selected_index
            &&& after.focused_tab_name == Some(tabs[p].name)
            &&& !after.selected_index_changed
            &&& forall|i: int| 0 <= i < tabs.len() ==>
                (#[trigger] is_selected_at(i, after.selected_index) <==> i == p)
        }),
{
    lemma_count_as_i8(tabs.len());
    let sel = normalized_selection(s.selected_index, tabs.len());
    lemma_selected_position(sel);
    assert(selected_position(sel) < tabs.len());
    lemma_last_selected_unique(tabs.len(), sel);
}

/// With 1 to 127 tabs, each Tab press while the switcher is shown moves the
/// highlight to the next tab, from the last one back to the first.
pub proof fn lemma_tab_press_selects_next<P>(s: SwitcherState, tabs: Seq<Tab<P>>, keys: KeyCodes)
    requires
        s.alt_pressed,
        s.is_visible,
        !s.selected_index_changed,
        1 <= tabs.len() <= 127,
        0 <= s.selected_index < tabs.len(),
    ensures
        spec_refresh(spec_key_press(s, keys.tab_key, keys), tabs).selected_index
            == (s.selected_index + 1) % (tabs.len() as int),
{
    let next = s.selected_index + 1;
    assert((tabs.len() as int) as i8 == tabs.len());
    assert((next as i8) == next);
    if next == tabs.len() {
        assert(next % (tabs.len() as int) == 0) by (nonlinear_arith)
            requires next == tabs.len(), next > 0;
    } else {
        assert(next % (tabs.len() as int) == next) by (nonlinear_arith)
            requires 0 < next < tabs.len();
    }
}

/// On a switch with at least two tabs, the first tab named after the
/// workspace being left is taken out and put first, and every other tab keeps
/// its order behind it. Without a switch, without such a tab, without a
/// current workspace or with fewer than two tabs, the tabs do not change.
pub proof fn lemma_switch_moves_left_tab_first<P>(s: SwitcherState, tabs: Seq<Tab<P>>)
    ensures
        forall|i: int| switches(s) && opt_text(s.current_ws_name) is Some && tabs.len() >= 2
            && #[trigger] is_first_named(tabs, opt_text(s.current_ws_name).unwrap(), i) ==> {
            let r = spec_tabs_after_switch(s, tabs);
            &&& r.len() == tabs.len()
            &&& r[0] == tabs[i]
            &&& forall|j: int| 0 < j <= i ==> r[j] == tabs[j - 1]
            &&& forall|j: int| i < j < tabs.len() ==> r[j] == tabs[j]
            &&& r.subrange(1, r.len() as int) == tabs.remove(i)
        },
        (!switches(s) || opt_text(s.current_ws_name) is None || tabs.len() < 2
            || !has_tab_named(tabs, opt_text(s.current_ws_name).unwrap()))
            ==> spec_tabs_after_switch(s, tabs) == tabs,
{
    if let Some(name) = opt_text(s.current_ws_name) {
        lemma_reorder_moves_one_tab(tabs, name);
    }
}

/// Releasing Alt asks for one switch only: a second release does nothing more.
pub proof fn lemma_release_asks_once(s: SwitcherState, keys: KeyCodes)
    ensures
        spec_key_release(spec_key_release(s, keys.alt_key, keys), keys.alt_key, keys)
            == spec_key_release(s, keys.alt_key, keys),
        !s.alt_pressed ==> spec_key_release(s, keys.alt_key, keys) == s,
{
}

/// A switch that was asked for takes place once: the next timer step does
/// nothing.
pub proof fn lemma_switch_once<P>(s: SwitcherState, tabs: Seq<Tab<P>>)
    ensures
        spec_after_switch(spec_after_switch(s)) == spec_after_switch(s),
        !switches(spec_after_switch(s)),
        spec_tabs_after_switch(spec_after_switch(s), tabs) == tabs,
{
}

/// Alt+Tab goes back to the workspace left last: after a switch away from the
/// workspace `left`, pressing Alt and Tab once highlights `left`'s tab, so
/// that releasing Alt focuses it again.
pub proof fn lemma_alt_tab_returns_to_previous<P>(
    s: SwitcherState,
    tabs: Seq<Tab<P>>,
    keys: KeyCodes,
    left: Seq<char>,
)
    requires
        switches(s),
        opt_text(s.current_ws_name) == Some(left),
        has_tab_named(tabs, left),
        2 <= tabs.len() <= 256,
        keys.alt_key != keys.tab_key,
    ensures
        ({
            let after = spec_after_switch(s);
            let tabs_after = spec_tabs_after_switch(s, tabs);
            let pressed = spec_key_press(spec_key_press(after, keys.alt_key, keys), keys.tab_key, keys);
            let shown = spec_refresh(pressed, tabs_after);
            &&& shown.selected_index == 0
            &&& opt_text(shown.focused_tab_name) == Some(left)
        }),
{
    let tabs_after = spec_tabs_after_switch(s, tabs);
    lemma_reorder_keeps_tabs(tabs, Some(left));
    lemma_reorder_puts_current_first(tabs, left);
    assert(tabs_after[0].name@ == left);
    let after = spec_after_switch(s);
    let pressed = spec_key_press(spec_key_press(after, keys.alt_key, keys), keys.tab_key, keys);
    assert(pressed.selected_index == 0);
    lemma_refresh_selects_a_tab(pressed, tabs_after);
    lemma_count_as_i8(tabs_after.len());
}

/// The state after one key event.
pub open spec fn spec_key_event(s: SwitcherState, event: KeyEvent, keys: KeyCodes) -> SwitcherState {
    match event {
        KeyEvent::Press(code) => spec_key_press(s, code, keys),
        KeyEvent::Release(code) => spec_key_release(s, code, keys),
    }
}

/// The state after the key events `events`, in order.
pub open spec fn spec_key_events(s: SwitcherState, events: Seq<KeyEvent>, keys: KeyCodes) -> SwitcherState
    decreases events.len(),
{
    if events.len() == 0 {
        s
    } else {
        spec_key_event(spec_key_events(s, events.drop_last(), keys), events.last(), keys)
    }
}

/// The event is a press of Alt.
pub open spec fn is_alt_press(event: KeyEvent, keys: KeyCodes) -> bool {
    event matches KeyEvent::Press(code) && code == keys.alt_key
}

/// The event is a release of Alt.
pub open spec fn is_alt_release(event: KeyEvent, keys: KeyCodes) -> bool {
    event matches KeyEvent::Release(code) && code == keys.alt_key
}

/// The event is a press of Tab.
pub open spec fn is_tab_press(event: KeyEvent, keys: KeyCodes) -> bool {
    event matches KeyEvent::Press(code) && code == keys.tab_key
}

/// After `events`, Alt is held: some press of Alt has no release of Alt after
/// it, or Alt was held before and has not been released since.
pub open spec fn alt_held(initially: bool, events: Seq<KeyEvent>, keys: KeyCodes) -> bool {
    ||| exists|i: int| 0 <= i < events.len() && #[trigger] is_alt_press(events[i], keys)
        && forall|j: int| i < j < events.len() ==> !#[trigger] is_alt_release(events[j], keys)
    ||| initially && forall|j: int| 0 <= j < events.len() ==> !#[trigger] is_alt_release(events[j], keys)
}

/// The listener's Alt flag follows the events: Alt is held exactly when a
/// press of Alt was not followed by a release of Alt.
pub proof fn lemma_alt_flag_follows_events(s: SwitcherState, events: Seq<KeyEvent>, keys: KeyCodes)
    ensures
        spec_key_events(s, events, keys).alt_pressed == alt_held(s.alt_pressed, events, keys),
    decreases events.len(),
{
    if events.len() > 0 {
        let pre = events.drop_last();
        let e = events.last();
        let n = events.len() - 1;
        lemma_alt_flag_follows_events(s, pre, keys);
        assert forall|j: int| 0 <= j < n implies #[trigger] events[j] == pre[j] by {}
        if is_alt_release(e, keys) {
            assert(!alt_held(s.alt_pressed, events, keys)) by {
                assert(is_alt_release(events[n], keys));
                if exists|i: int| 0 <= i < events.len() && #[trigger] is_alt_press(events[i], keys)
                    && forall|j: int| i < j < events.len() ==> !#[trigger] is_alt_release(events[j], keys) {
                    let i = choose|i: int| 0 <= i < events.len() && #[trigger] is_alt_press(events[i], keys)
                        && forall|j: int| i < j < events.len() ==> !#[trigger] is_alt_release(events[j], keys);
                    if i < n {
                        assert(!is_alt_release(events[n], keys));
                    }
                }
            }
        } else if is_alt_press(e, keys) {
            assert(is_alt_press(events[n], keys));
            assert(alt_held(s.alt_pressed, events, keys));
        } else {
            assert(!is_alt_press(events[n], keys) && !is_alt_release(events[n], keys));
            if alt_held(s.alt_pressed, pre, keys) {
                if exists|i: int| 0 <= i < pre.len() && #[trigger] is_alt_press(pre[i], keys)
                    && forall|j: int| i < j < pre.len() ==> !#[trigger] is_alt_release(pre[j], keys) {
                    let i = choose|i: int| 0 <= i < pre.len() && #[trigger] is_alt_press(pre[i], keys)
                        && forall|j: int| i < j < pre.len() ==> !#[trigger] is_alt_release(pre[j], keys);
                    assert(is_alt_press(events[i], keys));
                    assert forall|j: int| i < j < events.len() implies !#[trigger] is_alt_release(events[j], keys) by {
                        if j < n {
                            assert(!is_alt_release(pre[j], keys));
                        }
                    }
                } else {
                    assert forall|j: int| 0 <= j < events.len() implies !#[trigger] is_alt_release(events[j], keys) by {
                        if j < n {
                            assert(!is_alt_release(pre[j], keys));
                        }
                    }
                }
                assert(alt_held(s.alt_pressed, events, keys));
            } else {
                if alt_held(s.alt_pressed, events, keys) {
                    if exists|i: int| 0 <= i < events.len() && #[trigger] is_alt_press(events[i], keys)
                        && forall|j: int| i < j < events.len() ==> !#[trigger] is_alt_release(events[j], keys) {
                        let i = choose|i: int| 0 <= i < events.len() && #[trigger] is_alt_press(events[i], keys)
                            && forall|j: int| i < j < events.len() ==> !#[trigger] is_alt_release(events[j], keys);
                        assert(i < n);
                        assert(is_alt_press(pre[i], keys));
                        assert forall|j: int| i < j < pre.len() implies !#[trigger] is_alt_release(pre[j], keys) by {
                            assert(!is_alt_release(events[j], keys));
                        }
                    } else {
                        assert forall|j: int| 0 <= j < pre.len() implies !#[trigger] is_alt_release(pre[j], keys) by {
                            assert(!is_alt_release(events[j], keys));
                        }
                    }
                    assert(false);
                }
            }
        }
    }
}

/// Key events never hide the switcher and never withdraw a switch that was
/// asked for.
pub proof fn lemma_key_events_monotone(s: SwitcherState, events: Seq<KeyEvent>, keys: KeyCodes)
    ensures
        s.is_visible ==> spec_key_events(s, events, keys).is_visible,
        s.should_switch ==> spec_key_events(s, events, keys).should_switch,
    decreases events.len(),
{
    if events.len() > 0 {
        lemma_key_events_monotone(s, events.drop_last(), keys);
    }
}

/// What the key listener does over any sequence of key events: a switch is
/// asked for only on a release of Alt while Alt is held after an earlier
/// press of it; the selection moves, and the switcher is shown, exactly on a
/// press of Tab while Alt is held (a press of Alt counts as holding it); and
/// no key event ever hides the switcher.
pub proof fn lemma_key_event_sequence(s: SwitcherState, events: Seq<KeyEvent>, keys: KeyCodes)
    ensures
        spec_key_events(s, events, keys).alt_pressed == alt_held(s.alt_pressed, events, keys),
        s.is_visible ==> spec_key_events(s, events, keys).is_visible,
        forall|k: int| 0 <= k < events.len() ==> {
            let before = #[trigger] spec_key_events(s, events.take(k), keys);
            let after = spec_key_events(s, events.take(k + 1), keys);
            &&& (!before.should_switch && after.should_switch) ==> {
                &&& is_alt_release(events[k], keys)
                &&& alt_held(s.alt_pressed, events.take(k), keys)
            }
            &&& (is_tab_press(events[k], keys) && alt_held(s.alt_pressed, events.take(k + 1), keys)) ==> {
                &&& after.is_visible
                &&& after.selected_index == (before.selected_index + 1) as i8
                &&& after.selected_index_changed
            }
            &&& !(is_tab_press(events[k], keys) && alt_held(s.alt_pressed, events.take(k + 1), keys)) ==> {
                &&& after.is_visible == before.is_visible
                &&& after.selected_index == before.selected_index
                &&& after.selected_index_changed == before.selected_index_changed
            }
            &&& after.is_visible || !before.is_visible
        },
{
    lemma_alt_flag_follows_events(s, events, keys);
    lemma_key_events_monotone(s, events, keys);
    assert forall|k: int| 0 <= k < events.len() implies {
        let before = #[trigger] spec_key_events(s, events.take(k), keys);
        let after = spec_key_events(s, events.take(k + 1), keys);
        &&& (!before.should_switch && after.should_switch) ==> {
            &&& is_alt_release(events[k], keys)
            &&& alt_held(s.alt_pressed, events.take(k), keys)
        }
        &&& (is_tab_press(events[k], keys) && alt_held(s.alt_pressed, events.take(k + 1), keys)) ==> {
            &&& after.is_visible
            &&& after.selected_index == (before.selected_index + 1) as i8
            &&& after.selected_index_changed
        }
        &&& !(is_tab_press(events[k], keys) && alt_held(s.alt_pressed, events.take(k + 1), keys)) ==> {
            &&& after.is_visible == before.is_visible
            &&& after.selected_index == before.selected_index
            &&& after.selected_index_changed == before.selected_index_changed
        }
        &&& after.is_visible || !before.is_visible
    } by {
        let pre = events.take(k);
        let cur = events.take(k + 1);
        assert(cur.drop_last() =~= pre);
        assert(cur.last() == events[k]);
        lemma_alt_flag_follows_events(s, pre, keys);
        lemma_alt_flag_follows_events(s, cur, keys);
    }
}

/// One Alt+Tab switches to the first tab: from a quiet state, with Alt not
/// held and nothing selected, pressing Alt and Tab, refreshing, releasing Alt
/// and letting the switching timer run focuses the first tab's workspace,
/// puts the tab of the workspace left first, hides the switcher and clears
/// the selection. Stated for 2 to 256 tabs.
pub proof fn lemma_one_alt_tab_switches_to_first_tab<P>(
    s: SwitcherState,
    tabs: Seq<Tab<P>>,
    keys: KeyCodes,
    left: Seq<char>,
)
    requires
        !s.alt_pressed,
        s.selected_index == -1,
        keys.alt_key != keys.tab_key,
        2 <= tabs.len() <= 256,
        opt_text(s.current_ws_name) == Some(left),
        has_tab_named(tabs, left),
    ensures
        ({
            let pressed = spec_key_press(spec_key_press(s, keys.alt_key, keys), keys.tab_key, keys);
            let shown = spec_refresh(pressed, tabs);
            let released = spec_key_release(shown, keys.alt_key, keys);
            let after = spec_after_switch(released);
            let tabs_after = spec_tabs_after_switch(released, tabs);
            &&& switches(released)
            &&& opt_text(released.focused_tab_name) == Some(tabs[0].name@)
            &&& opt_text(after.current_ws_name) == Some(tabs[0].name@)
            &&& tabs_after[0].name@ == left
            &&& !after.is_visible
            &&& !after.should_switch
            &&& after.selected_index == -1
        }),
{
    let pressed = spec_key_press(spec_key_press(s, keys.alt_key, keys), keys.tab_key, keys);
    assert(pressed.selected_index == 0);
    lemma_refresh_selects_a_tab(pressed, tabs);
    lemma_count_as_i8(tabs.len());
    lemma_reorder_puts_current_first(tabs, left);
}

impl SwitcherState {
    /// The state at start: nothing shown, nothing selected, nothing known.
    pub fn new() -> (s: Self)
        ensures
            !s.is_visible,
            !s.should_switch,
            s.selected_index == -1,
            !s.selected_index_changed,
            s.focused_tab_name is None,
            s.current_ws_name is None,
            !s.alt_pressed,
    {
        SwitcherState {
            is_visible: false,
            should_switch: false,
            selected_index: -1,
            selected_index_changed: false,
            focused_tab_name: None,
            current_ws_name: None,
            alt_pressed: false,
        }
    }

    /// A grabbed key was pressed. Alt is noted as held; Tab with Alt held shows
    /// the switcher and moves the selection one step.
    pub fn on_key_press(&mut self, keycode: u32, keys: &KeyCodes)
        requires
            press_moves_selection(*old(self), keycode, *keys) ==> old(self).selected_index < i8::MAX,
        ensures
            *final(self) == spec_key_press(*old(self), keycode, *keys),
    {
        if keycode == keys.alt_key {
            self.alt_pressed = true;
        }
        if keycode == keys.tab_key && self.alt_pressed {
            self.is_visible = true;
            self.selected_index = self.selected_index + 1;
            self.selected_index_changed = true;
        }
    }

    /// A key event read by the listener: a press or a release.
    pub fn on_key_event(&mut self, event: KeyEvent, keys: &KeyCodes)
        requires
            event matches KeyEvent::Press(code)
                ==> (press_moves_selection(*old(self), code, *keys) ==> old(self).selected_index < i8::MAX),
        ensures
            *final(self) == spec_key_event(*old(self), event, *keys),
    {
        match event {
            KeyEvent::Press(code) => self.on_key_press(code, keys),
            KeyEvent::Release(code) => self.on_key_release(code, keys),
        }
    }

    /// A grabbed key was released. Releasing a held Alt asks for a switch to
    /// the selected workspace.
    pub fn on_key_release(&mut self, keycode: u32, keys: &KeyCodes)
        ensures
            *final(self) == spec_key_release(*old(self), keycode, *keys),
    {
        if keycode == keys.alt_key && self.alt_pressed {
            self.should_switch = true;
            self.alt_pressed = false;
        }
    }

    /// The switching timer's step. Where a switch was asked for while the
    /// switcher is shown, the switcher is hidden, the tab of the workspace
    /// being left moves to the front, the selected workspace becomes the
    /// current one and the selection starts over; the window then redraws the
    /// tabs if asked, takes the screenshot asked for and sends the focus
    /// command. Returns `None` where there is no switch.
    pub fn begin_switch<P>(&mut self, tabs: &mut TabsList<P>) -> (action: Option<SwitchAction>)
        ensures
            *final(self) == spec_after_switch(*old(self)),
            final(tabs).tabs_vec@ == spec_tabs_after_switch(*old(self), old(tabs).tabs_vec@),
            forall|i: int| switches(*old(self)) && opt_text(old(self).current_ws_name) is Some
                && old(tabs).tabs_vec@.len() >= 2
                && #[trigger] is_first_named(old(tabs).tabs_vec@, opt_text(old(self).current_ws_name).unwrap(), i)
                ==> {
                &&& final(tabs).tabs_vec@.len() == old(tabs).tabs_vec@.len()
                &&& final(tabs).tabs_vec@[0] == old(tabs).tabs_vec@[i]
                &&& final(tabs).tabs_vec@.subrange(1, final(tabs).tabs_vec@.len() as int)
                    == old(tabs).tabs_vec@.remove(i)
            },
            (!switches(*old(self)) || opt_text(old(self).current_ws_name) is None
                || old(tabs).tabs_vec@.len() < 2
                || !has_tab_named(old(tabs).tabs_vec@, opt_text(old(self).current_ws_name).unwrap()))
                ==> final(tabs).tabs_vec@ == old(tabs).tabs_vec@,
            action is Some <==> switches(*old(self)),
            action matches Some(a) ==> {
                &&& a.rerender_tabs == (old(tabs).tabs_vec@.len() >= 2
                    && match opt_text(old(self).current_ws_name) {
                        Some(n) => position_of(old(tabs).tabs_vec@, n) is Some,
                        None => false,
                    })
                &&& opt_text(a.capture) == opt_text(old(self).current_ws_name)
                &&& opt_text(a.focus_command) == match old(self).focused_tab_name {
                    Some(n) => Some(focus_command_text(n@)),
                    None => None,
                }
            },
    {
        proof {
            lemma_switch_moves_left_tab_first(*old(self), old(tabs).tabs_vec@);
        }
        if !self.should_switch {
            return None;
        }
        self.should_switch = false;
        if !self.is_visible {
            return None;
        }
        self.is_visible = false;
        let rerender_tabs = tabs.reorder_prev_first(&self.current_ws_name);
        let capture = self.current_ws_name.clone();
        let focus_command = match &self.focused_tab_name {
            Some(name) => {
                let name = name.clone();
                let command = focus_workspace(name.clone());
                self.current_ws_name = Some(name);
                Some(command)
            },
            None => None,
        };
        self.selected_index = -1;
        self.selected_index_changed = true;
        Some(SwitchAction { rerender_tabs, capture, focus_command })
    }

    /// The refreshing timer's step. A hidden switcher hides its window. A
    /// shown one shows it, and where the selection moved, brings it back
    /// within the tabs, highlights the selected tab and takes its name as the
    /// one to switch to.
    pub fn refresh<P>(&mut self, tabs: &TabsList<P>) -> (action: RefreshAction)
        ensures
            *final(self) == spec_refresh(*old(self), tabs.tabs_vec@),
            (old(self).is_visible && old(self).selected_index_changed) ==> {
                ||| exists|p: int| 0 <= p < tabs.tabs_vec@.len()
                    && #[trigger] is_selected_at(p, final(self).selected_index)
                    && (forall|j: int| p < j < tabs.tabs_vec@.len()
                        ==> !#[trigger] is_selected_at(j, final(self).selected_index))
                    && final(self).focused_tab_name == Some(tabs.tabs_vec@[p].name)
                ||| (forall|j: int| 0 <= j < tabs.tabs_vec@.len()
                        ==> !#[trigger] is_selected_at(j, final(self).selected_index))
                    && final(self).focused_tab_name == old(self).focused_tab_name
            },
            !old(self).is_visible ==> action is Hide,
            old(self).is_visible ==> (action matches RefreshAction::Show { highlighted } && {
                &&& (highlighted is Some <==> old(self).selected_index_changed)
                &&& (highlighted matches Some(flags) ==> {
                    &&& flags@.len() == tabs.tabs_vec@.len()
                    &&& forall|i: int| 0 <= i < flags@.len() ==>
                        #[trigger] flags@[i] == is_selected_at(i, final(self).selected_index)
                })
            }),
    {
        if !self.is_visible {
            return RefreshAction::Hide;
        }
        if !self.selected_index_changed {
            return RefreshAction::Show { highlighted: None };
        }
        proof {
            let sel = normalized_selection(old(self).selected_index, tabs.tabs_vec@.len());
            lemma_last_selected_is_last(tabs.tabs_vec@.len(), sel);
        }
        let len = tabs.tabs_vec.len();
        let count = #[verifier::truncate] (len as i8);
        if self.selected_index >= count {
            self.selected_index = 0;
        } else if self.selected_index < 0 {
            self.selected_index = count - 1;
        }
        let sel = self.selected_index;
        let mut flags: Vec<bool> = Vec::new();
        let mut found: Option<usize> = None;
        for k in 0..len
            invariant
                len == tabs.tabs_vec@.len(),
                flags@.len() == k,
                forall|i: int| 0 <= i < k ==> #[trigger] flags@[i] == is_selected_at(i, sel),
                match found {
                    Some(f) => last_selected(k as nat, sel) == Some(f as int),
                    None => last_selected(k as nat, sel) is None,
                },
        {
            let hit = (#[verifier::truncate] (k as i8)) == sel;
            flags.push(hit);
            if hit {
                found = Some(k);
            }
            assert(last_selected((k + 1) as nat, sel) == if is_selected_at(k as int, sel) {
                Some(k as int)
            } else {
                last_selected(k as nat, sel)
            });
        }
        proof {
            lemma_last_selected_in_range(len as nat, sel);
        }
        match found {
            Some(f) => {
                self.focused_tab_name = Some(tabs.tabs_vec[f].name.clone());
            },
            None => {},
        }
        self.selected_index_changed = false;
        RefreshAction::Show { highlighted: Some(flags) }
    }
}

} // verus!

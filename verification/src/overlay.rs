//! The switcher's plain overlay window: one frame per workspace, showing the
//! workspace's screenshot file, with the selected frame marked. Here the
//! listener only shows and hides the overlay, and the window's key handler
//! does the switch when Alt is let go.

use vstd::prelude::*;
use vstd::string::*;
use crate::i3wm::{focus_command_text, focus_workspace, move_command_text, move_window_command};
use crate::screenshot::{screenshot_path, screenshot_path_text};
use crate::state::{is_selected_at, lemma_last_selected_is_last, last_selected, lemma_last_selected_in_range, lemma_last_selected_unique,
    lemma_selected_position, selected_position};
use crate::tabs::opt_text;

verus! {

/// What the overlay's listener and window share.
pub struct OverlayState {
    /// The overlay is wanted on screen.
    pub is_visible: bool,
    /// The selected workspace's position; -1 where none is selected.
    pub selected_index: i8,
    /// The name of the selected workspace.
    pub focused_ws_name: Option<String>,
    /// The name of the workspace that the overlay last focused.
    pub current_ws_name: Option<String>,
}

/// What the window does when Alt is let go.
pub struct OverlaySwitch {
    /// The file to save a screenshot of the screen to, for the workspace being
    /// left.
    pub capture_path: Option<String>,
    /// The i3 command to send, that focuses the selected workspace.
    pub focus_command: Option<String>,
}

/// The title of the overlay window: the switcher's title, which i3 is set to
/// float, so that the window can be moved to the centre.
pub open spec fn overlay_title() -> Seq<char> {
    "i3switcherX11"@
}

/// The state after the window saw the key named `key_name` let go.
pub open spec fn spec_key_released(s: OverlayState, key_name: Seq<char>) -> OverlayState {
    if key_name == "Alt_L"@ {
        OverlayState {
            is_visible: false,
            selected_index: -1i8,
            current_ws_name: match s.focused_ws_name {
                Some(name) => Some(name),
                None => s.current_ws_name,
            },
            ..s
        }
    } else {
        s
    }
}

/// The selection brought back to the first workspace where it is before the
/// first or past the last one.
pub open spec fn overlay_selection(selected: i8, count: nat) -> i8 {
    if selected < 0 || selected >= count { 0 } else { selected }
}

/// The state after the overlay was drawn for the workspaces `names`.
pub open spec fn spec_select_workspace(s: OverlayState, names: Seq<String>) -> OverlayState {
    let sel = overlay_selection(s.selected_index, names.len());
    OverlayState {
        selected_index: sel,
        focused_ws_name: match last_selected(names.len(), sel) {
            Some(i) => Some(names[i]),
            None => s.focused_ws_name,
        },
        ..s
    }
}

/// Half of `v`, rounded toward zero as integer division does.
pub open spec fn half_toward_zero(v: int) -> int {
    if v >= 0 { v / 2 } else { -((-v) / 2) }
}

/// With 1 to 256 workspaces, drawing the overlay leaves the selection on a
/// workspace, marks that workspace's frame alone, and takes its name as the
/// one to switch to.
pub proof fn lemma_overlay_selects_a_workspace(s: OverlayState, names: Seq<String>)
    requires
        1 <= names.len() <= 256,
    ensures
        ({
            let after = spec_select_workspace(s, names);
            &&& 0 <= after.selected_index < names.len()
            &&& after.focused_ws_name == Some(names[after.selected_index as int])
            &&& forall|i: int| 0 <= i < names.len() ==>
                (#[trigger] is_selected_at(i, after.selected_index) <==> i == after.selected_index)
        }),
{
    let sel = overlay_selection(s.selected_index, names.len());
    lemma_selected_position(sel);
    assert(selected_position(sel) == sel);
    lemma_last_selected_unique(names.len(), sel);
}

/// Drawing the overlay brings a selection before the first workspace or past
/// the last one back to the first, and keeps one within them. With up to 256
/// workspaces, the selected workspace's frame alone is marked and its name is
/// the one to switch to.
pub proof fn lemma_overlay_selection_law(s: OverlayState, names: Seq<String>)
    requires
        names.len() >= 1,
    ensures
        (s.selected_index < 0 || s.selected_index >= names.len())
            ==> spec_select_workspace(s, names).selected_index == 0,
        (0 <= s.selected_index < names.len())
            ==> spec_select_workspace(s, names).selected_index == s.selected_index,
        names.len() <= 256 ==> {
            let after = spec_select_workspace(s, names);
            &&& after.focused_ws_name == Some(names[after.selected_index as int])
            &&& forall|i: int| 0 <= i < names.len() ==>
                (#[trigger] is_selected_at(i, after.selected_index) <==> i == after.selected_index)
        },
{
    if names.len() <= 256 {
        lemma_overlay_selects_a_workspace(s, names);
    }
}

impl OverlayState {
    /// The state at start: hidden, nothing selected, nothing known.
    pub fn new() -> (s: Self)
        ensures
            !s.is_visible,
            s.selected_index == -1,
            s.focused_ws_name is None,
            s.current_ws_name is None,
    {
        OverlayState {
            is_visible: false,
            selected_index: -1,
            focused_ws_name: None,
            current_ws_name: None,
        }
    }

    /// The grabbed Alt+Tab was pressed: the overlay is wanted on screen.
    pub fn on_grabbed_key_press(&mut self)
        ensures
            *final(self) == (OverlayState { is_visible: true, ..*old(self) }),
    {
        self.is_visible = true;
    }

    /// A grabbed key was released: releasing Alt hides the overlay.
    pub fn on_grabbed_key_release(&mut self, keycode: u32, alt_key: u32)
        ensures
            *final(self) == if keycode == alt_key {
                OverlayState { is_visible: false, ..*old(self) }
            } else {
                *old(self)
            },
    {
        if keycode == alt_key {
            self.is_visible = false;
        }
    }

    /// The window saw the key named `key_name` let go. Letting go of the left
    /// Alt hides the overlay, clears the selection, has a screenshot of the
    /// workspace being left saved, and switches to the selected workspace.
    /// Returns `None` for any other key.
    pub fn on_key_released(&mut self, key_name: &str) -> (action: Option<OverlaySwitch>)
        ensures
            *final(self) == spec_key_released(*old(self), key_name@),
            action is Some <==> key_name@ == "Alt_L"@,
            action matches Some(a) ==> {
                &&& opt_text(a.capture_path) == match old(self).current_ws_name {
                    Some(n) => Some(screenshot_path_text(n@)),
                    None => None,
                }
                &&& opt_text(a.focus_command) == match old(self).focused_ws_name {
                    Some(n) => Some(focus_command_text(n@)),
                    None => None,
                }
            },
    {
        let name = String::from_str(key_name);
        let alt = String::from_str("Alt_L");
        if !(name == alt) {
            return None;
        }
        self.is_visible = false;
        self.selected_index = -1;
        let capture_path = match &self.current_ws_name {
            Some(current) => Some(screenshot_path(current.as_str())),
            None => None,
        };
        let focus_command = match &self.focused_ws_name {
            Some(focused) => {
                let focused = focused.clone();
                let command = focus_workspace(focused.clone());
                self.current_ws_name = Some(focused);
                Some(command)
            },
            None => None,
        };
        Some(OverlaySwitch { capture_path, focus_command })
    }

    /// The overlay is drawn for the workspaces named `ws_names`: the selection
    /// is brought back within them, and the selected workspace's name is kept
    /// as the one to switch to. Returns, for each workspace, whether its frame
    /// is marked as selected.
    pub fn select_workspace(&mut self, ws_names: &Vec<String>) -> (marked: Vec<bool>)
        requires
            ws_names@.len() >= 1,
        ensures
            *final(self) == spec_select_workspace(*old(self), ws_names@),
            (old(self).selected_index < 0 || old(self).selected_index >= ws_names@.len())
                ==> final(self).selected_index == 0,
            (0 <= old(self).selected_index < ws_names@.len())
                ==> final(self).selected_index == old(self).selected_index,
            ({
            ||| exists|p: int| 0 <= p < ws_names@.len()
                && #[trigger] is_selected_at(p, final(self).selected_index)
                && (forall|j: int| p < j < ws_names@.len()
                    ==> !#[trigger] is_selected_at(j, final(self).selected_index))
                && final(self).focused_ws_name == Some(ws_names@[p])
            ||| (forall|j: int| 0 <= j < ws_names@.len()
                    ==> !#[trigger] is_selected_at(j, final(self).selected_index))
                && final(self).focused_ws_name == old(self).focused_ws_name
            }),
            marked@.len() == ws_names@.len(),
            forall|i: int| 0 <= i < marked@.len() ==>
                #[trigger] marked@[i] == is_selected_at(i, final(self).selected_index),
    {
        proof {
            let sel = overlay_selection(old(self).selected_index, ws_names@.len());
            lemma_last_selected_is_last(ws_names@.len(), sel);
        }
        let len = ws_names.len();
        if self.selected_index < 0 || self.selected_index as usize > len - 1 {
            self.selected_index = 0;
        }
        let sel = self.selected_index;
        let mut marked: Vec<bool> = Vec::new();
        let mut found: Option<usize> = None;
        for k in 0..len
            invariant
                len == ws_names@.len(),
                marked@.len() == k,
                forall|i: int| 0 <= i < k ==> #[trigger] marked@[i] == is_selected_at(i, sel),
                match found {
                    Some(f) => last_selected(k as nat, sel) == Some(f as int),
                    None => last_selected(k as nat, sel) is None,
                },
        {
            let hit = (#[verifier::truncate] (k as i8)) == sel;
            marked.push(hit);
            if hit {
                found = Some(k);
            }
            assert(last_selected((k + 1) as nat, sel) == if is_selected_at(k as int, sel) {
                Some(k as int)
            } else {
                last_selected(k as nat, sel)
            });
        }
        proof {
            lemma_last_selected_in_range(len as nat, sel);
        }
        match found {
            Some(f) => {
                self.focused_ws_name = Some(ws_names[f].clone());
                assert(is_selected_at(f as int, self.selected_index));
            },
            None => {},
        }
        marked
    }
}

/// The i3 command that moves the overlay window, `window_width` by
/// `window_height`, to the centre of a screen of `screen_width` by
/// `screen_height`.
pub fn center_command(screen_width: i32, screen_height: i32, window_width: i32, window_height: i32)
    -> (command: String)
    requires
        i32::MIN <= screen_width - window_width <= i32::MAX,
        i32::MIN <= screen_height - window_height <= i32::MAX,
    ensures
        command@ == move_command_text(
            overlay_title(),
            half_toward_zero(screen_width - window_width),
            half_toward_zero(screen_height - window_height),
        ),
{
    let x = (screen_width - window_width) / 2;
    let y = (screen_height - window_height) / 2;
    move_window_command("i3switcherX11", x, y)
}

} // verus!

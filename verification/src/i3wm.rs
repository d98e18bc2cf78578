//! The commands that the switcher sends to i3.

use vstd::prelude::*;
use vstd::string::*;
use crate::text::{append_decimal_i32, decimal_int};

verus! {

/// The i3 command that switches to the workspace named `ws_name`.
pub open spec fn focus_command_text(ws_name: Seq<char>) -> Seq<char> {
    "workspace "@ + ws_name
}

/// The i3 command that moves the window titled `title` to the position
/// (`x`, `y`), the numbers written in decimal.
pub open spec fn move_command_text(title: Seq<char>, x: int, y: int) -> Seq<char> {
    "[title=\""@ + title + "\"] move window to position "@ + decimal_int(x) + " "@ + decimal_int(y)
}

/// The title of the switcher's window.
pub open spec fn window_title() -> Seq<char> {
    "i3switcherX11"@
}

/// The i3 command that brings the workspace named `ws_name` into focus.
/// Sending it over the i3 connection is left to the caller.
pub fn focus_workspace(ws_name: String) -> (command: String)
    ensures
        command@ == focus_command_text(ws_name@),
{
    let mut command = String::from_str("workspace ");
    command.append(ws_name.as_str());
    command
}

/// The i3 command that moves the window titled `title` to (`x`, `y`).
pub fn move_window_command(title: &str, x: i32, y: i32) -> (command: String)
    ensures
        command@ == move_command_text(title@, x as int, y as int),
{
    let mut command = String::from_str("[title=\"");
    command.append(title);
    command.append("\"] move window to position ");
    append_decimal_i32(&mut command, x);
    command.append(" ");
    append_decimal_i32(&mut command, y);
    command
}

/// The i3 command that puts the switcher's window back at the centre of the
/// screen, which i3 does for a floating window moved to (0, 0).
pub fn recenter_command() -> (command: String)
    ensures
        command@ == move_command_text(window_title(), 0, 0),
{
    move_window_command("i3switcherX11", 0, 0)
}

} // verus!

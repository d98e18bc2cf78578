//! What the tab list does when i3 reports that a workspace came or went.

use vstd::prelude::*;
use crate::tabs::{Tab, TabsList, has_tab_named, spec_removed, lemma_remove_after_add};
use crate::i3wm::{move_command_text, recenter_command, window_title};

verus! {

/// A workspace event from i3, as far as the switcher reads it.
pub enum WorkspaceEvent {
    /// A workspace of this name was created.
    Init(String),
    /// The workspace of this name became empty, and so went away.
    Empty(String),
    /// Any other change to a workspace.
    Other,
}

/// What the window does after a workspace event.
pub enum WorkspaceAction {
    /// Nothing.
    Nothing,
    /// Draw the tabs again.
    Rerender,
    /// Draw the tabs again, present the window and send this i3 command, which
    /// puts the window back at the centre of the screen.
    RerenderAndRecenter(String),
}

/// Updates the tabs for a workspace event: a new workspace gets a tab at the
/// end, one that became empty loses its tab.
pub fn handle_workspace_event<P>(tabs: &mut TabsList<P>, event: WorkspaceEvent) -> (action: WorkspaceAction)
    ensures
        match event {
            WorkspaceEvent::Init(name) => {
                &&& final(tabs).tabs_vec@.len() == old(tabs).tabs_vec@.len() + 1
                &&& final(tabs).tabs_vec@.drop_last() == old(tabs).tabs_vec@
                &&& final(tabs).tabs_vec@.last().name@ == name@
                &&& final(tabs).tabs_vec@.last().picture is None
                &&& action matches WorkspaceAction::RerenderAndRecenter(command)
                    && command@ == move_command_text(window_title(), 0, 0)
            },
            WorkspaceEvent::Empty(name) => {
                &&& final(tabs).tabs_vec@ == spec_removed(old(tabs).tabs_vec@, name@)
                &&& action is Rerender
            },
            WorkspaceEvent::Other => {
                &&& final(tabs).tabs_vec@ == old(tabs).tabs_vec@
                &&& action is Nothing
            },
        },
{
    match event {
        WorkspaceEvent::Init(name) => {
            tabs.add_new_tab(None, &name);
            WorkspaceAction::RerenderAndRecenter(recenter_command())
        },
        WorkspaceEvent::Empty(name) => {
            tabs.remove_tab(&name);
            WorkspaceAction::Rerender
        },
        WorkspaceEvent::Other => WorkspaceAction::Nothing,
    }
}

/// A workspace that is created and then emptied leaves the tabs as they were
/// before it was created, where no tab had its name.
pub proof fn lemma_created_then_emptied<P>(before: Seq<Tab<P>>, after_init: Seq<Tab<P>>, name: Seq<char>)
    requires
        !has_tab_named(before, name),
        after_init.len() == before.len() + 1,
        after_init.drop_last() == before,
        after_init.last().name@ == name,
    ensures
        spec_removed(after_init, name) == before,
{
    assert(after_init =~= before.push(after_init.last()));
    lemma_remove_after_add(before, after_init.last());
}

} // verus!

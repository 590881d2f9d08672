//! What the workspace confirmation dialogs decide: which event a button or
//! key press raises, and the title of the remove dialog.

use vstd::prelude::*;

verus! {

/// Raised by the "clear all workspaces" dialog.
#[derive(Debug, Clone, Copy, PartialEq, Eq, Structural)]
pub enum ClearWorkspacesConfirmationEvent {
    ExportAndClear,
    ClearWithoutExport,
    Cancel,
}

/// What the user chose in the "clear all workspaces" dialog.
#[derive(Debug, Clone, Copy, PartialEq, Eq, Structural)]
pub enum ClearWorkspacesConfirmationAction {
    ExportAndClear,
    ClearWithoutExport,
    Cancel,
}

/// The keys of the "clear all workspaces" dialog: escape cancels, enter
/// exports and clears.
pub fn clear_workspaces_fixed_bindings() -> (r: Vec<(&'static str, ClearWorkspacesConfirmationAction)>)
    ensures
        r@.len() == 2,
        r@[0].0@ == "escape"@,
        r@[0].1 == ClearWorkspacesConfirmationAction::Cancel,
        r@[1].0@ == "enter"@,
        r@[1].1 == ClearWorkspacesConfirmationAction::ExportAndClear,
{
    let mut r = Vec::new();
    r.push(("escape", ClearWorkspacesConfirmationAction::Cancel));
    r.push(("enter", ClearWorkspacesConfirmationAction::ExportAndClear));
    r
}

/// The event the "clear all workspaces" dialog raises for an action: the one
/// of the same name.
pub fn clear_workspaces_event_for_action(action: &ClearWorkspacesConfirmationAction) -> (r:
    ClearWorkspacesConfirmationEvent)
    ensures
        *action is ExportAndClear <==> r is ExportAndClear,
        *action is ClearWithoutExport <==> r is ClearWithoutExport,
        *action is Cancel <==> r is Cancel,
{
    match action {
        ClearWorkspacesConfirmationAction::ExportAndClear => {
            ClearWorkspacesConfirmationEvent::ExportAndClear
        },
        ClearWorkspacesConfirmationAction::ClearWithoutExport => {
            ClearWorkspacesConfirmationEvent::ClearWithoutExport
        },
        ClearWorkspacesConfirmationAction::Cancel => ClearWorkspacesConfirmationEvent::Cancel,
    }
}

/// The workspace group the remove dialog is about.
#[derive(Clone, Debug)]
pub struct CloseWorkspaceGroupDialogSource {
    pub index: usize,
    pub name: String,
}

impl CloseWorkspaceGroupDialogSource {
    /// A copy of the source.
    pub fn duplicate(&self) -> (r: CloseWorkspaceGroupDialogSource)
        ensures
            r.index == self.index,
            r.name@ == self.name@,
    {
        CloseWorkspaceGroupDialogSource { index: self.index, name: self.name.clone() }
    }
}

/// Raised by the remove dialog.
pub enum CloseWorkspaceGroupConfirmationEvent {
    Confirm { source: CloseWorkspaceGroupDialogSource },
    Cancel,
}

/// What the user chose in the remove dialog.
#[derive(Debug, Clone, Copy, PartialEq, Eq, Structural)]
pub enum CloseWorkspaceGroupConfirmationAction {
    Confirm,
    Cancel,
}

/// The keys of the remove dialog: escape cancels, enter confirms.
pub fn close_workspace_group_fixed_bindings() -> (r: Vec<(&'static str, CloseWorkspaceGroupConfirmationAction)>)
    ensures
        r@.len() == 2,
        r@[0].0@ == "escape"@,
        r@[0].1 == CloseWorkspaceGroupConfirmationAction::Cancel,
        r@[1].0@ == "enter"@,
        r@[1].1 == CloseWorkspaceGroupConfirmationAction::Confirm,
{
    let mut r = Vec::new();
    r.push(("escape", CloseWorkspaceGroupConfirmationAction::Cancel));
    r.push(("enter", CloseWorkspaceGroupConfirmationAction::Confirm));
    r
}

/// The state of the remove dialog: the group it was opened for, if any.
pub struct CloseWorkspaceGroupConfirmationDialog {
    source: Option<CloseWorkspaceGroupDialogSource>,
}

impl CloseWorkspaceGroupConfirmationDialog {
    /// The group the dialog is about, as (index, name).
    pub closed spec fn source_view(&self) -> Option<(usize, Seq<char>)> {
        match self.source {
            Some(s) => Some((s.index, s.name@)),
            None => None,
        }
    }

    /// A dialog not yet opened for any group.
    pub fn new() -> (r: CloseWorkspaceGroupConfirmationDialog)
        ensures
            r.source_view() is None,
    {
        CloseWorkspaceGroupConfirmationDialog { source: None }
    }

    /// Opens the dialog for a group.
    pub fn set_source(&mut self, source: CloseWorkspaceGroupDialogSource)
        ensures
            final(self).source_view() == Some((source.index, source.name@)),
    {
        self.source = Some(source);
    }

    /// The event raised for an action: confirming raises `Confirm` with the
    /// group, or nothing if the dialog has no group; cancelling raises `Cancel`.
    pub fn handle_action(&self, action: &CloseWorkspaceGroupConfirmationAction) -> (r: Option<
        CloseWorkspaceGroupConfirmationEvent,
    >)
        ensures
            *action is Cancel ==> r matches Some(CloseWorkspaceGroupConfirmationEvent::Cancel),
            *action is Confirm && self.source_view() is None ==> r is None,
            *action is Confirm && self.source_view() is Some ==> (r matches Some(
                CloseWorkspaceGroupConfirmationEvent::Confirm { source },
            ) && self.source_view() == Some((source.index, source.name@))),
    {
        match action {
            CloseWorkspaceGroupConfirmationAction::Confirm => match &self.source {
                Some(source) => Some(
                    CloseWorkspaceGroupConfirmationEvent::Confirm { source: source.duplicate() },
                ),
                None => None,
            },
            CloseWorkspaceGroupConfirmationAction::Cancel => Some(
                CloseWorkspaceGroupConfirmationEvent::Cancel,
            ),
        }
    }

    /// "Remove '<name>'?" for the group, or "Remove workspace?" without one.
    pub fn title(&self) -> (r: String)
        ensures
            r@ == (match self.source_view() {
                Some((_, name)) => "Remove '"@ + name + "'?"@,
                None => "Remove workspace?"@,
            }),
    {
        match &self.source {
            Some(source) => {
                let mut t = String::from_str("Remove '");
                t.append(source.name.as_str());
                t.append("'?");
                t
            },
            None => String::from_str("Remove workspace?"),
        }
    }
}

} // verus!

//! The agent-mode selection of the workspace layout chooser.

use vstd::prelude::*;

verus! {

/// Which coding agent a new terminal layout starts.
#[derive(Debug, Clone, Copy, PartialEq, Eq, Structural)]
pub enum TerminalLayoutAgentMode {
    NoAgent,
    Claude,
    Codex,
}

#[derive(Debug, Clone, Copy, PartialEq, Eq, Structural)]
pub enum WorkspaceLayoutChooserAction {
    SetAgentMode(TerminalLayoutAgentMode),
}

/// The chooser's selection state.
pub struct WorkspaceLayoutChooserView {
    selected_agent_mode: TerminalLayoutAgentMode,
}

impl WorkspaceLayoutChooserView {
    pub closed spec fn selected(&self) -> TerminalLayoutAgentMode {
        self.selected_agent_mode
    }

    /// A chooser with no agent selected.
    pub fn new() -> (r: WorkspaceLayoutChooserView)
        ensures
            r.selected() == TerminalLayoutAgentMode::NoAgent,
    {
        WorkspaceLayoutChooserView { selected_agent_mode: TerminalLayoutAgentMode::NoAgent }
    }

    pub fn selected_agent_mode(&self) -> (r: TerminalLayoutAgentMode)
        ensures
            r == self.selected(),
    {
        self.selected_agent_mode
    }

    /// Selecting an agent mode makes it the selection.
    pub fn handle_action(&mut self, action: &WorkspaceLayoutChooserAction)
        ensures
            final(self).selected() == (match *action {
                WorkspaceLayoutChooserAction::SetAgentMode(mode) => mode,
            }),
    {
        match action {
            WorkspaceLayoutChooserAction::SetAgentMode(agent_mode) => {
                self.selected_agent_mode = *agent_mode;
            },
        }
    }
}

} // verus!

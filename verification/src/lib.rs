//! Verified core logic of Warp's workspace panel, rate-limit trackers and
//! render diagnostics.

pub mod assoc;
pub mod text;
pub mod time;
pub mod render_diagnostics;
pub mod claude_rate_limits;
pub mod codex_rate_limits;
pub mod workspace_groups;
pub mod workspace_dialogs;
pub mod workspace_layout_chooser;
pub mod plugin_manager;
pub mod launch_configs;

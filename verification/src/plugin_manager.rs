//! Setup instructions for Warp's Codex notification hooks.

use vstd::prelude::*;

verus! {

/// The hooks Codex runs so that Warp hears about session, prompt, permission,
/// tool and stop events.
pub const CODEX_WARP_HOOKS_JSON: &'static str = r#"{
  "hooks": {
    "SessionStart": [
      {
        "hooks": [
          {
            "type": "command",
            "command": "printf '\\033]777;notify;warp://cli-agent;%s\\007' '{\"v\":1,\"agent\":\"codex\",\"event\":\"session_start\"}' >/dev/tty 2>/dev/null || true"
          }
        ]
      }
    ],
    "UserPromptSubmit": [
      {
        "hooks": [
          {
            "type": "command",
            "command": "printf '\\033]777;notify;warp://cli-agent;%s\\007' '{\"v\":1,\"agent\":\"codex\",\"event\":\"prompt_submit\"}' >/dev/tty 2>/dev/null || true"
          }
        ]
      }
    ],
    "PermissionRequest": [
      {
        "hooks": [
          {
            "type": "command",
            "command": "printf '\\033]777;notify;warp://cli-agent;%s\\007' '{\"v\":1,\"agent\":\"codex\",\"event\":\"permission_request\",\"summary\":\"Codex is waiting for approval\"}' >/dev/tty 2>/dev/null || true"
          }
        ]
      }
    ],
    "PreToolUse": [
      {
        "hooks": [
          {
            "type": "command",
            "command": "printf '\\033]777;notify;warp://cli-agent;%s\\007' '{\"v\":1,\"agent\":\"codex\",\"event\":\"permission_replied\"}' >/dev/tty 2>/dev/null || true"
          }
        ]
      }
    ],
    "PostToolUse": [
      {
        "hooks": [
          {
            "type": "command",
            "command": "printf '\\033]777;notify;warp://cli-agent;%s\\007' '{\"v\":1,\"agent\":\"codex\",\"event\":\"tool_complete\"}' >/dev/tty 2>/dev/null || true"
          }
        ]
      }
    ],
    "Stop": [
      {
        "hooks": [
          {
            "type": "command",
            "command": "printf '\\033]777;notify;warp://cli-agent;%s\\007' '{\"v\":1,\"agent\":\"codex\",\"event\":\"stop\"}' >/dev/tty 2>/dev/null || true"
          }
        ]
      }
    ]
  }
}"#;

/// The Codex settings that turn hooks and in-focus notifications on.
pub const CODEX_CONFIG_SNIPPET: &'static str = r#"[features]
hooks = true

[tui]
notification_condition = "always""#;

pub const INSTALL_TITLE: &'static str = "Enable Warp Notifications for Codex";

pub const INSTALL_SUBTITLE: &'static str = "Configure Codex hooks so Warp can distinguish an active Codex turn from an idle open Codex TUI.";

pub const UPGRADE_STEP: &'static str = "Update Codex to the latest version.";

pub const UPGRADE_LINK: &'static str = "https://developers.openai.com/codex/cli#upgrade";

pub const HOOKS_STEP: &'static str = "Create ~/.codex/hooks.json with these hooks, or merge the hooks into your existing file.";

pub const CONFIG_STEP: &'static str = "Enable Codex hooks and keep in-focus notifications enabled. If your config already has [features] or [tui] sections, add these keys there instead of creating duplicate sections.";

pub const RESTART_NOTE: &'static str = "Restart Codex to apply the changes.";

pub const REVIEW_HOOKS_NOTE: &'static str = "If Codex asks you to review hooks, run /hooks and trust the Warp notification hooks.";

pub const MINIMUM_PLUGIN_VERSION: &'static str = "0.0.0";

/// One step of a setup guide.
pub struct PluginInstructionStep {
    pub description: &'static str,
    pub command: &'static str,
    pub executable: bool,
    pub link: Option<&'static str>,
}

/// A setup guide.
pub struct PluginInstructions {
    pub title: &'static str,
    pub subtitle: &'static str,
    pub steps: Vec<PluginInstructionStep>,
    pub post_install_notes: Vec<&'static str>,
}

/// Warp's integration with the Codex CLI.
pub struct CodexPluginManager;

impl CodexPluginManager {
    pub fn minimum_plugin_version(&self) -> (r: &'static str)
        ensures
            r == MINIMUM_PLUGIN_VERSION,
    {
        MINIMUM_PLUGIN_VERSION
    }

    /// Codex hooks are set up by hand.
    pub fn can_auto_install(&self) -> (r: bool)
        ensures
            !r,
    {
        false
    }

    /// There is nothing to update.
    pub fn supports_update(&self) -> (r: bool)
        ensures
            !r,
    {
        false
    }

    /// Three manual steps: upgrade Codex (with a link), write the hooks file,
    /// enable hooks in the config; then two notes.
    pub fn install_instructions(&self) -> (r: PluginInstructions)
        ensures
            r.title == INSTALL_TITLE,
            r.subtitle == INSTALL_SUBTITLE,
            r.steps@.len() == 3,
            r.steps@[0].description == UPGRADE_STEP,
            r.steps@[0].command@ == Seq::<char>::empty(),
            !r.steps@[0].executable,
            r.steps@[0].link == Some(UPGRADE_LINK),
            r.steps@[1].description == HOOKS_STEP,
            r.steps@[1].command == CODEX_WARP_HOOKS_JSON,
            !r.steps@[1].executable,
            r.steps@[1].link is None,
            r.steps@[2].description == CONFIG_STEP,
            r.steps@[2].command == CODEX_CONFIG_SNIPPET,
            !r.steps@[2].executable,
            r.steps@[2].link is None,
            r.post_install_notes@ == seq![RESTART_NOTE, REVIEW_HOOKS_NOTE],
    {
        proof {
            reveal_strlit("");
        }
        let mut steps: Vec<PluginInstructionStep> = Vec::new();
        steps.push(
            PluginInstructionStep {
                description: UPGRADE_STEP,
                command: "",
                executable: false,
                link: Some(UPGRADE_LINK),
            },
        );
        steps.push(
            PluginInstructionStep {
                description: HOOKS_STEP,
                command: CODEX_WARP_HOOKS_JSON,
                executable: false,
                link: None,
            },
        );
        steps.push(
            PluginInstructionStep {
                description: CONFIG_STEP,
                command: CODEX_CONFIG_SNIPPET,
                executable: false,
                link: None,
            },
        );
        let mut post_install_notes: Vec<&'static str> = Vec::new();
        post_install_notes.push(RESTART_NOTE);
        post_install_notes.push(REVIEW_HOOKS_NOTE);
        assert(post_install_notes@ =~= seq![RESTART_NOTE, REVIEW_HOOKS_NOTE]);
        PluginInstructions {
            title: INSTALL_TITLE,
            subtitle: INSTALL_SUBTITLE,
            steps,
            post_install_notes,
        }
    }

    /// No update is offered: an empty guide.
    pub fn update_instructions(&self) -> (r: PluginInstructions)
        ensures
            r.title@ == Seq::<char>::empty(),
            r.subtitle@ == Seq::<char>::empty(),
            r.steps@.len() == 0,
            r.post_install_notes@.len() == 0,
    {
        proof {
            reveal_strlit("");
        }
        PluginInstructions {
            title: "",
            subtitle: "",
            steps: Vec::new(),
            post_install_notes: Vec::new(),
        }
    }
}

} // verus!

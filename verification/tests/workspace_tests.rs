use warp_app_core::codex_rate_limits::{CodexRateLimitProjection, CodexRateLimitWindowKind};
use warp_app_core::time::Timestamp;
use warp_app_core::workspace_dialogs::{
    clear_workspaces_event_for_action, clear_workspaces_fixed_bindings,
    close_workspace_group_fixed_bindings, ClearWorkspacesConfirmationAction,
    ClearWorkspacesConfirmationEvent, CloseWorkspaceGroupConfirmationAction,
    CloseWorkspaceGroupConfirmationDialog, CloseWorkspaceGroupConfirmationEvent,
    CloseWorkspaceGroupDialogSource,
};
use warp_app_core::text::{decimal_string, signed_decimal_string};
use warp_app_core::workspace_groups::{
    codex_rate_limit_status_label, codex_rate_limit_window_title,
    format_codex_rate_limit_duration, format_codex_rate_limit_window_duration,
    reset_label_shows_date,
};
use warp_app_core::workspace_layout_chooser::{
    TerminalLayoutAgentMode, WorkspaceLayoutChooserAction, WorkspaceLayoutChooserView,
};

#[test]
fn codex_rate_limit_window_title_names_five_hour_limit() {
    assert_eq!(
        codex_rate_limit_window_title(CodexRateLimitWindowKind::Primary, Some(300)),
        "5 hour usage limit"
    );
}

#[test]
fn codex_rate_limit_window_title_names_weekly_limit() {
    assert_eq!(
        codex_rate_limit_window_title(CodexRateLimitWindowKind::Secondary, Some(10080)),
        "Weekly usage limit"
    );
}

#[test]
fn window_titles_for_other_lengths() {
    assert_eq!(
        codex_rate_limit_window_title(CodexRateLimitWindowKind::Secondary, Some(300)),
        "5 hour usage limit"
    );
    assert_eq!(
        codex_rate_limit_window_title(CodexRateLimitWindowKind::Primary, Some(10080)),
        "Weekly usage limit"
    );
    assert_eq!(
        codex_rate_limit_window_title(CodexRateLimitWindowKind::Primary, Some(90)),
        "90 minute usage limit"
    );
    assert_eq!(
        codex_rate_limit_window_title(CodexRateLimitWindowKind::Primary, None),
        "Codex usage limit"
    );
    assert_eq!(
        codex_rate_limit_window_title(CodexRateLimitWindowKind::Secondary, None),
        "Codex weekly usage limit"
    );
}

#[test]
fn window_durations_are_named_by_unit() {
    assert_eq!(format_codex_rate_limit_window_duration(10080), "Weekly");
    assert_eq!(format_codex_rate_limit_window_duration(20160), "2 week");
    assert_eq!(format_codex_rate_limit_window_duration(60), "1 hour");
    assert_eq!(format_codex_rate_limit_window_duration(120), "2 hour");
    assert_eq!(format_codex_rate_limit_window_duration(0), "0 week");
    assert_eq!(format_codex_rate_limit_window_duration(45), "45 minute");
}

#[test]
fn durations_round_up_to_minutes() {
    assert_eq!(format_codex_rate_limit_duration(600), "10m");
    assert_eq!(format_codex_rate_limit_duration(601), "11m");
    assert_eq!(format_codex_rate_limit_duration(0), "1m");
    assert_eq!(format_codex_rate_limit_duration(-120), "1m");
    assert_eq!(format_codex_rate_limit_duration(3540), "59m");
    assert_eq!(format_codex_rate_limit_duration(3600), "1h");
    assert_eq!(format_codex_rate_limit_duration(3900), "1h 5m");
    assert_eq!(format_codex_rate_limit_duration(90000), "25h");
}

#[test]
fn decimal_strings() {
    assert_eq!(decimal_string(0), "0");
    assert_eq!(decimal_string(7), "7");
    assert_eq!(decimal_string(10), "10");
    assert_eq!(decimal_string(1234567890), "1234567890");
    assert_eq!(decimal_string(u64::MAX), u64::MAX.to_string());
    assert_eq!(signed_decimal_string(-42), "-42");
    assert_eq!(signed_decimal_string(0), "0");
    assert_eq!(signed_decimal_string(i64::MIN), i64::MIN.to_string());
    assert_eq!(signed_decimal_string(i64::MAX), i64::MAX.to_string());
}

#[test]
fn reset_labels_show_the_date_for_day_long_windows() {
    assert!(reset_label_shows_date(Some(10080)));
    assert!(reset_label_shows_date(Some(1440)));
    assert!(!reset_label_shows_date(Some(1439)));
    assert!(!reset_label_shows_date(Some(300)));
    assert!(!reset_label_shows_date(None));
}

#[test]
fn codex_rate_limit_status_label_uses_compact_loading_states() {
    // The default usage: no sample, no error, not stale; its projection is stable.
    assert_eq!(
        codex_rate_limit_status_label(
            false,
            false,
            false,
            CodexRateLimitProjection::Stable,
            Timestamp::from_unix(0, 0).unwrap(),
            "",
        ),
        "Loading"
    );
}

#[test]
fn status_labels() {
    let now = Timestamp::from_unix(0, 0).unwrap();
    let at = |secs: i64| Timestamp::from_unix(secs, 0).unwrap();
    assert_eq!(
        codex_rate_limit_status_label(true, true, true, CodexRateLimitProjection::EmptyNow, now, ""),
        "Stale"
    );
    assert_eq!(
        codex_rate_limit_status_label(false, true, false, CodexRateLimitProjection::Unknown, now, ""),
        "Unavailable"
    );
    assert_eq!(
        codex_rate_limit_status_label(false, true, true, CodexRateLimitProjection::EmptyNow, now, ""),
        "Limit reached"
    );
    assert_eq!(
        codex_rate_limit_status_label(
            false,
            false,
            true,
            CodexRateLimitProjection::EmptyAt(at(600)),
            now,
            ""
        ),
        "Empty in 10m"
    );
    assert_eq!(
        codex_rate_limit_status_label(
            false,
            false,
            true,
            CodexRateLimitProjection::ResetsAt(at(1500)),
            now,
            "00:25"
        ),
        "Reset 00:25"
    );
    assert_eq!(
        codex_rate_limit_status_label(false, false, true, CodexRateLimitProjection::Stable, now, ""),
        "Stable"
    );
    assert_eq!(
        codex_rate_limit_status_label(false, false, true, CodexRateLimitProjection::Unknown, now, ""),
        "Waiting for data"
    );
}

#[test]
fn clear_dialog_raises_the_chosen_event() {
    assert_eq!(
        clear_workspaces_event_for_action(&ClearWorkspacesConfirmationAction::ExportAndClear),
        ClearWorkspacesConfirmationEvent::ExportAndClear
    );
    assert_eq!(
        clear_workspaces_event_for_action(&ClearWorkspacesConfirmationAction::ClearWithoutExport),
        ClearWorkspacesConfirmationEvent::ClearWithoutExport
    );
    assert_eq!(
        clear_workspaces_event_for_action(&ClearWorkspacesConfirmationAction::Cancel),
        ClearWorkspacesConfirmationEvent::Cancel
    );
}

#[test]
fn remove_dialog_confirms_only_with_a_source() {
    let mut dialog = CloseWorkspaceGroupConfirmationDialog::new();
    assert_eq!(dialog.title(), "Remove workspace?");
    assert!(dialog
        .handle_action(&CloseWorkspaceGroupConfirmationAction::Confirm)
        .is_none());
    assert!(matches!(
        dialog.handle_action(&CloseWorkspaceGroupConfirmationAction::Cancel),
        Some(CloseWorkspaceGroupConfirmationEvent::Cancel)
    ));

    dialog.set_source(CloseWorkspaceGroupDialogSource { index: 2, name: "Ops".to_string() });
    assert_eq!(dialog.title(), "Remove 'Ops'?");
    match dialog.handle_action(&CloseWorkspaceGroupConfirmationAction::Confirm) {
        Some(CloseWorkspaceGroupConfirmationEvent::Confirm { source }) => {
            assert_eq!(source.index, 2);
            assert_eq!(source.name, "Ops");
        }
        _ => panic!("confirming with a source should raise Confirm"),
    }
}

#[test]
fn selector_action_updates_selected_agent_mode() {
    let mut chooser = WorkspaceLayoutChooserView::new();
    assert_eq!(chooser.selected_agent_mode(), TerminalLayoutAgentMode::NoAgent);
    chooser.handle_action(&WorkspaceLayoutChooserAction::SetAgentMode(
        TerminalLayoutAgentMode::Claude,
    ));
    assert_eq!(chooser.selected_agent_mode(), TerminalLayoutAgentMode::Claude);
    chooser.handle_action(&WorkspaceLayoutChooserAction::SetAgentMode(
        TerminalLayoutAgentMode::Codex,
    ));
    assert_eq!(chooser.selected_agent_mode(), TerminalLayoutAgentMode::Codex);
}

#[test]
fn dialog_keys() {
    assert_eq!(
        clear_workspaces_fixed_bindings(),
        vec![
            ("escape", ClearWorkspacesConfirmationAction::Cancel),
            ("enter", ClearWorkspacesConfirmationAction::ExportAndClear),
        ]
    );
    assert_eq!(
        close_workspace_group_fixed_bindings(),
        vec![
            ("escape", CloseWorkspaceGroupConfirmationAction::Cancel),
            ("enter", CloseWorkspaceGroupConfirmationAction::Confirm),
        ]
    );
}

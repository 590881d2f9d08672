use warp_app_core::launch_configs::{
    AppState, LaunchConfig, LeafContents, LeafSnapshot, NotebookPaneSnapshot, PaneMode,
    PaneNodeSnapshot, PaneTemplateType, SplitDirection, TabSnapshot, TerminalPaneSnapshot,
    WindowSnapshot, AnsiColorIdentifier, WorkspaceGroupSnapshot,
};

fn single_tab_snapshot(root: PaneNodeSnapshot) -> AppState {
    AppState {
        windows: vec![WindowSnapshot {
            tabs: vec![TabSnapshot {
                custom_title: None,
                root,
            }],
            active_tab_index: 0,
            workspace_groups: vec![],
            active_workspace_group_index: 0,
        }],
        active_window_index: Some(0),
    }
}

fn multi_tab_snapshot(active_tab_index: usize, tabs: Vec<TabSnapshot>) -> AppState {
    AppState {
        windows: vec![WindowSnapshot {
            tabs,
            active_tab_index,
            workspace_groups: vec![],
            active_workspace_group_index: 0,
        }],
        active_window_index: Some(0),
    }
}

fn terminal_tab_snapshot(title: &str, cwd: &str) -> TabSnapshot {
    TabSnapshot {
        custom_title: Some(title.to_string()),
        root: PaneNodeSnapshot::Leaf(LeafSnapshot {
            is_focused: true,
            custom_vertical_tabs_title: None,
            contents: LeafContents::Terminal(TerminalPaneSnapshot {
                cwd: Some(cwd.to_string()),
                is_active: true,
                is_read_only: false,
            }),
        }),
    }
}

fn terminal_leaf(is_focused: bool, cwd: &str) -> PaneNodeSnapshot {
    PaneNodeSnapshot::Leaf(LeafSnapshot {
        is_focused,
        custom_vertical_tabs_title: None,
        contents: LeafContents::Terminal(TerminalPaneSnapshot {
            cwd: Some(cwd.into()),
            is_active: true,
            is_read_only: false,
        }),
    })
}

fn notebook_leaf(is_focused: bool) -> PaneNodeSnapshot {
    PaneNodeSnapshot::Leaf(LeafSnapshot {
        is_focused,
        custom_vertical_tabs_title: None,
        contents: LeafContents::Notebook(NotebookPaneSnapshot::CloudNotebook { notebook_id: None }),
    })
}

fn terminal_tab() -> TabSnapshot {
    TabSnapshot {
        custom_title: None,
        root: PaneNodeSnapshot::Branch {
            direction: SplitDirection::Vertical,
            children: vec![terminal_leaf(true, "/path/to/dir")],
        },
    }
}

fn notebook_tab() -> TabSnapshot {
    TabSnapshot {
        custom_title: None,
        root: PaneNodeSnapshot::Branch {
            direction: SplitDirection::Vertical,
            children: vec![notebook_leaf(true)],
        },
    }
}

#[test]
fn test_config_from_snapshot_flattens_single_pane() {
    // If only one pane of the branch can be saved into a launch configuration, it should
    // be flattened to a single leaf.
    let state = single_tab_snapshot(PaneNodeSnapshot::Branch {
        direction: SplitDirection::Vertical,
        children: vec![notebook_leaf(true), terminal_leaf(true, "/some/dir")],
    });

    let template = LaunchConfig::from_snapshot("Test".into(), &state);
    assert_eq!(
        template.windows[0].tabs[0].layout,
        PaneTemplateType::PaneTemplate {
            is_focused: Some(true),
            cwd: String::from("/some/dir"),
            commands: vec![],
            pane_mode: PaneMode::Terminal,
            shell: None,
        },
    )
}

#[test]
fn test_config_from_snapshot_filters_panes() {
    let state = single_tab_snapshot(PaneNodeSnapshot::Branch {
        direction: SplitDirection::Vertical,
        children: vec![
            terminal_leaf(true, "/path/to/dir"),
            notebook_leaf(false),
            terminal_leaf(false, "/some/dir"),
        ],
    });

    let template = LaunchConfig::from_snapshot("Test".into(), &state);
    assert_eq!(
        template.windows[0].tabs[0].layout,
        PaneTemplateType::PaneBranchTemplate {
            split_direction: SplitDirection::Vertical,
            panes: vec![
                PaneTemplateType::PaneTemplate {
                    is_focused: Some(true),
                    cwd: String::from("/path/to/dir"),
                    commands: vec![],
                    pane_mode: PaneMode::Terminal,
                    shell: None,
                },
                PaneTemplateType::PaneTemplate {
                    is_focused: Some(false),
                    cwd: String::from("/some/dir"),
                    commands: vec![],
                    pane_mode: PaneMode::Terminal,
                    shell: None,
                },
            ]
        }
    )
}

#[test]
fn test_config_from_snapshot_filters_tabs() {
    // If no panes of a tab are valid, it's filtered out entirely.
    let state = single_tab_snapshot(PaneNodeSnapshot::Branch {
        direction: SplitDirection::Vertical,
        children: vec![notebook_leaf(true)],
    });

    let template = LaunchConfig::from_snapshot("Test".into(), &state);
    assert!(template.windows[0].tabs.is_empty())
}

#[test]
fn test_config_with_active_tab_index() {
    let state = multi_tab_snapshot(1, vec![terminal_tab(), terminal_tab(), terminal_tab()]);

    let template = LaunchConfig::from_snapshot("Test".into(), &state);
    assert_eq!(template.windows[0].active_tab_index, Some(1))
}

#[test]
fn test_config_with_active_tab_index_and_filtered_tabs() {
    let state = multi_tab_snapshot(1, vec![notebook_tab(), terminal_tab()]);

    let template = LaunchConfig::from_snapshot("Test".into(), &state);
    assert_eq!(template.windows[0].active_tab_index, Some(0))
}

#[test]
fn test_config_with_active_tab_being_filtered() {
    let state = multi_tab_snapshot(1, vec![terminal_tab(), notebook_tab()]);

    let template = LaunchConfig::from_snapshot("Test".into(), &state);
    assert_eq!(template.windows[0].active_tab_index, None)
}

#[test]
fn test_config_from_snapshot_preserves_workspace_groups() {
    let backend_tabs = vec![
        terminal_tab_snapshot("API", "/repo/api"),
        terminal_tab_snapshot("Worker", "/repo/worker"),
    ];
    let state = AppState {
        windows: vec![WindowSnapshot {
            tabs: vec![terminal_tab_snapshot("Deploy", "/repo/deploy")],
            active_tab_index: 0,
            workspace_groups: vec![
                WorkspaceGroupSnapshot {
                    name: "Backend".to_string(),
                    color: AnsiColorIdentifier::Green,
                    tabs: backend_tabs,
                    active_tab_index: 1,
                },
                WorkspaceGroupSnapshot {
                    name: "Ops".to_string(),
                    color: AnsiColorIdentifier::Magenta,
                    tabs: vec![terminal_tab_snapshot("Deploy", "/repo/deploy")],
                    active_tab_index: 0,
                },
            ],
            active_workspace_group_index: 1,
        }],
        active_window_index: Some(0),
    };

    let template = LaunchConfig::from_snapshot("Test".into(), &state);
    assert_eq!(template.name, "Test");
    assert_eq!(template.active_window_index, Some(0));
    let window = &template.windows[0];
    assert_eq!(window.active_workspace_group_index, Some(1));
    assert_eq!(window.workspace_groups.len(), 2);
    assert_eq!(window.workspace_groups[0].name, "Backend");
    assert_eq!(window.workspace_groups[0].color, Some(AnsiColorIdentifier::Green));
    assert_eq!(window.workspace_groups[0].active_tab_index, Some(1));
    assert_eq!(window.workspace_groups[0].tabs.len(), 2);
    assert_eq!(window.workspace_groups[1].name, "Ops");
    assert_eq!(window.workspace_groups[1].color, Some(AnsiColorIdentifier::Magenta));
    assert_eq!(window.tabs.len(), 1);
    assert_eq!(window.tabs[0].title.as_deref(), Some("Deploy"));
}

#[test]
fn from_snapshot_without_groups_has_no_active_group() {
    let state = multi_tab_snapshot(0, vec![terminal_tab()]);
    let template = LaunchConfig::from_snapshot("Test".into(), &state);
    assert_eq!(template.windows[0].active_workspace_group_index, None);
    assert!(template.windows[0].workspace_groups.is_empty());
}

#[test]
fn terminal_without_cwd_is_not_saved() {
    let state = single_tab_snapshot(PaneNodeSnapshot::Leaf(LeafSnapshot {
        is_focused: true,
        custom_vertical_tabs_title: None,
        contents: LeafContents::Terminal(TerminalPaneSnapshot {
            cwd: None,
            is_active: true,
            is_read_only: false,
        }),
    }));
    let template = LaunchConfig::from_snapshot("Test".into(), &state);
    assert!(template.windows[0].tabs.is_empty());
    assert_eq!(template.windows[0].active_tab_index, None);
}

#[test]
fn nested_branches_flatten_recursively() {
    let state = single_tab_snapshot(PaneNodeSnapshot::Branch {
        direction: SplitDirection::Horizontal,
        children: vec![
            PaneNodeSnapshot::Branch {
                direction: SplitDirection::Vertical,
                children: vec![notebook_leaf(false), terminal_leaf(false, "/a")],
            },
            notebook_leaf(true),
            terminal_leaf(true, "/b"),
        ],
    });
    let template = LaunchConfig::from_snapshot("Test".into(), &state);
    assert_eq!(
        template.windows[0].tabs[0].layout,
        PaneTemplateType::PaneBranchTemplate {
            split_direction: SplitDirection::Horizontal,
            panes: vec![
                PaneTemplateType::PaneTemplate {
                    is_focused: Some(false),
                    cwd: String::from("/a"),
                    commands: vec![],
                    pane_mode: PaneMode::Terminal,
                    shell: None,
                },
                PaneTemplateType::PaneTemplate {
                    is_focused: Some(true),
                    cwd: String::from("/b"),
                    commands: vec![],
                    pane_mode: PaneMode::Terminal,
                    shell: None,
                },
            ],
        }
    );
}

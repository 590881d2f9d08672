//! Saving the open windows as a launch configuration.
//!
//! Only terminal panes with a known working directory can be relaunched. Other
//! panes are left out, a split left with a single pane becomes that pane, a
//! split left with none disappears, and so does a tab left with no pane. An
//! active tab keeps being active at its new position, unless it was left out.

use vstd::prelude::*;

verus! {

// ----- the saved application state -----

#[derive(Debug, Clone, Copy, PartialEq, Eq, Structural)]
pub enum SplitDirection {
    Horizontal,
    Vertical,
}

#[derive(Debug, Clone, Copy, PartialEq, Eq, Structural)]
pub enum AnsiColorIdentifier {
    Black,
    Red,
    Green,
    Yellow,
    Blue,
    Magenta,
    Cyan,
    White,
}

pub struct TerminalPaneSnapshot {
    pub cwd: Option<String>,
    pub is_active: bool,
    pub is_read_only: bool,
}

pub enum NotebookPaneSnapshot {
    CloudNotebook { notebook_id: Option<String> },
}

pub enum LeafContents {
    Terminal(TerminalPaneSnapshot),
    Notebook(NotebookPaneSnapshot),
}

pub struct LeafSnapshot {
    pub is_focused: bool,
    pub custom_vertical_tabs_title: Option<String>,
    pub contents: LeafContents,
}

pub enum PaneNodeSnapshot {
    Branch { direction: SplitDirection, children: Vec<PaneNodeSnapshot> },
    Leaf(LeafSnapshot),
}

pub struct TabSnapshot {
    pub custom_title: Option<String>,
    pub root: PaneNodeSnapshot,
}

pub struct WorkspaceGroupSnapshot {
    pub name: String,
    pub color: AnsiColorIdentifier,
    pub tabs: Vec<TabSnapshot>,
    pub active_tab_index: usize,
}

pub struct WindowSnapshot {
    pub tabs: Vec<TabSnapshot>,
    pub active_tab_index: usize,
    pub workspace_groups: Vec<WorkspaceGroupSnapshot>,
    pub active_workspace_group_index: usize,
}

pub struct AppState {
    pub windows: Vec<WindowSnapshot>,
    pub active_window_index: Option<usize>,
}

// ----- the launch configuration -----

#[derive(Debug, Clone, Copy, PartialEq, Eq, Structural)]
pub enum PaneMode {
    Terminal,
}

#[derive(Debug, PartialEq)]
pub enum PaneTemplateType {
    PaneTemplate {
        is_focused: Option<bool>,
        cwd: String,
        commands: Vec<String>,
        pane_mode: PaneMode,
        shell: Option<String>,
    },
    PaneBranchTemplate { split_direction: SplitDirection, panes: Vec<PaneTemplateType> },
}

#[derive(Debug, PartialEq)]
pub struct TabTemplate {
    pub title: Option<String>,
    pub layout: PaneTemplateType,
}

#[derive(Debug, PartialEq)]
pub struct WorkspaceGroupTemplate {
    pub name: String,
    pub color: Option<AnsiColorIdentifier>,
    pub tabs: Vec<TabTemplate>,
    pub active_tab_index: Option<usize>,
}

#[derive(Debug, PartialEq)]
pub struct WindowTemplate {
    pub tabs: Vec<TabTemplate>,
    pub active_tab_index: Option<usize>,
    pub workspace_groups: Vec<WorkspaceGroupTemplate>,
    pub active_workspace_group_index: Option<usize>,
}

#[derive(Debug, PartialEq)]
pub struct LaunchConfig {
    pub name: String,
    pub windows: Vec<WindowTemplate>,
    pub active_window_index: Option<usize>,
}

// ----- abstract layouts -----

/// A pane layout read abstractly.
pub enum LayoutView {
    Pane {
        is_focused: Option<bool>,
        cwd: Seq<char>,
        commands: Seq<Seq<char>>,
        pane_mode: PaneMode,
        shell: Option<Seq<char>>,
    },
    Split { direction: SplitDirection, panes: Seq<LayoutView> },
}

pub open spec fn text_view(s: Option<String>) -> Option<Seq<char>> {
    match s {
        Some(t) => Some(t@),
        None => None,
    }
}

/// The layout a pane template stands for.
pub open spec fn layout_view(t: PaneTemplateType) -> LayoutView
    decreases t,
{
    match t {
        PaneTemplateType::PaneTemplate { is_focused, cwd, commands, pane_mode, shell } => {
            LayoutView::Pane {
                is_focused,
                cwd: cwd@,
                commands: commands@.map_values(|c: String| c@),
                pane_mode,
                shell: text_view(shell),
            }
        },
        PaneTemplateType::PaneBranchTemplate { split_direction, panes } => LayoutView::Split {
            direction: split_direction,
            panes: layout_views(panes@),
        },
    }
}

pub open spec fn layout_views(ts: Seq<PaneTemplateType>) -> Seq<LayoutView>
    decreases ts,
{
    if ts.len() == 0 {
        Seq::empty()
    } else {
        layout_views(ts.drop_last()).push(layout_view(ts.last()))
    }
}

/// The layout kept of a leaf: a terminal pane, focused as it was, in its
/// working directory, with no commands and the default shell; nothing for a
/// terminal whose directory is unknown, or for any other pane.
pub open spec fn leaf_layout(leaf: LeafSnapshot) -> Option<LayoutView> {
    match leaf.contents {
        LeafContents::Terminal(t) => match t.cwd {
            Some(cwd) => Some(
                LayoutView::Pane {
                    is_focused: Some(leaf.is_focused),
                    cwd: cwd@,
                    commands: Seq::empty(),
                    pane_mode: PaneMode::Terminal,
                    shell: None,
                },
            ),
            None => None,
        },
        LeafContents::Notebook(_) => None,
    }
}

/// The layout kept of a pane tree.
pub open spec fn node_layout(n: PaneNodeSnapshot) -> Option<LayoutView>
    decreases n,
{
    match n {
        PaneNodeSnapshot::Leaf(l) => leaf_layout(l),
        PaneNodeSnapshot::Branch { direction, children } => {
            let kept = kept_layouts(children@);
            if kept.len() == 0 {
                None
            } else if kept.len() == 1 {
                Some(kept[0])
            } else {
                Some(LayoutView::Split { direction, panes: kept })
            }
        },
    }
}

/// The layouts kept of a row of pane trees, in order.
pub open spec fn kept_layouts(cs: Seq<PaneNodeSnapshot>) -> Seq<LayoutView>
    decreases cs,
{
    if cs.len() == 0 {
        Seq::empty()
    } else {
        let rest = kept_layouts(cs.drop_last());
        match node_layout(cs.last()) {
            Some(l) => rest.push(l),
            None => rest,
        }
    }
}

/// A tab read abstractly: its title and layout.
pub open spec fn tab_view(t: TabTemplate) -> (Option<Seq<char>>, LayoutView) {
    (text_view(t.title), layout_view(t.layout))
}

/// The tab template kept of a tab, if any of its panes is kept.
pub open spec fn tab_layout(tab: TabSnapshot) -> Option<(Option<Seq<char>>, LayoutView)> {
    match node_layout(tab.root) {
        Some(l) => Some((text_view(tab.custom_title), l)),
        None => None,
    }
}

/// The tabs kept, in order.
pub open spec fn kept_tabs(tabs: Seq<TabSnapshot>) -> Seq<(Option<Seq<char>>, LayoutView)>
    decreases tabs.len(),
{
    if tabs.len() == 0 {
        Seq::empty()
    } else {
        let rest = kept_tabs(tabs.drop_last());
        match tab_layout(tabs.last()) {
            Some(t) => rest.push(t),
            None => rest,
        }
    }
}

/// Where the active tab ends up: after the kept tabs before it, if it is kept.
pub open spec fn kept_active_index(tabs: Seq<TabSnapshot>, active: int) -> Option<int> {
    if 0 <= active < tabs.len() && tab_layout(tabs[active]) is Some {
        Some(kept_tabs(tabs.take(active)).len() as int)
    } else {
        None
    }
}

pub open spec fn tab_views(ts: Seq<TabTemplate>) -> Seq<(Option<Seq<char>>, LayoutView)> {
    ts.map_values(|t: TabTemplate| tab_view(t))
}

pub open spec fn index_view(i: Option<usize>) -> Option<int> {
    match i {
        Some(j) => Some(j as int),
        None => None,
    }
}

// ----- conversion -----

fn copy_text(s: &Option<String>) -> (r: Option<String>)
    ensures
        text_view(r) == text_view(*s),
{
    match s {
        Some(t) => Some(t.clone()),
        None => None,
    }
}

proof fn lemma_layout_views_len(ts: Seq<PaneTemplateType>)
    ensures
        layout_views(ts).len() == ts.len(),
    decreases ts.len(),
{
    if ts.len() > 0 {
        lemma_layout_views_len(ts.drop_last());
    }
}

proof fn lemma_layout_views_push(ts: Seq<PaneTemplateType>, t: PaneTemplateType)
    ensures
        layout_views(ts.push(t)) == layout_views(ts).push(layout_view(t)),
{
    assert(ts.push(t).drop_last() =~= ts);
}

/// The template kept of a pane tree.
pub fn pane_template(node: &PaneNodeSnapshot) -> (r: Option<PaneTemplateType>)
    ensures
        match r {
            Some(t) => node_layout(*node) == Some(layout_view(t)),
            None => node_layout(*node) is None,
        },
    decreases node,
{
    match node {
        PaneNodeSnapshot::Leaf(leaf) => match &leaf.contents {
            LeafContents::Terminal(t) => match &t.cwd {
                Some(cwd) => {
                    let commands: Vec<String> = Vec::new();
                    let r = PaneTemplateType::PaneTemplate {
                        is_focused: Some(leaf.is_focused),
                        cwd: cwd.clone(),
                        commands,
                        pane_mode: PaneMode::Terminal,
                        shell: None,
                    };
                    assert(commands@.map_values(|c: String| c@) =~= Seq::<Seq<char>>::empty());
                    Some(r)
                },
                None => None,
            },
            LeafContents::Notebook(_) => None,
        },
        PaneNodeSnapshot::Branch { direction, children } => {
            let mut panes: Vec<PaneTemplateType> = Vec::new();
            let n = children.len();
            assert(children@.take(0) =~= Seq::<PaneNodeSnapshot>::empty());
            for i in 0..n
                invariant
                    n == children@.len(),
                    *node is Branch,
                    node->children == *children,
                    layout_views(panes@) == kept_layouts(children@.take(i as int)),
            {
                let child = &children[i];
                assert(children@.take(i + 1).drop_last() =~= children@.take(
                    i as int,
                ));
                assert(children@.take(i + 1).last() == *child);
                proof {
                    assert(decreases_to!(*node => node->children));
                    assert(decreases_to!(node->children => node->children@));
                    assert(decreases_to!(node->children@ => node->children@[i as int]));
                }
                match pane_template(child) {
                    Some(t) => {
                        proof {
                            lemma_layout_views_push(panes@, t);
                        }
                        panes.push(t);
                    },
                    None => {},
                }
            }
            assert(children@.take(n as int) =~= children@);
            proof {
                lemma_layout_views_len(panes@);
            }
            if panes.len() == 0 {
                None
            } else if panes.len() == 1 {
                let ghost ps = panes@;
                assert(ps.drop_last() =~= Seq::<PaneTemplateType>::empty());
                assert(layout_views(ps) == layout_views(ps.drop_last()).push(layout_view(ps.last())));
                assert(layout_views(ps)[0] == layout_view(ps[0]));
                let t = panes.remove(0);
                assert(t == ps[0]);
                Some(t)
            } else {
                Some(PaneTemplateType::PaneBranchTemplate { split_direction: *direction, panes })
            }
        },
    }
}

/// The template kept of a tab.
pub fn tab_template(tab: &TabSnapshot) -> (r: Option<TabTemplate>)
    ensures
        match r {
            Some(t) => tab_layout(*tab) == Some(tab_view(t)),
            None => tab_layout(*tab) is None,
        },
{
    match pane_template(&tab.root) {
        Some(layout) => Some(TabTemplate { title: copy_text(&tab.custom_title), layout }),
        None => None,
    }
}

/// The kept tabs and where the active one went.
pub fn tab_templates(tabs: &Vec<TabSnapshot>, active_tab_index: usize) -> (r: (
    Vec<TabTemplate>,
    Option<usize>,
))
    ensures
        tab_views(r.0@) == kept_tabs(tabs@),
        index_view(r.1) == kept_active_index(tabs@, active_tab_index as int),
{
    let mut kept: Vec<TabTemplate> = Vec::new();
    let mut active: Option<usize> = None;
    let n = tabs.len();
    assert(tabs@.take(0) =~= Seq::<TabSnapshot>::empty());
    assert(tab_views(kept@) =~= Seq::empty());
    for i in 0..n
        invariant
            n == tabs@.len(),
            tab_views(kept@) == kept_tabs(tabs@.take(i as int)),
            kept@.len() <= i,
            index_view(active) == (if active_tab_index < i {
                kept_active_index(tabs@, active_tab_index as int)
            } else {
                None
            }),
    {
        assert(tabs@.take(i + 1).drop_last() =~= tabs@.take(i as int));
        assert(tabs@.take(i + 1).last() == tabs@[i as int]);
        match tab_template(&tabs[i]) {
            Some(t) => {
                if i == active_tab_index {
                    active = Some(kept.len());
                }
                let ghost before = kept@;
                kept.push(t);
                assert(tab_views(kept@) =~= tab_views(before).push(tab_view(t)));
            },
            None => {},
        }
    }
    assert(tabs@.take(n as int) =~= tabs@);
    (kept, active)
}

/// A workspace group read abstractly.
pub struct GroupView {
    pub name: Seq<char>,
    pub color: Option<AnsiColorIdentifier>,
    pub tabs: Seq<(Option<Seq<char>>, LayoutView)>,
    pub active_tab_index: Option<int>,
}

pub open spec fn group_view(g: WorkspaceGroupTemplate) -> GroupView {
    GroupView {
        name: g.name@,
        color: g.color,
        tabs: tab_views(g.tabs@),
        active_tab_index: index_view(g.active_tab_index),
    }
}

/// A workspace group as saved: its name, its color, its kept tabs and where
/// its active tab went.
pub open spec fn saved_group(g: WorkspaceGroupSnapshot) -> GroupView {
    GroupView {
        name: g.name@,
        color: Some(g.color),
        tabs: kept_tabs(g.tabs@),
        active_tab_index: kept_active_index(g.tabs@, g.active_tab_index as int),
    }
}

pub fn workspace_group_template(group: &WorkspaceGroupSnapshot) -> (r: WorkspaceGroupTemplate)
    ensures
        group_view(r) == saved_group(*group),
{
    let (tabs, active_tab_index) = tab_templates(&group.tabs, group.active_tab_index);
    WorkspaceGroupTemplate { name: group.name.clone(), color: Some(group.color), tabs, active_tab_index }
}

/// A window read abstractly.
pub struct WindowView {
    pub tabs: Seq<(Option<Seq<char>>, LayoutView)>,
    pub active_tab_index: Option<int>,
    pub workspace_groups: Seq<GroupView>,
    pub active_workspace_group_index: Option<int>,
}

pub open spec fn window_view(w: WindowTemplate) -> WindowView {
    WindowView {
        tabs: tab_views(w.tabs@),
        active_tab_index: index_view(w.active_tab_index),
        workspace_groups: w.workspace_groups@.map_values(|g: WorkspaceGroupTemplate| group_view(g)),
        active_workspace_group_index: index_view(w.active_workspace_group_index),
    }
}

/// A window as saved: its kept tabs, where its active tab went, its workspace
/// groups, and the active group when it has groups.
pub open spec fn saved_window(w: WindowSnapshot) -> WindowView {
    WindowView {
        tabs: kept_tabs(w.tabs@),
        active_tab_index: kept_active_index(w.tabs@, w.active_tab_index as int),
        workspace_groups: w.workspace_groups@.map_values(|g: WorkspaceGroupSnapshot| saved_group(g)),
        active_workspace_group_index: if w.workspace_groups@.len() == 0 {
            None
        } else {
            Some(w.active_workspace_group_index as int)
        },
    }
}

pub fn window_template(window: &WindowSnapshot) -> (r: WindowTemplate)
    ensures
        window_view(r) == saved_window(*window),
{
    let (tabs, active_tab_index) = tab_templates(&window.tabs, window.active_tab_index);
    let mut groups: Vec<WorkspaceGroupTemplate> = Vec::new();
    let n = window.workspace_groups.len();
    for i in 0..n
        invariant
            n == window.workspace_groups@.len(),
            groups@.len() == i,
            forall|j: int|
                0 <= j < i ==> group_view(#[trigger] groups@[j]) == saved_group(
                    window.workspace_groups@[j],
                ),
    {
        groups.push(workspace_group_template(&window.workspace_groups[i]));
    }
    let active_workspace_group_index = if n == 0 {
        None
    } else {
        Some(window.active_workspace_group_index)
    };
    let r = WindowTemplate { tabs, active_tab_index, workspace_groups: groups, active_workspace_group_index };
    assert(r.workspace_groups@.map_values(|g: WorkspaceGroupTemplate| group_view(g)) =~= window.workspace_groups@.map_values(
        |g: WorkspaceGroupSnapshot| saved_group(g),
    ));
    r
}

impl LaunchConfig {
    /// Saves the application state under `name`: one window template per
    /// window, and the same active window.
    pub fn from_snapshot(name: String, state: &AppState) -> (r: LaunchConfig)
        ensures
            r.name@ == name@,
            r.active_window_index == state.active_window_index,
            r.windows@.len() == state.windows@.len(),
            forall|i: int|
                0 <= i < r.windows@.len() ==> window_view(#[trigger] r.windows@[i]) == saved_window(
                    state.windows@[i],
                ),
    {
        let mut windows: Vec<WindowTemplate> = Vec::new();
        let n = state.windows.len();
        for i in 0..n
            invariant
                n == state.windows@.len(),
                windows@.len() == i,
                forall|j: int|
                    0 <= j < i ==> window_view(#[trigger] windows@[j]) == saved_window(
                        state.windows@[j],
                    ),
        {
            windows.push(window_template(&state.windows[i]));
        }
        LaunchConfig { name, windows, active_window_index: state.active_window_index }
    }
}

// ----- laws -----

proof fn lemma_kept_tabs_prefix(tabs: Seq<TabSnapshot>, j: int)
    requires
        0 <= j <= tabs.len(),
    ensures
        kept_tabs(tabs.take(j)).len() <= kept_tabs(tabs).len(),
        kept_tabs(tabs).len() <= tabs.len(),
        forall|i: int|
            0 <= i < kept_tabs(tabs.take(j)).len() ==> #[trigger] kept_tabs(tabs.take(j))[i]
                == kept_tabs(tabs)[i],
    decreases tabs.len(),
{
    if tabs.len() == 0 {
        assert(tabs.take(j) =~= tabs);
    } else if j == tabs.len() {
        assert(tabs.take(j) =~= tabs);
        lemma_kept_tabs_prefix(tabs.drop_last(), 0);
    } else {
        let t = tabs.drop_last();
        assert(tabs.take(j) =~= t.take(j));
        lemma_kept_tabs_prefix(t, j);
    }
}

/// A saved window never has more tabs than it had open.
pub proof fn law_no_tab_invented(tabs: Seq<TabSnapshot>)
    ensures
        kept_tabs(tabs).len() <= tabs.len(),
{
    lemma_kept_tabs_prefix(tabs, 0);
}

/// A saved active tab index, when there is one, designates the active tab's
/// own template.
pub proof fn law_active_tab_kept(tabs: Seq<TabSnapshot>, active: int)
    requires
        kept_active_index(tabs, active) is Some,
    ensures
        0 <= kept_active_index(tabs, active)->0 < kept_tabs(tabs).len(),
        tab_layout(tabs[active]) == Some(kept_tabs(tabs)[kept_active_index(tabs, active)->0]),
{
    let k = kept_active_index(tabs, active)->0;
    assert(tabs.take(active + 1).drop_last() =~= tabs.take(active));
    assert(tabs.take(active + 1).last() == tabs[active]);
    lemma_kept_tabs_prefix(tabs, active + 1);
    assert(kept_tabs(tabs.take(active + 1))[k] == kept_tabs(tabs)[k]);
}

/// Whether the active tab of `tabs` is kept: it exists and has a kept pane.
pub open spec fn active_tab_is_kept(tabs: Seq<TabSnapshot>, active: int) -> bool {
    0 <= active < tabs.len() && tab_layout(tabs[active]) is Some
}

/// The saved active index of a list of tabs is present exactly when the
/// active tab is kept, and then it lies within the saved tabs and designates
/// the active tab's own template, after all the kept tabs before it.
proof fn lemma_saved_active_index(tabs: Seq<TabSnapshot>, active: int)
    ensures
        kept_active_index(tabs, active) is Some <==> active_tab_is_kept(tabs, active),
        kept_active_index(tabs, active) matches Some(k) ==> {
            &&& 0 <= k < kept_tabs(tabs).len()
            &&& Some(kept_tabs(tabs)[k]) == tab_layout(tabs[active])
            &&& forall|j: int|
                0 <= j < k ==> #[trigger] kept_tabs(tabs)[j] == kept_tabs(tabs.take(active))[j]
            &&& k == kept_tabs(tabs.take(active)).len()
        },
{
    if kept_active_index(tabs, active) is Some {
        law_active_tab_kept(tabs, active);
        lemma_kept_tabs_prefix(tabs, active);
    }
}

/// In a saved window, the active tab index and the active tab index of every
/// workspace group are present exactly when that active tab is kept; then the
/// index lies within the saved tabs and designates the active tab's own
/// template, counting only the kept tabs before it.
pub proof fn law_saved_active_tabs(w: WindowSnapshot, g: int)
    ensures
        saved_window(w).active_tab_index is Some <==> active_tab_is_kept(
            w.tabs@,
            w.active_tab_index as int,
        ),
        saved_window(w).active_tab_index matches Some(k) ==> 0 <= k < saved_window(w).tabs.len()
            && Some(saved_window(w).tabs[k]) == tab_layout(w.tabs@[w.active_tab_index as int]),
        0 <= g < w.workspace_groups@.len() ==> {
            let group = w.workspace_groups@[g];
            let saved = saved_window(w).workspace_groups[g];
            &&& saved.tabs == kept_tabs(group.tabs@)
            &&& saved.active_tab_index is Some <==> active_tab_is_kept(
                group.tabs@,
                group.active_tab_index as int,
            )
            &&& saved.active_tab_index matches Some(k) ==> 0 <= k < saved.tabs.len() && Some(
                saved.tabs[k],
            ) == tab_layout(group.tabs@[group.active_tab_index as int])
        },
{
    lemma_saved_active_index(w.tabs@, w.active_tab_index as int);
    if 0 <= g < w.workspace_groups@.len() {
        let group = w.workspace_groups@[g];
        lemma_saved_active_index(group.tabs@, group.active_tab_index as int);
    }
}

} // verus!

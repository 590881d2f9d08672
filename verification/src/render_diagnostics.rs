//! Per-window render diagnostics: event counters, accumulated durations and
//! repaint sources, plus the periodic delta report used for logging.
//!
//! The process-wide state, the environment switches and the log sink live with
//! the caller; every operation here takes the state it works on.

use vstd::prelude::*;

use crate::assoc::{
    assoc_map, keys_unique, lemma_assoc_absent, lemma_assoc_dom, lemma_assoc_index,
    lemma_assoc_push, lemma_assoc_update,
};

verus! {

/// A render pipeline event that is counted (and, for some, timed).
#[derive(Debug, Clone, Copy, Hash, PartialEq, Eq, Structural)]
pub enum RenderDiagnosticEvent {
    RequestRedraw,
    DisplayAlreadyPending,
    SetNeedsDisplayAsync,
    RenderScene,
    SubmitScene,
    RequestFrameCapture,
    RedrawRequested,
    SceneBuild,
    MacUpdateLayer,
    NextDrawable,
    CommandBufferCommit,
    CommandBufferWait,
    GpuActive,
    Present,
    TerminalSurfaceSubmitted,
    TerminalSurfaceRows,
    TerminalSurfaceDirtyRows,
    TerminalSurfaceFullFallback,
    TerminalWakeup,
    TerminalWakeupRendered,
    TerminalWakeupDeferred,
    TerminalWakeupThrottled,
    TerminalWakeupHidden,
}

/// Identifies a window.
#[derive(Debug, Clone, Copy, Hash, PartialEq, Eq, Structural)]
pub struct WindowId(pub u64);

/// What one window has recorded. Each list holds every key at most once.
pub struct WindowRenderDiagnostics {
    pub counters: Vec<(RenderDiagnosticEvent, u64)>,
    pub durations_us: Vec<(RenderDiagnosticEvent, u64)>,
    pub repaint_sources: Vec<(String, u64)>,
}

/// The abstract content of a window's diagnostics.
#[verifier::ext_equal]
pub struct WindowDiagnosticsView {
    pub counters: Map<RenderDiagnosticEvent, u64>,
    pub durations_us: Map<RenderDiagnosticEvent, u64>,
    pub repaint_sources: Map<Seq<char>, u64>,
}

/// Repaint-source pairs keyed by the text of the source.
pub open spec fn source_pairs(s: Seq<(String, u64)>) -> Seq<(Seq<char>, u64)> {
    s.map_values(|p: (String, u64)| (p.0@, p.1))
}

impl View for WindowRenderDiagnostics {
    type V = WindowDiagnosticsView;

    open spec fn view(&self) -> WindowDiagnosticsView {
        WindowDiagnosticsView {
            counters: assoc_map(self.counters@),
            durations_us: assoc_map(self.durations_us@),
            repaint_sources: assoc_map(source_pairs(self.repaint_sources@)),
        }
    }
}

pub open spec fn empty_window_view() -> WindowDiagnosticsView {
    WindowDiagnosticsView {
        counters: Map::empty(),
        durations_us: Map::empty(),
        repaint_sources: Map::empty(),
    }
}

impl WindowRenderDiagnostics {
    pub open spec fn wf(&self) -> bool {
        &&& keys_unique(self.counters@)
        &&& keys_unique(self.durations_us@)
        &&& keys_unique(source_pairs(self.repaint_sources@))
    }

    /// A window with nothing recorded.
    pub fn new() -> (r: WindowRenderDiagnostics)
        ensures
            r.wf(),
            r@ == empty_window_view(),
    {
        let r = WindowRenderDiagnostics {
            counters: Vec::new(),
            durations_us: Vec::new(),
            repaint_sources: Vec::new(),
        };
        assert(source_pairs(r.repaint_sources@) =~= Seq::empty());
        r
    }

    /// How often `event` was recorded, if it ever was.
    pub fn counter(&self, event: RenderDiagnosticEvent) -> (r: Option<u64>)
        requires
            self.wf(),
        ensures
            r == map_get(self@.counters, event),
    {
        lookup_event(&self.counters, event)
    }

    /// The microseconds accumulated for `event`, if a duration was ever recorded.
    pub fn duration_us(&self, event: RenderDiagnosticEvent) -> (r: Option<u64>)
        requires
            self.wf(),
        ensures
            r == map_get(self@.durations_us, event),
    {
        lookup_event(&self.durations_us, event)
    }

    /// How often `source` asked for a repaint, if it ever did.
    pub fn repaint_source_count(&self, source: &str) -> (r: Option<u64>)
        requires
            self.wf(),
        ensures
            r == map_get(self@.repaint_sources, source@),
    {
        match find_source(&self.repaint_sources, source) {
            Some(i) => {
                proof {
                    lemma_assoc_index(source_pairs(self.repaint_sources@), i as int);
                }
                Some(self.repaint_sources[i].1)
            },
            None => {
                proof {
                    lemma_assoc_absent(source_pairs(self.repaint_sources@), source@);
                }
                None
            },
        }
    }

    /// A copy with the same content.
    pub fn duplicate(&self) -> (r: WindowRenderDiagnostics)
        requires
            self.wf(),
        ensures
            r.wf(),
            r@ == self@,
            r.counters@ == self.counters@,
            r.durations_us@ == self.durations_us@,
            r.repaint_sources@ == self.repaint_sources@,
    {
        WindowRenderDiagnostics {
            counters: copy_event_pairs(&self.counters),
            durations_us: copy_event_pairs(&self.durations_us),
            repaint_sources: copy_source_pairs(&self.repaint_sources),
        }
    }
}

/// The value a map holds for a key, as an `Option`.
pub open spec fn map_get<K, V>(m: Map<K, V>, k: K) -> Option<V> {
    if m.dom().contains(k) {
        Some(m[k])
    } else {
        None
    }
}

/// All windows' diagnostics; each window appears at most once.
pub struct RenderDiagnosticsSnapshot {
    pub windows: Vec<(WindowId, WindowRenderDiagnostics)>,
}

/// Window pairs read abstractly.
pub open spec fn window_pairs(s: Seq<(WindowId, WindowRenderDiagnostics)>) -> Seq<
    (WindowId, WindowDiagnosticsView),
> {
    s.map_values(|p: (WindowId, WindowRenderDiagnostics)| (p.0, p.1@))
}

impl View for RenderDiagnosticsSnapshot {
    type V = Map<WindowId, WindowDiagnosticsView>;

    open spec fn view(&self) -> Map<WindowId, WindowDiagnosticsView> {
        assoc_map(window_pairs(self.windows@))
    }
}

impl RenderDiagnosticsSnapshot {
    pub open spec fn wf(&self) -> bool {
        &&& keys_unique(window_pairs(self.windows@))
        &&& forall|i: int| 0 <= i < self.windows@.len() ==> (#[trigger] self.windows@[i]).1.wf()
    }

    /// A snapshot with no windows.
    pub fn new() -> (r: RenderDiagnosticsSnapshot)
        ensures
            r.wf(),
            r@ == Map::<WindowId, WindowDiagnosticsView>::empty(),
    {
        let r = RenderDiagnosticsSnapshot { windows: Vec::new() };
        assert(window_pairs(r.windows@) =~= Seq::empty());
        r
    }

    /// The diagnostics of one window, if it recorded anything.
    pub fn window(&self, window_id: WindowId) -> (r: Option<&WindowRenderDiagnostics>)
        requires
            self.wf(),
        ensures
            r is Some <==> self@.dom().contains(window_id),
            r matches Some(w) ==> w.wf() && w@ == self@[window_id],
    {
        match find_window(&self.windows, window_id) {
            Some(i) => {
                proof {
                    lemma_assoc_index(window_pairs(self.windows@), i as int);
                }
                Some(&self.windows[i].1)
            },
            None => {
                proof {
                    lemma_assoc_absent(window_pairs(self.windows@), window_id);
                }
                None
            },
        }
    }

    /// A copy with the same content.
    pub fn duplicate(&self) -> (r: RenderDiagnosticsSnapshot)
        requires
            self.wf(),
        ensures
            r.wf(),
            r@ == self@,
            window_pairs(r.windows@) == window_pairs(self.windows@),
    {
        let mut windows: Vec<(WindowId, WindowRenderDiagnostics)> = Vec::new();
        let n = self.windows.len();
        for i in 0..n
            invariant
                n == self.windows@.len(),
                self.wf(),
                windows@.len() == i,
                forall|j: int| 0 <= j < i ==> (#[trigger] windows@[j]).1.wf(),
                window_pairs(windows@) =~= window_pairs(self.windows@).take(i as int),
        {
            let w = self.windows[i].1.duplicate();
            windows.push((self.windows[i].0, w));
            assert(window_pairs(windows@) =~= window_pairs(self.windows@).take(i + 1));
        }
        assert(window_pairs(self.windows@).take(n as int) =~= window_pairs(self.windows@));
        RenderDiagnosticsSnapshot { windows }
    }
}

/// The state at the last delta report.
pub struct RenderDiagnosticsLogState {
    /// When the report was taken, in nanoseconds on the caller's monotonic clock.
    pub instant_nanos: u64,
    pub snapshot: RenderDiagnosticsSnapshot,
}

/// Everything the diagnostics keep between calls.
pub struct RenderDiagnosticsState {
    /// Whether events are recorded at all.
    pub enabled: bool,
    /// Whether periodic delta reports are produced.
    pub log_deltas: bool,
    pub snapshot: RenderDiagnosticsSnapshot,
    pub last_log: Option<RenderDiagnosticsLogState>,
    /// Microseconds of GPU activity over all windows, counted even while
    /// recording is disabled.
    pub total_gpu_active_us: u64,
}

/// The abstract content of the diagnostics state.
#[verifier::ext_equal]
pub struct DiagnosticsStateView {
    pub enabled: bool,
    pub log_deltas: bool,
    pub windows: Map<WindowId, WindowDiagnosticsView>,
    pub last_log: Option<(u64, Map<WindowId, WindowDiagnosticsView>)>,
    pub total_gpu_active_us: u64,
}

impl View for RenderDiagnosticsState {
    type V = DiagnosticsStateView;

    open spec fn view(&self) -> DiagnosticsStateView {
        DiagnosticsStateView {
            enabled: self.enabled,
            log_deltas: self.log_deltas,
            windows: self.snapshot@,
            last_log: match self.last_log {
                Some(l) => Some((l.instant_nanos, l.snapshot@)),
                None => None,
            },
            total_gpu_active_us: self.total_gpu_active_us,
        }
    }
}

impl RenderDiagnosticsState {
    pub open spec fn wf(&self) -> bool {
        &&& self.snapshot.wf()
        &&& self.last_log matches Some(l) ==> l.snapshot.wf()
    }

    /// Fresh state with the given switches.
    pub fn new(enabled: bool, log_deltas: bool) -> (r: RenderDiagnosticsState)
        ensures
            r.wf(),
            r@ == (DiagnosticsStateView {
                enabled,
                log_deltas,
                windows: Map::empty(),
                last_log: None,
                total_gpu_active_us: 0,
            }),
    {
        RenderDiagnosticsState {
            enabled,
            log_deltas,
            snapshot: RenderDiagnosticsSnapshot::new(),
            last_log: None,
            total_gpu_active_us: 0,
        }
    }
}

// ----- the abstract effect of each operation -----

/// The value a counter holds, reading an absent one as zero.
pub open spec fn value_or_zero<K>(m: Map<K, u64>, k: K) -> int {
    if m.dom().contains(k) {
        m[k] as int
    } else {
        0
    }
}

/// A counter map with `amount` added to the counter of `k`.
pub open spec fn bump<K>(m: Map<K, u64>, k: K, amount: int) -> Map<K, u64> {
    m.insert(k, (value_or_zero(m, k) + amount) as u64)
}

/// A window's diagnostics, reading an absent window as empty.
pub open spec fn window_or_empty(
    windows: Map<WindowId, WindowDiagnosticsView>,
    window_id: WindowId,
) -> WindowDiagnosticsView {
    if windows.dom().contains(window_id) {
        windows[window_id]
    } else {
        empty_window_view()
    }
}

/// The windows after `count` occurrences of `event` in `window_id`.
pub open spec fn counted(
    windows: Map<WindowId, WindowDiagnosticsView>,
    window_id: WindowId,
    event: RenderDiagnosticEvent,
    count: u64,
) -> Map<WindowId, WindowDiagnosticsView> {
    let w = window_or_empty(windows, window_id);
    windows.insert(
        window_id,
        WindowDiagnosticsView {
            counters: bump(w.counters, event, count as int),
            durations_us: w.durations_us,
            repaint_sources: w.repaint_sources,
        },
    )
}

/// The windows after one timed occurrence of `event` lasting `us` microseconds.
pub open spec fn timed(
    windows: Map<WindowId, WindowDiagnosticsView>,
    window_id: WindowId,
    event: RenderDiagnosticEvent,
    us: u64,
) -> Map<WindowId, WindowDiagnosticsView> {
    let w = window_or_empty(windows, window_id);
    windows.insert(
        window_id,
        WindowDiagnosticsView {
            counters: bump(w.counters, event, 1),
            durations_us: bump(w.durations_us, event, us as int),
            repaint_sources: w.repaint_sources,
        },
    )
}

/// The windows after one repaint requested by `source`.
pub open spec fn sourced(
    windows: Map<WindowId, WindowDiagnosticsView>,
    window_id: WindowId,
    source: Seq<char>,
) -> Map<WindowId, WindowDiagnosticsView> {
    let w = window_or_empty(windows, window_id);
    windows.insert(
        window_id,
        WindowDiagnosticsView {
            counters: w.counters,
            durations_us: w.durations_us,
            repaint_sources: bump(w.repaint_sources, source, 1),
        },
    )
}

/// A duration in microseconds as the duration total receives it: the low 64
/// bits.
pub open spec fn truncated_us(duration_us: u128) -> u64 {
    (duration_us % 0x1_0000_0000_0000_0000) as u64
}

/// A duration in microseconds capped at `u64::MAX`, as the GPU total receives it.
pub open spec fn capped_us(duration_us: u128) -> u64 {
    if duration_us > u64::MAX {
        u64::MAX
    } else {
        duration_us as u64
    }
}

// ----- list helpers -----

fn find_event(v: &Vec<(RenderDiagnosticEvent, u64)>, event: RenderDiagnosticEvent) -> (r: Option<
    usize,
>)
    ensures
        r matches Some(i) ==> i < v@.len() && v@[i as int].0 == event,
        r is None ==> forall|i: int| 0 <= i < v@.len() ==> #[trigger] v@[i].0 != event,
{
    let n = v.len();
    for i in 0..n
        invariant
            n == v@.len(),
            forall|j: int| 0 <= j < i ==> #[trigger] v@[j].0 != event,
    {
        if v[i].0 == event {
            return Some(i);
        }
    }
    None
}

fn lookup_event(v: &Vec<(RenderDiagnosticEvent, u64)>, event: RenderDiagnosticEvent) -> (r: Option<
    u64,
>)
    requires
        keys_unique(v@),
    ensures
        r == map_get(assoc_map(v@), event),
{
    match find_event(v, event) {
        Some(i) => {
            proof {
                lemma_assoc_index(v@, i as int);
            }
            Some(v[i].1)
        },
        None => {
            proof {
                lemma_assoc_absent(v@, event);
            }
            None
        },
    }
}

fn find_source(v: &Vec<(String, u64)>, source: &str) -> (r: Option<usize>)
    ensures
        r matches Some(i) ==> i < v@.len() && source_pairs(v@)[i as int].0 == source@,
        r is None ==> forall|i: int|
            0 <= i < v@.len() ==> #[trigger] source_pairs(v@)[i].0 != source@,
{
    let key = String::from_str(source);
    let n = v.len();
    for i in 0..n
        invariant
            n == v@.len(),
            key@ == source@,
            forall|j: int| 0 <= j < i ==> #[trigger] source_pairs(v@)[j].0 != source@,
    {
        if v[i].0 == key {
            return Some(i);
        }
    }
    None
}

fn find_window(v: &Vec<(WindowId, WindowRenderDiagnostics)>, window_id: WindowId) -> (r: Option<
    usize,
>)
    ensures
        r matches Some(i) ==> i < v@.len() && v@[i as int].0 == window_id,
        r is None ==> forall|i: int|
            0 <= i < v@.len() ==> #[trigger] window_pairs(v@)[i].0 != window_id,
{
    let n = v.len();
    for i in 0..n
        invariant
            n == v@.len(),
            forall|j: int| 0 <= j < i ==> #[trigger] window_pairs(v@)[j].0 != window_id,
    {
        if v[i].0 == window_id {
            return Some(i);
        }
    }
    None
}

fn add_to_event(v: &mut Vec<(RenderDiagnosticEvent, u64)>, event: RenderDiagnosticEvent, amount: u64)
    requires
        keys_unique(old(v)@),
        value_or_zero(assoc_map(old(v)@), event) + amount <= u64::MAX,
    ensures
        keys_unique(final(v)@),
        assoc_map(final(v)@) == bump(assoc_map(old(v)@), event, amount as int),
{
    match find_event(v, event) {
        Some(i) => {
            proof {
                lemma_assoc_index(v@, i as int);
            }
            let current = v[i].1;
            proof {
                lemma_assoc_update(v@, i as int, (current + amount) as u64);
            }
            v[i] = (event, current + amount);
        },
        None => {
            proof {
                lemma_assoc_absent(v@, event);
                lemma_assoc_push(v@, event, amount);
            }
            v.push((event, amount));
        },
    }
}

fn add_to_source(v: &mut Vec<(String, u64)>, source: &str, amount: u64)
    requires
        keys_unique(source_pairs(old(v)@)),
        value_or_zero(assoc_map(source_pairs(old(v)@)), source@) + amount <= u64::MAX,
    ensures
        keys_unique(source_pairs(final(v)@)),
        assoc_map(source_pairs(final(v)@)) == bump(
            assoc_map(source_pairs(old(v)@)),
            source@,
            amount as int,
        ),
{
    let ghost pairs = source_pairs(v@);
    match find_source(v, source) {
        Some(i) => {
            proof {
                lemma_assoc_index(pairs, i as int);
            }
            let current = v[i].1;
            let key = String::from_str(source);
            proof {
                lemma_assoc_update(pairs, i as int, (current + amount) as u64);
            }
            v[i] = (key, current + amount);
            assert(source_pairs(v@) =~= pairs.update(i as int, (source@, (current + amount) as u64)));
        },
        None => {
            proof {
                lemma_assoc_absent(pairs, source@);
                lemma_assoc_push(pairs, source@, amount);
            }
            v.push((String::from_str(source), amount));
            assert(source_pairs(v@) =~= pairs.push((source@, amount)));
        },
    }
}

fn copy_event_pairs(v: &Vec<(RenderDiagnosticEvent, u64)>) -> (r: Vec<(RenderDiagnosticEvent, u64)>)
    ensures
        r@ == v@,
{
    let mut r: Vec<(RenderDiagnosticEvent, u64)> = Vec::new();
    let n = v.len();
    for i in 0..n
        invariant
            n == v@.len(),
            r@ =~= v@.take(i as int),
    {
        r.push(v[i]);
    }
    assert(v@.take(n as int) =~= v@);
    r
}

fn copy_source_pairs(v: &Vec<(String, u64)>) -> (r: Vec<(String, u64)>)
    ensures
        r@ == v@,
{
    let mut r: Vec<(String, u64)> = Vec::new();
    let n = v.len();
    for i in 0..n
        invariant
            n == v@.len(),
            r@ =~= v@.take(i as int),
    {
        let key = v[i].0.clone();
        r.push((key, v[i].1));
    }
    assert(v@.take(n as int) =~= v@);
    r
}

impl RenderDiagnosticsSnapshot {
    /// Index of the window's entry, adding an empty entry when it has none.
    fn window_slot(&mut self, window_id: WindowId) -> (idx: usize)
        requires
            old(self).wf(),
        ensures
            final(self).wf(),
            idx < final(self).windows@.len(),
            final(self).windows@[idx as int].0 == window_id,
            final(self)@ == (if old(self)@.dom().contains(window_id) {
                old(self)@
            } else {
                old(self)@.insert(window_id, empty_window_view())
            }),
    {
        match find_window(&self.windows, window_id) {
            Some(i) => {
                proof {
                    lemma_assoc_index(window_pairs(self.windows@), i as int);
                }
                i
            },
            None => {
                let ghost old_windows = self.windows@;
                proof {
                    lemma_assoc_absent(window_pairs(old_windows), window_id);
                    lemma_assoc_push(window_pairs(old_windows), window_id, empty_window_view());
                }
                let w = WindowRenderDiagnostics::new();
                self.windows.push((window_id, w));
                assert(window_pairs(self.windows@) =~= window_pairs(old_windows).push(
                    (window_id, empty_window_view()),
                ));
                assert forall|i: int| 0 <= i < self.windows@.len() implies (#[trigger] self.windows@[
                    i
                ]).1.wf() by {
                    if i < old_windows.len() {
                        assert(self.windows@[i] == old_windows[i]);
                    }
                }
                self.windows.len() - 1
            },
        }
    }

    /// Puts `win` in place of the window at `idx` and hands back the one that was
    /// there.
    fn replace_window(&mut self, idx: usize, win: WindowRenderDiagnostics) -> (prev:
        WindowRenderDiagnostics)
        requires
            old(self).wf(),
            idx < old(self).windows@.len(),
            win.wf(),
        ensures
            final(self).wf(),
            final(self).windows@.len() == old(self).windows@.len(),
            final(self).windows@[idx as int].0 == old(self).windows@[idx as int].0,
            prev == old(self).windows@[idx as int].1,
            prev.wf(),
            prev@ == old(self)@[old(self).windows@[idx as int].0],
            final(self)@ == old(self)@.insert(old(self).windows@[idx as int].0, win@),
    {
        let ghost old_windows = self.windows@;
        let ghost key = old_windows[idx as int].0;
        proof {
            lemma_assoc_index(window_pairs(old_windows), idx as int);
            lemma_assoc_update(window_pairs(old_windows), idx as int, win@);
        }
        let (wid, prev) = self.windows.remove(idx);
        self.windows.insert(idx, (wid, win));
        assert(self.windows@ =~= old_windows.update(idx as int, (key, win)));
        assert(window_pairs(self.windows@) =~= window_pairs(old_windows).update(
            idx as int,
            (key, win@),
        ));
        assert forall|i: int| 0 <= i < self.windows@.len() implies (#[trigger] self.windows@[
            i
        ]).1.wf() by {
            if i != idx {
                assert(self.windows@[i] == old_windows[i]);
            }
        }
        prev
    }
}

// ----- the recording interface as calls -----

/// One call of the recording interface. The last field of each recording call
/// is the time at which it runs, in nanoseconds on the caller's monotonic clock.
pub enum DiagnosticsCall {
    Event(WindowId, RenderDiagnosticEvent, u64),
    Count(WindowId, RenderDiagnosticEvent, u64, u64),
    /// A timed event and its length in microseconds.
    Duration(WindowId, RenderDiagnosticEvent, u128, u64),
    /// GPU activity and its length in microseconds.
    GpuActive(WindowId, u128, u64),
    RepaintSource(WindowId, Seq<char>, u64),
    Reset,
}

/// The state after the recording part of `c`, before any delta report.
pub open spec fn recorded_view(s: DiagnosticsStateView, c: DiagnosticsCall) -> DiagnosticsStateView {
    match c {
        DiagnosticsCall::Event(w, e, _) => if s.enabled {
            DiagnosticsStateView { windows: counted(s.windows, w, e, 1), ..s }
        } else {
            s
        },
        DiagnosticsCall::Count(w, e, n, _) => if s.enabled {
            DiagnosticsStateView { windows: counted(s.windows, w, e, n), ..s }
        } else {
            s
        },
        DiagnosticsCall::Duration(w, e, d, _) => if s.enabled {
            DiagnosticsStateView { windows: timed(s.windows, w, e, truncated_us(d)), ..s }
        } else {
            s
        },
        DiagnosticsCall::GpuActive(w, d, _) => if d == 0 {
            s
        } else {
            DiagnosticsStateView {
                windows: if s.enabled {
                    timed(s.windows, w, RenderDiagnosticEvent::GpuActive, truncated_us(d))
                } else {
                    s.windows
                },
                total_gpu_active_us: ((s.total_gpu_active_us + capped_us(d))
                    % 0x1_0000_0000_0000_0000) as u64,
                ..s
            }
        },
        DiagnosticsCall::RepaintSource(w, source, _) => if s.enabled {
            DiagnosticsStateView { windows: sourced(s.windows, w, source), ..s }
        } else {
            s
        },
        DiagnosticsCall::Reset => DiagnosticsStateView {
            windows: Map::empty(),
            last_log: None,
            total_gpu_active_us: 0,
            ..s
        },
    }
}

/// Whether `c` ends with a delta-report step: every recording call does while
/// recording is enabled, except GPU activity of zero microseconds.
pub open spec fn reports_after(s: DiagnosticsStateView, c: DiagnosticsCall) -> bool {
    match c {
        DiagnosticsCall::GpuActive(_, d, _) => s.enabled && d != 0,
        DiagnosticsCall::Reset => false,
        _ => s.enabled,
    }
}

/// The time at which `c` runs.
pub open spec fn call_time(c: DiagnosticsCall) -> u64 {
    match c {
        DiagnosticsCall::Event(_, _, t) => t,
        DiagnosticsCall::Count(_, _, _, t) => t,
        DiagnosticsCall::Duration(_, _, _, t) => t,
        DiagnosticsCall::GpuActive(_, _, t) => t,
        DiagnosticsCall::RepaintSource(_, _, t) => t,
        DiagnosticsCall::Reset => 0,
    }
}

/// Whether a delta-report step at `now` reports: reports are switched on and
/// at least a second has passed since the last report.
pub open spec fn report_due(s: DiagnosticsStateView, now: u64) -> bool {
    s.log_deltas && match s.last_log {
        Some((then, _)) => elapsed_nanos(now, then) >= LOG_INTERVAL_NANOS,
        None => false,
    }
}

/// The state after a delta-report step at `now`: the first step only
/// remembers the windows; a step that reports remembers them too.
pub open spec fn after_report(s: DiagnosticsStateView, now: u64) -> DiagnosticsStateView {
    if s.log_deltas && (s.last_log is None || report_due(s, now)) {
        DiagnosticsStateView { last_log: Some((now, s.windows)), ..s }
    } else {
        s
    }
}

/// What a delta-report step at `now` on `s` hands back, its windows held in
/// the order `order`: the growth of each window that grew since the last
/// report when one is due, nothing otherwise.
pub open spec fn reports_match(
    s: DiagnosticsStateView,
    order: Seq<(WindowId, WindowDiagnosticsView)>,
    now: u64,
    reports: Seq<WindowDeltaReport>,
) -> bool {
    match s.last_log {
        Some((then, prev)) => if s.log_deltas && elapsed_nanos(now, then) >= LOG_INTERVAL_NANOS {
            &&& report_views(reports) == delta_reports(order, prev)
            &&& forall|i: int|
                0 <= i < reports.len() ==> (#[trigger] reports[i]).wf() && reports[i].elapsed_nanos
                    == elapsed_nanos(now, then)
        } else {
            reports.len() == 0
        },
        None => reports.len() == 0,
    }
}

/// The state after the whole of `c`.
pub open spec fn after_call(s: DiagnosticsStateView, c: DiagnosticsCall) -> DiagnosticsStateView {
    if reports_after(s, c) {
        after_report(recorded_view(s, c), call_time(c))
    } else {
        recorded_view(s, c)
    }
}

/// What the whole of `c` hands back, the windows after it held in the order
/// `order`.
pub open spec fn call_reports(
    s: DiagnosticsStateView,
    c: DiagnosticsCall,
    order: Seq<(WindowId, WindowDiagnosticsView)>,
    reports: Seq<WindowDeltaReport>,
) -> bool {
    if reports_after(s, c) {
        reports_match(recorded_view(s, c), order, call_time(c), reports)
    } else {
        reports.len() == 0
    }
}

/// The state after the calls `cs`, one after another.
pub open spec fn after_calls(s: DiagnosticsStateView, cs: Seq<DiagnosticsCall>) -> DiagnosticsStateView
    decreases cs.len(),
{
    if cs.len() == 0 {
        s
    } else {
        after_call(after_calls(s, cs.drop_last()), cs.last())
    }
}

/// No counter, duration total or repaint count that `c` adds to would pass
/// `u64::MAX`.
pub open spec fn call_fits(s: DiagnosticsStateView, c: DiagnosticsCall) -> bool {
    match c {
        DiagnosticsCall::Event(w, e, _) => s.enabled ==> value_or_zero(
            window_or_empty(s.windows, w).counters,
            e,
        ) + 1 <= u64::MAX,
        DiagnosticsCall::Count(w, e, n, _) => s.enabled ==> value_or_zero(
            window_or_empty(s.windows, w).counters,
            e,
        ) + n <= u64::MAX,
        DiagnosticsCall::Duration(w, e, d, _) => s.enabled ==> {
            &&& value_or_zero(window_or_empty(s.windows, w).counters, e) + 1 <= u64::MAX
            &&& value_or_zero(window_or_empty(s.windows, w).durations_us, e) + truncated_us(d)
                <= u64::MAX
        },
        DiagnosticsCall::GpuActive(w, d, _) => s.enabled && d != 0 ==> {
            &&& value_or_zero(
                window_or_empty(s.windows, w).counters,
                RenderDiagnosticEvent::GpuActive,
            ) + 1 <= u64::MAX
            &&& value_or_zero(
                window_or_empty(s.windows, w).durations_us,
                RenderDiagnosticEvent::GpuActive,
            ) + truncated_us(d) <= u64::MAX
        },
        DiagnosticsCall::RepaintSource(w, source, _) => s.enabled ==> value_or_zero(
            window_or_empty(s.windows, w).repaint_sources,
            source,
        ) + 1 <= u64::MAX,
        DiagnosticsCall::Reset => true,
    }
}

/// Every call of `cs` fits the state it runs on.
pub open spec fn calls_fit(s: DiagnosticsStateView, cs: Seq<DiagnosticsCall>) -> bool
    decreases cs.len(),
{
    if cs.len() == 0 {
        true
    } else {
        calls_fit(s, cs.drop_last()) && call_fits(after_calls(s, cs.drop_last()), cs.last())
    }
}

// ----- recording -----

fn add_count(
    state: &mut RenderDiagnosticsState,
    window_id: WindowId,
    event: RenderDiagnosticEvent,
    count: u64,
)
    requires
        old(state).wf(),
        call_fits(old(state)@, DiagnosticsCall::Count(window_id, event, count, 0)),
    ensures
        final(state).wf(),
        final(state)@ == recorded_view(
            old(state)@,
            DiagnosticsCall::Count(window_id, event, count, 0),
        ),
{
    if !state.enabled {
        return;
    }
    let ghost before = state.snapshot@;
    let idx = state.snapshot.window_slot(window_id);
    let mut win = state.snapshot.replace_window(idx, WindowRenderDiagnostics::new());
    add_to_event(&mut win.counters, event, count);
    state.snapshot.replace_window(idx, win);
    assert(state.snapshot@ =~= counted(before, window_id, event, count));
}

fn add_duration(
    state: &mut RenderDiagnosticsState,
    window_id: WindowId,
    event: RenderDiagnosticEvent,
    duration_us: u128,
)
    requires
        old(state).wf(),
        call_fits(old(state)@, DiagnosticsCall::Duration(window_id, event, duration_us, 0)),
    ensures
        final(state).wf(),
        final(state)@ == recorded_view(
            old(state)@,
            DiagnosticsCall::Duration(window_id, event, duration_us, 0),
        ),
{
    if !state.enabled {
        return;
    }
    let us = #[verifier::truncate] (duration_us as u64);
    assert(us == truncated_us(duration_us)) by (bit_vector)
        requires
            us == duration_us as u64,
    ;
    let ghost before = state.snapshot@;
    let idx = state.snapshot.window_slot(window_id);
    let mut win = state.snapshot.replace_window(idx, WindowRenderDiagnostics::new());
    add_to_event(&mut win.counters, event, 1);
    add_to_event(&mut win.durations_us, event, us);
    state.snapshot.replace_window(idx, win);
    assert(state.snapshot@ =~= timed(before, window_id, event, us));
}

fn add_repaint_source(state: &mut RenderDiagnosticsState, window_id: WindowId, source: &str)
    requires
        old(state).wf(),
        call_fits(old(state)@, DiagnosticsCall::RepaintSource(window_id, source@, 0)),
    ensures
        final(state).wf(),
        final(state)@ == recorded_view(
            old(state)@,
            DiagnosticsCall::RepaintSource(window_id, source@, 0),
        ),
{
    if !state.enabled {
        return;
    }
    let ghost before = state.snapshot@;
    let idx = state.snapshot.window_slot(window_id);
    let mut win = state.snapshot.replace_window(idx, WindowRenderDiagnostics::new());
    add_to_source(&mut win.repaint_sources, source, 1);
    state.snapshot.replace_window(idx, win);
    assert(state.snapshot@ =~= sourced(before, window_id, source@));
}

/// The delta-report step that ends every recording call made while recording
/// is enabled.
fn report_if_enabled(state: &mut RenderDiagnosticsState, now_nanos: u64) -> (reports: Vec<
    WindowDeltaReport,
>)
    requires
        old(state).wf(),
    ensures
        final(state).wf(),
        final(state).snapshot == old(state).snapshot,
        old(state).enabled ==> final(state)@ == after_report(old(state)@, now_nanos)
            && reports_match(
            old(state)@,
            window_pairs(old(state).snapshot.windows@),
            now_nanos,
            reports@,
        ),
        !old(state).enabled ==> final(state)@ == old(state)@ && reports@.len() == 0,
{
    if state.enabled {
        maybe_log_deltas(state, now_nanos)
    } else {
        Vec::new()
    }
}

/// Records one occurrence of `event` in `window_id` at `now_nanos`, then takes
/// a delta-report step; does nothing while recording is disabled. This is
/// `record_count` with a count of one.
pub fn record_event(
    state: &mut RenderDiagnosticsState,
    window_id: WindowId,
    event: RenderDiagnosticEvent,
    now_nanos: u64,
) -> (reports: Vec<WindowDeltaReport>)
    requires
        old(state).wf(),
        call_fits(old(state)@, DiagnosticsCall::Event(window_id, event, now_nanos)),
    ensures
        final(state).wf(),
        final(state)@ == after_call(
            old(state)@,
            DiagnosticsCall::Count(window_id, event, 1, now_nanos),
        ),
        call_reports(
            old(state)@,
            DiagnosticsCall::Count(window_id, event, 1, now_nanos),
            window_pairs(final(state).snapshot.windows@),
            reports@,
        ),
        final(state)@ == after_call(old(state)@, DiagnosticsCall::Event(window_id, event, now_nanos)),
        call_reports(
            old(state)@,
            DiagnosticsCall::Event(window_id, event, now_nanos),
            window_pairs(final(state).snapshot.windows@),
            reports@,
        ),
{
    record_count(state, window_id, event, 1, now_nanos)
}

/// Records `count` occurrences of `event` in `window_id` at `now_nanos`, then
/// takes a delta-report step; does nothing while recording is disabled.
pub fn record_count(
    state: &mut RenderDiagnosticsState,
    window_id: WindowId,
    event: RenderDiagnosticEvent,
    count: u64,
    now_nanos: u64,
) -> (reports: Vec<WindowDeltaReport>)
    requires
        old(state).wf(),
        call_fits(old(state)@, DiagnosticsCall::Count(window_id, event, count, now_nanos)),
    ensures
        final(state).wf(),
        final(state)@ == after_call(
            old(state)@,
            DiagnosticsCall::Count(window_id, event, count, now_nanos),
        ),
        call_reports(
            old(state)@,
            DiagnosticsCall::Count(window_id, event, count, now_nanos),
            window_pairs(final(state).snapshot.windows@),
            reports@,
        ),
{
    add_count(state, window_id, event, count);
    report_if_enabled(state, now_nanos)
}

/// Records one occurrence of `event` in `window_id` that lasted `duration_us`
/// microseconds, at `now_nanos`, then takes a delta-report step; does nothing
/// while recording is disabled. The duration total receives the low 64 bits
/// of the duration.
pub fn record_duration(
    state: &mut RenderDiagnosticsState,
    window_id: WindowId,
    event: RenderDiagnosticEvent,
    duration_us: u128,
    now_nanos: u64,
) -> (reports: Vec<WindowDeltaReport>)
    requires
        old(state).wf(),
        call_fits(old(state)@, DiagnosticsCall::Duration(window_id, event, duration_us, now_nanos)),
    ensures
        final(state).wf(),
        final(state)@ == after_call(
            old(state)@,
            DiagnosticsCall::Duration(window_id, event, duration_us, now_nanos),
        ),
        call_reports(
            old(state)@,
            DiagnosticsCall::Duration(window_id, event, duration_us, now_nanos),
            window_pairs(final(state).snapshot.windows@),
            reports@,
        ),
{
    add_duration(state, window_id, event, duration_us);
    report_if_enabled(state, now_nanos)
}

/// Records GPU activity of `duration_us` microseconds in `window_id` at
/// `now_nanos`. A zero duration is ignored. Otherwise the GPU total grows by
/// the duration capped at `u64::MAX` (wrapping around), whether or not
/// recording is enabled, and the rest is `record_duration` of a `GpuActive`
/// event.
pub fn record_gpu_active_duration(
    state: &mut RenderDiagnosticsState,
    window_id: WindowId,
    duration_us: u128,
    now_nanos: u64,
) -> (reports: Vec<WindowDeltaReport>)
    requires
        old(state).wf(),
        call_fits(old(state)@, DiagnosticsCall::GpuActive(window_id, duration_us, now_nanos)),
    ensures
        final(state).wf(),
        final(state)@ == after_call(
            old(state)@,
            DiagnosticsCall::GpuActive(window_id, duration_us, now_nanos),
        ),
        call_reports(
            old(state)@,
            DiagnosticsCall::GpuActive(window_id, duration_us, now_nanos),
            window_pairs(final(state).snapshot.windows@),
            reports@,
        ),
{
    let capped: u64 = if duration_us > u64::MAX as u128 {
        u64::MAX
    } else {
        duration_us as u64
    };
    if capped == 0 {
        return Vec::new();
    }
    let ghost before = state@;
    state.total_gpu_active_us = state.total_gpu_active_us.wrapping_add(capped);
    let ghost mid = state@;
    let reports = record_duration(
        state,
        window_id,
        RenderDiagnosticEvent::GpuActive,
        duration_us,
        now_nanos,
    );
    assert(recorded_view(mid, DiagnosticsCall::Duration(window_id, RenderDiagnosticEvent::GpuActive, duration_us, now_nanos))
        == recorded_view(before, DiagnosticsCall::GpuActive(window_id, duration_us, now_nanos)));
    reports
}

/// Microseconds of GPU activity recorded since the last reset.
pub fn total_gpu_active_us(state: &RenderDiagnosticsState) -> (r: u64)
    ensures
        r == state.total_gpu_active_us,
{
    state.total_gpu_active_us
}

/// Records one repaint of `window_id` requested by `source`, at `now_nanos`,
/// then takes a delta-report step; does nothing while recording is disabled.
pub fn record_repaint_source(
    state: &mut RenderDiagnosticsState,
    window_id: WindowId,
    source: &str,
    now_nanos: u64,
) -> (reports: Vec<WindowDeltaReport>)
    requires
        old(state).wf(),
        call_fits(old(state)@, DiagnosticsCall::RepaintSource(window_id, source@, now_nanos)),
    ensures
        final(state).wf(),
        final(state)@ == after_call(
            old(state)@,
            DiagnosticsCall::RepaintSource(window_id, source@, now_nanos),
        ),
        call_reports(
            old(state)@,
            DiagnosticsCall::RepaintSource(window_id, source@, now_nanos),
            window_pairs(final(state).snapshot.windows@),
            reports@,
        ),
{
    add_repaint_source(state, window_id, source);
    report_if_enabled(state, now_nanos)
}

/// A copy of everything recorded so far.
pub fn snapshot(state: &RenderDiagnosticsState) -> (r: RenderDiagnosticsSnapshot)
    requires
        state.wf(),
    ensures
        r.wf(),
        r@ == state.snapshot@,
{
    state.snapshot.duplicate()
}

/// Forgets everything recorded, the last report and the GPU total; the
/// switches stay as they are.
pub fn reset(state: &mut RenderDiagnosticsState)
    ensures
        final(state).wf(),
        final(state)@ == (DiagnosticsStateView {
            windows: Map::empty(),
            last_log: None,
            total_gpu_active_us: 0,
            ..old(state)@
        }),
        final(state)@ == after_call(old(state)@, DiagnosticsCall::Reset),
{
    state.snapshot = RenderDiagnosticsSnapshot::new();
    state.last_log = None;
    state.total_gpu_active_us = 0;
}


// ----- delta reports -----

/// How much each counter grew since `prev`, listing only counters that grew.
pub open spec fn delta_map<K>(cur: Map<K, u64>, prev: Map<K, u64>) -> Map<K, u64> {
    Map::new(
        |k: K| cur.dom().contains(k) && cur[k] > value_or_zero(prev, k),
        |k: K| (cur[k] - value_or_zero(prev, k)) as u64,
    )
}

/// The growth of a window's diagnostics since `prev`.
pub open spec fn window_delta(cur: WindowDiagnosticsView, prev: WindowDiagnosticsView) -> WindowDiagnosticsView {
    WindowDiagnosticsView {
        counters: delta_map(cur.counters, prev.counters),
        durations_us: delta_map(cur.durations_us, prev.durations_us),
        repaint_sources: delta_map(cur.repaint_sources, prev.repaint_sources),
    }
}

/// Nothing grew.
pub open spec fn is_unchanged(d: WindowDiagnosticsView) -> bool {
    &&& d.counters == Map::<RenderDiagnosticEvent, u64>::empty()
    &&& d.durations_us == Map::<RenderDiagnosticEvent, u64>::empty()
    &&& d.repaint_sources == Map::<Seq<char>, u64>::empty()
}

/// The report for each window, in order, that grew since `prev`.
pub open spec fn delta_reports(
    windows: Seq<(WindowId, WindowDiagnosticsView)>,
    prev: Map<WindowId, WindowDiagnosticsView>,
) -> Seq<(WindowId, WindowDiagnosticsView)>
    decreases windows.len(),
{
    if windows.len() == 0 {
        Seq::empty()
    } else {
        let rest = delta_reports(windows.drop_last(), prev);
        let w = windows.last().0;
        let d = window_delta(windows.last().1, window_or_empty(prev, w));
        if is_unchanged(d) {
            rest
        } else {
            rest.push((w, d))
        }
    }
}

/// Time from `then` to `now`, zero if `now` is earlier.
pub open spec fn elapsed_nanos(now: u64, then: u64) -> int {
    if now >= then {
        now - then
    } else {
        0
    }
}

/// Minimum time between two reports: one second.
pub const LOG_INTERVAL_NANOS: u64 = 1_000_000_000;

/// What one window did since the last report.
pub struct WindowDeltaReport {
    pub window_id: WindowId,
    /// Nanoseconds since the last report.
    pub elapsed_nanos: u64,
    pub counter_deltas: Vec<(RenderDiagnosticEvent, u64)>,
    pub duration_deltas_us: Vec<(RenderDiagnosticEvent, u64)>,
    pub repaint_source_deltas: Vec<(String, u64)>,
}

impl View for WindowDeltaReport {
    type V = (WindowId, WindowDiagnosticsView);

    open spec fn view(&self) -> (WindowId, WindowDiagnosticsView) {
        (
            self.window_id,
            WindowDiagnosticsView {
                counters: assoc_map(self.counter_deltas@),
                durations_us: assoc_map(self.duration_deltas_us@),
                repaint_sources: assoc_map(source_pairs(self.repaint_source_deltas@)),
            },
        )
    }
}

impl WindowDeltaReport {
    pub open spec fn wf(&self) -> bool {
        &&& keys_unique(self.counter_deltas@)
        &&& keys_unique(self.duration_deltas_us@)
        &&& keys_unique(source_pairs(self.repaint_source_deltas@))
    }
}

/// The reports read abstractly.
pub open spec fn report_views(reports: Seq<WindowDeltaReport>) -> Seq<(WindowId, WindowDiagnosticsView)> {
    reports.map_values(|r: WindowDeltaReport| r@)
}

proof fn lemma_assoc_take_step<K, V>(s: Seq<(K, V)>, i: int)
    requires
        0 <= i < s.len(),
    ensures
        assoc_map(s.take(i + 1)) == assoc_map(s.take(i)).insert(s[i].0, s[i].1),
{
    assert(s.take(i + 1).drop_last() =~= s.take(i));
}

proof fn lemma_assoc_empty_iff<K, V>(s: Seq<(K, V)>)
    ensures
        (s.len() == 0) <==> (assoc_map(s) == Map::<K, V>::empty()),
{
    if s.len() > 0 {
        lemma_assoc_dom(s, s[0].0);
        assert(assoc_map(s).dom().contains(s[0].0));
        assert(!Map::<K, V>::empty().dom().contains(s[0].0));
    } else {
        assert(assoc_map(s) =~= Map::<K, V>::empty());
    }
}

proof fn lemma_delta_step<K>(m: Map<K, u64>, prev: Map<K, u64>, k: K, v: u64)
    requires
        !m.dom().contains(k),
    ensures
        v > value_or_zero(prev, k) ==> delta_map(m.insert(k, v), prev) == delta_map(m, prev).insert(
            k,
            (v - value_or_zero(prev, k)) as u64,
        ),
        v <= value_or_zero(prev, k) ==> delta_map(m.insert(k, v), prev) == delta_map(m, prev),
{
    if v > value_or_zero(prev, k) {
        assert(delta_map(m.insert(k, v), prev) =~= delta_map(m, prev).insert(
            k,
            (v - value_or_zero(prev, k)) as u64,
        ));
    } else {
        assert(delta_map(m.insert(k, v), prev) =~= delta_map(m, prev));
    }
}

fn event_deltas(
    cur: &Vec<(RenderDiagnosticEvent, u64)>,
    prev: &Vec<(RenderDiagnosticEvent, u64)>,
) -> (r: Vec<(RenderDiagnosticEvent, u64)>)
    requires
        keys_unique(cur@),
        keys_unique(prev@),
    ensures
        keys_unique(r@),
        assoc_map(r@) == delta_map(assoc_map(cur@), assoc_map(prev@)),
{
    let mut r: Vec<(RenderDiagnosticEvent, u64)> = Vec::new();
    let n = cur.len();
    assert(assoc_map(cur@.take(0)) =~= Map::<RenderDiagnosticEvent, u64>::empty());
    assert(delta_map(Map::<RenderDiagnosticEvent, u64>::empty(), assoc_map(prev@)) =~= Map::<
        RenderDiagnosticEvent,
        u64,
    >::empty());
    for i in 0..n
        invariant
            n == cur@.len(),
            keys_unique(cur@),
            keys_unique(prev@),
            keys_unique(r@),
            assoc_map(r@) == delta_map(assoc_map(cur@.take(i as int)), assoc_map(prev@)),
    {
        let (event, value) = cur[i];
        let previous = match lookup_event(prev, event) {
            Some(p) => p,
            None => 0,
        };
        let delta = value.saturating_sub(previous);
        proof {
            let m = assoc_map(cur@.take(i as int));
            lemma_assoc_take_step(cur@, i as int);
            lemma_assoc_dom(cur@.take(i as int), event);
            if m.dom().contains(event) {
                let j = choose|j: int| 0 <= j < cur@.take(i as int).len() && #[trigger] cur@.take(i as int)[j].0 == event;
                assert(cur@[j].0 == cur@[i as int].0);
            }
            lemma_delta_step(m, assoc_map(prev@), event, value);
        }
        if delta > 0 {
            proof {
                assert forall|j: int| 0 <= j < r@.len() implies #[trigger] r@[j].0 != event by {
                    lemma_assoc_index(r@, j);
                }
                lemma_assoc_push(r@, event, delta);
            }
            r.push((event, delta));
        }
    }
    assert(cur@.take(n as int) =~= cur@);
    r
}

fn source_deltas(cur: &Vec<(String, u64)>, prev: &Vec<(String, u64)>) -> (r: Vec<(String, u64)>)
    requires
        keys_unique(source_pairs(cur@)),
        keys_unique(source_pairs(prev@)),
    ensures
        keys_unique(source_pairs(r@)),
        assoc_map(source_pairs(r@)) == delta_map(
            assoc_map(source_pairs(cur@)),
            assoc_map(source_pairs(prev@)),
        ),
{
    let ghost cs = source_pairs(cur@);
    let ghost ps = source_pairs(prev@);
    let mut r: Vec<(String, u64)> = Vec::new();
    let n = cur.len();
    assert(assoc_map(cs.take(0)) =~= Map::<Seq<char>, u64>::empty());
    assert(source_pairs(r@) =~= Seq::<(Seq<char>, u64)>::empty());
    assert(delta_map(Map::<Seq<char>, u64>::empty(), assoc_map(ps)) =~= Map::<Seq<char>, u64>::empty());
    for i in 0..n
        invariant
            n == cur@.len(),
            cs == source_pairs(cur@),
            ps == source_pairs(prev@),
            keys_unique(cs),
            keys_unique(ps),
            keys_unique(source_pairs(r@)),
            assoc_map(source_pairs(r@)) == delta_map(assoc_map(cs.take(i as int)), assoc_map(ps)),
    {
        let value = cur[i].1;
        let key: &str = cur[i].0.as_str();
        let ghost k = cs[i as int].0;
        assert(key@ == k);
        let previous = match find_source(prev, key) {
            Some(j) => {
                proof {
                    lemma_assoc_index(ps, j as int);
                }
                prev[j].1
            },
            None => {
                proof {
                    lemma_assoc_absent(ps, k);
                }
                0
            },
        };
        assert(previous == value_or_zero(assoc_map(ps), k));
        let delta = value.saturating_sub(previous);
        proof {
            let m = assoc_map(cs.take(i as int));
            lemma_assoc_take_step(cs, i as int);
            lemma_assoc_dom(cs.take(i as int), k);
            if m.dom().contains(k) {
                let j = choose|j: int| 0 <= j < cs.take(i as int).len() && #[trigger] cs.take(i as int)[j].0 == k;
                assert(cs[j].0 == cs[i as int].0);
            }
            lemma_delta_step(m, assoc_map(ps), k, value);
        }
        if delta > 0 {
            let ghost rs = source_pairs(r@);
            proof {
                assert forall|j: int| 0 <= j < rs.len() implies #[trigger] rs[j].0 != k by {
                    lemma_assoc_index(rs, j);
                }
                lemma_assoc_push(rs, k, delta);
            }
            r.push((String::from_str(key), delta));
            assert(source_pairs(r@) =~= rs.push((k, delta)));
        }
    }
    assert(cs.take(n as int) =~= cs);
    r
}

/// Reports what each window recorded since the last report. Does nothing
/// unless delta reports are switched on. The first call only remembers the
/// current state; later calls report once at least a second has passed since
/// the last report (measured on the caller's monotonic clock, `now_nanos`),
/// listing each window with some growth, and remember the current state.
pub fn maybe_log_deltas(state: &mut RenderDiagnosticsState, now_nanos: u64) -> (reports: Vec<
    WindowDeltaReport,
>)
    requires
        old(state).wf(),
    ensures
        final(state).wf(),
        final(state).snapshot == old(state).snapshot,
        final(state)@ == after_report(old(state)@, now_nanos),
        reports_match(
            old(state)@,
            window_pairs(old(state).snapshot.windows@),
            now_nanos,
            reports@,
        ),
{
    let mut reports: Vec<WindowDeltaReport> = Vec::new();
    if !state.log_deltas {
        return reports;
    }
    match &state.last_log {
        None => {
            let copy = state.snapshot.duplicate();
            state.last_log = Some(RenderDiagnosticsLogState { instant_nanos: now_nanos, snapshot: copy });
            return reports;
        },
        Some(last) => {
            let elapsed = now_nanos.saturating_sub(last.instant_nanos);
            if elapsed < LOG_INTERVAL_NANOS {
                return reports;
            }
            let windows = &state.snapshot.windows;
            let previous = &last.snapshot;
            let ghost pairs = window_pairs(windows@);
            let empty = WindowRenderDiagnostics::new();
            let n = windows.len();
            assert(report_views(reports@) =~= delta_reports(pairs.take(0), previous@));
            for i in 0..n
                invariant
                    n == windows@.len(),
                    pairs == window_pairs(windows@),
                    state.snapshot.wf(),
                    windows == &state.snapshot.windows,
                    previous.wf(),
                    empty.wf(),
                    empty@ == empty_window_view(),
                    forall|j: int| 0 <= j < reports@.len() ==> (#[trigger] reports@[j]).wf(),
                    forall|j: int| 0 <= j < reports@.len() ==> (#[trigger] reports@[j]).elapsed_nanos == elapsed,
                    report_views(reports@) == delta_reports(pairs.take(i as int), previous@),
            {
                let window_id = windows[i].0;
                let current = &windows[i].1;
                assert(current.wf());
                let before: &WindowRenderDiagnostics = match previous.window(window_id) {
                    Some(p) => p,
                    None => &empty,
                };
                let counter_deltas = event_deltas(&current.counters, &before.counters);
                let duration_deltas_us = event_deltas(&current.durations_us, &before.durations_us);
                let repaint_source_deltas = source_deltas(&current.repaint_sources, &before.repaint_sources);
                let report = WindowDeltaReport {
                    window_id,
                    elapsed_nanos: elapsed,
                    counter_deltas,
                    duration_deltas_us,
                    repaint_source_deltas,
                };
                proof {
                    assert(pairs.take(i + 1).drop_last() =~= pairs.take(i as int));
                    assert(pairs.take(i + 1).last() == (window_id, current@));
                    assert(report@.1 == window_delta(current@, window_or_empty(previous@, window_id)));
                    lemma_assoc_empty_iff(report.counter_deltas@);
                    lemma_assoc_empty_iff(report.duration_deltas_us@);
                    lemma_assoc_empty_iff(source_pairs(report.repaint_source_deltas@));
                }
                if report.counter_deltas.len() != 0 || report.duration_deltas_us.len() != 0
                    || report.repaint_source_deltas.len() != 0 {
                    let ghost old_reports = reports@;
                    reports.push(report);
                    assert(report_views(reports@) =~= report_views(old_reports).push(report@));
                }
            }
            assert(pairs.take(n as int) =~= pairs);
        },
    }
    let copy = state.snapshot.duplicate();
    state.last_log = Some(RenderDiagnosticsLogState { instant_nanos: now_nanos, snapshot: copy });
    reports
}

// ----- laws -----

/// Counting `a` and then `b` occurrences of an event in a window is counting
/// `a + b` at once.
pub proof fn law_counts_accumulate(
    windows: Map<WindowId, WindowDiagnosticsView>,
    window_id: WindowId,
    event: RenderDiagnosticEvent,
    a: u64,
    b: u64,
)
    requires
        a + b <= u64::MAX,
        value_or_zero(window_or_empty(windows, window_id).counters, event) + a + b <= u64::MAX,
    ensures
        counted(counted(windows, window_id, event, a), window_id, event, b) == counted(
            windows,
            window_id,
            event,
            (a + b) as u64,
        ),
{
    let once = counted(windows, window_id, event, a);
    assert(window_or_empty(once, window_id).counters == bump(
        window_or_empty(windows, window_id).counters,
        event,
        a as int,
    ));
    assert(counted(once, window_id, event, b) =~= counted(windows, window_id, event, (a + b) as u64))
        by {
        let w = window_or_empty(windows, window_id);
        assert(bump(bump(w.counters, event, a as int), event, b as int) =~= bump(
            w.counters,
            event,
            (a + b) as int,
        ));
    }
}

/// Recording in one window leaves every other window as it was.
pub proof fn law_other_windows_untouched(
    windows: Map<WindowId, WindowDiagnosticsView>,
    window_id: WindowId,
    other: WindowId,
    event: RenderDiagnosticEvent,
    count: u64,
    us: u64,
    source: Seq<char>,
)
    requires
        other != window_id,
    ensures
        window_or_empty(counted(windows, window_id, event, count), other) == window_or_empty(
            windows,
            other,
        ),
        window_or_empty(timed(windows, window_id, event, us), other) == window_or_empty(
            windows,
            other,
        ),
        window_or_empty(sourced(windows, window_id, source), other) == window_or_empty(
            windows,
            other,
        ),
{
}

/// Recording never lowers a counter, a duration total or a repaint count.
pub proof fn law_recording_only_grows(
    windows: Map<WindowId, WindowDiagnosticsView>,
    window_id: WindowId,
    event: RenderDiagnosticEvent,
    count: u64,
    us: u64,
    source: Seq<char>,
    w: WindowId,
    e: RenderDiagnosticEvent,
    s: Seq<char>,
)
    requires
        value_or_zero(window_or_empty(windows, window_id).counters, event) + count <= u64::MAX,
        value_or_zero(window_or_empty(windows, window_id).counters, event) + 1 <= u64::MAX,
        value_or_zero(window_or_empty(windows, window_id).durations_us, event) + us <= u64::MAX,
        value_or_zero(window_or_empty(windows, window_id).repaint_sources, source) + 1
            <= u64::MAX,
    ensures
        value_or_zero(window_or_empty(counted(windows, window_id, event, count), w).counters, e)
            >= value_or_zero(window_or_empty(windows, w).counters, e),
        value_or_zero(window_or_empty(timed(windows, window_id, event, us), w).counters, e)
            >= value_or_zero(window_or_empty(windows, w).counters, e),
        value_or_zero(window_or_empty(timed(windows, window_id, event, us), w).durations_us, e)
            >= value_or_zero(window_or_empty(windows, w).durations_us, e),
        value_or_zero(window_or_empty(sourced(windows, window_id, source), w).repaint_sources, s)
            >= value_or_zero(window_or_empty(windows, w).repaint_sources, s),
{
}

/// Nothing grows between two identical states.
pub proof fn law_no_growth_no_delta<K>(m: Map<K, u64>)
    ensures
        delta_map(m, m) == Map::<K, u64>::empty(),
{
    assert(delta_map(m, m) =~= Map::<K, u64>::empty());
}

/// A report taken when nothing was recorded since the previous one lists no
/// window.
pub proof fn law_quiet_period_reports_nothing(windows: Seq<(WindowId, WindowDiagnosticsView)>)
    requires
        keys_unique(windows),
    ensures
        delta_reports(windows, assoc_map(windows)) == Seq::<(WindowId, WindowDiagnosticsView)>::empty(),
{
    assert(windows =~= windows.take(windows.len() as int));
    lemma_quiet_reports(windows, windows);
}

proof fn lemma_quiet_reports(
    windows: Seq<(WindowId, WindowDiagnosticsView)>,
    all: Seq<(WindowId, WindowDiagnosticsView)>,
)
    requires
        keys_unique(all),
        windows.len() <= all.len(),
        windows == all.take(windows.len() as int),
    ensures
        delta_reports(windows, assoc_map(all)) == Seq::<(WindowId, WindowDiagnosticsView)>::empty(),
    decreases windows.len(),
{
    if windows.len() > 0 {
        let t = windows.drop_last();
        assert(t =~= all.take(t.len() as int));
        lemma_quiet_reports(t, all);
        let i = windows.len() - 1;
        assert(windows.last() == all[i]);
        lemma_assoc_index(all, i);
        let cur = windows.last().1;
        assert(window_or_empty(assoc_map(all), windows.last().0) == cur);
        law_no_growth_no_delta(cur.counters);
        law_no_growth_no_delta(cur.durations_us);
        law_no_growth_no_delta(cur.repaint_sources);
    }
}

/// Recording one event is recording a count of one: the same state after the
/// call and the same reports.
pub proof fn law_event_is_count_of_one(
    s: DiagnosticsStateView,
    window_id: WindowId,
    event: RenderDiagnosticEvent,
    now_nanos: u64,
    order: Seq<(WindowId, WindowDiagnosticsView)>,
    reports: Seq<WindowDeltaReport>,
)
    ensures
        after_call(s, DiagnosticsCall::Event(window_id, event, now_nanos)) == after_call(
            s,
            DiagnosticsCall::Count(window_id, event, 1, now_nanos),
        ),
        call_reports(s, DiagnosticsCall::Event(window_id, event, now_nanos), order, reports)
            == call_reports(s, DiagnosticsCall::Count(window_id, event, 1, now_nanos), order, reports),
{
}

/// GPU activity of zero microseconds changes nothing and reports nothing. Any
/// other GPU activity adds its capped length to the GPU total, wrapping
/// around, and otherwise does exactly what a timed `GpuActive` event of the
/// same length does.
pub proof fn law_gpu_activity_is_a_timed_event(
    s: DiagnosticsStateView,
    window_id: WindowId,
    duration_us: u128,
    now_nanos: u64,
    order: Seq<(WindowId, WindowDiagnosticsView)>,
    reports: Seq<WindowDeltaReport>,
)
    ensures
        duration_us == 0 ==> after_call(s, DiagnosticsCall::GpuActive(window_id, duration_us, now_nanos))
            == s,
        duration_us == 0 ==> !reports_after(s, DiagnosticsCall::GpuActive(window_id, duration_us, now_nanos)),
        duration_us != 0 ==> after_call(
            s,
            DiagnosticsCall::GpuActive(window_id, duration_us, now_nanos),
        ) == (DiagnosticsStateView {
            total_gpu_active_us: ((s.total_gpu_active_us + capped_us(duration_us))
                % 0x1_0000_0000_0000_0000) as u64,
            ..after_call(
                s,
                DiagnosticsCall::Duration(
                    window_id,
                    RenderDiagnosticEvent::GpuActive,
                    duration_us,
                    now_nanos,
                ),
            )
        }),
        duration_us != 0 ==> call_reports(
            s,
            DiagnosticsCall::GpuActive(window_id, duration_us, now_nanos),
            order,
            reports,
        ) == call_reports(
            s,
            DiagnosticsCall::Duration(window_id, RenderDiagnosticEvent::GpuActive, duration_us, now_nanos),
            order,
            reports,
        ),
{
}

/// The microseconds that the GPU calls among `cs` add, each capped at
/// `u64::MAX`.
pub open spec fn gpu_sum(cs: Seq<DiagnosticsCall>) -> int
    decreases cs.len(),
{
    if cs.len() == 0 {
        0
    } else {
        gpu_sum(cs.drop_last()) + match cs.last() {
            DiagnosticsCall::GpuActive(_, d, _) => capped_us(d) as int,
            _ => 0,
        }
    }
}

/// Without a reset in between, the GPU total grows by the capped length of
/// each GPU call and by nothing else, wrapping around at 2^64; after a reset
/// it is that wrapping sum alone (zero when no GPU call came).
pub proof fn law_gpu_total_is_wrapping_sum(s: DiagnosticsStateView, cs: Seq<DiagnosticsCall>)
    requires
        forall|i: int| 0 <= i < cs.len() ==> !(#[trigger] cs[i] is Reset),
    ensures
        after_calls(s, cs).total_gpu_active_us == (s.total_gpu_active_us + gpu_sum(cs))
            % 0x1_0000_0000_0000_0000,
        after_calls(after_call(s, DiagnosticsCall::Reset), cs).total_gpu_active_us == gpu_sum(cs)
            % 0x1_0000_0000_0000_0000,
    decreases cs.len(),
{
    lemma_gpu_sum_nonneg(cs);
    if cs.len() > 0 {
        let t = cs.drop_last();
        assert forall|i: int| 0 <= i < t.len() implies !(#[trigger] t[i] is Reset) by {
            assert(t[i] == cs[i]);
        }
        assert(!(cs[cs.len() - 1] is Reset));
        law_gpu_total_is_wrapping_sum(s, t);
        let m: int = 0x1_0000_0000_0000_0000;
        let before = after_calls(s, t);
        let g = gpu_sum(t);
        lemma_gpu_sum_nonneg(t);
        let add: int = match cs.last() {
            DiagnosticsCall::GpuActive(_, d, _) => capped_us(d) as int,
            _ => 0,
        };
        assert(after_calls(s, cs).total_gpu_active_us == (before.total_gpu_active_us + add) % m);
        vstd::arithmetic::div_mod::lemma_add_mod_noop(s.total_gpu_active_us + g, add, m);
        vstd::arithmetic::div_mod::lemma_small_mod(add as nat, m as nat);
        vstd::arithmetic::div_mod::lemma_mod_twice(s.total_gpu_active_us + g, m);
        let r = after_call(s, DiagnosticsCall::Reset);
        let before_r = after_calls(r, t);
        assert(after_calls(r, cs).total_gpu_active_us == (before_r.total_gpu_active_us + add) % m);
        vstd::arithmetic::div_mod::lemma_add_mod_noop(g, add, m);
        vstd::arithmetic::div_mod::lemma_mod_twice(g, m);
    }
}

proof fn lemma_gpu_sum_nonneg(cs: Seq<DiagnosticsCall>)
    ensures
        gpu_sum(cs) >= 0,
    decreases cs.len(),
{
    if cs.len() > 0 {
        lemma_gpu_sum_nonneg(cs.drop_last());
    }
}

/// Every event with a duration total in a window also has a counter of at
/// least one there.
pub open spec fn durations_counted(windows: Map<WindowId, WindowDiagnosticsView>) -> bool {
    forall|w: WindowId, e: RenderDiagnosticEvent|
        windows.dom().contains(w) && #[trigger] windows[w].durations_us.dom().contains(e)
            ==> value_or_zero(windows[w].counters, e) >= 1
}

proof fn lemma_call_keeps_durations_counted(s: DiagnosticsStateView, c: DiagnosticsCall)
    requires
        durations_counted(s.windows),
        call_fits(s, c),
    ensures
        durations_counted(after_call(s, c).windows),
{
    let r = recorded_view(s, c);
    assert(after_call(s, c).windows == r.windows);
    assert forall|w: WindowId, e: RenderDiagnosticEvent|
        r.windows.dom().contains(w) && #[trigger] r.windows[w].durations_us.dom().contains(
            e,
        ) implies value_or_zero(r.windows[w].counters, e) >= 1 by {
        match c {
            DiagnosticsCall::Event(x, ev, _) => {
                if s.enabled && w == x {
                    let old_w = window_or_empty(s.windows, x);
                    if s.windows.dom().contains(x) {
                        assert(old_w.durations_us.dom().contains(e));
                    }
                }
            },
            DiagnosticsCall::Count(x, ev, n, _) => {
                if s.enabled && w == x {
                    let old_w = window_or_empty(s.windows, x);
                    if s.windows.dom().contains(x) {
                        assert(old_w.durations_us.dom().contains(e));
                    }
                }
            },
            DiagnosticsCall::Duration(x, ev, d, _) => {
                if s.enabled && w == x && e != ev {
                    let old_w = window_or_empty(s.windows, x);
                    if s.windows.dom().contains(x) {
                        assert(old_w.durations_us.dom().contains(e));
                    }
                }
            },
            DiagnosticsCall::GpuActive(x, d, _) => {
                if s.enabled && d != 0 && w == x && e != RenderDiagnosticEvent::GpuActive {
                    let old_w = window_or_empty(s.windows, x);
                    if s.windows.dom().contains(x) {
                        assert(old_w.durations_us.dom().contains(e));
                    }
                }
            },
            DiagnosticsCall::RepaintSource(x, src, _) => {
                if s.enabled && w == x {
                    let old_w = window_or_empty(s.windows, x);
                    if s.windows.dom().contains(x) {
                        assert(old_w.durations_us.dom().contains(e));
                    }
                }
            },
            DiagnosticsCall::Reset => {},
        }
    }
}

/// Over any run of calls in which no counter passes `u64::MAX`, every event
/// with a duration total in a window keeps a counter of at least one there.
/// It holds of a fresh or reset state, whose windows are empty.
pub proof fn law_durations_are_counted(s: DiagnosticsStateView, cs: Seq<DiagnosticsCall>)
    requires
        durations_counted(s.windows),
        calls_fit(s, cs),
    ensures
        durations_counted(after_calls(s, cs).windows),
        durations_counted(Map::<WindowId, WindowDiagnosticsView>::empty()),
    decreases cs.len(),
{
    if cs.len() > 0 {
        law_durations_are_counted(s, cs.drop_last());
        lemma_call_keeps_durations_counted(after_calls(s, cs.drop_last()), cs.last());
    }
}

/// Whether `c` records something in `window_id` when recording is enabled.
pub open spec fn records_in(c: DiagnosticsCall, window_id: WindowId) -> bool {
    match c {
        DiagnosticsCall::Event(w, _, _) => w == window_id,
        DiagnosticsCall::Count(w, _, _, _) => w == window_id,
        DiagnosticsCall::Duration(w, _, _, _) => w == window_id,
        DiagnosticsCall::GpuActive(w, d, _) => w == window_id && d != 0,
        DiagnosticsCall::RepaintSource(w, _, _) => w == window_id,
        DiagnosticsCall::Reset => false,
    }
}

proof fn lemma_only_recorded_windows(
    s: DiagnosticsStateView,
    cs: Seq<DiagnosticsCall>,
    window_id: WindowId,
)
    requires
        forall|i: int| 0 <= i < cs.len() ==> !(#[trigger] cs[i] is Reset),
    ensures
        after_calls(s, cs).enabled == s.enabled,
        after_calls(s, cs).windows.dom().contains(window_id) ==> s.windows.dom().contains(window_id)
            || (s.enabled && exists|i: int| 0 <= i < cs.len() && records_in(#[trigger] cs[i], window_id)),
    decreases cs.len(),
{
    if cs.len() > 0 {
        let t = cs.drop_last();
        assert forall|i: int| 0 <= i < t.len() implies !(#[trigger] t[i] is Reset) by {
            assert(t[i] == cs[i]);
        }
        lemma_only_recorded_windows(s, t, window_id);
        let last = cs.len() - 1;
        assert(cs[last] == cs.last());
        if after_calls(s, cs).windows.dom().contains(window_id) && !s.windows.dom().contains(window_id) {
            if after_calls(s, t).windows.dom().contains(window_id) {
                let i = choose|i: int| 0 <= i < t.len() && records_in(#[trigger] t[i], window_id);
                assert(t[i] == cs[i]);
            } else {
                assert(records_in(cs[last], window_id));
            }
        }
    }
}

/// No call switches recording on or off. Without a reset in between, a
/// window holds diagnostics only if it held them before or some call of the
/// run recorded in it while recording was enabled; so after a reset, only
/// the windows that the calls since then recorded in while enabled appear.
pub proof fn law_only_recorded_windows(
    s: DiagnosticsStateView,
    cs: Seq<DiagnosticsCall>,
    window_id: WindowId,
)
    requires
        forall|i: int| 0 <= i < cs.len() ==> !(#[trigger] cs[i] is Reset),
    ensures
        after_calls(s, cs).enabled == s.enabled,
        after_calls(s, cs).windows.dom().contains(window_id) ==> s.windows.dom().contains(window_id)
            || (s.enabled && exists|i: int| 0 <= i < cs.len() && records_in(#[trigger] cs[i], window_id)),
        after_calls(after_call(s, DiagnosticsCall::Reset), cs).windows.dom().contains(window_id)
            ==> s.enabled && exists|i: int| 0 <= i < cs.len() && records_in(#[trigger] cs[i], window_id),
{
    lemma_only_recorded_windows(s, cs, window_id);
    lemma_only_recorded_windows(after_call(s, DiagnosticsCall::Reset), cs, window_id);
}

/// Whether `c` records something when recording is enabled: every call but a
/// reset and GPU activity of zero microseconds.
pub open spec fn is_recording_call(c: DiagnosticsCall) -> bool {
    match c {
        DiagnosticsCall::Reset => false,
        DiagnosticsCall::GpuActive(_, d, _) => d != 0,
        _ => true,
    }
}

/// Every recording call made while recording is enabled, be it an event, a
/// count, a duration, GPU activity or a repaint source, ends with a
/// delta-report step at its own time: with reports switched on, the first
/// step takes the windows after the call as the baseline, and a step a second
/// or more after the last report reports each window's growth since then and
/// takes the windows after the call as the new baseline; a step less than a
/// second after it leaves the baseline and reports nothing. A call made
/// while recording or reporting is off reports nothing and keeps the
/// baseline.
pub proof fn law_every_recording_call_reports(
    s: DiagnosticsStateView,
    c: DiagnosticsCall,
    order: Seq<(WindowId, WindowDiagnosticsView)>,
    reports: Seq<WindowDeltaReport>,
)
    requires
        is_recording_call(c),
    ensures
        after_call(s, c).windows == recorded_view(s, c).windows,
        s.enabled && s.log_deltas ==> after_call(s, c).last_log == (match s.last_log {
            None => Some((call_time(c), recorded_view(s, c).windows)),
            Some((then, _)) => if elapsed_nanos(call_time(c), then) >= LOG_INTERVAL_NANOS {
                Some((call_time(c), recorded_view(s, c).windows))
            } else {
                s.last_log
            },
        }),
        s.enabled && s.log_deltas && call_reports(s, c, order, reports) ==> match s.last_log {
            Some((then, prev)) => if elapsed_nanos(call_time(c), then) >= LOG_INTERVAL_NANOS {
                &&& report_views(reports) == delta_reports(order, prev)
                &&& forall|i: int|
                    0 <= i < reports.len() ==> (#[trigger] reports[i]).elapsed_nanos
                        == elapsed_nanos(call_time(c), then)
            } else {
                reports.len() == 0
            },
            None => reports.len() == 0,
        },
        !(s.enabled && s.log_deltas) ==> after_call(s, c).last_log == s.last_log,
        !(s.enabled && s.log_deltas) && call_reports(s, c, order, reports) ==> reports.len() == 0,
{
}

} // verus!

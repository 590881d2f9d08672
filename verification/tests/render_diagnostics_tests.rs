use std::time::Duration;

use warp_app_core::render_diagnostics::{
    maybe_log_deltas, record_count, record_duration, record_event, record_gpu_active_duration,
    record_repaint_source, reset, snapshot, total_gpu_active_us, RenderDiagnosticEvent,
    RenderDiagnosticsState, WindowId,
};

#[test]
fn records_window_events_and_repaint_sources() {
    let mut state = RenderDiagnosticsState::new(true, false);
    reset(&mut state);

    let window_id = WindowId(1);
    record_event(&mut state, window_id, RenderDiagnosticEvent::RequestRedraw, 0);
    record_event(&mut state, window_id, RenderDiagnosticEvent::RequestRedraw, 0);
    record_count(&mut state, window_id, RenderDiagnosticEvent::TerminalSurfaceRows, 17, 0);
    record_duration(
        &mut state,
        window_id,
        RenderDiagnosticEvent::CommandBufferWait,
        Duration::from_micros(25).as_micros(),
        0,
    );
    record_gpu_active_duration(&mut state, window_id, Duration::from_micros(125).as_micros(), 0);
    record_repaint_source(&mut state, window_id, "test_source", 0);

    let snapshot = snapshot(&state);
    let window = snapshot
        .window(window_id)
        .expect("window diagnostics should be recorded");

    assert_eq!(window.counter(RenderDiagnosticEvent::RequestRedraw), Some(2));
    assert_eq!(window.counter(RenderDiagnosticEvent::TerminalSurfaceRows), Some(17));
    assert_eq!(window.duration_us(RenderDiagnosticEvent::CommandBufferWait), Some(25));
    assert_eq!(window.duration_us(RenderDiagnosticEvent::GpuActive), Some(125));
    assert_eq!(total_gpu_active_us(&state), 125);
    assert_eq!(window.repaint_source_count("test_source"), Some(1));

    reset(&mut state);
}

#[test]
fn disabled_recording_only_counts_gpu_time() {
    let mut state = RenderDiagnosticsState::new(false, true);
    let window_id = WindowId(3);
    assert!(record_event(&mut state, window_id, RenderDiagnosticEvent::Present, 0).is_empty());
    assert!(record_count(&mut state, window_id, RenderDiagnosticEvent::Present, 4, 0).is_empty());
    assert!(record_duration(&mut state, window_id, RenderDiagnosticEvent::Present, 10, 0).is_empty());
    assert!(record_repaint_source(&mut state, window_id, "cursor", 0).is_empty());
    assert!(record_gpu_active_duration(&mut state, window_id, 40, 0).is_empty());
    assert!(snapshot(&state).window(window_id).is_none());
    assert_eq!(total_gpu_active_us(&state), 40);
    // No delta-report step ran, so no baseline was taken.
    assert!(state.last_log.is_none());
}

#[test]
fn zero_gpu_time_is_ignored_and_huge_gpu_time_is_capped() {
    let mut state = RenderDiagnosticsState::new(true, true);
    let window_id = WindowId(2);
    record_gpu_active_duration(&mut state, window_id, 0, 0);
    assert!(snapshot(&state).window(window_id).is_none());
    assert_eq!(total_gpu_active_us(&state), 0);
    // A zero duration takes no delta-report step either.
    assert!(state.last_log.is_none());

    let huge: u128 = (u64::MAX as u128) + 6;
    record_gpu_active_duration(&mut state, window_id, huge, 0);
    assert_eq!(total_gpu_active_us(&state), u64::MAX);
    let snap = snapshot(&state);
    let window = snap.window(window_id).unwrap();
    assert_eq!(window.counter(RenderDiagnosticEvent::GpuActive), Some(1));
    assert_eq!(window.duration_us(RenderDiagnosticEvent::GpuActive), Some(5));
    assert!(state.last_log.is_some());
}

#[test]
fn gpu_total_is_the_wrapping_sum_of_capped_durations() {
    let mut state = RenderDiagnosticsState::new(true, false);
    record_gpu_active_duration(&mut state, WindowId(1), 7, 0);
    record_gpu_active_duration(&mut state, WindowId(2), (u64::MAX as u128) + 100, 0);
    // Other recorders leave the total alone.
    record_count(&mut state, WindowId(1), RenderDiagnosticEvent::GpuActive, 3, 0);
    record_duration(&mut state, WindowId(1), RenderDiagnosticEvent::GpuActive, 1_000, 0);
    record_repaint_source(&mut state, WindowId(1), "cursor", 0);
    // 7 + (2^64 - 1) wraps to 6.
    assert_eq!(total_gpu_active_us(&state), 6);
    record_gpu_active_duration(&mut state, WindowId(1), 4, 0);
    assert_eq!(total_gpu_active_us(&state), 10);
    reset(&mut state);
    assert_eq!(total_gpu_active_us(&state), 0);
    record_gpu_active_duration(&mut state, WindowId(1), 9, 0);
    assert_eq!(total_gpu_active_us(&state), 9);
}

#[test]
fn an_event_is_a_count_of_one() {
    let mut by_event = RenderDiagnosticsState::new(true, false);
    let mut by_count = RenderDiagnosticsState::new(true, false);
    for _ in 0..3 {
        record_event(&mut by_event, WindowId(4), RenderDiagnosticEvent::TerminalWakeup, 0);
        record_count(&mut by_count, WindowId(4), RenderDiagnosticEvent::TerminalWakeup, 1, 0);
    }
    let a = snapshot(&by_event);
    let b = snapshot(&by_count);
    assert_eq!(
        a.window(WindowId(4)).unwrap().counter(RenderDiagnosticEvent::TerminalWakeup),
        Some(3)
    );
    assert_eq!(
        b.window(WindowId(4)).unwrap().counter(RenderDiagnosticEvent::TerminalWakeup),
        Some(3)
    );
    assert_eq!(total_gpu_active_us(&by_event), total_gpu_active_us(&by_count));
}

#[test]
fn every_timed_event_is_also_counted() {
    let mut state = RenderDiagnosticsState::new(true, false);
    record_duration(&mut state, WindowId(1), RenderDiagnosticEvent::NextDrawable, 0, 0);
    record_gpu_active_duration(&mut state, WindowId(1), 3, 0);
    let snap = snapshot(&state);
    let window = snap.window(WindowId(1)).unwrap();
    assert_eq!(window.duration_us(RenderDiagnosticEvent::NextDrawable), Some(0));
    assert_eq!(window.counter(RenderDiagnosticEvent::NextDrawable), Some(1));
    assert_eq!(window.counter(RenderDiagnosticEvent::GpuActive), Some(1));
}

#[test]
fn windows_are_kept_apart_and_reset_forgets_everything() {
    let mut state = RenderDiagnosticsState::new(true, false);
    record_count(&mut state, WindowId(1), RenderDiagnosticEvent::SceneBuild, 3, 0);
    record_count(&mut state, WindowId(2), RenderDiagnosticEvent::SceneBuild, 5, 0);
    record_count(&mut state, WindowId(1), RenderDiagnosticEvent::SceneBuild, 4, 0);
    record_count(&mut state, WindowId(1), RenderDiagnosticEvent::Present, 0, 0);
    let snap = snapshot(&state);
    let first = snap.window(WindowId(1)).unwrap();
    assert_eq!(first.counter(RenderDiagnosticEvent::SceneBuild), Some(7));
    assert_eq!(first.counter(RenderDiagnosticEvent::Present), Some(0));
    assert_eq!(first.counter(RenderDiagnosticEvent::NextDrawable), None);
    assert_eq!(first.repaint_source_count("none"), None);
    assert_eq!(
        snap.window(WindowId(2)).unwrap().counter(RenderDiagnosticEvent::SceneBuild),
        Some(5)
    );
    record_gpu_active_duration(&mut state, WindowId(1), 9, 0);
    reset(&mut state);
    assert!(snapshot(&state).window(WindowId(1)).is_none());
    assert_eq!(total_gpu_active_us(&state), 0);
    assert!(state.enabled);
}

#[test]
fn recording_reports_deltas_once_a_second_has_passed() {
    let mut state = RenderDiagnosticsState::new(true, true);

    // The first recording call only remembers the state after it.
    assert!(record_count(&mut state, WindowId(1), RenderDiagnosticEvent::RenderScene, 2, 1_000).is_empty());
    let baseline = state.last_log.as_ref().expect("the first call takes a baseline");
    assert_eq!(baseline.instant_nanos, 1_000);
    assert_eq!(
        baseline.snapshot.window(WindowId(1)).unwrap().counter(RenderDiagnosticEvent::RenderScene),
        Some(2)
    );

    // Less than a second later: nothing yet.
    assert!(record_count(&mut state, WindowId(1), RenderDiagnosticEvent::RenderScene, 3, 2_000).is_empty());
    assert!(record_duration(&mut state, WindowId(1), RenderDiagnosticEvent::RenderScene, 40, 3_000).is_empty());
    assert!(record_repaint_source(&mut state, WindowId(1), "scroll", 999_999_999).is_empty());

    // This call's own count is part of the report it ends with.
    let reports = record_count(&mut state, WindowId(2), RenderDiagnosticEvent::Present, 1, 1_000_001_000);
    assert_eq!(reports.len(), 2);
    assert_eq!(reports[0].window_id, WindowId(1));
    assert_eq!(reports[0].elapsed_nanos, 1_000_000_000);
    assert_eq!(
        reports[0].counter_deltas,
        vec![(RenderDiagnosticEvent::RenderScene, 4)]
    );
    assert_eq!(
        reports[0].duration_deltas_us,
        vec![(RenderDiagnosticEvent::RenderScene, 40)]
    );
    assert_eq!(reports[0].repaint_source_deltas, vec![("scroll".to_string(), 1)]);
    assert_eq!(reports[1].window_id, WindowId(2));
    assert_eq!(reports[1].counter_deltas, vec![(RenderDiagnosticEvent::Present, 1)]);
    assert_eq!(state.last_log.as_ref().unwrap().instant_nanos, 1_000_001_000);

    // A quiet second reports nothing.
    assert!(maybe_log_deltas(&mut state, 2_000_002_000).is_empty());

    // The next report lists only what grew since the last one.
    let reports = record_event(&mut state, WindowId(2), RenderDiagnosticEvent::Present, 3_000_003_000);
    assert_eq!(reports.len(), 1);
    assert_eq!(reports[0].window_id, WindowId(2));
    assert_eq!(reports[0].elapsed_nanos, 1_000_001_000);
    assert_eq!(reports[0].counter_deltas, vec![(RenderDiagnosticEvent::Present, 1)]);
}

#[test]
fn delta_reports_are_off_unless_switched_on() {
    let mut state = RenderDiagnosticsState::new(true, false);
    assert!(record_event(&mut state, WindowId(1), RenderDiagnosticEvent::TerminalWakeup, 0).is_empty());
    assert!(record_event(&mut state, WindowId(1), RenderDiagnosticEvent::TerminalWakeup, 5_000_000_000).is_empty());
    assert!(maybe_log_deltas(&mut state, 0).is_empty());
    assert!(maybe_log_deltas(&mut state, 5_000_000_000).is_empty());
    assert!(state.last_log.is_none());
}

use warp_app_core::claude_rate_limits::{
    accumulate_entries, record_window, refresh_allowed, totals_if_any, transcript_is_too_old,
    window_cutoffs, window_resets_at, AggregateTotals, TranscriptEntry, TranscriptMessage,
    TranscriptUsage, WindowTotals, PRIMARY_WINDOW_SECS, ClaudeRateLimitErrorState,
    ClaudeRateLimitUsageState,
};
use warp_app_core::codex_rate_limits::{
    combine_window_projections, is_rate_limits_reply, projection_for_empty_time,
    refresh_delay_secs, reply_outcome,
    CodexRateLimitHistoryBuffer, CodexRateLimitProjection, projection_without_sample,
    CodexRateLimitErrorState, CodexRateLimitUsageState,
};
use warp_app_core::time::{is_stale, Timestamp};

fn ts(secs: i64) -> Timestamp {
    Timestamp::from_unix(secs, 0).unwrap()
}

fn assistant_entry(at: Timestamp, input: u64, output: u64) -> TranscriptEntry {
    TranscriptEntry {
        timestamp: Some(at),
        message: Some(TranscriptMessage {
            usage: Some(TranscriptUsage {
                input_tokens: input,
                output_tokens: output,
                cache_creation_input_tokens: 0,
                cache_read_input_tokens: 0,
            }),
        }),
    }
}

// 2026-05-06T12:00:00Z
const NOW: i64 = 1_778_068_800;

fn aggregate(entries: &Vec<TranscriptEntry>) -> Option<AggregateTotals> {
    let (primary_cutoff, secondary_cutoff) = window_cutoffs(ts(NOW));
    let mut totals = AggregateTotals::new();
    accumulate_entries(entries, primary_cutoff, secondary_cutoff, &mut totals);
    totals_if_any(totals)
}

#[test]
fn aggregates_tokens_across_windows() {
    let inside_primary = ts(NOW - 2 * 3600);
    let outside_primary = ts(NOW - 8 * 3600);
    let outside_secondary = ts(NOW - 10 * 86400);
    let entries = vec![
        assistant_entry(inside_primary, 100, 50),
        assistant_entry(outside_primary, 200, 100),
        assistant_entry(outside_secondary, 9_999, 9_999),
    ];

    let totals = aggregate(&entries).unwrap();
    // Primary picks up only the entry within the last 5 hours.
    assert_eq!(totals.primary.tokens, 100 + 50);
    assert_eq!(totals.primary.oldest, Some(inside_primary));
    // Secondary picks up entries within the last 7 days.
    assert_eq!(totals.secondary.tokens, 100 + 50 + 200 + 100);
    assert_eq!(totals.secondary.oldest, Some(outside_primary));
}

#[test]
fn ignores_lines_without_usage() {
    let inside = ts(NOW - 3600);
    let entries = vec![
        TranscriptEntry {
            timestamp: Some(inside),
            message: Some(TranscriptMessage { usage: None }),
        },
        assistant_entry(inside, 10, 5),
    ];
    let totals = aggregate(&entries).unwrap();
    assert_eq!(totals.primary.tokens, 15);
}

#[test]
fn usage_outside_windows_yields_no_sample() {
    let outside_secondary = ts(NOW - 10 * 86400);
    assert_eq!(aggregate(&vec![assistant_entry(outside_secondary, 10, 5)]), None);
}

#[test]
fn entries_without_timestamp_or_message_are_skipped() {
    let entries = vec![
        TranscriptEntry { timestamp: None, message: Some(TranscriptMessage { usage: None }) },
        TranscriptEntry { timestamp: Some(ts(NOW)), message: None },
        TranscriptEntry {
            timestamp: None,
            message: assistant_entry(ts(NOW), 1, 1).message,
        },
    ];
    assert_eq!(aggregate(&entries), None);
}

#[test]
fn billable_tokens_saturate() {
    let usage = TranscriptUsage {
        input_tokens: u64::MAX - 1,
        output_tokens: 1,
        cache_creation_input_tokens: 1,
        cache_read_input_tokens: 7,
    };
    assert_eq!(usage.total_billable_tokens(), u64::MAX);
    let usage = TranscriptUsage {
        input_tokens: 1,
        output_tokens: 2,
        cache_creation_input_tokens: 3,
        cache_read_input_tokens: 4,
    };
    assert_eq!(usage.total_billable_tokens(), 10);
}

#[test]
fn record_window_keeps_the_oldest_entry() {
    let mut window = WindowTotals::new();
    record_window(&mut window, ts(500), 10);
    record_window(&mut window, ts(400), 5);
    record_window(&mut window, ts(600), u64::MAX);
    assert_eq!(window.tokens, u64::MAX);
    assert_eq!(window.oldest, Some(ts(400)));
}

#[test]
fn window_reset_and_transcript_age() {
    let totals = WindowTotals { tokens: 999_999_999, oldest: Some(ts(NOW)) };
    assert_eq!(
        window_resets_at(&totals, PRIMARY_WINDOW_SECS),
        Some(ts(NOW + 5 * 3600))
    );
    assert_eq!(window_resets_at(&WindowTotals::new(), PRIMARY_WINDOW_SECS), None);

    let cutoff = ts(NOW);
    assert!(transcript_is_too_old(Some(ts(NOW - 61)), cutoff));
    assert!(!transcript_is_too_old(Some(ts(NOW - 60)), cutoff));
    assert!(!transcript_is_too_old(None, cutoff));
}

#[test]
fn refresh_throttling() {
    assert!(refresh_allowed(false, false, None));
    assert!(!refresh_allowed(true, true, None));
    assert!(!refresh_allowed(false, true, Some(59_999_999_999)));
    assert!(refresh_allowed(false, true, Some(60_000_000_000)));
    assert!(!refresh_allowed(false, false, Some(60_000_000_000)));
    assert!(refresh_allowed(false, false, Some(300_000_000_000)));
    assert_eq!(refresh_delay_secs(true), 60);
    assert_eq!(refresh_delay_secs(false), 300);
}

#[test]
fn staleness_is_more_than_five_minutes() {
    assert!(!is_stale(&ts(NOW + 300), &ts(NOW)));
    assert!(is_stale(&Timestamp::from_unix(NOW + 300, 1).unwrap(), &ts(NOW)));
    assert!(!is_stale(&ts(NOW - 1000), &ts(NOW)));
}

#[test]
fn timestamps_outside_the_calendar_are_rejected() {
    assert!(Timestamp::from_unix(NOW, 1_000_000_000).is_none());
    assert!(Timestamp::from_unix(i64::MAX, 0).is_none());
    assert!(Timestamp::from_unix(-8_334_601_315_200, 0).is_some());
    assert!(Timestamp::from_unix(-8_334_601_315_201, 0).is_none());
    assert_eq!(ts(10).whole_secs_since(&ts(3)), 7);
    assert_eq!(
        Timestamp::from_unix(3, 500_000_000).unwrap().whole_secs_since(&ts(10)),
        -6
    );
}

#[test]
fn history_drops_samples_older_than_thirty_minutes() {
    let mut history: CodexRateLimitHistoryBuffer<u32> = CodexRateLimitHistoryBuffer::new();
    history.push(ts(0), 1);
    history.push(ts(600), 2);
    history.push(ts(1800), 3);
    assert_eq!(history.len(), 3);
    history.push(ts(1801), 4);
    assert_eq!(history.len(), 3);
    assert_eq!(history.get(0), &(ts(600), 2));
    history.push(ts(5000), 5);
    assert_eq!(history.len(), 1);
    assert_eq!(history.get(0), &(ts(5000), 5));
}

#[test]
fn projections_prefer_running_out_then_resetting() {
    let p = combine_window_projections(
        CodexRateLimitProjection::EmptyAt(ts(900)),
        CodexRateLimitProjection::EmptyAt(ts(800)),
    );
    assert_eq!(p, CodexRateLimitProjection::EmptyAt(ts(800)));
    let p = combine_window_projections(
        CodexRateLimitProjection::ResetsAt(ts(100)),
        CodexRateLimitProjection::EmptyAt(ts(800)),
    );
    assert_eq!(p, CodexRateLimitProjection::EmptyAt(ts(800)));
    let p = combine_window_projections(
        CodexRateLimitProjection::ResetsAt(ts(300)),
        CodexRateLimitProjection::ResetsAt(ts(200)),
    );
    assert_eq!(p, CodexRateLimitProjection::ResetsAt(ts(200)));
    let p = combine_window_projections(
        CodexRateLimitProjection::Unknown,
        CodexRateLimitProjection::Stable,
    );
    assert_eq!(p, CodexRateLimitProjection::Stable);
    let p = combine_window_projections(
        CodexRateLimitProjection::Unknown,
        CodexRateLimitProjection::EmptyNow,
    );
    assert_eq!(p, CodexRateLimitProjection::Unknown);
}

#[test]
fn reset_wins_when_it_comes_first() {
    assert_eq!(
        projection_for_empty_time(ts(1800), Some(ts(1500))),
        CodexRateLimitProjection::ResetsAt(ts(1500))
    );
    assert_eq!(
        projection_for_empty_time(ts(1800), Some(ts(1800))),
        CodexRateLimitProjection::ResetsAt(ts(1800))
    );
    assert_eq!(
        projection_for_empty_time(ts(1800), Some(ts(10800))),
        CodexRateLimitProjection::EmptyAt(ts(1800))
    );
    assert_eq!(
        projection_for_empty_time(ts(1800), None),
        CodexRateLimitProjection::EmptyAt(ts(1800))
    );
}

#[test]
fn replies_report_their_error_first() {
    assert_eq!(
        reply_outcome(Some((-32600, Some("bad request".to_string()))), Some(7u32)),
        Err("Codex rate-limit request failed: bad request".to_string())
    );
    assert_eq!(
        reply_outcome::<u32>(Some((-32600, None)), None),
        Err("Codex rate-limit request failed: -32600".to_string())
    );
    assert_eq!(reply_outcome(None, Some(7u32)), Ok(7));
    assert_eq!(
        reply_outcome::<u32>(None, None),
        Err("Codex rate-limit response did not include a result".to_string())
    );
    assert!(is_rate_limits_reply(Some(2)));
    assert!(!is_rate_limits_reply(Some(1)));
    assert!(!is_rate_limits_reply(None));
}

#[test]
fn window_order_does_not_matter() {
    let cases = [
        CodexRateLimitProjection::EmptyNow,
        CodexRateLimitProjection::EmptyAt(ts(50)),
        CodexRateLimitProjection::EmptyAt(ts(70)),
        CodexRateLimitProjection::ResetsAt(ts(60)),
        CodexRateLimitProjection::ResetsAt(ts(40)),
        CodexRateLimitProjection::Stable,
        CodexRateLimitProjection::Unknown,
    ];
    for a in cases {
        for b in cases {
            assert_eq!(
                combine_window_projections(a, b),
                combine_window_projections(b, a)
            );
        }
    }
}

#[test]
fn codex_refresh_updates_history_current_sample_and_error() {
    let mut state: CodexRateLimitUsageState<u32> = CodexRateLimitUsageState::new();
    assert!(state.current().is_none());
    assert!(state.last_error.is_none());

    let failure = CodexRateLimitErrorState { failed_at: ts(5), message: "probe timed out".to_string() };
    assert_eq!(state.apply_refresh(Err(failure.clone())), 300);
    assert!(state.current().is_none());
    assert_eq!(state.last_error, Some(failure.clone()));
    assert_eq!(state.history.len(), 0);

    assert_eq!(state.apply_refresh(Ok((ts(10), 7))), 60);
    assert_eq!(state.current(), Some(&(ts(10), 7)));
    assert!(state.last_error.is_none());

    // A failure keeps the current sample.
    assert_eq!(state.apply_refresh(Err(failure.clone())), 300);
    assert_eq!(state.current(), Some(&(ts(10), 7)));
    assert_eq!(state.last_error, Some(failure));

    // A sample more than thirty minutes newer drops the old one.
    assert_eq!(state.apply_refresh(Ok((ts(10 + 1801), 8))), 60);
    assert_eq!(state.current(), Some(&(ts(1811), 8)));
    assert_eq!(state.history.len(), 1);
}

#[test]
fn codex_outlook_without_a_sample() {
    assert_eq!(projection_without_sample(&None), CodexRateLimitProjection::Stable);
    let failure = CodexRateLimitErrorState { failed_at: ts(5), message: "failed".to_string() };
    assert_eq!(projection_without_sample(&Some(failure)), CodexRateLimitProjection::Unknown);
}

#[test]
fn claude_refresh_requests_are_throttled() {
    let mut state: ClaudeRateLimitUsageState<u32> = ClaudeRateLimitUsageState::new();
    assert!(state.request_refresh(1_000));
    assert!(state.refresh_in_flight);
    assert_eq!(state.last_refresh_requested_at, Some(1_000));
    // None starts while one is in flight.
    assert!(!state.request_refresh(1_000_000_000_000));
    assert_eq!(state.last_refresh_requested_at, Some(1_000));

    let failure = ClaudeRateLimitErrorState { failed_at: ts(5), message: "no usage".to_string() };
    state.finish_refresh(Err(failure.clone()));
    assert!(!state.refresh_in_flight);
    assert_eq!(state.current, None);
    assert_eq!(state.last_error, Some(failure));

    // Without a sample, five minutes must pass.
    assert!(!state.request_refresh(1_000 + 299_999_999_999));
    assert!(state.request_refresh(1_000 + 300_000_000_000));
    state.finish_refresh(Ok(42));
    assert_eq!(state.current, Some(42));
    assert!(state.last_error.is_none());

    // With a sample, one minute.
    let last = 1_000 + 300_000_000_000;
    assert!(!state.request_refresh(last + 59_999_999_999));
    assert!(state.request_refresh(last + 60_000_000_000));
    assert_eq!(state.last_refresh_requested_at, Some(last + 60_000_000_000));
}

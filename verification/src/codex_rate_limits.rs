//! The time-based parts of the Codex rate-limit tracker: the rolling sample
//! history, how the two windows' projections combine, and the refresh rhythm.

use vstd::prelude::*;

use std::collections::VecDeque;

use crate::time::{secs_in_range, Timestamp, SECS_PER_MINUTE};
use crate::text::{signed_decimal, signed_decimal_string};

verus! {

/// Seconds between successful refreshes.
pub const REFRESH_INTERVAL_SECS: u64 = 60;

/// Seconds before retrying after a failed refresh.
pub const ERROR_BACKOFF_INTERVAL_SECS: u64 = 5 * 60;

/// Seconds a probe may take before it is abandoned.
pub const PROBE_TIMEOUT_SECS: u64 = 8;

/// How far back the history reaches: thirty minutes.
pub const HISTORY_WINDOW_SECS: i64 = 30 * SECS_PER_MINUTE;

pub enum CodexRateLimitUsageModelEvent {
    Refreshed,
}

#[derive(Debug, Clone, Copy, PartialEq, Eq, Structural)]
pub enum CodexRateLimitWindowKind {
    Primary,
    Secondary,
}

/// A failed refresh.
#[derive(Debug, Clone, PartialEq, Eq)]
pub struct CodexRateLimitErrorState {
    pub failed_at: Timestamp,
    pub message: String,
}

/// Where a rate-limit window is heading.
#[derive(Debug, Clone, Copy, PartialEq, Eq, Structural)]
pub enum CodexRateLimitProjection {
    EmptyNow,
    EmptyAt(Timestamp),
    ResetsAt(Timestamp),
    Stable,
    Unknown,
}

/// Samples of the last thirty minutes, oldest first, each with the time it was
/// fetched.
pub struct CodexRateLimitHistoryBuffer<T> {
    samples: VecDeque<(Timestamp, T)>,
}

impl<T> View for CodexRateLimitHistoryBuffer<T> {
    type V = Seq<(Timestamp, T)>;

    closed spec fn view(&self) -> Seq<(Timestamp, T)> {
        self.samples@
    }
}

/// The history after appending `sample` fetched at `fetched_at`: the samples
/// at the front older than thirty minutes before `fetched_at` are dropped.
pub open spec fn pushed_history<T>(history: Seq<(Timestamp, T)>, fetched_at: Timestamp, sample: T) -> Seq<
    (Timestamp, T),
> {
    let all = history.push((fetched_at, sample));
    all.skip(stale_prefix_len(all, fetched_at.total_nanos() - HISTORY_WINDOW_SECS * 1_000_000_000))
}

/// How many samples at the front were fetched before `cutoff_nanos`.
pub open spec fn stale_prefix_len<T>(s: Seq<(Timestamp, T)>, cutoff_nanos: int) -> int
    decreases s.len(),
{
    if s.len() == 0 {
        0
    } else if s[0].0.total_nanos() < cutoff_nanos {
        1 + stale_prefix_len(s.skip(1), cutoff_nanos)
    } else {
        0
    }
}

proof fn lemma_stale_prefix_len<T>(s: Seq<(Timestamp, T)>, cutoff_nanos: int)
    ensures
        0 <= stale_prefix_len(s, cutoff_nanos) <= s.len(),
        forall|j: int|
            0 <= j < stale_prefix_len(s, cutoff_nanos) ==> (#[trigger] s[j]).0.total_nanos()
                < cutoff_nanos,
        stale_prefix_len(s, cutoff_nanos) < s.len() ==> s[stale_prefix_len(
            s,
            cutoff_nanos,
        )].0.total_nanos() >= cutoff_nanos,
    decreases s.len(),
{
    if s.len() > 0 && s[0].0.total_nanos() < cutoff_nanos {
        let t = s.skip(1);
        lemma_stale_prefix_len(t, cutoff_nanos);
        assert forall|j: int|
            0 <= j < stale_prefix_len(s, cutoff_nanos) implies (#[trigger] s[j]).0.total_nanos()
            < cutoff_nanos by {
            if j > 0 {
                assert(s[j] == t[j - 1]);
            }
        }
        if stale_prefix_len(s, cutoff_nanos) < s.len() {
            assert(s[stale_prefix_len(s, cutoff_nanos)] == t[stale_prefix_len(t, cutoff_nanos)]);
        }
    }
}

impl<T> CodexRateLimitHistoryBuffer<T> {
    pub open spec fn wf(&self) -> bool {
        forall|i: int| 0 <= i < self@.len() ==> (#[trigger] self@[i]).0.wf()
    }

    /// An empty history.
    pub fn new() -> (r: Self)
        ensures
            r@ == Seq::<(Timestamp, T)>::empty(),
            r.wf(),
    {
        CodexRateLimitHistoryBuffer { samples: VecDeque::new() }
    }

    /// Appends a sample fetched at `fetched_at` and drops the samples at the
    /// front that were fetched more than thirty minutes before it.
    pub fn push(&mut self, fetched_at: Timestamp, sample: T)
        requires
            old(self).wf(),
            fetched_at.wf(),
            secs_in_range(fetched_at.secs - HISTORY_WINDOW_SECS),
        ensures
            final(self).wf(),
            final(self)@ == pushed_history(old(self)@, fetched_at, sample),
    {
        let cutoff = fetched_at.minus_secs(HISTORY_WINDOW_SECS);
        let ghost all = self@.push((fetched_at, sample));
        let ghost cutoff_nanos = cutoff.total_nanos();
        self.samples.push_back((fetched_at, sample));
        assert(self@ == all);
        proof {
            lemma_stale_prefix_len(all, cutoff_nanos);
        }
        let ghost dropped: int = 0;
        loop
            invariant
                0 <= dropped <= stale_prefix_len(all, cutoff_nanos),
                self@ == all.skip(dropped),
                all.len() > 0,
                all.last().0 == fetched_at,
                fetched_at.wf(),
                cutoff.wf(),
                cutoff.total_nanos() == cutoff_nanos,
                cutoff_nanos < fetched_at.total_nanos(),
                forall|i: int| 0 <= i < all.len() ==> (#[trigger] all[i]).0.wf(),
                0 <= stale_prefix_len(all, cutoff_nanos) <= all.len(),
                forall|j: int|
                    0 <= j < stale_prefix_len(all, cutoff_nanos) ==> (#[trigger] all[j]).0.total_nanos()
                        < cutoff_nanos,
                stale_prefix_len(all, cutoff_nanos) < all.len() ==> all[stale_prefix_len(
                    all,
                    cutoff_nanos,
                )].0.total_nanos() >= cutoff_nanos,
        ensures
            0 <= dropped <= stale_prefix_len(all, cutoff_nanos),
            self@ == all.skip(dropped),
            self@.len() == 0 || all[dropped].0.total_nanos() >= cutoff_nanos,
        decreases all.len() - dropped,
        {
            let front_is_stale = if self.samples.len() > 0 {
                let front = &self.samples[0];
                assert(*front == all[dropped]);
                front.0.is_before(&cutoff)
            } else {
                false
            };
            if !front_is_stale {
                break;
            }
            self.samples.pop_front();
            proof {
                assert(all.skip(dropped).subrange(1, all.skip(dropped).len() as int) =~= all.skip(
                    dropped + 1,
                ));
                dropped = dropped + 1;
            }
        }
        proof {
            if dropped < stale_prefix_len(all, cutoff_nanos) {
                assert(all[dropped].0.total_nanos() < cutoff_nanos);
                assert(self@.len() > 0 && self@[0] == all[dropped]);
            } else if self@.len() == 0 {
                assert(all.skip(dropped).len() == 0);
                assert(all[all.len() - 1].0.total_nanos() >= cutoff_nanos);
            }
            assert(dropped == stale_prefix_len(all, cutoff_nanos));
        }
    }

    /// The number of samples held.
    pub fn len(&self) -> (r: usize)
        ensures
            r == self@.len(),
    {
        self.samples.len()
    }

    /// The `i`-th sample, oldest first, with its fetch time.
    pub fn get(&self, i: usize) -> (r: &(Timestamp, T))
        requires
            i < self@.len(),
        ensures
            *r == self@[i as int],
    {
        &self.samples[i]
    }
}

/// The earlier of two optional instants.
pub open spec fn earliest(a: Option<Timestamp>, b: Option<Timestamp>) -> Option<Timestamp> {
    match (a, b) {
        (Some(x), Some(y)) => if y.total_nanos() < x.total_nanos() {
            Some(y)
        } else {
            Some(x)
        },
        (Some(x), None) => Some(x),
        (None, y) => y,
    }
}

pub open spec fn empty_time(p: CodexRateLimitProjection) -> Option<Timestamp> {
    match p {
        CodexRateLimitProjection::EmptyAt(t) => Some(t),
        _ => None,
    }
}

pub open spec fn reset_time(p: CodexRateLimitProjection) -> Option<Timestamp> {
    match p {
        CodexRateLimitProjection::ResetsAt(t) => Some(t),
        _ => None,
    }
}

/// The outlook of both windows together: the earliest time either runs out,
/// else the earliest time either resets, else stable if either is stable,
/// else unknown.
pub open spec fn combined(
    primary: CodexRateLimitProjection,
    secondary: CodexRateLimitProjection,
) -> CodexRateLimitProjection {
    match earliest(empty_time(primary), empty_time(secondary)) {
        Some(t) => CodexRateLimitProjection::EmptyAt(t),
        None => match earliest(reset_time(primary), reset_time(secondary)) {
            Some(t) => CodexRateLimitProjection::ResetsAt(t),
            None => if primary is Stable || secondary is Stable {
                CodexRateLimitProjection::Stable
            } else {
                CodexRateLimitProjection::Unknown
            },
        },
    }
}

pub open spec fn projection_wf(p: CodexRateLimitProjection) -> bool {
    match p {
        CodexRateLimitProjection::EmptyAt(t) => t.wf(),
        CodexRateLimitProjection::ResetsAt(t) => t.wf(),
        _ => true,
    }
}

fn earlier_of(a: Option<Timestamp>, b: Option<Timestamp>) -> (r: Option<Timestamp>)
    requires
        a matches Some(x) ==> x.wf(),
        b matches Some(y) ==> y.wf(),
    ensures
        r == earliest(a, b),
{
    match (a, b) {
        (Some(x), Some(y)) => if y.is_before(&x) {
            Some(y)
        } else {
            Some(x)
        },
        (Some(x), None) => Some(x),
        (None, y) => y,
    }
}

fn empty_time_of(p: CodexRateLimitProjection) -> (r: Option<Timestamp>)
    ensures
        r == empty_time(p),
{
    match p {
        CodexRateLimitProjection::EmptyAt(t) => Some(t),
        _ => None,
    }
}

fn reset_time_of(p: CodexRateLimitProjection) -> (r: Option<Timestamp>)
    ensures
        r == reset_time(p),
{
    match p {
        CodexRateLimitProjection::ResetsAt(t) => Some(t),
        _ => None,
    }
}

/// Combines the projections of the primary and the secondary window.
pub fn combine_window_projections(
    primary: CodexRateLimitProjection,
    secondary: CodexRateLimitProjection,
) -> (r: CodexRateLimitProjection)
    requires
        projection_wf(primary),
        projection_wf(secondary),
    ensures
        r == combined(primary, secondary),
        projection_wf(r),
{
    if let Some(t) = earlier_of(empty_time_of(primary), empty_time_of(secondary)) {
        return CodexRateLimitProjection::EmptyAt(t);
    }
    if let Some(t) = earlier_of(reset_time_of(primary), reset_time_of(secondary)) {
        return CodexRateLimitProjection::ResetsAt(t);
    }
    match (primary, secondary) {
        (CodexRateLimitProjection::Stable, _) | (_, CodexRateLimitProjection::Stable) => {
            CodexRateLimitProjection::Stable
        },
        _ => CodexRateLimitProjection::Unknown,
    }
}

/// The outlook of a window expected to run out at `empty_at`: if it resets
/// first (or at that very moment), it resets; otherwise it runs out.
pub fn projection_for_empty_time(empty_at: Timestamp, resets_at: Option<Timestamp>) -> (r:
    CodexRateLimitProjection)
    requires
        empty_at.wf(),
        resets_at matches Some(t) ==> t.wf(),
    ensures
        r == (match resets_at {
            Some(t) => if empty_at.total_nanos() >= t.total_nanos() {
                CodexRateLimitProjection::ResetsAt(t)
            } else {
                CodexRateLimitProjection::EmptyAt(empty_at)
            },
            None => CodexRateLimitProjection::EmptyAt(empty_at),
        }),
{
    match resets_at {
        Some(t) => if t.is_at_or_before(&empty_at) {
            CodexRateLimitProjection::ResetsAt(t)
        } else {
            CodexRateLimitProjection::EmptyAt(empty_at)
        },
        None => CodexRateLimitProjection::EmptyAt(empty_at),
    }
}

/// The id of the request that reads the rate limits.
pub const READ_LIMITS_REQUEST_ID: u64 = 2;

/// Whether a reply from the app server answers the rate-limit request.
pub fn is_rate_limits_reply(id: Option<u64>) -> (r: bool)
    ensures
        r == (id == Some(READ_LIMITS_REQUEST_ID)),
{
    match id {
        Some(i) => i == READ_LIMITS_REQUEST_ID,
        None => false,
    }
}

/// The error reported for a reply that carries an error: its message, or its
/// code when it has none.
pub open spec fn request_failed_text(code: i64, message: Option<Seq<char>>) -> Seq<char> {
    "Codex rate-limit request failed: "@ + match message {
        Some(m) => m,
        None => signed_decimal(code as int),
    }
}

/// The error reported for a reply with neither an error nor a result.
pub open spec fn missing_result_text() -> Seq<char> {
    "Codex rate-limit response did not include a result"@
}

/// What a reply to the rate-limit request yields: its error, if it carries
/// one; otherwise its result; otherwise an error that the result is missing.
pub fn reply_outcome<T>(error: Option<(i64, Option<String>)>, result: Option<T>) -> (r: Result<
    T,
    String,
>)
    ensures
        match error {
            Some((code, message)) => r matches Err(e) && e@ == request_failed_text(
                code,
                match message {
                    Some(m) => Some(m@),
                    None => None,
                },
            ),
            None => match result {
                Some(v) => r == Ok::<T, String>(v),
                None => r matches Err(e) && e@ == missing_result_text(),
            },
        },
{
    match error {
        Some((code, message)) => {
            let detail = match message {
                Some(m) => m,
                None => signed_decimal_string(code),
            };
            Err(String::from_str("Codex rate-limit request failed: ").concat(detail.as_str()))
        },
        None => match result {
            Some(v) => Ok(v),
            None => Err(String::from_str("Codex rate-limit response did not include a result")),
        },
    }
}

/// Seconds until the next refresh after one that succeeded or failed.
pub fn refresh_delay_secs(succeeded: bool) -> (r: u64)
    ensures
        r == (if succeeded {
            REFRESH_INTERVAL_SECS
        } else {
            ERROR_BACKOFF_INTERVAL_SECS
        }),
{
    if succeeded {
        REFRESH_INTERVAL_SECS
    } else {
        ERROR_BACKOFF_INTERVAL_SECS
    }
}

/// The outlook while no sample has been obtained: unknown after a failed
/// refresh, stable otherwise.
pub fn projection_without_sample(last_error: &Option<CodexRateLimitErrorState>) -> (r:
    CodexRateLimitProjection)
    ensures
        r == (if last_error is Some {
            CodexRateLimitProjection::Unknown
        } else {
            CodexRateLimitProjection::Stable
        }),
{
    match last_error {
        Some(_) => CodexRateLimitProjection::Unknown,
        None => CodexRateLimitProjection::Stable,
    }
}

/// The tracker's state between refreshes: the samples of the last thirty
/// minutes and the last failure, if the latest refresh failed. The current
/// sample is the newest one in the history: every successful refresh both
/// sets it and pushes it, and a push always keeps the sample pushed.
pub struct CodexRateLimitUsageState<T> {
    pub history: CodexRateLimitHistoryBuffer<T>,
    pub last_error: Option<CodexRateLimitErrorState>,
}

/// The newest sample of a history, if it holds any.
pub open spec fn newest<T>(history: Seq<(Timestamp, T)>) -> Option<(Timestamp, T)> {
    if history.len() > 0 {
        Some(history.last())
    } else {
        None
    }
}

impl<T> CodexRateLimitUsageState<T> {
    pub open spec fn wf(&self) -> bool {
        self.history.wf()
    }

    /// No sample and no failure yet.
    pub fn new() -> (r: Self)
        ensures
            r.wf(),
            r.history@ == Seq::<(Timestamp, T)>::empty(),
            r.last_error is None,
    {
        CodexRateLimitUsageState { history: CodexRateLimitHistoryBuffer::new(), last_error: None }
    }

    /// The sample of the last successful refresh, with its fetch time.
    pub fn current(&self) -> (r: Option<&(Timestamp, T)>)
        ensures
            r matches Some(p) ==> newest(self.history@) == Some(*p),
            r is None <==> newest(self.history@) is None,
    {
        let n = self.history.len();
        if n == 0 {
            None
        } else {
            Some(self.history.get(n - 1))
        }
    }

    /// Takes in the outcome of a refresh, the sample with its fetch time or
    /// the failure, and returns the seconds until the next refresh. A sample
    /// is pushed to the history, becomes the current one and clears the last
    /// failure; a failure is remembered and the history stays as it was.
    pub fn apply_refresh(&mut self, result: Result<(Timestamp, T), CodexRateLimitErrorState>) -> (delay:
        u64)
        requires
            old(self).wf(),
            result matches Ok((t, _)) ==> t.wf() && secs_in_range(t.secs - HISTORY_WINDOW_SECS),
        ensures
            final(self).wf(),
            match result {
                Ok((t, sample)) => {
                    &&& final(self).history@ == pushed_history(old(self).history@, t, sample)
                    &&& newest(final(self).history@) == Some((t, sample))
                    &&& final(self).last_error is None
                    &&& delay == REFRESH_INTERVAL_SECS
                },
                Err(e) => {
                    &&& final(self).history@ == old(self).history@
                    &&& final(self).last_error == Some(e)
                    &&& delay == ERROR_BACKOFF_INTERVAL_SECS
                },
            },
    {
        match result {
            Ok((fetched_at, sample)) => {
                proof {
                    law_push_keeps_newest(self.history@, fetched_at, sample);
                }
                self.history.push(fetched_at, sample);
                self.last_error = None;
                refresh_delay_secs(true)
            },
            Err(error) => {
                self.last_error = Some(error);
                refresh_delay_secs(false)
            },
        }
    }
}

// ----- laws -----

/// A freshly pushed sample is always kept, as the newest one.
pub proof fn law_push_keeps_newest<T>(history: Seq<(Timestamp, T)>, fetched_at: Timestamp, sample: T)
    ensures
        pushed_history(history, fetched_at, sample).len() >= 1,
        pushed_history(history, fetched_at, sample).last() == (fetched_at, sample),
{
    let all = history.push((fetched_at, sample));
    let cutoff = fetched_at.total_nanos() - HISTORY_WINDOW_SECS * 1_000_000_000;
    lemma_stale_prefix_len(all, cutoff);
    if stale_prefix_len(all, cutoff) == all.len() {
        assert(all[all.len() - 1].0.total_nanos() < cutoff);
    }
}

/// Whether samples were fetched in order.
pub open spec fn in_fetch_order<T>(s: Seq<(Timestamp, T)>) -> bool {
    forall|i: int, j: int|
        0 <= i <= j < s.len() ==> (#[trigger] s[i]).0.total_nanos() <= (#[trigger] s[j]).0.total_nanos()
}

/// When samples arrive in fetch order, the history holds exactly those of the
/// last thirty minutes before the newest one.
pub proof fn law_history_spans_thirty_minutes<T>(
    history: Seq<(Timestamp, T)>,
    fetched_at: Timestamp,
    sample: T,
)
    requires
        in_fetch_order(history.push((fetched_at, sample))),
    ensures
        forall|i: int|
            0 <= i < pushed_history(history, fetched_at, sample).len() ==> (#[trigger] pushed_history(
                history,
                fetched_at,
                sample,
            )[i]).0.total_nanos() >= fetched_at.total_nanos() - HISTORY_WINDOW_SECS * 1_000_000_000,
        forall|i: int|
            0 <= i < history.len() && history[i].0.total_nanos() >= fetched_at.total_nanos()
                - HISTORY_WINDOW_SECS * 1_000_000_000 ==> pushed_history(
                history,
                fetched_at,
                sample,
            ).contains(#[trigger] history[i]),
{
    let all = history.push((fetched_at, sample));
    let cutoff = fetched_at.total_nanos() - HISTORY_WINDOW_SECS * 1_000_000_000;
    lemma_stale_prefix_len(all, cutoff);
    let k = stale_prefix_len(all, cutoff);
    let kept = pushed_history(history, fetched_at, sample);
    assert forall|i: int| 0 <= i < kept.len() implies (#[trigger] kept[i]).0.total_nanos() >= cutoff by {
        assert(kept[i] == all[k + i]);
        assert(all[k].0.total_nanos() <= all[k + i].0.total_nanos());
    }
    assert forall|i: int|
        0 <= i < history.len() && history[i].0.total_nanos() >= cutoff implies kept.contains(
        #[trigger] history[i],
    ) by {
        assert(all[i] == history[i]);
        assert(i >= k);
        assert(kept[i - k] == all[i]);
    }
}

/// The outlook does not depend on which window is called primary.
pub proof fn law_combined_symmetric(
    primary: CodexRateLimitProjection,
    secondary: CodexRateLimitProjection,
)
    requires
        projection_wf(primary),
        projection_wf(secondary),
    ensures
        combined(primary, secondary) == combined(secondary, primary),
{
}

/// What the two windows' outlooks combine to: if either window runs out, the
/// outlook runs out at the earlier of their empty times; otherwise, if either
/// resets, it resets at the earlier of their reset times; otherwise it is
/// stable exactly when one window is stable, and unknown when neither is.
pub proof fn law_combined_outcome(
    primary: CodexRateLimitProjection,
    secondary: CodexRateLimitProjection,
)
    ensures
        (combined(primary, secondary) is EmptyAt) <==> (primary is EmptyAt || secondary is EmptyAt),
        combined(primary, secondary) matches CodexRateLimitProjection::EmptyAt(t) ==> {
            &&& (combined(primary, secondary) == primary || combined(primary, secondary) == secondary)
            &&& primary matches CodexRateLimitProjection::EmptyAt(x) ==> t.total_nanos() <= x.total_nanos()
            &&& secondary matches CodexRateLimitProjection::EmptyAt(y) ==> t.total_nanos() <= y.total_nanos()
        },
        !(primary is EmptyAt || secondary is EmptyAt) && (primary is ResetsAt || secondary is ResetsAt)
            ==> {
            &&& combined(primary, secondary) is ResetsAt
            &&& (combined(primary, secondary) == primary || combined(primary, secondary) == secondary)
            &&& primary matches CodexRateLimitProjection::ResetsAt(x) ==> combined(
                primary,
                secondary,
            )->ResetsAt_0.total_nanos() <= x.total_nanos()
            &&& secondary matches CodexRateLimitProjection::ResetsAt(y) ==> combined(
                primary,
                secondary,
            )->ResetsAt_0.total_nanos() <= y.total_nanos()
        },
        (combined(primary, secondary) is Stable) <==> (!(primary is EmptyAt || secondary is EmptyAt
            || primary is ResetsAt || secondary is ResetsAt) && (primary is Stable
            || secondary is Stable)),
        (combined(primary, secondary) is Unknown) <==> !(primary is EmptyAt || secondary is EmptyAt
            || primary is ResetsAt || secondary is ResetsAt || primary is Stable || secondary is Stable),
        !(combined(primary, secondary) is EmptyNow),
{
}

} // verus!

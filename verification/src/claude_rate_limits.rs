//! Token accounting behind the local rate-limit estimate built from CLI transcripts.
//!
//! The CLI writes transcript entries whose `message.usage` block carries
//! token counts. Entries inside the last five hours feed the primary window,
//! entries inside the last seven days the secondary one; each window keeps the
//! token sum and its oldest entry, from which its reset time follows.

use vstd::prelude::*;

use crate::time::{secs_in_range, Timestamp, SECS_PER_DAY, SECS_PER_HOUR};

verus! {

pub const REFRESH_INTERVAL_SECS: u64 = 60;

pub const ERROR_BACKOFF_INTERVAL_SECS: u64 = 5 * 60;

/// Length of the primary window: five hours.
pub const PRIMARY_WINDOW_SECS: i64 = 5 * SECS_PER_HOUR;

/// Length of the secondary window: seven days.
pub const SECONDARY_WINDOW_SECS: i64 = 7 * SECS_PER_DAY;

pub const PRIMARY_WINDOW_MINS: u32 = 300;

pub const SECONDARY_WINDOW_MINS: u32 = 7 * 24 * 60;

/// Token cap assumed for the primary window.
pub const PRIMARY_TOKEN_CAP: u64 = 35_000_000;

/// Token cap assumed for the secondary window.
pub const SECONDARY_TOKEN_CAP: u64 = 140_000_000;

pub enum ClaudeRateLimitUsageModelEvent {
    Refreshed,
}

#[derive(Debug, Clone, Copy, PartialEq, Eq, Structural)]
pub enum ClaudeRateLimitWindowKind {
    Primary,
    Secondary,
}

/// A failed refresh.
#[derive(Debug, Clone, PartialEq, Eq)]
pub struct ClaudeRateLimitErrorState {
    pub failed_at: Timestamp,
    pub message: String,
}

/// The `usage` block of a transcript message; absent counts read as zero.
#[derive(Debug, Clone, Copy, PartialEq, Eq, Structural)]
pub struct TranscriptUsage {
    pub input_tokens: u64,
    pub output_tokens: u64,
    pub cache_creation_input_tokens: u64,
    pub cache_read_input_tokens: u64,
}

impl TranscriptUsage {
    /// All four counts added up.
    pub open spec fn token_sum(self) -> int {
        self.input_tokens + self.output_tokens + self.cache_creation_input_tokens
            + self.cache_read_input_tokens
    }

    /// The tokens an entry is charged for: the sum of its four counts,
    /// saturating at `u64::MAX`.
    pub open spec fn billable(self) -> u64 {
        if self.token_sum() > u64::MAX {
            u64::MAX
        } else {
            self.token_sum() as u64
        }
    }

    pub fn total_billable_tokens(&self) -> (r: u64)
        ensures
            r == self.billable(),
    {
        self.input_tokens.saturating_add(self.output_tokens).saturating_add(
            self.cache_creation_input_tokens,
        ).saturating_add(self.cache_read_input_tokens)
    }
}

/// A transcript message; only its usage block matters here.
#[derive(Debug, Clone, Copy, PartialEq, Eq, Structural)]
pub struct TranscriptMessage {
    pub usage: Option<TranscriptUsage>,
}

/// One transcript line.
#[derive(Debug, Clone, Copy, PartialEq, Eq, Structural)]
pub struct TranscriptEntry {
    pub timestamp: Option<Timestamp>,
    pub message: Option<TranscriptMessage>,
}

impl TranscriptEntry {
    pub open spec fn wf(self) -> bool {
        self.timestamp matches Some(t) ==> t.wf()
    }
}

/// What one window has collected.
#[derive(Debug, Clone, Copy, PartialEq, Eq, Structural)]
pub struct WindowTotals {
    /// Tokens summed over the entries in the window, saturating.
    pub tokens: u64,
    /// The earliest entry in the window.
    pub oldest: Option<Timestamp>,
}

impl WindowTotals {
    pub open spec fn wf(self) -> bool {
        self.oldest matches Some(t) ==> t.wf()
    }

    pub fn new() -> (r: WindowTotals)
        ensures
            r == (WindowTotals { tokens: 0, oldest: None }),
    {
        WindowTotals { tokens: 0, oldest: None }
    }
}

/// Both windows.
#[derive(Debug, Clone, Copy, PartialEq, Eq, Structural)]
pub struct AggregateTotals {
    pub primary: WindowTotals,
    pub secondary: WindowTotals,
}

impl AggregateTotals {
    pub open spec fn wf(self) -> bool {
        self.primary.wf() && self.secondary.wf()
    }

    pub fn new() -> (r: AggregateTotals)
        ensures
            r == (AggregateTotals {
                primary: WindowTotals { tokens: 0, oldest: None },
                secondary: WindowTotals { tokens: 0, oldest: None },
            }),
    {
        AggregateTotals { primary: WindowTotals::new(), secondary: WindowTotals::new() }
    }
}

/// `a + b`, saturating at `u64::MAX`.
pub open spec fn saturating_sum(a: u64, b: u64) -> u64 {
    if a + b > u64::MAX {
        u64::MAX
    } else {
        (a + b) as u64
    }
}

/// A window after one more entry at `timestamp` charged `tokens`.
pub open spec fn recorded(window: WindowTotals, timestamp: Timestamp, tokens: u64) -> WindowTotals {
    WindowTotals {
        tokens: saturating_sum(window.tokens, tokens),
        oldest: Some(
            match window.oldest {
                Some(existing) => if existing.total_nanos() <= timestamp.total_nanos() {
                    existing
                } else {
                    timestamp
                },
                None => timestamp,
            },
        ),
    }
}

/// Adds an entry at `timestamp` charged `tokens` to a window.
pub fn record_window(window: &mut WindowTotals, timestamp: Timestamp, tokens: u64)
    requires
        old(window).wf(),
        timestamp.wf(),
    ensures
        final(window).wf(),
        *final(window) == recorded(*old(window), timestamp, tokens),
{
    window.tokens = window.tokens.saturating_add(tokens);
    window.oldest = Some(
        match window.oldest {
            Some(existing) => if existing.is_at_or_before(&timestamp) {
                existing
            } else {
                timestamp
            },
            None => timestamp,
        },
    );
}

/// The totals after one transcript entry. Entries without a message, a usage
/// block or a timestamp, and entries before the secondary cutoff, change
/// nothing; the others count in the secondary window, and also in the primary
/// one from the primary cutoff on.
pub open spec fn accumulated(
    totals: AggregateTotals,
    entry: TranscriptEntry,
    primary_cutoff: Timestamp,
    secondary_cutoff: Timestamp,
) -> AggregateTotals {
    match entry.message {
        None => totals,
        Some(message) => match message.usage {
            None => totals,
            Some(usage) => match entry.timestamp {
                None => totals,
                Some(timestamp) => if timestamp.total_nanos() < secondary_cutoff.total_nanos() {
                    totals
                } else {
                    AggregateTotals {
                        primary: if timestamp.total_nanos() >= primary_cutoff.total_nanos() {
                            recorded(totals.primary, timestamp, usage.billable())
                        } else {
                            totals.primary
                        },
                        secondary: recorded(totals.secondary, timestamp, usage.billable()),
                    }
                },
            },
        },
    }
}

/// The totals after a sequence of entries, in order.
pub open spec fn accumulated_all(
    totals: AggregateTotals,
    entries: Seq<TranscriptEntry>,
    primary_cutoff: Timestamp,
    secondary_cutoff: Timestamp,
) -> AggregateTotals
    decreases entries.len(),
{
    if entries.len() == 0 {
        totals
    } else {
        accumulated(
            accumulated_all(totals, entries.drop_last(), primary_cutoff, secondary_cutoff),
            entries.last(),
            primary_cutoff,
            secondary_cutoff,
        )
    }
}

/// Adds the entries of one transcript to the totals.
pub fn accumulate_entries(
    entries: &Vec<TranscriptEntry>,
    primary_cutoff: Timestamp,
    secondary_cutoff: Timestamp,
    totals: &mut AggregateTotals,
)
    requires
        primary_cutoff.wf(),
        secondary_cutoff.wf(),
        old(totals).wf(),
        forall|i: int| 0 <= i < entries@.len() ==> (#[trigger] entries@[i]).wf(),
    ensures
        final(totals).wf(),
        *final(totals) == accumulated_all(
            *old(totals),
            entries@,
            primary_cutoff,
            secondary_cutoff,
        ),
{
    let ghost start = *totals;
    let n = entries.len();
    assert(entries@.take(0) =~= Seq::<TranscriptEntry>::empty());
    for i in 0..n
        invariant
            n == entries@.len(),
            primary_cutoff.wf(),
            secondary_cutoff.wf(),
            totals.wf(),
            forall|j: int| 0 <= j < entries@.len() ==> (#[trigger] entries@[j]).wf(),
            *totals == accumulated_all(start, entries@.take(i as int), primary_cutoff, secondary_cutoff),
    {
        let entry = entries[i];
        assert(entries@.take(i + 1).drop_last() =~= entries@.take(i as int));
        assert(entries@.take(i + 1).last() == entry);
        if let Some(message) = entry.message {
            if let Some(usage) = message.usage {
                if let Some(timestamp) = entry.timestamp {
                    assert(entry.wf());
                    if !timestamp.is_before(&secondary_cutoff) {
                        let tokens = usage.total_billable_tokens();
                        record_window(&mut totals.secondary, timestamp, tokens);
                        if primary_cutoff.is_at_or_before(&timestamp) {
                            record_window(&mut totals.primary, timestamp, tokens);
                        }
                    }
                }
            }
        }
    }
    assert(entries@.take(n as int) =~= entries@);
}

/// The start of each window ending at `now`: `(primary_cutoff, secondary_cutoff)`.
pub fn window_cutoffs(now: Timestamp) -> (r: (Timestamp, Timestamp))
    requires
        now.wf(),
        secs_in_range(now.secs - SECONDARY_WINDOW_SECS),
    ensures
        r.0.wf(),
        r.1.wf(),
        r.0.total_nanos() == now.total_nanos() - PRIMARY_WINDOW_SECS * 1_000_000_000,
        r.1.total_nanos() == now.total_nanos() - SECONDARY_WINDOW_SECS * 1_000_000_000,
{
    (now.minus_secs(PRIMARY_WINDOW_SECS), now.minus_secs(SECONDARY_WINDOW_SECS))
}

/// Whether a transcript last modified at `mtime` is skipped: it is when it was
/// last written more than a minute before the secondary cutoff. A transcript
/// whose modification time is unknown is read.
pub fn transcript_is_too_old(mtime: Option<Timestamp>, secondary_cutoff: Timestamp) -> (r: bool)
    requires
        secondary_cutoff.wf(),
        mtime matches Some(t) ==> t.wf() && secs_in_range(t.secs + 60),
    ensures
        r == (mtime matches Some(t) && t.total_nanos() + 60 * 1_000_000_000
            < secondary_cutoff.total_nanos()),
{
    match mtime {
        Some(t) => t.plus_secs(60).is_before(&secondary_cutoff),
        None => false,
    }
}

/// The totals, if any entry fell in either window.
pub fn totals_if_any(totals: AggregateTotals) -> (r: Option<AggregateTotals>)
    ensures
        r == (if totals.primary.oldest is Some || totals.secondary.oldest is Some {
            Some(totals)
        } else {
            None
        }),
{
    if totals.primary.oldest.is_some() || totals.secondary.oldest.is_some() {
        Some(totals)
    } else {
        None
    }
}

/// When a window frees up again: a window's length after its oldest entry.
pub fn window_resets_at(totals: &WindowTotals, window_secs: i64) -> (r: Option<Timestamp>)
    requires
        totals.wf(),
        0 <= window_secs,
        totals.oldest matches Some(t) ==> secs_in_range(t.secs + window_secs),
    ensures
        r == (match totals.oldest {
            Some(t) => Some(Timestamp { secs: (t.secs + window_secs) as i64, nanos: t.nanos }),
            None => None,
        }),
{
    match totals.oldest {
        Some(oldest) => Some(oldest.plus_secs(window_secs)),
        None => None,
    }
}

/// Whether a refresh may start now. None may start while one is in flight;
/// otherwise one may start unless the previous request was less than a minute
/// ago (five minutes while no sample has been obtained yet).
pub fn refresh_allowed(
    refresh_in_flight: bool,
    has_current: bool,
    nanos_since_last_request: Option<u128>,
) -> (r: bool)
    ensures
        r == (!refresh_in_flight && match nanos_since_last_request {
            Some(elapsed) => elapsed >= (if has_current {
                REFRESH_INTERVAL_SECS
            } else {
                ERROR_BACKOFF_INTERVAL_SECS
            }) * 1_000_000_000,
            None => true,
        }),
{
    if refresh_in_flight {
        return false;
    }
    let min_interval_secs: u64 = if has_current {
        REFRESH_INTERVAL_SECS
    } else {
        ERROR_BACKOFF_INTERVAL_SECS
    };
    match nanos_since_last_request {
        Some(elapsed) => elapsed >= min_interval_secs as u128 * 1_000_000_000,
        None => true,
    }
}

/// The tracker's state between refreshes. Request times are in nanoseconds on
/// the caller's monotonic clock.
pub struct ClaudeRateLimitUsageState<T> {
    pub current: Option<T>,
    pub last_error: Option<ClaudeRateLimitErrorState>,
    pub refresh_in_flight: bool,
    pub last_refresh_requested_at: Option<u64>,
}

/// Time from `then` to `now` on a monotonic clock, zero if `now` is earlier.
pub open spec fn nanos_since(now: u64, then: u64) -> u128 {
    if now >= then {
        (now - then) as u128
    } else {
        0
    }
}

/// Whether a refresh may start, as `refresh_allowed` decides it.
pub open spec fn refresh_may_start(
    refresh_in_flight: bool,
    has_current: bool,
    nanos_since_last_request: Option<u128>,
) -> bool {
    !refresh_in_flight && match nanos_since_last_request {
        Some(elapsed) => elapsed >= (if has_current {
            REFRESH_INTERVAL_SECS
        } else {
            ERROR_BACKOFF_INTERVAL_SECS
        }) * 1_000_000_000,
        None => true,
    }
}

impl<T> ClaudeRateLimitUsageState<T> {
    /// No sample, no failure, no request yet.
    pub fn new() -> (r: Self)
        ensures
            r.current is None,
            r.last_error is None,
            !r.refresh_in_flight,
            r.last_refresh_requested_at is None,
    {
        ClaudeRateLimitUsageState {
            current: None,
            last_error: None,
            refresh_in_flight: false,
            last_refresh_requested_at: None,
        }
    }

    /// Starts a refresh at `now_nanos` if one may start then, and says
    /// whether it did. Starting marks a refresh in flight and remembers the
    /// request time; otherwise nothing changes.
    pub fn request_refresh(&mut self, now_nanos: u64) -> (started: bool)
        ensures
            started == refresh_may_start(
                old(self).refresh_in_flight,
                old(self).current is Some,
                match old(self).last_refresh_requested_at {
                    Some(t) => Some(nanos_since(now_nanos, t)),
                    None => None,
                },
            ),
            started ==> final(self).refresh_in_flight && final(self).last_refresh_requested_at
                == Some(now_nanos),
            !started ==> final(self).refresh_in_flight == old(self).refresh_in_flight
                && final(self).last_refresh_requested_at == old(self).last_refresh_requested_at,
            final(self).current == old(self).current,
            final(self).last_error == old(self).last_error,
    {
        let since: Option<u128> = match self.last_refresh_requested_at {
            Some(t) => Some(now_nanos.saturating_sub(t) as u128),
            None => None,
        };
        if !refresh_allowed(self.refresh_in_flight, self.current.is_some(), since) {
            return false;
        }
        self.refresh_in_flight = true;
        self.last_refresh_requested_at = Some(now_nanos);
        true
    }

    /// Takes in the outcome of a refresh: it is no longer in flight; a sample
    /// becomes the current one and clears the last failure; a failure is
    /// remembered and the current sample stays.
    pub fn finish_refresh(&mut self, result: Result<T, ClaudeRateLimitErrorState>)
        ensures
            !final(self).refresh_in_flight,
            final(self).last_refresh_requested_at == old(self).last_refresh_requested_at,
            match result {
                Ok(sample) => final(self).current == Some(sample) && final(self).last_error is None,
                Err(e) => final(self).current == old(self).current && final(self).last_error
                    == Some(e),
            },
    {
        self.refresh_in_flight = false;
        match result {
            Ok(sample) => {
                self.current = Some(sample);
                self.last_error = None;
            },
            Err(error) => {
                self.last_error = Some(error);
            },
        }
    }
}

// ----- laws -----

/// The primary window lies inside the secondary one, so it never holds more
/// tokens than the secondary one.
pub proof fn law_primary_within_secondary(
    totals: AggregateTotals,
    entries: Seq<TranscriptEntry>,
    primary_cutoff: Timestamp,
    secondary_cutoff: Timestamp,
)
    requires
        totals.primary.tokens <= totals.secondary.tokens,
        secondary_cutoff.total_nanos() <= primary_cutoff.total_nanos(),
    ensures
        accumulated_all(totals, entries, primary_cutoff, secondary_cutoff).primary.tokens
            <= accumulated_all(totals, entries, primary_cutoff, secondary_cutoff).secondary.tokens,
    decreases entries.len(),
{
    if entries.len() > 0 {
        law_primary_within_secondary(totals, entries.drop_last(), primary_cutoff, secondary_cutoff);
    }
}

/// An entry older than both windows changes nothing.
pub proof fn law_old_entries_ignored(
    totals: AggregateTotals,
    entry: TranscriptEntry,
    primary_cutoff: Timestamp,
    secondary_cutoff: Timestamp,
)
    requires
        entry.timestamp matches Some(t) && t.total_nanos() < secondary_cutoff.total_nanos(),
    ensures
        accumulated(totals, entry, primary_cutoff, secondary_cutoff) == totals,
{
}

/// Whether an entry counts in the secondary window, and at which time.
pub open spec fn counted_at(entry: TranscriptEntry, secondary_cutoff: Timestamp) -> Option<Timestamp> {
    match entry.message {
        Some(message) => match message.usage {
            Some(_) => match entry.timestamp {
                Some(t) => if t.total_nanos() >= secondary_cutoff.total_nanos() {
                    Some(t)
                } else {
                    None
                },
                None => None,
            },
            None => None,
        },
        None => None,
    }
}

proof fn lemma_oldest_never_later(
    totals: AggregateTotals,
    entry: TranscriptEntry,
    primary_cutoff: Timestamp,
    secondary_cutoff: Timestamp,
)
    requires
        totals.secondary.oldest is Some,
    ensures
        accumulated(totals, entry, primary_cutoff, secondary_cutoff).secondary.oldest is Some,
        accumulated(
            totals,
            entry,
            primary_cutoff,
            secondary_cutoff,
        ).secondary.oldest->0.total_nanos() <= totals.secondary.oldest->0.total_nanos(),
{
}

/// The secondary window's oldest entry is no later than any entry it counts.
pub proof fn law_oldest_is_earliest(
    totals: AggregateTotals,
    entries: Seq<TranscriptEntry>,
    primary_cutoff: Timestamp,
    secondary_cutoff: Timestamp,
    i: int,
)
    requires
        0 <= i < entries.len(),
        counted_at(entries[i], secondary_cutoff) is Some,
    ensures
        accumulated_all(totals, entries, primary_cutoff, secondary_cutoff).secondary.oldest is Some,
        accumulated_all(
            totals,
            entries,
            primary_cutoff,
            secondary_cutoff,
        ).secondary.oldest->0.total_nanos() <= counted_at(
            entries[i],
            secondary_cutoff,
        )->0.total_nanos(),
    decreases entries.len(),
{
    let before = accumulated_all(totals, entries.drop_last(), primary_cutoff, secondary_cutoff);
    if i < entries.len() - 1 {
        assert(entries.drop_last()[i] == entries[i]);
        law_oldest_is_earliest(totals, entries.drop_last(), primary_cutoff, secondary_cutoff, i);
        lemma_oldest_never_later(before, entries.last(), primary_cutoff, secondary_cutoff);
    }
}

/// Whether an entry counts in the primary window, and at which time: it counts
/// in the secondary window, from the primary cutoff on.
pub open spec fn counted_in_primary_at(
    entry: TranscriptEntry,
    primary_cutoff: Timestamp,
    secondary_cutoff: Timestamp,
) -> Option<Timestamp> {
    match counted_at(entry, secondary_cutoff) {
        Some(t) => if t.total_nanos() >= primary_cutoff.total_nanos() {
            Some(t)
        } else {
            None
        },
        None => None,
    }
}

/// An entry that does not count in the primary window leaves it as it was;
/// one that does adds its billable tokens to it, saturating, and the primary
/// window then has an oldest entry no later than this one.
pub proof fn law_primary_takes_only_its_entries(
    totals: AggregateTotals,
    entry: TranscriptEntry,
    primary_cutoff: Timestamp,
    secondary_cutoff: Timestamp,
)
    ensures
        counted_in_primary_at(entry, primary_cutoff, secondary_cutoff) is None ==> accumulated(
            totals,
            entry,
            primary_cutoff,
            secondary_cutoff,
        ).primary == totals.primary,
        counted_in_primary_at(entry, primary_cutoff, secondary_cutoff) matches Some(t) ==> {
            let after = accumulated(totals, entry, primary_cutoff, secondary_cutoff).primary;
            let added = totals.primary.tokens + entry.message->0.usage->0.billable();
            &&& after.tokens == (if added > u64::MAX {
                u64::MAX as int
            } else {
                added
            })
            &&& after.oldest is Some
            &&& after.oldest->0.total_nanos() <= t.total_nanos()
        },
{
}

proof fn lemma_primary_oldest_never_later(
    totals: AggregateTotals,
    entry: TranscriptEntry,
    primary_cutoff: Timestamp,
    secondary_cutoff: Timestamp,
)
    requires
        totals.primary.oldest is Some,
    ensures
        accumulated(totals, entry, primary_cutoff, secondary_cutoff).primary.oldest is Some,
        accumulated(
            totals,
            entry,
            primary_cutoff,
            secondary_cutoff,
        ).primary.oldest->0.total_nanos() <= totals.primary.oldest->0.total_nanos(),
{
}

/// The primary window's oldest entry is no later than any entry it counts.
pub proof fn law_primary_oldest_is_earliest(
    totals: AggregateTotals,
    entries: Seq<TranscriptEntry>,
    primary_cutoff: Timestamp,
    secondary_cutoff: Timestamp,
    i: int,
)
    requires
        0 <= i < entries.len(),
        counted_in_primary_at(entries[i], primary_cutoff, secondary_cutoff) is Some,
    ensures
        accumulated_all(totals, entries, primary_cutoff, secondary_cutoff).primary.oldest is Some,
        accumulated_all(
            totals,
            entries,
            primary_cutoff,
            secondary_cutoff,
        ).primary.oldest->0.total_nanos() <= counted_in_primary_at(
            entries[i],
            primary_cutoff,
            secondary_cutoff,
        )->0.total_nanos(),
    decreases entries.len(),
{
    let before = accumulated_all(totals, entries.drop_last(), primary_cutoff, secondary_cutoff);
    if i < entries.len() - 1 {
        assert(entries.drop_last()[i] == entries[i]);
        law_primary_oldest_is_earliest(totals, entries.drop_last(), primary_cutoff, secondary_cutoff, i);
        lemma_primary_oldest_never_later(before, entries.last(), primary_cutoff, secondary_cutoff);
    }
}

/// Each window's oldest entry is the one it started with or the time of an
/// entry that it counts: never an entry from outside the window.
pub proof fn law_oldest_is_a_counted_entry(
    totals: AggregateTotals,
    entries: Seq<TranscriptEntry>,
    primary_cutoff: Timestamp,
    secondary_cutoff: Timestamp,
)
    ensures
        accumulated_all(totals, entries, primary_cutoff, secondary_cutoff).primary.oldest
            == totals.primary.oldest || exists|i: int|
            0 <= i < entries.len() && #[trigger] counted_in_primary_at(
                entries[i],
                primary_cutoff,
                secondary_cutoff,
            ) == accumulated_all(totals, entries, primary_cutoff, secondary_cutoff).primary.oldest,
        accumulated_all(totals, entries, primary_cutoff, secondary_cutoff).secondary.oldest
            == totals.secondary.oldest || exists|i: int|
            0 <= i < entries.len() && #[trigger] counted_at(entries[i], secondary_cutoff)
                == accumulated_all(totals, entries, primary_cutoff, secondary_cutoff).secondary.oldest,
    decreases entries.len(),
{
    if entries.len() > 0 {
        let t = entries.drop_last();
        law_oldest_is_a_counted_entry(totals, t, primary_cutoff, secondary_cutoff);
        let before = accumulated_all(totals, t, primary_cutoff, secondary_cutoff);
        let after = accumulated_all(totals, entries, primary_cutoff, secondary_cutoff);
        let last = entries.len() - 1;
        assert(entries[last] == entries.last());
        if after.primary.oldest != totals.primary.oldest {
            if after.primary.oldest == before.primary.oldest {
                let i = choose|i: int|
                    0 <= i < t.len() && #[trigger] counted_in_primary_at(
                        t[i],
                        primary_cutoff,
                        secondary_cutoff,
                    ) == before.primary.oldest;
                assert(t[i] == entries[i]);
            } else {
                assert(counted_in_primary_at(entries[last], primary_cutoff, secondary_cutoff)
                    == after.primary.oldest);
            }
        }
        if after.secondary.oldest != totals.secondary.oldest {
            if after.secondary.oldest == before.secondary.oldest {
                let i = choose|i: int|
                    0 <= i < t.len() && #[trigger] counted_at(t[i], secondary_cutoff)
                        == before.secondary.oldest;
                assert(t[i] == entries[i]);
            } else {
                assert(counted_at(entries[last], secondary_cutoff) == after.secondary.oldest);
            }
        }
    }
}

/// An entry that does not count in the secondary window changes nothing; one
/// that does adds its billable tokens to the secondary window, saturating,
/// and that window then has an oldest entry no later than this one.
pub proof fn law_secondary_takes_only_its_entries(
    totals: AggregateTotals,
    entry: TranscriptEntry,
    primary_cutoff: Timestamp,
    secondary_cutoff: Timestamp,
)
    ensures
        counted_at(entry, secondary_cutoff) is None ==> accumulated(
            totals,
            entry,
            primary_cutoff,
            secondary_cutoff,
        ) == totals,
        counted_at(entry, secondary_cutoff) matches Some(t) ==> {
            let after = accumulated(totals, entry, primary_cutoff, secondary_cutoff).secondary;
            let added = totals.secondary.tokens + entry.message->0.usage->0.billable();
            &&& after.tokens == (if added > u64::MAX {
                u64::MAX as int
            } else {
                added
            })
            &&& after.oldest is Some
            &&& after.oldest->0.total_nanos() <= t.total_nanos()
        },
{
}

} // verus!

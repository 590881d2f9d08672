//! Text shown in the workspace panel's rate-limit cards.

use vstd::prelude::*;

use crate::codex_rate_limits::{CodexRateLimitProjection, CodexRateLimitWindowKind};
use crate::text::{decimal, decimal_string};
use crate::time::{whole_secs, Timestamp};

verus! {

/// Minutes in a week.
pub const MINUTES_PER_WEEK: u32 = 10080;

/// The name of a window length given in minutes.
pub open spec fn window_duration_text(minutes: nat) -> Seq<char> {
    if minutes % 10080 == 0 {
        if minutes / 10080 == 1 {
            "Weekly"@
        } else {
            decimal(minutes / 10080) + " week"@
        }
    } else if minutes % 60 == 0 {
        if minutes / 60 == 1 {
            "1 hour"@
        } else {
            decimal(minutes / 60) + " hour"@
        }
    } else {
        decimal(minutes) + " minute"@
    }
}

/// Names a window length: whole weeks as "Weekly" or "N week", whole hours as
/// "1 hour" or "N hour", anything else as "N minute".
pub fn format_codex_rate_limit_window_duration(minutes: u32) -> (r: String)
    ensures
        r@ == window_duration_text(minutes as nat),
{
    if minutes % MINUTES_PER_WEEK == 0 {
        let weeks = minutes / MINUTES_PER_WEEK;
        if weeks == 1 {
            String::from_str("Weekly")
        } else {
            decimal_string(weeks as u64).concat(" week")
        }
    } else if minutes % 60 == 0 {
        let hours = minutes / 60;
        if hours == 1 {
            String::from_str("1 hour")
        } else {
            decimal_string(hours as u64).concat(" hour")
        }
    } else {
        decimal_string(minutes as u64).concat(" minute")
    }
}

/// The number of minutes shown for a span of `secs` seconds: rounded up, and
/// at least one.
pub open spec fn shown_minutes(secs: int) -> int {
    let m = ((if secs > 0 {
        secs
    } else {
        0
    }) + 59) / 60;
    if m > 1 {
        m
    } else {
        1
    }
}

/// The text for a span of `secs` seconds.
pub open spec fn duration_text(secs: int) -> Seq<char> {
    let m = shown_minutes(secs);
    if m < 60 {
        decimal(m as nat) + "m"@
    } else if m % 60 == 0 {
        decimal((m / 60) as nat) + "h"@
    } else {
        decimal((m / 60) as nat) + "h "@ + decimal((m % 60) as nat) + "m"@
    }
}

/// The largest whole-second span a time delta can hold.
pub const MAX_DELTA_SECS: i64 = 9_223_372_036_854_775;

/// Shows a span given in whole seconds as minutes ("7m"), whole hours ("2h")
/// or hours and minutes ("2h 5m"), rounding up to whole minutes and showing at
/// least one minute.
pub fn format_codex_rate_limit_duration(duration_secs: i64) -> (r: String)
    requires
        duration_secs <= MAX_DELTA_SECS,
    ensures
        r@ == duration_text(duration_secs as int),
{
    let secs: i64 = if duration_secs > 0 {
        duration_secs
    } else {
        0
    };
    let rounded: i64 = (secs + 59) / 60;
    let total_minutes: i64 = if rounded > 1 {
        rounded
    } else {
        1
    };
    if total_minutes < 60 {
        return decimal_string(total_minutes as u64).concat("m");
    }
    let hours = total_minutes / 60;
    let minutes = total_minutes % 60;
    if minutes == 0 {
        decimal_string(hours as u64).concat("h")
    } else {
        let mut s = decimal_string(hours as u64);
        s.append("h ");
        s.append(decimal_string(minutes as u64).as_str());
        s.append("m");
        s
    }
}

/// The title of a rate-limit window.
pub open spec fn window_title_text(kind: CodexRateLimitWindowKind, minutes: Option<u32>) -> Seq<
    char,
> {
    match (kind, minutes) {
        (CodexRateLimitWindowKind::Primary, Some(m)) if m == 300 => "5 hour usage limit"@,
        (CodexRateLimitWindowKind::Secondary, Some(m)) if m == 10080 => "Weekly usage limit"@,
        (_, Some(m)) => window_duration_text(m as nat) + " usage limit"@,
        (CodexRateLimitWindowKind::Primary, None) => "Codex usage limit"@,
        (CodexRateLimitWindowKind::Secondary, None) => "Codex weekly usage limit"@,
    }
}

/// Titles a rate-limit card from the window's kind and length.
pub fn codex_rate_limit_window_title(
    kind: CodexRateLimitWindowKind,
    window_duration_mins: Option<u32>,
) -> (r: String)
    ensures
        r@ == window_title_text(kind, window_duration_mins),
{
    match (kind, window_duration_mins) {
        (CodexRateLimitWindowKind::Primary, Some(300)) => String::from_str("5 hour usage limit"),
        (CodexRateLimitWindowKind::Secondary, Some(10080)) => String::from_str(
            "Weekly usage limit",
        ),
        (_, Some(minutes)) => format_codex_rate_limit_window_duration(minutes).concat(
            " usage limit",
        ),
        (CodexRateLimitWindowKind::Primary, None) => String::from_str("Codex usage limit"),
        (CodexRateLimitWindowKind::Secondary, None) => String::from_str(
            "Codex weekly usage limit",
        ),
    }
}

/// Whether a reset label shows the date as well as the time: for windows of at
/// least a day.
pub fn reset_label_shows_date(window_duration_mins: Option<u32>) -> (r: bool)
    ensures
        r == (window_duration_mins matches Some(m) && m >= 24 * 60),
{
    match window_duration_mins {
        Some(minutes) => minutes >= 24 * 60,
        None => false,
    }
}

/// The status line under the rate-limit cards. `reset_clock` is the local
/// wall-clock time of the projected reset, as the caller shows it.
pub open spec fn status_text(
    is_stale: bool,
    has_last_error: bool,
    has_current: bool,
    projection: CodexRateLimitProjection,
    now: Timestamp,
    reset_clock: Seq<char>,
) -> Seq<char> {
    if is_stale {
        "Stale"@
    } else if has_last_error && !has_current {
        "Unavailable"@
    } else {
        match projection {
            CodexRateLimitProjection::EmptyNow => "Limit reached"@,
            CodexRateLimitProjection::EmptyAt(t) => "Empty in "@ + duration_text(
                whole_secs(t.total_nanos() - now.total_nanos()),
            ),
            CodexRateLimitProjection::ResetsAt(_) => "Reset "@ + reset_clock,
            CodexRateLimitProjection::Stable => if has_current {
                "Stable"@
            } else {
                "Loading"@
            },
            CodexRateLimitProjection::Unknown => "Waiting for data"@,
        }
    }
}

/// Builds the status line under the rate-limit cards from the usage's flags
/// and the projected outlook at `now`.
pub fn codex_rate_limit_status_label(
    is_stale: bool,
    has_last_error: bool,
    has_current: bool,
    projection: CodexRateLimitProjection,
    now: Timestamp,
    reset_clock: &str,
) -> (r: String)
    requires
        now.wf(),
        projection matches CodexRateLimitProjection::EmptyAt(t) ==> t.wf(),
    ensures
        r@ == status_text(is_stale, has_last_error, has_current, projection, now, reset_clock@),
{
    if is_stale {
        return String::from_str("Stale");
    }
    if has_last_error && !has_current {
        return String::from_str("Unavailable");
    }
    match projection {
        CodexRateLimitProjection::EmptyNow => String::from_str("Limit reached"),
        CodexRateLimitProjection::EmptyAt(empty_at) => {
            let secs = empty_at.whole_secs_since(&now);
            let text = format_codex_rate_limit_duration(secs);
            String::from_str("Empty in ").concat(text.as_str())
        },
        CodexRateLimitProjection::ResetsAt(_) => String::from_str("Reset ").concat(reset_clock),
        CodexRateLimitProjection::Stable => if has_current {
            String::from_str("Stable")
        } else {
            String::from_str("Loading")
        },
        CodexRateLimitProjection::Unknown => String::from_str("Waiting for data"),
    }
}

/// A timestamp moved by `d` whole seconds.
pub open spec fn shifted(t: Timestamp, d: int) -> Timestamp {
    Timestamp { secs: (t.secs + d) as i64, nanos: t.nanos }
}

/// The status line of a window running out depends only on the time left:
/// moving both the projected empty time and `now` by the same number of
/// seconds leaves it unchanged.
pub proof fn law_empty_label_follows_time_left(
    is_stale: bool,
    has_last_error: bool,
    has_current: bool,
    empty_at: Timestamp,
    now: Timestamp,
    d: int,
    reset_clock: Seq<char>,
)
    requires
        i64::MIN <= empty_at.secs + d <= i64::MAX,
        i64::MIN <= now.secs + d <= i64::MAX,
    ensures
        status_text(
            is_stale,
            has_last_error,
            has_current,
            CodexRateLimitProjection::EmptyAt(shifted(empty_at, d)),
            shifted(now, d),
            reset_clock,
        ) == status_text(
            is_stale,
            has_last_error,
            has_current,
            CodexRateLimitProjection::EmptyAt(empty_at),
            now,
            reset_clock,
        ),
{
    assert(shifted(empty_at, d).total_nanos() - shifted(now, d).total_nanos() == empty_at.total_nanos()
        - now.total_nanos());
}

/// A window that runs out `m` whole minutes (under an hour) after `now` is
/// shown as "Empty in Nm"; one already past its empty time, or less than a
/// minute from it, as "Empty in 1m".
pub proof fn law_empty_label_counts_minutes_from_now(
    has_last_error: bool,
    has_current: bool,
    now: Timestamp,
    empty_at: Timestamp,
    m: int,
    reset_clock: Seq<char>,
)
    requires
        !(has_last_error && !has_current),
        empty_at.nanos == now.nanos,
        1 <= m < 60,
    ensures
        empty_at.secs == now.secs + 60 * m ==> status_text(
            false,
            has_last_error,
            has_current,
            CodexRateLimitProjection::EmptyAt(empty_at),
            now,
            reset_clock,
        ) == "Empty in "@ + decimal(m as nat) + "m"@,
        empty_at.secs < now.secs + 60 ==> status_text(
            false,
            has_last_error,
            has_current,
            CodexRateLimitProjection::EmptyAt(empty_at),
            now,
            reset_clock,
        ) == "Empty in "@ + decimal(1) + "m"@,
{
    let diff = empty_at.total_nanos() - now.total_nanos();
    assert(diff == (empty_at.secs - now.secs) * 1_000_000_000);
    if empty_at.secs == now.secs + 60 * m {
        assert(diff == 60 * m * 1_000_000_000);
        assert(whole_secs(diff) == 60 * m);
        assert((60 * m + 59) / 60 == m);
    }
    if empty_at.secs < now.secs + 60 {
        if diff >= 0 {
            assert(whole_secs(diff) <= 59);
        }
    }
}

/// A stale sample is reported as stale whatever the outlook; otherwise a
/// failed refresh with no sample is reported as unavailable whatever the
/// outlook; and a projected reset shows the caller's clock text after
/// "Reset ".
pub proof fn law_status_precedence(
    has_last_error: bool,
    has_current: bool,
    projection: CodexRateLimitProjection,
    other: CodexRateLimitProjection,
    now: Timestamp,
    reset_clock: Seq<char>,
)
    ensures
        status_text(true, has_last_error, has_current, projection, now, reset_clock) == "Stale"@,
        has_last_error && !has_current ==> status_text(
            false,
            has_last_error,
            has_current,
            projection,
            now,
            reset_clock,
        ) == status_text(false, has_last_error, has_current, other, now, reset_clock),
        !(has_last_error && !has_current) && projection is ResetsAt ==> status_text(
            false,
            has_last_error,
            has_current,
            projection,
            now,
            reset_clock,
        ) == "Reset "@ + reset_clock,
{
}

} // verus!

# warp_app_core

The decision-making core of Warp's workspace side panel, written in Verus and
proved against its contracts.

`src/` — the verified library:

- `render_diagnostics` — per-window render event counters, duration totals and
  repaint sources, and the once-a-second delta report that each recording call
  ends with.
- `claude_rate_limits` — token accounting over transcript entries for the
  five-hour and seven-day windows, and the refresh state and its throttle.
- `codex_rate_limits` — the thirty-minute sample history, the refresh state,
  and how the two windows' outlooks combine.
- `workspace_groups` — the texts of the rate-limit cards.
- `workspace_dialogs`, `workspace_layout_chooser` — what the dialogs and the
  layout chooser decide.
- `launch_configs` — saving open windows as a launch configuration.
- `plugin_manager` — the Codex notification-hook setup guide.
- `time`, `assoc` — timestamps as plain values, and association lists read
  as maps.

`app/` — the unverified rim: the process-wide diagnostics state and its
environment switches and log file, reading transcripts from disk, the Codex
app-server probe, and the estimates and labels that work in floating point or
in the local time zone.

//! The EVE log watcher as a state machine. The surrounding loop opens and
//! reads the active log, sleeps, rotates and posts; each of its turns hands
//! an event to `watch_step`, which advances the watermark and the rotation
//! clock and says what to do next. Events within one file are forwarded in
//! file order; a line that is not JSON is skipped and logged by the caller.

use vstd::prelude::*;

use serde_json::Value;

use crate::events::{json_parses, parse_json};

verus! {

/// The watcher's mutable state: the wall-clock second of the last ingested
/// line, read by the retention sweep as its cutoff, and the second of the
/// last rotation check.
pub struct WatcherState {
    pub watermark: u64,
    pub last_rotation_check: u64,
}

/// What the loop observed since the last step.
pub enum WatchEvent {
    /// The top of the loop, at the current wall-clock second.
    LoopStart { now: u64 },
    /// The active log could not be opened.
    LogOpenFailed,
    /// One line read from the active log, at the current wall-clock second.
    Line { now: u64, raw: Vec<u8> },
    /// The end of the active log was reached.
    EndOfFile,
}

/// What the loop is to do next.
pub enum WatchAction {
    /// Run the rotation check, reopening the log on the next turn.
    RunRotation,
    /// Open the active log and read on.
    OpenLog,
    /// Sleep this many seconds, reopening the log on the next turn.
    Sleep { seconds: u64 },
    /// Post this event upstream; `raw` is the line as read, for the log.
    Forward { event: Value, raw: Vec<u8> },
    /// The line was not JSON: log it and read on.
    SkipLine,
}

/// Seconds between rotation checks.
pub const ROTATION_CHECK_INTERVAL_S: u64 = 30;

/// One turn of the watcher. At the top of the loop, a rotation check is due
/// once the interval has elapsed, and the check time advances to now; a
/// failed open and the end of the file both sleep for the polling interval;
/// an ingested line advances the watermark to now, and is forwarded exactly
/// when it parses as JSON.
pub fn watch_step(st: &mut WatcherState, watch_interval_s: u64, ev: WatchEvent) -> (a: WatchAction)
    ensures
        ev matches WatchEvent::LoopStart { now } ==> ((now >= old(st).last_rotation_check
            + ROTATION_CHECK_INTERVAL_S ==> a is RunRotation && final(st).last_rotation_check
            == now && final(st).watermark == old(st).watermark) && (now
            < old(st).last_rotation_check + ROTATION_CHECK_INTERVAL_S ==> a is OpenLog
            && *final(st) == *old(st))),
        ev is LogOpenFailed ==> (a matches WatchAction::Sleep { seconds } && seconds
            == watch_interval_s && *final(st) == *old(st)),
        ev is EndOfFile ==> (a matches WatchAction::Sleep { seconds } && seconds
            == watch_interval_s && *final(st) == *old(st)),
        ev matches WatchEvent::Line { now, raw } ==> (final(st).watermark == now
            && final(st).last_rotation_check == old(st).last_rotation_check && (json_parses(raw@)
            ==> (a matches WatchAction::Forward { event, raw: out } && out@ == raw@)) && (
        !json_parses(raw@) ==> a is SkipLine)),
{
    match ev {
        WatchEvent::LoopStart { now } => {
            if now >= st.last_rotation_check && now - st.last_rotation_check
                >= ROTATION_CHECK_INTERVAL_S {
                st.last_rotation_check = now;
                WatchAction::RunRotation
            } else {
                WatchAction::OpenLog
            }
        },
        WatchEvent::LogOpenFailed => WatchAction::Sleep { seconds: watch_interval_s },
        WatchEvent::EndOfFile => WatchAction::Sleep { seconds: watch_interval_s },
        WatchEvent::Line { now, raw } => {
            st.watermark = now;
            match parse_json(raw.as_slice()) {
                Ok(event) => WatchAction::Forward { event, raw },
                Err(_) => WatchAction::SkipLine,
            }
        },
    }
}

} // verus!

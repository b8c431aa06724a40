//! One Cargo run: what its error output says, and when it is given up.

use crate::lock::{reported_lock, LockKind};
use crate::text::{
    chars_contain, contained_texts_can_be_cut_out, contains, lower_chars, lowered,
    lowered_part_by_part, part_is_contained,
};
use vstd::prelude::*;
use vstd::string::StringExecFns;
use vstd::utf8::encode_utf8;

verus! {

/// Error output is kept until that many bytes of it, or more, are kept.
pub const CAPTURE_LIMIT: usize = 131_072;

/// How long one look at a run waits for a report, in milliseconds.
pub const POLL_INTERVAL_MS: u64 = 50;

/// Nanoseconds in a millisecond.
pub const NANOS_PER_MILLI: u128 = 1_000_000;

/// Error output of a run without network that lacks something it has not cached.
pub open spec fn is_offline_miss(stderr: Seq<char>) -> bool {
    let low = lowered(stderr);
    ||| contains(low, "offline was specified"@)
    ||| contains(low, "can't be accessed in offline mode"@)
    ||| contains(low, "unable to update registry"@)
    ||| contains(low, "no matching package named"@)
    ||| contains(low, "failed to fetch"@)
    ||| contains(low, "attempting to make an http request"@)
}

/// Tells whether error output looks like that of a run without network that lacks
/// something it has not cached. Capital letters do not matter.
pub fn stderr_looks_like_offline_miss(stderr: &str) -> (miss: bool)
    ensures
        miss == is_offline_miss(stderr@),
{
    let low = lower_chars(stderr);
    chars_contain(&low, "offline was specified")
        || chars_contain(&low, "can't be accessed in offline mode")
        || chars_contain(&low, "unable to update registry")
        || chars_contain(&low, "no matching package named")
        || chars_contain(&low, "failed to fetch")
        || chars_contain(&low, "attempting to make an http request")
}

/// A sign of something that is not cached is seen wherever it stands in the error
/// output.
pub proof fn offline_misses_are_seen_anywhere(
    before: Seq<char>,
    text: Seq<char>,
    after: Seq<char>,
)
    requires
        is_offline_miss(text),
    ensures
        is_offline_miss(before + text + after),
{
    lowered_part_by_part(before, text, after);
    let (a, b, c) = (lowered(before), lowered(text), lowered(after));
    if contains(b, "offline was specified"@) {
        part_is_contained(a, b, c, "offline was specified"@);
    } else if contains(b, "can't be accessed in offline mode"@) {
        part_is_contained(a, b, c, "can't be accessed in offline mode"@);
    } else if contains(b, "unable to update registry"@) {
        part_is_contained(a, b, c, "unable to update registry"@);
    } else if contains(b, "no matching package named"@) {
        part_is_contained(a, b, c, "no matching package named"@);
    } else if contains(b, "failed to fetch"@) {
        part_is_contained(a, b, c, "failed to fetch"@);
    } else {
        part_is_contained(a, b, c, "attempting to make an http request"@);
    }
}

/// What is kept of error output once a line more has come.
pub open spec fn kept_after(kept: Seq<char>, line: Seq<char>) -> Seq<char> {
    if encode_utf8(kept).len() < CAPTURE_LIMIT {
        kept + line
    } else {
        kept
    }
}

/// What is kept of the lines that came.
pub open spec fn kept_of(lines: Seq<Seq<char>>) -> Seq<char>
    decreases lines.len(),
{
    if lines.len() == 0 {
        Seq::empty()
    } else {
        kept_after(kept_of(lines.drop_last()), lines.last())
    }
}

/// Takes a line of error output: keeps it while there is room, and tells which
/// lock it reports.
pub fn observe_line(kept: &mut String, line: &str) -> (lock: Option<LockKind>)
    ensures
        final(kept)@ == kept_after(old(kept)@, line@),
        lock == reported_lock(line@),
{
    if kept.as_str().as_bytes().len() < CAPTURE_LIMIT {
        kept.append(line);
    }
    LockKind::parse(line)
}

/// All lines, one after the other.
pub open spec fn all_of(lines: Seq<Seq<char>>) -> Seq<char>
    decreases lines.len(),
{
    if lines.len() == 0 {
        Seq::empty()
    } else {
        all_of(lines.drop_last()) + lines.last()
    }
}

/// What is kept of error output is a number of whole lines from its start. All of
/// it is kept while it stays below the limit, and no more than the line with which it
/// gets there.
pub proof fn whole_first_lines_are_kept(lines: Seq<Seq<char>>) -> (n: int)
    ensures
        0 <= n <= lines.len(),
        kept_of(lines) == all_of(lines.take(n)),
        n < lines.len() ==> encode_utf8(kept_of(lines)).len() >= CAPTURE_LIMIT,
        n > 0 ==> encode_utf8(all_of(lines.take(n - 1))).len() < CAPTURE_LIMIT,
    decreases lines.len(),
{
    if lines.len() == 0 {
        assert(lines.take(0) == lines);
        0
    } else {
        let before = lines.drop_last();
        let m = whole_first_lines_are_kept(before);
        if encode_utf8(kept_of(before)).len() < CAPTURE_LIMIT {
            assert(before.take(m) == before);
            assert(lines.take(lines.len() as int) == lines);
            assert(lines.take(lines.len() - 1) == before);
            lines.len() as int
        } else {
            assert(before.take(m) == lines.take(m));
            if m > 0 {
                assert(before.take(m - 1) == lines.take(m - 1));
            }
            m
        }
    }
}

/// The exit code of a run that ended. A run that was killed has none and counts as
/// failed.
pub open spec fn code_of(status: Option<i32>) -> i32 {
    match status {
        Some(code) => code,
        None => 1,
    }
}

/// The exit code of a run that ended.
pub fn exit_code(status: Option<i32>) -> (code: i32)
    ensures
        code == code_of(status),
{
    match status {
        Some(code) => code,
        None => 1,
    }
}

/// How a Cargo run came out.
#[derive(Debug, PartialEq, Eq)]
pub enum RunOutcome {
    /// It ended, with that exit code and that error output.
    Completed(i32, String),
    /// It was given up because it waited for that lock.
    Lock(LockKind),
}

/// What comes of looking at a run.
#[derive(Debug, PartialEq, Eq)]
pub enum WatchStep {
    /// The run goes on.
    KeepWatching,
    /// The run came out.
    Done(RunOutcome),
}

/// What a look at a run shows.
#[derive(Debug, PartialEq, Eq)]
pub enum RunEvent {
    /// It has ended, with that exit code, if it has one, and that error output.
    Exited(Option<i32>, String),
    /// It goes on, and has reported a lock.
    Report(LockKind),
    /// It goes on, and has reported nothing new.
    Quiet,
}

/// The lock that a look at a run shows.
pub open spec fn report_in(event: RunEvent) -> Option<LockKind> {
    match event {
        RunEvent::Report(kind) => Some(kind),
        _ => None,
    }
}

/// The first lock that was reported, and when, in nanoseconds on the clock of the
/// run.
pub open spec fn first_sighting(
    before: Option<(LockKind, u128)>,
    lock: Option<LockKind>,
    now: u128,
) -> Option<(LockKind, u128)> {
    if before is None && lock is Some {
        Some((lock->0, now))
    } else {
        before
    }
}

/// Time that has passed, zero on a clock that went back.
pub open spec fn elapsed(since: u128, now: u128) -> nat {
    if now >= since {
        (now - since) as nat
    } else {
        0
    }
}

/// The lock that a run is given up for: the first that was reported, once the
/// patience has passed since.
pub open spec fn given_up_for(
    first: Option<(LockKind, u128)>,
    now: u128,
    patience_ms: u64,
) -> Option<LockKind> {
    match first {
        Some((kind, since)) => if elapsed(since, now) >= patience_ms * NANOS_PER_MILLI {
            Some(kind)
        } else {
            None
        },
        None => None,
    }
}

/// The first lock that a run has reported, after a look at the time `seen` that is judged
/// at the time `now`.
pub open spec fn remembered(
    before: Option<(LockKind, u128)>,
    event: RunEvent,
    seen: u128,
    now: u128,
) -> Option<(LockKind, u128)> {
    first_sighting(before, report_in(event), seen)
}

/// A report is remembered with the time at which it was seen, not that at which it is
/// judged, and only the first one is.
pub proof fn reports_are_timed_when_seen(
    first: (LockKind, u128),
    kind: LockKind,
    event: RunEvent,
    seen: u128,
    now: u128,
    later: u128,
)
    ensures
        remembered(None, RunEvent::Report(kind), seen, now) == Some((kind, seen)),
        remembered(None, event, seen, now) is Some <==> event is Report,
        remembered(Some(first), event, seen, now) == Some(first),
        remembered(None, event, seen, now) == remembered(None, event, seen, later),
{
}

/// What comes of a look at a run, where `first` is the first lock that it has reported,
/// this look included.
pub open spec fn watch_step(
    event: RunEvent,
    first: Option<(LockKind, u128)>,
    now: u128,
    patience_ms: u64,
) -> WatchStep {
    match event {
        RunEvent::Exited(status, stderr) => WatchStep::Done(
            RunOutcome::Completed(code_of(status), stderr),
        ),
        _ => match given_up_for(first, now, patience_ms) {
            Some(kind) => WatchStep::Done(RunOutcome::Lock(kind)),
            None => WatchStep::KeepWatching,
        },
    }
}

/// A run that has ended came out as it ended, with its exit code and its error output,
/// though it may have reported a lock. A run that goes on has not come out as ended, and
/// comes out as waiting for a lock only for the first that it has reported, in time.
pub proof fn runs_come_out_as_they_end(
    code: i32,
    stderr: String,
    first: Option<(LockKind, u128)>,
    now: u128,
    patience_ms: u64,
    event: RunEvent,
)
    ensures
        watch_step(RunEvent::Exited(Some(code), stderr), first, now, patience_ms)
            == WatchStep::Done(RunOutcome::Completed(code, stderr)),
        watch_step(RunEvent::Exited(None, stderr), first, now, patience_ms) matches WatchStep::Done(
            RunOutcome::Completed(failed, kept),
        ) && failed != 0 && kept == stderr,
        !(event is Exited) ==> watch_step(event, first, now, patience_ms) == (match first {
            Some((kind, since)) => if now - since >= patience_ms * 1_000_000 || patience_ms == 0 {
                WatchStep::Done(RunOutcome::Lock(kind))
            } else {
                WatchStep::KeepWatching
            },
            None => WatchStep::KeepWatching,
        }),
{
}

/// The watch over a Cargo run.
#[derive(Debug)]
pub struct LockWatch {
    pub patience_ms: u64,
    pub first_lock: Option<(LockKind, u128)>,
}

impl LockWatch {
    /// Starts the watch over a run that has reported no lock.
    pub fn new(patience_ms: u64) -> (watch: LockWatch)
        ensures
            watch == (LockWatch { patience_ms, first_lock: None }),
    {
        LockWatch { patience_ms, first_lock: None }
    }

    /// Takes what a look at the run at the time `seen` shows, and decides about it at
    /// the time `now`. A run that has ended came out as it ended, whatever it had
    /// reported. One that goes on is given up if it has waited long enough.
    pub fn step(&mut self, event: RunEvent, seen: u128, now: u128) -> (step: WatchStep)
        ensures
            final(self).patience_ms == old(self).patience_ms,
            final(self).first_lock == first_sighting(
                old(self).first_lock,
                report_in(event),
                seen,
            ),
            final(self).first_lock == remembered(old(self).first_lock, event, seen, now),
            step == (match event {
                RunEvent::Exited(status, stderr) => WatchStep::Done(
                    RunOutcome::Completed(code_of(status), stderr),
                ),
                _ => match given_up_for(final(self).first_lock, now, final(self).patience_ms) {
                    Some(kind) => WatchStep::Done(RunOutcome::Lock(kind)),
                    None => WatchStep::KeepWatching,
                },
            }),
            step == watch_step(event, final(self).first_lock, now, final(self).patience_ms),
    {
        match event {
            RunEvent::Exited(status, stderr) => {
                return WatchStep::Done(RunOutcome::Completed(exit_code(status), stderr));
            },
            RunEvent::Report(kind) => {
                if self.first_lock.is_none() {
                    self.first_lock = Some((kind, seen));
                }
            },
            RunEvent::Quiet => {},
        }
        match self.first_lock {
            Some((kind, since)) => {
                let passed: u128 = if now >= since {
                    now - since
                } else {
                    0
                };
                if passed >= self.patience_ms as u128 * NANOS_PER_MILLI {
                    WatchStep::Done(RunOutcome::Lock(kind))
                } else {
                    WatchStep::KeepWatching
                }
            },
            None => WatchStep::KeepWatching,
        }
    }
}

/// The first sighting after a number of reports.
pub open spec fn first_of(reports: Seq<(Option<LockKind>, u128)>) -> Option<(LockKind, u128)>
    decreases reports.len(),
{
    if reports.len() == 0 {
        None
    } else {
        first_sighting(first_of(reports.drop_last()), reports.last().0, reports.last().1)
    }
}

/// A run is given up only for the first lock that it reported, and only once the
/// patience has passed since that report. Later reports neither change the lock nor
/// put the retry off.
pub proof fn first_report_decides(
    reports: Seq<(Option<LockKind>, u128)>,
    at: int,
    now: u128,
    patience_ms: u64,
)
    requires
        0 <= at < reports.len(),
        reports[at].0 is Some,
        forall|i: int| 0 <= i < at ==> (#[trigger] reports[i]).0 is None,
    ensures
        first_of(reports) == Some((reports[at].0->0, reports[at].1)),
        given_up_for(first_of(reports), now, patience_ms) == (if elapsed(reports[at].1, now)
            >= patience_ms * NANOS_PER_MILLI {
            reports[at].0
        } else {
            None
        }),
    decreases reports.len(),
{
    let before = reports.drop_last();
    if at == reports.len() - 1 {
        quiet_runs_are_not_given_up(before, now, patience_ms);
    } else {
        assert(before[at] == reports[at]);
        first_report_decides(before, at, now, patience_ms);
    }
}

/// A run that reports no lock is never given up.
pub proof fn quiet_runs_are_not_given_up(
    reports: Seq<(Option<LockKind>, u128)>,
    now: u128,
    patience_ms: u64,
)
    requires
        forall|i: int| 0 <= i < reports.len() ==> (#[trigger] reports[i]).0 is None,
    ensures
        first_of(reports) is None,
        given_up_for(first_of(reports), now, patience_ms) is None,
    decreases reports.len(),
{
    if reports.len() > 0 {
        quiet_runs_are_not_given_up(reports.drop_last(), now, patience_ms);
    }
}

/// A run that ended came out with the exit code that it ended with, whatever that is. A
/// run that ended without one came out as failed. So a run counts as a success exactly if
/// it ended with zero.
pub proof fn exit_codes_are_handed_on(code: i32, status: Option<i32>)
    ensures
        code_of(Some(code)) == code,
        code_of(None) != 0,
        code_of(status) == 0 <==> status == Some(0i32),
{
}

/// Each sign of something that is not cached is seen wherever it stands, however it is
/// capitalised, and nothing else counts as one.
pub proof fn offline_misses_are_told_by_their_signs(
    before: Seq<char>,
    said: Seq<char>,
    after: Seq<char>,
    stderr: Seq<char>,
)
    ensures
        lowered(said) == "offline was specified"@ || lowered(said)
            == "can't be accessed in offline mode"@ || lowered(said)
            == "unable to update registry"@ || lowered(said) == "no matching package named"@
            || lowered(said) == "failed to fetch"@ || lowered(said)
            == "attempting to make an http request"@ ==> is_offline_miss(before + said + after),
        is_offline_miss(stderr) ==> {
            let low = lowered(stderr);
            ||| contains(low, "offline was specified"@)
            ||| contains(low, "can't be accessed in offline mode"@)
            ||| contains(low, "unable to update registry"@)
            ||| contains(low, "no matching package named"@)
            ||| contains(low, "failed to fetch"@)
            ||| contains(low, "attempting to make an http request"@)
        },
{
    lowered_part_by_part(before, said, after);
    contained_texts_can_be_cut_out(
        stderr,
        lowered(said),
        lowered(before),
        lowered(after),
    );
}

/// A run that has reported a lock is given up exactly once as many milliseconds have
/// passed since as the patience counts, and for that lock. A clock that goes back counts
/// as one that stands still. A run that has reported none is not given up.
pub proof fn runs_are_given_up_in_time(kind: LockKind, since: u128, now: u128, patience_ms: u64)
    ensures
        given_up_for(Some((kind, since)), now, patience_ms) == Some(kind) || given_up_for(
            Some((kind, since)),
            now,
            patience_ms,
        ) is None,
        given_up_for(Some((kind, since)), now, patience_ms) is Some <==> (now - since
            >= patience_ms * 1_000_000 || patience_ms == 0),
        given_up_for(None, now, patience_ms) is None,
{
}

/// The first lock that is reported is remembered with the time of the report, and no
/// other after it.
pub proof fn first_lock_is_remembered(
    first: (LockKind, u128),
    kind: LockKind,
    lock: Option<LockKind>,
    now: u128,
    stderr: String,
    status: Option<i32>,
)
    ensures
        first_sighting(None, report_in(RunEvent::Report(kind)), now) == Some((kind, now)),
        first_sighting(None, report_in(RunEvent::Quiet), now) is None,
        first_sighting(None, report_in(RunEvent::Exited(status, stderr)), now) is None,
        first_sighting(Some(first), lock, now) == Some(first),
{
}

/// A line is kept exactly if fewer than 131072 bytes were kept before it, and then behind
/// them, as it is.
pub proof fn lines_are_kept_while_there_is_room(kept: Seq<char>, line: Seq<char>)
    ensures
        encode_utf8(kept).len() < 131_072 ==> kept_after(kept, line) == kept + line,
        encode_utf8(kept).len() >= 131_072 ==> kept_after(kept, line) == kept,
{
}

/// A run is looked at twenty times a second.
pub proof fn runs_are_looked_at_often()
    ensures
        POLL_INTERVAL_MS * 20 == 1000,
{
}

} // verus!

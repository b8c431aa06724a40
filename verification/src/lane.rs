//! Lanes: directories set apart for one Cargo run at a time, and the leases that
//! keep others out of them.

use crate::number::{decimal, decimal_is_injective, decimal_text, lemma_decimal};
use crate::path::{
    fixed_names_are_plain, is_plain_name, is_unseparated, longer_name_is_plain,
    paths_that_part_lie_apart, ManagedPath, PathView,
};
use crate::workspace::WorkspacePaths;
use vstd::prelude::*;
use vstd::string::StringExecFns;

verus! {

/// A lease that nobody refreshed for longer than this is given up.
pub const STALE_LEASE_AFTER_SECS: u64 = 43_200;

/// A lease in use is refreshed this often.
pub const LEASE_REFRESH_INTERVAL_SECS: u64 = 60;

/// Nanoseconds in a second.
pub const NANOS_PER_SEC: u128 = 1_000_000_000;

/// The name of the lane in a slot.
pub open spec fn slot_name(slot: nat) -> Seq<char> {
    "lane-"@ + decimal(slot)
}

/// The name of a lane that is made when every slot is taken.
pub open spec fn overflow_name(pid: nat, timestamp: nat) -> Seq<char> {
    "overflow-"@ + decimal(pid) + "-"@ + decimal(timestamp)
}

proof fn lemma_decimal_unseparated(n: nat)
    ensures
        is_unseparated(decimal(n)),
{
    lemma_decimal(n);
}

/// The name of a slot can be the name of a directory.
pub proof fn slot_names_are_plain(slot: nat)
    ensures
        is_plain_name(slot_name(slot)),
{
    reveal_strlit("lane-");
    fixed_names_are_plain();
    lemma_decimal_unseparated(slot);
    longer_name_is_plain("lane-"@, decimal(slot));
}

/// The name of an overflow lane can be the name of a directory.
pub proof fn overflow_names_are_plain(pid: nat, timestamp: nat)
    ensures
        is_plain_name(overflow_name(pid, timestamp)),
{
    reveal_strlit("overflow-");
    reveal_strlit("-");
    fixed_names_are_plain();
    lemma_decimal_unseparated(pid);
    lemma_decimal_unseparated(timestamp);
    longer_name_is_plain("overflow-"@, decimal(pid));
    longer_name_is_plain("overflow-"@ + decimal(pid), "-"@);
    longer_name_is_plain("overflow-"@ + decimal(pid) + "-"@, decimal(timestamp));
}

/// Different slots have different names, and none has the name of an overflow
/// lane.
pub proof fn lane_names_are_distinct(a: nat, b: nat, pid: nat, timestamp: nat)
    ensures
        slot_name(a) == slot_name(b) <==> a == b,
        slot_name(a) != overflow_name(pid, timestamp),
{
    reveal_strlit("lane-");
    reveal_strlit("overflow-");
    if slot_name(a) == slot_name(b) {
        assert(slot_name(a).skip(5) == decimal(a));
        assert(slot_name(b).skip(5) == decimal(b));
        decimal_is_injective(a, b);
    }
    assert(slot_name(a)[0] == 'l');
    assert(overflow_name(pid, timestamp)[0] == 'o');
}

/// Overflow lanes of different processes, or of one process at different times,
/// have different names.
pub proof fn overflow_names_are_distinct(p: nat, s: nat, q: nat, t: nat)
    requires
        overflow_name(p, s) == overflow_name(q, t),
    ensures
        p == q && s == t,
{
    reveal_strlit("overflow-");
    reveal_strlit("-");
    let a = overflow_name(p, s);
    let b = overflow_name(q, t);
    let i = 9 + decimal(p).len();
    let j = 9 + decimal(q).len();
    lemma_decimal(p);
    lemma_decimal(q);
    lemma_decimal(s);
    lemma_decimal(t);
    assert(a[i as int] == '-');
    assert(b[j as int] == '-');
    if i < j {
        assert(b[i as int] == decimal(q)[i - 9]);
    }
    if j < i {
        assert(a[j as int] == decimal(p)[j - 9]);
    }
    assert(a.subrange(9, i as int) == decimal(p));
    assert(b.subrange(9, j as int) == decimal(q));
    assert(a.skip(i as int + 1) == decimal(s));
    assert(b.skip(j as int + 1) == decimal(t));
    decimal_is_injective(p, q);
    decimal_is_injective(s, t);
}

/// Writes the name of the lane in a slot.
pub fn slot_lane_name(slot: usize) -> (name: String)
    ensures
        name@ == slot_name(slot as nat),
{
    "lane-".to_owned().concat(decimal_text(slot as u64).as_str())
}

/// Writes the name of an overflow lane.
pub fn overflow_lane_name(pid: u32, timestamp: u64) -> (name: String)
    ensures
        name@ == overflow_name(pid as nat, timestamp as nat),
{
    "overflow-".to_owned().concat(decimal_text(pid as u64).as_str()).concat("-").concat(
        decimal_text(timestamp).as_str(),
    )
}

/// What the clock shows, where it shows a time since the start of 1970.
pub open spec fn clock_reading(since_epoch: Option<u64>) -> u64 {
    match since_epoch {
        Some(secs) => secs,
        None => 0,
    }
}

/// What the clock shows, in whole seconds since the start of 1970. A clock that
/// shows a time before that counts as showing its start.
pub fn unix_timestamp(since_epoch: Option<u64>) -> (timestamp: u64)
    ensures
        timestamp == (match since_epoch {
            Some(secs) => secs,
            None => 0,
        }),
        timestamp == clock_reading(since_epoch),
{
    match since_epoch {
        Some(secs) => secs,
        None => 0,
    }
}

/// What a lease file says.
pub open spec fn lease_contents(pid: nat, timestamp: nat) -> Seq<char> {
    "pid="@ + decimal(pid) + "\ntimestamp="@ + decimal(timestamp) + "\n"@
}

/// Writes what a lease file says.
pub fn lease_text(pid: u32, timestamp: u64) -> (text: String)
    ensures
        text@ == lease_contents(pid as nat, timestamp as nat),
{
    "pid=".to_owned().concat(decimal_text(pid as u64).as_str()).concat("\ntimestamp=").concat(
        decimal_text(timestamp).as_str(),
    ).concat("\n")
}

/// A lease of that age, in nanoseconds, is given up.
pub open spec fn is_stale_age(age: nat) -> bool {
    age > STALE_LEASE_AFTER_SECS * NANOS_PER_SEC
}

/// Tells whether a lease is given up, from the nanoseconds since it was last
/// refreshed. Where its age cannot be had the lease is not given up.
pub fn lease_is_stale(age: Option<u128>) -> (stale: bool)
    ensures
        stale == (age matches Some(age) && is_stale_age(age as nat)),
{
    match age {
        Some(age) => age > STALE_LEASE_AFTER_SECS as u128 * NANOS_PER_SEC,
        None => false,
    }
}

/// What to do about the lease file of a lane.
#[derive(Copy, Clone, Debug, PartialEq, Eq, Structural)]
pub enum LeaseStep {
    /// There is none: try to create it.
    Claim,
    /// It is given up: remove it, then try to create it.
    RemoveThenClaim,
    /// The lane is in use: leave it.
    Leave,
}

/// What to do about a lease file that exists or not and is that old, if its age
/// can be had.
pub open spec fn lease_step(exists: bool, age: Option<u128>) -> LeaseStep {
    if !exists {
        LeaseStep::Claim
    } else if age matches Some(age) && is_stale_age(age as nat) {
        LeaseStep::RemoveThenClaim
    } else {
        LeaseStep::Leave
    }
}

/// A lane whose lease was refreshed within the last `missed` refresh intervals is
/// left alone, for any number of them up to 720. So is one whose lease has no age.
pub proof fn lanes_in_use_are_left_alone(age: Option<u128>, missed: nat)
    requires
        missed <= 720,
        age matches Some(age) ==> age <= missed * LEASE_REFRESH_INTERVAL_SECS * NANOS_PER_SEC,
    ensures
        lease_step(true, age) == LeaseStep::Leave,
{
    assert(missed * LEASE_REFRESH_INTERVAL_SECS * NANOS_PER_SEC <= 720
        * LEASE_REFRESH_INTERVAL_SECS * NANOS_PER_SEC) by (nonlinear_arith)
        requires
            missed <= 720,
    ;
}

/// Decides about a lease file from whether it exists and from its age.
pub fn inspect_lease(exists: bool, age: Option<u128>) -> (step: LeaseStep)
    ensures
        step == lease_step(exists, age),
{
    if exists {
        if lease_is_stale(age) {
            LeaseStep::RemoveThenClaim
        } else {
            LeaseStep::Leave
        }
    } else {
        LeaseStep::Claim
    }
}

/// The directories of a lane.
#[derive(Debug)]
pub struct LaneLease {
    pub name: String,
    pub root: ManagedPath,
    pub claim_file: ManagedPath,
    pub lease_file: ManagedPath,
    pub build_dir: ManagedPath,
    pub target_dir: ManagedPath,
    pub readonly_home_dir: ManagedPath,
    pub online_home_dir: ManagedPath,
}

impl LaneLease {
    /// This is the lane of that name among the lanes in `lanes_dir`.
    pub open spec fn is_lane_of(self, lanes_dir: PathView, name: Seq<char>) -> bool {
        let root = lanes_dir.child(name);
        &&& self.name@ == name
        &&& self.root@ == root
        &&& self.claim_file@ == root.child("claim"@)
        &&& self.lease_file@ == root.child("lease"@)
        &&& self.build_dir@ == root.child("build"@)
        &&& self.target_dir@ == root.child("target"@)
        &&& self.readonly_home_dir@ == root.child("cargo-home-readonly"@)
        &&& self.online_home_dir@ == root.child("cargo-home-online"@)
    }

    /// Lays out the directories of a lane.
    pub fn new(paths: &WorkspacePaths, name: &str) -> (lane: LaneLease)
        requires
            is_plain_name(name@),
        ensures
            lane.is_lane_of(paths.lanes_dir@, name@),
    {
        proof {
            fixed_names_are_plain();
        }
        let root = paths.lanes_dir.join(name);
        LaneLease {
            name: name.to_owned(),
            claim_file: root.join("claim"),
            lease_file: root.join("lease"),
            build_dir: root.join("build"),
            target_dir: root.join("target"),
            readonly_home_dir: root.join("cargo-home-readonly"),
            online_home_dir: root.join("cargo-home-online"),
            root,
        }
    }
}

/// A lane that a search asks for.
#[derive(Copy, Clone, Debug, PartialEq, Eq, Structural)]
pub enum Candidate {
    Slot(usize),
    Overflow,
}

/// The lane that is asked for after `refusals` slots could not be had: the next
/// slot, or an overflow lane once every slot was asked for.
pub open spec fn candidate_after(slots: usize, refusals: usize) -> Candidate {
    if refusals < slots {
        Candidate::Slot(refusals)
    } else {
        Candidate::Overflow
    }
}

/// The name of a candidate, for a process and a time.
pub open spec fn candidate_name(candidate: Candidate, pid: nat, timestamp: nat) -> Seq<char> {
    match candidate {
        Candidate::Slot(slot) => slot_name(slot as nat),
        Candidate::Overflow => overflow_name(pid, timestamp),
    }
}

/// What a search does after it asked for a lane.
#[derive(Debug)]
pub enum LaneStep {
    /// The lane was had.
    Acquired(LaneLease),
    /// The next candidate is asked for.
    TryNext,
    /// The search ends without a lane.
    Fail(String),
}

/// What a search does after it asked for a candidate, given what that came to.
pub open spec fn is_search_step(
    candidate: Candidate,
    attempt: Result<Option<LaneLease>, String>,
    step: LaneStep,
) -> bool {
    match (attempt, step) {
        (Ok(Some(lane)), LaneStep::Acquired(got)) => got == lane,
        (Ok(None), LaneStep::TryNext) => candidate != Candidate::Overflow,
        (Ok(None), LaneStep::Fail(message)) => candidate == Candidate::Overflow && message@
            == "failed to allocate overflow lane"@,
        (Err(error), LaneStep::Fail(message)) => message == error,
        _ => false,
    }
}

/// A lane that is had is the one that the search hands out, and nothing else is. A slot
/// that is taken leads on. A search fails only by an error, which it reports as it is, or
/// once the overflow lane is taken too.
pub proof fn searches_end_with_what_they_find(
    candidate: Candidate,
    lane: LaneLease,
    error: String,
    step: LaneStep,
    slot: usize,
)
    ensures
        is_search_step(candidate, Ok(Some(lane)), step) <==> step == LaneStep::Acquired(lane),
        is_search_step(candidate, Err(error), step) <==> step == LaneStep::Fail(error),
        is_search_step(Candidate::Slot(slot), Ok(None), step) <==> step == LaneStep::TryNext,
        is_search_step(Candidate::Overflow, Ok(None), step) ==> step is Fail,
{
}

/// The search for a lane that is free: slot by slot, then an overflow lane.
#[derive(Debug)]
pub struct LaneSearch {
    slots: usize,
    refusals: usize,
}

impl LaneSearch {
    #[verifier::type_invariant]
    spec fn is_within_slots(self) -> bool {
        self.refusals <= self.slots
    }

    /// How many slots there are.
    pub closed spec fn slots(self) -> usize {
        self.slots
    }

    /// How many slots could not be had.
    pub closed spec fn refusals(self) -> usize {
        self.refusals
    }

    /// The lane that is asked for next.
    pub open spec fn candidate(self) -> Candidate {
        candidate_after(self.slots(), self.refusals())
    }

    /// Starts a search with the first slot.
    pub fn new(slots: usize) -> (search: LaneSearch)
        ensures
            search.slots() == slots,
            search.refusals() == 0,
    {
        LaneSearch { slots, refusals: 0 }
    }

    /// The name of the lane that is asked for next.
    pub fn name(&self, pid: u32, timestamp: u64) -> (name: String)
        ensures
            name@ == candidate_name(self.candidate(), pid as nat, timestamp as nat),
            is_plain_name(name@),
    {
        proof {
            slot_names_are_plain(self.refusals as nat);
            overflow_names_are_plain(pid as nat, timestamp as nat);
        }
        if self.refusals < self.slots {
            slot_lane_name(self.refusals)
        } else {
            overflow_lane_name(pid, timestamp)
        }
    }

    /// Lays out the lane that is asked for next.
    pub fn lane(&self, paths: &WorkspacePaths, pid: u32, timestamp: u64) -> (lane: LaneLease)
        ensures
            lane.is_lane_of(
                paths.lanes_dir@,
                candidate_name(self.candidate(), pid as nat, timestamp as nat),
            ),
    {
        LaneLease::new(paths, self.name(pid, timestamp).as_str())
    }

    /// Takes what asking for the candidate came to. A lane ends the search, and so
    /// does an error. After a slot that could not be had the search goes on; after
    /// an overflow lane that could not be had it fails.
    pub fn acquire_lane(&mut self, attempt: Result<Option<LaneLease>, String>) -> (step: LaneStep)
        ensures
            final(self).slots() == old(self).slots(),
            match attempt {
                Ok(Some(lane)) => step == LaneStep::Acquired(lane) && final(self).refusals() == old(
                    self,
                ).refusals(),
                Ok(None) => match old(self).candidate() {
                    Candidate::Slot(_) => step == LaneStep::TryNext && final(self).refusals()
                        == old(self).refusals() + 1,
                    Candidate::Overflow => step matches LaneStep::Fail(message) && message@
                        == "failed to allocate overflow lane"@ && final(self).refusals() == old(
                        self,
                    ).refusals(),
                },
                Err(message) => step == LaneStep::Fail(message) && final(self).refusals() == old(
                    self,
                ).refusals(),
            },
            is_search_step(old(self).candidate(), attempt, step),
            final(self).candidate() == (if step == LaneStep::TryNext {
                candidate_after(old(self).slots(), (old(self).refusals() + 1) as usize)
            } else {
                old(self).candidate()
            }),
    {
        proof {
            use_type_invariant(&*self);
        }
        match attempt {
            Ok(Some(lane)) => LaneStep::Acquired(lane),
            Ok(None) => {
                if self.refusals < self.slots {
                    let refusals: usize = self.refusals + 1;
                    *self = LaneSearch { slots: self.slots, refusals };
                    LaneStep::TryNext
                } else {
                    LaneStep::Fail("failed to allocate overflow lane".to_owned())
                }
            },
            Err(message) => LaneStep::Fail(message),
        }
    }
}

/// The candidate that a search ends at if it goes on after `refusals` slots, where
/// `free` says which candidates can be had.
pub open spec fn search_end(
    slots: usize,
    refusals: usize,
    free: spec_fn(Candidate) -> bool,
) -> Option<Candidate>
    decreases slots - refusals,
{
    let candidate = candidate_after(slots, refusals);
    if free(candidate) {
        Some(candidate)
    } else {
        match candidate {
            Candidate::Slot(_) => search_end(slots, (refusals + 1) as usize, free),
            Candidate::Overflow => None,
        }
    }
}

/// A search ends at the lowest slot that can be had. It ends at an overflow lane
/// only if no slot can be had, and fails only if no overflow lane can be had either.
pub proof fn lowest_free_slot_is_taken(
    slots: usize,
    refusals: usize,
    free: spec_fn(Candidate) -> bool,
)
    ensures
        match search_end(slots, refusals, free) {
            Some(Candidate::Slot(slot)) => {
                &&& refusals <= slot < slots
                &&& free(Candidate::Slot(slot))
                &&& forall|i: usize| refusals <= i < slot ==> !#[trigger] free(Candidate::Slot(i))
            },
            Some(Candidate::Overflow) => {
                &&& free(Candidate::Overflow)
                &&& forall|i: usize| refusals <= i < slots ==> !#[trigger] free(Candidate::Slot(i))
            },
            None => {
                &&& !free(Candidate::Overflow)
                &&& forall|i: usize| refusals <= i < slots ==> !#[trigger] free(Candidate::Slot(i))
            },
        },
    decreases slots - refusals,
{
    if refusals < slots && !free(Candidate::Slot(refusals)) {
        lowest_free_slot_is_taken(slots, (refusals + 1) as usize, free);
    }
}

/// What the thread that keeps a lease alive wakes up for.
#[derive(Copy, Clone, Debug, PartialEq, Eq, Structural)]
pub enum HeartbeatEvent {
    /// It was told to stop.
    Stop,
    /// Nobody is left to tell it.
    Disconnected,
    /// The refresh interval has passed.
    Interval,
}

/// What the thread that keeps a lease alive does next.
#[derive(Copy, Clone, Debug, PartialEq, Eq, Structural)]
pub enum HeartbeatStep {
    Refresh,
    End,
}

/// What follows an event: the lease is refreshed whenever the interval has passed, and
/// left for good otherwise.
pub open spec fn heartbeat_next(event: HeartbeatEvent) -> HeartbeatStep {
    if event == HeartbeatEvent::Interval {
        HeartbeatStep::Refresh
    } else {
        HeartbeatStep::End
    }
}

/// Refreshes the lease whenever the interval has passed, and ends otherwise.
pub fn heartbeat_step(event: HeartbeatEvent) -> (step: HeartbeatStep)
    ensures
        step == heartbeat_next(event),
{
    match event {
        HeartbeatEvent::Stop | HeartbeatEvent::Disconnected => HeartbeatStep::End,
        HeartbeatEvent::Interval => HeartbeatStep::Refresh,
    }
}

/// One time that the thread that keeps a lease alive wakes up: what for, when, in
/// nanoseconds, and whether a lease file could be rewritten then.
pub struct Beat {
    pub event: HeartbeatEvent,
    pub at: nat,
    pub writable: bool,
}

/// The thread goes on after all of these.
pub open spec fn goes_on(beats: Seq<Beat>) -> bool {
    forall|i: int|
        0 <= i < beats.len() ==> heartbeat_next((#[trigger] beats[i]).event)
            == HeartbeatStep::Refresh
}

/// When the lease file was last written, where `written` says when it was before these
/// beats. A refresh rewrites a file that is there, and makes none.
pub open spec fn last_written(written: Option<nat>, beats: Seq<Beat>) -> Option<nat>
    decreases beats.len(),
{
    if beats.len() == 0 {
        written
    } else {
        let before = last_written(written, beats.drop_last());
        if before is Some && goes_on(beats) && beats.last().writable {
            Some(beats.last().at)
        } else {
            before
        }
    }
}

/// How many beats have passed since a refresh succeeded.
pub open spec fn missed_refreshes(beats: Seq<Beat>) -> nat
    decreases beats.len(),
{
    if beats.len() == 0 || beats.last().writable {
        0
    } else {
        missed_refreshes(beats.drop_last()) + 1
    }
}

/// No beat, and not `now` either, is later than `gap` after the one before, where the
/// first is counted from `start`.
pub open spec fn beats_within(start: nat, beats: Seq<Beat>, now: nat, gap: nat) -> bool {
    &&& beats.len() > 0 ==> beats[0].at <= gap + start
    &&& forall|i: int, j: int|
        0 <= i < j < beats.len() && j == i + 1 ==> (#[trigger] beats[j]).at <= gap + (
        #[trigger] beats[i]).at
    &&& now <= gap + (if beats.len() == 0 {
        start
    } else {
        beats.last().at
    })
}

/// The age of a lease that was written at that time. One that seems to be written later
/// has none.
pub open spec fn age_of(written: nat, now: u128) -> Option<u128> {
    if written <= now {
        Some((now - written) as u128)
    } else {
        None
    }
}

/// A lease that is kept alive is never stale, and its lane is left alone. Refreshes may
/// come late and may fail, as long as the time in which they fail does not come to the
/// age at which a lease is given up. With one a minute, some seven hundred in a row may
/// fail.
pub proof fn kept_leases_are_never_stale(start: nat, beats: Seq<Beat>, now: u128, gap: nat)
    requires
        goes_on(beats),
        beats_within(start, beats, now as nat, gap),
        (missed_refreshes(beats) + 1) * gap <= STALE_LEASE_AFTER_SECS * NANOS_PER_SEC,
    ensures
        last_written(Some(start), beats) matches Some(written) && lease_step(
            true,
            age_of(written, now),
        ) == LeaseStep::Leave,
{
    lemma_written_lately(start, beats, now as nat, gap);
    let written = last_written(Some(start), beats)->0;
    let time = (missed_refreshes(beats) + 1) * gap;
    let limit = STALE_LEASE_AFTER_SECS * NANOS_PER_SEC;
    assert(now - written <= time <= limit);
    if let Some(age) = age_of(written, now) {
        assert(age == now - written);
        assert(!is_stale_age(age as nat));
    }
}

proof fn lemma_written_lately(start: nat, beats: Seq<Beat>, now: nat, gap: nat)
    requires
        goes_on(beats),
        beats_within(start, beats, now, gap),
    ensures
        last_written(Some(start), beats) matches Some(written) && now - written <= (
        missed_refreshes(beats) + 1) * gap,
    decreases beats.len(),
{
    if beats.len() > 0 {
        let rest = beats.drop_last();
        let last = beats.last().at;
        assert(forall|i: int| 0 <= i < rest.len() ==> #[trigger] rest[i] == beats[i]);
        assert(beats[beats.len() - 1].at == last);
        if rest.len() > 0 {
            assert(rest.last() == beats[beats.len() - 2]);
        }
        lemma_written_lately(start, rest, last, gap);
        let m = missed_refreshes(rest);
        assert(goes_on(rest));
        if beats.last().writable {
            assert(last_written(Some(start), beats) == Some(last));
            assert((0 + 1) * gap == gap) by (nonlinear_arith);
        } else {
            assert(last_written(Some(start), beats) == last_written(Some(start), rest));
            assert(missed_refreshes(beats) == m + 1);
            assert((m + 2) * gap == (m + 1) * gap + gap) by (nonlinear_arith);
        }
    } else {
        assert((0 + 1) * gap == gap) by (nonlinear_arith);
    }
}

/// Once the thread has ended, the lease file is not written any more, whatever happens.
pub proof fn ended_heartbeats_write_nothing(
    written: Option<nat>,
    before: Seq<Beat>,
    after: Seq<Beat>,
)
    requires
        before.len() > 0,
        heartbeat_next(before.last().event) == HeartbeatStep::End,
    ensures
        last_written(written, before + after) == last_written(written, before.drop_last()),
    decreases after.len(),
{
    let all = before + after;
    let end = before.len() - 1;
    assert(all[end] == before.last());
    assert(!goes_on(all));
    if after.len() == 0 {
        assert(all == before);
    } else {
        assert(all.drop_last() == before + after.drop_last());
        ended_heartbeats_write_nothing(written, before, after.drop_last());
    }
}

/// A lease file that was removed is not made again.
pub proof fn removed_leases_stay_removed(beats: Seq<Beat>)
    ensures
        last_written(None, beats) is None,
    decreases beats.len(),
{
    if beats.len() > 0 {
        removed_leases_stay_removed(beats.drop_last());
    }
}

/// A lease file that is there is given up exactly once it is older than twelve hours. One
/// whose age cannot be had is left, and where there is none the lane is claimed, whatever
/// its age is said to be. An older lease is not kept where a younger is given up.
pub proof fn leases_go_stale_after_twelve_hours(age: u128, older: u128, any: Option<u128>)
    requires
        age <= older,
    ensures
        lease_step(true, Some(age)) == LeaseStep::RemoveThenClaim <==> age > 43_200_000_000_000,
        lease_step(true, Some(age)) == LeaseStep::RemoveThenClaim || lease_step(true, Some(age))
            == LeaseStep::Leave,
        lease_step(true, None) == LeaseStep::Leave,
        lease_step(false, any) == LeaseStep::Claim,
        is_stale_age(age as nat) <==> lease_step(true, Some(age)) == LeaseStep::RemoveThenClaim,
        is_stale_age(age as nat) ==> is_stale_age(older as nat),
{
}

/// A lease file says which process holds the lane and when it was last refreshed: no two
/// processes or times are written alike. It says so in one line each.
pub proof fn lease_files_say_who_and_when(p: nat, s: nat, q: nat, t: nat)
    ensures
        lease_contents(p, s) == lease_contents(q, t) ==> p == q && s == t,
        lease_contents(p, s).len() == decimal(p).len() + decimal(s).len() + 16,
        lease_contents(p, s).take(4 + decimal(p).len() as int) == "pid="@ + decimal(p),
        lease_contents(p, s).skip(4 + decimal(p).len() as int) == "\ntimestamp="@ + decimal(s)
            + "\n"@,
{
    reveal_strlit("pid=");
    reveal_strlit("\ntimestamp=");
    reveal_strlit("\n");
    lemma_decimal(p);
    lemma_decimal(q);
    let a = lease_contents(p, s);
    let b = lease_contents(q, t);
    let i = 4 + decimal(p).len() as int;
    let j = 4 + decimal(q).len() as int;
    assert(a.take(i) =~= "pid="@ + decimal(p));
    assert(a.skip(i) =~= "\ntimestamp="@ + decimal(s) + "\n"@);
    assert(b.take(j) =~= "pid="@ + decimal(q));
    assert(b.skip(j) =~= "\ntimestamp="@ + decimal(t) + "\n"@);
    assert(a[i] == '\n');
    assert(b[j] == '\n');
    if a == b {
        if i < j {
            assert(b[i] == decimal(q)[i - 4]);
        }
        if j < i {
            assert(a[j] == decimal(p)[j - 4]);
        }
        assert(a.subrange(4, i) =~= decimal(p));
        assert(b.subrange(4, j) =~= decimal(q));
        let x = "\ntimestamp="@ + decimal(s) + "\n"@;
        let y = "\ntimestamp="@ + decimal(t) + "\n"@;
        assert(x.subrange(11, x.len() - 1) =~= decimal(s));
        assert(y.subrange(11, y.len() - 1) =~= decimal(t));
        decimal_is_injective(p, q);
        decimal_is_injective(s, t);
    }
}

/// What the clock shows is handed on, however late it is. A clock that shows a time
/// before the start of 1970 shows none later than any other.
pub proof fn clocks_are_read_as_they_are(secs: u64)
    ensures
        clock_reading(Some(secs)) == secs,
        clock_reading(None) <= secs,
{
}

/// Each candidate of a search has a name of its own, by its number or by who asks for it
/// and when. The first candidate is the first slot, each refusal leads to the next, and
/// past the last slot there is only the overflow lane.
pub proof fn candidates_are_asked_for_one_by_one(
    slots: usize,
    refusals: usize,
    i: usize,
    j: usize,
    pid: nat,
    timestamp: nat,
)
    ensures
        slots > 0 ==> candidate_after(slots, 0) == Candidate::Slot(0),
        refusals < slots ==> candidate_after(slots, refusals) == Candidate::Slot(refusals),
        refusals >= slots ==> candidate_after(slots, refusals) == Candidate::Overflow,
        candidate_name(Candidate::Slot(i), pid, timestamp) == "lane-"@ + decimal(i as nat),
        candidate_name(Candidate::Overflow, pid, timestamp) == "overflow-"@ + decimal(pid) + "-"@
            + decimal(timestamp),
        candidate_name(Candidate::Slot(i), pid, timestamp) == candidate_name(
            Candidate::Slot(j),
            pid,
            timestamp,
        ) <==> i == j,
        candidate_name(Candidate::Slot(i), pid, timestamp) != candidate_name(
            Candidate::Overflow,
            pid,
            timestamp,
        ),
{
    lane_names_are_distinct(i as nat, j as nat, pid, timestamp);
}

/// A lease is refreshed each time the interval has passed, and at no other event.
pub proof fn heartbeats_follow_the_interval(event: HeartbeatEvent)
    ensures
        heartbeat_next(HeartbeatEvent::Interval) == HeartbeatStep::Refresh,
        heartbeat_next(event) == HeartbeatStep::End <==> (event == HeartbeatEvent::Stop || event
            == HeartbeatEvent::Disconnected),
        LEASE_REFRESH_INTERVAL_SECS * 720 == STALE_LEASE_AFTER_SECS,
{
}

/// What a lane holds lies in the entry of that name among the lanes: the lease file, the
/// claim file, the intermediates, the outputs and the two homes, each apart from the
/// others.
pub proof fn lanes_hold_six_things_apart(
    lane: LaneLease,
    lanes_dir: PathView,
    name: Seq<char>,
    i: int,
    j: int,
)
    requires
        lane.is_lane_of(lanes_dir, name),
        0 <= i < 6,
        0 <= j < 6,
        i != j,
    ensures
        lane.name@ == name,
        lane.root@.parts == lanes_dir.parts.push(name),
        lane.root@.base == lanes_dir.base,
        ({
            let things = seq![
                lane.lease_file@,
                lane.claim_file@,
                lane.build_dir@,
                lane.target_dir@,
                lane.readonly_home_dir@,
                lane.online_home_dir@,
            ];
            let names = seq![
                "lease"@,
                "claim"@,
                "build"@,
                "target"@,
                "cargo-home-readonly"@,
                "cargo-home-online"@,
            ];
            &&& things[i].base == lanes_dir.base
            &&& things[i].parts == lanes_dir.parts + seq![name, names[i]]
            &&& things[i].is_apart_from(things[j])
        }),
{
    reveal_strlit("lease");
    reveal_strlit("claim");
    reveal_strlit("build");
    reveal_strlit("target");
    reveal_strlit("cargo-home-readonly");
    reveal_strlit("cargo-home-online");
    let things = seq![
        lane.lease_file@,
        lane.claim_file@,
        lane.build_dir@,
        lane.target_dir@,
        lane.readonly_home_dir@,
        lane.online_home_dir@,
    ];
    let names = seq![
        "lease"@,
        "claim"@,
        "build"@,
        "target"@,
        "cargo-home-readonly"@,
        "cargo-home-online"@,
    ];
    assert("lease"@.len() == 5 && "claim"@.len() == 5 && "build"@.len() == 5 && "target"@.len()
        == 6 && "cargo-home-readonly"@.len() == 19 && "cargo-home-online"@.len() == 17);
    assert("lease"@[0] == 'l' && "claim"@[0] == 'c' && "build"@[0] == 'b');
    assert(i == 0 || i == 1 || i == 2 || i == 3 || i == 4 || i == 5);
    assert(j == 0 || j == 1 || j == 2 || j == 3 || j == 4 || j == 5);
    assert(names[i] != names[j]);
    assert(things[i].parts =~= lanes_dir.parts + seq![name, names[i]]);
    assert(things[j].parts =~= lanes_dir.parts + seq![name, names[j]]);
    let at = lanes_dir.parts.len() as int + 1;
    assert(things[i].parts[at] == names[i]);
    assert(things[j].parts[at] == names[j]);
    paths_that_part_lie_apart(things[i], things[j], at);
}

} // verus!

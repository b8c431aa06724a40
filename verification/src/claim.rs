//! Claims: how a lane is taken, so that no two claimants take it.

use crate::lane::{inspect_lease, is_stale_age, lease_step, LaneLease, LeaseStep};
use crate::path::{paths_that_part_lie_apart, PathView};
use vstd::prelude::*;

verus! {

/// How a claim ended.
#[derive(Debug, PartialEq, Eq)]
pub enum ClaimEnd {
    /// The lane was had.
    Won,
    /// Someone else has the lane, or is about to.
    Lost,
    /// Something went wrong.
    Failed(String),
}

/// What a claimant does next.
#[derive(Debug, PartialEq, Eq)]
pub enum ClaimPhase {
    /// Lock the claim file, if nobody else has it locked. It stays locked until the
    /// claim has ended. Where it cannot be locked the claim goes on without.
    Lock,
    /// See whether there is a lease file, and how old it is.
    Inspect,
    /// Remove the lease file.
    Remove,
    /// Create the lease file, if there is none.
    Create,
    /// Unlock the claim file and go on without it.
    Ended(ClaimEnd),
}

/// What came of what a claimant did.
#[derive(Debug, PartialEq, Eq)]
pub enum ClaimEvent {
    /// The claim file is locked now.
    Locked,
    /// Someone else has the claim file locked.
    Busy,
    /// The claim file cannot be locked here, as on a file system without locks.
    Unlockable,
    /// Whether there is a lease file, and how old it is in nanoseconds, if that can be
    /// had.
    Seen(bool, Option<u128>),
    /// The removal of the lease file was tried.
    Removed,
    /// The lease file was created.
    Created,
    /// There was a lease file already.
    AlreadyExists,
    /// Something went wrong.
    Failed(String),
}

/// What a claimant does after an event. An event that does not belong to what it did
/// ends the claim.
pub open spec fn claim_next(phase: ClaimPhase, event: ClaimEvent) -> ClaimPhase {
    match (phase, event) {
        (ClaimPhase::Ended(end), _) => ClaimPhase::Ended(end),
        (_, ClaimEvent::Failed(message)) => ClaimPhase::Ended(ClaimEnd::Failed(message)),
        (ClaimPhase::Lock, ClaimEvent::Locked) => ClaimPhase::Inspect,
        (ClaimPhase::Lock, ClaimEvent::Unlockable) => ClaimPhase::Inspect,
        (ClaimPhase::Inspect, ClaimEvent::Seen(exists, age)) => match lease_step(exists, age) {
            LeaseStep::Claim => ClaimPhase::Create,
            LeaseStep::RemoveThenClaim => ClaimPhase::Remove,
            LeaseStep::Leave => ClaimPhase::Ended(ClaimEnd::Lost),
        },
        (ClaimPhase::Remove, ClaimEvent::Removed) => ClaimPhase::Create,
        (ClaimPhase::Create, ClaimEvent::Created) => ClaimPhase::Ended(ClaimEnd::Won),
        _ => ClaimPhase::Ended(ClaimEnd::Lost),
    }
}

/// Decides what a claimant does after an event.
pub fn claim_step(phase: ClaimPhase, event: ClaimEvent) -> (next: ClaimPhase)
    ensures
        next == claim_next(phase, event),
{
    match (phase, event) {
        (ClaimPhase::Ended(end), _) => ClaimPhase::Ended(end),
        (_, ClaimEvent::Failed(message)) => ClaimPhase::Ended(ClaimEnd::Failed(message)),
        (ClaimPhase::Lock, ClaimEvent::Locked) => ClaimPhase::Inspect,
        (ClaimPhase::Lock, ClaimEvent::Unlockable) => ClaimPhase::Inspect,
        (ClaimPhase::Inspect, ClaimEvent::Seen(exists, age)) => match inspect_lease(exists, age) {
            LeaseStep::Claim => ClaimPhase::Create,
            LeaseStep::RemoveThenClaim => ClaimPhase::Remove,
            LeaseStep::Leave => ClaimPhase::Ended(ClaimEnd::Lost),
        },
        (ClaimPhase::Remove, ClaimEvent::Removed) => ClaimPhase::Create,
        (ClaimPhase::Create, ClaimEvent::Created) => ClaimPhase::Ended(ClaimEnd::Won),
        _ => ClaimPhase::Ended(ClaimEnd::Lost),
    }
}

/// What a claim comes to: the lane, no lane because someone else has it, or an error.
pub open spec fn claim_result(lane: LaneLease, end: ClaimEnd) -> Result<
    Option<LaneLease>,
    String,
> {
    match end {
        ClaimEnd::Won => Ok(Some(lane)),
        ClaimEnd::Lost => Ok(None),
        ClaimEnd::Failed(message) => Err(message),
    }
}

/// Tells what a claim comes to.
pub fn try_acquire_lane(lane: LaneLease, end: ClaimEnd) -> (result: Result<
    Option<LaneLease>,
    String,
>)
    ensures
        result == claim_result(lane, end),
{
    match end {
        ClaimEnd::Won => Ok(Some(lane)),
        ClaimEnd::Lost => Ok(None),
        ClaimEnd::Failed(message) => Err(message),
    }
}

/// A lease file: the claimant that created it, or nobody where it was there before, and
/// its age, if that can be had.
pub struct LeaseFile {
    pub owner: Option<nat>,
    pub age: Option<u128>,
}

impl LeaseFile {
    /// The lease is given up.
    pub open spec fn is_stale(self) -> bool {
        self.age matches Some(age) && is_stale_age(age as nat)
    }
}

/// A lane with its claimants, who are numbered: who has the claim file locked, the
/// lease file, and how far each claimant is.
pub struct Contest {
    pub lock: Option<nat>,
    pub lease: Option<LeaseFile>,
    pub phase: spec_fn(nat) -> ClaimPhase,
}

impl Contest {
    /// Every claimant is at the start. A lease file may have been left behind.
    pub open spec fn is_start(self) -> bool {
        &&& self.lock is None
        &&& self.lease matches Some(lease) ==> lease.owner is None
        &&& forall|who: nat| #[trigger] (self.phase)(who) == ClaimPhase::Lock
    }

    /// The claimant has the lane.
    pub open spec fn has_won(self, who: nat) -> bool {
        (self.phase)(who) == ClaimPhase::Ended(ClaimEnd::Won)
    }

    /// Nobody but `who` gets any further.
    pub open spec fn others_wait(self, who: nat, next: Contest) -> bool {
        forall|other: nat|
            other != who ==> #[trigger] (next.phase)(other) == (self.phase)(other)
    }

    /// The claimant does what comes next for it, and takes what came of it.
    pub open spec fn moves(self, who: nat, event: ClaimEvent, next: Contest) -> bool {
        let phase = (self.phase)(who);
        &&& self.others_wait(who, next)
        &&& (next.phase)(who) == claim_next(phase, event)
        &&& match phase {
            ClaimPhase::Lock => {
                &&& next.lease == self.lease
                &&& match event {
                    ClaimEvent::Locked => self.lock is None && next.lock == Some(who),
                    ClaimEvent::Busy => next.lock == self.lock,
                    _ => event is Failed && next.lock == self.lock,
                }
            },
            ClaimPhase::Inspect => {
                &&& next.lock == self.lock
                &&& next.lease == self.lease
                &&& event is Failed || event == (match self.lease {
                    Some(lease) => ClaimEvent::Seen(true, lease.age),
                    None => ClaimEvent::Seen(false, None),
                })
            },
            ClaimPhase::Remove => {
                &&& next.lock == self.lock
                &&& event is Failed || event == ClaimEvent::Removed
                &&& next.lease is None || next.lease == self.lease
            },
            ClaimPhase::Create => {
                &&& next.lock == self.lock
                &&& match event {
                    ClaimEvent::Created => {
                        &&& self.lease is None
                        &&& next.lease matches Some(lease) && lease.owner == Some(who)
                            && !lease.is_stale()
                    },
                    ClaimEvent::AlreadyExists => self.lease is Some && next.lease == self.lease,
                    _ => event is Failed && next.lease == self.lease,
                }
            },
            ClaimPhase::Ended(_) => {
                &&& next.lease == self.lease
                &&& next.lock == (if self.lock == Some(who) {
                    None
                } else {
                    self.lock
                })
            },
        }
    }

    /// A claimant that has not won is killed. The claim file is unlocked with it.
    pub open spec fn loses_one(self, who: nat, next: Contest) -> bool {
        &&& !self.has_won(who)
        &&& self.others_wait(who, next)
        &&& (next.phase)(who) == ClaimPhase::Ended(ClaimEnd::Lost)
        &&& next.lease == self.lease
        &&& next.lock == (if self.lock == Some(who) {
            None
        } else {
            self.lock
        })
    }

    /// Time passes. The lease of a claimant that has won is kept alive, and nobody else
    /// gives it back. A lease that was left behind may grow old, may be refreshed after
    /// all, or may be given back.
    pub open spec fn ages(self, next: Contest) -> bool {
        &&& next.lock == self.lock
        &&& forall|who: nat| #[trigger] (next.phase)(who) == (self.phase)(who)
        &&& match self.lease {
            Some(lease) => match next.lease {
                Some(later) => later.owner == lease.owner && (lease.owner is Some
                    ==> !later.is_stale()),
                None => lease.owner is None,
            },
            None => next.lease is None,
        }
    }

    /// One thing happens.
    pub open spec fn goes_to(self, next: Contest) -> bool {
        ||| exists|who: nat, event: ClaimEvent| self.moves(who, event, next)
        ||| exists|who: nat| self.loses_one(who, next)
        ||| self.ages(next)
    }

    /// What holds throughout: a claimant that touches the lease file has the claim file
    /// locked, a claimant that has won has its own lease file there, and none has won
    /// while a lease file is about to be removed.
    spec fn is_orderly(self) -> bool {
        &&& forall|who: nat|
            match #[trigger] (self.phase)(who) {
                ClaimPhase::Lock => true,
                ClaimPhase::Inspect => self.lock == Some(who),
                ClaimPhase::Remove => self.lock == Some(who) && (self.lease matches Some(lease)
                    ==> lease.owner is None),
                ClaimPhase::Create => self.lock == Some(who),
                ClaimPhase::Ended(end) => end == ClaimEnd::Won ==> (self.lease matches Some(lease)
                    && lease.owner == Some(who)),
            }
        &&& self.lease matches Some(lease) ==> (lease.owner is Some ==> !lease.is_stale())
    }
}

proof fn lemma_orderly(now: Contest, next: Contest)
    requires
        now.is_orderly(),
        now.goes_to(next),
    ensures
        next.is_orderly(),
{
    if exists|who: nat, event: ClaimEvent| now.moves(who, event, next) {
        let (who, event) = choose|who: nat, event: ClaimEvent| now.moves(who, event, next);
        let phase = (now.phase)(who);
        assert((next.phase)(who) == claim_next(phase, event));
    } else if exists|who: nat| now.loses_one(who, next) {
        let who = choose|who: nat| now.loses_one(who, next);
        assert((now.phase)(who) != ClaimPhase::Ended(ClaimEnd::Won));
    } else {
        assert(now.ages(next));
    }
}

/// However many claimants contend for a lane, and in whatever order they get on, also
/// for one whose lease was left behind and is stale, at most one of them has it. Any of
/// them may fail or be killed on the way. What each does is what `claim_step` decides,
/// on a file system that locks a file for one at a time and creates a file once. Where
/// files cannot be locked, two claimants of a stale lease may both have the lane.
pub proof fn at_most_one_claimant_wins(history: Seq<Contest>, at: int, a: nat, b: nat)
    requires
        0 <= at < history.len(),
        history[0].is_start(),
        forall|i: int| 0 < i < history.len() ==> history[i - 1].goes_to(#[trigger] history[i]),
        history[at].has_won(a),
        history[at].has_won(b),
    ensures
        a == b,
{
    lemma_history(history, at);
    assert((history[at].phase)(a) == ClaimPhase::Ended(ClaimEnd::Won));
    assert((history[at].phase)(b) == ClaimPhase::Ended(ClaimEnd::Won));
}

proof fn lemma_history(history: Seq<Contest>, at: int)
    requires
        0 <= at < history.len(),
        history[0].is_start(),
        forall|i: int| 0 < i < history.len() ==> history[i - 1].goes_to(#[trigger] history[i]),
    ensures
        history[at].is_orderly(),
    decreases at,
{
    if at > 0 {
        lemma_history(history, at - 1);
        lemma_orderly(history[at - 1], history[at]);
    }
}

/// How a claim ends with which nobody interferes and nothing goes wrong, given the lease
/// file that it finds, if there is one, by its age.
pub open spec fn lone_claim(exists: bool, age: Option<u128>) -> ClaimPhase {
    let inspected = claim_next(
        claim_next(ClaimPhase::Lock, ClaimEvent::Locked),
        ClaimEvent::Seen(exists, age),
    );
    let cleared = if inspected == ClaimPhase::Remove {
        claim_next(inspected, ClaimEvent::Removed)
    } else {
        inspected
    };
    claim_next(cleared, ClaimEvent::Created)
}

/// A lane is had by one at a time, and had again after. Once a claim has taken a lane,
/// every claim on it while the lease is kept alive is refused. Once the lease file is
/// gone a claim takes the lane again, with the same directories, none of which the
/// lease file is or lies in.
pub proof fn lanes_are_exclusive_and_reused(
    lanes_dir: PathView,
    name: Seq<char>,
    first: LaneLease,
    second: LaneLease,
    age: Option<u128>,
)
    requires
        first.is_lane_of(lanes_dir, name),
        second.is_lane_of(lanes_dir, name),
        age matches Some(age) ==> !is_stale_age(age as nat),
    ensures
        lone_claim(false, None) == ClaimPhase::Ended(ClaimEnd::Won),
        claim_result(first, ClaimEnd::Won) == Ok::<Option<LaneLease>, String>(Some(first)),
        lone_claim(true, age) == ClaimPhase::Ended(ClaimEnd::Lost),
        claim_result(second, ClaimEnd::Lost) == Ok::<Option<LaneLease>, String>(None),
        claim_result(second, ClaimEnd::Won) == Ok::<Option<LaneLease>, String>(Some(second)),
        second.build_dir@ == first.build_dir@,
        second.target_dir@ == first.target_dir@,
        second.readonly_home_dir@ == first.readonly_home_dir@,
        second.online_home_dir@ == first.online_home_dir@,
        first.lease_file@.is_apart_from(first.build_dir@),
        first.lease_file@.is_apart_from(first.target_dir@),
        first.lease_file@.is_apart_from(first.readonly_home_dir@),
        first.lease_file@.is_apart_from(first.online_home_dir@),
{
    reveal_strlit("lease");
    reveal_strlit("build");
    reveal_strlit("target");
    reveal_strlit("cargo-home-readonly");
    reveal_strlit("cargo-home-online");
    assert("lease"@[0] == 'l' && "build"@[0] == 'b' && "target"@[0] == 't'
        && "cargo-home-readonly"@[0] == 'c' && "cargo-home-online"@[0] == 'c');
    let at = lanes_dir.parts.len() as int + 1;
    paths_that_part_lie_apart(first.lease_file@, first.build_dir@, at);
    paths_that_part_lie_apart(first.lease_file@, first.target_dir@, at);
    paths_that_part_lie_apart(first.lease_file@, first.readonly_home_dir@, at);
    paths_that_part_lie_apart(first.lease_file@, first.online_home_dir@, at);
}

/// A claim on a lane whose lease is stale takes it, if nobody interferes.
pub proof fn stale_lanes_are_taken_over(age: u128)
    requires
        is_stale_age(age as nat),
    ensures
        lone_claim(true, Some(age)) == ClaimPhase::Ended(ClaimEnd::Won),
{
}

/// What leads a claim on and what ends it. A claim goes on from a lock that is had, or
/// that cannot be had on this file system, by what is seen of the lease file, by its
/// removal, and wins by creating it. A claim file that is busy and a lease file that is
/// there already lose it, whatever went wrong is reported as it is, and what has ended
/// stays so.
pub proof fn claims_go_on_step_by_step(
    phase: ClaimPhase,
    event: ClaimEvent,
    end: ClaimEnd,
    message: String,
    exists: bool,
    age: Option<u128>,
    lane: LaneLease,
)
    ensures
        claim_next(ClaimPhase::Lock, ClaimEvent::Locked) == ClaimPhase::Inspect,
        claim_next(ClaimPhase::Lock, ClaimEvent::Unlockable) == ClaimPhase::Inspect,
        claim_next(ClaimPhase::Lock, ClaimEvent::Busy) == ClaimPhase::Ended(ClaimEnd::Lost),
        claim_next(ClaimPhase::Inspect, ClaimEvent::Seen(false, age)) == ClaimPhase::Create,
        claim_next(ClaimPhase::Inspect, ClaimEvent::Seen(true, age)) == (if age matches Some(
            nanos,
        ) && nanos > 43_200_000_000_000 {
            ClaimPhase::Remove
        } else {
            ClaimPhase::Ended(ClaimEnd::Lost)
        }),
        claim_next(ClaimPhase::Remove, ClaimEvent::Removed) == ClaimPhase::Create,
        claim_next(ClaimPhase::Create, ClaimEvent::AlreadyExists) == ClaimPhase::Ended(
            ClaimEnd::Lost,
        ),
        claim_next(phase, event) == ClaimPhase::Ended(ClaimEnd::Won) <==> (phase
            == ClaimPhase::Create && event == ClaimEvent::Created) || phase == ClaimPhase::Ended(
            ClaimEnd::Won,
        ),
        !(phase is Ended) ==> claim_next(phase, ClaimEvent::Failed(message)) == ClaimPhase::Ended(
            ClaimEnd::Failed(message),
        ),
        claim_next(ClaimPhase::Ended(end), event) == ClaimPhase::Ended(end),
        claim_result(lane, ClaimEnd::Won) == Ok::<Option<LaneLease>, String>(Some(lane)),
        claim_result(lane, ClaimEnd::Lost) == Ok::<Option<LaneLease>, String>(None),
        claim_result(lane, ClaimEnd::Failed(message)) == Err::<Option<LaneLease>, String>(message),
{
}

} // verus!

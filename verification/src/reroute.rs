//! The order of attempts: how each Cargo run is followed by an exit, by a failure
//! or by another run.

use crate::lane::LaneLease;
use crate::lock::{lock_name, reported_lock, LockKind};
use crate::overlay::{
    copied_files, lemma_steps, overlay_plan, prepare_overlay_home, step_views, OverlayMode,
    OverlayStep, OverlayStepView,
};
use crate::path::{entries_lie_one_name_further, PathView};
use crate::plan::{
    build_lane_plan, online_overlay_plan, readonly_overlay_plan, shared_plan, ExecPlan, PlanView,
};
use crate::settings::Settings;
use crate::text::{contained_texts_can_be_cut_out, contains};
use crate::watch::{
    elapsed, first_of, first_report_decides, given_up_for, is_offline_miss,
    stderr_looks_like_offline_miss, RunOutcome, NANOS_PER_MILLI,
};
use crate::workspace::WorkspacePaths;
use vstd::prelude::*;
use vstd::string::StringExecFns;

verus! {

/// One attempt to run Cargo.
#[derive(Copy, Clone, Debug, PartialEq, Eq, Structural)]
pub enum Stage {
    /// On what all runs in the workspace share.
    Shared,
    /// With a build directory in a lane.
    BuildLane,
    /// On an overlay home without network.
    ReadonlyOverlay,
    /// On an overlay home with network.
    OnlineOverlay,
}

/// What follows a run.
#[derive(Debug, PartialEq, Eq)]
pub enum Step {
    /// The exit code is handed on.
    Exit(i32),
    /// A lane is needed to get around that lock.
    AcquireLane(LockKind),
    /// The next attempt follows, after a message, if there is one.
    Rerun(Stage, Option<String>),
    /// There is no attempt left.
    Fail(String),
}

/// What a `Step` holds.
#[verifier::ext_equal]
pub enum StepView {
    Exit(i32),
    AcquireLane(LockKind),
    Rerun(Stage, Option<Seq<char>>),
    Fail(Seq<char>),
}

impl View for Step {
    type V = StepView;

    open spec fn view(&self) -> StepView {
        match self {
            Step::Exit(code) => StepView::Exit(*code),
            Step::AcquireLane(kind) => StepView::AcquireLane(*kind),
            Step::Rerun(stage, notice) => StepView::Rerun(
                *stage,
                match notice {
                    Some(text) => Some(text@),
                    None => None,
                },
            ),
            Step::Fail(message) => StepView::Fail(message@),
        }
    }
}

/// The attempt that gets around a lock.
pub open spec fn lane_stage(kind: LockKind) -> Stage {
    if kind == LockKind::BuildDirectory {
        Stage::BuildLane
    } else {
        Stage::ReadonlyOverlay
    }
}

/// What follows the run on shared directories.
pub open spec fn after_shared(outcome: RunOutcome) -> StepView {
    match outcome {
        RunOutcome::Completed(code, _) => StepView::Exit(code),
        RunOutcome::Lock(kind) => StepView::AcquireLane(kind),
    }
}

/// What follows the run with a build directory in the lane of that name.
pub open spec fn after_build_lane(outcome: RunOutcome, lane: Seq<char>) -> StepView {
    match outcome {
        RunOutcome::Completed(code, _) => StepView::Exit(code),
        RunOutcome::Lock(kind) => if kind != LockKind::BuildDirectory {
            StepView::Rerun(Stage::ReadonlyOverlay, None)
        } else {
            StepView::Fail(
                "lock persisted on "@ + lock_name(kind) + " even after moving to build lane `"@
                    + lane + "`"@,
            )
        },
    }
}

/// What follows the run on an overlay home without network.
pub open spec fn after_readonly_overlay(outcome: RunOutcome) -> StepView {
    match outcome {
        RunOutcome::Completed(code, stderr) => if code != 0 && is_offline_miss(stderr@) {
            StepView::Rerun(
                Stage::OnlineOverlay,
                Some(
                    "cargo-sidestep: readonly overlay missed the warm cache; retrying with an isolated online Cargo home"@,
                ),
            )
        } else {
            StepView::Exit(code)
        },
        RunOutcome::Lock(kind) => StepView::Rerun(
            Stage::OnlineOverlay,
            Some(
                "cargo-sidestep: readonly overlay still saw "@ + lock_name(kind)
                    + "; escalating to fully isolated Cargo home"@,
            ),
        ),
    }
}

/// What follows the run on an overlay home with network.
pub open spec fn after_online_overlay(outcome: RunOutcome) -> StepView {
    match outcome {
        RunOutcome::Completed(code, _) => StepView::Exit(code),
        RunOutcome::Lock(kind) => StepView::Fail(
            "fully isolated retry still encountered a lock on "@ + lock_name(kind),
        ),
    }
}

/// What follows a run, in the lane of that name where there is one.
pub open spec fn step_after(stage: Stage, outcome: RunOutcome, lane: Seq<char>) -> StepView {
    match stage {
        Stage::Shared => after_shared(outcome),
        Stage::BuildLane => after_build_lane(outcome, lane),
        Stage::ReadonlyOverlay => after_readonly_overlay(outcome),
        Stage::OnlineOverlay => after_online_overlay(outcome),
    }
}

/// Decides what follows the run on shared directories.
pub fn run_shared(outcome: &RunOutcome) -> (step: Step)
    ensures
        step@ == after_shared(*outcome),
{
    match outcome {
        RunOutcome::Completed(code, _) => Step::Exit(*code),
        RunOutcome::Lock(kind) => Step::AcquireLane(*kind),
    }
}

/// Decides what follows the run with a build directory in a lane.
pub fn rerun_from_build_lock(outcome: &RunOutcome, lane: &str) -> (step: Step)
    ensures
        step@ == after_build_lane(*outcome, lane@),
{
    match outcome {
        RunOutcome::Completed(code, _) => Step::Exit(*code),
        RunOutcome::Lock(kind) => {
            if kind.is_home_lock() {
                Step::Rerun(Stage::ReadonlyOverlay, None)
            } else {
                Step::Fail(
                    "lock persisted on ".to_owned().concat(kind.describe()).concat(
                        " even after moving to build lane `",
                    ).concat(lane).concat("`"),
                )
            }
        },
    }
}

/// Decides what follows the run on an overlay home without network.
pub fn rerun_from_home_lock(outcome: &RunOutcome) -> (step: Step)
    ensures
        step@ == after_readonly_overlay(*outcome),
{
    match outcome {
        RunOutcome::Completed(code, stderr) => {
            if *code != 0 && stderr_looks_like_offline_miss(stderr.as_str()) {
                Step::Rerun(
                    Stage::OnlineOverlay,
                    Some(
                        "cargo-sidestep: readonly overlay missed the warm cache; retrying with an isolated online Cargo home".to_owned(),
                    ),
                )
            } else {
                Step::Exit(*code)
            }
        },
        RunOutcome::Lock(kind) => Step::Rerun(
            Stage::OnlineOverlay,
            Some(
                "cargo-sidestep: readonly overlay still saw ".to_owned().concat(
                    kind.describe(),
                ).concat("; escalating to fully isolated Cargo home"),
            ),
        ),
    }
}

/// Decides what follows the run on an overlay home with network.
pub fn rerun_online_overlay(outcome: &RunOutcome) -> (step: Step)
    ensures
        step@ == after_online_overlay(*outcome),
{
    match outcome {
        RunOutcome::Completed(code, _) => Step::Exit(*code),
        RunOutcome::Lock(kind) => Step::Fail(
            "fully isolated retry still encountered a lock on ".to_owned().concat(
                kind.describe(),
            ),
        ),
    }
}

/// The name of a lane, where there is one.
pub open spec fn name_of(lane: Option<LaneLease>) -> Seq<char> {
    match lane {
        Some(lane) => lane.name@,
        None => Seq::empty(),
    }
}

/// The attempt that is under way once a run has come out. Where none follows, or a lane
/// is needed first, it stays the same.
pub open spec fn stage_after(stage: Stage, outcome: RunOutcome, lane: Seq<char>) -> Stage {
    match step_after(stage, outcome, lane) {
        StepView::Rerun(next, _) => next,
        _ => stage,
    }
}

/// A session moves on to another attempt exactly where a lock or a miss in the cache asks
/// for one in the lane that it has, and never back: from the build lane to the attempt
/// without network, and from that to the one with network.
pub proof fn sessions_move_on(stage: Stage, outcome: RunOutcome, lane: Seq<char>)
    ensures
        stage_after(Stage::Shared, outcome, lane) == Stage::Shared,
        stage_after(Stage::BuildLane, outcome, lane) == (match outcome {
            RunOutcome::Lock(kind) => if kind == LockKind::BuildDirectory {
                Stage::BuildLane
            } else {
                Stage::ReadonlyOverlay
            },
            RunOutcome::Completed(_, _) => Stage::BuildLane,
        }),
        stage_after(Stage::ReadonlyOverlay, outcome, lane) == Stage::OnlineOverlay <==> (
        match outcome {
            RunOutcome::Lock(_) => true,
            RunOutcome::Completed(code, stderr) => code != 0 && is_offline_miss(stderr@),
        }),
        stage_after(Stage::ReadonlyOverlay, outcome, lane) == Stage::OnlineOverlay || stage_after(
            Stage::ReadonlyOverlay,
            outcome,
            lane,
        ) == Stage::ReadonlyOverlay,
        stage_after(Stage::OnlineOverlay, outcome, lane) == Stage::OnlineOverlay,
        rank(stage) <= rank(stage_after(stage, outcome, lane)),
{
}

/// The message that a lane is used.
pub open spec fn lane_notice(kind: LockKind, lane: Seq<char>) -> Seq<char> {
    "cargo-sidestep: observed Cargo lock on "@ + lock_name(kind) + "; retrying in lane `"@ + lane
        + "`"@
}

/// The attempts of one command.
#[derive(Debug)]
pub struct Session {
    stage: Stage,
    lane: Option<LaneLease>,
}

impl Session {
    #[verifier::type_invariant]
    spec fn has_lane_when_needed(self) -> bool {
        self.stage == Stage::Shared <==> self.lane is None
    }

    /// The attempt that is under way.
    pub closed spec fn stage(self) -> Stage {
        self.stage
    }

    /// The lane that is used, once there is one.
    pub closed spec fn lane(self) -> Option<LaneLease> {
        self.lane
    }

    /// Starts with the shared directories.
    pub fn new() -> (session: Session)
        ensures
            session.stage() == Stage::Shared,
            session.lane() is None,
    {
        Session { stage: Stage::Shared, lane: None }
    }

    /// The plan for the attempt that is under way.
    pub open spec fn plan_view(
        self,
        settings: Settings,
        paths: WorkspacePaths,
        supports_build_dir: bool,
    ) -> PlanView {
        let lane = self.lane()->0;
        match self.stage() {
            Stage::Shared => shared_plan(settings, paths, supports_build_dir),
            Stage::BuildLane => build_lane_plan(settings, paths, lane, supports_build_dir),
            Stage::ReadonlyOverlay => readonly_overlay_plan(
                paths,
                lane,
                lane.readonly_home_dir@,
                supports_build_dir,
            ),
            Stage::OnlineOverlay => online_overlay_plan(
                lane,
                lane.online_home_dir@,
                supports_build_dir,
            ),
        }
    }

    /// Makes the plan for the attempt that is under way.
    pub fn plan(&self, settings: &Settings, paths: &WorkspacePaths, supports_build_dir: bool) -> (
        plan: ExecPlan)
        ensures
            plan@ == self.plan_view(*settings, *paths, supports_build_dir),
    {
        proof {
            use_type_invariant(self);
        }
        match &self.lane {
            Some(lane) => match self.stage {
                Stage::BuildLane => ExecPlan::build_lane(settings, paths, lane, supports_build_dir),
                Stage::ReadonlyOverlay => ExecPlan::readonly_overlay(
                    paths,
                    lane,
                    &lane.readonly_home_dir,
                    supports_build_dir,
                ),
                _ => ExecPlan::online_overlay(lane, &lane.online_home_dir, supports_build_dir),
            },
            None => ExecPlan::shared(settings, paths, supports_build_dir),
        }
    }

    /// The steps that have to be taken before the attempt that is under way.
    pub open spec fn preparation_view(self, settings: Settings) -> Seq<OverlayStepView> {
        let lane = self.lane()->0;
        let base = settings.base_cargo_home@;
        match self.stage() {
            Stage::Shared => Seq::empty(),
            Stage::BuildLane => Seq::empty(),
            Stage::ReadonlyOverlay => overlay_plan(
                base,
                lane.readonly_home_dir@,
                OverlayMode::ReadonlyOffline,
            ),
            Stage::OnlineOverlay => overlay_plan(
                base,
                lane.online_home_dir@,
                OverlayMode::IsolatedOnline,
            ),
        }
    }

    /// Lays out the steps that have to be taken before the attempt that is under way.
    pub fn preparation(&self, settings: &Settings) -> (steps: Vec<OverlayStep>)
        ensures
            step_views(steps@) == self.preparation_view(*settings),
    {
        proof {
            use_type_invariant(self);
        }
        if let Some(lane) = &self.lane {
            if let Stage::ReadonlyOverlay = self.stage {
                return prepare_overlay_home(
                    &settings.base_cargo_home,
                    &lane.readonly_home_dir,
                    OverlayMode::ReadonlyOffline,
                );
            }
            if let Stage::OnlineOverlay = self.stage {
                return prepare_overlay_home(
                    &settings.base_cargo_home,
                    &lane.online_home_dir,
                    OverlayMode::IsolatedOnline,
                );
            }
        }
        let none: Vec<OverlayStep> = Vec::new();
        assert(step_views(none@) =~= Seq::empty());
        none
    }

    /// Takes how a run came out, and moves on to the next attempt if one follows.
    pub fn finish_run(&mut self, outcome: &RunOutcome) -> (step: Step)
        ensures
            step@ == step_after(old(self).stage(), *outcome, name_of(old(self).lane())),
            final(self).lane() == old(self).lane(),
            final(self).stage() == (match step@ {
                StepView::Rerun(stage, _) => stage,
                _ => old(self).stage(),
            }),
            final(self).stage() == stage_after(
                old(self).stage(),
                *outcome,
                name_of(old(self).lane()),
            ),
    {
        proof {
            use_type_invariant(&*self);
        }
        let step = match &self.lane {
            Some(lane) => match self.stage {
                Stage::BuildLane => rerun_from_build_lock(outcome, lane.name.as_str()),
                Stage::ReadonlyOverlay => rerun_from_home_lock(outcome),
                _ => rerun_online_overlay(outcome),
            },
            None => run_shared(outcome),
        };
        if let Step::Rerun(stage, _) = &step {
            self.stage = *stage;
        }
        step
    }

    /// Moves into the lane that was acquired to get around a lock, and words the
    /// message that says so.
    pub fn enter_lane(&mut self, kind: LockKind, lane: LaneLease) -> (notice: String)
        ensures
            final(self).stage() == lane_stage(kind),
            final(self).lane() == Some(lane),
            notice@ == lane_notice(kind, lane.name@),
    {
        let notice = "cargo-sidestep: observed Cargo lock on ".to_owned().concat(
            kind.describe(),
        ).concat("; retrying in lane `").concat(lane.name.as_str()).concat("`");
        let stage = if kind.is_home_lock() {
            Stage::ReadonlyOverlay
        } else {
            Stage::BuildLane
        };
        *self = Session { stage, lane: Some(lane) };
        notice
    }
}

/// The attempt that follows a run, if one follows. A lane that is needed is taken
/// to be had.
pub open spec fn next_stage(stage: Stage, outcome: RunOutcome, lane: Seq<char>) -> Option<Stage> {
    match step_after(stage, outcome, lane) {
        StepView::AcquireLane(kind) => Some(lane_stage(kind)),
        StepView::Rerun(next, _) => Some(next),
        StepView::Exit(_) => None,
        StepView::Fail(_) => None,
    }
}

/// How far a stage is from the first.
pub open spec fn rank(stage: Stage) -> int {
    match stage {
        Stage::Shared => 0,
        Stage::BuildLane => 1,
        Stage::ReadonlyOverlay => 2,
        Stage::OnlineOverlay => 3,
    }
}

/// The attempts from `stage` on, where `outcomes` says how a run at each stage comes
/// out.
pub open spec fn attempts(
    stage: Stage,
    outcomes: spec_fn(Stage) -> RunOutcome,
    lane: Seq<char>,
) -> Seq<Stage>
    decreases 3 - rank(stage),
{
    match next_stage(stage, outcomes(stage), lane) {
        Some(next) => seq![stage] + attempts(next, outcomes, lane),
        None => seq![stage],
    }
}

/// What the attempts from `stage` on come to: an exit code, or a message.
pub open spec fn verdict(
    stage: Stage,
    outcomes: spec_fn(Stage) -> RunOutcome,
    lane: Seq<char>,
) -> Result<i32, Seq<char>>
    decreases 3 - rank(stage),
{
    match step_after(stage, outcomes(stage), lane) {
        StepView::Exit(code) => Ok(code),
        StepView::Fail(message) => Err(message),
        StepView::AcquireLane(kind) => verdict(lane_stage(kind), outcomes, lane),
        StepView::Rerun(next, _) => verdict(next, outcomes, lane),
    }
}

/// A command comes to an end after four runs at most, and makes no attempt twice:
/// each attempt is further from the first than the one before.
pub proof fn attempts_go_forward(outcomes: spec_fn(Stage) -> RunOutcome, lane: Seq<char>)
    ensures
        1 <= attempts(Stage::Shared, outcomes, lane).len() <= 4,
        attempts(Stage::Shared, outcomes, lane)[0] == Stage::Shared,
        forall|i: int, j: int|
            0 <= i < j < attempts(Stage::Shared, outcomes, lane).len() ==> rank(
                #[trigger] attempts(Stage::Shared, outcomes, lane)[i],
            ) < rank(#[trigger] attempts(Stage::Shared, outcomes, lane)[j]),
{
    lemma_attempts(Stage::Shared, outcomes, lane);
}

proof fn lemma_attempts(stage: Stage, outcomes: spec_fn(Stage) -> RunOutcome, lane: Seq<char>)
    ensures
        1 <= attempts(stage, outcomes, lane).len() <= 4 - rank(stage),
        attempts(stage, outcomes, lane)[0] == stage,
        forall|i: int, j: int|
            0 <= i < j < attempts(stage, outcomes, lane).len() ==> rank(
                #[trigger] attempts(stage, outcomes, lane)[i],
            ) < rank(#[trigger] attempts(stage, outcomes, lane)[j]),
    decreases 3 - rank(stage),
{
    if let Some(next) = next_stage(stage, outcomes(stage), lane) {
        lemma_attempts(next, outcomes, lane);
        let rest = attempts(next, outcomes, lane);
        let all = attempts(stage, outcomes, lane);
        assert(forall|i: int| 0 < i < all.len() ==> #[trigger] all[i] == rest[i - 1]);
        assert forall|i: int, j: int| 0 <= i < j < all.len() implies rank(#[trigger] all[i])
            < rank(#[trigger] all[j]) by {
            assert(rank(rest[0]) <= rank(rest[j - 1]));
            if i > 0 {
                assert(rank(rest[i - 1]) < rank(rest[j - 1]));
            }
        }
    }
}

/// An exit code that is handed on is the one that the last run ended with.
pub proof fn last_run_gives_the_exit_code(outcomes: spec_fn(Stage) -> RunOutcome, lane: Seq<char>)
    ensures
        verdict(Stage::Shared, outcomes, lane) matches Ok(code) ==> (outcomes(
            attempts(Stage::Shared, outcomes, lane).last(),
        ) matches RunOutcome::Completed(last, _) && last == code),
{
    lemma_last_run(Stage::Shared, outcomes, lane);
}

proof fn lemma_last_run(stage: Stage, outcomes: spec_fn(Stage) -> RunOutcome, lane: Seq<char>)
    ensures
        verdict(stage, outcomes, lane) matches Ok(code) ==> (outcomes(
            attempts(stage, outcomes, lane).last(),
        ) matches RunOutcome::Completed(last, _) && last == code),
    decreases 3 - rank(stage),
{
    if let Some(next) = next_stage(stage, outcomes(stage), lane) {
        lemma_last_run(next, outcomes, lane);
        lemma_attempts(next, outcomes, lane);
        let rest = attempts(next, outcomes, lane);
        assert((seq![stage] + rest).last() == rest.last());
    }
}

/// A command that meets no lock is run once, on the shared directories.
pub proof fn no_lock_means_one_run(outcomes: spec_fn(Stage) -> RunOutcome, lane: Seq<char>)
    requires
        outcomes(Stage::Shared) is Completed,
    ensures
        attempts(Stage::Shared, outcomes, lane) == seq![Stage::Shared],
        verdict(Stage::Shared, outcomes, lane) == Ok::<i32, Seq<char>>(
            outcomes(Stage::Shared)->Completed_0,
        ),
{
}

/// What the lines of error output report, line by line, with the time at which each
/// came.
pub open spec fn reports_in(lines: Seq<(Seq<char>, u128)>) -> Seq<(Option<LockKind>, u128)> {
    lines.map_values(|line: (Seq<char>, u128)| (reported_lock(line.0), line.1))
}

/// A command whose first run reports a lock is not left waiting behind it. Once the
/// patience has passed since the first line that reports one, the run is given up for
/// the lock in that line, and the next attempt is the one that gets around it.
pub proof fn reported_locks_are_sidestepped(
    lines: Seq<(Seq<char>, u128)>,
    at: int,
    now: u128,
    patience_ms: u64,
    lane: Seq<char>,
)
    requires
        0 <= at < lines.len(),
        reported_lock(lines[at].0) is Some,
        forall|i: int| 0 <= i < at ==> reported_lock((#[trigger] lines[i]).0) is None,
        elapsed(lines[at].1, now) >= patience_ms * NANOS_PER_MILLI,
    ensures
        given_up_for(first_of(reports_in(lines)), now, patience_ms) == reported_lock(lines[at].0),
        next_stage(Stage::Shared, RunOutcome::Lock(reported_lock(lines[at].0)->0), lane) == Some(
            lane_stage(reported_lock(lines[at].0)->0),
        ),
{
    let reports = reports_in(lines);
    assert forall|i: int| 0 <= i < at implies (#[trigger] reports[i]).0 is None by {
        assert(reports[i].0 == reported_lock(lines[i].0));
    }
    first_report_decides(reports, at, now, patience_ms);
}

/// A lock on the build directory is met with a retry in a build lane. The retry on an
/// overlay home follows exactly if that one meets a lock in Cargo's home.
pub proof fn build_lock_leads_to_a_build_lane(
    outcomes: spec_fn(Stage) -> RunOutcome,
    lane: Seq<char>,
)
    requires
        outcomes(Stage::Shared) == RunOutcome::Lock(LockKind::BuildDirectory),
    ensures
        attempts(Stage::Shared, outcomes, lane).len() >= 2,
        attempts(Stage::Shared, outcomes, lane)[1] == Stage::BuildLane,
        attempts(Stage::Shared, outcomes, lane).len() > 2 <==> (outcomes(Stage::BuildLane) matches
            RunOutcome::Lock(kind) && kind != LockKind::BuildDirectory),
        attempts(Stage::Shared, outcomes, lane).len() > 2 ==> attempts(
            Stage::Shared,
            outcomes,
            lane,
        )[2] == Stage::ReadonlyOverlay,
{
    lemma_attempts(Stage::BuildLane, outcomes, lane);
    lemma_attempts(Stage::ReadonlyOverlay, outcomes, lane);
}

/// A lock in Cargo's home is met with a retry without network. The retry with
/// network follows exactly if that one meets a lock too, or fails and lacks
/// something in the cache. The last of these runs decides what the command comes to.
pub proof fn home_lock_leads_to_overlays(
    outcomes: spec_fn(Stage) -> RunOutcome,
    lane: Seq<char>,
    kind: LockKind,
)
    requires
        outcomes(Stage::Shared) == RunOutcome::Lock(kind),
        kind != LockKind::BuildDirectory,
    ensures
        attempts(Stage::Shared, outcomes, lane) == (match outcomes(Stage::ReadonlyOverlay) {
            RunOutcome::Completed(code, stderr) => if code != 0 && is_offline_miss(stderr@) {
                seq![Stage::Shared, Stage::ReadonlyOverlay, Stage::OnlineOverlay]
            } else {
                seq![Stage::Shared, Stage::ReadonlyOverlay]
            },
            RunOutcome::Lock(_) => seq![
                Stage::Shared,
                Stage::ReadonlyOverlay,
                Stage::OnlineOverlay,
            ],
        }),
        verdict(Stage::Shared, outcomes, lane) == (match outcomes(
            attempts(Stage::Shared, outcomes, lane).last(),
        ) {
            RunOutcome::Completed(code, _) => Ok::<i32, Seq<char>>(code),
            RunOutcome::Lock(last) => Err::<i32, Seq<char>>(
                "fully isolated retry still encountered a lock on "@ + lock_name(last),
            ),
        }),
{
    reveal_with_fuel(attempts, 4);
    reveal_with_fuel(verdict, 4);
}

/// A command fails without an exit code only if a lock persists where it cannot be
/// got around: on the build directory in a build lane, or at all in full isolation.
pub proof fn only_persistent_locks_fail(outcomes: spec_fn(Stage) -> RunOutcome, lane: Seq<char>)
    ensures
        verdict(Stage::Shared, outcomes, lane) is Err <==> {
            let last = attempts(Stage::Shared, outcomes, lane).last();
            ||| last == Stage::BuildLane && outcomes(last) == RunOutcome::Lock(
                LockKind::BuildDirectory,
            )
            ||| last == Stage::OnlineOverlay && outcomes(last) is Lock
        },
{
    lemma_failure(Stage::Shared, outcomes, lane);
}

proof fn lemma_failure(stage: Stage, outcomes: spec_fn(Stage) -> RunOutcome, lane: Seq<char>)
    ensures
        verdict(stage, outcomes, lane) is Err <==> {
            let last = attempts(stage, outcomes, lane).last();
            ||| last == Stage::BuildLane && outcomes(last) == RunOutcome::Lock(
                LockKind::BuildDirectory,
            )
            ||| last == Stage::OnlineOverlay && outcomes(last) is Lock
        },
    decreases 3 - rank(stage),
{
    if let Some(next) = next_stage(stage, outcomes(stage), lane) {
        lemma_failure(next, outcomes, lane);
        lemma_attempts(next, outcomes, lane);
        let rest = attempts(next, outcomes, lane);
        assert((seq![stage] + rest).last() == rest.last());
    }
}

/// Each attempt runs on the home that it is prepared for. An overlay attempt runs on the
/// home in its lane that its own preparation builds, and so not on Cargo's own home,
/// unless that lies in the lane. The first attempt and the one in a build lane run on
/// Cargo's own home, and nothing is prepared.
pub proof fn attempts_run_on_the_home_that_is_prepared(
    session: Session,
    settings: Settings,
    paths: WorkspacePaths,
    lanes_dir: PathView,
    name: Seq<char>,
    supported: bool,
)
    requires
        session.stage() != Stage::Shared ==> session.lane() is Some,
        session.lane() matches Some(lane) ==> lane.is_lane_of(lanes_dir, name),
    ensures
        ({
            let plan = session.plan_view(settings, paths, supported);
            let steps = session.preparation_view(settings);
            let base = settings.base_cargo_home@;
            let root = lanes_dir.child(name);
            match session.stage() {
                Stage::ReadonlyOverlay => {
                    &&& plan.cargo_home == root.child("cargo-home-readonly"@)
                    &&& plan.cargo_home.is_under(root)
                    &&& !base.is_under(root) ==> plan.cargo_home != base
                    &&& steps == overlay_plan(base, plan.cargo_home, OverlayMode::ReadonlyOffline)
                    &&& steps.len() > 0 && steps[0] == OverlayStepView::MakeDir(plan.cargo_home)
                    &&& steps.last() == OverlayStepView::LinkOrMakeDir(
                        base.child("registry"@).child("cache"@),
                        plan.cargo_home.child("registry"@).child("cache"@),
                    )
                },
                Stage::OnlineOverlay => {
                    &&& plan.cargo_home == root.child("cargo-home-online"@)
                    &&& plan.cargo_home.is_under(root)
                    &&& !base.is_under(root) ==> plan.cargo_home != base
                    &&& steps == overlay_plan(base, plan.cargo_home, OverlayMode::IsolatedOnline)
                    &&& steps.len() > 0 && steps[0] == OverlayStepView::MakeDir(plan.cargo_home)
                    &&& steps.last() == OverlayStepView::MakeDir(
                        plan.cargo_home.child("registry"@).child("cache"@),
                    )
                },
                _ => plan.cargo_home == base && steps.len() == 0,
            }
        }),
{
    let root = lanes_dir.child(name);
    entries_lie_one_name_further(root, root, "cargo-home-readonly"@, name);
    entries_lie_one_name_further(root, root, "cargo-home-online"@, name);
}

/// What the preparation of an attempt takes from lies in Cargo's own home, and what it
/// makes lies in the home that the attempt runs on.
pub proof fn preparations_lead_from_home_to_home(
    session: Session,
    settings: Settings,
    paths: WorkspacePaths,
    supported: bool,
    at: int,
)
    requires
        0 <= at < session.preparation_view(settings).len(),
    ensures
        ({
            let home = session.plan_view(settings, paths, supported).cargo_home;
            let base = settings.base_cargo_home@;
            match session.preparation_view(settings)[at] {
                OverlayStepView::MakeDir(dir) => dir.is_under(home),
                OverlayStepView::CopyIfPresent(src, dst) => exists|file: Seq<char>|
                    src == base.child(file) && dst == #[trigger] home.child(file),
                OverlayStepView::LinkIfPresent(src, dst) => src == base.child("bin"@) && dst
                    == home.child("bin"@),
                OverlayStepView::LinkOrMakeDir(src, dst) => src == base.child("registry"@).child(
                    "cache"@,
                ) && dst == home.child("registry"@).child("cache"@),
            }
        }),
{
    let home = session.plan_view(settings, paths, supported).cargo_home;
    let base = settings.base_cargo_home@;
    let mode = if session.stage() == Stage::ReadonlyOverlay {
        OverlayMode::ReadonlyOffline
    } else {
        OverlayMode::IsolatedOnline
    };
    lemma_steps(base, home, mode, at);
    assert(session.preparation_view(settings) == overlay_plan(base, home, mode));
    if let OverlayStepView::MakeDir(dir) = overlay_plan(base, home, mode)[at] {
        if at >= 6 {
            let registry = home.child("registry"@);
            assert(dir == registry.child("cache"@));
            assert(home.parts =~= dir.parts.subrange(0, home.parts.len() as int));
        }
    }
    if let OverlayStepView::CopyIfPresent(src, dst) = overlay_plan(base, home, mode)[at] {
        assert(dst == home.child(copied_files()[at - 6]));
    }
}

/// Where each attempt builds. The first builds where all runs do. In a lane the
/// intermediates lie in the lane, where Cargo gives them a directory of their own, and the
/// outputs with those of all runs, but for the last attempt. Without such a directory
/// everything that an attempt in a lane builds lies in the lane. Only the readonly attempt
/// is offline.
pub proof fn attempts_build_in_their_places(
    session: Session,
    settings: Settings,
    paths: WorkspacePaths,
    lanes_dir: PathView,
    name: Seq<char>,
    supported: bool,
)
    requires
        session.stage() != Stage::Shared ==> session.lane() is Some,
        session.lane() matches Some(lane) ==> lane.is_lane_of(lanes_dir, name),
    ensures
        ({
            let plan = session.plan_view(settings, paths, supported);
            let root = lanes_dir.child(name);
            &&& plan.build_dir is Some <==> supported
            &&& plan.offline <==> session.stage() == Stage::ReadonlyOverlay
            &&& session.stage() == Stage::Shared ==> plan.target_dir == paths.shared_target_dir@
            &&& session.stage() == Stage::Shared && supported ==> plan.build_dir == Some(
                paths.shared_build_dir@,
            )
            &&& session.stage() != Stage::Shared && supported ==> plan.build_dir == Some(
                root.child("build"@),
            )
            &&& session.stage() != Stage::Shared && (!supported || session.stage()
                == Stage::OnlineOverlay) ==> plan.target_dir == root.child("target"@)
            &&& supported && session.stage() != Stage::OnlineOverlay ==> plan.target_dir
                == paths.shared_target_dir@
        }),
{
}

/// Each attempt is run under a label of its own.
pub proof fn labels_tell_attempts_apart(
    a: Session,
    b: Session,
    settings: Settings,
    paths: WorkspacePaths,
    supported: bool,
)
    ensures
        a.plan_view(settings, paths, supported).label == b.plan_view(
            settings,
            paths,
            supported,
        ).label <==> a.stage() == b.stage(),
        a.plan_view(settings, paths, supported).label == (match a.stage() {
            Stage::Shared => "shared"@,
            Stage::BuildLane => "build-lane"@,
            Stage::ReadonlyOverlay => "readonly-overlay"@,
            Stage::OnlineOverlay => "online-overlay"@,
        }),
{
    reveal_strlit("shared");
    reveal_strlit("build-lane");
    reveal_strlit("readonly-overlay");
    reveal_strlit("online-overlay");
    assert("shared"@.len() == 6 && "build-lane"@.len() == 10 && "readonly-overlay"@.len() == 16
        && "online-overlay"@.len() == 14);
}

/// What follows a run, attempt by attempt. A success ends the command wherever it comes,
/// and so does a failure, with its own exit code, but for one without network that lacks
/// something in the cache. A lock in the first attempt asks for a lane to get around that
/// very lock. A lock on the build directory is got around once, by a build lane, and one
/// in Cargo's home by the attempt without network, then by the one with network.
pub proof fn outcomes_lead_on(
    stage: Stage,
    code: i32,
    stderr: String,
    kind: LockKind,
    lane: Seq<char>,
)
    ensures
        step_after(stage, RunOutcome::Completed(0, stderr), lane) == StepView::Exit(0),
        stage != Stage::ReadonlyOverlay || !is_offline_miss(stderr@) ==> step_after(
            stage,
            RunOutcome::Completed(code, stderr),
            lane,
        ) == StepView::Exit(code),
        code != 0 && is_offline_miss(stderr@) ==> (step_after(
            Stage::ReadonlyOverlay,
            RunOutcome::Completed(code, stderr),
            lane,
        ) matches StepView::Rerun(next, _) && next == Stage::OnlineOverlay),
        step_after(Stage::Shared, RunOutcome::Lock(kind), lane) == StepView::AcquireLane(kind),
        kind != LockKind::BuildDirectory ==> (step_after(
            Stage::BuildLane,
            RunOutcome::Lock(kind),
            lane,
        ) matches StepView::Rerun(next, _) && next == Stage::ReadonlyOverlay),
        step_after(
            Stage::BuildLane,
            RunOutcome::Lock(LockKind::BuildDirectory),
            lane,
        ) is Fail,
        step_after(Stage::ReadonlyOverlay, RunOutcome::Lock(kind), lane) matches StepView::Rerun(
            next,
            _,
        ) && next == Stage::OnlineOverlay,
        step_after(Stage::OnlineOverlay, RunOutcome::Lock(kind), lane) is Fail,
        lane_stage(kind) == Stage::BuildLane <==> kind == LockKind::BuildDirectory,
        lane_stage(kind) == Stage::ReadonlyOverlay <==> kind != LockKind::BuildDirectory,
{
}

/// What is said about a lock names it, and what is said about a lane names that, each in
/// full.
pub proof fn messages_name_lock_and_lane(kind: LockKind, lane: Seq<char>, held: LaneLease)
    ensures
        contains(lane_notice(kind, lane), lock_name(kind)),
        contains(lane_notice(kind, lane), lane),
        step_after(
            Stage::BuildLane,
            RunOutcome::Lock(LockKind::BuildDirectory),
            lane,
        ) matches StepView::Fail(message) && contains(message, "the build directory"@) && contains(
            message,
            lane,
        ),
        step_after(Stage::OnlineOverlay, RunOutcome::Lock(kind), lane) matches StepView::Fail(
            message,
        ) && contains(message, lock_name(kind)),
        step_after(Stage::ReadonlyOverlay, RunOutcome::Lock(kind), lane) matches StepView::Rerun(
            _,
            Some(notice),
        ) && contains(notice, lock_name(kind)),
        name_of(Some(held)) == held.name@,
{
    let name = lock_name(kind);
    lemma_both_are_said(
        "cargo-sidestep: observed Cargo lock on "@,
        name,
        "; retrying in lane `"@,
        lane,
        "`"@,
    );
    lemma_both_are_said(
        "lock persisted on "@,
        "the build directory"@,
        " even after moving to build lane `"@,
        lane,
        "`"@,
    );
    let isolated = "fully isolated retry still encountered a lock on "@;
    let none = Seq::<char>::empty();
    contained_texts_can_be_cut_out(none, name, isolated, none);
    assert(isolated + name + none =~= isolated + name);
    contained_texts_can_be_cut_out(
        none,
        name,
        "cargo-sidestep: readonly overlay still saw "@,
        "; escalating to fully isolated Cargo home"@,
    );
}

proof fn lemma_both_are_said(
    a: Seq<char>,
    first: Seq<char>,
    b: Seq<char>,
    second: Seq<char>,
    c: Seq<char>,
)
    ensures
        contains(a + first + b + second + c, first),
        contains(a + first + b + second + c, second),
{
    let none = Seq::<char>::empty();
    contained_texts_can_be_cut_out(none, first, a, b + second + c);
    assert(a + first + (b + second + c) =~= a + first + b + second + c);
    contained_texts_can_be_cut_out(none, second, a + first + b, c);
}

} // verus!

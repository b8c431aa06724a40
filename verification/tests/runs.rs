use cargo_sidestep::claim::{claim_step, try_acquire_lane, ClaimEnd, ClaimEvent, ClaimPhase};
use cargo_sidestep::cli::{normalize_cli_args, requested, Request};
use cargo_sidestep::hash::stable_hash;
use cargo_sidestep::lane::{
    heartbeat_step, inspect_lease, lease_is_stale, lease_text, overflow_lane_name, slot_lane_name,
    unix_timestamp, HeartbeatEvent, HeartbeatStep, LaneLease, LaneSearch, LaneStep, LeaseStep,
};
use cargo_sidestep::lock::LockKind;
use cargo_sidestep::overlay::{
    copy_file_if_exists, ensure_symlink, prepare_overlay_home, replace_by_symlink, standing_of,
    FsAction, OverlayMode, OverlayStep, Standing,
};
use cargo_sidestep::path::{ManagedPath, OsText};
use cargo_sidestep::plan::{ExecPlan, VariableValue};
use cargo_sidestep::reroute::{Session, Stage, Step};
use cargo_sidestep::settings::{Environment, Settings};
use cargo_sidestep::watch::{
    exit_code, observe_line, LockWatch, RunEvent, RunOutcome, WatchStep, CAPTURE_LIMIT,
};
use cargo_sidestep::workspace::{WorkspaceIdentity, WorkspacePaths};

const MISS: &str = "error: failed to download because offline was specified";

fn shown(path: &ManagedPath) -> String {
    let mut shown = match path.base() {
        OsText::Unicode(base) => base.clone(),
        OsText::Opaque(_) => "?".to_string(),
    };
    for part in path.parts() {
        shown.push('/');
        shown.push_str(part);
    }
    shown
}

fn settings() -> Settings {
    Settings::from_env(&Environment {
        cargo_bin: None,
        cargo: None,
        cargo_home: Some(OsText::from_text("/base")),
        state_dir: Some(OsText::from_text("/state")),
        fallback_after_ms: Some(OsText::from_text("100")),
        lanes: Some(OsText::from_text("2")),
        xdg_cache_home: None,
        home: None,
        macos: false,
    })
}

fn paths() -> WorkspacePaths {
    let identity = WorkspaceIdentity::discover("/w".to_string(), None);
    WorkspacePaths::new(&settings(), &identity)
}

fn root() -> String {
    format!("/state/workspaces/{}", stable_hash("/w"))
}

fn lane() -> LaneLease {
    LaneLease::new(&paths(), "lane-0")
}

fn completed(code: i32, stderr: &str) -> RunOutcome {
    RunOutcome::Completed(code, stderr.to_string())
}

fn label(session: &Session) -> &'static str {
    session.plan(&settings(), &paths(), true).label
}

fn variable(plan: &ExecPlan, name: &str) -> Option<String> {
    let change = plan.variables().into_iter().find(|change| change.name == name).unwrap();
    change.value.map(|value| match value {
        VariableValue::Path(path) => shown(&path),
        VariableValue::Text(text) => text.to_string(),
    })
}

/// Runs a session on given outcomes, and gives the plans that it makes and its end.
fn drive(outcomes: Vec<RunOutcome>) -> (Vec<ExecPlan>, Step) {
    let mut session = Session::new();
    let mut plans = Vec::new();
    for outcome in &outcomes {
        plans.push(session.plan(&settings(), &paths(), true));
        match session.finish_run(outcome) {
            Step::AcquireLane(kind) => {
                session.enter_lane(kind, lane());
            }
            Step::Rerun(..) => {}
            end => return (plans, end),
        }
    }
    panic!("the session goes on after {} runs", plans.len());
}

#[test]
fn reroutes_package_cache_locks_into_online_overlay() {
    for second in [completed(101, MISS), RunOutcome::Lock(LockKind::PackageCache)] {
        let (plans, end) = drive(vec![
            RunOutcome::Lock(LockKind::PackageCache),
            second,
            completed(0, ""),
            completed(7, "one too many"),
        ]);
        assert_eq!(end, Step::Exit(0));
        assert_eq!(plans.len(), 3);
        let labels: Vec<&str> = plans.iter().map(|plan| plan.label).collect();
        assert_eq!(labels, vec!["shared", "readonly-overlay", "online-overlay"]);
        assert_eq!(
            variable(&plans[2], "CARGO_SIDESTEP_PLAN"),
            Some("online-overlay".to_string())
        );
        assert_eq!(
            variable(&plans[2], "CARGO_HOME"),
            Some(format!("{}/lanes/lane-0/cargo-home-online", root()))
        );
    }
}

#[test]
fn entering_a_lane_is_announced() {
    let mut session = Session::new();
    session.finish_run(&RunOutcome::Lock(LockKind::PackageCache));
    assert_eq!(
        session.enter_lane(LockKind::PackageCache, lane()),
        "cargo-sidestep: observed Cargo lock on the package cache; retrying in lane `lane-0`"
    );
}

#[test]
fn reroutes_build_directory_locks_into_a_lane() {
    let mut session = Session::new();
    assert_eq!(
        session.finish_run(&RunOutcome::Lock(LockKind::BuildDirectory)),
        Step::AcquireLane(LockKind::BuildDirectory)
    );
    assert_eq!(
        session.enter_lane(LockKind::BuildDirectory, lane()),
        "cargo-sidestep: observed Cargo lock on the build directory; retrying in lane `lane-0`"
    );
    let plan = session.plan(&settings(), &paths(), true);
    assert_eq!(
        variable(&plan, "CARGO_SIDESTEP_PLAN"),
        Some("build-lane".to_string())
    );
    assert_eq!(
        variable(&plan, "CARGO_BUILD_BUILD_DIR"),
        Some(format!("{}/lanes/lane-0/build", root()))
    );
    assert_eq!(
        variable(&plan, "CARGO_TARGET_DIR"),
        Some(format!("{}/target", root()))
    );
    assert!(session.preparation(&settings()).is_empty());
    assert_eq!(session.finish_run(&completed(3, MISS)), Step::Exit(3));
}

#[test]
fn strips_plugin_prefix_when_invoked_as_cargo_subcommand() {
    let args = normalize_cli_args(vec![
        OsText::from_text("sidestep"),
        OsText::from_text("check"),
    ]);
    assert_eq!(requested(&args), Request::Cargo);
    assert_eq!(args[0], OsText::from_text("check"));
    assert!(!args.contains(&OsText::from_text("sidestep")));
    assert_eq!(Session::new().finish_run(&completed(0, "")), Step::Exit(0));
}

#[test]
fn a_run_without_a_lock_is_the_only_one() {
    let mut session = Session::new();
    assert!(session.preparation(&settings()).is_empty());
    assert_eq!(session.finish_run(&completed(101, MISS)), Step::Exit(101));
}

#[test]
fn a_build_lane_can_lead_on_to_the_overlays() {
    let mut session = Session::new();
    session.finish_run(&RunOutcome::Lock(LockKind::BuildDirectory));
    session.enter_lane(LockKind::BuildDirectory, lane());
    assert_eq!(
        session.finish_run(&RunOutcome::Lock(LockKind::GitDb)),
        Step::Rerun(Stage::ReadonlyOverlay, None)
    );
    assert_eq!(
        session.finish_run(&RunOutcome::Lock(LockKind::RegistryIndex)),
        Step::Rerun(
            Stage::OnlineOverlay,
            Some(
                "cargo-sidestep: readonly overlay still saw the registry index; escalating to fully isolated Cargo home"
                    .to_string()
            )
        )
    );
    assert_eq!(
        session.finish_run(&RunOutcome::Lock(LockKind::Other)),
        Step::Fail(
            "fully isolated retry still encountered a lock on a shared Cargo path".to_string()
        )
    );
}

#[test]
fn a_lock_that_persists_in_a_build_lane_fails() {
    let mut session = Session::new();
    session.finish_run(&RunOutcome::Lock(LockKind::BuildDirectory));
    session.enter_lane(LockKind::BuildDirectory, lane());
    assert_eq!(
        session.finish_run(&RunOutcome::Lock(LockKind::BuildDirectory)),
        Step::Fail(
            "lock persisted on the build directory even after moving to build lane `lane-0`"
                .to_string()
        )
    );
}

#[test]
fn only_a_miss_leads_from_the_readonly_overlay_to_the_network() {
    let readonly = || {
        let mut session = Session::new();
        session.finish_run(&RunOutcome::Lock(LockKind::Other));
        session.enter_lane(LockKind::Other, lane());
        session
    };
    assert_eq!(
        readonly().finish_run(&completed(101, MISS)),
        Step::Rerun(
            Stage::OnlineOverlay,
            Some(
                "cargo-sidestep: readonly overlay missed the warm cache; retrying with an isolated online Cargo home"
                    .to_string()
            )
        )
    );
    assert_eq!(readonly().finish_run(&completed(0, MISS)), Step::Exit(0));
    assert_eq!(readonly().finish_run(&completed(101, "x")), Step::Exit(101));
    assert_eq!(label(&readonly()), "readonly-overlay");
    assert_eq!(readonly().preparation(&settings()).len(), 14);
}

#[test]
fn plans_name_directories_and_variables() {
    let shared = ExecPlan::shared(&settings(), &paths(), true);
    let dirs: Vec<String> = shared.directories().iter().map(shown).collect();
    assert_eq!(
        dirs,
        vec![
            format!("{}/target", root()),
            format!("{}/build/shared", root()),
            "/base".to_string(),
        ]
    );
    let names: Vec<&str> = shared.variables().iter().map(|change| change.name).collect();
    assert_eq!(
        names,
        vec![
            "CARGO_HOME",
            "CARGO_TARGET_DIR",
            "CARGO_SIDESTEP_ACTIVE",
            "CARGO_SIDESTEP_PLAN",
            "CARGO_BUILD_BUILD_DIR",
            "CARGO_NET_OFFLINE",
        ]
    );
    assert_eq!(variable(&shared, "CARGO_HOME"), Some("/base".to_string()));
    assert_eq!(variable(&shared, "CARGO_SIDESTEP_ACTIVE"), Some("1".to_string()));
    assert_eq!(variable(&shared, "CARGO_NET_OFFLINE"), None);

    let lane = lane();
    let readonly = ExecPlan::readonly_overlay(&paths(), &lane, &lane.readonly_home_dir, true);
    assert_eq!(variable(&readonly, "CARGO_NET_OFFLINE"), Some("true".to_string()));
    assert_eq!(
        variable(&readonly, "CARGO_TARGET_DIR"),
        Some(format!("{}/target", root()))
    );
    let online = ExecPlan::online_overlay(&lane, &lane.online_home_dir, true);
    assert_eq!(online.target_dir, lane.target_dir);
    assert_eq!(online.build_dir, Some(lane.build_dir.clone()));
    assert!(!online.offline);
}

#[test]
fn older_cargo_gets_target_directories_in_lanes() {
    let lane = lane();
    let shared = ExecPlan::shared(&settings(), &paths(), false);
    assert_eq!(shared.build_dir, None);
    assert_eq!(variable(&shared, "CARGO_BUILD_BUILD_DIR"), None);
    assert_eq!(shared.directories().len(), 2);
    let moved = ExecPlan::build_lane(&settings(), &paths(), &lane, false);
    assert_eq!(moved.build_dir, None);
    assert_eq!(shown(&moved.target_dir), format!("{}/lanes/lane-0/target", root()));
    assert_eq!(shown(&moved.cargo_home), "/base");
}

#[test]
fn a_run_is_given_up_for_its_first_lock() {
    let ms: u128 = 1_000_000;
    let mut watch = LockWatch::new(100);
    assert_eq!(watch.step(RunEvent::Quiet, 0, 900 * ms), WatchStep::KeepWatching);
    let first = RunEvent::Report(LockKind::GitDb);
    assert_eq!(watch.step(first, 900 * ms, 900 * ms), WatchStep::KeepWatching);
    let later = RunEvent::Report(LockKind::BuildDirectory);
    assert_eq!(watch.step(later, 950 * ms, 1000 * ms - 1), WatchStep::KeepWatching);
    assert_eq!(
        watch.step(RunEvent::Quiet, 1000 * ms, 1000 * ms),
        WatchStep::Done(RunOutcome::Lock(LockKind::GitDb))
    );
}

#[test]
fn a_run_that_ends_has_come_out() {
    let mut watch = LockWatch::new(0);
    watch.first_lock = Some((LockKind::GitDb, 0));
    let ended = RunEvent::Exited(Some(7), "text".to_string());
    assert_eq!(watch.step(ended, 9, 9), WatchStep::Done(completed(7, "text")));
    let killed = RunEvent::Exited(None, String::new());
    assert_eq!(watch.step(killed, 9, 9), WatchStep::Done(completed(1, "")));
    assert_eq!(exit_code(Some(0)), 0);
    assert_eq!(exit_code(None), 1);
}

#[test]
fn no_patience_means_no_waiting() {
    let mut watch = LockWatch::new(0);
    assert_eq!(watch.step(RunEvent::Quiet, 5, 6), WatchStep::KeepWatching);
    assert_eq!(
        watch.step(RunEvent::Report(LockKind::Other), 7, 7),
        WatchStep::Done(RunOutcome::Lock(LockKind::Other))
    );
}

#[test]
fn a_reported_lock_is_sidestepped() {
    let ms: u128 = 1_000_000;
    let mut watch = LockWatch::new(100);
    let mut kept = String::new();
    let lines = [
        ("   Compiling foo v0.1.0\n", 10 * ms),
        ("    Blocking waiting for file lock on build directory\n", 20 * ms),
        ("    Blocking waiting for file lock on package cache\n", 30 * ms),
    ];
    for (line, at) in lines {
        let event = match observe_line(&mut kept, line) {
            Some(kind) => RunEvent::Report(kind),
            None => RunEvent::Quiet,
        };
        assert_eq!(watch.step(event, at, at), WatchStep::KeepWatching);
    }
    match watch.step(RunEvent::Quiet, 120 * ms, 120 * ms) {
        WatchStep::Done(outcome) => assert_eq!(
            Session::new().finish_run(&outcome),
            Step::AcquireLane(LockKind::BuildDirectory)
        ),
        WatchStep::KeepWatching => panic!("the run should be given up"),
    }
}

#[test]
fn whole_lines_are_kept_up_to_the_limit() {
    let mut kept = String::new();
    assert_eq!(observe_line(&mut kept, "one\n"), None);
    assert_eq!(
        observe_line(&mut kept, "Blocking waiting for file lock on git db\n"),
        Some(LockKind::GitDb)
    );
    assert_eq!(kept, "one\nBlocking waiting for file lock on git db\n");
    let long = "\u{e9}".repeat(CAPTURE_LIMIT / 2 - 30);
    observe_line(&mut kept, &long);
    assert!(kept.len() < CAPTURE_LIMIT);
    observe_line(&mut kept, &long);
    let full = kept.clone();
    assert_eq!(full.len(), 45 + 4 * long.chars().count());
    assert_eq!(
        observe_line(&mut kept, "blocking waiting for file lock"),
        Some(LockKind::Other)
    );
    assert_eq!(kept, full);
}

#[test]
fn leases_go_stale_after_half_a_day() {
    let limit: u128 = 43_200_000_000_000;
    assert!(!lease_is_stale(None));
    assert!(!lease_is_stale(Some(0)));
    assert!(!lease_is_stale(Some(limit)));
    assert!(lease_is_stale(Some(limit + 1)));
    assert_eq!(inspect_lease(false, Some(limit + 1)), LeaseStep::Claim);
    assert_eq!(inspect_lease(true, Some(limit + 1)), LeaseStep::RemoveThenClaim);
    assert_eq!(inspect_lease(true, Some(60_000_000_000)), LeaseStep::Leave);
    assert_eq!(inspect_lease(true, None), LeaseStep::Leave);
}

#[test]
fn leases_say_who_and_when() {
    assert_eq!(lease_text(42, 1_700_000_000), "pid=42\ntimestamp=1700000000\n");
    assert_eq!(unix_timestamp(Some(5)), 5);
    assert_eq!(unix_timestamp(None), 0);
    assert_eq!(heartbeat_step(HeartbeatEvent::Interval), HeartbeatStep::Refresh);
    assert_eq!(heartbeat_step(HeartbeatEvent::Stop), HeartbeatStep::End);
    assert_eq!(heartbeat_step(HeartbeatEvent::Disconnected), HeartbeatStep::End);
}

#[test]
fn lanes_are_asked_for_in_order() {
    assert_eq!(slot_lane_name(12), "lane-12");
    assert_eq!(overflow_lane_name(42, 99), "overflow-42-99");
    let mut search = LaneSearch::new(2);
    assert_eq!(search.name(42, 99), "lane-0");
    assert!(matches!(search.acquire_lane(Ok(None)), LaneStep::TryNext));
    assert_eq!(search.name(42, 99), "lane-1");
    assert_eq!(search.lane(&paths(), 42, 99).name, "lane-1");
    assert!(matches!(search.acquire_lane(Ok(None)), LaneStep::TryNext));
    assert_eq!(search.name(42, 99), "overflow-42-99");
    match search.acquire_lane(Ok(None)) {
        LaneStep::Fail(message) => assert_eq!(message, "failed to allocate overflow lane"),
        _ => panic!("the search should fail"),
    }
    match search.acquire_lane(Err("disk".to_string())) {
        LaneStep::Fail(message) => assert_eq!(message, "disk"),
        _ => panic!("the search should fail"),
    }
    match LaneSearch::new(1).acquire_lane(Ok(Some(lane()))) {
        LaneStep::Acquired(lane) => assert_eq!(lane.name, "lane-0"),
        _ => panic!("the lane should be taken"),
    }
}

#[test]
fn claims_decide_about_a_lane() {
    let got = try_acquire_lane(lane(), ClaimEnd::Won).unwrap().unwrap();
    assert_eq!(shown(&got.lease_file), format!("{}/lanes/lane-0/lease", root()));
    assert_eq!(shown(&got.claim_file), format!("{}/lanes/lane-0/claim", root()));
    assert!(try_acquire_lane(lane(), ClaimEnd::Lost).unwrap().is_none());
    assert_eq!(
        try_acquire_lane(lane(), ClaimEnd::Failed("full".to_string())).unwrap_err(),
        "full"
    );
}

/// What a lane looks like to its claimants: the claim file, locked by one of them or
/// not, and the age of the lease file, if there is one.
struct Ground {
    locked_by: Option<usize>,
    lease: Option<u128>,
}

/// Takes one step of a claim.
fn advance(ground: &mut Ground, who: usize, phase: ClaimPhase) -> ClaimPhase {
    let event = match &phase {
        ClaimPhase::Lock if ground.locked_by.is_none() => {
            ground.locked_by = Some(who);
            ClaimEvent::Locked
        }
        ClaimPhase::Lock => ClaimEvent::Busy,
        ClaimPhase::Inspect => ClaimEvent::Seen(ground.lease.is_some(), ground.lease),
        ClaimPhase::Remove => {
            ground.lease = None;
            ClaimEvent::Removed
        }
        ClaimPhase::Create if ground.lease.is_none() => {
            ground.lease = Some(0);
            ClaimEvent::Created
        }
        ClaimPhase::Create => ClaimEvent::AlreadyExists,
        ClaimPhase::Ended(_) => {
            if ground.locked_by == Some(who) {
                ground.locked_by = None;
            }
            return phase;
        }
    };
    claim_step(phase, event)
}

fn claim(ground: &mut Ground, who: usize) -> ClaimPhase {
    let mut phase = ClaimPhase::Lock;
    for _ in 0..6 {
        phase = advance(ground, who, phase);
    }
    phase
}

#[test]
fn held_lanes_are_refused_and_released_lanes_had_again() {
    let mut ground = Ground {
        locked_by: None,
        lease: None,
    };
    assert_eq!(claim(&mut ground, 0), ClaimPhase::Ended(ClaimEnd::Won));
    ground.lease = Some(60_000_000_000);
    assert_eq!(claim(&mut ground, 1), ClaimPhase::Ended(ClaimEnd::Lost));
    ground.lease = None;
    assert_eq!(claim(&mut ground, 1), ClaimPhase::Ended(ClaimEnd::Won));
}

#[test]
fn one_claimant_takes_over_a_stale_lease() {
    for order in 0..4096u32 {
        let mut ground = Ground {
            locked_by: None,
            lease: Some(43_200_000_000_001),
        };
        let mut phases = [ClaimPhase::Lock, ClaimPhase::Lock];
        for turn in 0..24 {
            let who = (order >> (turn % 12) & 1) as usize;
            let who = if turn < 12 { who } else { 1 - who };
            let phase = std::mem::replace(&mut phases[who], ClaimPhase::Lock);
            phases[who] = advance(&mut ground, who, phase);
        }
        let winners = phases
            .iter()
            .filter(|phase| **phase == ClaimPhase::Ended(ClaimEnd::Won))
            .count();
        assert!(winners <= 1);
        if order == 0 {
            assert_eq!(winners, 1);
        }
    }
}

#[test]
fn failed_claims_say_why() {
    let failed = || ClaimEvent::Failed("disk".to_string());
    let ended = || ClaimPhase::Ended(ClaimEnd::Failed("disk".to_string()));
    assert_eq!(claim_step(ClaimPhase::Lock, failed()), ended());
    assert_eq!(claim_step(ClaimPhase::Create, failed()), ended());
    assert_eq!(claim_step(ended(), ClaimEvent::Created), ended());
    assert_eq!(
        claim_step(ClaimPhase::Lock, ClaimEvent::Busy),
        ClaimPhase::Ended(ClaimEnd::Lost)
    );
    assert_eq!(
        claim_step(ClaimPhase::Lock, ClaimEvent::Unlockable),
        ClaimPhase::Inspect
    );
    assert_eq!(
        claim_step(ClaimPhase::Create, ClaimEvent::AlreadyExists),
        ClaimPhase::Ended(ClaimEnd::Lost)
    );
    assert_eq!(
        claim_step(ClaimPhase::Lock, ClaimEvent::Created),
        ClaimPhase::Ended(ClaimEnd::Lost)
    );
}

#[test]
fn a_lease_that_is_kept_alive_is_never_stale() {
    let second: u128 = 1_000_000_000;
    let mut written: u128 = 0;
    for minute in 1..2000u128 {
        let now = minute * 60 * second;
        assert!(!lease_is_stale(Some(now - written)));
        if heartbeat_step(HeartbeatEvent::Interval) == HeartbeatStep::Refresh && minute % 700 == 0 {
            written = now;
        }
    }
    assert_eq!(heartbeat_step(HeartbeatEvent::Stop), HeartbeatStep::End);
}

#[test]
fn lanes_lie_apart_from_each_other_and_are_reused() {
    let other = LaneLease::new(&paths(), "lane-1");
    let again = LaneLease::new(&paths(), "lane-1");
    assert_ne!(other.build_dir, lane().build_dir);
    assert_eq!(other.build_dir, again.build_dir);
    assert_eq!(
        shown(&other.readonly_home_dir),
        format!("{}/lanes/lane-1/cargo-home-readonly", root())
    );
}

fn places() -> (ManagedPath, ManagedPath) {
    (
        ManagedPath::new(OsText::from_text("/base")),
        ManagedPath::new(OsText::from_text("/over")),
    )
}

fn described(step: &OverlayStep) -> String {
    match step {
        OverlayStep::MakeDir(dir) => format!("make {}", shown(dir)),
        OverlayStep::CopyIfPresent(src, dst) => format!("copy {} {}", shown(src), shown(dst)),
        OverlayStep::LinkIfPresent(src, dst) => format!("link {} {}", shown(src), shown(dst)),
        OverlayStep::LinkOrMakeDir(src, dst) => format!("share {} {}", shown(src), shown(dst)),
    }
}

#[test]
fn overlay_homes_are_laid_out() {
    let (base, over) = places();
    let steps = prepare_overlay_home(&base, &over, OverlayMode::ReadonlyOffline);
    let list: Vec<String> = steps.iter().map(described).collect();
    assert_eq!(
        list,
        vec![
            "make /over",
            "make /over/registry",
            "make /over/registry/src",
            "make /over/registry/index",
            "make /over/git/db",
            "make /over/git/checkouts",
            "copy /base/.crates.toml /over/.crates.toml",
            "copy /base/.crates2.json /over/.crates2.json",
            "copy /base/env /over/env",
            "copy /base/config.toml /over/config.toml",
            "copy /base/credentials.toml /over/credentials.toml",
            "copy /base/credentials /over/credentials",
            "link /base/bin /over/bin",
            "share /base/registry/cache /over/registry/cache",
        ]
    );
    let steps = prepare_overlay_home(&base, &over, OverlayMode::IsolatedOnline);
    assert_eq!(steps.len(), 14);
    assert_eq!(described(&steps[13]), "make /over/registry/cache");
}

#[test]
fn overlay_steps_depend_on_what_exists() {
    let (base, over) = places();
    let (src, dst) = (base.join("a"), over.join("a"));
    let around = || FsAction::MakeParent(dst.clone());
    let copy = || FsAction::Copy(src.clone(), dst.clone());
    let link = || FsAction::Link(src.clone(), dst.clone());
    let remove = || FsAction::Remove(dst.clone());
    let make = || FsAction::MakeDir(dst.clone());
    let all = [Standing::Nothing, Standing::Link, Standing::Other];
    assert_eq!(copy_file_if_exists(&src, &dst, true), vec![around(), copy()]);
    assert_eq!(copy_file_if_exists(&src, &dst, false), vec![]);
    assert_eq!(ensure_symlink(&src, &dst, Standing::Nothing), vec![around(), link()]);
    assert_eq!(ensure_symlink(&src, &dst, Standing::Link), vec![]);
    assert_eq!(ensure_symlink(&src, &dst, Standing::Other), vec![]);
    assert_eq!(replace_by_symlink(&src, &dst, Standing::Nothing), vec![around(), link()]);
    assert_eq!(replace_by_symlink(&src, &dst, Standing::Link), vec![]);
    assert_eq!(replace_by_symlink(&src, &dst, Standing::Other), vec![remove(), link()]);

    let step = OverlayStep::CopyIfPresent(src.clone(), dst.clone());
    assert_eq!(step.actions(true, Standing::Other), vec![around(), copy()]);
    assert_eq!(step.actions(false, Standing::Other), vec![]);
    let step = OverlayStep::LinkIfPresent(src.clone(), dst.clone());
    assert_eq!(step.actions(true, Standing::Nothing), vec![around(), link()]);
    assert_eq!(step.actions(true, Standing::Link), vec![]);
    assert_eq!(step.actions(true, Standing::Other), vec![]);
    let either = OverlayStep::LinkOrMakeDir(src.clone(), dst.clone());
    assert_eq!(either.actions(true, Standing::Nothing), vec![around(), link()]);
    assert_eq!(either.actions(true, Standing::Link), vec![]);
    assert_eq!(either.actions(true, Standing::Other), vec![remove(), link()]);
    for standing in all {
        assert_eq!(step.actions(false, standing), vec![]);
        assert_eq!(either.actions(false, standing), vec![make()]);
        let step = OverlayStep::MakeDir(dst.clone());
        assert_eq!(step.actions(false, standing), vec![make()]);
    }
}

#[test]
fn dead_links_count_as_nothing() {
    assert_eq!(standing_of(true, true), Standing::Link);
    assert_eq!(standing_of(true, false), Standing::Other);
    assert_eq!(standing_of(false, true), Standing::Nothing);
    assert_eq!(standing_of(false, false), Standing::Nothing);
}

#[test]
fn archives_are_shared_once_cargo_has_some() {
    let (base, over) = places();
    let steps = prepare_overlay_home(&base, &over, OverlayMode::ReadonlyOffline);
    let cache = over.join("registry").join("cache");
    let cached = base.join("registry").join("cache");
    let last = steps.last().unwrap();
    assert_eq!(
        last.actions(false, Standing::Nothing),
        vec![FsAction::MakeDir(cache.clone())]
    );
    assert_eq!(
        last.actions(true, Standing::Other),
        vec![
            FsAction::Remove(cache.clone()),
            FsAction::Link(cached, cache.clone()),
        ]
    );
    assert_eq!(last.actions(true, Standing::Link), vec![]);
    let steps = prepare_overlay_home(&base, &over, OverlayMode::IsolatedOnline);
    assert_eq!(
        steps.last().unwrap().actions(true, Standing::Other),
        vec![FsAction::MakeDir(cache)]
    );
}

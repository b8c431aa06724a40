//! Plans: with which directories, and under which variables, Cargo is run.

use crate::lane::LaneLease;
use crate::path::{ManagedPath, PathView};
use crate::settings::Settings;
use crate::workspace::{path_views, WorkspacePaths};
use vstd::prelude::*;

verus! {

/// How Cargo is run.
#[derive(Debug)]
pub struct ExecPlan {
    pub label: &'static str,
    pub cargo_home: ManagedPath,
    pub target_dir: ManagedPath,
    pub build_dir: Option<ManagedPath>,
    pub offline: bool,
}

/// What an `ExecPlan` holds.
#[verifier::ext_equal]
pub struct PlanView {
    pub label: Seq<char>,
    pub cargo_home: PathView,
    pub target_dir: PathView,
    pub build_dir: Option<PathView>,
    pub offline: bool,
}

impl View for ExecPlan {
    type V = PlanView;

    open spec fn view(&self) -> PlanView {
        PlanView {
            label: self.label@,
            cargo_home: self.cargo_home@,
            target_dir: self.target_dir@,
            build_dir: match self.build_dir {
                Some(dir) => Some(dir@),
                None => None,
            },
            offline: self.offline,
        }
    }
}

/// The first attempt: Cargo's own home, and the directories that all runs in the
/// workspace share.
pub open spec fn shared_plan(
    settings: Settings,
    paths: WorkspacePaths,
    supports_build_dir: bool,
) -> PlanView {
    PlanView {
        label: "shared"@,
        cargo_home: settings.base_cargo_home@,
        target_dir: paths.shared_target_dir@,
        build_dir: if supports_build_dir {
            Some(paths.shared_build_dir@)
        } else {
            None
        },
        offline: false,
    }
}

/// Where a run in a lane puts its final outputs: with those of all runs where a
/// build directory takes the intermediates, else in the lane.
pub open spec fn lane_target(
    paths: WorkspacePaths,
    lane: LaneLease,
    supports_build_dir: bool,
) -> PathView {
    if supports_build_dir {
        paths.shared_target_dir@
    } else {
        lane.target_dir@
    }
}

/// Where a run in a lane puts its intermediates, if they have a directory of their
/// own.
pub open spec fn lane_build(lane: LaneLease, supports_build_dir: bool) -> Option<PathView> {
    if supports_build_dir {
        Some(lane.build_dir@)
    } else {
        None
    }
}

/// The attempt around a lock on the build directory: Cargo's own home, and a build
/// directory in a lane.
pub open spec fn build_lane_plan(
    settings: Settings,
    paths: WorkspacePaths,
    lane: LaneLease,
    supports_build_dir: bool,
) -> PlanView {
    PlanView {
        label: "build-lane"@,
        cargo_home: settings.base_cargo_home@,
        target_dir: lane_target(paths, lane, supports_build_dir),
        build_dir: lane_build(lane, supports_build_dir),
        offline: false,
    }
}

/// The first attempt around a lock in Cargo's home: an overlay home without network.
pub open spec fn readonly_overlay_plan(
    paths: WorkspacePaths,
    lane: LaneLease,
    cargo_home: PathView,
    supports_build_dir: bool,
) -> PlanView {
    PlanView {
        label: "readonly-overlay"@,
        cargo_home,
        target_dir: lane_target(paths, lane, supports_build_dir),
        build_dir: lane_build(lane, supports_build_dir),
        offline: true,
    }
}

/// The last attempt: an overlay home with network, and outputs and intermediates in
/// the lane.
pub open spec fn online_overlay_plan(
    lane: LaneLease,
    cargo_home: PathView,
    supports_build_dir: bool,
) -> PlanView {
    PlanView {
        label: "online-overlay"@,
        cargo_home,
        target_dir: lane.target_dir@,
        build_dir: lane_build(lane, supports_build_dir),
        offline: false,
    }
}

/// Where a run in a lane puts its final outputs.
pub fn shared_or_lane_target_dir(
    paths: &WorkspacePaths,
    lane: &LaneLease,
    supports_build_dir: bool,
) -> (dir: ManagedPath)
    ensures
        dir@ == lane_target(*paths, *lane, supports_build_dir),
{
    if supports_build_dir {
        paths.shared_target_dir.clone()
    } else {
        lane.target_dir.clone()
    }
}

/// Where a run in a lane puts its intermediates, if they have a directory of their
/// own.
pub fn lane_build_dir(lane: &LaneLease, supports_build_dir: bool) -> (dir: Option<ManagedPath>)
    ensures
        match dir {
            Some(dir) => lane_build(*lane, supports_build_dir) == Some(dir@),
            None => lane_build(*lane, supports_build_dir) is None,
        },
{
    if supports_build_dir {
        Some(lane.build_dir.clone())
    } else {
        None
    }
}

/// The value that a variable is given for a run.
#[derive(Debug, PartialEq, Eq)]
pub enum VariableValue {
    Path(ManagedPath),
    Text(&'static str),
}

/// A change to the variables that a run sees: a variable that is set, or one that
/// is taken away.
#[derive(Debug, PartialEq, Eq)]
pub struct VariableChange {
    pub name: &'static str,
    pub value: Option<VariableValue>,
}

/// What a `VariableValue` holds.
pub enum VariableValueView {
    Path(PathView),
    Text(Seq<char>),
}

impl View for VariableValue {
    type V = VariableValueView;

    open spec fn view(&self) -> VariableValueView {
        match self {
            VariableValue::Path(path) => VariableValueView::Path(path@),
            VariableValue::Text(text) => VariableValueView::Text(text@),
        }
    }
}

impl View for VariableChange {
    type V = (Seq<char>, Option<VariableValueView>);

    open spec fn view(&self) -> (Seq<char>, Option<VariableValueView>) {
        (
            self.name@,
            match self.value {
                Some(value) => Some(value@),
                None => None,
            },
        )
    }
}

/// The changes that a list holds.
pub open spec fn change_views(list: Seq<VariableChange>) -> Seq<
    (Seq<char>, Option<VariableValueView>),
> {
    list.map_values(|c: VariableChange| c@)
}

/// The changes to the variables under a plan, in the order in which they are made.
pub open spec fn plan_variables(plan: PlanView) -> Seq<(Seq<char>, Option<VariableValueView>)> {
    seq![
        ("CARGO_HOME"@, Some(VariableValueView::Path(plan.cargo_home))),
        ("CARGO_TARGET_DIR"@, Some(VariableValueView::Path(plan.target_dir))),
        ("CARGO_SIDESTEP_ACTIVE"@, Some(VariableValueView::Text("1"@))),
        ("CARGO_SIDESTEP_PLAN"@, Some(VariableValueView::Text(plan.label))),
        (
            "CARGO_BUILD_BUILD_DIR"@,
            match plan.build_dir {
                Some(dir) => Some(VariableValueView::Path(dir)),
                None => None,
            },
        ),
        (
            "CARGO_NET_OFFLINE"@,
            if plan.offline {
                Some(VariableValueView::Text("true"@))
            } else {
                None
            },
        ),
    ]
}

/// The directories that have to exist under a plan, in the order in which they are
/// made.
pub open spec fn plan_directories(plan: PlanView) -> Seq<PathView> {
    match plan.build_dir {
        Some(dir) => seq![plan.target_dir, dir, plan.cargo_home],
        None => seq![plan.target_dir, plan.cargo_home],
    }
}

impl ExecPlan {
    /// The first attempt.
    pub fn shared(settings: &Settings, paths: &WorkspacePaths, supports_build_dir: bool) -> (plan:
        ExecPlan)
        ensures
            plan@ == shared_plan(*settings, *paths, supports_build_dir),
    {
        ExecPlan {
            label: "shared",
            cargo_home: settings.base_cargo_home.clone(),
            target_dir: paths.shared_target_dir.clone(),
            build_dir: if supports_build_dir {
                Some(paths.shared_build_dir.clone())
            } else {
                None
            },
            offline: false,
        }
    }

    /// The attempt around a lock on the build directory.
    pub fn build_lane(
        settings: &Settings,
        paths: &WorkspacePaths,
        lane: &LaneLease,
        supports_build_dir: bool,
    ) -> (plan: ExecPlan)
        ensures
            plan@ == build_lane_plan(*settings, *paths, *lane, supports_build_dir),
    {
        ExecPlan {
            label: "build-lane",
            cargo_home: settings.base_cargo_home.clone(),
            target_dir: shared_or_lane_target_dir(paths, lane, supports_build_dir),
            build_dir: lane_build_dir(lane, supports_build_dir),
            offline: false,
        }
    }

    /// The first attempt around a lock in Cargo's home.
    pub fn readonly_overlay(
        paths: &WorkspacePaths,
        lane: &LaneLease,
        cargo_home: &ManagedPath,
        supports_build_dir: bool,
    ) -> (plan: ExecPlan)
        ensures
            plan@ == readonly_overlay_plan(*paths, *lane, cargo_home@, supports_build_dir),
    {
        ExecPlan {
            label: "readonly-overlay",
            cargo_home: cargo_home.clone(),
            target_dir: shared_or_lane_target_dir(paths, lane, supports_build_dir),
            build_dir: lane_build_dir(lane, supports_build_dir),
            offline: true,
        }
    }

    /// The last attempt.
    pub fn online_overlay(lane: &LaneLease, cargo_home: &ManagedPath, supports_build_dir: bool) -> (
        plan: ExecPlan)
        ensures
            plan@ == online_overlay_plan(*lane, cargo_home@, supports_build_dir),
    {
        ExecPlan {
            label: "online-overlay",
            cargo_home: cargo_home.clone(),
            target_dir: lane.target_dir.clone(),
            build_dir: lane_build_dir(lane, supports_build_dir),
            offline: false,
        }
    }

    /// The directories that have to exist before the run.
    pub fn directories(&self) -> (dirs: Vec<ManagedPath>)
        ensures
            path_views(dirs@) == plan_directories(self@),
    {
        let mut dirs: Vec<ManagedPath> = Vec::new();
        dirs.push(self.target_dir.clone());
        if let Some(dir) = &self.build_dir {
            dirs.push(dir.clone());
        }
        dirs.push(self.cargo_home.clone());
        assert(path_views(dirs@) =~= plan_directories(self@));
        dirs
    }

    /// The changes to the variables that the run sees.
    pub fn variables(&self) -> (changes: Vec<VariableChange>)
        ensures
            change_views(changes@) == plan_variables(self@),
    {
        let changes = vec![
            VariableChange {
                name: "CARGO_HOME",
                value: Some(VariableValue::Path(self.cargo_home.clone())),
            },
            VariableChange {
                name: "CARGO_TARGET_DIR",
                value: Some(VariableValue::Path(self.target_dir.clone())),
            },
            VariableChange {
                name: "CARGO_SIDESTEP_ACTIVE",
                value: Some(VariableValue::Text("1")),
            },
            VariableChange {
                name: "CARGO_SIDESTEP_PLAN",
                value: Some(VariableValue::Text(self.label)),
            },
            VariableChange {
                name: "CARGO_BUILD_BUILD_DIR",
                value: match &self.build_dir {
                    Some(dir) => Some(VariableValue::Path(dir.clone())),
                    None => None,
                },
            },
            VariableChange {
                name: "CARGO_NET_OFFLINE",
                value: if self.offline {
                    Some(VariableValue::Text("true"))
                } else {
                    None
                },
            },
        ];
        assert(change_views(changes@) =~= plan_variables(self@));
        changes
    }
}

/// Which homes and directories the attempts use. The first attempt and the one around a
/// lock on the build directory use Cargo's own home, the others the home that they are
/// given. Intermediates have a directory of their own exactly where Cargo supports it, and
/// then every attempt in a lane has them in the lane. Outputs go where those of all runs
/// go, except from an attempt in a lane that has no directory for its intermediates, and
/// from the last attempt.
pub proof fn attempts_use_homes_and_directories(
    settings: Settings,
    paths: WorkspacePaths,
    lane: LaneLease,
    home: PathView,
    supported: bool,
)
    ensures
        shared_plan(settings, paths, supported).cargo_home == settings.base_cargo_home@,
        build_lane_plan(settings, paths, lane, supported).cargo_home == settings.base_cargo_home@,
        readonly_overlay_plan(paths, lane, home, supported).cargo_home == home,
        online_overlay_plan(lane, home, supported).cargo_home == home,
        shared_plan(settings, paths, true).build_dir == Some(paths.shared_build_dir@),
        build_lane_plan(settings, paths, lane, true).build_dir == Some(lane.build_dir@),
        readonly_overlay_plan(paths, lane, home, true).build_dir == Some(lane.build_dir@),
        online_overlay_plan(lane, home, true).build_dir == Some(lane.build_dir@),
        shared_plan(settings, paths, false).build_dir is None,
        build_lane_plan(settings, paths, lane, false).build_dir is None,
        readonly_overlay_plan(paths, lane, home, false).build_dir is None,
        online_overlay_plan(lane, home, false).build_dir is None,
        shared_plan(settings, paths, supported).target_dir == paths.shared_target_dir@,
        build_lane_plan(settings, paths, lane, true).target_dir == paths.shared_target_dir@,
        build_lane_plan(settings, paths, lane, false).target_dir == lane.target_dir@,
        readonly_overlay_plan(paths, lane, home, true).target_dir == paths.shared_target_dir@,
        readonly_overlay_plan(paths, lane, home, false).target_dir == lane.target_dir@,
        online_overlay_plan(lane, home, supported).target_dir == lane.target_dir@,
{
}

/// A run sees the variable with that value, or does not see it at all where there is
/// none.
pub open spec fn run_sees(
    plan: PlanView,
    name: Seq<char>,
    value: Option<VariableValueView>,
) -> bool {
    exists|i: int|
        0 <= i < plan_variables(plan).len() && #[trigger] plan_variables(plan)[i] == (name, value)
}

/// A run sees what its plan says: the home, the target directory, the label and that this
/// program runs it, always. It sees a build directory exactly if the plan has one, and is
/// told to stay offline exactly if the plan is. Each variable is changed once, and no
/// other.
pub proof fn runs_see_what_the_plan_says(plan: PlanView, i: int, j: int)
    requires
        0 <= i < plan_variables(plan).len(),
        0 <= j < plan_variables(plan).len(),
    ensures
        run_sees(plan, "CARGO_HOME"@, Some(VariableValueView::Path(plan.cargo_home))),
        run_sees(plan, "CARGO_TARGET_DIR"@, Some(VariableValueView::Path(plan.target_dir))),
        run_sees(plan, "CARGO_SIDESTEP_ACTIVE"@, Some(VariableValueView::Text("1"@))),
        run_sees(plan, "CARGO_SIDESTEP_PLAN"@, Some(VariableValueView::Text(plan.label))),
        plan.build_dir matches Some(dir) ==> run_sees(
            plan,
            "CARGO_BUILD_BUILD_DIR"@,
            Some(VariableValueView::Path(dir)),
        ),
        plan.build_dir is None ==> run_sees(plan, "CARGO_BUILD_BUILD_DIR"@, None),
        plan.offline ==> run_sees(
            plan,
            "CARGO_NET_OFFLINE"@,
            Some(VariableValueView::Text("true"@)),
        ),
        !plan.offline ==> run_sees(plan, "CARGO_NET_OFFLINE"@, None),
        plan_variables(plan).len() == 6,
        plan_variables(plan)[i].0 == plan_variables(plan)[j].0 ==> i == j,
{
    reveal_strlit("CARGO_HOME");
    reveal_strlit("CARGO_TARGET_DIR");
    reveal_strlit("CARGO_SIDESTEP_ACTIVE");
    reveal_strlit("CARGO_SIDESTEP_PLAN");
    reveal_strlit("CARGO_BUILD_BUILD_DIR");
    reveal_strlit("CARGO_NET_OFFLINE");
    let all = plan_variables(plan);
    assert(all[0].0 == "CARGO_HOME"@ && all[1].0 == "CARGO_TARGET_DIR"@);
    assert(all[2].0 == "CARGO_SIDESTEP_ACTIVE"@ && all[3].0 == "CARGO_SIDESTEP_PLAN"@);
    assert(all[4].0 == "CARGO_BUILD_BUILD_DIR"@ && all[5].0 == "CARGO_NET_OFFLINE"@);
    assert("CARGO_HOME"@.len() == 10 && "CARGO_TARGET_DIR"@.len() == 16
        && "CARGO_SIDESTEP_ACTIVE"@.len() == 21 && "CARGO_SIDESTEP_PLAN"@.len() == 19
        && "CARGO_BUILD_BUILD_DIR"@.len() == 21 && "CARGO_NET_OFFLINE"@.len() == 17);
    assert("CARGO_SIDESTEP_ACTIVE"@[6] == 'S' && "CARGO_BUILD_BUILD_DIR"@[6] == 'B');
    assert(i == 0 || i == 1 || i == 2 || i == 3 || i == 4 || i == 5);
    assert(j == 0 || j == 1 || j == 2 || j == 3 || j == 4 || j == 5);
}

/// The directories that have to exist are the ones that the plan names, and no others.
pub proof fn planned_directories_are_made(plan: PlanView, dir: PathView)
    ensures
        plan_directories(plan).contains(dir) <==> (dir == plan.target_dir || dir == plan.cargo_home
            || plan.build_dir == Some(dir)),
{
    let all = plan_directories(plan);
    assert(all[0] == plan.target_dir);
    assert(all.last() == plan.cargo_home);
    assert(all.contains(all[0]) && all.contains(all.last()));
    if let Some(build) = plan.build_dir {
        assert(all[1] == build);
        assert(all.contains(all[1]));
    }
}

} // verus!

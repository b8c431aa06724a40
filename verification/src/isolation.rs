//! What keeps Cargo runs out of each other's way: where the directories of
//! different plans lie.

use crate::lane::LaneLease;
use crate::path::{paths_below_lie_apart, paths_that_part_lie_apart, PathView};
use crate::plan::{
    build_lane_plan, online_overlay_plan, readonly_overlay_plan, shared_plan, PlanView,
};
use crate::settings::Settings;
use crate::workspace::WorkspacePaths;
use vstd::prelude::*;

verus! {

/// The directory that Cargo locks for a build under a plan: the build directory
/// where there is one, else the target directory.
pub open spec fn locked_dir(plan: PlanView) -> PathView {
    match plan.build_dir {
        Some(dir) => dir,
        None => plan.target_dir,
    }
}

proof fn lemma_names()
    ensures
        "target"@ != "build"@,
        "target"@ != "lanes"@,
        "build"@ != "lanes"@,
{
    reveal_strlit("target");
    reveal_strlit("build");
    reveal_strlit("lanes");
    assert("build"@[0] != "lanes"@[0]);
}

/// Whatever is built lies below the directory that is managed for the workspace:
/// the target directory and the build directory of every plan.
pub proof fn builds_stay_in_the_managed_root(
    settings: Settings,
    paths: WorkspacePaths,
    lane: LaneLease,
    root: PathView,
    name: Seq<char>,
    home: PathView,
    supports_build_dir: bool,
    plan: PlanView,
)
    requires
        paths.is_rooted_at(root),
        lane.is_lane_of(paths.lanes_dir@, name),
        plan == shared_plan(settings, paths, supports_build_dir) || plan == build_lane_plan(
            settings,
            paths,
            lane,
            supports_build_dir,
        ) || plan == readonly_overlay_plan(paths, lane, home, supports_build_dir) || plan
            == online_overlay_plan(lane, home, supports_build_dir),
    ensures
        plan.target_dir.is_under(root),
        plan.build_dir matches Some(dir) ==> dir.is_under(root),
        locked_dir(plan).is_under(root),
{
}

/// The build directory of a plan lies apart from its target directory, so that
/// intermediates can be moved without the final outputs.
pub proof fn intermediates_lie_apart_from_outputs(
    settings: Settings,
    paths: WorkspacePaths,
    lane: LaneLease,
    root: PathView,
    name: Seq<char>,
    home: PathView,
    supports_build_dir: bool,
    plan: PlanView,
)
    requires
        paths.is_rooted_at(root),
        lane.is_lane_of(paths.lanes_dir@, name),
        plan == shared_plan(settings, paths, supports_build_dir) || plan == build_lane_plan(
            settings,
            paths,
            lane,
            supports_build_dir,
        ) || plan == readonly_overlay_plan(paths, lane, home, supports_build_dir) || plan
            == online_overlay_plan(lane, home, supports_build_dir),
    ensures
        plan.build_dir is Some <==> supports_build_dir,
        plan.build_dir matches Some(dir) ==> dir.is_apart_from(plan.target_dir),
{
    lemma_names();
    let n = root.parts.len() as int;
    if let Some(dir) = plan.build_dir {
        if plan.target_dir == paths.shared_target_dir@ {
            paths_that_part_lie_apart(dir, plan.target_dir, n);
        } else {
            paths_that_part_lie_apart(dir, plan.target_dir, n + 2);
        }
    }
}

/// Where intermediates have a directory of their own, a retry in a lane leaves the
/// final outputs where the first attempt puts them. Only the fully isolated retry
/// has outputs of its own.
pub proof fn outputs_stay_shared(
    settings: Settings,
    paths: WorkspacePaths,
    lane: LaneLease,
    root: PathView,
    name: Seq<char>,
    home: PathView,
)
    requires
        paths.is_rooted_at(root),
        lane.is_lane_of(paths.lanes_dir@, name),
    ensures
        build_lane_plan(settings, paths, lane, true).target_dir == shared_plan(
            settings,
            paths,
            true,
        ).target_dir,
        readonly_overlay_plan(paths, lane, home, true).target_dir == shared_plan(
            settings,
            paths,
            true,
        ).target_dir,
        online_overlay_plan(lane, home, true).target_dir.is_apart_from(
            shared_plan(settings, paths, true).target_dir,
        ),
{
    lemma_names();
    paths_that_part_lie_apart(
        lane.target_dir@,
        paths.shared_target_dir@,
        root.parts.len() as int,
    );
}

/// A retry in a lane does not use the directory that Cargo locked for the first
/// attempt, with or without build directories.
pub proof fn lanes_avoid_the_shared_lock(
    settings: Settings,
    paths: WorkspacePaths,
    lane: LaneLease,
    root: PathView,
    name: Seq<char>,
    home: PathView,
    supports_build_dir: bool,
)
    requires
        paths.is_rooted_at(root),
        lane.is_lane_of(paths.lanes_dir@, name),
    ensures
        locked_dir(build_lane_plan(settings, paths, lane, supports_build_dir)).is_apart_from(
            locked_dir(shared_plan(settings, paths, supports_build_dir)),
        ),
        locked_dir(readonly_overlay_plan(paths, lane, home, supports_build_dir)).is_apart_from(
            locked_dir(shared_plan(settings, paths, supports_build_dir)),
        ),
        locked_dir(online_overlay_plan(lane, home, supports_build_dir)).is_apart_from(
            locked_dir(shared_plan(settings, paths, supports_build_dir)),
        ),
{
    lemma_names();
    let n = root.parts.len() as int;
    let shared = locked_dir(shared_plan(settings, paths, supports_build_dir));
    paths_that_part_lie_apart(
        locked_dir(build_lane_plan(settings, paths, lane, supports_build_dir)),
        shared,
        n,
    );
    paths_that_part_lie_apart(
        locked_dir(readonly_overlay_plan(paths, lane, home, supports_build_dir)),
        shared,
        n,
    );
    paths_that_part_lie_apart(
        locked_dir(online_overlay_plan(lane, home, supports_build_dir)),
        shared,
        n,
    );
}

/// A lane of one name has the same directories at every use, so that repeated
/// retries find what earlier ones left.
pub proof fn lanes_are_reused(lanes_dir: PathView, a: LaneLease, b: LaneLease, name: Seq<char>)
    requires
        a.is_lane_of(lanes_dir, name),
        b.is_lane_of(lanes_dir, name),
    ensures
        a.claim_file@ == b.claim_file@,
        a.lease_file@ == b.lease_file@,
        a.build_dir@ == b.build_dir@,
        a.target_dir@ == b.target_dir@,
        a.readonly_home_dir@ == b.readonly_home_dir@,
        a.online_home_dir@ == b.online_home_dir@,
{
}

/// Everything in a lane lies below its root, and lanes with different names have
/// nothing in common: whatever lies in one lies apart from whatever lies in the
/// other.
pub proof fn lanes_lie_apart(
    lanes_dir: PathView,
    a: LaneLease,
    b: LaneLease,
    x: Seq<char>,
    y: Seq<char>,
    p: PathView,
    q: PathView,
)
    requires
        a.is_lane_of(lanes_dir, x),
        b.is_lane_of(lanes_dir, y),
        x != y,
        p.is_under(a.root@),
        q.is_under(b.root@),
    ensures
        p.is_apart_from(q),
        a.claim_file@.is_under(a.root@),
        a.lease_file@.is_under(a.root@),
        a.build_dir@.is_under(a.root@),
        a.target_dir@.is_under(a.root@),
        a.readonly_home_dir@.is_under(a.root@),
        a.online_home_dir@.is_under(a.root@),
{
    paths_that_part_lie_apart(a.root@, b.root@, lanes_dir.parts.len() as int);
    paths_below_lie_apart(a.root@, b.root@, p, q);
}

/// The home, the outputs and the intermediates of the last attempt all lie in its
/// lane.
pub proof fn online_retry_is_isolated(
    lane: LaneLease,
    lanes_dir: PathView,
    name: Seq<char>,
    supports_build_dir: bool,
)
    requires
        lane.is_lane_of(lanes_dir, name),
    ensures
        ({
            let plan = online_overlay_plan(lane, lane.online_home_dir@, supports_build_dir);
            &&& plan.cargo_home.is_under(lane.root@)
            &&& plan.target_dir.is_under(lane.root@)
            &&& plan.build_dir matches Some(dir) ==> dir.is_under(lane.root@)
        }),
{
}

/// Only the retry on cached crate archives is cut off from the network.
pub proof fn only_the_readonly_retry_is_offline(
    settings: Settings,
    paths: WorkspacePaths,
    lane: LaneLease,
    home: PathView,
    supports_build_dir: bool,
)
    ensures
        readonly_overlay_plan(paths, lane, home, supports_build_dir).offline,
        !shared_plan(settings, paths, supports_build_dir).offline,
        !build_lane_plan(settings, paths, lane, supports_build_dir).offline,
        !online_overlay_plan(lane, home, supports_build_dir).offline,
{
}

} // verus!

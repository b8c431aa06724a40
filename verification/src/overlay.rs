//! Overlay homes: directories that stand in for Cargo's home and share little with
//! it.

use crate::path::{fixed_names_are_plain, is_plain_name, ManagedPath, PathView};
use vstd::prelude::*;

verus! {

/// What an overlay home is for.
#[derive(Copy, Clone, Debug, PartialEq, Eq, Structural)]
pub enum OverlayMode {
    /// A run without network, on the crate archives that Cargo's home has cached.
    ReadonlyOffline,
    /// A run with network and a crate cache of its own.
    IsolatedOnline,
}

/// One step of the preparation of an overlay home.
#[derive(Debug, PartialEq, Eq)]
pub enum OverlayStep {
    /// Make a directory, and those above it.
    MakeDir(ManagedPath),
    /// Copy the first file to the second, if it exists.
    CopyIfPresent(ManagedPath, ManagedPath),
    /// Link the second path to the first, if that exists.
    LinkIfPresent(ManagedPath, ManagedPath),
    /// Link the second path to the first, if that exists, in place of what else may
    /// stand there. Else make it a directory.
    LinkOrMakeDir(ManagedPath, ManagedPath),
}

/// What an `OverlayStep` holds.
pub enum OverlayStepView {
    MakeDir(PathView),
    CopyIfPresent(PathView, PathView),
    LinkIfPresent(PathView, PathView),
    LinkOrMakeDir(PathView, PathView),
}

impl View for OverlayStep {
    type V = OverlayStepView;

    open spec fn view(&self) -> OverlayStepView {
        match self {
            OverlayStep::MakeDir(dir) => OverlayStepView::MakeDir(dir@),
            OverlayStep::CopyIfPresent(src, dst) => OverlayStepView::CopyIfPresent(src@, dst@),
            OverlayStep::LinkIfPresent(src, dst) => OverlayStepView::LinkIfPresent(src@, dst@),
            OverlayStep::LinkOrMakeDir(src, dst) => OverlayStepView::LinkOrMakeDir(src@, dst@),
        }
    }
}

/// The steps that a list holds.
pub open spec fn step_views(list: Seq<OverlayStep>) -> Seq<OverlayStepView> {
    list.map_values(|s: OverlayStep| s@)
}

/// The directories that every overlay home has.
pub open spec fn overlay_dirs(overlay: PathView) -> Seq<PathView> {
    seq![
        overlay,
        overlay.child("registry"@),
        overlay.child("registry"@).child("src"@),
        overlay.child("registry"@).child("index"@),
        overlay.child("git"@).child("db"@),
        overlay.child("git"@).child("checkouts"@),
    ]
}

/// The files that an overlay home gets a copy of.
pub open spec fn copied_files() -> Seq<Seq<char>> {
    seq![
        ".crates.toml"@,
        ".crates2.json"@,
        "env"@,
        "config.toml"@,
        "credentials.toml"@,
        "credentials"@,
    ]
}

/// Where a home keeps its crate archives.
pub open spec fn archive_dir(home: PathView) -> PathView {
    home.child("registry"@).child("cache"@)
}

/// The steps that make `overlay` an overlay home of `base`: its directories, copies
/// of a few files, a link to the installed programs, and crate archives that are
/// shared or its own.
pub open spec fn overlay_plan(base: PathView, overlay: PathView, mode: OverlayMode) -> Seq<
    OverlayStepView,
> {
    overlay_dirs(overlay).map_values(|dir: PathView| OverlayStepView::MakeDir(dir))
        + copied_files().map_values(
        |file: Seq<char>| OverlayStepView::CopyIfPresent(base.child(file), overlay.child(file)),
    ) + seq![
        OverlayStepView::LinkIfPresent(base.child("bin"@), overlay.child("bin"@)),
        match mode {
            OverlayMode::ReadonlyOffline => OverlayStepView::LinkOrMakeDir(
                archive_dir(base),
                archive_dir(overlay),
            ),
            OverlayMode::IsolatedOnline => OverlayStepView::MakeDir(archive_dir(overlay)),
        },
    ]
}

/// Lays out how `overlay` is made an overlay home of `base`.
pub fn prepare_overlay_home(base: &ManagedPath, overlay: &ManagedPath, mode: OverlayMode) -> (steps:
    Vec<OverlayStep>)
    ensures
        step_views(steps@) == overlay_plan(base@, overlay@, mode),
{
    proof {
        fixed_names_are_plain();
    }
    let registry = overlay.join("registry");
    let git = overlay.join("git");
    let archives = registry.join("cache");
    let mut steps: Vec<OverlayStep> = Vec::new();
    steps.push(OverlayStep::MakeDir(overlay.clone()));
    steps.push(OverlayStep::MakeDir(registry.clone()));
    steps.push(OverlayStep::MakeDir(registry.join("src")));
    steps.push(OverlayStep::MakeDir(registry.join("index")));
    steps.push(OverlayStep::MakeDir(git.join("db")));
    steps.push(OverlayStep::MakeDir(git.join("checkouts")));
    steps.push(copy_step(base, overlay, ".crates.toml"));
    steps.push(copy_step(base, overlay, ".crates2.json"));
    steps.push(copy_step(base, overlay, "env"));
    steps.push(copy_step(base, overlay, "config.toml"));
    steps.push(copy_step(base, overlay, "credentials.toml"));
    steps.push(copy_step(base, overlay, "credentials"));
    steps.push(OverlayStep::LinkIfPresent(base.join("bin"), overlay.join("bin")));
    match mode {
        OverlayMode::ReadonlyOffline => {
            steps.push(
                OverlayStep::LinkOrMakeDir(base.join("registry").join("cache"), archives),
            );
        },
        OverlayMode::IsolatedOnline => {
            steps.push(OverlayStep::MakeDir(archives));
        },
    }
    assert(step_views(steps@) =~= overlay_plan(base@, overlay@, mode));
    steps
}

fn copy_step(base: &ManagedPath, overlay: &ManagedPath, file: &str) -> (step: OverlayStep)
    requires
        is_plain_name(file@),
    ensures
        step@ == OverlayStepView::CopyIfPresent(base@.child(file@), overlay@.child(file@)),
{
    OverlayStep::CopyIfPresent(base.join(file), overlay.join(file))
}

/// What stands where a link is wanted.
#[derive(Copy, Clone, Debug, PartialEq, Eq, Structural)]
pub enum Standing {
    /// Nothing that can be reached. A link that leads nowhere counts as nothing, and then
    /// no link can be made.
    Nothing,
    /// The link that is wanted.
    Link,
    /// Something else: a directory, a file, or a link to another place.
    Other,
}

/// What stands at a path that can be reached or not, links followed, and that is the
/// link that is wanted or not.
pub open spec fn standing_at(can_be_reached: bool, is_wanted_link: bool) -> Standing {
    if !can_be_reached {
        Standing::Nothing
    } else if is_wanted_link {
        Standing::Link
    } else {
        Standing::Other
    }
}

/// Tells what stands at a path, from whether it can be reached, links followed, and
/// whether it is the link that is wanted.
pub fn standing_of(can_be_reached: bool, is_wanted_link: bool) -> (standing: Standing)
    ensures
        standing == standing_at(can_be_reached, is_wanted_link),
{
    if !can_be_reached {
        Standing::Nothing
    } else if is_wanted_link {
        Standing::Link
    } else {
        Standing::Other
    }
}

/// A change to the file system.
#[derive(Debug, PartialEq, Eq)]
pub enum FsAction {
    /// Make a directory, and those above it.
    MakeDir(ManagedPath),
    /// Make the directory around a path, and those above it, if there is one.
    MakeParent(ManagedPath),
    /// Copy the first file to the second.
    Copy(ManagedPath, ManagedPath),
    /// Make the second path a link to the first.
    Link(ManagedPath, ManagedPath),
    /// Remove what stands at a path, with all that is in it.
    Remove(ManagedPath),
}

/// What an `FsAction` holds.
pub enum FsActionView {
    MakeDir(PathView),
    MakeParent(PathView),
    Copy(PathView, PathView),
    Link(PathView, PathView),
    Remove(PathView),
}

impl View for FsAction {
    type V = FsActionView;

    open spec fn view(&self) -> FsActionView {
        match self {
            FsAction::MakeDir(dir) => FsActionView::MakeDir(dir@),
            FsAction::MakeParent(path) => FsActionView::MakeParent(path@),
            FsAction::Copy(src, dst) => FsActionView::Copy(src@, dst@),
            FsAction::Link(src, dst) => FsActionView::Link(src@, dst@),
            FsAction::Remove(path) => FsActionView::Remove(path@),
        }
    }
}

/// The changes that a list holds.
pub open spec fn action_views(list: Seq<FsAction>) -> Seq<FsActionView> {
    list.map_values(|a: FsAction| a@)
}

/// The changes that copy a file, if it exists.
pub open spec fn copy_actions(src: PathView, dst: PathView, src_exists: bool) -> Seq<FsActionView> {
    if src_exists {
        seq![FsActionView::MakeParent(dst), FsActionView::Copy(src, dst)]
    } else {
        Seq::empty()
    }
}

/// The changes that make a link, unless something stands in its place.
pub open spec fn link_actions(src: PathView, dst: PathView, standing: Standing) -> Seq<
    FsActionView,
> {
    if standing == Standing::Nothing {
        seq![FsActionView::MakeParent(dst), FsActionView::Link(src, dst)]
    } else {
        Seq::empty()
    }
}

/// The changes that make a link, also in place of something else that stands there.
pub open spec fn relink_actions(src: PathView, dst: PathView, standing: Standing) -> Seq<
    FsActionView,
> {
    if standing == Standing::Other {
        seq![FsActionView::Remove(dst), FsActionView::Link(src, dst)]
    } else {
        link_actions(src, dst, standing)
    }
}

/// Copies a file, if it exists.
pub fn copy_file_if_exists(src: &ManagedPath, dst: &ManagedPath, src_exists: bool) -> (actions: Vec<
    FsAction,
>)
    ensures
        action_views(actions@) == copy_actions(src@, dst@, src_exists),
{
    if !src_exists {
        let none: Vec<FsAction> = Vec::new();
        assert(action_views(none@) =~= Seq::empty());
        return none;
    }
    let actions = vec![
        FsAction::MakeParent(dst.clone()),
        FsAction::Copy(src.clone(), dst.clone()),
    ];
    assert(action_views(actions@) =~= copy_actions(src@, dst@, src_exists));
    actions
}

/// Makes a link, unless something stands in its place.
pub fn ensure_symlink(src: &ManagedPath, dst: &ManagedPath, standing: Standing) -> (actions: Vec<
    FsAction,
>)
    ensures
        action_views(actions@) == link_actions(src@, dst@, standing),
{
    if standing != Standing::Nothing {
        let none: Vec<FsAction> = Vec::new();
        assert(action_views(none@) =~= Seq::empty());
        return none;
    }
    let actions = vec![
        FsAction::MakeParent(dst.clone()),
        FsAction::Link(src.clone(), dst.clone()),
    ];
    assert(action_views(actions@) =~= link_actions(src@, dst@, standing));
    actions
}

/// Makes a link, also in place of something else that stands there.
pub fn replace_by_symlink(src: &ManagedPath, dst: &ManagedPath, standing: Standing) -> (actions:
    Vec<FsAction>)
    ensures
        action_views(actions@) == relink_actions(src@, dst@, standing),
{
    if standing == Standing::Other {
        let actions = vec![
            FsAction::Remove(dst.clone()),
            FsAction::Link(src.clone(), dst.clone()),
        ];
        assert(action_views(actions@) =~= relink_actions(src@, dst@, standing));
        return actions;
    }
    ensure_symlink(src, dst, standing)
}

/// The changes that a step comes to, given whether its first path exists and what
/// stands at its second.
pub open spec fn step_actions(step: OverlayStepView, src_exists: bool, standing: Standing) -> Seq<
    FsActionView,
> {
    match step {
        OverlayStepView::MakeDir(dir) => seq![FsActionView::MakeDir(dir)],
        OverlayStepView::CopyIfPresent(src, dst) => copy_actions(src, dst, src_exists),
        OverlayStepView::LinkIfPresent(src, dst) => if src_exists {
            link_actions(src, dst, standing)
        } else {
            Seq::empty()
        },
        OverlayStepView::LinkOrMakeDir(src, dst) => if src_exists {
            relink_actions(src, dst, standing)
        } else {
            seq![FsActionView::MakeDir(dst)]
        },
    }
}

impl OverlayStep {
    /// What the step comes to, given whether its first path exists and what stands at
    /// its second.
    pub fn actions(&self, src_exists: bool, standing: Standing) -> (actions: Vec<FsAction>)
        ensures
            action_views(actions@) == step_actions(self@, src_exists, standing),
    {
        match self {
            OverlayStep::MakeDir(dir) => make_dir(dir),
            OverlayStep::CopyIfPresent(src, dst) => copy_file_if_exists(src, dst, src_exists),
            OverlayStep::LinkIfPresent(src, dst) => {
                if src_exists {
                    ensure_symlink(src, dst, standing)
                } else {
                    let none: Vec<FsAction> = Vec::new();
                    assert(action_views(none@) =~= Seq::empty());
                    none
                }
            },
            OverlayStep::LinkOrMakeDir(src, dst) => {
                if src_exists {
                    replace_by_symlink(src, dst, standing)
                } else {
                    make_dir(dst)
                }
            },
        }
    }
}

fn make_dir(dir: &ManagedPath) -> (actions: Vec<FsAction>)
    ensures
        action_views(actions@) == seq![FsActionView::MakeDir(dir@)],
{
    let mut actions: Vec<FsAction> = Vec::new();
    actions.push(FsAction::MakeDir(dir.clone()));
    assert(action_views(actions@) =~= seq![FsActionView::MakeDir(dir@)]);
    actions
}

/// What a change writes lies below `root`.
pub open spec fn writes_under(action: FsActionView, root: PathView) -> bool {
    match action {
        FsActionView::MakeDir(dir) => dir.is_under(root),
        FsActionView::MakeParent(path) => path.parent() matches Some(dir) && dir.is_under(root),
        FsActionView::Copy(_, dst) => dst.is_under(root),
        FsActionView::Link(_, dst) => dst.is_under(root),
        FsActionView::Remove(path) => path.is_under(root),
    }
}

/// Preparing an overlay home writes nothing outside it, whatever exists.
pub proof fn overlay_writes_stay_inside(
    base: PathView,
    overlay: PathView,
    mode: OverlayMode,
    step: int,
    src_exists: bool,
    standing: Standing,
    action: int,
)
    requires
        0 <= step < overlay_plan(base, overlay, mode).len(),
        0 <= action < step_actions(
            overlay_plan(base, overlay, mode)[step],
            src_exists,
            standing,
        ).len(),
    ensures
        writes_under(
            step_actions(overlay_plan(base, overlay, mode)[step], src_exists, standing)[action],
            overlay,
        ),
{
    lemma_steps(base, overlay, mode, step);
    assert(overlay.child(copied_files()[step - 6]).parent()->0.parts =~= overlay.parts);
    assert(overlay.child("bin"@).parent()->0.parts =~= overlay.parts);
    assert(archive_dir(overlay).parent()->0.parts =~= overlay.child("registry"@).parts);
}

pub(crate) proof fn lemma_steps(base: PathView, overlay: PathView, mode: OverlayMode, step: int)
    requires
        0 <= step < overlay_plan(base, overlay, mode).len(),
    ensures
        overlay_plan(base, overlay, mode).len() == 14,
        0 <= step < 6 ==> overlay_plan(base, overlay, mode)[step] == OverlayStepView::MakeDir(
            overlay_dirs(overlay)[step],
        ) && overlay_dirs(overlay)[step].is_under(overlay),
        6 <= step < 12 ==> overlay_plan(base, overlay, mode)[step]
            == OverlayStepView::CopyIfPresent(
            base.child(copied_files()[step - 6]),
            overlay.child(copied_files()[step - 6]),
        ),
{
    if step < 6 {
        assert(step == 0 || step == 1 || step == 2 || step == 3 || step == 4 || step == 5);
    }
}

/// Preparing an overlay home copies nothing but the listed files, each to its own
/// name.
pub proof fn only_listed_files_are_copied(
    base: PathView,
    overlay: PathView,
    mode: OverlayMode,
    step: int,
    src_exists: bool,
    standing: Standing,
    action: int,
    src: PathView,
    dst: PathView,
)
    requires
        0 <= step < overlay_plan(base, overlay, mode).len(),
        0 <= action < step_actions(
            overlay_plan(base, overlay, mode)[step],
            src_exists,
            standing,
        ).len(),
        step_actions(overlay_plan(base, overlay, mode)[step], src_exists, standing)[action]
            == FsActionView::Copy(src, dst),
    ensures
        exists|file: Seq<char>|
            copied_files().contains(file) && src == base.child(file) && dst
                == #[trigger] overlay.child(file),
{
    lemma_steps(base, overlay, mode, step);
    let file = copied_files()[step - 6];
    assert(src == base.child(file) && dst == overlay.child(file));
}

/// What Cargo's home shares with an overlay home by a link: its programs, and its
/// crate archives with an overlay home for runs without network. An isolated one
/// shares no archives. All else in an overlay home is its own.
pub proof fn only_programs_and_archives_are_linked(
    base: PathView,
    overlay: PathView,
    mode: OverlayMode,
    step: int,
    src_exists: bool,
    standing: Standing,
    action: int,
    src: PathView,
    dst: PathView,
)
    requires
        0 <= step < overlay_plan(base, overlay, mode).len(),
        0 <= action < step_actions(
            overlay_plan(base, overlay, mode)[step],
            src_exists,
            standing,
        ).len(),
        step_actions(overlay_plan(base, overlay, mode)[step], src_exists, standing)[action]
            == FsActionView::Link(src, dst),
    ensures
        (src == base.child("bin"@) && dst == overlay.child("bin"@)) || (mode
            == OverlayMode::ReadonlyOffline && src == archive_dir(base) && dst == archive_dir(
            overlay,
        )),
{
    lemma_steps(base, overlay, mode, step);
}

/// Nothing is removed but what stands in place of the link to the archives of Cargo's
/// home.
pub proof fn only_own_archives_are_removed(
    base: PathView,
    overlay: PathView,
    mode: OverlayMode,
    step: int,
    src_exists: bool,
    standing: Standing,
    action: int,
    path: PathView,
)
    requires
        0 <= step < overlay_plan(base, overlay, mode).len(),
        0 <= action < step_actions(
            overlay_plan(base, overlay, mode)[step],
            src_exists,
            standing,
        ).len(),
        step_actions(overlay_plan(base, overlay, mode)[step], src_exists, standing)[action]
            == FsActionView::Remove(path),
    ensures
        path == archive_dir(overlay),
        mode == OverlayMode::ReadonlyOffline,
        src_exists && standing == Standing::Other,
{
    lemma_steps(base, overlay, mode, step);
}

/// An overlay home for runs without network shares the crate archives of Cargo's home,
/// where there are any, whatever stands in their place: the link to them stays, and
/// anything else gives way to it. An isolated one gets an archive directory of its own, whatever
/// exists.
pub proof fn archives_are_shared_or_its_own(
    base: PathView,
    overlay: PathView,
    src_exists: bool,
    standing: Standing,
)
    ensures
        step_actions(
            overlay_plan(base, overlay, OverlayMode::ReadonlyOffline).last(),
            true,
            standing,
        ) == (match standing {
            Standing::Nothing => seq![
                FsActionView::MakeParent(archive_dir(overlay)),
                FsActionView::Link(archive_dir(base), archive_dir(overlay)),
            ],
            Standing::Link => Seq::empty(),
            Standing::Other => seq![
                FsActionView::Remove(archive_dir(overlay)),
                FsActionView::Link(archive_dir(base), archive_dir(overlay)),
            ],
        }),
        step_actions(
            overlay_plan(base, overlay, OverlayMode::IsolatedOnline).last(),
            src_exists,
            standing,
        ) == seq![FsActionView::MakeDir(archive_dir(overlay))],
{
}

/// Where a home keeps its crate archives, and which files are copied: those with the
/// configuration and the credentials, the environment and the lists of installed
/// programs.
pub proof fn homes_have_archives_and_files(home: PathView, file: Seq<char>)
    ensures
        archive_dir(home).base == home.base,
        archive_dir(home).parts == home.parts + seq!["registry"@, "cache"@],
        copied_files().contains(file) <==> (file == ".crates.toml"@ || file == ".crates2.json"@
            || file == "env"@ || file == "config.toml"@ || file == "credentials.toml"@ || file
            == "credentials"@),
        copied_files().len() == 6,
{
    let all = copied_files();
    assert(archive_dir(home).parts =~= home.parts + seq!["registry"@, "cache"@]);
    assert(all[0] == ".crates.toml"@ && all[1] == ".crates2.json"@ && all[2] == "env"@);
    assert(all[3] == "config.toml"@ && all[4] == "credentials.toml"@ && all[5] == "credentials"@);
    assert(all.contains(all[0]) && all.contains(all[1]) && all.contains(all[2]));
    assert(all.contains(all[3]) && all.contains(all[4]) && all.contains(all[5]));
}

/// The path that leads from `to` as `path` leads from `from`.
pub open spec fn moved(path: PathView, from: PathView, to: PathView) -> PathView {
    PathView { base: to.base, parts: to.parts + path.parts.skip(from.parts.len() as int) }
}

/// The step that is taken for one home and one overlay as `step` is for another.
pub open spec fn moved_step(
    step: OverlayStepView,
    base: PathView,
    overlay: PathView,
    to_base: PathView,
    to_overlay: PathView,
) -> OverlayStepView {
    match step {
        OverlayStepView::MakeDir(dir) => OverlayStepView::MakeDir(moved(dir, overlay, to_overlay)),
        OverlayStepView::CopyIfPresent(src, dst) => OverlayStepView::CopyIfPresent(
            moved(src, base, to_base),
            moved(dst, overlay, to_overlay),
        ),
        OverlayStepView::LinkIfPresent(src, dst) => OverlayStepView::LinkIfPresent(
            moved(src, base, to_base),
            moved(dst, overlay, to_overlay),
        ),
        OverlayStepView::LinkOrMakeDir(src, dst) => OverlayStepView::LinkOrMakeDir(
            moved(src, base, to_base),
            moved(dst, overlay, to_overlay),
        ),
    }
}

/// Every overlay home is prepared alike, wherever it and Cargo's home lie: by the same
/// steps, on what lies at the same places below them.
pub proof fn overlay_homes_are_prepared_alike(
    base: PathView,
    overlay: PathView,
    to_base: PathView,
    to_overlay: PathView,
    mode: OverlayMode,
    at: int,
)
    requires
        0 <= at < overlay_plan(base, overlay, mode).len(),
    ensures
        overlay_plan(to_base, to_overlay, mode).len() == overlay_plan(base, overlay, mode).len(),
        overlay_plan(to_base, to_overlay, mode)[at] == moved_step(
            overlay_plan(base, overlay, mode)[at],
            base,
            overlay,
            to_base,
            to_overlay,
        ),
{
    lemma_steps(base, overlay, mode, at);
    lemma_steps(to_base, to_overlay, mode, at);
    lemma_moved(base, to_base);
    lemma_moved(overlay, to_overlay);
    if at < 6 {
        assert(at == 0 || at == 1 || at == 2 || at == 3 || at == 4 || at == 5);
    }
}

proof fn lemma_moved(from: PathView, to: PathView)
    ensures
        moved(from, from, to) == to,
        forall|a: Seq<char>| moved(#[trigger] from.child(a), from, to) == to.child(a),
        forall|a: Seq<char>, b: Seq<char>|
            moved(#[trigger] from.child(a).child(b), from, to) == to.child(a).child(b),
{
    assert(moved(from, from, to).parts =~= to.parts);
    assert forall|a: Seq<char>| moved(#[trigger] from.child(a), from, to) == to.child(a) by {
        assert(moved(from.child(a), from, to).parts =~= to.child(a).parts);
    }
    assert forall|a: Seq<char>, b: Seq<char>|
        moved(#[trigger] from.child(a).child(b), from, to) == to.child(a).child(b) by {
        assert(moved(from.child(a).child(b), from, to).parts =~= to.child(a).child(b).parts);
    }
}

/// What steps do with the paths that they are given, whatever these are. A file that
/// exists is copied, whatever stands where it goes, and one that does not is not. What
/// can be reached and is not the link that is wanted stays, but where archives are shared
/// gives way. Only where nothing can be reached a link is made without more.
pub proof fn steps_act_on_their_paths(
    src: PathView,
    dst: PathView,
    exists: bool,
    standing: Standing,
    wanted: bool,
)
    ensures
        step_actions(OverlayStepView::MakeDir(dst), exists, standing) == seq![
            FsActionView::MakeDir(dst),
        ],
        step_actions(OverlayStepView::CopyIfPresent(src, dst), true, standing) == seq![
            FsActionView::MakeParent(dst),
            FsActionView::Copy(src, dst),
        ],
        step_actions(OverlayStepView::CopyIfPresent(src, dst), false, standing).len() == 0,
        step_actions(OverlayStepView::LinkIfPresent(src, dst), false, standing).len() == 0,
        step_actions(OverlayStepView::LinkIfPresent(src, dst), true, standing).len() == 0
            <==> standing != Standing::Nothing,
        step_actions(OverlayStepView::LinkIfPresent(src, dst), true, Standing::Nothing) == seq![
            FsActionView::MakeParent(dst),
            FsActionView::Link(src, dst),
        ],
        step_actions(OverlayStepView::LinkOrMakeDir(src, dst), true, Standing::Nothing) == seq![
            FsActionView::MakeParent(dst),
            FsActionView::Link(src, dst),
        ],
        step_actions(OverlayStepView::LinkOrMakeDir(src, dst), true, Standing::Other) == seq![
            FsActionView::Remove(dst),
            FsActionView::Link(src, dst),
        ],
        step_actions(OverlayStepView::LinkOrMakeDir(src, dst), true, Standing::Link).len() == 0,
        step_actions(OverlayStepView::LinkOrMakeDir(src, dst), false, standing) == seq![
            FsActionView::MakeDir(dst),
        ],
        standing_at(false, wanted) == Standing::Nothing,
        standing_at(true, true) == Standing::Link,
        standing_at(true, false) == Standing::Other,
{
}

} // verus!

//! What preparing an overlay home makes of a file system.

use crate::overlay::{
    archive_dir, copied_files, lemma_steps, overlay_dirs, overlay_plan, overlay_writes_stay_inside,
    standing_at, step_actions, writes_under, FsActionView, OverlayMode, OverlayStepView, Standing,
};
use crate::path::{lemma_on_one_way, PathView};
use vstd::prelude::*;

verus! {

/// What a file system holds: the paths at which a directory or a file is found, links
/// followed, with what is in the file, and the paths that are links, with what they
/// lead to. Different paths are taken to name different places.
#[verifier::ext_equal]
pub struct Disk {
    pub dirs: Set<PathView>,
    pub files: Map<PathView, Seq<u8>>,
    pub links: Map<PathView, PathView>,
}

impl Disk {
    /// A directory or a file is found at the path.
    pub open spec fn reaches(self, path: PathView) -> bool {
        self.dirs.contains(path) || self.files.dom().contains(path)
    }

    /// Something stands at the path, though it may be a link that leads nowhere.
    pub open spec fn holds(self, path: PathView) -> bool {
        self.reaches(path) || self.links.dom().contains(path)
    }

    /// The path is a link that leads there.
    pub open spec fn leads(self, path: PathView, target: PathView) -> bool {
        self.links.dom().contains(path) && self.links[path] == target
    }

    /// Nothing but directories stands on the way along the path.
    pub open spec fn is_open(self, path: PathView) -> bool {
        forall|p: PathView| #[trigger]
            path.is_under(p) && self.holds(p) ==> self.dirs.contains(p)
    }

    /// All along the path there are directories.
    pub open spec fn can_enter(self, path: PathView) -> bool {
        forall|p: PathView| #[trigger] path.is_under(p) ==> self.dirs.contains(p)
    }

    /// What stands where a link from `dst` to `src` is wanted.
    pub open spec fn standing(self, src: PathView, dst: PathView) -> Standing {
        standing_at(self.reaches(dst), self.leads(dst, src))
    }

    /// The file system with a directory, and those above it, unless something else is in
    /// the way.
    pub open spec fn with_dir(self, dir: PathView) -> Disk {
        if self.is_open(dir) {
            Disk { dirs: self.dirs.union(Set::new(|p: PathView| dir.is_under(p))), ..self }
        } else {
            self
        }
    }

    /// The file system after a change. Only a file can be copied, and not over a
    /// directory or a link. A link can be made only where nothing stands. What cannot be
    /// done changes nothing.
    pub open spec fn after(self, action: FsActionView) -> Disk {
        match action {
            FsActionView::MakeDir(dir) => self.with_dir(dir),
            FsActionView::MakeParent(path) => match path.parent() {
                Some(dir) => self.with_dir(dir),
                None => self,
            },
            FsActionView::Copy(src, dst) => if self.files.dom().contains(src)
                && !self.dirs.contains(dst) && !self.links.dom().contains(dst) {
                Disk { files: self.files.insert(dst, self.files[src]), ..self }
            } else {
                self
            },
            FsActionView::Link(src, dst) => if self.holds(dst) {
                self
            } else {
                Disk {
                    dirs: if self.dirs.contains(src) {
                        self.dirs.insert(dst)
                    } else {
                        self.dirs
                    },
                    files: if self.files.dom().contains(src) {
                        self.files.insert(dst, self.files[src])
                    } else {
                        self.files
                    },
                    links: self.links.insert(dst, src),
                }
            },
            FsActionView::Remove(path) => Disk {
                dirs: Set::new(|p: PathView| self.dirs.contains(p) && !p.is_under(path)),
                files: self.files.remove_keys(Set::new(|p: PathView| p.is_under(path))),
                links: self.links.remove_keys(Set::new(|p: PathView| p.is_under(path))),
            },
        }
    }

    /// The file system after a number of changes.
    pub open spec fn after_all(self, actions: Seq<FsActionView>) -> Disk
        decreases actions.len(),
    {
        if actions.len() == 0 {
            self
        } else {
            self.after_all(actions.drop_last()).after(actions.last())
        }
    }

    /// The changes that a step comes to on this file system.
    pub open spec fn changes(self, step: OverlayStepView) -> Seq<FsActionView> {
        match step {
            OverlayStepView::MakeDir(_) => step_actions(step, false, Standing::Nothing),
            OverlayStepView::CopyIfPresent(src, dst) => step_actions(
                step,
                self.reaches(src),
                self.standing(src, dst),
            ),
            OverlayStepView::LinkIfPresent(src, dst) => step_actions(
                step,
                self.reaches(src),
                self.standing(src, dst),
            ),
            OverlayStepView::LinkOrMakeDir(src, dst) => step_actions(
                step,
                self.reaches(src),
                self.standing(src, dst),
            ),
        }
    }

    /// The file system after a step.
    pub open spec fn after_step(self, step: OverlayStepView) -> Disk {
        self.after_all(self.changes(step))
    }

    /// The file system after a number of steps, one after the other.
    pub open spec fn after_steps(self, steps: Seq<OverlayStepView>) -> Disk
        decreases steps.len(),
    {
        if steps.len() == 0 {
            self
        } else {
            self.after_steps(steps.drop_last()).after_step(steps.last())
        }
    }

    /// The file system once `overlay` is prepared as an overlay home of `base`.
    pub open spec fn prepared(self, base: PathView, overlay: PathView, mode: OverlayMode) -> Disk {
        self.after_steps(overlay_plan(base, overlay, mode))
    }

    /// Nothing keeps a step from being taken.
    pub open spec fn allows(self, step: OverlayStepView) -> bool {
        match step {
            OverlayStepView::MakeDir(dir) => self.is_open(dir),
            OverlayStepView::CopyIfPresent(src, dst) => {
                &&& self.reaches(src) ==> self.files.dom().contains(src)
                &&& !self.dirs.contains(dst)
                &&& !self.links.dom().contains(dst)
                &&& dst.parent() matches Some(dir) ==> self.is_open(dir)
            },
            OverlayStepView::LinkIfPresent(src, dst) => {
                &&& self.holds(dst) ==> self.reaches(dst)
                &&& dst.parent() matches Some(dir) ==> self.is_open(dir)
            },
            OverlayStepView::LinkOrMakeDir(src, dst) => self.is_open(dst),
        }
    }

    /// Nothing keeps `overlay` from being prepared as an overlay home of `base`: where a
    /// directory is needed there is one or nothing, and where a file is copied to there
    /// is a file or nothing. What is copied is a file. No link leads nowhere.
    pub open spec fn can_prepare(
        self,
        base: PathView,
        overlay: PathView,
        mode: OverlayMode,
    ) -> bool {
        forall|t: int|
            0 <= t < overlay_plan(base, overlay, mode).len() ==> self.allows(
                #[trigger] overlay_plan(base, overlay, mode)[t],
            )
    }

    /// There is nothing left to do for a step.
    spec fn is_done(self, step: OverlayStepView) -> bool {
        match step {
            OverlayStepView::MakeDir(dir) => self.can_enter(dir),
            OverlayStepView::CopyIfPresent(src, dst) => self.reaches(src) ==> {
                &&& dst.parent() matches Some(dir) ==> self.can_enter(dir)
                &&& self.files.dom().contains(src)
                &&& self.files.dom().contains(dst)
                &&& self.files[dst] == self.files[src]
            },
            OverlayStepView::LinkIfPresent(src, dst) => self.reaches(src) ==> self.reaches(dst),
            OverlayStepView::LinkOrMakeDir(src, dst) => if self.reaches(src) {
                self.leads(dst, src) && self.reaches(dst)
            } else {
                self.can_enter(dst)
            },
        }
    }

    /// Nothing at or below `base` differs.
    spec fn keeps(self, base: PathView, before: Disk) -> bool {
        forall|p: PathView| #[trigger]
            p.is_under(base) ==> {
                &&& self.dirs.contains(p) == before.dirs.contains(p)
                &&& self.files.dom().contains(p) == before.files.dom().contains(p)
                &&& before.files.dom().contains(p) ==> self.files[p] == before.files[p]
                &&& self.links.dom().contains(p) == before.links.dom().contains(p)
                &&& before.links.dom().contains(p) ==> self.links[p] == before.links[p]
            }
    }
}

/// Neither path is the other or leads through it.
pub open spec fn are_outside(a: PathView, b: PathView) -> bool {
    !a.is_under(b) && !b.is_under(a)
}

proof fn lemma_two(disk: Disk, first: FsActionView, second: FsActionView)
    ensures
        disk.after_all(seq![first]) == disk.after(first),
        disk.after_all(seq![first, second]) == disk.after(first).after(second),
{
    let both = seq![first, second];
    assert(both.drop_last() =~= seq![first]);
    assert(seq![first].drop_last() =~= Seq::empty());
    reveal_with_fuel(Disk::after_all, 3);
}

/// What a step does, change by change.
proof fn lemma_step(disk: Disk, step: OverlayStepView)
    ensures
        disk.after_step(step) == (match step {
            OverlayStepView::MakeDir(dir) => disk.with_dir(dir),
            OverlayStepView::CopyIfPresent(src, dst) => if disk.reaches(src) {
                disk.after(FsActionView::MakeParent(dst)).after(FsActionView::Copy(src, dst))
            } else {
                disk
            },
            OverlayStepView::LinkIfPresent(src, dst) => if disk.reaches(src) && !disk.reaches(
                dst,
            ) {
                disk.after(FsActionView::MakeParent(dst)).after(FsActionView::Link(src, dst))
            } else {
                disk
            },
            OverlayStepView::LinkOrMakeDir(src, dst) => if !disk.reaches(src) {
                disk.with_dir(dst)
            } else if !disk.reaches(dst) {
                disk.after(FsActionView::MakeParent(dst)).after(FsActionView::Link(src, dst))
            } else if disk.leads(dst, src) {
                disk
            } else {
                disk.after(FsActionView::Remove(dst)).after(FsActionView::Link(src, dst))
            },
        }),
{
    match step {
        OverlayStepView::MakeDir(dir) => {
            lemma_two(disk, FsActionView::MakeDir(dir), FsActionView::MakeDir(dir));
        },
        OverlayStepView::CopyIfPresent(src, dst) => {
            lemma_two(disk, FsActionView::MakeParent(dst), FsActionView::Copy(src, dst));
        },
        OverlayStepView::LinkIfPresent(src, dst) => {
            lemma_two(disk, FsActionView::MakeParent(dst), FsActionView::Link(src, dst));
        },
        OverlayStepView::LinkOrMakeDir(src, dst) => {
            lemma_two(disk, FsActionView::MakeParent(dst), FsActionView::Link(src, dst));
            lemma_two(disk, FsActionView::Remove(dst), FsActionView::Link(src, dst));
            lemma_two(disk, FsActionView::MakeDir(dst), FsActionView::MakeDir(dst));
        },
    }
}

proof fn lemma_dir(disk: Disk, dir: PathView)
    ensures
        disk.is_open(dir) ==> disk.with_dir(dir).can_enter(dir),
        disk.can_enter(dir) ==> disk.with_dir(dir) == disk,
{
    if disk.can_enter(dir) {
        assert(disk.dirs.union(Set::new(|p: PathView| dir.is_under(p))) =~= disk.dirs);
    }
}

/// A step for which nothing is left to do changes nothing.
proof fn lemma_done_is_kept(disk: Disk, step: OverlayStepView)
    requires
        disk.is_done(step),
    ensures
        disk.after_step(step) == disk,
{
    lemma_step(disk, step);
    match step {
        OverlayStepView::MakeDir(dir) => {
            lemma_dir(disk, dir);
        },
        OverlayStepView::CopyIfPresent(src, dst) => {
            if disk.reaches(src) {
                if let Some(dir) = dst.parent() {
                    lemma_dir(disk, dir);
                }
                assert(disk.files.insert(dst, disk.files[src]) =~= disk.files);
            }
        },
        OverlayStepView::LinkIfPresent(src, dst) => {},
        OverlayStepView::LinkOrMakeDir(src, dst) => {
            lemma_dir(disk, dst);
        },
    }
}

/// A change inside `overlay` leaves what lies outside it.
proof fn lemma_outside_is_kept(
    disk: Disk,
    action: FsActionView,
    base: PathView,
    overlay: PathView,
)
    requires
        are_outside(base, overlay),
        writes_under(action, overlay),
    ensures
        disk.after(action).keeps(base, disk),
{
    let after = disk.after(action);
    assert forall|p: PathView| #[trigger] p.is_under(base) implies after.dirs.contains(p)
        == disk.dirs.contains(p) && after.files.dom().contains(p) == disk.files.dom().contains(p)
        && (disk.files.dom().contains(p) ==> after.files[p] == disk.files[p])
        && after.links.dom().contains(p) == disk.links.dom().contains(p) && (
    disk.links.dom().contains(p) ==> after.links[p] == disk.links[p]) by {
        lemma_own_way(p);
        match action {
            FsActionView::MakeDir(dir) => {
                lemma_stays_outside(base, overlay, p, dir);
            },
            FsActionView::MakeParent(path) => {
                lemma_stays_outside(base, overlay, p, path.parent()->0);
            },
            FsActionView::Copy(_, dst) => {
                lemma_stays_outside(base, overlay, p, dst);
            },
            FsActionView::Link(_, dst) => {
                lemma_stays_outside(base, overlay, p, dst);
            },
            FsActionView::Remove(path) => {
                lemma_stays_outside(base, overlay, p, path);
            },
        }
    }
}

proof fn lemma_stays_outside(base: PathView, overlay: PathView, p: PathView, d: PathView)
    requires
        are_outside(base, overlay),
        p.is_under(base),
        d.is_under(overlay),
    ensures
        are_outside(p, d),
{
    if d.is_under(p) {
        lemma_way_on(d, p, base);
        lemma_on_one_way(base, overlay, d);
    }
    if p.is_under(d) {
        lemma_way_on(p, d, overlay);
        lemma_on_one_way(base, overlay, p);
    }
}

proof fn lemma_own_way(p: PathView)
    ensures
        p.is_under(p),
{
    assert(p.parts =~= p.parts.subrange(0, p.parts.len() as int));
}

proof fn lemma_way_on(p: PathView, q: PathView, r: PathView)
    requires
        p.is_under(q),
        q.is_under(r),
    ensures
        p.is_under(r),
{
    assert(r.parts =~= p.parts.subrange(0, r.parts.len() as int));
}

/// A step of the preparation leaves what lies outside the overlay home.
proof fn lemma_step_keeps_outside(
    disk: Disk,
    base: PathView,
    overlay: PathView,
    mode: OverlayMode,
    at: int,
)
    requires
        are_outside(base, overlay),
        0 <= at < overlay_plan(base, overlay, mode).len(),
    ensures
        disk.after_step(overlay_plan(base, overlay, mode)[at]).keeps(base, disk),
{
    let step = overlay_plan(base, overlay, mode)[at];
    let changes = disk.changes(step);
    lemma_changes_stay_inside(disk, base, overlay, mode, at);
    if changes.len() == 0 {
        assert(disk.after_all(changes) == disk);
    } else if changes.len() == 1 {
        assert(changes =~= seq![changes[0]]);
        lemma_two(disk, changes[0], changes[0]);
        lemma_outside_is_kept(disk, changes[0], base, overlay);
    } else {
        assert(changes =~= seq![changes[0], changes[1]]);
        lemma_two(disk, changes[0], changes[1]);
        lemma_outside_is_kept(disk, changes[0], base, overlay);
        lemma_outside_is_kept(disk.after(changes[0]), changes[1], base, overlay);
    }
}

proof fn lemma_changes_stay_inside(
    disk: Disk,
    base: PathView,
    overlay: PathView,
    mode: OverlayMode,
    at: int,
)
    requires
        0 <= at < overlay_plan(base, overlay, mode).len(),
    ensures
        disk.changes(overlay_plan(base, overlay, mode)[at]).len() <= 2,
        forall|i: int|
            0 <= i < disk.changes(overlay_plan(base, overlay, mode)[at]).len() ==> writes_under(
                #[trigger] disk.changes(overlay_plan(base, overlay, mode)[at])[i],
                overlay,
            ),
{
    let step = overlay_plan(base, overlay, mode)[at];
    let changes = disk.changes(step);
    assert forall|i: int| 0 <= i < changes.len() implies writes_under(
        #[trigger] changes[i],
        overlay,
    ) by {
        let (src_exists, standing) = match step {
            OverlayStepView::MakeDir(_) => (false, Standing::Nothing),
            OverlayStepView::CopyIfPresent(src, dst) => (
                disk.reaches(src),
                disk.standing(src, dst),
            ),
            OverlayStepView::LinkIfPresent(src, dst) => (
                disk.reaches(src),
                disk.standing(src, dst),
            ),
            OverlayStepView::LinkOrMakeDir(src, dst) => (
                disk.reaches(src),
                disk.standing(src, dst),
            ),
        };
        overlay_writes_stay_inside(base, overlay, mode, at, src_exists, standing, i);
    }
}

/// What a step takes from Cargo's home lies there.
proof fn lemma_sources_lie_in_base(
    base: PathView,
    overlay: PathView,
    mode: OverlayMode,
    at: int,
)
    requires
        0 <= at < overlay_plan(base, overlay, mode).len(),
    ensures
        match overlay_plan(base, overlay, mode)[at] {
            OverlayStepView::MakeDir(_) => true,
            OverlayStepView::CopyIfPresent(src, _) => src.is_under(base),
            OverlayStepView::LinkIfPresent(src, _) => src.is_under(base),
            OverlayStepView::LinkOrMakeDir(src, _) => src.is_under(base),
        },
{
    lemma_steps(base, overlay, mode, at);
    if 6 <= at < 12 {
        assert(base.parts =~= base.child(copied_files()[at - 6]).parts.subrange(
            0,
            base.parts.len() as int,
        ));
    }
    assert(base.parts =~= base.child("bin"@).parts.subrange(0, base.parts.len() as int));
    assert(base.parts =~= archive_dir(base).parts.subrange(0, base.parts.len() as int));
}

/// Once a step that nothing hinders is taken there is nothing left to do for it.
proof fn lemma_taken_is_done(
    disk: Disk,
    base: PathView,
    overlay: PathView,
    mode: OverlayMode,
    at: int,
)
    requires
        are_outside(base, overlay),
        0 <= at < overlay_plan(base, overlay, mode).len(),
        disk.allows(overlay_plan(base, overlay, mode)[at]),
    ensures
        disk.after_step(overlay_plan(base, overlay, mode)[at]).is_done(
            overlay_plan(base, overlay, mode)[at],
        ),
{
    let step = overlay_plan(base, overlay, mode)[at];
    lemma_steps(base, overlay, mode, at);
    lemma_step(disk, step);
    lemma_step_keeps_outside(disk, base, overlay, mode, at);
    lemma_sources_lie_in_base(base, overlay, mode, at);
    match step {
        OverlayStepView::MakeDir(dir) => {
            lemma_dir(disk, dir);
        },
        OverlayStepView::CopyIfPresent(src, dst) => {
            let dir = dst.parent()->0;
            lemma_dir(disk, dir);
            assert(!dir.is_under(dst));
            assert(!dir.is_under(src)) by {
                lemma_own_way(overlay);
                assert(dir.parts =~= overlay.parts);
                lemma_stays_outside(base, overlay, src, overlay);
            }
        },
        OverlayStepView::LinkIfPresent(src, dst) => {
            let dir = dst.parent()->0;
            lemma_dir(disk, dir);
            assert(!dir.is_under(dst));
        },
        OverlayStepView::LinkOrMakeDir(src, dst) => {
            let dir = dst.parent()->0;
            lemma_dir(disk, dst);
            lemma_dir(disk, dir);
            lemma_own_way(dst);
            assert(!dir.is_under(dst));
            assert(dst == archive_dir(overlay));
            assert(dst.is_under(overlay)) by {
                assert(overlay.parts =~= dst.parts.subrange(0, overlay.parts.len() as int));
            }
            lemma_stays_outside(base, overlay, src, dst);
        },
    }
}

/// A step takes nothing away but what stands in place of the archives.
proof fn lemma_step_takes_little(
    disk: Disk,
    base: PathView,
    overlay: PathView,
    mode: OverlayMode,
    at: int,
    p: PathView,
)
    requires
        0 <= at < overlay_plan(base, overlay, mode).len(),
        at == 13 ==> !p.is_under(archive_dir(overlay)),
    ensures
        ({
            let step = overlay_plan(base, overlay, mode)[at];
            let after = disk.after_step(step);
            &&& disk.dirs.contains(p) ==> after.dirs.contains(p)
            &&& disk.files.dom().contains(p) ==> after.files.dom().contains(p)
            &&& disk.files.dom().contains(p) && !(step matches OverlayStepView::CopyIfPresent(
                _,
                dst,
            ) && dst == p) ==> after.files[p] == disk.files[p]
            &&& disk.links.dom().contains(p) ==> after.links.dom().contains(p) && after.links[p]
                == disk.links[p]
        }),
{
    lemma_steps(base, overlay, mode, at);
    lemma_step(disk, overlay_plan(base, overlay, mode)[at]);
    lemma_own_way(p);
}

/// What a step adds: directories on the way to where it leads, and what it copies or
/// links.
proof fn lemma_step_adds_little(disk: Disk, step: OverlayStepView, p: PathView)
    ensures
        ({
            let after = disk.after_step(step);
            match step {
                OverlayStepView::MakeDir(dir) => {
                    &&& after.dirs.contains(p) ==> disk.dirs.contains(p) || dir.is_under(p)
                    &&& after.files == disk.files
                    &&& after.links == disk.links
                },
                OverlayStepView::CopyIfPresent(src, dst) => {
                    &&& after.dirs.contains(p) ==> disk.dirs.contains(p) || (dst.parent() matches
                        Some(dir) && dir.is_under(p))
                    &&& after.files.dom().contains(p) ==> disk.files.dom().contains(p) || (p == dst
                        && disk.files.dom().contains(src))
                    &&& after.links == disk.links
                },
                OverlayStepView::LinkIfPresent(src, dst) => {
                    &&& after.dirs.contains(p) ==> disk.dirs.contains(p) || (p == dst
                        && disk.reaches(src)) || (dst.parent() matches Some(dir) && dir.is_under(
                        p,
                    ))
                    &&& after.files.dom().contains(p) ==> disk.files.dom().contains(p) || (p == dst
                        && disk.reaches(src))
                    &&& after.links.dom().contains(p) ==> disk.links.dom().contains(p) || (p == dst
                        && disk.reaches(src))
                },
                OverlayStepView::LinkOrMakeDir(src, dst) => {
                    &&& after.dirs.contains(p) ==> disk.dirs.contains(p) || dst.is_under(p) || (
                    dst.parent() matches Some(dir) && dir.is_under(p))
                    &&& after.files.dom().contains(p) ==> disk.files.dom().contains(p) || p == dst
                    &&& after.links.dom().contains(p) ==> disk.links.dom().contains(p) || p == dst
                },
            }
        }),
{
    lemma_step(disk, step);
    match step {
        OverlayStepView::LinkOrMakeDir(src, dst) => {
            lemma_own_way(dst);
        },
        _ => {},
    }
}

/// The other directories of an overlay home do not lie in that of the archives.
proof fn lemma_dirs_lie_beside_archives(overlay: PathView, at: int, p: PathView)
    requires
        0 <= at < 6,
        overlay_dirs(overlay)[at].is_under(p),
    ensures
        !p.is_under(archive_dir(overlay)),
{
    reveal_strlit("cache");
    reveal_strlit("src");
    reveal_strlit("index");
    reveal_strlit("git");
    reveal_strlit("registry");
    let dir = overlay_dirs(overlay)[at];
    let archives = archive_dir(overlay);
    let n = overlay.parts.len() as int;
    assert(archives.parts[n] == "registry"@ && archives.parts[n + 1] == "cache"@);
    assert("cache"@[0] == 'c' && "src"@[0] == 's' && "index"@[0] == 'i' && "git"@[0] == 'g'
        && "registry"@[0] == 'r');
    if p.is_under(archives) {
        lemma_way_on(dir, p, archives);
        assert(dir.parts.subrange(0, n + 2)[n] == archives.parts[n]);
        assert(dir.parts.subrange(0, n + 2)[n + 1] == archives.parts[n + 1]);
        assert(at == 2 || at == 3 || at == 4 || at == 5);
    }
}

proof fn lemma_programs_lie_beside_dirs(overlay: PathView, at: int)
    requires
        0 <= at < overlay_dirs(overlay).len(),
    ensures
        overlay_dirs(overlay)[at] != overlay.child("bin"@),
{
    reveal_strlit("bin");
    reveal_strlit("registry");
    let n = overlay.parts.len() as int;
    assert(overlay.child("bin"@).parts.len() == n + 1);
    assert(overlay.child("bin"@).parts[n] == "bin"@);
    assert("bin"@[0] == 'b' && "registry"@[0] == 'r');
    assert(at == 0 || at == 1 || at == 2 || at == 3 || at == 4 || at == 5);
    assert(overlay.child("registry"@).parts[n] == "registry"@);
}

/// What is copied or linked beside `registry` and `git` is neither of them.
proof fn lemma_names()
    ensures
        forall|k: int|
            0 <= k < copied_files().len() ==> #[trigger] copied_files()[k] != "registry"@
                && copied_files()[k] != "git"@ && copied_files()[k] != "bin"@,
        "bin"@ != "registry"@,
        "bin"@ != "git"@,
{
    reveal_strlit("registry");
    reveal_strlit("git");
    reveal_strlit("bin");
    reveal_strlit(".crates.toml");
    reveal_strlit(".crates2.json");
    reveal_strlit("env");
    reveal_strlit("config.toml");
    reveal_strlit("credentials.toml");
    reveal_strlit("credentials");
    assert("registry"@[0] == 'r' && "git"@[0] == 'g' && "bin"@[0] == 'b');
    assert forall|k: int| 0 <= k < copied_files().len() implies #[trigger] copied_files()[k]
        != "registry"@ && copied_files()[k] != "git"@ && copied_files()[k] != "bin"@ by {
        assert(k == 0 || k == 1 || k == 2 || k == 3 || k == 4 || k == 5);
        assert(copied_files()[k][0] != 'r' && copied_files()[k][0] != 'g' && copied_files()[k][0]
            != 'b');
    }
}

/// The way to the directories of an overlay home leads through `registry` or `git`.
proof fn lemma_ways(overlay: PathView, at: int, name: Seq<char>)
    requires
        0 <= at <= 6,
        name != "registry"@,
        name != "git"@,
    ensures
        at < 6 ==> !overlay_dirs(overlay)[at].is_under(overlay.child(name)),
        !archive_dir(overlay).is_under(overlay.child(name)),
{
    let n = overlay.parts.len() as int;
    let other = overlay.child(name);
    assert(other.parts[n] == name);
    assert(archive_dir(overlay).parts[n] == "registry"@);
    if archive_dir(overlay).is_under(other) {
        assert(archive_dir(overlay).parts.subrange(0, n + 1)[n] == other.parts[n]);
    }
    if at < 6 {
        let dir = overlay_dirs(overlay)[at];
        assert(at == 0 || at == 1 || at == 2 || at == 3 || at == 4 || at == 5);
        assert(dir.parts.len() > n ==> dir.parts[n] == "registry"@ || dir.parts[n] == "git"@);
        if dir.is_under(other) {
            assert(dir.parts.subrange(0, n + 1)[n] == other.parts[n]);
        }
    }
}

/// A step leaves nothing to do for the steps for which nothing was left to do.
proof fn lemma_other_steps_stay_done(
    disk: Disk,
    base: PathView,
    overlay: PathView,
    mode: OverlayMode,
    s: int,
    t: int,
)
    requires
        are_outside(base, overlay),
        0 <= s < overlay_plan(base, overlay, mode).len(),
        0 <= t < overlay_plan(base, overlay, mode).len(),
        s != t,
        disk.is_done(overlay_plan(base, overlay, mode)[t]),
    ensures
        disk.after_step(overlay_plan(base, overlay, mode)[s]).is_done(
            overlay_plan(base, overlay, mode)[t],
        ),
{
    let plan = overlay_plan(base, overlay, mode);
    let after = disk.after_step(plan[s]);
    let n = overlay.parts.len();
    lemma_steps(base, overlay, mode, s);
    lemma_steps(base, overlay, mode, t);
    lemma_step(disk, plan[s]);
    lemma_step_keeps_outside(disk, base, overlay, mode, s);
    lemma_sources_lie_in_base(base, overlay, mode, t);
    match plan[t] {
        OverlayStepView::MakeDir(dir) => {
            assert forall|p: PathView| #[trigger] dir.is_under(p) implies after.dirs.contains(
                p,
            ) by {
                if t < 6 {
                    lemma_dirs_lie_beside_archives(overlay, t, p);
                }
                lemma_step_takes_little(disk, base, overlay, mode, s, p);
            }
        },
        OverlayStepView::CopyIfPresent(src, dst) => {
            let file = copied_files()[t - 6];
            let dir = dst.parent()->0;
            assert(dst.parts.len() == n + 1);
            assert forall|p: PathView| #[trigger]
                dir.is_under(p) && disk.dirs.contains(p) implies after.dirs.contains(p) by {
                assert(p.parts.len() <= n);
                lemma_step_takes_little(disk, base, overlay, mode, s, p);
            }
            if 6 <= s < 12 && overlay.child(copied_files()[s - 6]) == dst {
                assert(overlay.child(copied_files()[s - 6]).parts.last() == dst.parts.last());
                assert(copied_files()[s - 6] == file);
            }
            assert(!dst.is_under(archive_dir(overlay)));
            lemma_step_takes_little(disk, base, overlay, mode, s, dst);
        },
        OverlayStepView::LinkIfPresent(src, dst) => {
            assert(dst.parts.len() == n + 1);
            lemma_step_takes_little(disk, base, overlay, mode, s, dst);
        },
        OverlayStepView::LinkOrMakeDir(src, dst) => {
            lemma_step_takes_little(disk, base, overlay, mode, s, dst);
            assert forall|p: PathView| #[trigger]
                dst.is_under(p) && disk.dirs.contains(p) implies after.dirs.contains(p) by {
                lemma_step_takes_little(disk, base, overlay, mode, s, p);
            }
        },
    }
}

/// A step leaves open a way on which nothing stands that it copies or links.
proof fn lemma_way_stays_open(
    disk: Disk,
    base: PathView,
    overlay: PathView,
    mode: OverlayMode,
    s: int,
    dir: PathView,
)
    requires
        0 <= s < 13,
        disk.is_open(dir),
        6 <= s < 12 ==> !dir.is_under(overlay.child(copied_files()[s - 6])),
        s == 12 ==> !dir.is_under(overlay.child("bin"@)),
    ensures
        disk.after_step(overlay_plan(base, overlay, mode)[s]).is_open(dir),
{
    let step = overlay_plan(base, overlay, mode)[s];
    let after = disk.after_step(step);
    lemma_steps(base, overlay, mode, s);
    assert forall|p: PathView| #[trigger]
        dir.is_under(p) && after.holds(p) implies after.dirs.contains(p) by {
        lemma_step_takes_little(disk, base, overlay, mode, s, p);
        lemma_step_adds_little(disk, step, p);
    }
}

/// A step does not hinder those that follow.
proof fn lemma_later_steps_stay_allowed(
    disk: Disk,
    base: PathView,
    overlay: PathView,
    mode: OverlayMode,
    s: int,
    t: int,
)
    requires
        are_outside(base, overlay),
        0 <= s < t < overlay_plan(base, overlay, mode).len(),
        disk.allows(overlay_plan(base, overlay, mode)[t]),
    ensures
        disk.after_step(overlay_plan(base, overlay, mode)[s]).allows(
            overlay_plan(base, overlay, mode)[t],
        ),
{
    let plan = overlay_plan(base, overlay, mode);
    let n = overlay.parts.len();
    lemma_names();
    lemma_steps(base, overlay, mode, s);
    lemma_steps(base, overlay, mode, t);
    lemma_step_keeps_outside(disk, base, overlay, mode, s);
    lemma_sources_lie_in_base(base, overlay, mode, t);
    if 6 <= s < 12 {
        lemma_ways(overlay, if t < 6 { t } else { 6 }, copied_files()[s - 6]);
    }
    lemma_ways(overlay, if t < 6 { t } else { 6 }, "bin"@);
    match plan[t] {
        OverlayStepView::MakeDir(dir) => {
            lemma_way_stays_open(disk, base, overlay, mode, s, dir);
        },
        OverlayStepView::CopyIfPresent(src, dst) => {
            let dir = dst.parent()->0;
            assert(dir.parts.len() == n);
            lemma_way_stays_open(disk, base, overlay, mode, s, dir);
            lemma_step_adds_little(disk, plan[s], dst);
            if s < 6 {
                lemma_ways(overlay, s, copied_files()[t - 6]);
            }
            if 6 <= s < 12 {
                let other = overlay.child(copied_files()[s - 6]).parent()->0;
                assert(other.parts.len() == n);
                assert(dst.parts.len() == n + 1);
            }
        },
        OverlayStepView::LinkIfPresent(src, dst) => {
            let dir = dst.parent()->0;
            assert(dir.parts.len() == n);
            lemma_way_stays_open(disk, base, overlay, mode, s, dir);
            lemma_step_adds_little(disk, plan[s], dst);
            lemma_step_takes_little(disk, base, overlay, mode, s, dst);
        },
        OverlayStepView::LinkOrMakeDir(src, dst) => {
            lemma_way_stays_open(disk, base, overlay, mode, s, dst);
        },
    }
}

proof fn lemma_first_steps_are_done(
    disk: Disk,
    base: PathView,
    overlay: PathView,
    mode: OverlayMode,
    n: int,
)
    requires
        are_outside(base, overlay),
        disk.can_prepare(base, overlay, mode),
        0 <= n <= overlay_plan(base, overlay, mode).len(),
    ensures
        disk.after_steps(overlay_plan(base, overlay, mode).take(n)).keeps(base, disk),
        forall|t: int|
            0 <= t < n ==> disk.after_steps(overlay_plan(base, overlay, mode).take(n)).is_done(
                #[trigger] overlay_plan(base, overlay, mode)[t],
            ),
        forall|t: int|
            n <= t < overlay_plan(base, overlay, mode).len() ==> disk.after_steps(
                overlay_plan(base, overlay, mode).take(n),
            ).allows(#[trigger] overlay_plan(base, overlay, mode)[t]),
    decreases n,
{
    let plan = overlay_plan(base, overlay, mode);
    if n > 0 {
        lemma_first_steps_are_done(disk, base, overlay, mode, n - 1);
        assert(plan.take(n).drop_last() == plan.take(n - 1));
        assert(plan.take(n).last() == plan[n - 1]);
        let before = disk.after_steps(plan.take(n - 1));
        assert(before.allows(plan[n - 1]));
        lemma_taken_is_done(before, base, overlay, mode, n - 1);
        lemma_step_keeps_outside(before, base, overlay, mode, n - 1);
        assert forall|t: int| 0 <= t < n implies disk.after_steps(plan.take(n)).is_done(
            #[trigger] plan[t],
        ) by {
            if t < n - 1 {
                lemma_other_steps_stay_done(before, base, overlay, mode, n - 1, t);
            }
        }
        assert forall|t: int| n <= t < plan.len() implies disk.after_steps(plan.take(n)).allows(
            #[trigger] plan[t],
        ) by {
            lemma_later_steps_stay_allowed(before, base, overlay, mode, n - 1, t);
        }
    }
}

proof fn lemma_all_is_done(disk: Disk, base: PathView, overlay: PathView, mode: OverlayMode)
    requires
        are_outside(base, overlay),
        disk.can_prepare(base, overlay, mode),
    ensures
        disk.prepared(base, overlay, mode).keeps(base, disk),
        forall|t: int|
            0 <= t < overlay_plan(base, overlay, mode).len() ==> disk.prepared(
                base,
                overlay,
                mode,
            ).is_done(#[trigger] overlay_plan(base, overlay, mode)[t]),
{
    let plan = overlay_plan(base, overlay, mode);
    assert(plan.take(plan.len() as int) == plan);
    lemma_first_steps_are_done(disk, base, overlay, mode, plan.len() as int);
}

proof fn lemma_done_steps_change_nothing(disk: Disk, steps: Seq<OverlayStepView>)
    requires
        forall|t: int| 0 <= t < steps.len() ==> disk.is_done(#[trigger] steps[t]),
    ensures
        disk.after_steps(steps) == disk,
    decreases steps.len(),
{
    if steps.len() > 0 {
        let rest = steps.drop_last();
        assert(forall|t: int| 0 <= t < rest.len() ==> #[trigger] rest[t] == steps[t]);
        lemma_done_steps_change_nothing(disk, rest);
        assert(disk.is_done(steps[steps.len() - 1]));
        lemma_done_is_kept(disk, steps.last());
    }
}

/// An overlay home that is prepared a second time is left as it was, with everything
/// else, where it lies outside Cargo's home and nothing kept it from being prepared.
pub proof fn preparing_twice_changes_nothing(
    disk: Disk,
    base: PathView,
    overlay: PathView,
    mode: OverlayMode,
)
    requires
        are_outside(base, overlay),
        disk.can_prepare(base, overlay, mode),
    ensures
        disk.prepared(base, overlay, mode).prepared(base, overlay, mode) == disk.prepared(
            base,
            overlay,
            mode,
        ),
{
    lemma_all_is_done(disk, base, overlay, mode);
    lemma_done_steps_change_nothing(
        disk.prepared(base, overlay, mode),
        overlay_plan(base, overlay, mode),
    );
}

/// Preparing an overlay home leaves Cargo's home as it was, where they lie outside each
/// other, whether or not something keeps the overlay home from being prepared.
pub proof fn cargo_home_is_left_alone(
    disk: Disk,
    base: PathView,
    overlay: PathView,
    mode: OverlayMode,
    p: PathView,
)
    requires
        are_outside(base, overlay),
        p.is_under(base),
    ensures
        disk.prepared(base, overlay, mode).dirs.contains(p) == disk.dirs.contains(p),
        disk.prepared(base, overlay, mode).files.dom().contains(p) == disk.files.dom().contains(p),
        disk.files.dom().contains(p) ==> disk.prepared(base, overlay, mode).files[p]
            == disk.files[p],
        disk.prepared(base, overlay, mode).links.dom().contains(p) == disk.links.dom().contains(p),
        disk.links.dom().contains(p) ==> disk.prepared(base, overlay, mode).links[p]
            == disk.links[p],
{
    let plan = overlay_plan(base, overlay, mode);
    assert(plan.take(plan.len() as int) == plan);
    lemma_base_is_kept(disk, base, overlay, mode, plan.len() as int);
}

proof fn lemma_base_is_kept(
    disk: Disk,
    base: PathView,
    overlay: PathView,
    mode: OverlayMode,
    n: int,
)
    requires
        are_outside(base, overlay),
        0 <= n <= overlay_plan(base, overlay, mode).len(),
    ensures
        disk.after_steps(overlay_plan(base, overlay, mode).take(n)).keeps(base, disk),
    decreases n,
{
    let plan = overlay_plan(base, overlay, mode);
    if n > 0 {
        lemma_base_is_kept(disk, base, overlay, mode, n - 1);
        assert(plan.take(n).drop_last() == plan.take(n - 1));
        assert(plan.take(n).last() == plan[n - 1]);
        lemma_step_keeps_outside(
            disk.after_steps(plan.take(n - 1)),
            base,
            overlay,
            mode,
            n - 1,
        );
    }
}

/// Where Cargo's home has crate archives, an overlay home for runs without network leads
/// to them, whatever an earlier preparation left there.
pub proof fn cached_archives_are_reused(disk: Disk, base: PathView, overlay: PathView)
    requires
        are_outside(base, overlay),
        disk.can_prepare(base, overlay, OverlayMode::ReadonlyOffline),
        disk.reaches(archive_dir(base)),
    ensures
        disk.prepared(base, overlay, OverlayMode::ReadonlyOffline).leads(
            archive_dir(overlay),
            archive_dir(base),
        ),
{
    let mode = OverlayMode::ReadonlyOffline;
    lemma_all_is_done(disk, base, overlay, mode);
    lemma_sources_lie_in_base(base, overlay, mode, 13);
    assert(disk.prepared(base, overlay, mode).is_done(overlay_plan(base, overlay, mode)[13]));
}

/// What preparing an overlay home can add to it.
spec fn belongs(disk: Disk, base: PathView, overlay: PathView, p: PathView) -> bool {
    ||| exists|i: int| 0 <= i < 6 && (#[trigger] overlay_dirs(overlay)[i]).is_under(p)
    ||| archive_dir(overlay).is_under(p)
    ||| p == overlay.child("bin"@) && disk.reaches(base.child("bin"@))
    ||| exists|k: int|
        0 <= k < 6 && p == overlay.child(#[trigger] copied_files()[k])
            && disk.files.dom().contains(base.child(copied_files()[k]))
}

/// What preparing an overlay home can make a link.
spec fn is_linked(
    disk: Disk,
    base: PathView,
    overlay: PathView,
    mode: OverlayMode,
    p: PathView,
) -> bool {
    ||| p == overlay.child("bin"@) && disk.reaches(base.child("bin"@))
    ||| p == archive_dir(overlay) && mode == OverlayMode::ReadonlyOffline && disk.reaches(
        archive_dir(base),
    )
}

proof fn lemma_only_what_belongs_is_added(
    disk: Disk,
    base: PathView,
    overlay: PathView,
    mode: OverlayMode,
    n: int,
    p: PathView,
)
    requires
        are_outside(base, overlay),
        0 <= n <= overlay_plan(base, overlay, mode).len(),
    ensures
        ({
            let after = disk.after_steps(overlay_plan(base, overlay, mode).take(n));
            &&& after.holds(p) ==> disk.holds(p) || belongs(disk, base, overlay, p)
            &&& after.links.dom().contains(p) ==> disk.links.dom().contains(p) || is_linked(
                disk,
                base,
                overlay,
                mode,
                p,
            )
        }),
    decreases n,
{
    let plan = overlay_plan(base, overlay, mode);
    if n > 0 {
        let before = disk.after_steps(plan.take(n - 1));
        let step = plan[n - 1];
        lemma_only_what_belongs_is_added(disk, base, overlay, mode, n - 1, p);
        assert(plan.take(n).drop_last() == plan.take(n - 1));
        assert(plan.take(n).last() == step);
        lemma_steps(base, overlay, mode, n - 1);
        lemma_step(before, step);
        lemma_step_adds_little(before, step, p);
        lemma_base_is_kept(disk, base, overlay, mode, n - 1);
        lemma_sources_lie_in_base(base, overlay, mode, n - 1);
        assert(overlay_dirs(overlay)[0] == overlay);
        assert(overlay_dirs(overlay)[1] == overlay.child("registry"@));
        match step {
            OverlayStepView::MakeDir(dir) => {
                if n - 1 < 6 {
                    assert(dir == overlay_dirs(overlay)[n - 1]);
                }
            },
            OverlayStepView::CopyIfPresent(src, dst) => {
                assert(dst == overlay.child(copied_files()[n - 7]));
                assert(dst.parent()->0.parts =~= overlay.parts);
                assert(dst.parent()->0 == overlay_dirs(overlay)[0]);
            },
            OverlayStepView::LinkIfPresent(src, dst) => {
                assert(dst.parent()->0.parts =~= overlay.parts);
                assert(dst.parent()->0 == overlay_dirs(overlay)[0]);
            },
            OverlayStepView::LinkOrMakeDir(src, dst) => {
                lemma_own_way(dst);
                assert(dst.parent()->0.parts =~= overlay.child("registry"@).parts);
                assert(dst.parent()->0 == overlay_dirs(overlay)[1]);
            },
        }
    }
}

/// The directories that every overlay home has are there once it is prepared, and none
/// of them is a link unless it was one before.
pub proof fn overlay_directories_are_its_own(
    disk: Disk,
    base: PathView,
    overlay: PathView,
    mode: OverlayMode,
    at: int,
)
    requires
        are_outside(base, overlay),
        disk.can_prepare(base, overlay, mode),
        0 <= at < overlay_dirs(overlay).len(),
        !disk.links.dom().contains(overlay_dirs(overlay)[at]),
    ensures
        disk.prepared(base, overlay, mode).dirs.contains(overlay_dirs(overlay)[at]),
        !disk.prepared(base, overlay, mode).links.dom().contains(overlay_dirs(overlay)[at]),
{
    let plan = overlay_plan(base, overlay, mode);
    let dir = overlay_dirs(overlay)[at];
    assert(plan.take(plan.len() as int) == plan);
    lemma_all_is_done(disk, base, overlay, mode);
    lemma_steps(base, overlay, mode, at);
    assert(disk.prepared(base, overlay, mode).is_done(plan[at]));
    lemma_own_way(dir);
    lemma_only_what_belongs_is_added(disk, base, overlay, mode, plan.len() as int, dir);
    lemma_dirs_lie_beside_archives(overlay, at, dir);
    lemma_own_way(archive_dir(overlay));
    lemma_programs_lie_beside_dirs(overlay, at);
}

/// The directories in an overlay home that Cargo fills.
pub open spec fn filled_dirs(overlay: PathView) -> Seq<PathView> {
    seq![
        overlay.child("registry"@).child("src"@),
        overlay.child("registry"@).child("index"@),
        overlay.child("git"@).child("db"@),
        overlay.child("git"@).child("checkouts"@),
        archive_dir(overlay),
    ]
}

/// What an overlay home holds that was not there before it was prepared. Each of the
/// listed files is there exactly if Cargo's home has it, with the same contents. The
/// programs are there exactly if Cargo's home has them, by a link. Nothing else lies
/// beside `registry` and `git`. The directories in them that Cargo fills are there. They
/// are the overlay home's own and empty, but for the crate archives of an overlay home
/// for runs without network.
pub proof fn new_overlay_homes_hold_what_is_listed(
    disk: Disk,
    base: PathView,
    overlay: PathView,
    mode: OverlayMode,
)
    requires
        are_outside(base, overlay),
        disk.can_prepare(base, overlay, mode),
        forall|p: PathView| #[trigger] p.is_under(overlay) ==> !disk.holds(p),
    ensures
        ({
            let after = disk.prepared(base, overlay, mode);
            &&& forall|k: int|
                0 <= k < copied_files().len() ==> {
                    let file = #[trigger] copied_files()[k];
                    &&& after.holds(overlay.child(file)) <==> disk.reaches(base.child(file))
                    &&& disk.reaches(base.child(file)) ==> after.files.dom().contains(
                        overlay.child(file),
                    ) && after.files[overlay.child(file)] == disk.files[base.child(file)]
                        && !after.links.dom().contains(overlay.child(file))
                }
            &&& after.holds(overlay.child("bin"@)) <==> disk.reaches(base.child("bin"@))
            &&& disk.reaches(base.child("bin"@)) ==> after.leads(
                overlay.child("bin"@),
                base.child("bin"@),
            )
            &&& forall|name: Seq<char>| #[trigger]
                after.holds(overlay.child(name)) ==> copied_files().contains(name) || name
                    == "bin"@ || name == "registry"@ || name == "git"@
            &&& forall|i: int|
                0 <= i < filled_dirs(overlay).len() ==> after.reaches(
                    #[trigger] filled_dirs(overlay)[i],
                )
            &&& forall|i: int, p: PathView|
                #![trigger p.is_under(filled_dirs(overlay)[i])]
                0 <= i < filled_dirs(overlay).len() && (i < 4 || mode
                    == OverlayMode::IsolatedOnline) && p.is_under(filled_dirs(overlay)[i]) ==> {
                    &&& !after.links.dom().contains(p)
                    &&& after.holds(p) ==> p == filled_dirs(overlay)[i] && after.dirs.contains(p)
                }
        }),
{
    let plan = overlay_plan(base, overlay, mode);
    let after = disk.prepared(base, overlay, mode);
    let n = overlay.parts.len() as int;
    assert(plan.take(plan.len() as int) == plan);
    lemma_all_is_done(disk, base, overlay, mode);
    lemma_names();
    assert forall|p: PathView| #[trigger] p.is_under(overlay) implies (after.holds(p) ==> belongs(
        disk,
        base,
        overlay,
        p,
    )) && (after.links.dom().contains(p) ==> is_linked(disk, base, overlay, mode, p)) by {
        lemma_only_what_belongs_is_added(disk, base, overlay, mode, plan.len() as int, p);
    }
    assert forall|name: Seq<char>| #[trigger] overlay.child(name).is_under(overlay) by {
        assert(overlay.parts =~= overlay.child(name).parts.subrange(0, n));
    }
    assert forall|name: Seq<char>, other: Seq<char>| #[trigger]
        overlay.child(name) == #[trigger] overlay.child(other) implies name == other by {
        assert(overlay.child(name).parts.last() == overlay.child(other).parts.last());
    }
    assert forall|name: Seq<char>| #[trigger]
        after.holds(overlay.child(name)) implies copied_files().contains(name) || name == "bin"@
        || name == "registry"@ || name == "git"@ by {
        assert(overlay.child(name).is_under(overlay));
        if name != "registry"@ && name != "git"@ {
            lemma_no_way(overlay, name);
        }
    }
    assert forall|k: int| 0 <= k < copied_files().len() implies {
        let file = #[trigger] copied_files()[k];
        &&& after.holds(overlay.child(file)) <==> disk.reaches(base.child(file))
        &&& disk.reaches(base.child(file)) ==> after.files.dom().contains(overlay.child(file))
            && after.files[overlay.child(file)] == disk.files[base.child(file)]
            && !after.links.dom().contains(overlay.child(file))
    } by {
        let file = copied_files()[k];
        lemma_steps(base, overlay, mode, k + 6);
        lemma_sources_lie_in_base(base, overlay, mode, k + 6);
        assert(disk.allows(plan[k + 6]));
        assert(after.is_done(plan[k + 6]));
        assert(overlay.child(file).is_under(overlay));
        lemma_no_way(overlay, file);
        assert(archive_dir(overlay).parts.len() == n + 2);
        assert(overlay.child(file).parts.len() == n + 1);
    }
    let bin = overlay.child("bin"@);
    lemma_steps(base, overlay, mode, 12);
    lemma_sources_lie_in_base(base, overlay, mode, 12);
    assert(after.is_done(plan[12]));
    assert(bin.is_under(overlay));
    lemma_no_way(overlay, "bin"@);
    if disk.reaches(base.child("bin"@)) {
        lemma_programs_are_linked(disk, base, overlay, mode);
    }
    assert forall|i: int| 0 <= i < filled_dirs(overlay).len() implies after.reaches(
        #[trigger] filled_dirs(overlay)[i],
    ) by {
        lemma_own_way(filled_dirs(overlay)[i]);
        if i < 4 {
            lemma_steps(base, overlay, mode, i + 2);
            assert(filled_dirs(overlay)[i] == overlay_dirs(overlay)[i + 2]);
            assert(after.is_done(plan[i + 2]));
        } else {
            lemma_sources_lie_in_base(base, overlay, mode, 13);
            assert(after.is_done(plan[13]));
        }
    }
    assert forall|i: int, p: PathView|
        #![trigger p.is_under(filled_dirs(overlay)[i])]
        0 <= i < filled_dirs(overlay).len() && (i < 4 || mode == OverlayMode::IsolatedOnline)
            && p.is_under(filled_dirs(overlay)[i]) implies !after.links.dom().contains(p) && (
    after.holds(p) ==> p == filled_dirs(overlay)[i] && after.dirs.contains(p)) by {
        let dir = filled_dirs(overlay)[i];
        assert(dir.parts.len() == n + 2);
        assert(dir.is_under(overlay)) by {
            assert(overlay.parts =~= dir.parts.subrange(0, n));
        }
        lemma_way_on(p, dir, overlay);
        assert(p.parts.len() >= n + 2);
        assert(bin.parts.len() == n + 1);
        if i < 4 {
            lemma_own_way(dir);
            assert(dir == overlay_dirs(overlay)[i + 2]);
            lemma_dirs_lie_beside_archives(overlay, i + 2, dir);
            lemma_own_way(archive_dir(overlay));
        }
        if after.holds(p) {
            assert(p.parts.len() == n + 2) by {
                assert(forall|j: int|
                    0 <= j < 6 ==> (#[trigger] overlay_dirs(overlay)[j]).parts.len() <= n + 2);
                assert(forall|k: int|
                    0 <= k < 6 ==> overlay.child(#[trigger] copied_files()[k]).parts.len() == n
                        + 1);
            }
            assert(p.parts =~= dir.parts) by {
                assert(p.parts.subrange(0, n + 2) =~= p.parts);
            }
            if i < 4 {
                assert(after.is_done(plan[i + 2]));
                lemma_steps(base, overlay, mode, i + 2);
            } else {
                assert(after.is_done(plan[13]));
            }
            lemma_own_way(dir);
        }
    }
}

proof fn lemma_no_way(overlay: PathView, name: Seq<char>)
    requires
        name != "registry"@,
        name != "git"@,
    ensures
        forall|i: int|
            0 <= i < 6 ==> !(#[trigger] overlay_dirs(overlay)[i]).is_under(overlay.child(name)),
        !archive_dir(overlay).is_under(overlay.child(name)),
{
    assert forall|i: int| 0 <= i < 6 implies !(#[trigger] overlay_dirs(overlay)[i]).is_under(
        overlay.child(name),
    ) by {
        lemma_ways(overlay, i, name);
    }
    lemma_ways(overlay, 6, name);
}

/// The programs are linked where nothing stands in their place.
proof fn lemma_programs_are_linked(
    disk: Disk,
    base: PathView,
    overlay: PathView,
    mode: OverlayMode,
)
    requires
        are_outside(base, overlay),
        disk.can_prepare(base, overlay, mode),
        disk.reaches(base.child("bin"@)),
        !disk.holds(overlay.child("bin"@)),
    ensures
        disk.prepared(base, overlay, mode).leads(overlay.child("bin"@), base.child("bin"@)),
{
    let plan = overlay_plan(base, overlay, mode);
    let bin = overlay.child("bin"@);
    let before = disk.after_steps(plan.take(12));
    let after = disk.after_steps(plan.take(13));
    lemma_names();
    lemma_no_way(overlay, "bin"@);
    lemma_steps(base, overlay, mode, 12);
    lemma_first_steps_are_done(disk, base, overlay, mode, 12);
    lemma_sources_lie_in_base(base, overlay, mode, 12);
    lemma_programs_come_last(disk, base, overlay, mode, 12);
    assert(plan.take(13).drop_last() == plan.take(12));
    assert(plan.take(13).last() == plan[12]);
    lemma_step(before, plan[12]);
    assert(!bin.parent()->0.is_under(bin));
    assert(after.leads(bin, base.child("bin"@)));
    assert(plan.drop_last() == plan.take(13));
    assert(!bin.is_under(archive_dir(overlay)));
    lemma_step_takes_little(after, base, overlay, mode, 13, bin);
}

proof fn lemma_programs_come_last(
    disk: Disk,
    base: PathView,
    overlay: PathView,
    mode: OverlayMode,
    n: int,
)
    requires
        0 <= n <= 12,
        !disk.holds(overlay.child("bin"@)),
    ensures
        !disk.after_steps(overlay_plan(base, overlay, mode).take(n)).holds(overlay.child("bin"@)),
    decreases n,
{
    let plan = overlay_plan(base, overlay, mode);
    let bin = overlay.child("bin"@);
    if n > 0 {
        lemma_programs_come_last(disk, base, overlay, mode, n - 1);
        assert(plan.take(n).drop_last() == plan.take(n - 1));
        assert(plan.take(n).last() == plan[n - 1]);
        lemma_steps(base, overlay, mode, n - 1);
        lemma_names();
        lemma_no_way(overlay, "bin"@);
        lemma_step_adds_little(disk.after_steps(plan.take(n - 1)), plan[n - 1], bin);
        if n - 1 >= 6 {
            let dst = overlay.child(copied_files()[n - 7]);
            assert(dst.parts.last() == copied_files()[n - 7]);
            assert(bin.parts.last() == "bin"@);
            assert(dst.parent()->0.parts.len() < bin.parts.len());
        }
    }
}

} // verus!

//! The workspace that a command works on, and the directories that are managed
//! for it.

use crate::hash::{hash_of, hash_text, hash_text_tells_hashes_apart, stable_hash};
use crate::number::hex_is_digits;
use crate::path::{
    fixed_names_are_plain, is_plain_name, paths_below_lie_apart, paths_that_part_lie_apart,
    ManagedPath, OsTextView, PathView,
};
use crate::place::{
    add_rest, add_undotted, bends, bends_end_the_winding_part, count_bends,
    dots_are_left_out_part_by_part, is_relative, is_straight, part_views, undotted,
    undotted_paths_stay, PartView, PlacePart,
};
use crate::settings::Settings;
use crate::text::{chars_contain, chars_of, contained_texts_can_be_cut_out, contains};
use vstd::prelude::*;
use vstd::utf8::encode_utf8;

verus! {

/// The name of a manifest.
pub const MANIFEST_NAME: &'static str = "Cargo.toml";

/// A path that names an entry of a directory, and not a root or nothing.
pub open spec fn names_entry(path: Seq<PartView>) -> bool {
    path.len() > 0 && !(path.last() is Root)
}

/// The directory around which a workspace is looked for, as it is named: the current
/// directory, or the one that holds the manifest. A manifest that is named by a relative
/// path is looked for from the current directory.
pub open spec fn search_place(cwd: Seq<PartView>, manifest_dir: Option<Seq<PartView>>) -> Seq<
    PartView,
> {
    match manifest_dir {
        Some(dir) => if is_relative(dir) {
            undotted(cwd + dir)
        } else {
            undotted(dir)
        },
        None => undotted(cwd),
    }
}

/// The directory at which the search for the workspace starts. Where the path leads out
/// of directories, only the file system can say where to, since a name before two dots
/// may be that of a link. `canonical` is where the path leads up to the last two dots, if
/// that can be had. The names that follow are taken as they are.
pub open spec fn search_start(place: Seq<PartView>, canonical: Option<Seq<PartView>>) -> Seq<
    PartView,
> {
    match canonical {
        Some(canonical) => if bends(place) > 0 {
            canonical + place.skip(bends(place) as int)
        } else {
            place
        },
        None => place,
    }
}

/// The directory around which a workspace is looked for: a part of its path that leads
/// out of directories, if there is one, and the names that follow.
#[derive(Debug, PartialEq, Eq)]
pub struct SearchRoot {
    pub winding: Vec<PlacePart>,
    pub straight: Vec<PlacePart>,
}

impl SearchRoot {
    /// This is the directory, as it is named.
    pub open spec fn is_at(self, place: Seq<PartView>) -> bool {
        &&& part_views(self.winding@) == place.take(bends(place) as int)
        &&& part_views(self.straight@) == place.skip(bends(place) as int)
    }

    /// The directory at which the search starts, given where the winding part leads, if
    /// that can be had.
    pub open spec fn start_view(self, canonical: Option<Seq<PartView>>) -> Seq<PartView> {
        match canonical {
            Some(canonical) => if self.winding@.len() > 0 {
                canonical + part_views(self.straight@)
            } else {
                part_views(self.straight@)
            },
            None => part_views(self.winding@) + part_views(self.straight@),
        }
    }

    /// Finds the directory at which the search starts, given where the winding part
    /// leads, if that can be had.
    pub fn start(&self, canonical: Option<&Vec<PlacePart>>) -> (start: Vec<PlacePart>)
        ensures
            part_views(start@) == self.start_view(
                match canonical {
                    Some(canonical) => Some(part_views(canonical@)),
                    None => None,
                },
            ),
    {
        let mut start: Vec<PlacePart> = Vec::new();
        match canonical {
            Some(canonical) => if self.winding.len() > 0 {
                add_rest(&mut start, canonical, 0);
            },
            None => add_rest(&mut start, &self.winding, 0),
        }
        add_rest(&mut start, &self.straight, 0);
        start
    }
}

/// What is found to be the directory gives the start of the search around it.
pub proof fn searches_start_around_the_place(
    root: SearchRoot,
    place: Seq<PartView>,
    canonical: Option<Seq<PartView>>,
)
    requires
        root.is_at(place),
    ensures
        root.start_view(canonical) == search_start(place, canonical),
{
    bends_end_the_winding_part(place);
    let n = bends(place) as int;
    assert(part_views(root.winding@).len() == n);
    assert(place.take(n) + place.skip(n) == place);
    assert(place.skip(0) == place);
}

/// Finds the directory around which a workspace is looked for, from the current
/// directory and the manifest that the command line names. A manifest without a
/// directory around it is an error.
pub fn search_root(cwd: &Vec<PlacePart>, manifest: Option<&Vec<PlacePart>>) -> (root: Result<
    SearchRoot,
    String,
>)
    ensures
        match manifest {
            Some(manifest) => if names_entry(part_views(manifest@)) {
                root matches Ok(root) && root.is_at(
                    search_place(part_views(cwd@), Some(part_views(manifest@).drop_last())),
                )
            } else {
                root matches Err(message) && message@ == "manifest path has no parent directory"@
            },
            None => root matches Ok(root) && root.is_at(search_place(part_views(cwd@), None)),
        },
{
    let ghost here = part_views(cwd@);
    let mut place: Vec<PlacePart> = Vec::new();
    assert(part_views(place@) =~= Seq::empty());
    assert(here.take(here.len() as int) == here);
    match manifest {
        Some(manifest) => {
            let ghost path = part_views(manifest@);
            let n: usize = manifest.len();
            let rooted = n == 0 || matches!(manifest[n - 1], PlacePart::Root(_));
            assert(n > 0 ==> path.last() == manifest@[n - 1]@);
            if rooted {
                return Err("manifest path has no parent directory".to_owned());
            }
            let ghost dir = path.drop_last();
            assert(path.take(n - 1) == dir);
            assert(dir.len() > 0 ==> dir[0] == manifest@[0]@);
            let relative = n == 1 || !matches!(manifest[0], PlacePart::Root(_));
            if relative {
                add_undotted(&mut place, cwd, cwd.len());
            }
            add_undotted(&mut place, manifest, n - 1);
            proof {
                dots_are_left_out_part_by_part(here, dir);
                assert(Seq::<PartView>::empty() + undotted(here) == undotted(here));
                assert(Seq::<PartView>::empty() + undotted(dir) == undotted(dir));
            }
        },
        None => {
            add_undotted(&mut place, cwd, cwd.len());
            assert(Seq::<PartView>::empty() + undotted(here) == undotted(here));
        },
    }
    let count: usize = count_bends(&place);
    let mut straight: Vec<PlacePart> = Vec::new();
    assert(part_views(straight@) =~= Seq::empty());
    add_rest(&mut straight, &place, count);
    let ghost whole = part_views(place@);
    assert(part_views(straight@) == whole.skip(count as int));
    let mut winding = place;
    winding.truncate(count);
    assert(part_views(winding@) =~= whole.take(count as int));
    Ok(SearchRoot { winding, straight })
}

/// A manifest that is named without a directory, or in the directory itself, is
/// searched from the current directory, as if none was named.
pub proof fn manifest_beside_you_changes_nothing(cwd: Seq<PartView>, dir: Seq<PartView>)
    requires
        forall|i: int| 0 <= i < dir.len() ==> #[trigger] dir[i] is Here,
    ensures
        search_place(cwd, Some(dir)) == search_place(cwd, None),
{
    dots_are_left_out_part_by_part(cwd, dir);
    lemma_dots_lead_nowhere(dir);
    assert(undotted(cwd) + undotted(dir) == undotted(cwd));
}

proof fn lemma_dots_lead_nowhere(dir: Seq<PartView>)
    requires
        forall|i: int| 0 <= i < dir.len() ==> #[trigger] dir[i] is Here,
    ensures
        undotted(dir).len() == 0,
    decreases dir.len(),
{
    if dir.len() > 0 {
        assert(dir[dir.len() - 1] is Here);
        lemma_dots_lead_nowhere(dir.drop_last());
    }
}

/// A manifest that is named by a relative path is searched as if it was named in full,
/// from anywhere.
pub proof fn relative_manifests_are_read_from_here(
    cwd: Seq<PartView>,
    dir: Seq<PartView>,
    elsewhere: Seq<PartView>,
)
    requires
        !is_relative(cwd),
        is_relative(dir),
    ensures
        search_place(cwd, Some(dir)) == search_place(elsewhere, Some(cwd + dir)),
{
    assert((cwd + dir)[0] == cwd[0]);
}

/// A directory that is named without two dots is searched as it is named, whatever the
/// file system says.
pub proof fn straight_paths_are_taken_as_named(
    place: Seq<PartView>,
    canonical: Option<Seq<PartView>>,
)
    requires
        is_straight(place),
    ensures
        search_start(place, canonical) == place,
{
    bends_end_the_winding_part(place);
}

/// Where the file system says where a path leads, the search starts at a directory
/// whose path has no two dots, so that each path above it encloses it.
pub proof fn starts_are_straight(place: Seq<PartView>, canonical: Seq<PartView>)
    requires
        is_straight(canonical),
    ensures
        is_straight(search_start(place, Some(canonical))),
{
    bends_end_the_winding_part(place);
    let rest = place.skip(bends(place) as int);
    if bends(place) > 0 {
        let start = canonical + rest;
        assert forall|i: int| 0 <= i < start.len() implies !(#[trigger] start[i] is Up) by {
            if i < canonical.len() {
                assert(start[i] == canonical[i]);
            } else {
                assert(start[i] == rest[i - canonical.len()]);
            }
        }
    }
}

/// A manifest that is named by a way out of the current directory is searched as from
/// the directory above, where that is what the file system says: the current directory
/// itself plays no part.
pub proof fn ways_out_leave_the_directory(
    above: Seq<PartView>,
    name: OsTextView,
    dir: Seq<PartView>,
)
    requires
        is_straight(dir),
        is_relative(dir),
    ensures
        search_start(
            search_place(above.push(PartView::Name(name)), Some(seq![PartView::Up] + dir)),
            Some(undotted(above)),
        ) == search_place(above, Some(dir)),
{
    let cwd = above.push(PartView::Name(name));
    let out = seq![PartView::Up];
    let rest = undotted(dir);
    dots_are_left_out_part_by_part(cwd, out + dir);
    dots_are_left_out_part_by_part(out, dir);
    dots_are_left_out_part_by_part(above, dir);
    undotted_paths_stay(out);
    assert((out + dir)[0] == PartView::Up);
    let way = undotted(cwd) + out;
    let place = search_place(cwd, Some(out + dir));
    assert(place == way + rest);
    lemma_undotted_is_straight(dir);
    lemma_bends_before_names(way, rest);
    assert(place.skip(way.len() as int) == rest);
}

proof fn lemma_undotted_is_straight(path: Seq<PartView>)
    requires
        is_straight(path),
    ensures
        is_straight(undotted(path)),
    decreases path.len(),
{
    if path.len() > 0 {
        assert(!(path[path.len() - 1] is Up));
        assert(forall|i: int|
            0 <= i < path.len() - 1 ==> #[trigger] path.drop_last()[i] == path[i]);
        lemma_undotted_is_straight(path.drop_last());
    }
}

proof fn lemma_bends_before_names(way: Seq<PartView>, names: Seq<PartView>)
    requires
        way.len() > 0,
        way.last() is Up,
        is_straight(names),
    ensures
        bends(way + names) == way.len(),
    decreases names.len(),
{
    if names.len() == 0 {
        assert(way + names == way);
    } else {
        assert(!(names[names.len() - 1] is Up));
        assert((way + names).drop_last() == way + names.drop_last());
        assert((way + names).last() == names.last());
        assert(forall|i: int|
            0 <= i < names.len() - 1 ==> #[trigger] names.drop_last()[i] == names[i]);
        lemma_bends_before_names(way, names.drop_last());
    }
}

/// A manifest that makes its directory the root of a workspace.
pub open spec fn is_workspace_manifest(contents: Seq<char>) -> bool {
    contains(contents, "[workspace]"@)
}

/// Tells whether a manifest makes its directory the root of a workspace.
pub fn declares_workspace(contents: &str) -> (yes: bool)
    ensures
        yes == is_workspace_manifest(contents@),
{
    chars_contain(&chars_of(contents), "[workspace]")
}

/// A directory that holds the manifest of a workspace.
pub open spec fn is_workspace_root(probe: Option<String>) -> bool {
    probe matches Some(contents) && is_workspace_manifest(contents@)
}

/// Which directory is taken as the workspace.
#[derive(Copy, Clone, Debug, PartialEq, Eq, Structural)]
pub enum RootChoice {
    /// The directory that many steps above the start of the search.
    Ancestor(usize),
    /// The current directory.
    CurrentDir,
}

/// The directory to take, where `probes` holds the manifest of each directory from
/// the start of the search upwards, if it has one: the nearest workspace root, else
/// the nearest directory with a manifest, else the current directory.
pub open spec fn is_root_choice(probes: Seq<Option<String>>, choice: RootChoice) -> bool {
    match choice {
        RootChoice::Ancestor(at) => {
            &&& at < probes.len()
            &&& probes[at as int] is Some
            &&& if is_workspace_root(probes[at as int]) {
                forall|i: int| 0 <= i < at ==> !is_workspace_root(#[trigger] probes[i])
            } else {
                &&& forall|i: int|
                    0 <= i < probes.len() ==> !is_workspace_root(#[trigger] probes[i])
                &&& forall|i: int| 0 <= i < at ==> #[trigger] probes[i] is None
            }
        },
        RootChoice::CurrentDir => forall|i: int|
            0 <= i < probes.len() ==> #[trigger] probes[i] is None,
    }
}

/// Chooses the workspace from the manifests that were found on the way up.
pub fn discover_workspace_root(probes: &Vec<Option<String>>) -> (choice: RootChoice)
    ensures
        is_root_choice(probes@, choice),
{
    let mut nearest: RootChoice = RootChoice::CurrentDir;
    let mut i: usize = 0;
    while i < probes.len()
        invariant
            i <= probes@.len(),
            forall|j: int| 0 <= j < i ==> !is_workspace_root(#[trigger] probes@[j]),
            match nearest {
                RootChoice::Ancestor(at) => at < i && probes@[at as int] is Some && forall|j: int|
                    0 <= j < at ==> #[trigger] probes@[j] is None,
                RootChoice::CurrentDir => forall|j: int|
                    0 <= j < i ==> #[trigger] probes@[j] is None,
            },
        decreases probes@.len() - i,
    {
        if let Some(contents) = &probes[i] {
            if let RootChoice::CurrentDir = nearest {
                nearest = RootChoice::Ancestor(i);
            }
            if declares_workspace(contents.as_str()) {
                return RootChoice::Ancestor(i);
            }
        }
        i += 1;
    }
    nearest
}

/// There is one choice at most.
pub proof fn root_choice_is_unique(probes: Seq<Option<String>>, a: RootChoice, b: RootChoice)
    requires
        is_root_choice(probes, a),
        is_root_choice(probes, b),
    ensures
        a == b,
{
    match (a, b) {
        (RootChoice::Ancestor(i), RootChoice::Ancestor(j)) => {
            assert(probes[i as int] is Some && probes[j as int] is Some);
            assert(is_workspace_root(probes[i as int]) == is_workspace_root(probes[j as int]));
        },
        (RootChoice::Ancestor(i), RootChoice::CurrentDir) => {
            assert(probes[i as int] is Some);
        },
        (RootChoice::CurrentDir, RootChoice::Ancestor(j)) => {
            assert(probes[j as int] is Some);
        },
        (RootChoice::CurrentDir, RootChoice::CurrentDir) => {},
    }
}

/// The search may stop at a workspace root: what lies above does not change the
/// choice.
pub proof fn search_may_stop_at_a_workspace(
    probes: Seq<Option<String>>,
    above: Seq<Option<String>>,
    choice: RootChoice,
)
    requires
        probes.len() > 0,
        is_workspace_root(probes.last()),
        is_root_choice(probes, choice),
    ensures
        is_root_choice(probes + above, choice),
{
    let all = probes + above;
    assert(forall|i: int| 0 <= i < probes.len() ==> #[trigger] all[i] == probes[i]);
    let last = probes.len() - 1;
    assert(is_workspace_root(probes[last]));
    match choice {
        RootChoice::Ancestor(at) => {
            assert(is_workspace_root(probes[at as int]));
            assert(all[at as int] == probes[at as int]);
        },
        RootChoice::CurrentDir => {
            assert(probes[last] is None);
        },
    }
}

/// The path by which a workspace is known, of the path by which it was found and its
/// canonical path, if there is one.
pub open spec fn known_root(found: Seq<char>, canonical: Option<Seq<char>>) -> Seq<char> {
    match canonical {
        Some(canonical) => canonical,
        None => found,
    }
}

/// A workspace: the path of its root, as text, and the key that names it.
#[derive(Debug)]
pub struct WorkspaceIdentity {
    root: String,
    key: String,
}

impl WorkspaceIdentity {
    #[verifier::type_invariant]
    spec fn has_its_key(self) -> bool {
        self.key@ == hash_text(self.root@)
    }

    /// The path of the root.
    pub closed spec fn root_view(self) -> Seq<char> {
        self.root@
    }

    /// The workspace at the root that was found, or at its canonical path where
    /// that could be had.
    pub fn discover(found: String, canonical: Option<String>) -> (identity: WorkspaceIdentity)
        ensures
            identity.root_view() == (match canonical {
                Some(canonical) => canonical@,
                None => found@,
            }),
            identity.root_view() == known_root(
                found@,
                match canonical {
                    Some(canonical) => Some(canonical@),
                    None => None,
                },
            ),
    {
        let root = match canonical {
            Some(canonical) => canonical,
            None => found,
        };
        let key = stable_hash(root.as_str());
        WorkspaceIdentity { root, key }
    }

    /// The path of the root.
    pub fn root(&self) -> (root: &str)
        ensures
            root@ == self.root_view(),
    {
        self.root.as_str()
    }

    /// The key that names the workspace.
    pub fn key(&self) -> (key: &str)
        ensures
            key@ == hash_text(self.root_view()),
            is_plain_name(key@),
    {
        proof {
            use_type_invariant(self);
            keys_are_plain(self.root@);
        }
        self.key.as_str()
    }
}

/// A key can be the name of a directory.
pub proof fn keys_are_plain(root: Seq<char>)
    ensures
        is_plain_name(hash_text(root)),
{
    hex_is_digits(hash_of(encode_utf8(root)) as nat, 16);
}

/// The directory that holds everything that is managed for a workspace.
pub open spec fn managed_root(state_root: PathView, workspace: Seq<char>) -> PathView {
    state_root.child("workspaces"@).child(hash_text(workspace))
}

/// The directories that are managed for a workspace.
#[derive(Debug)]
pub struct WorkspacePaths {
    pub shared_target_dir: ManagedPath,
    pub shared_build_dir: ManagedPath,
    pub lanes_dir: ManagedPath,
    pub root_note: ManagedPath,
}

impl WorkspacePaths {
    /// These are the directories below `root`.
    pub open spec fn is_rooted_at(self, root: PathView) -> bool {
        &&& self.shared_target_dir@ == root.child("target"@)
        &&& self.shared_build_dir@ == root.child("build"@).child("shared"@)
        &&& self.lanes_dir@ == root.child("lanes"@)
        &&& self.root_note@ == root.child("workspace-path.txt"@)
    }

    /// Lays out the directories for a workspace.
    pub fn new(settings: &Settings, workspace: &WorkspaceIdentity) -> (paths: WorkspacePaths)
        ensures
            paths.is_rooted_at(managed_root(settings.state_root@, workspace.root_view())),
    {
        proof {
            fixed_names_are_plain();
        }
        let root = settings.state_root.join("workspaces").join(workspace.key());
        WorkspacePaths {
            shared_target_dir: root.join("target"),
            shared_build_dir: root.join("build").join("shared"),
            lanes_dir: root.join("lanes"),
            root_note: root.join("workspace-path.txt"),
        }
    }

    /// The directories that have to exist before Cargo is run.
    pub open spec fn directory_views(self) -> Seq<PathView> {
        seq![self.shared_target_dir@, self.shared_build_dir@, self.lanes_dir@]
    }

    /// The directories that have to exist before Cargo is run, in the order in
    /// which they are made.
    pub fn directories(&self) -> (dirs: Vec<ManagedPath>)
        ensures
            path_views(dirs@) == seq![
                self.shared_target_dir@,
                self.shared_build_dir@,
                self.lanes_dir@,
            ],
            path_views(dirs@) == self.directory_views(),
    {
        let dirs = vec![
            self.shared_target_dir.clone(),
            self.shared_build_dir.clone(),
            self.lanes_dir.clone(),
        ];
        assert(path_views(dirs@) =~= seq![
            self.shared_target_dir@,
            self.shared_build_dir@,
            self.lanes_dir@,
        ]);
        dirs
    }
}

/// The paths that a list holds.
pub open spec fn path_views(list: Seq<ManagedPath>) -> Seq<PathView> {
    list.map_values(|p: ManagedPath| p@)
}

/// Workspaces with different hashes have nothing managed in common: whatever is
/// managed for one lies apart from whatever is managed for the other.
pub proof fn workspaces_are_kept_apart(
    state_root: PathView,
    a: Seq<char>,
    b: Seq<char>,
    p: PathView,
    q: PathView,
)
    requires
        hash_of(encode_utf8(a)) != hash_of(encode_utf8(b)),
        p.is_under(managed_root(state_root, a)),
        q.is_under(managed_root(state_root, b)),
    ensures
        p.is_apart_from(q),
{
    hash_text_tells_hashes_apart(a, b);
    let x = managed_root(state_root, a);
    let y = managed_root(state_root, b);
    let last = state_root.parts.len() as int + 1;
    assert(x.parts[last] == hash_text(a));
    assert(y.parts[last] == hash_text(b));
    paths_that_part_lie_apart(x, y, last);
    paths_below_lie_apart(x, y, p, q);
}

/// A manifest makes its directory the root of a workspace exactly if `[workspace]` stands
/// in it, whatever stands before and after. Manifests are files of the name `Cargo.toml`.
pub proof fn workspace_tables_make_roots(
    before: Seq<char>,
    after: Seq<char>,
    contents: Seq<char>,
)
    ensures
        MANIFEST_NAME@ == "Cargo.toml"@,
        is_workspace_manifest(before + "[workspace]"@ + after),
        is_workspace_manifest(contents) ==> exists|b: Seq<char>, a: Seq<char>|
            contents == #[trigger] (b + "[workspace]"@ + a),
{
    contained_texts_can_be_cut_out(contents, "[workspace]"@, before, after);
}

/// The nearest directory whose manifest has `[workspace]` in it is chosen, whatever else
/// stands in that manifest, in those below that have it not, and in any above.
pub proof fn nearest_workspace_is_chosen(
    probes: Seq<Option<String>>,
    choice: RootChoice,
    at: usize,
    manifest: String,
    before: Seq<char>,
    after: Seq<char>,
)
    requires
        is_root_choice(probes, choice),
        at < probes.len(),
        probes[at as int] == Some(manifest),
        manifest@ == before + "[workspace]"@ + after,
        forall|i: int|
            0 <= i < at ==> (#[trigger] probes[i] matches Some(contents) ==> !contains(
                contents@,
                "[workspace]"@,
            )),
    ensures
        choice == RootChoice::Ancestor(at),
{
    workspace_tables_make_roots(before, after, manifest@);
    contained_texts_can_be_cut_out(manifest@, "[workspace]"@, before, after);
    assert(is_workspace_root(probes[at as int]));
    assert(is_root_choice(probes, RootChoice::Ancestor(at)));
    root_choice_is_unique(probes, choice, RootChoice::Ancestor(at));
}

/// Where no manifest has `[workspace]` in it, the nearest directory with a manifest is
/// chosen, whatever stands in it, and where there is no manifest, the current directory.
pub proof fn nearest_manifest_is_chosen_without_a_workspace(
    probes: Seq<Option<String>>,
    choice: RootChoice,
    at: usize,
)
    requires
        is_root_choice(probes, choice),
        forall|i: int|
            0 <= i < probes.len() ==> (#[trigger] probes[i] matches Some(contents) ==> !contains(
                contents@,
                "[workspace]"@,
            )),
    ensures
        at < probes.len() && probes[at as int] is Some && (forall|i: int|
            0 <= i < at ==> #[trigger] probes[i] is None) ==> choice == RootChoice::Ancestor(at),
        (forall|i: int| 0 <= i < probes.len() ==> #[trigger] probes[i] is None) ==> choice
            == RootChoice::CurrentDir,
{
    if at < probes.len() && probes[at as int] is Some && (forall|i: int|
        0 <= i < at ==> #[trigger] probes[i] is None) {
        assert(is_root_choice(probes, RootChoice::Ancestor(at)));
        root_choice_is_unique(probes, choice, RootChoice::Ancestor(at));
    }
    if forall|i: int| 0 <= i < probes.len() ==> #[trigger] probes[i] is None {
        assert(is_root_choice(probes, RootChoice::CurrentDir));
        root_choice_is_unique(probes, choice, RootChoice::CurrentDir);
    }
}

/// Where a search starts. Without a manifest it starts at the current directory. A
/// manifest that is named from a root is looked for there, wherever the current directory
/// is. One that is named otherwise is looked for below the current directory. Only a path
/// that ends in a name, or in dots, has a directory around it.
pub proof fn searches_start_at_the_manifest(
    cwd: Seq<PartView>,
    dir: Seq<PartView>,
    last: PartView,
)
    requires
        forall|i: int| 0 <= i < cwd.len() ==> !(#[trigger] cwd[i] is Here),
        forall|i: int| 0 <= i < dir.len() ==> !(#[trigger] dir[i] is Here),
    ensures
        search_place(cwd, None) == cwd,
        dir.len() > 0 && dir[0] is Root ==> search_place(cwd, Some(dir)) == dir,
        dir.len() == 0 || !(dir[0] is Root) ==> search_place(cwd, Some(dir)) == cwd + dir,
        names_entry(dir.push(last)) <==> !(last is Root),
        !names_entry(Seq::empty()),
{
    let below = cwd + dir;
    assert forall|i: int| 0 <= i < below.len() implies !(#[trigger] below[i] is Here) by {
        if i < cwd.len() {
            assert(below[i] == cwd[i]);
        } else {
            assert(below[i] == dir[i - cwd.len()]);
        }
    }
    undotted_paths_stay(cwd);
    undotted_paths_stay(dir);
    undotted_paths_stay(below);
    assert(dir.push(last).last() == last);
}

/// Where a path leads up to its last two dots is what the file system says, where that
/// can be had, and the names behind them lead on from there. Otherwise the search starts
/// as the path is named.
pub proof fn names_lead_on_from_two_dots(
    way: Seq<PartView>,
    names: Seq<PartView>,
    canonical: Seq<PartView>,
    place: Seq<PartView>,
)
    requires
        is_straight(names),
    ensures
        search_start(way.push(PartView::Up) + names, Some(canonical)) == canonical + names,
        search_start(place, None) == place,
        search_start(names, Some(canonical)) == names,
{
    let winding = way.push(PartView::Up);
    assert(winding.last() is Up);
    lemma_bends_before_names(winding, names);
    assert((winding + names).skip(winding.len() as int) =~= names);
    straight_paths_are_taken_as_named(names, Some(canonical));
}

/// What is managed for a workspace lies below the state root, in the entry `workspaces`
/// and there in the one that has the key of the workspace as its name: the outputs, the
/// intermediates, the lanes and the note of which workspace it is, each apart from the
/// others.
pub proof fn managed_state_is_laid_out_by_key(
    paths: WorkspacePaths,
    state_root: PathView,
    workspace: Seq<char>,
)
    requires
        paths.is_rooted_at(managed_root(state_root, workspace)),
    ensures
        paths.shared_target_dir@.base == state_root.base,
        paths.shared_target_dir@.parts == state_root.parts + seq![
            "workspaces"@,
            hash_text(workspace),
            "target"@,
        ],
        paths.shared_build_dir@.base == state_root.base,
        paths.shared_build_dir@.parts == state_root.parts + seq![
            "workspaces"@,
            hash_text(workspace),
            "build"@,
            "shared"@,
        ],
        paths.lanes_dir@.base == state_root.base,
        paths.lanes_dir@.parts == state_root.parts + seq![
            "workspaces"@,
            hash_text(workspace),
            "lanes"@,
        ],
        paths.root_note@.base == state_root.base,
        paths.root_note@.parts == state_root.parts + seq![
            "workspaces"@,
            hash_text(workspace),
            "workspace-path.txt"@,
        ],
        paths.shared_target_dir@.is_apart_from(paths.shared_build_dir@),
        paths.shared_target_dir@.is_apart_from(paths.lanes_dir@),
        paths.shared_target_dir@.is_apart_from(paths.root_note@),
        paths.shared_build_dir@.is_apart_from(paths.lanes_dir@),
        paths.shared_build_dir@.is_apart_from(paths.root_note@),
        paths.lanes_dir@.is_apart_from(paths.root_note@),
{
    reveal_strlit("target");
    reveal_strlit("build");
    reveal_strlit("lanes");
    reveal_strlit("workspace-path.txt");
    assert("target"@[0] == 't' && "build"@[0] == 'b' && "lanes"@[0] == 'l'
        && "workspace-path.txt"@[0] == 'w');
    assert(paths.shared_target_dir@.parts =~= state_root.parts + seq![
        "workspaces"@,
        hash_text(workspace),
        "target"@,
    ]);
    assert(paths.shared_build_dir@.parts =~= state_root.parts + seq![
        "workspaces"@,
        hash_text(workspace),
        "build"@,
        "shared"@,
    ]);
    assert(paths.lanes_dir@.parts =~= state_root.parts + seq![
        "workspaces"@,
        hash_text(workspace),
        "lanes"@,
    ]);
    assert(paths.root_note@.parts =~= state_root.parts + seq![
        "workspaces"@,
        hash_text(workspace),
        "workspace-path.txt"@,
    ]);
    let at = state_root.parts.len() as int + 2;
    paths_that_part_lie_apart(paths.shared_target_dir@, paths.shared_build_dir@, at);
    paths_that_part_lie_apart(paths.shared_target_dir@, paths.lanes_dir@, at);
    paths_that_part_lie_apart(paths.shared_target_dir@, paths.root_note@, at);
    paths_that_part_lie_apart(paths.shared_build_dir@, paths.lanes_dir@, at);
    paths_that_part_lie_apart(paths.shared_build_dir@, paths.root_note@, at);
    paths_that_part_lie_apart(paths.lanes_dir@, paths.root_note@, at);
}

/// A workspace is known by its canonical path where that can be had, and then the path by
/// which it was found makes no difference. Otherwise it is known by that path.
pub proof fn workspaces_are_known_by_their_canonical_path(
    found: Seq<char>,
    other: Seq<char>,
    canonical: Seq<char>,
)
    ensures
        known_root(found, Some(canonical)) == canonical,
        known_root(found, Some(canonical)) == known_root(other, Some(canonical)),
        known_root(found, None) == found,
{
}

/// The shared directories and that of the lanes are made before Cargo is run, and no
/// others. The note is no directory.
pub proof fn shared_directories_are_made(paths: WorkspacePaths, dir: PathView)
    ensures
        paths.directory_views().contains(dir) <==> (dir == paths.shared_target_dir@ || dir
            == paths.shared_build_dir@ || dir == paths.lanes_dir@),
{
    let all = paths.directory_views();
    assert(all[0] == paths.shared_target_dir@ && all[1] == paths.shared_build_dir@);
    assert(all[2] == paths.lanes_dir@);
    assert(all.contains(all[0]) && all.contains(all[1]) && all.contains(all[2]));
}

} // verus!

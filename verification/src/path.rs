//! Text from the operating system, and the paths that are made from it.

use crate::text::same_text;
use vstd::prelude::*;

verus! {

/// Text from the operating system: an argument, the value of a variable, a path.
/// What is not Unicode is kept as it came.
#[derive(Debug, PartialEq, Eq)]
pub enum OsText {
    Unicode(String),
    Opaque(Vec<u8>),
}

/// What an `OsText` holds.
pub enum OsTextView {
    Unicode(Seq<char>),
    Opaque(Seq<u8>),
}

impl View for OsText {
    type V = OsTextView;

    open spec fn view(&self) -> OsTextView {
        match self {
            OsText::Unicode(text) => OsTextView::Unicode(text@),
            OsText::Opaque(bytes) => OsTextView::Opaque(bytes@),
        }
    }
}

impl Clone for OsText {
    fn clone(&self) -> (copy: OsText)
        ensures
            copy@ == self@,
    {
        match self {
            OsText::Unicode(text) => OsText::Unicode(text.clone()),
            OsText::Opaque(bytes) => {
                let copy = bytes.clone();
                assert(copy@ =~= bytes@);
                OsText::Opaque(copy)
            },
        }
    }
}

impl OsText {
    /// The given Unicode text.
    pub fn from_text(text: &str) -> (os: OsText)
        ensures
            os@ == OsTextView::Unicode(text@),
    {
        OsText::Unicode(text.to_owned())
    }

    /// Tells whether this is the given Unicode text.
    pub fn is(&self, text: &str) -> (same: bool)
        ensures
            same == (self@ == OsTextView::Unicode(text@)),
    {
        match self {
            OsText::Unicode(own) => same_text(own.as_str(), text),
            OsText::Opaque(_) => false,
        }
    }
}

/// `c` separates the names in a path, on some platform.
pub open spec fn is_separator(c: char) -> bool {
    c == '/' || c == '\\' || c == ':'
}

/// `name` has no separator in it.
pub open spec fn is_unseparated(name: Seq<char>) -> bool {
    forall|i: int| 0 <= i < name.len() ==> !is_separator(#[trigger] name[i])
}

/// `name` names one entry of a directory, and neither the directory itself nor
/// the one above it.
pub open spec fn is_plain_name(name: Seq<char>) -> bool {
    &&& name.len() > 0
    &&& is_unseparated(name)
    &&& name != seq!['.']
    &&& name != seq!['.', '.']
}

spec fn is_clean(name: Seq<char>, n: nat) -> bool
    decreases n,
{
    n == 0 || (is_clean(name, (n - 1) as nat) && !is_separator(name[n - 1]))
}

proof fn lemma_clean(name: Seq<char>, n: nat, i: int)
    requires
        is_clean(name, n),
        0 <= i < n,
    ensures
        !is_separator(name[i]),
    decreases n,
{
    if i < n - 1 {
        lemma_clean(name, (n - 1) as nat, i);
    }
}

proof fn lemma_plain(name: Seq<char>)
    requires
        is_clean(name, name.len()),
        name.len() > 2 || (name.len() > 0 && name[0] != '.'),
    ensures
        is_plain_name(name),
{
    assert forall|i: int| 0 <= i < name.len() implies !is_separator(#[trigger] name[i]) by {
        lemma_clean(name, name.len(), i);
    }
}

/// Every fixed name that the library puts into a path is plain, and so is every
/// fixed start of a name.
pub proof fn fixed_names_are_plain()
    ensures
        is_plain_name("workspaces"@),
        is_plain_name("target"@),
        is_plain_name("build"@),
        is_plain_name("shared"@),
        is_plain_name("lanes"@),
        is_plain_name("lane-"@),
        is_plain_name("overflow-"@),
        is_plain_name("claim"@),
        is_plain_name("lease"@),
        is_plain_name("cargo-home-readonly"@),
        is_plain_name("cargo-home-online"@),
        is_plain_name("registry"@),
        is_plain_name("src"@),
        is_plain_name("index"@),
        is_plain_name("cache"@),
        is_plain_name("git"@),
        is_plain_name("db"@),
        is_plain_name("checkouts"@),
        is_plain_name("bin"@),
        is_plain_name(".crates.toml"@),
        is_plain_name(".crates2.json"@),
        is_plain_name("env"@),
        is_plain_name("config.toml"@),
        is_plain_name("credentials.toml"@),
        is_plain_name("credentials"@),
        is_plain_name("workspace-path.txt"@),
        is_plain_name(".cargo"@),
        is_plain_name(".cache"@),
        is_plain_name("Library"@),
        is_plain_name("Caches"@),
        is_plain_name("cargo-sidestep"@),
{
    reveal_with_fuel(is_clean, 24);
    reveal_strlit("workspaces");
    lemma_plain("workspaces"@);
    reveal_strlit("target");
    lemma_plain("target"@);
    reveal_strlit("build");
    lemma_plain("build"@);
    reveal_strlit("shared");
    lemma_plain("shared"@);
    reveal_strlit("lanes");
    lemma_plain("lanes"@);
    reveal_strlit("lane-");
    lemma_plain("lane-"@);
    reveal_strlit("overflow-");
    lemma_plain("overflow-"@);
    reveal_strlit("claim");
    lemma_plain("claim"@);
    reveal_strlit("lease");
    lemma_plain("lease"@);
    reveal_strlit("cargo-home-readonly");
    lemma_plain("cargo-home-readonly"@);
    reveal_strlit("cargo-home-online");
    lemma_plain("cargo-home-online"@);
    reveal_strlit("registry");
    lemma_plain("registry"@);
    reveal_strlit("src");
    lemma_plain("src"@);
    reveal_strlit("index");
    lemma_plain("index"@);
    reveal_strlit("cache");
    lemma_plain("cache"@);
    reveal_strlit("git");
    lemma_plain("git"@);
    reveal_strlit("db");
    lemma_plain("db"@);
    reveal_strlit("checkouts");
    lemma_plain("checkouts"@);
    reveal_strlit("bin");
    lemma_plain("bin"@);
    reveal_strlit(".crates.toml");
    lemma_plain(".crates.toml"@);
    reveal_strlit(".crates2.json");
    lemma_plain(".crates2.json"@);
    reveal_strlit("env");
    lemma_plain("env"@);
    reveal_strlit("config.toml");
    lemma_plain("config.toml"@);
    reveal_strlit("credentials.toml");
    lemma_plain("credentials.toml"@);
    reveal_strlit("credentials");
    lemma_plain("credentials"@);
    reveal_strlit("workspace-path.txt");
    lemma_plain("workspace-path.txt"@);
    reveal_strlit(".cargo");
    lemma_plain(".cargo"@);
    reveal_strlit(".cache");
    lemma_plain(".cache"@);
    reveal_strlit("Library");
    lemma_plain("Library"@);
    reveal_strlit("Caches");
    lemma_plain("Caches"@);
    reveal_strlit("cargo-sidestep");
    lemma_plain("cargo-sidestep"@);
}

/// A name that starts plain and goes on without separators is plain.
pub proof fn longer_name_is_plain(head: Seq<char>, tail: Seq<char>)
    requires
        is_plain_name(head),
        head[0] != '.',
        is_unseparated(tail),
    ensures
        is_plain_name(head + tail),
{
    let name = head + tail;
    assert(name[0] == head[0]);
    assert forall|i: int| 0 <= i < name.len() implies !is_separator(#[trigger] name[i]) by {
        if i < head.len() {
            assert(name[i] == head[i]);
        } else {
            assert(name[i] == tail[i - head.len()]);
        }
    }
}

/// The path that leads from `base` through `parts`, one name after the other.
#[verifier::ext_equal]
pub struct PathView {
    pub base: OsTextView,
    pub parts: Seq<Seq<char>>,
}

impl PathView {
    /// The entry `name` of this directory.
    pub open spec fn child(self, name: Seq<char>) -> PathView {
        PathView { base: self.base, parts: self.parts.push(name) }
    }

    /// This path is `root`, or leads through `root` to something below.
    pub open spec fn is_under(self, root: PathView) -> bool {
        self.base == root.base && root.parts.is_prefix_of(self.parts)
    }

    /// The path without its last name, if it has a name to lose.
    pub open spec fn parent(self) -> Option<PathView> {
        if self.parts.len() > 0 {
            Some(PathView { base: self.base, parts: self.parts.drop_last() })
        } else {
            None
        }
    }

    /// The paths start at one place, and neither is the other or leads through it. Of
    /// paths that start at places with different names nothing is known.
    pub open spec fn is_apart_from(self, other: PathView) -> bool {
        self.base == other.base && !self.is_under(other) && !other.is_under(self)
    }
}

/// What lies below two paths that lie apart lies apart too.
pub proof fn paths_below_lie_apart(a: PathView, b: PathView, p: PathView, q: PathView)
    requires
        a.is_apart_from(b),
        p.is_under(a),
        q.is_under(b),
    ensures
        p.is_apart_from(q),
{
    if p.is_under(q) {
        lemma_on_one_way(a, b, p);
    }
    if q.is_under(p) {
        lemma_on_one_way(a, b, q);
    }
}

pub(crate) proof fn lemma_on_one_way(a: PathView, b: PathView, p: PathView)
    requires
        p.is_under(a),
        p.is_under(b),
    ensures
        a.is_under(b) || b.is_under(a),
{
    if a.parts.len() <= b.parts.len() {
        assert(a.parts =~= b.parts.subrange(0, a.parts.len() as int));
    } else {
        assert(b.parts =~= a.parts.subrange(0, b.parts.len() as int));
    }
}

/// Paths that start at one place and part ways at a name lie apart.
pub proof fn paths_that_part_lie_apart(a: PathView, b: PathView, at: int)
    requires
        a.base == b.base,
        0 <= at < a.parts.len(),
        at < b.parts.len(),
        a.parts[at] != b.parts[at],
    ensures
        a.is_apart_from(b),
{
    if a.is_under(b) {
        assert(a.parts.subrange(0, b.parts.len() as int)[at] == b.parts[at]);
    }
    if b.is_under(a) {
        assert(b.parts.subrange(0, a.parts.len() as int)[at] == a.parts[at]);
    }
}

/// The texts that a list of strings holds.
pub open spec fn string_views(list: Seq<String>) -> Seq<Seq<char>> {
    list.map_values(|s: String| s@)
}

/// A path that starts at a place that the operating system named and goes on
/// through plain names.
#[derive(Debug, PartialEq, Eq)]
pub struct ManagedPath {
    base: OsText,
    parts: Vec<String>,
}

impl View for ManagedPath {
    type V = PathView;

    closed spec fn view(&self) -> PathView {
        PathView { base: self.base@, parts: string_views(self.parts@) }
    }
}

impl Clone for ManagedPath {
    fn clone(&self) -> (copy: ManagedPath)
        ensures
            copy@ == self@,
    {
        proof {
            use_type_invariant(self);
        }
        let parts = self.parts.clone();
        assert(parts@ =~= self.parts@);
        ManagedPath { base: self.base.clone(), parts }
    }
}

impl ManagedPath {
    #[verifier::type_invariant]
    spec fn has_plain_parts(self) -> bool {
        forall|i: int| 0 <= i < self.parts@.len() ==> is_plain_name(#[trigger] self.parts@[i]@)
    }

    /// The place that the operating system named.
    pub fn new(base: OsText) -> (path: ManagedPath)
        ensures
            path@ == (PathView { base: base@, parts: Seq::empty() }),
    {
        let path = ManagedPath { base, parts: Vec::new() };
        assert(path@.parts =~= Seq::empty());
        path
    }

    /// The entry `name` of this directory.
    pub fn join(&self, name: &str) -> (path: ManagedPath)
        requires
            is_plain_name(name@),
        ensures
            path@ == self@.child(name@),
    {
        proof {
            use_type_invariant(self);
        }
        let mut parts = self.parts.clone();
        assert(parts@ =~= self.parts@);
        parts.push(name.to_owned());
        let path = ManagedPath { base: self.base.clone(), parts };
        assert(path@.parts =~= self@.parts.push(name@));
        path
    }

    /// The place that the path starts at.
    pub fn base(&self) -> (base: &OsText)
        ensures
            base@ == self@.base,
    {
        &self.base
    }

    /// The names that the path goes on through.
    pub fn parts(&self) -> (parts: &Vec<String>)
        ensures
            string_views(parts@) == self@.parts,
            forall|i: int| 0 <= i < parts@.len() ==> is_plain_name(#[trigger] parts@[i]@),
    {
        proof {
            use_type_invariant(self);
        }
        &self.parts
    }
}

/// The entry of a directory lies below it, one name further on, and its way without that
/// name is the directory. Entries with different names are different, and so are those of
/// different directories.
pub proof fn entries_lie_one_name_further(
    dir: PathView,
    other: PathView,
    name: Seq<char>,
    second: Seq<char>,
)
    ensures
        dir.child(name).base == dir.base,
        dir.child(name).parts.len() == dir.parts.len() + 1,
        dir.child(name).parts.last() == name,
        dir.child(name).parent() == Some(dir),
        dir.child(name).is_under(dir),
        !dir.is_under(dir.child(name)),
        dir.child(name) == other.child(second) ==> dir == other && name == second,
{
    let entry = dir.child(name);
    assert(entry.parts.drop_last() =~= dir.parts);
    assert(dir.parts =~= entry.parts.subrange(0, dir.parts.len() as int));
    if entry == other.child(second) {
        assert(entry.parts.last() == other.child(second).parts.last());
        assert(dir.parts =~= other.child(second).parts.drop_last());
        assert(other.parts =~= other.child(second).parts.drop_last());
    }
}

} // verus!

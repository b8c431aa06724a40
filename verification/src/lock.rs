//! The lock that Cargo says it waits for.

use crate::text::{
    chars_contain, contains, lower_chars, lowered, lowered_part_by_part, lowered_twice_is_lowered,
    nothing_arises_at_the_seams, occurs_at, part_is_contained,
};
use vstd::prelude::*;

verus! {

/// What a lock that Cargo waits for guards.
#[derive(Copy, Clone, Debug, PartialEq, Eq, Structural)]
pub enum LockKind {
    BuildDirectory,
    PackageCache,
    RegistryIndex,
    GitDb,
    Other,
}

/// The lock that a line of Cargo's output reports, if it reports one. Capital
/// letters do not matter. Where a line names several locks, the first in the
/// order below counts.
pub open spec fn reported_lock(line: Seq<char>) -> Option<LockKind> {
    let low = lowered(line);
    if !contains(low, "blocking waiting for file lock"@) {
        None
    } else if contains(low, "build directory"@) {
        Some(LockKind::BuildDirectory)
    } else if contains(low, "package cache"@) {
        Some(LockKind::PackageCache)
    } else if contains(low, "registry index"@) {
        Some(LockKind::RegistryIndex)
    } else if contains(low, "git db"@) || contains(low, "git database"@) {
        Some(LockKind::GitDb)
    } else {
        Some(LockKind::Other)
    }
}

/// How a lock is called in messages.
pub open spec fn lock_name(kind: LockKind) -> Seq<char> {
    match kind {
        LockKind::BuildDirectory => "the build directory"@,
        LockKind::PackageCache => "the package cache"@,
        LockKind::RegistryIndex => "the registry index"@,
        LockKind::GitDb => "the git database"@,
        LockKind::Other => "a shared Cargo path"@,
    }
}

impl LockKind {
    /// Reads the lock that a line of Cargo's output reports.
    pub fn parse(line: &str) -> (kind: Option<LockKind>)
        ensures
            kind == reported_lock(line@),
    {
        let low = lower_chars(line);
        if !chars_contain(&low, "blocking waiting for file lock") {
            return None;
        }
        if chars_contain(&low, "build directory") {
            Some(LockKind::BuildDirectory)
        } else if chars_contain(&low, "package cache") {
            Some(LockKind::PackageCache)
        } else if chars_contain(&low, "registry index") {
            Some(LockKind::RegistryIndex)
        } else if chars_contain(&low, "git db") || chars_contain(&low, "git database") {
            Some(LockKind::GitDb)
        } else {
            Some(LockKind::Other)
        }
    }

    /// Tells whether the lock lies in Cargo's home, and not in the build
    /// directory.
    pub fn is_home_lock(self) -> (home: bool)
        ensures
            home == (self != LockKind::BuildDirectory),
    {
        !matches!(self, LockKind::BuildDirectory)
    }

    /// How the lock is called in messages.
    pub fn describe(self) -> (name: &'static str)
        ensures
            name@ == lock_name(self),
    {
        match self {
            LockKind::BuildDirectory => "the build directory",
            LockKind::PackageCache => "the package cache",
            LockKind::RegistryIndex => "the registry index",
            LockKind::GitDb => "the git database",
            LockKind::Other => "a shared Cargo path",
        }
    }
}

/// Capital letters in a line do not matter.
pub proof fn capitals_in_reports_do_not_matter(line: Seq<char>)
    ensures
        reported_lock(lowered(line)) == reported_lock(line),
{
    lowered_twice_is_lowered(line);
}

/// A line in which Cargo says that it waits for a file lock reports a lock, whatever
/// else stands in it.
pub proof fn blocking_lines_report_a_lock(before: Seq<char>, after: Seq<char>)
    ensures
        reported_lock(before + "Blocking waiting for file lock"@ + after) is Some,
{
    reveal_strlit("Blocking waiting for file lock");
    reveal_strlit("blocking waiting for file lock");
    let said = "Blocking waiting for file lock"@;
    let sign = "blocking waiting for file lock"@;
    assert(lowered(said) =~= sign);
    assert(sign.subrange(0, sign.len() as int) =~= sign);
    assert(occurs_at(lowered(said), sign, 0));
    reports_are_seen_inside_lines(before, said, after);
}

/// A line that reports a lock still reports one with anything before or after it.
pub proof fn reports_are_seen_inside_lines(before: Seq<char>, line: Seq<char>, after: Seq<char>)
    requires
        reported_lock(line) is Some,
    ensures
        reported_lock(before + line + after) is Some,
{
    lowered_part_by_part(before, line, after);
    part_is_contained(
        lowered(before),
        lowered(line),
        lowered(after),
        "blocking waiting for file lock"@,
    );
}

/// No lock is named in the text, capitals aside.
pub open spec fn names_no_lock(text: Seq<char>) -> bool {
    let low = lowered(text);
    &&& !contains(low, "build directory"@)
    &&& !contains(low, "package cache"@)
    &&& !contains(low, "registry index"@)
    &&& !contains(low, "git db"@)
    &&& !contains(low, "git database"@)
}

/// What a line reports. It reports a lock exactly if it says that a file lock is waited
/// for. It reports the build directory exactly if it also names that, whatever else it
/// names. What it names besides counts in the order package cache, registry index, git
/// database, and a line that names none of them reports some other lock.
pub proof fn lines_report_what_they_name(line: Seq<char>)
    ensures
        reported_lock(line) is Some <==> contains(
            lowered(line),
            "blocking waiting for file lock"@,
        ),
        reported_lock(line) is Some ==> {
            let low = lowered(line);
            let kind = reported_lock(line)->0;
            &&& kind == LockKind::BuildDirectory <==> contains(low, "build directory"@)
            &&& kind != LockKind::BuildDirectory && contains(low, "package cache"@) ==> kind
                == LockKind::PackageCache
            &&& kind == LockKind::PackageCache ==> contains(low, "package cache"@)
            &&& kind == LockKind::RegistryIndex ==> contains(low, "registry index"@)
            &&& kind == LockKind::GitDb ==> contains(low, "git db"@) || contains(
                low,
                "git database"@,
            )
            &&& kind == LockKind::GitDb ==> !contains(low, "registry index"@)
            &&& kind == LockKind::Other <==> names_no_lock(line)
        },
{
}

/// What Cargo prints while it waits for a lock reports that lock, with any text before
/// and any text after it, such as spaces and the end of the line, that names no lock. The
/// git db, whose name ends in the letter that `build directory` starts with, must not be
/// followed by the rest of that.
pub proof fn waits_report_their_lock(before: Seq<char>, after: Seq<char>)
    requires
        names_no_lock(before),
        names_no_lock(after),
    ensures
        reported_lock(before + "Blocking waiting for file lock on build directory"@ + after)
            == Some(LockKind::BuildDirectory),
        reported_lock(before + "Blocking waiting for file lock on package cache"@ + after) == Some(
            LockKind::PackageCache,
        ),
        reported_lock(before + "Blocking waiting for file lock on registry index"@ + after)
            == Some(LockKind::RegistryIndex),
        reported_lock(before + "Blocking waiting for file lock on git database"@ + after) == Some(
            LockKind::GitDb,
        ),
        !contains(
            lowered("Blocking waiting for file lock on git db"@ + after),
            "build directory"@,
        ) ==> reported_lock(before + "Blocking waiting for file lock on git db"@ + after) == Some(
            LockKind::GitDb,
        ),
{
    lemma_build_directory(before, after);
    lemma_package_cache(before, after);
    lemma_registry_index(before, after);
    lemma_git_database(before, after);
    if !contains(
        lowered("Blocking waiting for file lock on git db"@ + after),
        "build directory"@,
    ) {
        lemma_git_db(before, after);
    }
}

/// A line with `said` in it, which reads `low` without capitals, says that a file lock is
/// waited for and holds the name that stands from `at` on in `low`.
proof fn lemma_wait(
    before: Seq<char>,
    said: Seq<char>,
    after: Seq<char>,
    low: Seq<char>,
    name: Seq<char>,
    at: int,
)
    requires
        lowered(said) == low,
        occurs_at(low, "blocking waiting for file lock"@, 0),
        occurs_at(low, name, at),
    ensures
        lowered(before + said + after) == lowered(before) + low + lowered(after),
        contains(lowered(before + said + after), "blocking waiting for file lock"@),
        contains(lowered(before + said + after), name),
{
    lowered_part_by_part(before, said, after);
    assert(contains(low, "blocking waiting for file lock"@));
    assert(contains(low, name));
    part_is_contained(
        lowered(before),
        low,
        lowered(after),
        "blocking waiting for file lock"@,
    );
    part_is_contained(lowered(before), low, lowered(after), name);
}

proof fn lemma_build_directory(before: Seq<char>, after: Seq<char>)
    ensures
        reported_lock(before + "Blocking waiting for file lock on build directory"@ + after)
            == Some(LockKind::BuildDirectory),
{
    reveal_strlit("Blocking waiting for file lock on build directory");
    reveal_strlit("blocking waiting for file lock");
    reveal_strlit("build directory");
    let said = "Blocking waiting for file lock on build directory"@;
    let low = lowered(said);
    assert(low.subrange(0, 30) =~= "blocking waiting for file lock"@);
    assert(low.subrange(34, 49) =~= "build directory"@);
    lemma_wait(before, said, after, low, "build directory"@, 34);
}

proof fn lemma_package_cache(before: Seq<char>, after: Seq<char>)
    requires
        names_no_lock(before),
        names_no_lock(after),
    ensures
        reported_lock(before + "Blocking waiting for file lock on package cache"@ + after) == Some(
            LockKind::PackageCache,
        ),
{
    reveal_strlit("Blocking waiting for file lock on package cache");
    reveal_strlit("blocking waiting for file lock");
    reveal_strlit("build directory");
    reveal_strlit("package cache");
    let said = "Blocking waiting for file lock on package cache"@;
    let low = lowered(said);
    assert(low.subrange(0, 30) =~= "blocking waiting for file lock"@);
    assert(low.subrange(34, 47) =~= "package cache"@);
    lemma_wait(before, said, after, low, "package cache"@, 34);
    nothing_arises_at_the_seams(lowered(before), low, lowered(after), "build directory"@);
}

proof fn lemma_registry_index(before: Seq<char>, after: Seq<char>)
    requires
        names_no_lock(before),
        names_no_lock(after),
    ensures
        reported_lock(before + "Blocking waiting for file lock on registry index"@ + after)
            == Some(LockKind::RegistryIndex),
{
    reveal_strlit("Blocking waiting for file lock on registry index");
    reveal_strlit("blocking waiting for file lock");
    reveal_strlit("build directory");
    reveal_strlit("package cache");
    reveal_strlit("registry index");
    let said = "Blocking waiting for file lock on registry index"@;
    let low = lowered(said);
    assert(low.subrange(0, 30) =~= "blocking waiting for file lock"@);
    assert(low.subrange(34, 48) =~= "registry index"@);
    lemma_wait(before, said, after, low, "registry index"@, 34);
    nothing_arises_at_the_seams(lowered(before), low, lowered(after), "build directory"@);
    nothing_arises_at_the_seams(lowered(before), low, lowered(after), "package cache"@);
}

proof fn lemma_git_database(before: Seq<char>, after: Seq<char>)
    requires
        names_no_lock(before),
        names_no_lock(after),
    ensures
        reported_lock(before + "Blocking waiting for file lock on git database"@ + after) == Some(
            LockKind::GitDb,
        ),
{
    reveal_strlit("Blocking waiting for file lock on git database");
    reveal_strlit("blocking waiting for file lock");
    reveal_strlit("build directory");
    reveal_strlit("package cache");
    reveal_strlit("registry index");
    reveal_strlit("git database");
    let said = "Blocking waiting for file lock on git database"@;
    let low = lowered(said);
    assert(low.subrange(0, 30) =~= "blocking waiting for file lock"@);
    assert(low.subrange(34, 46) =~= "git database"@);
    lemma_wait(before, said, after, low, "git database"@, 34);
    nothing_arises_at_the_seams(lowered(before), low, lowered(after), "build directory"@);
    nothing_arises_at_the_seams(lowered(before), low, lowered(after), "package cache"@);
    nothing_arises_at_the_seams(lowered(before), low, lowered(after), "registry index"@);
}

proof fn lemma_git_db(before: Seq<char>, after: Seq<char>)
    requires
        names_no_lock(before),
        names_no_lock(after),
        !contains(
            lowered("Blocking waiting for file lock on git db"@ + after),
            "build directory"@,
        ),
    ensures
        reported_lock(before + "Blocking waiting for file lock on git db"@ + after) == Some(
            LockKind::GitDb,
        ),
{
    reveal_strlit("Blocking waiting for file lock on git db");
    reveal_strlit("blocking waiting for file lock");
    reveal_strlit("build directory");
    reveal_strlit("package cache");
    reveal_strlit("registry index");
    reveal_strlit("git db");
    let said = "Blocking waiting for file lock on git db"@;
    let low = lowered(said);
    let build = "build directory"@;
    assert(low.subrange(0, 30) =~= "blocking waiting for file lock"@);
    assert(low.subrange(34, 40) =~= "git db"@);
    lemma_wait(before, said, after, low, "git db"@, 34);
    nothing_arises_at_the_seams(lowered(before), low, lowered(after), "package cache"@);
    nothing_arises_at_the_seams(lowered(before), low, lowered(after), "registry index"@);
    let whole = lowered(before) + low + lowered(after);
    let tail = lowered(said + after);
    assert(tail =~= low + lowered(after));
    let b = lowered(before).len();
    assert forall|at: int| !occurs_at(whole, build, at) by {
        if occurs_at(whole, build, at) {
            let found = whole.subrange(at, at + build.len());
            if at + build.len() <= b {
                assert(lowered(before).subrange(at, at + build.len()) =~= build);
                assert(occurs_at(lowered(before), build, at));
            } else if at < b {
                assert(found[b - at] == whole[b as int]);
                assert(build[b - at] == 'b');
            } else {
                assert(tail.subrange(at - b, at - b + build.len()) =~= build);
                assert(occurs_at(tail, build, at - b));
            }
        }
    }
}

/// Different locks are called differently, and each is called by what reports name.
pub proof fn lock_names_tell_locks_apart(a: LockKind, b: LockKind)
    ensures
        lock_name(a) == lock_name(b) ==> a == b,
        lock_name(LockKind::BuildDirectory) == "the "@ + "build directory"@,
        lock_name(LockKind::PackageCache) == "the "@ + "package cache"@,
        lock_name(LockKind::RegistryIndex) == "the "@ + "registry index"@,
        lock_name(LockKind::GitDb) == "the "@ + "git database"@,
{
    reveal_strlit("the ");
    reveal_strlit("build directory");
    reveal_strlit("package cache");
    reveal_strlit("registry index");
    reveal_strlit("git database");
    reveal_strlit("the build directory");
    reveal_strlit("the package cache");
    reveal_strlit("the registry index");
    reveal_strlit("the git database");
    reveal_strlit("a shared Cargo path");
    assert("the build directory"@[4] == 'b');
    assert("the package cache"@[4] == 'p');
    assert("the registry index"@[4] == 'r');
    assert("the git database"@[4] == 'g');
    assert("a shared Cargo path"@[4] == 'a');
    assert(lock_name(LockKind::BuildDirectory) =~= "the "@ + "build directory"@);
    assert(lock_name(LockKind::PackageCache) =~= "the "@ + "package cache"@);
    assert(lock_name(LockKind::RegistryIndex) =~= "the "@ + "registry index"@);
    assert(lock_name(LockKind::GitDb) =~= "the "@ + "git database"@);
}

} // verus!

//! What the version of the underlying Cargo allows.

use crate::number::{decimal, decimal_reads_back, lemma_decimal, parse_number, read_number};
use crate::text::{
    chars_of, fields, fields_are_split_off, is_space, is_spaceless, lemma_span,
    lemma_span_at_least, lemma_span_bound, only, span, split_fields, split_words, texts, words,
    words_are_split_off,
};
use vstd::prelude::*;

verus! {

/// The major and the minor number that `cargo -V` reports: the first two numbers
/// between dots in the second word.
pub open spec fn reported_version(raw: Seq<char>) -> Option<(nat, nat)> {
    let parts = words(raw);
    if parts.len() < 2 {
        None
    } else {
        let segments = fields(parts[1], '.');
        if segments.len() < 2 {
            None
        } else {
            let max = u64::MAX as nat;
            match (read_number(segments[0], max), read_number(segments[1], max)) {
                (Some(major), Some(minor)) => Some((major, minor)),
                _ => None,
            }
        }
    }
}

/// Reads the major and the minor number out of what `cargo -V` prints.
pub fn parse_cargo_version(raw: &str) -> (version: Option<(u64, u64)>)
    ensures
        match version {
            Some((major, minor)) => reported_version(raw@) == Some((major as nat, minor as nat)),
            None => reported_version(raw@) is None,
        },
{
    let parts = split_words(&chars_of(raw));
    assert(parts@.len() == texts(parts@).len());
    if parts.len() < 2 {
        return None;
    }
    let segments = split_fields(&parts[1], '.');
    assert(segments@.len() == texts(segments@).len());
    assert(texts(parts@)[1] == parts@[1]@);
    if segments.len() < 2 {
        return None;
    }
    assert(texts(segments@)[0] == segments@[0]@);
    assert(texts(segments@)[1] == segments@[1]@);
    let major = match parse_number(&segments[0], u64::MAX) {
        Some(major) => major,
        None => return None,
    };
    let minor = match parse_number(&segments[1], u64::MAX) {
        Some(minor) => minor,
        None => return None,
    };
    Some((major, minor))
}

/// Cargo 1.91 is the first that can keep intermediates in a build directory of
/// their own.
pub open spec fn version_has_build_dir(version: (nat, nat)) -> bool {
    version.0 > 1 || (version.0 == 1 && version.1 >= 91)
}

/// What the output of `cargo -V` says about build directories. Output that could
/// not be had, or that reports no version, counts as no.
pub open spec fn output_has_build_dir(output: Option<Seq<char>>) -> bool {
    match output {
        Some(raw) => match reported_version(raw) {
            Some(version) => version_has_build_dir(version),
            None => false,
        },
        None => false,
    }
}

/// Tells from what `cargo -V` printed, if it could be run, whether this Cargo can
/// keep intermediates in a build directory of their own.
pub fn detect_build_dir_support(output: Option<&str>) -> (supported: bool)
    ensures
        supported == output_has_build_dir(
            match output {
                Some(raw) => Some(raw@),
                None => None,
            },
        ),
{
    match output {
        Some(raw) => match parse_cargo_version(raw) {
            Some((major, minor)) => major > 1 || (major == 1 && minor >= 91),
            None => false,
        },
        None => false,
    }
}

/// No later Cargo loses the build directory that an earlier one has.
pub proof fn build_dir_support_is_monotone(earlier: (nat, nat), later: (nat, nat))
    requires
        earlier.0 < later.0 || (earlier.0 == later.0 && earlier.1 <= later.1),
        version_has_build_dir(earlier),
    ensures
        version_has_build_dir(later),
{
}

/// The version is read out of everything that starts as Cargo's output does: the
/// word `cargo`, a space, the major number, a dot, the minor number and a dot.
pub proof fn printed_version_is_read(major: nat, minor: nat, rest: Seq<char>)
    requires
        major <= u64::MAX,
        minor <= u64::MAX,
    ensures
        reported_version("cargo "@ + decimal(major) + "."@ + decimal(minor) + "."@ + rest) == Some(
            (major, minor),
        ),
{
    reveal_strlit("cargo ");
    reveal_strlit(".");
    lemma_decimal(major);
    lemma_decimal(minor);
    let (a, b) = (decimal(major), decimal(minor));
    let raw = "cargo "@ + a + "."@ + b + "."@ + rest;
    let v = a + "."@ + b + "."@ + rest;
    let space = |c: char| is_space(c);
    lemma_span(raw, space, 5);
    assert(raw.skip(5)[0] == ' ');
    assert(raw.skip(5).skip(1) =~= v);
    assert(words(raw.skip(5)) == words(v));
    assert(words(raw) == seq![raw.take(5)] + words(v));
    let k = a.len() + b.len() + 2;
    assert forall|i: int| 0 <= i < k implies !space(#[trigger] v[i]) by {
        if i < a.len() {
            assert(v[i] == a[i]);
        } else if a.len() < i < a.len() + 1 + b.len() {
            assert(v[i] == b[i - a.len() - 1]);
        }
    }
    lemma_span_at_least(v, space, k);
    lemma_span_bound(v, space);
    assert(!space(v[0]));
    let n = span(v, space) as int;
    let word = v.take(n);
    assert(words(v) == seq![word] + words(v.skip(n)));
    assert(words(raw)[1] == word);
    let tail = word.skip(a.len() as int + 1);
    assert forall|i: int| 0 <= i < a.len() implies !only('.')(#[trigger] word[i]) by {
        assert(word[i] == a[i]);
    }
    lemma_span(word, only('.'), a.len());
    assert(word.take(a.len() as int) =~= a);
    assert forall|i: int| 0 <= i < b.len() implies !only('.')(#[trigger] tail[i]) by {
        assert(tail[i] == b[i]);
    }
    assert(tail[b.len() as int] == '.');
    lemma_span(tail, only('.'), b.len());
    assert(tail.take(b.len() as int) =~= b);
    assert(fields(word, '.') == seq![a] + fields(tail, '.'));
    assert(fields(tail, '.') == seq![b] + fields(tail.skip(b.len() as int + 1), '.'));
    assert(fields(word, '.')[0] == a);
    assert(fields(word, '.')[1] == b);
    decimal_reads_back(major, u64::MAX as nat);
    decimal_reads_back(minor, u64::MAX as nat);
}

/// Cargo 1.91 is the first with a build directory: it has one, the version just before it
/// has none, and what has one is neither of an older major number nor, within that, of an
/// older minor number.
pub proof fn first_version_with_build_dir(version: (nat, nat))
    ensures
        version_has_build_dir((1, 91)),
        !version_has_build_dir((1, 90)),
        version_has_build_dir(version) <==> !(version.0 < 1 || (version.0 == 1 && version.1
            < 91)),
{
}

/// What Cargo prints decides about build directories by the numbers that it prints, and
/// by them alone. Without output there are none.
pub proof fn printed_versions_decide(major: nat, minor: nat, rest: Seq<char>)
    requires
        major <= u64::MAX,
        minor <= u64::MAX,
    ensures
        output_has_build_dir(
            Some("cargo "@ + decimal(major) + "."@ + decimal(minor) + "."@ + rest),
        ) <==> major >= 2 || (major == 1 && minor >= 91),
        !output_has_build_dir(None),
{
    printed_version_is_read(major, minor, rest);
}

/// The version is read out of the second word. What the first word is, how much white
/// space stands before and between them, and what follows makes no difference. Without a
/// second word there is no version.
pub proof fn second_word_is_the_version(
    first: Seq<char>,
    other: Seq<char>,
    version: Seq<char>,
    gap: char,
    wide: char,
    rest: Seq<char>,
)
    requires
        first.len() > 0,
        other.len() > 0,
        version.len() > 0,
        is_spaceless(first),
        is_spaceless(other),
        is_spaceless(version),
        is_space(gap),
        is_space(wide),
    ensures
        reported_version(first + seq![gap] + version) == reported_version(
            other + seq![wide] + version,
        ),
        reported_version(first + seq![gap] + (version + seq![wide] + rest)) == reported_version(
            first + seq![gap] + version,
        ),
        reported_version(first + seq![gap] + (seq![wide] + version)) == reported_version(
            first + seq![gap] + version,
        ),
        reported_version(seq![wide] + (first + seq![gap] + version)) == reported_version(
            first + seq![gap] + version,
        ),
        reported_version(first) is None,
        reported_version(Seq::empty()) is None,
{
    words_are_split_off(first, gap, version);
    words_are_split_off(other, wide, version);
    words_are_split_off(version, wide, rest);
    words_are_split_off(first, gap, version + seq![wide] + rest);
    words_are_split_off(first, gap, seq![wide] + version);
    words_are_split_off(first, wide, version);
    words_are_split_off(first, wide, first + seq![gap] + version);
    assert(words(first + seq![gap] + version)[1] == version);
    assert(words(other + seq![wide] + version)[1] == version);
    assert(words(first + seq![gap] + (version + seq![wide] + rest))[1] == version);
    assert(words(first + seq![gap] + (seq![wide] + version))[1] == version);
}

/// A version is two numbers with a dot between them, at least. Where one of them is no
/// number, or the dot is missing, there is no version.
pub proof fn versions_are_two_numbers(
    major: Seq<char>,
    minor: Seq<char>,
    first: Seq<char>,
    gap: char,
)
    requires
        first.len() > 0,
        is_spaceless(first),
        is_space(gap),
        is_spaceless(major),
        is_spaceless(minor),
        forall|i: int| 0 <= i < major.len() ==> #[trigger] major[i] != '.',
        forall|i: int| 0 <= i < minor.len() ==> #[trigger] minor[i] != '.',
    ensures
        reported_version(first + seq![gap] + (major + seq!['.'] + minor)) is Some
            <==> read_number(major, u64::MAX as nat) is Some && read_number(
            minor,
            u64::MAX as nat,
        ) is Some,
        reported_version(first + seq![gap] + (major + seq!['.'] + minor)) matches Some(version)
            ==> read_number(major, u64::MAX as nat) == Some(version.0) && read_number(
            minor,
            u64::MAX as nat,
        ) == Some(version.1),
        major.len() > 0 ==> reported_version(first + seq![gap] + major) is None,
{
    let version = major + seq!['.'] + minor;
    assert forall|i: int| 0 <= i < version.len() implies !is_space(#[trigger] version[i]) by {
        if i < major.len() {
            assert(version[i] == major[i]);
        } else if i > major.len() {
            assert(version[i] == minor[i - major.len() - 1]);
        }
    }
    words_are_split_off(first, gap, version);
    words_are_split_off(version, gap, Seq::empty());
    fields_are_split_off(major, '.', minor);
    fields_are_split_off(minor, '.', Seq::empty());
    assert(words(first + seq![gap] + version)[1] == version);
    assert(fields(version, '.')[0] == major);
    assert(fields(version, '.')[1] == minor);
    if major.len() > 0 {
        words_are_split_off(first, gap, major);
        words_are_split_off(major, gap, Seq::empty());
        assert(words(first + seq![gap] + major)[1] == major);
    }
}

} // verus!

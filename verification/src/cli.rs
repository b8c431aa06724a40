//! The command line: what is asked for, and which manifest it names.

use crate::path::{OsText, OsTextView};
use crate::text::{after_prefix, prefixes_are_taken_off, strip_text_prefix};
use vstd::prelude::*;
use vstd::string::StringExecFns;

verus! {

/// The first argument is the given text.
pub open spec fn first_is(args: Seq<OsText>, text: Seq<char>) -> bool {
    args.len() > 0 && args[0]@ == OsTextView::Unicode(text)
}

fn starts_with(args: &Vec<OsText>, text: &str) -> (yes: bool)
    ensures
        yes == first_is(args@, text@),
{
    args.len() > 0 && args[0].is(text)
}

/// The arguments without the subcommand name that Cargo puts first when it runs
/// this program as `cargo sidestep`.
pub open spec fn normalized(args: Seq<OsText>) -> Seq<OsText> {
    if first_is(args, "sidestep"@) {
        args.skip(1)
    } else {
        args
    }
}

/// Takes off the subcommand name that Cargo puts first when it runs this program
/// as `cargo sidestep`.
pub fn normalize_cli_args(args: Vec<OsText>) -> (rest: Vec<OsText>)
    ensures
        rest@ == normalized(args@),
{
    let mut rest = args;
    if starts_with(&rest, "sidestep") {
        let name = rest.remove(0);
        assert(rest@ == args@.skip(1));
    }
    rest
}

/// Run as a subcommand of Cargo, the program sees the command line without the
/// subcommand name. Run by itself it sees the same, unless the command line starts
/// with that name anyway.
pub proof fn subcommand_name_makes_no_difference(name: OsText, args: Seq<OsText>)
    requires
        name@ == OsTextView::Unicode("sidestep"@),
    ensures
        normalized(seq![name] + args) == args,
        !first_is(args, "sidestep"@) ==> normalized(args) == args,
{
    assert((seq![name] + args).skip(1) == args);
}

/// Help is asked for.
pub open spec fn asks_for_help(args: Seq<OsText>) -> bool {
    first_is(args, "-h"@) || first_is(args, "--help"@)
}

/// Tells whether help is asked for.
pub fn is_help(args: &Vec<OsText>) -> (help: bool)
    ensures
        help == asks_for_help(args@),
{
    starts_with(args, "-h") || starts_with(args, "--help")
}

/// The version is asked for.
pub open spec fn asks_for_version(args: Seq<OsText>) -> bool {
    first_is(args, "-V"@) || first_is(args, "--version"@) || first_is(args, "version"@)
}

/// Tells whether the version is asked for.
pub fn is_version(args: &Vec<OsText>) -> (version: bool)
    ensures
        version == asks_for_version(args@),
{
    starts_with(args, "-V") || starts_with(args, "--version") || starts_with(args, "version")
}

/// What a command line asks for.
#[derive(Copy, Clone, Debug, PartialEq, Eq, Structural)]
pub enum Request {
    Help,
    Version,
    Cargo,
}

/// What a command line asks for. An empty one asks for help.
pub open spec fn request_of(args: Seq<OsText>) -> Request {
    if args.len() == 0 || asks_for_help(args) {
        Request::Help
    } else if asks_for_version(args) {
        Request::Version
    } else {
        Request::Cargo
    }
}

/// Reads what a command line asks for.
pub fn requested(args: &Vec<OsText>) -> (request: Request)
    ensures
        request == request_of(args@),
{
    if args.is_empty() || is_help(args) {
        Request::Help
    } else if is_version(args) {
        Request::Version
    } else {
        Request::Cargo
    }
}

/// What `arg` itself names as the manifest, if it is of the form
/// `--manifest-path=PATH`.
pub open spec fn inline_manifest(arg: OsTextView) -> Option<Seq<char>> {
    match arg {
        OsTextView::Unicode(text) => after_prefix(text, "--manifest-path="@),
        OsTextView::Opaque(_) => None,
    }
}

/// `arg` says that the next argument is the manifest.
pub open spec fn announces_manifest(arg: OsTextView) -> bool {
    arg == OsTextView::Unicode("--manifest-path"@)
}

/// The manifest that a command line names. The first argument that speaks of a
/// manifest counts, also where it is the last and names none.
pub open spec fn named_manifest(args: Seq<OsText>) -> Option<OsTextView>
    decreases args.len(),
{
    if args.len() == 0 {
        None
    } else if announces_manifest(args[0]@) {
        if args.len() > 1 {
            Some(args[1]@)
        } else {
            None
        }
    } else if inline_manifest(args[0]@) is Some {
        Some(OsTextView::Unicode(inline_manifest(args[0]@)->0))
    } else {
        named_manifest(args.skip(1))
    }
}

/// Reads which manifest a command line names.
pub fn manifest_path_from_args(args: &Vec<OsText>) -> (manifest: Option<OsText>)
    ensures
        match manifest {
            Some(path) => named_manifest(args@) == Some(path@),
            None => named_manifest(args@) is None,
        },
{
    let mut i: usize = 0;
    assert(args@.skip(0) == args@);
    while i < args.len()
        invariant
            i <= args@.len(),
            named_manifest(args@.skip(i as int)) == named_manifest(args@),
        decreases args@.len() - i,
    {
        let ghost rest = args@.skip(i as int);
        assert(rest[0] == args@[i as int]);
        assert(rest.skip(1) == args@.skip(i + 1));
        if args[i].is("--manifest-path") {
            if args.len() - i > 1 {
                assert(rest[1] == args@[i + 1]);
                return Some(args[i + 1].clone());
            }
            return None;
        }
        if let OsText::Unicode(text) = &args[i] {
            if let Some(path) = strip_text_prefix(text.as_str(), "--manifest-path=") {
                return Some(OsText::Unicode(path));
            }
        }
        i += 1;
    }
    None
}

/// Arguments that speak of no manifest, put in front of a command line, do not
/// change which manifest it names.
pub proof fn other_args_keep_the_manifest(before: Seq<OsText>, args: Seq<OsText>)
    requires
        forall|i: int|
            0 <= i < before.len() ==> !announces_manifest((#[trigger] before[i])@)
                && inline_manifest(before[i]@) is None,
    ensures
        named_manifest(before + args) == named_manifest(args),
    decreases before.len(),
{
    if before.len() == 0 {
        assert(before + args == args);
    } else {
        assert((before + args)[0] == before[0]);
        assert((before + args).skip(1) == before.skip(1) + args);
        other_args_keep_the_manifest(before.skip(1), args);
    }
}

/// Once an argument names a manifest, what follows does not change it.
pub proof fn later_args_keep_the_manifest(args: Seq<OsText>, after: Seq<OsText>)
    requires
        named_manifest(args) is Some,
    ensures
        named_manifest(args + after) == named_manifest(args),
    decreases args.len(),
{
    assert((args + after)[0] == args[0]);
    if announces_manifest(args[0]@) {
        assert((args + after)[1] == args[1]);
    } else if inline_manifest(args[0]@) is None {
        assert((args + after).skip(1) == args.skip(1) + after);
        later_args_keep_the_manifest(args.skip(1), after);
    }
}

/// What `--version` prints.
pub fn version_text(version: &str) -> (text: String)
    ensures
        text@ == "cargo-sidestep "@ + version@,
{
    "cargo-sidestep ".to_owned().concat(version)
}

/// What `--help` prints after the version.
pub const HELP_BODY: &'static str = "

USAGE:
    cargo-sidestep <cargo-subcommand> [args...]
    cargo sidestep <cargo-subcommand> [args...]

DESCRIPTION:
    Runs Cargo with a managed per-workspace cache root. If Cargo prints
    \"Blocking waiting for file lock ...\", the command is re-run in an isolated lane
    instead of waiting behind another Cargo process.

ENVIRONMENT:
    CARGO_SIDESTEP_STATE_DIR         Override the cache root used by cargo-sidestep
    CARGO_SIDESTEP_FALLBACK_AFTER_MS Milliseconds to wait after a lock message before rerouting
    CARGO_SIDESTEP_LANES             Number of reusable fallback lanes per workspace
    CARGO_SIDESTEP_CARGO_BIN         Override the underlying cargo executable (useful for tests)

NOTES:
    Cargo 1.91+ uses CARGO_BUILD_BUILD_DIR for lock-sensitive intermediates.
    Older Cargo versions fall back to isolated CARGO_TARGET_DIR lanes.
";

/// What `--help` prints.
pub fn help_text(version: &str) -> (text: String)
    ensures
        text@ == "cargo-sidestep "@ + version@ + HELP_BODY@,
{
    version_text(version).concat(HELP_BODY)
}

/// Only a first argument that is exactly `sidestep` is taken off, and only once.
pub proof fn only_the_subcommand_name_is_taken_off(args: Seq<OsText>, i: int)
    ensures
        args.len() == 0 ==> normalized(args) == args,
        args.len() > 0 && args[0]@ == OsTextView::Unicode("sidestep"@) ==> normalized(args).len()
            == args.len() - 1 && (0 <= i < args.len() - 1 ==> normalized(args)[i] == args[i + 1]),
        args.len() > 0 && args[0]@ != OsTextView::Unicode("sidestep"@) ==> normalized(args)
            == args,
{
}

/// What a command line asks for is told by its first argument alone: no argument and two
/// spellings ask for help, three for the version, and anything else is for Cargo.
pub proof fn first_argument_tells_the_request(args: Seq<OsText>, others: Seq<OsText>)
    ensures
        request_of(args) == Request::Help <==> (args.len() == 0 || args[0]@
            == OsTextView::Unicode("-h"@) || args[0]@ == OsTextView::Unicode("--help"@)),
        request_of(args) == Request::Version <==> (args.len() > 0 && (args[0]@
            == OsTextView::Unicode("-V"@) || args[0]@ == OsTextView::Unicode("--version"@)
            || args[0]@ == OsTextView::Unicode("version"@))),
        args.len() > 0 && others.len() > 0 && args[0]@ == others[0]@ ==> request_of(args)
            == request_of(others),
        asks_for_help(args) <==> args.len() > 0 && request_of(args) == Request::Help,
        asks_for_version(args) <==> request_of(args) == Request::Version,
{
    reveal_strlit("-h");
    reveal_strlit("--help");
    reveal_strlit("-V");
    reveal_strlit("--version");
    reveal_strlit("version");
    assert("-h"@[1] == 'h' && "-V"@[1] == 'V');
    assert("--help"@.len() == 6 && "--version"@.len() == 9 && "version"@.len() == 7);
}

/// An argument that neither announces a manifest nor names one.
pub open spec fn is_silent_on_manifests(arg: OsText) -> bool {
    &&& arg@ != OsTextView::Unicode("--manifest-path"@)
    &&& forall|path: Seq<char>|
        arg@ != OsTextView::Unicode(#[trigger] ("--manifest-path="@ + path))
}

/// Which manifest a command line names. It is the value behind the first
/// `--manifest-path`, or what follows the equals sign in the first `--manifest-path=`,
/// whichever comes first, taken as it is. An announcement at the end names none, and
/// neither does a command line that does not speak of manifests.
pub proof fn first_manifest_is_named(
    before: Seq<OsText>,
    flag: OsText,
    value: OsText,
    path: Seq<char>,
    after: Seq<OsText>,
)
    requires
        forall|i: int| 0 <= i < before.len() ==> is_silent_on_manifests(#[trigger] before[i]),
    ensures
        named_manifest(before) is None,
        flag@ == OsTextView::Unicode("--manifest-path"@) ==> named_manifest(
            before + (seq![flag, value] + after),
        ) == Some(value@),
        flag@ == OsTextView::Unicode("--manifest-path"@) ==> named_manifest(
            before + seq![flag],
        ) is None,
        flag@ == OsTextView::Unicode("--manifest-path="@ + path) ==> named_manifest(
            before + (seq![flag] + after),
        ) == Some(OsTextView::Unicode(path)),
{
    assert forall|i: int| 0 <= i < before.len() implies !announces_manifest(
        (#[trigger] before[i])@,
    ) && inline_manifest(before[i]@) is None by {
        assert(is_silent_on_manifests(before[i]));
        if let OsTextView::Unicode(text) = before[i]@ {
            prefixes_are_taken_off("--manifest-path="@, path, text);
            if let Some(rest) = after_prefix(text, "--manifest-path="@) {
                assert(before[i]@ == OsTextView::Unicode("--manifest-path="@ + rest));
            }
        }
    }
    other_args_keep_the_manifest(before, Seq::empty());
    assert(before + Seq::<OsText>::empty() == before);
    let spaced = seq![flag, value] + after;
    assert(spaced[0] == flag && spaced[1] == value);
    other_args_keep_the_manifest(before, spaced);
    other_args_keep_the_manifest(before, seq![flag]);
    let inline = seq![flag] + after;
    assert(inline[0] == flag);
    other_args_keep_the_manifest(before, inline);
    prefixes_are_taken_off("--manifest-path="@, path, path);
    reveal_strlit("--manifest-path");
    reveal_strlit("--manifest-path=");
    assert(("--manifest-path="@ + path).len() > "--manifest-path"@.len());
}

} // verus!

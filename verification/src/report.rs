//! What the program ends with.

use vstd::prelude::*;
use vstd::string::{to_string_from_display_ensures, StringExecFns};

verus! {

/// The text of an error.
pub fn err_string<E: std::fmt::Display>(err: E) -> (text: String)
    ensures
        to_string_from_display_ensures::<E>(&err, text),
{
    err.to_string()
}

/// What the program ends with, from what a command came to: an exit code, and a line that
/// is printed, if any.
pub open spec fn report_of(result: Result<i32, Seq<char>>) -> (i32, Option<Seq<char>>) {
    match result {
        Ok(code) => (code, None),
        Err(message) => (1, Some("cargo-sidestep: "@ + message)),
    }
}

/// The exit code of the program, and the line that it prints first, if any: the exit
/// code of Cargo, or else 1 and what went wrong.
pub fn exit_report(result: Result<i32, String>) -> (report: (i32, Option<String>))
    ensures
        match result {
            Ok(code) => report == (code, None::<String>),
            Err(message) => report.0 == 1 && report.1 is Some && report.1->0@ == "cargo-sidestep: "@
                + message@,
        },
        report.0 == report_of(
            match result {
                Ok(code) => Ok(code),
                Err(message) => Err(message@),
            },
        ).0,
        (match report.1 {
            Some(line) => Some(line@),
            None => None,
        }) == report_of(
            match result {
                Ok(code) => Ok(code),
                Err(message) => Err(message@),
            },
        ).1,
{
    match result {
        Ok(code) => (code, None),
        Err(message) => (1, Some("cargo-sidestep: ".to_owned().concat(message.as_str()))),
    }
}

/// A command that came to an exit code ends with that code, whatever it is, and nothing is
/// printed. One that went wrong ends with a code that is not zero, and what went wrong is
/// printed in full behind the name of the program.
pub proof fn ends_are_reported(code: i32, message: Seq<char>)
    ensures
        report_of(Ok(code)) == (code, None::<Seq<char>>),
        report_of(Err(message)).0 != 0,
        report_of(Err(message)).1 matches Some(line) && line.take(16) == "cargo-sidestep: "@
            && line.skip(16) == message,
{
    reveal_strlit("cargo-sidestep: ");
    let line = "cargo-sidestep: "@ + message;
    assert(line.take(16) =~= "cargo-sidestep: "@);
    assert(line.skip(16) =~= message);
}

} // verus!

use cargo_sidestep::cli::{
    help_text, is_help, is_version, manifest_path_from_args, normalize_cli_args, requested,
    version_text, Request,
};
use cargo_sidestep::hash::{stable_hash, stable_hash_u64};
use cargo_sidestep::lock::LockKind;
use cargo_sidestep::number::{decimal_text, hex_text, parse_number};
use cargo_sidestep::path::OsText;
use cargo_sidestep::report::{err_string, exit_report};
use cargo_sidestep::text::{
    chars_contain, chars_of, lower_chars, same_text, split_fields, split_words, strip_text_prefix,
};
use cargo_sidestep::version::{detect_build_dir_support, parse_cargo_version};
use cargo_sidestep::watch::stderr_looks_like_offline_miss;

fn args(list: &[&str]) -> Vec<OsText> {
    list.iter().map(|text| OsText::from_text(text)).collect()
}

fn number(text: &str, max: u64) -> Option<u64> {
    parse_number(&chars_of(text), max)
}

fn strings(list: Vec<Vec<char>>) -> Vec<String> {
    list.into_iter().map(|chars| chars.into_iter().collect()).collect()
}

#[test]
fn parses_lock_lines() {
    assert_eq!(
        LockKind::parse("Blocking waiting for file lock on package cache"),
        Some(LockKind::PackageCache)
    );
    assert_eq!(
        LockKind::parse("Blocking waiting for file lock on build directory"),
        Some(LockKind::BuildDirectory)
    );
    assert_eq!(LockKind::parse("Finished dev profile"), None);
}

#[test]
fn parses_every_kind_of_lock() {
    let prefix = "    BLOCKING waiting for FILE lock on ";
    let cases = [
        ("the Registry Index\n", LockKind::RegistryIndex),
        ("git db `x`", LockKind::GitDb),
        ("Git database", LockKind::GitDb),
        ("artifact directory", LockKind::Other),
        ("", LockKind::Other),
        ("package cache of the build directory", LockKind::BuildDirectory),
        ("registry index in the package cache", LockKind::PackageCache),
    ];
    for (suffix, kind) in cases {
        assert_eq!(LockKind::parse(&format!("{prefix}{suffix}")), Some(kind));
    }
    assert_eq!(LockKind::parse("waiting for file lock on build directory"), None);
    assert_eq!(LockKind::parse(""), None);
}

#[test]
fn home_locks_are_all_but_the_build_directory() {
    assert!(!LockKind::BuildDirectory.is_home_lock());
    assert!(LockKind::PackageCache.is_home_lock());
    assert!(LockKind::RegistryIndex.is_home_lock());
    assert!(LockKind::GitDb.is_home_lock());
    assert!(LockKind::Other.is_home_lock());
}

#[test]
fn locks_are_described() {
    assert_eq!(LockKind::BuildDirectory.describe(), "the build directory");
    assert_eq!(LockKind::PackageCache.describe(), "the package cache");
    assert_eq!(LockKind::RegistryIndex.describe(), "the registry index");
    assert_eq!(LockKind::GitDb.describe(), "the git database");
    assert_eq!(LockKind::Other.describe(), "a shared Cargo path");
}

#[test]
fn detects_offline_cache_miss() {
    assert!(stderr_looks_like_offline_miss(
        "error: failed to download from registry because offline was specified"
    ));
    assert!(!stderr_looks_like_offline_miss("Compiling foo v0.1.0"));
}

#[test]
fn detects_every_sign_of_an_offline_miss() {
    for sign in [
        "Offline was specified",
        "can't be accessed in offline mode",
        "Unable to update registry `crates-io`",
        "no matching package named `serde` found",
        "FAILED TO FETCH `https://example.invalid`",
        "attempting to make an HTTP request, but --offline",
    ] {
        assert!(stderr_looks_like_offline_miss(&format!("error: x\n{sign}\nmore")));
    }
    assert!(!stderr_looks_like_offline_miss(""));
}

#[test]
fn parses_cargo_version_output() {
    assert_eq!(
        parse_cargo_version("cargo 1.91.0 (abcd 2025-10-10)"),
        Some((1, 91))
    );
    assert_eq!(parse_cargo_version("cargo"), None);
}

#[test]
fn parses_unusual_version_output() {
    assert_eq!(parse_cargo_version("\n cargo\t2.0\u{2003}x"), Some((2, 0)));
    assert_eq!(parse_cargo_version("cargo 1"), None);
    assert_eq!(parse_cargo_version("cargo 1."), None);
    assert_eq!(parse_cargo_version("cargo 1.x"), None);
    assert_eq!(parse_cargo_version("cargo x.1"), None);
    assert_eq!(parse_cargo_version("cargo 1.91-nightly.0"), None);
    assert_eq!(parse_cargo_version("cargo 1.+91.0"), Some((1, 91)));
    assert_eq!(parse_cargo_version(""), None);
    assert_eq!(
        parse_cargo_version("cargo 18446744073709551615.18446744073709551616.0"),
        None
    );
}

#[test]
fn build_dirs_need_a_recent_cargo() {
    assert!(detect_build_dir_support(Some("cargo 1.91.0 (x)")));
    assert!(detect_build_dir_support(Some("cargo 1.100.0")));
    assert!(detect_build_dir_support(Some("cargo 2.0.0")));
    assert!(!detect_build_dir_support(Some("cargo 1.90.1")));
    assert!(!detect_build_dir_support(Some("cargo 0.99.0")));
    assert!(!detect_build_dir_support(Some("nonsense")));
    assert!(!detect_build_dir_support(None));
}

#[test]
fn stable_hash_is_stable() {
    assert_eq!(stable_hash_u64("abc"), stable_hash_u64("abc"));
    assert_ne!(stable_hash_u64("abc"), stable_hash_u64("abd"));
}

#[test]
fn stable_hash_is_fnv1a() {
    assert_eq!(stable_hash_u64(""), 0xcbf29ce484222325);
    assert_eq!(stable_hash_u64("a"), 0xaf63dc4c8601ec8c);
    assert_eq!(stable_hash_u64("foobar"), 0x85944171f73967e8);
    assert_eq!(stable_hash("foobar"), "85944171f73967e8");
    assert_eq!(stable_hash("").len(), 16);
}

#[test]
fn one_changed_byte_gives_another_hash() {
    assert_ne!(stable_hash("/home/a/project"), stable_hash("/home/b/project"));
}

#[test]
fn strips_cargo_plugin_prefix_from_args() {
    let args = normalize_cli_args(vec![
        OsText::from_text("sidestep"),
        OsText::from_text("check"),
        OsText::from_text("--workspace"),
    ]);
    assert_eq!(
        args,
        vec![OsText::from_text("check"), OsText::from_text("--workspace")]
    );
}

#[test]
fn strips_the_prefix_once_and_only_in_front() {
    assert_eq!(
        normalize_cli_args(args(&["sidestep", "sidestep"])),
        args(&["sidestep"])
    );
    assert_eq!(
        normalize_cli_args(args(&["build", "sidestep"])),
        args(&["build", "sidestep"])
    );
    assert_eq!(normalize_cli_args(args(&[])), args(&[]));
    let odd = || vec![OsText::Opaque(vec![0xff, 0x73]), OsText::from_text("x")];
    assert_eq!(normalize_cli_args(odd()), odd());
}

#[test]
fn requests_are_told_apart() {
    assert_eq!(requested(&args(&[])), Request::Help);
    assert_eq!(requested(&args(&["-h"])), Request::Help);
    assert_eq!(requested(&args(&["--help", "x"])), Request::Help);
    assert_eq!(requested(&args(&["-V"])), Request::Version);
    assert_eq!(requested(&args(&["--version"])), Request::Version);
    assert_eq!(requested(&args(&["version"])), Request::Version);
    assert_eq!(requested(&args(&["build", "--help"])), Request::Cargo);
    assert!(!is_help(&args(&["help"])));
    assert!(!is_version(&args(&["-v"])));
}

#[test]
fn help_and_version_name_the_version() {
    assert_eq!(version_text("1.2.3"), "cargo-sidestep 1.2.3");
    let help = help_text("1.2.3");
    assert!(help.starts_with("cargo-sidestep 1.2.3\n\nUSAGE:\n"));
    assert!(help.contains("If Cargo prints\n    \"Blocking waiting for file lock ...\", the"));
    assert!(help.ends_with("isolated CARGO_TARGET_DIR lanes.\n"));
}

#[test]
fn manifest_paths_are_read_from_args() {
    let text = |path: &str| Some(OsText::from_text(path));
    assert_eq!(manifest_path_from_args(&args(&["check"])), None);
    assert_eq!(
        manifest_path_from_args(&args(&["check", "--manifest-path", "a/Cargo.toml"])),
        text("a/Cargo.toml")
    );
    assert_eq!(
        manifest_path_from_args(&args(&["check", "--manifest-path=b/Cargo.toml", "x"])),
        text("b/Cargo.toml")
    );
    assert_eq!(manifest_path_from_args(&args(&["--manifest-path="])), text(""));
    assert_eq!(
        manifest_path_from_args(&args(&["--manifest-path=a", "--manifest-path", "b"])),
        text("a")
    );
    assert_eq!(manifest_path_from_args(&args(&["x", "--manifest-path"])), None);
    assert_eq!(
        manifest_path_from_args(&vec![
            OsText::from_text("--manifest-path"),
            OsText::Opaque(vec![0xff]),
        ]),
        Some(OsText::Opaque(vec![0xff]))
    );
    assert_eq!(
        manifest_path_from_args(&vec![OsText::Opaque(b"--manifest-path=\xff".to_vec())]),
        None
    );
}

#[test]
fn numbers_are_read_with_a_limit() {
    assert_eq!(number("0", 10), Some(0));
    assert_eq!(number("007", 10), Some(7));
    assert_eq!(number("+10", 10), Some(10));
    assert_eq!(number("11", 10), None);
    assert_eq!(number("", 10), None);
    assert_eq!(number("+", 10), None);
    assert_eq!(number("-0", 10), None);
    assert_eq!(number(" 1", 10), None);
    assert_eq!(number("1x", 10), None);
    assert_eq!(number("18446744073709551615", u64::MAX), Some(u64::MAX));
    assert_eq!(number("18446744073709551616", u64::MAX), None);
    assert_eq!(number("99999999999999999999999", u64::MAX), None);
}

#[test]
fn numbers_are_written() {
    assert_eq!(decimal_text(0), "0");
    assert_eq!(decimal_text(1090), "1090");
    assert_eq!(decimal_text(u64::MAX), "18446744073709551615");
    assert_eq!(hex_text(0xabc, 4), "0abc");
    assert_eq!(hex_text(u64::MAX, 16), "ffffffffffffffff");
    for n in [0, 9, 10, 255, 1_000_000_007] {
        assert_eq!(number(&decimal_text(n), n), Some(n));
    }
}

#[test]
fn text_is_split_and_searched() {
    assert_eq!(strings(split_words(&chars_of(" a  b\u{a0}c\n"))), vec!["a", "b", "c"]);
    assert!(split_words(&chars_of(" \t")).is_empty());
    assert_eq!(strings(split_fields(&chars_of("1..2."), '.')), vec!["1", "", "2", ""]);
    assert_eq!(strings(split_fields(&chars_of(""), '.')), vec![""]);
    assert!(chars_contain(&chars_of("aab"), "ab"));
    assert!(chars_contain(&chars_of("ab"), ""));
    assert!(chars_contain(&chars_of(""), ""));
    assert!(!chars_contain(&chars_of("ab"), "abc"));
    assert!(!chars_contain(&chars_of("abab"), "aa"));
    assert_eq!(lower_chars("AZaz\u{c4}[@"), chars_of("azaz\u{c4}[@"));
    assert!(same_text("x", "x"));
    assert!(!same_text("x", "xy"));
    assert_eq!(strip_text_prefix("k=\u{e9}v", "k="), Some("\u{e9}v".to_string()));
    assert_eq!(strip_text_prefix("k", "k="), None);
}

#[test]
fn results_become_exit_codes() {
    assert_eq!(exit_report(Ok(101)), (101, None));
    assert_eq!(
        exit_report(Err("no".to_string())),
        (1, Some("cargo-sidestep: no".to_string()))
    );
    assert_eq!(err_string("boom"), "boom");
    assert_eq!(err_string(7), "7");
}

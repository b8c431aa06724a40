use cargo_sidestep::cli::manifest_path_from_args;
use cargo_sidestep::hash::stable_hash;
use cargo_sidestep::path::{ManagedPath, OsText};
use cargo_sidestep::place::PlacePart;
use cargo_sidestep::settings::{
    default_cargo_home, default_state_root, home_dir, Environment, Settings, Variable,
};
use cargo_sidestep::workspace::{
    declares_workspace, discover_workspace_root, search_root, RootChoice, WorkspaceIdentity,
    WorkspacePaths,
};

fn text(value: &str) -> OsText {
    OsText::from_text(value)
}

fn shown(path: &ManagedPath) -> String {
    let mut shown = match path.base() {
        OsText::Unicode(base) => base.clone(),
        OsText::Opaque(_) => "?".to_string(),
    };
    for part in path.parts() {
        shown.push('/');
        shown.push_str(part);
    }
    shown
}

fn empty() -> Environment {
    Environment {
        cargo_bin: None,
        cargo: None,
        cargo_home: None,
        state_dir: None,
        fallback_after_ms: None,
        lanes: None,
        xdg_cache_home: None,
        home: None,
        macos: false,
    }
}

#[test]
fn variables_have_their_names() {
    let names: Vec<&str> = [
        Variable::CargoBin,
        Variable::Cargo,
        Variable::CargoHome,
        Variable::StateDir,
        Variable::FallbackAfterMs,
        Variable::Lanes,
        Variable::XdgCacheHome,
        Variable::Home,
    ]
    .into_iter()
    .map(|variable| variable.name())
    .collect();
    assert_eq!(
        names,
        vec![
            "CARGO_SIDESTEP_CARGO_BIN",
            "CARGO",
            "CARGO_HOME",
            "CARGO_SIDESTEP_STATE_DIR",
            "CARGO_SIDESTEP_FALLBACK_AFTER_MS",
            "CARGO_SIDESTEP_LANES",
            "XDG_CACHE_HOME",
            "HOME",
        ]
    );
}

#[test]
fn an_empty_environment_gives_the_defaults() {
    let settings = Settings::from_env(&empty());
    assert_eq!(settings.cargo_bin, text("cargo"));
    assert_eq!(shown(&settings.base_cargo_home), "./.cargo");
    assert_eq!(shown(&settings.state_root), "./.cache/cargo-sidestep");
    assert_eq!(settings.fallback_after_ms, 1500);
    assert_eq!(settings.lane_slots, 4);
}

#[test]
fn a_full_environment_overrides_the_defaults() {
    let settings = Settings::from_env(&Environment {
        cargo_bin: Some(text("./fake")),
        cargo: Some(text("/usr/bin/cargo")),
        cargo_home: Some(OsText::Opaque(vec![0x2f, 0xff])),
        state_dir: Some(text("/state")),
        fallback_after_ms: Some(text("100")),
        lanes: Some(text("9")),
        xdg_cache_home: Some(text("/xdg")),
        home: Some(text("/home/me")),
        macos: true,
    });
    assert_eq!(settings.cargo_bin, text("./fake"));
    assert_eq!(settings.base_cargo_home.base(), &OsText::Opaque(vec![0x2f, 0xff]));
    assert!(settings.base_cargo_home.parts().is_empty());
    assert_eq!(shown(&settings.state_root), "/state");
    assert_eq!(settings.fallback_after_ms, 100);
    assert_eq!(settings.lane_slots, 9);
}

#[test]
fn values_that_are_not_understood_count_as_unset() {
    for bad in ["", "x", "-1", "1.5", "18446744073709551616"] {
        let settings = Settings::from_env(&Environment {
            fallback_after_ms: Some(text(bad)),
            lanes: Some(text(bad)),
            ..empty()
        });
        assert_eq!(settings.fallback_after_ms, 1500);
        assert_eq!(settings.lane_slots, 4);
    }
    let settings = Settings::from_env(&Environment {
        fallback_after_ms: Some(text("0")),
        lanes: Some(text("0")),
        ..empty()
    });
    assert_eq!(settings.fallback_after_ms, 0);
    assert_eq!(settings.lane_slots, 4);
    let settings = Settings::from_env(&Environment {
        lanes: Some(OsText::Opaque(vec![0x39])),
        cargo: Some(text("/usr/bin/cargo")),
        ..empty()
    });
    assert_eq!(settings.lane_slots, 4);
    assert_eq!(settings.cargo_bin, text("/usr/bin/cargo"));
}

#[test]
fn default_places_follow_the_platform() {
    let home = text("/home/me");
    let cache = text("/xdg");
    assert_eq!(shown(&home_dir(None)), ".");
    assert_eq!(shown(&home_dir(Some(&home))), "/home/me");
    assert_eq!(shown(&default_cargo_home(Some(&home))), "/home/me/.cargo");
    assert_eq!(
        shown(&default_state_root(None, Some(&home), false)),
        "/home/me/.cache/cargo-sidestep"
    );
    assert_eq!(
        shown(&default_state_root(None, Some(&home), true)),
        "/home/me/Library/Caches/cargo-sidestep"
    );
    assert_eq!(
        shown(&default_state_root(Some(&cache), Some(&home), true)),
        "/xdg/cargo-sidestep"
    );
}

/// The parts of a path, with `/` between them.
fn place(path: &str) -> Vec<PlacePart> {
    let mut parts = Vec::new();
    if path.starts_with('/') {
        parts.push(PlacePart::Root(text("/")));
    }
    for part in path.split('/').filter(|part| !part.is_empty()) {
        parts.push(match part {
            "." => PlacePart::Here,
            ".." => PlacePart::Up,
            name => PlacePart::Name(text(name)),
        });
    }
    parts
}

/// Where a path leads on a file system with the given links.
fn resolve(path: &[PlacePart], links: &[(&str, &str)]) -> Vec<PlacePart> {
    let mut way: Vec<PlacePart> = Vec::new();
    for part in path {
        match part {
            PlacePart::Here => {}
            PlacePart::Up => {
                way.pop();
                if way.is_empty() {
                    way = place("/");
                }
            }
            part => way.push(part.clone()),
        }
        if let Some((_, target)) = links.iter().find(|(link, _)| place(link) == way) {
            way = place(target);
        }
    }
    way
}

/// The place at which the search starts for a command line, on a file system with the
/// given links.
fn start_among(
    cwd: &str,
    args: &[&str],
    links: &[(&str, &str)],
) -> Result<Vec<PlacePart>, String> {
    let args: Vec<OsText> = args.iter().map(|arg| text(arg)).collect();
    let manifest = manifest_path_from_args(&args).map(|manifest| match manifest {
        OsText::Unicode(path) => place(&path),
        OsText::Opaque(_) => panic!("the path should be Unicode"),
    });
    let root = search_root(&place(cwd), manifest.as_ref())?;
    Ok(root.start(Some(&resolve(&root.winding, links))))
}

/// The place at which the search starts for a command line, without links.
fn start(cwd: &str, args: &[&str]) -> Result<Vec<PlacePart>, String> {
    start_among(cwd, args, &[])
}

/// The workspace that is found from a place, among the manifests that exist.
fn workspace_from(start: &[PlacePart], manifests: &[(&str, &str)]) -> Vec<PlacePart> {
    let mut probes = Vec::new();
    for length in (1..=start.len()).rev() {
        let found = manifests
            .iter()
            .find(|(dir, _)| place(dir) == start[..length]);
        probes.push(found.map(|(_, contents)| contents.to_string()));
    }
    match discover_workspace_root(&probes) {
        RootChoice::Ancestor(steps) => start[..start.len() - steps].to_vec(),
        RootChoice::CurrentDir => panic!("there should be a manifest"),
    }
}

#[test]
fn manifest_path_uses_enclosing_workspace_root() {
    let manifests = [
        ("/root", "[workspace]\nmembers = [\"crates/member\"]\n"),
        (
            "/root/crates/member",
            "[package]\nname = \"member\"\nversion = \"0.1.0\"\nedition = \"2021\"\n",
        ),
    ];
    let member = start("/root", &["--manifest-path=/root/crates/member/Cargo.toml"]).unwrap();
    assert_eq!(member, place("/root/crates/member"));
    assert_eq!(workspace_from(&member, &manifests), place("/root"));
    for args in [
        vec!["check"],
        vec!["check", "--manifest-path", "Cargo.toml"],
        vec!["check", "--manifest-path", "./Cargo.toml"],
        vec!["check", "--manifest-path", "../member/Cargo.toml"],
        vec!["check", "--manifest-path", "../../Cargo.toml"],
    ] {
        let from = start("/root/crates/member", &args).unwrap();
        assert_eq!(workspace_from(&from, &manifests), place("/root"));
    }
}

#[test]
fn relative_manifests_keep_workspaces_apart() {
    let args = ["check", "--manifest-path", "Cargo.toml"];
    assert_eq!(start("/a", &args), Ok(place("/a")));
    assert_eq!(start("/b", &args), Ok(place("/b")));
    assert_eq!(start("/a", &["check"]), Ok(place("/a")));
    assert_eq!(
        start("/a", &["--manifest-path", "./crates/api/Cargo.toml"]),
        Ok(place("/a/crates/api"))
    );
}

#[test]
fn the_search_starts_where_the_manifest_says() {
    let none = Err("manifest path has no parent directory".to_string());
    assert_eq!(start("/cwd", &[]), Ok(place("/cwd")));
    assert_eq!(start("/cwd", &["--manifest-path=/x/y/M"]), Ok(place("/x/y")));
    assert_eq!(start("/cwd", &["--manifest-path=/M"]), Ok(place("/")));
    assert_eq!(start("/cwd", &["--manifest-path=../x/./M"]), Ok(place("/x")));
    assert_eq!(start("/cwd", &["--manifest-path=../../../M"]), Ok(place("/")));
    assert_eq!(start("/cwd", &["--manifest-path="]), none);
    assert_eq!(start("/cwd", &["--manifest-path=/"]), none);
}

#[test]
fn two_dots_go_by_what_the_file_system_says() {
    let links = [("/a/link", "/x/y")];
    let start = |path: &str| start_among("/a", &["--manifest-path", path], &links);
    assert_eq!(start("/a/link/../Cargo.toml"), Ok(place("/x")));
    assert_eq!(start("link/../b/Cargo.toml"), Ok(place("/x/b")));
    assert_eq!(start("link/Cargo.toml"), Ok(place("/a/link")));
    assert_eq!(start("other/../Cargo.toml"), Ok(place("/a")));
}

#[test]
fn paths_that_lead_nowhere_are_searched_as_named() {
    let root = search_root(&place("/a"), Some(&place("gone/../b/./Cargo.toml"))).unwrap();
    assert_eq!(root.winding, place("/a/gone/.."));
    assert_eq!(root.straight, place("b"));
    assert_eq!(root.start(None), place("/a/gone/../b"));
    assert_eq!(root.start(Some(&place("/z"))), place("/z/b"));
    let root = search_root(&place("/a"), Some(&place("b/Cargo.toml"))).unwrap();
    assert_eq!(root.winding, vec![]);
    assert_eq!(root.start(None), place("/a/b"));
    assert_eq!(root.start(Some(&place("/z"))), place("/a/b"));
}

#[test]
fn the_nearest_manifest_is_the_second_choice() {
    let package = || Some("[package]\n".to_string());
    let workspace = || Some("[workspace]\n".to_string());
    assert_eq!(discover_workspace_root(&vec![]), RootChoice::CurrentDir);
    assert_eq!(discover_workspace_root(&vec![None, None]), RootChoice::CurrentDir);
    assert_eq!(
        discover_workspace_root(&vec![None, package(), None, package()]),
        RootChoice::Ancestor(1)
    );
    assert_eq!(
        discover_workspace_root(&vec![package(), workspace(), workspace()]),
        RootChoice::Ancestor(1)
    );
    assert_eq!(
        discover_workspace_root(&vec![package(), workspace()]),
        RootChoice::Ancestor(1)
    );
    assert_eq!(
        discover_workspace_root(&vec![Some(String::new())]),
        RootChoice::Ancestor(0)
    );
    assert!(declares_workspace("x\n[workspace]"));
    assert!(!declares_workspace("[workspace.package]"));
}

#[test]
fn workspaces_are_laid_out_by_key() {
    let settings = Settings::from_env(&Environment {
        state_dir: Some(text("/state")),
        ..empty()
    });
    let identity = WorkspaceIdentity::discover("/w".to_string(), Some("/real/w".to_string()));
    assert_eq!(identity.root(), "/real/w");
    assert_eq!(identity.key(), stable_hash("/real/w"));
    let paths = WorkspacePaths::new(&settings, &identity);
    let root = format!("/state/workspaces/{}", stable_hash("/real/w"));
    assert_eq!(shown(&paths.shared_target_dir), format!("{root}/target"));
    assert_eq!(shown(&paths.shared_build_dir), format!("{root}/build/shared"));
    assert_eq!(shown(&paths.lanes_dir), format!("{root}/lanes"));
    assert_eq!(shown(&paths.root_note), format!("{root}/workspace-path.txt"));
    let made: Vec<String> = paths.directories().iter().map(shown).collect();
    assert_eq!(
        made,
        vec![
            format!("{root}/target"),
            format!("{root}/build/shared"),
            format!("{root}/lanes"),
        ]
    );
    let other = WorkspaceIdentity::discover("/v".to_string(), None);
    assert_eq!(other.root(), "/v");
    assert_ne!(
        WorkspacePaths::new(&settings, &other).lanes_dir,
        paths.lanes_dir
    );
}

#[test]
fn paths_grow_by_names() {
    let path = ManagedPath::new(text("/a")).join("b").join("c");
    assert_eq!(shown(&path), "/a/b/c");
    assert_eq!(path.clone(), path);
    assert_ne!(path.join("d"), path);
    assert!(text("x").is("x"));
    assert!(!text("x").is("y"));
    assert!(!OsText::Opaque(vec![0x78]).is("x"));
}

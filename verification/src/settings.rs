//! What the environment settles: which Cargo to run, where state is kept, how long
//! to wait and how many lanes there are.

use crate::number::{
    decimal, decimal_reads_back, lemma_decimal, numbers_are_read_by_their_digits,
    other_texts_are_no_numbers, parse_number, read_number,
};
use crate::path::{fixed_names_are_plain, ManagedPath, OsText, OsTextView, PathView};
use crate::text::chars_of;
use vstd::prelude::*;

verus! {

/// Milliseconds from a lock message to the retry, where the environment gives
/// none.
pub const DEFAULT_FALLBACK_AFTER_MS: u64 = 1_500;

/// Number of lanes, where the environment gives none.
pub const DEFAULT_LANE_SLOTS: usize = 4;

/// The environment variables that are read.
#[derive(Copy, Clone, Debug, PartialEq, Eq, Structural)]
pub enum Variable {
    CargoBin,
    Cargo,
    CargoHome,
    StateDir,
    FallbackAfterMs,
    Lanes,
    XdgCacheHome,
    Home,
}

/// The name of a variable in the environment.
pub open spec fn variable_name(variable: Variable) -> Seq<char> {
    match variable {
        Variable::CargoBin => "CARGO_SIDESTEP_CARGO_BIN"@,
        Variable::Cargo => "CARGO"@,
        Variable::CargoHome => "CARGO_HOME"@,
        Variable::StateDir => "CARGO_SIDESTEP_STATE_DIR"@,
        Variable::FallbackAfterMs => "CARGO_SIDESTEP_FALLBACK_AFTER_MS"@,
        Variable::Lanes => "CARGO_SIDESTEP_LANES"@,
        Variable::XdgCacheHome => "XDG_CACHE_HOME"@,
        Variable::Home => "HOME"@,
    }
}

impl Variable {
    /// The name of the variable in the environment.
    pub fn name(self) -> (name: &'static str)
        ensures
            name@ == variable_name(self),
    {
        match self {
            Variable::CargoBin => "CARGO_SIDESTEP_CARGO_BIN",
            Variable::Cargo => "CARGO",
            Variable::CargoHome => "CARGO_HOME",
            Variable::StateDir => "CARGO_SIDESTEP_STATE_DIR",
            Variable::FallbackAfterMs => "CARGO_SIDESTEP_FALLBACK_AFTER_MS",
            Variable::Lanes => "CARGO_SIDESTEP_LANES",
            Variable::XdgCacheHome => "XDG_CACHE_HOME",
            Variable::Home => "HOME",
        }
    }
}

/// The values of the variables that are set, and the platform.
#[derive(Debug)]
pub struct Environment {
    pub cargo_bin: Option<OsText>,
    pub cargo: Option<OsText>,
    pub cargo_home: Option<OsText>,
    pub state_dir: Option<OsText>,
    pub fallback_after_ms: Option<OsText>,
    pub lanes: Option<OsText>,
    pub xdg_cache_home: Option<OsText>,
    pub home: Option<OsText>,
    pub macos: bool,
}

/// What an optional text holds.
pub open spec fn os_view(value: Option<OsText>) -> Option<OsTextView> {
    match value {
        Some(text) => Some(text@),
        None => None,
    }
}

/// What an optional reference to a text holds.
pub open spec fn os_ref_view(value: Option<&OsText>) -> Option<OsTextView> {
    match value {
        Some(text) => Some(text@),
        None => None,
    }
}

/// The path that is `base` itself.
pub open spec fn path_at(base: OsTextView) -> PathView {
    PathView { base, parts: Seq::empty() }
}

/// The home directory: `HOME`, or else the current directory.
pub open spec fn home_path(home: Option<OsTextView>) -> PathView {
    match home {
        Some(home) => path_at(home),
        None => path_at(OsTextView::Unicode("."@)),
    }
}

/// The home directory.
pub fn home_dir(home: Option<&OsText>) -> (path: ManagedPath)
    ensures
        path@ == home_path(os_ref_view(home)),
{
    match home {
        Some(home) => ManagedPath::new(home.clone()),
        None => ManagedPath::new(OsText::from_text(".")),
    }
}

/// Where Cargo's home is, where `CARGO_HOME` does not say.
pub fn default_cargo_home(home: Option<&OsText>) -> (path: ManagedPath)
    ensures
        path@ == home_path(os_ref_view(home)).child(".cargo"@),
{
    proof {
        fixed_names_are_plain();
    }
    home_dir(home).join(".cargo")
}

/// Where state is kept, where `CARGO_SIDESTEP_STATE_DIR` does not say: in the
/// user's cache directory.
pub open spec fn default_state_path(
    xdg_cache_home: Option<OsTextView>,
    home: Option<OsTextView>,
    macos: bool,
) -> PathView {
    match xdg_cache_home {
        Some(cache) => path_at(cache).child("cargo-sidestep"@),
        None => if macos {
            home_path(home).child("Library"@).child("Caches"@).child("cargo-sidestep"@)
        } else {
            home_path(home).child(".cache"@).child("cargo-sidestep"@)
        },
    }
}

/// Where state is kept, where `CARGO_SIDESTEP_STATE_DIR` does not say.
pub fn default_state_root(
    xdg_cache_home: Option<&OsText>,
    home: Option<&OsText>,
    macos: bool,
) -> (path: ManagedPath)
    ensures
        path@ == default_state_path(os_ref_view(xdg_cache_home), os_ref_view(home), macos),
{
    proof {
        fixed_names_are_plain();
    }
    match xdg_cache_home {
        Some(cache) => ManagedPath::new(cache.clone()).join("cargo-sidestep"),
        None => if macos {
            home_dir(home).join("Library").join("Caches").join("cargo-sidestep")
        } else {
            home_dir(home).join(".cache").join("cargo-sidestep")
        },
    }
}

/// The number that a variable gives, if it is set, is Unicode and writes a number
/// of at most `max`.
pub open spec fn number_value(value: Option<OsTextView>, max: nat) -> Option<nat> {
    match value {
        Some(OsTextView::Unicode(text)) => read_number(text, max),
        _ => None,
    }
}

fn number_of(value: &Option<OsText>, max: u64) -> (number: Option<u64>)
    ensures
        match number {
            Some(n) => number_value(os_view(*value), max as nat) == Some(n as nat),
            None => number_value(os_view(*value), max as nat) is None,
        },
{
    match value {
        Some(OsText::Unicode(text)) => parse_number(&chars_of(text.as_str()), max),
        _ => None,
    }
}

/// How Cargo is run and where state is kept.
#[derive(Debug)]
pub struct Settings {
    pub cargo_bin: OsText,
    pub base_cargo_home: ManagedPath,
    pub state_root: ManagedPath,
    pub fallback_after_ms: u64,
    pub lane_slots: usize,
}

/// The Cargo to run: the override, else the Cargo that runs this program, else
/// the one on the search path.
pub open spec fn cargo_bin_of(env: Environment) -> OsTextView {
    match env.cargo_bin {
        Some(bin) => bin@,
        None => match env.cargo {
            Some(bin) => bin@,
            None => OsTextView::Unicode("cargo"@),
        },
    }
}

/// Cargo's own home: `CARGO_HOME`, else its default place.
pub open spec fn cargo_home_of(env: Environment) -> PathView {
    match env.cargo_home {
        Some(home) => path_at(home@),
        None => home_path(os_view(env.home)).child(".cargo"@),
    }
}

/// The root of all managed state: the override, else its default place.
pub open spec fn state_root_of(env: Environment) -> PathView {
    match env.state_dir {
        Some(dir) => path_at(dir@),
        None => default_state_path(os_view(env.xdg_cache_home), os_view(env.home), env.macos),
    }
}

/// Milliseconds from a lock message to the retry.
pub open spec fn fallback_after_of(env: Environment) -> nat {
    match number_value(os_view(env.fallback_after_ms), u64::MAX as nat) {
        Some(ms) => ms,
        None => DEFAULT_FALLBACK_AFTER_MS as nat,
    }
}

/// The number of lanes. Zero lanes count as a number that was not given.
pub open spec fn lane_slots_of(env: Environment) -> nat {
    match number_value(os_view(env.lanes), usize::MAX as nat) {
        Some(slots) => if slots > 0 {
            slots
        } else {
            DEFAULT_LANE_SLOTS as nat
        },
        None => DEFAULT_LANE_SLOTS as nat,
    }
}

impl Settings {
    /// Reads the settings out of the environment. Values that are not understood
    /// are treated as if they were not set.
    pub fn from_env(env: &Environment) -> (settings: Settings)
        ensures
            settings.cargo_bin@ == cargo_bin_of(*env),
            settings.base_cargo_home@ == cargo_home_of(*env),
            settings.state_root@ == state_root_of(*env),
            settings.fallback_after_ms == fallback_after_of(*env),
            settings.lane_slots == lane_slots_of(*env),
            settings.lane_slots > 0,
    {
        let cargo_bin = match &env.cargo_bin {
            Some(bin) => bin.clone(),
            None => match &env.cargo {
                Some(bin) => bin.clone(),
                None => OsText::from_text("cargo"),
            },
        };
        let base_cargo_home = match &env.cargo_home {
            Some(home) => ManagedPath::new(home.clone()),
            None => default_cargo_home(env.home.as_ref()),
        };
        let state_root = match &env.state_dir {
            Some(dir) => ManagedPath::new(dir.clone()),
            None => default_state_root(env.xdg_cache_home.as_ref(), env.home.as_ref(), env.macos),
        };
        let fallback_after_ms: u64 = match number_of(&env.fallback_after_ms, u64::MAX) {
            Some(ms) => ms,
            None => DEFAULT_FALLBACK_AFTER_MS,
        };
        let lane_slots: usize = match number_of(&env.lanes, usize::MAX as u64) {
            Some(slots) => if slots > 0 {
                slots as usize
            } else {
                DEFAULT_LANE_SLOTS
            },
            None => DEFAULT_LANE_SLOTS,
        };
        Settings { cargo_bin, base_cargo_home, state_root, fallback_after_ms, lane_slots }
    }
}

/// Cargo's home is the place that `CARGO_HOME` names. Without it, it is the entry
/// `.cargo` of the place that `HOME` names, and without that too, of the current
/// directory. No other variable plays a part.
pub proof fn cargo_home_follows_home(env: Environment, other: Environment)
    ensures
        env.cargo_home matches Some(home) ==> cargo_home_of(env).base == home@ && cargo_home_of(
            env,
        ).parts.len() == 0,
        env.cargo_home is None ==> cargo_home_of(env).parts == seq![".cargo"@],
        env.cargo_home is None && env.home is Some ==> cargo_home_of(env).base == env.home->0@,
        env.cargo_home is None && env.home is None ==> cargo_home_of(env).base
            == OsTextView::Unicode("."@),
        os_view(env.cargo_home) == os_view(other.cargo_home) && os_view(env.home) == os_view(
            other.home,
        ) ==> cargo_home_of(env) == cargo_home_of(other),
        env.cargo_home is None && other.cargo_home is None && env.home is Some && other.home is Some
            && env.home->0@ != other.home->0@ ==> cargo_home_of(env) != cargo_home_of(other),
{
    assert(cargo_home_of(env).parts =~= (if env.cargo_home is None {
        seq![".cargo"@]
    } else {
        Seq::empty()
    }));
}

/// State is kept at the place that `CARGO_SIDESTEP_STATE_DIR` names. Without it, it is
/// kept in the entry `cargo-sidestep` of the cache directory: that which `XDG_CACHE_HOME`
/// names, else that of the platform below the place that `HOME` names, or the current
/// directory. No other variable plays a part.
pub proof fn state_root_follows_the_cache(env: Environment, other: Environment)
    ensures
        env.state_dir matches Some(dir) ==> state_root_of(env).base == dir@ && state_root_of(
            env,
        ).parts.len() == 0,
        env.state_dir is None ==> state_root_of(env).parts.len() > 0 && state_root_of(
            env,
        ).parts.last() == "cargo-sidestep"@,
        env.state_dir is None && env.xdg_cache_home is Some ==> state_root_of(env).base
            == env.xdg_cache_home->0@ && state_root_of(env).parts.len() == 1,
        env.state_dir is None && env.xdg_cache_home is None ==> state_root_of(env).base == (
        match env.home {
            Some(home) => home@,
            None => OsTextView::Unicode("."@),
        }),
        env.state_dir is None && env.xdg_cache_home is None && !env.macos ==> state_root_of(
            env,
        ).parts == seq![".cache"@, "cargo-sidestep"@],
        env.state_dir is None && env.xdg_cache_home is None && env.macos ==> state_root_of(
            env,
        ).parts == seq!["Library"@, "Caches"@, "cargo-sidestep"@],
        os_view(env.state_dir) == os_view(other.state_dir) && os_view(env.xdg_cache_home)
            == os_view(other.xdg_cache_home) && os_view(env.home) == os_view(other.home)
            && env.macos == other.macos ==> state_root_of(env) == state_root_of(other),
{
    let home = home_path(os_view(env.home));
    assert(home.child(".cache"@).child("cargo-sidestep"@).parts =~= seq![
        ".cache"@,
        "cargo-sidestep"@,
    ]);
    assert(home.child("Library"@).child("Caches"@).child("cargo-sidestep"@).parts =~= seq![
        "Library"@,
        "Caches"@,
        "cargo-sidestep"@,
    ]);
}

/// The Cargo that is run is the one that `CARGO_SIDESTEP_CARGO_BIN` names, else the one
/// that `CARGO` names, else the one that is found as `cargo`.
pub proof fn named_cargo_is_run(env: Environment)
    ensures
        env.cargo_bin is Some ==> cargo_bin_of(env) == env.cargo_bin->0@,
        env.cargo_bin is None && env.cargo is Some ==> cargo_bin_of(env) == env.cargo->0@,
        env.cargo_bin is None && env.cargo is None ==> cargo_bin_of(env) == OsTextView::Unicode(
            "cargo"@,
        ),
{
}

/// The patience is the number that `CARGO_SIDESTEP_FALLBACK_AFTER_MS` writes. Where it
/// is not set, is not Unicode, has anything but digits in it, or is too large, the
/// patience is 1500.
pub proof fn patience_is_what_is_written(env: Environment, ms: nat, text: Seq<char>, at: int)
    ensures
        os_view(env.fallback_after_ms) == Some(OsTextView::Unicode(decimal(ms))) && ms
            <= u64::MAX ==> fallback_after_of(env) == ms,
        os_view(env.fallback_after_ms) == Some(OsTextView::Unicode(decimal(ms))) && ms > u64::MAX
            ==> fallback_after_of(env) == 1500,
        env.fallback_after_ms is None ==> fallback_after_of(env) == 1500,
        env.fallback_after_ms matches Some(value) && value@ is Opaque ==> fallback_after_of(env)
            == 1500,
        os_view(env.fallback_after_ms) == Some(OsTextView::Unicode(text)) && 0 <= at < text.len()
            && !('0' <= text[at] <= '9') && !(at == 0 && text[0] == '+') ==> fallback_after_of(
            env,
        ) == 1500,
        os_view(env.fallback_after_ms) == Some(OsTextView::Unicode(Seq::empty()))
            ==> fallback_after_of(env) == 1500,
{
    lemma_written(ms, u64::MAX as nat);
    other_texts_are_no_numbers(text, at, u64::MAX as nat);
}

/// The number of lanes is the one that `CARGO_SIDESTEP_LANES` writes. Where it is not
/// set, is not Unicode, has anything but digits in it, is zero, or is too large, there are
/// four. There is always one.
pub proof fn lanes_are_as_many_as_written(env: Environment, slots: nat, text: Seq<char>, at: int)
    ensures
        os_view(env.lanes) == Some(OsTextView::Unicode(decimal(slots))) && 0 < slots <= usize::MAX
            ==> lane_slots_of(env) == slots,
        os_view(env.lanes) == Some(OsTextView::Unicode(decimal(slots))) && (slots == 0 || slots
            > usize::MAX) ==> lane_slots_of(env) == 4,
        env.lanes is None ==> lane_slots_of(env) == 4,
        env.lanes matches Some(value) && value@ is Opaque ==> lane_slots_of(env) == 4,
        os_view(env.lanes) == Some(OsTextView::Unicode(text)) && 0 <= at < text.len() && !('0'
            <= text[at] <= '9') && !(at == 0 && text[0] == '+') ==> lane_slots_of(env) == 4,
        os_view(env.lanes) == Some(OsTextView::Unicode(Seq::empty())) ==> lane_slots_of(env) == 4,
        lane_slots_of(env) > 0,
{
    lemma_written(slots, usize::MAX as nat);
    other_texts_are_no_numbers(text, at, usize::MAX as nat);
}

proof fn lemma_written(n: nat, max: nat)
    ensures
        n <= max ==> read_number(decimal(n), max) == Some(n),
        n > max ==> read_number(decimal(n), max) is None,
{
    if n <= max {
        decimal_reads_back(n, max);
    } else {
        decimal_reads_back(n, n);
        lemma_decimal(n);
        numbers_are_read_by_their_digits(decimal(n), max, n);
    }
}

/// Different variables have different names.
pub proof fn variables_have_names_of_their_own(a: Variable, b: Variable)
    requires
        variable_name(a) == variable_name(b),
    ensures
        a == b,
{
    reveal_strlit("CARGO_SIDESTEP_CARGO_BIN");
    reveal_strlit("CARGO");
    reveal_strlit("CARGO_HOME");
    reveal_strlit("CARGO_SIDESTEP_STATE_DIR");
    reveal_strlit("CARGO_SIDESTEP_FALLBACK_AFTER_MS");
    reveal_strlit("CARGO_SIDESTEP_LANES");
    reveal_strlit("XDG_CACHE_HOME");
    reveal_strlit("HOME");
    assert("CARGO"@.len() == 5 && "CARGO_HOME"@.len() == 10 && "HOME"@.len() == 4);
    assert("CARGO_SIDESTEP_FALLBACK_AFTER_MS"@.len() == 32);
    assert("CARGO_SIDESTEP_LANES"@.len() == 20 && "XDG_CACHE_HOME"@.len() == 14);
    assert("CARGO_SIDESTEP_CARGO_BIN"@.len() == 24);
    assert("CARGO_SIDESTEP_STATE_DIR"@.len() == 24);
    assert("CARGO_SIDESTEP_CARGO_BIN"@[15] == 'C');
    assert("CARGO_SIDESTEP_STATE_DIR"@[15] == 'S');
}

} // verus!

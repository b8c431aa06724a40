# cargo-sidestep

`cargo-sidestep` runs Cargo so that it does not wait behind another Cargo. It runs the
command on directories that all runs in a workspace share. If Cargo prints
`Blocking waiting for file lock ...`, the run is given up after a while and the command
is run again in a lane, a set of directories that nobody else uses.

- A lock on the build directory leads to a retry in a build lane.
- A lock in Cargo's home leads to a retry on an overlay home without network, which
  reuses cached crate archives, and from there, if that is not enough, to one with
  network and a crate cache of its own.

## Layout

- `src/` is a library of the decisions, verified with Verus. It starts no processes and
  touches no files. Each public function states in its contract what it returns. What
  holds of the whole is stated by public proof functions, mostly in `reroute`, `watch`,
  `lane`, `claim`, `overlay`, `disk` and `isolation`.
- `app/` is the program: it reads the environment and the file system, runs Cargo, and
  does what the library decides.
- `tests/` runs the library on concrete values.

## Environment

- `CARGO_SIDESTEP_STATE_DIR`: where managed targets, build directories and lanes lie.
- `CARGO_SIDESTEP_FALLBACK_AFTER_MS`: milliseconds from a lock message to the retry.
  Default: `1500`.
- `CARGO_SIDESTEP_LANES`: number of reusable lanes per workspace. Default: `4`.
- `CARGO_SIDESTEP_CARGO_BIN`: the Cargo to run.

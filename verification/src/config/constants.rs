//! Default locations and names used when the configuration leaves them out.
use vstd::prelude::*;

verus! {

/// Name of the fuzzer's configuration file.
pub const TRIDENT_TOML: &'static str = "Trident.toml";

/// Name of the file that marks the workspace root.
pub const ANCHOR_TOML: &'static str = "Anchor.toml";

/// Build directory of honggfuzz targets.
pub const CARGO_TARGET_DIR_DEFAULT_HFUZZ: &'static str = "trident-tests/fuzz_tests/fuzzing/hfuzz_target";

/// Working directory of honggfuzz.
pub const HFUZZ_WORKSPACE_DEFAULT_HFUZZ: &'static str = "trident-tests/fuzz_tests/fuzzing/hfuzz_workspace";

/// Environment variable that holds the build directory.
pub const CARGO_TARGET_DIR_ENV: &'static str = "CARGO_TARGET_DIR";

/// Environment variable that holds honggfuzz's working directory.
pub const HFUZZ_WORKSPACE_ENV: &'static str = "HFUZZ_WORKSPACE";

/// Build directory of AFL targets.
pub const CARGO_TARGET_DIR_DEFAULT_AFL: &'static str = "trident-tests/fuzz_tests/fuzzing/afl/afl_target";

/// Directory AFL reads its inputs from.
pub const AFL_WORKSPACE_DEFAULT_IN: &'static str = "trident-tests/fuzz_tests/fuzzing/afl/afl_workspace/in";

/// Directory AFL writes its findings to.
pub const AFL_WORKSPACE_DEFAULT_OUT: &'static str = "trident-tests/fuzz_tests/fuzzing/afl/afl_workspace/out";

/// File name of the default AFL seed.
pub const DEFAULT_SEED_FILENAME: &'static str = "trident-seed";

/// Content of the default AFL seed.
pub const DEFAULT_SEED: &'static str = "trident";

} // verus!

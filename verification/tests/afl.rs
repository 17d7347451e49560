use trident_fuzz::config::afl::{Afl, AflArg, BuildArgument, FuzzArgument};
use trident_fuzz::config::constants::{AFL_WORKSPACE_DEFAULT_IN, AFL_WORKSPACE_DEFAULT_OUT, CARGO_TARGET_DIR_DEFAULT_AFL};
use trident_fuzz::keyed_map::KeyedMap;

fn clean() -> Afl {
    Afl { fuzz_args: KeyedMap::new(), build_args: KeyedMap::new(), seeds: vec![] }
}

#[test]
fn afl_test_cargo_target_dir() {
    let mut afl = clean();

    afl.build_args.insert(
        BuildArgument::CargoTargetDir,
        AflArg::new("", "--target-dir", CARGO_TARGET_DIR_DEFAULT_AFL),
    );

    let arg = afl.get_collect_build_args();
    assert_eq!(arg, vec!["--target-dir", CARGO_TARGET_DIR_DEFAULT_AFL]);
}

#[test]
fn test_workspace_in() {
    let mut afl = clean();

    afl.fuzz_args.insert(FuzzArgument::AflWorkspaceIn, AflArg::new("-i", "", AFL_WORKSPACE_DEFAULT_IN));

    let arg = afl.get_collect_fuzz_args();
    assert_eq!(arg, vec!["-i", AFL_WORKSPACE_DEFAULT_IN]);
}

#[test]
fn test_workspace_out() {
    let mut afl = clean();

    afl.fuzz_args.insert(FuzzArgument::AflWorkspaceOut, AflArg::new("-o", "", AFL_WORKSPACE_DEFAULT_OUT));

    let arg = afl.get_collect_fuzz_args();
    assert_eq!(arg, vec!["-o", AFL_WORKSPACE_DEFAULT_OUT]);
}

#[test]
fn test_execs() {
    let mut afl = clean();

    afl.fuzz_args.insert(FuzzArgument::Execs, AflArg::new("-E", "", &555.to_string()));

    let arg = afl.get_collect_fuzz_args();
    assert_eq!(arg, vec!["-E", "555"]);
}

#[test]
fn test_seconds() {
    let mut afl = clean();

    afl.fuzz_args.insert(FuzzArgument::Seconds, AflArg::new("-V", "", &15.to_string()));

    let arg = afl.get_collect_fuzz_args();
    assert_eq!(arg, vec!["-V", "15"]);
}

#[test]
fn afl_option_without_value_gets_an_empty_word() {
    let mut afl = clean();
    afl.fuzz_args.insert(FuzzArgument::Seconds, AflArg::new("-V", "", ""));
    assert_eq!(afl.get_collect_fuzz_args(), vec!["-V", ""]);
}

#[test]
fn afl_options_keep_the_order_they_were_set() {
    let mut afl = clean();
    afl.fuzz_args.insert(FuzzArgument::AflWorkspaceOut, AflArg::new("-o", "", "out"));
    afl.fuzz_args.insert(FuzzArgument::AflWorkspaceIn, AflArg::new("-i", "", "in"));
    afl.fuzz_args.insert(FuzzArgument::AflWorkspaceOut, AflArg::new("-o", "", "out2"));
    assert_eq!(afl.get_collect_fuzz_args(), vec!["-o", "out2", "-i", "in"]);
}

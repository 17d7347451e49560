use trident_fuzz::config::constants::{CARGO_TARGET_DIR_DEFAULT_HFUZZ, HFUZZ_WORKSPACE_DEFAULT_HFUZZ};
use trident_fuzz::config::honggfuzz::{EnvVariable, FuzzArgument, HonggFuzz, HonggFuzzArg};
use trident_fuzz::keyed_map::KeyedMap;

fn clean() -> HonggFuzz {
    HonggFuzz { fuzz_args: KeyedMap::new(), env_variables: KeyedMap::new() }
}

#[test]
fn test_timeout() {
    let mut honggfuzz = clean();
    let timeout = 10;
    honggfuzz.fuzz_args.insert(FuzzArgument::Timeout, HonggFuzzArg::new("-t", "--timeout", &timeout.to_string()));
    let arg = honggfuzz.get_collect_fuzz_args();
    assert_eq!(arg, vec!["-t 10"]);
}

#[test]
fn test_iterations() {
    let mut honggfuzz = clean();
    let iterations = 1000;
    honggfuzz.fuzz_args.insert(
        FuzzArgument::Iterations,
        HonggFuzzArg::new("-N", "--iterations", &iterations.to_string()),
    );
    let arg = honggfuzz.get_collect_fuzz_args();
    assert_eq!(arg, vec!["-N 1000"]);
}

#[test]
fn test_threads() {
    let mut honggfuzz = clean();
    let threads = 15;
    honggfuzz.fuzz_args.insert(FuzzArgument::Threads, HonggFuzzArg::new("-n", "--threads", &threads.to_string()));
    let arg = honggfuzz.get_collect_fuzz_args();
    assert_eq!(arg, vec!["-n 15"]);
}

#[test]
fn test_keep_output() {
    let mut honggfuzz = clean();
    honggfuzz.fuzz_args.insert(FuzzArgument::KeepOutput, HonggFuzzArg::new("-Q", "--keep_output", ""));
    let arg = honggfuzz.get_collect_fuzz_args();
    assert_eq!(arg, vec!["-Q"]);
}

#[test]
fn test_verbose() {
    let mut honggfuzz = clean();
    honggfuzz.fuzz_args.insert(FuzzArgument::Verbose, HonggFuzzArg::new("-v", "--verbose", ""));
    let arg = honggfuzz.get_collect_fuzz_args();
    assert_eq!(arg, vec!["-v"]);
}

#[test]
fn test_exit_upon_crash() {
    let mut honggfuzz = clean();
    honggfuzz.fuzz_args.insert(FuzzArgument::ExitUponCrash, HonggFuzzArg::new("", "--exit_upon_crash", ""));
    let arg = honggfuzz.get_collect_fuzz_args();
    assert_eq!(arg, vec!["--exit_upon_crash"]);
}

#[test]
fn test_mutations_per_run() {
    let mut honggfuzz = clean();
    let mutations_per_run = 33;
    honggfuzz.fuzz_args.insert(
        FuzzArgument::MutationsPerRun,
        HonggFuzzArg::new("-r", "--mutations_per_run", &mutations_per_run.to_string()),
    );
    let arg = honggfuzz.get_collect_fuzz_args();
    assert_eq!(arg, vec!["-r 33"]);
}

#[test]
fn test_crashdir() {
    let mut honggfuzz = clean();
    let crash_dir = "crashdir1";
    honggfuzz.fuzz_args.insert(FuzzArgument::Crashdir, HonggFuzzArg::new("", "--crashdir", crash_dir));
    let arg = honggfuzz.get_collect_fuzz_args();
    assert_eq!(arg, vec!["--crashdir crashdir1"]);
}

#[test]
fn test_extension() {
    let mut honggfuzz = clean();
    let extension = "sol";
    honggfuzz.fuzz_args.insert(FuzzArgument::Extension, HonggFuzzArg::new("-e", "--extension", extension));
    let arg = honggfuzz.get_collect_fuzz_args();
    assert_eq!(arg, vec!["-e sol"]);
}

#[test]
fn test_run_time() {
    let mut honggfuzz = clean();
    let run_time = 13;
    honggfuzz.fuzz_args.insert(FuzzArgument::RunTime, HonggFuzzArg::new("", "--run_time", &run_time.to_string()));
    let arg = honggfuzz.get_collect_fuzz_args();
    assert_eq!(arg, vec!["--run_time 13"]);
}

#[test]
fn test_max_file_size() {
    let mut honggfuzz = clean();
    let max_file_size = 500;
    honggfuzz.fuzz_args.insert(
        FuzzArgument::MaxFileSize,
        HonggFuzzArg::new("-F", "--max_file_size", &max_file_size.to_string()),
    );
    let arg = honggfuzz.get_collect_fuzz_args();
    assert_eq!(arg, vec!["-F 500"]);
}

#[test]
fn test_save_all() {
    let mut honggfuzz = clean();
    honggfuzz.fuzz_args.insert(FuzzArgument::SaveAll, HonggFuzzArg::new("-u", "--save_all", ""));
    let arg = honggfuzz.get_collect_fuzz_args();
    assert_eq!(arg, vec!["-u"]);
}

#[test]
fn honggfuzz_test_cargo_target_dir() {
    let mut honggfuzz = clean();
    honggfuzz.env_variables.insert(EnvVariable::CargoTargetDir, CARGO_TARGET_DIR_DEFAULT_HFUZZ.to_owned());
    let arg = honggfuzz.get_cargo_target_dir().unwrap();
    assert_eq!(arg, CARGO_TARGET_DIR_DEFAULT_HFUZZ);
}

#[test]
fn test_hfuzz_workspace() {
    let mut honggfuzz = clean();
    honggfuzz.env_variables.insert(EnvVariable::HfuzzWorkspace, HFUZZ_WORKSPACE_DEFAULT_HFUZZ.to_owned());
    let arg = honggfuzz.get_hfuzz_workspace().unwrap();
    assert_eq!(arg, HFUZZ_WORKSPACE_DEFAULT_HFUZZ);
}

#[test]
fn missing_env_variable_reads_as_none() {
    let honggfuzz = clean();
    assert!(honggfuzz.get_hfuzz_workspace().is_none());
    assert_eq!(honggfuzz.get_env_variable(&EnvVariable::CargoTargetDir), None);
}

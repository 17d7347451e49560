use trident_fuzz::config::constants::{
    CARGO_TARGET_DIR_DEFAULT_HFUZZ, CARGO_TARGET_DIR_ENV, HFUZZ_WORKSPACE_DEFAULT_HFUZZ, HFUZZ_WORKSPACE_ENV,
};
use trident_fuzz::config::fuzz::{resolve_path, Fuzz};
use trident_fuzz::config::honggfuzz::{EnvVariable, FuzzArgument, HonggFuzz, HonggFuzzArg};
use trident_fuzz::config::Config;
use trident_fuzz::keyed_map::KeyedMap;

fn default_honggfuzz() -> HonggFuzz {
    let mut env_variables = KeyedMap::new();
    env_variables.insert(EnvVariable::HfuzzWorkspace, HFUZZ_WORKSPACE_DEFAULT_HFUZZ.to_owned());
    env_variables.insert(EnvVariable::CargoTargetDir, CARGO_TARGET_DIR_DEFAULT_HFUZZ.to_owned());
    let mut fuzz_args = KeyedMap::new();
    fuzz_args.insert(FuzzArgument::Timeout, HonggFuzzArg::new("-t", "--timeout", &10.to_string()));
    fuzz_args.insert(FuzzArgument::Iterations, HonggFuzzArg::new("-N", "--iterations", &0.to_string()));
    fuzz_args.insert(FuzzArgument::MutationsPerRun, HonggFuzzArg::new("-r", "--mutations_per_run", &6.to_string()));
    fuzz_args.insert(FuzzArgument::Extension, HonggFuzzArg::new("-e", "--extension", "fuzz"));
    fuzz_args.insert(FuzzArgument::RunTime, HonggFuzzArg::new("", "--run_time", &0.to_string()));
    fuzz_args.insert(FuzzArgument::MaxFileSize, HonggFuzzArg::new("-F", "--max_file_size", &1_048_576.to_string()));
    HonggFuzz { fuzz_args, env_variables }
}

fn default_config() -> Config {
    Config { honggfuzz: default_honggfuzz(), fuzz: Fuzz::default() }
}

#[test]
fn test_merge_and_precedence1() {
    let config = default_config();
    let env_var_string = config.get_honggfuzz_args(String::default());
    assert_eq!(env_var_string, "-t 10 -N 0 -r 6 -e fuzz --run_time 0 -F 1048576 ");
}

#[test]
fn test_merge_and_precedence2() {
    let config = default_config();
    let env_var_string = config.get_honggfuzz_args("-t 0 -N10 --exit_upon_crash".to_string());
    assert_eq!(
        env_var_string,
        "-t 10 -N 0 -r 6 -e fuzz --run_time 0 -F 1048576 -t 0 -N10 --exit_upon_crash"
    );
}

#[test]
fn test_merge_and_precedence3() {
    let config = default_config();
    let env_var_string = config.get_honggfuzz_args("-t 100 -N 5000 -Q -v --exit_upon_crash".to_string());
    assert_eq!(
        env_var_string,
        "-t 10 -N 0 -r 6 -e fuzz --run_time 0 -F 1048576 -t 100 -N 5000 -Q -v --exit_upon_crash"
    );
}

#[test]
fn test_merge_and_precedence4() {
    let config = default_config();
    let env_var_string = config.get_honggfuzz_args("-t 10 -N 500 -Q -v --exit_upon_crash -n 15 --mutations_per_run 8 --verifier -W random_dir --crashdir random_dir5 --run_time 666".to_string());
    assert_eq!(
        env_var_string,
        "-t 10 -N 0 -r 6 -e fuzz --run_time 0 -F 1048576 -t 10 -N 500 -Q -v --exit_upon_crash -n 15 --mutations_per_run 8 --verifier -W random_dir --crashdir random_dir5 --run_time 666"
    );
}

#[test]
fn test_merge_and_precedence5() {
    let config = default_config();
    let env_var_string = config.get_honggfuzz_args("-t 10 -N 500 -Q -v --exit_upon_crash -n 15 --verifier -W random_dir --crashdir random_dir5 --run_time 666".to_string());
    assert_eq!(
        env_var_string,
        "-t 10 -N 0 -r 6 -e fuzz --run_time 0 -F 1048576 -t 10 -N 500 -Q -v --exit_upon_crash -n 15 --verifier -W random_dir --crashdir random_dir5 --run_time 666"
    );
}

#[test]
fn test_obtain_env_variables() {
    let config = default_config();
    let cargo_target_dir = config.get_env_arg(CARGO_TARGET_DIR_ENV);
    assert_eq!(cargo_target_dir, CARGO_TARGET_DIR_DEFAULT_HFUZZ);
    let hfuzz_workspace = config.get_env_arg(HFUZZ_WORKSPACE_ENV);
    assert_eq!(hfuzz_workspace, HFUZZ_WORKSPACE_DEFAULT_HFUZZ);
}

#[test]
fn test_obtain_env_variables2() {
    let mut config = default_config();
    config.honggfuzz.env_variables.insert(EnvVariable::CargoTargetDir, "new_value_x".to_owned());
    config.honggfuzz.env_variables.insert(EnvVariable::HfuzzWorkspace, "new_value_y".to_owned());
    let cargo_target_dir = config.get_env_arg(CARGO_TARGET_DIR_ENV);
    assert_eq!(cargo_target_dir, "new_value_x");
    let hfuzz_workspace = config.get_env_arg(HFUZZ_WORKSPACE_ENV);
    assert_eq!(hfuzz_workspace, "new_value_y");
}

#[test]
fn option_without_any_form_gives_an_empty_word() {
    let mut honggfuzz = HonggFuzz { fuzz_args: KeyedMap::new(), env_variables: KeyedMap::new() };
    honggfuzz.fuzz_args.insert(FuzzArgument::Verbose, HonggFuzzArg::new("", "", "x"));
    let config = Config { honggfuzz, fuzz: Fuzz::default() };
    assert_eq!(config.get_honggfuzz_args("-v".to_string()), " -v");
}

#[test]
fn resolve_path_keeps_absolute_and_joins_relative() {
    assert_eq!(resolve_path("/abs/file.json", "/root"), "/abs/file.json");
    assert_eq!(resolve_path("rel/file.json", "/root"), "/root/rel/file.json");
    assert_eq!(resolve_path("rel/file.json", "/root/"), "/root/rel/file.json");
    assert_eq!(resolve_path("rel", ""), "rel");
}

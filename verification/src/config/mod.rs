//! Fuzzer configuration: the arguments handed to AFL and honggfuzz, and
//! the accounts and programs a fuzz test starts with.
pub mod afl;
pub mod arg;
pub mod constants;
pub mod fuzz;
pub mod honggfuzz;
pub mod text;

use crate::config::constants::{CARGO_TARGET_DIR_ENV, HFUZZ_WORKSPACE_ENV};
use crate::config::fuzz::Fuzz;
use crate::config::honggfuzz::{EnvVariable, FuzzArgument, HonggFuzz};
use crate::config::arg::ArgView;
use crate::config::text::{joined, spaced, text_or_empty};
use crate::keyed_map::entries_view;
use vstd::prelude::*;

verus! {

/// The fuzzer's configuration.
pub struct Config {
    pub honggfuzz: HonggFuzz,
    pub fuzz: Fuzz,
}

/// The word honggfuzz's argument variable gets for an option: its short
/// form, else its long form, then a space and the value (empty when there
/// is none); empty when the option has neither form.
pub open spec fn run_arg_word(a: ArgView) -> Seq<char> {
    match a.short_opt {
        Some(o) => o + seq![' '] + text_or_empty(a.val),
        None => match a.long_opt {
            Some(o) => o + seq![' '] + text_or_empty(a.val),
            None => Seq::empty(),
        },
    }
}

/// The environment variable a name stands for.
pub open spec fn env_variable_named(name: Seq<char>) -> Option<EnvVariable> {
    if name == CARGO_TARGET_DIR_ENV@ {
        Some(EnvVariable::CargoTargetDir)
    } else if name == HFUZZ_WORKSPACE_ENV@ {
        Some(EnvVariable::HfuzzWorkspace)
    } else {
        None
    }
}

impl Config {
    /// honggfuzz's argument text: the configured options in the order they
    /// were set, then the command line's own arguments, separated by
    /// spaces. honggfuzz lets later arguments win, so the command line
    /// overrides the configuration.
    pub fn get_honggfuzz_args(&self, cli_input: String) -> (r: String)
        ensures
            r@ == joined(
                self.honggfuzz.fuzz_args.ordered().map_values(|e: (FuzzArgument, ArgView)| run_arg_word(e.1)).push(
                    cli_input@,
                ),
                seq![' '],
            ),
    {
        let entries = self.honggfuzz.fuzz_args.entries();
        let ghost words = self.honggfuzz.fuzz_args.ordered().map_values(
            |e: (FuzzArgument, ArgView)| run_arg_word(e.1),
        );
        let mut args: Vec<String> = Vec::new();
        let mut i: usize = 0;
        while i < entries.len()
            invariant
                0 <= i <= entries@.len(),
                entries_view(entries@) == self.honggfuzz.fuzz_args.ordered(),
                words == self.honggfuzz.fuzz_args.ordered().map_values(
                    |e: (FuzzArgument, ArgView)| run_arg_word(e.1),
                ),
                args.deep_view() == words.take(i as int),
            decreases entries@.len() - i,
        {
            let a = &entries[i].1;
            proof {
                assert(entries_view(entries@)[i as int] == (entries@[i as int].0@, entries@[i as int].1@));
            }
            let val = match &a.val {
                Some(v) => v.clone(),
                None => String::new(),
            };
            let word = match &a.short_opt {
                Some(o) => spaced(o.as_str(), val.as_str()),
                None => match &a.long_opt {
                    Some(o) => spaced(o.as_str(), val.as_str()),
                    None => String::new(),
                },
            };
            let ghost before = args.deep_view();
            args.push(word);
            proof {
                assert(word@ == words[i as int]);
                assert(args.deep_view() =~= before.push(word@));
                assert(words.take(i + 1) =~= words.take(i as int).push(words[i as int]));
            }
            i = i + 1;
        }
        let ghost before = args.deep_view();
        args.push(cli_input);
        proof {
            assert(words.take(entries@.len() as int) =~= words);
            assert(args.deep_view() =~= before.push(cli_input@));
            reveal_strlit(" ");
            assert(" "@ =~= seq![' ']);
        }
        crate::config::text::join(&args, " ")
    }

    /// The value of the environment variable with the given name, which
    /// must be one that is set.
    pub fn get_env_arg(&self, env_variable: &str) -> (r: String)
        requires
            env_variable_named(env_variable@) matches Some(k) && self.honggfuzz.env_variables@.contains_key(k),
        ensures
            r@ == self.honggfuzz.env_variables@[env_variable_named(env_variable@)->Some_0],
    {
        let name = env_variable.to_owned();
        let key = if name == CARGO_TARGET_DIR_ENV.to_owned() {
            EnvVariable::CargoTargetDir
        } else {
            EnvVariable::HfuzzWorkspace
        };
        match self.honggfuzz.env_variables.get(&key) {
            Some(v) => v.clone(),
            None => String::new(),
        }
    }

    pub fn get_fuzzing_with_stats(&self) -> (r: bool)
        ensures
            r == self.fuzz.fuzzing_with_stats,
    {
        self.fuzz.get_fuzzing_with_stats()
    }

    pub fn get_allow_duplicate_txs(&self) -> (r: bool)
        ensures
            r == self.fuzz.allow_duplicate_txs,
    {
        self.fuzz.get_allow_duplicate_txs()
    }
}

} // verus!

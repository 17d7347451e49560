//! honggfuzz options: defaults, the arguments handed to honggfuzz, and the
//! environment it runs in.
use crate::config::arg::{arg_parts, arg_view, ArgView};
use crate::config::constants::{CARGO_TARGET_DIR_DEFAULT_HFUZZ, HFUZZ_WORKSPACE_DEFAULT_HFUZZ};
use crate::config::text::{decimal, opt_text, spaced, text_or_empty, u64_to_string};
use crate::keyed_map::{entries_view, KeyedMap, MapKey};
use vstd::prelude::*;

verus! {

/// The honggfuzz options the configuration can set.
#[derive(Clone, Copy, Debug, PartialEq, Eq, Structural, Hash)]
pub enum FuzzArgument {
    Timeout,
    Iterations,
    Threads,
    KeepOutput,
    Verbose,
    ExitUponCrash,
    MutationsPerRun,
    CargoTargetDir,
    HfuzzWorkspace,
    Crashdir,
    Extension,
    RunTime,
    MaxFileSize,
    SaveAll,
}

impl View for FuzzArgument {
    type V = FuzzArgument;

    open spec fn view(&self) -> FuzzArgument {
        *self
    }
}

impl MapKey for FuzzArgument {
    fn key_eq(&self, other: &Self) -> (r: bool) {
        *self == *other
    }

    fn key_clone(&self) -> (r: Self) {
        *self
    }
}

/// Environment variables set for honggfuzz.
#[derive(Clone, Copy, Debug, PartialEq, Eq, Structural, Hash)]
pub enum EnvVariable {
    CargoTargetDir,
    HfuzzWorkspace,
}

impl View for EnvVariable {
    type V = EnvVariable;

    open spec fn view(&self) -> EnvVariable {
        *self
    }
}

impl MapKey for EnvVariable {
    fn key_eq(&self, other: &Self) -> (r: bool) {
        *self == *other
    }

    fn key_clone(&self) -> (r: Self) {
        *self
    }
}

/// One honggfuzz option.
#[derive(Debug)]
pub struct HonggFuzzArg {
    pub short_opt: Option<String>,
    pub long_opt: Option<String>,
    pub val: Option<String>,
}

impl View for HonggFuzzArg {
    type V = ArgView;

    open spec fn view(&self) -> ArgView {
        ArgView { short_opt: opt_text(&self.short_opt), long_opt: opt_text(&self.long_opt), val: opt_text(&self.val) }
    }
}

impl HonggFuzzArg {
    /// An option from its short form, long form and value; an empty text
    /// stands for an absent part.
    pub fn new(short_opt: &str, long_opt: &str, val: &str) -> (r: Self)
        ensures
            r@ == arg_view(short_opt@, long_opt@, val@),
    {
        let (short_opt, long_opt, val) = arg_parts(short_opt, long_opt, val);
        Self { short_opt, long_opt, val }
    }
}

/// The word honggfuzz gets for an option: its short form, else its long
/// form, followed by a space and the value when there is one; empty when
/// the option has neither form.
pub open spec fn hfuzz_word(a: ArgView) -> Seq<char> {
    match a.short_opt {
        Some(o) => match a.val {
            Some(v) => o + seq![' '] + v,
            None => o,
        },
        None => match a.long_opt {
            Some(o) => match a.val {
                Some(v) => o + seq![' '] + v,
                None => o,
            },
            None => Seq::empty(),
        },
    }
}

/// The word of an option is its short form (else its long form), then a
/// space and the value when it has one; an option with neither form gives
/// no word.
pub proof fn law_hfuzz_word(short_opt: Seq<char>, long_opt: Seq<char>, val: Seq<char>)
    ensures
        ({
            let w = hfuzz_word(arg_view(short_opt, long_opt, val));
            let form = if short_opt.len() != 0 { short_opt } else { long_opt };
            &&& form.len() != 0 && val.len() != 0 ==> w == form + seq![' '] + val
            &&& form.len() != 0 && val.len() == 0 ==> w == form
            &&& form.len() == 0 ==> w.len() == 0
        }),
{
}

/// Whether a lookup result is the map's value for the key.
pub open spec fn found<KV, V: View>(m: Map<KV, V::V>, k: KV, r: Option<&V>) -> bool {
    match r {
        Some(v) => m.contains_key(k) && m[k] == v@,
        None => !m.contains_key(k),
    }
}

/// The map of a sequence of entries, later entries winning.
pub open spec fn map_of_pairs<KV, VV>(s: Seq<(KV, VV)>) -> Map<KV, VV>
    decreases s.len(),
{
    if s.len() == 0 {
        Map::empty()
    } else {
        map_of_pairs(s.drop_last()).insert(s.last().0, s.last().1)
    }
}

/// honggfuzz options and environment, in the order they were set.
pub struct HonggFuzz {
    pub fuzz_args: KeyedMap<FuzzArgument, HonggFuzzArg>,
    pub env_variables: KeyedMap<EnvVariable, String>,
}

impl HonggFuzz {
    pub fn get_timeout(&self) -> (r: Option<&HonggFuzzArg>)
        ensures
            found(self.fuzz_args@, FuzzArgument::Timeout, r),
    {
        self.fuzz_args.get(&FuzzArgument::Timeout)
    }

    pub fn get_iterations(&self) -> (r: Option<&HonggFuzzArg>)
        ensures
            found(self.fuzz_args@, FuzzArgument::Iterations, r),
    {
        self.fuzz_args.get(&FuzzArgument::Iterations)
    }

    pub fn get_threads(&self) -> (r: Option<&HonggFuzzArg>)
        ensures
            found(self.fuzz_args@, FuzzArgument::Threads, r),
    {
        self.fuzz_args.get(&FuzzArgument::Threads)
    }

    pub fn get_keep_output(&self) -> (r: Option<&HonggFuzzArg>)
        ensures
            found(self.fuzz_args@, FuzzArgument::KeepOutput, r),
    {
        self.fuzz_args.get(&FuzzArgument::KeepOutput)
    }

    pub fn get_verbose(&self) -> (r: Option<&HonggFuzzArg>)
        ensures
            found(self.fuzz_args@, FuzzArgument::Verbose, r),
    {
        self.fuzz_args.get(&FuzzArgument::Verbose)
    }

    pub fn get_exit_upon_crash(&self) -> (r: Option<&HonggFuzzArg>)
        ensures
            found(self.fuzz_args@, FuzzArgument::ExitUponCrash, r),
    {
        self.fuzz_args.get(&FuzzArgument::ExitUponCrash)
    }

    pub fn get_mutations_per_run(&self) -> (r: Option<&HonggFuzzArg>)
        ensures
            found(self.fuzz_args@, FuzzArgument::MutationsPerRun, r),
    {
        self.fuzz_args.get(&FuzzArgument::MutationsPerRun)
    }

    pub fn get_crashdir(&self) -> (r: Option<&HonggFuzzArg>)
        ensures
            found(self.fuzz_args@, FuzzArgument::Crashdir, r),
    {
        self.fuzz_args.get(&FuzzArgument::Crashdir)
    }

    pub fn get_extension(&self) -> (r: Option<&HonggFuzzArg>)
        ensures
            found(self.fuzz_args@, FuzzArgument::Extension, r),
    {
        self.fuzz_args.get(&FuzzArgument::Extension)
    }

    pub fn get_run_time(&self) -> (r: Option<&HonggFuzzArg>)
        ensures
            found(self.fuzz_args@, FuzzArgument::RunTime, r),
    {
        self.fuzz_args.get(&FuzzArgument::RunTime)
    }

    pub fn get_max_file_size(&self) -> (r: Option<&HonggFuzzArg>)
        ensures
            found(self.fuzz_args@, FuzzArgument::MaxFileSize, r),
    {
        self.fuzz_args.get(&FuzzArgument::MaxFileSize)
    }

    pub fn get_save_all(&self) -> (r: Option<&HonggFuzzArg>)
        ensures
            found(self.fuzz_args@, FuzzArgument::SaveAll, r),
    {
        self.fuzz_args.get(&FuzzArgument::SaveAll)
    }

    pub fn get_cargo_target_dir(&self) -> (r: Option<&String>)
        ensures
            found(self.env_variables@, EnvVariable::CargoTargetDir, r),
    {
        self.env_variables.get(&EnvVariable::CargoTargetDir)
    }

    pub fn get_hfuzz_workspace(&self) -> (r: Option<&String>)
        ensures
            found(self.env_variables@, EnvVariable::HfuzzWorkspace, r),
    {
        self.env_variables.get(&EnvVariable::HfuzzWorkspace)
    }

    /// The words honggfuzz gets for the options, one per option, in the
    /// order the options were set.
    pub fn get_collect_fuzz_args(&self) -> (r: Vec<String>)
        ensures
            r.deep_view() == self.fuzz_args.ordered().map_values(|e: (FuzzArgument, ArgView)| hfuzz_word(e.1)),
    {
        let entries = self.fuzz_args.entries();
        let ghost want = self.fuzz_args.ordered().map_values(|e: (FuzzArgument, ArgView)| hfuzz_word(e.1));
        let mut r: Vec<String> = Vec::new();
        let mut i: usize = 0;
        while i < entries.len()
            invariant
                0 <= i <= entries@.len(),
                entries_view(entries@) == self.fuzz_args.ordered(),
                want == self.fuzz_args.ordered().map_values(|e: (FuzzArgument, ArgView)| hfuzz_word(e.1)),
                r.deep_view() == want.take(i as int),
            decreases entries@.len() - i,
        {
            let arg = &entries[i].1;
            proof {
                assert(entries_view(entries@)[i as int] == (entries@[i as int].0@, entries@[i as int].1@));
            }
            let word = match &arg.short_opt {
                Some(opt) => match &arg.val {
                    Some(value) => spaced(opt.as_str(), value.as_str()),
                    None => opt.clone(),
                },
                None => match &arg.long_opt {
                    Some(opt) => match &arg.val {
                        Some(value) => spaced(opt.as_str(), value.as_str()),
                        None => opt.clone(),
                    },
                    None => String::new(),
                },
            };
            let ghost before = r.deep_view();
            r.push(word);
            proof {
                assert(word@ == want[i as int]);
                assert(r.deep_view() =~= before.push(word@));
                assert(want.take(i + 1) =~= want.take(i as int).push(want[i as int]));
            }
            i = i + 1;
        }
        proof {
            assert(want.take(entries@.len() as int) =~= want);
        }
        r
    }

    /// A copy of the value of the environment variable, if it is set.
    pub fn get_env_variable(&self, key: &EnvVariable) -> (r: Option<String>)
        ensures
            match r {
                Some(v) => self.env_variables@.contains_key(*key) && self.env_variables@[*key] == v@,
                None => !self.env_variables@.contains_key(*key),
            },
    {
        match self.env_variables.get(key) {
            Some(v) => Some(v.clone()),
            None => None,
        }
    }
}

/// honggfuzz options as the configuration file gives them; each may be
/// left out.
#[derive(Default, Debug)]
pub struct _HonggFuzz {
    /// Timeout in seconds (default: 10).
    pub timeout: Option<u16>,
    /// Number of fuzzing iterations (default: 0, no limit).
    pub iterations: Option<u64>,
    /// Number of concurrent fuzzing threads (default: honggfuzz's own).
    pub threads: Option<u16>,
    /// Keep the children's standard streams open.
    pub keep_output: Option<bool>,
    /// Plain log output instead of the ANSI console.
    pub verbose: Option<bool>,
    /// Exit upon the first crash.
    pub exit_upon_crash: Option<bool>,
    /// Most mutations per run (default: 6).
    pub mutations_per_run: Option<u16>,
    /// Build directory, set as `CARGO_TARGET_DIR`.
    pub cargo_target_dir: Option<String>,
    /// honggfuzz's working directory, set as `HFUZZ_WORKSPACE`.
    pub hfuzz_workspace: Option<String>,
    /// Directory where crashes are saved.
    pub crashdir: Option<String>,
    /// Extension of input files.
    pub extension: Option<String>,
    /// Length of the session in seconds (default: 0, no limit).
    pub run_time: Option<u32>,
    /// Largest input in bytes (default: 1048576).
    pub max_file_size: Option<u32>,
    /// Save every test case, not only the unique ones.
    pub save_all: Option<bool>,
}

/// A text unless it is absent or empty, else the default.
pub open spec fn or_default_text(o: Option<Seq<char>>, d: Seq<char>) -> Seq<char> {
    match o {
        Some(v) => if v.len() == 0 { d } else { v },
        None => d,
    }
}

/// The option's value, or `d` when it is left out.
pub open spec fn or_value<T>(o: Option<T>, d: T) -> T {
    match o {
        Some(v) => v,
        None => d,
    }
}

/// The options honggfuzz gets from the configuration, in the order they
/// are set: timeout, iterations, threads (if above 0), keep_output,
/// verbose, exit_upon_crash (if set), mutations_per_run, crashdir and
/// extension (if not empty), run_time, max_file_size, save_all (if set).
pub open spec fn hfuzz_args_from(f: &_HonggFuzz) -> Seq<(FuzzArgument, ArgView)> {
    let s0 = seq![(FuzzArgument::Timeout, arg_view("-t"@, "--timeout"@, decimal(or_value(f.timeout, 10u16) as nat)))];
    let s1 = s0.push((FuzzArgument::Iterations, arg_view("-N"@, "--iterations"@, decimal(or_value(f.iterations, 0u64) as nat))));
    let threads = or_value(f.threads, 0u16);
    let s2 = if threads > 0 {
        s1.push((FuzzArgument::Threads, arg_view("-n"@, "--threads"@, decimal(threads as nat))))
    } else {
        s1
    };
    let s3 = if or_value(f.keep_output, false) {
        s2.push((FuzzArgument::KeepOutput, arg_view("-Q"@, "--keep_output"@, ""@)))
    } else {
        s2
    };
    let s4 = if or_value(f.verbose, false) {
        s3.push((FuzzArgument::Verbose, arg_view("-v"@, "--verbose"@, ""@)))
    } else {
        s3
    };
    let s5 = if or_value(f.exit_upon_crash, false) {
        s4.push((FuzzArgument::ExitUponCrash, arg_view(""@, "--exit_upon_crash"@, ""@)))
    } else {
        s4
    };
    let s6 = s5.push((
        FuzzArgument::MutationsPerRun,
        arg_view("-r"@, "--mutations_per_run"@, decimal(or_value(f.mutations_per_run, 6u16) as nat)),
    ));
    let crash_dir = text_or_empty(opt_text(&f.crashdir));
    let s7 = if crash_dir.len() != 0 {
        s6.push((FuzzArgument::Crashdir, arg_view(""@, "--crashdir"@, crash_dir)))
    } else {
        s6
    };
    let extension = text_or_empty(opt_text(&f.extension));
    let s8 = if extension.len() != 0 {
        s7.push((FuzzArgument::Extension, arg_view("-e"@, "--extension"@, extension)))
    } else {
        s7
    };
    let s9 = s8.push((FuzzArgument::RunTime, arg_view(""@, "--run_time"@, decimal(or_value(f.run_time, 0u32) as nat))));
    let s10 = s9.push((
        FuzzArgument::MaxFileSize,
        arg_view("-F"@, "--max_file_size"@, decimal(or_value(f.max_file_size, 1048576u32) as nat)),
    ));
    if or_value(f.save_all, false) {
        s10.push((FuzzArgument::SaveAll, arg_view("-u"@, "--save_all"@, ""@)))
    } else {
        s10
    }
}

/// Some entry of the list sets key `k`, and every entry that sets it
/// sets it to `v`.
pub open spec fn sets_to<K, VV>(s: Seq<(K, VV)>, k: K, v: VV) -> bool {
    &&& exists|i: int| 0 <= i < s.len() && #[trigger] s[i].0 == k
    &&& forall|i: int| 0 <= i < s.len() && #[trigger] s[i].0 == k ==> s[i].1 == v
}

/// No entry of the list sets key `k`.
pub open spec fn never_sets<K, VV>(s: Seq<(K, VV)>, k: K) -> bool {
    forall|i: int| 0 <= i < s.len() ==> #[trigger] s[i].0 != k
}

/// A list that sets a key only to one value maps the key to that value;
/// one that never sets it leaves it out.
pub proof fn lemma_map_of_pairs_key<K, VV>(s: Seq<(K, VV)>, k: K, v: VV)
    ensures
        sets_to(s, k, v) ==> map_of_pairs(s).contains_key(k) && map_of_pairs(s)[k] == v,
        never_sets(s, k) ==> !map_of_pairs(s).contains_key(k),
    decreases s.len(),
{
    if s.len() > 0 {
        let t = s.drop_last();
        lemma_map_of_pairs_key(t, k, v);
        if sets_to(s, k, v) && s.last().0 != k {
            let i = choose|i: int| 0 <= i < s.len() && #[trigger] s[i].0 == k;
            assert(t[i].0 == k);
            assert forall|j: int| 0 <= j < t.len() && #[trigger] t[j].0 == k implies t[j].1 == v by {
                assert(s[j] == t[j]);
            }
        }
        if never_sets(s, k) {
            assert forall|j: int| 0 <= j < t.len() implies #[trigger] t[j].0 != k by {
                assert(s[j] == t[j]);
            }
        }
    }
}

/// What the configuration sets for each honggfuzz option, stated option by
/// option: the timeout (10 when left out), the iteration limit (0, none,
/// when left out), the threads when above 0, the flags that are on, the
/// mutations per run (6 when left out), the crash directory and extension
/// when not empty, the run time (0 when left out), the largest input
/// (1048576 when left out).
pub proof fn law_hfuzz_options(f: &_HonggFuzz)
    ensures
        ({
            let s = hfuzz_args_from(f);
            let threads = match f.threads { Some(n) => n, None => 0u16 };
            let crashdir = text_or_empty(opt_text(&f.crashdir));
            let extension = text_or_empty(opt_text(&f.extension));
            &&& sets_to(s, FuzzArgument::Timeout, arg_view("-t"@, "--timeout"@,
                decimal(match f.timeout { Some(n) => n as nat, None => 10 })))
            &&& sets_to(s, FuzzArgument::Iterations, arg_view("-N"@, "--iterations"@,
                decimal(match f.iterations { Some(n) => n as nat, None => 0 })))
            &&& (threads > 0 ==> sets_to(s, FuzzArgument::Threads, arg_view("-n"@, "--threads"@, decimal(threads as nat))))
            &&& (threads == 0 ==> never_sets(s, FuzzArgument::Threads))
            &&& (f.keep_output == Some(true) ==> sets_to(s, FuzzArgument::KeepOutput, arg_view("-Q"@, "--keep_output"@, ""@)))
            &&& (f.keep_output != Some(true) ==> never_sets(s, FuzzArgument::KeepOutput))
            &&& (f.verbose == Some(true) ==> sets_to(s, FuzzArgument::Verbose, arg_view("-v"@, "--verbose"@, ""@)))
            &&& (f.verbose != Some(true) ==> never_sets(s, FuzzArgument::Verbose))
            &&& (f.exit_upon_crash == Some(true) ==> sets_to(s, FuzzArgument::ExitUponCrash, arg_view(""@, "--exit_upon_crash"@, ""@)))
            &&& (f.exit_upon_crash != Some(true) ==> never_sets(s, FuzzArgument::ExitUponCrash))
            &&& sets_to(s, FuzzArgument::MutationsPerRun, arg_view("-r"@, "--mutations_per_run"@,
                decimal(match f.mutations_per_run { Some(n) => n as nat, None => 6 })))
            &&& (crashdir.len() != 0 ==> sets_to(s, FuzzArgument::Crashdir, arg_view(""@, "--crashdir"@, crashdir)))
            &&& (crashdir.len() == 0 ==> never_sets(s, FuzzArgument::Crashdir))
            &&& (extension.len() != 0 ==> sets_to(s, FuzzArgument::Extension, arg_view("-e"@, "--extension"@, extension)))
            &&& (extension.len() == 0 ==> never_sets(s, FuzzArgument::Extension))
            &&& sets_to(s, FuzzArgument::RunTime, arg_view(""@, "--run_time"@,
                decimal(match f.run_time { Some(n) => n as nat, None => 0 })))
            &&& sets_to(s, FuzzArgument::MaxFileSize, arg_view("-F"@, "--max_file_size"@,
                decimal(match f.max_file_size { Some(n) => n as nat, None => 1048576 })))
            &&& (f.save_all == Some(true) ==> sets_to(s, FuzzArgument::SaveAll, arg_view("-u"@, "--save_all"@, ""@)))
            &&& (f.save_all != Some(true) ==> never_sets(s, FuzzArgument::SaveAll))
            &&& never_sets(s, FuzzArgument::CargoTargetDir)
            &&& never_sets(s, FuzzArgument::HfuzzWorkspace)
        }),
{
    let s0 = seq![(FuzzArgument::Timeout, arg_view("-t"@, "--timeout"@, decimal(or_value(f.timeout, 10u16) as nat)))];
    assert(s0.len() == 1 && s0[0].0 == FuzzArgument::Timeout);
    assert(sets_to(s0, FuzzArgument::Timeout, s0[0].1));
    assert forall|k: FuzzArgument| k != FuzzArgument::Timeout implies #[trigger] never_sets(s0, k) by {}
    let s1 = s0.push((FuzzArgument::Iterations, arg_view("-N"@, "--iterations"@, decimal(or_value(f.iterations, 0u64) as nat))));
    lemma_push(s0, s1.last().0, s1.last().1);
    let threads = or_value(f.threads, 0u16);
    let s2 = if threads > 0 {
        s1.push((FuzzArgument::Threads, arg_view("-n"@, "--threads"@, decimal(threads as nat))))
    } else {
        s1
    };
    if threads > 0 { lemma_push(s1, s2.last().0, s2.last().1); }
    let s3 = if or_value(f.keep_output, false) {
        s2.push((FuzzArgument::KeepOutput, arg_view("-Q"@, "--keep_output"@, ""@)))
    } else {
        s2
    };
    if or_value(f.keep_output, false) { lemma_push(s2, s3.last().0, s3.last().1); }
    let s4 = if or_value(f.verbose, false) {
        s3.push((FuzzArgument::Verbose, arg_view("-v"@, "--verbose"@, ""@)))
    } else {
        s3
    };
    if or_value(f.verbose, false) { lemma_push(s3, s4.last().0, s4.last().1); }
    let s5 = if or_value(f.exit_upon_crash, false) {
        s4.push((FuzzArgument::ExitUponCrash, arg_view(""@, "--exit_upon_crash"@, ""@)))
    } else {
        s4
    };
    if or_value(f.exit_upon_crash, false) { lemma_push(s4, s5.last().0, s5.last().1); }
    let s6 = s5.push((
        FuzzArgument::MutationsPerRun,
        arg_view("-r"@, "--mutations_per_run"@, decimal(or_value(f.mutations_per_run, 6u16) as nat)),
    ));
    lemma_push(s5, s6.last().0, s6.last().1);
    let crash_dir = text_or_empty(opt_text(&f.crashdir));
    let s7 = if crash_dir.len() != 0 {
        s6.push((FuzzArgument::Crashdir, arg_view(""@, "--crashdir"@, crash_dir)))
    } else {
        s6
    };
    if crash_dir.len() != 0 { lemma_push(s6, s7.last().0, s7.last().1); }
    let extension = text_or_empty(opt_text(&f.extension));
    let s8 = if extension.len() != 0 {
        s7.push((FuzzArgument::Extension, arg_view("-e"@, "--extension"@, extension)))
    } else {
        s7
    };
    if extension.len() != 0 { lemma_push(s7, s8.last().0, s8.last().1); }
    let s9 = s8.push((FuzzArgument::RunTime, arg_view(""@, "--run_time"@, decimal(or_value(f.run_time, 0u32) as nat))));
    lemma_push(s8, s9.last().0, s9.last().1);
    let s10 = s9.push((
        FuzzArgument::MaxFileSize,
        arg_view("-F"@, "--max_file_size"@, decimal(or_value(f.max_file_size, 1048576u32) as nat)),
    ));
    lemma_push(s9, s10.last().0, s10.last().1);
    let s11 = if or_value(f.save_all, false) {
        s10.push((FuzzArgument::SaveAll, arg_view("-u"@, "--save_all"@, ""@)))
    } else {
        s10
    };
    if or_value(f.save_all, false) { lemma_push(s10, s11.last().0, s11.last().1); }
    assert(s11 == hfuzz_args_from(f));
}

/// Appending an entry for key `k2` keeps what the list sets for every
/// other key, and sets `k2` when the list did not.
pub proof fn lemma_push<K, VV>(s: Seq<(K, VV)>, k2: K, v2: VV)
    ensures
        forall|k: K, v: VV| k != k2 && sets_to(s, k, v) ==> #[trigger] sets_to(s.push((k2, v2)), k, v),
        forall|k: K| k != k2 && never_sets(s, k) ==> #[trigger] never_sets(s.push((k2, v2)), k),
        never_sets(s, k2) ==> sets_to(s.push((k2, v2)), k2, v2),
{
    let t = s.push((k2, v2));
    assert forall|k: K, v: VV| k != k2 && sets_to(s, k, v) implies #[trigger] sets_to(t, k, v) by {
        let i = choose|i: int| 0 <= i < s.len() && #[trigger] s[i].0 == k;
        assert(t[i] == s[i]);
        assert forall|j: int| 0 <= j < t.len() && #[trigger] t[j].0 == k implies t[j].1 == v by {
            if j < s.len() {
                assert(t[j] == s[j]);
            }
        }
    }
    assert forall|k: K| k != k2 && never_sets(s, k) implies #[trigger] never_sets(t, k) by {
        assert forall|j: int| 0 <= j < t.len() implies #[trigger] t[j].0 != k by {
            if j < s.len() {
                assert(t[j] == s[j]);
            }
        }
    }
    if never_sets(s, k2) {
        assert(t[s.len() as int].0 == k2);
        assert forall|j: int| 0 <= j < t.len() && #[trigger] t[j].0 == k2 implies t[j].1 == v2 by {
            if j < s.len() {
                assert(t[j] == s[j]);
            }
        }
    }
}

/// The environment honggfuzz gets from the configuration: the build
/// directory, then the working directory, each defaulted when absent or
/// empty.
pub open spec fn hfuzz_env_from(f: &_HonggFuzz) -> Seq<(EnvVariable, Seq<char>)> {
    seq![
        (EnvVariable::CargoTargetDir, or_default_text(opt_text(&f.cargo_target_dir), CARGO_TARGET_DIR_DEFAULT_HFUZZ@)),
        (EnvVariable::HfuzzWorkspace, or_default_text(opt_text(&f.hfuzz_workspace), HFUZZ_WORKSPACE_DEFAULT_HFUZZ@)),
    ]
}

/// The environment honggfuzz runs in: the build directory, then the
/// working directory, each as configured unless absent or empty, else the
/// default.
pub proof fn law_hfuzz_env(f: &_HonggFuzz)
    ensures
        ({
            let e = hfuzz_env_from(f);
            &&& e.len() == 2
            &&& e[0] == (EnvVariable::CargoTargetDir, match f.cargo_target_dir {
                Some(v) => if v@.len() != 0 { v@ } else { CARGO_TARGET_DIR_DEFAULT_HFUZZ@ },
                None => CARGO_TARGET_DIR_DEFAULT_HFUZZ@,
            })
            &&& e[1] == (EnvVariable::HfuzzWorkspace, match f.hfuzz_workspace {
                Some(v) => if v@.len() != 0 { v@ } else { HFUZZ_WORKSPACE_DEFAULT_HFUZZ@ },
                None => HFUZZ_WORKSPACE_DEFAULT_HFUZZ@,
            })
        }),
{
}

/// The text unless it is absent or empty, else a copy of the default.
pub fn text_or(o: Option<String>, d: &str) -> (r: String)
    ensures
        r@ == or_default_text(opt_text(&o), d@),
{
    match o {
        Some(v) => if v.as_str().is_empty() { d.to_owned() } else { v },
        None => d.to_owned(),
    }
}

/// The environment honggfuzz runs in: the build directory, then the
/// working directory, each defaulted when absent or empty.
fn env_from(cargo_target_dir: Option<String>, hfuzz_workspace: Option<String>) -> (r: KeyedMap<EnvVariable, String>)
    ensures
        r.ordered() == seq![
            (EnvVariable::CargoTargetDir, or_default_text(opt_text(&cargo_target_dir), CARGO_TARGET_DIR_DEFAULT_HFUZZ@)),
            (EnvVariable::HfuzzWorkspace, or_default_text(opt_text(&hfuzz_workspace), HFUZZ_WORKSPACE_DEFAULT_HFUZZ@)),
        ],
        r@ == map_of_pairs(r.ordered()),
{
    let mut env = KeyedMap::new();
    let c = text_or(cargo_target_dir, CARGO_TARGET_DIR_DEFAULT_HFUZZ);
    env.insert_new(EnvVariable::CargoTargetDir, c);
    let h = text_or(hfuzz_workspace, HFUZZ_WORKSPACE_DEFAULT_HFUZZ);
    env.insert_new(EnvVariable::HfuzzWorkspace, h);
    proof {
        let e = env.ordered();
        assert(e =~= seq![(EnvVariable::CargoTargetDir, c@), (EnvVariable::HfuzzWorkspace, h@)]);
        assert(e.drop_last().drop_last() =~= Seq::<(EnvVariable, Seq<char>)>::empty());
        assert(map_of_pairs(e.drop_last().drop_last()) =~= Map::<EnvVariable, Seq<char>>::empty());
        assert(map_of_pairs(e.drop_last()) == map_of_pairs(e.drop_last().drop_last()).insert(e[0].0, e[0].1));
        assert(map_of_pairs(e) == map_of_pairs(e.drop_last()).insert(e[1].0, e[1].1));
        assert(env@ =~= map_of_pairs(e));
    }
    env
}

impl HonggFuzz {
    /// Sets an option that is not set yet, noting it in the ghost list of
    /// options set so far.
    fn set_new(&mut self, key: FuzzArgument, arg: HonggFuzzArg, Ghost(set): Ghost<Seq<(FuzzArgument, ArgView)>>)
        requires
            old(self).fuzz_args.ordered() == set,
            old(self).fuzz_args@ == map_of_pairs(set),
            !old(self).fuzz_args@.contains_key(key),
        ensures
            final(self).fuzz_args.ordered() == set.push((key, arg@)),
            final(self).fuzz_args@ == map_of_pairs(set.push((key, arg@))),
            final(self).fuzz_args@ == old(self).fuzz_args@.insert(key, arg@),
            final(self).env_variables == old(self).env_variables,
    {
        let ghost a = arg@;
        self.fuzz_args.insert_new(key, arg);
        proof {
            assert(set.push((key, a)).drop_last() =~= set);
        }
    }

    /// The options and environment set from the configuration, with
    /// honggfuzz's defaults where it leaves them out.
    #[verifier::rlimit(40)]
    pub fn from(f: _HonggFuzz) -> (r: Self)
        ensures
            r.fuzz_args.ordered() == hfuzz_args_from(&f),
            r.fuzz_args@ == map_of_pairs(hfuzz_args_from(&f)),
            r.env_variables.ordered() == hfuzz_env_from(&f),
            r.env_variables@ == map_of_pairs(hfuzz_env_from(&f)),
    {
        let ghost g = f;
        let mut this = Self { fuzz_args: KeyedMap::new(), env_variables: KeyedMap::new() };
        let ghost set: Seq<(FuzzArgument, ArgView)> = Seq::empty();
        proof {
            assert(map_of_pairs(set) =~= Map::<FuzzArgument, ArgView>::empty());
        }

        let timeout: u16 = match f.timeout { Some(t) => t, None => 10 };
        let t = u64_to_string(timeout as u64);
        let arg = HonggFuzzArg::new("-t", "--timeout", t.as_str());
        this.set_new(FuzzArgument::Timeout, arg, Ghost(set));
        proof { set = set.push((FuzzArgument::Timeout, arg_view("-t"@, "--timeout"@, decimal(timeout as nat)))); }

        let iterations: u64 = match f.iterations { Some(n) => n, None => 0 };
        let t = u64_to_string(iterations);
        let arg = HonggFuzzArg::new("-N", "--iterations", t.as_str());
        this.set_new(FuzzArgument::Iterations, arg, Ghost(set));
        proof { set = set.push((FuzzArgument::Iterations, arg_view("-N"@, "--iterations"@, decimal(iterations as nat)))); }

        let threads: u16 = match f.threads { Some(n) => n, None => 0 };
        if threads > 0 {
            let t = u64_to_string(threads as u64);
            let arg = HonggFuzzArg::new("-n", "--threads", t.as_str());
            this.set_new(FuzzArgument::Threads, arg, Ghost(set));
            proof { set = set.push((FuzzArgument::Threads, arg_view("-n"@, "--threads"@, decimal(threads as nat)))); }
        }

        let keep_output: bool = match f.keep_output { Some(b) => b, None => false };
        if keep_output {
            let arg = HonggFuzzArg::new("-Q", "--keep_output", "");
            this.set_new(FuzzArgument::KeepOutput, arg, Ghost(set));
            proof { set = set.push((FuzzArgument::KeepOutput, arg_view("-Q"@, "--keep_output"@, ""@))); }
        }

        let verbose: bool = match f.verbose { Some(b) => b, None => false };
        if verbose {
            let arg = HonggFuzzArg::new("-v", "--verbose", "");
            this.set_new(FuzzArgument::Verbose, arg, Ghost(set));
            proof { set = set.push((FuzzArgument::Verbose, arg_view("-v"@, "--verbose"@, ""@))); }
        }

        let exit_upon_crash: bool = match f.exit_upon_crash { Some(b) => b, None => false };
        if exit_upon_crash {
            let arg = HonggFuzzArg::new("", "--exit_upon_crash", "");
            this.set_new(FuzzArgument::ExitUponCrash, arg, Ghost(set));
            proof { set = set.push((FuzzArgument::ExitUponCrash, arg_view(""@, "--exit_upon_crash"@, ""@))); }
        }

        let mutations_per_run: u16 = match f.mutations_per_run { Some(n) => n, None => 6 };
        let t = u64_to_string(mutations_per_run as u64);
        let arg = HonggFuzzArg::new("-r", "--mutations_per_run", t.as_str());
        this.set_new(FuzzArgument::MutationsPerRun, arg, Ghost(set));
        proof { set = set.push((FuzzArgument::MutationsPerRun, arg_view("-r"@, "--mutations_per_run"@, decimal(mutations_per_run as nat)))); }

        this.env_variables = env_from(f.cargo_target_dir, f.hfuzz_workspace);

        let crash_dir = match f.crashdir { Some(d) => d, None => String::new() };
        if !crash_dir.as_str().is_empty() {
            let arg = HonggFuzzArg::new("", "--crashdir", crash_dir.as_str());
            this.set_new(FuzzArgument::Crashdir, arg, Ghost(set));
            proof { set = set.push((FuzzArgument::Crashdir, arg_view(""@, "--crashdir"@, crash_dir@))); }
        }

        let extension = match f.extension { Some(e) => e, None => String::new() };
        if !extension.as_str().is_empty() {
            let arg = HonggFuzzArg::new("-e", "--extension", extension.as_str());
            this.set_new(FuzzArgument::Extension, arg, Ghost(set));
            proof { set = set.push((FuzzArgument::Extension, arg_view("-e"@, "--extension"@, extension@))); }
        }

        let run_time: u32 = match f.run_time { Some(n) => n, None => 0 };
        let t = u64_to_string(run_time as u64);
        let arg = HonggFuzzArg::new("", "--run_time", t.as_str());
        this.set_new(FuzzArgument::RunTime, arg, Ghost(set));
        proof { set = set.push((FuzzArgument::RunTime, arg_view(""@, "--run_time"@, decimal(run_time as nat)))); }

        let max_file_size: u32 = match f.max_file_size { Some(n) => n, None => 1_048_576 };
        let t = u64_to_string(max_file_size as u64);
        let arg = HonggFuzzArg::new("-F", "--max_file_size", t.as_str());
        this.set_new(FuzzArgument::MaxFileSize, arg, Ghost(set));
        proof { set = set.push((FuzzArgument::MaxFileSize, arg_view("-F"@, "--max_file_size"@, decimal(max_file_size as nat)))); }

        let save_all: bool = match f.save_all { Some(b) => b, None => false };
        if save_all {
            let arg = HonggFuzzArg::new("-u", "--save_all", "");
            this.set_new(FuzzArgument::SaveAll, arg, Ghost(set));
            proof { set = set.push((FuzzArgument::SaveAll, arg_view("-u"@, "--save_all"@, ""@))); }
        }

        proof {
            assert(set =~= hfuzz_args_from(&g));
        }
        this
    }
}

} // verus!

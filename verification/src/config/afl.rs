//! AFL options: defaults, the arguments handed to the build and to the
//! fuzzer, and the seed files AFL starts from.
use crate::config::arg::{arg_parts, arg_view, ArgView};
use crate::config::constants::{
    AFL_WORKSPACE_DEFAULT_IN, AFL_WORKSPACE_DEFAULT_OUT, CARGO_TARGET_DIR_DEFAULT_AFL, DEFAULT_SEED,
    DEFAULT_SEED_FILENAME,
};
use crate::config::honggfuzz::{found, lemma_push, map_of_pairs, never_sets, or_default_text, or_value, sets_to, text_or};
use crate::config::text::{decimal, nonempty, opt_text, text_or_empty, u64_to_string};
use crate::keyed_map::{entries_view, KeyedMap, MapKey};
use rand::RngCore;
use vstd::prelude::*;
use vstd::string::StringSliceAdditionalSpecFns;
use vstd::utf8::encode_utf8;

verus! {

/// Options of the build of an AFL target.
#[derive(Clone, Copy, Debug, PartialEq, Eq, Structural, Hash)]
pub enum BuildArgument {
    CargoTargetDir,
}

impl View for BuildArgument {
    type V = BuildArgument;

    open spec fn view(&self) -> BuildArgument {
        *self
    }
}

impl MapKey for BuildArgument {
    fn key_eq(&self, other: &Self) -> (r: bool) {
        *self == *other
    }

    fn key_clone(&self) -> (r: Self) {
        *self
    }
}

/// Options of an AFL run.
#[derive(Clone, Copy, Debug, PartialEq, Eq, Structural, Hash)]
pub enum FuzzArgument {
    AflWorkspaceIn,
    AflWorkspaceOut,
    Execs,
    Seconds,
}

impl View for FuzzArgument {
    type V = FuzzArgument;

    open spec fn view(&self) -> FuzzArgument {
        *self
    }
}

impl MapKey for FuzzArgument {
    fn key_eq(&self, other: &Self) -> (r: bool) {
        *self == *other
    }

    fn key_clone(&self) -> (r: Self) {
        *self
    }
}

/// One AFL option.
#[derive(Debug)]
pub struct AflArg {
    pub short_opt: Option<String>,
    pub long_opt: Option<String>,
    pub val: Option<String>,
}

impl View for AflArg {
    type V = ArgView;

    open spec fn view(&self) -> ArgView {
        ArgView { short_opt: opt_text(&self.short_opt), long_opt: opt_text(&self.long_opt), val: opt_text(&self.val) }
    }
}

impl AflArg {
    /// An option from its short form, long form and value; an empty text
    /// stands for an absent part.
    pub fn new(short_opt: &str, long_opt: &str, val: &str) -> (r: Self)
        ensures
            r@ == arg_view(short_opt@, long_opt@, val@),
    {
        let (short_opt, long_opt, val) = arg_parts(short_opt, long_opt, val);
        Self { short_opt, long_opt, val }
    }
}

/// The words AFL gets for an option: its short form, else its long form,
/// followed by the value (empty when there is none); nothing when the
/// option has neither form.
pub open spec fn afl_words(a: ArgView) -> Seq<Seq<char>> {
    match a.short_opt {
        Some(o) => seq![o, text_or_empty(a.val)],
        None => match a.long_opt {
            Some(o) => seq![o, text_or_empty(a.val)],
            None => Seq::empty(),
        },
    }
}

/// The words of all options in table order.
pub open spec fn afl_words_of<K>(args: Seq<(K, ArgView)>) -> Seq<Seq<char>>
    decreases args.len(),
{
    if args.len() == 0 {
        Seq::empty()
    } else {
        afl_words_of(args.drop_last()) + afl_words(args.last().1)
    }
}

/// The words AFL gets for the options of a table, in table order.
fn collect_words<K: MapKey>(args: &KeyedMap<K, AflArg>) -> (r: Vec<String>)
    ensures
        r.deep_view() == afl_words_of(args.ordered()),
{
    let entries = args.entries();
    let ghost all = args.ordered();
    let mut r: Vec<String> = Vec::new();
    let mut i: usize = 0;
    while i < entries.len()
        invariant
            0 <= i <= entries@.len(),
            entries_view(entries@) == all,
            r.deep_view() == afl_words_of(all.take(i as int)),
        decreases entries@.len() - i,
    {
        let arg = &entries[i].1;
        proof {
            assert(all[i as int] == (entries@[i as int].0@, entries@[i as int].1@));
            assert(all.take(i + 1).drop_last() =~= all.take(i as int));
        }
        let val = match &arg.val {
            Some(v) => v.clone(),
            None => String::new(),
        };
        let ghost before = r.deep_view();
        match &arg.short_opt {
            Some(opt) => {
                r.push(opt.clone());
                r.push(val);
                proof {
                    assert(r.deep_view() =~= before + afl_words(all[i as int].1));
                }
            },
            None => match &arg.long_opt {
                Some(opt) => {
                    r.push(opt.clone());
                    r.push(val);
                    proof {
                        assert(r.deep_view() =~= before + afl_words(all[i as int].1));
                    }
                },
                None => {
                    proof {
                        assert(r.deep_view() =~= before + afl_words(all[i as int].1));
                    }
                },
            },
        }
        i = i + 1;
    }
    proof {
        assert(all.take(entries@.len() as int) =~= all);
    }
    r
}

/// A seed file as the configuration gives it.
#[derive(Debug)]
pub struct _AflSeed {
    pub file_name: String,
    pub seed: Option<String>,
    pub override_file: Option<bool>,
    pub bytes_count: Option<usize>,
}

impl Default for _AflSeed {
    /// The seed file `trident-seed` holding `trident`, not overriding an
    /// existing file.
    fn default() -> (r: Self)
        ensures
            r.file_name@ == DEFAULT_SEED_FILENAME@,
            opt_text(&r.seed) == Some(DEFAULT_SEED@),
            r.override_file == Some(false),
            r.bytes_count == None::<usize>,
    {
        Self {
            file_name: DEFAULT_SEED_FILENAME.to_owned(),
            seed: Some(DEFAULT_SEED.to_owned()),
            override_file: Some(false),
            bytes_count: None,
        }
    }
}

/// A seed file AFL starts from.
#[derive(Debug)]
pub struct AflSeed {
    pub file_name: String,
    pub seed: Vec<u8>,
    pub override_file: bool,
}

/// The bytes of a seed given as text: the text unless it is absent or
/// empty, else `trident`, in UTF-8.
pub open spec fn seed_text_bytes(seed: Option<Seq<char>>) -> Seq<u8> {
    encode_utf8(or_default_text(seed, DEFAULT_SEED@))
}

/// Whether a seed file agrees with its configuration: same name, override
/// flag defaulting to false; random bytes of the requested number when a
/// positive number is requested, else the bytes of the seed text.
pub open spec fn seed_from(raw: &_AflSeed, s: &AflSeed) -> bool {
    &&& s.file_name@ == raw.file_name@
    &&& s.override_file == or_value(raw.override_file, false)
    &&& match raw.bytes_count {
        Some(n) if n > 0 => s.seed@.len() == n,
        _ => s.seed@ == seed_text_bytes(opt_text(&raw.seed)),
    }
}

/// Calls `RngCore::fill_bytes` on `rand`'s `OsRng` for `n` bytes; the bytes
/// are left open. Its documentation says it panics when the operating
/// system cannot provide randomness, which nothing here can rule out.
#[verifier::external_body]
fn os_random_bytes(n: usize) -> (r: Vec<u8>)
    ensures
        r@.len() == n,
{
    let mut seed = vec![0u8; n];
    rand::rngs::OsRng.fill_bytes(&mut seed);
    seed
}

impl AflSeed {
    /// The seed file from its configuration.
    pub fn from(value: _AflSeed) -> (r: Self)
        ensures
            seed_from(&value, &r),
    {
        let ghost raw = value;
        let override_file = match value.override_file {
            Some(b) => b,
            None => false,
        };
        match value.bytes_count {
            Some(n) if n > 0 => {
                let seed = os_random_bytes(n);
                Self { file_name: value.file_name, seed, override_file }
            },
            _ => {
                let text = text_or(value.seed, DEFAULT_SEED);
                let seed = vstd::slice::slice_to_vec(text.as_str().as_bytes());
                Self { file_name: value.file_name, seed, override_file }
            },
        }
    }
}

/// AFL options as the configuration file gives them.
#[derive(Default, Debug)]
pub struct _Afl {
    pub cargo_target_dir: Option<String>,
    pub afl_workspace_in: Option<String>,
    pub afl_workspace_out: Option<String>,
    pub execs: Option<u64>,
    pub seconds: Option<u64>,
    pub seeds: Option<Vec<_AflSeed>>,
}

/// AFL options, in the order they were set, and seed files.
pub struct Afl {
    pub build_args: KeyedMap<BuildArgument, AflArg>,
    pub fuzz_args: KeyedMap<FuzzArgument, AflArg>,
    pub seeds: Vec<AflSeed>,
}

/// The build options from the configuration: the target directory,
/// defaulted when absent or empty.
pub open spec fn afl_build_args_from(f: &_Afl) -> Seq<(BuildArgument, ArgView)> {
    seq![(
        BuildArgument::CargoTargetDir,
        arg_view(""@, "--target-dir"@, or_default_text(opt_text(&f.cargo_target_dir), CARGO_TARGET_DIR_DEFAULT_AFL@)),
    )]
}

/// The run options from the configuration: input and output directories
/// (defaulted when absent or empty), then executions and seconds when
/// above 0.
pub open spec fn afl_fuzz_args_from(f: &_Afl) -> Seq<(FuzzArgument, ArgView)> {
    let s0 = seq![
        (FuzzArgument::AflWorkspaceIn, arg_view("-i"@, ""@, or_default_text(opt_text(&f.afl_workspace_in), AFL_WORKSPACE_DEFAULT_IN@))),
        (FuzzArgument::AflWorkspaceOut, arg_view("-o"@, ""@, or_default_text(opt_text(&f.afl_workspace_out), AFL_WORKSPACE_DEFAULT_OUT@))),
    ];
    let execs = or_value(f.execs, 0u64);
    let s1 = if execs > 0 { s0.push((FuzzArgument::Execs, arg_view("-E"@, ""@, decimal(execs as nat)))) } else { s0 };
    let seconds = or_value(f.seconds, 0u64);
    if seconds > 0 { s1.push((FuzzArgument::Seconds, arg_view("-V"@, ""@, decimal(seconds as nat)))) } else { s1 }
}

/// The build option AFL gets: the target directory as configured unless
/// absent or empty, else the default.
pub proof fn law_afl_build_options(f: &_Afl)
    ensures
        afl_build_args_from(f) == seq![(
            BuildArgument::CargoTargetDir,
            arg_view(""@, "--target-dir"@, match f.cargo_target_dir {
                Some(v) => if v@.len() != 0 { v@ } else { CARGO_TARGET_DIR_DEFAULT_AFL@ },
                None => CARGO_TARGET_DIR_DEFAULT_AFL@,
            }),
        )],
{
}

/// A text read back through its optional form is the text itself.
proof fn lemma_text_of_nonempty(x: Seq<char>)
    ensures
        text_or_empty(nonempty(x)) == x,
{
    if x.len() == 0 {
        assert(x =~= Seq::<char>::empty());
    }
}

/// The words of a list with one more option are those of the list, then
/// the option's.
proof fn lemma_words_push<K>(s: Seq<(K, ArgView)>, e: (K, ArgView))
    ensures
        afl_words_of(s.push(e)) == afl_words_of(s) + afl_words(e.1),
{
    assert(s.push(e).drop_last() =~= s);
}

/// The run options AFL gets, option by option: the input and output
/// directories (the configured ones unless absent or empty, else the
/// defaults), the executions when the configuration gives more than 0, and
/// the time limit in seconds when it gives more than 0. As words: `-i` and
/// the input directory, `-o` and the output directory, then `-E` and the
/// executions, then `-V` and the seconds, each pair only when set.
pub proof fn law_afl_run_options(f: &_Afl)
    ensures
        ({
            let s = afl_fuzz_args_from(f);
            let dir_in = match f.afl_workspace_in {
                Some(v) => if v@.len() != 0 { v@ } else { AFL_WORKSPACE_DEFAULT_IN@ },
                None => AFL_WORKSPACE_DEFAULT_IN@,
            };
            let dir_out = match f.afl_workspace_out {
                Some(v) => if v@.len() != 0 { v@ } else { AFL_WORKSPACE_DEFAULT_OUT@ },
                None => AFL_WORKSPACE_DEFAULT_OUT@,
            };
            let execs: u64 = match f.execs { Some(n) => n, None => 0 };
            let seconds: u64 = match f.seconds { Some(n) => n, None => 0 };
            &&& sets_to(s, FuzzArgument::AflWorkspaceIn, arg_view("-i"@, ""@, dir_in))
            &&& sets_to(s, FuzzArgument::AflWorkspaceOut, arg_view("-o"@, ""@, dir_out))
            &&& (execs > 0 ==> sets_to(s, FuzzArgument::Execs, arg_view("-E"@, ""@, decimal(execs as nat))))
            &&& (execs == 0 ==> never_sets(s, FuzzArgument::Execs))
            &&& (seconds > 0 ==> sets_to(s, FuzzArgument::Seconds, arg_view("-V"@, ""@, decimal(seconds as nat))))
            &&& (seconds == 0 ==> never_sets(s, FuzzArgument::Seconds))
            &&& afl_words_of(s) == seq!["-i"@, dir_in, "-o"@, dir_out]
                + (if execs > 0 { seq!["-E"@, decimal(execs as nat)] } else { Seq::empty() })
                + (if seconds > 0 { seq!["-V"@, decimal(seconds as nat)] } else { Seq::empty() })
        }),
{
    reveal_strlit("-i");
    reveal_strlit("-o");
    reveal_strlit("-E");
    reveal_strlit("-V");
    reveal_strlit("");
    let dir_in = or_default_text(opt_text(&f.afl_workspace_in), AFL_WORKSPACE_DEFAULT_IN@);
    let dir_out = or_default_text(opt_text(&f.afl_workspace_out), AFL_WORKSPACE_DEFAULT_OUT@);
    let e0 = (FuzzArgument::AflWorkspaceIn, arg_view("-i"@, ""@, dir_in));
    let e1 = (FuzzArgument::AflWorkspaceOut, arg_view("-o"@, ""@, dir_out));
    let s0 = seq![e0, e1];
    assert(s0.len() == 2 && s0[0].0 == FuzzArgument::AflWorkspaceIn && s0[1].0 == FuzzArgument::AflWorkspaceOut);
    assert(sets_to(s0, FuzzArgument::AflWorkspaceIn, e0.1));
    assert(sets_to(s0, FuzzArgument::AflWorkspaceOut, e1.1));
    assert(never_sets(s0, FuzzArgument::Execs));
    assert(never_sets(s0, FuzzArgument::Seconds));
    let empty = Seq::<(FuzzArgument, ArgView)>::empty();
    assert(seq![e0] =~= empty.push(e0));
    assert(s0 =~= seq![e0].push(e1));
    lemma_words_push(empty, e0);
    lemma_words_push(seq![e0], e1);
    assert("-i"@.len() == 2 && "-o"@.len() == 2 && "-E"@.len() == 2 && "-V"@.len() == 2);
    lemma_text_of_nonempty(dir_in);
    lemma_text_of_nonempty(dir_out);
    assert(afl_words(e0.1) =~= seq!["-i"@, dir_in]);
    assert(afl_words(e1.1) =~= seq!["-o"@, dir_out]);
    assert(afl_words_of(s0) =~= seq!["-i"@, dir_in, "-o"@, dir_out]);
    let execs = or_value(f.execs, 0u64);
    let ee = (FuzzArgument::Execs, arg_view("-E"@, ""@, decimal(execs as nat)));
    let s1 = if execs > 0 { s0.push(ee) } else { s0 };
    if execs > 0 {
        lemma_push(s0, ee.0, ee.1);
        lemma_words_push(s0, ee);
        lemma_text_of_nonempty(decimal(execs as nat));
        assert(afl_words(ee.1) =~= seq!["-E"@, decimal(execs as nat)]);
    }
    let seconds = or_value(f.seconds, 0u64);
    let es = (FuzzArgument::Seconds, arg_view("-V"@, ""@, decimal(seconds as nat)));
    let s2 = if seconds > 0 { s1.push(es) } else { s1 };
    if seconds > 0 {
        lemma_push(s1, es.0, es.1);
        lemma_words_push(s1, es);
        lemma_text_of_nonempty(decimal(seconds as nat));
        assert(afl_words(es.1) =~= seq!["-V"@, decimal(seconds as nat)]);
    }
    assert(s2 == afl_fuzz_args_from(f));
    assert(afl_words_of(s2) =~= seq!["-i"@, dir_in, "-o"@, dir_out]
        + (if execs > 0 { seq!["-E"@, decimal(execs as nat)] } else { Seq::empty() })
        + (if seconds > 0 { seq!["-V"@, decimal(seconds as nat)] } else { Seq::empty() }));
}

/// The seed files from the configuration: one per configured seed, or the
/// default seed file when none is configured.
pub open spec fn afl_seeds_from(f: &_Afl, seeds: Seq<AflSeed>) -> bool {
    match f.seeds {
        Some(raw) => seeds.len() == raw@.len() && forall|i: int| 0 <= i < raw@.len() ==> seed_from(&raw@[i], &#[trigger] seeds[i]),
        None => {
            &&& seeds.len() == 1
            &&& seeds[0].file_name@ == DEFAULT_SEED_FILENAME@
            &&& seeds[0].seed@ == DEFAULT_SEED.spec_bytes()
            &&& seeds[0].override_file == false
        },
    }
}

impl Afl {
    pub fn get_cargo_build_dir(&self) -> (r: Option<&AflArg>)
        ensures
            found(self.build_args@, BuildArgument::CargoTargetDir, r),
    {
        self.build_args.get(&BuildArgument::CargoTargetDir)
    }

    pub fn get_workspace_in(&self) -> (r: Option<&AflArg>)
        ensures
            found(self.fuzz_args@, FuzzArgument::AflWorkspaceIn, r),
    {
        self.fuzz_args.get(&FuzzArgument::AflWorkspaceIn)
    }

    pub fn get_workspace_out(&self) -> (r: Option<&AflArg>)
        ensures
            found(self.fuzz_args@, FuzzArgument::AflWorkspaceOut, r),
    {
        self.fuzz_args.get(&FuzzArgument::AflWorkspaceOut)
    }

    pub fn get_execs(&self) -> (r: Option<&AflArg>)
        ensures
            found(self.fuzz_args@, FuzzArgument::Execs, r),
    {
        self.fuzz_args.get(&FuzzArgument::Execs)
    }

    pub fn get_seconds(&self) -> (r: Option<&AflArg>)
        ensures
            found(self.fuzz_args@, FuzzArgument::Seconds, r),
    {
        self.fuzz_args.get(&FuzzArgument::Seconds)
    }

    /// The words of the build options, in the order they were set.
    pub fn get_collect_build_args(&self) -> (r: Vec<String>)
        ensures
            r.deep_view() == afl_words_of(self.build_args.ordered()),
    {
        collect_words(&self.build_args)
    }

    /// The words of the run options, in the order they were set.
    pub fn get_collect_fuzz_args(&self) -> (r: Vec<String>)
        ensures
            r.deep_view() == afl_words_of(self.fuzz_args.ordered()),
    {
        collect_words(&self.fuzz_args)
    }

    /// The options and seed files set from the configuration, with AFL's
    /// defaults where it leaves them out.
    pub fn from(f: _Afl) -> (r: Self)
        ensures
            r.build_args.ordered() == afl_build_args_from(&f),
            r.build_args@ == map_of_pairs(afl_build_args_from(&f)),
            r.fuzz_args.ordered() == afl_fuzz_args_from(&f),
            r.fuzz_args@ == map_of_pairs(afl_fuzz_args_from(&f)),
            afl_seeds_from(&f, r.seeds@),
    {
        let ghost g = f;
        let mut build_args = KeyedMap::new();
        let dir = text_or(f.cargo_target_dir, CARGO_TARGET_DIR_DEFAULT_AFL);
        build_args.insert_new(BuildArgument::CargoTargetDir, AflArg::new("", "--target-dir", dir.as_str()));
        proof {
            let b = build_args.ordered();
            assert(b =~= afl_build_args_from(&g));
            assert(b.drop_last() =~= Seq::<(BuildArgument, ArgView)>::empty());
            assert(map_of_pairs(b.drop_last()) =~= Map::<BuildArgument, ArgView>::empty());
            assert(build_args@ =~= map_of_pairs(b));
        }
        let fuzz_args = fuzz_args_from(f.afl_workspace_in, f.afl_workspace_out, f.execs, f.seconds);
        let seeds = seeds_from(f.seeds);
        Self { build_args, fuzz_args, seeds }
    }
}

/// The run options of AFL from their configured values.
fn fuzz_args_from(
    afl_workspace_in: Option<String>,
    afl_workspace_out: Option<String>,
    execs: Option<u64>,
    seconds: Option<u64>,
) -> (r: KeyedMap<FuzzArgument, AflArg>)
    ensures
        r.ordered() == afl_fuzz_args_from(
            &_Afl { cargo_target_dir: None, afl_workspace_in, afl_workspace_out, execs, seconds, seeds: None },
        ),
        r@ == map_of_pairs(r.ordered()),
{
    let ghost f = _Afl { cargo_target_dir: None, afl_workspace_in, afl_workspace_out, execs, seconds, seeds: None };
    let mut args = KeyedMap::new();
    let ghost set: Seq<(FuzzArgument, ArgView)> = Seq::empty();
    proof {
        assert(map_of_pairs(set) =~= Map::<FuzzArgument, ArgView>::empty());
    }
    let dir_in = text_or(afl_workspace_in, AFL_WORKSPACE_DEFAULT_IN);
    let arg = AflArg::new("-i", "", dir_in.as_str());
    let ghost a = arg@;
    args.insert_new(FuzzArgument::AflWorkspaceIn, arg);
    proof {
        set = set.push((FuzzArgument::AflWorkspaceIn, a));
        assert(set.drop_last() =~= Seq::<(FuzzArgument, ArgView)>::empty());
        assert(args@ =~= map_of_pairs(set));
    }
    let dir_out = text_or(afl_workspace_out, AFL_WORKSPACE_DEFAULT_OUT);
    let arg = AflArg::new("-o", "", dir_out.as_str());
    let ghost a = arg@;
    let ghost prev = set;
    args.insert_new(FuzzArgument::AflWorkspaceOut, arg);
    proof {
        set = set.push((FuzzArgument::AflWorkspaceOut, a));
        assert(set.drop_last() =~= prev);
        assert(args@ =~= map_of_pairs(set));
    }
    let execs: u64 = match execs { Some(n) => n, None => 0 };
    if execs > 0 {
        let t = u64_to_string(execs);
        let arg = AflArg::new("-E", "", t.as_str());
        let ghost a = arg@;
        let ghost prev = set;
        args.insert_new(FuzzArgument::Execs, arg);
        proof {
            set = set.push((FuzzArgument::Execs, a));
            assert(set.drop_last() =~= prev);
            assert(args@ =~= map_of_pairs(set));
        }
    }
    let seconds: u64 = match seconds { Some(n) => n, None => 0 };
    if seconds > 0 {
        let t = u64_to_string(seconds);
        let arg = AflArg::new("-V", "", t.as_str());
        let ghost a = arg@;
        let ghost prev = set;
        args.insert_new(FuzzArgument::Seconds, arg);
        proof {
            set = set.push((FuzzArgument::Seconds, a));
            assert(set.drop_last() =~= prev);
            assert(args@ =~= map_of_pairs(set));
        }
    }
    proof {
        assert(set =~= afl_fuzz_args_from(&f));
        assert(args.ordered() =~= set);
    }
    args
}

/// The seed files from their configuration; the default seed file when
/// none is configured.
fn seeds_from(seeds: Option<Vec<_AflSeed>>) -> (r: Vec<AflSeed>)
    ensures
        afl_seeds_from(
            &_Afl { cargo_target_dir: None, afl_workspace_in: None, afl_workspace_out: None, execs: None, seconds: None, seeds },
            r@,
        ),
{
    let ghost raw_seeds = seeds;
    let mut out: Vec<AflSeed> = Vec::new();
    match seeds {
        Some(mut raw) => {
            let ghost all = raw@;
            proof {
                assert(raw@ =~= all.subrange(0, all.len() as int));
            }
            let n = raw.len();
            let mut i: usize = 0;
            while i < n
                invariant
                    0 <= i <= n,
                    n == all.len(),
                    raw@ == all.subrange(i as int, n as int),
                    out@.len() == i,
                    forall|j: int| 0 <= j < i ==> seed_from(&all[j], &#[trigger] out@[j]),
                decreases n - i,
            {
                let s = raw.remove(0);
                proof {
                    assert(s == all[i as int]);
                    assert(raw@ =~= all.subrange(i + 1, n as int));
                }
                let converted = AflSeed::from(s);
                out.push(converted);
                i = i + 1;
            }
        },
        None => {
            let s = AflSeed::from(_AflSeed::default());
            proof {
                reveal_strlit("trident");
            }
            out.push(s);
        },
    }
    out
}

} // verus!

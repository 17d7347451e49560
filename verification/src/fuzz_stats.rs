//! Per-instruction fuzzing statistics: how often each instruction was
//! invoked, succeeded, failed, broke an invariant or panicked, with the
//! errors seen, and the merging of statistics gathered by several workers.
use crate::keyed_map::{entries_map, keys_distinct, lemma_entries_map_at, lemma_entries_map_insert, MapKey, KeyedMap};
use vstd::prelude::*;

verus! {

/// Seed of the fuzzing iteration in which an event was observed.
pub type Seed = [u8; 32];

/// Lower-case hexadecimal digit of a number below 16.
pub open spec fn hex_digit(n: int) -> char {
    seq!['0', '1', '2', '3', '4', '5', '6', '7', '8', '9', 'a', 'b', 'c', 'd', 'e', 'f'][n]
}

/// Lower-case hexadecimal text of bytes, two digits per byte, high first.
pub open spec fn hex_text(bytes: Seq<u8>) -> Seq<char>
    decreases bytes.len(),
{
    if bytes.len() == 0 {
        Seq::empty()
    } else {
        seq![hex_digit(bytes[0] as int / 16), hex_digit(bytes[0] as int % 16)] + hex_text(bytes.drop_first())
    }
}

/// The hexadecimal text of bytes has two digits for each byte, in the
/// bytes' order: the high digit, then the low one.
pub proof fn law_hex_text(bytes: Seq<u8>)
    ensures
        hex_text(bytes).len() == 2 * bytes.len(),
        forall|i: int| #![trigger bytes[i]] 0 <= i < bytes.len() ==> {
            &&& hex_text(bytes)[2 * i] == hex_digit(bytes[i] as int / 16)
            &&& hex_text(bytes)[2 * i + 1] == hex_digit(bytes[i] as int % 16)
        },
    decreases bytes.len(),
{
    if bytes.len() > 0 {
        let rest = bytes.drop_first();
        law_hex_text(rest);
        let head = seq![hex_digit(bytes[0] as int / 16), hex_digit(bytes[0] as int % 16)];
        assert(hex_text(bytes) == head + hex_text(rest));
        assert forall|i: int| #![trigger bytes[i]] 0 <= i < bytes.len() implies {
            &&& hex_text(bytes)[2 * i] == hex_digit(bytes[i] as int / 16)
            &&& hex_text(bytes)[2 * i + 1] == hex_digit(bytes[i] as int % 16)
        } by {
            if i > 0 {
                assert(rest[i - 1] == bytes[i]);
                assert(hex_text(bytes)[2 * i] == hex_text(rest)[2 * (i - 1)]);
                assert(hex_text(bytes)[2 * i + 1] == hex_text(rest)[2 * (i - 1) + 1]);
            }
        }
    }
}

/// Calls `hex::encode`, which writes each byte as two lower-case
/// hexadecimal digits, high digit first.
#[verifier::external_body]
pub(crate) fn hex_encode(bytes: &[u8]) -> (r: String)
    ensures
        r@ == hex_text(bytes@),
{
    hex::encode(bytes)
}

/// What a list of log lines holds, line by line.
pub open spec fn logs_view(logs: &Option<Vec<String>>) -> Option<Seq<Seq<char>>> {
    logs.deep_view()
}

/// Statistics that absorb statistics of the same kind gathered elsewhere.
pub trait Absorb: View + Sized {
    /// The counters of `a` and `b` can be added without overflow.
    spec fn fits(a: Self::V, b: Self::V) -> bool;

    /// `a` after absorbing `b`; `keep_logs` keeps the logs of `a` where the
    /// kind has any.
    spec fn absorbed(a: Self::V, b: Self::V, keep_logs: bool) -> Self::V;

    fn absorb(&mut self, other: Self, keep_logs: bool)
        requires
            Self::fits(old(self)@, other@),
        ensures
            final(self)@ == Self::absorbed(old(self)@, other@, keep_logs),
    ;
}

/// Occurrences of one transaction error, with the logs of the first.
pub struct TransactionErrorMetrics {
    pub occurrences: u64,
    pub logs: Option<Vec<String>>,
}

pub struct ErrorMetricsView {
    pub occurrences: u64,
    pub logs: Option<Seq<Seq<char>>>,
}

impl View for TransactionErrorMetrics {
    type V = ErrorMetricsView;

    open spec fn view(&self) -> ErrorMetricsView {
        ErrorMetricsView { occurrences: self.occurrences, logs: logs_view(&self.logs) }
    }
}

impl Absorb for TransactionErrorMetrics {
    open spec fn fits(a: ErrorMetricsView, b: ErrorMetricsView) -> bool {
        a.occurrences + b.occurrences <= u64::MAX
    }

    open spec fn absorbed(a: ErrorMetricsView, b: ErrorMetricsView, keep_logs: bool) -> ErrorMetricsView {
        ErrorMetricsView {
            occurrences: (a.occurrences + b.occurrences) as u64,
            logs: if keep_logs { a.logs } else { b.logs },
        }
    }

    fn absorb(&mut self, other: Self, keep_logs: bool) {
        self.occurrences = self.occurrences + other.occurrences;
        if !keep_logs {
            self.logs = other.logs;
        }
    }
}

/// Occurrences of one panic, with the seed and logs of the latest.
pub struct TransactionPanicMetrics {
    pub occurrences: u64,
    pub seed: String,
    pub logs: Option<Vec<String>>,
}

pub struct PanicMetricsView {
    pub occurrences: u64,
    pub seed: Seq<char>,
    pub logs: Option<Seq<Seq<char>>>,
}

impl View for TransactionPanicMetrics {
    type V = PanicMetricsView;

    open spec fn view(&self) -> PanicMetricsView {
        PanicMetricsView { occurrences: self.occurrences, seed: self.seed@, logs: logs_view(&self.logs) }
    }
}

impl Absorb for TransactionPanicMetrics {
    open spec fn fits(a: PanicMetricsView, b: PanicMetricsView) -> bool {
        a.occurrences + b.occurrences <= u64::MAX
    }

    open spec fn absorbed(a: PanicMetricsView, b: PanicMetricsView, keep_logs: bool) -> PanicMetricsView {
        PanicMetricsView {
            occurrences: (a.occurrences + b.occurrences) as u64,
            seed: b.seed,
            logs: b.logs,
        }
    }

    fn absorb(&mut self, other: Self, keep_logs: bool) {
        self.occurrences = self.occurrences + other.occurrences;
        self.seed = other.seed;
        self.logs = other.logs;
    }
}

/// Occurrences of one invariant failure, with the seed of the latest.
pub struct TransactionInvariantMetrics {
    pub occurrences: u64,
    pub seed: String,
}

pub struct InvariantMetricsView {
    pub occurrences: u64,
    pub seed: Seq<char>,
}

impl View for TransactionInvariantMetrics {
    type V = InvariantMetricsView;

    open spec fn view(&self) -> InvariantMetricsView {
        InvariantMetricsView { occurrences: self.occurrences, seed: self.seed@ }
    }
}

impl Absorb for TransactionInvariantMetrics {
    open spec fn fits(a: InvariantMetricsView, b: InvariantMetricsView) -> bool {
        a.occurrences + b.occurrences <= u64::MAX
    }

    open spec fn absorbed(a: InvariantMetricsView, b: InvariantMetricsView, keep_logs: bool) -> InvariantMetricsView {
        InvariantMetricsView { occurrences: (a.occurrences + b.occurrences) as u64, seed: b.seed }
    }

    fn absorb(&mut self, other: Self, keep_logs: bool) {
        self.occurrences = self.occurrences + other.occurrences;
        self.seed = other.seed;
    }
}

/// Every key that both maps hold has values whose counters add up without
/// overflow.
pub open spec fn maps_fit<KV, V: Absorb>(a: Map<KV, V::V>, b: Map<KV, V::V>) -> bool {
    forall|k: KV| a.contains_key(k) && b.contains_key(k) ==> #[trigger] V::fits(a[k], b[k])
}

/// `a` with every entry of `b` absorbed: keys of both are combined, keys of
/// one side are kept as they are.
pub open spec fn merged_map<KV, V: Absorb>(a: Map<KV, V::V>, b: Map<KV, V::V>, keep_logs: bool) -> Map<KV, V::V> {
    Map::new(
        |k: KV| a.contains_key(k) || b.contains_key(k),
        |k: KV|
            if a.contains_key(k) && b.contains_key(k) {
                V::absorbed(a[k], b[k], keep_logs)
            } else if a.contains_key(k) {
                a[k]
            } else {
                b[k]
            },
    )
}

/// Merging one more entry of `b` into the merge of `a` and the rest.
pub proof fn lemma_merged_insert<KV, V: Absorb>(a: Map<KV, V::V>, b: Map<KV, V::V>, k: KV, v: V::V, keep_logs: bool)
    requires
        !b.contains_key(k),
    ensures
        merged_map::<KV, V>(a, b.insert(k, v), keep_logs) == merged_map::<KV, V>(a, b, keep_logs).insert(
            k,
            if a.contains_key(k) { V::absorbed(a[k], v, keep_logs) } else { v },
        ),
{
    assert(merged_map::<KV, V>(a, b.insert(k, v), keep_logs) =~= merged_map::<KV, V>(a, b, keep_logs).insert(
        k,
        if a.contains_key(k) { V::absorbed(a[k], v, keep_logs) } else { v },
    ));
}

/// Merging nothing leaves a map as it is.
pub proof fn lemma_merged_empty<KV, V: Absorb>(a: Map<KV, V::V>, keep_logs: bool)
    ensures
        merged_map::<KV, V>(a, Map::empty(), keep_logs) == a,
{
    assert(merged_map::<KV, V>(a, Map::empty(), keep_logs) =~= a);
}

/// Merging two runs adds up the counters of an instruction both recorded;
/// an instruction only one run recorded keeps its statistics.
pub proof fn law_merge_adds_counts(a: Map<Seq<char>, IterationStatsView>, b: Map<Seq<char>, IterationStatsView>, name: Seq<char>)
    requires
        maps_fit::<Seq<char>, IterationStats>(a, b),
    ensures
        ({
            let m = merged_map::<Seq<char>, IterationStats>(a, b, true);
            &&& m.contains_key(name) == (a.contains_key(name) || b.contains_key(name))
            &&& a.contains_key(name) && b.contains_key(name) ==> {
                &&& m[name].invoked == a[name].invoked + b[name].invoked
                &&& m[name].successful == a[name].successful + b[name].successful
                &&& m[name].failed == a[name].failed + b[name].failed
                &&& m[name].failed_invariant == a[name].failed_invariant + b[name].failed_invariant
                &&& m[name].panicked == a[name].panicked + b[name].panicked
            }
            &&& a.contains_key(name) && !b.contains_key(name) ==> m[name] == a[name]
            &&& !a.contains_key(name) && b.contains_key(name) ==> m[name] == b[name]
        }),
{
    if a.contains_key(name) && b.contains_key(name) {
        assert(IterationStats::fits(a[name], b[name]));
    }
}

/// How often each error of a map occurred.
pub open spec fn error_counts<K>(m: Map<K, ErrorMetricsView>) -> Map<K, u64> {
    m.map_values(|v: ErrorMetricsView| v.occurrences)
}

/// How often each panic of a map occurred.
pub open spec fn panic_counts(m: Map<Seq<char>, PanicMetricsView>) -> Map<Seq<char>, u64> {
    m.map_values(|v: PanicMetricsView| v.occurrences)
}

/// How often each invariant failure of a map occurred.
pub open spec fn invariant_counts(m: Map<Seq<char>, InvariantMetricsView>) -> Map<Seq<char>, u64> {
    m.map_values(|v: InvariantMetricsView| v.occurrences)
}

/// Two statistics of an instruction agree on every counter: the
/// transaction counters, and which errors, custom errors, panics and
/// invariant failures occurred how often. Seeds and logs may differ.
pub open spec fn same_counters(x: IterationStatsView, y: IterationStatsView) -> bool {
    &&& x.invoked == y.invoked
    &&& x.successful == y.successful
    &&& x.failed == y.failed
    &&& x.failed_invariant == y.failed_invariant
    &&& x.panicked == y.panicked
    &&& error_counts(x.errors) == error_counts(y.errors)
    &&& error_counts(x.custom_errors) == error_counts(y.custom_errors)
    &&& panic_counts(x.panics) == panic_counts(y.panics)
    &&& invariant_counts(x.invariant_fails) == invariant_counts(y.invariant_fails)
}

proof fn lemma_error_counts_commute<K>(a: Map<K, ErrorMetricsView>, b: Map<K, ErrorMetricsView>, c: Map<K, ErrorMetricsView>, keep: bool)
    requires
        maps_fit::<K, TransactionErrorMetrics>(a, b),
        maps_fit::<K, TransactionErrorMetrics>(merged_map::<K, TransactionErrorMetrics>(a, b, keep), c),
        maps_fit::<K, TransactionErrorMetrics>(a, c),
        maps_fit::<K, TransactionErrorMetrics>(merged_map::<K, TransactionErrorMetrics>(a, c, keep), b),
    ensures
        error_counts(merged_map::<K, TransactionErrorMetrics>(merged_map::<K, TransactionErrorMetrics>(a, b, keep), c, keep))
            == error_counts(merged_map::<K, TransactionErrorMetrics>(merged_map::<K, TransactionErrorMetrics>(a, c, keep), b, keep)),
{
    let ab = merged_map::<K, TransactionErrorMetrics>(a, b, keep);
    let ac = merged_map::<K, TransactionErrorMetrics>(a, c, keep);
    let x = merged_map::<K, TransactionErrorMetrics>(ab, c, keep);
    let y = merged_map::<K, TransactionErrorMetrics>(ac, b, keep);
    assert forall|k: K| #[trigger] x.contains_key(k) implies y.contains_key(k) && x[k].occurrences == y[k].occurrences by {
        if a.contains_key(k) && b.contains_key(k) {
            assert(TransactionErrorMetrics::fits(a[k], b[k]));
        }
        if ab.contains_key(k) && c.contains_key(k) {
            assert(TransactionErrorMetrics::fits(ab[k], c[k]));
        }
        if a.contains_key(k) && c.contains_key(k) {
            assert(TransactionErrorMetrics::fits(a[k], c[k]));
        }
        if ac.contains_key(k) && b.contains_key(k) {
            assert(TransactionErrorMetrics::fits(ac[k], b[k]));
        }
    }
    assert(error_counts(x) =~= error_counts(y));
}

proof fn lemma_panic_counts_commute(a: Map<Seq<char>, PanicMetricsView>, b: Map<Seq<char>, PanicMetricsView>, c: Map<Seq<char>, PanicMetricsView>)
    requires
        maps_fit::<Seq<char>, TransactionPanicMetrics>(a, b),
        maps_fit::<Seq<char>, TransactionPanicMetrics>(merged_map::<Seq<char>, TransactionPanicMetrics>(a, b, false), c),
        maps_fit::<Seq<char>, TransactionPanicMetrics>(a, c),
        maps_fit::<Seq<char>, TransactionPanicMetrics>(merged_map::<Seq<char>, TransactionPanicMetrics>(a, c, false), b),
    ensures
        panic_counts(merged_map::<Seq<char>, TransactionPanicMetrics>(merged_map::<Seq<char>, TransactionPanicMetrics>(a, b, false), c, false))
            == panic_counts(merged_map::<Seq<char>, TransactionPanicMetrics>(merged_map::<Seq<char>, TransactionPanicMetrics>(a, c, false), b, false)),
{
    let ab = merged_map::<Seq<char>, TransactionPanicMetrics>(a, b, false);
    let ac = merged_map::<Seq<char>, TransactionPanicMetrics>(a, c, false);
    let x = merged_map::<Seq<char>, TransactionPanicMetrics>(ab, c, false);
    let y = merged_map::<Seq<char>, TransactionPanicMetrics>(ac, b, false);
    assert forall|k: Seq<char>| #[trigger] x.contains_key(k) implies y.contains_key(k) && x[k].occurrences == y[k].occurrences by {
        if a.contains_key(k) && b.contains_key(k) {
            assert(TransactionPanicMetrics::fits(a[k], b[k]));
        }
        if ab.contains_key(k) && c.contains_key(k) {
            assert(TransactionPanicMetrics::fits(ab[k], c[k]));
        }
        if a.contains_key(k) && c.contains_key(k) {
            assert(TransactionPanicMetrics::fits(a[k], c[k]));
        }
        if ac.contains_key(k) && b.contains_key(k) {
            assert(TransactionPanicMetrics::fits(ac[k], b[k]));
        }
    }
    assert(panic_counts(x) =~= panic_counts(y));
}

proof fn lemma_invariant_counts_commute(a: Map<Seq<char>, InvariantMetricsView>, b: Map<Seq<char>, InvariantMetricsView>, c: Map<Seq<char>, InvariantMetricsView>)
    requires
        maps_fit::<Seq<char>, TransactionInvariantMetrics>(a, b),
        maps_fit::<Seq<char>, TransactionInvariantMetrics>(merged_map::<Seq<char>, TransactionInvariantMetrics>(a, b, false), c),
        maps_fit::<Seq<char>, TransactionInvariantMetrics>(a, c),
        maps_fit::<Seq<char>, TransactionInvariantMetrics>(merged_map::<Seq<char>, TransactionInvariantMetrics>(a, c, false), b),
    ensures
        invariant_counts(merged_map::<Seq<char>, TransactionInvariantMetrics>(merged_map::<Seq<char>, TransactionInvariantMetrics>(a, b, false), c, false))
            == invariant_counts(merged_map::<Seq<char>, TransactionInvariantMetrics>(merged_map::<Seq<char>, TransactionInvariantMetrics>(a, c, false), b, false)),
{
    let ab = merged_map::<Seq<char>, TransactionInvariantMetrics>(a, b, false);
    let ac = merged_map::<Seq<char>, TransactionInvariantMetrics>(a, c, false);
    let x = merged_map::<Seq<char>, TransactionInvariantMetrics>(ab, c, false);
    let y = merged_map::<Seq<char>, TransactionInvariantMetrics>(ac, b, false);
    assert forall|k: Seq<char>| #[trigger] x.contains_key(k) implies y.contains_key(k) && x[k].occurrences == y[k].occurrences by {
        if a.contains_key(k) && b.contains_key(k) {
            assert(TransactionInvariantMetrics::fits(a[k], b[k]));
        }
        if ab.contains_key(k) && c.contains_key(k) {
            assert(TransactionInvariantMetrics::fits(ab[k], c[k]));
        }
        if a.contains_key(k) && c.contains_key(k) {
            assert(TransactionInvariantMetrics::fits(a[k], c[k]));
        }
        if ac.contains_key(k) && b.contains_key(k) {
            assert(TransactionInvariantMetrics::fits(ac[k], b[k]));
        }
    }
    assert(invariant_counts(x) =~= invariant_counts(y));
}

/// Three instructions' statistics absorbed in either order agree on every
/// counter.
proof fn lemma_stats_absorb_commute(a: IterationStatsView, b: IterationStatsView, c: IterationStatsView)
    requires
        IterationStats::fits(a, b),
        IterationStats::fits(IterationStats::absorbed(a, b, true), c),
        IterationStats::fits(a, c),
        IterationStats::fits(IterationStats::absorbed(a, c, true), b),
    ensures
        same_counters(
            IterationStats::absorbed(IterationStats::absorbed(a, b, true), c, true),
            IterationStats::absorbed(IterationStats::absorbed(a, c, true), b, true),
        ),
{
    lemma_error_counts_commute::<Seq<char>>(a.errors, b.errors, c.errors, true);
    lemma_error_counts_commute::<u32>(a.custom_errors, b.custom_errors, c.custom_errors, false);
    lemma_panic_counts_commute(a.panics, b.panics, c.panics);
    lemma_invariant_counts_commute(a.invariant_fails, b.invariant_fails, c.invariant_fails);
}

/// Two instructions' statistics absorbed in either order agree on every
/// counter.
proof fn lemma_stats_absorb_swap(b: IterationStatsView, c: IterationStatsView)
    requires
        IterationStats::fits(b, c),
        IterationStats::fits(c, b),
    ensures
        same_counters(IterationStats::absorbed(b, c, true), IterationStats::absorbed(c, b, true)),
{
    let zero = IterationStatsView {
        invoked: 0,
        successful: 0,
        failed: 0,
        failed_invariant: 0,
        panicked: 0,
        errors: Map::empty(),
        custom_errors: Map::empty(),
        panics: Map::empty(),
        invariant_fails: Map::empty(),
    };
    assert(IterationStats::absorbed(zero, b, true) =~= b) by {
        assert(merged_map::<Seq<char>, TransactionErrorMetrics>(zero.errors, b.errors, true) =~= b.errors);
        assert(merged_map::<u32, TransactionErrorMetrics>(zero.custom_errors, b.custom_errors, false) =~= b.custom_errors);
        assert(merged_map::<Seq<char>, TransactionPanicMetrics>(zero.panics, b.panics, false) =~= b.panics);
        assert(merged_map::<Seq<char>, TransactionInvariantMetrics>(zero.invariant_fails, b.invariant_fails, false) =~= b.invariant_fails);
    }
    assert(IterationStats::absorbed(zero, c, true) =~= c) by {
        assert(merged_map::<Seq<char>, TransactionErrorMetrics>(zero.errors, c.errors, true) =~= c.errors);
        assert(merged_map::<u32, TransactionErrorMetrics>(zero.custom_errors, c.custom_errors, false) =~= c.custom_errors);
        assert(merged_map::<Seq<char>, TransactionPanicMetrics>(zero.panics, c.panics, false) =~= c.panics);
        assert(merged_map::<Seq<char>, TransactionInvariantMetrics>(zero.invariant_fails, c.invariant_fails, false) =~= c.invariant_fails);
    }
    lemma_stats_absorb_commute(zero, b, c);
}

/// Merging the statistics of two more runs gives the same instructions and
/// the same counters whichever run is merged first; only the seeds and
/// logs that the last merge brings may differ.
pub proof fn law_merge_order_keeps_counters(
    a: Map<Seq<char>, IterationStatsView>,
    b: Map<Seq<char>, IterationStatsView>,
    c: Map<Seq<char>, IterationStatsView>,
)
    requires
        maps_fit::<Seq<char>, IterationStats>(a, b),
        maps_fit::<Seq<char>, IterationStats>(merged_map::<Seq<char>, IterationStats>(a, b, true), c),
        maps_fit::<Seq<char>, IterationStats>(a, c),
        maps_fit::<Seq<char>, IterationStats>(merged_map::<Seq<char>, IterationStats>(a, c, true), b),
    ensures
        ({
            let x = merged_map::<Seq<char>, IterationStats>(merged_map::<Seq<char>, IterationStats>(a, b, true), c, true);
            let y = merged_map::<Seq<char>, IterationStats>(merged_map::<Seq<char>, IterationStats>(a, c, true), b, true);
            &&& x.dom() == y.dom()
            &&& forall|k: Seq<char>| #[trigger] x.contains_key(k) ==> same_counters(x[k], y[k])
        }),
{
    let ab = merged_map::<Seq<char>, IterationStats>(a, b, true);
    let ac = merged_map::<Seq<char>, IterationStats>(a, c, true);
    let x = merged_map::<Seq<char>, IterationStats>(ab, c, true);
    let y = merged_map::<Seq<char>, IterationStats>(ac, b, true);
    assert(x.dom() =~= y.dom());
    assert forall|k: Seq<char>| #[trigger] x.contains_key(k) implies same_counters(x[k], y[k]) by {
        if a.contains_key(k) && b.contains_key(k) {
            assert(IterationStats::fits(a[k], b[k]));
        }
        if ab.contains_key(k) && c.contains_key(k) {
            assert(IterationStats::fits(ab[k], c[k]));
        }
        if a.contains_key(k) && c.contains_key(k) {
            assert(IterationStats::fits(a[k], c[k]));
        }
        if ac.contains_key(k) && b.contains_key(k) {
            assert(IterationStats::fits(ac[k], b[k]));
        }
        if a.contains_key(k) && b.contains_key(k) && c.contains_key(k) {
            lemma_stats_absorb_commute(a[k], b[k], c[k]);
        } else if !a.contains_key(k) && b.contains_key(k) && c.contains_key(k) {
            lemma_stats_absorb_swap(b[k], c[k]);
        } else {
            assert(x[k] == y[k]);
        }
    }
}

/// Merging one instruction's statistics into another's adds the counters;
/// an error, custom error, panic or invariant failure both recorded adds
/// its occurrences, keeping the logs held for an error, and taking the
/// other run's logs for a custom error, its seed and logs for a panic and
/// its seed for an invariant failure; one recorded by a single side is
/// kept as it is.
pub proof fn law_merge_entry(a: IterationStatsView, b: IterationStatsView)
    requires
        IterationStats::fits(a, b),
    ensures
        ({
            let m = IterationStats::absorbed(a, b, true);
            &&& m.invoked == a.invoked + b.invoked
            &&& m.successful == a.successful + b.successful
            &&& m.failed == a.failed + b.failed
            &&& m.failed_invariant == a.failed_invariant + b.failed_invariant
            &&& m.panicked == a.panicked + b.panicked
            &&& m.errors.dom() == a.errors.dom() + b.errors.dom()
            &&& forall|e: Seq<char>| #[trigger] m.errors.contains_key(e) ==> m.errors[e] == (
                if a.errors.contains_key(e) && b.errors.contains_key(e) {
                    ErrorMetricsView { occurrences: (a.errors[e].occurrences + b.errors[e].occurrences) as u64, logs: a.errors[e].logs }
                } else if a.errors.contains_key(e) { a.errors[e] } else { b.errors[e] })
            &&& m.custom_errors.dom() == a.custom_errors.dom() + b.custom_errors.dom()
            &&& forall|c: u32| #[trigger] m.custom_errors.contains_key(c) ==> m.custom_errors[c] == (
                if a.custom_errors.contains_key(c) && b.custom_errors.contains_key(c) {
                    ErrorMetricsView {
                        occurrences: (a.custom_errors[c].occurrences + b.custom_errors[c].occurrences) as u64,
                        logs: b.custom_errors[c].logs,
                    }
                } else if a.custom_errors.contains_key(c) { a.custom_errors[c] } else { b.custom_errors[c] })
            &&& m.panics.dom() == a.panics.dom() + b.panics.dom()
            &&& forall|e: Seq<char>| #[trigger] m.panics.contains_key(e) ==> m.panics[e] == (
                if a.panics.contains_key(e) && b.panics.contains_key(e) {
                    PanicMetricsView {
                        occurrences: (a.panics[e].occurrences + b.panics[e].occurrences) as u64,
                        seed: b.panics[e].seed,
                        logs: b.panics[e].logs,
                    }
                } else if a.panics.contains_key(e) { a.panics[e] } else { b.panics[e] })
            &&& m.invariant_fails.dom() == a.invariant_fails.dom() + b.invariant_fails.dom()
            &&& forall|e: Seq<char>| #[trigger] m.invariant_fails.contains_key(e) ==> m.invariant_fails[e] == (
                if a.invariant_fails.contains_key(e) && b.invariant_fails.contains_key(e) {
                    InvariantMetricsView {
                        occurrences: (a.invariant_fails[e].occurrences + b.invariant_fails[e].occurrences) as u64,
                        seed: b.invariant_fails[e].seed,
                    }
                } else if a.invariant_fails.contains_key(e) { a.invariant_fails[e] } else { b.invariant_fails[e] })
        }),
{
    let m = IterationStats::absorbed(a, b, true);
    assert(m.errors.dom() =~= a.errors.dom() + b.errors.dom());
    assert(m.custom_errors.dom() =~= a.custom_errors.dom() + b.custom_errors.dom());
    assert(m.panics.dom() =~= a.panics.dom() + b.panics.dom());
    assert(m.invariant_fails.dom() =~= a.invariant_fails.dom() + b.invariant_fails.dom());
}

/// Absorbs every entry of `from` into `into`: a key of both is combined
/// with `Absorb::absorb`, a key only of `from` is added.
pub fn merge_into<K: MapKey, V: Absorb>(into: &mut KeyedMap<K, V>, from: KeyedMap<K, V>, keep_logs: bool)
    requires
        maps_fit::<K::V, V>(old(into)@, from@),
    ensures
        final(into)@ == merged_map::<K::V, V>(old(into)@, from@, keep_logs),
{
    let ghost orig = into@;
    let ghost from_view = from@;
    let mut entries = from.into_entries();
    let ghost all = entries@;
    let ghost n = all.len();
    proof {
        assert(all.subrange(n as int, n as int) =~= Seq::<(K, V)>::empty());
        assert(entries_map(Seq::<(K, V)>::empty()) =~= Map::<K::V, V::V>::empty());
        lemma_merged_empty::<K::V, V>(orig, keep_logs);
        assert(entries@ =~= all.subrange(0, n as int));
    }
    while entries.len() > 0
        invariant
            keys_distinct(all),
            entries_map(all) == from_view,
            n == all.len(),
            entries@.len() <= n,
            entries@ == all.subrange(0, entries@.len() as int),
            into@ == merged_map::<K::V, V>(orig, entries_map(all.subrange(entries@.len() as int, n as int)), keep_logs),
            maps_fit::<K::V, V>(orig, from_view),
        decreases entries@.len(),
    {
        let ghost r = (entries@.len() - 1) as int;
        let ghost done = all.subrange(r + 1, n as int);
        let (k, v) = entries.pop().unwrap();
        proof {
            assert(all[r] == (k, v));
            assert(all.subrange(r, n as int) =~= done.insert(0, (k, v)));
            assert forall|i: int, j: int| 0 <= i < done.len() && 0 <= j < done.len() && i != j implies done[i].0@
                != done[j].0@ by {
                assert(done[i] == all[i + r + 1]);
                assert(done[j] == all[j + r + 1]);
            }
            assert(!entries_map(done).contains_key(k@)) by {
                if entries_map(done).contains_key(k@) {
                    let j = choose|j: int| 0 <= j < done.len() && done[j].0@ == k@;
                    assert(done[j] == all[j + r + 1]);
                }
            }
            lemma_entries_map_insert(done, 0, k, v);
            lemma_entries_map_at(all, r);
            lemma_merged_insert::<K::V, V>(orig, entries_map(done), k@, v@, keep_logs);
            assert(entries@ =~= all.subrange(0, entries@.len() as int));
        }
        match into.take(&k) {
            Some((i, k2, mut existing)) => {
                proof {
                    assert(orig.contains_key(k@));
                    assert(existing@ == orig[k@]);
                    assert(V::fits(orig[k@], from_view[k@]));
                }
                existing.absorb(v, keep_logs);
                into.put_back(i, k2, existing);
                proof {
                    assert(into@ =~= merged_map::<K::V, V>(orig, entries_map(all.subrange(r, n as int)), keep_logs));
                }
            },
            None => {
                into.insert_new(k, v);
                proof {
                    assert(into@ =~= merged_map::<K::V, V>(orig, entries_map(all.subrange(r, n as int)), keep_logs));
                }
            },
        }
    }
    proof {
        assert(all.subrange(0, n as int) =~= all);
    }
}

/// Outcomes recorded for one instruction.
pub struct IterationStats {
    pub invoked: u64,
    pub transactions_successful: u64,
    pub transactions_failed: u64,
    pub transactions_failed_invariant: u64,
    pub transactions_panicked: u64,
    pub transactions_errors: KeyedMap<String, TransactionErrorMetrics>,
    pub custom_instruction_errors: KeyedMap<u32, TransactionErrorMetrics>,
    pub transactions_panics: KeyedMap<String, TransactionPanicMetrics>,
    pub transactions_invariant_fails: KeyedMap<String, TransactionInvariantMetrics>,
}

pub struct IterationStatsView {
    pub invoked: u64,
    pub successful: u64,
    pub failed: u64,
    pub failed_invariant: u64,
    pub panicked: u64,
    pub errors: Map<Seq<char>, ErrorMetricsView>,
    pub custom_errors: Map<u32, ErrorMetricsView>,
    pub panics: Map<Seq<char>, PanicMetricsView>,
    pub invariant_fails: Map<Seq<char>, InvariantMetricsView>,
}

impl View for IterationStats {
    type V = IterationStatsView;

    open spec fn view(&self) -> IterationStatsView {
        IterationStatsView {
            invoked: self.invoked,
            successful: self.transactions_successful,
            failed: self.transactions_failed,
            failed_invariant: self.transactions_failed_invariant,
            panicked: self.transactions_panicked,
            errors: self.transactions_errors@,
            custom_errors: self.custom_instruction_errors@,
            panics: self.transactions_panics@,
            invariant_fails: self.transactions_invariant_fails@,
        }
    }
}

/// The statistics of an instruction seen for the first time: invoked once,
/// nothing else recorded.
pub open spec fn first_invocation() -> IterationStatsView {
    IterationStatsView {
        invoked: 1,
        successful: 0,
        failed: 0,
        failed_invariant: 0,
        panicked: 0,
        errors: Map::empty(),
        custom_errors: Map::empty(),
        panics: Map::empty(),
        invariant_fails: Map::empty(),
    }
}

impl Absorb for IterationStats {
    open spec fn fits(a: IterationStatsView, b: IterationStatsView) -> bool {
        &&& a.invoked + b.invoked <= u64::MAX
        &&& a.successful + b.successful <= u64::MAX
        &&& a.failed + b.failed <= u64::MAX
        &&& a.failed_invariant + b.failed_invariant <= u64::MAX
        &&& a.panicked + b.panicked <= u64::MAX
        &&& maps_fit::<Seq<char>, TransactionErrorMetrics>(a.errors, b.errors)
        &&& maps_fit::<u32, TransactionErrorMetrics>(a.custom_errors, b.custom_errors)
        &&& maps_fit::<Seq<char>, TransactionPanicMetrics>(a.panics, b.panics)
        &&& maps_fit::<Seq<char>, TransactionInvariantMetrics>(a.invariant_fails, b.invariant_fails)
    }

    open spec fn absorbed(a: IterationStatsView, b: IterationStatsView, keep_logs: bool) -> IterationStatsView {
        IterationStatsView {
            invoked: (a.invoked + b.invoked) as u64,
            successful: (a.successful + b.successful) as u64,
            failed: (a.failed + b.failed) as u64,
            failed_invariant: (a.failed_invariant + b.failed_invariant) as u64,
            panicked: (a.panicked + b.panicked) as u64,
            errors: merged_map::<Seq<char>, TransactionErrorMetrics>(a.errors, b.errors, true),
            custom_errors: merged_map::<u32, TransactionErrorMetrics>(a.custom_errors, b.custom_errors, false),
            panics: merged_map::<Seq<char>, TransactionPanicMetrics>(a.panics, b.panics, false),
            invariant_fails: merged_map::<Seq<char>, TransactionInvariantMetrics>(a.invariant_fails, b.invariant_fails, false),
        }
    }

    fn absorb(&mut self, other: Self, keep_logs: bool) {
        self.invoked = self.invoked + other.invoked;
        self.transactions_successful = self.transactions_successful + other.transactions_successful;
        self.transactions_failed = self.transactions_failed + other.transactions_failed;
        self.transactions_failed_invariant = self.transactions_failed_invariant
            + other.transactions_failed_invariant;
        self.transactions_panicked = self.transactions_panicked + other.transactions_panicked;
        merge_into(&mut self.transactions_errors, other.transactions_errors, true);
        merge_into(&mut self.transactions_panics, other.transactions_panics, false);
        merge_into(&mut self.transactions_invariant_fails, other.transactions_invariant_fails, false);
        merge_into(&mut self.custom_instruction_errors, other.custom_instruction_errors, false);
    }
}

/// `s` with one more failed transaction, caused by `error`.
pub open spec fn with_failure(s: IterationStatsView, error: Seq<char>, logs: Option<Seq<Seq<char>>>) -> IterationStatsView {
    IterationStatsView {
        failed: (s.failed + 1) as u64,
        errors: s.errors.insert(
            error,
            if s.errors.contains_key(error) {
                ErrorMetricsView { occurrences: (s.errors[error].occurrences + 1) as u64, logs: s.errors[error].logs }
            } else {
                ErrorMetricsView { occurrences: 1, logs }
            },
        ),
        ..s
    }
}

/// `s` with one more failed transaction, caused by a program's custom error.
pub open spec fn with_custom_error(s: IterationStatsView, code: u32, logs: Option<Seq<Seq<char>>>) -> IterationStatsView {
    IterationStatsView {
        failed: (s.failed + 1) as u64,
        custom_errors: s.custom_errors.insert(
            code,
            if s.custom_errors.contains_key(code) {
                ErrorMetricsView {
                    occurrences: (s.custom_errors[code].occurrences + 1) as u64,
                    logs: s.custom_errors[code].logs,
                }
            } else {
                ErrorMetricsView { occurrences: 1, logs }
            },
        ),
        ..s
    }
}

/// `s` with one more invariant failure `error`, seen under `seed`.
pub open spec fn with_invariant_failure(s: IterationStatsView, seed: Seq<char>, error: Seq<char>) -> IterationStatsView {
    IterationStatsView {
        failed_invariant: (s.failed_invariant + 1) as u64,
        invariant_fails: s.invariant_fails.insert(
            error,
            if s.invariant_fails.contains_key(error) {
                InvariantMetricsView { occurrences: (s.invariant_fails[error].occurrences + 1) as u64, seed }
            } else {
                InvariantMetricsView { occurrences: 1, seed }
            },
        ),
        ..s
    }
}

/// `s` with one more panic `panic`, seen under `seed`.
pub open spec fn with_panic(s: IterationStatsView, seed: Seq<char>, panic: Seq<char>, logs: Option<Seq<Seq<char>>>) -> IterationStatsView {
    IterationStatsView {
        panicked: (s.panicked + 1) as u64,
        panics: s.panics.insert(
            panic,
            if s.panics.contains_key(panic) {
                PanicMetricsView {
                    occurrences: (s.panics[panic].occurrences + 1) as u64,
                    seed,
                    logs: s.panics[panic].logs,
                }
            } else {
                PanicMetricsView { occurrences: 1, seed, logs }
            },
        ),
        ..s
    }
}

/// The statistics after one more invocation of the instruction: its count
/// goes up by one, or it starts with one invocation and nothing else.
pub open spec fn invoked_recorded(m: Map<Seq<char>, IterationStatsView>, name: Seq<char>) -> Map<Seq<char>, IterationStatsView> {
    m.insert(
        name,
        if m.contains_key(name) {
            IterationStatsView { invoked: (m[name].invoked + 1) as u64, ..m[name] }
        } else {
            first_invocation()
        },
    )
}

/// The statistics with the instruction's entry changed by `f`; an
/// instruction not recorded yet stays unrecorded.
pub open spec fn recorded_for(
    m: Map<Seq<char>, IterationStatsView>,
    name: Seq<char>,
    f: spec_fn(IterationStatsView) -> IterationStatsView,
) -> Map<Seq<char>, IterationStatsView> {
    if m.contains_key(name) {
        m.insert(name, f(m[name]))
    } else {
        m
    }
}

/// The statistics after one more successful transaction of the instruction.
pub open spec fn success_recorded(m: Map<Seq<char>, IterationStatsView>, name: Seq<char>) -> Map<Seq<char>, IterationStatsView> {
    recorded_for(m, name, |st: IterationStatsView| IterationStatsView { successful: (st.successful + 1) as u64, ..st })
}

/// Recording an outcome for an instruction not recorded yet changes
/// nothing; for one recorded, only its entry changes.
pub open spec fn only_entry_changed(
    m: Map<Seq<char>, IterationStatsView>,
    r: Map<Seq<char>, IterationStatsView>,
    name: Seq<char>,
) -> bool {
    &&& r.dom() == m.dom()
    &&& forall|n: Seq<char>| #[trigger] m.contains_key(n) && n != name ==> r[n] == m[n]
    &&& !m.contains_key(name) ==> r == m
}

/// A successful transaction counts one more success for its instruction
/// and changes no other counter.
pub proof fn law_success_counts_up(m: Map<Seq<char>, IterationStatsView>, name: Seq<char>)
    requires
        m.contains_key(name) ==> m[name].successful < u64::MAX,
    ensures
        only_entry_changed(m, success_recorded(m, name), name),
        m.contains_key(name) ==> {
            let (a, b) = (m[name], success_recorded(m, name)[name]);
            &&& b.successful == a.successful + 1
            &&& b.invoked == a.invoked && b.failed == a.failed && b.failed_invariant == a.failed_invariant
            &&& b.panicked == a.panicked && b.errors == a.errors && b.custom_errors == a.custom_errors
            &&& b.panics == a.panics && b.invariant_fails == a.invariant_fails
        },
{
    let r = success_recorded(m, name);
    if !m.contains_key(name) {
        assert(r =~= m);
    }
    assert(r.dom() =~= m.dom());
}

/// A failed transaction counts one more failure for its instruction, and
/// one more occurrence of its error; the first occurrence of an error keeps
/// its logs, a later one keeps the logs already held. Nothing else changes.
pub proof fn law_failure_counts_up(
    m: Map<Seq<char>, IterationStatsView>,
    name: Seq<char>,
    error: Seq<char>,
    logs: Option<Seq<Seq<char>>>,
)
    requires
        m.contains_key(name) ==> m[name].failed < u64::MAX,
        m.contains_key(name) && m[name].errors.contains_key(error) ==> m[name].errors[error].occurrences < u64::MAX,
    ensures
        ({
            let r = recorded_for(m, name, |st: IterationStatsView| with_failure(st, error, logs));
            &&& only_entry_changed(m, r, name)
            &&& m.contains_key(name) ==> {
                let (a, b) = (m[name], r[name]);
                &&& b.failed == a.failed + 1
                &&& b.errors.contains_key(error)
                &&& b.errors[error].occurrences == if a.errors.contains_key(error) { a.errors[error].occurrences + 1 } else { 1 }
                &&& b.errors[error].logs == if a.errors.contains_key(error) { a.errors[error].logs } else { logs }
                &&& b.errors.dom() == a.errors.dom().insert(error)
                &&& forall|e: Seq<char>| #[trigger] a.errors.contains_key(e) && e != error ==> b.errors[e] == a.errors[e]
                &&& b.invoked == a.invoked && b.successful == a.successful && b.failed_invariant == a.failed_invariant
                &&& b.panicked == a.panicked && b.custom_errors == a.custom_errors
                &&& b.panics == a.panics && b.invariant_fails == a.invariant_fails
            }
        }),
{
    let r = recorded_for(m, name, |st: IterationStatsView| with_failure(st, error, logs));
    if !m.contains_key(name) {
        assert(r =~= m);
    } else {
        assert(r[name].errors.dom() =~= m[name].errors.dom().insert(error));
    }
    assert(r.dom() =~= m.dom());
}

/// A transaction failed by a program's custom error counts one more
/// failure for its instruction, and one more occurrence of the code; the
/// first occurrence of a code keeps its logs, a later one keeps the logs
/// already held. Nothing else changes.
pub proof fn law_custom_error_counts_up(
    m: Map<Seq<char>, IterationStatsView>,
    name: Seq<char>,
    code: u32,
    logs: Option<Seq<Seq<char>>>,
)
    requires
        m.contains_key(name) ==> m[name].failed < u64::MAX,
        m.contains_key(name) && m[name].custom_errors.contains_key(code) ==> m[name].custom_errors[code].occurrences < u64::MAX,
    ensures
        ({
            let r = recorded_for(m, name, |st: IterationStatsView| with_custom_error(st, code, logs));
            &&& only_entry_changed(m, r, name)
            &&& m.contains_key(name) ==> {
                let (a, b) = (m[name], r[name]);
                &&& b.failed == a.failed + 1
                &&& b.custom_errors.contains_key(code)
                &&& b.custom_errors[code].occurrences == if a.custom_errors.contains_key(code) {
                    a.custom_errors[code].occurrences + 1
                } else {
                    1
                }
                &&& b.custom_errors[code].logs == if a.custom_errors.contains_key(code) { a.custom_errors[code].logs } else { logs }
                &&& b.custom_errors.dom() == a.custom_errors.dom().insert(code)
                &&& forall|c: u32| #[trigger] a.custom_errors.contains_key(c) && c != code ==> b.custom_errors[c] == a.custom_errors[c]
                &&& b.invoked == a.invoked && b.successful == a.successful && b.failed_invariant == a.failed_invariant
                &&& b.panicked == a.panicked && b.errors == a.errors
                &&& b.panics == a.panics && b.invariant_fails == a.invariant_fails
            }
        }),
{
    let r = recorded_for(m, name, |st: IterationStatsView| with_custom_error(st, code, logs));
    if !m.contains_key(name) {
        assert(r =~= m);
    } else {
        assert(r[name].custom_errors.dom() =~= m[name].custom_errors.dom().insert(code));
    }
    assert(r.dom() =~= m.dom());
}

/// A failed invariant check counts one more invariant failure for its
/// instruction, and one more occurrence of the failure, which then holds
/// the seed it was seen under. Nothing else changes.
pub proof fn law_invariant_failure_counts_up(
    m: Map<Seq<char>, IterationStatsView>,
    name: Seq<char>,
    seed: Seq<char>,
    error: Seq<char>,
)
    requires
        m.contains_key(name) ==> m[name].failed_invariant < u64::MAX,
        m.contains_key(name) && m[name].invariant_fails.contains_key(error) ==> m[name].invariant_fails[error].occurrences < u64::MAX,
    ensures
        ({
            let r = recorded_for(m, name, |st: IterationStatsView| with_invariant_failure(st, seed, error));
            &&& only_entry_changed(m, r, name)
            &&& m.contains_key(name) ==> {
                let (a, b) = (m[name], r[name]);
                &&& b.failed_invariant == a.failed_invariant + 1
                &&& b.invariant_fails.contains_key(error)
                &&& b.invariant_fails[error].occurrences == if a.invariant_fails.contains_key(error) {
                    a.invariant_fails[error].occurrences + 1
                } else {
                    1
                }
                &&& b.invariant_fails[error].seed == seed
                &&& b.invariant_fails.dom() == a.invariant_fails.dom().insert(error)
                &&& forall|e: Seq<char>| #[trigger] a.invariant_fails.contains_key(e) && e != error ==> b.invariant_fails[e] == a.invariant_fails[e]
                &&& b.invoked == a.invoked && b.successful == a.successful && b.failed == a.failed
                &&& b.panicked == a.panicked && b.errors == a.errors
                &&& b.custom_errors == a.custom_errors && b.panics == a.panics
            }
        }),
{
    let r = recorded_for(m, name, |st: IterationStatsView| with_invariant_failure(st, seed, error));
    if !m.contains_key(name) {
        assert(r =~= m);
    } else {
        assert(r[name].invariant_fails.dom() =~= m[name].invariant_fails.dom().insert(error));
    }
    assert(r.dom() =~= m.dom());
}

/// A panicked transaction counts one more panic for its instruction, and
/// one more occurrence of the panic, which then holds the seed it was seen
/// under; the first occurrence keeps its logs, a later one keeps the logs
/// already held. Nothing else changes.
pub proof fn law_panic_counts_up(
    m: Map<Seq<char>, IterationStatsView>,
    name: Seq<char>,
    seed: Seq<char>,
    panic: Seq<char>,
    logs: Option<Seq<Seq<char>>>,
)
    requires
        m.contains_key(name) ==> m[name].panicked < u64::MAX,
        m.contains_key(name) && m[name].panics.contains_key(panic) ==> m[name].panics[panic].occurrences < u64::MAX,
    ensures
        ({
            let r = recorded_for(m, name, |st: IterationStatsView| with_panic(st, seed, panic, logs));
            &&& only_entry_changed(m, r, name)
            &&& m.contains_key(name) ==> {
                let (a, b) = (m[name], r[name]);
                &&& b.panicked == a.panicked + 1
                &&& b.panics.contains_key(panic)
                &&& b.panics[panic].occurrences == if a.panics.contains_key(panic) { a.panics[panic].occurrences + 1 } else { 1 }
                &&& b.panics[panic].seed == seed
                &&& b.panics[panic].logs == if a.panics.contains_key(panic) { a.panics[panic].logs } else { logs }
                &&& b.panics.dom() == a.panics.dom().insert(panic)
                &&& forall|e: Seq<char>| #[trigger] a.panics.contains_key(e) && e != panic ==> b.panics[e] == a.panics[e]
                &&& b.invoked == a.invoked && b.successful == a.successful && b.failed == a.failed
                &&& b.failed_invariant == a.failed_invariant && b.errors == a.errors
                &&& b.custom_errors == a.custom_errors && b.invariant_fails == a.invariant_fails
            }
        }),
{
    let r = recorded_for(m, name, |st: IterationStatsView| with_panic(st, seed, panic, logs));
    if !m.contains_key(name) {
        assert(r =~= m);
    } else {
        assert(r[name].panics.dom() =~= m[name].panics.dom().insert(panic));
    }
    assert(r.dom() =~= m.dom());
}

/// Each invocation counts one more for its instruction; the first starts
/// the count at one.
pub proof fn law_invocations_count_up(m: Map<Seq<char>, IterationStatsView>, name: Seq<char>)
    requires
        m.contains_key(name) ==> m[name].invoked < u64::MAX,
    ensures
        invoked_recorded(m, name).contains_key(name),
        invoked_recorded(m, name)[name].invoked == if m.contains_key(name) { m[name].invoked + 1 } else { 1 },
        forall|other: Seq<char>| other != name ==> #[trigger] invoked_recorded(m, name).contains_key(other) == m.contains_key(other),
        forall|other: Seq<char>| other != name && #[trigger] m.contains_key(other) ==> invoked_recorded(m, name)[other] == m[other],
        m.contains_key(name) ==> {
            let (a, b) = (m[name], invoked_recorded(m, name)[name]);
            &&& b.successful == a.successful && b.failed == a.failed && b.failed_invariant == a.failed_invariant
            &&& b.panicked == a.panicked && b.errors == a.errors && b.custom_errors == a.custom_errors
            &&& b.panics == a.panics && b.invariant_fails == a.invariant_fails
        },
        !m.contains_key(name) ==> {
            let b = invoked_recorded(m, name)[name];
            &&& b.successful == 0 && b.failed == 0 && b.failed_invariant == 0 && b.panicked == 0
            &&& b.errors.dom().is_empty() && b.custom_errors.dom().is_empty()
            &&& b.panics.dom().is_empty() && b.invariant_fails.dom().is_empty()
        },
{
}

/// Statistics of a whole fuzzing run, by instruction name.
pub struct FuzzingStatistics {
    pub instructions: KeyedMap<String, IterationStats>,
}

impl View for FuzzingStatistics {
    type V = Map<Seq<char>, IterationStatsView>;

    open spec fn view(&self) -> Map<Seq<char>, IterationStatsView> {
        self.instructions@
    }
}

impl FuzzingStatistics {
    /// Statistics with no instruction recorded.
    pub fn new() -> (r: Self)
        ensures
            r@ == Map::<Seq<char>, IterationStatsView>::empty(),
    {
        FuzzingStatistics { instructions: KeyedMap::new() }
    }

    /// Counts one more invocation of the instruction; an instruction seen
    /// for the first time starts with one invocation and nothing else.
    pub fn increase_invoked(&mut self, instruction: &str)
        requires
            old(self)@.contains_key(instruction@) ==> old(self)@[instruction@].invoked < u64::MAX,
        ensures
            final(self)@ == invoked_recorded(old(self)@, instruction@),
    {
        let key = instruction.to_owned();
        match self.instructions.take(&key) {
            Some((i, k, mut stats)) => {
                stats.invoked = stats.invoked + 1;
                self.instructions.put_back(i, k, stats);
            },
            None => {
                let stats = IterationStats {
                    invoked: 1,
                    transactions_successful: 0,
                    transactions_failed: 0,
                    transactions_failed_invariant: 0,
                    transactions_panicked: 0,
                    transactions_errors: KeyedMap::new(),
                    custom_instruction_errors: KeyedMap::new(),
                    transactions_panics: KeyedMap::new(),
                    transactions_invariant_fails: KeyedMap::new(),
                };
                self.instructions.insert_new(key, stats);
            },
        }
    }

    /// Counts one more successful transaction of an instruction already
    /// recorded; an unknown instruction is left unrecorded.
    pub fn increase_successful(&mut self, instruction: &str)
        requires
            old(self)@.contains_key(instruction@) ==> old(self)@[instruction@].successful < u64::MAX,
        ensures
            final(self)@ == success_recorded(old(self)@, instruction@),
    {
        let key = instruction.to_owned();
        match self.instructions.take(&key) {
            Some((i, k, mut stats)) => {
                stats.transactions_successful = stats.transactions_successful + 1;
                self.instructions.put_back(i, k, stats);
            },
            None => {},
        }
    }

    /// Counts one more failed transaction of an instruction already
    /// recorded, and one more occurrence of `error`; the logs of the first
    /// occurrence of an error are the ones kept.
    pub fn increase_failed(&mut self, instruction: &str, error: String, logs: Option<Vec<String>>)
        requires
            old(self)@.contains_key(instruction@) ==> {
                &&& old(self)@[instruction@].failed < u64::MAX
                &&& old(self)@[instruction@].errors.contains_key(error@)
                    ==> old(self)@[instruction@].errors[error@].occurrences < u64::MAX
            },
        ensures
            final(self)@ == recorded_for(old(self)@, instruction@, |st: IterationStatsView| with_failure(st, error@, logs_view(&logs))),
    {
        let key = instruction.to_owned();
        match self.instructions.take(&key) {
            Some((i, k, mut stats)) => {
                stats.transactions_failed = stats.transactions_failed + 1;
                match stats.transactions_errors.take(&error) {
                    Some((j, ek, mut metrics)) => {
                        metrics.occurrences = metrics.occurrences + 1;
                        stats.transactions_errors.put_back(j, ek, metrics);
                    },
                    None => {
                        stats.transactions_errors.insert_new(
                            error,
                            TransactionErrorMetrics { occurrences: 1, logs },
                        );
                    },
                }
                self.instructions.put_back(i, k, stats);
                proof {
                    let want = with_failure(old(self)@[instruction@], error@, logs_view(&logs));
                    assert(stats@.errors =~= want.errors);
                    assert(self@ =~= old(self)@.insert(instruction@, want));
                }
            },
            None => {},
        }
    }

    /// Counts one more failed transaction of an instruction already
    /// recorded, and one more occurrence of the program's custom error code.
    pub fn increase_custom_instruction_error(&mut self, instruction: &str, error_code: &u32, logs: Option<Vec<String>>)
        requires
            old(self)@.contains_key(instruction@) ==> {
                &&& old(self)@[instruction@].failed < u64::MAX
                &&& old(self)@[instruction@].custom_errors.contains_key(*error_code)
                    ==> old(self)@[instruction@].custom_errors[*error_code].occurrences < u64::MAX
            },
        ensures
            final(self)@ == recorded_for(old(self)@, instruction@, |st: IterationStatsView| with_custom_error(st, *error_code, logs_view(&logs))),
    {
        let key = instruction.to_owned();
        match self.instructions.take(&key) {
            Some((i, k, mut stats)) => {
                stats.transactions_failed = stats.transactions_failed + 1;
                match stats.custom_instruction_errors.take(error_code) {
                    Some((j, ek, mut metrics)) => {
                        metrics.occurrences = metrics.occurrences + 1;
                        stats.custom_instruction_errors.put_back(j, ek, metrics);
                    },
                    None => {
                        stats.custom_instruction_errors.insert_new(
                            *error_code,
                            TransactionErrorMetrics { occurrences: 1, logs },
                        );
                    },
                }
                self.instructions.put_back(i, k, stats);
                proof {
                    let want = with_custom_error(old(self)@[instruction@], *error_code, logs_view(&logs));
                    assert(stats@.custom_errors =~= want.custom_errors);
                    assert(self@ =~= old(self)@.insert(instruction@, want));
                }
            },
            None => {},
        }
    }

    /// Counts one more invariant failure of an instruction already recorded;
    /// the failure keeps the hexadecimal seed of its latest occurrence.
    pub fn increase_failed_invariant(&mut self, instruction: &str, seed: Seed, error: String)
        requires
            old(self)@.contains_key(instruction@) ==> {
                &&& old(self)@[instruction@].failed_invariant < u64::MAX
                &&& old(self)@[instruction@].invariant_fails.contains_key(error@)
                    ==> old(self)@[instruction@].invariant_fails[error@].occurrences < u64::MAX
            },
        ensures
            final(self)@ == recorded_for(old(self)@, instruction@, |st: IterationStatsView| with_invariant_failure(st, hex_text(seed@), error@)),
    {
        let key = instruction.to_owned();
        match self.instructions.take(&key) {
            Some((i, k, mut stats)) => {
                stats.transactions_failed_invariant = stats.transactions_failed_invariant + 1;
                let seed_text = hex_encode(&seed);
                match stats.transactions_invariant_fails.take(&error) {
                    Some((j, ek, mut metrics)) => {
                        metrics.seed = seed_text;
                        metrics.occurrences = metrics.occurrences + 1;
                        stats.transactions_invariant_fails.put_back(j, ek, metrics);
                    },
                    None => {
                        stats.transactions_invariant_fails.insert_new(
                            error,
                            TransactionInvariantMetrics { occurrences: 1, seed: seed_text },
                        );
                    },
                }
                self.instructions.put_back(i, k, stats);
                proof {
                    let want = with_invariant_failure(old(self)@[instruction@], hex_text(seed@), error@);
                    assert(stats@.invariant_fails =~= want.invariant_fails);
                    assert(self@ =~= old(self)@.insert(instruction@, want));
                }
            },
            None => {},
        }
    }

    /// Counts one more panic of an instruction already recorded; the panic
    /// keeps the hexadecimal seed of its latest occurrence and the logs of
    /// its first.
    pub fn increase_transaction_panicked(&mut self, instruction: &str, seed: Seed, panic: String, logs: Option<Vec<String>>)
        requires
            old(self)@.contains_key(instruction@) ==> {
                &&& old(self)@[instruction@].panicked < u64::MAX
                &&& old(self)@[instruction@].panics.contains_key(panic@)
                    ==> old(self)@[instruction@].panics[panic@].occurrences < u64::MAX
            },
        ensures
            final(self)@ == recorded_for(old(self)@, instruction@, |st: IterationStatsView| with_panic(st, hex_text(seed@), panic@, logs_view(&logs))),
    {
        let key = instruction.to_owned();
        match self.instructions.take(&key) {
            Some((i, k, mut stats)) => {
                stats.transactions_panicked = stats.transactions_panicked + 1;
                let seed_text = hex_encode(&seed);
                match stats.transactions_panics.take(&panic) {
                    Some((j, ek, mut metrics)) => {
                        metrics.seed = seed_text;
                        metrics.occurrences = metrics.occurrences + 1;
                        stats.transactions_panics.put_back(j, ek, metrics);
                    },
                    None => {
                        stats.transactions_panics.insert_new(
                            panic,
                            TransactionPanicMetrics { occurrences: 1, seed: seed_text, logs },
                        );
                    },
                }
                self.instructions.put_back(i, k, stats);
                proof {
                    let want = with_panic(old(self)@[instruction@], hex_text(seed@), panic@, logs_view(&logs));
                    assert(stats@.panics =~= want.panics);
                    assert(self@ =~= old(self)@.insert(instruction@, want));
                }
            },
            None => {},
        }
    }

    /// Adds the statistics of another run to these: counters of an
    /// instruction recorded in both are added, and so are the occurrences
    /// of each error, panic and invariant failure; the other run's seeds
    /// win, and its logs win for panics and custom errors while the logs
    /// already held are kept for other errors.
    pub fn merge_from(&mut self, other: FuzzingStatistics)
        requires
            maps_fit::<Seq<char>, IterationStats>(old(self)@, other@),
        ensures
            final(self)@ == merged_map::<Seq<char>, IterationStats>(old(self)@, other@, true),
    {
        merge_into(&mut self.instructions, other.instructions, true);
    }
}

impl Default for FuzzingStatistics {
    fn default() -> (r: Self)
        ensures
            r@ == Map::<Seq<char>, IterationStatsView>::empty(),
    {
        Self::new()
    }
}

} // verus!

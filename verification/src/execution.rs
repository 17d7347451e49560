//! What the fuzzer records after running one transaction, and what it does
//! next: check invariants after a success, hand a failure to the test's
//! error handler, give up on a transaction the runtime did not execute.
use crate::fuzz_stats::{
    hex_text, law_custom_error_counts_up, law_failure_counts_up, law_panic_counts_up, law_success_counts_up, logs_view,
    recorded_for, success_recorded, with_custom_error, with_failure, with_invariant_failure,
    with_panic, FuzzingStatistics, IterationStatsView, Seed,
};
use vstd::prelude::*;

verus! {

/// How the runtime answered a transaction.
#[derive(Debug)]
pub enum TransactionResult {
    /// Executed, and every instruction succeeded.
    Succeeded,
    /// Executed; an instruction's program did not complete (it panicked).
    ProgramFailedToComplete { error: String, logs: Option<Vec<String>> },
    /// Executed; an instruction failed with the program's custom error code.
    CustomInstructionError { code: u32, logs: Option<Vec<String>> },
    /// Executed; an instruction failed otherwise.
    InstructionFailed { error: String, logs: Option<Vec<String>> },
    /// Executed; the transaction failed outside its instructions.
    TransactionFailed { error: String, logs: Option<Vec<String>> },
    /// Not executed at all.
    NotExecuted,
}

/// What the fuzzer does after recording a transaction's result.
#[derive(Clone, Copy, Debug, PartialEq, Eq, Structural)]
pub enum NextStep {
    /// Snapshot the accounts again and run the invariant checks.
    CheckInvariants,
    /// Hand the error to the test's error handler.
    HandleError,
    /// Stop with the runtime's error.
    ReturnNotExecuted,
}

/// The step that follows a result.
pub open spec fn next_step(result: TransactionResult) -> NextStep {
    match result {
        TransactionResult::Succeeded => NextStep::CheckInvariants,
        TransactionResult::NotExecuted => NextStep::ReturnNotExecuted,
        _ => NextStep::HandleError,
    }
}

/// The statistics after recording a result: a success, a panic (with the
/// seed), a custom error code, or any other failure under its message; a
/// transaction not executed is not recorded.
pub open spec fn result_recorded(
    m: Map<Seq<char>, IterationStatsView>,
    name: Seq<char>,
    result: TransactionResult,
    seed: Seq<char>,
) -> Map<Seq<char>, IterationStatsView> {
    match result {
        TransactionResult::Succeeded => success_recorded(m, name),
        TransactionResult::ProgramFailedToComplete { error, logs } => recorded_for(
            m,
            name,
            |st: IterationStatsView| with_panic(st, seed, error@, logs_view(&logs)),
        ),
        TransactionResult::CustomInstructionError { code, logs } => recorded_for(
            m,
            name,
            |st: IterationStatsView| with_custom_error(st, code, logs_view(&logs)),
        ),
        TransactionResult::InstructionFailed { error, logs } => recorded_for(
            m,
            name,
            |st: IterationStatsView| with_failure(st, error@, logs_view(&logs)),
        ),
        TransactionResult::TransactionFailed { error, logs } => recorded_for(
            m,
            name,
            |st: IterationStatsView| with_failure(st, error@, logs_view(&logs)),
        ),
        TransactionResult::NotExecuted => m,
    }
}

/// When recording the result overflows no counter.
pub open spec fn result_fits(m: Map<Seq<char>, IterationStatsView>, name: Seq<char>, result: TransactionResult) -> bool {
    m.contains_key(name) ==> {
        let st = m[name];
        match result {
            TransactionResult::Succeeded => st.successful < u64::MAX,
            TransactionResult::ProgramFailedToComplete { error, .. } => st.panicked < u64::MAX && (st.panics.contains_key(error@)
                ==> st.panics[error@].occurrences < u64::MAX),
            TransactionResult::CustomInstructionError { code, .. } => st.failed < u64::MAX && (st.custom_errors.contains_key(code)
                ==> st.custom_errors[code].occurrences < u64::MAX),
            TransactionResult::InstructionFailed { error, .. } => st.failed < u64::MAX && (st.errors.contains_key(error@)
                ==> st.errors[error@].occurrences < u64::MAX),
            TransactionResult::TransactionFailed { error, .. } => st.failed < u64::MAX && (st.errors.contains_key(error@)
                ==> st.errors[error@].occurrences < u64::MAX),
            TransactionResult::NotExecuted => true,
        }
    }
}

/// Recording a result counts it where it belongs: a success as a success;
/// a panic as a panic, under its message and seed; a custom error code as
/// a failure under the code; any other failure as a failure under its
/// message; a transaction not executed not at all. A success goes on to
/// the invariant checks, a transaction not executed stops the run, any
/// failure goes to the error handler.
pub proof fn law_result_recorded(
    m: Map<Seq<char>, IterationStatsView>,
    name: Seq<char>,
    result: TransactionResult,
    seed: Seq<char>,
)
    requires
        m.contains_key(name),
        result_fits(m, name, result),
    ensures
        ({
            let r = result_recorded(m, name, result, seed);
            let (a, b) = (m[name], r[name]);
            &&& r.dom() == m.dom()
            &&& forall|n: Seq<char>| #[trigger] m.contains_key(n) && n != name ==> r[n] == m[n]
            &&& match result {
                TransactionResult::Succeeded => b.successful == a.successful + 1 && b.failed == a.failed
                    && b.panicked == a.panicked && next_step(result) == NextStep::CheckInvariants,
                TransactionResult::ProgramFailedToComplete { error, .. } => b.panicked == a.panicked + 1
                    && b.failed == a.failed && b.successful == a.successful
                    && b.panics[error@].occurrences == (if a.panics.contains_key(error@) { a.panics[error@].occurrences + 1 } else { 1 })
                    && b.panics[error@].seed == seed && next_step(result) == NextStep::HandleError,
                TransactionResult::CustomInstructionError { code, .. } => b.failed == a.failed + 1
                    && b.panicked == a.panicked && b.successful == a.successful && b.errors == a.errors
                    && b.custom_errors[code].occurrences == (if a.custom_errors.contains_key(code) {
                        a.custom_errors[code].occurrences + 1
                    } else {
                        1
                    }) && next_step(result) == NextStep::HandleError,
                TransactionResult::InstructionFailed { error, .. } => b.failed == a.failed + 1
                    && b.panicked == a.panicked && b.successful == a.successful && b.custom_errors == a.custom_errors
                    && b.errors[error@].occurrences == (if a.errors.contains_key(error@) { a.errors[error@].occurrences + 1 } else { 1 })
                    && next_step(result) == NextStep::HandleError,
                TransactionResult::TransactionFailed { error, .. } => b.failed == a.failed + 1
                    && b.panicked == a.panicked && b.successful == a.successful && b.custom_errors == a.custom_errors
                    && b.errors[error@].occurrences == (if a.errors.contains_key(error@) { a.errors[error@].occurrences + 1 } else { 1 })
                    && next_step(result) == NextStep::HandleError,
                TransactionResult::NotExecuted => r == m && next_step(result) == NextStep::ReturnNotExecuted,
            }
        }),
{
    match result {
        TransactionResult::Succeeded => law_success_counts_up(m, name),
        TransactionResult::ProgramFailedToComplete { error, logs } => law_panic_counts_up(m, name, seed, error@, logs_view(&logs)),
        TransactionResult::CustomInstructionError { code, logs } => law_custom_error_counts_up(m, name, code, logs_view(&logs)),
        TransactionResult::InstructionFailed { error, logs } => law_failure_counts_up(m, name, error@, logs_view(&logs)),
        TransactionResult::TransactionFailed { error, logs } => law_failure_counts_up(m, name, error@, logs_view(&logs)),
        TransactionResult::NotExecuted => {},
    }
}

/// Records the runtime's answer to a transaction when metrics are on, and
/// says what to do next.
pub fn record_transaction_result(
    stats: &mut FuzzingStatistics,
    fuzzing_metrics: bool,
    transaction_name: &str,
    result: TransactionResult,
    seed: Seed,
) -> (r: NextStep)
    requires
        fuzzing_metrics ==> result_fits(old(stats)@, transaction_name@, result),
    ensures
        r == next_step(result),
        final(stats)@ == if fuzzing_metrics {
            result_recorded(old(stats)@, transaction_name@, result, hex_text(seed@))
        } else {
            old(stats)@
        },
{
    match result {
        TransactionResult::Succeeded => {
            if fuzzing_metrics {
                stats.increase_successful(transaction_name);
            }
            NextStep::CheckInvariants
        },
        TransactionResult::ProgramFailedToComplete { error, logs } => {
            if fuzzing_metrics {
                stats.increase_transaction_panicked(transaction_name, seed, error, logs);
            }
            NextStep::HandleError
        },
        TransactionResult::CustomInstructionError { code, logs } => {
            if fuzzing_metrics {
                stats.increase_custom_instruction_error(transaction_name, &code, logs);
            }
            NextStep::HandleError
        },
        TransactionResult::InstructionFailed { error, logs } => {
            if fuzzing_metrics {
                stats.increase_failed(transaction_name, error, logs);
            }
            NextStep::HandleError
        },
        TransactionResult::TransactionFailed { error, logs } => {
            if fuzzing_metrics {
                stats.increase_failed(transaction_name, error, logs);
            }
            NextStep::HandleError
        },
        TransactionResult::NotExecuted => NextStep::ReturnNotExecuted,
    }
}

/// Records a failed invariant check when metrics are on; returns whether
/// the check passed.
pub fn record_invariant_check(
    stats: &mut FuzzingStatistics,
    fuzzing_metrics: bool,
    transaction_name: &str,
    seed: Seed,
    check: Result<(), String>,
) -> (r: bool)
    requires
        fuzzing_metrics && old(stats)@.contains_key(transaction_name@) ==> (check matches Err(e) ==> {
            &&& old(stats)@[transaction_name@].failed_invariant < u64::MAX
            &&& old(stats)@[transaction_name@].invariant_fails.contains_key(e@)
                ==> old(stats)@[transaction_name@].invariant_fails[e@].occurrences < u64::MAX
        }),
    ensures
        r == check is Ok,
        final(stats)@ == match check {
            Err(e) => if fuzzing_metrics {
                recorded_for(
                    old(stats)@,
                    transaction_name@,
                    |st: IterationStatsView| with_invariant_failure(st, hex_text(seed@), e@),
                )
            } else {
                old(stats)@
            },
            Ok(()) => old(stats)@,
        },
{
    match check {
        Ok(()) => true,
        Err(e) => {
            if fuzzing_metrics {
                stats.increase_failed_invariant(transaction_name, seed, e);
            }
            false
        },
    }
}

/// The three ways a fuzz test runs one transaction: with every hook and
/// the invariant checks, with the hooks of a transaction's own `execute`,
/// or without the pre-transaction hook and the invariant checks.
#[derive(Clone, Copy, Debug, PartialEq, Eq, Structural)]
pub enum Runner {
    WithHooks,
    Execute,
    NoHooks,
}

/// One step a runner takes before the runtime answers.
#[derive(Clone, Copy, Debug, PartialEq, Eq, Structural)]
pub enum Step {
    /// Build the transaction's instructions.
    CreateTransaction,
    /// Snapshot the transaction's accounts.
    SnapshotBefore,
    /// Run the pre-transaction hook.
    PreTransaction,
    /// Count the invocation when metrics are on.
    CountInvoked,
    /// Hand the instructions to the runtime.
    Process,
}

/// The steps before the runtime answers, in order: all runners build the
/// instructions first and count the invocation just before processing;
/// the full runner snapshots before the pre-transaction hook, a
/// transaction's `execute` runs the hook first, and the runner without
/// hooks only snapshots.
pub open spec fn steps_before(runner: Runner) -> Seq<Step> {
    match runner {
        Runner::WithHooks => seq![Step::CreateTransaction, Step::SnapshotBefore, Step::PreTransaction, Step::CountInvoked, Step::Process],
        Runner::Execute => seq![Step::CreateTransaction, Step::PreTransaction, Step::SnapshotBefore, Step::CountInvoked, Step::Process],
        Runner::NoHooks => seq![Step::CreateTransaction, Step::SnapshotBefore, Step::CountInvoked, Step::Process],
    }
}

/// Every runner builds the instructions first, snapshots the accounts
/// exactly once, and ends by counting the invocation and handing the
/// instructions to the runtime; the pre-transaction hook runs once,
/// except without hooks, where it does not run. The full runner
/// snapshots before the hook, a transaction's `execute` after it.
pub proof fn law_runner_steps(runner: Runner)
    ensures
        ({
            let s = steps_before(runner);
            let n = s.len();
            &&& n >= 4
            &&& s[0] == Step::CreateTransaction
            &&& s[n - 2] == Step::CountInvoked
            &&& s[n - 1] == Step::Process
            &&& s.filter(|x: Step| x == Step::SnapshotBefore).len() == 1
            &&& s.filter(|x: Step| x == Step::PreTransaction).len() == (if runner == Runner::NoHooks { 0nat } else { 1nat })
            &&& runner == Runner::WithHooks ==> s[1] == Step::SnapshotBefore && s[2] == Step::PreTransaction
            &&& runner == Runner::Execute ==> s[1] == Step::PreTransaction && s[2] == Step::SnapshotBefore
        }),
{
    let s = steps_before(runner);
    reveal_with_fuel(Seq::filter, 6);
    assert(s.filter(|x: Step| x == Step::SnapshotBefore).len() == 1);
    assert(s.filter(|x: Step| x == Step::PreTransaction).len() == (if runner == Runner::NoHooks { 0nat } else { 1nat }));
}

/// After the runtime answered: a transaction not executed always stops
/// the run; a success never goes to the error handler and a failure is
/// never checked; the runner without hooks never runs the invariant checks
/// nor the error handler.
pub proof fn law_after_result(runner: Runner, result: TransactionResult)
    ensures
        result is NotExecuted <==> after_result(runner, result) == AfterResult::ReturnNotExecuted,
        result is Succeeded ==> after_result(runner, result) == (if runner == Runner::NoHooks {
            AfterResult::PostHookOnly
        } else {
            AfterResult::CheckInvariantsThenPostHook
        }),
        !(result is Succeeded) && !(result is NotExecuted) ==> after_result(runner, result) == (if runner == Runner::NoHooks {
            AfterResult::Finish
        } else {
            AfterResult::HandleError
        }),
{
}

/// The steps a runner takes before the runtime answers.
pub fn runner_steps(runner: Runner) -> (r: Vec<Step>)
    ensures
        r@ == steps_before(runner),
{
    let mut r: Vec<Step> = Vec::new();
    r.push(Step::CreateTransaction);
    match runner {
        Runner::WithHooks => {
            r.push(Step::SnapshotBefore);
            r.push(Step::PreTransaction);
        },
        Runner::Execute => {
            r.push(Step::PreTransaction);
            r.push(Step::SnapshotBefore);
        },
        Runner::NoHooks => {
            r.push(Step::SnapshotBefore);
        },
    }
    r.push(Step::CountInvoked);
    r.push(Step::Process);
    proof {
        assert(r@ =~= steps_before(runner));
    }
    r
}

/// What a runner does once the runtime answered and the result is
/// recorded.
#[derive(Clone, Copy, Debug, PartialEq, Eq, Structural)]
pub enum AfterResult {
    /// Snapshot the accounts, run the invariant checks, and on success run
    /// the post-transaction hook.
    CheckInvariantsThenPostHook,
    /// Snapshot the accounts and run the post-transaction hook.
    PostHookOnly,
    /// Hand the error to the transaction's error handler.
    HandleError,
    /// Finish without error.
    Finish,
    /// Stop with the runtime's error.
    ReturnNotExecuted,
}

/// The step after a result: a success is checked (but not by the runner
/// without hooks), a failure goes to the error handler (the runner without
/// hooks finishes instead), and a transaction not executed stops the run.
pub open spec fn after_result(runner: Runner, result: TransactionResult) -> AfterResult {
    match next_step(result) {
        NextStep::CheckInvariants => if runner == Runner::NoHooks {
            AfterResult::PostHookOnly
        } else {
            AfterResult::CheckInvariantsThenPostHook
        },
        NextStep::HandleError => if runner == Runner::NoHooks {
            AfterResult::Finish
        } else {
            AfterResult::HandleError
        },
        NextStep::ReturnNotExecuted => AfterResult::ReturnNotExecuted,
    }
}

/// Records the runtime's answer as `record_transaction_result` does, and
/// says what the runner does next. A runner that reads custom error codes
/// as plain failures (a transaction's `execute`, and the runner without
/// hooks) hands them in as `InstructionFailed` under their message.
pub fn record_run_result(
    stats: &mut FuzzingStatistics,
    fuzzing_metrics: bool,
    runner: Runner,
    transaction_name: &str,
    result: TransactionResult,
    seed: Seed,
) -> (r: AfterResult)
    requires
        fuzzing_metrics ==> result_fits(old(stats)@, transaction_name@, result),
    ensures
        r == after_result(runner, result),
        final(stats)@ == if fuzzing_metrics {
            result_recorded(old(stats)@, transaction_name@, result, hex_text(seed@))
        } else {
            old(stats)@
        },
{
    let step = record_transaction_result(stats, fuzzing_metrics, transaction_name, result, seed);
    let no_hooks = match runner {
        Runner::NoHooks => true,
        _ => false,
    };
    match step {
        NextStep::CheckInvariants => if no_hooks {
            AfterResult::PostHookOnly
        } else {
            AfterResult::CheckInvariantsThenPostHook
        },
        NextStep::HandleError => if no_hooks {
            AfterResult::Finish
        } else {
            AfterResult::HandleError
        },
        NextStep::ReturnNotExecuted => AfterResult::ReturnNotExecuted,
    }
}

} // verus!

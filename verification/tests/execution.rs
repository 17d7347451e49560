use trident_fuzz::execution::{
    record_invariant_check, record_run_result, record_transaction_result, runner_steps, AfterResult, NextStep, Runner, Step,
    TransactionResult,
};
use trident_fuzz::fuzz_stats::FuzzingStatistics;

fn stats() -> FuzzingStatistics {
    let mut s = FuzzingStatistics::new();
    s.increase_invoked("t");
    s
}

#[test]
fn success_goes_on_to_the_invariant_checks() {
    let mut s = stats();
    assert_eq!(record_transaction_result(&mut s, true, "t", TransactionResult::Succeeded, [0; 32]), NextStep::CheckInvariants);
    assert_eq!(s.instructions.get(&"t".to_string()).unwrap().transactions_successful, 1);
}

#[test]
fn failures_go_to_the_error_handler() {
    let mut s = stats();
    let step = record_transaction_result(
        &mut s,
        true,
        "t",
        TransactionResult::CustomInstructionError { code: 7, logs: None },
        [0; 32],
    );
    assert_eq!(step, NextStep::HandleError);
    let step = record_transaction_result(
        &mut s,
        true,
        "t",
        TransactionResult::ProgramFailedToComplete { error: "panic".to_string(), logs: None },
        [3; 32],
    );
    assert_eq!(step, NextStep::HandleError);
    let step = record_transaction_result(
        &mut s,
        true,
        "t",
        TransactionResult::TransactionFailed { error: "fee".to_string(), logs: None },
        [0; 32],
    );
    assert_eq!(step, NextStep::HandleError);
    let st = s.instructions.get(&"t".to_string()).unwrap();
    assert_eq!(st.transactions_failed, 2);
    assert_eq!(st.transactions_panicked, 1);
    assert!(st.custom_instruction_errors.get(&7).is_some());
    assert!(st.transactions_errors.get(&"fee".to_string()).is_some());
}

#[test]
fn nothing_is_recorded_without_metrics() {
    let mut s = stats();
    let step = record_transaction_result(
        &mut s,
        false,
        "t",
        TransactionResult::InstructionFailed { error: "x".to_string(), logs: None },
        [0; 32],
    );
    assert_eq!(step, NextStep::HandleError);
    assert_eq!(s.instructions.get(&"t".to_string()).unwrap().transactions_failed, 0);
    assert_eq!(record_transaction_result(&mut s, true, "t", TransactionResult::NotExecuted, [0; 32]), NextStep::ReturnNotExecuted);
}

#[test]
fn invariant_checks_are_recorded_when_they_fail() {
    let mut s = stats();
    assert!(record_invariant_check(&mut s, true, "t", [1; 32], Ok(())));
    assert!(!record_invariant_check(&mut s, true, "t", [1; 32], Err("balance".to_string())));
    let st = s.instructions.get(&"t".to_string()).unwrap();
    assert_eq!(st.transactions_failed_invariant, 1);
    assert_eq!(st.transactions_invariant_fails.get(&"balance".to_string()).unwrap().seed, "01".repeat(32));
}

#[test]
fn runners_take_their_steps_in_order() {
    assert_eq!(
        runner_steps(Runner::WithHooks),
        vec![Step::CreateTransaction, Step::SnapshotBefore, Step::PreTransaction, Step::CountInvoked, Step::Process]
    );
    assert_eq!(
        runner_steps(Runner::Execute),
        vec![Step::CreateTransaction, Step::PreTransaction, Step::SnapshotBefore, Step::CountInvoked, Step::Process]
    );
    assert_eq!(runner_steps(Runner::NoHooks), vec![Step::CreateTransaction, Step::SnapshotBefore, Step::CountInvoked, Step::Process]);
}

#[test]
fn runners_decide_what_follows_a_result() {
    let mut s = stats();
    assert_eq!(
        record_run_result(&mut s, true, Runner::NoHooks, "t", TransactionResult::Succeeded, [0; 32]),
        AfterResult::PostHookOnly
    );
    assert_eq!(
        record_run_result(&mut s, true, Runner::WithHooks, "t", TransactionResult::Succeeded, [0; 32]),
        AfterResult::CheckInvariantsThenPostHook
    );
    let failed = || TransactionResult::InstructionFailed { error: "custom program error: 0x7".to_string(), logs: None };
    assert_eq!(record_run_result(&mut s, true, Runner::Execute, "t", failed(), [0; 32]), AfterResult::HandleError);
    assert_eq!(record_run_result(&mut s, true, Runner::NoHooks, "t", failed(), [0; 32]), AfterResult::Finish);
    assert_eq!(
        record_run_result(&mut s, true, Runner::NoHooks, "t", TransactionResult::NotExecuted, [0; 32]),
        AfterResult::ReturnNotExecuted
    );
    let st = s.instructions.get(&"t".to_string()).unwrap();
    assert_eq!(st.transactions_successful, 2);
    assert_eq!(st.transactions_failed, 2);
    assert_eq!(st.transactions_errors.get(&"custom program error: 0x7".to_string()).unwrap().occurrences, 2);
}

use trident_fuzz::fuzz_stats::FuzzingStatistics;

fn stats_of<'a>(s: &'a FuzzingStatistics, name: &str) -> &'a trident_fuzz::fuzz_stats::IterationStats {
    s.instructions.get(&name.to_string()).unwrap()
}

#[test]
fn counters_follow_the_recorded_outcomes() {
    let mut s = FuzzingStatistics::new();
    s.increase_successful("ix");
    assert!(s.instructions.get(&"ix".to_string()).is_none());
    s.increase_invoked("ix");
    s.increase_invoked("ix");
    s.increase_successful("ix");
    s.increase_failed("ix", "boom".to_string(), Some(vec!["log1".to_string()]));
    s.increase_failed("ix", "boom".to_string(), Some(vec!["log2".to_string()]));
    s.increase_custom_instruction_error("ix", &6001, None);
    let st = stats_of(&s, "ix");
    assert_eq!(st.invoked, 2);
    assert_eq!(st.transactions_successful, 1);
    assert_eq!(st.transactions_failed, 3);
    let e = st.transactions_errors.get(&"boom".to_string()).unwrap();
    assert_eq!(e.occurrences, 2);
    assert_eq!(e.logs, Some(vec!["log1".to_string()]));
    assert_eq!(st.custom_instruction_errors.get(&6001).unwrap().occurrences, 1);
}

#[test]
fn panics_and_invariant_failures_keep_the_latest_seed() {
    let mut s = FuzzingStatistics::new();
    s.increase_invoked("ix");
    s.increase_transaction_panicked("ix", [1u8; 32], "p".to_string(), None);
    s.increase_transaction_panicked("ix", [2u8; 32], "p".to_string(), None);
    s.increase_failed_invariant("ix", [0xabu8; 32], "inv".to_string());
    let st = stats_of(&s, "ix");
    assert_eq!(st.transactions_panicked, 2);
    let p = st.transactions_panics.get(&"p".to_string()).unwrap();
    assert_eq!(p.occurrences, 2);
    assert_eq!(p.seed, "02".repeat(32));
    let i = st.transactions_invariant_fails.get(&"inv".to_string()).unwrap();
    assert_eq!(i.seed, "ab".repeat(32));
    assert_eq!(st.transactions_failed_invariant, 1);
}

#[test]
fn merging_adds_counts() {
    let mut a = FuzzingStatistics::new();
    a.increase_invoked("x");
    a.increase_failed("x", "e".to_string(), Some(vec!["a".to_string()]));
    let mut b = FuzzingStatistics::new();
    b.increase_invoked("x");
    b.increase_invoked("x");
    b.increase_failed("x", "e".to_string(), Some(vec!["b".to_string()]));
    b.increase_invoked("y");
    a.merge_from(b);
    let x = stats_of(&a, "x");
    assert_eq!(x.invoked, 3);
    assert_eq!(x.transactions_failed, 2);
    let e = x.transactions_errors.get(&"e".to_string()).unwrap();
    assert_eq!(e.occurrences, 2);
    assert_eq!(e.logs, Some(vec!["a".to_string()]));
    assert_eq!(stats_of(&a, "y").invoked, 1);
}

#[test]
fn merging_nothing_changes_nothing() {
    let mut a = FuzzingStatistics::new();
    a.increase_invoked("x");
    a.merge_from(FuzzingStatistics::new());
    assert_eq!(stats_of(&a, "x").invoked, 1);
}

#[test]
fn seeds_are_kept_as_lowercase_hex() {
    let mut s = FuzzingStatistics::new();
    s.increase_invoked("ix");
    let mut seed = [0u8; 32];
    seed[0] = 0x0f;
    seed[1] = 0xa5;
    seed[31] = 0xff;
    s.increase_failed_invariant("ix", seed, "e".to_string());
    let st = stats_of(&s, "ix");
    let text = &st.transactions_invariant_fails.get(&"e".to_string()).unwrap().seed;
    assert_eq!(text.len(), 64);
    assert!(text.starts_with("0fa500"));
    assert!(text.ends_with("00ff"));
}

fn run(panic_seed: u8, invoked: usize) -> FuzzingStatistics {
    let mut s = FuzzingStatistics::new();
    for _ in 0..invoked {
        s.increase_invoked("x");
    }
    s.increase_successful("x");
    s.increase_failed("x", "e".to_string(), None);
    s.increase_custom_instruction_error("x", &7, None);
    s.increase_transaction_panicked("x", [panic_seed; 32], "p".to_string(), None);
    s.increase_failed_invariant("x", [panic_seed; 32], "inv".to_string());
    s.increase_invoked(if panic_seed == 2 { "y" } else { "z" });
    s
}

#[test]
fn merge_order_keeps_the_counters() {
    let mut first = run(1, 1);
    first.merge_from(run(2, 2));
    first.merge_from(run(3, 3));
    let mut second = run(1, 1);
    second.merge_from(run(3, 3));
    second.merge_from(run(2, 2));
    for name in ["x", "y", "z"] {
        let a = stats_of(&first, name);
        let b = stats_of(&second, name);
        assert_eq!(a.invoked, b.invoked);
        assert_eq!(a.transactions_successful, b.transactions_successful);
        assert_eq!(a.transactions_failed, b.transactions_failed);
        assert_eq!(a.transactions_failed_invariant, b.transactions_failed_invariant);
        assert_eq!(a.transactions_panicked, b.transactions_panicked);
    }
    let a = stats_of(&first, "x");
    let b = stats_of(&second, "x");
    assert_eq!(a.invoked, 6);
    assert_eq!(a.transactions_errors.get(&"e".to_string()).unwrap().occurrences, 3);
    assert_eq!(b.transactions_errors.get(&"e".to_string()).unwrap().occurrences, 3);
    assert_eq!(a.custom_instruction_errors.get(&7).unwrap().occurrences, 3);
    assert_eq!(b.custom_instruction_errors.get(&7).unwrap().occurrences, 3);
    assert_eq!(a.transactions_panics.get(&"p".to_string()).unwrap().occurrences, 3);
    assert_eq!(b.transactions_panics.get(&"p".to_string()).unwrap().occurrences, 3);
    assert_eq!(a.transactions_panics.get(&"p".to_string()).unwrap().seed, "03".repeat(32));
    assert_eq!(b.transactions_panics.get(&"p".to_string()).unwrap().seed, "02".repeat(32));
    assert_eq!(a.transactions_invariant_fails.get(&"inv".to_string()).unwrap().occurrences, 3);
}

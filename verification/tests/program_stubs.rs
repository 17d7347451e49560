use trident_fuzz::keyed_map::KeyedMap;
use trident_fuzz::light::account::{AccountMeta, Instruction};
use trident_fuzz::light::program_stubs::{InvokeOutcome, SystemInstruction, TestSyscallStubs};
use trident_fuzz::light::system_instructions::{AccountRef, AccountState, AccountStore, ProgramError};
use trident_fuzz::pubkey::Pubkey;

fn key(b: u8) -> Pubkey {
    Pubkey::new_from_array([b; 32])
}

fn state(lamports: u64) -> AccountState {
    AccountState { lamports, data: vec![], owner: Pubkey::default(), executable: false, rent_epoch: 0, original_data_len: 0 }
}

fn meta(k: Pubkey) -> AccountMeta {
    AccountMeta { pubkey: k, is_signer: false, is_writable: true }
}

fn r(k: Pubkey, is_signer: bool) -> AccountRef {
    AccountRef { key: k, is_signer, is_writable: true }
}

fn store_of(entries: Vec<(Pubkey, AccountState)>) -> AccountStore {
    let mut s = KeyedMap::new();
    for (k, v) in entries {
        s.insert(k, v);
    }
    s
}

#[test]
fn return_data_is_tagged_with_the_innermost_caller() {
    let mut stubs = TestSyscallStubs::new(key(1));
    assert_eq!(stubs.sol_get_stack_height(), 1);
    stubs.sol_set_return_data(&[4, 5, 6]);
    assert_eq!(stubs.sol_get_return_data(), Some((key(1), vec![4, 5, 6])));
    stubs.clean_caller();
    assert_eq!(stubs.sol_get_stack_height(), 0);
    stubs.clean_caller();
    assert_eq!(stubs.sol_get_stack_height(), 0);
}

#[test]
fn accounts_handed_on_follow_the_instruction_and_gain_signers() {
    let stubs = TestSyscallStubs::new(key(1));
    let infos = vec![r(key(10), false), r(key(11), false), r(key(10), true)];
    let ix = Instruction { program_id: key(2), accounts: vec![meta(key(11)), meta(key(12)), meta(key(10))], data: vec![] };
    let new = stubs.update_account_infos(&infos, &[key(11)], &ix);
    assert_eq!(new.len(), 2);
    assert_eq!(new[0].key, key(11));
    assert!(new[0].is_signer);
    assert_eq!(new[1].key, key(10));
    assert!(!new[1].is_signer);
}

#[test]
fn early_refusal_leaves_the_caller_pushed() {
    let mut stubs = TestSyscallStubs::new(key(1));
    let mut store = store_of(vec![(key(10), state(10))]);
    let infos = vec![r(key(10), true)];
    let res = stubs.process_system_instruction(&mut store, SystemInstruction::Transfer { lamports: 1 }, &infos, &infos);
    assert_eq!(res, Err(ProgramError::NotEnoughAccountKeys));
    assert_eq!(stubs.sol_get_stack_height(), 1);
}

#[test]
fn completed_system_call_pops_the_caller() {
    let mut stubs = TestSyscallStubs::new(key(1));
    let mut store = store_of(vec![(key(10), state(10)), (key(11), state(0))]);
    let infos = vec![r(key(10), true), r(key(11), false)];
    let res = stubs.process_system_instruction(&mut store, SystemInstruction::Transfer { lamports: 20 }, &infos, &infos);
    assert_eq!(res, Err(ProgramError::InsufficientFunds));
    assert_eq!(stubs.sol_get_stack_height(), 0);
    let res = stubs.process_system_instruction(&mut store, SystemInstruction::AdvanceNonceAccount, &infos, &infos);
    assert_eq!(res, Ok(()));
}

#[test]
fn invoke_signed_lets_a_program_sign_for_its_derived_account() {
    let program = key(1);
    let (pda, bump) = solana_sdk::pubkey::Pubkey::find_program_address(
        &[b"vault"],
        &solana_sdk::pubkey::Pubkey::new_from_array([1u8; 32]),
    );
    let pda = Pubkey::new_from_array(pda.to_bytes());
    let mut stubs = TestSyscallStubs::new(program);
    let mut store = store_of(vec![(pda, state(100)), (key(20), state(0))]);
    let infos = vec![r(pda, false), r(key(20), false)];
    let ix = Instruction { program_id: Pubkey::default(), accounts: vec![meta(pda), meta(key(20))], data: vec![] };
    let bump_seed = [bump];
    let seeds: &[&[u8]] = &[b"vault", &bump_seed];
    let out = stubs
        .try_sol_invoke_signed(&mut store, &ix, Some(SystemInstruction::Transfer { lamports: 40 }), &infos, &[seeds])
        .unwrap();
    match out {
        InvokeOutcome::System(res) => assert_eq!(res, Ok(())),
        InvokeOutcome::Program(_) => panic!("the system program runs the call"),
    }
    assert_eq!(store.get(&pda).unwrap().lamports, 60);
    assert_eq!(store.get(&key(20)).unwrap().lamports, 40);
    assert_eq!(stubs.sol_get_stack_height(), 1);
}

#[test]
fn invoke_without_signature_is_refused_by_the_system_program() {
    let mut stubs = TestSyscallStubs::new(key(1));
    let mut store = store_of(vec![(key(10), state(100)), (key(20), state(0))]);
    let infos = vec![r(key(10), false), r(key(20), false)];
    let ix = Instruction { program_id: Pubkey::default(), accounts: vec![meta(key(10)), meta(key(20))], data: vec![] };
    let out = stubs.sol_invoke_signed(&mut store, &ix, Some(SystemInstruction::Transfer { lamports: 40 }), &infos, &[]);
    match out {
        InvokeOutcome::System(res) => assert_eq!(res, Err(ProgramError::MissingRequiredSignature)),
        InvokeOutcome::Program(_) => panic!("the system program runs the call"),
    }
    assert_eq!(store.get(&key(10)).unwrap().lamports, 100);
}

#[test]
fn invoke_of_another_program_hands_the_accounts_back() {
    let mut stubs = TestSyscallStubs::new(key(1));
    let mut store = store_of(vec![(key(10), state(100))]);
    let infos = vec![r(key(10), false)];
    let ix = Instruction { program_id: key(5), accounts: vec![meta(key(10))], data: vec![] };
    let out = stubs.sol_invoke_signed(&mut store, &ix, None, &infos, &[]);
    match out {
        InvokeOutcome::Program(v) => {
            assert_eq!(v.len(), 1);
            assert_eq!(v[0].key, key(10));
        },
        InvokeOutcome::System(_) => panic!("another program is called"),
    }
    assert_eq!(stubs.sol_get_stack_height(), 2);
}

#[test]
fn invoke_with_seeds_that_derive_nothing_is_not_run() {
    let mut stubs = TestSyscallStubs::new(key(1));
    let mut store = store_of(vec![(key(10), state(100))]);
    let infos = vec![r(key(10), false)];
    let ix = Instruction { program_id: key(5), accounts: vec![meta(key(10))], data: vec![] };
    let long = [7u8; 33];
    let seeds: &[&[u8]] = &[&long];
    assert!(stubs.try_sol_invoke_signed(&mut store, &ix, None, &infos, &[seeds]).is_none());
    assert_eq!(stubs.sol_get_stack_height(), 1);
}

#[test]
fn system_call_fit_checks_the_receiver_and_the_accounts() {
    let stubs = TestSyscallStubs::new(key(1));
    let store = store_of(vec![(key(10), state(u64::MAX)), (key(11), state(5))]);
    let infos = vec![r(key(10), true), r(key(11), false)];
    let ix = Instruction { program_id: Pubkey::default(), accounts: vec![meta(key(10)), meta(key(11))], data: vec![] };
    assert!(stubs.system_call_fits(&store, &SystemInstruction::Transfer { lamports: 0 }, &infos, &ix));
    assert!(stubs.system_call_fits(&store, &SystemInstruction::Transfer { lamports: u64::MAX - 5 }, &infos, &ix));
    let back = Instruction { program_id: Pubkey::default(), accounts: vec![meta(key(11)), meta(key(10))], data: vec![] };
    assert!(!stubs.system_call_fits(&store, &SystemInstruction::Transfer { lamports: 1 }, &infos, &back));
    assert!(stubs.system_call_fits(&store, &SystemInstruction::Transfer { lamports: 6 }, &infos, &back));
    let one = Instruction { program_id: Pubkey::default(), accounts: vec![meta(key(10))], data: vec![] };
    let create = SystemInstruction::CreateAccount { lamports: 1, space: 0, owner: key(3) };
    assert!(!stubs.system_call_fits(&store, &create, &infos, &one));
    assert!(stubs.system_call_fits(&store, &create, &infos, &ix));
}

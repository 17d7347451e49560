use trident_fuzz::keyed_map::KeyedMap;
use trident_fuzz::light::system_instructions::{
    allocate, assign, check_number_of_instruction_accounts, create_account, create_address, is_system_program,
    transfer, transfer_with_seed, transfer_would_fit, AccountRef, AccountState, AccountStore, ProgramError,
};
use trident_fuzz::pubkey::Pubkey;

fn key(b: u8) -> Pubkey {
    Pubkey::new_from_array([b; 32])
}

fn state(lamports: u64, data: Vec<u8>, owner: Pubkey) -> AccountState {
    let n = data.len();
    AccountState { lamports, data, owner, executable: false, rent_epoch: 0, original_data_len: n }
}

fn store_of(entries: Vec<(Pubkey, AccountState)>) -> AccountStore {
    let mut s = KeyedMap::new();
    for (k, v) in entries {
        s.insert(k, v);
    }
    s
}

fn signer(k: Pubkey) -> AccountRef {
    AccountRef { key: k, is_signer: true, is_writable: true }
}

fn plain(k: Pubkey) -> AccountRef {
    AccountRef { key: k, is_signer: false, is_writable: true }
}

fn lamports(s: &AccountStore, k: &Pubkey) -> u64 {
    s.get(k).unwrap().lamports
}

fn total(s: &AccountStore) -> u64 {
    s.entries().iter().map(|(_, a)| a.lamports).sum()
}

#[test]
fn transfer_moves_lamports_and_keeps_the_total() {
    let system = Pubkey::default();
    let mut s = store_of(vec![(key(1), state(100, vec![], system)), (key(2), state(5, vec![], system))]);
    assert_eq!(transfer(&mut s, &signer(key(1)), &plain(key(2)), 30), Ok(()));
    assert_eq!(lamports(&s, &key(1)), 70);
    assert_eq!(lamports(&s, &key(2)), 35);
    assert_eq!(total(&s), 105);
}

#[test]
fn transfer_back_restores_balances() {
    let system = Pubkey::default();
    let mut s = store_of(vec![(key(1), state(100, vec![], system)), (key(2), state(5, vec![], system))]);
    transfer(&mut s, &signer(key(1)), &plain(key(2)), 40).unwrap();
    transfer(&mut s, &signer(key(2)), &plain(key(1)), 40).unwrap();
    assert_eq!(lamports(&s, &key(1)), 100);
    assert_eq!(lamports(&s, &key(2)), 5);
}

#[test]
fn transfer_to_itself_changes_nothing() {
    let system = Pubkey::default();
    let mut s = store_of(vec![(key(1), state(100, vec![], system))]);
    assert_eq!(transfer(&mut s, &signer(key(1)), &signer(key(1)), 60), Ok(()));
    assert_eq!(lamports(&s, &key(1)), 100);
}

#[test]
fn transfer_refusals() {
    let system = Pubkey::default();
    let mut s = store_of(vec![
        (key(1), state(100, vec![], system)),
        (key(2), state(5, vec![], system)),
        (key(3), state(50, vec![1, 2], system)),
    ]);
    assert_eq!(transfer(&mut s, &plain(key(1)), &plain(key(2)), 1), Err(ProgramError::MissingRequiredSignature));
    assert_eq!(transfer(&mut s, &signer(key(3)), &plain(key(2)), 1), Err(ProgramError::InvalidArgument));
    assert_eq!(transfer(&mut s, &signer(key(1)), &plain(key(2)), 101), Err(ProgramError::InsufficientFunds));
    assert_eq!(lamports(&s, &key(1)), 100);
    assert_eq!(lamports(&s, &key(2)), 5);
    assert_eq!(lamports(&s, &key(3)), 50);
}

#[test]
fn assign_rules() {
    let system = Pubkey::default();
    let mut s = store_of(vec![(key(1), state(1, vec![], system))]);
    assert_eq!(assign(&mut s, &plain(key(1)), system), Ok(()));
    assert_eq!(assign(&mut s, &plain(key(1)), key(9)), Err(ProgramError::MissingRequiredSignature));
    assert_eq!(s.get(&key(1)).unwrap().owner, system);
    assert_eq!(assign(&mut s, &signer(key(1)), key(9)), Ok(()));
    assert_eq!(s.get(&key(1)).unwrap().owner, key(9));
}

#[test]
fn allocate_rules() {
    let system = Pubkey::default();
    let mut s = store_of(vec![
        (key(1), state(1, vec![], system)),
        (key(2), state(1, vec![7], system)),
        (key(3), state(1, vec![], key(8))),
    ]);
    assert_eq!(allocate(&mut s, &plain(key(1)), 10), Err(ProgramError::MissingRequiredSignature));
    assert_eq!(allocate(&mut s, &signer(key(2)), 10), Err(ProgramError::AccountAlreadyInitialized));
    assert_eq!(allocate(&mut s, &signer(key(3)), 10), Err(ProgramError::AccountAlreadyInitialized));
    assert_eq!(allocate(&mut s, &signer(key(1)), 10 * 1024 * 1024 + 1), Err(ProgramError::InvalidAccountData));
    assert_eq!(allocate(&mut s, &signer(key(1)), 10241), Err(ProgramError::InvalidRealloc));
    assert_eq!(allocate(&mut s, &signer(key(1)), 10240), Ok(()));
    assert_eq!(s.get(&key(1)).unwrap().data, vec![0u8; 10240]);
}

#[test]
fn create_account_allocates_assigns_and_funds() {
    let system = Pubkey::default();
    let mut s = store_of(vec![(key(1), state(1000, vec![], system)), (key(2), state(0, vec![], system))]);
    assert_eq!(create_account(&mut s, &signer(key(1)), &signer(key(2)), 16, key(7), 300), Ok(()));
    let created = s.get(&key(2)).unwrap();
    assert_eq!(created.lamports, 300);
    assert_eq!(created.data, vec![0u8; 16]);
    assert_eq!(created.owner, key(7));
    assert_eq!(lamports(&s, &key(1)), 700);
}

#[test]
fn create_account_refuses_a_funded_account() {
    let system = Pubkey::default();
    let mut s = store_of(vec![(key(1), state(1000, vec![], system)), (key(2), state(1, vec![], system))]);
    assert_eq!(
        create_account(&mut s, &signer(key(1)), &signer(key(2)), 16, key(7), 300),
        Err(ProgramError::AccountAlreadyInitialized)
    );
    assert_eq!(s.get(&key(2)).unwrap().data.len(), 0);
}

#[test]
fn create_account_keeps_allocation_when_funding_fails() {
    let system = Pubkey::default();
    let mut s = store_of(vec![(key(1), state(10, vec![], system)), (key(2), state(0, vec![], system))]);
    assert_eq!(
        create_account(&mut s, &signer(key(1)), &signer(key(2)), 4, key(7), 300),
        Err(ProgramError::InsufficientFunds)
    );
    assert_eq!(s.get(&key(2)).unwrap().data, vec![0u8; 4]);
    assert_eq!(s.get(&key(2)).unwrap().owner, key(7));
    assert_eq!(lamports(&s, &key(1)), 10);
}

fn sdk(k: &Pubkey) -> solana_sdk::pubkey::Pubkey {
    solana_sdk::pubkey::Pubkey::new_from_array(k.to_bytes())
}

#[test]
fn create_address_checks_the_derived_address() {
    let base = key(3);
    let owner = key(4);
    let derived = solana_sdk::pubkey::Pubkey::create_with_seed(&sdk(&base), "seed", &sdk(&owner)).unwrap();
    let derived = Pubkey::new_from_array(derived.to_bytes());
    assert_eq!(create_address(&derived, &base, "seed", &owner), Ok(()));
    assert_eq!(create_address(&key(5), &base, "seed", &owner), Err(ProgramError::InvalidSeeds));
    let long_seed = "x".repeat(33);
    assert_eq!(create_address(&derived, &base, &long_seed, &owner), Err(ProgramError::MaxSeedLengthExceeded));
    let mut marked = [0u8; 32];
    marked[11..].copy_from_slice(b"ProgramDerivedAddress");
    assert_eq!(
        create_address(&derived, &base, "seed", &Pubkey::new_from_array(marked)),
        Err(ProgramError::IllegalOwner)
    );
}

#[test]
fn transfer_with_seed_moves_from_the_derived_account() {
    let system = Pubkey::default();
    let base = key(3);
    let owner = key(4);
    let derived = solana_sdk::pubkey::Pubkey::create_with_seed(&sdk(&base), "s1", &sdk(&owner)).unwrap();
    let derived = Pubkey::new_from_array(derived.to_bytes());
    let mut s = store_of(vec![
        (derived, state(50, vec![], system)),
        (base, state(0, vec![], system)),
        (key(2), state(0, vec![], system)),
    ]);
    assert_eq!(
        transfer_with_seed(&mut s, &plain(derived), &plain(base), &plain(key(2)), "s1", &owner, 20),
        Err(ProgramError::MissingRequiredSignature)
    );
    assert_eq!(
        transfer_with_seed(&mut s, &plain(derived), &signer(base), &plain(key(2)), "s2", &owner, 20),
        Err(ProgramError::InvalidSeeds)
    );
    assert_eq!(transfer_with_seed(&mut s, &plain(derived), &signer(base), &plain(key(2)), "s1", &owner, 20), Ok(()));
    assert_eq!(lamports(&s, &derived), 30);
    assert_eq!(lamports(&s, &key(2)), 20);
}

#[test]
fn counting_instruction_accounts() {
    assert_eq!(check_number_of_instruction_accounts(1, 2), Err(ProgramError::NotEnoughAccountKeys));
    assert_eq!(check_number_of_instruction_accounts(2, 2), Ok(()));
    assert!(is_system_program(&Pubkey::default()));
    assert!(!is_system_program(&key(1)));
}

#[test]
fn transfer_from_a_full_sender_to_a_small_receiver() {
    let system = Pubkey::default();
    let mut s = store_of(vec![(key(1), state(u64::MAX, vec![], system)), (key(2), state(5, vec![], system))]);
    assert!(transfer_would_fit(&s, &key(1), &key(2), 0));
    assert_eq!(transfer(&mut s, &signer(key(1)), &plain(key(2)), 0), Ok(()));
    assert_eq!(lamports(&s, &key(1)), u64::MAX);
    assert_eq!(lamports(&s, &key(2)), 5);
    assert!(transfer_would_fit(&s, &key(1), &key(2), u64::MAX - 5));
    assert_eq!(transfer(&mut s, &signer(key(1)), &plain(key(2)), u64::MAX - 5), Ok(()));
    assert_eq!(lamports(&s, &key(1)), 5);
    assert_eq!(lamports(&s, &key(2)), u64::MAX);
}

#[test]
fn transfer_fit_only_matters_when_lamports_move() {
    let system = Pubkey::default();
    let s = store_of(vec![
        (key(1), state(100, vec![], system)),
        (key(2), state(u64::MAX, vec![], system)),
        (key(3), state(100, vec![7], system)),
    ]);
    assert!(!transfer_would_fit(&s, &key(1), &key(2), 1));
    assert!(transfer_would_fit(&s, &key(1), &key(2), 0));
    assert!(transfer_would_fit(&s, &key(1), &key(2), 101));
    assert!(transfer_would_fit(&s, &key(3), &key(2), 1));
    assert!(transfer_would_fit(&s, &key(2), &key(2), 1));
}

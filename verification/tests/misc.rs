use trident_fuzz::derivation::Keypair;
use trident_fuzz::error::FuzzingError;
use trident_fuzz::fuzz_data::{build_ix_fuzz_data, transactions_of, BuildError, FuzzData, TransactionInstructions};
use trident_fuzz::light::account::{AccountMeta, TridentAccount};
use trident_fuzz::light::clock::Clock;
use trident_fuzz::light::light_client::{FuzzingProgramLight, LightClient};
use trident_fuzz::pubkey::Pubkey;
use trident_fuzz::snapshot::Snapshot;

fn key(b: u8) -> Pubkey {
    Pubkey::new_from_array([b; 32])
}

#[test]
fn fuzz_data_walks_pre_then_main_then_post() {
    let data = FuzzData {
        pre_ixs: vec![TransactionInstructions::from(1)],
        ixs: vec![TransactionInstructions::from(2), TransactionInstructions::from(3)],
        post_ixs: vec![TransactionInstructions::from(4)],
        accounts: (),
    };
    let mut it = data.iter();
    let mut seen = vec![];
    while let Some(t) = it.next() {
        seen.push(t.instructions[0]);
    }
    assert_eq!(seen, vec![1, 2, 3, 4]);
    assert!(it.next().is_none());
}

#[test]
fn clock_from_seconds() {
    let c = Clock::at_unix_secs(1_700_000_000);
    assert_eq!(c.unix_timestamp, 1_700_000_000);
    assert_eq!(c.slot, 0);
    assert_eq!(Clock::at_unix_secs(u64::MAX).unix_timestamp, 0);
}

#[test]
fn error_with_message() {
    match FuzzingError::with_message("bad state") {
        FuzzingError::CustomMessage(m) => assert_eq!(m, "bad state"),
        _ => panic!("a message error"),
    }
}

#[test]
fn keypair_public_key_matches_the_sdk() {
    let kp = Keypair { secret: [5u8; 32] };
    let sdk = solana_sdk::signer::keypair::Keypair::new_from_array([5u8; 32]);
    assert_eq!(kp.pubkey().to_bytes(), solana_sdk::signer::Signer::pubkey(&sdk).to_bytes());
    assert_ne!(Keypair::new().secret, Keypair::new().secret);
}

#[test]
fn snapshots_capture_accounts_before_and_after() {
    let mut client = LightClient::new(&[FuzzingProgramLight::new("p", &key(9), true)]).unwrap();
    client.set_account_custom(&key(1), TridentAccount::new(10, 9, &key(9)));
    let metas = vec![vec![
        AccountMeta { pubkey: key(1), is_signer: false, is_writable: true },
        AccountMeta { pubkey: key(2), is_signer: false, is_writable: false },
    ]];
    let mut snap = Snapshot::new(&metas, vec![vec![7, 7]]);
    snap.capture_before(&client);
    client.set_account_custom(&key(1), TridentAccount::new(3, 9, &key(9)));
    snap.capture_after(&client);
    let (before, after) = snap.get_snapshot();
    assert_eq!(before.get_accounts_at(0)[0].lamports(), 10);
    assert_eq!(after.get_accounts_at(0)[0].lamports(), 3);
    assert_eq!(after.get_accounts_at(0)[1].lamports(), 0);
    assert_eq!(before.get_data_at(0), &[7, 7]);
    assert_eq!(before.get_accounts_at(0)[0].data_no_discriminator(), &[0u8]);
    assert_eq!(before.get_accounts_at(0)[1].pubkey(), key(2));
}

#[test]
fn fuzzed_instructions_become_one_transaction_each() {
    assert!(matches!(transactions_of(Vec::<u8>::new()), Err(BuildError::NotEnoughData)));
    let t = transactions_of(vec![7u8, 8, 9]).unwrap();
    assert_eq!(t.len(), 3);
    assert_eq!(t[0].instructions, vec![7]);
    assert_eq!(t[2].instructions, vec![9]);
    let data = build_ix_fuzz_data(Ok(vec![]), transactions_of(vec![1u8]), Ok(vec![]), 5u32).unwrap();
    assert_eq!(data.ixs.len(), 1);
    assert_eq!(data.accounts, 5);
    let refused = build_ix_fuzz_data(Ok(vec![]), transactions_of(Vec::<u8>::new()), Ok(vec![]), 5u32);
    assert!(matches!(refused, Err(BuildError::NotEnoughData)));
}

use trident_fuzz::accounts_storage::{AccountMetadata, AccountsStorage};
use trident_fuzz::address_storage::PdaSeeds;
use trident_fuzz::light::account::TridentAccount;
use trident_fuzz::light::light_client::{FuzzingProgramLight, LightClient};
use trident_fuzz::pubkey::Pubkey;

fn key(b: u8) -> Pubkey {
    Pubkey::new_from_array([b; 32])
}

fn client() -> LightClient {
    LightClient::new(&[FuzzingProgramLight::new("prog", &key(9), true)]).unwrap()
}

#[test]
fn an_id_is_bound_once() {
    let mut storage = AccountsStorage::default();
    let mut client = client();
    assert!(storage.is_empty());
    let a = storage.get_or_create(1, &mut client, None, None);
    assert!(!storage.is_empty());
    let account = client.get_account(&a).unwrap();
    assert_eq!(account.lamports, 500_000_000_000);
    assert!(account.data.is_empty());
    assert_eq!(account.owner, Pubkey::default());
    let again = storage.get_or_create(1, &mut client, None, Some(AccountMetadata::new(1, 1, key(3))));
    assert_eq!(again, a);
    assert_eq!(client.get_account(&a).unwrap().lamports, 500_000_000_000);
    let b = storage.get_or_create(2, &mut client, None, Some(AccountMetadata::new(7, 3, key(3))));
    assert_ne!(a, b);
    let account = client.get_account(&b).unwrap();
    assert_eq!((account.lamports, account.data.len(), account.owner), (7, 3, key(3)));
}

#[test]
fn seeds_bind_the_program_derived_address_and_keep_an_existing_account() {
    let mut storage = AccountsStorage::new(4);
    let mut client = client();
    let seeds: &[&[u8]] = &[b"pool"];
    let (pda, _) = solana_sdk::pubkey::Pubkey::find_program_address(
        seeds,
        &solana_sdk::pubkey::Pubkey::new_from_array([9u8; 32]),
    );
    let pda = Pubkey::new_from_array(pda.to_bytes());
    client.set_account_custom(&pda, TridentAccount::new(42, 1, &key(9)));
    let a = storage.get_or_create(5, &mut client, Some(PdaSeeds::new(seeds, key(9))), None);
    assert_eq!(a, pda);
    assert_eq!(client.get_account(&pda).unwrap().lamports, 42);
}

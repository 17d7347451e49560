use spl_token::solana_program::program_pack::Pack;
use trident_fuzz::accounts_storage::AccountsStorage;
use trident_fuzz::light::light_client::{FuzzingProgramLight, LightClient};
use trident_fuzz::pubkey::Pubkey;

fn key(b: u8) -> Pubkey {
    Pubkey::new_from_array([b; 32])
}

fn sdk(k: Pubkey) -> solana_sdk::pubkey::Pubkey {
    solana_sdk::pubkey::Pubkey::new_from_array(k.to_bytes())
}

fn client() -> LightClient {
    LightClient::new(&[FuzzingProgramLight::new("prog", &key(9), true)]).unwrap()
}

#[test]
fn token_account_is_packed_as_the_token_program_reads_it() {
    let storage = AccountsStorage::default();
    let mut client = client();
    storage.create_token_account(&mut client, key(1), key(2), key(3), 500, Some(key(4)), false, 20, None);
    let a = client.get_account(&key(1)).unwrap();
    assert_eq!(a.lamports, 2_039_280);
    assert_eq!(a.owner.to_bytes(), spl_token::id().to_bytes());
    let t = spl_token::state::Account::unpack(&a.data).unwrap();
    assert_eq!(t.mint, sdk(key(2)));
    assert_eq!(t.owner, sdk(key(3)));
    assert_eq!(t.amount, 500);
    assert_eq!(t.delegate, Some(sdk(key(4))).into());
    assert_eq!(t.state, spl_token::state::AccountState::Initialized);
    assert_eq!(t.is_native, None.into());
    assert_eq!(t.delegated_amount, 20);
    assert_eq!(t.close_authority, None.into());
}

#[test]
fn native_token_account_holds_rent_and_amount() {
    let storage = AccountsStorage::default();
    let mut client = client();
    storage.create_token_account(&mut client, key(1), key(2), key(3), 1_000, None, true, 0, Some(key(5)));
    let a = client.get_account(&key(1)).unwrap();
    assert_eq!(a.lamports, 2_039_280 + 1_000);
    let t = spl_token::state::Account::unpack(&a.data).unwrap();
    assert_eq!(t.amount, 2_039_280 + 1_000);
    assert_eq!(t.is_native, Some(2_039_280).into());
    assert_eq!(t.close_authority, Some(sdk(key(5))).into());
    storage.create_token_account(&mut client, key(6), key(2), key(3), u64::MAX, None, true, 0, None);
    assert_eq!(client.get_account(&key(6)).unwrap().lamports, u64::MAX);
}

#[test]
fn mint_is_packed_as_the_token_program_reads_it() {
    let storage = AccountsStorage::default();
    let mut client = client();
    storage.create_mint_account(&mut client, key(7), 6, &key(8), Some(key(9)));
    let a = client.get_account(&key(7)).unwrap();
    assert_eq!(a.lamports, 1_461_600);
    let m = spl_token::state::Mint::unpack(&a.data).unwrap();
    assert_eq!(m.decimals, 6);
    assert_eq!(m.mint_authority, Some(sdk(key(8))).into());
    assert_eq!(m.freeze_authority, Some(sdk(key(9))).into());
    assert_eq!(m.supply, 0);
    assert!(m.is_initialized);
}

#[test]
fn token_ids_are_bound_once() {
    let mut storage = AccountsStorage::default();
    let mut client = client();
    let mint = storage.get_or_create_mint_account(1, &mut client, None, 9, &key(8), None);
    let again = storage.get_or_create_mint_account(1, &mut client, None, 2, &key(3), None);
    assert_eq!(mint, again);
    assert_eq!(spl_token::state::Mint::unpack(&client.get_account(&mint).unwrap().data).unwrap().decimals, 9);
    let token = storage.get_or_create_token_account(2, &mut client, None, mint, key(3), 7, None, false, 0, None);
    let t = spl_token::state::Account::unpack(&client.get_account(&token).unwrap().data).unwrap();
    assert_eq!(t.mint, sdk(mint));
    assert_eq!(t.amount, 7);
}

#[test]
fn client_sets_token_and_mint_accounts_at_fresh_addresses() {
    let mut client = client();
    let t = client.set_token_account(key(2), key(3), 11, None, Some(5), 0, None);
    let data = client.get_account(&t).unwrap().data;
    let acc = spl_token::state::Account::unpack(&data).unwrap();
    assert_eq!((acc.amount, acc.is_native), (11, Some(5).into()));
    let m = client.set_mint_account(3, &key(4), None);
    assert_ne!(t, m);
    let mint = spl_token::state::Mint::unpack(&client.get_account(&m).unwrap().data).unwrap();
    assert_eq!(mint.decimals, 3);
    assert_eq!(client.get_account(&m).unwrap().lamports, 1_461_600);
}

#[test]
fn token_bytes_follow_the_stated_layout() {
    let storage = AccountsStorage::default();
    let mut client = client();
    storage.create_token_account(&mut client, key(1), key(2), key(3), 500, None, false, 20, Some(key(6)));
    let d = client.get_account(&key(1)).unwrap().data;
    assert_eq!(d.len(), 165);
    assert_eq!(&d[0..32], &[2u8; 32]);
    assert_eq!(&d[32..64], &[3u8; 32]);
    assert_eq!(&d[64..72], &500u64.to_le_bytes());
    assert!(d[72..108].iter().all(|b| *b == 0));
    assert_eq!(d[108], 1);
    assert!(d[109..121].iter().all(|b| *b == 0));
    assert_eq!(&d[121..129], &20u64.to_le_bytes());
    assert_eq!(&d[129..133], &[1, 0, 0, 0]);
    assert_eq!(&d[133..165], &[6u8; 32]);
    storage.create_mint_account(&mut client, key(7), 6, &key(8), None);
    let m = client.get_account(&key(7)).unwrap().data;
    assert_eq!(m.len(), 82);
    assert_eq!(&m[0..4], &[1, 0, 0, 0]);
    assert_eq!(&m[4..36], &[8u8; 32]);
    assert!(m[36..44].iter().all(|b| *b == 0));
    assert_eq!((m[44], m[45]), (6, 1));
    assert!(m[46..82].iter().all(|b| *b == 0));
}

use solana_sdk::account::{AccountSharedData, ReadableAccount, WritableAccount};
use solana_sdk::account_utils::StateMut;
use solana_sdk::stake::state::StakeStateV2;
use trident_fuzz::accounts_storage::AccountsStorage;
use trident_fuzz::light::clock::Clock;
use trident_fuzz::light::light_client::{FuzzingProgramLight, LightClient};
use trident_fuzz::pubkey::Pubkey;
use trident_fuzz::stake::Lockup;

fn key(b: u8) -> Pubkey {
    Pubkey::new_from_array([b; 32])
}

fn sdk(k: Pubkey) -> solana_sdk::pubkey::Pubkey {
    solana_sdk::pubkey::Pubkey::new_from_array(k.to_bytes())
}

fn client() -> LightClient {
    LightClient::new(&[FuzzingProgramLight::new("prog", &key(9), true)]).unwrap()
}

fn stake_state(data: &[u8], owner: Pubkey, lamports: u64) -> StakeStateV2 {
    let shared = AccountSharedData::create(lamports, data.to_vec(), sdk(owner), false, 0);
    shared.state().unwrap()
}

#[test]
fn delegated_stake_account_reads_back() {
    let storage = AccountsStorage::default();
    let mut client = client();
    let lockup = Lockup { unix_timestamp: -5, epoch: 3, custodian: key(7) };
    storage.create_delegated_account(&mut client, key(1), key(2), key(3), key(4), 10, 6, None, Some(lockup));
    let a = client.get_account(&key(1)).unwrap();
    assert_eq!(a.data.len(), 200);
    assert_eq!(a.lamports, 2_282_880 + 1_000_000_000);
    assert_eq!(a.owner.to_bytes(), solana_sdk::stake::program::ID.to_bytes());
    match stake_state(&a.data, a.owner, a.lamports) {
        StakeStateV2::Stake(meta, stake, _) => {
            assert_eq!(meta.rent_exempt_reserve, 2_282_880);
            assert_eq!(meta.authorized.staker, sdk(key(3)));
            assert_eq!(meta.authorized.withdrawer, sdk(key(4)));
            assert_eq!(meta.lockup.unix_timestamp, -5);
            assert_eq!(meta.lockup.epoch, 3);
            assert_eq!(meta.lockup.custodian, sdk(key(7)));
            assert_eq!(stake.delegation.voter_pubkey, sdk(key(2)));
            assert_eq!(stake.delegation.stake, 10);
            assert_eq!(stake.delegation.activation_epoch, 6);
            assert_eq!(stake.delegation.deactivation_epoch, u64::MAX);
            assert_eq!(stake.credits_observed, 0);
        },
        other => panic!("a delegated stake, got {:?}", other),
    }
    storage.create_delegated_account(&mut client, key(5), key(2), key(3), key(4), 5_000_000_000, 0, Some(9), None);
    assert_eq!(client.get_account(&key(5)).unwrap().lamports, 5_000_000_000);
}

#[test]
fn initialized_stake_account_reads_back() {
    let storage = AccountsStorage::default();
    let mut client = client();
    storage.create_initialized_account(&mut client, key(1), key(3), key(4), None);
    let a = client.get_account(&key(1)).unwrap();
    assert_eq!(a.lamports, 2_282_880);
    match stake_state(&a.data, a.owner, a.lamports) {
        StakeStateV2::Initialized(meta) => {
            assert_eq!(meta.authorized.staker, sdk(key(3)));
            assert_eq!(meta.lockup, Default::default());
        },
        other => panic!("an initialized stake, got {:?}", other),
    }
}

#[test]
fn vote_account_reads_back() {
    let mut storage = AccountsStorage::default();
    let mut client = client();
    let clock = Clock { slot: 0, epoch_start_timestamp: 0, epoch: 4, leader_schedule_epoch: 0, unix_timestamp: 0 };
    let v = storage.get_or_create_vote_account(1, &mut client, None, &key(2), &key(3), &key(4), 10, &clock);
    let a = client.get_account(&v).unwrap();
    assert_eq!(a.data.len(), 3762);
    assert_eq!(a.lamports, (128 + 3762) * 6960);
    let shared = AccountSharedData::create(a.lamports, a.data.clone(), sdk(a.owner), false, 0);
    let state = solana_sdk::vote::state::VoteState::deserialize(shared.data()).unwrap();
    assert_eq!(state.node_pubkey, sdk(key(2)));
    assert_eq!(state.authorized_withdrawer, sdk(key(4)));
    assert_eq!(state.commission, 10);
    assert_eq!(state.get_authorized_voter(4), Some(sdk(key(3))));
    assert_eq!(storage.get_or_create_vote_account(1, &mut client, None, &key(5), &key(5), &key(5), 0, &clock), v);
}

#[test]
fn stake_ids_are_bound_once() {
    let mut storage = AccountsStorage::default();
    let mut client = client();
    let a = storage.get_or_create_initialized_account(3, &mut client, None, key(1), key(2), None);
    let b = storage.get_or_create_delegated_account(3, &mut client, None, key(1), key(1), key(1), 1, 0, None, None);
    assert_eq!(a, b);
    let c = storage.get_or_create_delegated_account(4, &mut client, None, key(1), key(1), key(1), 1, 0, None, None);
    assert_ne!(a, c);
}

#[test]
fn stake_account_bytes_follow_the_stated_layout() {
    let storage = AccountsStorage::default();
    let mut client = client();
    let lockup = Lockup { unix_timestamp: -2, epoch: 9, custodian: key(7) };
    storage.create_delegated_account(&mut client, key(1), key(2), key(3), key(4), 10, 6, Some(8), Some(lockup));
    let d = client.get_account(&key(1)).unwrap().data;
    assert_eq!(&d[0..4], &[2, 0, 0, 0]);
    assert_eq!(&d[4..12], &2_282_880u64.to_le_bytes());
    assert_eq!(&d[12..44], &[3u8; 32]);
    assert_eq!(&d[44..76], &[4u8; 32]);
    assert_eq!(&d[76..84], &(-2i64).to_le_bytes());
    assert_eq!(&d[84..92], &9u64.to_le_bytes());
    assert_eq!(&d[92..124], &[7u8; 32]);
    assert_eq!(&d[124..156], &[2u8; 32]);
    assert_eq!(&d[156..164], &10u64.to_le_bytes());
    assert_eq!(&d[164..172], &6u64.to_le_bytes());
    assert_eq!(&d[172..180], &8u64.to_le_bytes());
    assert_eq!(&d[180..188], &0.25f64.to_le_bytes());
    assert!(d[188..200].iter().all(|b| *b == 0));
    storage.create_initialized_account(&mut client, key(5), key(3), key(4), None);
    let d = client.get_account(&key(5)).unwrap().data;
    assert_eq!(&d[0..4], &[1, 0, 0, 0]);
    assert!(d[76..200].iter().all(|b| *b == 0));
}

#[test]
fn vote_account_bytes_follow_the_stated_layout() {
    let storage = AccountsStorage::default();
    let mut client = client();
    let clock_at = Clock { slot: 0, epoch_start_timestamp: 0, epoch: 7, leader_schedule_epoch: 0, unix_timestamp: 0 };
    storage.create_vote_account(&mut client, key(1), &key(2), &key(3), &key(4), 10, &clock_at);
    let data = client.get_account(&key(1)).unwrap().data;
    let mut want: Vec<u8> = Vec::new();
    want.extend_from_slice(&2u32.to_le_bytes());
    want.extend_from_slice(&[2u8; 32]);
    want.extend_from_slice(&[4u8; 32]);
    want.push(10);
    want.extend_from_slice(&0u64.to_le_bytes());
    want.push(0);
    want.extend_from_slice(&1u64.to_le_bytes());
    want.extend_from_slice(&7u64.to_le_bytes());
    want.extend_from_slice(&[3u8; 32]);
    want.extend_from_slice(&[0u8; 1536]);
    want.extend_from_slice(&31u64.to_le_bytes());
    want.push(1);
    want.extend_from_slice(&0u64.to_le_bytes());
    want.extend_from_slice(&[0u8; 16]);
    want.resize(3762, 0);
    assert_eq!(data, want);
}

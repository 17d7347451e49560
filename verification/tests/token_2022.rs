use spl_token::solana_program::program_pack::Pack;
use spl_token_2022::extension::{BaseStateWithExtensions, ExtensionType, StateWithExtensions};
use trident_fuzz::accounts_storage::AccountsStorage;
use trident_fuzz::light::light_client::{FuzzingProgramLight, LightClient};
use trident_fuzz::pubkey::Pubkey;
use trident_fuzz::token_2022::{
    CpiGuard, DefaultAccountState, GroupPointer, ImmutableOwner, MemoTransfer, MetadataPointer, MintCloseAuthority,
    NonTransferable, ParamValue, TransferFee, TransferFeeAmount, TransferFeeConfig, TransferHookAccount,
};

fn key(b: u8) -> Pubkey {
    Pubkey::new_from_array([b; 32])
}

fn sdk(k: Pubkey) -> solana_sdk::pubkey::Pubkey {
    solana_sdk::pubkey::Pubkey::new_from_array(k.to_bytes())
}

fn client() -> LightClient {
    LightClient::new(&[FuzzingProgramLight::new("prog", &key(9), true)]).unwrap()
}

fn exempt(len: usize) -> u64 {
    (128 + len as u64) * 6960
}

#[test]
fn plain_token_2022_mint_is_packed_as_the_program_reads_it() {
    let storage = AccountsStorage::default();
    let mut client = client();
    storage.create_token_2022_mint(&mut client, key(1), 6, &key(2), Some(key(3)), None);
    let a = client.get_account(&key(1)).unwrap();
    assert_eq!(a.data.len(), 82);
    assert_eq!(a.lamports, 1_461_600);
    assert_eq!(a.owner.to_bytes(), spl_token_2022::id().to_bytes());
    let m = spl_token_2022::state::Mint::unpack(&a.data).unwrap();
    assert_eq!(m.mint_authority, Some(sdk(key(2))).into());
    assert_eq!(m.freeze_authority, Some(sdk(key(3))).into());
    assert_eq!(m.decimals, 6);
    assert_eq!(m.supply, 0);
    assert!(m.is_initialized);
}

#[test]
fn token_2022_mint_carries_its_extensions() {
    let storage = AccountsStorage::default();
    let mut client = client();
    let params = vec![
        ParamValue::MetadataPointer(MetadataPointer { authority: Some(key(4)), metadata_address: Some(key(1)) }),
        ParamValue::MintCloseAuthority(MintCloseAuthority { close_authority: None }),
        ParamValue::DefaultAccountState(DefaultAccountState { state: 2 }),
        ParamValue::TransferFeeConfig(TransferFeeConfig {
            transfer_fee_config_authority: Some(key(5)),
            withdraw_withheld_authority: None,
            withheld_amount: 7,
            older_transfer_fee: TransferFee { epoch: 1, maximum_fee: 100, transfer_fee_basis_points: 50 },
            newer_transfer_fee: TransferFee { epoch: 2, maximum_fee: 200, transfer_fee_basis_points: 10000 },
        }),
        ParamValue::NonTransferable(NonTransferable {}),
        ParamValue::GroupPointer(GroupPointer { authority: None, group_address: Some(key(6)) }),
    ];
    storage.create_token_2022_mint(&mut client, key(1), 9, &key(2), None, Some(params));
    let a = client.get_account(&key(1)).unwrap();
    let want_len = ExtensionType::try_calculate_account_len::<spl_token_2022::state::Mint>(&[
        ExtensionType::MetadataPointer,
        ExtensionType::MintCloseAuthority,
        ExtensionType::DefaultAccountState,
        ExtensionType::TransferFeeConfig,
        ExtensionType::NonTransferable,
        ExtensionType::GroupPointer,
    ])
    .unwrap();
    assert_eq!(a.data.len(), want_len);
    assert_eq!(a.lamports, exempt(want_len));
    let state = StateWithExtensions::<spl_token_2022::state::Mint>::unpack(&a.data).unwrap();
    assert_eq!(state.base.decimals, 9);
    assert!(state.base.is_initialized);
    assert_eq!(state.base.mint_authority, Some(sdk(key(2))).into());
    assert_eq!(state.base.freeze_authority, None.into());
    let pointer = state.get_extension::<spl_token_2022::extension::metadata_pointer::MetadataPointer>().unwrap();
    assert_eq!(Option::<solana_sdk::pubkey::Pubkey>::from(pointer.authority), Some(sdk(key(4))));
    assert_eq!(Option::<solana_sdk::pubkey::Pubkey>::from(pointer.metadata_address), Some(sdk(key(1))));
    let close = state.get_extension::<spl_token_2022::extension::mint_close_authority::MintCloseAuthority>().unwrap();
    assert_eq!(Option::<solana_sdk::pubkey::Pubkey>::from(close.close_authority), None);
    let default_state = state.get_extension::<spl_token_2022::extension::default_account_state::DefaultAccountState>().unwrap();
    assert_eq!(default_state.state, 2);
    let fees = state.get_extension::<spl_token_2022::extension::transfer_fee::TransferFeeConfig>().unwrap();
    assert_eq!(u64::from(fees.withheld_amount), 7);
    assert_eq!(u16::from(fees.older_transfer_fee.transfer_fee_basis_points), 50);
    assert_eq!(u64::from(fees.newer_transfer_fee.maximum_fee), 200);
    assert_eq!(Option::<solana_sdk::pubkey::Pubkey>::from(fees.transfer_fee_config_authority), Some(sdk(key(5))));
    let group = state.get_extension::<spl_token_2022::extension::group_pointer::GroupPointer>().unwrap();
    assert_eq!(Option::<solana_sdk::pubkey::Pubkey>::from(group.group_address), Some(sdk(key(6))));
    assert!(state.get_extension::<spl_token_2022::extension::non_transferable::NonTransferable>().is_ok());
    let types = state.get_extension_types().unwrap();
    assert_eq!(types[0], ExtensionType::MetadataPointer);
    assert_eq!(types.len(), 6);
}

#[test]
fn a_repeated_mint_extension_takes_the_first_parameters() {
    let storage = AccountsStorage::default();
    let mut client = client();
    let params = vec![
        ParamValue::DefaultAccountState(DefaultAccountState { state: 2 }),
        ParamValue::DefaultAccountState(DefaultAccountState { state: 0 }),
    ];
    storage.create_token_2022_mint(&mut client, key(1), 0, &Pubkey::default(), None, Some(params));
    let a = client.get_account(&key(1)).unwrap();
    let state = StateWithExtensions::<spl_token_2022::state::Mint>::unpack(&a.data).unwrap();
    assert_eq!(state.base.mint_authority, None.into());
    let default_state = state.get_extension::<spl_token_2022::extension::default_account_state::DefaultAccountState>().unwrap();
    assert_eq!(default_state.state, 2);
    assert_eq!(state.get_extension_types().unwrap().len(), 1);
}

#[test]
fn plain_token_2022_account_is_packed_as_the_program_reads_it() {
    let storage = AccountsStorage::default();
    let mut client = client();
    storage.create_token_2022_account(&mut client, key(1), key(2), key(3), 500, Some(key(4)), false, 20, None, None);
    let a = client.get_account(&key(1)).unwrap();
    assert_eq!(a.lamports, 2_039_280);
    assert_eq!(a.owner.to_bytes(), spl_token_2022::id().to_bytes());
    let t = spl_token_2022::state::Account::unpack(&a.data).unwrap();
    assert_eq!(t.mint, sdk(key(2)));
    assert_eq!(t.owner, sdk(key(3)));
    assert_eq!(t.amount, 500);
    assert_eq!(t.delegate, Some(sdk(key(4))).into());
    assert_eq!(t.delegated_amount, 20);
}

#[test]
fn token_2022_account_carries_its_extensions() {
    let storage = AccountsStorage::default();
    let mut client = client();
    let params = vec![
        ParamValue::ImmutableOwner(ImmutableOwner {}),
        ParamValue::CpiGuard(CpiGuard { lock_cpi: true }),
        ParamValue::MemoTransfer(MemoTransfer { require_incoming_transfer_memos: true }),
        ParamValue::TransferFeeAmount(TransferFeeAmount { withheld_amount: 33 }),
        ParamValue::TransferHookAccount(TransferHookAccount { transferring: None }),
    ];
    storage.create_token_2022_account(&mut client, key(1), key(2), key(3), 10, None, true, 0, Some(key(5)), Some(params));
    let a = client.get_account(&key(1)).unwrap();
    let want_len = ExtensionType::try_calculate_account_len::<spl_token_2022::state::Account>(&[
        ExtensionType::ImmutableOwner,
        ExtensionType::CpiGuard,
        ExtensionType::MemoTransfer,
        ExtensionType::TransferFeeAmount,
        ExtensionType::TransferHookAccount,
    ])
    .unwrap();
    assert_eq!(a.data.len(), want_len);
    let rent = exempt(want_len);
    assert_eq!(a.lamports, rent + 10);
    let state = StateWithExtensions::<spl_token_2022::state::Account>::unpack(&a.data).unwrap();
    assert_eq!(state.base.mint, sdk(key(2)));
    assert_eq!(state.base.amount, rent + 10);
    assert_eq!(state.base.is_native, Some(rent).into());
    assert_eq!(state.base.close_authority, Some(sdk(key(5))).into());
    let guard = state.get_extension::<spl_token_2022::extension::cpi_guard::CpiGuard>().unwrap();
    assert!(bool::from(guard.lock_cpi));
    let memo = state.get_extension::<spl_token_2022::extension::memo_transfer::MemoTransfer>().unwrap();
    assert!(bool::from(memo.require_incoming_transfer_memos));
    let fee = state.get_extension::<spl_token_2022::extension::transfer_fee::TransferFeeAmount>().unwrap();
    assert_eq!(u64::from(fee.withheld_amount), 33);
    let hook = state.get_extension::<spl_token_2022::extension::transfer_hook::TransferHookAccount>().unwrap();
    assert!(!bool::from(hook.transferring));
    assert!(state.get_extension::<spl_token_2022::extension::immutable_owner::ImmutableOwner>().is_ok());
}

#[test]
fn get_or_create_token_2022_mint_binds_once() {
    let mut storage = AccountsStorage::default();
    let mut client = client();
    let a = storage.get_or_create_token_2022_mint(1, &mut client, None, 6, &key(2), None, None);
    let b = storage.get_or_create_token_2022_mint(1, &mut client, None, 9, &key(3), None, None);
    assert_eq!(a, b);
    let m = spl_token_2022::state::Mint::unpack(&client.get_account(&a).unwrap().data).unwrap();
    assert_eq!(m.decimals, 6);
    let t = storage.get_or_create_token2022_account(2, &mut client, None, a, key(3), 1, None, false, 0, None, None);
    let acc = spl_token_2022::state::Account::unpack(&client.get_account(&t).unwrap().data).unwrap();
    assert_eq!(acc.mint, sdk(a));
}

#[test]
fn later_parameters_of_a_kind_change_nothing() {
    let storage = AccountsStorage::default();
    let mut client = client();
    let first = vec![
        ParamValue::MintCloseAuthority(MintCloseAuthority { close_authority: Some(key(7)) }),
        ParamValue::NonTransferable(NonTransferable {}),
        ParamValue::MintCloseAuthority(MintCloseAuthority { close_authority: None }),
    ];
    let second = vec![
        ParamValue::MintCloseAuthority(MintCloseAuthority { close_authority: Some(key(7)) }),
        ParamValue::NonTransferable(NonTransferable {}),
        ParamValue::MintCloseAuthority(MintCloseAuthority { close_authority: Some(key(8)) }),
    ];
    storage.create_token_2022_mint(&mut client, key(1), 3, &key(2), None, Some(first));
    storage.create_token_2022_mint(&mut client, key(11), 3, &key(2), None, Some(second));
    let a = client.get_account(&key(1)).unwrap();
    let b = client.get_account(&key(11)).unwrap();
    assert_eq!(a.data, b.data);
    assert_eq!(a.lamports, b.lamports);
    let state = StateWithExtensions::<spl_token_2022::state::Mint>::unpack(&a.data).unwrap();
    let close = state.get_extension::<spl_token_2022::extension::mint_close_authority::MintCloseAuthority>().unwrap();
    assert_eq!(Option::<solana_sdk::pubkey::Pubkey>::from(close.close_authority), Some(sdk(key(7))));
}

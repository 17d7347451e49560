//! Token-2022 accounts: the extension parameters a fuzz test gives, the
//! extensions they select, and the mints and token accounts that carry
//! them as the token-2022 program lays them out.
use crate::accounts_storage::{blank_at, AccountId, AccountsStorage};
use crate::address_storage::{pda_of, PdaSeeds};
use crate::derivation::keypair_pubkey;
use crate::light::account::{zeros, TridentAccount, TridentAccountView};
use crate::light::light_client::{exempt_balance, rent_exempt_minimum, LightClient};
use crate::pubkey::{zero_key, Pubkey};
use crate::token::{coption_key_bytes, coption_u64_bytes, law_mint_layout, law_token_account_layout, lemma_mint_len, lemma_token_account_len, mint_bytes, token_account_bytes, Mint, TokenAccount, MINT_LEN, TOKEN_ACCOUNT_LEN};
use crate::light::serialization_light::le_bytes;
use solana_sdk::pubkey::Pubkey as SdkPubkey;
use spl_token_2022::extension::{BaseStateWithExtensionsMut, ExtensionType, StateWithExtensionsMut};
use spl_token::solana_program::program_pack::Pack;
use spl_token_2022::solana_zk_sdk::encryption::pod::auth_encryption::PodAeCiphertext;
use spl_token_2022::solana_zk_sdk::encryption::pod::elgamal::{PodElGamalCiphertext, PodElGamalPubkey};
use spl_token_2022::state::{Account as Account2022, AccountState as AccountState2022, Mint as Mint2022};
use spl_token_2022::extension as ext;
use spl_token_2022::extension::transfer_fee::{TransferFee as Fee2022, TransferFeeConfig as FeeConfig2022};
use vstd::prelude::*;

verus! {

/// Where the mint's metadata lives, and who may move it.
#[derive(Clone, Copy, Debug)]
pub struct MetadataPointer {
    pub authority: Option<Pubkey>,
    pub metadata_address: Option<Pubkey>,
}

/// Where the group member configuration lives, and who may move it.
#[derive(Clone, Copy, Debug)]
pub struct GroupMemberPointer {
    pub authority: Option<Pubkey>,
    pub member_address: Option<Pubkey>,
}

/// Where the group configuration lives, and who may move it.
#[derive(Clone, Copy, Debug)]
pub struct GroupPointer {
    pub authority: Option<Pubkey>,
    pub group_address: Option<Pubkey>,
}

/// The program a transfer calls, and who may change it.
#[derive(Clone, Copy, Debug)]
pub struct TransferHook {
    pub authority: Option<Pubkey>,
    pub program_id: Option<Pubkey>,
}

/// Who may close the mint.
#[derive(Clone, Copy, Debug)]
pub struct MintCloseAuthority {
    pub close_authority: Option<Pubkey>,
}

/// Who may move or burn any holder's tokens.
#[derive(Clone, Copy, Debug)]
pub struct PermanentDelegate {
    pub delegate: Option<Pubkey>,
}

/// The state new token accounts of the mint start in.
#[derive(Clone, Copy, Debug)]
pub struct DefaultAccountState {
    pub state: u8,
}

/// Interest that the mint's tokens accrue.
#[derive(Clone, Copy, Debug)]
pub struct InterestBearingConfig {
    pub rate_authority: Option<Pubkey>,
    pub initialization_timestamp: i64,
    pub pre_update_average_rate: i16,
    pub last_update_timestamp: i64,
    pub current_rate: i16,
}

/// A transfer fee from an epoch on.
#[derive(Clone, Copy, Debug)]
pub struct TransferFee {
    pub epoch: u64,
    pub maximum_fee: u64,
    pub transfer_fee_basis_points: u16,
}

/// The mint's transfer fees and who manages them.
#[derive(Clone, Copy, Debug)]
pub struct TransferFeeConfig {
    pub transfer_fee_config_authority: Option<Pubkey>,
    pub withdraw_withheld_authority: Option<Pubkey>,
    pub withheld_amount: u64,
    pub older_transfer_fee: TransferFee,
    pub newer_transfer_fee: TransferFee,
}

/// Confidential transfers of the mint: who configures them, whether new
/// accounts are approved, and the auditor's ElGamal key.
#[derive(Clone, Copy, Debug)]
pub struct ConfidentialTransferMint {
    pub authority: Option<Pubkey>,
    pub auto_approve_new_accounts: bool,
    pub auditor_elgamal_pubkey: Option<[u8; 32]>,
}

/// Confidential transfer fees of the mint.
#[derive(Clone, Copy, Debug)]
pub struct ConfidentialTransferFeeConfig {
    pub authority: Option<Pubkey>,
    pub withdraw_withheld_authority_elgamal_pubkey: [u8; 32],
    pub harvest_to_mint_enabled: bool,
    pub withheld_amount: [u8; 64],
}

/// Confidential minting and burning: the encrypted supply and its key.
#[derive(Clone, Copy, Debug)]
pub struct ConfidentialMintBurn {
    pub confidential_supply: [u8; 64],
    pub decryptable_supply: [u8; 36],
    pub supply_elgamal_pubkey: [u8; 32],
}

/// The mint's tokens cannot be transferred.
#[derive(Clone, Copy, Debug)]
pub struct NonTransferable {}

/// The token account's owner cannot be changed.
#[derive(Clone, Copy, Debug)]
pub struct ImmutableOwner {}

/// The token account's confidential balances.
#[derive(Clone, Copy, Debug)]
pub struct ConfidentialTransferAccount {
    pub approved: bool,
    pub elgamal_pubkey: [u8; 32],
    pub pending_balance_lo: [u8; 64],
    pub pending_balance_hi: [u8; 64],
    pub available_balance: [u8; 64],
    pub decryptable_available_balance: [u8; 36],
    pub allow_confidential_credits: bool,
    pub allow_non_confidential_credits: bool,
    pub pending_balance_credit_counter: u64,
    pub maximum_pending_balance_credit_counter: u64,
    pub expected_pending_balance_credit_counter: u64,
    pub actual_pending_balance_credit_counter: u64,
}

/// Whether the token account is in the middle of a hooked transfer.
#[derive(Clone, Copy, Debug)]
pub struct TransferHookAccount {
    pub transferring: Option<bool>,
}

/// Whether privileged operations on the token account are locked out of
/// program calls.
#[derive(Clone, Copy, Debug)]
pub struct CpiGuard {
    pub lock_cpi: bool,
}

/// Whether incoming transfers need a memo.
#[derive(Clone, Copy, Debug)]
pub struct MemoTransfer {
    pub require_incoming_transfer_memos: bool,
}

/// Transfer fees withheld in the token account.
#[derive(Clone, Copy, Debug)]
pub struct TransferFeeAmount {
    pub withheld_amount: u64,
}

/// Confidential transfer fees withheld in the token account.
#[derive(Clone, Copy, Debug)]
pub struct ConfidentialTransferFeeAmount {
    pub withheld_amount: [u8; 64],
}

/// The token account belongs to a non-transferable mint.
#[derive(Clone, Copy, Debug)]
pub struct NonTransferableAccount {}

/// One extension a fuzz test asks for, with its parameters.
#[derive(Clone, Copy, Debug)]
pub enum ParamValue {
    MetadataPointer(MetadataPointer),
    GroupMemberPointer(GroupMemberPointer),
    GroupPointer(GroupPointer),
    TransferHook(TransferHook),
    MintCloseAuthority(MintCloseAuthority),
    PermanentDelegate(PermanentDelegate),
    DefaultAccountState(DefaultAccountState),
    InterestBearingConfig(InterestBearingConfig),
    NonTransferable(NonTransferable),
    TransferFeeConfig(TransferFeeConfig),
    ConfidentialTransferMint(ConfidentialTransferMint),
    ConfidentialTransferFeeConfig(ConfidentialTransferFeeConfig),
    ConfidentialMintBurn(ConfidentialMintBurn),
    ConfidentialTransferAccount(ConfidentialTransferAccount),
    TransferHookAccount(TransferHookAccount),
    CpiGuard(CpiGuard),
    MemoTransfer(MemoTransfer),
    TransferFeeAmount(TransferFeeAmount),
    ImmutableOwner(ImmutableOwner),
    NonTransferableAccount(NonTransferableAccount),
    ConfidentialTransferFeeAmount(ConfidentialTransferFeeAmount),
}

/// The token-2022 extension type a parameter selects, by its number in the
/// program's `ExtensionType`.
pub open spec fn extension_code(p: ParamValue) -> u16 {
    match p {
        ParamValue::TransferFeeConfig(_) => 1,
        ParamValue::TransferFeeAmount(_) => 2,
        ParamValue::MintCloseAuthority(_) => 3,
        ParamValue::ConfidentialTransferMint(_) => 4,
        ParamValue::ConfidentialTransferAccount(_) => 5,
        ParamValue::DefaultAccountState(_) => 6,
        ParamValue::ImmutableOwner(_) => 7,
        ParamValue::MemoTransfer(_) => 8,
        ParamValue::NonTransferable(_) => 9,
        ParamValue::InterestBearingConfig(_) => 10,
        ParamValue::CpiGuard(_) => 11,
        ParamValue::PermanentDelegate(_) => 12,
        ParamValue::NonTransferableAccount(_) => 13,
        ParamValue::TransferHook(_) => 14,
        ParamValue::TransferHookAccount(_) => 15,
        ParamValue::ConfidentialTransferFeeConfig(_) => 16,
        ParamValue::ConfidentialTransferFeeAmount(_) => 17,
        ParamValue::MetadataPointer(_) => 18,
        ParamValue::GroupPointer(_) => 20,
        ParamValue::GroupMemberPointer(_) => 22,
        ParamValue::ConfidentialMintBurn(_) => 24,
    }
}

/// Whether the parameter selects a mint extension.
pub open spec fn is_mint_param(p: ParamValue) -> bool {
    match p {
        ParamValue::MetadataPointer(_) | ParamValue::GroupMemberPointer(_) | ParamValue::GroupPointer(_)
        | ParamValue::TransferHook(_) | ParamValue::MintCloseAuthority(_) | ParamValue::PermanentDelegate(_)
        | ParamValue::DefaultAccountState(_) | ParamValue::InterestBearingConfig(_) | ParamValue::NonTransferable(_)
        | ParamValue::TransferFeeConfig(_) | ParamValue::ConfidentialTransferMint(_)
        | ParamValue::ConfidentialTransferFeeConfig(_) | ParamValue::ConfidentialMintBurn(_) => true,
        _ => false,
    }
}

/// The extension type numbers of the mint extensions.
pub open spec fn is_mint_code(c: u16) -> bool {
    c == 1 || c == 3 || c == 4 || c == 6 || c == 9 || c == 10 || c == 12 || c == 14 || c == 16 || c == 18 || c == 20
        || c == 22 || c == 24
}

/// The extension type numbers of the token account extensions.
pub open spec fn is_account_code(c: u16) -> bool {
    c == 2 || c == 5 || c == 7 || c == 8 || c == 11 || c == 13 || c == 15 || c == 17
}

/// The extension type of a parameter.
pub fn param_code(p: &ParamValue) -> (r: u16)
    ensures
        r == extension_code(*p),
        is_mint_param(*p) ==> is_mint_code(r),
        !is_mint_param(*p) ==> is_account_code(r),
{
    match p {
        ParamValue::TransferFeeConfig(_) => 1,
        ParamValue::TransferFeeAmount(_) => 2,
        ParamValue::MintCloseAuthority(_) => 3,
        ParamValue::ConfidentialTransferMint(_) => 4,
        ParamValue::ConfidentialTransferAccount(_) => 5,
        ParamValue::DefaultAccountState(_) => 6,
        ParamValue::ImmutableOwner(_) => 7,
        ParamValue::MemoTransfer(_) => 8,
        ParamValue::NonTransferable(_) => 9,
        ParamValue::InterestBearingConfig(_) => 10,
        ParamValue::CpiGuard(_) => 11,
        ParamValue::PermanentDelegate(_) => 12,
        ParamValue::NonTransferableAccount(_) => 13,
        ParamValue::TransferHook(_) => 14,
        ParamValue::TransferHookAccount(_) => 15,
        ParamValue::ConfidentialTransferFeeConfig(_) => 16,
        ParamValue::ConfidentialTransferFeeAmount(_) => 17,
        ParamValue::MetadataPointer(_) => 18,
        ParamValue::GroupPointer(_) => 20,
        ParamValue::GroupMemberPointer(_) => 22,
        ParamValue::ConfidentialMintBurn(_) => 24,
    }
}

/// An optional address the program accepts: absent, or not all zeros.
pub open spec fn key_ok(o: Option<Pubkey>) -> bool {
    o matches Some(k) ==> k@ != zero_key()
}

/// An optional ElGamal key the program accepts: absent, or not all zeros.
pub open spec fn elgamal_ok(o: Option<[u8; 32]>) -> bool {
    o matches Some(k) ==> k@ != Seq::new(32, |i: int| 0u8)
}

/// The checks a mint extension's parameters must pass: optional
/// addresses are absent or nonzero, a group pointer has an authority or
/// an address, a default account state is not uninitialized, transfer
/// fees are at most 10,000 basis points, and an auditor key is absent or
/// nonzero.
pub open spec fn mint_param_ok(p: ParamValue) -> bool {
    match p {
        ParamValue::MetadataPointer(x) => key_ok(x.authority) && key_ok(x.metadata_address),
        ParamValue::GroupMemberPointer(x) => key_ok(x.authority) && key_ok(x.member_address),
        ParamValue::GroupPointer(x) => key_ok(x.authority) && key_ok(x.group_address)
            && (x.authority is Some || x.group_address is Some),
        ParamValue::TransferHook(x) => key_ok(x.authority) && key_ok(x.program_id),
        ParamValue::MintCloseAuthority(x) => key_ok(x.close_authority),
        ParamValue::PermanentDelegate(x) => key_ok(x.delegate),
        ParamValue::DefaultAccountState(x) => x.state != 0,
        ParamValue::InterestBearingConfig(x) => key_ok(x.rate_authority),
        ParamValue::TransferFeeConfig(x) => key_ok(x.transfer_fee_config_authority) && key_ok(x.withdraw_withheld_authority)
            && x.older_transfer_fee.transfer_fee_basis_points <= 10000
            && x.newer_transfer_fee.transfer_fee_basis_points <= 10000,
        ParamValue::ConfidentialTransferMint(x) => key_ok(x.authority) && elgamal_ok(x.auditor_elgamal_pubkey),
        ParamValue::ConfidentialTransferFeeConfig(x) => key_ok(x.authority),
        _ => true,
    }
}

/// Whether no earlier parameter selects the same extension as the one at
/// `i`: the program reads an extension's parameters from the first one.
pub open spec fn first_of_kind(ps: Seq<ParamValue>, i: int) -> bool {
    forall|k: int| 0 <= k < i ==> extension_code(#[trigger] ps[k]) != extension_code(ps[i])
}

/// The index of the first parameter that selects the same extension as
/// the one at `i`.
pub open spec fn first_index(ps: Seq<ParamValue>, i: int) -> int {
    choose|j: int| 0 <= j <= i && extension_code(ps[j]) == extension_code(ps[i]) && first_of_kind(ps, j)
}

/// Parameters a mint can be created from: each selects a mint extension,
/// and the first of each kind passes its checks.
pub open spec fn mint_params_ok(ps: Seq<ParamValue>) -> bool {
    forall|i: int| 0 <= i < ps.len() ==> is_mint_param(#[trigger] ps[i]) && (first_of_kind(ps, i) ==> mint_param_ok(ps[i]))
}

/// Parameters a token account can be created from: each selects a token
/// account extension.
pub open spec fn account_params_ok(ps: Seq<ParamValue>) -> bool {
    forall|i: int| 0 <= i < ps.len() ==> !is_mint_param(#[trigger] ps[i])
}

/// Where the first parameter of the kind of the one at `i` stands.
pub fn first_index_of_kind(ps: &Vec<ParamValue>, i: usize) -> (j: usize)
    requires
        i < ps@.len(),
    ensures
        j <= i,
        extension_code(ps@[j as int]) == extension_code(ps@[i as int]),
        first_of_kind(ps@, j as int),
        j == first_index(ps@, i as int),
{
    let code = param_code(&ps[i]);
    let mut j: usize = 0;
    while j < i
        invariant
            0 <= j <= i < ps@.len(),
            code == extension_code(ps@[i as int]),
            forall|k: int| 0 <= k < j ==> extension_code(#[trigger] ps@[k]) != code,
        ensures
            0 <= j <= i,
            extension_code(ps@[j as int]) == code,
            forall|k: int| 0 <= k < j ==> extension_code(#[trigger] ps@[k]) != code,
        decreases i - j,
    {
        if param_code(&ps[j]) == code {
            break;
        }
        j = j + 1;
    }
    proof {
        let c = first_index(ps@, i as int);
        assert(0 <= j <= i && extension_code(ps@[j as int]) == extension_code(ps@[i as int]) && first_of_kind(ps@, j as int));
        assert(0 <= c <= i && extension_code(ps@[c]) == extension_code(ps@[i as int]) && first_of_kind(ps@, c));
        if c < j {
            assert(extension_code(ps@[c]) != extension_code(ps@[j as int]));
        }
        if j < c {
            assert(extension_code(ps@[j as int]) != extension_code(ps@[c]));
        }
    }
    j
}

/// The buffer after `write_metadata_pointer` with these parameters.
pub uninterp spec fn metadata_pointer_written(data: Seq<u8>, p: MetadataPointer) -> Seq<u8>;

/// Calls `StateWithExtensionsMut::<Mint>::unpack_uninitialized` of
/// `spl_token_2022` on the buffer and `init_extension::<MetadataPointer>(true)`
/// on the state, which sets its authority and metadata address; on an error of either call the
/// parameters are not written. The state works on the buffer as a slice, so its length
/// is kept; the bytes that come out are named.
/// An address given is not all zeros: its conversion to an optional
/// nonzero address would refuse it.
#[verifier::external_body]
fn write_metadata_pointer(data: &mut Vec<u8>, p: &MetadataPointer)
    requires
        key_ok(p.authority),
        key_ok(p.metadata_address),
    ensures
        final(data)@ == metadata_pointer_written(old(data)@, *p),
        final(data)@.len() == old(data)@.len(),
{
    if let Ok(mut s) = StateWithExtensionsMut::<Mint2022>::unpack_uninitialized(data) {
        if let Ok(e) = s.init_extension::<ext::metadata_pointer::MetadataPointer>(true) {
            e.authority = p.authority.map(|k| SdkPubkey::new_from_array(k.bytes)).try_into().unwrap();
            e.metadata_address = p.metadata_address.map(|k| SdkPubkey::new_from_array(k.bytes)).try_into().unwrap();
        }
    }
}

/// The buffer after `write_group_member_pointer` with these parameters.
pub uninterp spec fn group_member_pointer_written(data: Seq<u8>, p: GroupMemberPointer) -> Seq<u8>;

/// Calls `StateWithExtensionsMut::<Mint>::unpack_uninitialized` of
/// `spl_token_2022` on the buffer and `init_extension::<GroupMemberPointer>(true)`
/// on the state, which sets its authority and member address; on an error of either call the
/// parameters are not written. The state works on the buffer as a slice, so its length
/// is kept; the bytes that come out are named.
/// An address given is not all zeros: its conversion to an optional
/// nonzero address would refuse it.
#[verifier::external_body]
fn write_group_member_pointer(data: &mut Vec<u8>, p: &GroupMemberPointer)
    requires
        key_ok(p.authority),
        key_ok(p.member_address),
    ensures
        final(data)@ == group_member_pointer_written(old(data)@, *p),
        final(data)@.len() == old(data)@.len(),
{
    if let Ok(mut s) = StateWithExtensionsMut::<Mint2022>::unpack_uninitialized(data) {
        if let Ok(e) = s.init_extension::<ext::group_member_pointer::GroupMemberPointer>(true) {
            e.authority = p.authority.map(|k| SdkPubkey::new_from_array(k.bytes)).try_into().unwrap();
            e.member_address = p.member_address.map(|k| SdkPubkey::new_from_array(k.bytes)).try_into().unwrap();
        }
    }
}

/// The buffer after `write_group_pointer` with these parameters.
pub uninterp spec fn group_pointer_written(data: Seq<u8>, p: GroupPointer) -> Seq<u8>;

/// Calls `StateWithExtensionsMut::<Mint>::unpack_uninitialized` of
/// `spl_token_2022` on the buffer and `init_extension::<GroupPointer>(true)`
/// on the state, which sets its authority and group address; on an error of either call the
/// parameters are not written. The state works on the buffer as a slice, so its length
/// is kept; the bytes that come out are named.
/// An address given is not all zeros: its conversion to an optional
/// nonzero address would refuse it.
#[verifier::external_body]
fn write_group_pointer(data: &mut Vec<u8>, p: &GroupPointer)
    requires
        key_ok(p.authority),
        key_ok(p.group_address),
    ensures
        final(data)@ == group_pointer_written(old(data)@, *p),
        final(data)@.len() == old(data)@.len(),
{
    if let Ok(mut s) = StateWithExtensionsMut::<Mint2022>::unpack_uninitialized(data) {
        if let Ok(e) = s.init_extension::<ext::group_pointer::GroupPointer>(true) {
            e.authority = p.authority.map(|k| SdkPubkey::new_from_array(k.bytes)).try_into().unwrap();
            e.group_address = p.group_address.map(|k| SdkPubkey::new_from_array(k.bytes)).try_into().unwrap();
        }
    }
}

/// The buffer after `write_transfer_hook` with these parameters.
pub uninterp spec fn transfer_hook_written(data: Seq<u8>, p: TransferHook) -> Seq<u8>;

/// Calls `StateWithExtensionsMut::<Mint>::unpack_uninitialized` of
/// `spl_token_2022` on the buffer and `init_extension::<TransferHook>(true)`
/// on the state, which sets its authority and program; on an error of either call the
/// parameters are not written. The state works on the buffer as a slice, so its length
/// is kept; the bytes that come out are named.
/// An address given is not all zeros: its conversion to an optional
/// nonzero address would refuse it.
#[verifier::external_body]
fn write_transfer_hook(data: &mut Vec<u8>, p: &TransferHook)
    requires
        key_ok(p.authority),
        key_ok(p.program_id),
    ensures
        final(data)@ == transfer_hook_written(old(data)@, *p),
        final(data)@.len() == old(data)@.len(),
{
    if let Ok(mut s) = StateWithExtensionsMut::<Mint2022>::unpack_uninitialized(data) {
        if let Ok(e) = s.init_extension::<ext::transfer_hook::TransferHook>(true) {
            e.authority = p.authority.map(|k| SdkPubkey::new_from_array(k.bytes)).try_into().unwrap();
            e.program_id = p.program_id.map(|k| SdkPubkey::new_from_array(k.bytes)).try_into().unwrap();
        }
    }
}

/// The buffer after `write_mint_close_authority` with these parameters.
pub uninterp spec fn mint_close_authority_written(data: Seq<u8>, p: MintCloseAuthority) -> Seq<u8>;

/// Calls `StateWithExtensionsMut::<Mint>::unpack_uninitialized` of
/// `spl_token_2022` on the buffer and `init_extension::<MintCloseAuthority>(true)`
/// on the state, which sets the close authority; on an error of either call the
/// parameters are not written. The state works on the buffer as a slice, so its length
/// is kept; the bytes that come out are named.
/// An address given is not all zeros: its conversion to an optional
/// nonzero address would refuse it.
#[verifier::external_body]
fn write_mint_close_authority(data: &mut Vec<u8>, p: &MintCloseAuthority)
    requires
        key_ok(p.close_authority),
    ensures
        final(data)@ == mint_close_authority_written(old(data)@, *p),
        final(data)@.len() == old(data)@.len(),
{
    if let Ok(mut s) = StateWithExtensionsMut::<Mint2022>::unpack_uninitialized(data) {
        if let Ok(e) = s.init_extension::<ext::mint_close_authority::MintCloseAuthority>(true) {
            e.close_authority = p.close_authority.map(|k| SdkPubkey::new_from_array(k.bytes)).try_into().unwrap();
        }
    }
}

/// The buffer after `write_permanent_delegate` with these parameters.
pub uninterp spec fn permanent_delegate_written(data: Seq<u8>, p: PermanentDelegate) -> Seq<u8>;

/// Calls `StateWithExtensionsMut::<Mint>::unpack_uninitialized` of
/// `spl_token_2022` on the buffer and `init_extension::<PermanentDelegate>(true)`
/// on the state, which sets the delegate; on an error of either call the
/// parameters are not written. The state works on the buffer as a slice, so its length
/// is kept; the bytes that come out are named.
/// An address given is not all zeros: its conversion to an optional
/// nonzero address would refuse it.
#[verifier::external_body]
fn write_permanent_delegate(data: &mut Vec<u8>, p: &PermanentDelegate)
    requires
        key_ok(p.delegate),
    ensures
        final(data)@ == permanent_delegate_written(old(data)@, *p),
        final(data)@.len() == old(data)@.len(),
{
    if let Ok(mut s) = StateWithExtensionsMut::<Mint2022>::unpack_uninitialized(data) {
        if let Ok(e) = s.init_extension::<ext::permanent_delegate::PermanentDelegate>(true) {
            e.delegate = p.delegate.map(|k| SdkPubkey::new_from_array(k.bytes)).try_into().unwrap();
        }
    }
}

/// The buffer after `write_default_account_state` with these parameters.
pub uninterp spec fn default_account_state_written(data: Seq<u8>, p: DefaultAccountState) -> Seq<u8>;

/// Calls `StateWithExtensionsMut::<Mint>::unpack_uninitialized` of
/// `spl_token_2022` on the buffer and `init_extension::<DefaultAccountState>(true)`
/// on the state, which sets the state; on an error of either call the
/// parameters are not written. The state works on the buffer as a slice, so its length
/// is kept; the bytes that come out are named.
#[verifier::external_body]
fn write_default_account_state(data: &mut Vec<u8>, p: &DefaultAccountState)
    ensures
        final(data)@ == default_account_state_written(old(data)@, *p),
        final(data)@.len() == old(data)@.len(),
{
    if let Ok(mut s) = StateWithExtensionsMut::<Mint2022>::unpack_uninitialized(data) {
        if let Ok(e) = s.init_extension::<ext::default_account_state::DefaultAccountState>(true) {
            e.state = p.state;
        }
    }
}

/// The buffer after `write_interest_bearing_config` with these parameters.
pub uninterp spec fn interest_bearing_config_written(data: Seq<u8>, p: InterestBearingConfig) -> Seq<u8>;

/// Calls `StateWithExtensionsMut::<Mint>::unpack_uninitialized` of
/// `spl_token_2022` on the buffer and `init_extension::<InterestBearingConfig>(true)`
/// on the state, which sets the rate authority, timestamps and rates; on an error of either call the
/// parameters are not written. The state works on the buffer as a slice, so its length
/// is kept; the bytes that come out are named.
/// An address given is not all zeros: its conversion to an optional
/// nonzero address would refuse it.
#[verifier::external_body]
fn write_interest_bearing_config(data: &mut Vec<u8>, p: &InterestBearingConfig)
    requires
        key_ok(p.rate_authority),
    ensures
        final(data)@ == interest_bearing_config_written(old(data)@, *p),
        final(data)@.len() == old(data)@.len(),
{
    if let Ok(mut s) = StateWithExtensionsMut::<Mint2022>::unpack_uninitialized(data) {
        if let Ok(e) = s.init_extension::<ext::interest_bearing_mint::InterestBearingConfig>(true) {
            e.rate_authority = p.rate_authority.map(|k| SdkPubkey::new_from_array(k.bytes)).try_into().unwrap();
            e.initialization_timestamp = p.initialization_timestamp.into();
            e.pre_update_average_rate = p.pre_update_average_rate.into();
            e.last_update_timestamp = p.last_update_timestamp.into();
            e.current_rate = p.current_rate.into();
        }
    }
}

/// The buffer after `write_non_transferable` with these parameters.
pub uninterp spec fn non_transferable_written(data: Seq<u8>, p: NonTransferable) -> Seq<u8>;

/// Calls `StateWithExtensionsMut::<Mint>::unpack_uninitialized` of
/// `spl_token_2022` on the buffer and `init_extension::<NonTransferable>(true)`
/// on the state, an extension without fields; on an error of either call the
/// parameters are not written. The state works on the buffer as a slice, so its length
/// is kept; the bytes that come out are named.
#[verifier::external_body]
fn write_non_transferable(data: &mut Vec<u8>, _p: &NonTransferable)
    ensures
        final(data)@ == non_transferable_written(old(data)@, *_p),
        final(data)@.len() == old(data)@.len(),
{
    if let Ok(mut s) = StateWithExtensionsMut::<Mint2022>::unpack_uninitialized(data) {
        let _ = s.init_extension::<ext::non_transferable::NonTransferable>(true);
    }
}

/// The buffer after `write_transfer_fee_config` with these parameters.
pub uninterp spec fn transfer_fee_config_written(data: Seq<u8>, p: TransferFeeConfig) -> Seq<u8>;

/// Calls `StateWithExtensionsMut::<Mint>::unpack_uninitialized` of
/// `spl_token_2022` on the buffer and `init_extension::<TransferFeeConfig>(true)`
/// on the state, which sets the authorities, the withheld amount and both fees; on an error of either call the
/// parameters are not written. The state works on the buffer as a slice, so its length
/// is kept; the bytes that come out are named.
/// An address given is not all zeros: its conversion to an optional
/// nonzero address would refuse it.
#[verifier::external_body]
fn write_transfer_fee_config(data: &mut Vec<u8>, p: &TransferFeeConfig)
    requires
        key_ok(p.transfer_fee_config_authority),
        key_ok(p.withdraw_withheld_authority),
    ensures
        final(data)@ == transfer_fee_config_written(old(data)@, *p),
        final(data)@.len() == old(data)@.len(),
{
    if let Ok(mut s) = StateWithExtensionsMut::<Mint2022>::unpack_uninitialized(data) {
        if let Ok(e) = s.init_extension::<FeeConfig2022>(true) {
            e.transfer_fee_config_authority = p.transfer_fee_config_authority.map(|k| SdkPubkey::new_from_array(k.bytes)).try_into().unwrap();
            e.withdraw_withheld_authority = p.withdraw_withheld_authority.map(|k| SdkPubkey::new_from_array(k.bytes)).try_into().unwrap();
            e.withheld_amount = p.withheld_amount.into();
            e.older_transfer_fee = Fee2022 { epoch: p.older_transfer_fee.epoch.into(), maximum_fee: p.older_transfer_fee.maximum_fee.into(), transfer_fee_basis_points: p.older_transfer_fee.transfer_fee_basis_points.into() };
            e.newer_transfer_fee = Fee2022 { epoch: p.newer_transfer_fee.epoch.into(), maximum_fee: p.newer_transfer_fee.maximum_fee.into(), transfer_fee_basis_points: p.newer_transfer_fee.transfer_fee_basis_points.into() };
        }
    }
}

/// The buffer after `write_confidential_transfer_mint` with these parameters.
pub uninterp spec fn confidential_transfer_mint_written(data: Seq<u8>, p: ConfidentialTransferMint) -> Seq<u8>;

/// Calls `StateWithExtensionsMut::<Mint>::unpack_uninitialized` of
/// `spl_token_2022` on the buffer and `init_extension::<ConfidentialTransferMint>(true)`
/// on the state, which sets the authority, the approval policy and the auditor key; on an error of either call the
/// parameters are not written. The state works on the buffer as a slice, so its length
/// is kept; the bytes that come out are named.
/// An address or auditor key given is not all zeros: its conversion to
/// an optional nonzero value would refuse it.
#[verifier::external_body]
fn write_confidential_transfer_mint(data: &mut Vec<u8>, p: &ConfidentialTransferMint)
    requires
        key_ok(p.authority),
        elgamal_ok(p.auditor_elgamal_pubkey),
    ensures
        final(data)@ == confidential_transfer_mint_written(old(data)@, *p),
        final(data)@.len() == old(data)@.len(),
{
    if let Ok(mut s) = StateWithExtensionsMut::<Mint2022>::unpack_uninitialized(data) {
        if let Ok(e) = s.init_extension::<ext::confidential_transfer::ConfidentialTransferMint>(true) {
            e.authority = p.authority.map(|k| SdkPubkey::new_from_array(k.bytes)).try_into().unwrap();
            e.auto_approve_new_accounts = p.auto_approve_new_accounts.into();
            e.auditor_elgamal_pubkey = p.auditor_elgamal_pubkey.map(PodElGamalPubkey::from).try_into().unwrap();
        }
    }
}

/// The buffer after `write_confidential_transfer_fee_config` with these parameters.
pub uninterp spec fn confidential_transfer_fee_config_written(data: Seq<u8>, p: ConfidentialTransferFeeConfig) -> Seq<u8>;

/// Calls `StateWithExtensionsMut::<Mint>::unpack_uninitialized` of
/// `spl_token_2022` on the buffer and `init_extension::<ConfidentialTransferFeeConfig>(true)`
/// on the state, which sets the authority, the withdraw key, the harvest flag and the withheld amount; on an error of either call the
/// parameters are not written. The state works on the buffer as a slice, so its length
/// is kept; the bytes that come out are named.
/// An address given is not all zeros: its conversion to an optional
/// nonzero address would refuse it.
#[verifier::external_body]
fn write_confidential_transfer_fee_config(data: &mut Vec<u8>, p: &ConfidentialTransferFeeConfig)
    requires
        key_ok(p.authority),
    ensures
        final(data)@ == confidential_transfer_fee_config_written(old(data)@, *p),
        final(data)@.len() == old(data)@.len(),
{
    if let Ok(mut s) = StateWithExtensionsMut::<Mint2022>::unpack_uninitialized(data) {
        if let Ok(e) = s.init_extension::<ext::confidential_transfer_fee::ConfidentialTransferFeeConfig>(true) {
            e.authority = p.authority.map(|k| SdkPubkey::new_from_array(k.bytes)).try_into().unwrap();
            e.withdraw_withheld_authority_elgamal_pubkey = PodElGamalPubkey::from(p.withdraw_withheld_authority_elgamal_pubkey);
            e.harvest_to_mint_enabled = p.harvest_to_mint_enabled.into();
            e.withheld_amount = PodElGamalCiphertext::from(p.withheld_amount);
        }
    }
}

/// The buffer after `write_confidential_mint_burn` with these parameters.
pub uninterp spec fn confidential_mint_burn_written(data: Seq<u8>, p: ConfidentialMintBurn) -> Seq<u8>;

/// Calls `StateWithExtensionsMut::<Mint>::unpack_uninitialized` of
/// `spl_token_2022` on the buffer and `init_extension::<ConfidentialMintBurn>(true)`
/// on the state, which sets the encrypted supply, its decryptable form and the supply key; on an error of either call the
/// parameters are not written. The state works on the buffer as a slice, so its length
/// is kept; the bytes that come out are named.
#[verifier::external_body]
fn write_confidential_mint_burn(data: &mut Vec<u8>, p: &ConfidentialMintBurn)
    ensures
        final(data)@ == confidential_mint_burn_written(old(data)@, *p),
        final(data)@.len() == old(data)@.len(),
{
    if let Ok(mut s) = StateWithExtensionsMut::<Mint2022>::unpack_uninitialized(data) {
        if let Ok(e) = s.init_extension::<ext::confidential_mint_burn::ConfidentialMintBurn>(true) {
            e.confidential_supply = PodElGamalCiphertext::from(p.confidential_supply);
            e.decryptable_supply = PodAeCiphertext::from(p.decryptable_supply);
            e.supply_elgamal_pubkey = PodElGamalPubkey::from(p.supply_elgamal_pubkey);
        }
    }
}

/// The buffer after `write_confidential_transfer_account` with these parameters.
pub uninterp spec fn confidential_transfer_account_written(data: Seq<u8>, p: ConfidentialTransferAccount) -> Seq<u8>;

/// Calls `StateWithExtensionsMut::<Account>::unpack_uninitialized` of
/// `spl_token_2022` on the buffer and `init_extension::<ConfidentialTransferAccount>(true)`
/// on the state, which sets every field; on an error of either call the
/// parameters are not written. The state works on the buffer as a slice, so its length
/// is kept; the bytes that come out are named.
#[verifier::external_body]
fn write_confidential_transfer_account(data: &mut Vec<u8>, p: &ConfidentialTransferAccount)
    ensures
        final(data)@ == confidential_transfer_account_written(old(data)@, *p),
        final(data)@.len() == old(data)@.len(),
{
    if let Ok(mut s) = StateWithExtensionsMut::<Account2022>::unpack_uninitialized(data) {
        if let Ok(e) = s.init_extension::<ext::confidential_transfer::ConfidentialTransferAccount>(true) {
            e.approved = p.approved.into();
            e.elgamal_pubkey = PodElGamalPubkey::from(p.elgamal_pubkey);
            e.pending_balance_lo = PodElGamalCiphertext::from(p.pending_balance_lo);
            e.pending_balance_hi = PodElGamalCiphertext::from(p.pending_balance_hi);
            e.available_balance = PodElGamalCiphertext::from(p.available_balance);
            e.decryptable_available_balance = PodAeCiphertext::from(p.decryptable_available_balance);
            e.allow_confidential_credits = p.allow_confidential_credits.into(); e.allow_non_confidential_credits = p.allow_non_confidential_credits.into();
            e.pending_balance_credit_counter = p.pending_balance_credit_counter.into(); e.maximum_pending_balance_credit_counter = p.maximum_pending_balance_credit_counter.into();
            e.expected_pending_balance_credit_counter = p.expected_pending_balance_credit_counter.into(); e.actual_pending_balance_credit_counter = p.actual_pending_balance_credit_counter.into();
        }
    }
}

/// The buffer after `write_cpi_guard` with these parameters.
pub uninterp spec fn cpi_guard_written(data: Seq<u8>, p: CpiGuard) -> Seq<u8>;

/// Calls `StateWithExtensionsMut::<Account>::unpack_uninitialized` of
/// `spl_token_2022` on the buffer and `init_extension::<CpiGuard>(true)`
/// on the state, which sets the lock; on an error of either call the
/// parameters are not written. The state works on the buffer as a slice, so its length
/// is kept; the bytes that come out are named.
#[verifier::external_body]
fn write_cpi_guard(data: &mut Vec<u8>, p: &CpiGuard)
    ensures
        final(data)@ == cpi_guard_written(old(data)@, *p),
        final(data)@.len() == old(data)@.len(),
{
    if let Ok(mut s) = StateWithExtensionsMut::<Account2022>::unpack_uninitialized(data) {
        if let Ok(e) = s.init_extension::<ext::cpi_guard::CpiGuard>(true) {
            e.lock_cpi = p.lock_cpi.into();
        }
    }
}

/// The buffer after `write_memo_transfer` with these parameters.
pub uninterp spec fn memo_transfer_written(data: Seq<u8>, p: MemoTransfer) -> Seq<u8>;

/// Calls `StateWithExtensionsMut::<Account>::unpack_uninitialized` of
/// `spl_token_2022` on the buffer and `init_extension::<MemoTransfer>(true)`
/// on the state, which sets the memo requirement; on an error of either call the
/// parameters are not written. The state works on the buffer as a slice, so its length
/// is kept; the bytes that come out are named.
#[verifier::external_body]
fn write_memo_transfer(data: &mut Vec<u8>, p: &MemoTransfer)
    ensures
        final(data)@ == memo_transfer_written(old(data)@, *p),
        final(data)@.len() == old(data)@.len(),
{
    if let Ok(mut s) = StateWithExtensionsMut::<Account2022>::unpack_uninitialized(data) {
        if let Ok(e) = s.init_extension::<ext::memo_transfer::MemoTransfer>(true) {
            e.require_incoming_transfer_memos = p.require_incoming_transfer_memos.into();
        }
    }
}

/// The buffer after `write_transfer_fee_amount` with these parameters.
pub uninterp spec fn transfer_fee_amount_written(data: Seq<u8>, p: TransferFeeAmount) -> Seq<u8>;

/// Calls `StateWithExtensionsMut::<Account>::unpack_uninitialized` of
/// `spl_token_2022` on the buffer and `init_extension::<TransferFeeAmount>(true)`
/// on the state, which sets the withheld amount; on an error of either call the
/// parameters are not written. The state works on the buffer as a slice, so its length
/// is kept; the bytes that come out are named.
#[verifier::external_body]
fn write_transfer_fee_amount(data: &mut Vec<u8>, p: &TransferFeeAmount)
    ensures
        final(data)@ == transfer_fee_amount_written(old(data)@, *p),
        final(data)@.len() == old(data)@.len(),
{
    if let Ok(mut s) = StateWithExtensionsMut::<Account2022>::unpack_uninitialized(data) {
        if let Ok(e) = s.init_extension::<ext::transfer_fee::TransferFeeAmount>(true) {
            e.withheld_amount = p.withheld_amount.into();
        }
    }
}

/// The buffer after `write_immutable_owner` with these parameters.
pub uninterp spec fn immutable_owner_written(data: Seq<u8>, p: ImmutableOwner) -> Seq<u8>;

/// Calls `StateWithExtensionsMut::<Account>::unpack_uninitialized` of
/// `spl_token_2022` on the buffer and `init_extension::<ImmutableOwner>(true)`
/// on the state, an extension without fields; on an error of either call the
/// parameters are not written. The state works on the buffer as a slice, so its length
/// is kept; the bytes that come out are named.
#[verifier::external_body]
fn write_immutable_owner(data: &mut Vec<u8>, _p: &ImmutableOwner)
    ensures
        final(data)@ == immutable_owner_written(old(data)@, *_p),
        final(data)@.len() == old(data)@.len(),
{
    if let Ok(mut s) = StateWithExtensionsMut::<Account2022>::unpack_uninitialized(data) {
        let _ = s.init_extension::<ext::immutable_owner::ImmutableOwner>(true);
    }
}

/// The buffer after `write_non_transferable_account` with these parameters.
pub uninterp spec fn non_transferable_account_written(data: Seq<u8>, p: NonTransferableAccount) -> Seq<u8>;

/// Calls `StateWithExtensionsMut::<Account>::unpack_uninitialized` of
/// `spl_token_2022` on the buffer and `init_extension::<NonTransferableAccount>(true)`
/// on the state, an extension without fields; on an error of either call the
/// parameters are not written. The state works on the buffer as a slice, so its length
/// is kept; the bytes that come out are named.
#[verifier::external_body]
fn write_non_transferable_account(data: &mut Vec<u8>, _p: &NonTransferableAccount)
    ensures
        final(data)@ == non_transferable_account_written(old(data)@, *_p),
        final(data)@.len() == old(data)@.len(),
{
    if let Ok(mut s) = StateWithExtensionsMut::<Account2022>::unpack_uninitialized(data) {
        let _ = s.init_extension::<ext::non_transferable::NonTransferableAccount>(true);
    }
}

/// The buffer after `write_confidential_transfer_fee_amount` with these parameters.
pub uninterp spec fn confidential_transfer_fee_amount_written(data: Seq<u8>, p: ConfidentialTransferFeeAmount) -> Seq<u8>;

/// Calls `StateWithExtensionsMut::<Account>::unpack_uninitialized` of
/// `spl_token_2022` on the buffer and `init_extension::<ConfidentialTransferFeeAmount>(true)`
/// on the state, which sets the withheld amount; on an error of either call the
/// parameters are not written. The state works on the buffer as a slice, so its length
/// is kept; the bytes that come out are named.
#[verifier::external_body]
fn write_confidential_transfer_fee_amount(data: &mut Vec<u8>, p: &ConfidentialTransferFeeAmount)
    ensures
        final(data)@ == confidential_transfer_fee_amount_written(old(data)@, *p),
        final(data)@.len() == old(data)@.len(),
{
    if let Ok(mut s) = StateWithExtensionsMut::<Account2022>::unpack_uninitialized(data) {
        if let Ok(e) = s.init_extension::<ext::confidential_transfer_fee::ConfidentialTransferFeeAmount>(true) {
            e.withheld_amount = PodElGamalCiphertext::from(p.withheld_amount);
        }
    }
}
/// What `ExtensionType::try_calculate_account_len::<Mint>` of
/// `spl_token_2022` gives for extension types by their numbers.
pub uninterp spec fn mint_extensions_len(codes: Seq<u16>) -> usize;

/// What `ExtensionType::try_calculate_account_len::<Account>` of
/// `spl_token_2022` gives for extension types by their numbers.
pub uninterp spec fn account_extensions_len(codes: Seq<u16>) -> usize;

/// Calls `ExtensionType::try_calculate_account_len::<Mint>` of
/// `spl_token_2022` on the extension types with these numbers. Its source
/// counts each type once: the 166 bytes of a token account and its type
/// byte, then for each type a 4-byte header and the extension's fixed
/// size, each under 300 bytes, with 2 more bytes where the total would be
/// a multisig's 355; it fails only for variable-length types, which no
/// mint number here is. The length is named.
#[verifier::external_body]
fn mint_len_with(codes: &Vec<u16>) -> (r: usize)
    requires
        codes@.len() > 0,
        forall|i: int| 0 <= i < codes@.len() ==> is_mint_code(#[trigger] codes@[i]),
    ensures
        r == mint_extensions_len(codes@),
        r <= 10240,
{
    let types: Vec<ExtensionType> = codes.iter().map(|c| ExtensionType::try_from(*c).unwrap()).collect();
    ExtensionType::try_calculate_account_len::<Mint2022>(&types).unwrap()
}

/// Calls `ExtensionType::try_calculate_account_len::<Account>` of
/// `spl_token_2022` on the extension types with these numbers; as for
/// `mint_len_with`, with no variable-length type among the account
/// numbers. The length is named.
#[verifier::external_body]
fn account_len_with(codes: &Vec<u16>) -> (r: usize)
    requires
        codes@.len() > 0,
        forall|i: int| 0 <= i < codes@.len() ==> is_account_code(#[trigger] codes@[i]),
    ensures
        r == account_extensions_len(codes@),
        r <= 10240,
{
    let types: Vec<ExtensionType> = codes.iter().map(|c| ExtensionType::try_from(*c).unwrap()).collect();
    ExtensionType::try_calculate_account_len::<Account2022>(&types).unwrap()
}

/// The buffer after `write_mint_base` with these fields.
pub uninterp spec fn mint_base_written(data: Seq<u8>, m: Mint) -> Seq<u8>;

/// The buffer after `write_account_base` with these fields.
pub uninterp spec fn account_base_written(data: Seq<u8>, a: TokenAccount) -> Seq<u8>;

/// Calls `StateWithExtensionsMut::<Mint>::unpack_uninitialized` of
/// `spl_token_2022` on the buffer, sets the base mint to these fields,
/// writes the account type with `init_account_type` and packs the base
/// with `pack_base`; where the buffer does not unpack, nothing is written.
/// The state works on the buffer as a slice, so its length
/// is kept; the bytes that come out are named.
#[verifier::external_body]
fn write_mint_base(data: &mut Vec<u8>, m: &Mint)
    ensures
        final(data)@ == mint_base_written(old(data)@, *m),
        final(data)@.len() == old(data)@.len(),
{
    if let Ok(mut s) = StateWithExtensionsMut::<Mint2022>::unpack_uninitialized(data) {
        s.base = Mint2022 {
            mint_authority: m.mint_authority.map(|k| SdkPubkey::new_from_array(k.bytes)).into(),
            supply: m.supply,
            decimals: m.decimals,
            is_initialized: m.is_initialized,
            freeze_authority: m.freeze_authority.map(|k| SdkPubkey::new_from_array(k.bytes)).into(),
        };
        let _ = s.init_account_type();
        s.pack_base();
    }
}

/// Calls `StateWithExtensionsMut::<Account>::unpack_uninitialized` of
/// `spl_token_2022` on the buffer, sets the base account to these fields
/// in the initialized state, writes the account type with
/// `init_account_type` and packs the base with `pack_base`; where the
/// buffer does not unpack, nothing is written. The state works on the
/// buffer as a slice, so its length is kept; the bytes that come out are
/// named.
#[verifier::external_body]
fn write_account_base(data: &mut Vec<u8>, a: &TokenAccount)
    ensures
        final(data)@ == account_base_written(old(data)@, *a),
        final(data)@.len() == old(data)@.len(),
{
    if let Ok(mut s) = StateWithExtensionsMut::<Account2022>::unpack_uninitialized(data) {
        s.base = Account2022 {
            mint: SdkPubkey::new_from_array(a.mint.bytes),
            owner: SdkPubkey::new_from_array(a.owner.bytes),
            amount: a.amount,
            delegate: a.delegate.map(|k| SdkPubkey::new_from_array(k.bytes)).into(),
            state: AccountState2022::Initialized,
            is_native: a.is_native.into(),
            delegated_amount: a.delegated_amount,
            close_authority: a.close_authority.map(|k| SdkPubkey::new_from_array(k.bytes)).into(),
        };
        let _ = s.init_account_type();
        s.pack_base();
    }
}

/// Calls `Pack::pack` of `spl_token_2022` on a mint into a zeroed buffer
/// of its length. Its source lays the fields out as the token program's
/// mint does, as `mint_bytes` says.
#[verifier::external_body]
fn pack_mint_2022(m: &Mint) -> (r: Vec<u8>)
    ensures
        r@ == mint_bytes(*m),
{
    let mint = Mint2022 {
        mint_authority: m.mint_authority.map(|k| SdkPubkey::new_from_array(k.bytes)).into(),
        supply: m.supply,
        decimals: m.decimals,
        is_initialized: m.is_initialized,
        freeze_authority: m.freeze_authority.map(|k| SdkPubkey::new_from_array(k.bytes)).into(),
    };
    let mut data = vec![0u8; Mint2022::LEN];
    Mint2022::pack(mint, &mut data).unwrap();
    data
}

/// Calls `Pack::pack` of `spl_token_2022` on an initialized token account
/// into a zeroed buffer of its length. Its source lays the fields out as
/// the token program's account does, as `token_account_bytes` says.
#[verifier::external_body]
fn pack_token_2022_account(a: &TokenAccount) -> (r: Vec<u8>)
    ensures
        r@ == token_account_bytes(*a),
{
    let account = Account2022 {
        mint: SdkPubkey::new_from_array(a.mint.bytes),
        owner: SdkPubkey::new_from_array(a.owner.bytes),
        amount: a.amount,
        delegate: a.delegate.map(|k| SdkPubkey::new_from_array(k.bytes)).into(),
        state: AccountState2022::Initialized,
        is_native: a.is_native.into(),
        delegated_amount: a.delegated_amount,
        close_authority: a.close_authority.map(|k| SdkPubkey::new_from_array(k.bytes)).into(),
    };
    let mut data = vec![0u8; Account2022::LEN];
    Account2022::pack(account, &mut data).unwrap();
    data
}

/// The buffer after `write_transfer_hook_account` with this flag.
pub uninterp spec fn transfer_hook_account_written(data: Seq<u8>, transferring: bool) -> Seq<u8>;

/// Calls `StateWithExtensionsMut::<Account>::unpack_uninitialized` of
/// `spl_token_2022` on the buffer and
/// `init_extension::<TransferHookAccount>(true)` on the state, which sets
/// the transferring flag; on an error of either call the flag is not
/// written. The state works on the buffer as a slice, so its length
/// is kept; the bytes that come out are named.
#[verifier::external_body]
fn write_transfer_hook_account(data: &mut Vec<u8>, transferring: bool)
    ensures
        final(data)@ == transfer_hook_account_written(old(data)@, transferring),
        final(data)@.len() == old(data)@.len(),
{
    if let Ok(mut s) = StateWithExtensionsMut::<Account2022>::unpack_uninitialized(data) {
        if let Ok(e) = s.init_extension::<ext::transfer_hook::TransferHookAccount>(true) {
            e.transferring = transferring.into();
        }
    }
}

/// The token-2022 program, `TokenzQdBNbLqP5VEhdkAS6EPFLC1PHnBqCXEpPxuEb`.
pub open spec fn token_2022_program_id() -> Seq<u8> {
    seq![6u8, 221, 246, 225, 238, 117, 143, 222, 24, 66, 93, 188, 228, 108, 205, 218, 182, 26, 252, 77, 131, 185, 13, 39, 254, 189, 249, 40, 216, 161, 139, 252]
}

fn token_2022_program_key() -> (r: Pubkey)
    ensures
        r@ == token_2022_program_id(),
{
    let r = Pubkey {
        bytes: [6, 221, 246, 225, 238, 117, 143, 222, 24, 66, 93, 188, 228, 108, 205, 218, 182, 26, 252, 77, 131, 185, 13, 39, 254, 189, 249, 40, 216, 161, 139, 252],
    };
    proof {
        assert(r@ =~= token_2022_program_id());
    }
    r
}

/// An account of the token-2022 program with the balance and data.
pub open spec fn token_2022_account_view(lamports: u64, data: Seq<u8>) -> TridentAccountView {
    TridentAccountView { lamports, data, owner: token_2022_program_id(), executable: false, rent_epoch: 0 }
}

/// What writing a mint extension from its parameters does to the buffer.
pub open spec fn mint_extension_written(data: Seq<u8>, p: ParamValue) -> Seq<u8> {
    match p {
        ParamValue::MetadataPointer(x) => metadata_pointer_written(data, x),
        ParamValue::GroupMemberPointer(x) => group_member_pointer_written(data, x),
        ParamValue::GroupPointer(x) => group_pointer_written(data, x),
        ParamValue::TransferHook(x) => transfer_hook_written(data, x),
        ParamValue::MintCloseAuthority(x) => mint_close_authority_written(data, x),
        ParamValue::PermanentDelegate(x) => permanent_delegate_written(data, x),
        ParamValue::DefaultAccountState(x) => default_account_state_written(data, x),
        ParamValue::InterestBearingConfig(x) => interest_bearing_config_written(data, x),
        ParamValue::NonTransferable(x) => non_transferable_written(data, x),
        ParamValue::TransferFeeConfig(x) => transfer_fee_config_written(data, x),
        ParamValue::ConfidentialTransferMint(x) => confidential_transfer_mint_written(data, x),
        ParamValue::ConfidentialTransferFeeConfig(x) => confidential_transfer_fee_config_written(data, x),
        ParamValue::ConfidentialMintBurn(x) => confidential_mint_burn_written(data, x),
        _ => data,
    }
}

/// What writing a token account extension from its parameters does to the
/// buffer; an absent transferring flag is written as `false`.
pub open spec fn account_extension_written(data: Seq<u8>, p: ParamValue) -> Seq<u8> {
    match p {
        ParamValue::ConfidentialTransferAccount(x) => confidential_transfer_account_written(data, x),
        ParamValue::TransferHookAccount(x) => transfer_hook_account_written(
            data,
            match x.transferring {
                Some(t) => t,
                None => false,
            },
        ),
        ParamValue::CpiGuard(x) => cpi_guard_written(data, x),
        ParamValue::MemoTransfer(x) => memo_transfer_written(data, x),
        ParamValue::TransferFeeAmount(x) => transfer_fee_amount_written(data, x),
        ParamValue::ImmutableOwner(x) => immutable_owner_written(data, x),
        ParamValue::NonTransferableAccount(x) => non_transferable_account_written(data, x),
        ParamValue::ConfidentialTransferFeeAmount(x) => confidential_transfer_fee_amount_written(data, x),
        _ => data,
    }
}

/// The buffer after the extensions of the first `n` parameters are
/// written in turn, each from the first parameter of its kind.
pub open spec fn mint_extensions_written(data: Seq<u8>, ps: Seq<ParamValue>, n: nat) -> Seq<u8>
    decreases n,
{
    if n == 0 {
        data
    } else {
        mint_extension_written(mint_extensions_written(data, ps, (n - 1) as nat), ps[first_index(ps, n - 1)])
    }
}

/// The buffer after the token account extensions of the first `n`
/// parameters are written in turn, each from the first parameter of its
/// kind.
pub open spec fn account_extensions_written(data: Seq<u8>, ps: Seq<ParamValue>, n: nat) -> Seq<u8>
    decreases n,
{
    if n == 0 {
        data
    } else {
        account_extension_written(account_extensions_written(data, ps, (n - 1) as nat), ps[first_index(ps, n - 1)])
    }
}

/// The extension types the parameters select, in their order.
pub open spec fn extension_codes(ps: Seq<ParamValue>) -> Seq<u16> {
    ps.map_values(|p: ParamValue| extension_code(p))
}

/// The parameters given, none when absent.
pub open spec fn params_of(o: Option<Vec<ParamValue>>) -> Seq<ParamValue> {
    match o {
        Some(v) => v@,
        None => Seq::empty(),
    }
}

/// The length of the mint's data: 82 bytes without extensions, else what
/// the program computes for them.
pub open spec fn token_2022_mint_len(ps: Seq<ParamValue>) -> nat {
    if ps.len() == 0 { MINT_LEN as nat } else { mint_extensions_len(extension_codes(ps)) as nat }
}

/// The length of the token account's data: 165 bytes without extensions,
/// else what the program computes for them.
pub open spec fn token_2022_account_len(ps: Seq<ParamValue>) -> nat {
    if ps.len() == 0 { TOKEN_ACCOUNT_LEN as nat } else { account_extensions_len(extension_codes(ps)) as nat }
}

/// The mint `create_token_2022_mint` makes. Without extensions: the packed
/// mint, initialized, no supply, the authority as mint authority, holding
/// the rent-exempt balance of its 82 bytes. With extensions: a buffer of
/// the length the program computes for them, with each extension written
/// in turn, then the base mint (whose mint authority is absent where the
/// all-zero address is given), holding the rent-exempt balance of that
/// length.
pub open spec fn created_token_2022_mint(decimals: u8, mint_authority: Pubkey, freeze_authority: Option<Pubkey>, ps: Seq<ParamValue>) -> TridentAccountView {
    if ps.len() == 0 {
        token_2022_account_view(
            exempt_balance(MINT_LEN as nat) as u64,
            mint_bytes(Mint { mint_authority: Some(mint_authority), supply: 0, decimals, is_initialized: true, freeze_authority }),
        )
    } else {
        let len = mint_extensions_len(extension_codes(ps));
        let authority = if mint_authority@ != zero_key() { Some(mint_authority) } else { None };
        let base = Mint { mint_authority: authority, supply: 0, decimals, is_initialized: true, freeze_authority };
        token_2022_account_view(
            exempt_balance(len as nat) as u64,
            mint_base_written(mint_extensions_written(zeros(len as nat), ps, ps.len()), base),
        )
    }
}

/// The token account `create_token_2022_account` makes: a buffer of the
/// packed length (165 bytes without extensions, else what the program
/// computes for them); a native account holds its rent reserve plus the
/// amount (saturating) as both balance and amount, with the reserve
/// recorded, another holds the rent-exempt balance and the amount given.
/// With extensions each is written in turn before the base account.
pub open spec fn created_token_2022_account(
    mint: Pubkey,
    owner: Pubkey,
    amount: u64,
    delegate: Option<Pubkey>,
    is_native: bool,
    delegated_amount: u64,
    close_authority: Option<Pubkey>,
    ps: Seq<ParamValue>,
) -> TridentAccountView {
    let len: nat = if ps.len() == 0 { TOKEN_ACCOUNT_LEN as nat } else { account_extensions_len(extension_codes(ps)) as nat };
    let rent = exempt_balance(len) as u64;
    let lamports: u64 = if !is_native {
        rent
    } else if rent + amount > u64::MAX {
        u64::MAX
    } else {
        (rent + amount) as u64
    };
    let fields = TokenAccount {
        mint,
        owner,
        amount: if is_native { lamports } else { amount },
        delegate,
        is_native: if is_native { Some(rent) } else { None },
        delegated_amount,
        close_authority,
    };
    if ps.len() == 0 {
        token_2022_account_view(lamports, token_account_bytes(fields))
    } else {
        token_2022_account_view(lamports, account_base_written(account_extensions_written(zeros(len), ps, ps.len()), fields))
    }
}

/// Writes a mint extension from its parameters.
fn write_mint_extension(data: &mut Vec<u8>, p: &ParamValue)
    requires
        mint_param_ok(*p),
    ensures
        final(data)@ == mint_extension_written(old(data)@, *p),
        final(data)@.len() == old(data)@.len(),
{
    match p {
        ParamValue::MetadataPointer(x) => write_metadata_pointer(data, x),
        ParamValue::GroupMemberPointer(x) => write_group_member_pointer(data, x),
        ParamValue::GroupPointer(x) => write_group_pointer(data, x),
        ParamValue::TransferHook(x) => write_transfer_hook(data, x),
        ParamValue::MintCloseAuthority(x) => write_mint_close_authority(data, x),
        ParamValue::PermanentDelegate(x) => write_permanent_delegate(data, x),
        ParamValue::DefaultAccountState(x) => write_default_account_state(data, x),
        ParamValue::InterestBearingConfig(x) => write_interest_bearing_config(data, x),
        ParamValue::NonTransferable(x) => write_non_transferable(data, x),
        ParamValue::TransferFeeConfig(x) => write_transfer_fee_config(data, x),
        ParamValue::ConfidentialTransferMint(x) => write_confidential_transfer_mint(data, x),
        ParamValue::ConfidentialTransferFeeConfig(x) => write_confidential_transfer_fee_config(data, x),
        ParamValue::ConfidentialMintBurn(x) => write_confidential_mint_burn(data, x),
        _ => {},
    }
}

/// Writes a token account extension from its parameters.
fn write_account_extension(data: &mut Vec<u8>, p: &ParamValue)
    ensures
        final(data)@ == account_extension_written(old(data)@, *p),
        final(data)@.len() == old(data)@.len(),
{
    match p {
        ParamValue::ConfidentialTransferAccount(x) => write_confidential_transfer_account(data, x),
        ParamValue::TransferHookAccount(x) => {
            let transferring = match x.transferring {
                Some(t) => t,
                None => false,
            };
            write_transfer_hook_account(data, transferring)
        },
        ParamValue::CpiGuard(x) => write_cpi_guard(data, x),
        ParamValue::MemoTransfer(x) => write_memo_transfer(data, x),
        ParamValue::TransferFeeAmount(x) => write_transfer_fee_amount(data, x),
        ParamValue::ImmutableOwner(x) => write_immutable_owner(data, x),
        ParamValue::NonTransferableAccount(x) => write_non_transferable_account(data, x),
        ParamValue::ConfidentialTransferFeeAmount(x) => write_confidential_transfer_fee_amount(data, x),
        _ => {},
    }
}

/// The extension types of the parameters, in their order.
fn codes_of(ps: &Vec<ParamValue>) -> (r: Vec<u16>)
    ensures
        r@ == extension_codes(ps@),
        forall|i: int| 0 <= i < r@.len() ==> (is_mint_param(ps@[i]) ==> is_mint_code(#[trigger] r@[i])),
        forall|i: int| 0 <= i < r@.len() ==> (!is_mint_param(ps@[i]) ==> is_account_code(#[trigger] r@[i])),
{
    let mut r: Vec<u16> = Vec::new();
    let mut i: usize = 0;
    while i < ps.len()
        invariant
            0 <= i <= ps@.len(),
            r@ == extension_codes(ps@).subrange(0, i as int),
            forall|k: int| 0 <= k < i ==> (is_mint_param(ps@[k]) ==> is_mint_code(#[trigger] r@[k])),
            forall|k: int| 0 <= k < i ==> (!is_mint_param(ps@[k]) ==> is_account_code(#[trigger] r@[k])),
        decreases ps@.len() - i,
    {
        let c = param_code(&ps[i]);
        r.push(c);
        proof {
            assert(extension_codes(ps@).subrange(0, i + 1) =~= extension_codes(ps@).subrange(0, i as int).push(c));
        }
        i = i + 1;
    }
    proof {
        assert(extension_codes(ps@).subrange(0, i as int) =~= extension_codes(ps@));
    }
    r
}

/// A buffer of `len` zero bytes.
fn zeroed(len: usize) -> (r: Vec<u8>)
    ensures
        r@ == zeros(len as nat),
{
    let mut r: Vec<u8> = Vec::new();
    while r.len() < len
        invariant
            r@.len() <= len,
            r@ == zeros(r@.len()),
        decreases len - r@.len(),
    {
        r.push(0);
        proof {
            assert(r@ =~= zeros(r@.len()));
        }
    }
    r
}

/// Every parameter has a first parameter of its kind at or before it.
proof fn lemma_first_exists(ps: Seq<ParamValue>, k: int)
    requires
        0 <= k < ps.len(),
    ensures
        exists|j: int| 0 <= j <= k && extension_code(ps[j]) == extension_code(ps[k]) && first_of_kind(ps, j),
    decreases k,
{
    if first_of_kind(ps, k) {
        assert(0 <= k <= k && extension_code(ps[k]) == extension_code(ps[k]) && first_of_kind(ps, k));
    } else {
        let m = choose|m: int| 0 <= m < k && extension_code(#[trigger] ps[m]) == extension_code(ps[k]);
        lemma_first_exists(ps, m);
        let j = choose|j: int| 0 <= j <= m && extension_code(ps[j]) == extension_code(ps[m]) && first_of_kind(ps, j);
        assert(0 <= j <= k && extension_code(ps[j]) == extension_code(ps[k]) && first_of_kind(ps, j));
    }
}

/// Two parameter lists that select the same extensions, in the same
/// order, have their first parameter of each kind at the same place.
proof fn lemma_first_index_same(ps: Seq<ParamValue>, qs: Seq<ParamValue>, k: int)
    requires
        ps.len() == qs.len(),
        forall|m: int| 0 <= m < ps.len() ==> extension_code(#[trigger] ps[m]) == extension_code(qs[m]),
        0 <= k < ps.len(),
    ensures
        first_index(ps, k) == first_index(qs, k),
        first_of_kind(ps, first_index(ps, k)),
        0 <= first_index(ps, k) <= k,
{
    lemma_first_exists(ps, k);
    lemma_first_exists(qs, k);
    let a = first_index(ps, k);
    let b = first_index(qs, k);
    assert(0 <= a <= k && extension_code(ps[a]) == extension_code(ps[k]) && first_of_kind(ps, a));
    assert(0 <= b <= k && extension_code(qs[b]) == extension_code(qs[k]) && first_of_kind(qs, b));
    assert(extension_code(ps[a]) == extension_code(qs[a]));
    assert(extension_code(ps[b]) == extension_code(qs[b]));
    assert(extension_code(ps[k]) == extension_code(qs[k]));
    if a < b {
        assert(extension_code(qs[a]) != extension_code(qs[b]));
    }
    if b < a {
        assert(extension_code(ps[b]) != extension_code(ps[a]));
    }
}

proof fn lemma_later_duplicate_written(ps: Seq<ParamValue>, i: int, p: ParamValue, data: Seq<u8>, n: nat)
    requires
        0 <= i < ps.len(),
        !first_of_kind(ps, i),
        extension_code(p) == extension_code(ps[i]),
        n <= ps.len(),
    ensures
        mint_extensions_written(data, ps.update(i, p), n) == mint_extensions_written(data, ps, n),
        account_extensions_written(data, ps.update(i, p), n) == account_extensions_written(data, ps, n),
    decreases n,
{
    let qs = ps.update(i, p);
    if n > 0 {
        lemma_later_duplicate_written(ps, i, p, data, (n - 1) as nat);
        assert forall|m: int| 0 <= m < ps.len() implies extension_code(#[trigger] ps[m]) == extension_code(qs[m]) by {
            if m == i {
                assert(qs[m] == p);
            }
        }
        lemma_first_index_same(ps, qs, n - 1);
        let j = first_index(ps, n - 1);
        if j == i {
            assert(first_of_kind(ps, i));
        }
        assert(qs[j] == ps[j]);
    }
}

/// Only the first parameter of each kind counts: changing a later
/// parameter of the same kind changes neither the mint nor the token
/// account created from the list.
pub proof fn law_later_duplicates_ignored(
    ps: Seq<ParamValue>,
    i: int,
    p: ParamValue,
    decimals: u8,
    mint_authority: Pubkey,
    freeze_authority: Option<Pubkey>,
    mint: Pubkey,
    owner: Pubkey,
    amount: u64,
    delegate: Option<Pubkey>,
    is_native: bool,
    delegated_amount: u64,
    close_authority: Option<Pubkey>,
)
    requires
        0 <= i < ps.len(),
        !first_of_kind(ps, i),
        extension_code(p) == extension_code(ps[i]),
    ensures
        created_token_2022_mint(decimals, mint_authority, freeze_authority, ps.update(i, p))
            == created_token_2022_mint(decimals, mint_authority, freeze_authority, ps),
        created_token_2022_account(mint, owner, amount, delegate, is_native, delegated_amount, close_authority, ps.update(i, p))
            == created_token_2022_account(mint, owner, amount, delegate, is_native, delegated_amount, close_authority, ps),
{
    let qs = ps.update(i, p);
    assert(extension_codes(qs) =~= extension_codes(ps)) by {
        assert forall|m: int| 0 <= m < ps.len() implies extension_codes(qs)[m] == extension_codes(ps)[m] by {
            if m == i {
                assert(qs[m] == p);
            }
        }
    }
    let mlen = mint_extensions_len(extension_codes(ps));
    let alen = account_extensions_len(extension_codes(ps));
    lemma_later_duplicate_written(ps, i, p, zeros(mlen as nat), ps.len());
    lemma_later_duplicate_written(ps, i, p, zeros(alen as nat), ps.len());
}

/// A token-2022 mint without extensions is a plain packed mint:
/// initialized, no supply, the authority as mint authority, the decimals
/// and freeze authority given, holding the rent-exempt balance of its 82
/// bytes. With extensions the mint authority is absent exactly where the
/// all-zero address is given, and the balance is rent-exempt for the
/// length the extensions need. Either way it belongs to the token-2022
/// program.
pub proof fn law_created_token_2022_mint(decimals: u8, mint_authority: Pubkey, freeze_authority: Option<Pubkey>, ps: Seq<ParamValue>)
    ensures
        ({
            let v = created_token_2022_mint(decimals, mint_authority, freeze_authority, ps);
            &&& v.owner == token_2022_program_id()
            &&& v.executable == false
            &&& ps.len() == 0 ==> {
                &&& v.lamports == exempt_balance(MINT_LEN as nat)
                &&& v.data.len() == MINT_LEN
                &&& v.data.subrange(0, 36) == seq![1u8, 0, 0, 0] + mint_authority@
                &&& v.data.subrange(36, 44) == le_bytes(0, 8)
                &&& v.data[44] == decimals
                &&& v.data[45] == 1
                &&& v.data.subrange(46, 82) == coption_key_bytes(freeze_authority)
            }
            &&& ps.len() > 0 ==> {
                &&& v.lamports == exempt_balance(token_2022_mint_len(ps)) as u64
                &&& v.data == mint_base_written(
                    mint_extensions_written(zeros(token_2022_mint_len(ps)), ps, ps.len()),
                    Mint {
                        mint_authority: if mint_authority@ == zero_key() { None } else { Some(mint_authority) },
                        supply: 0,
                        decimals,
                        is_initialized: true,
                        freeze_authority,
                    },
                )
            }
        }),
{
    law_mint_layout(Mint { mint_authority: Some(mint_authority), supply: 0, decimals, is_initialized: true, freeze_authority });
    lemma_mint_len(Mint { mint_authority: Some(mint_authority), supply: 0, decimals, is_initialized: true, freeze_authority });
    assert(exempt_balance(MINT_LEN as nat) == 1461600);
}

/// A token-2022 account without extensions is a plain packed token
/// account of the mint and owner given: a native one holds its rent
/// reserve plus the amount (capped at the largest balance), records the
/// reserve and counts its whole balance as amount; another holds the
/// reserve and the amount given. It belongs to the token-2022 program.
pub proof fn law_created_token_2022_account(
    mint: Pubkey,
    owner: Pubkey,
    amount: u64,
    delegate: Option<Pubkey>,
    is_native: bool,
    delegated_amount: u64,
    close_authority: Option<Pubkey>,
)
    ensures
        ({
            let v = created_token_2022_account(mint, owner, amount, delegate, is_native, delegated_amount, close_authority, Seq::empty());
            let rent = exempt_balance(TOKEN_ACCOUNT_LEN as nat);
            let lamports: int = if is_native { if rent + amount <= u64::MAX { rent + amount } else { u64::MAX as int } } else { rent };
            &&& v.lamports == lamports
            &&& v.owner == token_2022_program_id()
            &&& v.data.len() == TOKEN_ACCOUNT_LEN
            &&& v.data.subrange(0, 32) == mint@
            &&& v.data.subrange(32, 64) == owner@
            &&& v.data.subrange(64, 72) == le_bytes((if is_native { lamports } else { amount as int }) as nat, 8)
            &&& v.data.subrange(72, 108) == coption_key_bytes(delegate)
            &&& v.data.subrange(109, 121) == coption_u64_bytes(if is_native { Some(rent as u64) } else { None })
            &&& v.data.subrange(121, 129) == le_bytes(delegated_amount as nat, 8)
            &&& v.data.subrange(129, 165) == coption_key_bytes(close_authority)
        }),
{
    let rent = exempt_balance(TOKEN_ACCOUNT_LEN as nat) as u64;
    assert(exempt_balance(TOKEN_ACCOUNT_LEN as nat) == 2039280);
    let lamports: u64 = if !is_native { rent } else if rent + amount > u64::MAX { u64::MAX } else { (rent + amount) as u64 };
    law_token_account_layout(TokenAccount {
        mint,
        owner,
        amount: if is_native { lamports } else { amount },
        delegate,
        is_native: if is_native { Some(rent) } else { None },
        delegated_amount,
        close_authority,
    });
}

impl AccountsStorage {
    /// Stores a token-2022 mint at `address`: initialized, no supply,
    /// with the decimals, authorities and extensions given. The extensions
    /// are written in the order of the parameters, each from the first
    /// parameter of its kind.
    pub fn create_token_2022_mint(
        &self,
        client: &mut LightClient,
        address: Pubkey,
        decimals: u8,
        mint_authority: &Pubkey,
        freeze_authority: Option<Pubkey>,
        extension_params: Option<Vec<ParamValue>>,
    )
        requires
            mint_params_ok(params_of(extension_params)),
        ensures
            final(client).account_storage@ == old(client).account_storage@.insert(
                address@,
                created_token_2022_mint(decimals, *mint_authority, freeze_authority, params_of(extension_params)),
            ),
            final(client).account_storage@[address@].data.len() == token_2022_mint_len(params_of(extension_params)),
            final(client).programs == old(client).programs,
    {
        let params = match extension_params {
            Some(v) => v,
            None => Vec::new(),
        };
        let account = if params.len() == 0 {
            let lamports = rent_exempt_minimum(MINT_LEN);
            let mint = Mint { mint_authority: Some(*mint_authority), supply: 0, decimals, is_initialized: true, freeze_authority };
            let data = pack_mint_2022(&mint);
            proof {
                lemma_mint_len(mint);
            }
            TridentAccount { lamports, data, owner: token_2022_program_key(), executable: false, rent_epoch: 0 }
        } else {
            let codes = codes_of(&params);
            let len = mint_len_with(&codes);
            let lamports = rent_exempt_minimum(len);
            let mut data = zeroed(len);
            let ghost start = data@;
            let mut i: usize = 0;
            while i < params.len()
                invariant
                    0 <= i <= params@.len(),
                    mint_params_ok(params@),
                    data@ == mint_extensions_written(start, params@, i as nat),
                    data@.len() == len,
                decreases params@.len() - i,
            {
                let j = first_index_of_kind(&params, i);
                proof {
                    assert(is_mint_param(params@[j as int]));
                }
                write_mint_extension(&mut data, &params[j]);
                i = i + 1;
            }
            let authority = if mint_authority.same(&Pubkey::default()) { None } else { Some(*mint_authority) };
            let base = Mint { mint_authority: authority, supply: 0, decimals, is_initialized: true, freeze_authority };
            write_mint_base(&mut data, &base);
            TridentAccount { lamports, data, owner: token_2022_program_key(), executable: false, rent_epoch: 0 }
        };
        client.set_account_custom(&address, account);
    }

    /// Stores an initialized token-2022 token account at `address`, with
    /// the extensions given; a native account holds its rent reserve plus
    /// the amount (saturating). The extensions are written in the order of
    /// the parameters, each from the first parameter of its kind.
    pub fn create_token_2022_account(
        &self,
        client: &mut LightClient,
        address: Pubkey,
        mint: Pubkey,
        owner: Pubkey,
        amount: u64,
        delegate: Option<Pubkey>,
        is_native: bool,
        delegated_amount: u64,
        close_authority: Option<Pubkey>,
        extension_params: Option<Vec<ParamValue>>,
    )
        requires
            account_params_ok(params_of(extension_params)),
        ensures
            final(client).account_storage@ == old(client).account_storage@.insert(
                address@,
                created_token_2022_account(
                    mint,
                    owner,
                    amount,
                    delegate,
                    is_native,
                    delegated_amount,
                    close_authority,
                    params_of(extension_params),
                ),
            ),
            final(client).account_storage@[address@].data.len() == token_2022_account_len(params_of(extension_params)),
            final(client).programs == old(client).programs,
    {
        let params = match extension_params {
            Some(v) => v,
            None => Vec::new(),
        };
        let len = if params.len() == 0 {
            TOKEN_ACCOUNT_LEN
        } else {
            let codes = codes_of(&params);
            account_len_with(&codes)
        };
        let rent = rent_exempt_minimum(len);
        let lamports = if is_native {
            match rent.checked_add(amount) {
                Some(l) => l,
                None => u64::MAX,
            }
        } else {
            rent
        };
        let fields = TokenAccount {
            mint,
            owner,
            amount: if is_native { lamports } else { amount },
            delegate,
            is_native: if is_native { Some(rent) } else { None },
            delegated_amount,
            close_authority,
        };
        let data = if params.len() == 0 {
            let data = pack_token_2022_account(&fields);
            proof {
                lemma_token_account_len(fields);
            }
            data
        } else {
            let mut data = zeroed(len);
            let ghost start = data@;
            let mut i: usize = 0;
            while i < params.len()
                invariant
                    0 <= i <= params@.len(),
                    data@ == account_extensions_written(start, params@, i as nat),
                    data@.len() == len,
                decreases params@.len() - i,
            {
                let j = first_index_of_kind(&params, i);
                write_account_extension(&mut data, &params[j]);
                i = i + 1;
            }
            write_account_base(&mut data, &fields);
            data
        };
        let account = TridentAccount { lamports, data, owner: token_2022_program_key(), executable: false, rent_epoch: 0 };
        client.set_account_custom(&address, account);
    }

    /// The address bound to `account_id`; on first use the id is bound to a
    /// new address (see `get_or_create_address`), which gets a token-2022
    /// mint unless the client already holds a non-empty account there.
    pub fn get_or_create_token_2022_mint(
        &mut self,
        account_id: AccountId,
        client: &mut LightClient,
        seeds: Option<PdaSeeds>,
        decimals: u8,
        mint_authority: &Pubkey,
        freeze_authority: Option<Pubkey>,
        extensions: Option<Vec<ParamValue>>,
    ) -> (r: Pubkey)
        requires
            mint_params_ok(params_of(extensions)),
        ensures
            old(self).accounts@.contains_key(account_id) ==> {
                &&& r@ == old(self).accounts@[account_id]
                &&& final(self).accounts@ == old(self).accounts@
                &&& final(client).account_storage@ == old(client).account_storage@
            },
            !old(self).accounts@.contains_key(account_id) ==> {
                &&& final(self).accounts@ == old(self).accounts@.insert(account_id, r@)
                &&& final(client).account_storage@ == if blank_at(old(client).account_storage@, r@) {
                    old(client).account_storage@.insert(
                        r@,
                        created_token_2022_mint(decimals, *mint_authority, freeze_authority, params_of(extensions)),
                    )
                } else {
                    old(client).account_storage@
                }
                &&& blank_at(old(client).account_storage@, r@) ==> final(client).account_storage@[r@].data.len()
                    == token_2022_mint_len(params_of(extensions))
                &&& (seeds matches Some(s) ==> (pda_of(s.seeds, s.program_id) is Some ==> Some(r@) == pda_of(s.seeds, s.program_id)))
                &&& (seeds is None ==> exists|secret: Seq<u8>| secret.len() == 32 && r@ == keypair_pubkey(secret))
            },
            final(self)._max_accounts == old(self)._max_accounts,
            final(client).programs == old(client).programs,
    {
        match self.accounts.get(&account_id) {
            Some(address) => *address,
            None => {
                let address = self.get_or_create_address(seeds);
                if client.is_blank(&address) {
                    self.create_token_2022_mint(client, address, decimals, mint_authority, freeze_authority, extensions);
                }
                self.accounts.insert(account_id, address);
                address
            },
        }
    }

    /// The address bound to `account_id`; on first use the id is bound to a
    /// new address (see `get_or_create_address`), which gets a token-2022
    /// token account unless the client already holds a non-empty account
    /// there.
    pub fn get_or_create_token2022_account(
        &mut self,
        account_id: AccountId,
        client: &mut LightClient,
        seeds: Option<PdaSeeds>,
        mint: Pubkey,
        owner: Pubkey,
        amount: u64,
        delegate: Option<Pubkey>,
        is_native: bool,
        delegated_amount: u64,
        close_authority: Option<Pubkey>,
        extensions: Option<Vec<ParamValue>>,
    ) -> (r: Pubkey)
        requires
            account_params_ok(params_of(extensions)),
        ensures
            old(self).accounts@.contains_key(account_id) ==> {
                &&& r@ == old(self).accounts@[account_id]
                &&& final(self).accounts@ == old(self).accounts@
                &&& final(client).account_storage@ == old(client).account_storage@
            },
            !old(self).accounts@.contains_key(account_id) ==> {
                &&& final(self).accounts@ == old(self).accounts@.insert(account_id, r@)
                &&& final(client).account_storage@ == if blank_at(old(client).account_storage@, r@) {
                    old(client).account_storage@.insert(
                        r@,
                        created_token_2022_account(
                            mint,
                            owner,
                            amount,
                            delegate,
                            is_native,
                            delegated_amount,
                            close_authority,
                            params_of(extensions),
                        ),
                    )
                } else {
                    old(client).account_storage@
                }
                &&& blank_at(old(client).account_storage@, r@) ==> final(client).account_storage@[r@].data.len()
                    == token_2022_account_len(params_of(extensions))
                &&& (seeds matches Some(s) ==> (pda_of(s.seeds, s.program_id) is Some ==> Some(r@) == pda_of(s.seeds, s.program_id)))
                &&& (seeds is None ==> exists|secret: Seq<u8>| secret.len() == 32 && r@ == keypair_pubkey(secret))
            },
            final(self)._max_accounts == old(self)._max_accounts,
            final(client).programs == old(client).programs,
    {
        match self.accounts.get(&account_id) {
            Some(address) => *address,
            None => {
                let address = self.get_or_create_address(seeds);
                if client.is_blank(&address) {
                    self.create_token_2022_account(
                        client,
                        address,
                        mint,
                        owner,
                        amount,
                        delegate,
                        is_native,
                        delegated_amount,
                        close_authority,
                        extensions,
                    );
                }
                self.accounts.insert(account_id, address);
                address
            },
        }
    }
}

} // verus!

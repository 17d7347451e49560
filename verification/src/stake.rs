//! Stake and vote accounts for fuzz tests: their contents as the stake and
//! vote programs store them, and the rent-exempt accounts that hold them.
use crate::accounts_storage::{blank_at, AccountId, AccountsStorage, LAMPORTS_PER_SOL};
use crate::address_storage::{pda_of, PdaSeeds};
use crate::derivation::keypair_pubkey;
use crate::light::account::{zeros, TridentAccount, TridentAccountView};
use crate::light::clock::Clock;
use crate::light::light_client::{exempt_balance, rent_exempt_minimum, LightClient};
use crate::light::roundtrip::lemma_le_len;
use crate::light::serialization_light::le_bytes;
use crate::pubkey::{zero_key, Pubkey};
use solana_sdk::account::{AccountSharedData, ReadableAccount};
use solana_sdk::pubkey::Pubkey as SdkPubkey;
use solana_sdk::stake::program::ID as STAKE_PROGRAM;
use solana_sdk::stake::state::{Authorized, Delegation, Lockup as StakeLockup, Meta, Stake, StakeStateV2};
use solana_sdk::vote::state as vt;
use vstd::prelude::*;

verus! {

/// Bytes of a stake account.
pub const STAKE_STATE_LEN: usize = 200;

/// Bytes of a vote account.
pub const VOTE_STATE_LEN: usize = 3762;

/// When and by whom a stake may be withdrawn early.
#[derive(Clone, Copy, Debug, Default)]
pub struct Lockup {
    pub unix_timestamp: i64,
    pub epoch: u64,
    pub custodian: Pubkey,
}

/// A stake account's metadata: rent reserve, authorities, lockup.
#[derive(Clone, Copy, Debug)]
pub struct StakeMeta {
    pub rent_exempt_reserve: u64,
    pub staker: Pubkey,
    pub withdrawer: Pubkey,
    pub lockup: Lockup,
}

/// A stake's delegation to a vote account.
#[derive(Clone, Copy, Debug)]
pub struct StakeDelegation {
    pub voter_pubkey: Pubkey,
    pub stake: u64,
    pub activation_epoch: u64,
    pub deactivation_epoch: u64,
}

/// A stake account's state.
#[derive(Clone, Copy, Debug)]
pub enum StakeState {
    /// Initialized, not delegated.
    Initialized(StakeMeta),
    /// Delegated to a vote account.
    Stake(StakeMeta, StakeDelegation),
}

/// The state of a stake account with the metadata and, if any, the
/// delegation.
pub open spec fn stake_state(m: StakeMeta, d: Option<&StakeDelegation>) -> StakeState {
    match d {
        None => StakeState::Initialized(m),
        Some(d) => StakeState::Stake(m, *d),
    }
}

/// A signed 64-bit number in 8 little-endian bytes, two's complement.
pub open spec fn i64_bytes(x: i64) -> Seq<u8> {
    le_bytes(if x >= 0 { x as nat } else { (x + 0x1_0000_0000_0000_0000) as nat }, 8)
}

/// A lockup by its parts: time, epoch, custodian.
pub open spec fn lockup_parts(l: Lockup) -> (i64, u64, Seq<u8>) {
    (l.unix_timestamp, l.epoch, l.custodian@)
}

/// The stake program's metadata: reserve, staker, withdrawer, lockup.
pub open spec fn meta_bytes(reserve: u64, staker: Pubkey, withdrawer: Pubkey, lockup: (i64, u64, Seq<u8>)) -> Seq<u8> {
    le_bytes(reserve as nat, 8) + staker@ + withdrawer@ + i64_bytes(lockup.0) + le_bytes(lockup.1 as nat, 8) + lockup.2
}

/// The 200 bytes of a stake account: the variant's 4-byte index (1 for
/// initialized, 2 for delegated), the metadata, for a delegation the voter,
/// stake, activation and deactivation epochs, the warm-up rate 0.25 as a
/// double, no credits and no flags, then zeros.
pub open spec fn stake_state_bytes(s: StakeState) -> Seq<u8> {
    match s {
        StakeState::Initialized(m) => le_bytes(1, 4) + meta_bytes(m.rent_exempt_reserve, m.staker, m.withdrawer, lockup_parts(m.lockup))
            + zeros(76),
        StakeState::Stake(m, d) => le_bytes(2, 4) + meta_bytes(m.rent_exempt_reserve, m.staker, m.withdrawer, lockup_parts(m.lockup))
            + d.voter_pubkey@ + le_bytes(d.stake as nat, 8) + le_bytes(d.activation_epoch as nat, 8) + le_bytes(
            d.deactivation_epoch as nat,
            8,
        ) + seq![0u8, 0, 0, 0, 0, 0, 0xd0, 0x3f] + zeros(8) + zeros(4),
    }
}

/// Calls `AccountSharedData::new_data_with_space` of `solana_sdk` with the
/// stake program's state (initialized, or delegated when a delegation is
/// given) and the 200 bytes of a stake account, and hands out the data.
/// Its source serializes the state with `bincode` into the zeroed data,
/// which lays it out as `stake_state_bytes` says.
#[verifier::external_body]
fn stake_account_data(m: &StakeMeta, d: Option<&StakeDelegation>) -> (r: Vec<u8>)
    ensures
        r@ == stake_state_bytes(stake_state(*m, d)),
{
    let k = |p: &Pubkey| SdkPubkey::new_from_array(p.bytes);
    let lockup = StakeLockup { unix_timestamp: m.lockup.unix_timestamp, epoch: m.lockup.epoch, custodian: k(&m.lockup.custodian) };
    let meta = Meta { rent_exempt_reserve: m.rent_exempt_reserve, authorized: Authorized { staker: k(&m.staker), withdrawer: k(&m.withdrawer) }, lockup };
    let state = match d {
        None => StakeStateV2::Initialized(meta),
        Some(d) => StakeStateV2::Stake(meta, Stake { delegation: Delegation { voter_pubkey: k(&d.voter_pubkey), stake: d.stake, activation_epoch: d.activation_epoch, deactivation_epoch: d.deactivation_epoch, ..Default::default() }, credits_observed: 0 }, Default::default()),
    };
    AccountSharedData::new_data_with_space(0, &state, 200, &STAKE_PROGRAM).unwrap().data().to_vec()
}

/// Bytes of the empty record of prior voters: 32 entries of an address
/// and two epochs.
pub const PRIOR_VOTERS_LEN: usize = 1536;

/// The 3762 bytes of a fresh vote account for the node, the authorized
/// voter (from the epoch on), the withdrawer and the commission: the tag 2
/// of the current version in four bytes, the node, the withdrawer, the
/// commission, no votes, no root slot, one authorized voter with its
/// epoch, an empty record of prior voters (zeroed entries, next position
/// 31, marked empty), no epoch credits, a zero last timestamp, and zeros
/// to the end.
pub open spec fn vote_state_bytes(node: Seq<u8>, voter: Seq<u8>, withdrawer: Seq<u8>, commission: u8, epoch: u64) -> Seq<u8> {
    let used = le_bytes(2, 4) + node + withdrawer + seq![commission] + zeros(8) + seq![0u8] + le_bytes(1, 8)
        + le_bytes(epoch as nat, 8) + voter + zeros(PRIOR_VOTERS_LEN as nat) + le_bytes(31, 8) + seq![1u8] + zeros(8)
        + zeros(16);
    used + zeros((VOTE_STATE_LEN - used.len()) as nat)
}

/// Calls `VoteState::new` of `solana_sdk` for the vote account's settings
/// and a clock at `epoch`, and `VoteState::serialize` of its current
/// version into the 3762 zeroed bytes of a vote account. Its source
/// serializes with `bincode` (little-endian integers, four-byte enum tags,
/// eight-byte lengths, a one-byte option tag) the state that `new` leaves:
/// default fields but for the node, the withdrawer, the commission and one
/// authorized voter for the epoch, as `vote_state_bytes` says.
#[verifier::external_body]
fn vote_account_data(node: &Pubkey, voter: &Pubkey, withdrawer: &Pubkey, commission: u8, epoch: u64) -> (r: Vec<u8>)
    ensures
        r@ == vote_state_bytes(node@, voter@, withdrawer@, commission, epoch),
        r@.len() == VOTE_STATE_LEN,
{
    let k = |p: &Pubkey| SdkPubkey::new_from_array(p.bytes);
    let init = vt::VoteInit { node_pubkey: k(node), authorized_voter: k(voter), authorized_withdrawer: k(withdrawer), commission };
    let clock = solana_sdk::clock::Clock { epoch, ..Default::default() };
    let mut data = vec![0u8; vt::VoteState::size_of()];
    vt::VoteState::serialize(&vt::VoteStateVersions::Current(Box::new(vt::VoteState::new(&init, &clock))), &mut data).unwrap();
    data
}

/// The stake program, `Stake11111111111111111111111111111111111111`.
pub open spec fn stake_program_id() -> Seq<u8> {
    seq![6u8, 161, 216, 23, 145, 55, 84, 42, 152, 52, 55, 189, 254, 42, 122, 178, 85, 127, 83, 92, 138, 120, 114, 43, 104, 164, 157, 192, 0, 0, 0, 0]
}

/// The vote program, `Vote111111111111111111111111111111111111111`.
pub open spec fn vote_program_id() -> Seq<u8> {
    seq![7u8, 97, 72, 29, 53, 116, 116, 187, 124, 77, 118, 36, 235, 211, 189, 179, 216, 53, 94, 115, 209, 16, 67, 252, 13, 163, 83, 128, 0, 0, 0, 0]
}

fn stake_program_key() -> (r: Pubkey)
    ensures
        r@ == stake_program_id(),
{
    let r = Pubkey {
        bytes: [6, 161, 216, 23, 145, 55, 84, 42, 152, 52, 55, 189, 254, 42, 122, 178, 85, 127, 83, 92, 138, 120, 114, 43, 104, 164, 157, 192, 0, 0, 0, 0],
    };
    proof {
        assert(r@ =~= stake_program_id());
    }
    r
}

fn vote_program_key() -> (r: Pubkey)
    ensures
        r@ == vote_program_id(),
{
    let r = Pubkey {
        bytes: [7, 97, 72, 29, 53, 116, 116, 187, 124, 77, 118, 36, 235, 211, 189, 179, 216, 53, 94, 115, 209, 16, 67, 252, 13, 163, 83, 128, 0, 0, 0, 0],
    };
    proof {
        assert(r@ =~= vote_program_id());
    }
    r
}

/// The rent-exempt balance of a stake account, 2282880 lamports.
pub open spec fn stake_rent() -> u64 {
    exempt_balance(STAKE_STATE_LEN as nat) as u64
}

/// The rent-exempt balance of a vote account.
pub open spec fn vote_rent() -> u64 {
    exempt_balance(VOTE_STATE_LEN as nat) as u64
}

/// A delegated stake account: the stake, but at least the rent-exempt
/// balance and one SOL of minimum delegation; deactivation at the given
/// epoch, or never.
pub open spec fn delegated_stake_account(
    voter_pubkey: Pubkey,
    staker: Pubkey,
    withdrawer: Pubkey,
    stake: u64,
    activation_epoch: u64,
    deactivation_epoch: Option<u64>,
    lockup: Option<Lockup>,
) -> TridentAccountView {
    let minimum = stake_rent() + LAMPORTS_PER_SOL;
    let deactivation: u64 = match deactivation_epoch {
        Some(e) => e,
        None => u64::MAX,
    };
    TridentAccountView {
        lamports: if stake > minimum { stake } else { minimum as u64 },
        data: le_bytes(2, 4) + meta_bytes(stake_rent(), staker, withdrawer, lockup_or_default(lockup)) + voter_pubkey@
            + le_bytes(stake as nat, 8) + le_bytes(activation_epoch as nat, 8) + le_bytes(deactivation as nat, 8)
            + seq![0u8, 0, 0, 0, 0, 0, 0xd0, 0x3f] + zeros(8) + zeros(4),
        owner: stake_program_id(),
        executable: false,
        rent_epoch: 0,
    }
}

/// An initialized stake account holding its rent-exempt balance.
pub open spec fn initialized_stake_account(staker: Pubkey, withdrawer: Pubkey, lockup: Option<Lockup>) -> TridentAccountView {
    TridentAccountView {
        lamports: stake_rent(),
        data: le_bytes(1, 4) + meta_bytes(stake_rent(), staker, withdrawer, lockup_or_default(lockup)) + zeros(76),
        owner: stake_program_id(),
        executable: false,
        rent_epoch: 0,
    }
}

/// Lengths of the parts of the stake program's metadata.
proof fn lemma_meta_len(reserve: u64, staker: Pubkey, withdrawer: Pubkey, lockup: (i64, u64, Seq<u8>))
    requires
        lockup.2.len() == 32,
    ensures
        meta_bytes(reserve, staker, withdrawer, lockup).len() == 120,
{
    lemma_le_len(reserve as nat, 8);
    lemma_le_len(lockup.1 as nat, 8);
    lemma_le_len(if lockup.0 >= 0 { lockup.0 as nat } else { (lockup.0 + 0x1_0000_0000_0000_0000) as nat }, 8);
    assert(staker@.len() == 32 && withdrawer@.len() == 32);
}

/// Where each field of an initialized stake account lies in its 200 bytes:
/// the variant 1, the rent-exempt reserve, the staker at bytes 12..44, the
/// withdrawer at 44..76, the lockup's time, epoch and custodian (zero
/// without a lockup), then zeros. The account holds its reserve and
/// belongs to the stake program.
pub proof fn law_initialized_stake_layout(staker: Pubkey, withdrawer: Pubkey, lockup: Option<Lockup>)
    ensures
        ({
            let a = initialized_stake_account(staker, withdrawer, lockup);
            let (ts, epoch, custodian) = match lockup {
                Some(l) => (l.unix_timestamp, l.epoch, l.custodian@),
                None => (0i64, 0u64, zero_key()),
            };
            &&& a.data.len() == STAKE_STATE_LEN
            &&& a.data.subrange(0, 4) == le_bytes(1, 4)
            &&& a.data.subrange(4, 12) == le_bytes(stake_rent() as nat, 8)
            &&& a.data.subrange(12, 44) == staker@
            &&& a.data.subrange(44, 76) == withdrawer@
            &&& a.data.subrange(76, 84) == i64_bytes(ts)
            &&& a.data.subrange(84, 92) == le_bytes(epoch as nat, 8)
            &&& a.data.subrange(92, 124) == custodian
            &&& a.data.subrange(124, 200) == zeros(76)
            &&& a.lamports == stake_rent()
            &&& a.owner == stake_program_id()
        }),
{
    let a = initialized_stake_account(staker, withdrawer, lockup);
    let l = lockup_or_default(lockup);
    if let Some(x) = lockup {
        assert(x.custodian@.len() == 32);
    }
    lemma_meta_len(stake_rent(), staker, withdrawer, l);
    lemma_le_len(1, 4);
    lemma_le_len(stake_rent() as nat, 8);
    lemma_le_len(l.1 as nat, 8);
    lemma_le_len(if l.0 >= 0 { l.0 as nat } else { (l.0 + 0x1_0000_0000_0000_0000) as nat }, 8);
    assert(staker@.len() == 32 && withdrawer@.len() == 32);
    assert(a.data.subrange(0, 4) =~= le_bytes(1, 4));
    assert(a.data.subrange(4, 12) =~= le_bytes(stake_rent() as nat, 8));
    assert(a.data.subrange(12, 44) =~= staker@);
    assert(a.data.subrange(44, 76) =~= withdrawer@);
    assert(a.data.subrange(76, 84) =~= i64_bytes(l.0));
    assert(a.data.subrange(84, 92) =~= le_bytes(l.1 as nat, 8));
    assert(a.data.subrange(92, 124) =~= l.2);
    assert(a.data.subrange(124, 200) =~= zeros(76));
}

/// Where each field of a delegated stake account lies in its 200 bytes:
/// the variant 2, the rent-exempt reserve, staker, withdrawer and lockup
/// as for an initialized account, then the voter at 124..156, the stake,
/// the activation and deactivation epochs (never: all ones), the warm-up
/// rate 0.25, and zeros. The account holds the stake, but at least the
/// reserve and one SOL.
pub proof fn law_delegated_stake_layout(
    voter_pubkey: Pubkey,
    staker: Pubkey,
    withdrawer: Pubkey,
    stake: u64,
    activation_epoch: u64,
    deactivation_epoch: Option<u64>,
    lockup: Option<Lockup>,
)
    ensures
        ({
            let a = delegated_stake_account(voter_pubkey, staker, withdrawer, stake, activation_epoch, deactivation_epoch, lockup);
            let (ts, epoch, custodian) = match lockup {
                Some(l) => (l.unix_timestamp, l.epoch, l.custodian@),
                None => (0i64, 0u64, zero_key()),
            };
            &&& a.data.len() == STAKE_STATE_LEN
            &&& a.data.subrange(0, 4) == le_bytes(2, 4)
            &&& a.data.subrange(4, 12) == le_bytes(stake_rent() as nat, 8)
            &&& a.data.subrange(12, 44) == staker@
            &&& a.data.subrange(44, 76) == withdrawer@
            &&& a.data.subrange(76, 84) == i64_bytes(ts)
            &&& a.data.subrange(84, 92) == le_bytes(epoch as nat, 8)
            &&& a.data.subrange(92, 124) == custodian
            &&& a.data.subrange(124, 156) == voter_pubkey@
            &&& a.data.subrange(156, 164) == le_bytes(stake as nat, 8)
            &&& a.data.subrange(164, 172) == le_bytes(activation_epoch as nat, 8)
            &&& a.data.subrange(172, 180) == le_bytes(
                match deactivation_epoch {
                    Some(e) => e as nat,
                    None => u64::MAX as nat,
                },
                8,
            )
            &&& a.data.subrange(180, 188) == seq![0u8, 0, 0, 0, 0, 0, 0xd0, 0x3f]
            &&& a.data.subrange(188, 200) == zeros(12)
            &&& a.lamports >= stake && a.lamports >= stake_rent() + LAMPORTS_PER_SOL
            &&& (a.lamports == stake || a.lamports == stake_rent() + LAMPORTS_PER_SOL)
            &&& a.owner == stake_program_id()
        }),
{
    let a = delegated_stake_account(voter_pubkey, staker, withdrawer, stake, activation_epoch, deactivation_epoch, lockup);
    let l = lockup_or_default(lockup);
    let d: u64 = match deactivation_epoch {
        Some(e) => e,
        None => u64::MAX,
    };
    if let Some(x) = lockup {
        assert(x.custodian@.len() == 32);
    }
    lemma_meta_len(stake_rent(), staker, withdrawer, l);
    lemma_le_len(2, 4);
    lemma_le_len(stake_rent() as nat, 8);
    lemma_le_len(l.1 as nat, 8);
    lemma_le_len(if l.0 >= 0 { l.0 as nat } else { (l.0 + 0x1_0000_0000_0000_0000) as nat }, 8);
    lemma_le_len(stake as nat, 8);
    lemma_le_len(activation_epoch as nat, 8);
    lemma_le_len(d as nat, 8);
    assert(staker@.len() == 32 && withdrawer@.len() == 32 && voter_pubkey@.len() == 32);
    assert(a.data.subrange(0, 4) =~= le_bytes(2, 4));
    assert(a.data.subrange(4, 12) =~= le_bytes(stake_rent() as nat, 8));
    assert(a.data.subrange(12, 44) =~= staker@);
    assert(a.data.subrange(44, 76) =~= withdrawer@);
    assert(a.data.subrange(76, 84) =~= i64_bytes(l.0));
    assert(a.data.subrange(84, 92) =~= le_bytes(l.1 as nat, 8));
    assert(a.data.subrange(92, 124) =~= l.2);
    assert(a.data.subrange(124, 156) =~= voter_pubkey@);
    assert(a.data.subrange(156, 164) =~= le_bytes(stake as nat, 8));
    assert(a.data.subrange(164, 172) =~= le_bytes(activation_epoch as nat, 8));
    assert(a.data.subrange(172, 180) =~= le_bytes(d as nat, 8));
    assert(a.data.subrange(180, 188) =~= seq![0u8, 0, 0, 0, 0, 0, 0xd0, 0x3f]);
    assert(a.data.subrange(188, 200) =~= zeros(12));
}

/// Where the settings of a fresh vote account lie in its 3762 bytes: the
/// node at 4..36, the withdrawer at 36..68, the commission at 68, the
/// epoch of the one authorized voter at 86..94 and the voter at 94..126.
pub proof fn law_vote_layout(node: Pubkey, voter: Pubkey, withdrawer: Pubkey, commission: u8, epoch: u64)
    ensures
        ({
            let a = vote_account(node, voter, withdrawer, commission, epoch);
            &&& a.data.len() == VOTE_STATE_LEN
            &&& a.data.subrange(4, 36) == node@
            &&& a.data.subrange(36, 68) == withdrawer@
            &&& a.data[68] == commission
            &&& a.data.subrange(86, 94) == le_bytes(epoch as nat, 8)
            &&& a.data.subrange(94, 126) == voter@
            &&& a.lamports == vote_rent()
            &&& a.owner == vote_program_id()
        }),
{
    let a = vote_account(node, voter, withdrawer, commission, epoch);
    lemma_le_len(2, 4);
    lemma_le_len(1, 8);
    lemma_le_len(31, 8);
    lemma_le_len(epoch as nat, 8);
    assert(node@.len() == 32 && voter@.len() == 32 && withdrawer@.len() == 32);
    assert(a.data.subrange(4, 36) =~= node@);
    assert(a.data.subrange(36, 68) =~= withdrawer@);
    assert(a.data.subrange(86, 94) =~= le_bytes(epoch as nat, 8));
    assert(a.data.subrange(94, 126) =~= voter@);
}

/// A fresh vote account holding its rent-exempt balance.
pub open spec fn vote_account(node: Pubkey, voter: Pubkey, withdrawer: Pubkey, commission: u8, epoch: u64) -> TridentAccountView {
    TridentAccountView {
        lamports: vote_rent(),
        data: vote_state_bytes(node@, voter@, withdrawer@, commission, epoch),
        owner: vote_program_id(),
        executable: false,
        rent_epoch: 0,
    }
}

/// The parts of the lockup given, or of none (all zero).
pub open spec fn lockup_or_default(l: Option<Lockup>) -> (i64, u64, Seq<u8>) {
    match l {
        Some(l) => lockup_parts(l),
        None => (0, 0, zero_key()),
    }
}

fn lockup_or_none(l: Option<Lockup>) -> (r: Lockup)
    ensures
        lockup_parts(r) == lockup_or_default(l),
{
    match l {
        Some(l) => l,
        None => {
            let r = Lockup { unix_timestamp: 0, epoch: 0, custodian: Pubkey::default() };
            proof {
                assert(r.custodian@ =~= zero_key());
            }
            r
        },
    }
}

impl AccountsStorage {
    /// Stores a stake account delegated to `voter_pubkey` at `address`.
    pub fn create_delegated_account(
        &self,
        client: &mut LightClient,
        address: Pubkey,
        voter_pubkey: Pubkey,
        staker: Pubkey,
        withdrawer: Pubkey,
        stake: u64,
        activation_epoch: u64,
        deactivation_epoch: Option<u64>,
        lockup: Option<Lockup>,
    )
        ensures
            final(client).account_storage@ == old(client).account_storage@.insert(
                address@,
                delegated_stake_account(voter_pubkey, staker, withdrawer, stake, activation_epoch, deactivation_epoch, lockup),
            ),
            final(client).programs == old(client).programs,
    {
        let rent_exempt_lamports = rent_exempt_minimum(STAKE_STATE_LEN);
        let minimum_lamports = rent_exempt_lamports + LAMPORTS_PER_SOL;
        let meta = StakeMeta { rent_exempt_reserve: rent_exempt_lamports, staker, withdrawer, lockup: lockup_or_none(lockup) };
        let delegation = StakeDelegation {
            voter_pubkey,
            stake,
            activation_epoch,
            deactivation_epoch: match deactivation_epoch {
                Some(epoch) => epoch,
                None => u64::MAX,
            },
        };
        let data = stake_account_data(&meta, Some(&delegation));
        let lamports = if stake > minimum_lamports { stake } else { minimum_lamports };
        let account = TridentAccount { lamports, data, owner: stake_program_key(), executable: false, rent_epoch: 0 };
        client.set_account_custom(&address, account);
    }

    /// Stores an initialized, undelegated stake account at `address`.
    pub fn create_initialized_account(
        &self,
        client: &mut LightClient,
        address: Pubkey,
        staker: Pubkey,
        withdrawer: Pubkey,
        lockup: Option<Lockup>,
    )
        ensures
            final(client).account_storage@ == old(client).account_storage@.insert(
                address@,
                initialized_stake_account(staker, withdrawer, lockup),
            ),
            final(client).programs == old(client).programs,
    {
        let rent_exempt_lamports = rent_exempt_minimum(STAKE_STATE_LEN);
        let meta = StakeMeta { rent_exempt_reserve: rent_exempt_lamports, staker, withdrawer, lockup: lockup_or_none(lockup) };
        let data = stake_account_data(&meta, None);
        let account = TridentAccount { lamports: rent_exempt_lamports, data, owner: stake_program_key(), executable: false, rent_epoch: 0 };
        client.set_account_custom(&address, account);
    }

    /// Stores a fresh vote account at `address`, its voter authorized from
    /// the clock's epoch.
    pub fn create_vote_account(
        &self,
        client: &mut LightClient,
        address: Pubkey,
        node_pubkey: &Pubkey,
        authorized_voter: &Pubkey,
        authorized_withdrawer: &Pubkey,
        commission: u8,
        clock: &Clock,
    )
        ensures
            final(client).account_storage@ == old(client).account_storage@.insert(
                address@,
                vote_account(*node_pubkey, *authorized_voter, *authorized_withdrawer, commission, clock.epoch),
            ),
            final(client).programs == old(client).programs,
    {
        let lamports = rent_exempt_minimum(VOTE_STATE_LEN);
        let data = vote_account_data(node_pubkey, authorized_voter, authorized_withdrawer, commission, clock.epoch);
        let account = TridentAccount { lamports, data, owner: vote_program_key(), executable: false, rent_epoch: 0 };
        client.set_account_custom(&address, account);
    }

    /// The address bound to `account_id`; on first use the id is bound to a
    /// new address (see `get_or_create_address`), which gets a stake account delegated to `voter_pubkey`
    /// unless the client already holds a non-empty account there.
    pub fn get_or_create_delegated_account(
        &mut self,
        account_id: AccountId,
        client: &mut LightClient,
        seeds: Option<PdaSeeds>,
        voter_pubkey: Pubkey,
        staker: Pubkey,
        withdrawer: Pubkey,
        stake: u64,
        activation_epoch: u64,
        deactivation_epoch: Option<u64>,
        lockup: Option<Lockup>,
    ) -> (r: Pubkey)
        ensures
            old(self).accounts@.contains_key(account_id) ==> {
                &&& r@ == old(self).accounts@[account_id]
                &&& final(self).accounts@ == old(self).accounts@
                &&& final(client).account_storage@ == old(client).account_storage@
            },
            !old(self).accounts@.contains_key(account_id) ==> {
                &&& final(self).accounts@ == old(self).accounts@.insert(account_id, r@)
                &&& final(client).account_storage@ == if blank_at(old(client).account_storage@, r@) {
                    old(client).account_storage@.insert(r@, delegated_stake_account(voter_pubkey, staker, withdrawer, stake, activation_epoch, deactivation_epoch, lockup))
                } else {
                    old(client).account_storage@
                }
                &&& (seeds matches Some(s) ==> (pda_of(s.seeds, s.program_id) is Some ==> Some(r@) == pda_of(s.seeds, s.program_id)))
                &&& (seeds is None ==> exists|secret: Seq<u8>| secret.len() == 32 && r@ == keypair_pubkey(secret))
            },
            final(self)._max_accounts == old(self)._max_accounts,
            final(client).programs == old(client).programs,
    {
        match self.accounts.get(&account_id) {
            Some(address) => *address,
            None => {
                let address = self.get_or_create_address(seeds);
                if client.is_blank(&address) {
                    self.create_delegated_account(client, address, voter_pubkey, staker, withdrawer, stake, activation_epoch, deactivation_epoch, lockup);
                }
                self.accounts.insert(account_id, address);
                address
            },
        }
    }

    /// The address bound to `account_id`; on first use the id is bound to a
    /// new address (see `get_or_create_address`), which gets an initialized stake account
    /// unless the client already holds a non-empty account there.
    pub fn get_or_create_initialized_account(
        &mut self,
        account_id: AccountId,
        client: &mut LightClient,
        seeds: Option<PdaSeeds>,
        staker: Pubkey,
        withdrawer: Pubkey,
        lockup: Option<Lockup>,
    ) -> (r: Pubkey)
        ensures
            old(self).accounts@.contains_key(account_id) ==> {
                &&& r@ == old(self).accounts@[account_id]
                &&& final(self).accounts@ == old(self).accounts@
                &&& final(client).account_storage@ == old(client).account_storage@
            },
            !old(self).accounts@.contains_key(account_id) ==> {
                &&& final(self).accounts@ == old(self).accounts@.insert(account_id, r@)
                &&& final(client).account_storage@ == if blank_at(old(client).account_storage@, r@) {
                    old(client).account_storage@.insert(r@, initialized_stake_account(staker, withdrawer, lockup))
                } else {
                    old(client).account_storage@
                }
                &&& (seeds matches Some(s) ==> (pda_of(s.seeds, s.program_id) is Some ==> Some(r@) == pda_of(s.seeds, s.program_id)))
                &&& (seeds is None ==> exists|secret: Seq<u8>| secret.len() == 32 && r@ == keypair_pubkey(secret))
            },
            final(self)._max_accounts == old(self)._max_accounts,
            final(client).programs == old(client).programs,
    {
        match self.accounts.get(&account_id) {
            Some(address) => *address,
            None => {
                let address = self.get_or_create_address(seeds);
                if client.is_blank(&address) {
                    self.create_initialized_account(client, address, staker, withdrawer, lockup);
                }
                self.accounts.insert(account_id, address);
                address
            },
        }
    }

    /// The address bound to `account_id`; on first use the id is bound to a
    /// new address (see `get_or_create_address`), which gets a fresh vote account
    /// unless the client already holds a non-empty account there.
    pub fn get_or_create_vote_account(
        &mut self,
        account_id: AccountId,
        client: &mut LightClient,
        seeds: Option<PdaSeeds>,
        node_pubkey: &Pubkey,
        authorized_voter: &Pubkey,
        authorized_withdrawer: &Pubkey,
        commission: u8,
        clock: &Clock,
    ) -> (r: Pubkey)
        ensures
            old(self).accounts@.contains_key(account_id) ==> {
                &&& r@ == old(self).accounts@[account_id]
                &&& final(self).accounts@ == old(self).accounts@
                &&& final(client).account_storage@ == old(client).account_storage@
            },
            !old(self).accounts@.contains_key(account_id) ==> {
                &&& final(self).accounts@ == old(self).accounts@.insert(account_id, r@)
                &&& final(client).account_storage@ == if blank_at(old(client).account_storage@, r@) {
                    old(client).account_storage@.insert(r@, vote_account(*node_pubkey, *authorized_voter, *authorized_withdrawer, commission, clock.epoch))
                } else {
                    old(client).account_storage@
                }
                &&& (seeds matches Some(s) ==> (pda_of(s.seeds, s.program_id) is Some ==> Some(r@) == pda_of(s.seeds, s.program_id)))
                &&& (seeds is None ==> exists|secret: Seq<u8>| secret.len() == 32 && r@ == keypair_pubkey(secret))
            },
            final(self)._max_accounts == old(self)._max_accounts,
            final(client).programs == old(client).programs,
    {
        match self.accounts.get(&account_id) {
            Some(address) => *address,
            None => {
                let address = self.get_or_create_address(seeds);
                if client.is_blank(&address) {
                    self.create_vote_account(client, address, node_pubkey, authorized_voter, authorized_withdrawer, commission, clock);
                }
                self.accounts.insert(account_id, address);
                address
            },
        }
    }
}

} // verus!

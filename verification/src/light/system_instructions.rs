//! The system program's instructions as the light client runs them for a
//! program's cross-program calls: creating, allocating, assigning and
//! funding accounts. Accounts are held by key, so two references to one
//! key touch the same account.
use crate::derivation::{create_with_seed, key_result_view, seeded_address, SeedError};
use crate::keyed_map::{entries_view, KeyedMap};
use crate::light::account::zeros;
use crate::pubkey::{zero_key, Pubkey};
use vstd::prelude::*;
use vstd::string::StringSliceAdditionalSpecFns;

verus! {

/// Largest data an account may be allocated, in bytes.
pub const MAX_PERMITTED_DATA_LENGTH: u64 = 10485760;

/// Most a program may grow an account's data beyond its length at entry.
pub const MAX_PERMITTED_DATA_INCREASE: usize = 10240;

/// Errors the system program's instructions return.
#[derive(Clone, Copy, Debug, PartialEq, Eq, Structural)]
pub enum ProgramError {
    AccountAlreadyInitialized,
    MissingRequiredSignature,
    InvalidAccountData,
    InvalidArgument,
    InsufficientFunds,
    InvalidSeeds,
    InvalidRealloc,
    NotEnoughAccountKeys,
    MaxSeedLengthExceeded,
    IllegalOwner,
}

/// An account as a program sees it during a call.
#[derive(Debug)]
pub struct AccountState {
    pub lamports: u64,
    pub data: Vec<u8>,
    pub owner: Pubkey,
    pub executable: bool,
    pub rent_epoch: u64,
    /// Length of the data when the program was entered.
    pub original_data_len: usize,
}

pub struct AccountStateView {
    pub lamports: u64,
    pub data: Seq<u8>,
    pub owner: Seq<u8>,
    pub executable: bool,
    pub rent_epoch: u64,
    pub original_data_len: usize,
}

impl View for AccountState {
    type V = AccountStateView;

    open spec fn view(&self) -> AccountStateView {
        AccountStateView {
            lamports: self.lamports,
            data: self.data@,
            owner: self.owner@,
            executable: self.executable,
            rent_epoch: self.rent_epoch,
            original_data_len: self.original_data_len,
        }
    }
}

/// A reference to an account in a call: its key and the rights given.
#[derive(Clone, Copy, Debug)]
pub struct AccountRef {
    pub key: Pubkey,
    pub is_signer: bool,
    pub is_writable: bool,
}

/// The accounts of a call, by key.
pub type AccountStore = KeyedMap<Pubkey, AccountState>;

/// Sum of the balances of a list of accounts.
pub open spec fn sum_lamports(s: Seq<(Seq<u8>, AccountStateView)>) -> int
    decreases s.len(),
{
    if s.len() == 0 {
        0
    } else {
        sum_lamports(s.drop_last()) + s.last().1.lamports
    }
}

/// Sum of the balances of all accounts of the call.
pub open spec fn total_lamports(store: &AccountStore) -> int {
    sum_lamports(store.ordered())
}

/// Replacing an entry changes the sum by the difference of the balances.
pub proof fn lemma_sum_update(s: Seq<(Seq<u8>, AccountStateView)>, i: int, e: (Seq<u8>, AccountStateView))
    requires
        0 <= i < s.len(),
    ensures
        sum_lamports(s.update(i, e)) == sum_lamports(s) - s[i].1.lamports + e.1.lamports,
    decreases s.len(),
{
    if i < s.len() - 1 {
        lemma_sum_update(s.drop_last(), i, e);
        assert(s.update(i, e).drop_last() =~= s.drop_last().update(i, e));
    } else {
        assert(s.update(i, e).drop_last() =~= s.drop_last());
    }
}

/// The system program's own address, all zeros.
pub open spec fn system_program_id() -> Seq<u8> {
    zero_key()
}

/// Whether the address is the system program's.
pub fn is_system_program(key: &Pubkey) -> (r: bool)
    ensures
        r == (key@ == system_program_id()),
{
    let zero = Pubkey::default();
    let r = key.same(&zero);
    proof {
        if key@ == system_program_id() {
            assert(key.bytes =~= zero.bytes);
        }
    }
    r
}

/// The store with the account of `key` replaced, keeping its place.
pub open spec fn store_set(before: Seq<(Seq<u8>, AccountStateView)>, key: Seq<u8>, v: AccountStateView, after: Seq<(Seq<u8>, AccountStateView)>) -> bool {
    exists|i: int| 0 <= i < before.len() && before[i].0 == key && after == before.update(i, (key, v))
}

/// Replaces the account of a key the store holds.
fn put(store: &mut AccountStore, key: &Pubkey, v: AccountState)
    requires
        old(store)@.contains_key(key@),
    ensures
        final(store)@ == old(store)@.insert(key@, v@),
        store_set(old(store).ordered(), key@, v@, final(store).ordered()),
        total_lamports(final(store)) == total_lamports(old(store)) - old(store)@[key@].lamports + v.lamports,
{
    let ghost vv = v@;
    match store.take(key) {
        Some((i, k, _old)) => {
            let ghost before = old(store).ordered();
            store.put_back(i, k, v);
            proof {
                assert(store.ordered() =~= before.update(i as int, (key@, vv)));
                assert(store@ =~= old(store)@.insert(key@, vv));
                lemma_sum_update(before, i as int, (key@, vv));
            }
        },
        None => {},
    }
}

/// A copy of the account of a key the store holds.
fn get_copy(store: &AccountStore, key: &Pubkey) -> (r: AccountState)
    requires
        store@.contains_key(key@),
    ensures
        r@ == store@[key@],
{
    match store.get(key) {
        Some(a) => AccountState {
            lamports: a.lamports,
            data: a.data.clone(),
            owner: a.owner,
            executable: a.executable,
            rent_epoch: a.rent_epoch,
            original_data_len: a.original_data_len,
        },
        None => AccountState {
            lamports: 0,
            data: Vec::new(),
            owner: Pubkey { bytes: [0u8; 32] },
            executable: false,
            rent_epoch: 0,
            original_data_len: 0,
        },
    }
}

/// Fails unless at least `expected_at_least` accounts were supplied.
pub fn check_number_of_instruction_accounts(supplied: usize, expected_at_least: u8) -> (r: Result<(), ProgramError>)
    ensures
        r is Ok <==> supplied >= expected_at_least,
        r matches Err(e) ==> e == ProgramError::NotEnoughAccountKeys,
{
    if supplied < expected_at_least as usize {
        Err(ProgramError::NotEnoughAccountKeys)
    } else {
        Ok(())
    }
}

/// Takes lamports from an account that holds at least as many.
pub fn subtract_lamports(store: &mut AccountStore, from: &Pubkey, lamports: u64)
    requires
        old(store)@.contains_key(from@),
        old(store)@[from@].lamports >= lamports,
    ensures
        final(store)@ == old(store)@.insert(from@, AccountStateView { lamports: (old(store)@[from@].lamports - lamports) as u64, ..old(store)@[from@] }),
        total_lamports(final(store)) == total_lamports(old(store)) - lamports,
{
    let mut a = get_copy(store, from);
    a.lamports = a.lamports - lamports;
    put(store, from, a);
}

/// Gives lamports to an account whose balance stays within 64 bits.
pub fn add_lamports(store: &mut AccountStore, to: &Pubkey, lamports: u64)
    requires
        old(store)@.contains_key(to@),
        old(store)@[to@].lamports + lamports <= u64::MAX,
    ensures
        final(store)@ == old(store)@.insert(to@, AccountStateView { lamports: (old(store)@[to@].lamports + lamports) as u64, ..old(store)@[to@] }),
        total_lamports(final(store)) == total_lamports(old(store)) + lamports,
{
    let mut a = get_copy(store, to);
    a.lamports = a.lamports + lamports;
    put(store, to, a);
}

/// When a transfer of `lamports` from `from` to `to` cannot overflow the
/// receiver's balance: the transfer moves nothing (the sender carries data
/// or holds too few lamports), the receiver is the sender itself, or the
/// receiver's balance plus `lamports` stays within 64 bits.
pub open spec fn transfer_fits(store: Map<Seq<u8>, AccountStateView>, from: Seq<u8>, to: Seq<u8>, lamports: u64) -> bool {
    ||| from == to
    ||| store[from].data.len() != 0
    ||| lamports > store[from].lamports
    ||| store[to].lamports + lamports <= u64::MAX
}

/// Whether a transfer of `lamports` from `from` to `to` fits: see
/// `transfer_fits`.
pub fn transfer_would_fit(store: &AccountStore, from: &Pubkey, to: &Pubkey, lamports: u64) -> (r: bool)
    requires
        store@.contains_key(from@),
        store@.contains_key(to@),
    ensures
        r == transfer_fits(store@, from@, to@, lamports),
{
    if from.same(to) {
        return true;
    }
    let sender = get_copy(store, from);
    if sender.data.len() != 0 || lamports > sender.lamports {
        return true;
    }
    let receiver = get_copy(store, to);
    receiver.lamports <= u64::MAX - lamports
}

/// The store after moving `lamports` from `from` to `to`.
pub open spec fn moved(store: Map<Seq<u8>, AccountStateView>, from: Seq<u8>, to: Seq<u8>, lamports: u64) -> Map<Seq<u8>, AccountStateView> {
    let s1 = store.insert(from, AccountStateView { lamports: (store[from].lamports - lamports) as u64, ..store[from] });
    s1.insert(to, AccountStateView { lamports: (s1[to].lamports + lamports) as u64, ..s1[to] })
}

/// Moving lamports to another account and back restores every account.
pub proof fn law_transfer_round_trip(store: Map<Seq<u8>, AccountStateView>, from: Seq<u8>, to: Seq<u8>, lamports: u64)
    requires
        from != to,
        store.contains_key(from),
        store.contains_key(to),
        store[from].lamports >= lamports,
        store[to].lamports + lamports <= u64::MAX,
    ensures
        moved(moved(store, from, to, lamports), to, from, lamports) == store,
{
    let there = moved(store, from, to, lamports);
    assert(there[to].lamports == store[to].lamports + lamports);
    assert(there[from].lamports == store[from].lamports - lamports);
    assert(moved(there, to, from, lamports) =~= store);
}

/// Moving lamports from an account to itself leaves every account as it
/// was.
pub proof fn law_transfer_to_self(store: Map<Seq<u8>, AccountStateView>, key: Seq<u8>, lamports: u64)
    requires
        store.contains_key(key),
        store[key].lamports >= lamports,
    ensures
        moved(store, key, key, lamports) == store,
{
    assert(moved(store, key, key, lamports) =~= store);
}

/// What `transfer_verified` returns: `InvalidArgument` when the sender
/// carries data, `InsufficientFunds` when it holds fewer lamports than
/// asked, else success.
pub open spec fn transfer_verified_result(store: Map<Seq<u8>, AccountStateView>, from: Seq<u8>, lamports: u64) -> Result<(), ProgramError> {
    if store[from].data.len() != 0 {
        Err(ProgramError::InvalidArgument)
    } else if lamports > store[from].lamports {
        Err(ProgramError::InsufficientFunds)
    } else {
        Ok(())
    }
}

/// The store after `transfer_verified`: moved on success, else unchanged.
pub open spec fn transfer_verified_store(store: Map<Seq<u8>, AccountStateView>, from: Seq<u8>, to: Seq<u8>, lamports: u64) -> Map<Seq<u8>, AccountStateView> {
    if transfer_verified_result(store, from, lamports) is Ok {
        moved(store, from, to, lamports)
    } else {
        store
    }
}

/// Moves lamports between accounts once the sender's signature is
/// settled: the sender must carry no data and hold enough lamports.
pub fn transfer_verified(store: &mut AccountStore, from: &AccountRef, to: &AccountRef, lamports: u64) -> (r: Result<(), ProgramError>)
    requires
        old(store)@.contains_key(from.key@),
        old(store)@.contains_key(to.key@),
        transfer_fits(old(store)@, from.key@, to.key@, lamports),
    ensures
        r == transfer_verified_result(old(store)@, from.key@, lamports),
        final(store)@ == transfer_verified_store(old(store)@, from.key@, to.key@, lamports),
        total_lamports(final(store)) == total_lamports(old(store)),
{
    let from_state = get_copy(store, &from.key);
    if from_state.data.len() != 0 {
        return Err(ProgramError::InvalidArgument);
    }
    if lamports > from_state.lamports {
        return Err(ProgramError::InsufficientFunds);
    }
    subtract_lamports(store, &from.key, lamports);
    add_lamports(store, &to.key, lamports);
    Ok(())
}

/// A transfer needs the sender's signature, a sender without data and
/// enough lamports, and fails with `MissingRequiredSignature`,
/// `InvalidArgument` and `InsufficientFunds` in that order of checks. On
/// success the sender loses and the receiver gains exactly the lamports
/// (nothing changes when they are the same account), and every other
/// account and field is kept; on failure nothing changes.
pub proof fn law_transfer_effect(store: Map<Seq<u8>, AccountStateView>, from: AccountRef, to: Seq<u8>, lamports: u64)
    requires
        store.contains_key(from.key@),
        store.contains_key(to),
        transfer_fits(store, from.key@, to, lamports),
    ensures
        ({
            let r = transfer_result(store, from, lamports);
            let t = transfer_store(store, from, to, lamports);
            let f = store[from.key@];
            &&& !from.is_signer ==> r == Err::<(), ProgramError>(ProgramError::MissingRequiredSignature)
            &&& from.is_signer && f.data.len() != 0 ==> r == Err::<(), ProgramError>(ProgramError::InvalidArgument)
            &&& from.is_signer && f.data.len() == 0 && lamports > f.lamports ==> r == Err::<(), ProgramError>(ProgramError::InsufficientFunds)
            &&& r is Ok <==> from.is_signer && f.data.len() == 0 && lamports <= f.lamports
            &&& r is Err ==> t == store
            &&& t.dom() == store.dom()
            &&& r is Ok && from.key@ != to ==> {
                &&& t[from.key@] == AccountStateView { lamports: (f.lamports - lamports) as u64, ..f }
                &&& t[to] == AccountStateView { lamports: (store[to].lamports + lamports) as u64, ..store[to] }
            }
            &&& r is Ok && from.key@ == to ==> t[to] == store[to]
            &&& forall|k: Seq<u8>| #[trigger] store.contains_key(k) && k != from.key@ && k != to ==> t[k] == store[k]
        }),
{
    let t = transfer_store(store, from, to, lamports);
    if transfer_result(store, from, lamports) is Ok {
        assert(t.dom() =~= store.dom());
        if from.key@ == to {
            law_transfer_to_self(store, to, lamports);
        }
    }
}

/// Assigning keeps an account that already has the owner as it is, needs
/// the account's signature otherwise, and then sets the owner and nothing
/// else; on failure nothing changes.
pub proof fn law_assign_effect(store: Map<Seq<u8>, AccountStateView>, to: AccountRef, new_owner: Seq<u8>)
    requires
        store.contains_key(to.key@),
    ensures
        ({
            let r = assign_result(store, to, new_owner);
            let t = assign_store(store, to, new_owner);
            &&& r is Ok <==> store[to.key@].owner == new_owner || to.is_signer
            &&& r is Err ==> r == Err::<(), ProgramError>(ProgramError::MissingRequiredSignature) && t == store
            &&& r is Ok ==> t.dom() == store.dom() && t[to.key@] == AccountStateView { owner: new_owner, ..store[to.key@] }
            &&& forall|k: Seq<u8>| #[trigger] store.contains_key(k) && k != to.key@ ==> t.contains_key(k) && t[k] == store[k]
        }),
{
    let t = assign_store(store, to, new_owner);
    if assign_result(store, to, new_owner) is Ok {
        assert(t.dom() =~= store.dom());
    }
}

/// Allocating needs the account's signature, an account without data
/// owned by the system program, at most 10 MiB, and growth within the
/// permitted increase; it then gives the account exactly `space` zero
/// bytes and changes nothing else. On failure nothing changes.
pub proof fn law_allocate_effect(store: Map<Seq<u8>, AccountStateView>, to: AccountRef, space: u64)
    requires
        store.contains_key(to.key@),
    ensures
        ({
            let a = store[to.key@];
            let r = allocate_result(store, to, space);
            let t = allocate_store(store, to, space);
            &&& !to.is_signer ==> r == Err::<(), ProgramError>(ProgramError::MissingRequiredSignature)
            &&& to.is_signer && (a.data.len() != 0 || a.owner != system_program_id())
                ==> r == Err::<(), ProgramError>(ProgramError::AccountAlreadyInitialized)
            &&& r is Ok <==> to.is_signer && a.data.len() == 0 && a.owner == system_program_id() && space <= MAX_PERMITTED_DATA_LENGTH
                && (space == 0 || space - a.original_data_len <= MAX_PERMITTED_DATA_INCREASE)
            &&& r is Err ==> t == store
            &&& r is Ok ==> {
                &&& t.dom() == store.dom()
                &&& t[to.key@].data.len() == space
                &&& forall|i: int| 0 <= i < space ==> #[trigger] t[to.key@].data[i] == 0
                &&& t[to.key@].lamports == a.lamports && t[to.key@].owner == a.owner
                &&& t[to.key@].executable == a.executable && t[to.key@].rent_epoch == a.rent_epoch
                &&& t[to.key@].original_data_len == a.original_data_len
            }
            &&& forall|k: Seq<u8>| #[trigger] store.contains_key(k) && k != to.key@ ==> t.contains_key(k) && t[k] == store[k]
        }),
{
    let t = allocate_store(store, to, space);
    if allocate_result(store, to, space) is Ok {
        assert(t.dom() =~= store.dom());
    }
}

/// What `transfer` returns: `MissingRequiredSignature` unless the sender
/// signs, else as `transfer_verified`.
pub open spec fn transfer_result(store: Map<Seq<u8>, AccountStateView>, from: AccountRef, lamports: u64) -> Result<(), ProgramError> {
    if !from.is_signer {
        Err(ProgramError::MissingRequiredSignature)
    } else {
        transfer_verified_result(store, from.key@, lamports)
    }
}

/// The store after `transfer`: moved on success, else unchanged.
pub open spec fn transfer_store(store: Map<Seq<u8>, AccountStateView>, from: AccountRef, to: Seq<u8>, lamports: u64) -> Map<Seq<u8>, AccountStateView> {
    if transfer_result(store, from, lamports) is Ok {
        moved(store, from.key@, to, lamports)
    } else {
        store
    }
}

/// Moves lamports from a signing sender to a receiver.
pub fn transfer(store: &mut AccountStore, from: &AccountRef, to: &AccountRef, lamports: u64) -> (r: Result<(), ProgramError>)
    requires
        old(store)@.contains_key(from.key@),
        old(store)@.contains_key(to.key@),
        transfer_fits(old(store)@, from.key@, to.key@, lamports),
    ensures
        r == transfer_result(old(store)@, *from, lamports),
        final(store)@ == transfer_store(old(store)@, *from, to.key@, lamports),
        total_lamports(final(store)) == total_lamports(old(store)),
{
    if !from.is_signer {
        return Err(ProgramError::MissingRequiredSignature);
    }
    transfer_verified(store, from, to, lamports)
}

/// What `assign` returns: success when the owner is already the new one,
/// else `MissingRequiredSignature` unless the account signs, else success.
pub open spec fn assign_result(store: Map<Seq<u8>, AccountStateView>, to: AccountRef, new_owner: Seq<u8>) -> Result<(), ProgramError> {
    if store[to.key@].owner == new_owner {
        Ok(())
    } else if !to.is_signer {
        Err(ProgramError::MissingRequiredSignature)
    } else {
        Ok(())
    }
}

/// The store after `assign`: the owner set on success, else unchanged.
pub open spec fn assign_store(store: Map<Seq<u8>, AccountStateView>, to: AccountRef, new_owner: Seq<u8>) -> Map<Seq<u8>, AccountStateView> {
    if assign_result(store, to, new_owner) is Ok {
        store.insert(to.key@, AccountStateView { owner: new_owner, ..store[to.key@] })
    } else {
        store
    }
}

/// Gives the account a new owner; the account must sign unless the owner
/// does not change.
pub fn assign(store: &mut AccountStore, to: &AccountRef, new_owner: Pubkey) -> (r: Result<(), ProgramError>)
    requires
        old(store)@.contains_key(to.key@),
    ensures
        r == assign_result(old(store)@, *to, new_owner@),
        final(store)@ == assign_store(old(store)@, *to, new_owner@),
        total_lamports(final(store)) == total_lamports(old(store)),
{
    let mut a = get_copy(store, &to.key);
    if a.owner.same(&new_owner) {
        proof {
            assert(old(store)@.insert(to.key@, AccountStateView { owner: new_owner@, ..old(store)@[to.key@] }) =~= old(store)@);
        }
        return Ok(());
    }
    if !to.is_signer {
        return Err(ProgramError::MissingRequiredSignature);
    }
    a.owner = new_owner;
    put(store, &to.key, a);
    Ok(())
}

/// What reallocating an account's data to `new_len` returns:
/// `InvalidRealloc` when it would grow more than allowed beyond the length
/// at entry, else success.
pub open spec fn realloc_result(a: AccountStateView, new_len: int) -> Result<(), ProgramError> {
    if new_len != a.data.len() && new_len - a.original_data_len > MAX_PERMITTED_DATA_INCREASE {
        Err(ProgramError::InvalidRealloc)
    } else {
        Ok(())
    }
}

/// What `allocate` returns: `MissingRequiredSignature` unless the account
/// signs, `AccountAlreadyInitialized` when it carries data or is owned by
/// another program than the system program, `InvalidAccountData` when more
/// than 10 MiB are asked, else as the reallocation.
pub open spec fn allocate_result(store: Map<Seq<u8>, AccountStateView>, to: AccountRef, space: u64) -> Result<(), ProgramError> {
    let a = store[to.key@];
    if !to.is_signer {
        Err(ProgramError::MissingRequiredSignature)
    } else if a.data.len() != 0 || a.owner != system_program_id() {
        Err(ProgramError::AccountAlreadyInitialized)
    } else if space > MAX_PERMITTED_DATA_LENGTH {
        Err(ProgramError::InvalidAccountData)
    } else {
        realloc_result(a, space as int)
    }
}

/// The store after `allocate`: `space` zero bytes of data on success, else
/// unchanged.
pub open spec fn allocate_store(store: Map<Seq<u8>, AccountStateView>, to: AccountRef, space: u64) -> Map<Seq<u8>, AccountStateView> {
    if allocate_result(store, to, space) is Ok {
        store.insert(to.key@, AccountStateView { data: zeros(space as nat), ..store[to.key@] })
    } else {
        store
    }
}

/// Gives an empty, system-owned, signing account `space` bytes of data.
pub fn allocate(store: &mut AccountStore, to: &AccountRef, space: u64) -> (r: Result<(), ProgramError>)
    requires
        old(store)@.contains_key(to.key@),
    ensures
        r == allocate_result(old(store)@, *to, space),
        final(store)@ == allocate_store(old(store)@, *to, space),
        total_lamports(final(store)) == total_lamports(old(store)),
{
    let mut a = get_copy(store, &to.key);
    if !to.is_signer {
        return Err(ProgramError::MissingRequiredSignature);
    }
    if a.data.len() != 0 || !is_system_program(&a.owner) {
        return Err(ProgramError::AccountAlreadyInitialized);
    }
    if space > MAX_PERMITTED_DATA_LENGTH {
        return Err(ProgramError::InvalidAccountData);
    }
    let new_len = space as usize;
    if new_len == 0 {
        proof {
            assert(a.data@ =~= zeros(0));
            assert(old(store)@.insert(to.key@, AccountStateView { data: zeros(space as nat), ..old(store)@[to.key@] }) =~= old(store)@);
        }
        return Ok(());
    }
    if new_len > a.original_data_len && new_len - a.original_data_len > MAX_PERMITTED_DATA_INCREASE {
        return Err(ProgramError::InvalidRealloc);
    }
    a.data = vec![0u8; new_len];
    proof {
        assert(a.data@ =~= zeros(space as nat));
    }
    put(store, &to.key, a);
    Ok(())
}

/// What `allocate_and_assign` returns: as `allocate`, then as `assign`.
pub open spec fn allocate_and_assign_result(store: Map<Seq<u8>, AccountStateView>, to: AccountRef, space: u64, owner: Seq<u8>) -> Result<(), ProgramError> {
    match allocate_result(store, to, space) {
        Err(e) => Err(e),
        Ok(()) => assign_result(
            store.insert(to.key@, AccountStateView { data: zeros(space as nat), ..store[to.key@] }),
            to,
            owner,
        ),
    }
}

/// The store after `allocate_and_assign` succeeds: data allocated, owner
/// set.
pub open spec fn allocated_and_assigned(store: Map<Seq<u8>, AccountStateView>, to: Seq<u8>, space: u64, owner: Seq<u8>) -> Map<Seq<u8>, AccountStateView> {
    store.insert(to, AccountStateView { data: zeros(space as nat), owner, ..store[to] })
}

/// The store after `allocate_and_assign`: as `allocate` leaves it, then as
/// `assign` leaves that.
pub open spec fn allocate_and_assign_store(store: Map<Seq<u8>, AccountStateView>, to: AccountRef, space: u64, owner: Seq<u8>) -> Map<Seq<u8>, AccountStateView> {
    if allocate_result(store, to, space) is Ok {
        assign_store(allocate_store(store, to, space), to, owner)
    } else {
        store
    }
}

/// Allocates the account's data, then assigns it to `owner`.
pub fn allocate_and_assign(store: &mut AccountStore, to: &AccountRef, space: u64, owner: Pubkey) -> (r: Result<(), ProgramError>)
    requires
        old(store)@.contains_key(to.key@),
    ensures
        r == allocate_and_assign_result(old(store)@, *to, space, owner@),
        final(store)@ == allocate_and_assign_store(old(store)@, *to, space, owner@),
        r is Ok ==> final(store)@ == allocated_and_assigned(old(store)@, to.key@, space, owner@),
        total_lamports(final(store)) == total_lamports(old(store)),
{
    allocate(store, to, space)?;
    let r = assign(store, to, owner);
    proof {
        if r is Ok {
            assert(store@ =~= allocated_and_assigned(old(store)@, to.key@, space, owner@));
        }
    }
    r
}

/// What `create_account` returns: `AccountAlreadyInitialized` when the new
/// account already holds lamports, else as `allocate_and_assign`, else as
/// the transfer of the funding.
pub open spec fn create_account_result(
    store: Map<Seq<u8>, AccountStateView>,
    from: AccountRef,
    to: AccountRef,
    space: u64,
    owner: Seq<u8>,
    lamports: u64,
) -> Result<(), ProgramError> {
    if store[to.key@].lamports > 0 {
        Err(ProgramError::AccountAlreadyInitialized)
    } else {
        match allocate_and_assign_result(store, to, space, owner) {
            Err(e) => Err(e),
            Ok(()) => transfer_result(allocated_and_assigned(store, to.key@, space, owner), from, lamports),
        }
    }
}

/// The store after `create_account`: unchanged when the new account holds
/// lamports, else as `allocate_and_assign` leaves it when that fails, else
/// as the funding transfer leaves the allocated and assigned store.
pub open spec fn create_account_store(
    store: Map<Seq<u8>, AccountStateView>,
    from: AccountRef,
    to: AccountRef,
    space: u64,
    owner: Seq<u8>,
    lamports: u64,
) -> Map<Seq<u8>, AccountStateView> {
    if store[to.key@].lamports > 0 {
        store
    } else if allocate_and_assign_result(store, to, space, owner) is Err {
        allocate_and_assign_store(store, to, space, owner)
    } else {
        transfer_store(allocated_and_assigned(store, to.key@, space, owner), from, to.key@, lamports)
    }
}

/// Creates an account: allocates and assigns the new account, then funds
/// it from `from`. The new account must hold no lamports yet, so the
/// funding cannot overflow its balance.
pub fn create_account(store: &mut AccountStore, from: &AccountRef, to: &AccountRef, space: u64, owner: Pubkey, lamports: u64) -> (r: Result<(), ProgramError>)
    requires
        old(store)@.contains_key(from.key@),
        old(store)@.contains_key(to.key@),
    ensures
        r == create_account_result(old(store)@, *from, *to, space, owner@, lamports),
        final(store)@ == create_account_store(old(store)@, *from, *to, space, owner@, lamports),
        total_lamports(final(store)) == total_lamports(old(store)),
{
    let to_state = get_copy(store, &to.key);
    if to_state.lamports > 0 {
        return Err(ProgramError::AccountAlreadyInitialized);
    }
    allocate_and_assign(store, to, space, owner)?;
    transfer(store, from, to, lamports)
}

/// Creating an account refuses one that already holds lamports with
/// `AccountAlreadyInitialized` and changes nothing. Otherwise, when the new
/// account signs, carries no data and is owned by the system program, and
/// the funding succeeds, it ends with `space` zero bytes, the owner given
/// and exactly the lamports sent, and the funder loses them.
pub proof fn law_create_account_effect(
    store: Map<Seq<u8>, AccountStateView>,
    from: AccountRef,
    to: AccountRef,
    space: u64,
    owner: Seq<u8>,
    lamports: u64,
)
    requires
        store.contains_key(from.key@),
        store.contains_key(to.key@),
    ensures
        ({
            let r = create_account_result(store, from, to, space, owner, lamports);
            let t = create_account_store(store, from, to, space, owner, lamports);
            &&& store[to.key@].lamports > 0 ==> r == Err::<(), ProgramError>(ProgramError::AccountAlreadyInitialized) && t == store
            &&& !to.is_signer ==> r is Err
            &&& r is Ok && from.key@ != to.key@ ==> {
                &&& t[to.key@].data.len() == space
                &&& forall|i: int| 0 <= i < space ==> #[trigger] t[to.key@].data[i] == 0
                &&& t[to.key@].owner == owner
                &&& t[to.key@].lamports == lamports
                &&& t[from.key@].lamports == store[from.key@].lamports - lamports
            }
            &&& forall|k: Seq<u8>| #[trigger] store.contains_key(k) && k != from.key@ && k != to.key@ ==> t.contains_key(k) && t[k] == store[k]
        }),
{
}

/// The system error that a refused derivation with a seed stands for.
pub open spec fn seed_error(e: SeedError) -> ProgramError {
    match e {
        SeedError::MaxSeedLengthExceeded => ProgramError::MaxSeedLengthExceeded,
        SeedError::IllegalOwner => ProgramError::IllegalOwner,
    }
}

/// What `create_address` returns: the derivation's error, else
/// `InvalidSeeds` when the address is not the derived one, else success.
pub open spec fn create_address_result(address: Seq<u8>, base: Seq<u8>, seed: Seq<u8>, owner: Seq<u8>) -> Result<(), ProgramError> {
    match seeded_address(base, seed, owner) {
        Err(e) => Err(seed_error(e)),
        Ok(k) => if address != k { Err(ProgramError::InvalidSeeds) } else { Ok(()) },
    }
}

/// Checks that `address` is the one derived from `base`, `seed` and `owner`.
pub fn create_address(address: &Pubkey, base: &Pubkey, seed: &str, owner: &Pubkey) -> (r: Result<(), ProgramError>)
    ensures
        r == create_address_result(address@, base@, seed.spec_bytes(), owner@),
{
    let derived = match create_with_seed(base, seed, owner) {
        Ok(k) => k,
        Err(SeedError::MaxSeedLengthExceeded) => return Err(ProgramError::MaxSeedLengthExceeded),
        Err(SeedError::IllegalOwner) => return Err(ProgramError::IllegalOwner),
    };
    if !address.same(&derived) {
        return Err(ProgramError::InvalidSeeds);
    }
    proof {
        assert(address.bytes =~= derived.bytes);
    }
    Ok(())
}

/// What `transfer_with_seed` returns: `MissingRequiredSignature` unless
/// the base signs, else as the check of the sender's address, else as
/// `transfer_verified`.
pub open spec fn transfer_with_seed_result(
    store: Map<Seq<u8>, AccountStateView>,
    from: AccountRef,
    from_base: AccountRef,
    from_seed: Seq<u8>,
    from_owner: Seq<u8>,
    lamports: u64,
) -> Result<(), ProgramError> {
    if !from_base.is_signer {
        Err(ProgramError::MissingRequiredSignature)
    } else {
        match create_address_result(from.key@, from_base.key@, from_seed, from_owner) {
            Err(e) => Err(e),
            Ok(()) => transfer_verified_result(store, from.key@, lamports),
        }
    }
}

/// A transfer from a derived account succeeds exactly when the base signs,
/// the sender's address is the one its base, seed and owner derive, and
/// the sender carries no data and holds enough lamports; the sender's own
/// signature plays no part.
pub proof fn law_transfer_with_seed(
    store: Map<Seq<u8>, AccountStateView>,
    from: AccountRef,
    from_base: AccountRef,
    from_seed: Seq<u8>,
    from_owner: Seq<u8>,
    lamports: u64,
)
    ensures
        transfer_with_seed_result(store, from, from_base, from_seed, from_owner, lamports) is Ok <==> {
            &&& from_base.is_signer
            &&& seeded_address(from_base.key@, from_seed, from_owner) == Ok::<Seq<u8>, SeedError>(from.key@)
            &&& store[from.key@].data.len() == 0
            &&& lamports <= store[from.key@].lamports
        },
        !from_base.is_signer ==> transfer_with_seed_result(store, from, from_base, from_seed, from_owner, lamports)
            == Err::<(), ProgramError>(ProgramError::MissingRequiredSignature),
        transfer_with_seed_result(store, AccountRef { is_signer: !from.is_signer, ..from }, from_base, from_seed, from_owner, lamports)
            == transfer_with_seed_result(store, from, from_base, from_seed, from_owner, lamports),
{
}

/// Moves lamports from an account derived from a signing base.
pub fn transfer_with_seed(
    store: &mut AccountStore,
    from: &AccountRef,
    from_base: &AccountRef,
    to: &AccountRef,
    from_seed: &str,
    from_owner: &Pubkey,
    lamports: u64,
) -> (r: Result<(), ProgramError>)
    requires
        old(store)@.contains_key(from.key@),
        old(store)@.contains_key(to.key@),
        transfer_fits(old(store)@, from.key@, to.key@, lamports),
    ensures
        r == transfer_with_seed_result(old(store)@, *from, *from_base, from_seed.spec_bytes(), from_owner@, lamports),
        final(store)@ == (if r is Ok { moved(old(store)@, from.key@, to.key@, lamports) } else { old(store)@ }),
        total_lamports(final(store)) == total_lamports(old(store)),
{
    if !from_base.is_signer {
        return Err(ProgramError::MissingRequiredSignature);
    }
    create_address(&from.key, &from_base.key, from_seed, from_owner)?;
    transfer_verified(store, from, to, lamports)
}

} // verus!

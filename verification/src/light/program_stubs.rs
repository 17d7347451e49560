//! The runtime stubs that serve a program's cross-program calls: the stack
//! of calling programs, the accounts handed to the callee with the rights
//! that signer seeds grant, the system program's instructions, and return
//! data.
use crate::derivation::{create_program_address, created_program_address, seeds_view};
use crate::light::account::{AccountMeta, Instruction};
use crate::light::system_instructions::{
    allocate, allocate_and_assign, allocate_and_assign_result, allocate_and_assign_store, allocate_result,
    allocate_store, assign, assign_result, assign_store, check_number_of_instruction_accounts, create_account,
    create_account_result, create_account_store, create_address, create_address_result, system_program_id,
    total_lamports, transfer, transfer_fits, transfer_result, transfer_would_fit, transfer_store, transfer_with_seed,
    transfer_with_seed_result, moved, is_system_program, law_assign_effect, law_transfer_effect, AccountRef, AccountStateView, AccountStore, ProgramError,
};
use crate::pubkey::{zero_key, Pubkey};
use vstd::prelude::*;
use vstd::string::StringSliceAdditionalSpecFns;

verus! {

/// The system program's instructions, decoded.
#[derive(Debug)]
pub enum SystemInstruction {
    CreateAccount { lamports: u64, space: u64, owner: Pubkey },
    Assign { owner: Pubkey },
    Transfer { lamports: u64 },
    CreateAccountWithSeed { base: Pubkey, seed: String, lamports: u64, space: u64, owner: Pubkey },
    AdvanceNonceAccount,
    WithdrawNonceAccount(u64),
    InitializeNonceAccount(Pubkey),
    AuthorizeNonceAccount(Pubkey),
    Allocate { space: u64 },
    AllocateWithSeed { base: Pubkey, seed: String, space: u64, owner: Pubkey },
    AssignWithSeed { base: Pubkey, seed: String, owner: Pubkey },
    TransferWithSeed { lamports: u64, from_seed: String, from_owner: Pubkey },
    UpgradeNonceAccount,
}

/// Data a program returned, with the program that returned it.
#[derive(Debug)]
pub struct TransactionReturnData {
    pub program_id: Pubkey,
    pub data: Vec<u8>,
}

impl Default for TransactionReturnData {
    fn default() -> (r: Self)
        ensures
            r.program_id@ == zero_key(),
            r.data@ == Seq::<u8>::empty(),
    {
        TransactionReturnData { program_id: Pubkey::default(), data: Vec::new() }
    }
}

/// State of the stubs: the programs on the call stack, innermost last, and
/// the last return data.
#[derive(Debug)]
pub struct TestSyscallStubs {
    pub callers: Vec<Pubkey>,
    pub data: TransactionReturnData,
}

/// The first account of `infos` with the key, if any.
pub open spec fn first_with_key(infos: Seq<AccountRef>, key: Seq<u8>) -> Option<AccountRef>
    decreases infos.len(),
{
    if infos.len() == 0 {
        None
    } else if infos[0].key@ == key {
        Some(infos[0])
    } else {
        first_with_key(infos.drop_first(), key)
    }
}

/// The keys of addresses, by their bytes.
pub open spec fn keys_view(keys: Seq<Pubkey>) -> Seq<Seq<u8>> {
    keys.map_values(|k: Pubkey| k@)
}

/// The accounts handed to the callee: for each account the instruction
/// names, in order, the first account of the caller's with that key, made a
/// signer when one of the signer addresses is its key; names without such
/// an account are skipped.
pub open spec fn updated_refs(infos: Seq<AccountRef>, signers: Seq<Seq<u8>>, metas: Seq<AccountMeta>) -> Seq<AccountRef>
    decreases metas.len(),
{
    if metas.len() == 0 {
        Seq::empty()
    } else {
        let prev = updated_refs(infos, signers, metas.drop_last());
        match first_with_key(infos, metas.last().pubkey@) {
            Some(a) => prev.push(AccountRef { is_signer: a.is_signer || signers.contains(a.key@), ..a }),
            None => prev,
        }
    }
}

/// The signer seeds of a call, by their bytes.
pub open spec fn signer_seeds_view(signers_seeds: &[&[&[u8]]]) -> Seq<Seq<Seq<u8>>> {
    signers_seeds@.map_values(|s: &[&[u8]]| seeds_view(s))
}

/// Whether every set of signer seeds derives an address of the program.
pub open spec fn signers_derive(seeds: Seq<Seq<Seq<u8>>>, program: Seq<u8>) -> bool {
    forall|i: int| 0 <= i < seeds.len() ==> (#[trigger] created_program_address(seeds[i], program)) is Some
}

/// The addresses the signer seeds derive for the program.
pub open spec fn signer_keys(seeds: Seq<Seq<Seq<u8>>>, program: Seq<u8>) -> Seq<Seq<u8>> {
    Seq::new(seeds.len(), |i: int| created_program_address(seeds[i], program)->0)
}

/// Looking for the first account with a key from position `j` on.
proof fn lemma_first_with_key_step(infos: Seq<AccountRef>, key: Seq<u8>, j: int)
    requires
        0 <= j < infos.len(),
    ensures
        first_with_key(infos.subrange(j, infos.len() as int), key) == (if infos[j].key@ == key {
            Some(infos[j])
        } else {
            first_with_key(infos.subrange(j + 1, infos.len() as int), key)
        }),
{
    assert(infos.subrange(j, infos.len() as int).drop_first() =~= infos.subrange(j + 1, infos.len() as int));
}

/// The bytes of a seed's text.
pub open spec fn seed_bytes(seed: &String) -> Seq<u8> {
    vstd::utf8::encode_utf8(seed@)
}

/// The call stack after popping the innermost program, if there is one.
pub open spec fn popped(callers: Seq<Pubkey>) -> Seq<Pubkey> {
    if callers.len() == 0 {
        callers
    } else {
        callers.drop_last()
    }
}

/// The error a system instruction stops with before its work: too few
/// accounts (for `CreateAccount`, counted among the caller's accounts, for
/// the others among those handed on), or an address that its seed does not
/// derive. The call stack is left as it is then.
pub open spec fn system_early_error(ix: SystemInstruction, infos_len: nat, new: Seq<AccountRef>) -> Option<ProgramError> {
    match ix {
        SystemInstruction::CreateAccount { .. } => if infos_len < 2 { Some(ProgramError::NotEnoughAccountKeys) } else { None },
        SystemInstruction::CreateAccountWithSeed { base, seed, owner, .. } => if new.len() < 2 {
            Some(ProgramError::NotEnoughAccountKeys)
        } else {
            match create_address_result(new[1].key@, base@, seed_bytes(&seed), owner@) {
                Err(e) => Some(e),
                Ok(_) => None,
            }
        },
        SystemInstruction::Assign { .. } => if new.len() < 1 { Some(ProgramError::NotEnoughAccountKeys) } else { None },
        SystemInstruction::Transfer { .. } => if new.len() < 2 { Some(ProgramError::NotEnoughAccountKeys) } else { None },
        SystemInstruction::TransferWithSeed { .. } => if new.len() < 3 { Some(ProgramError::NotEnoughAccountKeys) } else { None },
        SystemInstruction::Allocate { .. } => if new.len() < 1 { Some(ProgramError::NotEnoughAccountKeys) } else { None },
        SystemInstruction::AllocateWithSeed { base, seed, owner, .. } => if new.len() < 1 {
            Some(ProgramError::NotEnoughAccountKeys)
        } else {
            match create_address_result(new[0].key@, base@, seed_bytes(&seed), owner@) {
                Err(e) => Some(e),
                Ok(_) => None,
            }
        },
        SystemInstruction::AssignWithSeed { base, seed, owner } => if new.len() < 1 {
            Some(ProgramError::NotEnoughAccountKeys)
        } else {
            match create_address_result(new[0].key@, base@, seed_bytes(&seed), owner@) {
                Err(e) => Some(e),
                Ok(_) => None,
            }
        },
        _ => None,
    }
}

/// What the system instruction's work returns once past its early checks;
/// the nonce instructions succeed without work.
pub open spec fn system_work_result(store: Map<Seq<u8>, AccountStateView>, ix: SystemInstruction, new: Seq<AccountRef>) -> Result<(), ProgramError> {
    match ix {
        SystemInstruction::CreateAccount { lamports, space, owner } => create_account_result(store, new[0], new[1], space, owner@, lamports),
        SystemInstruction::CreateAccountWithSeed { lamports, space, owner, .. } => create_account_result(store, new[0], new[1], space, owner@, lamports),
        SystemInstruction::Assign { owner } => assign_result(store, new[0], owner@),
        SystemInstruction::Transfer { lamports } => transfer_result(store, new[0], lamports),
        SystemInstruction::TransferWithSeed { lamports, from_seed, from_owner } => transfer_with_seed_result(store, new[0], new[1], seed_bytes(&from_seed), from_owner@, lamports),
        SystemInstruction::Allocate { space } => allocate_result(store, new[0], space),
        SystemInstruction::AllocateWithSeed { space, owner, .. } => allocate_and_assign_result(store, new[0], space, owner@),
        SystemInstruction::AssignWithSeed { owner, .. } => assign_result(store, new[0], owner@),
        _ => Ok(()),
    }
}

/// The accounts after the system instruction's work.
pub open spec fn system_work_store(store: Map<Seq<u8>, AccountStateView>, ix: SystemInstruction, new: Seq<AccountRef>) -> Map<Seq<u8>, AccountStateView> {
    match ix {
        SystemInstruction::CreateAccount { lamports, space, owner } => create_account_store(store, new[0], new[1], space, owner@, lamports),
        SystemInstruction::CreateAccountWithSeed { lamports, space, owner, .. } => create_account_store(store, new[0], new[1], space, owner@, lamports),
        SystemInstruction::Assign { owner } => assign_store(store, new[0], owner@),
        SystemInstruction::Transfer { lamports } => transfer_store(store, new[0], new[1].key@, lamports),
        SystemInstruction::TransferWithSeed { lamports, from_seed, from_owner } => if transfer_with_seed_result(store, new[0], new[1], seed_bytes(&from_seed), from_owner@, lamports) is Ok {
            moved(store, new[0].key@, new[2].key@, lamports)
        } else {
            store
        },
        SystemInstruction::Allocate { space } => allocate_store(store, new[0], space),
        SystemInstruction::AllocateWithSeed { space, owner, .. } => allocate_and_assign_store(store, new[0], space, owner@),
        SystemInstruction::AssignWithSeed { owner, .. } => assign_store(store, new[0], owner@),
        _ => store,
    }
}

/// What running the system instruction returns.
pub open spec fn system_result(store: Map<Seq<u8>, AccountStateView>, ix: SystemInstruction, infos_len: nat, new: Seq<AccountRef>) -> Result<(), ProgramError> {
    match system_early_error(ix, infos_len, new) {
        Some(e) => Err(e),
        None => system_work_result(store, ix, new),
    }
}

/// The accounts after running the system instruction.
pub open spec fn system_store(store: Map<Seq<u8>, AccountStateView>, ix: SystemInstruction, infos_len: nat, new: Seq<AccountRef>) -> Map<Seq<u8>, AccountStateView> {
    match system_early_error(ix, infos_len, new) {
        Some(_) => store,
        None => system_work_store(store, ix, new),
    }
}

/// The system program's transfer through the stubs: with fewer than two
/// accounts handed on it fails with `NotEnoughAccountKeys` and changes
/// nothing; otherwise a signing sender without data and with enough
/// lamports pays the second account exactly the lamports, and any other
/// sender changes nothing. Assigning sets the first account's owner when
/// it succeeds, and the nonce instructions succeed and change nothing.
pub proof fn law_system_transfer_and_assign(
    store: Map<Seq<u8>, AccountStateView>,
    infos_len: nat,
    new: Seq<AccountRef>,
    lamports: u64,
    owner: Pubkey,
)
    requires
        holds_all(store, new),
        new.len() >= 2 ==> transfer_fits(store, new[0].key@, new[1].key@, lamports),
    ensures
        ({
            let ix = SystemInstruction::Transfer { lamports };
            let r = system_result(store, ix, infos_len, new);
            let t = system_store(store, ix, infos_len, new);
            &&& new.len() < 2 ==> r == Err::<(), ProgramError>(ProgramError::NotEnoughAccountKeys) && t == store
            &&& new.len() >= 2 ==> {
                let (f, to) = (new[0], new[1].key@);
                let fa = store[f.key@];
                &&& (r is Ok <==> f.is_signer && fa.data.len() == 0 && lamports <= fa.lamports)
                &&& r is Err ==> t == store
                &&& r is Ok && f.key@ != to ==> t[f.key@].lamports == fa.lamports - lamports
                    && t[to].lamports == store[to].lamports + lamports
            }
        }),
        ({
            let ix = SystemInstruction::Assign { owner };
            let r = system_result(store, ix, infos_len, new);
            let t = system_store(store, ix, infos_len, new);
            &&& new.len() < 1 ==> r == Err::<(), ProgramError>(ProgramError::NotEnoughAccountKeys) && t == store
            &&& new.len() >= 1 && r is Ok ==> t[new[0].key@].owner == owner@
            &&& new.len() >= 1 && r is Err ==> t == store
        }),
        system_result(store, SystemInstruction::AdvanceNonceAccount, infos_len, new) is Ok,
        system_store(store, SystemInstruction::AdvanceNonceAccount, infos_len, new) == store,
        system_result(store, SystemInstruction::WithdrawNonceAccount(lamports), infos_len, new) is Ok,
        system_store(store, SystemInstruction::WithdrawNonceAccount(lamports), infos_len, new) == store,
{
    if new.len() >= 2 {
        assert(store.contains_key(new[0].key@));
        assert(store.contains_key(new[1].key@));
        law_transfer_effect(store, new[0], new[1].key@, lamports);
    }
    if new.len() >= 1 {
        assert(store.contains_key(new[0].key@));
        law_assign_effect(store, new[0], owner@);
    }
}

/// When running the system instruction cannot panic: `CreateAccount`
/// indexes the accounts handed on after counting the caller's, and a
/// transfer must not overflow the receiver's balance.
pub open spec fn system_fits(store: Map<Seq<u8>, AccountStateView>, ix: SystemInstruction, infos_len: nat, new: Seq<AccountRef>) -> bool {
    match ix {
        SystemInstruction::CreateAccount { .. } => infos_len >= 2 ==> new.len() >= 2,
        SystemInstruction::Transfer { lamports } => new.len() >= 2 ==> transfer_fits(store, new[0].key@, new[1].key@, lamports),
        SystemInstruction::TransferWithSeed { lamports, .. } => new.len() >= 3 ==> transfer_fits(store, new[0].key@, new[2].key@, lamports),
        _ => true,
    }
}

/// Whether the store holds every account of the list.
pub open spec fn holds_all(store: Map<Seq<u8>, AccountStateView>, refs: Seq<AccountRef>) -> bool {
    forall|i: int| 0 <= i < refs.len() ==> store.contains_key(#[trigger] refs[i].key@)
}

/// Where the first account with a key is found, it is one of the list,
/// with that key.
proof fn lemma_first_with_key_in(infos: Seq<AccountRef>, key: Seq<u8>)
    ensures
        first_with_key(infos, key) matches Some(a) ==> infos.contains(a) && a.key@ == key,
    decreases infos.len(),
{
    if infos.len() > 0 {
        if infos[0].key@ == key {
            assert(infos[0] == infos[0]);
        } else {
            lemma_first_with_key_in(infos.drop_first(), key);
            if let Some(a) = first_with_key(infos.drop_first(), key) {
                let j = choose|j: int| 0 <= j < infos.drop_first().len() && infos.drop_first()[j] == a;
                assert(infos[j + 1] == a);
            }
        }
    }
}

/// The accounts handed on have the same number and keys whatever the
/// signers, and each is one of the caller's, so a store that holds the
/// caller's accounts holds them.
pub proof fn lemma_updated_refs_keys(infos: Seq<AccountRef>, signers: Seq<Seq<u8>>, metas: Seq<AccountMeta>, store: Map<Seq<u8>, AccountStateView>)
    ensures
        updated_refs(infos, signers, metas).len() == updated_refs(infos, Seq::empty(), metas).len(),
        forall|i: int|
            0 <= i < updated_refs(infos, signers, metas).len() ==> #[trigger] updated_refs(infos, signers, metas)[i].key
                == updated_refs(infos, Seq::empty(), metas)[i].key,
        holds_all(store, infos) ==> holds_all(store, updated_refs(infos, signers, metas)),
    decreases metas.len(),
{
    if metas.len() > 0 {
        lemma_updated_refs_keys(infos, signers, metas.drop_last(), store);
        lemma_first_with_key_in(infos, metas.last().pubkey@);
        let prev = updated_refs(infos, signers, metas.drop_last());
        if let Some(a) = first_with_key(infos, metas.last().pubkey@) {
            if holds_all(store, infos) {
                let j = choose|j: int| 0 <= j < infos.len() && infos[j] == a;
                assert(store.contains_key(infos[j].key@));
                let cur = updated_refs(infos, signers, metas);
                assert forall|i: int| 0 <= i < cur.len() implies store.contains_key(#[trigger] cur[i].key@) by {
                    if i < prev.len() {
                        assert(cur[i] == prev[i]);
                    }
                }
            }
        }
    }
}

/// The first account with a key is the one at the least position holding
/// that key; there is none when no account has it.
proof fn lemma_first_with_key_least(infos: Seq<AccountRef>, key: Seq<u8>)
    ensures
        (forall|j: int| 0 <= j < infos.len() ==> #[trigger] infos[j].key@ != key) ==> first_with_key(infos, key) is None,
        forall|j: int|
            0 <= j < infos.len() && #[trigger] infos[j].key@ == key && (forall|k: int| 0 <= k < j ==> infos[k].key@ != key)
                ==> first_with_key(infos, key) == Some(infos[j]),
    decreases infos.len(),
{
    if infos.len() > 0 {
        let rest = infos.drop_first();
        lemma_first_with_key_least(rest, key);
        if forall|j: int| 0 <= j < infos.len() ==> #[trigger] infos[j].key@ != key {
            assert(infos[0].key@ != key);
            assert forall|j: int| 0 <= j < rest.len() implies #[trigger] rest[j].key@ != key by {
                assert(rest[j] == infos[j + 1]);
            }
        }
        assert forall|j: int|
            0 <= j < infos.len() && #[trigger] infos[j].key@ == key && (forall|k: int| 0 <= k < j ==> infos[k].key@ != key)
            implies first_with_key(infos, key) == Some(infos[j]) by {
            if j > 0 {
                assert(infos[0].key@ != key);
                assert(rest[j - 1] == infos[j]);
                assert forall|k: int| 0 <= k < j - 1 implies rest[k].key@ != key by {
                    assert(rest[k] == infos[k + 1]);
                }
            }
        }
    }
}

/// Handing one more named account on: where the caller holds an account
/// with its key, the first such account is appended, with its key and
/// writability, signing when it signed or when its key is one of the
/// signer addresses; where the caller holds none, nothing is appended.
pub proof fn law_handed_on_account(infos: Seq<AccountRef>, signers: Seq<Seq<u8>>, metas: Seq<AccountMeta>, m: AccountMeta)
    ensures
        ({
            let before = updated_refs(infos, signers, metas);
            let after = updated_refs(infos, signers, metas.push(m));
            let key = m.pubkey@;
            &&& (forall|j: int| 0 <= j < infos.len() ==> #[trigger] infos[j].key@ != key) ==> after == before
            &&& forall|j: int|
                0 <= j < infos.len() && #[trigger] infos[j].key@ == key && (forall|k: int| 0 <= k < j ==> infos[k].key@ != key)
                    ==> after == before.push(
                    AccountRef { key: infos[j].key, is_signer: infos[j].is_signer || signers.contains(key), is_writable: infos[j].is_writable },
                )
        }),
{
    assert(metas.push(m).drop_last() =~= metas);
    lemma_first_with_key_least(infos, m.pubkey@);
}

/// What a cross-program call returns and leaves: the calling program
/// pushes the callee and hands on its accounts with the rights the signer
/// seeds grant; a call of another program goes back to the caller with
/// those accounts, a call of the system program runs the decoded
/// instruction.
pub open spec fn invoked(
    callers: Seq<Pubkey>,
    store: Map<Seq<u8>, AccountStateView>,
    program_id: Pubkey,
    metas: Seq<AccountMeta>,
    system_instruction: Option<SystemInstruction>,
    infos: Seq<AccountRef>,
    seeds: Seq<Seq<Seq<u8>>>,
    r: InvokeOutcome,
    callers_after: Seq<Pubkey>,
    store_after: Map<Seq<u8>, AccountStateView>,
) -> bool {
    let new = updated_refs(infos, signer_keys(seeds, callers.last()@), metas);
    let pushed = callers.push(program_id);
    match system_instruction {
        None => r matches InvokeOutcome::Program(v) && v@ == new && callers_after == pushed && store_after == store,
        Some(ix) => {
            &&& r matches InvokeOutcome::System(res) && res == system_result(store, ix, infos.len(), new)
            &&& store_after == system_store(store, ix, infos.len(), new)
            &&& callers_after == (if system_early_error(ix, infos.len(), new) is None { popped(pushed) } else { pushed })
        },
    }
}

/// A system-program call that gets past its early checks leaves the call
/// stack as it found it; one stopped by them leaves the callee pushed.
pub proof fn law_system_call_stack(callers: Seq<Pubkey>, program_id: Pubkey, ix: SystemInstruction, infos_len: nat, new: Seq<AccountRef>)
    ensures
        system_early_error(ix, infos_len, new) is None ==> popped(callers.push(program_id)) == callers,
        system_early_error(ix, infos_len, new) is Some ==> callers.push(program_id).len() == callers.len() + 1,
{
    assert(callers.push(program_id).drop_last() =~= callers);
}

/// What a cross-program call comes to.
#[derive(Debug)]
pub enum InvokeOutcome {
    /// The system program ran the call, with this result.
    System(Result<(), ProgramError>),
    /// The callee is another program, to be run on these accounts; the
    /// caller is popped once it returns.
    Program(Vec<AccountRef>),
}

impl TestSyscallStubs {
    /// Stubs whose call stack holds the program under test alone.
    pub fn new(program_id: Pubkey) -> (r: Self)
        ensures
            r.callers@ == seq![program_id],
            r.data.program_id@ == zero_key(),
            r.data.data@ == Seq::<u8>::empty(),
    {
        let mut callers = Vec::new();
        callers.push(program_id);
        TestSyscallStubs { callers, data: TransactionReturnData::default() }
    }

    /// Pops the innermost program off the call stack.
    pub fn clean_caller(&mut self)
        ensures
            final(self).callers@ == (if old(self).callers@.len() == 0 {
                old(self).callers@
            } else {
                old(self).callers@.drop_last()
            }),
            final(self).data == old(self).data,
    {
        let _ = self.callers.pop();
    }

    /// Depth of the call stack.
    pub fn sol_get_stack_height(&self) -> (r: u64)
        ensures
            r == self.callers@.len(),
    {
        self.callers.len() as u64
    }

    /// Records data returned by the innermost program.
    pub fn sol_set_return_data(&mut self, data: &[u8])
        requires
            old(self).callers@.len() > 0,
        ensures
            final(self).callers == old(self).callers,
            final(self).data.program_id == old(self).callers@.last(),
            final(self).data.data@ == data@,
    {
        let caller = self.callers[self.callers.len() - 1];
        let mut copy: Vec<u8> = Vec::new();
        let mut i: usize = 0;
        while i < data.len()
            invariant
                0 <= i <= data@.len(),
                copy@ == data@.subrange(0, i as int),
            decreases data@.len() - i,
        {
            copy.push(data[i]);
            i = i + 1;
            proof {
                assert(copy@ =~= data@.subrange(0, i as int));
            }
        }
        proof {
            assert(data@.subrange(0, data@.len() as int) =~= data@);
        }
        self.data = TransactionReturnData { program_id: caller, data: copy };
    }

    /// The last return data and the program that returned it.
    pub fn sol_get_return_data(&self) -> (r: Option<(Pubkey, Vec<u8>)>)
        ensures
            r matches Some((p, d)) && p == self.data.program_id && d@ == self.data.data@,
    {
        Some((self.data.program_id, self.data.data.clone()))
    }

    /// The accounts handed to the callee of `instruction`: for each account
    /// it names, the first of the caller's accounts with that key, made a
    /// signer when its key is one of `signers`.
    pub fn update_account_infos(&self, old_account_infos: &[AccountRef], signers: &[Pubkey], instruction: &Instruction) -> (r: Vec<AccountRef>)
        ensures
            r@ == updated_refs(old_account_infos@, keys_view(signers@), instruction.accounts@),
    {
        let mut new_account_infos: Vec<AccountRef> = Vec::new();
        let ghost infos = old_account_infos@;
        let ghost sig = keys_view(signers@);
        let ghost metas = instruction.accounts@;
        let mut m: usize = 0;
        while m < instruction.accounts.len()
            invariant
                0 <= m <= metas.len(),
                infos == old_account_infos@,
                sig == keys_view(signers@),
                metas == instruction.accounts@,
                new_account_infos@ == updated_refs(infos, sig, metas.subrange(0, m as int)),
            decreases metas.len() - m,
        {
            let meta = &instruction.accounts[m];
            let ghost key = meta.pubkey@;
            let mut found: Option<AccountRef> = None;
            let mut j: usize = 0;
            proof {
                assert(infos.subrange(0, infos.len() as int) =~= infos);
            }
            while j < old_account_infos.len()
                invariant_except_break
                    found is None,
                    first_with_key(infos, key) == first_with_key(infos.subrange(j as int, infos.len() as int), key),
                invariant
                    0 <= j <= infos.len(),
                    infos == old_account_infos@,
                    key == meta.pubkey@,
                ensures
                    found == first_with_key(infos, key),
                decreases infos.len() - j,
            {
                proof {
                    lemma_first_with_key_step(infos, key, j as int);
                }
                if old_account_infos[j].key.same(&meta.pubkey) {
                    found = Some(old_account_infos[j]);
                    break;
                }
                j = j + 1;
            }
            proof {
                if j == infos.len() {
                    assert(infos.subrange(j as int, infos.len() as int) =~= Seq::<AccountRef>::empty());
                }
                assert(metas.subrange(0, m + 1).drop_last() =~= metas.subrange(0, m as int));
            }
            match found {
                Some(a) => {
                    let mut is_signer = a.is_signer;
                    let mut s: usize = 0;
                    while s < signers.len()
                        invariant
                            0 <= s <= signers@.len(),
                            sig == keys_view(signers@),
                            is_signer == (a.is_signer || sig.subrange(0, s as int).contains(a.key@)),
                        decreases signers@.len() - s,
                    {
                        let ghost prefix = sig.subrange(0, s as int);
                        proof {
                            assert(sig.subrange(0, s + 1) =~= prefix.push(sig[s as int]));
                            assert(sig[s as int] == signers@[s as int]@);
                        }
                        if a.key.same(&signers[s]) {
                            is_signer = true;
                        }
                        proof {
                            let next = prefix.push(sig[s as int]);
                            if prefix.contains(a.key@) {
                                let w = choose|w: int| 0 <= w < prefix.len() && prefix[w] == a.key@;
                                assert(next[w] == a.key@);
                            }
                            if a.key@ == sig[s as int] {
                                assert(next[s as int] == a.key@);
                            }
                            if next.contains(a.key@) && a.key@ != sig[s as int] {
                                let w = choose|w: int| 0 <= w < next.len() && next[w] == a.key@;
                                assert(prefix[w] == a.key@);
                            }
                        }
                        s = s + 1;
                    }
                    proof {
                        assert(sig.subrange(0, signers@.len() as int) =~= sig);
                    }
                    new_account_infos.push(AccountRef { key: a.key, is_signer, is_writable: a.is_writable });
                },
                None => {},
            }
            m = m + 1;
        }
        proof {
            assert(metas.subrange(0, metas.len() as int) =~= metas);
        }
        new_account_infos
    }

    /// Runs a system instruction on the accounts handed on. Too few
    /// accounts, or an address its seed does not derive, return at once and
    /// leave the calling program on the stack; otherwise the work is done
    /// and the calling program is popped, whatever the work returned.
    pub fn process_system_instruction(
        &mut self,
        store: &mut AccountStore,
        instruction: SystemInstruction,
        account_infos: &[AccountRef],
        new_account_infos: &[AccountRef],
    ) -> (r: Result<(), ProgramError>)
        requires
            holds_all(old(store)@, new_account_infos@),
            system_fits(old(store)@, instruction, account_infos@.len(), new_account_infos@),
        ensures
            r == system_result(old(store)@, instruction, account_infos@.len(), new_account_infos@),
            final(store)@ == system_store(old(store)@, instruction, account_infos@.len(), new_account_infos@),
            final(self).callers@ == (if system_early_error(instruction, account_infos@.len(), new_account_infos@) is None {
                popped(old(self).callers@)
            } else {
                old(self).callers@
            }),
            final(self).data == old(self).data,
            total_lamports(final(store)) == total_lamports(old(store)),
    {
        let ghost new = new_account_infos@;
        match instruction {
            SystemInstruction::CreateAccount { lamports, space, owner } => {
                check_number_of_instruction_accounts(account_infos.len(), 2)?;
                let res = create_account(store, &new_account_infos[0], &new_account_infos[1], space, owner, lamports);
                self.clean_caller();
                res
            },
            SystemInstruction::CreateAccountWithSeed { base, seed, lamports, space, owner } => {
                check_number_of_instruction_accounts(new_account_infos.len(), 2)?;
                create_address(&new_account_infos[1].key, &base, seed.as_str(), &owner)?;
                let res = create_account(store, &new_account_infos[0], &new_account_infos[1], space, owner, lamports);
                self.clean_caller();
                res
            },
            SystemInstruction::Assign { owner } => {
                check_number_of_instruction_accounts(new_account_infos.len(), 1)?;
                let res = assign(store, &new_account_infos[0], owner);
                self.clean_caller();
                res
            },
            SystemInstruction::Transfer { lamports } => {
                check_number_of_instruction_accounts(new_account_infos.len(), 2)?;
                let res = transfer(store, &new_account_infos[0], &new_account_infos[1], lamports);
                self.clean_caller();
                res
            },
            SystemInstruction::TransferWithSeed { lamports, from_seed, from_owner } => {
                check_number_of_instruction_accounts(new_account_infos.len(), 3)?;
                let res = transfer_with_seed(
                    store,
                    &new_account_infos[0],
                    &new_account_infos[1],
                    &new_account_infos[2],
                    from_seed.as_str(),
                    &from_owner,
                    lamports,
                );
                self.clean_caller();
                res
            },
            SystemInstruction::Allocate { space } => {
                check_number_of_instruction_accounts(new_account_infos.len(), 1)?;
                let res = allocate(store, &new_account_infos[0], space);
                self.clean_caller();
                res
            },
            SystemInstruction::AllocateWithSeed { base, seed, space, owner } => {
                check_number_of_instruction_accounts(new_account_infos.len(), 1)?;
                create_address(&new_account_infos[0].key, &base, seed.as_str(), &owner)?;
                let res = allocate_and_assign(store, &new_account_infos[0], space, owner);
                self.clean_caller();
                res
            },
            SystemInstruction::AssignWithSeed { base, seed, owner } => {
                check_number_of_instruction_accounts(new_account_infos.len(), 1)?;
                create_address(&new_account_infos[0].key, &base, seed.as_str(), &owner)?;
                let res = assign(store, &new_account_infos[0], owner);
                self.clean_caller();
                res
            },
            _ => {
                self.clean_caller();
                Ok(())
            },
        }
    }

    /// Pushes `program_id` on the call stack and returns the addresses that
    /// the signer seeds derive for the calling program.
    fn add_caller_n_get_signers(&mut self, program_id: Pubkey, signers_seeds: &[&[&[u8]]]) -> (r: Vec<Pubkey>)
        requires
            old(self).callers@.len() > 0,
            signers_derive(signer_seeds_view(signers_seeds), old(self).callers@.last()@),
        ensures
            final(self).callers@ == old(self).callers@.push(program_id),
            final(self).data == old(self).data,
            keys_view(r@) == signer_keys(signer_seeds_view(signers_seeds), old(self).callers@.last()@),
    {
        let caller = self.callers[self.callers.len() - 1];
        self.callers.push(program_id);
        let ghost seeds = signer_seeds_view(signers_seeds);
        let mut signers: Vec<Pubkey> = Vec::new();
        let mut i: usize = 0;
        while i < signers_seeds.len()
            invariant
                0 <= i <= signers_seeds@.len(),
                seeds == signer_seeds_view(signers_seeds),
                signers_derive(seeds, caller@),
                keys_view(signers@) == signer_keys(seeds, caller@).subrange(0, i as int),
            decreases signers_seeds@.len() - i,
        {
            let derived = create_program_address(signers_seeds[i], &caller);
            proof {
                assert(seeds[i as int] == seeds_view(signers_seeds@[i as int]));
                assert(created_program_address(seeds[i as int], caller@) is Some);
            }
            let ghost before = signers@;
            match derived {
                Some(key) => {
                    signers.push(key);
                    proof {
                        assert(key@ == signer_keys(seeds, caller@)[i as int]);
                        assert(signers@ == before.push(key));
                        assert(signer_keys(seeds, caller@).len() == seeds.len());
                        assert(keys_view(before).len() == i);
                        assert(before.len() == i);
                        assert forall|k: int| 0 <= k < i + 1 implies #[trigger] keys_view(signers@)[k] == signer_keys(seeds, caller@)[k] by {
                            assert(keys_view(signers@)[k] == signers@[k]@);
                            if k < i {
                                assert(signers@[k] == before[k]);
                                assert(keys_view(before)[k] == before[k]@);
                                assert(keys_view(before)[k] == signer_keys(seeds, caller@).subrange(0, i as int)[k]);
                            }
                        }
                    }
                },
                None => {},
            }
            proof {
                assert(keys_view(signers@) =~= signer_keys(seeds, caller@).subrange(0, i + 1));
            }
            i = i + 1;
        }
        proof {
            assert(signer_keys(seeds, caller@).subrange(0, i as int) =~= signer_keys(seeds, caller@));
        }
        signers
    }

    /// Whether running the system instruction on these accounts cannot
    /// panic: the condition `sol_invoke_signed` asks of a system call, which
    /// a caller tests before making it.
    pub fn system_call_fits(
        &self,
        store: &AccountStore,
        ix: &SystemInstruction,
        account_infos: &[AccountRef],
        instruction: &Instruction,
    ) -> (r: bool)
        requires
            holds_all(store@, account_infos@),
        ensures
            r == system_fits(store@, *ix, account_infos@.len(), updated_refs(account_infos@, Seq::empty(), instruction.accounts@)),
    {
        let no_signers: Vec<Pubkey> = Vec::new();
        let new = self.update_account_infos(account_infos, &no_signers, instruction);
        proof {
            assert(keys_view(no_signers@) =~= Seq::<Seq<u8>>::empty());
            lemma_updated_refs_keys(account_infos@, Seq::empty(), instruction.accounts@, store@);
        }
        match ix {
            SystemInstruction::CreateAccount { .. } => account_infos.len() < 2 || new.len() >= 2,
            SystemInstruction::Transfer { lamports } => {
                if new.len() < 2 {
                    true
                } else {
                    proof {
                        assert(store@.contains_key(new@[0].key@));
                        assert(store@.contains_key(new@[1].key@));
                    }
                    transfer_would_fit(store, &new[0].key, &new[1].key, *lamports)
                }
            },
            SystemInstruction::TransferWithSeed { lamports, .. } => {
                if new.len() < 3 {
                    true
                } else {
                    proof {
                        assert(store@.contains_key(new@[0].key@));
                        assert(store@.contains_key(new@[2].key@));
                    }
                    transfer_would_fit(store, &new[0].key, &new[2].key, *lamports)
                }
            },
            _ => true,
        }
    }

    /// Serves a program's call of `instruction` with its accounts and
    /// signer seeds. The system program's instruction comes decoded; a call
    /// of any other program is handed back to be run.
    pub fn sol_invoke_signed(
        &mut self,
        store: &mut AccountStore,
        instruction: &Instruction,
        system_instruction: Option<SystemInstruction>,
        account_infos: &[AccountRef],
        signers_seeds: &[&[&[u8]]],
    ) -> (r: InvokeOutcome)
        requires
            old(self).callers@.len() > 0,
            signers_derive(signer_seeds_view(signers_seeds), old(self).callers@.last()@),
            (instruction.program_id@ == system_program_id()) == (system_instruction is Some),
            holds_all(old(store)@, account_infos@),
            system_instruction matches Some(ix) ==> system_fits(
                old(store)@,
                ix,
                account_infos@.len(),
                updated_refs(account_infos@, Seq::empty(), instruction.accounts@),
            ),
        ensures
            invoked(
                old(self).callers@,
                old(store)@,
                instruction.program_id,
                instruction.accounts@,
                system_instruction,
                account_infos@,
                signer_seeds_view(signers_seeds),
                r,
                final(self).callers@,
                final(store)@,
            ),
            final(self).data == old(self).data,
            total_lamports(final(store)) == total_lamports(old(store)),
    {
        let signers = self.add_caller_n_get_signers(instruction.program_id, signers_seeds);
        let new_account_infos = self.update_account_infos(account_infos, &signers, instruction);
        proof {
            lemma_updated_refs_keys(account_infos@, keys_view(signers@), instruction.accounts@, old(store)@);
        }
        if is_system_program(&instruction.program_id) {
            match system_instruction {
                Some(ix) => InvokeOutcome::System(self.process_system_instruction(store, ix, account_infos, &new_account_infos)),
                None => InvokeOutcome::Program(new_account_infos),
            }
        } else {
            InvokeOutcome::Program(new_account_infos)
        }
    }

    /// As `sol_invoke_signed`, where every set of signer seeds derives an
    /// address of the calling program; `None`, with nothing changed, where
    /// one does not.
    pub fn try_sol_invoke_signed(
        &mut self,
        store: &mut AccountStore,
        instruction: &Instruction,
        system_instruction: Option<SystemInstruction>,
        account_infos: &[AccountRef],
        signers_seeds: &[&[&[u8]]],
    ) -> (r: Option<InvokeOutcome>)
        requires
            old(self).callers@.len() > 0,
            (instruction.program_id@ == system_program_id()) == (system_instruction is Some),
            holds_all(old(store)@, account_infos@),
            system_instruction matches Some(ix) ==> system_fits(
                old(store)@,
                ix,
                account_infos@.len(),
                updated_refs(account_infos@, Seq::empty(), instruction.accounts@),
            ),
        ensures
            r is None <==> !signers_derive(signer_seeds_view(signers_seeds), old(self).callers@.last()@),
            r is None ==> final(self).callers == old(self).callers && final(store)@ == old(store)@,
            r matches Some(o) ==> invoked(
                old(self).callers@,
                old(store)@,
                instruction.program_id,
                instruction.accounts@,
                system_instruction,
                account_infos@,
                signer_seeds_view(signers_seeds),
                o,
                final(self).callers@,
                final(store)@,
            ),
            final(self).data == old(self).data,
            total_lamports(final(store)) == total_lamports(old(store)),
    {
        let caller = self.callers[self.callers.len() - 1];
        let ghost seeds = signer_seeds_view(signers_seeds);
        let mut i: usize = 0;
        while i < signers_seeds.len()
            invariant
                0 <= i <= signers_seeds@.len(),
                seeds == signer_seeds_view(signers_seeds),
                caller == old(self).callers@.last(),
                forall|j: int| 0 <= j < i ==> (#[trigger] created_program_address(seeds[j], caller@)) is Some,
            decreases signers_seeds@.len() - i,
        {
            let derived = create_program_address(signers_seeds[i], &caller);
            proof {
                assert(seeds[i as int] == seeds_view(signers_seeds@[i as int]));
            }
            if derived.is_none() {
                return None;
            }
            i = i + 1;
        }
        Some(self.sol_invoke_signed(store, instruction, system_instruction, account_infos, signers_seeds))
    }
}

} // verus!

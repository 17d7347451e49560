//! The light client's account storage: the accounts a program call starts
//! from, the programs it knows, and what the call leaves behind.
use crate::derivation::{keypair_pubkey, Keypair};
use crate::keyed_map::KeyedMap;
use crate::light::account::{empty_account, zeros, AccountMeta, Instruction, TridentAccount, TridentAccountView};
use crate::light::serialization_light::{get_duplicate_accounts, serialize_accounts_custom, dedup_of, serialized_accounts};
use crate::light::system_instructions::is_system_program;
use crate::pubkey::{zero_key, Pubkey};
use solana_sdk::account::ReadableAccount;
use vstd::prelude::*;

verus! {

/// Bytes of storage every account is charged for besides its data.
pub const ACCOUNT_STORAGE_OVERHEAD: u64 = 128;

/// Lamports the default rent charges per byte for the two years that make
/// an account exempt (3480 per byte-year).
pub const EXEMPT_LAMPORTS_PER_BYTE: u64 = 6960;

/// The balance that makes an account of `data_len` bytes rent-exempt under
/// the default rent, where the computation is exact.
pub open spec fn exempt_balance(data_len: nat) -> int {
    (ACCOUNT_STORAGE_OVERHEAD + data_len) * EXEMPT_LAMPORTS_PER_BYTE
}

/// Calls `Rent::default().minimum_balance(data_len)` of `solana_sdk`. Its
/// source multiplies `128 + data_len` by 3480 in `u64` (so `requires` keeps
/// that product in range), converts to `f64`, doubles and converts back:
/// exact while the product stays below 2^53.
#[verifier::external_body]
pub(crate) fn rent_exempt_minimum(data_len: usize) -> (r: u64)
    requires
        (ACCOUNT_STORAGE_OVERHEAD + data_len) * 3480 <= u64::MAX,
    ensures
        (ACCOUNT_STORAGE_OVERHEAD + data_len) * 3480 < 0x20_0000_0000_0000 ==> r == exempt_balance(data_len as nat),
{
    solana_sdk::rent::Rent::default().minimum_balance(data_len)
}

/// The owner of the sysvar accounts, `Sysvar1111111111111111111111111111111111111`.
pub open spec fn sysvar_owner() -> Seq<u8> {
    seq![6u8, 167, 213, 23, 24, 117, 247, 41, 199, 61, 147, 64, 143, 33, 97, 32, 6, 126, 216, 140, 118, 224, 140, 40, 127, 193, 148, 96, 0, 0, 0, 0]
}

/// The token program, `TokenkegQfeZyiNwAJbNbGKPFXCWuBvf9Ss623VQ5DA`.
pub open spec fn token_program_id() -> Seq<u8> {
    seq![6u8, 221, 246, 225, 215, 101, 161, 147, 217, 203, 225, 70, 206, 235, 121, 172, 28, 180, 133, 237, 95, 91, 55, 145, 58, 140, 245, 133, 126, 255, 0, 169]
}

/// The associated token account program,
/// `ATokenGPvbdGVxr1b2hvZbsiqW5xWH25efTNsLJA8knL`.
pub open spec fn associated_token_program_id() -> Seq<u8> {
    seq![140u8, 151, 37, 143, 78, 36, 137, 241, 187, 61, 16, 41, 20, 142, 13, 131, 11, 90, 19, 153, 218, 255, 16, 132, 4, 142, 123, 216, 219, 233, 248, 89]
}

fn sysvar_owner_key() -> (r: Pubkey)
    ensures
        r@ == sysvar_owner(),
{
    let r = Pubkey {
        bytes: [6, 167, 213, 23, 24, 117, 247, 41, 199, 61, 147, 64, 143, 33, 97, 32, 6, 126, 216, 140, 118, 224, 140, 40, 127, 193, 148, 96, 0, 0, 0, 0],
    };
    proof {
        assert(r@ =~= sysvar_owner());
    }
    r
}

/// The rent sysvar, `SysvarRent111111111111111111111111111111111`.
pub open spec fn rent_sysvar_id() -> Seq<u8> {
    seq![6u8, 167, 213, 23, 25, 44, 92, 81, 33, 140, 201, 76, 61, 74, 241, 127, 88, 218, 238, 8, 155, 161, 253, 68, 227, 219, 217, 138, 0, 0, 0, 0]
}

/// The clock sysvar, `SysvarC1ock11111111111111111111111111111111`.
pub open spec fn clock_sysvar_id() -> Seq<u8> {
    seq![6u8, 167, 213, 23, 24, 199, 116, 201, 40, 86, 99, 152, 105, 29, 94, 182, 139, 94, 184, 163, 155, 75, 109, 92, 115, 85, 91, 33, 0, 0, 0, 0]
}

/// The default rent in its serialized form: 3480 lamports per byte-year as
/// eight little-endian bytes, the exemption threshold 2.0 as the eight
/// bytes of an IEEE double, and the burn percent 50.
pub open spec fn default_rent_bytes() -> Seq<u8> {
    seq![0x98u8, 0x0d, 0, 0, 0, 0, 0, 0, 0, 0, 0, 0, 0, 0, 0, 0x40, 50]
}

/// Bytes a `Rent` value takes in memory; the rent sysvar's data is the
/// serialized default rent padded with zeros to this length.
pub const RENT_SIZE: usize = 24;

/// Bytes the serialized clock takes: five 64-bit fields.
pub const CLOCK_SIZE: usize = 40;

/// Calls `create_account_for_test(&Rent::default())` of
/// `solana_sdk::account` and takes the account's data: the default rent
/// serialized with `bincode` into as many bytes as it serializes to.
#[verifier::external_body]
fn default_rent_data() -> (r: Vec<u8>)
    ensures
        r@ == default_rent_bytes(),
{
    solana_sdk::account::create_account_for_test(&solana_sdk::rent::Rent::default()).data
}

/// Calls `create_account_shared_data_for_test(&Clock::default())` of
/// `solana_sdk::account` and copies the account's data: the default clock,
/// whose five fields are all zero, serialized with `bincode`.
#[verifier::external_body]
fn default_clock_data() -> (r: Vec<u8>)
    ensures
        r@ == zeros(CLOCK_SIZE as nat),
{
    solana_sdk::account::create_account_shared_data_for_test(&solana_sdk::clock::Clock::default()).data().to_vec()
}

fn rent_sysvar_key() -> (r: Pubkey)
    ensures
        r@ == rent_sysvar_id(),
{
    let r = Pubkey {
        bytes: [6, 167, 213, 23, 25, 44, 92, 81, 33, 140, 201, 76, 61, 74, 241, 127, 88, 218, 238, 8, 155, 161, 253, 68, 227, 219, 217, 138, 0, 0, 0, 0],
    };
    proof {
        assert(r@ =~= rent_sysvar_id());
    }
    r
}

fn clock_sysvar_key() -> (r: Pubkey)
    ensures
        r@ == clock_sysvar_id(),
{
    let r = Pubkey {
        bytes: [6, 167, 213, 23, 24, 199, 116, 201, 40, 86, 99, 152, 105, 29, 94, 182, 139, 94, 184, 163, 155, 75, 109, 92, 115, 85, 91, 33, 0, 0, 0, 0],
    };
    proof {
        assert(r@ =~= clock_sysvar_id());
    }
    r
}

/// The rent sysvar's data: the serialized default rent, padded with zeros
/// to the size of a `Rent`.
fn rent_sysvar_data() -> (r: Vec<u8>)
    ensures
        r@ == default_rent_bytes() + zeros((RENT_SIZE - default_rent_bytes().len()) as nat),
{
    let mut data = default_rent_data();
    while data.len() < RENT_SIZE
        invariant
            default_rent_bytes().len() <= data@.len() <= RENT_SIZE,
            data@ == default_rent_bytes() + zeros((data@.len() - default_rent_bytes().len()) as nat),
        decreases RENT_SIZE - data@.len(),
    {
        let ghost before = data@;
        data.push(0);
        proof {
            assert(data@ =~= default_rent_bytes() + zeros((data@.len() - default_rent_bytes().len()) as nat));
        }
    }
    data
}

/// A sysvar account holding `data`, rent-exempt for its size.
pub open spec fn sysvar_account(data: Seq<u8>) -> TridentAccountView {
    TridentAccountView {
        lamports: exempt_balance(data.len()) as u64,
        data,
        owner: sysvar_owner(),
        executable: false,
        rent_epoch: 0,
    }
}

pub(crate) fn token_program_key() -> (r: Pubkey)
    ensures
        r@ == token_program_id(),
{
    let r = Pubkey {
        bytes: [6, 221, 246, 225, 215, 101, 161, 147, 217, 203, 225, 70, 206, 235, 121, 172, 28, 180, 133, 237, 95, 91, 55, 145, 58, 140, 245, 133, 126, 255, 0, 169],
    };
    proof {
        assert(r@ =~= token_program_id());
    }
    r
}

fn associated_token_program_key() -> (r: Pubkey)
    ensures
        r@ == associated_token_program_id(),
{
    let r = Pubkey {
        bytes: [140, 151, 37, 143, 78, 36, 137, 241, 187, 61, 16, 41, 20, 142, 13, 131, 11, 90, 19, 153, 218, 255, 16, 132, 4, 142, 123, 216, 219, 233, 248, 89],
    };
    proof {
        assert(r@ =~= associated_token_program_id());
    }
    r
}

/// The account of a deployed program: executable, holding the rent-exempt
/// balance of no data, no data, owned by the system program.
pub open spec fn program_account() -> TridentAccountView {
    TridentAccountView { executable: true, lamports: exempt_balance(0) as u64, ..empty_account() }
}

/// A program to load: its name, address, and whether an entrypoint was
/// supplied for it.
#[derive(Debug)]
pub struct FuzzingProgramLight {
    pub program_name: String,
    pub program_id: Pubkey,
    pub has_entry: bool,
}

impl FuzzingProgramLight {
    /// A program to load.
    pub fn new(program_name: &str, program_id: &Pubkey, has_entry: bool) -> (r: FuzzingProgramLight)
        ensures
            r.program_name@ == program_name@,
            r.program_id == *program_id,
            r.has_entry == has_entry,
    {
        FuzzingProgramLight { program_name: program_name.to_string(), program_id: *program_id, has_entry }
    }
}

/// Why the light client refused a request.
#[derive(Clone, Copy, Debug)]
pub enum FuzzClientError {
    /// A program was given without an entrypoint.
    NotImplemnted,
}

/// An account as a program left it, with the rights it was given.
#[derive(Debug)]
pub struct AccountInfo {
    pub key: Pubkey,
    pub is_signer: bool,
    pub is_writable: bool,
    pub lamports: u64,
    pub data: Vec<u8>,
    pub owner: Pubkey,
    pub executable: bool,
}

/// Whether a program closed the account: owned by the system program, no
/// data and no lamports.
pub open spec fn closed(info: &AccountInfo) -> bool {
    info.owner@ == zero_key() && info.data@.len() == 0 && info.lamports == 0
}

/// Whether a program closed the account.
pub fn is_closed(info: &AccountInfo) -> (r: bool)
    ensures
        r == closed(info),
{
    let system = Pubkey::default();
    info.owner.same(&system) && info.data.len() == 0 && info.lamports == 0
}

/// The storage after taking back the accounts a program was given, in
/// order: a writable account the program closed is removed; any other
/// writable account gets the program's data, balance and owner, starting
/// from an empty account where the storage had none; read-only accounts
/// are left alone.
pub open spec fn post_update(storage: Map<Seq<u8>, TridentAccountView>, infos: Seq<AccountInfo>) -> Map<Seq<u8>, TridentAccountView>
    decreases infos.len(),
{
    if infos.len() == 0 {
        storage
    } else {
        let s = post_update(storage, infos.drop_last());
        let a = infos.last();
        if !a.is_writable {
            s
        } else if closed(&a) {
            s.remove(a.key@)
        } else {
            let base = if s.contains_key(a.key@) { s[a.key@] } else { empty_account() };
            s.insert(a.key@, TridentAccountView { data: a.data@, lamports: a.lamports, owner: a.owner@, ..base })
        }
    }
}

/// An account stored at an address is what a read of that address gives
/// back, and other addresses read as before.
pub proof fn law_set_then_get(storage: Map<Seq<u8>, TridentAccountView>, address: Seq<u8>, account: TridentAccountView, other: Seq<u8>)
    ensures
        storage.insert(address, account).contains_key(address),
        storage.insert(address, account)[address] == account,
        other != address ==> (storage.insert(address, account).contains_key(other) == storage.contains_key(other)
            && storage.insert(address, account)[other] == storage[other]),
{
}

/// Taking back accounts that were all handed out read-only changes
/// nothing.
pub proof fn law_read_only_untouched(storage: Map<Seq<u8>, TridentAccountView>, infos: Seq<AccountInfo>)
    requires
        forall|i: int| 0 <= i < infos.len() ==> !(#[trigger] infos[i]).is_writable,
    ensures
        post_update(storage, infos) == storage,
    decreases infos.len(),
{
    if infos.len() > 0 {
        law_read_only_untouched(storage, infos.drop_last());
    }
}

/// An account that no writable account given to the program names keeps
/// what the storage held for it.
pub proof fn law_untaken_unchanged(storage: Map<Seq<u8>, TridentAccountView>, infos: Seq<AccountInfo>, k: Seq<u8>)
    requires
        forall|i: int| 0 <= i < infos.len() && (#[trigger] infos[i]).key@ == k ==> !infos[i].is_writable,
    ensures
        post_update(storage, infos).contains_key(k) == storage.contains_key(k),
        storage.contains_key(k) ==> post_update(storage, infos)[k] == storage[k],
    decreases infos.len(),
{
    if infos.len() > 0 {
        let t = infos.drop_last();
        assert forall|i: int| 0 <= i < t.len() && (#[trigger] t[i]).key@ == k implies !t[i].is_writable by {
            assert(t[i] == infos[i]);
        }
        law_untaken_unchanged(storage, t, k);
        assert(infos[infos.len() - 1] == infos.last());
    }
}

/// The last writable account given to the program under a key decides
/// what the storage holds there afterwards: nothing when the program
/// closed it, else the program's data, balance and owner, whether or not
/// the storage held the account before.
pub proof fn law_last_writable_wins(storage: Map<Seq<u8>, TridentAccountView>, infos: Seq<AccountInfo>, j: int)
    requires
        0 <= j < infos.len(),
        infos[j].is_writable,
        forall|i: int| j < i < infos.len() && (#[trigger] infos[i]).key@ == infos[j].key@ ==> !infos[i].is_writable,
    ensures
        ({
            let r = post_update(storage, infos);
            let a = infos[j];
            &&& closed(&a) ==> !r.contains_key(a.key@)
            &&& !closed(&a) ==> {
                &&& r.contains_key(a.key@)
                &&& r[a.key@].data == a.data@
                &&& r[a.key@].lamports == a.lamports
                &&& r[a.key@].owner == a.owner@
            }
        }),
    decreases infos.len(),
{
    let t = infos.drop_last();
    if j < infos.len() - 1 {
        assert forall|i: int| j < i < t.len() && (#[trigger] t[i]).key@ == t[j].key@ implies !t[i].is_writable by {
            assert(t[i] == infos[i]);
        }
        assert(t[j] == infos[j]);
        law_last_writable_wins(storage, t, j);
        assert(infos[infos.len() - 1] == infos.last());
    } else {
        assert(infos.last() == infos[j]);
    }
}

/// Taking accounts back changes neither whether an account is executable
/// nor its rent epoch: every account held afterwards was held before with
/// both unchanged, or is new, not executable and at rent epoch 0.
pub proof fn law_flags_kept(storage: Map<Seq<u8>, TridentAccountView>, infos: Seq<AccountInfo>, k: Seq<u8>)
    ensures
        post_update(storage, infos).contains_key(k) ==> {
            let b = post_update(storage, infos)[k];
            ||| storage.contains_key(k) && b.executable == storage[k].executable && b.rent_epoch == storage[k].rent_epoch
            ||| !b.executable && b.rent_epoch == 0
        },
    decreases infos.len(),
{
    if infos.len() > 0 {
        law_flags_kept(storage, infos.drop_last(), k);
    }
}

/// How the client runs an instruction.
#[derive(Clone, Copy, Debug, PartialEq, Eq, Structural)]
pub enum CallRoute {
    /// Through the entrypoint of a loaded program.
    Entrypoint,
    /// Through the system program's stubs.
    SystemProgram,
    /// Nowhere: the program is unknown.
    NotFound,
}

/// A copy of an account.
fn copy_account(a: &TridentAccount) -> (r: TridentAccount)
    ensures
        r@ == a@,
{
    TridentAccount { lamports: a.lamports, data: a.data.clone(), owner: a.owner, executable: a.executable, rent_epoch: a.rent_epoch }
}

/// The addresses a fresh client holds accounts for: the system program's
/// and the loaded programs'.
pub open spec fn loaded_keys(programs: Seq<Pubkey>) -> Set<Seq<u8>> {
    Set::new(|k: Seq<u8>| k == zero_key() || exists|j: int| 0 <= j < programs.len() && k == programs[j]@)
}

proof fn lemma_loaded_keys_push(programs: Seq<Pubkey>, p: Pubkey)
    ensures
        loaded_keys(programs).insert(p@) == loaded_keys(programs.push(p)),
{
    let a = loaded_keys(programs).insert(p@);
    let b = loaded_keys(programs.push(p));
    assert forall|k: Seq<u8>| a.contains(k) <==> b.contains(k) by {
        if k == p@ {
            assert(programs.push(p)[programs.len() as int] == p);
        } else if loaded_keys(programs).contains(k) && k != zero_key() {
            let j = choose|j: int| 0 <= j < programs.len() && k == programs[j]@;
            assert(programs.push(p)[j] == programs[j]);
        } else if b.contains(k) && k != zero_key() {
            let j = choose|j: int| 0 <= j < programs.push(p).len() && k == programs.push(p)[j]@;
            if j < programs.len() {
                assert(programs.push(p)[j] == programs[j]);
            }
        }
    }
    assert(a =~= b);
}

/// The light client: accounts by address, and the addresses of the
/// programs whose entrypoints it holds.
pub struct LightClient {
    pub account_storage: KeyedMap<Pubkey, TridentAccount>,
    pub programs: Vec<Pubkey>,
}

impl LightClient {
    /// The account of a deployed program.
    fn program_account() -> (r: TridentAccount)
        ensures
            r@ == program_account(),
    {
        let rent = rent_exempt_minimum(0);
        let lamports = if rent > 1 { rent } else { 1 };
        let mut a = TridentAccount::default();
        a.executable = true;
        a.lamports = lamports;
        a
    }

    /// Stores the system program's account.
    pub fn add_system_program(&mut self)
        ensures
            final(self).account_storage@ == old(self).account_storage@.insert(zero_key(), program_account()),
            final(self).programs == old(self).programs,
    {
        let program = Self::program_account();
        self.account_storage.insert(Pubkey::default(), program);
    }

    /// Loads a program: records its address among those with an entrypoint
    /// and stores its account.
    pub fn add_program(&mut self, program_id: Pubkey)
        ensures
            final(self).account_storage@ == old(self).account_storage@.insert(program_id@, program_account()),
            final(self).programs@ == old(self).programs@.push(program_id),
    {
        self.programs.push(program_id);
        let program = Self::program_account();
        self.account_storage.insert(program_id, program);
    }

    /// Stores a sysvar account with the given contents, holding the
    /// rent-exempt balance for its size.
    pub fn add_sysvar(&mut self, key: Pubkey, data: &[u8])
        requires
            data@.len() <= 0x1_0000_0000,
        ensures
            final(self).account_storage@ == old(self).account_storage@.insert(
                key@,
                TridentAccountView {
                    lamports: exempt_balance(data@.len()) as u64,
                    data: data@,
                    owner: sysvar_owner(),
                    executable: false,
                    rent_epoch: 0,
                },
            ),
            final(self).programs == old(self).programs,
    {
        let lamports = rent_exempt_minimum(data.len());
        let owner = sysvar_owner_key();
        let mut account = TridentAccount::new(lamports, data.len(), &owner);
        account.set_data_from_slice(data);
        self.account_storage.insert(key, account);
    }

    /// A client with the system program, the given programs, the token
    /// program and the associated token account program loaded, and the
    /// default rent and clock sysvars stored; refused when a program comes
    /// without an entrypoint.
    pub fn new(programs: &[FuzzingProgramLight]) -> (r: Result<LightClient, FuzzClientError>)
        ensures
            r is Ok <==> forall|i: int| 0 <= i < programs@.len() ==> (#[trigger] programs@[i]).has_entry,
            r matches Err(e) ==> e == FuzzClientError::NotImplemnted,
            r matches Ok(c) ==> {
                &&& c.programs@.len() == programs@.len() + 2
                &&& forall|i: int| 0 <= i < programs@.len() ==> c.programs@[i] == (#[trigger] programs@[i]).program_id
                &&& c.programs@[programs@.len() as int]@ == token_program_id()
                &&& c.programs@[programs@.len() + 1int]@ == associated_token_program_id()
                &&& forall|i: int| 0 <= i < c.programs@.len() && c.programs@[i]@ != rent_sysvar_id() && c.programs@[i]@ != clock_sysvar_id()
                    ==> #[trigger] c.account_storage@[c.programs@[i]@] == program_account()
                &&& c.account_storage@[rent_sysvar_id()] == sysvar_account(default_rent_bytes() + zeros((RENT_SIZE - default_rent_bytes().len()) as nat))
                &&& c.account_storage@[clock_sysvar_id()] == sysvar_account(zeros(CLOCK_SIZE as nat))
                &&& c.account_storage@.contains_key(zero_key())
                &&& c.account_storage@.dom() == loaded_keys(c.programs@).insert(rent_sysvar_id()).insert(clock_sysvar_id())
            },
    {
        let mut client = LightClient { account_storage: KeyedMap::new(), programs: Vec::new() };
        client.add_system_program();
        proof {
            assert(client.account_storage@.dom() =~= loaded_keys(client.programs@));
        }
        let mut i: usize = 0;
        while i < programs.len()
            invariant
                0 <= i <= programs@.len(),
                forall|j: int| 0 <= j < i ==> (#[trigger] programs@[j]).has_entry,
                client.programs@.len() == i,
                forall|j: int| 0 <= j < i ==> client.programs@[j] == (#[trigger] programs@[j]).program_id,
                forall|j: int| 0 <= j < client.programs@.len() ==> #[trigger] client.account_storage@[client.programs@[j]@] == program_account(),
                client.account_storage@.contains_key(zero_key()),
                client.account_storage@.dom() == loaded_keys(client.programs@),
            decreases programs@.len() - i,
        {
            if !programs[i].has_entry {
                return Err(FuzzClientError::NotImplemnted);
            }
            let ghost before = client.programs@;
            client.add_program(programs[i].program_id);
            proof {
                lemma_loaded_keys_push(before, programs@[i as int].program_id);
            }
            i = i + 1;
        }
        let ghost before = client.programs@;
        let token = token_program_key();
        client.add_program(token);
        proof {
            lemma_loaded_keys_push(before, token);
        }
        let ghost before = client.programs@;
        let ata = associated_token_program_key();
        client.add_program(ata);
        proof {
            lemma_loaded_keys_push(before, ata);
        }
        let rent = rent_sysvar_data();
        client.add_sysvar(rent_sysvar_key(), &rent);
        let clock = default_clock_data();
        client.add_sysvar(clock_sysvar_key(), &clock);
        Ok(client)
    }

    /// Stores an account at an address, replacing any there.
    pub fn set_account_custom(&mut self, address: &Pubkey, account: TridentAccount)
        ensures
            final(self).account_storage@ == old(self).account_storage@.insert(address@, account@),
            final(self).programs == old(self).programs,
    {
        self.account_storage.insert(*address, account);
    }

    /// Stores a system-owned account without data holding `lamports` at the
    /// address of a fresh keypair, and returns the keypair.
    pub fn set_account(&mut self, lamports: u64) -> (r: Keypair)
        ensures
            final(self).account_storage@ == old(self).account_storage@.insert(
                keypair_pubkey(r.secret@),
                TridentAccountView { lamports, ..empty_account() },
            ),
            final(self).programs == old(self).programs,
    {
        let new_account = Keypair::new();
        let system = Pubkey::default();
        let info = TridentAccount::new(lamports, 0, &system);
        proof {
            assert(info@.data =~= empty_account().data);
        }
        self.account_storage.insert(new_account.pubkey(), info);
        new_account
    }

    /// A copy of the account at an address, if one is stored.
    pub fn get_account(&self, key: &Pubkey) -> (r: Option<TridentAccount>)
        ensures
            match r {
                Some(a) => self.account_storage@.contains_key(key@) && a@ == self.account_storage@[key@],
                None => !self.account_storage@.contains_key(key@),
            },
    {
        match self.account_storage.get(key) {
            Some(a) => Some(copy_account(a)),
            None => None,
        }
    }

    /// Copies of the accounts an instruction names, in order.
    pub fn get_accounts(&self, metas: &[AccountMeta]) -> (r: Vec<Option<TridentAccount>>)
        ensures
            r@.len() == metas@.len(),
            forall|i: int|
                0 <= i < metas@.len() ==> match #[trigger] r@[i] {
                    Some(a) => self.account_storage@.contains_key(metas@[i].pubkey@) && a@ == self.account_storage@[metas@[i].pubkey@],
                    None => !self.account_storage@.contains_key(metas@[i].pubkey@),
                },
    {
        let mut out: Vec<Option<TridentAccount>> = Vec::new();
        let mut i: usize = 0;
        while i < metas.len()
            invariant
                0 <= i <= metas@.len(),
                out@.len() == i,
                forall|j: int|
                    0 <= j < i ==> match #[trigger] out@[j] {
                        Some(a) => self.account_storage@.contains_key(metas@[j].pubkey@) && a@ == self.account_storage@[metas@[j].pubkey@],
                        None => !self.account_storage@.contains_key(metas@[j].pubkey@),
                    },
            decreases metas@.len() - i,
        {
            out.push(self.get_account(&metas[i].pubkey));
            i = i + 1;
        }
        out
    }

    /// The stored accounts an instruction names, in order, by reference.
    pub fn pre_ix_accounts(&self, instruction_accounts: &[AccountMeta]) -> (r: Vec<Option<&TridentAccount>>)
        ensures
            r@.len() == instruction_accounts@.len(),
            forall|i: int|
                0 <= i < instruction_accounts@.len() ==> match #[trigger] r@[i] {
                    Some(a) => self.account_storage@.contains_key(instruction_accounts@[i].pubkey@)
                        && a@ == self.account_storage@[instruction_accounts@[i].pubkey@],
                    None => !self.account_storage@.contains_key(instruction_accounts@[i].pubkey@),
                },
    {
        let mut out: Vec<Option<&TridentAccount>> = Vec::new();
        let mut i: usize = 0;
        while i < instruction_accounts.len()
            invariant
                0 <= i <= instruction_accounts@.len(),
                out@.len() == i,
                forall|j: int|
                    0 <= j < i ==> match #[trigger] out@[j] {
                        Some(a) => self.account_storage@.contains_key(instruction_accounts@[j].pubkey@)
                            && a@ == self.account_storage@[instruction_accounts@[j].pubkey@],
                        None => !self.account_storage@.contains_key(instruction_accounts@[j].pubkey@),
                    },
            decreases instruction_accounts@.len() - i,
        {
            out.push(self.account_storage.get(&instruction_accounts[i].pubkey));
            i = i + 1;
        }
        out
    }

    /// Takes back the accounts a program was given, in order: a writable
    /// account the program closed is removed, any other writable account
    /// gets the program's data, balance and owner.
    pub fn post_ix_accounts_update(&mut self, instruction_account_infos: &[AccountInfo])
        ensures
            final(self).account_storage@ == post_update(old(self).account_storage@, instruction_account_infos@),
            final(self).programs == old(self).programs,
    {
        let ghost infos = instruction_account_infos@;
        let mut i: usize = 0;
        proof {
            assert(infos.subrange(0, 0) =~= Seq::<AccountInfo>::empty());
        }
        while i < instruction_account_infos.len()
            invariant
                0 <= i <= infos.len(),
                infos == instruction_account_infos@,
                self.programs == old(self).programs,
                self.account_storage@ == post_update(old(self).account_storage@, infos.subrange(0, i as int)),
            decreases infos.len() - i,
        {
            let account = &instruction_account_infos[i];
            proof {
                assert(infos.subrange(0, i + 1).drop_last() =~= infos.subrange(0, i as int));
                assert(infos.subrange(0, i + 1).last() == infos[i as int]);
            }
            if account.is_writable {
                if is_closed(account) {
                    let ghost before = self.account_storage@;
                    let _ = self.account_storage.take(&account.key);
                    proof {
                        assert(self.account_storage@ =~= before.remove(account.key@));
                    }
                } else {
                    let mut acc = match self.account_storage.get(&account.key) {
                        Some(a) => copy_account(a),
                        None => TridentAccount::default(),
                    };
                    acc.data = account.data.clone();
                    acc.lamports = account.lamports;
                    acc.owner = account.owner;
                    self.account_storage.insert(account.key, acc);
                }
            }
            i = i + 1;
        }
        proof {
            assert(infos.subrange(0, infos.len() as int) =~= infos);
        }
    }

    /// How an instruction for `program_id` runs: through a loaded
    /// program's entrypoint, else through the system program's stubs when
    /// it is the system program, else nowhere.
    pub fn route(&self, program_id: &Pubkey) -> (r: CallRoute)
        ensures
            r == (if self.programs@.contains(*program_id) {
                CallRoute::Entrypoint
            } else if program_id@ == zero_key() {
                CallRoute::SystemProgram
            } else {
                CallRoute::NotFound
            }),
    {
        let mut i: usize = 0;
        while i < self.programs.len()
            invariant
                0 <= i <= self.programs@.len(),
                forall|j: int| 0 <= j < i ==> self.programs@[j] != *program_id,
            decreases self.programs@.len() - i,
        {
            if self.programs[i].same(program_id) {
                proof {
                    assert(self.programs@[i as int] == *program_id);
                }
                return CallRoute::Entrypoint;
            }
            i = i + 1;
        }
        if is_system_program(program_id) {
            CallRoute::SystemProgram
        } else {
            CallRoute::NotFound
        }
    }
}

} // verus!

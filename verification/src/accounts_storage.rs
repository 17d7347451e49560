//! Accounts of a fuzzing session named by small ids: each id is bound, on
//! first use, to an address that gets an account unless one is stored
//! there already.
use crate::address_storage::{derive_pda, pda_of, PdaSeeds};
use crate::derivation::{keypair_pubkey, new_unique_pubkey, Keypair};
use crate::keyed_map::KeyedMap;
use crate::light::account::{empty_account, zeros, TridentAccount, TridentAccountView};
use crate::light::light_client::LightClient;
use crate::pubkey::{zero_key, Pubkey};
use vstd::prelude::*;

verus! {

/// The id under which a fuzz test names an account.
pub type AccountId = u8;

/// Lamports in one SOL.
pub const LAMPORTS_PER_SOL: u64 = 1_000_000_000;

/// Balance, data size and owner of an account to create.
#[derive(Clone, Copy, Debug)]
pub struct AccountMetadata {
    pub lamports: u64,
    pub space: usize,
    pub owner: Pubkey,
}

impl AccountMetadata {
    /// Bundles balance, data size and owner.
    pub fn new(lamports: u64, space: usize, owner: Pubkey) -> (r: Self)
        ensures
            r.lamports == lamports,
            r.space == space,
            r.owner == owner,
    {
        Self { lamports, space, owner }
    }
}

/// What an account created from the metadata holds: the balance, `space`
/// zero bytes, the owner.
pub open spec fn created_account(m: AccountMetadata) -> TridentAccountView {
    TridentAccountView { lamports: m.lamports, data: zeros(m.space as nat), owner: m.owner@, executable: false, rent_epoch: 0 }
}

/// The account created for an id: from the metadata, or, when none is
/// given, 500 SOL, no data, owned by the system program.
pub open spec fn new_account_for(m: Option<AccountMetadata>) -> TridentAccountView {
    match m {
        Some(m) => created_account(m),
        None => TridentAccountView { lamports: 500_000_000_000u64, ..empty_account() },
    }
}

/// Whether the client reads the address as blank: no account stored, or
/// one equal to the empty account.
pub open spec fn blank_at(storage: Map<Seq<u8>, TridentAccountView>, address: Seq<u8>) -> bool {
    !storage.contains_key(address) || storage[address] == empty_account()
}

/// The storage after binding an id to `address` with the metadata: a blank
/// address gets the new account, else it is left as it is.
pub open spec fn storage_after_create(storage: Map<Seq<u8>, TridentAccountView>, address: Seq<u8>, m: Option<AccountMetadata>) -> Map<Seq<u8>, TridentAccountView> {
    if blank_at(storage, address) {
        storage.insert(address, new_account_for(m))
    } else {
        storage
    }
}

/// Creating an account for an id: a blank address then holds the
/// metadata's balance, that many zero bytes of data and its owner (500
/// SOL, no data, the system program when no metadata is given), neither
/// executable nor past rent epoch 0; an address already holding a
/// non-empty account keeps it, and every other address is left alone.
/// Once an account that is not the empty one was created, creating again
/// at that address, with any metadata, changes nothing.
pub proof fn law_create_for_id(
    storage: Map<Seq<u8>, TridentAccountView>,
    address: Seq<u8>,
    m: Option<AccountMetadata>,
    m2: Option<AccountMetadata>,
    other: Seq<u8>,
)
    ensures
        ({
            let r = storage_after_create(storage, address, m);
            let (lamports, space, owner) = match m {
                Some(x) => (x.lamports, x.space as nat, x.owner@),
                None => (500_000_000_000u64, 0nat, zero_key()),
            };
            &&& blank_at(storage, address) ==> {
                &&& r.contains_key(address)
                &&& r[address].lamports == lamports
                &&& r[address].data.len() == space
                &&& forall|i: int| 0 <= i < space ==> r[address].data[i] == 0
                &&& r[address].owner == owner
                &&& !r[address].executable && r[address].rent_epoch == 0
            }
            &&& !blank_at(storage, address) ==> r == storage
            &&& other != address ==> r.contains_key(other) == storage.contains_key(other) && r[other] == storage[other]
            &&& new_account_for(m) != empty_account() ==> storage_after_create(r, address, m2) == r
        }),
{
    let r = storage_after_create(storage, address, m);
    if blank_at(storage, address) {
        assert(r[address] == new_account_for(m));
    }
}

/// Ids bound to addresses.
pub struct AccountsStorage {
    pub accounts: KeyedMap<AccountId, Pubkey>,
    pub _max_accounts: u8,
}

impl Default for AccountsStorage {
    fn default() -> (r: Self)
        ensures
            r.accounts@ == Map::<u8, Seq<u8>>::empty(),
            r._max_accounts == 2,
    {
        Self::new(2)
    }
}

impl AccountsStorage {
    /// No id bound yet.
    pub fn new(max_accounts: u8) -> (r: Self)
        ensures
            r.accounts@ == Map::<u8, Seq<u8>>::empty(),
            r._max_accounts == max_accounts,
    {
        AccountsStorage { accounts: KeyedMap::new(), _max_accounts: max_accounts }
    }

    /// Whether no id is bound.
    pub fn is_empty(&self) -> (r: bool)
        ensures
            r == (self.accounts@ == Map::<u8, Seq<u8>>::empty()),
    {
        self.accounts.is_empty()
    }

    /// An address for a new account: the program derived address of the
    /// seeds, or a fresh unique address where none derives; without seeds,
    /// the address of a fresh keypair.
    pub fn get_or_create_address(&self, seeds: Option<PdaSeeds>) -> (r: Pubkey)
        ensures
            seeds matches Some(s) ==> (pda_of(s.seeds, s.program_id) is Some ==> Some(r@) == pda_of(s.seeds, s.program_id)),
            seeds is None ==> exists|secret: Seq<u8>| secret.len() == 32 && r@ == keypair_pubkey(secret),
    {
        match seeds {
            Some(seeds) => match derive_pda(seeds.seeds, &seeds.program_id) {
                Some(pubkey) => pubkey,
                None => new_unique_pubkey(),
            },
            None => {
                let keypair = Keypair::new();
                let r = keypair.pubkey();
                proof {
                    assert(keypair.secret@.len() == 32 && r@ == keypair_pubkey(keypair.secret@));
                }
                r
            },
        }
    }

    /// The address bound to `account_id`; on first use the id is bound to a
    /// new address (see `get_or_create_address`), which gets an account
    /// from the metadata (500 SOL, no data, system-owned when none is
    /// given) unless the client already holds a non-empty account there.
    pub fn get_or_create(
        &mut self,
        account_id: AccountId,
        client: &mut LightClient,
        seeds: Option<PdaSeeds>,
        account_metadata: Option<AccountMetadata>,
    ) -> (r: Pubkey)
        ensures
            old(self).accounts@.contains_key(account_id) ==> {
                &&& r@ == old(self).accounts@[account_id]
                &&& final(self).accounts@ == old(self).accounts@
                &&& final(client).account_storage@ == old(client).account_storage@
            },
            !old(self).accounts@.contains_key(account_id) ==> {
                &&& final(self).accounts@ == old(self).accounts@.insert(account_id, r@)
                &&& final(client).account_storage@ == storage_after_create(
                    old(client).account_storage@,
                    r@,
                    account_metadata,
                )
                &&& (seeds matches Some(s) ==> (pda_of(s.seeds, s.program_id) is Some ==> Some(r@) == pda_of(s.seeds, s.program_id)))
                &&& (seeds is None ==> exists|secret: Seq<u8>| secret.len() == 32 && r@ == keypair_pubkey(secret))
            },
            final(self)._max_accounts == old(self)._max_accounts,
            final(client).programs == old(client).programs,
    {
        match self.accounts.get(&account_id) {
            Some(address) => *address,
            None => {
                let address = self.get_or_create_address(seeds);
                let metadata = match account_metadata {
                    Some(metadata) => metadata,
                    None => AccountMetadata { lamports: 500 * LAMPORTS_PER_SOL, space: 0, owner: Pubkey::default() },
                };
                if client.is_blank(&address) {
                    let account = TridentAccount::new(metadata.lamports, metadata.space, &metadata.owner);
                    proof {
                        if account_metadata is None {
                            assert(account@.data =~= empty_account().data);
                        }
                    }
                    client.set_account_custom(&address, account);
                }
                self.accounts.insert(account_id, address);
                address
            },
        }
    }
}

impl LightClient {
    /// Whether the client reads the address as blank: nothing stored, or
    /// the empty account.
    pub fn is_blank(&self, address: &Pubkey) -> (r: bool)
        ensures
            r == blank_at(self.account_storage@, address@),
    {
        match self.account_storage.get(address) {
            None => true,
            Some(a) => is_empty_account(a),
        }
    }
}

/// Whether the account equals the empty account.
pub fn is_empty_account(a: &TridentAccount) -> (r: bool)
    ensures
        r == (a@ == empty_account()),
{
    let system = Pubkey::default();
    let r = a.lamports == 0 && a.data.len() == 0 && a.owner.same(&system) && !a.executable && a.rent_epoch == 0;
    proof {
        if a.data@.len() == 0 {
            assert(a.data@ =~= empty_account().data);
        }
    }
    r
}

} // verus!

//! Token program accounts: a token account and a mint, their byte layout
//! as the token program packs them, and the rent-exempt accounts that hold
//! them.
use crate::accounts_storage::{blank_at, AccountId, AccountsStorage};
use crate::address_storage::{pda_of, PdaSeeds};
use crate::derivation::{keypair_pubkey, Keypair};
use crate::light::account::{zeros, TridentAccount, TridentAccountView};
use crate::light::light_client::LightClient;
use crate::light::light_client::{exempt_balance, rent_exempt_minimum, token_program_id, token_program_key};
use crate::light::roundtrip::lemma_le_len;
use crate::light::serialization_light::{bool_byte, le_bytes};
use crate::pubkey::Pubkey;
use solana_sdk::pubkey::Pubkey as SdkPubkey;
use spl_token::solana_program::program_pack::Pack;
use spl_token::state::{Account as SplAccount, AccountState, Mint as SplMint};
use vstd::prelude::*;

verus! {

/// Bytes of a packed token account.
pub const TOKEN_ACCOUNT_LEN: usize = 165;

/// Bytes of a packed mint.
pub const MINT_LEN: usize = 82;

/// An initialized token account's fields.
#[derive(Clone, Copy, Debug)]
pub struct TokenAccount {
    pub mint: Pubkey,
    pub owner: Pubkey,
    pub amount: u64,
    pub delegate: Option<Pubkey>,
    pub is_native: Option<u64>,
    pub delegated_amount: u64,
    pub close_authority: Option<Pubkey>,
}

/// A mint's fields.
#[derive(Clone, Copy, Debug)]
pub struct Mint {
    pub mint_authority: Option<Pubkey>,
    pub supply: u64,
    pub decimals: u8,
    pub is_initialized: bool,
    pub freeze_authority: Option<Pubkey>,
}

/// An optional address as packed: a 4-byte tag (1 when present), then the
/// address, or 32 zero bytes when absent.
pub open spec fn coption_key_bytes(o: Option<Pubkey>) -> Seq<u8> {
    match o {
        Some(k) => seq![1u8, 0, 0, 0] + k@,
        None => zeros(36),
    }
}

/// An optional amount as packed: a 4-byte tag (1 when present), then the
/// amount in 8 little-endian bytes, or 8 zero bytes when absent.
pub open spec fn coption_u64_bytes(o: Option<u64>) -> Seq<u8> {
    match o {
        Some(x) => seq![1u8, 0, 0, 0] + le_bytes(x as nat, 8),
        None => zeros(12),
    }
}

/// The 165 bytes of an initialized token account: mint, owner, amount,
/// delegate, state 1 (initialized), native reserve, delegated amount,
/// close authority.
pub open spec fn token_account_bytes(a: TokenAccount) -> Seq<u8> {
    a.mint@ + a.owner@ + le_bytes(a.amount as nat, 8) + coption_key_bytes(a.delegate) + seq![1u8]
        + coption_u64_bytes(a.is_native) + le_bytes(a.delegated_amount as nat, 8) + coption_key_bytes(a.close_authority)
}

/// The 82 bytes of a mint: mint authority, supply, decimals, initialized
/// flag, freeze authority.
pub open spec fn mint_bytes(m: Mint) -> Seq<u8> {
    coption_key_bytes(m.mint_authority) + le_bytes(m.supply as nat, 8) + seq![m.decimals, bool_byte(m.is_initialized)]
        + coption_key_bytes(m.freeze_authority)
}

/// A packed token account takes 165 bytes.
pub proof fn lemma_token_account_len(a: TokenAccount)
    ensures
        token_account_bytes(a).len() == TOKEN_ACCOUNT_LEN,
{
    lemma_le_len(a.amount as nat, 8);
    lemma_le_len(a.delegated_amount as nat, 8);
    if let Some(x) = a.is_native {
        lemma_le_len(x as nat, 8);
    }
    assert(a.mint@.len() == 32 && a.owner@.len() == 32);
    assert(coption_key_bytes(a.delegate).len() == 36);
    assert(coption_key_bytes(a.close_authority).len() == 36);
    assert(coption_u64_bytes(a.is_native).len() == 12);
}

/// A packed mint takes 82 bytes.
pub proof fn lemma_mint_len(m: Mint)
    ensures
        mint_bytes(m).len() == MINT_LEN,
{
    lemma_le_len(m.supply as nat, 8);
    assert(coption_key_bytes(m.mint_authority).len() == 36);
    assert(coption_key_bytes(m.freeze_authority).len() == 36);
}

/// Where each field of a packed token account lies in its 165 bytes: mint
/// 0..32, owner 32..64, amount 64..72, delegate 72..108, state (1,
/// initialized) at 108, native reserve 109..121, delegated amount 121..129,
/// close authority 129..165.
pub proof fn law_token_account_layout(a: TokenAccount)
    ensures
        ({
            let b = token_account_bytes(a);
            &&& b.len() == TOKEN_ACCOUNT_LEN
            &&& b.subrange(0, 32) == a.mint@
            &&& b.subrange(32, 64) == a.owner@
            &&& b.subrange(64, 72) == le_bytes(a.amount as nat, 8)
            &&& b.subrange(72, 108) == coption_key_bytes(a.delegate)
            &&& b[108] == 1
            &&& b.subrange(109, 121) == coption_u64_bytes(a.is_native)
            &&& b.subrange(121, 129) == le_bytes(a.delegated_amount as nat, 8)
            &&& b.subrange(129, 165) == coption_key_bytes(a.close_authority)
        }),
{
    lemma_token_account_len(a);
    lemma_le_len(a.amount as nat, 8);
    lemma_le_len(a.delegated_amount as nat, 8);
    if let Some(x) = a.is_native {
        lemma_le_len(x as nat, 8);
    }
    let b = token_account_bytes(a);
    assert(a.mint@.len() == 32 && a.owner@.len() == 32);
    assert(coption_key_bytes(a.delegate).len() == 36);
    assert(coption_key_bytes(a.close_authority).len() == 36);
    assert(coption_u64_bytes(a.is_native).len() == 12);
    assert(b.subrange(0, 32) =~= a.mint@);
    assert(b.subrange(32, 64) =~= a.owner@);
    assert(b.subrange(64, 72) =~= le_bytes(a.amount as nat, 8));
    assert(b.subrange(72, 108) =~= coption_key_bytes(a.delegate));
    assert(b.subrange(109, 121) =~= coption_u64_bytes(a.is_native));
    assert(b.subrange(121, 129) =~= le_bytes(a.delegated_amount as nat, 8));
    assert(b.subrange(129, 165) =~= coption_key_bytes(a.close_authority));
}

/// Where each field of a packed mint lies in its 82 bytes: mint authority
/// 0..36, supply 36..44, decimals at 44, initialized flag at 45, freeze
/// authority 46..82. An optional address is a 4-byte tag (1 when present)
/// and the address, or 36 zero bytes.
pub proof fn law_mint_layout(m: Mint)
    ensures
        ({
            let b = mint_bytes(m);
            &&& b.len() == MINT_LEN
            &&& b.subrange(0, 36) == coption_key_bytes(m.mint_authority)
            &&& b.subrange(36, 44) == le_bytes(m.supply as nat, 8)
            &&& b[44] == m.decimals
            &&& b[45] == (if m.is_initialized { 1u8 } else { 0u8 })
            &&& b.subrange(46, 82) == coption_key_bytes(m.freeze_authority)
        }),
        forall|o: Option<Pubkey>| #![trigger coption_key_bytes(o)] match o {
            Some(k) => coption_key_bytes(o) == seq![1u8, 0, 0, 0] + k@,
            None => coption_key_bytes(o) == Seq::new(36, |i: int| 0u8),
        },
{
    lemma_mint_len(m);
    lemma_le_len(m.supply as nat, 8);
    let b = mint_bytes(m);
    assert(coption_key_bytes(m.mint_authority).len() == 36);
    assert(coption_key_bytes(m.freeze_authority).len() == 36);
    assert(b.subrange(0, 36) =~= coption_key_bytes(m.mint_authority));
    assert(b.subrange(36, 44) =~= le_bytes(m.supply as nat, 8));
    assert(b.subrange(46, 82) =~= coption_key_bytes(m.freeze_authority));
    assert forall|o: Option<Pubkey>| #![trigger coption_key_bytes(o)] match o {
        Some(k) => coption_key_bytes(o) == seq![1u8, 0, 0, 0] + k@,
        None => coption_key_bytes(o) == Seq::new(36, |i: int| 0u8),
    } by {
        if o is None {
            assert(coption_key_bytes(o) =~= Seq::new(36, |i: int| 0u8));
        }
    }
}

/// A created token account: a native one holds its rent reserve plus the
/// amount (capped at the largest balance), records the reserve and counts
/// its whole balance as amount; another holds the reserve and the amount
/// given. Both belong to the token program.
pub proof fn law_created_token_account(
    mint: Pubkey,
    owner: Pubkey,
    amount: u64,
    delegate: Option<Pubkey>,
    is_native: bool,
    delegated_amount: u64,
    close_authority: Option<Pubkey>,
)
    ensures
        ({
            let v = created_token_account(mint, owner, amount, delegate, is_native, delegated_amount, close_authority);
            let rent = token_account_rent();
            let lamports: u64 = if is_native { if rent + amount <= u64::MAX { (rent + amount) as u64 } else { u64::MAX } } else { rent };
            &&& v.lamports == lamports
            &&& v.owner == token_program_id()
            &&& v.data.subrange(0, 32) == mint@
            &&& v.data.subrange(32, 64) == owner@
            &&& v.data.subrange(64, 72) == le_bytes((if is_native { lamports } else { amount }) as nat, 8)
            &&& v.data.subrange(109, 121) == coption_u64_bytes(if is_native { Some(rent) } else { None })
            &&& v.data.subrange(121, 129) == le_bytes(delegated_amount as nat, 8)
        }),
{
    let rent = token_account_rent();
    let lamports: u64 = if !is_native { rent } else if rent + amount > u64::MAX { u64::MAX } else { (rent + amount) as u64 };
    law_token_account_layout(TokenAccount {
        mint,
        owner,
        amount: if is_native { lamports } else { amount },
        delegate,
        is_native: if is_native { Some(rent) } else { None },
        delegated_amount,
        close_authority,
    });
}

/// A created mint is initialized with no supply, the owner as its mint
/// authority, the decimals and freeze authority given, holds the mint's
/// rent-exempt balance and belongs to the token program.
pub proof fn law_created_mint(decimals: u8, owner: Pubkey, freeze_authority: Option<Pubkey>)
    ensures
        ({
            let v = created_mint(decimals, owner, freeze_authority);
            &&& v.lamports == mint_rent()
            &&& v.owner == token_program_id()
            &&& v.data.subrange(0, 36) == seq![1u8, 0, 0, 0] + owner@
            &&& v.data.subrange(36, 44) == le_bytes(0, 8)
            &&& v.data[44] == decimals
            &&& v.data[45] == 1
            &&& v.data.subrange(46, 82) == coption_key_bytes(freeze_authority)
        }),
{
    law_mint_layout(Mint { mint_authority: Some(owner), supply: 0, decimals, is_initialized: true, freeze_authority });
}

/// Calls `Pack::pack` of `spl_token` on an initialized token account into
/// a zeroed buffer of its length. Its source lays the fields out as
/// `token_account_bytes` says (`pack_into_slice`); an absent option writes
/// its tag and leaves the zeroed body.
#[verifier::external_body]
fn pack_token_account(a: &TokenAccount) -> (r: Vec<u8>)
    ensures
        r@ == token_account_bytes(*a),
{
    let account = SplAccount {
        mint: SdkPubkey::new_from_array(a.mint.bytes),
        owner: SdkPubkey::new_from_array(a.owner.bytes),
        amount: a.amount,
        delegate: a.delegate.map(|k| SdkPubkey::new_from_array(k.bytes)).into(),
        state: AccountState::Initialized,
        is_native: a.is_native.into(),
        delegated_amount: a.delegated_amount,
        close_authority: a.close_authority.map(|k| SdkPubkey::new_from_array(k.bytes)).into(),
    };
    let mut data = vec![0u8; SplAccount::LEN];
    SplAccount::pack(account, &mut data).unwrap();
    data
}

/// Calls `Pack::pack` of `spl_token` on a mint into a zeroed buffer of its
/// length. Its source lays the fields out as `mint_bytes` says.
#[verifier::external_body]
fn pack_mint(m: &Mint) -> (r: Vec<u8>)
    ensures
        r@ == mint_bytes(*m),
{
    let mint = SplMint {
        mint_authority: m.mint_authority.map(|k| SdkPubkey::new_from_array(k.bytes)).into(),
        supply: m.supply,
        decimals: m.decimals,
        is_initialized: m.is_initialized,
        freeze_authority: m.freeze_authority.map(|k| SdkPubkey::new_from_array(k.bytes)).into(),
    };
    let mut data = vec![0u8; SplMint::LEN];
    SplMint::pack(mint, &mut data).unwrap();
    data
}

/// The account holding a token account: the balance, the packed fields,
/// owned by the token program.
pub open spec fn token_program_account(lamports: u64, data: Seq<u8>) -> TridentAccountView {
    TridentAccountView { lamports, data, owner: token_program_id(), executable: false, rent_epoch: 0 }
}

/// The rent-exempt balance of a token account, 2039280 lamports.
pub open spec fn token_account_rent() -> u64 {
    exempt_balance(TOKEN_ACCOUNT_LEN as nat) as u64
}

/// The rent-exempt balance of a mint, 1461600 lamports.
pub open spec fn mint_rent() -> u64 {
    exempt_balance(MINT_LEN as nat) as u64
}

/// The account of an initialized token account: rent-exempt, owned by the
/// token program.
fn token_account_data(a: &TokenAccount, lamports: u64) -> (r: TridentAccount)
    ensures
        r@ == token_program_account(lamports, token_account_bytes(*a)),
{
    let data = pack_token_account(a);
    TridentAccount { lamports, data, owner: token_program_key(), executable: false, rent_epoch: 0 }
}

/// The account of a mint: rent-exempt, owned by the token program.
fn mint_account_data(m: &Mint) -> (r: TridentAccount)
    ensures
        r@ == token_program_account(mint_rent(), mint_bytes(*m)),
{
    let lamports = rent_exempt_minimum(MINT_LEN);
    let data = pack_mint(m);
    TridentAccount { lamports, data, owner: token_program_key(), executable: false, rent_epoch: 0 }
}

/// The token account `create_token_account` makes: a native account holds
/// its rent reserve plus the amount (saturating) as both balance and
/// amount, with the reserve recorded; another holds the rent-exempt
/// balance and the amount given.
pub open spec fn created_token_account(
    mint: Pubkey,
    owner: Pubkey,
    amount: u64,
    delegate: Option<Pubkey>,
    is_native: bool,
    delegated_amount: u64,
    close_authority: Option<Pubkey>,
) -> TridentAccountView {
    let rent = token_account_rent();
    let lamports: u64 = if !is_native {
        rent
    } else if rent + amount > u64::MAX {
        u64::MAX
    } else {
        (rent + amount) as u64
    };
    let fields = TokenAccount {
        mint,
        owner,
        amount: if is_native { lamports } else { amount },
        delegate,
        is_native: if is_native { Some(rent) } else { None },
        delegated_amount,
        close_authority,
    };
    token_program_account(lamports, token_account_bytes(fields))
}

/// The mint `create_mint_account` makes: initialized, no supply, `owner`
/// as mint authority.
pub open spec fn created_mint(decimals: u8, owner: Pubkey, freeze_authority: Option<Pubkey>) -> TridentAccountView {
    token_program_account(
        mint_rent(),
        mint_bytes(Mint { mint_authority: Some(owner), supply: 0, decimals, is_initialized: true, freeze_authority }),
    )
}

impl AccountsStorage {
    /// Stores an initialized token account at `address`.
    pub fn create_token_account(
        &self,
        client: &mut LightClient,
        address: Pubkey,
        mint: Pubkey,
        owner: Pubkey,
        amount: u64,
        delegate: Option<Pubkey>,
        is_native: bool,
        delegated_amount: u64,
        close_authority: Option<Pubkey>,
    )
        ensures
            final(client).account_storage@ == old(client).account_storage@.insert(
                address@,
                created_token_account(mint, owner, amount, delegate, is_native, delegated_amount, close_authority),
            ),
            final(client).programs == old(client).programs,
    {
        let rent_exempt_lamports = rent_exempt_minimum(TOKEN_ACCOUNT_LEN);
        let account = if is_native {
            let lamports = match rent_exempt_lamports.checked_add(amount) {
                Some(l) => l,
                None => u64::MAX,
            };
            let fields = TokenAccount {
                mint,
                owner,
                amount: lamports,
                delegate,
                is_native: Some(rent_exempt_lamports),
                delegated_amount,
                close_authority,
            };
            token_account_data(&fields, lamports)
        } else {
            let fields = TokenAccount { mint, owner, amount, delegate, is_native: None, delegated_amount, close_authority };
            token_account_data(&fields, rent_exempt_lamports)
        };
        client.set_account_custom(&address, account);
    }

    /// Stores an initialized mint at `address`, with `owner` as its mint
    /// authority and no supply.
    pub fn create_mint_account(
        &self,
        client: &mut LightClient,
        address: Pubkey,
        decimals: u8,
        owner: &Pubkey,
        freeze_authority: Option<Pubkey>,
    )
        ensures
            final(client).account_storage@ == old(client).account_storage@.insert(
                address@,
                created_mint(decimals, *owner, freeze_authority),
            ),
            final(client).programs == old(client).programs,
    {
        let mint = Mint { mint_authority: Some(*owner), supply: 0, decimals, is_initialized: true, freeze_authority };
        let account = mint_account_data(&mint);
        client.set_account_custom(&address, account);
    }

    /// The address bound to `account_id`; on first use the id is bound to a
    /// new address (see `get_or_create_address`), which gets a token
    /// account unless the client already holds a non-empty account there.
    pub fn get_or_create_token_account(
        &mut self,
        account_id: AccountId,
        client: &mut LightClient,
        seeds: Option<PdaSeeds>,
        mint: Pubkey,
        owner: Pubkey,
        amount: u64,
        delegate: Option<Pubkey>,
        is_native: bool,
        delegated_amount: u64,
        close_authority: Option<Pubkey>,
    ) -> (r: Pubkey)
        ensures
            old(self).accounts@.contains_key(account_id) ==> {
                &&& r@ == old(self).accounts@[account_id]
                &&& final(self).accounts@ == old(self).accounts@
                &&& final(client).account_storage@ == old(client).account_storage@
            },
            !old(self).accounts@.contains_key(account_id) ==> {
                &&& final(self).accounts@ == old(self).accounts@.insert(account_id, r@)
                &&& final(client).account_storage@ == if blank_at(old(client).account_storage@, r@) {
                    old(client).account_storage@.insert(
                        r@,
                        created_token_account(mint, owner, amount, delegate, is_native, delegated_amount, close_authority),
                    )
                } else {
                    old(client).account_storage@
                }
                &&& (seeds matches Some(s) ==> (pda_of(s.seeds, s.program_id) is Some ==> Some(r@) == pda_of(s.seeds, s.program_id)))
                &&& (seeds is None ==> exists|secret: Seq<u8>| secret.len() == 32 && r@ == keypair_pubkey(secret))
            },
            final(self)._max_accounts == old(self)._max_accounts,
            final(client).programs == old(client).programs,
    {
        match self.accounts.get(&account_id) {
            Some(address) => *address,
            None => {
                let address = self.get_or_create_address(seeds);
                if client.is_blank(&address) {
                    self.create_token_account(client, address, mint, owner, amount, delegate, is_native, delegated_amount, close_authority);
                }
                self.accounts.insert(account_id, address);
                address
            },
        }
    }

    /// The address bound to `account_id`; on first use the id is bound to a
    /// new address, which gets a mint unless the client already holds a
    /// non-empty account there.
    pub fn get_or_create_mint_account(
        &mut self,
        account_id: AccountId,
        client: &mut LightClient,
        seeds: Option<PdaSeeds>,
        decimals: u8,
        owner: &Pubkey,
        freeze_authority: Option<Pubkey>,
    ) -> (r: Pubkey)
        ensures
            old(self).accounts@.contains_key(account_id) ==> {
                &&& r@ == old(self).accounts@[account_id]
                &&& final(self).accounts@ == old(self).accounts@
                &&& final(client).account_storage@ == old(client).account_storage@
            },
            !old(self).accounts@.contains_key(account_id) ==> {
                &&& final(self).accounts@ == old(self).accounts@.insert(account_id, r@)
                &&& final(client).account_storage@ == if blank_at(old(client).account_storage@, r@) {
                    old(client).account_storage@.insert(r@, created_mint(decimals, *owner, freeze_authority))
                } else {
                    old(client).account_storage@
                }
                &&& (seeds matches Some(s) ==> (pda_of(s.seeds, s.program_id) is Some ==> Some(r@) == pda_of(s.seeds, s.program_id)))
                &&& (seeds is None ==> exists|secret: Seq<u8>| secret.len() == 32 && r@ == keypair_pubkey(secret))
            },
            final(self)._max_accounts == old(self)._max_accounts,
            final(client).programs == old(client).programs,
    {
        match self.accounts.get(&account_id) {
            Some(address) => *address,
            None => {
                let address = self.get_or_create_address(seeds);
                if client.is_blank(&address) {
                    self.create_mint_account(client, address, decimals, owner, freeze_authority);
                }
                self.accounts.insert(account_id, address);
                address
            },
        }
    }
}

impl LightClient {
    /// Stores an initialized token account at the address of a fresh
    /// keypair, holding the rent-exempt balance, and returns the address.
    pub fn set_token_account(
        &mut self,
        mint: Pubkey,
        owner: Pubkey,
        amount: u64,
        delegate: Option<Pubkey>,
        is_native: Option<u64>,
        delegated_amount: u64,
        close_authority: Option<Pubkey>,
    ) -> (r: Pubkey)
        ensures
            exists|secret: Seq<u8>| r@ == keypair_pubkey(secret),
            final(self).account_storage@ == old(self).account_storage@.insert(
                r@,
                token_program_account(
                    token_account_rent(),
                    token_account_bytes(TokenAccount { mint, owner, amount, delegate, is_native, delegated_amount, close_authority }),
                ),
            ),
            final(self).programs == old(self).programs,
    {
        let keypair = Keypair::new();
        let token_account_key = keypair.pubkey();
        let lamports = rent_exempt_minimum(TOKEN_ACCOUNT_LEN);
        let fields = TokenAccount { mint, owner, amount, delegate, is_native, delegated_amount, close_authority };
        let account = token_account_data(&fields, lamports);
        self.account_storage.insert(token_account_key, account);
        token_account_key
    }

    /// Stores an initialized mint with `owner` as mint authority at the
    /// address of a fresh keypair, and returns the address.
    pub fn set_mint_account(&mut self, decimals: u8, owner: &Pubkey, freeze_authority: Option<Pubkey>) -> (r: Pubkey)
        ensures
            exists|secret: Seq<u8>| r@ == keypair_pubkey(secret),
            final(self).account_storage@ == old(self).account_storage@.insert(r@, created_mint(decimals, *owner, freeze_authority)),
            final(self).programs == old(self).programs,
    {
        let keypair = Keypair::new();
        let mint_account_key = keypair.pubkey();
        let mint = Mint { mint_authority: Some(*owner), supply: 0, decimals, is_initialized: true, freeze_authority };
        let account = mint_account_data(&mint);
        self.account_storage.insert(mint_account_key, account);
        mint_account_key
    }
}

} // verus!

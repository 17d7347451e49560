//! The account buffer a program receives: how the light client writes it
//! and reads it back, and the de-duplication of an instruction's accounts.
use crate::keyed_map::KeyedMap;
use crate::light::account::{empty_account, zeros, AccountMeta, Instruction, TridentAccount, TridentAccountView};
use crate::pubkey::Pubkey;
use vstd::prelude::*;

verus! {

/// Marks the first occurrence of an account in the buffer.
pub const NON_DUP_MARKER: u8 = 255;

/// Room left after an account's data for the program to grow it.
pub const MAX_PERMITTED_DATA_INCREASE: usize = 10240;

/// Alignment of the field after an account's data.
pub const BPF_ALIGN_OF_U128: usize = 8;

/// Bytes needed after `n` bytes to reach a multiple of 8.
pub open spec fn align_pad(n: int) -> int {
    (8 - n % 8) % 8
}

/// The lowest `n` bytes of `x`, least significant first.
pub open spec fn le_bytes(x: nat, n: nat) -> Seq<u8>
    decreases n,
{
    if n == 0 {
        Seq::empty()
    } else {
        seq![(x % 256) as u8] + le_bytes(x / 256, (n - 1) as nat)
    }
}

/// The number that bytes stand for, least significant first.
pub open spec fn le_value(b: Seq<u8>) -> nat
    decreases b.len(),
{
    if b.len() == 0 {
        0
    } else {
        b[0] as nat + 256 * le_value(b.drop_first())
    }
}

/// 256 to the power `n`.
pub open spec fn pow256(n: nat) -> nat
    decreases n,
{
    if n == 0 {
        1
    } else {
        256 * pow256((n - 1) as nat)
    }
}

/// Reading back the bytes of a number that fits gives the number.
pub proof fn lemma_le_roundtrip(x: nat, n: nat)
    requires
        x < pow256(n),
    ensures
        le_bytes(x, n).len() == n,
        le_value(le_bytes(x, n)) == x,
    decreases n,
{
    if n > 0 {
        lemma_le_roundtrip(x / 256, (n - 1) as nat);
        let b = le_bytes(x, n);
        assert(b.drop_first() =~= le_bytes(x / 256, (n - 1) as nat));
    }
}

/// A flag as a byte.
pub open spec fn bool_byte(b: bool) -> u8 {
    if b { 1 } else { 0 }
}

/// Entry `i` is the first with key `k`.
pub open spec fn first_index_of(metas: Seq<AccountMeta>, k: Seq<u8>, i: int) -> bool {
    &&& 0 <= i < metas.len()
    &&& metas[i].pubkey@ == k
    &&& forall|j: int| 0 <= j < i ==> metas[j].pubkey@ != k
}

/// The map sends each key of the accounts to the position of its first
/// occurrence, and holds no other key.
pub open spec fn dedup_of(dedup: Map<Seq<u8>, usize>, metas: Seq<AccountMeta>) -> bool {
    &&& forall|k: Seq<u8>| #[trigger] dedup.contains_key(k) ==> first_index_of(metas, k, dedup[k] as int)
    &&& forall|i: int| 0 <= i < metas.len() ==> dedup.contains_key(#[trigger] metas[i].pubkey@)
}

/// Some occurrence before `upto` of the key signs.
pub open spec fn any_signer(metas: Seq<AccountMeta>, k: Seq<u8>, upto: int) -> bool {
    exists|j: int| 0 <= j < upto && metas[j].pubkey@ == k && #[trigger] metas[j].is_signer
}

/// Some occurrence before `upto` of the key is writable.
pub open spec fn any_writable(metas: Seq<AccountMeta>, k: Seq<u8>, upto: int) -> bool {
    exists|j: int| 0 <= j < upto && metas[j].pubkey@ == k && #[trigger] metas[j].is_writable
}

/// The accounts after de-duplication: the first occurrence of each key
/// signs (is writable) when any occurrence does; the others are unchanged.
pub open spec fn flags_merged(before: Seq<AccountMeta>, after: Seq<AccountMeta>, upto: int) -> bool {
    &&& after.len() == before.len()
    &&& forall|i: int| 0 <= i < before.len() ==> #[trigger] after[i].pubkey == before[i].pubkey
    &&& forall|i: int|
        #![trigger after[i]]
        0 <= i < before.len() ==> if i < upto && first_index_of(before, before[i].pubkey@, i) {
            &&& after[i].is_signer == any_signer(before, before[i].pubkey@, upto)
            &&& after[i].is_writable == any_writable(before, before[i].pubkey@, upto)
        } else {
            after[i] == before[i]
        }
}

/// Maps each account key to the position of its first occurrence, and
/// makes that occurrence sign (be writable) when any occurrence does.
pub fn get_duplicate_accounts(instruction_account_metas: &mut Vec<AccountMeta>) -> (r: KeyedMap<Pubkey, usize>)
    ensures
        dedup_of(r@, old(instruction_account_metas)@),
        dedup_of(r@, final(instruction_account_metas)@),
        flags_merged(old(instruction_account_metas)@, final(instruction_account_metas)@, old(instruction_account_metas)@.len() as int),
{
    let ghost before = instruction_account_metas@;
    let mut dedup_ixs: KeyedMap<Pubkey, usize> = KeyedMap::new();
    let n = instruction_account_metas.len();
    let mut i: usize = 0;
    while i < n
        invariant
            0 <= i <= n,
            n == before.len(),
            dedup_of(dedup_ixs@, before.take(i as int)),
            flags_merged(before, instruction_account_metas@, i as int),
        decreases n - i,
    {
        let meta = instruction_account_metas[i];
        let ghost k = meta.pubkey@;
        let ghost prefix = before.take(i as int);
        let ghost next = before.take(i + 1);
        assert(instruction_account_metas@[i as int] == before[i as int]);
        assert(forall|l: int| 0 <= l < i ==> prefix[l] == before[l]);
        match dedup_ixs.get(&meta.pubkey) {
            Some(reference) => {
                let reference_index = *reference;
                proof {
                    assert(first_index_of(prefix, k, reference_index as int));
                    assert(prefix[reference_index as int] == before[reference_index as int]);
                }
                if meta.is_signer {
                    let mut m = instruction_account_metas[reference_index];
                    m.is_signer = true;
                    instruction_account_metas.set(reference_index, m);
                }
                if meta.is_writable {
                    let mut m = instruction_account_metas[reference_index];
                    m.is_writable = true;
                    instruction_account_metas.set(reference_index, m);
                }
                proof {
                    let after = instruction_account_metas@;
                    assert forall|j: int| #![trigger after[j]] 0 <= j < before.len() implies (if j < i + 1 && first_index_of(before, before[j].pubkey@, j) {
                        &&& after[j].is_signer == any_signer(before, before[j].pubkey@, i + 1)
                        &&& after[j].is_writable == any_writable(before, before[j].pubkey@, i + 1)
                    } else {
                        after[j] == before[j]
                    }) by {
                        if j < i + 1 && first_index_of(before, before[j].pubkey@, j) {
                            if j == i {
                                assert(first_index_of(before, k, reference_index as int));
                            }
                            if before[j].pubkey@ == k {
                                assert(j == reference_index);
                                if meta.is_signer {
                                    assert(any_signer(before, k, i + 1));
                                }
                                if meta.is_writable {
                                    assert(any_writable(before, k, i + 1));
                                }
                                if any_signer(before, k, i + 1) && !meta.is_signer {
                                    let w = choose|w: int| 0 <= w < i + 1 && before[w].pubkey@ == k && #[trigger] before[w].is_signer;
                                    assert(any_signer(before, k, i as int));
                                }
                                if any_writable(before, k, i + 1) && !meta.is_writable {
                                    let w = choose|w: int| 0 <= w < i + 1 && before[w].pubkey@ == k && #[trigger] before[w].is_writable;
                                    assert(any_writable(before, k, i as int));
                                }
                            } else {
                                if any_signer(before, before[j].pubkey@, i + 1) {
                                    let w = choose|w: int| 0 <= w < i + 1 && before[w].pubkey@ == before[j].pubkey@ && #[trigger] before[w].is_signer;
                                    assert(any_signer(before, before[j].pubkey@, i as int));
                                }
                                if any_writable(before, before[j].pubkey@, i + 1) {
                                    let w = choose|w: int| 0 <= w < i + 1 && before[w].pubkey@ == before[j].pubkey@ && #[trigger] before[w].is_writable;
                                    assert(any_writable(before, before[j].pubkey@, i as int));
                                }
                            }
                        }
                    }
                    assert forall|kk: Seq<u8>| #[trigger] dedup_ixs@.contains_key(kk) implies first_index_of(next, kk, dedup_ixs@[kk] as int) by {
                        assert(first_index_of(prefix, kk, dedup_ixs@[kk] as int));
                    }
                    assert forall|j: int| 0 <= j < next.len() implies dedup_ixs@.contains_key(#[trigger] next[j].pubkey@) by {
                        if j < i {
                            assert(next[j] == prefix[j]);
                        }
                    }
                }
            },
            None => {
                dedup_ixs.insert_new(meta.pubkey, i);
                proof {
                    let after = instruction_account_metas@;
                    assert(forall|j: int| 0 <= j < i ==> prefix[j].pubkey@ != k);
                    assert(first_index_of(before, k, i as int));
                    assert forall|j: int| #![trigger after[j]] 0 <= j < before.len() implies (if j < i + 1 && first_index_of(before, before[j].pubkey@, j) {
                        &&& after[j].is_signer == any_signer(before, before[j].pubkey@, i + 1)
                        &&& after[j].is_writable == any_writable(before, before[j].pubkey@, i + 1)
                    } else {
                        after[j] == before[j]
                    }) by {
                        if j < i + 1 && first_index_of(before, before[j].pubkey@, j) {
                            if j == i {
                                if any_signer(before, k, i + 1) {
                                    let w = choose|w: int| 0 <= w < i + 1 && before[w].pubkey@ == k && #[trigger] before[w].is_signer;
                                    assert(w == i);
                                }
                                if any_writable(before, k, i + 1) {
                                    let w = choose|w: int| 0 <= w < i + 1 && before[w].pubkey@ == k && #[trigger] before[w].is_writable;
                                    assert(w == i);
                                }
                                assert(meta.is_signer ==> any_signer(before, k, i + 1));
                                assert(meta.is_writable ==> any_writable(before, k, i + 1));
                            } else {
                                assert(before[j].pubkey@ != k);
                                if any_signer(before, before[j].pubkey@, i + 1) {
                                    let w = choose|w: int| 0 <= w < i + 1 && before[w].pubkey@ == before[j].pubkey@ && #[trigger] before[w].is_signer;
                                    assert(any_signer(before, before[j].pubkey@, i as int));
                                }
                                if any_writable(before, before[j].pubkey@, i + 1) {
                                    let w = choose|w: int| 0 <= w < i + 1 && before[w].pubkey@ == before[j].pubkey@ && #[trigger] before[w].is_writable;
                                    assert(any_writable(before, before[j].pubkey@, i as int));
                                }
                            }
                        }
                    }
                    assert forall|kk: Seq<u8>| #[trigger] dedup_ixs@.contains_key(kk) implies first_index_of(next, kk, dedup_ixs@[kk] as int) by {
                        if kk != k {
                            assert(first_index_of(prefix, kk, dedup_ixs@[kk] as int));
                        }
                    }
                    assert forall|j: int| 0 <= j < next.len() implies dedup_ixs@.contains_key(#[trigger] next[j].pubkey@) by {
                        if j < i {
                            assert(next[j] == prefix[j]);
                        }
                    }
                }
            },
        }
        i = i + 1;
    }
    proof {
        assert(before.take(n as int) =~= before);
        lemma_dedup_of_merged(before, instruction_account_metas@, dedup_ixs@);
    }
    dedup_ixs
}

/// Merging flags keeps every key in its place, so the positions of first
/// occurrences stay those of the accounts after the merge.
pub proof fn lemma_dedup_of_merged(orig: Seq<AccountMeta>, merged: Seq<AccountMeta>, dedup: Map<Seq<u8>, usize>)
    requires
        dedup_of(dedup, orig),
        flags_merged(orig, merged, orig.len() as int),
    ensures
        dedup_of(dedup, merged),
{
    assert forall|k: Seq<u8>| #[trigger] dedup.contains_key(k) implies first_index_of(merged, k, dedup[k] as int) by {
        let p = dedup[k] as int;
        assert(first_index_of(orig, k, p));
        assert(merged[p].pubkey == orig[p].pubkey);
        assert forall|j: int| 0 <= j < p implies merged[j].pubkey@ != k by {
            assert(merged[j].pubkey == orig[j].pubkey);
        }
    }
    assert forall|i: int| 0 <= i < merged.len() implies dedup.contains_key(#[trigger] merged[i].pubkey@) by {
        assert(merged[i].pubkey == orig[i].pubkey);
    }
}

/// Writes the account buffer byte by byte.
pub struct SerializerCustomLight {
    buffer: Vec<u8>,
}

impl View for SerializerCustomLight {
    type V = Seq<u8>;

    closed spec fn view(&self) -> Seq<u8> {
        self.buffer@
    }
}

impl SerializerCustomLight {
    /// An empty buffer with room for `size` bytes.
    pub fn new(size: usize) -> (r: SerializerCustomLight)
        ensures
            r@ == Seq::<u8>::empty(),
    {
        SerializerCustomLight { buffer: Vec::with_capacity(size) }
    }

    /// Appends `num` copies of `value`.
    pub fn fill_write(&mut self, num: usize, value: u8)
        ensures
            final(self)@ == old(self)@ + Seq::new(num as nat, |i: int| value),
    {
        let mut k: usize = 0;
        while k < num
            invariant
                0 <= k <= num,
                self@ == old(self)@ + Seq::new(k as nat, |i: int| value),
            decreases num - k,
        {
            self.buffer.push(value);
            proof {
                assert(self@ =~= old(self)@ + Seq::new((k + 1) as nat, |i: int| value));
            }
            k = k + 1;
        }
    }

    /// Appends a byte.
    pub fn write_u8(&mut self, value: u8)
        ensures
            final(self)@ == old(self)@.push(value),
    {
        self.buffer.push(value);
    }

    /// Appends a number as 8 bytes, least significant first.
    pub fn write_u64(&mut self, value: u64)
        ensures
            final(self)@ == old(self)@ + le_bytes(value as nat, 8),
    {
        let mut v: u64 = value;
        let mut k: usize = 0;
        while k < 8
            invariant
                0 <= k <= 8,
                self@ + le_bytes(v as nat, (8 - k) as nat) == old(self)@ + le_bytes(value as nat, 8),
            decreases 8 - k,
        {
            let ghost before = self@;
            let b = (v % 256) as u8;
            self.buffer.push(b);
            proof {
                assert(le_bytes(v as nat, (8 - k) as nat) == seq![b] + le_bytes((v / 256) as nat, (8 - k - 1) as nat));
                assert(before + le_bytes(v as nat, (8 - k) as nat) =~= self@ + le_bytes((v / 256) as nat, (8 - k - 1) as nat));
            }
            v = v / 256;
            k = k + 1;
        }
        proof {
            assert(self@ + le_bytes(v as nat, 0) =~= self@);
        }
    }

    /// Appends the bytes.
    pub fn write_all(&mut self, value: &[u8])
        ensures
            final(self)@ == old(self)@ + value@,
    {
        let mut k: usize = 0;
        while k < value.len()
            invariant
                0 <= k <= value@.len(),
                self@ == old(self)@ + value@.take(k as int),
            decreases value@.len() - k,
        {
            self.buffer.push(value[k]);
            proof {
                assert(self@ =~= old(self)@ + value@.take(k + 1));
            }
            k = k + 1;
        }
        proof {
            assert(value@.take(value@.len() as int) =~= value@);
        }
    }

    /// Appends an account's data, then zeros: room for the program to grow
    /// the data, and padding to the next multiple of 8.
    pub fn write_account_custom(&mut self, account: &TridentAccount)
        ensures
            final(self)@ == old(self)@ + account.data@ + zeros(
                (MAX_PERMITTED_DATA_INCREASE + align_pad(account.data@.len() as int)) as nat,
            ),
    {
        self.write_all(account.data.as_slice());
        let len = account.data.len();
        let align_offset = (8 - len % 8) % 8;
        self.fill_write(MAX_PERMITTED_DATA_INCREASE + align_offset, 0);
        proof {
            assert(Seq::new((MAX_PERMITTED_DATA_INCREASE + align_offset) as nat, |i: int| 0u8) =~= zeros(
                (MAX_PERMITTED_DATA_INCREASE + align_pad(len as int)) as nat,
            ));
        }
    }

    /// Appends the entry of the first occurrence of an account.
    pub fn write_account_entry(&mut self, meta: &AccountMeta, account: &TridentAccount)
        ensures
            final(self)@ == old(self)@ + account_entry(*meta, account@),
    {
        self.write_u8(NON_DUP_MARKER);
        self.write_u8(if meta.is_signer { 1 } else { 0 });
        self.write_u8(if meta.is_writable { 1 } else { 0 });
        self.write_u8(if account.executable { 1 } else { 0 });
        self.write_all(&[0u8, 0, 0, 0]);
        self.write_all(&meta.pubkey.bytes);
        self.write_all(&account.owner.bytes);
        self.write_u64(account.lamports);
        self.write_u64(account.data.len() as u64);
        self.write_account_custom(account);
        self.write_u64(account.rent_epoch);
        proof {
            assert(final(self)@ =~= old(self)@ + account_entry(*meta, account@));
        }
    }

    /// Appends the entry of a repeated account.
    pub fn write_duplicate_entry(&mut self, position: usize)
        ensures
            final(self)@ == old(self)@ + duplicate_entry(position),
    {
        self.write_u8((position % 256) as u8);
        self.write_all(&[0u8, 0, 0, 0, 0, 0, 0]);
        proof {
            assert(final(self)@ =~= old(self)@ + duplicate_entry(position));
        }
    }

    /// The written bytes.
    pub fn finish(self) -> (r: Vec<u8>)
        ensures
            r@ == self@,
    {
        self.buffer
    }
}

/// An account that may be missing, by its view; a missing account reads
/// as the empty account.
pub open spec fn opt_account(o: Option<&TridentAccount>) -> TridentAccountView {
    match o {
        Some(a) => a@,
        None => empty_account(),
    }
}

/// The buffer entry of the first occurrence of an account: flags, key,
/// owner, balance, data length, data, room to grow and padding, rent epoch.
pub open spec fn account_entry(meta: AccountMeta, acct: TridentAccountView) -> Seq<u8> {
    seq![NON_DUP_MARKER, bool_byte(meta.is_signer), bool_byte(meta.is_writable), bool_byte(acct.executable), 0u8, 0u8, 0u8, 0u8]
        + meta.pubkey@ + acct.owner + le_bytes(acct.lamports as nat, 8) + le_bytes(acct.data.len(), 8)
        + acct.data + zeros((MAX_PERMITTED_DATA_INCREASE + align_pad(acct.data.len() as int)) as nat)
        + le_bytes(acct.rent_epoch as nat, 8)
}

/// The buffer entry of a repeated account: the position of its first
/// occurrence (its lowest byte), then seven bytes of padding.
pub open spec fn duplicate_entry(position: usize) -> Seq<u8> {
    seq![(position % 256) as u8, 0u8, 0u8, 0u8, 0u8, 0u8, 0u8, 0u8]
}

/// The entries of the first `i` accounts.
pub open spec fn entries_prefix(
    metas: Seq<AccountMeta>,
    dedup: Map<Seq<u8>, usize>,
    accts: Seq<Option<&TridentAccount>>,
    i: nat,
) -> Seq<u8>
    decreases i,
{
    if i == 0 {
        Seq::empty()
    } else {
        let j = (i - 1) as int;
        let pos = dedup[metas[j].pubkey@];
        entries_prefix(metas, dedup, accts, (i - 1) as nat) + if pos as int == j {
            account_entry(metas[j], opt_account(accts[j]))
        } else {
            duplicate_entry(pos)
        }
    }
}

/// Number of entries written: one per account that has a stored
/// counterpart in the list.
pub open spec fn entry_count(metas: Seq<AccountMeta>, accts: Seq<Option<&TridentAccount>>) -> nat {
    if metas.len() <= accts.len() { metas.len() } else { accts.len() }
}

/// The whole buffer: the number of accounts, then their entries.
pub open spec fn serialized_accounts(
    metas: Seq<AccountMeta>,
    dedup: Map<Seq<u8>, usize>,
    accts: Seq<Option<&TridentAccount>>,
) -> Seq<u8> {
    le_bytes(metas.len(), 8) + entries_prefix(metas, dedup, accts, entry_count(metas, accts))
}

/// Writes the accounts of an instruction for its program: the number of
/// accounts, then for each account either its full entry (first
/// occurrence) or the position of its first occurrence.
pub fn serialize_accounts_custom(
    instruction: &Instruction,
    de_duplicate_accounts: &KeyedMap<Pubkey, usize>,
    trident_accounts: &[Option<&TridentAccount>],
) -> (r: Vec<u8>)
    requires
        dedup_of(de_duplicate_accounts@, instruction.accounts@),
    ensures
        r@ == serialized_accounts(instruction.accounts@, de_duplicate_accounts@, trident_accounts@),
{
    let ghost metas = instruction.accounts@;
    let ghost dedup = de_duplicate_accounts@;
    let ghost accts = trident_accounts@;
    let mut s = SerializerCustomLight::new(8);
    s.write_u64(instruction.accounts.len() as u64);
    let n = if instruction.accounts.len() <= trident_accounts.len() {
        instruction.accounts.len()
    } else {
        trident_accounts.len()
    };
    let mut i: usize = 0;
    while i < n
        invariant
            0 <= i <= n,
            n == entry_count(metas, accts),
            metas == instruction.accounts@,
            accts == trident_accounts@,
            dedup == de_duplicate_accounts@,
            dedup_of(dedup, metas),
            s@ == le_bytes(metas.len(), 8) + entries_prefix(metas, dedup, accts, i as nat),
        decreases n - i,
    {
        let meta = &instruction.accounts[i];
        let position = match de_duplicate_accounts.get(&meta.pubkey) {
            Some(p) => *p,
            None => {
                proof {
                    assert(dedup.contains_key(metas[i as int].pubkey@));
                }
                0
            },
        };
        let ghost before = s@;
        if i == position {
            match trident_accounts[i] {
                Some(a) => s.write_account_entry(meta, a),
                None => {
                    let default_account = TridentAccount::default();
                    s.write_account_entry(meta, &default_account);
                },
            }
        } else {
            s.write_duplicate_entry(position);
        }
        proof {
            assert(entries_prefix(metas, dedup, accts, (i + 1) as nat) == entries_prefix(metas, dedup, accts, i as nat) + if dedup[metas[i as int].pubkey@] as int == i as int {
                account_entry(metas[i as int], opt_account(accts[i as int]))
            } else {
                duplicate_entry(dedup[metas[i as int].pubkey@])
            });
            assert(s@ =~= le_bytes(metas.len(), 8) + entries_prefix(metas, dedup, accts, (i + 1) as nat));
        }
        i = i + 1;
    }
    s.finish()
}

/// An account entry read back from the buffer. `offset` is where the
/// entry starts; the program's view of the account lies at fixed distances
/// from it: original data length at +4, key at +8, owner at +40, balance at
/// +72, data length at +80, data at +88.
#[derive(Clone, Copy, Debug)]
pub struct ParsedAccount {
    pub is_signer: bool,
    pub is_writable: bool,
    pub executable: bool,
    pub key: Pubkey,
    pub owner: Pubkey,
    pub lamports: u64,
    pub data_len: u64,
    pub rent_epoch: u64,
    pub offset: usize,
}

pub struct ParsedAccountView {
    pub is_signer: bool,
    pub is_writable: bool,
    pub executable: bool,
    pub key: Seq<u8>,
    pub owner: Seq<u8>,
    pub lamports: nat,
    pub data_len: nat,
    pub rent_epoch: nat,
    pub offset: int,
}

impl View for ParsedAccount {
    type V = ParsedAccountView;

    open spec fn view(&self) -> ParsedAccountView {
        ParsedAccountView {
            is_signer: self.is_signer,
            is_writable: self.is_writable,
            executable: self.executable,
            key: self.key@,
            owner: self.owner@,
            lamports: self.lamports as nat,
            data_len: self.data_len as nat,
            rent_epoch: self.rent_epoch as nat,
            offset: self.offset as int,
        }
    }
}

/// Where the field after an account's data (its rent epoch) starts, for an
/// entry at `off` with `data_len` bytes of data.
pub open spec fn rent_epoch_offset(off: int, data_len: int) -> int {
    let after = off + 88 + data_len + MAX_PERMITTED_DATA_INCREASE;
    after + align_pad(after)
}

/// Reads the entry at `off`: a full entry when its first byte is the
/// marker, else the repeat of the entry at the position that byte gives.
/// Returns the entry and where the next one starts; `None` where the
/// buffer ends too early or a repeat points past the entries read.
pub open spec fn parse_entry(buf: Seq<u8>, off: int, done: Seq<ParsedAccountView>) -> Option<(ParsedAccountView, int)> {
    if off < 0 || off >= buf.len() {
        None
    } else if buf[off] == NON_DUP_MARKER {
        if off + 88 > buf.len() {
            None
        } else {
            let data_len = le_value(buf.subrange(off + 80, off + 88));
            let rent_off = rent_epoch_offset(off, data_len as int);
            if rent_off + 8 > buf.len() {
                None
            } else {
                Some((
                    ParsedAccountView {
                        is_signer: buf[off + 1] != 0,
                        is_writable: buf[off + 2] != 0,
                        executable: buf[off + 3] != 0,
                        key: buf.subrange(off + 8, off + 40),
                        owner: buf.subrange(off + 40, off + 72),
                        lamports: le_value(buf.subrange(off + 72, off + 80)),
                        data_len,
                        rent_epoch: le_value(buf.subrange(rent_off, rent_off + 8)),
                        offset: off,
                    },
                    rent_off + 8,
                ))
            }
        }
    } else if (buf[off] as int) < done.len() {
        Some((done[buf[off] as int], off + 8))
    } else {
        None
    }
}

/// Reads `remaining` entries from `off` on, after the entries `done`.
pub open spec fn parse_entries(buf: Seq<u8>, off: int, remaining: nat, done: Seq<ParsedAccountView>) -> Option<Seq<ParsedAccountView>>
    decreases remaining,
{
    if remaining == 0 {
        Some(done)
    } else {
        match parse_entry(buf, off, done) {
            Some((a, next)) => parse_entries(buf, next, (remaining - 1) as nat, done.push(a)),
            None => None,
        }
    }
}

/// Reads the whole buffer: the number of accounts, then their entries.
pub open spec fn parse_accounts(buf: Seq<u8>) -> Option<Seq<ParsedAccountView>> {
    if buf.len() < 8 {
        None
    } else {
        parse_entries(buf, 8, le_value(buf.subrange(0, 8)), Seq::empty())
    }
}

/// Bytes stand for a number below 256 to the power of their count.
pub proof fn lemma_le_value_bound(b: Seq<u8>)
    ensures
        le_value(b) < pow256(b.len()),
    decreases b.len(),
{
    if b.len() > 0 {
        lemma_le_value_bound(b.drop_first());
    }
}

/// 256 to the power 8 is 2 to the power 64.
pub proof fn lemma_pow256_8()
    ensures
        pow256(8) == 0x1_0000_0000_0000_0000,
{
    reveal_with_fuel(pow256, 9);
}

/// Reads 8 bytes as a number, least significant first.
pub fn read_u64(buf: &Vec<u8>, off: usize) -> (r: u64)
    requires
        off + 8 <= buf@.len(),
    ensures
        r as nat == le_value(buf@.subrange(off as int, off + 8)),
{
    let n = buf.len();
    let mut v: u64 = 0;
    let mut k: usize = 8;
    while k > 0
        invariant
            0 <= k <= 8,
            n == buf@.len(),
            off + 8 <= buf@.len(),
            v as nat == le_value(buf@.subrange(off + k, off + 8)),
        decreases k,
    {
        let ghost tail = buf@.subrange(off + k, off + 8);
        let ghost longer = buf@.subrange(off + k - 1, off + 8);
        proof {
            assert(longer.drop_first() =~= tail);
            lemma_le_value_bound(tail);
            reveal_with_fuel(pow256, 9);
            assert(pow256(tail.len()) * 256 <= 0x1_0000_0000_0000_0000);
            assert(v * 256 + 255 < 0x1_0000_0000_0000_0000);
        }
        v = buf[off + k - 1] as u64 + 256 * v;
        k = k - 1;
    }
    v
}

/// Reads 32 bytes as an address.
pub fn read_pubkey(buf: &Vec<u8>, off: usize) -> (r: Pubkey)
    requires
        off + 32 <= buf@.len(),
    ensures
        r@ == buf@.subrange(off as int, off + 32),
{
    let n = buf.len();
    let mut bytes = [0u8; 32];
    let mut k: usize = 0;
    while k < 32
        invariant
            0 <= k <= 32,
            n == buf@.len(),
            off + 32 <= buf@.len(),
            forall|j: int| 0 <= j < k ==> bytes@[j] == buf@[off + j],
        decreases 32 - k,
    {
        bytes[k] = buf[off + k];
        k = k + 1;
    }
    proof {
        assert(bytes@ =~= buf@.subrange(off as int, off + 32));
    }
    Pubkey { bytes }
}

/// Reads the entry at `off` after the entries `done`; see `parse_entry`.
pub fn parse_one(buf: &Vec<u8>, off: usize, done: &Vec<ParsedAccount>) -> (r: Option<(ParsedAccount, usize)>)
    requires
        buf@.len() <= isize::MAX,
    ensures
        match r {
            Some((a, next)) => parse_entry(buf@, off as int, done@.map_values(|p: ParsedAccount| p@))
                == Some((a@, next as int)),
            None => parse_entry(buf@, off as int, done@.map_values(|p: ParsedAccount| p@)) is None,
        },
{
    let ghost views = done@.map_values(|p: ParsedAccount| p@);
    if off >= buf.len() {
        return None;
    }
    let dup_info = buf[off];
    if dup_info == NON_DUP_MARKER {
        if buf.len() - off < 88 {
            return None;
        }
        let data_len = read_u64(buf, off + 80);
        let len = buf.len();
        let after: u128 = off as u128 + 88 + data_len as u128 + MAX_PERMITTED_DATA_INCREASE as u128;
        let rent_off_wide: u128 = after + (8 - after % 8) % 8;
        if rent_off_wide + 8 > len as u128 {
            return None;
        }
        let rent_off = rent_off_wide as usize;
        let a = ParsedAccount {
            is_signer: buf[off + 1] != 0,
            is_writable: buf[off + 2] != 0,
            executable: buf[off + 3] != 0,
            key: read_pubkey(buf, off + 8),
            owner: read_pubkey(buf, off + 40),
            lamports: read_u64(buf, off + 72),
            data_len,
            rent_epoch: read_u64(buf, rent_off),
            offset: off,
        };
        Some((a, rent_off + 8))
    } else if (dup_info as usize) < done.len() {
        let a = done[dup_info as usize];
        Some((a, off + 8))
    } else {
        None
    }
}

/// The views of the entries read so far.
pub open spec fn parsed_views(done: Seq<ParsedAccount>) -> Seq<ParsedAccountView> {
    done.map_values(|p: ParsedAccount| p@)
}

/// Reads the whole buffer back into its entries; `None` where it does not
/// hold as many well-formed entries as it announces. (No allocation holds
/// more than `isize::MAX` bytes.)
pub fn parse_accounts_custom(buf: &Vec<u8>) -> (r: Option<Vec<ParsedAccount>>)
    requires
        buf@.len() <= isize::MAX,
    ensures
        match r {
            Some(v) => parse_accounts(buf@) == Some(parsed_views(v@)),
            None => parse_accounts(buf@) is None,
        },
{
    if buf.len() < 8 {
        return None;
    }
    let num_accounts = read_u64(buf, 0);
    let mut accounts: Vec<ParsedAccount> = Vec::new();
    let mut offset: usize = 8;
    let mut remaining: u64 = num_accounts;
    proof {
        assert(parsed_views(accounts@) =~= Seq::<ParsedAccountView>::empty());
    }
    while remaining > 0
        invariant
            buf@.len() <= isize::MAX,
            parse_accounts(buf@) == parse_entries(buf@, offset as int, remaining as nat, parsed_views(accounts@)),
        decreases remaining,
    {
        match parse_one(buf, offset, &accounts) {
            Some((a, next)) => {
                let ghost before = accounts@;
                accounts.push(a);
                proof {
                    assert(parsed_views(accounts@) =~= parsed_views(before).push(a@));
                }
                offset = next;
                remaining = remaining - 1;
            },
            None => {
                return None;
            },
        }
    }
    Some(accounts)
}

/// `buf` with `bytes` written over it from `at` on.
pub open spec fn write_at(buf: Seq<u8>, at: int, bytes: Seq<u8>) -> Seq<u8> {
    Seq::new(buf.len(), |i: int| if at <= i < at + bytes.len() { bytes[i - at] } else { buf[i] })
}

/// `buf` with each entry's original data length (its lowest 4 bytes)
/// written into the 4 spare bytes of the entry.
pub open spec fn with_original_lens(buf: Seq<u8>, recs: Seq<ParsedAccountView>) -> Seq<u8>
    decreases recs.len(),
{
    if recs.len() == 0 {
        buf
    } else {
        let r = recs.last();
        write_at(with_original_lens(buf, recs.drop_last()), r.offset + 4, le_bytes(r.data_len % 0x1_0000_0000, 4))
    }
}

/// Writes a 32-bit number at `at`, least significant byte first.
fn write_u32_at(buf: &mut Vec<u8>, at: usize, value: u32)
    requires
        at + 4 <= old(buf)@.len(),
    ensures
        final(buf)@ == write_at(old(buf)@, at as int, le_bytes(value as nat, 4)),
{
    let _len = buf.len();
    let b0 = (value % 256) as u8;
    let b1 = ((value / 256) % 256) as u8;
    let b2 = ((value / 65536) % 256) as u8;
    let b3 = ((value / 16777216) % 256) as u8;
    buf.set(at, b0);
    buf.set(at + 1, b1);
    buf.set(at + 2, b2);
    buf.set(at + 3, b3);
    proof {
        reveal_with_fuel(le_bytes, 5);
        let bytes = le_bytes(value as nat, 4);
        assert(value as nat / 256 / 256 == value as nat / 65536);
        assert(value as nat / 256 / 256 / 256 == value as nat / 16777216);
        assert(bytes =~= seq![b0, b1, b2, b3]);
        assert(buf@ =~= write_at(old(buf)@, at as int, bytes));
    }
}

/// Reads the buffer back into its entries, as `parse_accounts_custom`, and
/// writes into each entry its original data length, against which the
/// program's reallocations are checked.
pub fn deserialize_custom(input: &mut Vec<u8>) -> (r: Option<Vec<ParsedAccount>>)
    requires
        old(input)@.len() <= isize::MAX,
    ensures
        match r {
            Some(v) => {
                &&& parse_accounts(old(input)@) == Some(parsed_views(v@))
                &&& final(input)@ == with_original_lens(old(input)@, parsed_views(v@))
            },
            None => parse_accounts(old(input)@) is None && final(input)@ == old(input)@,
        },
{
    match parse_accounts_custom(input) {
        Some(accounts) => {
            let ghost views = parsed_views(accounts@);
            proof {
                assert(input@ == old(input)@);
                lemma_parsed_in_bounds(old(input)@);
                assert(parse_accounts(old(input)@) == Some(views));
                assert forall|j: int| #![trigger views[j]] 0 <= j < views.len() implies views[j].offset + 88 <= old(input)@.len() && views[j].offset >= 0 by {
                    let v = parse_accounts(old(input)@)->Some_0;
                    assert(v == views);
                    assert(v[j] == views[j]);
                }
                assert(input@ =~= with_original_lens(old(input)@, views.take(0)));
            }
            let mut i: usize = 0;
            while i < accounts.len()
                invariant
                    0 <= i <= accounts@.len(),
                    views == parsed_views(accounts@),
                    parse_accounts(old(input)@) == Some(views),
                    input@.len() == old(input)@.len(),
                    old(input)@.len() <= isize::MAX,
                    forall|j: int| #![trigger views[j]] 0 <= j < views.len() ==> views[j].offset + 88 <= old(input)@.len() && views[j].offset >= 0,
                    input@ == with_original_lens(old(input)@, views.take(i as int)),
                decreases accounts@.len() - i,
            {
                let a = accounts[i];
                proof {
                    assert(views[i as int] == a@);
                    assert(views.take(i + 1).drop_last() =~= views.take(i as int));
                    assert(views.take(i + 1).last() == a@);
                }
                write_u32_at(input, a.offset + 4, (a.data_len % 0x1_0000_0000) as u32);
                i = i + 1;
            }
            proof {
                assert(views.take(accounts@.len() as int) =~= views);
            }
            Some(accounts)
        },
        None => None,
    }
}

/// Every entry read from a buffer lies inside it.
pub proof fn lemma_parsed_in_bounds(buf: Seq<u8>)
    ensures
        parse_accounts(buf) matches Some(v) ==> forall|j: int| #![trigger v[j]] 0 <= j < v.len() ==> v[j].offset + 88 <= buf.len() && v[j].offset >= 0,
{
    if buf.len() >= 8 {
        lemma_parse_entries_in_bounds(buf, 8, le_value(buf.subrange(0, 8)), Seq::empty());
    }
}

/// Entries read from `off` on, after entries that lie in the buffer, lie
/// in the buffer.
pub proof fn lemma_parse_entries_in_bounds(buf: Seq<u8>, off: int, remaining: nat, done: Seq<ParsedAccountView>)
    requires
        forall|j: int| #![trigger done[j]] 0 <= j < done.len() ==> done[j].offset + 88 <= buf.len() && done[j].offset >= 0,
    ensures
        parse_entries(buf, off, remaining, done) matches Some(v) ==> forall|j: int| #![trigger v[j]] 0 <= j < v.len() ==> v[j].offset + 88 <= buf.len() && v[j].offset >= 0,
    decreases remaining,
{
    if remaining > 0 {
        match parse_entry(buf, off, done) {
            Some((a, next)) => {
                let d2 = done.push(a);
                assert forall|j: int| #![trigger d2[j]] 0 <= j < d2.len() implies d2[j].offset + 88 <= buf.len() && d2[j].offset >= 0 by {
                    if j < done.len() {
                        assert(d2[j] == done[j]);
                    }
                }
                lemma_parse_entries_in_bounds(buf, next, (remaining - 1) as nat, d2);
            },
            None => {},
        }
    }
}

} // verus!

//! A set of distinct addresses that a fuzz test creates, looks up, removes,
//! and picks from at random.
use crate::derivation::{
    key_opt_view, keypair_pubkey, program_address, pubkey_of_secret, seeds_view,
    try_find_program_address,
};
use crate::pubkey::Pubkey;
use crate::random::{random_below, random_bytes_32};
use rand::rngs::StdRng;
use vstd::prelude::*;

verus! {

/// Seeds and program id from which a program derived address is found.
pub struct PdaSeeds<'a> {
    pub seeds: &'a [&'a [u8]],
    pub program_id: Pubkey,
}

impl<'a> PdaSeeds<'a> {
    /// Bundles seeds with the program id they are derived under.
    pub fn new(seeds: &'a [&'a [u8]], program_id: Pubkey) -> (r: Self)
        ensures
            r.seeds == seeds,
            r.program_id == program_id,
    {
        Self { seeds, program_id }
    }
}

/// The program derived address of the seeds, if one is found.
pub open spec fn pda_of(seeds: &[&[u8]], program_id: Pubkey) -> Option<Seq<u8>> {
    program_address(seeds_view(seeds), program_id@)
}

/// Derives the program derived address of the seeds; `None` where no bump
/// seed gives an address off the curve.
pub fn derive_pda(seeds: &[&[u8]], program_id: &Pubkey) -> (r: Option<Pubkey>)
    ensures
        key_opt_view(r) == pda_of(seeds, *program_id),
{
    try_find_program_address(seeds, program_id)
}

/// Whether the address occurs in the slice.
pub fn slice_contains(keys: &[Pubkey], key: &Pubkey) -> (r: bool)
    ensures
        r == keys@.contains(*key),
{
    let mut i: usize = 0;
    while i < keys.len()
        invariant
            0 <= i <= keys@.len(),
            forall|j: int| 0 <= j < i ==> keys@[j] != *key,
        decreases keys@.len() - i,
    {
        if keys[i].same(key) {
            assert(keys@[i as int] == *key);
            return true;
        }
        i = i + 1;
    }
    false
}

/// The sequence with the element at `i` replaced by the last one and the
/// last one dropped: what a swap-remove leaves.
pub open spec fn swap_removed<T>(s: Seq<T>, i: int) -> Seq<T> {
    s.update(i, s.last()).drop_last()
}

/// After an address is inserted it is stored, and the storage grew by one
/// exactly when it was new.
pub proof fn law_insert_then_contains(before: Seq<Pubkey>, address: Pubkey)
    ensures
        ({
            let after = if before.contains(address) { before } else { before.push(address) };
            &&& after.contains(address)
            &&& after.len() == if before.contains(address) { before.len() } else { before.len() + 1 }
        }),
{
    if !before.contains(address) {
        assert(before.push(address)[before.len() as int] == address);
    }
}

/// Inserting an address twice stores it once.
pub proof fn law_insert_idempotent(before: Seq<Pubkey>, address: Pubkey)
    ensures
        ({
            let once = if before.contains(address) { before } else { before.push(address) };
            let twice = if once.contains(address) { once } else { once.push(address) };
            twice == once
        }),
{
    law_insert_then_contains(before, address);
}

/// After an address is removed from storage without duplicates it is no
/// longer stored, the storage shrank by one, and every other address is
/// stored exactly when it was before.
pub proof fn law_remove_then_absent(before: Seq<Pubkey>, i: int)
    requires
        before.no_duplicates(),
        0 <= i < before.len(),
    ensures
        !swap_removed(before, i).contains(before[i]),
        swap_removed(before, i).len() == before.len() - 1,
        forall|b: Pubkey| b != before[i] ==> (swap_removed(before, i).contains(b) <==> before.contains(b)),
{
    let after = swap_removed(before, i);
    let last = before.len() - 1;
    assert forall|j: int| 0 <= j < after.len() implies after[j] != before[i] by {
        if j == i {
            assert(after[j] == before[last]);
        } else {
            assert(after[j] == before[j]);
        }
    }
    assert forall|b: Pubkey| b != before[i] implies (after.contains(b) <==> before.contains(b)) by {
        if before.contains(b) {
            let j = choose|j: int| 0 <= j < before.len() && before[j] == b;
            if j == last {
                assert(after[i] == b);
            } else {
                assert(after[j] == b);
            }
        }
        if after.contains(b) {
            let j = choose|j: int| 0 <= j < after.len() && after[j] == b;
            if j == i {
                assert(before[last] == b);
            } else {
                assert(before[j] == b);
            }
        }
    }
}

/// Removing an address that was just inserted as new restores the storage
/// exactly.
pub proof fn law_remove_undoes_insert(before: Seq<Pubkey>, address: Pubkey)
    requires
        !before.contains(address),
    ensures
        before.push(address)[before.len() as int] == address,
        swap_removed(before.push(address), before.len() as int) == before,
{
    assert(swap_removed(before.push(address), before.len() as int) =~= before);
}

/// Distinct addresses in storage order. Removal swaps the last address into
/// the freed place, so the order is that of insertion only until the first
/// removal.
pub struct AddressStorage {
    addresses: Vec<Pubkey>,
}

impl View for AddressStorage {
    type V = Seq<Pubkey>;

    closed spec fn view(&self) -> Seq<Pubkey> {
        self.addresses@
    }
}

impl AddressStorage {
    /// No address is stored twice.
    #[verifier::type_invariant]
    spec fn wf(self) -> bool {
        self.addresses@.no_duplicates()
    }

    fn new() -> (r: Self)
        ensures
            r@ == Seq::<Pubkey>::empty(),
    {
        Self { addresses: Vec::new() }
    }

    /// Position of the address in storage, if it is stored.
    pub fn index_of(&self, address: &Pubkey) -> (r: Option<usize>)
        ensures
            match r {
                Some(i) => i < self@.len() && self@[i as int] == *address,
                None => !self@.contains(*address),
            },
    {
        let mut i: usize = 0;
        while i < self.addresses.len()
            invariant
                0 <= i <= self.addresses@.len(),
                forall|j: int| 0 <= j < i ==> self.addresses@[j] != *address,
            decreases self.addresses@.len() - i,
        {
            if self.addresses[i].same(address) {
                return Some(i);
            }
            i = i + 1;
        }
        None
    }

    /// Stores the address unless it is already stored; tells whether it was
    /// stored now.
    pub fn insert_with_address(&mut self, address: Pubkey) -> (r: bool)
        ensures
            r == !old(self)@.contains(address),
            final(self)@ == if r { old(self)@.push(address) } else { old(self)@ },
            final(self)@.no_duplicates(),
    {
        self.insert_unique(address)
    }

    fn insert_unique(&mut self, address: Pubkey) -> (r: bool)
        ensures
            r == !old(self)@.contains(address),
            final(self)@ == if r { old(self)@.push(address) } else { old(self)@ },
            final(self)@.no_duplicates(),
    {
        proof {
            use_type_invariant(&*self);
        }
        match self.index_of(&address) {
            Some(_) => false,
            None => {
                let ghost before = self.addresses@;
                let mut addresses = Vec::new();
                std::mem::swap(&mut addresses, &mut self.addresses);
                addresses.push(address);
                proof {
                    assert forall|i: int, j: int|
                        0 <= i < addresses@.len() && 0 <= j < addresses@.len() && i != j
                        implies addresses@[i] != addresses@[j] by {
                        if i == before.len() as int {
                            assert(before.contains(addresses@[j]));
                        } else if j == before.len() as int {
                            assert(before.contains(addresses@[i]));
                        }
                    }
                }
                self.addresses = addresses;
                true
            },
        }
    }

    /// Removes the address by swapping the last address into its place;
    /// tells whether it was stored.
    pub fn remove(&mut self, address: &Pubkey) -> (r: bool)
        ensures
            r == old(self)@.contains(*address),
            r ==> exists|i: int|
                0 <= i < old(self)@.len() && old(self)@[i] == *address
                    && final(self)@ == swap_removed(old(self)@, i),
            !r ==> final(self)@ == old(self)@,
            !final(self)@.contains(*address),
            final(self)@.len() == old(self)@.len() - (if r { 1int } else { 0int }),
            forall|b: Pubkey| b != *address ==> (final(self)@.contains(b) <==> old(self)@.contains(b)),
            final(self)@.no_duplicates(),
    {
        proof {
            use_type_invariant(&*self);
        }
        match self.index_of(address) {
            Some(idx) => {
                let ghost before = self.addresses@;
                let mut addresses = Vec::new();
                std::mem::swap(&mut addresses, &mut self.addresses);
                addresses.swap_remove(idx);
                proof {
                    let after = addresses@;
                    assert(after == swap_removed(before, idx as int));
                    law_remove_then_absent(before, idx as int);
                    assert forall|i: int, j: int|
                        0 <= i < after.len() && 0 <= j < after.len() && i != j
                        implies after[i] != after[j] by {
                        let bi = if i == idx as int { before.len() - 1 } else { i };
                        let bj = if j == idx as int { before.len() - 1 } else { j };
                        assert(after[i] == before[bi]);
                        assert(after[j] == before[bj]);
                    }
                }
                self.addresses = addresses;
                true
            },
            None => false,
        }
    }

    /// Whether the address is stored.
    pub fn contains(&self, address: &Pubkey) -> (r: bool)
        ensures
            r == self@.contains(*address),
    {
        self.index_of(address).is_some()
    }

    /// A stored address picked at random; `None` when storage is empty.
    pub fn get(&self, rng: &mut StdRng) -> (r: Option<Pubkey>)
        ensures
            r is None <==> self@.len() == 0,
            r matches Some(a) ==> self@.contains(a),
    {
        if self.is_empty() {
            return None;
        }
        let accounts_num = self.addresses.len();
        let account_id = random_below(rng, accounts_num);
        Some(self.addresses[account_id])
    }

    /// A stored address picked at random among those not in
    /// `except_addresses`; `None` when every stored address is excluded
    /// (so also when storage is empty).
    pub fn get_except(&self, rng: &mut StdRng, except_addresses: &[Pubkey]) -> (r: Option<Pubkey>)
        ensures
            r is None <==> (forall|i: int|
                0 <= i < self@.len() ==> except_addresses@.contains(#[trigger] self@[i])),
            r matches Some(a) ==> self@.contains(a) && !except_addresses@.contains(a),
    {
        if self.is_empty() {
            return None;
        }
        let accounts_num = self.addresses.len();
        if except_addresses.len() >= accounts_num {
            let mut all_excluded = true;
            let mut k: usize = 0;
            while k < accounts_num
                invariant
                    accounts_num == self.addresses@.len(),
                    0 <= k <= accounts_num,
                    all_excluded == (forall|j: int|
                        0 <= j < k ==> except_addresses@.contains(#[trigger] self.addresses@[j])),
                decreases accounts_num - k,
            {
                let inside = slice_contains(except_addresses, &self.addresses[k]);
                all_excluded = all_excluded && inside;
                k = k + 1;
            }
            if all_excluded {
                return None;
            }
        }
        let mut attempt: usize = 0;
        while attempt < accounts_num
            invariant
                accounts_num == self.addresses@.len(),
                accounts_num > 0,
                0 <= attempt <= accounts_num,
            decreases accounts_num - attempt,
        {
            let account_id = random_below(rng, accounts_num);
            let candidate = self.addresses[account_id];
            if !slice_contains(except_addresses, &candidate) {
                assert(self@[account_id as int] == candidate);
                return Some(candidate);
            }
            attempt = attempt + 1;
        }
        let mut i: usize = 0;
        while i < accounts_num
            invariant
                accounts_num == self.addresses@.len(),
                0 <= i <= accounts_num,
                forall|j: int| 0 <= j < i ==> except_addresses@.contains(#[trigger] self.addresses@[j]),
            decreases accounts_num - i,
        {
            if !slice_contains(except_addresses, &self.addresses[i]) {
                assert(self@[i as int] == self.addresses@[i as int]);
                return Some(self.addresses[i]);
            }
            i = i + 1;
        }
        None
    }

    /// Whether no address is stored.
    pub fn is_empty(&self) -> (r: bool)
        ensures
            r == (self@.len() == 0),
    {
        self.addresses.len() == 0
    }

    /// Number of stored addresses.
    pub fn len(&self) -> (r: usize)
        ensures
            r == self@.len(),
    {
        self.addresses.len()
    }

    /// Creates an address and stores it unless it is already stored; returns
    /// it. With seeds whose program derived address exists, that address;
    /// otherwise the public key of a keypair with a random secret key.
    pub fn insert(&mut self, rng: &mut StdRng, seeds: Option<PdaSeeds>) -> (r: Pubkey)
        ensures
            final(self)@ == if old(self)@.contains(r) { old(self)@ } else { old(self)@.push(r) },
            final(self)@.no_duplicates(),
            match seeds {
                Some(s) => match pda_of(s.seeds, s.program_id) {
                    Some(k) => r@ == k,
                    None => exists|secret: Seq<u8>| r@ == keypair_pubkey(secret),
                },
                None => exists|secret: Seq<u8>| r@ == keypair_pubkey(secret),
            },
    {
        let address = Self::get_or_create_address(seeds, rng);
        self.insert_unique(address);
        address
    }

    fn get_or_create_address(seeds: Option<PdaSeeds>, rng: &mut StdRng) -> (r: Pubkey)
        ensures
            match seeds {
                Some(s) => match pda_of(s.seeds, s.program_id) {
                    Some(k) => r@ == k,
                    None => exists|secret: Seq<u8>| r@ == keypair_pubkey(secret),
                },
                None => exists|secret: Seq<u8>| r@ == keypair_pubkey(secret),
            },
    {
        match seeds {
            Some(seeds) => {
                match derive_pda(seeds.seeds, &seeds.program_id) {
                    Some(pubkey) => pubkey,
                    None => {
                        let secret = random_bytes_32(rng);
                        let k = pubkey_of_secret(secret);
                        assert(k@ == keypair_pubkey(secret@));
                        k
                    },
                }
            },
            None => {
                let secret = random_bytes_32(rng);
                let k = pubkey_of_secret(secret);
                assert(k@ == keypair_pubkey(secret@));
                k
            },
        }
    }
}

impl Default for AddressStorage {
    fn default() -> (r: Self)
        ensures
            r@ == Seq::<Pubkey>::empty(),
    {
        Self::new()
    }
}

} // verus!

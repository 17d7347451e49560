//! Accounts as the light client stores them, and instructions as programs
//! receive them.
use crate::pubkey::{zero_key, Pubkey};
use vstd::prelude::*;

verus! {

/// An account: balance, data, owning program, executable flag, rent epoch.
#[derive(Debug)]
pub struct TridentAccount {
    pub lamports: u64,
    pub data: Vec<u8>,
    pub owner: Pubkey,
    pub executable: bool,
    pub rent_epoch: u64,
}

pub struct TridentAccountView {
    pub lamports: u64,
    pub data: Seq<u8>,
    pub owner: Seq<u8>,
    pub executable: bool,
    pub rent_epoch: u64,
}

impl View for TridentAccount {
    type V = TridentAccountView;

    open spec fn view(&self) -> TridentAccountView {
        TridentAccountView {
            lamports: self.lamports,
            data: self.data@,
            owner: self.owner@,
            executable: self.executable,
            rent_epoch: self.rent_epoch,
        }
    }
}

/// The account a missing one reads as: no balance, no data, owned by the
/// all-zero address.
pub open spec fn empty_account() -> TridentAccountView {
    TridentAccountView { lamports: 0, data: Seq::empty(), owner: zero_key(), executable: false, rent_epoch: 0 }
}

/// `n` zero bytes.
pub open spec fn zeros(n: nat) -> Seq<u8> {
    Seq::new(n, |i: int| 0u8)
}

impl TridentAccount {
    /// An account with the balance, `space` zero bytes of data and the owner.
    pub fn new(lamports: u64, space: usize, owner: &Pubkey) -> (r: Self)
        ensures
            r@ == (TridentAccountView {
                lamports,
                data: zeros(space as nat),
                owner: owner@,
                executable: false,
                rent_epoch: 0,
            }),
    {
        let data = vec![0u8; space];
        proof {
            assert(data@ =~= zeros(space as nat));
        }
        Self { lamports, data, owner: *owner, executable: false, rent_epoch: 0 }
    }

    /// Overwrites the data with bytes of the same length.
    pub fn set_data_from_slice(&mut self, new_data: &[u8])
        requires
            new_data@.len() == old(self).data@.len(),
        ensures
            final(self)@ == (TridentAccountView { data: new_data@, ..old(self)@ }),
    {
        let mut i: usize = 0;
        while i < new_data.len()
            invariant
                0 <= i <= new_data@.len(),
                self.data@.len() == new_data@.len(),
                self.lamports == old(self).lamports,
                self.owner == old(self).owner,
                self.executable == old(self).executable,
                self.rent_epoch == old(self).rent_epoch,
                forall|j: int| 0 <= j < i ==> self.data@[j] == new_data@[j],
            decreases new_data@.len() - i,
        {
            self.data.set(i, new_data[i]);
            i = i + 1;
        }
        proof {
            assert(self.data@ =~= new_data@);
        }
    }

    /// Resizes the data: cut to `newsize` bytes, or extended with zeros.
    pub fn realloc(&mut self, newsize: usize)
        ensures
            final(self)@ == (TridentAccountView {
                data: if newsize <= old(self).data@.len() {
                    old(self).data@.subrange(0, newsize as int)
                } else {
                    old(self).data@ + zeros((newsize - old(self).data@.len()) as nat)
                },
                ..old(self)@
            }),
    {
        self.data.resize(newsize, 0u8);
        proof {
            if newsize > old(self).data@.len() {
                assert(self.data@ =~= old(self).data@ + zeros((newsize - old(self).data@.len()) as nat)) by {
                    assert(self.data@.subrange(0, old(self).data@.len() as int) == old(self).data@);
                }
            }
        }
    }
}

impl Default for TridentAccount {
    fn default() -> (r: Self)
        ensures
            r@ == empty_account(),
    {
        let r = TridentAccount { lamports: 0, data: Vec::new(), owner: Pubkey::default(), executable: false, rent_epoch: 0 };
        proof {
            assert(r@.data =~= Seq::<u8>::empty());
        }
        r
    }
}

/// An account an instruction names, with the rights it is given.
#[derive(Clone, Copy, Debug)]
pub struct AccountMeta {
    pub pubkey: Pubkey,
    pub is_signer: bool,
    pub is_writable: bool,
}

/// A call of a program: its address, the accounts it may touch, its input.
#[derive(Debug)]
pub struct Instruction {
    pub program_id: Pubkey,
    pub accounts: Vec<AccountMeta>,
    pub data: Vec<u8>,
}

} // verus!

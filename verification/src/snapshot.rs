//! Snapshots of the accounts a transaction's instructions name, taken
//! before and after the transaction runs, for invariant checks.
use crate::light::account::{empty_account, AccountMeta, TridentAccount, TridentAccountView};
use crate::light::light_client::LightClient;
use crate::pubkey::Pubkey;
use vstd::prelude::*;
use vstd::slice::slice_subrange;

verus! {

/// An account in a snapshot: its address and what the client held there.
#[derive(Debug)]
pub struct SnapshotAccount {
    pub address: Pubkey,
    pub account: TridentAccount,
}

impl View for SnapshotAccount {
    type V = (Seq<u8>, TridentAccountView);

    open spec fn view(&self) -> (Seq<u8>, TridentAccountView) {
        (self.address@, self.account@)
    }
}

impl SnapshotAccount {
    /// The account as captured.
    pub fn get_account(&self) -> (r: &TridentAccount)
        ensures
            r == &self.account,
    {
        &self.account
    }

    /// The account's address.
    pub fn pubkey(&self) -> (r: Pubkey)
        ensures
            r == self.address,
    {
        self.address
    }

    /// The account's data.
    pub fn data(&self) -> (r: &[u8])
        ensures
            r@ == self.account.data@,
    {
        self.account.data.as_slice()
    }

    /// The account's data after its 8-byte discriminator; the data must be
    /// longer than that.
    pub fn data_no_discriminator(&self) -> (r: &[u8])
        requires
            self.account.data@.len() > 8,
        ensures
            r@ == self.account.data@.subrange(8, self.account.data@.len() as int),
    {
        slice_subrange(self.account.data.as_slice(), 8, self.account.data.len())
    }

    /// The account's balance.
    pub fn lamports(&self) -> (r: u64)
        ensures
            r == self.account.lamports,
    {
        self.account.lamports
    }

    /// The account's owner.
    pub fn owner(&self) -> (r: &Pubkey)
        ensures
            *r == self.account.owner,
    {
        &self.account.owner
    }

    /// Whether the account is executable.
    pub fn executable(&self) -> (r: bool)
        ensures
            r == self.account.executable,
    {
        self.account.executable
    }

    /// The account's rent epoch.
    pub fn rent_epoch(&self) -> (r: u64)
        ensures
            r == self.account.rent_epoch,
    {
        self.account.rent_epoch
    }
}

/// Snapshot accounts by their views, per instruction.
pub open spec fn accounts_view(a: Seq<Vec<SnapshotAccount>>) -> Seq<Seq<(Seq<u8>, TridentAccountView)>> {
    a.map_values(|v: Vec<SnapshotAccount>| v@.map_values(|x: SnapshotAccount| x@))
}

/// Byte strings by their views.
pub open spec fn data_view(d: Seq<Vec<u8>>) -> Seq<Seq<u8>> {
    d.map_values(|v: Vec<u8>| v@)
}

/// The accounts and the data of each instruction of a transaction.
#[derive(Debug)]
pub struct TransactionSnapshot {
    pub accounts: Vec<Vec<SnapshotAccount>>,
    pub data: Vec<Vec<u8>>,
}

impl Default for TransactionSnapshot {
    fn default() -> (r: Self)
        ensures
            r.accounts@.len() == 0,
            r.data@.len() == 0,
    {
        TransactionSnapshot { accounts: Vec::new(), data: Vec::new() }
    }
}

impl TransactionSnapshot {
    /// A snapshot with the instructions' data and no accounts yet.
    pub fn with_data(data: Vec<Vec<u8>>) -> (r: Self)
        ensures
            r.accounts@.len() == 0,
            r.data == data,
    {
        TransactionSnapshot { accounts: Vec::new(), data }
    }

    /// Sets the captured accounts.
    pub fn add_accounts(&mut self, accounts: Vec<Vec<SnapshotAccount>>)
        ensures
            final(self).accounts == accounts,
            final(self).data == old(self).data,
    {
        self.accounts = accounts;
    }

    /// The accounts of instruction `instruction_index`, which must exist.
    pub fn get_accounts_at(&self, instruction_index: usize) -> (r: &[SnapshotAccount])
        requires
            instruction_index < self.accounts@.len(),
        ensures
            r@ == self.accounts@[instruction_index as int]@,
    {
        self.accounts[instruction_index].as_slice()
    }

    /// The data of instruction `instruction_index`, which must exist.
    pub fn get_data_at(&self, instruction_index: usize) -> (r: &[u8])
        requires
            instruction_index < self.data@.len(),
        ensures
            r@ == self.data@[instruction_index as int]@,
    {
        self.data[instruction_index].as_slice()
    }
}

/// What the client reads at an address: the stored account, or the empty
/// account where none is stored.
pub open spec fn stored_or_empty(storage: Map<Seq<u8>, TridentAccountView>, k: Seq<u8>) -> TridentAccountView {
    if storage.contains_key(k) {
        storage[k]
    } else {
        empty_account()
    }
}

/// The accounts each instruction names, read from the storage.
pub open spec fn captured(storage: Map<Seq<u8>, TridentAccountView>, metas: Seq<Vec<AccountMeta>>) -> Seq<Seq<(Seq<u8>, TridentAccountView)>> {
    metas.map_values(|ms: Vec<AccountMeta>| ms@.map_values(|m: AccountMeta| (m.pubkey@, stored_or_empty(storage, m.pubkey@))))
}

/// A capture has one row per instruction and one entry per account the
/// instruction names, in order: the account's address with what the
/// client stores there, or the empty account where it stores nothing.
pub proof fn law_captured(storage: Map<Seq<u8>, TridentAccountView>, metas: Seq<Vec<AccountMeta>>, i: int, j: int)
    requires
        0 <= i < metas.len(),
        0 <= j < metas[i]@.len(),
    ensures
        ({
            let c = captured(storage, metas);
            let key = metas[i]@[j].pubkey@;
            &&& c.len() == metas.len()
            &&& c[i].len() == metas[i]@.len()
            &&& c[i][j].0 == key
            &&& storage.contains_key(key) ==> c[i][j].1 == storage[key]
            &&& !storage.contains_key(key) ==> c[i][j].1 == empty_account()
        }),
{
}

/// A copy of a byte string.
fn copy_bytes(v: &Vec<u8>) -> (r: Vec<u8>)
    ensures
        r@ == v@,
{
    v.clone()
}

/// A transaction's snapshots before and after it runs, and the accounts
/// each of its instructions names.
#[derive(Debug)]
pub struct Snapshot {
    pub before: TransactionSnapshot,
    pub after: TransactionSnapshot,
    pub metas: Vec<Vec<AccountMeta>>,
}

impl Snapshot {
    /// Snapshots holding the instructions' data, for the accounts `metas`
    /// names.
    pub fn new(metas: &[Vec<AccountMeta>], data: Vec<Vec<u8>>) -> (r: Snapshot)
        ensures
            r.metas@.len() == metas@.len(),
            forall|i: int| 0 <= i < metas@.len() ==> (#[trigger] r.metas@[i])@ == metas@[i]@,
            data_view(r.before.data@) == data_view(data@),
            data_view(r.after.data@) == data_view(data@),
            r.before.accounts@.len() == 0,
            r.after.accounts@.len() == 0,
    {
        let mut data_copy: Vec<Vec<u8>> = Vec::new();
        let mut i: usize = 0;
        while i < data.len()
            invariant
                0 <= i <= data@.len(),
                data_copy@.len() == i,
                forall|j: int| 0 <= j < i ==> (#[trigger] data_copy@[j])@ == data@[j]@,
            decreases data@.len() - i,
        {
            data_copy.push(copy_bytes(&data[i]));
            i = i + 1;
        }
        proof {
            assert(data_view(data_copy@) =~= data_view(data@));
        }
        let mut metas_copy: Vec<Vec<AccountMeta>> = Vec::new();
        let mut k: usize = 0;
        while k < metas.len()
            invariant
                0 <= k <= metas@.len(),
                metas_copy@.len() == k,
                forall|j: int| 0 <= j < k ==> (#[trigger] metas_copy@[j])@ == metas@[j]@,
            decreases metas@.len() - k,
        {
            metas_copy.push(metas[k].clone());
            k = k + 1;
        }
        Snapshot {
            before: TransactionSnapshot::with_data(data_copy),
            after: TransactionSnapshot::with_data(data),
            metas: metas_copy,
        }
    }

    /// The accounts each instruction names, as the client holds them now; a
    /// missing account reads as the empty account.
    pub fn capture(&self, client: &LightClient) -> (r: Vec<Vec<SnapshotAccount>>)
        ensures
            accounts_view(r@) == captured(client.account_storage@, self.metas@),
    {
        let ghost storage = client.account_storage@;
        let mut out: Vec<Vec<SnapshotAccount>> = Vec::new();
        let mut i: usize = 0;
        while i < self.metas.len()
            invariant
                0 <= i <= self.metas@.len(),
                storage == client.account_storage@,
                out@.len() == i,
                forall|j: int| 0 <= j < i ==> (#[trigger] accounts_view(out@)[j]) == captured(storage, self.metas@)[j],
            decreases self.metas@.len() - i,
        {
            let ms = &self.metas[i];
            let mut row: Vec<SnapshotAccount> = Vec::new();
            let mut k: usize = 0;
            while k < ms.len()
                invariant
                    0 <= k <= ms@.len(),
                    storage == client.account_storage@,
                    row@.len() == k,
                    forall|j: int| 0 <= j < k ==> (#[trigger] row@[j])@ == (ms@[j].pubkey@, stored_or_empty(storage, ms@[j].pubkey@)),
                decreases ms@.len() - k,
            {
                let address = ms[k].pubkey;
                let account = match client.get_account(&address) {
                    Some(a) => a,
                    None => TridentAccount::default(),
                };
                row.push(SnapshotAccount { address, account });
                k = k + 1;
            }
            let ghost before = out@;
            out.push(row);
            proof {
                assert(row@.map_values(|x: SnapshotAccount| x@) =~= captured(storage, self.metas@)[i as int]);
                assert forall|j: int| 0 <= j <= i implies (#[trigger] accounts_view(out@)[j]) == captured(storage, self.metas@)[j] by {
                    if j < i {
                        assert(out@[j] == before[j]);
                        assert(accounts_view(before)[j] == captured(storage, self.metas@)[j]);
                    }
                }
            }
            i = i + 1;
        }
        proof {
            assert(accounts_view(out@) =~= captured(client.account_storage@, self.metas@));
        }
        out
    }

    /// Captures the accounts before the transaction runs.
    pub fn capture_before(&mut self, client: &LightClient)
        ensures
            accounts_view(final(self).before.accounts@) == captured(client.account_storage@, old(self).metas@),
            final(self).before.data == old(self).before.data,
            final(self).after == old(self).after,
            final(self).metas == old(self).metas,
    {
        let accounts = self.capture(client);
        self.before.add_accounts(accounts);
    }

    /// Captures the accounts after the transaction ran.
    pub fn capture_after(&mut self, client: &LightClient)
        ensures
            accounts_view(final(self).after.accounts@) == captured(client.account_storage@, old(self).metas@),
            final(self).after.data == old(self).after.data,
            final(self).before == old(self).before,
            final(self).metas == old(self).metas,
    {
        let accounts = self.capture(client);
        self.after.add_accounts(accounts);
    }

    /// The snapshot taken before the transaction.
    pub fn get_before(&self) -> (r: &TransactionSnapshot)
        ensures
            r == &self.before,
    {
        &self.before
    }

    /// The snapshot taken after the transaction.
    pub fn get_after(&self) -> (r: &TransactionSnapshot)
        ensures
            r == &self.after,
    {
        &self.after
    }

    /// Both snapshots, before and after.
    pub fn get_snapshot(&self) -> (r: (&TransactionSnapshot, &TransactionSnapshot))
        ensures
            r.0 == &self.before,
            r.1 == &self.after,
    {
        (self.get_before(), self.get_after())
    }
}

} // verus!

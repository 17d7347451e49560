//! The instructions of one fuzzing iteration: transactions run first, the
//! fuzzed transactions, and transactions run last, walked in that order.
use vstd::prelude::*;
use vstd::slice::slice_subrange;

verus! {

/// The instructions of one transaction.
#[derive(Debug)]
pub struct TransactionInstructions<T> {
    pub instructions: Vec<T>,
}

impl<T> TransactionInstructions<T> {
    /// A transaction of one instruction.
    pub fn from(value: T) -> (r: Self)
        ensures
            r.instructions@ == seq![value],
    {
        let mut instructions = Vec::new();
        instructions.push(value);
        TransactionInstructions { instructions }
    }
}

/// The transactions of a fuzzing iteration and the accounts they use.
#[derive(Debug)]
pub struct FuzzData<T, U> {
    pub pre_ixs: Vec<TransactionInstructions<T>>,
    pub ixs: Vec<TransactionInstructions<T>>,
    pub post_ixs: Vec<TransactionInstructions<T>>,
    pub accounts: U,
}

/// Walks three lists one after another.
pub struct FuzzDataIterator<'a, T> {
    pre_ixs_iter: &'a [T],
    ixs_iter: &'a [T],
    post_ixs_iter: &'a [T],
}

impl<'a, T> FuzzDataIterator<'a, T> {
    /// Items still to come, in order: what is left of the first list, then
    /// of the second, then of the third.
    pub closed spec fn remaining(&self) -> Seq<T> {
        self.pre_ixs_iter@ + self.ixs_iter@ + self.post_ixs_iter@
    }

    /// The next item, if any.
    pub fn next(&mut self) -> (r: Option<&'a T>)
        ensures
            old(self).remaining().len() == 0 ==> r is None && final(self).remaining() == old(self).remaining(),
            old(self).remaining().len() > 0 ==> r == Some(&old(self).remaining()[0]) && final(self).remaining()
                == old(self).remaining().drop_first(),
    {
        if self.pre_ixs_iter.len() > 0 {
            let r = &self.pre_ixs_iter[0];
            self.pre_ixs_iter = slice_subrange(self.pre_ixs_iter, 1, self.pre_ixs_iter.len());
            proof {
                assert(self.remaining() =~= old(self).remaining().drop_first());
            }
            Some(r)
        } else if self.ixs_iter.len() > 0 {
            let r = &self.ixs_iter[0];
            self.ixs_iter = slice_subrange(self.ixs_iter, 1, self.ixs_iter.len());
            proof {
                assert(self.remaining() =~= old(self).remaining().drop_first());
            }
            Some(r)
        } else if self.post_ixs_iter.len() > 0 {
            let r = &self.post_ixs_iter[0];
            self.post_ixs_iter = slice_subrange(self.post_ixs_iter, 1, self.post_ixs_iter.len());
            proof {
                assert(self.remaining() =~= old(self).remaining().drop_first());
            }
            Some(r)
        } else {
            None
        }
    }
}

impl<T, U> FuzzData<T, U> {
    /// Walks the transactions: those run first, the fuzzed ones, those run
    /// last.
    pub fn iter(&self) -> (r: FuzzDataIterator<'_, TransactionInstructions<T>>)
        ensures
            r.remaining() == self.pre_ixs@ + self.ixs@ + self.post_ixs@,
    {
        let r = FuzzDataIterator {
            pre_ixs_iter: self.pre_ixs.as_slice(),
            ixs_iter: self.ixs.as_slice(),
            post_ixs_iter: self.post_ixs.as_slice(),
        };
        proof {
            assert(r.remaining() =~= self.pre_ixs@ + self.ixs@ + self.post_ixs@);
        }
        r
    }
}

/// Why the fuzz data of an iteration could not be built: the fuzzer's
/// input ran out.
#[derive(Clone, Copy, Debug, PartialEq, Eq, Structural)]
pub enum BuildError {
    NotEnoughData,
}

/// The fuzzed transactions from the decoded instructions: one transaction
/// per instruction, in their order; refused when there is none, so that
/// every iteration runs at least one fuzzed instruction.
pub fn transactions_of<T>(v: Vec<T>) -> (r: Result<Vec<TransactionInstructions<T>>, BuildError>)
    ensures
        r is Err <==> v@.len() == 0,
        r matches Err(e) ==> e == BuildError::NotEnoughData,
        r matches Ok(t) ==> t@.len() == v@.len() && forall|i: int| 0 <= i < v@.len() ==> (#[trigger] t@[i]).instructions@ == seq![v@[i]],
{
    if v.len() == 0 {
        return Err(BuildError::NotEnoughData);
    }
    let ghost all = v@;
    let mut rest = v;
    let mut out: Vec<TransactionInstructions<T>> = Vec::new();
    while rest.len() > 0
        invariant
            rest@.len() + out@.len() == all.len(),
            rest@ == all.subrange(0, rest@.len() as int),
            forall|i: int| 0 <= i < out@.len() ==> (#[trigger] out@[i]).instructions@ == seq![all[rest@.len() + i]],
        decreases rest@.len(),
    {
        let ghost before = out@;
        let x = rest.pop().unwrap();
        out.insert(0, TransactionInstructions::from(x));
        proof {
            assert forall|i: int| 0 <= i < out@.len() implies (#[trigger] out@[i]).instructions@ == seq![all[rest@.len() + i]] by {
                if i > 0 {
                    assert(out@[i] == before[i - 1]);
                }
            }
        }
    }
    Ok(out)
}

/// The fuzz data of an iteration from the transactions decoded to run
/// first, fuzzed and run last, with the accounts it starts from; the first
/// of the three that failed gives the error.
pub fn build_ix_fuzz_data<T, V>(
    pre_ixs: Result<Vec<TransactionInstructions<T>>, BuildError>,
    ixs: Result<Vec<TransactionInstructions<T>>, BuildError>,
    post_ixs: Result<Vec<TransactionInstructions<T>>, BuildError>,
    accounts: V,
) -> (r: Result<FuzzData<T, V>, BuildError>)
    ensures
        r is Ok <==> pre_ixs is Ok && ixs is Ok && post_ixs is Ok,
        pre_ixs matches Err(e) ==> r == Err::<FuzzData<T, V>, BuildError>(e),
        pre_ixs is Ok ==> (ixs matches Err(e) ==> r == Err::<FuzzData<T, V>, BuildError>(e)),
        pre_ixs is Ok && ixs is Ok ==> (post_ixs matches Err(e) ==> r == Err::<FuzzData<T, V>, BuildError>(e)),
        r matches Ok(d) ==> {
            &&& pre_ixs matches Ok(p) && d.pre_ixs == p
            &&& ixs matches Ok(x) && d.ixs == x
            &&& post_ixs matches Ok(q) && d.post_ixs == q
            &&& d.accounts == accounts
        },
{
    let pre_ixs = match pre_ixs {
        Ok(p) => p,
        Err(e) => return Err(e),
    };
    let ixs = match ixs {
        Ok(x) => x,
        Err(e) => return Err(e),
    };
    let post_ixs = match post_ixs {
        Ok(q) => q,
        Err(e) => return Err(e),
    };
    Ok(FuzzData { pre_ixs, ixs, post_ixs, accounts })
}

} // verus!

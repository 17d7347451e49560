//! The program reads back what the light client wrote: parsing the
//! serialized account buffer gives, for each account of the instruction,
//! its flags, key and stored state, and for a repeated account the entry of
//! its first occurrence.
use crate::light::account::{zeros, AccountMeta, TridentAccount, TridentAccountView};
use crate::light::serialization_light::{
    account_entry, align_pad, dedup_of, duplicate_entry, entries_prefix, entry_count, first_index_of, le_bytes,
    lemma_le_roundtrip, lemma_pow256_8, opt_account, parse_accounts, parse_entries, parse_entry, rent_epoch_offset,
    serialized_accounts, ParsedAccountView, MAX_PERMITTED_DATA_INCREASE, NON_DUP_MARKER, flags_merged, any_signer,
    any_writable, lemma_dedup_of_merged,
};
use vstd::prelude::*;

verus! {

/// The buffer entry of account `j`.
pub open spec fn entry_of(
    metas: Seq<AccountMeta>,
    dedup: Map<Seq<u8>, usize>,
    accts: Seq<Option<&TridentAccount>>,
    j: int,
) -> Seq<u8> {
    let pos = dedup[metas[j].pubkey@];
    if pos as int == j {
        account_entry(metas[j], opt_account(accts[j]))
    } else {
        duplicate_entry(pos)
    }
}

/// Where the entry of account `i` starts in the buffer.
pub open spec fn entry_offset(
    metas: Seq<AccountMeta>,
    dedup: Map<Seq<u8>, usize>,
    accts: Seq<Option<&TridentAccount>>,
    i: nat,
) -> int {
    8 + entries_prefix(metas, dedup, accts, i).len() as int
}

/// What the program reads for the first `i` accounts: the first occurrence
/// of an account gives its flags, key and stored state; a repeat gives the
/// entry of the first occurrence.
pub open spec fn expected_entries(
    metas: Seq<AccountMeta>,
    dedup: Map<Seq<u8>, usize>,
    accts: Seq<Option<&TridentAccount>>,
    i: nat,
) -> Seq<ParsedAccountView>
    decreases i,
{
    if i == 0 {
        Seq::empty()
    } else {
        let j = (i - 1) as int;
        let prev = expected_entries(metas, dedup, accts, (i - 1) as nat);
        let pos = dedup[metas[j].pubkey@];
        let acct = opt_account(accts[j]);
        prev.push(
            if pos as int == j {
                ParsedAccountView {
                    is_signer: metas[j].is_signer,
                    is_writable: metas[j].is_writable,
                    executable: acct.executable,
                    key: metas[j].pubkey@,
                    owner: acct.owner,
                    lamports: acct.lamports as nat,
                    data_len: acct.data.len(),
                    rent_epoch: acct.rent_epoch as nat,
                    offset: entry_offset(metas, dedup, accts, (i - 1) as nat),
                }
            } else {
                prev[pos as int]
            },
        )
    }
}

/// The accounts can be written and read back: the map is the
/// de-duplication of the accounts, each has a stored counterpart, positions
/// fit a byte, data lengths fit 64 bits.
pub open spec fn roundtrip_ready(
    metas: Seq<AccountMeta>,
    dedup: Map<Seq<u8>, usize>,
    accts: Seq<Option<&TridentAccount>>,
) -> bool {
    &&& dedup_of(dedup, metas)
    &&& metas.len() == accts.len()
    &&& metas.len() <= 256
    &&& forall|i: int| 0 <= i < accts.len() ==> (#[trigger] opt_account(accts[i])).data.len() < 0x1_0000_0000_0000_0000
}

proof fn lemma_key_len(metas: Seq<AccountMeta>, accts: Seq<Option<&TridentAccount>>, j: int)
    requires
        0 <= j < metas.len(),
        j < accts.len(),
    ensures
        metas[j].pubkey@.len() == 32,
        opt_account(accts[j]).owner.len() == 32,
{
    broadcast use vstd::array::group_array_axioms;
    match accts[j] {
        Some(a) => {},
        None => {
            assert(crate::pubkey::zero_key().len() == 32);
        },
    }
}

/// Entry lengths are multiples of 8, and the full entry has its layout.
proof fn lemma_entry_len(metas: Seq<AccountMeta>, dedup: Map<Seq<u8>, usize>, accts: Seq<Option<&TridentAccount>>, j: int)
    requires
        0 <= j < metas.len(),
        j < accts.len(),
        dedup.contains_key(metas[j].pubkey@),
    ensures
        entry_of(metas, dedup, accts, j).len() % 8 == 0,
        entry_of(metas, dedup, accts, j).len() >= 8,
{
    lemma_key_len(metas, accts, j);
    let acct = opt_account(accts[j]);
    let d = acct.data.len() as int;
    lemma_le_len(acct.lamports as nat, 8);
    lemma_le_len(d as nat, 8);
    lemma_le_len(acct.rent_epoch as nat, 8);
    assert((d + align_pad(d)) % 8 == 0);
}

/// Little-endian bytes have the count asked for.
pub proof fn lemma_le_len(x: nat, n: nat)
    ensures
        le_bytes(x, n).len() == n,
    decreases n,
{
    if n > 0 {
        lemma_le_len(x / 256, (n - 1) as nat);
    }
}

/// Earlier entries are a prefix of later ones; all lengths are multiples
/// of 8.
proof fn lemma_prefix(metas: Seq<AccountMeta>, dedup: Map<Seq<u8>, usize>, accts: Seq<Option<&TridentAccount>>, i: nat, j: nat)
    requires
        i <= j <= metas.len(),
        j <= accts.len(),
        dedup_of(dedup, metas),
    ensures
        entries_prefix(metas, dedup, accts, j).subrange(0, entries_prefix(metas, dedup, accts, i).len() as int)
            == entries_prefix(metas, dedup, accts, i),
        entries_prefix(metas, dedup, accts, i).len() <= entries_prefix(metas, dedup, accts, j).len(),
        entries_prefix(metas, dedup, accts, j).len() % 8 == 0,
    decreases j,
{
    if j == 0 {
        assert(entries_prefix(metas, dedup, accts, 0) =~= Seq::<u8>::empty());
    } else {
        let i2: nat = if i < j { i } else { (j - 1) as nat };
        lemma_prefix(metas, dedup, accts, i2, (j - 1) as nat);
        let pj = entries_prefix(metas, dedup, accts, (j - 1) as nat);
        let pi = entries_prefix(metas, dedup, accts, i);
        assert(dedup.contains_key(metas[j - 1].pubkey@));
        lemma_entry_len(metas, dedup, accts, j - 1);
        assert(entries_prefix(metas, dedup, accts, j) == pj + entry_of(metas, dedup, accts, j - 1));
        if i < j {
            assert((pj + entry_of(metas, dedup, accts, j - 1)).subrange(0, pi.len() as int) =~= pj.subrange(0, pi.len() as int));
        } else {
            assert(entries_prefix(metas, dedup, accts, j).subrange(0, pi.len() as int) =~= pi);
        }
    }
}

/// Padding after a field is the same counted from the field's own length
/// or from an absolute position that is the field's start plus a multiple
/// of 8.
proof fn lemma_pad_shift(base: int, d: int)
    requires
        base % 8 == 0,
        base >= 0,
        d >= 0,
    ensures
        align_pad(base + d) == align_pad(d),
{
    assert((base + d) % 8 == d % 8) by (nonlinear_arith)
        requires
            base % 8 == 0,
            base >= 0,
            d >= 0,
    ;
}

/// The entry of account `i` lies in the buffer right after the entries
/// before it, at a multiple of 8.
proof fn lemma_entry_slice(metas: Seq<AccountMeta>, dedup: Map<Seq<u8>, usize>, accts: Seq<Option<&TridentAccount>>, i: nat)
    requires
        roundtrip_ready(metas, dedup, accts),
        i < metas.len(),
    ensures
        ({
            let buf = serialized_accounts(metas, dedup, accts);
            let off = entry_offset(metas, dedup, accts, i);
            let e = entry_of(metas, dedup, accts, i as int);
            &&& off % 8 == 0
            &&& off >= 8
            &&& off + e.len() <= buf.len()
            &&& buf.subrange(off, off + e.len()) == e
            &&& entry_offset(metas, dedup, accts, (i + 1) as nat) == off + e.len()
        }),
{
    let n = metas.len();
    let buf = serialized_accounts(metas, dedup, accts);
    let header = le_bytes(n, 8);
    lemma_le_len(n, 8);
    let all = entries_prefix(metas, dedup, accts, n);
    assert(entry_count(metas, accts) == n);
    assert(buf == header + all);
    let pi = entries_prefix(metas, dedup, accts, i);
    let pi1 = entries_prefix(metas, dedup, accts, (i + 1) as nat);
    let e = entry_of(metas, dedup, accts, i as int);
    assert(dedup.contains_key(metas[i as int].pubkey@));
    assert(pi1 == pi + e);
    lemma_prefix(metas, dedup, accts, (i + 1) as nat, n);
    lemma_prefix(metas, dedup, accts, i, (i + 1) as nat);
    lemma_prefix(metas, dedup, accts, 0, i);
    let off: int = 8 + pi.len() as int;
    assert(buf.subrange(off, off + e.len()) =~= e) by {
        assert forall|k: int| 0 <= k < e.len() implies buf.subrange(off, off + e.len())[k] == e[k] by {
            assert(buf[off + k] == all[pi.len() as int + k]);
            assert(all.subrange(0, pi1.len() as int)[pi.len() as int + k] == pi1[pi.len() as int + k]);
        }
    }
}

/// Reading a full entry that lies at `off` gives its record and the start
/// of the next entry.
proof fn lemma_parse_full(buf: Seq<u8>, off: int, meta: AccountMeta, acct: TridentAccountView, done: Seq<ParsedAccountView>)
    requires
        off % 8 == 0,
        off >= 0,
        meta.pubkey@.len() == 32,
        acct.owner.len() == 32,
        acct.data.len() < 0x1_0000_0000_0000_0000,
        off + account_entry(meta, acct).len() <= buf.len(),
        buf.subrange(off, off + account_entry(meta, acct).len()) == account_entry(meta, acct),
    ensures
        parse_entry(buf, off, done) == Some((
            ParsedAccountView {
                is_signer: meta.is_signer,
                is_writable: meta.is_writable,
                executable: acct.executable,
                key: meta.pubkey@,
                owner: acct.owner,
                lamports: acct.lamports as nat,
                data_len: acct.data.len(),
                rent_epoch: acct.rent_epoch as nat,
                offset: off,
            },
            off + account_entry(meta, acct).len(),
        )),
{
    let e = account_entry(meta, acct);
    let d: nat = acct.data.len();
    lemma_le_len(acct.lamports as nat, 8);
    lemma_le_len(d, 8);
    lemma_le_len(acct.rent_epoch as nat, 8);
    assert(forall|k: int| 0 <= k < e.len() ==> buf[off + k] == #[trigger] e[k]) by {
        assert forall|k: int| 0 <= k < e.len() implies buf[off + k] == #[trigger] e[k] by {
            assert(buf.subrange(off, off + e.len())[k] == buf[off + k]);
        }
    }
    assert(buf[off] == e[0]);
    assert(buf.subrange(off + 80, off + 88) =~= le_bytes(d, 8)) by {
        assert forall|k: int| 0 <= k < 8 implies buf.subrange(off + 80, off + 88)[k] == le_bytes(d, 8)[k] by {
            assert(buf[off + 80 + k] == e[80 + k]);
        }
    }
    lemma_pow256_8();
    lemma_le_roundtrip(d, 8);
    lemma_pad_shift(off + 88 + MAX_PERMITTED_DATA_INCREASE, d as int);
    let rent_off = rent_epoch_offset(off, d as int);
    assert(rent_off == off + 88 + d + MAX_PERMITTED_DATA_INCREASE + align_pad(d as int));
    assert(e.len() == rent_off + 8 - off);
    assert(buf.subrange(off + 72, off + 80) =~= le_bytes(acct.lamports as nat, 8)) by {
        assert forall|k: int| 0 <= k < 8 implies buf.subrange(off + 72, off + 80)[k] == le_bytes(acct.lamports as nat, 8)[k] by {
            assert(buf[off + 72 + k] == e[72 + k]);
        }
    }
    lemma_le_roundtrip(acct.lamports as nat, 8);
    assert(buf.subrange(rent_off, rent_off + 8) =~= le_bytes(acct.rent_epoch as nat, 8)) by {
        assert forall|k: int| 0 <= k < 8 implies buf.subrange(rent_off, rent_off + 8)[k] == le_bytes(acct.rent_epoch as nat, 8)[k] by {
            assert(buf[rent_off + k] == e[rent_off - off + k]);
        }
    }
    lemma_le_roundtrip(acct.rent_epoch as nat, 8);
    assert(buf.subrange(off + 8, off + 40) =~= meta.pubkey@) by {
        assert forall|k: int| 0 <= k < 32 implies buf.subrange(off + 8, off + 40)[k] == meta.pubkey@[k] by {
            assert(buf[off + 8 + k] == e[8 + k]);
        }
    }
    assert(buf.subrange(off + 40, off + 72) =~= acct.owner) by {
        assert forall|k: int| 0 <= k < 32 implies buf.subrange(off + 40, off + 72)[k] == acct.owner[k] by {
            assert(buf[off + 40 + k] == e[40 + k]);
        }
    }
    assert(buf[off + 1] == e[1]);
    assert(buf[off + 2] == e[2]);
    assert(buf[off + 3] == e[3]);
}

/// Reading the entry of account `i` gives the expected record and the
/// start of the next entry.
proof fn lemma_parse_one(metas: Seq<AccountMeta>, dedup: Map<Seq<u8>, usize>, accts: Seq<Option<&TridentAccount>>, i: nat)
    requires
        roundtrip_ready(metas, dedup, accts),
        i < metas.len(),
    ensures
        parse_entry(
            serialized_accounts(metas, dedup, accts),
            entry_offset(metas, dedup, accts, i),
            expected_entries(metas, dedup, accts, i),
        ) == Some((
            expected_entries(metas, dedup, accts, (i + 1) as nat).last(),
            entry_offset(metas, dedup, accts, (i + 1) as nat),
        )),
{
    let buf = serialized_accounts(metas, dedup, accts);
    let off = entry_offset(metas, dedup, accts, i);
    let e = entry_of(metas, dedup, accts, i as int);
    lemma_entry_slice(metas, dedup, accts, i);
    let done = expected_entries(metas, dedup, accts, i);
    let pos = dedup[metas[i as int].pubkey@];
    lemma_expected_len(metas, dedup, accts, i);
    lemma_key_len(metas, accts, i as int);
    assert(dedup.contains_key(metas[i as int].pubkey@));
    assert(first_index_of(metas, metas[i as int].pubkey@, pos as int));
    if pos as int == i as int {
        let acct = opt_account(accts[i as int]);
        assert(acct.data.len() < 0x1_0000_0000_0000_0000);
        lemma_parse_full(buf, off, metas[i as int], acct, done);
    } else {
        assert(pos < i);
        assert(e == duplicate_entry(pos));
        assert(buf[off] == buf.subrange(off, off + e.len())[0]);
        assert(pos % 256 == pos);
    }
}

/// The expected records for `i` accounts are `i`.
proof fn lemma_expected_len(metas: Seq<AccountMeta>, dedup: Map<Seq<u8>, usize>, accts: Seq<Option<&TridentAccount>>, i: nat)
    ensures
        expected_entries(metas, dedup, accts, i).len() == i,
    decreases i,
{
    if i > 0 {
        lemma_expected_len(metas, dedup, accts, (i - 1) as nat);
    }
}

/// Reading the entries from that of account `i` on gives all records.
proof fn lemma_parse_rest(metas: Seq<AccountMeta>, dedup: Map<Seq<u8>, usize>, accts: Seq<Option<&TridentAccount>>, i: nat)
    requires
        roundtrip_ready(metas, dedup, accts),
        i <= metas.len(),
    ensures
        parse_entries(
            serialized_accounts(metas, dedup, accts),
            entry_offset(metas, dedup, accts, i),
            (metas.len() - i) as nat,
            expected_entries(metas, dedup, accts, i),
        ) == Some(expected_entries(metas, dedup, accts, metas.len())),
    decreases metas.len() - i,
{
    if i < metas.len() {
        lemma_parse_one(metas, dedup, accts, i);
        lemma_expected_len(metas, dedup, accts, i);
        let next = expected_entries(metas, dedup, accts, (i + 1) as nat);
        assert(next == expected_entries(metas, dedup, accts, i).push(next.last()));
        lemma_parse_rest(metas, dedup, accts, (i + 1) as nat);
    }
}

/// What the light client writes for a program, the program reads back:
/// parsing the serialized accounts of an instruction gives, per account,
/// the flags of its first occurrence, its key and its stored state (a
/// missing account reading as the empty account).
pub proof fn lemma_serialize_then_parse(
    metas: Seq<AccountMeta>,
    dedup: Map<Seq<u8>, usize>,
    accts: Seq<Option<&TridentAccount>>,
)
    requires
        roundtrip_ready(metas, dedup, accts),
    ensures
        parse_accounts(serialized_accounts(metas, dedup, accts)) == Some(expected_entries(metas, dedup, accts, metas.len())),
{
    let buf = serialized_accounts(metas, dedup, accts);
    let n = metas.len();
    lemma_le_len(n, 8);
    lemma_pow256_8();
    lemma_le_roundtrip(n, 8);
    assert(buf.subrange(0, 8) =~= le_bytes(n, 8));
    assert(entries_prefix(metas, dedup, accts, 0) =~= Seq::<u8>::empty());
    assert(expected_entries(metas, dedup, accts, 0) =~= Seq::<ParsedAccountView>::empty());
    lemma_parse_rest(metas, dedup, accts, 0);
}

/// What the program reads for account `i`, in terms of the accounts as
/// the instruction listed them before de-duplication.
pub open spec fn reads_back(
    orig: Seq<AccountMeta>,
    dedup: Map<Seq<u8>, usize>,
    accts: Seq<Option<&TridentAccount>>,
    v: ParsedAccountView,
    i: int,
) -> bool {
    let k = orig[i].pubkey@;
    let acct = opt_account(accts[dedup[k] as int]);
    &&& v.key == k
    &&& v.is_signer == any_signer(orig, k, orig.len() as int)
    &&& v.is_writable == any_writable(orig, k, orig.len() as int)
    &&& v.lamports == acct.lamports as nat
    &&& v.owner == acct.owner
    &&& v.executable == acct.executable
    &&& v.data_len == acct.data.len()
    &&& v.rent_epoch == acct.rent_epoch as nat
}

proof fn lemma_expected_reads_back(
    orig: Seq<AccountMeta>,
    merged: Seq<AccountMeta>,
    dedup: Map<Seq<u8>, usize>,
    accts: Seq<Option<&TridentAccount>>,
    m: nat,
)
    requires
        flags_merged(orig, merged, orig.len() as int),
        dedup_of(dedup, orig),
        m <= orig.len(),
    ensures
        expected_entries(merged, dedup, accts, m).len() == m,
        forall|i: int| 0 <= i < m ==> reads_back(orig, dedup, accts, #[trigger] expected_entries(merged, dedup, accts, m)[i], i),
    decreases m,
{
    if m > 0 {
        let j = (m - 1) as int;
        lemma_expected_reads_back(orig, merged, dedup, accts, (m - 1) as nat);
        let prev = expected_entries(merged, dedup, accts, (m - 1) as nat);
        let cur = expected_entries(merged, dedup, accts, m);
        let k = orig[j].pubkey@;
        assert(merged[j].pubkey == orig[j].pubkey);
        assert(dedup.contains_key(orig[j].pubkey@));
        let pos = dedup[k] as int;
        assert(first_index_of(orig, k, pos));
        assert(pos <= j);
        assert forall|i: int| 0 <= i < m implies reads_back(orig, dedup, accts, #[trigger] cur[i], i) by {
            if i < j {
                assert(cur[i] == prev[i]);
            } else {
                if pos == j {
                    assert(first_index_of(orig, orig[j].pubkey@, j));
                    assert(merged[j].is_signer == any_signer(orig, k, orig.len() as int));
                    assert(merged[j].is_writable == any_writable(orig, k, orig.len() as int));
                } else {
                    assert(cur[i] == prev[pos]);
                    assert(reads_back(orig, dedup, accts, prev[pos], pos));
                    assert(orig[pos].pubkey@ == k);
                }
            }
        }
    }
}

/// What a program reads back of the accounts the light client hands it:
/// after de-duplication merges the flags of a repeated account into its
/// first occurrence, parsing the serialized buffer gives one entry per
/// account of the instruction, with its key, signing and writable when
/// any occurrence of the key is, and the balance, owner, executable flag,
/// data length and rent epoch of the stored account at the key's first
/// occurrence (a missing account reading as the empty account).
pub proof fn law_accounts_read_back(
    orig: Seq<AccountMeta>,
    merged: Seq<AccountMeta>,
    dedup: Map<Seq<u8>, usize>,
    accts: Seq<Option<&TridentAccount>>,
)
    requires
        dedup_of(dedup, orig),
        flags_merged(orig, merged, orig.len() as int),
        accts.len() == orig.len(),
        orig.len() <= 256,
        forall|i: int| 0 <= i < accts.len() ==> (#[trigger] opt_account(accts[i])).data.len() < 0x1_0000_0000_0000_0000,
    ensures
        ({
            let v = expected_entries(merged, dedup, accts, merged.len());
            &&& parse_accounts(serialized_accounts(merged, dedup, accts)) == Some(v)
            &&& v.len() == orig.len()
            &&& forall|i: int| 0 <= i < orig.len() ==> reads_back(orig, dedup, accts, #[trigger] v[i], i)
        }),
{
    lemma_dedup_of_merged(orig, merged, dedup);
    lemma_serialize_then_parse(merged, dedup, accts);
    lemma_expected_reads_back(orig, merged, dedup, accts, orig.len());
}

/// The read-back law over what the calls give: `orig` are an
/// instruction's accounts before `get_duplicate_accounts`, `merged` and
/// `dedup` what it leaves and returns, `buf` what `serialize_accounts_custom`
/// writes for them, and `parsed` the views of what `deserialize_custom`
/// reads from `buf`. Each requirement below is one of those functions'
/// postconditions, or a bound on the input. The program then reads one
/// entry per account, as `reads_back` says.
pub proof fn law_calls_read_back(
    orig: Seq<AccountMeta>,
    merged: Seq<AccountMeta>,
    dedup: Map<Seq<u8>, usize>,
    accts: Seq<Option<&TridentAccount>>,
    buf: Seq<u8>,
    parsed: Seq<ParsedAccountView>,
)
    requires
        dedup_of(dedup, orig),
        flags_merged(orig, merged, orig.len() as int),
        buf == serialized_accounts(merged, dedup, accts),
        parse_accounts(buf) == Some(parsed),
        accts.len() == orig.len(),
        orig.len() <= 256,
        forall|i: int| 0 <= i < accts.len() ==> (#[trigger] opt_account(accts[i])).data.len() < 0x1_0000_0000_0000_0000,
    ensures
        parsed.len() == orig.len(),
        forall|i: int| 0 <= i < orig.len() ==> reads_back(orig, dedup, accts, #[trigger] parsed[i], i),
{
    law_accounts_read_back(orig, merged, dedup, accts);
}

} // verus!

//! Accounts and programs a fuzz test starts with, as the configuration
//! lists them.
use crate::derivation::{parsed_pubkey, pubkey_from_str};
use crate::pubkey::Pubkey;
use vstd::prelude::*;
use vstd::string::StringExecFns;

verus! {

/// A program to deploy: its address and its compiled bytes.
#[derive(Debug)]
pub struct FuzzProgram {
    pub address: Pubkey,
    pub data: Vec<u8>,
}

/// An account to create: its address and its state.
#[derive(Debug)]
pub struct FuzzAccount {
    pub pubkey: Pubkey,
    pub account: Account,
}

/// State of an account; `data` is the base64 text of its bytes.
#[derive(Debug)]
pub struct Account {
    pub lamports: u64,
    pub data: String,
    pub owner: Pubkey,
    pub executable: bool,
    pub rent_epoch: u64,
}

/// An account as dumped by the Solana command line, addresses in base58.
#[derive(Debug)]
pub struct FuzzAccountRaw {
    pub pubkey: String,
    pub account: AccountRaw,
}

/// An account's state as dumped by the Solana command line: the data is a
/// list whose first element is the base64 text.
#[derive(Debug)]
pub struct AccountRaw {
    pub lamports: u64,
    pub data: Vec<String>,
    pub owner: String,
    pub executable: bool,
    pub rent_epoch: u64,
}

/// A program entry of the configuration: base58 address and file name.
#[derive(Debug)]
pub struct _FuzzProgram {
    pub address: String,
    pub program: String,
}

/// An account entry of the configuration: address and file name.
#[derive(Debug)]
pub struct _FuzzAccount {
    pub address: String,
    pub filename: String,
}

/// The fuzz section of the configuration as the file gives it.
#[derive(Default, Debug)]
pub struct _Fuzz {
    pub fuzzing_with_stats: Option<bool>,
    pub allow_duplicate_txs: Option<bool>,
    pub programs: Option<Vec<_FuzzProgram>>,
    pub accounts: Option<Vec<_FuzzAccount>>,
}

/// The fuzz section: flags, programs to deploy, accounts to create.
#[derive(Default, Debug)]
pub struct Fuzz {
    pub fuzzing_with_stats: bool,
    pub allow_duplicate_txs: bool,
    pub programs: Vec<FuzzProgram>,
    pub accounts: Vec<FuzzAccount>,
}

impl Fuzz {
    pub fn get_fuzzing_with_stats(&self) -> (r: bool)
        ensures
            r == self.fuzzing_with_stats,
    {
        self.fuzzing_with_stats
    }

    pub fn get_allow_duplicate_txs(&self) -> (r: bool)
        ensures
            r == self.allow_duplicate_txs,
    {
        self.allow_duplicate_txs
    }
}

/// The raw account's addresses decode and it has base64 data.
pub open spec fn account_parses(raw: &FuzzAccountRaw) -> bool {
    &&& parsed_pubkey(raw.pubkey@) is Some
    &&& parsed_pubkey(raw.account.owner@) is Some
    &&& raw.account.data@.len() > 0
}

/// The account built from a raw account whose addresses decode.
pub open spec fn account_from_raw(raw: &FuzzAccountRaw, acc: &FuzzAccount) -> bool {
    &&& Some(acc.pubkey@) == parsed_pubkey(raw.pubkey@)
    &&& Some(acc.account.owner@) == parsed_pubkey(raw.account.owner@)
    &&& acc.account.lamports == raw.account.lamports
    &&& acc.account.data@ == raw.account.data@[0]@
    &&& acc.account.executable == raw.account.executable
    &&& acc.account.rent_epoch == raw.account.rent_epoch
}

/// Builds an account from its dump: decodes the addresses and keeps the
/// first data element.
pub fn parse_account(raw: &FuzzAccountRaw) -> (r: FuzzAccount)
    requires
        account_parses(raw),
    ensures
        account_from_raw(raw, &r),
{
    let zero = Pubkey { bytes: [0u8; 32] };
    let pubkey = match pubkey_from_str(raw.pubkey.as_str()) {
        Some(k) => k,
        None => zero,
    };
    let owner = match pubkey_from_str(raw.account.owner.as_str()) {
        Some(k) => k,
        None => zero,
    };
    let data = if raw.account.data.len() > 0 { raw.account.data[0].clone() } else { String::new() };
    FuzzAccount {
        pubkey,
        account: Account {
            lamports: raw.account.lamports,
            data,
            owner,
            executable: raw.account.executable,
            rent_epoch: raw.account.rent_epoch,
        },
    }
}

/// Builds an account from its dump; `None` when an address does not
/// decode or there is no data element.
pub fn try_parse_account(raw: &FuzzAccountRaw) -> (r: Option<FuzzAccount>)
    ensures
        r is Some <==> account_parses(raw),
        r matches Some(acc) ==> account_from_raw(raw, &acc),
{
    if pubkey_from_str(raw.pubkey.as_str()).is_none() || pubkey_from_str(raw.account.owner.as_str()).is_none()
        || raw.account.data.len() == 0 {
        return None;
    }
    Some(parse_account(raw))
}

/// Builds a program entry from its base58 address and its bytes.
pub fn parse_program(program_address: &str, data: Vec<u8>) -> (r: FuzzProgram)
    requires
        parsed_pubkey(program_address@) is Some,
    ensures
        Some(r.address@) == parsed_pubkey(program_address@),
        r.data@ == data@,
{
    let address = match pubkey_from_str(program_address) {
        Some(k) => k,
        None => Pubkey { bytes: [0u8; 32] },
    };
    FuzzProgram { address, data }
}

/// Builds a program entry from its base58 address and its bytes; `None`
/// when the address does not decode.
pub fn try_parse_program(program_address: &str, data: Vec<u8>) -> (r: Option<FuzzProgram>)
    ensures
        r is Some <==> parsed_pubkey(program_address@) is Some,
        r matches Some(p) ==> Some(p.address@) == parsed_pubkey(program_address@) && p.data@ == data@,
{
    match pubkey_from_str(program_address) {
        Some(_) => Some(parse_program(program_address, data)),
        None => None,
    }
}

/// Whether a path is absolute: it starts at the root `/`.
pub open spec fn is_absolute(path: Seq<char>) -> bool {
    path.len() > 0 && path[0] == '/'
}

/// `rel` under the directory `root`, one `/` between them.
pub open spec fn joined_path(root: Seq<char>, rel: Seq<char>) -> Seq<char> {
    if root.len() == 0 {
        rel
    } else if root.last() == '/' {
        root + rel
    } else {
        root + seq!['/'] + rel
    }
}

/// A joined path starts with the root and ends with the relative path;
/// under a non-empty root exactly one `/` stands between them, added only
/// where the root does not already end with one.
pub proof fn law_joined_path(root: Seq<char>, rel: Seq<char>)
    ensures
        ({
            let p = joined_path(root, rel);
            let sep: nat = if root.len() > 0 && root.last() != '/' { 1 } else { 0 };
            &&& p.len() == root.len() + sep + rel.len()
            &&& p.subrange(0, root.len() as int) == root
            &&& p.subrange(p.len() - rel.len(), p.len() as int) == rel
            &&& root.len() > 0 ==> p[root.len() + sep - 1] == '/'
        }),
{
    let p = joined_path(root, rel);
    if root.len() == 0 {
        assert(p.subrange(0, 0) =~= root);
        assert(p.subrange(0, p.len() as int) =~= rel);
    } else if root.last() == '/' {
        assert(p.subrange(0, root.len() as int) =~= root);
        assert(p.subrange(root.len() as int, p.len() as int) =~= rel);
        assert(p[root.len() - 1] == root[root.len() - 1]);
    } else {
        assert(p.subrange(0, root.len() as int) =~= root);
        assert(p.subrange(root.len() + 1int, p.len() as int) =~= rel);
        assert(p[root.len() as int] == '/');
    }
}

/// The path of a configured file: an absolute path as it is, a relative
/// one under the workspace root.
pub fn resolve_path(filename: &str, root: &str) -> (r: String)
    ensures
        r@ == if is_absolute(filename@) { filename@ } else { joined_path(root@, filename@) },
{
    if filename.unicode_len() > 0 && filename.get_char(0) == '/' {
        return filename.to_owned();
    }
    let n = root.unicode_len();
    if n == 0 {
        return filename.to_owned();
    }
    let mut r = root.to_owned();
    if root.get_char(n - 1) != '/' {
        r.append("/");
        proof {
            reveal_strlit("/");
        }
    }
    r.append(filename);
    r
}

} // verus!

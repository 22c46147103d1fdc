//! The factory: stores versions of the vault code by hash and mints vaults
//! as sub-accounts for a fee.

use vstd::prelude::*;
use sha2::Digest;
use crate::env::Env;
use crate::promise::{Call, Chain};

verus! {

/// Reserve added to the deployment cost when funding a new vault.
pub const FACTORY_STORAGE_BUFFER: u128 = 10_000_000_000_000_000_000_000;

/// Smallest accepted vault code, in bytes (exclusive).
pub const MIN_VAULT_CODE_LEN: usize = 1024;

/// Why a factory method refuses a call. A refused call changes nothing.
#[derive(PartialEq, Eq, Structural, Copy, Clone, Debug)]
pub enum FactoryError {
    /// Only the factory owner may do this.
    NotOwner,
    /// The uploaded code is too small to be a vault.
    CodeTooSmall,
    /// This code was uploaded before.
    DuplicateCode,
    /// The minting fee is zero.
    FeeNotSet,
    /// The attached deposit differs from the minting fee.
    WrongFee,
    /// The latest code hash has no stored code.
    CodeMissing,
    /// The deployment cost does not fit in a `u128`.
    DeployCostOverflow,
    /// The minting fee does not cover the deployment.
    FeeTooLow,
    /// The vault's account id is not a valid NEAR account id.
    InvalidAccountId,
    /// The amount exceeds the withdrawable balance.
    ExceedsAvailable,
    /// The new owner equals the current owner.
    SameOwner,
}

/// The factory's state.
#[derive(PartialEq, Eq, Clone, Debug)]
pub struct FactoryContract {
    pub owner: String,
    /// Vault code by its SHA-256 hash (a map held as pairs).
    pub vault_code_versions: Vec<(Vec<u8>, Vec<u8>)>,
    pub latest_vault_version: u64,
    pub latest_vault_hash: Vec<u8>,
    pub vault_counter: u64,
    pub vault_minting_fee: u128,
}

/// What `get_contract_state` reports.
#[derive(PartialEq, Eq, Clone, Debug)]
pub struct FactoryViewState {
    pub owner: String,
    pub vault_minting_fee: u128,
    pub vault_counter: u64,
    pub latest_vault_version: u64,
}

/// What minting a vault asks the host to do: create `account`, fund it with
/// `amount`, deploy `code`, and call `new(owner, index, version)` on it.
#[derive(PartialEq, Eq, Clone, Debug)]
pub struct MintAction {
    pub account: String,
    pub amount: u128,
    pub code: Vec<u8>,
    pub owner: String,
    pub index: u64,
    pub version: u64,
}

/// Some stored code has hash `h`.
pub open spec fn has_code(s: Seq<(Vec<u8>, Vec<u8>)>, h: Seq<u8>) -> bool {
    exists|i: int| 0 <= i < s.len() && s[i].0@ == h
}

/// No hash is stored twice.
pub open spec fn unique_hashes(s: Seq<(Vec<u8>, Vec<u8>)>) -> bool {
    forall|i: int, j: int| 0 <= i < j < s.len() ==> s[i].0@ != s[j].0@
}

/// The code stored under hash `h`.
pub open spec fn code_of(s: Seq<(Vec<u8>, Vec<u8>)>, h: Seq<u8>) -> Option<Seq<u8>> {
    if has_code(s, h) {
        Some(s[choose|i: int| 0 <= i < s.len() && s[i].0@ == h].1@)
    } else {
        None
    }
}

/// The SHA-256 digest of `data`.
pub uninterp spec fn sha256_digest(data: Seq<u8>) -> Seq<u8>;

/// The decimal digit `d` as a character.
pub open spec fn digit_char(d: nat) -> char {
    (48 + d) as char
}

/// The decimal representation of `n`, without leading zeros.
pub open spec fn decimal(n: nat) -> Seq<char>
    decreases n,
{
    if n < 10 {
        seq![digit_char(n)]
    } else {
        decimal(n / 10).push(digit_char(n % 10))
    }
}

/// The account id of vault number `index` under the factory `factory`: `vault-{index}.{factory}`.
pub open spec fn vault_account_name(index: u64, factory: Seq<char>) -> Seq<char> {
    seq!['v', 'a', 'u', 'l', 't', '-'] + decimal(index as nat) + seq!['.'] + factory
}

/// A separator of a NEAR account id: `-`, `_` or `.`.
pub open spec fn is_id_separator(c: char) -> bool {
    c == '-' || c == '_' || c == '.'
}

/// A character allowed in a NEAR account id.
pub open spec fn is_id_char(c: char) -> bool {
    ('a' <= c && c <= 'z') || ('0' <= c && c <= '9') || is_id_separator(c)
}

/// A valid NEAR account id: 2 to 64 characters from `a-z`, `0-9`, `-`, `_`,
/// `.`, neither starting nor ending with a separator, and no two separators in a row.
pub open spec fn valid_account_id(s: Seq<char>) -> bool {
    &&& 2 <= s.len() <= 64
    &&& forall|i: int| 0 <= i < s.len() ==> is_id_char(#[trigger] s[i])
    &&& !is_id_separator(s[0])
    &&& !is_id_separator(s[s.len() - 1])
    &&& forall|i: int| 0 <= i < s.len() - 1 ==> !(is_id_separator(#[trigger] s[i]) && is_id_separator(s[i + 1]))
}

/// SHA-256 of `data`, through `sha2::Sha256::digest`. The contract names the
/// result `sha256_digest` and states only its documented length, 32 bytes.
#[verifier::external_body]
fn sha256(data: &Vec<u8>) -> (r: Vec<u8>)
    ensures
        r@ == sha256_digest(data@),
        r@.len() == 32,
{
    sha2::Sha256::digest(data.as_slice()).to_vec()
}

/// The decimal digit `d` as a one-character string.
fn digit_string(d: u64) -> (r: String)
    requires
        d < 10,
    ensures
        r@ == seq![digit_char(d as nat)],
{
    proof {
        reveal_strlit("0");
        reveal_strlit("1");
        reveal_strlit("2");
        reveal_strlit("3");
        reveal_strlit("4");
        reveal_strlit("5");
        reveal_strlit("6");
        reveal_strlit("7");
        reveal_strlit("8");
        reveal_strlit("9");
    }
    let lit = if d == 0 {
        "0"
    } else if d == 1 {
        "1"
    } else if d == 2 {
        "2"
    } else if d == 3 {
        "3"
    } else if d == 4 {
        "4"
    } else if d == 5 {
        "5"
    } else if d == 6 {
        "6"
    } else if d == 7 {
        "7"
    } else if d == 8 {
        "8"
    } else {
        "9"
    };
    String::from_str(lit)
}

/// `n` written in decimal, as `u64`'s `Display` writes it.
pub fn decimal_string(n: u64) -> (r: String)
    ensures
        r@ == decimal(n as nat),
    decreases n,
{
    if n < 10 {
        digit_string(n)
    } else {
        let mut s = decimal_string(n / 10);
        let last = digit_string(n % 10);
        s.append(last.as_str());
        s
    }
}

/// The account id `vault-{index}.{factory}` of vault number `index`.
pub fn vault_account_id(index: u64, factory: &String) -> (r: String)
    ensures
        r@ == vault_account_name(index, factory@),
{
    proof {
        reveal_strlit("vault-");
        reveal_strlit(".");
    }
    let mut account = String::from_str("vault-");
    let digits = decimal_string(index);
    account.append(digits.as_str());
    account.append(".");
    account.append(factory.as_str());
    account
}

/// Whether `id` parses as a `near_sdk::AccountId` (the `FromStr` of
/// `near_account_id::AccountId`, which runs its `validate`). The contract
/// states the rules that `validate` checks.
#[verifier::external_body]
fn parse_account_id(id: &String) -> (r: bool)
    ensures
        r == valid_account_id(id@),
{
    id.parse::<near_sdk::AccountId>().is_ok()
}

/// Byte strings are compared element by element.
pub fn bytes_equal(a: &Vec<u8>, b: &Vec<u8>) -> (r: bool)
    ensures
        r == (a@ == b@),
{
    if a.len() != b.len() {
        return false;
    }
    let mut i: usize = 0;
    while i < a.len()
        invariant
            i <= a@.len(),
            a@.len() == b@.len(),
            forall|j: int| 0 <= j < i ==> a@[j] == b@[j],
        decreases a@.len() - i,
    {
        if a[i] != b[i] {
            return false;
        }
        i = i + 1;
    }
    assert(a@ =~= b@);
    true
}

/// A copy of a byte string.
pub fn copy_bytes(v: &Vec<u8>) -> (r: Vec<u8>)
    ensures
        r@ == v@,
{
    let mut r: Vec<u8> = Vec::new();
    let mut i: usize = 0;
    while i < v.len()
        invariant
            i <= v@.len(),
            r@ == v@.subrange(0, i as int),
        decreases v@.len() - i,
    {
        r.push(v[i]);
        i = i + 1;
        assert(r@ =~= v@.subrange(0, i as int));
    }
    assert(v@.subrange(0, i as int) =~= v@);
    r
}

/// Where code with hash `h` is stored.
pub fn find_code(v: &Vec<(Vec<u8>, Vec<u8>)>, h: &Vec<u8>) -> (r: Option<usize>)
    ensures
        r is None <==> !has_code(v@, h@),
        r matches Some(i) ==> i < v@.len() && v@[i as int].0@ == h@,
        unique_hashes(v@) ==> (r matches Some(i) ==> code_of(v@, h@) == Some(v@[i as int].1@)),
{
    let mut i: usize = 0;
    while i < v.len()
        invariant
            i <= v@.len(),
            forall|j: int| 0 <= j < i ==> v@[j].0@ != h@,
        decreases v@.len() - i,
    {
        if bytes_equal(&v[i].0, h) {
            proof {
                assert(has_code(v@, h@));
            }
            return Some(i);
        }
        i = i + 1;
    }
    None
}

impl FactoryContract {
    /// No code hash is stored twice.
    pub open spec fn wf(&self) -> bool {
        unique_hashes(self.vault_code_versions@)
    }

    /// Whether no code hash is stored twice.
    pub fn is_well_formed(&self) -> (r: bool)
        ensures
            r == self.wf(),
    {
        let v = &self.vault_code_versions;
        let mut j: usize = 0;
        while j < v.len()
            invariant
                j <= v@.len(),
                v == &self.vault_code_versions,
                forall|a: int, b: int| 0 <= a < b < j ==> v@[a].0@ != v@[b].0@,
            decreases v@.len() - j,
        {
            let mut i: usize = 0;
            while i < j
                invariant
                    i <= j,
                    j < v@.len(),
                    v == &self.vault_code_versions,
                    forall|a: int, b: int| 0 <= a < b < j ==> v@[a].0@ != v@[b].0@,
                    forall|a: int| 0 <= a < i ==> v@[a].0@ != v@[j as int].0@,
                decreases j - i,
            {
                if bytes_equal(&v[i].0, &v[j].0) {
                    assert(!unique_hashes(self.vault_code_versions@));
                    return false;
                }
                i = i + 1;
            }
            j = j + 1;
        }
        true
    }

    /// A factory of `owner` that charges `vault_minting_fee` per vault.
    pub fn new(owner: String, vault_minting_fee: u128) -> (f: FactoryContract)
        ensures
            f.wf(),
            f.owner == owner,
            f.vault_code_versions@.len() == 0,
            f.latest_vault_version == 0,
            f.latest_vault_hash@.len() == 0,
            f.vault_counter == 0,
            f.vault_minting_fee == vault_minting_fee,
    {
        FactoryContract {
            owner,
            vault_code_versions: Vec::new(),
            latest_vault_version: 0,
            latest_vault_hash: Vec::new(),
            vault_counter: 0,
            vault_minting_fee,
        }
    }

    /// The owner sets the minting fee.
    pub fn set_vault_creation_fee(&mut self, new_fee: u128, env: &Env) -> (r: Result<(), FactoryError>)
        ensures
            env.predecessor@ != old(self).owner@ ==> r == Err::<(), FactoryError>(FactoryError::NotOwner)
                && *final(self) == *old(self),
            env.predecessor@ == old(self).owner@ ==> r is Ok && *final(self) == (FactoryContract {
                vault_minting_fee: new_fee,
                ..*old(self)
            }),
    {
        if env.predecessor != self.owner {
            return Err(FactoryError::NotOwner);
        }
        self.vault_minting_fee = new_fee;
        Ok(())
    }

    /// Stores `code` under `hash` as the latest version, unless that hash is
    /// stored already. Returns the hash.
    pub fn store_vault_code(&mut self, code: Vec<u8>, hash: Vec<u8>) -> (r: Result<Vec<u8>, FactoryError>)
        requires
            old(self).wf(),
            old(self).latest_vault_version < u64::MAX,
        ensures
            final(self).wf(),
            has_code(old(self).vault_code_versions@, hash@) ==> r == Err::<Vec<u8>, FactoryError>(
                FactoryError::DuplicateCode,
            ) && *final(self) == *old(self),
            !has_code(old(self).vault_code_versions@, hash@) ==> ({
                &&& r matches Ok(h) && h@ == hash@
                &&& final(self).vault_code_versions@ == old(self).vault_code_versions@.push((hash, code))
                &&& final(self).latest_vault_hash@ == hash@
                &&& *final(self) == (FactoryContract {
                    vault_code_versions: final(self).vault_code_versions,
                    latest_vault_hash: final(self).latest_vault_hash,
                    latest_vault_version: (old(self).latest_vault_version + 1) as u64,
                    ..*old(self)
                })
            }),
    {
        if find_code(&self.vault_code_versions, &hash).is_some() {
            return Err(FactoryError::DuplicateCode);
        }
        let latest = copy_bytes(&hash);
        let result = copy_bytes(&hash);
        let ghost old_versions = self.vault_code_versions@;
        self.vault_code_versions.push((hash, code));
        proof {
            let s = self.vault_code_versions@;
            assert forall|i: int, j: int| 0 <= i < j < s.len() implies s[i].0@ != s[j].0@ by {
                if j == s.len() - 1 {
                    assert(old_versions[i] == s[i]);
                    assert(!(0 <= i < old_versions.len() && old_versions[i].0@ == s[j].0@));
                } else {
                    assert(old_versions[i] == s[i] && old_versions[j] == s[j]);
                }
            }
        }
        self.latest_vault_version = self.latest_vault_version + 1;
        self.latest_vault_hash = latest;
        Ok(result)
    }

    /// The owner uploads a new version of the vault code (more than
    /// `MIN_VAULT_CODE_LEN` bytes); it is stored under its SHA-256 hash,
    /// which is returned.
    pub fn set_vault_code(&mut self, code: Vec<u8>, env: &Env) -> (r: Result<Vec<u8>, FactoryError>)
        requires
            old(self).wf(),
            old(self).latest_vault_version < u64::MAX,
        ensures
            final(self).wf(),
            env.predecessor@ != old(self).owner@ ==> r == Err::<Vec<u8>, FactoryError>(FactoryError::NotOwner)
                && *final(self) == *old(self),
            env.predecessor@ == old(self).owner@ && code@.len() <= MIN_VAULT_CODE_LEN ==> r == Err::<
                Vec<u8>,
                FactoryError,
            >(FactoryError::CodeTooSmall) && *final(self) == *old(self),
            env.predecessor@ == old(self).owner@ && code@.len() > MIN_VAULT_CODE_LEN ==> ({
                let hash = sha256_digest(code@);
                &&& has_code(old(self).vault_code_versions@, hash) ==> r == Err::<Vec<u8>, FactoryError>(
                    FactoryError::DuplicateCode,
                ) && *final(self) == *old(self)
                &&& !has_code(old(self).vault_code_versions@, hash) ==> ({
                    &&& r matches Ok(h) && h@ == hash
                    &&& final(self).vault_code_versions@.len() == old(self).vault_code_versions@.len() + 1
                    &&& final(self).vault_code_versions@.drop_last() == old(self).vault_code_versions@
                    &&& final(self).vault_code_versions@.last().0@ == hash
                    &&& final(self).vault_code_versions@.last().1@ == code@
                    &&& final(self).latest_vault_hash@ == hash
                    &&& *final(self) == (FactoryContract {
                        vault_code_versions: final(self).vault_code_versions,
                        latest_vault_hash: final(self).latest_vault_hash,
                        latest_vault_version: (old(self).latest_vault_version + 1) as u64,
                        ..*old(self)
                    })
                })
            }),
    {
        if env.predecessor != self.owner {
            return Err(FactoryError::NotOwner);
        }
        if code.len() <= MIN_VAULT_CODE_LEN {
            return Err(FactoryError::CodeTooSmall);
        }
        let hash = sha256(&code);
        let ghost c = code@;
        let r = self.store_vault_code(code, hash);
        proof {
            if r is Ok {
                assert(self.vault_code_versions@.drop_last() =~= old(self).vault_code_versions@);
            }
        }
        r
    }

    /// The deployment cost of `code_len` bytes of code, plus the reserve.
    pub open spec fn deploy_cost(code_len: nat, env: Env) -> int {
        code_len * env.storage_byte_cost + FACTORY_STORAGE_BUFFER
    }

    /// The code a new vault receives: the latest uploaded version, or no
    /// code at all before the first upload; `None` when the latest hash has
    /// no stored code.
    pub open spec fn mint_code(&self) -> Option<Seq<u8>> {
        if self.latest_vault_version == 0 {
            Some(Seq::<u8>::empty())
        } else {
            code_of(self.vault_code_versions@, self.latest_vault_hash@)
        }
    }

    /// Why minting a vault is refused, if it is.
    pub open spec fn mint_check(&self, env: Env) -> Option<FactoryError> {
        let code = self.mint_code();
        if self.vault_minting_fee == 0 {
            Some(FactoryError::FeeNotSet)
        } else if env.attached_deposit != self.vault_minting_fee {
            Some(FactoryError::WrongFee)
        } else if code is None {
            Some(FactoryError::CodeMissing)
        } else if Self::deploy_cost(code.unwrap().len(), env) > u128::MAX {
            Some(FactoryError::DeployCostOverflow)
        } else if self.vault_minting_fee < Self::deploy_cost(code.unwrap().len(), env) {
            Some(FactoryError::FeeTooLow)
        } else if !valid_account_id(vault_account_name(self.vault_counter, env.current_account@)) {
            Some(FactoryError::InvalidAccountId)
        } else {
            None
        }
    }

    /// Anyone mints a vault by attaching exactly the minting fee, which must
    /// cover the deployment. The vault `vault-{counter}.{factory}` receives the
    /// latest code (none before the first upload), funding for its storage,
    /// and the caller as owner; the counter advances.
    pub fn mint_vault(&mut self, env: &Env) -> (r: Result<MintAction, FactoryError>)
        requires
            old(self).wf(),
            old(self).vault_counter < u64::MAX,
        ensures
            old(self).mint_check(*env) matches Some(e) ==> r == Err::<MintAction, FactoryError>(e)
                && *final(self) == *old(self),
            old(self).mint_check(*env) is None ==> ({
                let code = old(self).mint_code().unwrap();
                &&& *final(self) == (FactoryContract {
                    vault_counter: (old(self).vault_counter + 1) as u64,
                    ..*old(self)
                })
                &&& r matches Ok(a) && a.account@ == vault_account_name(
                    old(self).vault_counter,
                    env.current_account@,
                ) && a.amount == Self::deploy_cost(code.len(), *env) && a.code@ == code && a.owner
                    == env.predecessor && a.index == old(self).vault_counter && a.version
                    == old(self).latest_vault_version
            }),
    {
        let required_fee = self.vault_minting_fee;
        if required_fee == 0 {
            return Err(FactoryError::FeeNotSet);
        }
        if env.attached_deposit != required_fee {
            return Err(FactoryError::WrongFee);
        }
        let code = if self.latest_vault_version == 0 {
            Vec::new()
        } else {
            match find_code(&self.vault_code_versions, &self.latest_vault_hash) {
                Some(i) => copy_bytes(&self.vault_code_versions[i].1),
                None => {
                    return Err(FactoryError::CodeMissing);
                },
            }
        };
        let wasm_bytes = code.len() as u128;
        let deploy_cost = match wasm_bytes.checked_mul(env.storage_byte_cost) {
            Some(c) => c,
            None => {
                proof {
                    assert(wasm_bytes * env.storage_byte_cost + FACTORY_STORAGE_BUFFER > u128::MAX);
                }
                return Err(FactoryError::DeployCostOverflow);
            },
        };
        let transfer_amount = match deploy_cost.checked_add(FACTORY_STORAGE_BUFFER) {
            Some(t) => t,
            None => {
                return Err(FactoryError::DeployCostOverflow);
            },
        };
        if required_fee < transfer_amount {
            return Err(FactoryError::FeeTooLow);
        }
        let index = self.vault_counter;
        let account = vault_account_id(index, &env.current_account);
        if !parse_account_id(&account) {
            return Err(FactoryError::InvalidAccountId);
        }
        self.vault_counter = index + 1;
        Ok(MintAction {
            account,
            amount: transfer_amount,
            code,
            owner: env.predecessor.clone(),
            index,
            version: self.latest_vault_version,
        })
    }

    /// NEAR the factory may send away: its balance less its storage cost.
    pub open spec fn factory_available(env: Env) -> int {
        if env.account_balance >= env.storage_byte_cost * env.storage_usage {
            env.account_balance - env.storage_byte_cost * env.storage_usage
        } else {
            0
        }
    }

    /// The owner sends `amount` of the factory's NEAR to `to_address`, or to
    /// themselves, keeping what storage needs.
    pub fn withdraw_balance(&self, amount: u128, to_address: Option<String>, env: &Env) -> (r: Result<Chain, FactoryError>)
        requires
            env.wf(),
        ensures
            env.predecessor@ != self.owner@ ==> r == Err::<Chain, FactoryError>(FactoryError::NotOwner),
            env.predecessor@ == self.owner@ && amount > Self::factory_available(*env) ==> r == Err::<
                Chain,
                FactoryError,
            >(FactoryError::ExceedsAvailable),
            env.predecessor@ == self.owner@ && amount <= Self::factory_available(*env) ==> ({
                let recipient = match to_address {
                    Some(t) => t,
                    None => self.owner,
                };
                r matches Ok(c) && c.callback is None && c.calls@ == seq![
                    Call::Transfer { receiver: recipient, amount },
                ]
            }),
    {
        if env.predecessor != self.owner {
            return Err(FactoryError::NotOwner);
        }
        let recipient = match to_address {
            Some(t) => t,
            None => self.owner.clone(),
        };
        let storage_cost = env.storage_byte_cost * (env.storage_usage as u128);
        let available = env.account_balance.saturating_sub(storage_cost);
        if amount > available {
            return Err(FactoryError::ExceedsAvailable);
        }
        let mut calls: Vec<Call> = Vec::new();
        calls.push(Call::Transfer { receiver: recipient, amount });
        Ok(Chain { calls, callback: None })
    }

    /// The owner hands the factory to `new_owner`.
    pub fn transfer_ownership(&mut self, new_owner: String, env: &Env) -> (r: Result<(), FactoryError>)
        ensures
            env.predecessor@ != old(self).owner@ ==> r == Err::<(), FactoryError>(FactoryError::NotOwner)
                && *final(self) == *old(self),
            env.predecessor@ == old(self).owner@ && new_owner@ == old(self).owner@ ==> r == Err::<
                (),
                FactoryError,
            >(FactoryError::SameOwner) && *final(self) == *old(self),
            env.predecessor@ == old(self).owner@ && new_owner@ != old(self).owner@ ==> r is Ok && *final(self)
                == (FactoryContract { owner: new_owner, ..*old(self) }),
    {
        if env.predecessor != self.owner {
            return Err(FactoryError::NotOwner);
        }
        if new_owner == self.owner {
            return Err(FactoryError::SameOwner);
        }
        self.owner = new_owner;
        Ok(())
    }

    /// The price of one byte of storage.
    pub fn storage_byte_cost(&self, env: &Env) -> (r: u128)
        ensures
            r == env.storage_byte_cost,
    {
        env.storage_byte_cost
    }

    /// The minting fee, the number of vaults minted and the latest code version.
    pub fn get_contract_state(&self) -> (s: FactoryViewState)
        ensures
            s == (FactoryViewState {
                owner: self.owner,
                vault_minting_fee: self.vault_minting_fee,
                vault_counter: self.vault_counter,
                latest_vault_version: self.latest_vault_version,
            }),
    {
        FactoryViewState {
            owner: self.owner.clone(),
            vault_minting_fee: self.vault_minting_fee,
            vault_counter: self.vault_counter,
            latest_vault_version: self.latest_vault_version,
        }
    }
}

} // verus!

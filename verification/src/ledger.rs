//! The ledger: fixed token metadata, a balance table, and the operations
//! that read it and move value between accounts.

use vstd::prelude::*;
use vstd::string::StringExecFns;

use crate::account::{anonymous_bytes, AccountId};
use crate::model::{
    balance_in, lemma_lookup_at, lemma_lookup_none, lemma_lookup_push, lemma_lookup_remove_hit,
    lemma_lookup_remove_other, lemma_pair_le_sum, lemma_sum_push, lemma_sum_remove, lookup,
    sum_balances, unique_keys,
};

verus! {

/// The single ledger record: per-account balances plus metadata that is
/// fixed once the record is materialized.
pub struct TokenWallet {
    /// One entry per account that ever held a balance; keys are unique.
    pub balances: Vec<(AccountId, u64)>,
    /// The fixed total supply; transfers never change it.
    pub total_supply: u64,
    /// Display name of the token.
    pub name: String,
    /// Display symbol of the token.
    pub symbol: String,
    /// Decimal precision indicator; informational only.
    pub decimals: u8,
}

/// Token metadata as the query operation reports it.
pub struct Metadata {
    pub name: String,
    pub symbol: String,
    pub decimals: u8,
    pub fee: Option<u64>,
}

/// The expected, user-facing ways a transfer is refused.
#[derive(Debug, PartialEq)]
pub enum TransferError {
    /// The caller's balance is strictly below the requested amount.
    InsufficientFunds,
    /// The recipient is the reserved anonymous identity.
    InvalidRecipient,
    /// Reserved for future validation failures; unused here.
    Other(String),
}

pub type TransferResult = Result<(), TransferError>;

impl TokenWallet {
    /// The balance the ledger holds for a key, zero when absent.
    pub open spec fn spec_balance(&self, k: Seq<u8>) -> u64 {
        balance_in(self.balances@, k)
    }

    /// The sum of every stored balance.
    pub open spec fn spec_sum(&self) -> int {
        sum_balances(self.balances@)
    }

    /// No two balance entries share an account.
    pub open spec fn keys_unique(&self) -> bool {
        unique_keys(self.balances@)
    }

    /// Well-formedness: keys are unique and the stored balances never
    /// add up to more than the total supply.
    pub open spec fn wf(&self) -> bool {
        self.keys_unique() && self.spec_sum() <= self.total_supply
    }

    /// A fresh default ledger: fixed metadata, fixed supply, no balances.
    pub fn new() -> (r: TokenWallet)
        ensures
            r.balances@.len() == 0,
            forall|k: Seq<u8>| r.spec_balance(k) == 0,
            r.total_supply == 1_000_000_000u64,
            r.name@ == "MyToken"@,
            r.symbol@ == "MTK"@,
            r.decimals == 8u8,
            r.wf(),
    {
        let r = TokenWallet {
            balances: Vec::new(),
            total_supply: 1_000_000_000,
            name: String::from_str("MyToken"),
            symbol: String::from_str("MTK"),
            decimals: 8,
        };
        proof {
            assert forall|k: Seq<u8>| r.spec_balance(k) == 0 by {
                assert(lookup(r.balances@, k) is None);
            }
        }
        r
    }

    /// The stored balance of an account, or zero when it has no entry.
    pub fn get_balance(&self, address: &AccountId) -> (r: u64)
        ensures
            r == self.spec_balance(address@),
    {
        match find_account(&self.balances, address) {
            Some(i) => {
                proof {
                    lemma_lookup_at(self.balances@, address@, i as int);
                }
                self.balances[i].1
            },
            None => {
                proof {
                    lemma_lookup_none(self.balances@, address@);
                }
                0
            },
        }
    }

    /// Sets or replaces one account's balance, leaving every other
    /// account, the key uniqueness, and the metadata untouched; the sum
    /// of balances moves by exactly the difference.
    pub fn set_balance(&mut self, address: AccountId, balance: u64)
        requires
            old(self).keys_unique(),
        ensures
            final(self).keys_unique(),
            final(self).spec_balance(address@) == balance,
            forall|k: Seq<u8>|
                k != address@ ==> final(self).spec_balance(k) == old(self).spec_balance(k),
            final(self).spec_sum() == old(self).spec_sum() - old(self).spec_balance(address@)
                + balance,
            final(self).total_supply == old(self).total_supply,
            final(self).name@ == old(self).name@,
            final(self).symbol@ == old(self).symbol@,
            final(self).decimals == old(self).decimals,
    {
        let ghost s0 = self.balances@;
        let ghost a = address@;
        match find_account(&self.balances, &address) {
            Some(i) => {
                proof {
                    lemma_lookup_at(s0, a, i as int);
                    lemma_lookup_remove_hit(s0, i as int);
                    lemma_sum_remove(s0, i as int);
                }
                let _removed = self.balances.remove(i);
                let ghost s1 = self.balances@;
                self.balances.push((address, balance));
                proof {
                    assert forall|p: int, q: int|
                        0 <= p < q < s1.len() implies s1[p].0@ != s1[q].0@ by {
                        if q < i {
                            assert(s1[p] == s0[p] && s1[q] == s0[q]);
                        } else if p < i {
                            assert(s1[p] == s0[p] && s1[q] == s0[q + 1]);
                        } else {
                            assert(s1[p] == s0[p + 1] && s1[q] == s0[q + 1]);
                        }
                    }
                    lemma_set_step(s0, s1, self.balances@, address, balance, i as int);
                }
            },
            None => {
                proof {
                    lemma_lookup_none(s0, a);
                }
                self.balances.push((address, balance));
                proof {
                    lemma_sum_push(s0, address, balance);
                    lemma_lookup_push(s0, address, balance, a);
                    assert forall|k: Seq<u8>|
                        k != a implies balance_in(self.balances@, k) == balance_in(s0, k) by {
                        lemma_lookup_push(s0, address, balance, k);
                    }
                    assert forall|p: int, q: int|
                        0 <= p < q < self.balances@.len() implies self.balances@[p].0@
                            != self.balances@[q].0@ by {
                        if q < s0.len() {
                            assert(self.balances@[p] == s0[p] && self.balances@[q] == s0[q]);
                        } else {
                            assert(self.balances@[p] == s0[p]);
                            assert(self.balances@[q] == (address, balance));
                        }
                    }
                }
            },
        }
    }
}

/// Proof step shared by the replacing branch of `set_balance`: pushing
/// the fresh entry onto the table with the old entry removed yields the
/// updated lookup, sum, and uniqueness.
proof fn lemma_set_step(
    s0: Seq<(AccountId, u64)>,
    s1: Seq<(AccountId, u64)>,
    s2: Seq<(AccountId, u64)>,
    address: AccountId,
    balance: u64,
    i: int,
)
    requires
        0 <= i < s0.len(),
        s0[i].0@ == address@,
        unique_keys(s0),
        unique_keys(s1),
        s1 == s0.remove(i),
        s2 == s1.push((address, balance)),
        lookup(s1, address@) is None,
    ensures
        unique_keys(s2),
        balance_in(s2, address@) == balance,
        forall|k: Seq<u8>| k != address@ ==> balance_in(s2, k) == balance_in(s0, k),
        sum_balances(s2) == sum_balances(s0) - balance_in(s0, address@) + balance,
{
    let a = address@;
    lemma_lookup_at(s0, a, i);
    lemma_sum_remove(s0, i);
    lemma_sum_push(s1, address, balance);
    lemma_lookup_push(s1, address, balance, a);
    assert forall|k: Seq<u8>| k != a implies balance_in(s2, k) == balance_in(s0, k) by {
        lemma_lookup_remove_other(s0, i, k);
        lemma_lookup_push(s1, address, balance, k);
    }
    assert forall|p: int, q: int| 0 <= p < q < s2.len() implies s2[p].0@ != s2[q].0@ by {
        if q < s1.len() {
            assert(s2[p] == s1[p] && s2[q] == s1[q]);
        } else {
            assert(s2[p] == s1[p]);
            assert(s2[q] == (address, balance));
            if s1[p].0@ == a {
                lemma_lookup_at(s1, a, p);
            }
        }
    }
}

/// The index of the first entry for an account, if the table has one.
fn find_account(balances: &Vec<(AccountId, u64)>, address: &AccountId) -> (r: Option<usize>)
    ensures
        match r {
            Some(i) => i < balances@.len() && balances@[i as int].0@ == address@
                && forall|j: int| 0 <= j < i ==> balances@[j].0@ != address@,
            None => forall|j: int| 0 <= j < balances@.len() ==> balances@[j].0@ != address@,
        },
{
    let n = balances.len();
    let mut i: usize = 0;
    while i < n
        invariant
            i <= n,
            n == balances@.len(),
            forall|j: int| 0 <= j < i ==> balances@[j].0@ != address@,
        decreases n - i,
    {
        if balances[i].0.eq_account(address) {
            return Some(i);
        }
        i = i + 1;
    }
    None
}

/// Reports the ledger's fixed metadata; the fee is not defined.
pub fn icrc2_metadata(wallet: TokenWallet) -> (m: Metadata)
    ensures
        m.name@ == wallet.name@,
        m.symbol@ == wallet.symbol@,
        m.decimals == wallet.decimals,
        m.fee is None,
{
    Metadata { name: wallet.name, symbol: wallet.symbol, decimals: wallet.decimals, fee: None }
}

/// Reads one account's balance; accounts without an entry read as zero.
pub fn icrc2_balance_of(wallet: &TokenWallet, owner: &AccountId) -> (r: u64)
    ensures
        r == wallet.spec_balance(owner@),
{
    wallet.get_balance(owner)
}

/// Reads the fixed total supply.
pub fn icrc2_total_supply(wallet: &TokenWallet) -> (r: u64)
    ensures
        r == wallet.total_supply,
{
    wallet.total_supply
}

/// Moves `amount` from the authenticated caller to `to`.
///
/// The two guards run in order: a caller balance below `amount` is
/// refused as `InsufficientFunds` even when the recipient is also
/// invalid; only then is the anonymous recipient refused. A refused
/// transfer leaves the ledger exactly as it was; a successful one debits
/// the caller and credits the recipient by the same amount, so the sum
/// of all balances — and the total supply — never change.
pub fn icrc2_transfer(
    wallet: &mut TokenWallet,
    caller: AccountId,
    to: AccountId,
    amount: u64,
) -> (r: TransferResult)
    requires
        old(wallet).wf(),
    ensures
        final(wallet).wf(),
        final(wallet).total_supply == old(wallet).total_supply,
        final(wallet).name@ == old(wallet).name@,
        final(wallet).symbol@ == old(wallet).symbol@,
        final(wallet).decimals == old(wallet).decimals,
        r is Ok <==> (amount <= old(wallet).spec_balance(caller@) && to@ != anonymous_bytes()),
        old(wallet).spec_balance(caller@) < amount
            ==> r == TransferResult::Err(TransferError::InsufficientFunds)
                && *final(wallet) == *old(wallet),
        (amount <= old(wallet).spec_balance(caller@) && to@ == anonymous_bytes())
            ==> r == TransferResult::Err(TransferError::InvalidRecipient)
                && *final(wallet) == *old(wallet),
        (r is Ok && caller@ != to@)
            ==> final(wallet).spec_balance(caller@)
                    == old(wallet).spec_balance(caller@) - amount
                && final(wallet).spec_balance(to@) == old(wallet).spec_balance(to@) + amount,
        (r is Ok && caller@ == to@) ==> forall|k: Seq<u8>|
            final(wallet).spec_balance(k) == old(wallet).spec_balance(k),
        r is Ok ==> forall|k: Seq<u8>|
            (k != caller@ && k != to@)
                ==> final(wallet).spec_balance(k) == old(wallet).spec_balance(k),
        r is Ok ==> final(wallet).spec_sum() == old(wallet).spec_sum(),
        (r is Ok && caller@ != to@)
            ==> final(wallet).spec_balance(caller@) + final(wallet).spec_balance(to@)
                == old(wallet).spec_balance(caller@) + old(wallet).spec_balance(to@),
{
    let ghost c = caller@;
    let ghost t = to@;
    let from_balance = wallet.get_balance(&caller);
    if from_balance < amount {
        return Err(TransferError::InsufficientFunds);
    }
    if to.is_anonymous() {
        return Err(TransferError::InvalidRecipient);
    }
    proof {
        if c != t {
            lemma_pair_le_sum(wallet.balances@, c, t);
        }
    }
    wallet.set_balance(caller, from_balance - amount);
    let to_balance = wallet.get_balance(&to);
    wallet.set_balance(to, to_balance + amount);
    Ok(())
}

/// Materializes the ledger the store handed back, or the default record
/// when the store holds none. Reads never persist the default.
pub fn wallet_or_default(stored: Option<TokenWallet>) -> (r: TokenWallet)
    ensures
        match stored {
            Some(w) => r == w,
            None => r.balances@.len() == 0 && r.total_supply == 1_000_000_000u64 && r.name@
                == "MyToken"@ && r.symbol@ == "MTK"@ && r.decimals == 8u8 && r.wf(),
        },
{
    match stored {
        Some(w) => w,
        None => TokenWallet::new(),
    }
}

/// An account without a balance entry reads as holding zero.
pub proof fn lemma_absent_account_balance_zero(w: TokenWallet, a: Seq<u8>)
    requires
        forall|i: int| 0 <= i < w.balances@.len() ==> w.balances@[i].0@ != a,
    ensures
        w.spec_balance(a) == 0,
{
    lemma_lookup_none(w.balances@, a);
}

} // verus!

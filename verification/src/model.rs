//! The mathematical model of a balance table: an association list from
//! account identities to balances, read by first match, together with the
//! lemmas that relate lookup, update and the sum of all balances.

use vstd::prelude::*;

use crate::account::AccountId;

verus! {

/// First-match lookup of an account key in a balance table.
pub open spec fn lookup(s: Seq<(AccountId, u64)>, k: Seq<u8>) -> Option<u64>
    decreases s.len(),
{
    if s.len() == 0 {
        None
    } else if s[0].0@ == k {
        Some(s[0].1)
    } else {
        lookup(s.drop_first(), k)
    }
}

/// The balance a table holds for a key: the stored entry, or zero when
/// the key is absent.
pub open spec fn balance_in(s: Seq<(AccountId, u64)>, k: Seq<u8>) -> u64 {
    match lookup(s, k) {
        Some(v) => v,
        None => 0,
    }
}

/// The sum of every balance the table holds.
pub open spec fn sum_balances(s: Seq<(AccountId, u64)>) -> int
    decreases s.len(),
{
    if s.len() == 0 {
        0
    } else {
        s[0].1 + sum_balances(s.drop_first())
    }
}

/// No two entries of the table share a key.
pub open spec fn unique_keys(s: Seq<(AccountId, u64)>) -> bool {
    forall|i: int, j: int| 0 <= i < j < s.len() ==> s[i].0@ != s[j].0@
}

/// A key found at the first matching position yields that entry's value.
pub proof fn lemma_lookup_at(s: Seq<(AccountId, u64)>, k: Seq<u8>, i: int)
    requires
        0 <= i < s.len(),
        s[i].0@ == k,
        forall|j: int| 0 <= j < i ==> s[j].0@ != k,
    ensures
        lookup(s, k) == Some(s[i].1),
    decreases i,
{
    if i > 0 {
        assert forall|j: int| 0 <= j < i - 1 implies s.drop_first()[j].0@ != k by {
            assert(s.drop_first()[j] == s[j + 1]);
        }
        assert(s.drop_first()[i - 1] == s[i]);
        lemma_lookup_at(s.drop_first(), k, i - 1);
    }
}

/// A key that no entry carries is not found.
pub proof fn lemma_lookup_none(s: Seq<(AccountId, u64)>, k: Seq<u8>)
    requires
        forall|j: int| 0 <= j < s.len() ==> s[j].0@ != k,
    ensures
        lookup(s, k) is None,
    decreases s.len(),
{
    if s.len() > 0 {
        assert forall|j: int| 0 <= j < s.drop_first().len() implies s.drop_first()[j].0@ != k by {
            assert(s.drop_first()[j] == s[j + 1]);
        }
        lemma_lookup_none(s.drop_first(), k);
    }
}

/// Every balance sum is non-negative.
pub proof fn lemma_sum_nonneg(s: Seq<(AccountId, u64)>)
    ensures
        sum_balances(s) >= 0,
    decreases s.len(),
{
    if s.len() > 0 {
        lemma_sum_nonneg(s.drop_first());
    }
}

/// One account's balance never exceeds the sum of all balances.
pub proof fn lemma_balance_le_sum(s: Seq<(AccountId, u64)>, k: Seq<u8>)
    ensures
        balance_in(s, k) <= sum_balances(s),
    decreases s.len(),
{
    if s.len() == 0 {
    } else if s[0].0@ == k {
        lemma_sum_nonneg(s.drop_first());
    } else {
        lemma_balance_le_sum(s.drop_first(), k);
    }
}

/// Two distinct accounts' balances together never exceed the sum of all
/// balances.
pub proof fn lemma_pair_le_sum(s: Seq<(AccountId, u64)>, k1: Seq<u8>, k2: Seq<u8>)
    requires
        k1 != k2,
    ensures
        balance_in(s, k1) + balance_in(s, k2) <= sum_balances(s),
    decreases s.len(),
{
    if s.len() == 0 {
    } else if s[0].0@ == k1 {
        lemma_balance_le_sum(s.drop_first(), k2);
    } else if s[0].0@ == k2 {
        lemma_balance_le_sum(s.drop_first(), k1);
    } else {
        lemma_pair_le_sum(s.drop_first(), k1, k2);
    }
}

/// Removing an entry of a different key leaves a key's lookup unchanged.
pub proof fn lemma_lookup_remove_other(s: Seq<(AccountId, u64)>, i: int, k: Seq<u8>)
    requires
        0 <= i < s.len(),
        s[i].0@ != k,
    ensures
        lookup(s.remove(i), k) == lookup(s, k),
    decreases s.len(),
{
    if i == 0 {
        assert(s.remove(0) =~= s.drop_first());
    } else {
        assert(s.remove(i)[0] == s[0]);
        if s[0].0@ == k {
        } else {
            assert(s.remove(i).drop_first() =~= s.drop_first().remove(i - 1));
            assert(s.drop_first()[i - 1] == s[i]);
            lemma_lookup_remove_other(s.drop_first(), i - 1, k);
        }
    }
}

/// In a table with unique keys, removing the entry of a key leaves that
/// key without an entry.
pub proof fn lemma_lookup_remove_hit(s: Seq<(AccountId, u64)>, i: int)
    requires
        0 <= i < s.len(),
        unique_keys(s),
    ensures
        lookup(s.remove(i), s[i].0@) is None,
{
    let k = s[i].0@;
    assert forall|j: int| 0 <= j < s.remove(i).len() implies s.remove(i)[j].0@ != k by {
        if j < i {
            assert(s.remove(i)[j] == s[j]);
        } else {
            assert(s.remove(i)[j] == s[j + 1]);
        }
    }
    lemma_lookup_none(s.remove(i), k);
}

/// Appending an entry changes only the lookup of keys with no earlier
/// entry.
pub proof fn lemma_lookup_push(s: Seq<(AccountId, u64)>, a: AccountId, v: u64, k: Seq<u8>)
    ensures
        lookup(s.push((a, v)), k) == (if lookup(s, k) is Some {
            lookup(s, k)
        } else if a@ == k {
            Some(v)
        } else {
            None::<u64>
        }),
    decreases s.len(),
{
    if s.len() == 0 {
        assert(s.push((a, v))[0] == (a, v));
        if a@ != k {
            assert(s.push((a, v)).drop_first() =~= Seq::<(AccountId, u64)>::empty());
        }
    } else {
        assert(s.push((a, v))[0] == s[0]);
        if s[0].0@ != k {
            assert(s.push((a, v)).drop_first() =~= s.drop_first().push((a, v)));
            lemma_lookup_push(s.drop_first(), a, v, k);
        }
    }
}

/// Removing an entry takes exactly its balance out of the sum.
pub proof fn lemma_sum_remove(s: Seq<(AccountId, u64)>, i: int)
    requires
        0 <= i < s.len(),
    ensures
        sum_balances(s.remove(i)) == sum_balances(s) - s[i].1,
    decreases s.len(),
{
    if i == 0 {
        assert(s.remove(0) =~= s.drop_first());
    } else {
        assert(s.remove(i)[0] == s[0]);
        assert(s.remove(i).drop_first() =~= s.drop_first().remove(i - 1));
        assert(s.drop_first()[i - 1] == s[i]);
        lemma_sum_remove(s.drop_first(), i - 1);
    }
}

/// Appending an entry adds exactly its balance to the sum.
pub proof fn lemma_sum_push(s: Seq<(AccountId, u64)>, a: AccountId, v: u64)
    ensures
        sum_balances(s.push((a, v))) == sum_balances(s) + v,
    decreases s.len(),
{
    let p = s.push((a, v));
    assert(p.len() == s.len() + 1);
    assert(sum_balances(p) == p[0].1 + sum_balances(p.drop_first()));
    if s.len() == 0 {
        assert(p[0] == (a, v));
        assert(p.drop_first() =~= Seq::<(AccountId, u64)>::empty());
        assert(sum_balances(p.drop_first()) == 0);
    } else {
        assert(p[0] == s[0]);
        assert(p.drop_first() =~= s.drop_first().push((a, v)));
        lemma_sum_push(s.drop_first(), a, v);
    }
}

} // verus!

//! Lists with at most one entry per account, in the order in which the accounts came.
use crate::types::AccountId;
use vstd::prelude::*;

verus! {

/// A list of values, each filed under an account.
pub type Ledger<V> = Vec<(AccountId, V)>;

/// Whether something is filed under `who`.
pub open spec fn filed<V>(s: Seq<(AccountId, V)>, who: AccountId) -> bool {
    exists|i: int| 0 <= i < s.len() && (#[trigger] s[i]).0 == who
}

/// Whether no account has two entries.
pub open spec fn distinct<V>(s: Seq<(AccountId, V)>) -> bool {
    forall|i: int, j: int| 0 <= i < j < s.len() ==> (#[trigger] s[i]).0 != (#[trigger] s[j]).0
}

/// What is filed under `who`.
pub open spec fn lookup<V>(s: Seq<(AccountId, V)>, who: AccountId) -> Option<V>
    decreases s.len(),
{
    if s.len() == 0 {
        None
    } else if s.last().0 == who {
        Some(s.last().1)
    } else {
        lookup(s.drop_last(), who)
    }
}

/// The list after `v` is filed under `who`: in the place of what was there, else at the end.
pub open spec fn put<V>(s: Seq<(AccountId, V)>, who: AccountId, v: V) -> Seq<(AccountId, V)> {
    if filed(s, who) {
        Seq::new(
            s.len(),
            |i: int|
                if s[i].0 == who {
                    (who, v)
                } else {
                    s[i]
                },
        )
    } else {
        s.push((who, v))
    }
}

/// Nothing is found exactly under the accounts that have no entry.
pub proof fn lemma_lookup_none<V>(s: Seq<(AccountId, V)>, who: AccountId)
    ensures
        lookup(s, who) is None <==> !filed(s, who),
    decreases s.len(),
{
    if s.len() > 0 {
        let rest = s.drop_last();
        lemma_lookup_none(rest, who);
        if s.last().0 == who {
            assert(s[s.len() - 1].0 == who);
        } else if filed(rest, who) {
            let i = choose|i: int| 0 <= i < rest.len() && (#[trigger] rest[i]).0 == who;
            assert(s[i].0 == who);
        } else if filed(s, who) {
            let i = choose|i: int| 0 <= i < s.len() && (#[trigger] s[i]).0 == who;
            assert(rest[i].0 == who);
        }
    }
}

/// In a list without two entries for one account, each entry is found under its account.
pub proof fn lemma_lookup_entry<V>(s: Seq<(AccountId, V)>, i: int)
    requires
        distinct(s),
        0 <= i < s.len(),
    ensures
        lookup(s, s[i].0) == Some(s[i].1),
    decreases s.len(),
{
    if i < s.len() - 1 {
        assert(s[i].0 != s[s.len() - 1].0);
        assert(s.drop_last()[i] == s[i]);
        lemma_lookup_entry(s.drop_last(), i);
    }
}

/// What is filed under an account is found there, and nothing else has changed.
pub proof fn lemma_lookup_put<V>(s: Seq<(AccountId, V)>, who: AccountId, v: V, other: AccountId)
    requires
        distinct(s),
    ensures
        distinct(put(s, who, v)),
        lookup(put(s, who, v), other) == if other == who {
            Some(v)
        } else {
            lookup(s, other)
        },
{
    let t = put(s, who, v);
    if filed(s, who) {
        lemma_lookup_none(s, other);
        lemma_lookup_none(t, other);
        if filed(s, other) {
            let i = choose|i: int| 0 <= i < s.len() && (#[trigger] s[i]).0 == other;
            lemma_lookup_entry(s, i);
            assert(t[i].0 == other);
            lemma_lookup_entry(t, i);
        } else if filed(t, other) {
            let i = choose|i: int| 0 <= i < t.len() && (#[trigger] t[i]).0 == other;
            assert(s[i].0 == other);
        }
    } else {
        assert forall|i: int, j: int| 0 <= i < j < t.len() implies (#[trigger] t[i]).0 != (
        #[trigger] t[j]).0 by {
            assert(s[i] == t[i]);
            if j < s.len() {
                assert(s[j] == t[j]);
            }
        }
        assert(t.drop_last() =~= s);
    }
}

/// Finds what is filed under `who`.
pub fn find<V: Copy>(entries: &Ledger<V>, who: AccountId) -> (found: Option<V>)
    ensures
        found == lookup(entries@, who),
{
    let mut n: usize = entries.len();
    assert(entries@.take(n as int) =~= entries@);
    while n > 0
        invariant
            n <= entries.len(),
            lookup(entries@, who) == lookup(entries@.take(n as int), who),
        decreases n,
    {
        let ghost prefix = entries@.take(n as int);
        assert(prefix.last() == entries@[n - 1]);
        assert(prefix.drop_last() =~= entries@.take(n - 1));
        n = n - 1;
        let entry: (AccountId, V) = entries[n];
        if entry.0 == who {
            return Some(entry.1);
        }
    }
    None
}

/// Whether no account has two entries.
pub fn is_distinct<V: Copy>(entries: &Ledger<V>) -> (answer: bool)
    ensures
        answer == distinct(entries@),
{
    let mut i: usize = 0;
    while i < entries.len()
        invariant
            i <= entries.len(),
            forall|a: int, b: int|
                0 <= a < b < entries.len() && a < i ==> (#[trigger] entries@[a]).0 != (
                #[trigger] entries@[b]).0,
        decreases entries.len() - i,
    {
        let mut j: usize = i + 1;
        while j < entries.len()
            invariant
                i < j <= entries.len(),
                forall|b: int|
                    i < b < j ==> entries@[i as int].0 != (#[trigger] entries@[b]).0,
            decreases entries.len() - j,
        {
            let first: (AccountId, V) = entries[i];
            let second: (AccountId, V) = entries[j];
            if first.0 == second.0 {
                assert(entries@[i as int].0 == entries@[j as int].0);
                return false;
            }
            j = j + 1;
        }
        i = i + 1;
    }
    true
}

/// Files `v` under `who`.
pub fn file<V: Copy>(entries: &mut Ledger<V>, who: AccountId, v: V)
    ensures
        final(entries)@ == put(old(entries)@, who, v),
{
    let ghost before = entries@;
    let n: usize = entries.len();
    let mut found: bool = false;
    let mut i: usize = 0;
    while i < n
        invariant
            i <= n,
            n == before.len(),
            entries@.len() == n,
            found == exists|j: int| 0 <= j < i && (#[trigger] before[j]).0 == who,
            forall|j: int|
                0 <= j < n ==> #[trigger] entries@[j] == if j < i && before[j].0 == who {
                    (who, v)
                } else {
                    before[j]
                },
        decreases n - i,
    {
        let entry: (AccountId, V) = entries[i];
        if entry.0 == who {
            assert(before[i as int].0 == who);
            entries.set(i, (who, v));
            found = true;
        }
        i = i + 1;
    }
    if found {
        assert(entries@ =~= put(before, who, v));
    } else {
        assert(entries@ =~= before);
        entries.push((who, v));
    }
}

} // verus!

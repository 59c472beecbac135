use vstd::prelude::*;
use crate::errors::Error;

verus! {

/// Balance of each account under a sequence of entries, reading the first
/// entry whose key matches; an account without an entry has balance zero.
spec fn seq_get(s: Seq<(u64, i128)>, account: u64) -> int
    decreases s.len(),
{
    if s.len() == 0 {
        0
    } else if s[0].0 == account {
        s[0].1 as int
    } else {
        seq_get(s.drop_first(), account)
    }
}

/// Sum of all balances recorded in a sequence of entries.
spec fn seq_sum(s: Seq<(u64, i128)>) -> int
    decreases s.len(),
{
    if s.len() == 0 {
        0
    } else {
        s[0].1 + seq_sum(s.drop_first())
    }
}

proof fn lemma_seq_get_first_match(s: Seq<(u64, i128)>, account: u64, i: int)
    requires
        0 <= i < s.len(),
        s[i].0 == account,
        forall|j: int| 0 <= j < i ==> s[j].0 != account,
    ensures
        seq_get(s, account) == s[i].1,
    decreases i,
{
    if i > 0 {
        assert(s.drop_first()[i - 1] == s[i]);
        assert forall|j: int| 0 <= j < i - 1 implies s.drop_first()[j].0 != account by {
            assert(s.drop_first()[j] == s[j + 1]);
        }
        lemma_seq_get_first_match(s.drop_first(), account, i - 1);
    }
}

proof fn lemma_seq_get_no_match(s: Seq<(u64, i128)>, account: u64)
    requires
        forall|j: int| 0 <= j < s.len() ==> s[j].0 != account,
    ensures
        seq_get(s, account) == 0,
    decreases s.len(),
{
    if s.len() > 0 {
        assert forall|j: int| 0 <= j < s.drop_first().len() implies s.drop_first()[j].0 != account by {
            assert(s.drop_first()[j] == s[j + 1]);
        }
        lemma_seq_get_no_match(s.drop_first(), account);
    }
}

proof fn lemma_seq_sum_update(s: Seq<(u64, i128)>, i: int, v: (u64, i128))
    requires
        0 <= i < s.len(),
    ensures
        seq_sum(s.update(i, v)) == seq_sum(s) - s[i].1 + v.1,
    decreases s.len(),
{
    let t = s.update(i, v);
    if i == 0 {
        assert(t[0] == v);
        assert(t.drop_first() =~= s.drop_first());
    } else {
        assert(t[0] == s[0]);
        assert(t.drop_first() =~= s.drop_first().update(i - 1, v));
        lemma_seq_sum_update(s.drop_first(), i - 1, v);
    }
}

proof fn lemma_seq_get_update(s: Seq<(u64, i128)>, i: int, v: (u64, i128), account: u64)
    requires
        0 <= i < s.len(),
        v.0 == s[i].0,
        forall|j: int| 0 <= j < i ==> s[j].0 != s[i].0,
    ensures
        seq_get(s.update(i, v), account) == if account == s[i].0 {
            v.1 as int
        } else {
            seq_get(s, account)
        },
    decreases s.len(),
{
    let t = s.update(i, v);
    if i == 0 {
        assert(t[0] == v);
        assert(t.drop_first() =~= s.drop_first());
    } else {
        assert(t[0] == s[0]);
        assert(t.drop_first() =~= s.drop_first().update(i - 1, v));
        assert forall|j: int| 0 <= j < i - 1 implies (#[trigger] s.drop_first()[j]).0 != s.drop_first()[i - 1].0 by {
            assert(s.drop_first()[j] == s[j + 1]);
            assert(s.drop_first()[i - 1] == s[i]);
        }
        lemma_seq_get_update(s.drop_first(), i - 1, v, account);
    }
}

proof fn lemma_seq_sum_push(s: Seq<(u64, i128)>, v: (u64, i128))
    ensures
        seq_sum(s.push(v)) == seq_sum(s) + v.1,
    decreases s.len(),
{
    let t = s.push(v);
    if s.len() == 0 {
        assert(t[0] == v);
        assert(t.drop_first() =~= Seq::<(u64, i128)>::empty());
        assert(seq_sum(Seq::<(u64, i128)>::empty()) == 0);
    } else {
        assert(t[0] == s[0]);
        assert(t.drop_first() =~= s.drop_first().push(v));
        lemma_seq_sum_push(s.drop_first(), v);
    }
}

proof fn lemma_seq_get_push(s: Seq<(u64, i128)>, v: (u64, i128), account: u64)
    requires
        forall|j: int| 0 <= j < s.len() ==> s[j].0 != v.0,
    ensures
        seq_get(s.push(v), account) == if account == v.0 {
            v.1 as int
        } else {
            seq_get(s, account)
        },
    decreases s.len(),
{
    let t = s.push(v);
    if s.len() == 0 {
        assert(t[0] == v);
        assert(t.drop_first() =~= Seq::<(u64, i128)>::empty());
        if account != v.0 {
            lemma_seq_get_no_match(t.drop_first(), account);
        }
    } else {
        assert(t[0] == s[0]);
        assert(t.drop_first() =~= s.drop_first().push(v));
        assert forall|j: int| 0 <= j < s.drop_first().len() implies s.drop_first()[j].0 != v.0 by {
            assert(s.drop_first()[j] == s[j + 1]);
        }
        lemma_seq_get_push(s.drop_first(), v, account);
    }
}

proof fn lemma_seq_sum_bounds(s: Seq<(u64, i128)>, account: u64)
    requires
        forall|i: int| 0 <= i < s.len() ==> s[i].1 >= 0,
    ensures
        0 <= seq_sum(s),
        0 <= seq_get(s, account) <= seq_sum(s),
        seq_get(s, account) <= i128::MAX,
    decreases s.len(),
{
    if s.len() > 0 {
        assert forall|i: int| 0 <= i < s.drop_first().len() implies s.drop_first()[i].1 >= 0 by {
            assert(s.drop_first()[i] == s[i + 1]);
        }
        lemma_seq_sum_bounds(s.drop_first(), account);
    }
}

proof fn lemma_seq_get_nonzero_has_entry(s: Seq<(u64, i128)>, account: u64)
    requires
        seq_get(s, account) != 0,
    ensures
        exists|i: int| 0 <= i < s.len() && (#[trigger] s[i]).0 == account,
    decreases s.len(),
{
    if s.len() == 0 {
    } else if s[0].0 == account {
        assert(0 <= 0 < s.len() && s[0].0 == account);
    } else {
        lemma_seq_get_nonzero_has_entry(s.drop_first(), account);
        let j = choose|j: int|
            0 <= j < s.drop_first().len() && (#[trigger] s.drop_first()[j]).0 == account;
        assert(s.drop_first()[j] == s[j + 1]);
        assert(0 <= j + 1 < s.len() && (s[j + 1]).0 == account);
    }
}

/// A ledger mapping account identifiers to amounts. The same structure backs
/// both the available-balance ledger and the locked-balance ledger: an entry
/// is created lazily on the first write to an account, absence means zero,
/// and no stored amount is ever negative.
pub struct Ledger {
    entries: Vec<(u64, i128)>,
}

impl Ledger {
    /// Entries hold each account at most once and never hold a negative amount.
    pub closed spec fn wf(self) -> bool {
        &&& forall|i: int, j: int|
            0 <= i < j < self.entries@.len() ==> (#[trigger] self.entries@[i]).0 != (
            #[trigger] self.entries@[j]).0
        &&& forall|i: int| 0 <= i < self.entries@.len() ==> (#[trigger] self.entries@[i]).1 >= 0
    }

    /// The balance recorded for an account; zero when no entry exists.
    pub closed spec fn spec_get(self, account: u64) -> int {
        seq_get(self.entries@, account)
    }

    /// The total value held across all accounts of this ledger.
    pub closed spec fn sum(self) -> int {
        seq_sum(self.entries@)
    }

    /// In a well-formed ledger every balance is non-negative and no single
    /// balance exceeds the total held by the ledger.
    pub proof fn lemma_in_range(self, account: u64)
        requires
            self.wf(),
        ensures
            0 <= self.spec_get(account) <= self.sum(),
            self.spec_get(account) <= i128::MAX,
    {
        lemma_seq_sum_bounds(self.entries@, account);
    }

    /// An empty ledger: every account has balance zero.
    pub fn new() -> (l: Ledger)
        ensures
            l.wf(),
            l.sum() == 0,
            forall|a: u64| l.spec_get(a) == 0,
    {
        Ledger { entries: Vec::new() }
    }

    /// The entries as stored, for an embedding that persists the ledger:
    /// in a well-formed ledger each entry records exactly that account's
    /// balance, and every account holding a nonzero balance appears.
    pub fn items(&self) -> (r: &Vec<(u64, i128)>)
        requires
            self.wf(),
        ensures
            forall|i: int|
                0 <= i < r@.len() ==> self.spec_get((#[trigger] r@[i]).0) == r@[i].1,
            forall|i: int| 0 <= i < r@.len() ==> (#[trigger] r@[i]).1 >= 0,
            forall|a: u64|
                #[trigger] self.spec_get(a) != 0 ==> exists|i: int|
                    0 <= i < r@.len() && (#[trigger] r@[i]).0 == a,
    {
        proof {
            assert forall|a: u64| #[trigger] self.spec_get(a) != 0 implies exists|i: int|
                0 <= i < self.entries@.len() && (#[trigger] self.entries@[i]).0 == a by {
                lemma_seq_get_nonzero_has_entry(self.entries@, a);
            }
            assert forall|i: int|
                0 <= i < self.entries@.len() implies self.spec_get(
                (#[trigger] self.entries@[i]).0,
            ) == self.entries@[i].1 by {
                assert forall|j: int|
                    0 <= j < i implies (#[trigger] self.entries@[j]).0 != self.entries@[i].0 by {}
                lemma_seq_get_first_match(self.entries@, self.entries@[i].0, i);
            }
        }
        &self.entries
    }

    fn find_index(&self, account: u64) -> (r: Option<usize>)
        ensures
            match r {
                Some(i) => i < self.entries@.len() && self.entries@[i as int].0 == account
                    && forall|j: int| 0 <= j < i ==> (#[trigger] self.entries@[j]).0 != account,
                None => forall|j: int|
                    0 <= j < self.entries@.len() ==> (#[trigger] self.entries@[j]).0 != account,
            },
    {
        let n = self.entries.len();
        let mut i: usize = 0;
        while i < n
            invariant
                i <= n,
                n == self.entries@.len(),
                forall|j: int| 0 <= j < i ==> (#[trigger] self.entries@[j]).0 != account,
            decreases n - i,
        {
            if self.entries[i].0 == account {
                return Some(i);
            }
            i += 1;
        }
        None
    }

    /// Read an account's balance; an account never written reads as zero.
    pub fn get(&self, account: u64) -> (r: i128)
        ensures
            r == self.spec_get(account),
    {
        match self.find_index(account) {
            Some(i) => {
                proof {
                    lemma_seq_get_first_match(self.entries@, account, i as int);
                }
                self.entries[i].1
            },
            None => {
                proof {
                    lemma_seq_get_no_match(self.entries@, account);
                }
                0
            },
        }
    }

    /// Increase an account's balance. Exactly the credited account changes,
    /// and the ledger's total grows by the credited amount.
    pub fn credit(&mut self, account: u64, amount: i128)
        requires
            old(self).wf(),
            amount >= 0,
            old(self).spec_get(account) + amount <= i128::MAX,
        ensures
            final(self).wf(),
            final(self).spec_get(account) == old(self).spec_get(account) + amount,
            forall|a: u64| a != account ==> final(self).spec_get(a) == old(self).spec_get(a),
            final(self).sum() == old(self).sum() + amount,
    {
        match self.find_index(account) {
            Some(i) => {
                proof {
                    lemma_seq_get_first_match(self.entries@, account, i as int);
                }
                let v = self.entries[i].1;
                let w: i128 = v + amount;
                self.entries.set(i, (account, w));
                proof {
                    lemma_seq_sum_update(old(self).entries@, i as int, (account, w));
                    assert forall|a: u64|
                        final(self).spec_get(a) == if a == account {
                            old(self).spec_get(a) + amount
                        } else {
                            old(self).spec_get(a)
                        } by {
                        lemma_seq_get_update(old(self).entries@, i as int, (account, w), a);
                    }
                }
            },
            None => {
                proof {
                    lemma_seq_get_no_match(self.entries@, account);
                }
                self.entries.push((account, amount));
                proof {
                    lemma_seq_sum_push(old(self).entries@, (account, amount));
                    assert forall|a: u64|
                        final(self).spec_get(a) == if a == account {
                            old(self).spec_get(a) + amount
                        } else {
                            old(self).spec_get(a)
                        } by {
                        lemma_seq_get_push(old(self).entries@, (account, amount), a);
                    }
                }
            },
        }
    }

    /// Decrease an account's balance. Fails, mutating nothing, when the
    /// current balance is below the requested amount; on success exactly the
    /// debited account changes and the ledger's total shrinks by the amount.
    pub fn debit(&mut self, account: u64, amount: i128) -> (r: Result<(), Error>)
        requires
            old(self).wf(),
            amount >= 0,
        ensures
            final(self).wf(),
            r is Ok <==> old(self).spec_get(account) >= amount,
            r is Err ==> r == Result::<(), Error>::Err(Error::InsufficientBalance) && *final(self)
                == *old(self),
            r is Ok ==> final(self).spec_get(account) == old(self).spec_get(account) - amount
                && (forall|a: u64| a != account ==> final(self).spec_get(a) == old(self).spec_get(
                a,
            )) && final(self).sum() == old(self).sum() - amount,
    {
        match self.find_index(account) {
            Some(i) => {
                proof {
                    lemma_seq_get_first_match(self.entries@, account, i as int);
                }
                let v = self.entries[i].1;
                if v < amount {
                    return Err(Error::InsufficientBalance);
                }
                let w: i128 = v - amount;
                self.entries.set(i, (account, w));
                proof {
                    lemma_seq_sum_update(old(self).entries@, i as int, (account, w));
                    assert forall|a: u64|
                        final(self).spec_get(a) == if a == account {
                            old(self).spec_get(a) - amount
                        } else {
                            old(self).spec_get(a)
                        } by {
                        lemma_seq_get_update(old(self).entries@, i as int, (account, w), a);
                    }
                }
                Ok(())
            },
            None => {
                proof {
                    lemma_seq_get_no_match(self.entries@, account);
                }
                if amount == 0 {
                    Ok(())
                } else {
                    Err(Error::InsufficientBalance)
                }
            },
        }
    }
}

} // verus!

use vstd::prelude::*;
use crate::errors::Error;

verus! {

/// The key of an allowance record: the account whose value may be spent and
/// the account allowed to spend it.
#[derive(Clone, Copy, Debug, PartialEq, Eq, Structural)]
pub struct AllowanceDataKey {
    pub from: u64,
    pub spender: u64,
}

/// An allowance: the amount a spender may still move out of an owner's
/// available balance, and the ledger sequence number past which the
/// allowance no longer authorizes spending.
#[derive(Clone, Copy, Debug, PartialEq, Eq, Structural)]
pub struct AllowanceValue {
    pub amount: i128,
    pub expiration_ledger: u32,
}

/// The key space of the persistent store that an embedding maps the
/// ledger's entities onto.
pub enum DataKey {
    State,
    SeriesMetadata(String),
    Balance(u64),
    LockedBalance(u64),
    Allowance(AllowanceDataKey),
    Admin,
    Config,
}

/// The record stored for an (owner, spender) pair under a sequence of
/// allowance entries, reading the first entry whose key matches.
spec fn allowance_seq_get(
    s: Seq<(AllowanceDataKey, AllowanceValue)>,
    owner: u64,
    spender: u64,
) -> Option<AllowanceValue>
    decreases s.len(),
{
    if s.len() == 0 {
        None
    } else if s[0].0.from == owner && s[0].0.spender == spender {
        Some(s[0].1)
    } else {
        allowance_seq_get(s.drop_first(), owner, spender)
    }
}

proof fn lemma_allowance_seq_get_first_match(
    s: Seq<(AllowanceDataKey, AllowanceValue)>,
    owner: u64,
    spender: u64,
    i: int,
)
    requires
        0 <= i < s.len(),
        s[i].0.from == owner && s[i].0.spender == spender,
        forall|j: int| 0 <= j < i ==> (#[trigger] s[j]).0 != s[i].0,
    ensures
        allowance_seq_get(s, owner, spender) == Some(s[i].1),
    decreases i,
{
    if i > 0 {
        assert(s.drop_first()[i - 1] == s[i]);
        assert forall|j: int| 0 <= j < i - 1 implies (#[trigger] s.drop_first()[j]).0
            != s.drop_first()[i - 1].0 by {
            assert(s.drop_first()[j] == s[j + 1]);
            assert(s.drop_first()[i - 1] == s[i]);
        }
        lemma_allowance_seq_get_first_match(s.drop_first(), owner, spender, i - 1);
    }
}

proof fn lemma_allowance_seq_get_no_match(
    s: Seq<(AllowanceDataKey, AllowanceValue)>,
    owner: u64,
    spender: u64,
)
    requires
        forall|j: int|
            0 <= j < s.len() ==> !((#[trigger] s[j]).0.from == owner && s[j].0.spender == spender),
    ensures
        allowance_seq_get(s, owner, spender) is None,
    decreases s.len(),
{
    if s.len() > 0 {
        assert forall|j: int|
            0 <= j < s.drop_first().len() implies !((#[trigger] s.drop_first()[j]).0.from == owner
            && s.drop_first()[j].0.spender == spender) by {
            assert(s.drop_first()[j] == s[j + 1]);
        }
        lemma_allowance_seq_get_no_match(s.drop_first(), owner, spender);
    }
}

proof fn lemma_allowance_seq_get_update(
    s: Seq<(AllowanceDataKey, AllowanceValue)>,
    i: int,
    v: (AllowanceDataKey, AllowanceValue),
    owner: u64,
    spender: u64,
)
    requires
        0 <= i < s.len(),
        v.0 == s[i].0,
        forall|j: int| 0 <= j < i ==> (#[trigger] s[j]).0 != s[i].0,
    ensures
        allowance_seq_get(s.update(i, v), owner, spender) == if s[i].0.from == owner && s[i
        ].0.spender == spender {
            Some(v.1)
        } else {
            allowance_seq_get(s, owner, spender)
        },
    decreases s.len(),
{
    let t = s.update(i, v);
    if i == 0 {
        assert(t[0] == v);
        assert(t.drop_first() =~= s.drop_first());
    } else {
        assert(t[0] == s[0]);
        assert(t.drop_first() =~= s.drop_first().update(i - 1, v));
        assert forall|j: int| 0 <= j < i - 1 implies (#[trigger] s.drop_first()[j]).0
            != s.drop_first()[i - 1].0 by {
            assert(s.drop_first()[j] == s[j + 1]);
            assert(s.drop_first()[i - 1] == s[i]);
        }
        lemma_allowance_seq_get_update(s.drop_first(), i - 1, v, owner, spender);
    }
}

proof fn lemma_allowance_seq_get_push(
    s: Seq<(AllowanceDataKey, AllowanceValue)>,
    v: (AllowanceDataKey, AllowanceValue),
    owner: u64,
    spender: u64,
)
    requires
        forall|j: int| 0 <= j < s.len() ==> (#[trigger] s[j]).0 != v.0,
    ensures
        allowance_seq_get(s.push(v), owner, spender) == if v.0.from == owner && v.0.spender
            == spender {
            Some(v.1)
        } else {
            allowance_seq_get(s, owner, spender)
        },
    decreases s.len(),
{
    let t = s.push(v);
    if s.len() == 0 {
        assert(t[0] == v);
        assert(t.drop_first() =~= Seq::<(AllowanceDataKey, AllowanceValue)>::empty());
        if !(v.0.from == owner && v.0.spender == spender) {
            lemma_allowance_seq_get_no_match(t.drop_first(), owner, spender);
        }
    } else {
        assert(t[0] == s[0]);
        assert(t.drop_first() =~= s.drop_first().push(v));
        assert forall|j: int| 0 <= j < s.drop_first().len() implies (#[trigger] s.drop_first()[j]).0
            != v.0 by {
            assert(s.drop_first()[j] == s[j + 1]);
        }
        lemma_allowance_seq_get_push(s.drop_first(), v, owner, spender);
    }
}

proof fn lemma_allowance_seq_get_nonneg(
    s: Seq<(AllowanceDataKey, AllowanceValue)>,
    owner: u64,
    spender: u64,
)
    requires
        forall|i: int| 0 <= i < s.len() ==> (#[trigger] s[i]).1.amount >= 0,
    ensures
        match allowance_seq_get(s, owner, spender) {
            Some(v) => v.amount >= 0,
            None => true,
        },
    decreases s.len(),
{
    if s.len() > 0 {
        assert forall|i: int|
            0 <= i < s.drop_first().len() implies (#[trigger] s.drop_first()[i]).1.amount >= 0 by {
            assert(s.drop_first()[i] == s[i + 1]);
        }
        lemma_allowance_seq_get_nonneg(s.drop_first(), owner, spender);
    }
}

/// The registry of delegated-spending allowances. A record is created
/// lazily on the first non-zero approval; a record whose amount is zero is
/// logically absent: reading it returns no allowance.
pub struct AllowanceRegistry {
    entries: Vec<(AllowanceDataKey, AllowanceValue)>,
}

impl AllowanceRegistry {
    /// Entries hold each (owner, spender) pair at most once and never hold
    /// a negative amount.
    pub closed spec fn wf(self) -> bool {
        &&& forall|i: int, j: int|
            0 <= i < j < self.entries@.len() ==> (#[trigger] self.entries@[i]).0 != (
            #[trigger] self.entries@[j]).0
        &&& forall|i: int|
            0 <= i < self.entries@.len() ==> (#[trigger] self.entries@[i]).1.amount >= 0
    }

    /// The record stored for an (owner, spender) pair, zero-amount records
    /// included; absence of any record reads as none.
    pub closed spec fn spec_raw(self, owner: u64, spender: u64) -> Option<AllowanceValue> {
        allowance_seq_get(self.entries@, owner, spender)
    }

    /// What a read observes: the stored record, except that a record whose
    /// amount is zero counts as no allowance at all. An expired record is
    /// still observed as-is; expiration is enforced at spending time.
    pub open spec fn spec_read(self, owner: u64, spender: u64) -> Option<AllowanceValue> {
        match self.spec_raw(owner, spender) {
            Some(v) => if v.amount > 0 {
                Some(v)
            } else {
                None
            },
            None => None,
        }
    }

    /// The amount still spendable at ledger sequence number `now`: the
    /// stored amount while the record has not expired, and zero otherwise.
    pub open spec fn spec_spendable(self, owner: u64, spender: u64, now: u32) -> int {
        match self.spec_raw(owner, spender) {
            Some(v) => if v.expiration_ledger >= now {
                v.amount as int
            } else {
                0
            },
            None => 0,
        }
    }

    /// In a well-formed registry no stored record holds a negative
    /// amount, so the spendable amount of any pair is non-negative.
    pub proof fn lemma_raw_nonneg(self, owner: u64, spender: u64)
        requires
            self.wf(),
        ensures
            match self.spec_raw(owner, spender) {
                Some(v) => v.amount >= 0,
                None => true,
            },
    {
        lemma_allowance_seq_get_nonneg(self.entries@, owner, spender);
    }

    /// An empty registry: no allowance is recorded for any pair.
    pub fn new() -> (r: AllowanceRegistry)
        ensures
            r.wf(),
            forall|o: u64, s: u64| r.spec_raw(o, s) is None,
    {
        AllowanceRegistry { entries: Vec::new() }
    }

    fn find_index(&self, owner: u64, spender: u64) -> (r: Option<usize>)
        ensures
            match r {
                Some(i) => i < self.entries@.len() && self.entries@[i as int].0 == (
                AllowanceDataKey { from: owner, spender }) && forall|j: int|
                    0 <= j < i ==> (#[trigger] self.entries@[j]).0 != (AllowanceDataKey {
                        from: owner,
                        spender,
                    }),
                None => forall|j: int|
                    0 <= j < self.entries@.len() ==> (#[trigger] self.entries@[j]).0 != (
                    AllowanceDataKey { from: owner, spender }),
            },
    {
        let n = self.entries.len();
        let mut i: usize = 0;
        while i < n
            invariant
                i <= n,
                n == self.entries@.len(),
                forall|j: int|
                    0 <= j < i ==> (#[trigger] self.entries@[j]).0 != (AllowanceDataKey {
                        from: owner,
                        spender,
                    }),
            decreases n - i,
        {
            if self.entries[i].0.from == owner && self.entries[i].0.spender == spender {
                return Some(i);
            }
            i += 1;
        }
        None
    }

    /// Overwrite the allowance of a pair unconditionally: there is no
    /// addition semantics, and approving amount zero clears the allowance.
    /// The caller's authorization as the owner is the embedding's duty.
    pub fn approve(
        &mut self,
        owner: u64,
        spender: u64,
        amount: i128,
        expiration_ledger: u32,
    ) -> (r: Result<(), Error>)
        requires
            old(self).wf(),
        ensures
            final(self).wf(),
            r == Result::<(), Error>::Err(Error::NegativeAmount) <==> amount < 0,
            r is Ok <==> amount >= 0,
            r is Err ==> *final(self) == *old(self),
            r is Ok ==> final(self).spec_raw(owner, spender) == Some(
                AllowanceValue { amount, expiration_ledger },
            ),
            r is Ok ==> forall|o: u64, s: u64|
                !(o == owner && s == spender) ==> final(self).spec_raw(o, s) == old(
                    self,
                ).spec_raw(o, s),
    {
        if amount < 0 {
            return Err(Error::NegativeAmount);
        }
        let key = AllowanceDataKey { from: owner, spender };
        let value = AllowanceValue { amount, expiration_ledger };
        match self.find_index(owner, spender) {
            Some(i) => {
                self.entries.set(i, (key, value));
                proof {
                    assert forall|o: u64, s: u64|
                        final(self).spec_raw(o, s) == if o == owner && s == spender {
                            Some(value)
                        } else {
                            old(self).spec_raw(o, s)
                        } by {
                        lemma_allowance_seq_get_update(
                            old(self).entries@,
                            i as int,
                            (key, value),
                            o,
                            s,
                        );
                    }
                }
            },
            None => {
                self.entries.push((key, value));
                proof {
                    assert forall|o: u64, s: u64|
                        final(self).spec_raw(o, s) == if o == owner && s == spender {
                            Some(value)
                        } else {
                            old(self).spec_raw(o, s)
                        } by {
                        lemma_allowance_seq_get_push(old(self).entries@, (key, value), o, s);
                    }
                }
            },
        }
        Ok(())
    }

    /// Read the allowance of a pair: none if never set or if the stored
    /// amount is zero. An expired record is returned as-is.
    pub fn read(&self, owner: u64, spender: u64) -> (r: Option<AllowanceValue>)
        ensures
            r == self.spec_read(owner, spender),
    {
        match self.find_index(owner, spender) {
            Some(i) => {
                proof {
                    lemma_allowance_seq_get_first_match(self.entries@, owner, spender, i as int);
                }
                let v = self.entries[i].1;
                if v.amount > 0 {
                    Some(v)
                } else {
                    None
                }
            },
            None => {
                proof {
                    lemma_allowance_seq_get_no_match(self.entries@, owner, spender);
                }
                None
            },
        }
    }

    /// Spend part of an allowance at ledger sequence number `now`. A record
    /// that has expired authorizes nothing. The spent amount is deducted;
    /// when the remainder reaches zero the record becomes logically absent.
    /// Spending zero changes nothing and always succeeds.
    pub fn spend(&mut self, owner: u64, spender: u64, amount: i128, now: u32) -> (r: Result<
        (),
        Error,
    >)
        requires
            old(self).wf(),
        ensures
            final(self).wf(),
            r == Result::<(), Error>::Err(Error::NegativeAmount) <==> amount < 0,
            r == Result::<(), Error>::Err(Error::InsufficientAllowance) <==> 0 <= amount && old(
                self,
            ).spec_spendable(owner, spender, now) < amount,
            r is Ok <==> 0 <= amount && old(self).spec_spendable(owner, spender, now) >= amount,
            r is Err ==> *final(self) == *old(self),
            r is Ok && amount == 0 ==> *final(self) == *old(self),
            r is Ok && amount > 0 ==> (old(self).spec_raw(owner, spender) matches Some(w)
                && final(self).spec_raw(owner, spender) == Some(
                AllowanceValue {
                    amount: (old(self).spec_spendable(owner, spender, now) - amount) as i128,
                    expiration_ledger: w.expiration_ledger,
                },
            )),
            r is Ok ==> forall|o: u64, s: u64|
                !(o == owner && s == spender) ==> final(self).spec_raw(o, s) == old(
                    self,
                ).spec_raw(o, s),
    {
        if amount < 0 {
            return Err(Error::NegativeAmount);
        }
        if amount == 0 {
            proof {
                lemma_allowance_seq_get_nonneg(self.entries@, owner, spender);
            }
            return Ok(());
        }
        match self.find_index(owner, spender) {
            Some(i) => {
                proof {
                    lemma_allowance_seq_get_first_match(self.entries@, owner, spender, i as int);
                }
                let v = self.entries[i].1;
                let spendable: i128 = if v.expiration_ledger >= now {
                    v.amount
                } else {
                    0
                };
                if spendable < amount {
                    return Err(Error::InsufficientAllowance);
                }
                let key = AllowanceDataKey { from: owner, spender };
                let value = AllowanceValue {
                    amount: spendable - amount,
                    expiration_ledger: v.expiration_ledger,
                };
                self.entries.set(i, (key, value));
                proof {
                    assert forall|o: u64, s: u64|
                        final(self).spec_raw(o, s) == if o == owner && s == spender {
                            Some(value)
                        } else {
                            old(self).spec_raw(o, s)
                        } by {
                        lemma_allowance_seq_get_update(
                            old(self).entries@,
                            i as int,
                            (key, value),
                            o,
                            s,
                        );
                    }
                }
                Ok(())
            },
            None => {
                proof {
                    lemma_allowance_seq_get_no_match(self.entries@, owner, spender);
                }
                Err(Error::InsufficientAllowance)
            },
        }
    }
}

} // verus!

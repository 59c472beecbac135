use vstd::prelude::*;

verus! {

/// The metadata of one series: a named batch of tokenized value sharing
/// asset type, currency, delivery terms and involved parties. Created once
/// per series at first mint; minting a future contract fills in the buyer
/// and the guarantee agent.
#[derive(Clone, Debug)]
pub struct SeriesMetadata {
    pub id: String,
    pub asset_type: String,
    pub currency: String,
    pub delivery_date: u64,
    pub producer: u64,
    pub storage_facility: String,
    pub buyer: Option<u64>,
    pub location: String,
    pub quantity_kg: u64,
    pub contract_hash: String,
    pub is_future: bool,
    pub guarantee_agent: Option<u64>,
}

/// The metadata stored for a series identifier under a sequence of entries,
/// reading the first entry whose key matches.
spec fn series_seq_get(s: Seq<(String, SeriesMetadata)>, id: Seq<char>) -> Option<SeriesMetadata>
    decreases s.len(),
{
    if s.len() == 0 {
        None
    } else if s[0].0@ == id {
        Some(s[0].1)
    } else {
        series_seq_get(s.drop_first(), id)
    }
}

proof fn lemma_series_seq_get_first_match(s: Seq<(String, SeriesMetadata)>, id: Seq<char>, i: int)
    requires
        0 <= i < s.len(),
        s[i].0@ == id,
        forall|j: int| 0 <= j < i ==> (#[trigger] s[j]).0@ != id,
    ensures
        series_seq_get(s, id) == Some(s[i].1),
    decreases i,
{
    if i > 0 {
        assert(s.drop_first()[i - 1] == s[i]);
        assert forall|j: int| 0 <= j < i - 1 implies (#[trigger] s.drop_first()[j]).0@ != id by {
            assert(s.drop_first()[j] == s[j + 1]);
        }
        lemma_series_seq_get_first_match(s.drop_first(), id, i - 1);
    }
}

proof fn lemma_series_seq_get_no_match(s: Seq<(String, SeriesMetadata)>, id: Seq<char>)
    requires
        forall|j: int| 0 <= j < s.len() ==> (#[trigger] s[j]).0@ != id,
    ensures
        series_seq_get(s, id) is None,
    decreases s.len(),
{
    if s.len() > 0 {
        assert forall|j: int|
            0 <= j < s.drop_first().len() implies (#[trigger] s.drop_first()[j]).0@ != id by {
            assert(s.drop_first()[j] == s[j + 1]);
        }
        lemma_series_seq_get_no_match(s.drop_first(), id);
    }
}

proof fn lemma_series_seq_get_update(
    s: Seq<(String, SeriesMetadata)>,
    i: int,
    v: (String, SeriesMetadata),
    id: Seq<char>,
)
    requires
        0 <= i < s.len(),
        v.0@ == s[i].0@,
        forall|j: int| 0 <= j < i ==> (#[trigger] s[j]).0@ != s[i].0@,
    ensures
        series_seq_get(s.update(i, v), id) == if id == s[i].0@ {
            Some(v.1)
        } else {
            series_seq_get(s, id)
        },
    decreases s.len(),
{
    let t = s.update(i, v);
    if i == 0 {
        assert(t[0] == v);
        assert(t.drop_first() =~= s.drop_first());
    } else {
        assert(t[0] == s[0]);
        assert(t.drop_first() =~= s.drop_first().update(i - 1, v));
        assert forall|j: int| 0 <= j < i - 1 implies (#[trigger] s.drop_first()[j]).0@
            != s.drop_first()[i - 1].0@ by {
            assert(s.drop_first()[j] == s[j + 1]);
            assert(s.drop_first()[i - 1] == s[i]);
        }
        lemma_series_seq_get_update(s.drop_first(), i - 1, v, id);
    }
}

proof fn lemma_series_seq_get_push(
    s: Seq<(String, SeriesMetadata)>,
    v: (String, SeriesMetadata),
    id: Seq<char>,
)
    requires
        forall|j: int| 0 <= j < s.len() ==> (#[trigger] s[j]).0@ != v.0@,
    ensures
        series_seq_get(s.push(v), id) == if id == v.0@ {
            Some(v.1)
        } else {
            series_seq_get(s, id)
        },
    decreases s.len(),
{
    let t = s.push(v);
    if s.len() == 0 {
        assert(t[0] == v);
        assert(t.drop_first() =~= Seq::<(String, SeriesMetadata)>::empty());
        if id != v.0@ {
            lemma_series_seq_get_no_match(t.drop_first(), id);
        }
    } else {
        assert(t[0] == s[0]);
        assert(t.drop_first() =~= s.drop_first().push(v));
        assert forall|j: int| 0 <= j < s.drop_first().len() implies (#[trigger] s.drop_first()[j]).0@
            != v.0@ by {
            assert(s.drop_first()[j] == s[j + 1]);
        }
        lemma_series_seq_get_push(s.drop_first(), v, id);
    }
}

proof fn lemma_series_seq_get_some_has_entry(s: Seq<(String, SeriesMetadata)>, id: Seq<char>)
    requires
        series_seq_get(s, id) is Some,
    ensures
        exists|i: int| 0 <= i < s.len() && (#[trigger] s[i]).0@ == id,
    decreases s.len(),
{
    if s.len() == 0 {
    } else if s[0].0@ == id {
        assert(0 <= 0 < s.len() && s[0].0@ == id);
    } else {
        lemma_series_seq_get_some_has_entry(s.drop_first(), id);
        let j = choose|j: int|
            0 <= j < s.drop_first().len() && (#[trigger] s.drop_first()[j]).0@ == id;
        assert(s.drop_first()[j] == s[j + 1]);
        assert(0 <= j + 1 < s.len() && (s[j + 1]).0@ == id);
    }
}

/// The registry of series metadata, keyed by series identifier. A series is
/// registered at first mint into it; re-minting under an existing
/// identifier overwrites the stored metadata whole (last write wins).
pub struct SeriesRegistry {
    entries: Vec<(String, SeriesMetadata)>,
}

impl SeriesRegistry {
    /// Entries hold each series identifier at most once.
    pub closed spec fn wf(self) -> bool {
        forall|i: int, j: int|
            0 <= i < j < self.entries@.len() ==> (#[trigger] self.entries@[i]).0@ != (
            #[trigger] self.entries@[j]).0@
    }

    /// The metadata registered under a series identifier.
    pub closed spec fn spec_get(self, id: Seq<char>) -> Option<SeriesMetadata> {
        series_seq_get(self.entries@, id)
    }

    /// Whether any series is registered under the identifier.
    pub open spec fn contains(self, id: Seq<char>) -> bool {
        self.spec_get(id) is Some
    }

    /// An empty registry: no series is registered.
    pub fn new() -> (r: SeriesRegistry)
        ensures
            r.wf(),
            forall|id: Seq<char>| r.spec_get(id) is None,
    {
        SeriesRegistry { entries: Vec::new() }
    }

    /// The entries as stored, for an embedding that persists the
    /// registry: in a well-formed registry each entry records exactly the
    /// metadata registered under its identifier, and every registered
    /// series appears.
    pub fn items(&self) -> (r: &Vec<(String, SeriesMetadata)>)
        requires
            self.wf(),
        ensures
            forall|i: int|
                0 <= i < r@.len() ==> self.spec_get((#[trigger] r@[i]).0@) == Some(r@[i].1),
            forall|id: Seq<char>|
                #[trigger] self.spec_get(id) is Some ==> exists|i: int|
                    0 <= i < r@.len() && (#[trigger] r@[i]).0@ == id,
    {
        proof {
            assert forall|id: Seq<char>| #[trigger] self.spec_get(id) is Some implies exists|
                i: int,
            | 0 <= i < self.entries@.len() && (#[trigger] self.entries@[i]).0@ == id by {
                lemma_series_seq_get_some_has_entry(self.entries@, id);
            }
            assert forall|i: int|
                0 <= i < self.entries@.len() implies self.spec_get(
                (#[trigger] self.entries@[i]).0@,
            ) == Some(self.entries@[i].1) by {
                assert forall|j: int|
                    0 <= j < i implies (#[trigger] self.entries@[j]).0@ != self.entries@[i].0@ by {}
                lemma_series_seq_get_first_match(self.entries@, self.entries@[i].0@, i);
            }
        }
        &self.entries
    }

    fn find_index(&self, id: &String) -> (r: Option<usize>)
        ensures
            match r {
                Some(i) => i < self.entries@.len() && self.entries@[i as int].0@ == id@ && forall|
                    j: int,
                |
                    0 <= j < i ==> (#[trigger] self.entries@[j]).0@ != id@,
                None => forall|j: int|
                    0 <= j < self.entries@.len() ==> (#[trigger] self.entries@[j]).0@ != id@,
            },
    {
        let n = self.entries.len();
        let mut i: usize = 0;
        while i < n
            invariant
                i <= n,
                n == self.entries@.len(),
                forall|j: int| 0 <= j < i ==> (#[trigger] self.entries@[j]).0@ != id@,
            decreases n - i,
        {
            if self.entries[i].0 == *id {
                return Some(i);
            }
            i += 1;
        }
        None
    }

    /// Look a series up by its identifier.
    pub fn get(&self, id: &String) -> (r: Option<&SeriesMetadata>)
        ensures
            match r {
                Some(m) => self.spec_get(id@) == Some(*m),
                None => self.spec_get(id@) is None,
            },
    {
        match self.find_index(id) {
            Some(i) => {
                proof {
                    lemma_series_seq_get_first_match(self.entries@, id@, i as int);
                }
                Some(&self.entries[i].1)
            },
            None => {
                proof {
                    lemma_series_seq_get_no_match(self.entries@, id@);
                }
                None
            },
        }
    }

    /// Register metadata under an identifier, overwriting whatever was
    /// registered there before and leaving every other series unchanged.
    pub fn set(&mut self, id: String, metadata: SeriesMetadata)
        requires
            old(self).wf(),
        ensures
            final(self).wf(),
            final(self).spec_get(id@) == Some(metadata),
            forall|o: Seq<char>| o != id@ ==> final(self).spec_get(o) == old(self).spec_get(o),
    {
        match self.find_index(&id) {
            Some(i) => {
                self.entries.set(i, (id, metadata));
                proof {
                    assert forall|o: Seq<char>|
                        final(self).spec_get(o) == if o == old(self).entries@[i as int].0@ {
                            Some(metadata)
                        } else {
                            old(self).spec_get(o)
                        } by {
                        lemma_series_seq_get_update(
                            old(self).entries@,
                            i as int,
                            final(self).entries@[i as int],
                            o,
                        );
                    }
                }
            },
            None => {
                self.entries.push((id, metadata));
                proof {
                    assert forall|o: Seq<char>|
                        final(self).spec_get(o) == if o == final(self).entries@.last().0@ {
                            Some(metadata)
                        } else {
                            old(self).spec_get(o)
                        } by {
                        lemma_series_seq_get_push(
                            old(self).entries@,
                            final(self).entries@.last(),
                            o,
                        );
                    }
                }
            },
        }
    }
}

} // verus!

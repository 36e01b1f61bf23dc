use vstd::pervasive::VecAdditionalExecFns;
use vstd::prelude::*;

verus! {

/// The effective header mapping built up by a sequence of (key, value)
/// pairs: a later pair for a key overrides an earlier one.
pub open spec fn entries_map(es: Seq<(String, String)>) -> Map<Seq<char>, Seq<char>>
    decreases es.len(),
{
    if es.len() == 0 {
        Map::empty()
    } else {
        entries_map(es.drop_last()).insert(es.last().0@, es.last().1@)
    }
}

proof fn lemma_entries_map_found(es: Seq<(String, String)>, i: int, k: Seq<char>)
    requires
        0 <= i < es.len(),
        es[i].0@ == k,
        forall|j: int| i < j < es.len() ==> (#[trigger] es[j]).0@ != k,
    ensures
        entries_map(es).contains_key(k),
        entries_map(es)[k] == es[i].1@,
    decreases es.len(),
{
    if i < es.len() - 1 {
        assert(es.drop_last()[i] == es[i]);
        assert(forall|j: int|
            i < j < es.drop_last().len() ==> (#[trigger] es.drop_last()[j]).0@ != k);
        lemma_entries_map_found(es.drop_last(), i, k);
        assert(es.last().0@ != k);
    }
}

proof fn lemma_entries_map_absent(es: Seq<(String, String)>, k: Seq<char>)
    requires
        forall|i: int| 0 <= i < es.len() ==> (#[trigger] es[i]).0@ != k,
    ensures
        !entries_map(es).contains_key(k),
    decreases es.len(),
{
    if es.len() > 0 {
        assert(forall|i: int|
            0 <= i < es.drop_last().len() ==> (#[trigger] es.drop_last()[i]).0@ != k);
        lemma_entries_map_absent(es.drop_last(), k);
    }
}

proof fn lemma_entries_map_update(es: Seq<(String, String)>, j: int, k: String, v: String)
    requires
        0 <= j < es.len(),
        es[j].0@ == k@,
        forall|i1: int, i2: int|
            0 <= i1 < i2 < es.len() ==> (#[trigger] es[i1]).0@ != (#[trigger] es[i2]).0@,
    ensures
        entries_map(es.update(j, (k, v))) == entries_map(es).insert(k@, v@),
    decreases es.len(),
{
    let es2 = es.update(j, (k, v));
    if j == es.len() - 1 {
        assert(es2.drop_last() =~= es.drop_last());
        assert(es2.last() == (k, v));
        assert(entries_map(es.drop_last()).insert(es.last().0@, es.last().1@).insert(k@, v@)
            =~= entries_map(es.drop_last()).insert(k@, v@));
    } else {
        assert(es2.drop_last() =~= es.drop_last().update(j, (k, v)));
        assert(es2.last() == es.last());
        assert(es.drop_last()[j] == es[j]);
        assert(forall|i1: int, i2: int|
            0 <= i1 < i2 < es.drop_last().len() ==> (#[trigger] es.drop_last()[i1]).0@ != (
            #[trigger] es.drop_last()[i2]).0@);
        lemma_entries_map_update(es.drop_last(), j, k, v);
        assert(es.last().0@ != k@);
        assert(entries_map(es.drop_last()).insert(k@, v@).insert(es.last().0@, es.last().1@)
            =~= entries_map(es.drop_last()).insert(es.last().0@, es.last().1@).insert(k@, v@));
    }
}

/// Request headers under construction: one stored entry per distinct key,
/// with a later insert for a key overriding the earlier value in place.
pub struct Headers {
    entries: Vec<(String, String)>,
}

impl View for Headers {
    type V = Map<Seq<char>, Seq<char>>;

    closed spec fn view(&self) -> Map<Seq<char>, Seq<char>> {
        entries_map(self.entries@)
    }
}

impl Headers {
    /// The stored pairs, in first-insertion order of their keys.
    pub closed spec fn pairs(self) -> Seq<(String, String)> {
        self.entries@
    }

    /// No two stored entries share a key.
    pub open spec fn wf(self) -> bool {
        forall|i1: int, i2: int|
            0 <= i1 < i2 < self.pairs().len() ==> (#[trigger] self.pairs()[i1]).0@ != (
            #[trigger] self.pairs()[i2]).0@
    }

    /// An empty header collection.
    pub fn new() -> (h: Headers)
        ensures
            h.wf(),
            h@ == Map::<Seq<char>, Seq<char>>::empty(),
            h.pairs() == Seq::<(String, String)>::empty(),
    {
        Headers { entries: Vec::new() }
    }

    /// Add one header: a later insert for an already-present key overrides
    /// the stored value (last write wins); a new key is appended, so no
    /// entry is ever silently lost.
    pub fn insert(&mut self, key: String, value: String)
        requires
            old(self).wf(),
        ensures
            final(self).wf(),
            final(self)@ == old(self)@.insert(key@, value@),
    {
        let ghost gk = key;
        let ghost gv = value;
        let ghost old_es = self.entries@;
        proof {
            assert forall|i1: int, i2: int|
                0 <= i1 < i2 < old_es.len() implies (#[trigger] old_es[i1]).0@ != (
            #[trigger] old_es[i2]).0@ by {
                assert(self.pairs()[i1].0@ != self.pairs()[i2].0@);
            }
        }
        let mut idx: usize = 0;
        let mut found: Option<usize> = None;
        while idx < self.entries.len()
            invariant
                idx <= self.entries@.len(),
                match found {
                    Some(f) => f < self.entries@.len() && self.entries@[f as int].0@ == key@,
                    None => forall|j: int|
                        0 <= j < idx ==> (#[trigger] self.entries@[j]).0@ != key@,
                },
            decreases self.entries@.len() - idx,
        {
            if self.entries[idx].0 == key {
                found = Some(idx);
            }
            idx = idx + 1;
        }
        match found {
            Some(f) => {
                self.entries.set(f, (key, value));
                proof {
                    lemma_entries_map_update(old_es, f as int, gk, gv);
                    assert forall|i1: int, i2: int|
                        0 <= i1 < i2 < self.entries@.len() implies (#[trigger] self.entries@[i1]).0@
                        != (#[trigger] self.entries@[i2]).0@ by {
                        assert(old_es[i1].0@ != old_es[i2].0@);
                        if i1 == f as int {
                            assert(self.entries@[i1].0@ == old_es[f as int].0@);
                            assert(self.entries@[i2] == old_es[i2]);
                        } else if i2 == f as int {
                            assert(self.entries@[i2].0@ == old_es[f as int].0@);
                            assert(self.entries@[i1] == old_es[i1]);
                        } else {
                            assert(self.entries@[i1] == old_es[i1]);
                            assert(self.entries@[i2] == old_es[i2]);
                        }
                    }
                }
            },
            None => {
                self.entries.push((key, value));
                proof {
                    assert(self.entries@.drop_last() =~= old_es);
                    assert(self.entries@.last() == (gk, gv));
                    assert forall|i1: int, i2: int|
                        0 <= i1 < i2 < self.entries@.len() implies (#[trigger] self.entries@[i1]).0@
                        != (#[trigger] self.entries@[i2]).0@ by {
                        if i2 == self.entries@.len() - 1 {
                            assert(self.entries@[i1] == old_es[i1]);
                            assert(old_es[i1].0@ != key@);
                        } else {
                            assert(self.entries@[i1] == old_es[i1]);
                            assert(self.entries@[i2] == old_es[i2]);
                            assert(old_es[i1].0@ != old_es[i2].0@);
                        }
                    }
                }
            },
        }
    }

    /// Look a key up in the effective mapping.
    pub fn get(&self, key: &String) -> (r: Option<&String>)
        requires
            self.wf(),
        ensures
            match r {
                Some(v) => self@.contains_key(key@) && v@ == self@[key@],
                None => !self@.contains_key(key@),
            },
    {
        let mut idx: usize = 0;
        let mut found: Option<usize> = None;
        while idx < self.entries.len()
            invariant
                idx <= self.entries@.len(),
                match found {
                    Some(f) => f < self.entries@.len() && self.entries@[f as int].0@ == key@,
                    None => forall|j: int|
                        0 <= j < idx ==> (#[trigger] self.entries@[j]).0@ != key@,
                },
            decreases self.entries@.len() - idx,
        {
            if self.entries[idx].0 == *key {
                found = Some(idx);
            }
            idx = idx + 1;
        }
        match found {
            Some(f) => {
                proof {
                    assert forall|j: int|
                        f < j < self.entries@.len() implies (#[trigger] self.entries@[j]).0@
                        != key@ by {
                        assert(self.pairs()[f as int].0@ != self.pairs()[j].0@);
                    }
                    lemma_entries_map_found(self.entries@, f as int, key@);
                }
                Some(&self.entries[f].1)
            },
            None => {
                proof {
                    lemma_entries_map_absent(self.entries@, key@);
                }
                None
            },
        }
    }

    /// How many distinct headers are stored.
    pub fn len(&self) -> (n: usize)
        ensures
            n == self.pairs().len(),
    {
        self.entries.len()
    }

    /// The stored pairs, for the pipeline to apply one request header each:
    /// every handed-out pair is effective in the mapping.
    pub fn entries(&self) -> (r: &Vec<(String, String)>)
        requires
            self.wf(),
        ensures
            r@ == self.pairs(),
            forall|i: int|
                0 <= i < self.pairs().len() ==> self@.contains_key(
                    (#[trigger] self.pairs()[i]).0@,
                ) && self@[self.pairs()[i].0@] == self.pairs()[i].1@,
    {
        proof {
            assert forall|i: int|
                0 <= i < self.pairs().len() implies self@.contains_key(
                (#[trigger] self.pairs()[i]).0@,
            ) && self@[self.pairs()[i].0@] == self.pairs()[i].1@ by {
                assert forall|j: int|
                    i < j < self.entries@.len() implies (#[trigger] self.entries@[j]).0@
                    != self.entries@[i].0@ by {
                    assert(self.pairs()[i].0@ != self.pairs()[j].0@);
                }
                lemma_entries_map_found(self.entries@, i, self.entries@[i].0@);
            }
        }
        &self.entries
    }
}

/// Header override law: writing a value for a key and then a second value
/// for the same key leaves the second value as the effective one, exactly as
/// if the first write had never happened.
pub proof fn lemma_header_override(
    m: Map<Seq<char>, Seq<char>>,
    k: Seq<char>,
    v1: Seq<char>,
    v2: Seq<char>,
)
    ensures
        m.insert(k, v1).insert(k, v2) == m.insert(k, v2),
{
    assert(m.insert(k, v1).insert(k, v2) =~= m.insert(k, v2));
}

} // verus!

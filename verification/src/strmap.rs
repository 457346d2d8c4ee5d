//! An ordered map from strings, kept as a vector sorted by key.

use vstd::prelude::*;

use crate::text;

verus! {

/// Strictly ascending in the order of strings.
pub open spec fn ascending(keys: Seq<Seq<char>>) -> bool {
    forall|i: int, j: int|
        0 <= i < j < keys.len() ==> text::lex_lt(#[trigger] keys[i], #[trigger] keys[j])
}

/// A map from strings to values that walks its keys in ascending order.
#[derive(Debug)]
pub struct StrMap<V> {
    entries: Vec<(String, V)>,
}

spec fn entry_keys<V>(entries: Seq<(String, V)>) -> Seq<Seq<char>> {
    entries.map_values(|e: (String, V)| e.0@)
}

spec fn contents<V>(entries: Seq<(String, V)>) -> Map<Seq<char>, V> {
    Map::new(
        |k: Seq<char>| entry_keys(entries).contains(k),
        |k: Seq<char>| entries[entry_keys(entries).index_of(k)].1,
    )
}

impl<V> View for StrMap<V> {
    type V = Map<Seq<char>, V>;

    closed spec fn view(&self) -> Map<Seq<char>, V> {
        contents(self.entries@)
    }
}

proof fn lemma_ascending_distinct(keys: Seq<Seq<char>>, i: int, j: int)
    requires
        ascending(keys),
        0 <= i < keys.len(),
        0 <= j < keys.len(),
        keys[i] == keys[j],
    ensures
        i == j,
{
    text::lemma_lex_irreflexive(keys[i]);
}

proof fn lemma_contents_at<V>(entries: Seq<(String, V)>, i: int)
    requires
        ascending(entry_keys(entries)),
        0 <= i < entries.len(),
    ensures
        contents(entries).contains_key(entries[i].0@),
        contents(entries)[entries[i].0@] == entries[i].1,
{
    let keys = entry_keys(entries);
    assert(keys[i] == entries[i].0@);
    assert(keys.contains(keys[i]));
    let j = keys.index_of(keys[i]);
    lemma_ascending_distinct(keys, i, j);
}

impl<V> StrMap<V> {
    #[verifier::type_invariant]
    spec fn ordered(self) -> bool {
        ascending(entry_keys(self.entries@))
    }

    /// The keys in the order in which they are walked.
    pub closed spec fn key_seq(&self) -> Seq<Seq<char>> {
        entry_keys(self.entries@)
    }

    /// What is walked are the keys of the map.
    pub proof fn lemma_key_seq(&self)
        ensures
            forall|k: Seq<char>| #[trigger]
                self@.contains_key(k) <==> self.key_seq().contains(k),
    {
    }

    /// The map without entries.
    pub fn new() -> (r: StrMap<V>)
        ensures
            r@ == Map::<Seq<char>, V>::empty(),
            r.key_seq() == Seq::<Seq<char>>::empty(),
    {
        let r = StrMap { entries: Vec::new() };
        assert(r@ =~= Map::<Seq<char>, V>::empty());
        r
    }

    /// How many keys the map has.
    pub fn len(&self) -> (r: usize)
        ensures
            r == self.key_seq().len(),
    {
        self.entries.len()
    }

    /// The key at position `i` of the walk, and its value.
    pub fn at(&self, i: usize) -> (r: (&String, &V))
        requires
            i < self.key_seq().len(),
        ensures
            r.0@ == self.key_seq()[i as int],
            self@.contains_key(r.0@),
            *r.1 == self@[r.0@],
            ascending(self.key_seq()),
    {
        proof {
            use_type_invariant(self);
            lemma_contents_at(self.entries@, i as int);
        }
        (&self.entries[i].0, &self.entries[i].1)
    }

    /// The keys in ascending order.
    pub fn keys(&self) -> (r: Vec<String>)
        ensures
            text::views(r@) == self.key_seq(),
            ascending(self.key_seq()),
    {
        proof {
            use_type_invariant(self);
        }
        let mut r: Vec<String> = Vec::new();
        for i in 0..self.entries.len()
            invariant
                text::views(r@) == self.key_seq().take(i as int),
        {
            let ghost before = text::views(r@);
            r.push(self.entries[i].0.clone());
            assert(text::views(r@) =~= before.push(self.key_seq()[i as int]));
            assert(self.key_seq().take(i + 1) =~= self.key_seq().take(i as int).push(
                self.key_seq()[i as int],
            ));
        }
        assert(self.key_seq().take(self.key_seq().len() as int) =~= self.key_seq());
        r
    }

    /// The first position whose key does not sort before `key`.
    fn position(&self, key: &str) -> (r: usize)
        ensures
            r <= self.entries.len(),
            forall|i: int| 0 <= i < r ==> text::lex_lt(#[trigger] self.key_seq()[i], key@),
            r < self.entries.len() ==> !text::lex_lt(self.key_seq()[r as int], key@),
            r < self.entries.len() && self.key_seq()[r as int] != key@ ==> text::lex_lt(
                key@,
                self.key_seq()[r as int],
            ),
            self@.contains_key(key@) <==> r < self.entries.len() && self.key_seq()[r as int]
                == key@,
    {
        let mut r: usize = 0;
        while r < self.entries.len() && text::str_lt(self.entries[r].0.as_str(), key)
            invariant
                r <= self.entries.len(),
                forall|i: int| 0 <= i < r ==> text::lex_lt(#[trigger] self.key_seq()[i], key@),
            decreases self.entries.len() - r,
        {
            assert(self.key_seq()[r as int] == self.entries@[r as int].0@);
            r = r + 1;
        }
        proof {
            use_type_invariant(self);
            let keys = self.key_seq();
            if r < keys.len() {
                text::lemma_lex_total(keys[r as int], key@);
            }
            if keys.contains(key@) {
                let i = keys.index_of(key@);
                text::lemma_lex_irreflexive(key@);
                if r < i {
                    text::lemma_lex_total(keys[r as int], key@);
                }
            }
        }
        r
    }

    /// The value stored under `key`.
    pub fn get(&self, key: &str) -> (r: Option<&V>)
        ensures
            match r {
                Some(v) => self@.contains_key(key@) && *v == self@[key@],
                None => !self@.contains_key(key@),
            },
    {
        let p: usize = self.position(key);
        if p < self.entries.len() && text::str_eq(self.entries[p].0.as_str(), key) {
            proof {
                use_type_invariant(self);
                lemma_contents_at(self.entries@, p as int);
            }
            Some(&self.entries[p].1)
        } else {
            None
        }
    }

    /// Whether the map has a value under `key`.
    pub fn contains_key(&self, key: &str) -> (r: bool)
        ensures
            r == self@.contains_key(key@),
    {
        self.get(key).is_some()
    }

    /// Stores `value` under `key`, in place of what was there.
    pub fn insert(&mut self, key: String, value: V)
        ensures
            final(self)@ == old(self)@.insert(key@, value),
    {
        let p: usize = self.position(key.as_str());
        proof {
            use_type_invariant(&*self);
        }
        let mut entries: Vec<(String, V)> = Vec::new();
        std::mem::swap(&mut entries, &mut self.entries);
        let ghost before = entries@;
        let present: bool = p < entries.len() && text::str_eq(entries[p].0.as_str(), key.as_str());
        if present {
            entries.set(p, (key, value));
            proof {
                lemma_replaced(before, p as int, (key, value));
            }
        } else {
            entries.insert(p, (key, value));
            proof {
                lemma_inserted(before, p as int, (key, value));
            }
        }
        self.entries = entries;
    }

    /// Removes `key` and its value.
    pub fn remove(&mut self, key: &str)
        ensures
            final(self)@ == old(self)@.remove(key@),
    {
        let p: usize = self.position(key);
        proof {
            use_type_invariant(&*self);
        }
        let mut entries: Vec<(String, V)> = Vec::new();
        std::mem::swap(&mut entries, &mut self.entries);
        let ghost before = entries@;
        let present: bool = p < entries.len() && text::str_eq(entries[p].0.as_str(), key);
        if present {
            let _ = entries.remove(p);
            proof {
                lemma_removed(before, p as int);
            }
        } else {
            assert(contents(before).remove(key@) =~= contents(before));
        }
        self.entries = entries;
    }
}

impl<V> Default for StrMap<V> {
    fn default() -> (r: Self)
        ensures
            r@ == Map::<Seq<char>, V>::empty(),
            r.key_seq() == Seq::<Seq<char>>::empty(),
    {
        StrMap::new()
    }
}

impl<V: Clone> Clone for StrMap<V> {
    fn clone(&self) -> (r: Self)
        ensures
            r.key_seq() == self.key_seq(),
            r@.dom() == self@.dom(),
            forall|k: Seq<char>| #[trigger]
                self@.contains_key(k) ==> cloned::<V>(self@[k], r@[k]),
    {
        proof {
            use_type_invariant(self);
        }
        let mut entries: Vec<(String, V)> = Vec::new();
        for i in 0..self.entries.len()
            invariant
                entries@.len() == i,
                forall|j: int|
                    0 <= j < i ==> (#[trigger] entries@[j]).0@ == self.entries@[j].0@
                        && cloned::<V>(self.entries@[j].1, entries@[j].1),
        {
            entries.push((self.entries[i].0.clone(), self.entries[i].1.clone()));
        }
        proof {
            lemma_cloned(self.entries@, entries@);
        }
        StrMap { entries }
    }
}

proof fn lemma_cloned<V: Clone>(before: Seq<(String, V)>, after: Seq<(String, V)>)
    requires
        ascending(entry_keys(before)),
        after.len() == before.len(),
        forall|j: int|
            0 <= j < after.len() ==> (#[trigger] after[j]).0@ == before[j].0@ && cloned::<V>(
                before[j].1,
                after[j].1,
            ),
    ensures
        entry_keys(after) == entry_keys(before),
        contents(after).dom() == contents(before).dom(),
        forall|k: Seq<char>| #[trigger]
            contents(before).contains_key(k) ==> cloned::<V>(
                contents(before)[k],
                contents(after)[k],
            ),
{
    assert(entry_keys(after) =~= entry_keys(before));
    assert(contents(after).dom() =~= contents(before).dom());
    assert forall|k: Seq<char>| #[trigger] contents(before).contains_key(k) implies cloned::<V>(
        contents(before)[k],
        contents(after)[k],
    ) by {
        let i = entry_keys(before).index_of(k);
        lemma_contents_at(before, i);
        lemma_contents_at(after, i);
        assert(after[i].0@ == before[i].0@);
    }
}

proof fn lemma_replaced<V>(before: Seq<(String, V)>, p: int, entry: (String, V))
    requires
        ascending(entry_keys(before)),
        0 <= p < before.len(),
        before[p].0@ == entry.0@,
    ensures
        ascending(entry_keys(before.update(p, entry))),
        contents(before.update(p, entry)) == contents(before).insert(entry.0@, entry.1),
{
    let after = before.update(p, entry);
    assert(entry_keys(after) =~= entry_keys(before));
    assert forall|q: Seq<char>| #[trigger]
        contents(after).contains_key(q) implies contents(after)[q] == contents(before).insert(
        entry.0@,
        entry.1,
    )[q] by {
        let i = entry_keys(after).index_of(q);
        lemma_contents_at(after, i);
        lemma_contents_at(before, i);
        if i != p && q == entry.0@ {
            lemma_ascending_distinct(entry_keys(before), i, p);
        }
    }
    assert(entry_keys(before)[p] == entry.0@);
    assert(contents(after) =~= contents(before).insert(entry.0@, entry.1));
}

proof fn lemma_inserted<V>(before: Seq<(String, V)>, p: int, entry: (String, V))
    requires
        ascending(entry_keys(before)),
        0 <= p <= before.len(),
        forall|i: int|
            0 <= i < p ==> text::lex_lt(#[trigger] entry_keys(before)[i], entry.0@),
        p < before.len() ==> text::lex_lt(entry.0@, entry_keys(before)[p]),
    ensures
        ascending(entry_keys(before.insert(p, entry))),
        contents(before.insert(p, entry)) == contents(before).insert(entry.0@, entry.1),
{
    let keys = entry_keys(before);
    let after = before.insert(p, entry);
    let after_keys = entry_keys(after);
    let k = entry.0@;
    assert(after_keys =~= keys.insert(p, k));
    assert forall|j: int| p <= j < keys.len() implies text::lex_lt(k, #[trigger] keys[j]) by {
        if j > p {
            text::lemma_lex_transitive(k, keys[p], keys[j]);
        }
    }
    assert forall|i: int, j: int| 0 <= i < j < after_keys.len() implies text::lex_lt(
        #[trigger] after_keys[i],
        #[trigger] after_keys[j],
    ) by {
        if j > p {
            assert(after_keys[j] == keys[j - 1]);
            if i < p {
                assert(after_keys[i] == keys[i]);
            } else if i > p {
                assert(after_keys[i] == keys[i - 1]);
            }
        } else {
            assert(after_keys[i] == keys[i]);
        }
    }
    assert(after_keys[p] == k);
    assert forall|q: Seq<char>| keys.contains(q) || q == k implies #[trigger] after_keys.contains(
        q,
    ) by {
        if q == k {
            assert(after_keys.contains(after_keys[p]));
        } else {
            let i = keys.index_of(q);
            if i < p {
                assert(after_keys[i] == q);
            } else {
                assert(after_keys[i + 1] == q);
            }
        }
    }
    assert forall|q: Seq<char>| #[trigger] after_keys.contains(q) implies (keys.contains(q) || q
        == k) && contents(after)[q] == contents(before).insert(k, entry.1)[q] by {
        let i = after_keys.index_of(q);
        lemma_contents_at(after, i);
        if i < p {
            assert(after[i] == before[i]);
            assert(keys[i] == q);
            lemma_contents_at(before, i);
            if q == k {
                lemma_ascending_distinct(after_keys, i, p);
            }
        } else if i > p {
            assert(after[i] == before[i - 1]);
            assert(keys[i - 1] == q);
            lemma_contents_at(before, i - 1);
            if q == k {
                lemma_ascending_distinct(after_keys, i, p);
            }
        }
    }
    assert(contents(after) =~= contents(before).insert(k, entry.1));
}

proof fn lemma_removed<V>(before: Seq<(String, V)>, p: int)
    requires
        ascending(entry_keys(before)),
        0 <= p < before.len(),
    ensures
        ascending(entry_keys(before.remove(p))),
        contents(before.remove(p)) == contents(before).remove(before[p].0@),
{
    let keys = entry_keys(before);
    let after = before.remove(p);
    let after_keys = entry_keys(after);
    let k = before[p].0@;
    assert(after_keys =~= keys.remove(p));
    assert(keys[p] == k);
    assert forall|q: Seq<char>| keys.contains(q) && q != k implies #[trigger] after_keys.contains(
        q,
    ) by {
        let i = keys.index_of(q);
        if i < p {
            assert(after_keys[i] == q);
        } else {
            assert(after_keys[i - 1] == q);
        }
    }
    assert forall|q: Seq<char>| #[trigger] after_keys.contains(q) implies keys.contains(q) && q != k
        && contents(after)[q] == contents(before)[q] by {
        let i = after_keys.index_of(q);
        lemma_contents_at(after, i);
        let j = if i < p {
            i
        } else {
            i + 1
        };
        assert(after[i] == before[j]);
        assert(keys[j] == q);
        lemma_contents_at(before, j);
        if q == k {
            lemma_ascending_distinct(keys, j, p);
        }
    }
    assert(contents(after) =~= contents(before).remove(k));
}

} // verus!

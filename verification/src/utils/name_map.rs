use vstd::prelude::*;

verus! {

/// Whether `a` and `b` hold the same characters.
pub fn str_eq(a: &str, b: &str) -> (r: bool)
    ensures
        r == (a@ == b@),
{
    let n = a.unicode_len();
    if b.unicode_len() != n {
        return false;
    }
    let mut i: usize = 0;
    while i < n
        invariant
            n == a@.len() == b@.len(),
            i <= n,
            forall|j: int| 0 <= j < i ==> a@[j] == b@[j],
        decreases n - i,
    {
        if a.get_char(i) != b.get_char(i) {
            return false;
        }
        i = i + 1;
    }
    assert(a@ =~= b@);
    true
}

/// The map that a list of entries stands for: a later entry for a name
/// hides the earlier ones.
pub open spec fn map_of_entries<V>(entries: Seq<(String, V)>) -> Map<Seq<char>, V>
    decreases entries.len(),
{
    if entries.len() == 0 {
        Map::empty()
    } else {
        map_of_entries(entries.drop_last()).insert(entries.last().0@, entries.last().1)
    }
}

/// The last entry for `key`, if any.
pub open spec fn last_index_of<V>(entries: Seq<(String, V)>, key: Seq<char>) -> Option<int>
    decreases entries.len(),
{
    if entries.len() == 0 {
        None
    } else if entries.last().0@ == key {
        Some(entries.len() - 1)
    } else {
        last_index_of(entries.drop_last(), key)
    }
}

pub proof fn lemma_last_index_of<V>(entries: Seq<(String, V)>, key: Seq<char>)
    ensures
        match last_index_of(entries, key) {
            None => !map_of_entries(entries).dom().contains(key),
            Some(i) => {
                &&& 0 <= i < entries.len()
                &&& entries[i].0@ == key
                &&& map_of_entries(entries).dom().contains(key)
                &&& map_of_entries(entries)[key] == entries[i].1
                &&& forall|j: int| i < j < entries.len() ==> entries[j].0@ != key
            },
        },
    decreases entries.len(),
{
    if entries.len() > 0 {
        let rest = entries.drop_last();
        lemma_last_index_of(rest, key);
        assert(forall|j: int| 0 <= j < rest.len() ==> rest[j] == entries[j]);
    }
}

/// Replacing the value of the last entry for a name changes only that name's value.
pub proof fn lemma_update_last<V>(entries: Seq<(String, V)>, i: int, key: String, value: V)
    requires
        last_index_of(entries, key@) == Some(i),
    ensures
        map_of_entries(entries.update(i, (key, value))) == map_of_entries(entries).insert(key@, value),
    decreases entries.len(),
{
    lemma_last_index_of(entries, key@);
    let updated = entries.update(i, (key, value));
    if i == entries.len() - 1 {
        assert(updated.drop_last() =~= entries.drop_last());
        assert(map_of_entries(updated) =~= map_of_entries(entries).insert(key@, value));
    } else {
        assert(updated.drop_last() =~= entries.drop_last().update(i, (key, value)));
        lemma_update_last(entries.drop_last(), i, key, value);
        assert(map_of_entries(updated) =~= map_of_entries(entries).insert(key@, value));
    }
}

/// Replacing the value of the last entry for a name, whatever the new value,
/// changes only that name's value.
pub proof fn lemma_update_last_any<V>(entries: Seq<(String, V)>, i: int, key: String)
    requires
        last_index_of(entries, key@) == Some(i),
    ensures
        forall|value: V| #[trigger] map_of_entries(entries.update(i, (key, value)))
            == map_of_entries(entries).insert(key@, value),
{
    assert forall|value: V| #[trigger] map_of_entries(entries.update(i, (key, value)))
        == map_of_entries(entries).insert(key@, value) by {
        lemma_update_last(entries, i, key, value);
    }
}

/// A map from names to values.
pub struct NameMap<V> {
    entries: Vec<(String, V)>,
}

impl<V> View for NameMap<V> {
    type V = Map<Seq<char>, V>;

    closed spec fn view(&self) -> Map<Seq<char>, V> {
        map_of_entries(self.entries@)
    }
}

impl<V> NameMap<V> {
    /// The empty map.
    pub fn new() -> (r: Self)
        ensures
            r@ == Map::<Seq<char>, V>::empty(),
    {
        NameMap { entries: Vec::new() }
    }

    fn find(&self, key: &str) -> (r: Option<usize>)
        ensures
            match r {
                None => last_index_of(self.entries@, key@) is None,
                Some(i) => last_index_of(self.entries@, key@) == Some(i as int),
            },
    {
        let mut i = self.entries.len();
        assert(self.entries@.subrange(0, i as int) =~= self.entries@);
        while i > 0
            invariant
                i <= self.entries@.len(),
                last_index_of(self.entries@, key@) == last_index_of(self.entries@.subrange(0, i as int), key@),
            decreases i,
        {
            let ghost prefix = self.entries@.subrange(0, i as int);
            if str_eq(self.entries[i - 1].0.as_str(), key) {
                return Some(i - 1);
            }
            i = i - 1;
            assert(prefix.drop_last() =~= self.entries@.subrange(0, i as int));
        }
        None
    }

    /// Whether `key` has a value.
    pub fn contains_key(&self, key: &str) -> (r: bool)
        ensures
            r == self@.dom().contains(key@),
    {
        proof {
            lemma_last_index_of(self.entries@, key@);
        }
        self.find(key).is_some()
    }

    /// The value of `key`, if it has one.
    pub fn get(&self, key: &str) -> (r: Option<&V>)
        ensures
            r == (if self@.dom().contains(key@) { Some(&self@[key@]) } else { None }),
    {
        proof {
            lemma_last_index_of(self.entries@, key@);
        }
        match self.find(key) {
            Some(i) => Some(&self.entries[i].1),
            None => None,
        }
    }

    /// The value of `key` to change in place, if it has one.
    pub fn get_mut(&mut self, key: &str) -> (r: Option<&mut V>)
        ensures
            r is Some <==> old(self)@.dom().contains(key@),
            r is None ==> final(self)@ == old(self)@,
            r matches Some(v) ==> *v == old(self)@[key@] && final(self)@ == old(self)@.insert(key@, *final(v)),
    {
        proof {
            lemma_last_index_of(self.entries@, key@);
        }
        let found = self.find(key);
        if found.is_none() {
            return None;
        }
        let i = found.unwrap();
        let ghost k = self.entries@[i as int].0;
        proof {
            lemma_update_last_any(self.entries@, i as int, k);
        }
        Some(&mut self.entries[i].1)
    }

    /// Gives `key` the value `value`.
    pub fn insert(&mut self, key: String, value: V)
        ensures
            final(self)@ == old(self)@.insert(key@, value),
    {
        proof {
            lemma_last_index_of(self.entries@, key@);
        }
        match self.find(key.as_str()) {
            Some(i) => {
                proof {
                    lemma_update_last(self.entries@, i as int, key, value);
                }
                self.entries.set(i, (key, value));
            },
            None => {
                let ghost old_entries = self.entries@;
                self.entries.push((key, value));
                assert(self.entries@.drop_last() =~= old_entries);
            },
        }
    }

    /// Whether no name has a value.
    pub fn is_empty(&self) -> (r: bool)
        ensures
            r == (self@ == Map::<Seq<char>, V>::empty()),
    {
        if self.entries.len() == 0 {
            true
        } else {
            assert(self@.dom().contains(self.entries@.last().0@));
            false
        }
    }
}

} // verus!

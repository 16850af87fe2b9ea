//! A map from account addresses (in text form) to values, as kept in a
//! contract's persistent storage.

use vstd::prelude::*;

verus! {

/// One stored value and the address it belongs to.
#[derive(Debug)]
pub struct BookEntry<V> {
    pub key: String,
    pub value: V,
}

/// The map that a list of entries stands for; a later entry for the same
/// address overrides an earlier one.
pub open spec fn book_map<V>(entries: Seq<BookEntry<V>>) -> Map<Seq<char>, V>
    decreases entries.len(),
{
    if entries.len() == 0 {
        Map::empty()
    } else {
        book_map(entries.drop_last()).insert(entries.last().key@, entries.last().value)
    }
}

proof fn lemma_book_absent<V>(entries: Seq<BookEntry<V>>, k: Seq<char>)
    requires
        forall|j: int| 0 <= j < entries.len() ==> #[trigger] entries[j].key@ != k,
    ensures
        !book_map(entries).contains_key(k),
    decreases entries.len(),
{
    if entries.len() > 0 {
        let p = entries.drop_last();
        assert forall|j: int| 0 <= j < p.len() implies #[trigger] p[j].key@ != k by {
            assert(p[j] == entries[j]);
        }
        lemma_book_absent(p, k);
    }
}

proof fn lemma_book_lookup<V>(entries: Seq<BookEntry<V>>, k: Seq<char>, i: int)
    requires
        0 <= i < entries.len(),
        entries[i].key@ == k,
        forall|j: int| i < j < entries.len() ==> #[trigger] entries[j].key@ != k,
    ensures
        book_map(entries).contains_key(k),
        book_map(entries)[k] == entries[i].value,
    decreases entries.len(),
{
    if i < entries.len() - 1 {
        let p = entries.drop_last();
        assert(p[i] == entries[i]);
        assert forall|j: int| i < j < p.len() implies #[trigger] p[j].key@ != k by {
            assert(p[j] == entries[j]);
        }
        lemma_book_lookup(p, k, i);
    }
}

proof fn lemma_book_update<V>(entries: Seq<BookEntry<V>>, i: int, e: BookEntry<V>)
    requires
        0 <= i < entries.len(),
        entries[i].key@ == e.key@,
        forall|j: int| i < j < entries.len() ==> #[trigger] entries[j].key@ != e.key@,
    ensures
        book_map(entries.update(i, e)) =~= book_map(entries).insert(e.key@, e.value),
    decreases entries.len(),
{
    let u = entries.update(i, e);
    if i == entries.len() - 1 {
        assert(u.drop_last() =~= entries.drop_last());
    } else {
        let p = entries.drop_last();
        assert forall|j: int| i < j < p.len() implies #[trigger] p[j].key@ != e.key@ by {
            assert(p[j] == entries[j]);
        }
        lemma_book_update(p, i, e);
        assert(u.drop_last() =~= p.update(i, e));
        assert(u.last() == entries.last());
    }
}

/// A map from addresses to values.
pub struct AddressBook<V> {
    entries: Vec<BookEntry<V>>,
}

impl<V> View for AddressBook<V> {
    type V = Map<Seq<char>, V>;

    closed spec fn view(&self) -> Map<Seq<char>, V> {
        book_map(self.entries@)
    }
}

impl<V> AddressBook<V> {
    /// An empty map.
    pub fn new() -> (r: Self)
        ensures
            r@ == Map::<Seq<char>, V>::empty(),
    {
        AddressBook { entries: Vec::new() }
    }

    /// The slot holding the value of `key`, if any.
    fn position(&self, key: &String) -> (r: Option<usize>)
        ensures
            r matches Some(i) ==> {
                &&& i < self.entries@.len()
                &&& self.entries@[i as int].key@ == key@
                &&& forall|j: int| i < j < self.entries@.len() ==> #[trigger] self.entries@[j].key@ != key@
            },
            r is None ==> !self@.contains_key(key@),
    {
        let mut i = self.entries.len();
        while i > 0
            invariant
                i <= self.entries@.len(),
                forall|j: int| i <= j < self.entries@.len() ==> #[trigger] self.entries@[j].key@ != key@,
            decreases i,
        {
            if self.entries[i - 1].key == *key {
                return Some(i - 1);
            }
            i = i - 1;
        }
        proof {
            lemma_book_absent(self.entries@, key@);
        }
        None
    }

    /// The value stored for `key`, if any.
    pub fn get(&self, key: &String) -> (r: Option<&V>)
        ensures
            match r {
                Some(v) => self@.contains_key(key@) && *v == self@[key@],
                None => !self@.contains_key(key@),
            },
    {
        match self.position(key) {
            None => None,
            Some(i) => {
                proof {
                    lemma_book_lookup(self.entries@, key@, i as int);
                }
                Some(&self.entries[i].value)
            },
        }
    }

    /// Whether a value is stored for `key`.
    pub fn contains(&self, key: &String) -> (r: bool)
        ensures
            r == self@.contains_key(key@),
    {
        self.get(key).is_some()
    }

    /// Stores `value` for `key`, replacing any earlier value.
    pub fn set(&mut self, key: String, value: V)
        ensures
            final(self)@ == old(self)@.insert(key@, value),
    {
        match self.position(&key) {
            None => {
                let ghost before = self.entries@;
                let entry = BookEntry { key, value };
                self.entries.push(entry);
                proof {
                    assert(self.entries@.drop_last() =~= before);
                }
            },
            Some(i) => {
                let entry = BookEntry { key, value };
                proof {
                    lemma_book_update(self.entries@, i as int, entry);
                }
                self.entries.set(i, entry);
            },
        }
    }
}

} // verus!

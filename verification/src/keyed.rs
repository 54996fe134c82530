//! A list of items that are found by a text key, with no key twice.
//!
//! It stands where a hash map from the key to the item would, and keeps the
//! items in the order in which their keys first came in.

use vstd::prelude::*;

verus! {

/// An item that carries the text key by which it is found.
pub trait Keyed {
    /// The key of the item.
    spec fn key(&self) -> Seq<char>;

    /// The key of the item, as text.
    fn key_text(&self) -> (text: &String)
        ensures
            text@ == self.key(),
    ;
}

impl Keyed for String {
    open spec fn key(&self) -> Seq<char> {
        self@
    }

    fn key_text(&self) -> (text: &String) {
        self
    }
}

/// The keys of `items`, in the order of the items.
pub open spec fn keys_of<T: Keyed>(items: Seq<T>) -> Seq<Seq<char>> {
    Seq::new(items.len(), |k: int| items[k].key())
}

/// `key` is the key of an item of `items`.
pub open spec fn has_item<T: Keyed>(items: Seq<T>, key: Seq<char>) -> bool {
    exists|k: int| 0 <= k < items.len() && #[trigger] items[k].key() == key
}

/// A place in `items` where an item with `key` stands, if there is one.
pub open spec fn place_of<T: Keyed>(items: Seq<T>, key: Seq<char>) -> int {
    choose|k: int| 0 <= k < items.len() && #[trigger] items[k].key() == key
}

/// The map from each key in `items` to the item that carries it.
pub open spec fn map_of<T: Keyed>(items: Seq<T>) -> Map<Seq<char>, T> {
    Map::new(|key: Seq<char>| has_item(items, key), |key: Seq<char>| items[place_of(items, key)])
}

/// With no key twice, the map sends the key of each item to that item.
pub proof fn lemma_map_of_index<T: Keyed>(items: Seq<T>, k: int)
    requires
        keys_of(items).no_duplicates(),
        0 <= k < items.len(),
    ensures
        map_of(items).contains_key(items[k].key()),
        map_of(items)[items[k].key()] == items[k],
{
    let key = items[k].key();
    let j = place_of(items, key);
    assert(keys_of(items)[j] == keys_of(items)[k]);
}

/// A map that holds the keys of `items` and no others, and sends the key of
/// each item to that item, is the map of `items`.
pub proof fn lemma_map_of_is<T: Keyed>(items: Seq<T>, m: Map<Seq<char>, T>)
    requires
        keys_of(items).no_duplicates(),
        forall|key: Seq<char>| m.contains_key(key) <==> has_item(items, key),
        forall|k: int| 0 <= k < items.len() ==> m[#[trigger] items[k].key()] == items[k],
    ensures
        map_of(items) == m,
{
    assert forall|key: Seq<char>| map_of(items).contains_key(key) implies #[trigger] map_of(
        items,
    )[key] == m[key] by {
        let j = place_of(items, key);
        assert(items[j].key() == key);
    }
    assert(map_of(items) =~= m);
}

/// With no key twice, the map has as many keys as there are items.
pub proof fn lemma_map_of_len<T: Keyed>(items: Seq<T>)
    requires
        keys_of(items).no_duplicates(),
    ensures
        map_of(items).dom().finite(),
        map_of(items).dom().len() == items.len(),
        map_of(items).dom() == keys_of(items).to_set(),
{
    let keys = keys_of(items);
    assert(map_of(items).dom() =~= keys.to_set()) by {
        assert forall|key: Seq<char>| map_of(items).dom().contains(key) implies keys.to_set().contains(
            key,
        ) by {
            let j = place_of(items, key);
            assert(keys[j] == key);
        }
        assert forall|key: Seq<char>| keys.to_set().contains(key) implies map_of(
            items,
        ).dom().contains(key) by {
            let j = choose|j: int| 0 <= j < keys.len() && keys[j] == key;
            assert(items[j].key() == key);
        }
    }
    keys.unique_seq_to_set();
}

/// An item with a new key, put at the end, is added to the map.
pub proof fn lemma_map_of_push<T: Keyed>(items: Seq<T>, item: T)
    requires
        keys_of(items).no_duplicates(),
        !has_item(items, item.key()),
    ensures
        keys_of(items.push(item)).no_duplicates(),
        map_of(items.push(item)) == map_of(items).insert(item.key(), item),
{
    let after = items.push(item);
    let m = map_of(items).insert(item.key(), item);
    assert forall|i: int, j: int|
        0 <= i < after.len() && 0 <= j < after.len() && i != j implies keys_of(after)[i]
        != keys_of(after)[j] by {
        if i < items.len() && j < items.len() {
            assert(keys_of(items)[i] != keys_of(items)[j]);
        } else if i < items.len() {
            assert(items[i].key() != item.key());
        } else {
            assert(items[j].key() != item.key());
        }
    }
    assert forall|key: Seq<char>| m.contains_key(key) <==> has_item(after, key) by {
        if has_item(items, key) {
            let j = place_of(items, key);
            assert(after[j].key() == key);
        }
        if key == item.key() {
            assert(after[items.len() as int].key() == key);
        }
        if has_item(after, key) {
            let j = place_of(after, key);
            if j < items.len() {
                assert(items[j].key() == key);
            }
        }
    }
    assert forall|k: int| 0 <= k < after.len() implies m[#[trigger] after[k].key()] == after[k] by {
        if k < items.len() {
            lemma_map_of_index(items, k);
            assert(items[k].key() != item.key());
        }
    }
    lemma_map_of_is(after, m);
}

/// An item put in the place of one with the same key takes its place in the
/// map.
pub proof fn lemma_map_of_update<T: Keyed>(items: Seq<T>, at: int, item: T)
    requires
        keys_of(items).no_duplicates(),
        0 <= at < items.len(),
        items[at].key() == item.key(),
    ensures
        keys_of(items.update(at, item)).no_duplicates(),
        map_of(items.update(at, item)) == map_of(items).insert(item.key(), item),
{
    let after = items.update(at, item);
    let m = map_of(items).insert(item.key(), item);
    assert(keys_of(after) =~= keys_of(items));
    assert forall|key: Seq<char>| m.contains_key(key) <==> has_item(after, key) by {
        if has_item(items, key) {
            let j = place_of(items, key);
            assert(after[j].key() == key);
        }
        if key == item.key() {
            assert(after[at].key() == key);
        }
        if has_item(after, key) {
            let j = place_of(after, key);
            assert(items[j].key() == key);
        }
    }
    assert forall|k: int| 0 <= k < after.len() implies m[#[trigger] after[k].key()] == after[k] by {
        if k != at {
            lemma_map_of_index(items, k);
            assert(keys_of(items)[k] != keys_of(items)[at]);
        }
    }
    lemma_map_of_is(after, m);
}

/// An item taken out of the list leaves the map, and its key with it.
pub proof fn lemma_map_of_remove<T: Keyed>(items: Seq<T>, at: int)
    requires
        keys_of(items).no_duplicates(),
        0 <= at < items.len(),
    ensures
        keys_of(items.remove(at)).no_duplicates(),
        map_of(items.remove(at)) == map_of(items).remove(items[at].key()),
{
    let after = items.remove(at);
    let gone = items[at].key();
    let m = map_of(items).remove(gone);
    assert forall|k: int| 0 <= k < after.len() implies #[trigger] after[k] == items[if k < at {
        k
    } else {
        k + 1
    }] by {}
    assert forall|i: int, j: int|
        0 <= i < after.len() && 0 <= j < after.len() && i != j implies keys_of(after)[i]
        != keys_of(after)[j] by {
        let i0 = if i < at { i } else { i + 1 };
        let j0 = if j < at { j } else { j + 1 };
        assert(keys_of(items)[i0] != keys_of(items)[j0]);
    }
    assert forall|key: Seq<char>| m.contains_key(key) <==> has_item(after, key) by {
        if has_item(items, key) && key != gone {
            let j = place_of(items, key);
            let j1 = if j < at { j } else { j - 1 };
            assert(after[j1].key() == key);
        }
        if has_item(after, key) {
            let j = place_of(after, key);
            let j0 = if j < at { j } else { j + 1 };
            assert(items[j0].key() == key);
            assert(keys_of(items)[j0] != keys_of(items)[at]);
        }
    }
    assert forall|k: int| 0 <= k < after.len() implies m[#[trigger] after[k].key()] == after[k] by {
        let k0 = if k < at { k } else { k + 1 };
        lemma_map_of_index(items, k0);
        assert(keys_of(items)[k0] != keys_of(items)[at]);
    }
    lemma_map_of_is(after, m);
}

/// Items found by their keys.  No two items have the same key.
#[derive(Debug)]
pub struct KeyedList<T: Keyed> {
    items: Vec<T>,
}

impl<T: Keyed> View for KeyedList<T> {
    type V = Map<Seq<char>, T>;

    open spec fn view(&self) -> Map<Seq<char>, T> {
        map_of(self.items())
    }
}

impl<T: Keyed + Clone> Clone for KeyedList<T> {
    /// A list of copies of the items.  Where a copy of an item always has the
    /// key of the item, the list holds a copy of each item, in the same
    /// order.
    fn clone(&self) -> (copy: Self)
        ensures
            (forall|a: T, b: T| #[trigger] cloned(a, b) ==> a.key() == b.key()) ==> {
                &&& copy.items().len() == self.items().len()
                &&& forall|i: int|
                    0 <= i < self.items().len() ==> cloned(
                        self.items()[i],
                        #[trigger] copy.items()[i],
                    )
            },
    {
        proof {
            use_type_invariant(self);
        }
        let mut copy = KeyedList::new();
        let mut k: usize = 0;
        while k < self.items.len()
            invariant
                k <= self.items@.len(),
                keys_of(self.items@).no_duplicates(),
                (forall|a: T, b: T| #[trigger] cloned(a, b) ==> a.key() == b.key()) ==> {
                    &&& copy.items().len() == k
                    &&& forall|i: int|
                        0 <= i < k ==> cloned(self.items@[i], #[trigger] copy.items()[i])
                },
            decreases self.items@.len() - k,
        {
            let item = self.items[k].clone();
            let ghost before = copy.items();
            proof {
                if forall|a: T, b: T| #[trigger] cloned(a, b) ==> a.key() == b.key() {
                    assert(cloned(self.items@[k as int], item));
                    assert(!has_item(before, item.key())) by {
                        if has_item(before, item.key()) {
                            let j = place_of(before, item.key());
                            assert(cloned(self.items@[j], before[j]));
                            assert(keys_of(self.items@)[j] == keys_of(self.items@)[k as int]);
                        }
                    }
                }
            }
            copy.put(item);
            k += 1;
        }
        copy
    }
}

impl<T: Keyed> KeyedList<T> {
    #[verifier::type_invariant]
    spec fn distinct_keys(&self) -> bool {
        keys_of(self.items@).no_duplicates()
    }

    /// The items, in the order in which their keys first came in.
    pub closed spec fn items(&self) -> Seq<T> {
        self.items@
    }

    /// The empty list.
    pub fn new() -> (list: Self)
        ensures
            list@ == Map::<Seq<char>, T>::empty(),
            list.items() == Seq::<T>::empty(),
    {
        let list = KeyedList { items: Vec::new() };
        proof {
            assert(list@ =~= Map::<Seq<char>, T>::empty());
        }
        list
    }

    /// The items as a vector: each key once, and the view of the list maps
    /// each key to its item.
    pub fn entries(&self) -> (all: &Vec<T>)
        ensures
            all@ == self.items(),
            keys_of(all@).no_duplicates(),
            self@ == map_of(all@),
    {
        proof {
            use_type_invariant(self);
        }
        &self.items
    }

    /// The number of items, which is the number of keys.
    pub fn len(&self) -> (n: usize)
        ensures
            n == self.items().len(),
            n == self@.dom().len(),
    {
        proof {
            use_type_invariant(self);
            lemma_map_of_len(self.items@);
        }
        self.items.len()
    }

    /// Where the item with `key` stands, if there is one.
    fn position(&self, key: &String) -> (at: Option<usize>)
        ensures
            match at {
                Some(k) => k < self.items@.len() && self.items@[k as int].key() == key@,
                None => !has_item(self.items@, key@),
            },
    {
        let mut k: usize = 0;
        while k < self.items.len()
            invariant
                k <= self.items@.len(),
                forall|j: int| 0 <= j < k ==> self.items@[j].key() != key@,
            decreases self.items@.len() - k,
        {
            if *self.items[k].key_text() == *key {
                return Some(k);
            }
            k += 1;
        }
        None
    }

    /// Tells whether an item with `key` is in the list.
    pub fn contains_key(&self, key: &String) -> (b: bool)
        ensures
            b == self@.contains_key(key@),
    {
        let at = self.position(key);
        proof {
            if let Some(k) = at {
                assert(self.items@[k as int].key() == key@);
            }
        }
        at.is_some()
    }

    /// The item with `key`, if there is one.
    pub fn get(&self, key: &String) -> (item: Option<&T>)
        ensures
            match item {
                Some(found) => self@.contains_key(key@) && *found == self@[key@],
                None => !self@.contains_key(key@),
            },
    {
        match self.position(key) {
            Some(k) => {
                proof {
                    use_type_invariant(self);
                    lemma_map_of_index(self.items@, k as int);
                }
                Some(&self.items[k])
            },
            None => None,
        }
    }

    /// Puts `item` in the list.  An item that had the same key leaves, and
    /// `item` takes its place; with a new key, `item` goes to the end.
    pub fn put(&mut self, item: T)
        ensures
            final(self)@ == old(self)@.insert(item.key(), item),
            final(self).items() == if old(self)@.contains_key(item.key()) {
                old(self).items().update(place_of(old(self).items(), item.key()), item)
            } else {
                old(self).items().push(item)
            },
    {
        proof {
            use_type_invariant(&*self);
        }
        let at = self.position(item.key_text());
        let mut items: Vec<T> = Vec::new();
        core::mem::swap(&mut self.items, &mut items);
        match at {
            Some(k) => {
                proof {
                    lemma_map_of_update(items@, k as int, item);
                    let j = place_of(items@, item.key());
                    assert(keys_of(items@)[j] == keys_of(items@)[k as int]);
                }
                items.set(k, item);
            },
            None => {
                proof {
                    lemma_map_of_push(items@, item);
                }
                items.push(item);
            },
        }
        self.items = items;
    }

    /// Takes the item with `key` out of the list and returns it; leaves the
    /// list as it is where no item has that key.
    pub fn remove(&mut self, key: &String) -> (out: Option<T>)
        ensures
            final(self)@ == old(self)@.remove(key@),
            match out {
                Some(item) => {
                    &&& old(self)@.contains_key(key@)
                    &&& item == old(self)@[key@]
                    &&& final(self).items() == old(self).items().remove(
                        place_of(old(self).items(), key@),
                    )
                },
                None => !old(self)@.contains_key(key@) && final(self).items() == old(self).items(),
            },
    {
        proof {
            use_type_invariant(&*self);
        }
        let at = self.position(key);
        match at {
            Some(k) => {
                let mut items: Vec<T> = Vec::new();
                core::mem::swap(&mut self.items, &mut items);
                proof {
                    lemma_map_of_remove(items@, k as int);
                    lemma_map_of_index(items@, k as int);
                    let j = place_of(items@, key@);
                    assert(keys_of(items@)[j] == keys_of(items@)[k as int]);
                }
                let item = items.remove(k);
                self.items = items;
                Some(item)
            },
            None => {
                proof {
                    assert(self@.remove(key@) =~= self@);
                }
                None
            },
        }
    }
}

} // verus!

use crate::address::Address;
use vstd::prelude::*;

verus! {

/// One slot of a [`Store`]: a value and the address it is kept under.
struct Entry<V> {
    key: Address,
    value: V,
}

/// Whether some slot of `s` is kept under `k`.
spec fn holds<V>(s: Seq<Entry<V>>, k: Address) -> bool {
    exists|i: int| 0 <= i < s.len() && (#[trigger] s[i]).key == k
}

/// A slot of `s` kept under `k`, where there is one.
spec fn slot<V>(s: Seq<Entry<V>>, k: Address) -> int {
    choose|i: int| 0 <= i < s.len() && (#[trigger] s[i]).key == k
}

/// No address is used by two slots.
spec fn distinct<V>(s: Seq<Entry<V>>) -> bool {
    forall|i: int, j: int| 0 <= i < j < s.len() ==> (#[trigger] s[i]).key != (#[trigger] s[j]).key
}

/// The map that a sequence of slots stands for.
spec fn map_of<V>(s: Seq<Entry<V>>) -> Map<Address, V> {
    Map::new(|k: Address| holds(s, k), |k: Address| s[slot(s, k)].value)
}

/// With distinct addresses, the slot of an address is the one place it occurs.
proof fn lemma_slot_unique<V>(s: Seq<Entry<V>>, i: int)
    requires
        distinct(s),
        0 <= i < s.len(),
    ensures
        holds(s, s[i].key),
        slot(s, s[i].key) == i,
        map_of(s)[s[i].key] == s[i].value,
{
    let k = s[i].key;
    let j = slot(s, k);
    assert(0 <= j < s.len() && s[j].key == k);
    if j < i {
        assert(s[j].key != s[i].key);
    } else if i < j {
        assert(s[i].key != s[j].key);
    }
}

/// Appending a slot under an unused address inserts into the map.
proof fn lemma_map_of_push<V>(s: Seq<Entry<V>>, e: Entry<V>)
    requires
        distinct(s),
        !holds(s, e.key),
    ensures
        distinct(s.push(e)),
        map_of(s.push(e)) == map_of(s).insert(e.key, e.value),
{
    let t = s.push(e);
    assert forall|i: int, j: int| 0 <= i < j < t.len() implies (#[trigger] t[i]).key != (
    #[trigger] t[j]).key by {
        if j == s.len() {
            assert(t[i] == s[i]);
        } else {
            assert(t[i] == s[i] && t[j] == s[j]);
        }
    }
    assert forall|k: Address| holds(t, k) <==> (k == e.key || holds(s, k)) by {
        if holds(s, k) {
            let i = slot(s, k);
            assert(t[i] == s[i]);
        }
        if k == e.key {
            assert(t[s.len() as int] == e);
        }
        if holds(t, k) && k != e.key {
            let i = slot(t, k);
            assert(t[i] == s[i]);
        }
    }
    assert forall|k: Address| holds(t, k) implies #[trigger] map_of(t)[k] == map_of(s).insert(
        e.key,
        e.value,
    )[k] by {
        if k == e.key {
            lemma_slot_unique(t, s.len() as int);
        } else {
            let i = slot(s, k);
            assert(t[i] == s[i]);
            lemma_slot_unique(t, i);
            lemma_slot_unique(s, i);
        }
    }
    assert(map_of(t) =~= map_of(s).insert(e.key, e.value));
}

/// Rewriting the value of a slot in place updates the map at its address.
proof fn lemma_map_of_update<V>(s: Seq<Entry<V>>, i: int, value: V)
    requires
        distinct(s),
        0 <= i < s.len(),
    ensures
        distinct(s.update(i, Entry { key: s[i].key, value })),
        map_of(s.update(i, Entry { key: s[i].key, value })) == map_of(s).insert(s[i].key, value),
{
    let e = Entry { key: s[i].key, value };
    let t = s.update(i, e);
    assert forall|a: int, b: int| 0 <= a < b < t.len() implies (#[trigger] t[a]).key != (
    #[trigger] t[b]).key by {
        assert(t[a].key == s[a].key && t[b].key == s[b].key);
    }
    assert forall|k: Address| holds(t, k) <==> holds(s, k) by {
        if holds(s, k) {
            let j = slot(s, k);
            assert(t[j].key == s[j].key);
        }
        if holds(t, k) {
            let j = slot(t, k);
            assert(t[j].key == s[j].key);
        }
    }
    lemma_slot_unique(s, i);
    assert forall|k: Address| holds(t, k) implies #[trigger] map_of(t)[k] == map_of(s).insert(
        e.key,
        value,
    )[k] by {
        let j = slot(s, k);
        assert(t[j].key == s[j].key);
        lemma_slot_unique(t, j);
        lemma_slot_unique(s, j);
    }
    assert(map_of(t) =~= map_of(s).insert(e.key, value));
}

/// Taking a slot out removes its address from the map.
proof fn lemma_map_of_remove<V>(s: Seq<Entry<V>>, i: int)
    requires
        distinct(s),
        0 <= i < s.len(),
    ensures
        distinct(s.remove(i)),
        map_of(s.remove(i)) == map_of(s).remove(s[i].key),
{
    let t = s.remove(i);
    let gone = s[i].key;
    assert forall|a: int| 0 <= a < t.len() implies #[trigger] t[a] == s[if a < i {
        a
    } else {
        a + 1
    }] by {}
    assert forall|a: int, b: int| 0 <= a < b < t.len() implies (#[trigger] t[a]).key != (
    #[trigger] t[b]).key by {
        let a2 = if a < i { a } else { a + 1 };
        let b2 = if b < i { b } else { b + 1 };
        assert(t[a] == s[a2] && t[b] == s[b2]);
        assert(s[a2].key != s[b2].key);
    }
    assert forall|k: Address| holds(t, k) <==> (holds(s, k) && k != gone) by {
        if holds(t, k) {
            let a = slot(t, k);
            let a2 = if a < i { a } else { a + 1 };
            assert(t[a] == s[a2]);
            lemma_slot_unique(s, a2);
            lemma_slot_unique(s, i);
        }
        if holds(s, k) && k != gone {
            let j = slot(s, k);
            let a = if j < i { j } else { j - 1 };
            assert(t[a] == s[j]);
        }
    }
    assert forall|k: Address| holds(t, k) implies #[trigger] map_of(t)[k] == map_of(s).remove(
        gone,
    )[k] by {
        let a = slot(t, k);
        let a2 = if a < i { a } else { a + 1 };
        assert(t[a] == s[a2]);
        lemma_slot_unique(t, a);
        lemma_slot_unique(s, a2);
    }
    assert(map_of(t) =~= map_of(s).remove(gone));
}

/// The map of finitely many slots has finitely many addresses.
proof fn lemma_map_of_finite<V>(s: Seq<Entry<V>>)
    ensures
        map_of(s).dom().finite(),
    decreases s.len(),
{
    if s.len() == 0 {
        assert(map_of(s).dom() =~= Set::<Address>::empty());
    } else {
        let p = s.drop_last();
        lemma_map_of_finite(p);
        assert forall|k: Address| holds(s, k) <==> (holds(p, k) || k == s.last().key) by {
            if holds(p, k) {
                let i = slot(p, k);
                assert(s[i] == p[i]);
            }
            if k == s.last().key {
                assert(s[s.len() - 1].key == k);
            }
            if holds(s, k) && k != s.last().key {
                let i = slot(s, k);
                assert(p[i] == s[i]);
            }
        }
        assert(map_of(s).dom() =~= map_of(p).dom().insert(s.last().key));
    }
}

/// A keyed store: values kept under addresses, each address used at most once.
pub struct Store<V> {
    entries: Vec<Entry<V>>,
}

impl<V> Store<V> {
    #[verifier::type_invariant]
    spec fn inv(self) -> bool {
        distinct(self.entries@)
    }
}

impl<V: Copy> Store<V> {
    /// The store as a map from address to value.
    pub closed spec fn view(&self) -> Map<Address, V> {
        map_of(self.entries@)
    }

    /// A store holds finitely many addresses.
    pub proof fn lemma_finite(&self)
        ensures
            self@.dom().finite(),
    {
        lemma_map_of_finite(self.entries@);
    }

    /// The empty store.
    pub fn new() -> (r: Self)
        ensures
            r@ == Map::<Address, V>::empty(),
    {
        let r = Store { entries: Vec::new() };
        assert(r@ =~= Map::<Address, V>::empty());
        r
    }

    fn position(&self, key: &Address) -> (r: Option<usize>)
        ensures
            match r {
                Some(i) => i < self.entries@.len() && self.entries@[i as int].key == *key,
                None => !holds(self.entries@, *key),
            },
    {
        let mut i: usize = 0;
        while i < self.entries.len()
            invariant
                i <= self.entries@.len(),
                forall|j: int| 0 <= j < i ==> (#[trigger] self.entries@[j]).key != *key,
            decreases self.entries@.len() - i,
        {
            if self.entries[i].key == *key {
                return Some(i);
            }
            i += 1;
        }
        None
    }

    /// The value kept under `key`, if there is one.
    pub fn get(&self, key: &Address) -> (r: Option<V>)
        ensures
            r == (if self@.contains_key(*key) {
                Some(self@[*key])
            } else {
                None
            }),
    {
        proof {
            use_type_invariant(self);
        }
        match self.position(key) {
            Some(i) => {
                proof {
                    lemma_slot_unique(self.entries@, i as int);
                }
                Some(self.entries[i].value)
            },
            None => None,
        }
    }

    /// Whether a value is kept under `key`.
    pub fn contains(&self, key: &Address) -> (r: bool)
        ensures
            r == self@.contains_key(*key),
    {
        self.position(key).is_some()
    }

    /// Keeps `value` under `key`, in place of what was there.
    pub fn put(&mut self, key: Address, value: V)
        ensures
            final(self)@ == old(self)@.insert(key, value),
    {
        proof {
            use_type_invariant(&*self);
        }
        let found = self.position(&key);
        let mut entries: Vec<Entry<V>> = Vec::new();
        std::mem::swap(&mut entries, &mut self.entries);
        match found {
            Some(i) => {
                proof {
                    lemma_map_of_update(entries@, i as int, value);
                }
                entries.set(i, Entry { key, value });
            },
            None => {
                proof {
                    lemma_map_of_push(entries@, Entry { key, value });
                }
                entries.push(Entry { key, value });
            },
        }
        self.entries = entries;
    }

    /// Takes out what is kept under `key`, and returns it.
    pub fn remove(&mut self, key: &Address) -> (r: Option<V>)
        ensures
            final(self)@ == old(self)@.remove(*key),
            r == (if old(self)@.contains_key(*key) {
                Some(old(self)@[*key])
            } else {
                None
            }),
    {
        proof {
            use_type_invariant(&*self);
        }
        match self.position(key) {
            Some(i) => {
                let mut entries: Vec<Entry<V>> = Vec::new();
                std::mem::swap(&mut entries, &mut self.entries);
                proof {
                    lemma_slot_unique(entries@, i as int);
                    lemma_map_of_remove(entries@, i as int);
                }
                let e = entries.remove(i);
                self.entries = entries;
                Some(e.value)
            },
            None => {
                assert(self@.remove(*key) =~= self@);
                None
            },
        }
    }

    /// A second store with the same contents.
    pub fn duplicate(&self) -> (r: Self)
        ensures
            r@ == self@,
    {
        proof {
            use_type_invariant(self);
        }
        let mut entries: Vec<Entry<V>> = Vec::new();
        let mut i: usize = 0;
        while i < self.entries.len()
            invariant
                i <= self.entries@.len(),
                entries@ == self.entries@.subrange(0, i as int),
            decreases self.entries@.len() - i,
        {
            entries.push(Entry { key: self.entries[i].key, value: self.entries[i].value });
            i += 1;
            assert(entries@ =~= self.entries@.subrange(0, i as int));
        }
        assert(entries@ =~= self.entries@);
        Store { entries }
    }
}

} // verus!

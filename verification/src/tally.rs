//! Tables that count how often each key was seen and remember the order in
//! which the keys first appeared.

use std::collections::HashMap;
use vstd::prelude::*;
use vstd::std_specs::hash::*;

verus! {

/// A key that a table can count: it has a number of its own, and no two keys
/// share one.
pub trait TallyKey: Copy {
    /// The number that stands for this key.
    spec fn code(self) -> u64;

    /// Computes the number that stands for this key.
    fn to_code(&self) -> (code: u64)
        ensures
            code == self.code(),
    ;

    /// Keys with the same number are the same key.
    proof fn lemma_code_injective(a: Self, b: Self)
        requires
            a.code() == b.code(),
        ensures
            a == b,
    ;
}

/// The place of the first entry for `key` in `entries`, or the length of
/// `entries` where there is none.
pub open spec fn position<K>(entries: Seq<(K, u64)>, key: K) -> int
    decreases entries.len(),
{
    if entries.len() == 0 {
        0
    } else if entries[0].0 == key {
        0
    } else {
        1 + position(entries.drop_first(), key)
    }
}

/// How often `key` was counted according to `entries`.
pub open spec fn count_for<K>(entries: Seq<(K, u64)>, key: K) -> nat {
    let at = position(entries, key);
    if at < entries.len() {
        entries[at].1 as nat
    } else {
        0
    }
}

/// The entries after `key` was counted once more: its entry raised by one
/// where it has one, a new entry with count one at the end where it has none.
pub open spec fn tallied<K>(entries: Seq<(K, u64)>, key: K) -> Seq<(K, u64)> {
    let at = position(entries, key);
    if at < entries.len() {
        entries.update(at, (key, (entries[at].1 + 1) as u64))
    } else {
        entries.push((key, 1))
    }
}

/// Whether no key has two entries.
pub open spec fn distinct_keys<K>(entries: Seq<(K, u64)>) -> bool {
    forall|i: int, j: int|
        0 <= i < j < entries.len() ==> (#[trigger] entries[i]).0 != (#[trigger] entries[j]).0
}

/// `position` finds the first entry for the key, and runs to the end exactly
/// when there is none.
pub proof fn lemma_position<K>(entries: Seq<(K, u64)>, key: K)
    ensures
        0 <= position(entries, key) <= entries.len(),
        position(entries, key) < entries.len() ==> entries[position(entries, key)].0 == key,
        forall|i: int| 0 <= i < position(entries, key) ==> (#[trigger] entries[i]).0 != key,
    decreases entries.len(),
{
    if entries.len() > 0 && entries[0].0 != key {
        let rest = entries.drop_first();
        lemma_position(rest, key);
        assert forall|i: int| 0 <= i < position(entries, key) implies (#[trigger] entries[i]).0
            != key by {
            if i > 0 {
                assert(rest[i - 1] == entries[i]);
            }
        }
    }
}

/// Where keys are distinct, the entry for a key stands at its position.
pub proof fn lemma_position_of_entry<K>(entries: Seq<(K, u64)>, i: int)
    requires
        distinct_keys(entries),
        0 <= i < entries.len(),
    ensures
        position(entries, entries[i].0) == i,
{
    lemma_position(entries, entries[i].0);
    let at = position(entries, entries[i].0);
    if at < i {
        assert(entries[at].0 != entries[i].0);
    }
}

/// Counting a key raises its count by one and changes no other count.
pub proof fn lemma_tallied_counts<K>(entries: Seq<(K, u64)>, key: K, other: K)
    requires
        count_for(entries, key) < u64::MAX,
    ensures
        count_for(tallied(entries, key), other) == count_for(entries, other) + (if other
            == key {
            1nat
        } else {
            0nat
        }),
{
    let after = tallied(entries, key);
    let at = position(entries, key);
    let was = position(entries, other);
    let now = position(after, other);
    lemma_position(entries, key);
    lemma_position(entries, other);
    lemma_position(after, other);
    // Counting changes the key of no entry that was there before.
    assert(forall|i: int| 0 <= i < entries.len() ==> (#[trigger] after[i]).0 == entries[i].0);
    // An entry for `other` that was there is still the first one for it.
    if was < entries.len() {
        assert(now == was) by {
            if now < was {
                assert(after[now].0 == entries[now].0);
            } else if was < now {
                assert(after[was].0 == entries[was].0);
            }
        }
        if was != at {
            assert(after[was] == entries[was]);
        }
    } else {
        // Without one, the only entry for `other` can be the new one.
        assert(now >= entries.len()) by {
            if now < entries.len() {
                assert(after[now].0 == entries[now].0);
            }
        }
        if other == key {
            assert(after[entries.len() as int].0 == key);
        }
    }
}

/// Counts sightings by key. The entries keep the order in which the keys were
/// first counted.
pub struct CountTable<K: TallyKey> {
    entries: Vec<(K, u64)>,
    index: HashMap<u64, usize>,
}

impl<K: TallyKey> View for CountTable<K> {
    type V = Seq<(K, u64)>;

    /// The keys counted since the table was made or last emptied, each with
    /// its count, in order of first sighting.
    closed spec fn view(&self) -> Seq<(K, u64)> {
        self.entries@
    }
}

impl<K: TallyKey> CountTable<K> {
    #[verifier::type_invariant]
    spec fn indexed(self) -> bool {
        &&& forall|i: int|
            0 <= i < self.entries@.len() ==> self.index@.contains_key(
                (#[trigger] self.entries@[i]).0.code(),
            ) && self.index@[self.entries@[i].0.code()] == i
        &&& forall|c: u64| #[trigger]
            self.index@.contains_key(c) ==> self.index@[c] < self.entries@.len()
                && self.entries@[self.index@[c] as int].0.code() == c
    }

    /// A table that has counted nothing.
    pub fn new() -> (table: Self)
        ensures
            table@ == Seq::<(K, u64)>::empty(),
    {
        broadcast use group_hash_axioms;

        CountTable { entries: Vec::new(), index: HashMap::new() }
    }

    /// How often `key` has been counted.
    pub fn count(&self, key: K) -> (count: u64)
        ensures
            count == count_for(self@, key),
            distinct_keys(self@),
    {
        broadcast use group_hash_axioms;

        proof {
            use_type_invariant(self);
            lemma_position(self@, key);
        }
        match self.index.get(&key.to_code()) {
            Some(at) => {
                let i: usize = *at;
                proof {
                    K::lemma_code_injective(self.entries@[i as int].0, key);
                    lemma_position_of_entry(self@, i as int);
                }
                self.entries[i].1
            },
            None => 0,
        }
    }

    /// Counts `key` once more and returns its new count.
    pub fn add(&mut self, key: K) -> (count: u64)
        requires
            count_for(old(self)@, key) < u64::MAX,
        ensures
            final(self)@ == tallied(old(self)@, key),
            count == count_for(old(self)@, key) + 1,
            distinct_keys(final(self)@),
    {
        broadcast use group_hash_axioms;

        let mut taken = CountTable::new();
        core::mem::swap(self, &mut taken);
        proof {
            use_type_invariant(&taken);
        }
        let CountTable { mut entries, mut index } = taken;
        let ghost before = entries@;
        proof {
            lemma_position(before, key);
        }
        let code = key.to_code();
        let count: u64 = match index.get(&code) {
            Some(at) => {
                let i: usize = *at;
                proof {
                    K::lemma_code_injective(before[i as int].0, key);
                    lemma_position_of_entry(before, i as int);
                }
                let count: u64 = entries[i].1 + 1;
                entries.set(i, (key, count));
                count
            },
            None => {
                index.insert(code, entries.len());
                entries.push((key, 1));
                1
            },
        };
        *self = CountTable { entries, index };
        count
    }

    /// Takes the entries out of the table, in order of first sighting, and
    /// leaves the table with nothing counted.
    pub fn take(&mut self) -> (entries: Vec<(K, u64)>)
        ensures
            entries@ == old(self)@,
            final(self)@ == Seq::<(K, u64)>::empty(),
            distinct_keys(old(self)@),
    {
        let mut taken = CountTable::new();
        core::mem::swap(self, &mut taken);
        proof {
            use_type_invariant(&taken);
        }
        let CountTable { entries, index: _ } = taken;
        entries
    }

    /// The entries of the table, in order of first sighting.
    pub fn entries(&self) -> (entries: Vec<(K, u64)>)
        ensures
            entries@ == self@,
            distinct_keys(self@),
    {
        proof {
            use_type_invariant(self);
        }
        let mut entries: Vec<(K, u64)> = Vec::new();
        let mut i: usize = 0;
        while i < self.entries.len()
            invariant
                i <= self.entries.len(),
                entries@ == self.entries@.take(i as int),
            decreases self.entries.len() - i,
        {
            entries.push(self.entries[i]);
            assert(self.entries@.take(i + 1) =~= self.entries@.take(i as int).push(
                self.entries@[i as int],
            ));
            i += 1;
        }
        assert(self.entries@.take(self.entries.len() as int) =~= self.entries@);
        entries
    }
}

} // verus!

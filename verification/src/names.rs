//! Tables by name, in the order of the names.

use vstd::prelude::*;
use vstd::utf8::{encode_utf8, encode_utf8_decode_utf8};

verus! {

/// The order of byte strings: by the first byte that differs, and a beginning
/// before what it begins.
pub open spec fn bytes_less(a: Seq<u8>, b: Seq<u8>) -> bool
    decreases a.len(),
{
    if b.len() == 0 {
        false
    } else if a.len() == 0 {
        true
    } else {
        a[0] < b[0] || (a[0] == b[0] && bytes_less(a.drop_first(), b.drop_first()))
    }
}

/// The order of names: that of their bytes.
pub open spec fn name_less(a: Seq<char>, b: Seq<char>) -> bool {
    bytes_less(encode_utf8(a), encode_utf8(b))
}

proof fn lemma_bytes_transitive(a: Seq<u8>, b: Seq<u8>, c: Seq<u8>)
    requires
        bytes_less(a, b),
        bytes_less(b, c),
    ensures
        bytes_less(a, c),
    decreases a.len(),
{
    if a.len() > 0 && a[0] == b[0] && b[0] == c[0] {
        lemma_bytes_transitive(a.drop_first(), b.drop_first(), c.drop_first());
    }
}

proof fn lemma_bytes_total(a: Seq<u8>, b: Seq<u8>)
    ensures
        bytes_less(a, b) || bytes_less(b, a) || a == b,
        !(bytes_less(a, b) && bytes_less(b, a)),
        !bytes_less(a, a),
    decreases a.len(),
{
    if a.len() > 0 && b.len() > 0 {
        lemma_bytes_total(a.drop_first(), b.drop_first());
        if a[0] == b[0] && a.drop_first() == b.drop_first() {
            assert(a =~= seq![a[0]] + a.drop_first());
            assert(b =~= seq![b[0]] + b.drop_first());
        }
    } else if a.len() == 0 && b.len() == 0 {
        assert(a =~= b);
    }
    if a.len() > 0 {
        lemma_bytes_total(a.drop_first(), a.drop_first());
    }
}

/// The order of names is strict and total.
pub proof fn names_are_ordered(a: Seq<char>, b: Seq<char>, c: Seq<char>)
    ensures
        name_less(a, b) || name_less(b, a) || a == b,
        !(name_less(a, b) && name_less(b, a)),
        !name_less(a, a),
        name_less(a, b) && name_less(b, c) ==> name_less(a, c),
{
    lemma_bytes_total(encode_utf8(a), encode_utf8(b));
    encode_utf8_decode_utf8(a);
    encode_utf8_decode_utf8(b);
    if name_less(a, b) && name_less(b, c) {
        lemma_bytes_transitive(encode_utf8(a), encode_utf8(b), encode_utf8(c));
    }
}

/// Whether the first name stands before the second.
pub fn stands_before(a: &str, b: &str) -> (less: bool)
    ensures
        less == name_less(a@, b@),
{
    let x = a.as_bytes();
    let y = b.as_bytes();
    let mut i: usize = 0;
    assert(x@.skip(0) =~= x@);
    assert(y@.skip(0) =~= y@);
    loop
        invariant
            i <= x@.len(),
            i <= y@.len(),
            bytes_less(x@.skip(i as int), y@.skip(i as int)) == bytes_less(x@, y@),
            x@ == encode_utf8(a@),
            y@ == encode_utf8(b@),
        decreases x@.len() - i,
    {
        if i == y.len() {
            return false;
        }
        if i == x.len() {
            return true;
        }
        if x[i] < y[i] {
            return true;
        }
        if x[i] > y[i] {
            return false;
        }
        assert(x@.skip(i as int).drop_first() =~= x@.skip(i + 1));
        assert(y@.skip(i as int).drop_first() =~= y@.skip(i + 1));
        i = i + 1;
    }
}

/// The names and values as a map; of two entries with one name the later one
/// counts.
pub open spec fn entry_map<V>(entries: Seq<(String, V)>) -> Map<Seq<char>, V>
    decreases entries.len(),
{
    if entries.len() == 0 {
        Map::empty()
    } else {
        entry_map(entries.drop_last()).insert(entries.last().0@, entries.last().1)
    }
}

/// The names of the entries ascend.
pub open spec fn ascending<V>(entries: Seq<(String, V)>) -> bool {
    forall|i: int, j: int|
        0 <= i < j < entries.len() ==> name_less(
            (#[trigger] entries[i]).0@,
            (#[trigger] entries[j]).0@,
        )
}

proof fn lemma_entry_map<V>(entries: Seq<(String, V)>)
    requires
        ascending(entries),
    ensures
        forall|i: int|
            0 <= i < entries.len() ==> entry_map(entries).contains_key((#[trigger] entries[i]).0@)
                && entry_map(entries)[entries[i].0@] == entries[i].1,
        forall|n: Seq<char>| #[trigger]
            entry_map(entries).contains_key(n) ==> exists|i: int|
                0 <= i < entries.len() && (#[trigger] entries[i]).0@ == n,
    decreases entries.len(),
{
    if entries.len() > 0 {
        let rest = entries.drop_last();
        assert(ascending(rest)) by {
            assert forall|i: int, j: int| 0 <= i < j < rest.len() implies name_less(
                (#[trigger] rest[i]).0@,
                (#[trigger] rest[j]).0@,
            ) by {
                assert(name_less(entries[i].0@, entries[j].0@));
            }
        }
        lemma_entry_map(rest);
        let last = entries.len() - 1;
        assert forall|i: int| 0 <= i < entries.len() implies entry_map(entries).contains_key(
            (#[trigger] entries[i]).0@,
        ) && entry_map(entries)[entries[i].0@] == entries[i].1 by {
            if i < last {
                assert(rest[i] == entries[i]);
                assert(name_less(entries[i].0@, entries[last].0@));
                names_are_ordered(entries[i].0@, entries[last].0@, entries[i].0@);
            }
        }
        assert forall|n: Seq<char>| #[trigger] entry_map(entries).contains_key(n) implies exists|
            i: int,
        |
            0 <= i < entries.len() && (#[trigger] entries[i]).0@ == n by {
            if n != entries[last].0@ {
                assert(entry_map(rest).contains_key(n));
                let i = choose|i: int| 0 <= i < rest.len() && (#[trigger] rest[i]).0@ == n;
                assert(entries[i].0@ == n);
            } else {
                assert(entries[last].0@ == n);
            }
        }
    }
}

/// A table of values by name. No name occurs twice, and the names ascend.
#[derive(Debug)]
pub struct NameTable<V> {
    entries: Vec<(String, V)>,
}

impl<V> View for NameTable<V> {
    type V = Map<Seq<char>, V>;

    closed spec fn view(&self) -> Map<Seq<char>, V> {
        entry_map(self.entries@)
    }
}

impl<V> NameTable<V> {
    /// The entries in the order of their names.
    pub closed spec fn listed(self) -> Seq<(String, V)> {
        self.entries@
    }

    #[verifier::type_invariant]
    spec fn in_order(self) -> bool {
        ascending(self.entries@)
    }

    pub fn new() -> (table: Self)
        ensures
            table@ == Map::<Seq<char>, V>::empty(),
            table.listed().len() == 0,
    {
        NameTable { entries: Vec::new() }
    }

    /// The table is what its entries list.
    pub proof fn listing_is_the_table(&self)
        ensures
            self@ == entry_map(self.listed()),
    {
    }

    pub fn len(&self) -> (len: usize)
        ensures
            len == self.listed().len(),
            ascending(self.listed()),
    {
        proof {
            use_type_invariant(self);
        }
        self.entries.len()
    }

    /// The name and the value of an entry.
    pub fn at(&self, i: usize) -> (entry: (&String, &V))
        requires
            i < self.listed().len(),
        ensures
            *entry.0 == self.listed()[i as int].0,
            *entry.1 == self.listed()[i as int].1,
            ascending(self.listed()),
    {
        proof {
            use_type_invariant(self);
        }
        let entry = &self.entries[i];
        (&entry.0, &entry.1)
    }

    /// The position of the first entry that does not stand before `name`, and
    /// whether it is the entry of that name.
    fn seek(&self, name: &str) -> (place: (usize, bool))
        ensures
            place.0 <= self.entries@.len(),
            forall|j: int|
                0 <= j < place.0 ==> name_less((#[trigger] self.entries@[j]).0@, name@),
            place.0 < self.entries@.len() && !place.1 ==> name_less(
                name@,
                self.entries@[place.0 as int].0@,
            ),
            place.1 ==> place.0 < self.entries@.len() && self.entries@[place.0 as int].0@ == name@,
    {
        let mut i: usize = 0;
        while i < self.entries.len()
            invariant
                i <= self.entries@.len(),
                forall|j: int| 0 <= j < i ==> name_less((#[trigger] self.entries@[j]).0@, name@),
            decreases self.entries@.len() - i,
        {
            let here = self.entries[i].0.as_str();
            proof {
                names_are_ordered(here@, name@, name@);
            }
            if stands_before(here, name) {
                i = i + 1;
            } else if stands_before(name, here) {
                return (i, false);
            } else {
                return (i, true);
            }
        }
        (i, false)
    }

    pub fn get(&self, name: &str) -> (value: Option<&V>)
        ensures
            value is Some <==> self@.contains_key(name@),
            value matches Some(v) ==> *v == self@[name@],
    {
        proof {
            use_type_invariant(self);
            lemma_entry_map(self.entries@);
        }
        let (i, found) = self.seek(name);
        if found {
            Some(&self.entries[i].1)
        } else {
            proof {
                lemma_absent(self.entries@, i as int, name@);
            }
            None
        }
    }

    pub fn contains_key(&self, name: &str) -> (has: bool)
        ensures
            has == self@.contains_key(name@),
    {
        match self.get(name) {
            Some(_) => true,
            None => false,
        }
    }

    pub fn insert(&mut self, name: String, value: V)
        ensures
            final(self)@ == old(self)@.insert(name@, value),
    {
        proof {
            use_type_invariant(&*self);
        }
        let (i, found) = self.seek(name.as_str());
        let ghost before = self.entries@;
        let ghost key = name@;
        let mut entries: Vec<(String, V)> = Vec::new();
        std::mem::swap(&mut entries, &mut self.entries);
        if found {
            entries[i] = (name, value);
            proof {
                assert(ascending(entries@)) by {
                    assert forall|a: int, b: int| 0 <= a < b < entries@.len() implies name_less(
                        (#[trigger] entries@[a]).0@,
                        (#[trigger] entries@[b]).0@,
                    ) by {
                        assert(name_less(before[a].0@, before[b].0@));
                    }
                }
                lemma_entry_map(before);
                lemma_entry_map(entries@);
                let want = entry_map(before).insert(key, value);
                assert forall|n: Seq<char>|
                    entry_map(entries@).contains_key(n) == #[trigger] want.contains_key(n) by {
                    if entry_map(before).contains_key(n) {
                        let j = choose|j: int|
                            0 <= j < before.len() && (#[trigger] before[j]).0@ == n;
                        assert(entries@[j].0@ == n);
                    }
                    if entry_map(entries@).contains_key(n) {
                        let j = choose|j: int|
                            0 <= j < entries@.len() && (#[trigger] entries@[j]).0@ == n;
                        assert(before[j].0@ == n);
                    }
                    assert(entries@[i as int].0@ == key);
                }
                assert forall|n: Seq<char>| #[trigger] entry_map(entries@).contains_key(
                    n,
                ) implies entry_map(entries@)[n] == entry_map(before).insert(key, value)[n] by {
                    let j = choose|j: int|
                        0 <= j < entries@.len() && (#[trigger] entries@[j]).0@ == n;
                    assert(before[j].0@ == n);
                    if j != i {
                        names_are_ordered(n, key, n);
                        if j < i {
                            assert(name_less(before[j].0@, before[i as int].0@));
                        } else {
                            assert(name_less(before[i as int].0@, before[j].0@));
                        }
                    }
                }
                assert(entry_map(entries@) =~= entry_map(before).insert(key, value));
            }
        } else {
            proof {
                lemma_absent(before, i as int, key);
            }
            entries.insert(i, (name, value));
            proof {
                lemma_insert(before, i as int, entries@[i as int]);
            }
        }
        self.entries = entries;
    }
}

proof fn lemma_same_entries<V>(a: Seq<(String, V)>, b: Seq<(String, V)>)
    requires
        a.len() == b.len(),
        forall|i: int| 0 <= i < a.len() ==> (#[trigger] a[i]).0@ == b[i].0@ && a[i].1 == b[i].1,
    ensures
        entry_map(a) == entry_map(b),
    decreases a.len(),
{
    if a.len() > 0 {
        lemma_same_entries(a.drop_last(), b.drop_last());
    }
}

impl<V: Copy> Clone for NameTable<V> {
    fn clone(&self) -> (copy: Self)
        ensures
            copy@ == self@,
    {
        proof {
            use_type_invariant(self);
        }
        let mut entries: Vec<(String, V)> = Vec::new();
        let mut i: usize = 0;
        while i < self.entries.len()
            invariant
                ascending(self.entries@),
                i <= self.entries@.len(),
                entries@.len() == i,
                forall|j: int|
                    0 <= j < i ==> (#[trigger] entries@[j]).0@ == self.entries@[j].0@
                        && entries@[j].1 == self.entries@[j].1,
            decreases self.entries@.len() - i,
        {
            entries.push((self.entries[i].0.clone(), self.entries[i].1));
            i = i + 1;
        }
        proof {
            lemma_same_entries(entries@, self.entries@);
            assert forall|a: int, b: int| 0 <= a < b < entries@.len() implies name_less(
                (#[trigger] entries@[a]).0@,
                (#[trigger] entries@[b]).0@,
            ) by {
                assert(name_less(self.entries@[a].0@, self.entries@[b].0@));
            }
        }
        NameTable { entries }
    }
}

proof fn lemma_absent<V>(entries: Seq<(String, V)>, i: int, name: Seq<char>)
    requires
        ascending(entries),
        0 <= i <= entries.len(),
        forall|j: int| 0 <= j < i ==> name_less((#[trigger] entries[j]).0@, name),
        i < entries.len() ==> name_less(name, entries[i].0@),
    ensures
        !entry_map(entries).contains_key(name),
        forall|j: int| i <= j < entries.len() ==> name_less(name, (#[trigger] entries[j]).0@),
{
    lemma_entry_map(entries);
    assert forall|j: int| i <= j < entries.len() implies name_less(
        name,
        (#[trigger] entries[j]).0@,
    ) by {
        if i < j {
            assert(name_less(entries[i].0@, entries[j].0@));
            names_are_ordered(name, entries[i].0@, entries[j].0@);
        }
    }
    if entry_map(entries).contains_key(name) {
        let j = choose|j: int| 0 <= j < entries.len() && (#[trigger] entries[j]).0@ == name;
        names_are_ordered(name, name, name);
        assert(name_less(entries[j].0@, name) || name_less(name, entries[j].0@));
    }
}

proof fn lemma_insert<V>(entries: Seq<(String, V)>, i: int, entry: (String, V))
    requires
        ascending(entries),
        0 <= i <= entries.len(),
        forall|j: int| 0 <= j < i ==> name_less((#[trigger] entries[j]).0@, entry.0@),
        forall|j: int| i <= j < entries.len() ==> name_less(entry.0@, (#[trigger] entries[j]).0@),
        !entry_map(entries).contains_key(entry.0@),
    ensures
        ascending(entries.insert(i, entry)),
        entry_map(entries.insert(i, entry)) == entry_map(entries).insert(entry.0@, entry.1),
{
    let more = entries.insert(i, entry);
    assert forall|a: int, b: int| 0 <= a < b < more.len() implies name_less(
        (#[trigger] more[a]).0@,
        (#[trigger] more[b]).0@,
    ) by {
        let p = if a < i { a } else { a - 1 };
        let q = if b < i { b } else { b - 1 };
        if a == i {
            assert(more[b] == entries[q]);
        } else if b == i {
            assert(more[a] == entries[p]);
        } else {
            assert(more[a] == entries[p] && more[b] == entries[q]);
            assert(name_less(entries[p].0@, entries[q].0@));
        }
    }
    lemma_entry_map(entries);
    lemma_entry_map(more);
    let want = entry_map(entries).insert(entry.0@, entry.1);
    assert(more[i] == entry);
    assert forall|n: Seq<char>| entry_map(more).contains_key(n) == #[trigger] want.contains_key(
        n,
    ) by {
        if entry_map(entries).contains_key(n) {
            let j = choose|j: int| 0 <= j < entries.len() && (#[trigger] entries[j]).0@ == n;
            assert(more[if j < i { j } else { j + 1 }].0@ == n);
        }
        if entry_map(more).contains_key(n) {
            let j = choose|j: int| 0 <= j < more.len() && (#[trigger] more[j]).0@ == n;
            if j != i {
                let k = if j < i { j } else { j - 1 };
                assert(entries[k] == more[j]);
            }
        }
    }
    assert forall|n: Seq<char>| #[trigger] entry_map(more).contains_key(n) implies entry_map(
        more,
    )[n] == want[n] by {
        let j = choose|j: int| 0 <= j < more.len() && (#[trigger] more[j]).0@ == n;
        if j != i {
            let k = if j < i { j } else { j - 1 };
            assert(entries[k] == more[j]);
        }
    }
    assert(entry_map(more) =~= want);
}

} // verus!

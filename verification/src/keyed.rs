//! Lists of entries keyed by names, in which a key is found at its first
//! occurrence.

use vstd::prelude::*;

use vstd::string::*;

use crate::open_dds::names::Ident;

verus! {

/// Whether some entry has the key.
pub open spec fn has_key<K: View, V>(s: Seq<(K, V)>, k: K::V) -> bool {
    exists|i: int| 0 <= i < s.len() && (#[trigger] s[i]).0@ == k
}

/// Whether `i` is the first entry with the key.
pub open spec fn is_first_key<K: View, V>(s: Seq<(K, V)>, k: K::V, i: int) -> bool {
    &&& 0 <= i < s.len()
    &&& s[i].0@ == k
    &&& forall|j: int| 0 <= j < i ==> (#[trigger] s[j]).0@ != k
}

/// The position of the first entry with the key, where there is one.
pub open spec fn first_key<K: View, V>(s: Seq<(K, V)>, k: K::V) -> int {
    choose|i: int| is_first_key(s, k, i)
}

/// There is one first entry with a key.
pub proof fn lemma_first_key_unique<K: View, V>(s: Seq<(K, V)>, k: K::V, i: int)
    requires
        is_first_key(s, k, i),
    ensures
        first_key(s, k) == i,
{
    let j = first_key(s, k);
    assert(is_first_key(s, k, j));
    if j < i {
        assert(s[j].0@ != k);
    } else if i < j {
        assert(s[i].0@ != k);
    }
}

/// Whether no key occurs twice.
pub open spec fn keys_distinct<K: View, V>(s: Seq<(K, V)>) -> bool {
    forall|i: int, j: int| 0 <= i < j < s.len() ==> (#[trigger] s[i]).0@ != (#[trigger] s[j]).0@
}

/// Whether a list of names holds the name.
pub open spec fn names_contain<K: View>(s: Seq<K>, k: K::V) -> bool {
    exists|i: int| 0 <= i < s.len() && (#[trigger] s[i])@ == k
}

/// The position of the first entry with the key, if there is one.
pub fn find_key<K: Ident, V>(s: &Vec<(K, V)>, k: &K) -> (r: Option<usize>)
    ensures
        match r {
            Some(i) => is_first_key(s@, k@, i as int),
            None => !has_key(s@, k@),
        },
{
    let mut i: usize = 0;
    while i < s.len()
        invariant
            i <= s.len(),
            forall|j: int| 0 <= j < i ==> (#[trigger] s@[j]).0@ != k@,
        decreases s.len() - i,
    {
        if s[i].0.same(k) {
            return Some(i);
        }
        i = i + 1;
    }
    None
}

/// Whether a list of names holds the name.
pub fn contains_name<K: Ident>(s: &Vec<K>, k: &K) -> (r: bool)
    ensures
        r == names_contain(s@, k@),
{
    let mut i: usize = 0;
    while i < s.len()
        invariant
            i <= s.len(),
            forall|j: int| 0 <= j < i ==> (#[trigger] s@[j])@ != k@,
        decreases s.len() - i,
    {
        if s[i].same(k) {
            return true;
        }
        i = i + 1;
    }
    false
}

/// The abstract entries of a list keyed by strings.
pub open spec fn entries_view<V: View>(v: Seq<(String, V)>) -> Seq<(Seq<char>, V::V)> {
    v.map_values(|m: (String, V)| (m.0@, m.1@))
}

/// A position of the entry with the key, where there is one.
pub open spec fn entry_index<T>(s: Seq<(Seq<char>, T)>, k: Seq<char>) -> int {
    choose|i: int| 0 <= i < s.len() && (#[trigger] s[i]).0 == k
}

/// The entries with one entry set: its value replaced in place where the key
/// is there, added at the end otherwise.
pub open spec fn upsert<T>(s: Seq<(Seq<char>, T)>, k: Seq<char>, v: T) -> Seq<(Seq<char>, T)> {
    if exists|i: int| 0 <= i < s.len() && (#[trigger] s[i]).0 == k {
        s.update(entry_index(s, k), (k, v))
    } else {
        s.push((k, v))
    }
}

/// Whether no key occurs twice among the entries.
pub open spec fn entries_distinct<T>(s: Seq<(Seq<char>, T)>) -> bool {
    forall|i: int, j: int| 0 <= i < j < s.len() ==> (#[trigger] s[i]).0 != (#[trigger] s[j]).0
}

/// Sets an entry: replaces its value where the key is there, adds it at the
/// end otherwise.
pub fn set_entry<V: View>(entries: &mut Vec<(String, V)>, key: String, value: V)
    requires
        entries_distinct(entries_view(old(entries)@)),
    ensures
        entries_view(final(entries)@) == upsert(entries_view(old(entries)@), key@, value@),
        entries_distinct(entries_view(final(entries)@)),
{
    let ghost before = entries_view(entries@);
    let mut i: usize = 0;
    while i < entries.len()
        invariant
            i <= entries.len(),
            before == entries_view(entries@),
            before == entries_view(old(entries)@),
            entries_distinct(before),
            forall|j: int| 0 <= j < i ==> (#[trigger] before[j]).0 != key@,
        decreases entries.len() - i,
    {
        if entries[i].0 == key {
            proof {
                assert(before[i as int].0 == key@);
                assert(exists|j: int| 0 <= j < before.len() && (#[trigger] before[j]).0 == key@);
                let c = entry_index(before, key@);
                assert(0 <= c < before.len() && before[c].0 == key@);
                if c != i {
                    assert(before[c].0 == before[i as int].0);
                }
                assert(c == i);
            }
            let ghost kv = (key@, value@);
            entries.set(i, (key, value));
            assert(entries_view(entries@) =~= before.update(i as int, kv));
            assert(upsert(before, kv.0, kv.1) == before.update(i as int, kv));
            return;
        }
        i = i + 1;
    }
    entries.push((key, value));
    assert(entries_view(entries@) =~= before.push((key@, value@)));
}

/// Whether some entry has the key.
pub open spec fn entry_present<T>(s: Seq<(Seq<char>, T)>, k: Seq<char>) -> bool {
    exists|i: int| 0 <= i < s.len() && (#[trigger] s[i]).0 == k
}

/// Whether some entry has the key.
pub fn has_entry<V: View>(entries: &Vec<(String, V)>, key: &str) -> (r: bool)
    ensures
        r == entry_present(entries_view(entries@), key@),
{
    let ghost s = entries_view(entries@);
    let mut i: usize = 0;
    while i < entries.len()
        invariant
            i <= entries.len(),
            s == entries_view(entries@),
            forall|j: int| 0 <= j < i ==> (#[trigger] s[j]).0 != key@,
        decreases entries.len() - i,
    {
        if crate::text::str_eq(entries[i].0.as_str(), key) {
            assert(s[i as int].0 == key@);
            return true;
        }
        i = i + 1;
    }
    false
}

/// Setting an entry leaves it there.
pub proof fn lemma_upsert_holds<T>(s: Seq<(Seq<char>, T)>, k: Seq<char>, v: T)
    ensures
        upsert(s, k, v).contains((k, v)),
{
    if exists|i: int| 0 <= i < s.len() && (#[trigger] s[i]).0 == k {
        let i = entry_index(s, k);
        assert(upsert(s, k, v)[i] == (k, v));
    } else {
        assert(upsert(s, k, v)[s.len() as int] == (k, v));
    }
}

/// Setting an entry keeps every entry with another key.
pub proof fn lemma_upsert_keeps<T>(s: Seq<(Seq<char>, T)>, k: Seq<char>, v: T, e: (Seq<char>, T))
    requires
        s.contains(e),
        e.0 != k,
    ensures
        upsert(s, k, v).contains(e),
{
    let m = choose|m: int| 0 <= m < s.len() && s[m] == e;
    if exists|i: int| 0 <= i < s.len() && (#[trigger] s[i]).0 == k {
        let i = entry_index(s, k);
        assert(i != m);
        assert(upsert(s, k, v)[m] == e);
    } else {
        assert(upsert(s, k, v)[m] == e);
    }
}

} // verus!

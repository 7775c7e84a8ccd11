//! Keyed tables: a vector of keys beside a vector of values, read as a map
//! from each key's text to its value. The registries of devices and of
//! transfers are such tables, with the property of a map that a key occurs
//! once.
use vstd::prelude::*;

verus! {

/// The texts of a sequence of string keys.
pub open spec fn key_views(ks: Seq<String>) -> Seq<Seq<char>> {
    ks.map_values(|s: String| s@)
}

/// The position of key `k` in `ks` (meaningful when `ks` contains `k`).
pub open spec fn key_index(ks: Seq<Seq<char>>, k: Seq<char>) -> int {
    choose|i: int| 0 <= i < ks.len() && ks[i] == k
}

/// The map from each key of `ks` to the value at the same position of `vs`.
pub open spec fn entries_map<V>(ks: Seq<Seq<char>>, vs: Seq<V>) -> Map<Seq<char>, V> {
    Map::new(|k: Seq<char>| ks.contains(k), |k: Seq<char>| vs[key_index(ks, k)])
}

/// The key at position `i` maps to the value at position `i`.
pub proof fn lemma_entries_index<V>(ks: Seq<Seq<char>>, vs: Seq<V>, i: int)
    requires
        ks.no_duplicates(),
        0 <= i < ks.len(),
    ensures
        entries_map(ks, vs).contains_key(ks[i]),
        entries_map(ks, vs)[ks[i]] == vs[i],
        key_index(ks, ks[i]) == i,
{
    assert(ks.contains(ks[i]));
    let j = key_index(ks, ks[i]);
    assert(0 <= j < ks.len() && ks[j] == ks[i]);
}

/// Every key of the map sits at some position of `ks`.
pub proof fn lemma_entries_contains<V>(ks: Seq<Seq<char>>, vs: Seq<V>, k: Seq<char>)
    requires
        ks.no_duplicates(),
        entries_map(ks, vs).contains_key(k),
    ensures
        0 <= key_index(ks, k) < ks.len(),
        ks[key_index(ks, k)] == k,
        entries_map(ks, vs)[k] == vs[key_index(ks, k)],
{
    assert(ks.contains(k));
}

/// The empty table is the empty map.
pub proof fn lemma_entries_empty<V>()
    ensures
        entries_map(Seq::<Seq<char>>::empty(), Seq::<V>::empty()) == Map::<Seq<char>, V>::empty(),
{
    assert(entries_map(Seq::<Seq<char>>::empty(), Seq::<V>::empty()) =~= Map::<Seq<char>, V>::empty());
}

/// Replacing the value at position `i` replaces the value of its key.
pub proof fn lemma_entries_update<V>(ks: Seq<Seq<char>>, vs: Seq<V>, i: int, v: V)
    requires
        ks.no_duplicates(),
        0 <= i < ks.len(),
        vs.len() == ks.len(),
    ensures
        entries_map(ks, vs.update(i, v)) == entries_map(ks, vs).insert(ks[i], v),
{
    let m1 = entries_map(ks, vs.update(i, v));
    let m2 = entries_map(ks, vs).insert(ks[i], v);
    assert forall|k: Seq<char>| m1.contains_key(k) <==> m2.contains_key(k) by {
        if k == ks[i] {
            assert(ks.contains(k));
        }
    }
    assert forall|k: Seq<char>| #[trigger] m1.contains_key(k) implies m1[k] == m2[k] by {
        lemma_entries_contains(ks, vs.update(i, v), k);
        let j = key_index(ks, k);
        if j == i {
        } else {
            lemma_entries_contains(ks, vs, k);
        }
    }
    assert(m1 =~= m2);
}

/// Appending a new key with a value adds that key to the map.
pub proof fn lemma_entries_push<V>(ks: Seq<Seq<char>>, vs: Seq<V>, k: Seq<char>, v: V)
    requires
        ks.no_duplicates(),
        !ks.contains(k),
        vs.len() == ks.len(),
    ensures
        ks.push(k).no_duplicates(),
        entries_map(ks.push(k), vs.push(v)) == entries_map(ks, vs).insert(k, v),
{
    let ks2 = ks.push(k);
    let vs2 = vs.push(v);
    assert forall|i: int, j: int| 0 <= i < ks2.len() && 0 <= j < ks2.len() && i != j implies ks2[i]
        != ks2[j] by {
        if i == ks.len() {
            assert(ks.contains(ks[j]));
        } else if j == ks.len() {
            assert(ks.contains(ks[i]));
        }
    }
    let m1 = entries_map(ks2, vs2);
    let m2 = entries_map(ks, vs).insert(k, v);
    assert forall|x: Seq<char>| m1.contains_key(x) <==> m2.contains_key(x) by {
        if ks2.contains(x) {
            let i = choose|i: int| 0 <= i < ks2.len() && ks2[i] == x;
            if i < ks.len() {
                assert(ks[i] == x);
            }
        }
        if ks.contains(x) {
            let i = choose|i: int| 0 <= i < ks.len() && ks[i] == x;
            assert(ks2[i] == x);
        }
        if x == k {
            assert(ks2[ks.len() as int] == k);
        }
    }
    assert forall|x: Seq<char>| #[trigger] m1.contains_key(x) implies m1[x] == m2[x] by {
        lemma_entries_contains(ks2, vs2, x);
        let j = key_index(ks2, x);
        if j == ks.len() {
        } else {
            assert(ks[j] == x);
            lemma_entries_index(ks, vs, j);
        }
    }
    assert(m1 =~= m2);
}


/// Applying `f` to every value, position by position, applies it to every
/// value of the map.
pub proof fn lemma_entries_map_values<V>(
    ks: Seq<Seq<char>>,
    vs1: Seq<V>,
    vs2: Seq<V>,
    f: spec_fn(V) -> V,
)
    requires
        ks.no_duplicates(),
        vs1.len() == ks.len(),
        vs2.len() == ks.len(),
        forall|i: int| 0 <= i < ks.len() ==> vs2[i] == f(vs1[i]),
    ensures
        entries_map(ks, vs2) == entries_map(ks, vs1).map_values(f),
{
    let m1 = entries_map(ks, vs2);
    let m2 = entries_map(ks, vs1).map_values(f);
    assert forall|k: Seq<char>| #[trigger] m1.contains_key(k) implies m1[k] == m2[k] by {
        lemma_entries_contains(ks, vs2, k);
        lemma_entries_contains(ks, vs1, k);
    }
    assert(m1 =~= m2);
}

/// The position of `key` among `keys`, if it occurs.
pub fn find_key(keys: &Vec<String>, key: &String) -> (res: Option<usize>)
    ensures
        match res {
            Some(i) => i < keys@.len() && keys@[i as int]@ == key@,
            None => !key_views(keys@).contains(key@),
        },
{
    let mut i: usize = 0;
    while i < keys.len()
        invariant
            0 <= i <= keys@.len(),
            forall|j: int| 0 <= j < i ==> keys@[j]@ != key@,
        decreases keys@.len() - i,
    {
        if keys[i] == *key {
            return Some(i);
        }
        i = i + 1;
    }
    proof {
        if key_views(keys@).contains(key@) {
            let j = choose|j: int| 0 <= j < key_views(keys@).len() && key_views(keys@)[j] == key@;
            assert(keys@[j]@ == key@);
        }
    }
    None
}

} // verus!

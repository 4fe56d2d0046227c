use vstd::prelude::*;

verus! {

/// One entry of a table keyed by text: the library keeps the bot's
/// text-keyed JSON maps as vectors of entries whose keys are distinct.
pub struct Entry<V> {
    pub key: String,
    pub value: V,
}

/// Whether no two entries share a key.
pub open spec fn keys_distinct<V>(s: Seq<Entry<V>>) -> bool {
    forall|i: int, j: int|
        0 <= i < s.len() && 0 <= j < s.len() && i != j ==> (#[trigger] s[i]).key@ != (#[trigger] s[j]).key@
}

/// Whether some entry has the key `k`.
pub open spec fn has_key<V>(s: Seq<Entry<V>>, k: Seq<char>) -> bool {
    exists|i: int| 0 <= i < s.len() && (#[trigger] s[i]).key@ == k
}

/// The position of the entry with key `k` (meaningful when there is one).
pub open spec fn key_index<V>(s: Seq<Entry<V>>, k: Seq<char>) -> int {
    choose|i: int| 0 <= i < s.len() && (#[trigger] s[i]).key@ == k
}

/// The table as a map from keys to `f` of the values.
pub open spec fn key_map<V, W>(s: Seq<Entry<V>>, f: spec_fn(V) -> W) -> Map<Seq<char>, W> {
    Map::new(|k: Seq<char>| has_key(s, k), |k: Seq<char>| f(s[key_index(s, k)].value))
}

/// With distinct keys, the entry with a key is the one found.
pub proof fn lemma_key_index<V>(s: Seq<Entry<V>>, k: Seq<char>, j: int)
    requires
        keys_distinct(s),
        0 <= j < s.len(),
        s[j].key@ == k,
    ensures
        key_index(s, k) == j,
{
    let i = key_index(s, k);
    assert(0 <= i < s.len() && s[i].key@ == k);
}

/// Replacing the entry at `i` by one with the same key updates that key.
pub proof fn lemma_key_map_update<V, W>(s: Seq<Entry<V>>, i: int, e: Entry<V>, f: spec_fn(V) -> W)
    requires
        keys_distinct(s),
        0 <= i < s.len(),
        e.key@ == s[i].key@,
    ensures
        keys_distinct(s.update(i, e)),
        key_map(s.update(i, e), f) =~= key_map(s, f).insert(e.key@, f(e.value)),
{
    let t = s.update(i, e);
    assert forall|a: int, b: int|
        0 <= a < t.len() && 0 <= b < t.len() && a != b implies (#[trigger] t[a]).key@ != (
    #[trigger] t[b]).key@ by {
        assert(t[a].key@ == s[a].key@);
        assert(t[b].key@ == s[b].key@);
    }
    assert forall|k: Seq<char>| has_key(t, k) <==> has_key(s, k) || k == e.key@ by {
        if has_key(s, k) {
            let j = choose|j: int| 0 <= j < s.len() && (#[trigger] s[j]).key@ == k;
            assert(t[j].key@ == k);
        }
        if has_key(t, k) {
            let j = choose|j: int| 0 <= j < t.len() && (#[trigger] t[j]).key@ == k;
            assert(s[j].key@ == k);
        }
        if k == e.key@ {
            assert(t[i].key@ == k);
        }
    }
    assert forall|k: Seq<char>| #[trigger] has_key(t, k) implies f(t[key_index(t, k)].value) == (if k
        == e.key@ {
        f(e.value)
    } else {
        f(s[key_index(s, k)].value)
    }) by {
        let j = choose|j: int| 0 <= j < t.len() && (#[trigger] t[j]).key@ == k;
        lemma_key_index(t, k, j);
        if k != e.key@ {
            assert(j != i);
            lemma_key_index(s, k, j);
        } else {
            assert(t[i].key@ == k);
            lemma_key_index(t, k, i);
        }
    }
}

/// Appending an entry with a new key adds that key.
pub proof fn lemma_key_map_push<V, W>(s: Seq<Entry<V>>, e: Entry<V>, f: spec_fn(V) -> W)
    requires
        keys_distinct(s),
        !has_key(s, e.key@),
    ensures
        keys_distinct(s.push(e)),
        key_map(s.push(e), f) =~= key_map(s, f).insert(e.key@, f(e.value)),
{
    let t = s.push(e);
    assert forall|a: int, b: int|
        0 <= a < t.len() && 0 <= b < t.len() && a != b implies (#[trigger] t[a]).key@ != (
    #[trigger] t[b]).key@ by {
        if a < s.len() && b < s.len() {
            assert(t[a] == s[a] && t[b] == s[b]);
        } else if a < s.len() {
            assert(t[a] == s[a]);
        } else if b < s.len() {
            assert(t[b] == s[b]);
        }
    }
    assert forall|k: Seq<char>| has_key(t, k) <==> has_key(s, k) || k == e.key@ by {
        if has_key(s, k) {
            let j = choose|j: int| 0 <= j < s.len() && (#[trigger] s[j]).key@ == k;
            assert(t[j] == s[j]);
        }
        if has_key(t, k) {
            let j = choose|j: int| 0 <= j < t.len() && (#[trigger] t[j]).key@ == k;
            if j < s.len() {
                assert(t[j] == s[j]);
            }
        }
        if k == e.key@ {
            assert(t[s.len() as int] == e);
        }
    }
    assert forall|k: Seq<char>| #[trigger] has_key(t, k) implies f(t[key_index(t, k)].value) == (if k
        == e.key@ {
        f(e.value)
    } else {
        f(s[key_index(s, k)].value)
    }) by {
        let j = choose|j: int| 0 <= j < t.len() && (#[trigger] t[j]).key@ == k;
        lemma_key_index(t, k, j);
        if j < s.len() {
            assert(t[j] == s[j]);
            lemma_key_index(s, k, j);
        } else {
            assert(t[j] == e);
        }
    }
}

/// Removing the entry at `i` removes its key.
pub proof fn lemma_key_map_remove<V, W>(s: Seq<Entry<V>>, i: int, f: spec_fn(V) -> W)
    requires
        keys_distinct(s),
        0 <= i < s.len(),
    ensures
        keys_distinct(s.remove(i)),
        key_map(s.remove(i), f) =~= key_map(s, f).remove(s[i].key@),
{
    let t = s.remove(i);
    assert forall|a: int| 0 <= a < t.len() implies #[trigger] t[a] == (if a < i {
        s[a]
    } else {
        s[a + 1]
    }) by {}
    assert forall|a: int, b: int|
        0 <= a < t.len() && 0 <= b < t.len() && a != b implies (#[trigger] t[a]).key@ != (
    #[trigger] t[b]).key@ by {
        let sa = if a < i { a } else { a + 1 };
        let sb = if b < i { b } else { b + 1 };
        assert(t[a] == s[sa] && t[b] == s[sb]);
    }
    assert forall|k: Seq<char>| has_key(t, k) <==> has_key(s, k) && k != s[i].key@ by {
        if has_key(s, k) && k != s[i].key@ {
            let j = choose|j: int| 0 <= j < s.len() && (#[trigger] s[j]).key@ == k;
            assert(j != i);
            let tj = if j < i { j } else { j - 1 };
            assert(t[tj] == s[j]);
        }
        if has_key(t, k) {
            let j = choose|j: int| 0 <= j < t.len() && (#[trigger] t[j]).key@ == k;
            let sj = if j < i { j } else { j + 1 };
            assert(t[j] == s[sj]);
            assert(sj != i);
        }
    }
    assert forall|k: Seq<char>| #[trigger] has_key(t, k) implies f(t[key_index(t, k)].value) == f(
        s[key_index(s, k)].value,
    ) by {
        let j = choose|j: int| 0 <= j < t.len() && (#[trigger] t[j]).key@ == k;
        lemma_key_index(t, k, j);
        let sj = if j < i { j } else { j + 1 };
        assert(t[j] == s[sj]);
        lemma_key_index(s, k, sj);
    }
}

/// The position of the entry with key `k`, if any.
pub fn find_key<V>(s: &Vec<Entry<V>>, k: &String) -> (r: Option<usize>)
    ensures
        r is Some ==> r->0 < s@.len() && s@[r->0 as int].key@ == k@,
        r is None ==> !has_key(s@, k@),
{
    let mut i: usize = 0;
    while i < s.len()
        invariant
            i <= s.len(),
            forall|j: int| 0 <= j < i ==> (#[trigger] s@[j]).key@ != k@,
        decreases s.len() - i,
    {
        if s[i].key == *k {
            return Some(i);
        }
        i = i + 1;
    }
    None
}

} // verus!

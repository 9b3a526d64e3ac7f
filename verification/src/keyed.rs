use vstd::prelude::*;

verus! {

/// Whether no key occurs twice in `s`.
pub open spec fn keys_unique<V>(s: Seq<(Seq<char>, V)>) -> bool {
    forall|i: int, j: int| 0 <= i < s.len() && 0 <= j < s.len() && i != j ==> #[trigger] s[i].0 != #[trigger] s[j].0
}

/// Whether some entry of `s` has key `k`.
pub open spec fn has_key<V>(s: Seq<(Seq<char>, V)>, k: Seq<char>) -> bool {
    exists|i: int| 0 <= i < s.len() && #[trigger] s[i].0 == k
}

/// The entries of `s` as a map from key to value.
pub open spec fn entry_map<V>(s: Seq<(Seq<char>, V)>) -> Map<Seq<char>, V> {
    Map::new(
        |k: Seq<char>| has_key(s, k),
        |k: Seq<char>| s[choose|i: int| 0 <= i < s.len() && #[trigger] s[i].0 == k].1,
    )
}

/// Entries `s` after setting key `k` to `v`: the value is replaced in place where `k` is
/// present, otherwise the pair is added at the end.
pub open spec fn set_entry<V>(s: Seq<(Seq<char>, V)>, k: Seq<char>, v: V) -> Seq<(Seq<char>, V)> {
    if has_key(s, k) {
        s.update(choose|i: int| 0 <= i < s.len() && #[trigger] s[i].0 == k, (k, v))
    } else {
        s.push((k, v))
    }
}

pub proof fn lemma_entry_map_lookup<V>(s: Seq<(Seq<char>, V)>, i: int)
    requires
        keys_unique(s),
        0 <= i < s.len(),
    ensures
        entry_map(s).contains_key(s[i].0),
        entry_map(s)[s[i].0] == s[i].1,
{
    let k = s[i].0;
    assert(has_key(s, k));
    let j = choose|j: int| 0 <= j < s.len() && #[trigger] s[j].0 == k;
    assert(j == i);
}

pub proof fn lemma_set_entry<V>(s: Seq<(Seq<char>, V)>, k: Seq<char>, v: V)
    requires
        keys_unique(s),
    ensures
        keys_unique(set_entry(s, k, v)),
        entry_map(set_entry(s, k, v)) == entry_map(s).insert(k, v),
{
    let t = set_entry(s, k, v);
    let present = has_key(s, k);
    let p = choose|i: int| 0 <= i < s.len() && #[trigger] s[i].0 == k;
    assert forall|a: int| 0 <= a < t.len() implies (#[trigger] t[a]).0 == (if a < s.len() { s[a].0 } else { k }) by {
    }
    assert forall|a: int, b: int| 0 <= a < t.len() && 0 <= b < t.len() && a != b implies #[trigger] t[a].0 != #[trigger] t[b].0 by {
        assert(t[a].0 == (if a < s.len() { s[a].0 } else { k }));
        assert(t[b].0 == (if b < s.len() { s[b].0 } else { k }));
        if a < s.len() && b < s.len() {
        } else if a < s.len() {
            assert(!present);
            assert(s[a].0 != k);
        } else {
            assert(!present);
            assert(s[b].0 != k);
        }
    }
    let m = entry_map(s).insert(k, v);
    assert forall|x: Seq<char>| #[trigger] entry_map(t).contains_key(x) <==> m.contains_key(x) by {
        if has_key(s, x) {
            let a = choose|a: int| 0 <= a < s.len() && #[trigger] s[a].0 == x;
            assert(t[a].0 == x);
        }
        if has_key(t, x) && x != k {
            let a = choose|a: int| 0 <= a < t.len() && #[trigger] t[a].0 == x;
            assert(t[a].0 == (if a < s.len() { s[a].0 } else { k }));
            assert(s[a].0 == x);
        }
        if x == k {
            if present {
                assert(t[p].0 == k);
            } else {
                assert(t[s.len() as int].0 == k);
            }
        }
    }
    assert forall|x: Seq<char>| #[trigger] entry_map(t).contains_key(x) implies entry_map(t)[x] == m[x] by {
        let a = choose|a: int| 0 <= a < t.len() && #[trigger] t[a].0 == x;
        lemma_entry_map_lookup(t, a);
        assert(t[a].0 == (if a < s.len() { s[a].0 } else { k }));
        if x != k {
            assert(t[a] == s[a]);
            lemma_entry_map_lookup(s, a);
        } else {
            if present {
                assert(a == p);
            }
        }
    }
    assert(entry_map(t) =~= m);
}

} // verus!

verus! {

/// Setting a key and then reading it gives the value set; every other key reads as before.
pub proof fn law_set_then_get<V>(s: Seq<(Seq<char>, V)>, k: Seq<char>, v: V, other: Seq<char>)
    requires
        keys_unique(s),
    ensures
        entry_map(set_entry(s, k, v)).contains_key(k),
        entry_map(set_entry(s, k, v))[k] == v,
        other != k ==> (entry_map(set_entry(s, k, v)).contains_key(other) == entry_map(s).contains_key(other)),
        other != k && entry_map(s).contains_key(other) ==> entry_map(set_entry(s, k, v))[other] == entry_map(s)[other],
{
    lemma_set_entry(s, k, v);
}

} // verus!

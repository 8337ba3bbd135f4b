use std::cmp::Ordering;
use vstd::prelude::*;

use crate::escape::EscapedTagKey;
use crate::order::{compare_keys, key_lt, lemma_key_lt_irreflexive, lemma_key_lt_transitive};

verus! {

/// The keys of `s` are strictly ascending, so each key occurs once.
pub open spec fn keys_ascending<V>(s: Seq<(EscapedTagKey, V)>) -> bool {
    forall|i: int, j: int|
        #![trigger s[i], s[j]]
        0 <= i < j < s.len() ==> key_lt(s[i].0@, s[j].0@)
}

/// Whether some entry of `s` has the raw key `k`.
pub open spec fn has_key<V>(s: Seq<(EscapedTagKey, V)>, k: Seq<char>) -> bool {
    exists|i: int| 0 <= i < s.len() && #[trigger] s[i].0@ == k
}

/// An index of `s` whose entry has the raw key `k`, where there is one.
pub open spec fn key_index<V>(s: Seq<(EscapedTagKey, V)>, k: Seq<char>) -> int {
    choose|i: int| 0 <= i < s.len() && #[trigger] s[i].0@ == k
}

/// The entries of `s` as a map from raw key to value.
pub open spec fn entries_map<V>(s: Seq<(EscapedTagKey, V)>) -> Map<Seq<char>, V> {
    Map::new(|k: Seq<char>| has_key(s, k), |k: Seq<char>| s[key_index(s, k)].1)
}

/// In an ascending list, the entry at `i` is what the map holds for its key.
pub proof fn lemma_entries_map_at<V>(s: Seq<(EscapedTagKey, V)>, i: int)
    requires
        keys_ascending(s),
        0 <= i < s.len(),
    ensures
        entries_map(s).contains_key(s[i].0@),
        entries_map(s)[s[i].0@] == s[i].1,
{
    let k = s[i].0@;
    assert(has_key(s, k));
    let j = key_index(s, k);
    if j != i {
        assert(j < i ==> key_lt(s[j].0@, s[i].0@));
        assert(i < j ==> key_lt(s[i].0@, s[j].0@));
        lemma_key_lt_irreflexive(k);
    }
}

/// Replacing the entry at `i` by one with the same key.
pub proof fn lemma_entries_update<V>(s: Seq<(EscapedTagKey, V)>, i: int, e: (EscapedTagKey, V))
    requires
        keys_ascending(s),
        0 <= i < s.len(),
        e.0@ == s[i].0@,
    ensures
        keys_ascending(s.update(i, e)),
        entries_map(s.update(i, e)) == entries_map(s).insert(e.0@, e.1),
{
    let t = s.update(i, e);
    assert(keys_ascending(t)) by {
        assert forall|a: int, b: int| 0 <= a < b < t.len() implies key_lt(t[a].0@, t[b].0@) by {
            assert(t[a].0@ == s[a].0@);
            assert(t[b].0@ == s[b].0@);
        }
    }
    let m = entries_map(s).insert(e.0@, e.1);
    assert forall|k: Seq<char>| #[trigger] has_key(t, k) == m.contains_key(k) by {
        if has_key(s, k) {
            let j = choose|j: int| 0 <= j < s.len() && #[trigger] s[j].0@ == k;
            assert(t[j].0@ == k);
        }
        if has_key(t, k) {
            let j = choose|j: int| 0 <= j < t.len() && #[trigger] t[j].0@ == k;
            assert(s[j].0@ == k);
        }
        assert(t[i].0@ == e.0@);
    }
    assert forall|k: Seq<char>| has_key(t, k) implies #[trigger] entries_map(t)[k] == m[k] by {
        let j = key_index(t, k);
        lemma_entries_map_at(t, j);
        if j != i {
            lemma_entries_map_at(s, j);
            assert(t[j] == s[j]);
            assert(j < i ==> key_lt(s[j].0@, s[i].0@));
            assert(i < j ==> key_lt(s[i].0@, s[j].0@));
            lemma_key_lt_irreflexive(k);
            assert(k != e.0@);
        }
    }
    assert(entries_map(t) =~= m);
}

/// Inserting at `i` an entry whose key falls strictly between its neighbours.
pub proof fn lemma_entries_insert<V>(s: Seq<(EscapedTagKey, V)>, i: int, e: (EscapedTagKey, V))
    requires
        keys_ascending(s),
        0 <= i <= s.len(),
        forall|j: int| 0 <= j < i ==> key_lt(#[trigger] s[j].0@, e.0@),
        forall|j: int| i <= j < s.len() ==> key_lt(e.0@, #[trigger] s[j].0@),
    ensures
        keys_ascending(s.insert(i, e)),
        entries_map(s.insert(i, e)) == entries_map(s).insert(e.0@, e.1),
{
    let t = s.insert(i, e);
    assert(keys_ascending(t)) by {
        assert forall|a: int, b: int| 0 <= a < b < t.len() implies key_lt(t[a].0@, t[b].0@) by {
            if b < i {
                assert(t[a] == s[a] && t[b] == s[b]);
            } else if b == i {
                assert(t[a] == s[a]);
            } else if a < i {
                assert(t[a] == s[a] && t[b] == s[b - 1]);
                lemma_key_lt_transitive(s[a].0@, e.0@, s[b - 1].0@);
            } else if a == i {
                assert(t[b] == s[b - 1]);
            } else {
                assert(t[a] == s[a - 1] && t[b] == s[b - 1]);
            }
        }
    }
    let m = entries_map(s).insert(e.0@, e.1);
    assert forall|k: Seq<char>| #[trigger] has_key(t, k) == m.contains_key(k) by {
        if has_key(s, k) {
            let j = choose|j: int| 0 <= j < s.len() && #[trigger] s[j].0@ == k;
            if j < i {
                assert(t[j] == s[j]);
            } else {
                assert(t[j + 1] == s[j]);
            }
        }
        if has_key(t, k) {
            let j = choose|j: int| 0 <= j < t.len() && #[trigger] t[j].0@ == k;
            if j < i {
                assert(t[j] == s[j]);
            } else if j > i {
                assert(t[j] == s[j - 1]);
            }
        }
        assert(t[i] == e);
    }
    assert forall|k: Seq<char>| has_key(t, k) implies #[trigger] entries_map(t)[k] == m[k] by {
        let j = key_index(t, k);
        lemma_entries_map_at(t, j);
        if j < i {
            assert(t[j] == s[j]);
            lemma_entries_map_at(s, j);
            lemma_key_lt_irreflexive(e.0@);
        } else if j > i {
            assert(t[j] == s[j - 1]);
            lemma_entries_map_at(s, j - 1);
            lemma_key_lt_irreflexive(e.0@);
        }
    }
    assert(entries_map(t) =~= m);
}

/// Dropping the last entry of an ascending list drops its key from the map.
pub proof fn lemma_entries_drop_last<V>(s: Seq<(EscapedTagKey, V)>)
    requires
        keys_ascending(s),
        s.len() > 0,
    ensures
        keys_ascending(s.drop_last()),
        entries_map(s.drop_last()) == entries_map(s).remove(s.last().0@),
{
    let d = s.drop_last();
    let n = s.len() - 1;
    let last = s.last().0@;
    assert(keys_ascending(d)) by {
        assert forall|a: int, b: int| 0 <= a < b < d.len() implies key_lt(d[a].0@, d[b].0@) by {
            assert(d[a] == s[a] && d[b] == s[b]);
        }
    }
    let m = entries_map(s).remove(last);
    assert forall|k: Seq<char>| #[trigger] has_key(d, k) == m.contains_key(k) by {
        if has_key(d, k) {
            let j = key_index(d, k);
            assert(d[j] == s[j]);
            assert(key_lt(s[j].0@, s[n].0@));
            lemma_key_lt_irreflexive(k);
        }
        if has_key(s, k) && k != last {
            let j = key_index(s, k);
            assert(j != n);
            assert(d[j] == s[j]);
        }
    }
    assert forall|k: Seq<char>| has_key(d, k) implies #[trigger] entries_map(d)[k] == m[k] by {
        let j = key_index(d, k);
        lemma_entries_map_at(d, j);
        assert(d[j] == s[j]);
        lemma_entries_map_at(s, j);
    }
    assert(entries_map(d) =~= m);
}

/// Two ascending lists with the same map hold the same keys and values at
/// each position.
pub proof fn lemma_entries_same_map<V>(s: Seq<(EscapedTagKey, V)>, t: Seq<(EscapedTagKey, V)>)
    requires
        keys_ascending(s),
        keys_ascending(t),
        entries_map(s) == entries_map(t),
    ensures
        s.len() == t.len(),
        forall|i: int| 0 <= i < s.len() ==> #[trigger] s[i].0@ == t[i].0@ && s[i].1 == t[i].1,
    decreases s.len(),
{
    if s.len() == 0 || t.len() == 0 {
        if s.len() > 0 {
            lemma_entries_map_at(s, 0);
        }
        if t.len() > 0 {
            lemma_entries_map_at(t, 0);
        }
    } else {
        let ks = s.last().0@;
        let kt = t.last().0@;
        lemma_entries_map_at(s, s.len() - 1);
        lemma_entries_map_at(t, t.len() - 1);
        if ks != kt {
            let j = key_index(t, ks);
            let i = key_index(s, kt);
            assert(j != t.len() - 1);
            assert(i != s.len() - 1);
            assert(key_lt(t[j].0@, t[t.len() - 1].0@));
            assert(key_lt(s[i].0@, s[s.len() - 1].0@));
            lemma_key_lt_transitive(ks, kt, ks);
            lemma_key_lt_irreflexive(ks);
        }
        lemma_entries_drop_last(s);
        lemma_entries_drop_last(t);
        lemma_entries_same_map(s.drop_last(), t.drop_last());
        assert forall|i: int| 0 <= i < s.len() implies #[trigger] s[i].0@ == t[i].0@ && s[i].1
            == t[i].1 by {
            if i < s.len() - 1 {
                assert(s.drop_last()[i] == s[i]);
                assert(t.drop_last()[i] == t[i]);
            }
        }
    }
}

/// Finds where the key `k` stands in `v`, or where it would be inserted.
fn find_slot<V>(v: &Vec<(EscapedTagKey, V)>, k: &EscapedTagKey) -> (r: (usize, bool))
    requires
        keys_ascending(v@),
    ensures
        r.0 <= v@.len(),
        r.1 ==> r.0 < v@.len() && v@[r.0 as int].0@ == k@,
        !r.1 ==> forall|j: int| 0 <= j < r.0 ==> key_lt(#[trigger] v@[j].0@, k@),
        !r.1 ==> forall|j: int| r.0 <= j < v@.len() ==> key_lt(k@, #[trigger] v@[j].0@),
{
    let mut i: usize = 0;
    while i < v.len()
        invariant
            i <= v@.len(),
            keys_ascending(v@),
            forall|j: int| 0 <= j < i ==> key_lt(#[trigger] v@[j].0@, k@),
        decreases v@.len() - i,
    {
        match compare_keys(v[i].0.raw(), k.raw()) {
            Ordering::Equal => {
                return (i, true);
            },
            Ordering::Greater => {
                proof {
                    assert forall|j: int| i <= j < v@.len() implies key_lt(
                        k@,
                        #[trigger] v@[j].0@,
                    ) by {
                        if j > i {
                            lemma_key_lt_transitive(k@, v@[i as int].0@, v@[j].0@);
                        }
                    }
                }
                return (i, false);
            },
            Ordering::Less => {},
        }
        i += 1;
    }
    (i, false)
}

/// Sets the value of key `k` to `val`, replacing an entry of the same key
/// and keeping the keys ascending.
pub(crate) fn insert_entry<V>(v: &mut Vec<(EscapedTagKey, V)>, k: EscapedTagKey, val: V)
    requires
        keys_ascending(old(v)@),
    ensures
        keys_ascending(final(v)@),
        entries_map(final(v)@) == entries_map(old(v)@).insert(k@, val),
{
    let (i, found) = find_slot(v, &k);
    let ghost s = v@;
    let ghost e = (k, val);
    if found {
        v.set(i, (k, val));
        proof {
            lemma_entries_update(s, i as int, e);
        }
    } else {
        v.insert(i, (k, val));
        proof {
            lemma_entries_insert(s, i as int, e);
        }
    }
}

} // verus!

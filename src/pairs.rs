//! Ordered lists of key/value text pairs, as used for headers and query
//! parameters.

use vstd::prelude::*;

verus! {

/// The text of one pair.
pub open spec fn pair_view(p: (String, String)) -> (Seq<char>, Seq<char>) {
    (p.0@, p.1@)
}

/// The text of every pair of a list, in order.
pub open spec fn pairs_view(s: Seq<(String, String)>) -> Seq<(Seq<char>, Seq<char>)> {
    s.map_values(|p: (String, String)| pair_view(p))
}

/// The list with every pair keyed `key` taken out; the others keep their order.
pub open spec fn without_key(s: Seq<(Seq<char>, Seq<char>)>, key: Seq<char>) -> Seq<
    (Seq<char>, Seq<char>),
>
    decreases s.len(),
{
    if s.len() == 0 {
        s
    } else {
        let rest = without_key(s.drop_last(), key);
        if s.last().0 == key {
            rest
        } else {
            rest.push(s.last())
        }
    }
}

/// How many pairs of the list are keyed `key`.
pub open spec fn count_key(s: Seq<(Seq<char>, Seq<char>)>, key: Seq<char>) -> nat
    decreases s.len(),
{
    if s.len() == 0 {
        0
    } else {
        count_key(s.drop_last(), key) + if s.last().0 == key {
            1nat
        } else {
            0nat
        }
    }
}

/// A pair whose key and value are both empty.
pub open spec fn is_blank_pair(p: (Seq<char>, Seq<char>)) -> bool {
    p.0.len() == 0 && p.1.len() == 0
}

/// The list with every blank pair taken out; the others keep their order.
pub open spec fn without_blank(s: Seq<(Seq<char>, Seq<char>)>) -> Seq<(Seq<char>, Seq<char>)>
    decreases s.len(),
{
    if s.len() == 0 {
        s
    } else {
        let rest = without_blank(s.drop_last());
        if is_blank_pair(s.last()) {
            rest
        } else {
            rest.push(s.last())
        }
    }
}

/// No pair keyed `key` is left once the pairs keyed `key` are taken out.
pub proof fn lemma_without_key_count(s: Seq<(Seq<char>, Seq<char>)>, key: Seq<char>)
    ensures
        count_key(without_key(s, key), key) == 0,
    decreases s.len(),
{
    if s.len() > 0 {
        lemma_without_key_count(s.drop_last(), key);
        let rest = without_key(s.drop_last(), key);
        if s.last().0 != key {
            assert(rest.push(s.last()).drop_last() =~= rest);
        }
    }
}

/// Taking out blank pairs a second time changes nothing.
pub proof fn lemma_without_blank_idempotent(s: Seq<(Seq<char>, Seq<char>)>)
    ensures
        without_blank(without_blank(s)) == without_blank(s),
    decreases s.len(),
{
    if s.len() > 0 {
        lemma_without_blank_idempotent(s.drop_last());
        let rest = without_blank(s.drop_last());
        if !is_blank_pair(s.last()) {
            assert(rest.push(s.last()).drop_last() =~= rest);
        }
    }
}

/// Appending a pair adds one to the count of its own key only.
pub proof fn lemma_count_push(s: Seq<(Seq<char>, Seq<char>)>, p: (Seq<char>, Seq<char>), key: Seq<char>)
    ensures
        count_key(s.push(p), key) == count_key(s, key) + if p.0 == key {
            1nat
        } else {
            0nat
        },
{
    assert(s.push(p).drop_last() =~= s);
}

/// Taking out blank pairs never adds a pair of any key.
pub proof fn lemma_count_without_blank(s: Seq<(Seq<char>, Seq<char>)>, key: Seq<char>)
    ensures
        count_key(without_blank(s), key) <= count_key(s, key),
    decreases s.len(),
{
    if s.len() > 0 {
        lemma_count_without_blank(s.drop_last(), key);
        if !is_blank_pair(s.last()) {
            lemma_count_push(without_blank(s.drop_last()), s.last(), key);
        }
    }
}

/// Overwriting a pair with one of another key never adds a pair keyed `key`.
pub proof fn lemma_count_update(
    s: Seq<(Seq<char>, Seq<char>)>,
    i: int,
    p: (Seq<char>, Seq<char>),
    key: Seq<char>,
)
    requires
        0 <= i < s.len(),
        p.0 != key,
    ensures
        count_key(s.update(i, p), key) <= count_key(s, key),
    decreases s.len(),
{
    let t = s.update(i, p);
    if i < s.len() - 1 {
        assert(t.drop_last() =~= s.drop_last().update(i, p));
        lemma_count_update(s.drop_last(), i, p, key);
    } else {
        assert(t.drop_last() =~= s.drop_last());
    }
}

/// Removing a pair never adds a pair keyed `key`.
pub proof fn lemma_count_remove(s: Seq<(Seq<char>, Seq<char>)>, i: int, key: Seq<char>)
    requires
        0 <= i < s.len(),
    ensures
        count_key(s.remove(i), key) <= count_key(s, key),
    decreases s.len(),
{
    if i == s.len() - 1 {
        assert(s.remove(i) =~= s.drop_last());
    } else {
        assert(s.remove(i).drop_last() =~= s.drop_last().remove(i));
        assert(s.remove(i).last() == s.last());
        lemma_count_remove(s.drop_last(), i, key);
    }
}

/// A copy of a list of pairs.
pub fn copy_pairs(v: &Vec<(String, String)>) -> (r: Vec<(String, String)>)
    ensures
        r@ == v@,
{
    let mut r: Vec<(String, String)> = Vec::new();
    for i in 0..v.len()
        invariant
            r@ == v@.take(i as int),
    {
        let k = v[i].0.clone();
        let val = v[i].1.clone();
        r.push((k, val));
        proof {
            assert(v@.take(i + 1) =~= v@.take(i as int).push(v@[i as int]));
        }
    }
    proof {
        assert(v@.take(v.len() as int) =~= v@);
    }
    r
}

/// Takes every pair keyed `key` out of the list, keeping the order of the
/// others.
pub fn remove_key(v: &mut Vec<(String, String)>, key: &String)
    ensures
        pairs_view(final(v)@) == without_key(pairs_view(old(v)@), key@),
{
    let ghost old_view = pairs_view(v@);
    let mut kept: Vec<(String, String)> = Vec::new();
    for i in 0..v.len()
        invariant
            old_view == pairs_view(v@),
            pairs_view(kept@) == without_key(old_view.take(i as int), key@),
    {
        proof {
            assert(old_view.take(i + 1).drop_last() =~= old_view.take(i as int));
        }
        if v[i].0 != *key {
            let k = v[i].0.clone();
            let val = v[i].1.clone();
            kept.push((k, val));
            proof {
                assert(pairs_view(kept@) =~= pairs_view(kept@.drop_last()).push(
                    old_view[i as int],
                ));
            }
        }
    }
    proof {
        assert(old_view.take(v.len() as int) =~= old_view);
    }
    *v = kept;
}

/// Takes every pair whose key and value are both empty out of the list,
/// keeping the order of the others.
pub fn remove_blank(v: &mut Vec<(String, String)>)
    ensures
        pairs_view(final(v)@) == without_blank(pairs_view(old(v)@)),
{
    let ghost old_view = pairs_view(v@);
    let mut kept: Vec<(String, String)> = Vec::new();
    for i in 0..v.len()
        invariant
            old_view == pairs_view(v@),
            pairs_view(kept@) == without_blank(old_view.take(i as int)),
    {
        proof {
            assert(old_view.take(i + 1).drop_last() =~= old_view.take(i as int));
        }
        if !(v[i].0.as_str().is_empty() && v[i].1.as_str().is_empty()) {
            let k = v[i].0.clone();
            let val = v[i].1.clone();
            kept.push((k, val));
            proof {
                assert(pairs_view(kept@) =~= pairs_view(kept@.drop_last()).push(
                    old_view[i as int],
                ));
            }
        }
    }
    proof {
        assert(old_view.take(v.len() as int) =~= old_view);
    }
    *v = kept;
}

/// Index of the last entry keyed `key`, or -1 when there is none.
pub open spec fn key_index<K, V>(s: Seq<(K, V)>, key: K) -> int
    decreases s.len(),
{
    if s.len() == 0 {
        -1
    } else if s.last().0 == key {
        s.len() - 1
    } else {
        key_index(s.drop_last(), key)
    }
}

/// The value stored under `key`, if any.
pub open spec fn entry_of<K, V>(s: Seq<(K, V)>, key: K) -> Option<V> {
    if key_index(s, key) >= 0 {
        Some(s[key_index(s, key)].1)
    } else {
        None
    }
}

/// No two entries share a key.
pub open spec fn keys_unique<K, V>(s: Seq<(K, V)>) -> bool {
    forall|i: int, j: int| 0 <= i < j < s.len() ==> s[i].0 != s[j].0
}

/// The entry stored under `key` replaced by `(key, value)`, or `(key, value)`
/// appended when there is none.
pub open spec fn store_entry<K, V>(s: Seq<(K, V)>, key: K, value: V) -> Seq<(K, V)> {
    if key_index(s, key) >= 0 {
        s.update(key_index(s, key), (key, value))
    } else {
        s.push((key, value))
    }
}

/// What `key_index` finds lies in range and holds the key; without a find no
/// entry holds it.
pub proof fn lemma_key_index<K, V>(s: Seq<(K, V)>, key: K)
    ensures
        -1 <= key_index(s, key) < s.len(),
        key_index(s, key) >= 0 ==> s[key_index(s, key)].0 == key,
        key_index(s, key) < 0 ==> forall|i: int| 0 <= i < s.len() ==> s[i].0 != key,
    decreases s.len(),
{
    if s.len() > 0 {
        lemma_key_index(s.drop_last(), key);
        if s.last().0 != key {
            assert forall|i: int| 0 <= i < s.len() - 1 implies s[i] == s.drop_last()[i] by {}
        }
    }
}

} // verus!

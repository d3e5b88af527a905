//! Vectors kept strictly sorted by a string key: the ordered maps the graph
//! is made of. Their view is a `Map` from key to element view.
//!
//! The graph's rules read its nodes and edges in id order ("the first node,
//! in id order, that ..."). vstd specifies the iteration order and the
//! length of `BTreeMap` only for keys whose comparison obeys its `cmp`
//! specification (`key_obeys_cmp_spec`), which it establishes for integers
//! and tuples of them but not for `String`; so the maps keyed by string ids
//! are kept here as sorted vectors whose order is part of the invariant.

use crate::text::{
    chars_of, eq_chars, lemma_seq_lt_irreflexive, lemma_seq_lt_total, lemma_seq_lt_transitive,
    lt_chars, seq_lt, string_chars,
};
use vstd::prelude::*;

verus! {

/// An element that carries its own key.
pub trait Keyed: View + Sized {
    spec fn view_key(v: Self::V) -> Seq<char>;

    fn key(&self) -> (r: &String)
        ensures
            r@ == Self::view_key(self@),
    ;
}

pub open spec fn views<T: View>(s: Seq<T>) -> Seq<T::V> {
    s.map_values(|x: T| x@)
}

/// Keys strictly increasing, hence unique.
pub open spec fn keyed_sorted<T: Keyed>(s: Seq<T::V>) -> bool {
    forall|i: int, j: int|
        0 <= i < j < s.len() ==> seq_lt(#[trigger] T::view_key(s[i]), #[trigger] T::view_key(s[j]))
}

pub open spec fn has_key<T: Keyed>(s: Seq<T::V>, k: Seq<char>) -> bool {
    exists|i: int| 0 <= i < s.len() && T::view_key(#[trigger] s[i]) == k
}

/// An index holding key `k`, where there is one.
pub open spec fn key_index<T: Keyed>(s: Seq<T::V>, k: Seq<char>) -> int {
    choose|i: int| 0 <= i < s.len() && T::view_key(#[trigger] s[i]) == k
}

/// The map from key to element.
pub open spec fn keyed_map<T: Keyed>(s: Seq<T::V>) -> Map<Seq<char>, T::V> {
    Map::new(|k: Seq<char>| has_key::<T>(s, k), |k: Seq<char>| s[key_index::<T>(s, k)])
}

pub proof fn lemma_keyed_unique<T: Keyed>(s: Seq<T::V>, i: int, j: int)
    requires
        keyed_sorted::<T>(s),
        0 <= i < s.len(),
        0 <= j < s.len(),
        T::view_key(s[i]) == T::view_key(s[j]),
    ensures
        i == j,
{
    if i < j {
        lemma_seq_lt_irreflexive(T::view_key(s[i]));
        assert(seq_lt(T::view_key(s[i]), T::view_key(s[j])));
    } else if j < i {
        lemma_seq_lt_irreflexive(T::view_key(s[i]));
        assert(seq_lt(T::view_key(s[j]), T::view_key(s[i])));
    }
}

/// In a sorted list, the map sends each element's key to that element.
pub proof fn lemma_keyed_map_at<T: Keyed>(s: Seq<T::V>, i: int)
    requires
        keyed_sorted::<T>(s),
        0 <= i < s.len(),
    ensures
        keyed_map::<T>(s).contains_key(T::view_key(s[i])),
        keyed_map::<T>(s)[T::view_key(s[i])] == s[i],
{
    let k = T::view_key(s[i]);
    assert(has_key::<T>(s, k));
    let j = key_index::<T>(s, k);
    lemma_keyed_unique::<T>(s, i, j);
}

/// The map sends a key to an element with that key.
pub proof fn lemma_keyed_map_keys<T: Keyed>(s: Seq<T::V>, k: Seq<char>)
    requires
        keyed_map::<T>(s).contains_key(k),
    ensures
        T::view_key(keyed_map::<T>(s)[k]) == k,
{
    let i = key_index::<T>(s, k);
    assert(has_key::<T>(s, k));
    assert(T::view_key(s[i]) == k);
}

/// Two sorted lists with the same elements at every key have the same map.
pub proof fn lemma_keyed_map_ext<T: Keyed>(a: Seq<T::V>, m: Map<Seq<char>, T::V>)
    requires
        keyed_sorted::<T>(a),
        forall|i: int| 0 <= i < a.len() ==> m.contains_key(T::view_key(#[trigger] a[i])) && m[T::view_key(a[i])] == a[i],
        forall|k: Seq<char>| #[trigger] m.contains_key(k) ==> has_key::<T>(a, k),
    ensures
        keyed_map::<T>(a) == m,
{
    assert forall|k: Seq<char>| #[trigger] keyed_map::<T>(a).contains_key(k) implies m.contains_key(k) && keyed_map::<T>(a)[k] == m[k] by {
        let i = choose|i: int| 0 <= i < a.len() && T::view_key(#[trigger] a[i]) == k;
        lemma_keyed_map_at::<T>(a, i);
    }
    assert forall|k: Seq<char>| #[trigger] m.contains_key(k) implies keyed_map::<T>(a).contains_key(k) by {
    }
    assert(keyed_map::<T>(a) =~= m);
}

/// Where `key` is in a sorted list: `Ok` with its index, or `Err` with the
/// index of the first larger key.
pub fn keyed_search<T: Keyed>(v: &Vec<T>, key: &[char]) -> (r: Result<usize, usize>)
    requires
        keyed_sorted::<T>(views(v@)),
    ensures
        match r {
            Ok(i) => i < v@.len() && T::view_key(v@[i as int]@) == key@,
            Err(j) => j <= v@.len() && !has_key::<T>(views(v@), key@) && (forall|i: int|
                0 <= i < j ==> seq_lt(#[trigger] T::view_key(views(v@)[i]), key@)) && (forall|i: int|
                j <= i < v@.len() ==> seq_lt(key@, #[trigger] T::view_key(views(v@)[i]))),
        },
{
    let ghost s = views(v@);
    let mut j: usize = 0;
    while j < v.len()
        invariant
            j <= v@.len(),
            s == views(v@),
            keyed_sorted::<T>(s),
            forall|i: int| 0 <= i < j ==> seq_lt(#[trigger] T::view_key(s[i]), key@),
        ensures
            j <= v@.len(),
            forall|i: int| 0 <= i < j ==> seq_lt(#[trigger] T::view_key(s[i]), key@),
            j < v@.len() ==> !seq_lt(T::view_key(s[j as int]), key@),
        decreases v@.len() - j,
    {
        let kj = string_chars(v[j].key());
        assert(s[j as int] == v@[j as int]@);
        if !lt_chars(&kj, key) {
            break;
        }
        j = j + 1;
    }
    if j < v.len() {
        let kj = string_chars(v[j].key());
        assert(s[j as int] == v@[j as int]@);
        if eq_chars(&kj, key) {
            return Ok(j);
        }
        proof {
            lemma_seq_lt_total(T::view_key(s[j as int]), key@);
        }
    }
    proof {
        assert forall|i: int| j <= i < s.len() implies seq_lt(key@, #[trigger] T::view_key(s[i])) by {
            if i > j {
                lemma_seq_lt_transitive(key@, T::view_key(s[j as int]), T::view_key(s[i]));
            }
        }
        if has_key::<T>(s, key@) {
            let i = choose|i: int| 0 <= i < s.len() && T::view_key(#[trigger] s[i]) == key@;
            lemma_seq_lt_irreflexive(key@);
        }
    }
    Err(j)
}

/// Looks an element up by key.
pub fn keyed_get<'a, T: Keyed>(v: &'a Vec<T>, key: &str) -> (r: Option<&'a T>)
    requires
        keyed_sorted::<T>(views(v@)),
    ensures
        match r {
            Some(x) => keyed_map::<T>(views(v@)).contains_key(key@) && keyed_map::<T>(views(v@))[key@]
                == x@ && T::view_key(x@) == key@,
            None => !keyed_map::<T>(views(v@)).contains_key(key@),
        },
{
    let k = chars_of(key);
    match keyed_search(v, &k) {
        Ok(i) => {
            proof {
                assert(views(v@)[i as int] == v@[i as int]@);
                lemma_keyed_map_at::<T>(views(v@), i as int);
            }
            Some(&v[i])
        },
        Err(_) => None,
    }
}

/// Inserts `x`, replacing the element with the same key if there is one.
pub fn keyed_upsert<T: Keyed>(v: &mut Vec<T>, x: T)
    requires
        keyed_sorted::<T>(views(old(v)@)),
    ensures
        keyed_sorted::<T>(views(final(v)@)),
        keyed_map::<T>(views(final(v)@)) == keyed_map::<T>(views(old(v)@)).insert(T::view_key(x@), x@),
{
    let ghost s = views(v@);
    let ghost xv = x@;
    let ghost k = T::view_key(xv);
    let kc = string_chars(x.key());
    let ghost m = keyed_map::<T>(s).insert(k, xv);
    match keyed_search(v, &kc) {
        Ok(i) => {
            v.set(i, x);
            let ghost t = views(v@);
            assert(t =~= s.update(i as int, xv));
            proof {
                assert forall|a: int, b: int| 0 <= a < b < t.len() implies seq_lt(
                    #[trigger] T::view_key(t[a]),
                    #[trigger] T::view_key(t[b]),
                ) by {
                    assert(T::view_key(t[a]) == T::view_key(s[a]));
                    assert(T::view_key(t[b]) == T::view_key(s[b]));
                }
                assert forall|a: int| 0 <= a < t.len() implies m.contains_key(T::view_key(#[trigger] t[a]))
                    && m[T::view_key(t[a])] == t[a] by {
                    if a != i {
                        lemma_keyed_map_at::<T>(s, a);
                        if T::view_key(s[a]) == k {
                            lemma_keyed_unique::<T>(s, a, i as int);
                        }
                    }
                }
                assert forall|kk: Seq<char>| #[trigger] m.contains_key(kk) implies has_key::<T>(t, kk) by {
                    if kk == k {
                        assert(T::view_key(t[i as int]) == kk);
                    } else {
                        let a = choose|a: int| 0 <= a < s.len() && T::view_key(#[trigger] s[a]) == kk;
                        assert(T::view_key(t[a]) == kk);
                    }
                }
                lemma_keyed_map_ext::<T>(t, m);
            }
        },
        Err(j) => {
            v.insert(j, x);
            let ghost t = views(v@);
            assert(t =~= s.insert(j as int, xv));
            proof {
                assert forall|a: int, b: int| 0 <= a < b < t.len() implies seq_lt(
                    #[trigger] T::view_key(t[a]),
                    #[trigger] T::view_key(t[b]),
                ) by {
                    if b < j {
                    } else if b == j {
                    } else if a < j {
                        assert(t[b] == s[b - 1]);
                        lemma_seq_lt_transitive(T::view_key(t[a]), k, T::view_key(t[b]));
                    } else if a == j {
                        assert(t[b] == s[b - 1]);
                    } else {
                        assert(t[a] == s[a - 1] && t[b] == s[b - 1]);
                    }
                }
                assert forall|a: int| 0 <= a < t.len() implies m.contains_key(T::view_key(#[trigger] t[a]))
                    && m[T::view_key(t[a])] == t[a] by {
                    if a < j {
                        lemma_keyed_map_at::<T>(s, a);
                        lemma_seq_lt_irreflexive(k);
                    } else if a > j {
                        assert(t[a] == s[a - 1]);
                        lemma_keyed_map_at::<T>(s, a - 1);
                        lemma_seq_lt_irreflexive(k);
                    }
                }
                assert forall|kk: Seq<char>| #[trigger] m.contains_key(kk) implies has_key::<T>(t, kk) by {
                    if kk == k {
                        assert(T::view_key(t[j as int]) == kk);
                    } else {
                        let a = choose|a: int| 0 <= a < s.len() && T::view_key(#[trigger] s[a]) == kk;
                        if a < j {
                            assert(T::view_key(t[a]) == kk);
                        } else {
                            assert(t[a + 1] == s[a]);
                            assert(T::view_key(t[a + 1]) == kk);
                        }
                    }
                }
                lemma_keyed_map_ext::<T>(t, m);
            }
        },
    }
}

/// Removes the element with key `key`, if there is one.
pub fn keyed_remove<T: Keyed>(v: &mut Vec<T>, key: &str)
    requires
        keyed_sorted::<T>(views(old(v)@)),
    ensures
        keyed_sorted::<T>(views(final(v)@)),
        keyed_map::<T>(views(final(v)@)) == keyed_map::<T>(views(old(v)@)).remove(key@),
{
    let ghost s = views(v@);
    let ghost m = keyed_map::<T>(s).remove(key@);
    let kc = chars_of(key);
    match keyed_search(v, &kc) {
        Ok(i) => {
            let _ = v.remove(i);
            let ghost t = views(v@);
            assert(t =~= s.remove(i as int));
            proof {
                assert forall|a: int, b: int| 0 <= a < b < t.len() implies seq_lt(
                    #[trigger] T::view_key(t[a]),
                    #[trigger] T::view_key(t[b]),
                ) by {
                    if b < i {
                    } else if a < i {
                        assert(t[b] == s[b + 1]);
                    } else {
                        assert(t[a] == s[a + 1] && t[b] == s[b + 1]);
                    }
                }
                assert forall|a: int| 0 <= a < t.len() implies m.contains_key(T::view_key(#[trigger] t[a]))
                    && m[T::view_key(t[a])] == t[a] by {
                    if a < i {
                        lemma_keyed_map_at::<T>(s, a);
                        if T::view_key(s[a]) == key@ {
                            lemma_keyed_unique::<T>(s, a, i as int);
                        }
                    } else {
                        assert(t[a] == s[a + 1]);
                        lemma_keyed_map_at::<T>(s, a + 1);
                        if T::view_key(s[a + 1]) == key@ {
                            lemma_keyed_unique::<T>(s, a + 1, i as int);
                        }
                    }
                }
                assert forall|kk: Seq<char>| #[trigger] m.contains_key(kk) implies has_key::<T>(t, kk) by {
                    let a = choose|a: int| 0 <= a < s.len() && T::view_key(#[trigger] s[a]) == kk;
                    if a < i {
                        assert(T::view_key(t[a]) == kk);
                    } else {
                        assert(a != i);
                        assert(t[a - 1] == s[a]);
                        assert(T::view_key(t[a - 1]) == kk);
                    }
                }
                lemma_keyed_map_ext::<T>(t, m);
            }
        },
        Err(_) => {
            assert(keyed_map::<T>(s).remove(key@) =~= keyed_map::<T>(s));
        },
    }
}

/// `m` with each element of `s` added in order, unless its key is already
/// there: the first element with a key wins.
pub open spec fn first_wins<T: Keyed>(m: Map<Seq<char>, T::V>, s: Seq<T::V>) -> Map<Seq<char>, T::V>
    decreases s.len(),
{
    if s.len() == 0 {
        m
    } else {
        let r = first_wins::<T>(m, s.drop_last());
        if r.contains_key(T::view_key(s.last())) {
            r
        } else {
            r.insert(T::view_key(s.last()), s.last())
        }
    }
}

/// `first_wins(m, s)` keeps every key of `m` and holds the key of every
/// item of `s`.
pub proof fn lemma_first_wins_covers<T: Keyed>(m: Map<Seq<char>, T::V>, s: Seq<T::V>)
    ensures
        forall|k: Seq<char>| m.contains_key(k) ==> #[trigger] first_wins::<T>(m, s).contains_key(k),
        forall|i: int| 0 <= i < s.len() ==> first_wins::<T>(m, s).contains_key(T::view_key(#[trigger] s[i])),
    decreases s.len(),
{
    if s.len() > 0 {
        lemma_first_wins_covers::<T>(m, s.drop_last());
        assert forall|k: Seq<char>| m.contains_key(k) implies #[trigger] first_wins::<T>(m, s).contains_key(k) by {
            assert(first_wins::<T>(m, s.drop_last()).contains_key(k));
        }
        assert forall|i: int| 0 <= i < s.len() implies first_wins::<T>(m, s).contains_key(T::view_key(#[trigger] s[i])) by {
            if i < s.len() - 1 {
                assert(s[i] == s.drop_last()[i]);
            }
        }
    }
}

pub proof fn lemma_first_wins_push<T: Keyed>(m: Map<Seq<char>, T::V>, s: Seq<T::V>, x: T::V)
    ensures
        first_wins::<T>(m, s.push(x)) == (if first_wins::<T>(m, s).contains_key(T::view_key(x)) {
            first_wins::<T>(m, s)
        } else {
            first_wins::<T>(m, s).insert(T::view_key(x), x)
        }),
{
    assert(s.push(x).drop_last() =~= s);
}

/// Starting from no element, a key is present after the additions exactly
/// when some element has it.
pub proof fn lemma_first_wins_keys<T: Keyed>(s: Seq<T::V>, k: Seq<char>)
    ensures
        first_wins::<T>(Map::empty(), s).contains_key(k) == has_key::<T>(s, k),
    decreases s.len(),
{
    if s.len() > 0 {
        let p = s.drop_last();
        lemma_first_wins_keys::<T>(p, k);
        if has_key::<T>(p, k) {
            let i = choose|i: int| 0 <= i < p.len() && T::view_key(#[trigger] p[i]) == k;
            assert(s[i] == p[i]);
        }
        if has_key::<T>(s, k) && T::view_key(s.last()) != k {
            let i = choose|i: int| 0 <= i < s.len() && T::view_key(#[trigger] s[i]) == k;
            assert(i != s.len() - 1);
            assert(p[i] == s[i]);
        }
        if T::view_key(s.last()) == k {
            assert(T::view_key(s[s.len() - 1]) == k);
        }
    }
}

/// The element a key holds after the additions is the first with that key.
pub proof fn lemma_first_wins_at<T: Keyed>(s: Seq<T::V>, i: int)
    requires
        0 <= i < s.len(),
        forall|j: int| 0 <= j < i ==> T::view_key(#[trigger] s[j]) != T::view_key(s[i]),
    ensures
        first_wins::<T>(Map::empty(), s).contains_key(T::view_key(s[i])),
        first_wins::<T>(Map::empty(), s)[T::view_key(s[i])] == s[i],
    decreases s.len(),
{
    let k = T::view_key(s[i]);
    let p = s.drop_last();
    if i < s.len() - 1 {
        assert(p[i] == s[i]);
        assert forall|j: int| 0 <= j < i implies T::view_key(#[trigger] p[j]) != T::view_key(p[i]) by {
            assert(p[j] == s[j]);
        }
        lemma_first_wins_at::<T>(p, i);
    } else {
        lemma_first_wins_keys::<T>(p, k);
        if has_key::<T>(p, k) {
            let j = choose|j: int| 0 <= j < p.len() && T::view_key(#[trigger] p[j]) == k;
            assert(p[j] == s[j]);
        }
    }
}

/// Adds `x` unless an element with its key is there already.
pub fn keyed_insert_first<T: Keyed>(v: &mut Vec<T>, x: T)
    requires
        keyed_sorted::<T>(views(old(v)@)),
    ensures
        keyed_sorted::<T>(views(final(v)@)),
        keyed_map::<T>(views(final(v)@)) == (if keyed_map::<T>(views(old(v)@)).contains_key(T::view_key(x@)) {
            keyed_map::<T>(views(old(v)@))
        } else {
            keyed_map::<T>(views(old(v)@)).insert(T::view_key(x@), x@)
        }),
{
    let kc = string_chars(x.key());
    match keyed_search(v, &kc) {
        Ok(i) => {
            proof {
                assert(views(v@)[i as int] == v@[i as int]@);
                lemma_keyed_map_at::<T>(views(v@), i as int);
            }
        },
        Err(_) => {
            keyed_upsert(v, x);
        },
    }
}

} // verus!

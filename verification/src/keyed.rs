//! Lookup by text key and stable sorting by text key, for records that carry
//! an identifying text.

use vstd::prelude::*;
use vstd::multiset::Multiset;

use crate::text::{lemma_text_lt_asymmetric, lemma_text_lt_total, lemma_text_lt_transitive, text_eq, text_less, text_lt, lemma_text_lt_irreflexive};

verus! {

/// A record with an identifying text.
pub trait Keyed {
    spec fn key(&self) -> Seq<char>;

    fn key_text(&self) -> (res: &str)
        ensures
            res@ == self.key(),
    ;
}

/// The keys of a sequence of records.
pub open spec fn keys_of<T: Keyed>(s: Seq<T>) -> Seq<Seq<char>> {
    s.map_values(|x: T| x.key())
}

/// The first position at which `k` occurs in `keys`.
pub open spec fn first_index_of(keys: Seq<Seq<char>>, k: Seq<char>) -> Option<int>
    decreases keys.len(),
{
    if keys.len() == 0 {
        None
    } else if keys[0] == k {
        Some(0)
    } else {
        match first_index_of(keys.drop_first(), k) {
            Some(i) => Some(i + 1),
            None => None,
        }
    }
}

/// `first_index_of` is the least position holding the key, or none when no position does.
pub proof fn lemma_first_index_of(keys: Seq<Seq<char>>, k: Seq<char>)
    ensures
        match first_index_of(keys, k) {
            Some(i) => 0 <= i < keys.len() && keys[i] == k && forall|j: int| 0 <= j < i ==> keys[j] != k,
            None => forall|j: int| 0 <= j < keys.len() ==> keys[j] != k,
        },
    decreases keys.len(),
{
    if keys.len() > 0 && keys[0] != k {
        let t = keys.drop_first();
        lemma_first_index_of(t, k);
        match first_index_of(t, k) {
            Some(i) => {
                assert forall|j: int| 0 <= j < i + 1 implies keys[j] != k by {
                    if j > 0 {
                        assert(keys[j] == t[j - 1]);
                    }
                }
            },
            None => {
                assert forall|j: int| 0 <= j < keys.len() implies keys[j] != k by {
                    if j > 0 {
                        assert(keys[j] == t[j - 1]);
                    }
                }
            },
        }
    }
}

/// The least `i` with `keys[i] == k` is what `first_index_of` gives.
pub proof fn lemma_first_index_of_at(keys: Seq<Seq<char>>, k: Seq<char>, i: int)
    requires
        0 <= i < keys.len(),
        keys[i] == k,
        forall|j: int| 0 <= j < i ==> keys[j] != k,
    ensures
        first_index_of(keys, k) == Some(i),
{
    lemma_first_index_of(keys, k);
    match first_index_of(keys, k) {
        Some(f) => {
            if f < i {
                assert(keys[f] != k);
            } else if f > i {
                assert(keys[i] != k);
            }
        },
        None => {
            assert(keys[i] != k);
        },
    }
}

/// The position of the first record whose key is `key`.
pub fn find_key<T: Keyed>(v: &Vec<T>, key: &str) -> (res: Option<usize>)
    ensures
        res matches Some(i) ==> first_index_of(keys_of(v@), key@) == Some(i as int) && i < v@.len(),
        res is None ==> first_index_of(keys_of(v@), key@) is None,
{
    let n = v.len();
    for i in 0..n
        invariant
            n == v@.len(),
            forall|j: int| 0 <= j < i ==> keys_of(v@)[j] != key@,
    {
        if text_eq(v[i].key_text(), key) {
            proof {
                lemma_first_index_of_at(keys_of(v@), key@, i as int);
            }
            return Some(i);
        }
    }
    proof {
        lemma_first_index_of(keys_of(v@), key@);
        if let Some(f) = first_index_of(keys_of(v@), key@) {
            assert(keys_of(v@)[f] != key@);
        }
    }
    None
}

/// Keys in non-decreasing code point order.
pub open spec fn keys_sorted(keys: Seq<Seq<char>>) -> bool {
    forall|i: int, j: int| 0 <= i < j < keys.len() ==> !text_lt(#[trigger] keys[j], #[trigger] keys[i])
}

proof fn lemma_insert_multiset<T>(s: Seq<T>, p: int, x: T)
    requires
        0 <= p <= s.len(),
    ensures
        s.insert(p, x).to_multiset() =~= s.to_multiset().insert(x),
{
    broadcast use vstd::seq_lib::group_to_multiset_ensures;

    let t = s.insert(p, x);
    s.insert_ensures(p, x);
    t.to_multiset_ensures();
    assert(t.remove(p) =~= s);
    assert(t.contains(x)) by {
        assert(t[p] == x);
    }
    assert(t.to_multiset().count(x) > 0);
    assert(t.remove(p).to_multiset() =~= t.to_multiset().remove(x));
}

/// The records of `s` whose key is `k`, in their order in `s`.
pub open spec fn with_key<T: Keyed>(s: Seq<T>, k: Seq<char>) -> Seq<T> {
    s.filter(|x: T| x.key() == k)
}

/// Records with all keys below `k` hold none with key `k`.
proof fn lemma_with_key_none_below<T: Keyed>(s: Seq<T>, k: Seq<char>)
    requires
        forall|i: int| 0 <= i < s.len() ==> text_lt(#[trigger] s[i].key(), k),
    ensures
        with_key(s, k) == Seq::<T>::empty(),
    decreases s.len(),
{
    reveal(Seq::filter);
    if s.len() > 0 {
        let d = s.drop_last();
        assert forall|i: int| 0 <= i < d.len() implies text_lt(#[trigger] d[i].key(), k) by {
            assert(d[i] == s[i]);
        }
        lemma_with_key_none_below(d, k);
        lemma_text_lt_irreflexive(k);
        assert(text_lt(s[s.len() - 1].key(), k));
    } else {
        assert(s.filter(|x: T| x.key() == k) =~= Seq::<T>::empty());
    }
}

/// The records of `v` in non-decreasing order of their keys; records with
/// equal keys keep their relative order.
pub fn sort_by_key<T: Keyed>(v: Vec<T>) -> (res: Vec<T>)
    ensures
        keys_sorted(keys_of(res@)),
        res@.to_multiset() =~= v@.to_multiset(),
        res@.len() == v@.len(),
        forall|k: Seq<char>| #[trigger] with_key(res@, k) == with_key(v@, k),
{
    broadcast use vstd::seq_lib::group_to_multiset_ensures;

    let mut rest = v;
    let mut res: Vec<T> = Vec::new();
    let ghost orig = rest@;
    assert forall|k: Seq<char>| #[trigger] with_key(res@, k) == with_key(orig.subrange(rest@.len() as int, orig.len() as int), k) by {
        assert(res@ =~= orig.subrange(rest@.len() as int, orig.len() as int));
    }
    while rest.len() > 0
        invariant
            keys_sorted(keys_of(res@)),
            rest@.to_multiset().add(res@.to_multiset()) =~= orig.to_multiset(),
            rest@.len() <= orig.len(),
            rest@ == orig.subrange(0, rest@.len() as int),
            forall|k: Seq<char>| #[trigger] with_key(res@, k) == with_key(orig.subrange(rest@.len() as int, orig.len() as int), k),
        decreases rest@.len(),
    {
        let ghost before = rest@;
        let x = rest.pop().unwrap();
        proof {
            assert(before =~= rest@.push(x));
            rest@.to_multiset_ensures();
            assert(rest@.push(x).to_multiset() =~= rest@.to_multiset().insert(x));
            assert(before.to_multiset() =~= rest@.to_multiset().insert(x));
        }
        let n = res.len();
        let mut p: usize = 0;
        while p < n && text_less(res[p].key_text(), x.key_text())
            invariant
                n == res@.len(),
                0 <= p <= n,
                forall|k: int| 0 <= k < p ==> text_lt(#[trigger] keys_of(res@)[k], x.key()),
            decreases n - p,
        {
            p = p + 1;
        }
        let ghost old_res = res@;
        res.insert(p, x);
        proof {
            let r = rest@.len() as int;
            assert(orig[r] == x);
            assert(rest@ =~= orig.subrange(0, r));
            assert(orig.subrange(r, orig.len() as int) =~= seq![x] + orig.subrange(r + 1, orig.len() as int));
            let a = old_res.subrange(0, p as int);
            let b = old_res.subrange(p as int, old_res.len() as int);
            assert(res@ =~= a + (seq![x] + b));
            assert(old_res =~= a + b);
            assert forall|k: Seq<char>| #[trigger] with_key(res@, k) == with_key(orig.subrange(r, orig.len() as int), k) by {
                let pred = |y: T| y.key() == k;
                Seq::filter_distributes_over_add(a, seq![x] + b, pred);
                Seq::filter_distributes_over_add(a, b, pred);
                b.lemma_filter_prepend(x, pred);
                orig.subrange(r + 1, orig.len() as int).lemma_filter_prepend(x, pred);
                assert(with_key(old_res, k) == with_key(orig.subrange(r + 1, orig.len() as int), k));
                if x.key() == k {
                    assert forall|i: int| 0 <= i < a.len() implies text_lt(#[trigger] a[i].key(), k) by {
                        assert(a[i] == old_res[i]);
                        assert(keys_of(old_res)[i] == old_res[i].key());
                    }
                    lemma_with_key_none_below(a, k);
                    assert(a.filter(pred) == Seq::<T>::empty());
                    assert(a.filter(pred) + (seq![x] + b.filter(pred)) =~= seq![x] + (a.filter(pred) + b.filter(pred)));
                } else {
                    assert(Seq::<T>::empty() + b.filter(pred) =~= b.filter(pred));
                    assert(Seq::<T>::empty() + orig.subrange(r + 1, orig.len() as int).filter(pred)
                        =~= orig.subrange(r + 1, orig.len() as int).filter(pred));
                }
            }
            lemma_insert_multiset(old_res, p as int, x);
            assert(rest@.to_multiset().add(res@.to_multiset()) =~= before.to_multiset().add(old_res.to_multiset()));
            old_res.insert_ensures(p as int, x);
            let ks = keys_of(res@);
            let ok = keys_of(old_res);
            assert forall|i: int, j: int| 0 <= i < j < ks.len() implies !text_lt(#[trigger] ks[j], #[trigger] ks[i]) by {
                if i < p && j < p {
                    assert(ks[i] == ok[i] && ks[j] == ok[j]);
                } else if i < p && j == p {
                    assert(ks[i] == ok[i]);
                    assert(text_lt(ok[i], x.key()));
                    lemma_text_lt_asymmetric(ok[i], x.key());
                } else if i < p && j > p {
                    assert(ks[i] == ok[i] && ks[j] == ok[j - 1]);
                } else if i == p {
                    assert(ks[j] == ok[j - 1]);
                    // p < n here, and ok[p] is not below x
                    assert(!text_lt(ok[p as int], x.key()));
                    if text_lt(ok[j - 1], x.key()) {
                        if j - 1 > p {
                            assert(!text_lt(ok[j - 1], ok[p as int]));
                            lemma_text_lt_total(ok[j - 1], ok[p as int]);
                            if text_lt(ok[p as int], ok[j - 1]) {
                                lemma_text_lt_transitive(ok[p as int], ok[j - 1], x.key());
                            }
                        }
                    }
                } else {
                    assert(ks[i] == ok[i - 1] && ks[j] == ok[j - 1]);
                }
            }
        }
    }
    proof {
        assert(rest@.len() == 0);
        assert(rest@.to_multiset() =~= Multiset::empty());
        assert(res@.to_multiset() =~= orig.to_multiset());
        assert(orig.subrange(0, orig.len() as int) =~= orig);
        res@.to_multiset_ensures();
        orig.to_multiset_ensures();
        assert(res@.len() == res@.to_multiset().len());
        assert(orig.len() == orig.to_multiset().len());
    }
    res
}

} // verus!

//! Maps keyed by text, kept as entry lists in ascending key order (the
//! order a `BTreeMap<String, _>` holds its entries in).

use vstd::prelude::*;
use crate::order::{lemma_text_order, text_le, text_le_exec, text_lt};
use crate::text::{chars_of, owned, same_text};

verus! {

/// The keys are in strictly ascending text order (so each occurs once).
pub open spec fn ascending<V>(l: Seq<(String, V)>) -> bool {
    forall|i: int, j: int| 0 <= i < j < l.len() ==> text_lt(#[trigger] l[i].0@, #[trigger] l[j].0@)
}

/// Some entry has key `k`.
pub open spec fn has_key<V>(l: Seq<(String, V)>, k: Seq<char>) -> bool {
    exists|i: int| 0 <= i < l.len() && #[trigger] l[i].0@ == k
}

/// The value stored under `k`, if any.
pub open spec fn lookup<V>(l: Seq<(String, V)>, k: Seq<char>) -> Option<V> {
    if has_key(l, k) {
        Some(l[choose|i: int| 0 <= i < l.len() && #[trigger] l[i].0@ == k].1)
    } else {
        None
    }
}

/// In an ascending list, the entry at `i` is what its key looks up.
pub proof fn lemma_lookup_at<V>(l: Seq<(String, V)>, i: int)
    requires
        ascending(l),
        0 <= i < l.len(),
    ensures
        lookup(l, l[i].0@) == Some(l[i].1),
{
    let k = l[i].0@;
    assert(has_key(l, k));
    let j = choose|j: int| 0 <= j < l.len() && #[trigger] l[j].0@ == k;
    if j != i {
        if j < i {
            assert(text_lt(l[j].0@, l[i].0@));
        } else {
            assert(text_lt(l[i].0@, l[j].0@));
        }
    }
}

/// Whether text `a` sorts strictly before text `b`.
fn string_lt(a: &String, b: &String) -> (r: bool)
    ensures
        r == text_lt(a@, b@),
{
    let x = chars_of(a.as_str());
    let y = chars_of(b.as_str());
    text_le_exec(x.as_slice(), y.as_slice()) && !same_text(x.as_slice(), y.as_slice())
}

/// The first position whose key is not below `k`.
fn position_of<V>(l: &Vec<(String, V)>, k: &String) -> (p: usize)
    ensures
        p <= l@.len(),
        forall|j: int| 0 <= j < p ==> text_lt(#[trigger] l@[j].0@, k@),
        p < l@.len() ==> !text_lt(l@[p as int].0@, k@),
{
    let mut p: usize = 0;
    while p < l.len() && string_lt(&l[p].0, k)
        invariant
            p <= l@.len(),
            forall|j: int| 0 <= j < p ==> text_lt(#[trigger] l@[j].0@, k@),
        decreases l@.len() - p,
    {
        p = p + 1;
    }
    p
}

/// The value stored under `k`, if any.
pub fn map_get<'a, V>(l: &'a Vec<(String, V)>, k: &str) -> (r: Option<&'a V>)
    requires
        ascending(l@),
    ensures
        match r {
            Some(v) => lookup(l@, k@) == Some(*v),
            None => lookup(l@, k@) is None,
        },
{
    proof {
        lemma_text_order();
    }
    let key = owned(k);
    let p = position_of(l, &key);
    if p < l.len() && l[p].0 == key {
        proof {
            lemma_lookup_at(l@, p as int);
        }
        Some(&l[p].1)
    } else {
        proof {
            let s = l@;
            if has_key(s, k@) {
                let i = choose|i: int| 0 <= i < s.len() && #[trigger] s[i].0@ == k@;
                if i < p {
                    assert(text_lt(s[i].0@, k@));
                } else if i > p {
                    assert(text_lt(s[p as int].0@, s[i].0@));
                }
            }
        }
        None
    }
}

/// Removes the entry with key `k`, returning its value.
pub fn map_take<V>(l: &mut Vec<(String, V)>, k: &String) -> (r: Option<V>)
    requires
        ascending(old(l)@),
    ensures
        ascending(final(l)@),
        r == lookup(old(l)@, k@),
        forall|q: Seq<char>|
            #[trigger] lookup(final(l)@, q) == if q == k@ {
                None
            } else {
                lookup(old(l)@, q)
            },
{
    proof {
        lemma_text_order();
    }
    let p = position_of(l, k);
    let ghost s = l@;
    if p < l.len() && l[p].0 == *k {
        proof {
            lemma_lookup_at(s, p as int);
        }
        let (_, v) = l.remove(p);
        proof {
            let t = l@;
            assert(t =~= s.remove(p as int));
            assert forall|i: int, j: int| 0 <= i < j < t.len() implies text_lt(
                #[trigger] t[i].0@,
                #[trigger] t[j].0@,
            ) by {
                let i2 = if i < p { i } else { i + 1 };
                let j2 = if j < p { j } else { j + 1 };
                assert(t[i] == s[i2] && t[j] == s[j2]);
            }
            assert forall|q: Seq<char>|
                #[trigger] lookup(t, q) == if q == k@ {
                    None
                } else {
                    lookup(s, q)
                } by {
                if q == k@ {
                    if has_key(t, q) {
                        let i = choose|i: int| 0 <= i < t.len() && #[trigger] t[i].0@ == q;
                        let i2 = if i < p { i } else { i + 1 };
                        assert(t[i] == s[i2]);
                        if i2 < p {
                            assert(text_lt(s[i2].0@, s[p as int].0@));
                        } else {
                            assert(text_lt(s[p as int].0@, s[i2].0@));
                        }
                    }
                } else {
                    if has_key(t, q) {
                        let i = choose|i: int| 0 <= i < t.len() && #[trigger] t[i].0@ == q;
                        let i2 = if i < p { i } else { i + 1 };
                        assert(t[i] == s[i2]);
                        lemma_lookup_at(t, i);
                        lemma_lookup_at(s, i2);
                    } else if has_key(s, q) {
                        let i = choose|i: int| 0 <= i < s.len() && #[trigger] s[i].0@ == q;
                        assert(i != p);
                        let i1 = if i < p { i } else { i - 1 };
                        assert(t[i1] == s[i]);
                    }
                }
            }
        }
        Some(v)
    } else {
        proof {
            if has_key(s, k@) {
                let i = choose|i: int| 0 <= i < s.len() && #[trigger] s[i].0@ == k@;
                if i < p {
                    assert(text_lt(s[i].0@, k@));
                } else if i > p {
                    assert(text_lt(s[p as int].0@, s[i].0@));
                }
            }
        }
        None
    }
}

/// Stores `v` under `k`, replacing any value stored there.
pub fn map_insert<V>(l: &mut Vec<(String, V)>, k: String, v: V)
    requires
        ascending(old(l)@),
    ensures
        ascending(final(l)@),
        forall|q: Seq<char>|
            #[trigger] lookup(final(l)@, q) == if q == k@ {
                Some(v)
            } else {
                lookup(old(l)@, q)
            },
{
    proof {
        lemma_text_order();
    }
    let ghost kv = k@;
    let _ = map_take(l, &k);
    let ghost s = l@;
    let p = position_of(l, &k);
    proof {
        if p < s.len() {
            assert(s[p as int].0@ != kv) by {
                if s[p as int].0@ == kv {
                    lemma_lookup_at(s, p as int);
                }
            }
            assert(text_lt(kv, s[p as int].0@));
        }
    }
    l.insert(p, (k, v));
    proof {
        let t = l@;
        assert(t =~= s.insert(p as int, t[p as int]));
        assert forall|i: int, j: int| 0 <= i < j < t.len() implies text_lt(
            #[trigger] t[i].0@,
            #[trigger] t[j].0@,
        ) by {
            if j < p {
                assert(t[i] == s[i] && t[j] == s[j]);
            } else if j == p {
                assert(t[i] == s[i]);
            } else if i < p {
                assert(t[i] == s[i] && t[j] == s[j - 1]);
                if j - 1 > p {
                    assert(text_lt(s[p as int].0@, s[j - 1].0@));
                }
            } else if i == p {
                assert(t[j] == s[j - 1]);
                if j - 1 > p {
                    assert(text_lt(s[p as int].0@, s[j - 1].0@));
                }
            } else {
                assert(t[i] == s[i - 1] && t[j] == s[j - 1]);
            }
        }
        assert forall|q: Seq<char>|
            #[trigger] lookup(t, q) == if q == kv {
                Some(v)
            } else {
                lookup(s, q)
            } by {
            if q == kv {
                lemma_lookup_at(t, p as int);
            } else {
                if has_key(t, q) {
                    let i = choose|i: int| 0 <= i < t.len() && #[trigger] t[i].0@ == q;
                    assert(i != p);
                    let i2 = if i < p { i } else { i - 1 };
                    assert(t[i] == s[i2]);
                    lemma_lookup_at(t, i);
                    lemma_lookup_at(s, i2);
                } else if has_key(s, q) {
                    let i = choose|i: int| 0 <= i < s.len() && #[trigger] s[i].0@ == q;
                    let i1 = if i < p { i } else { i + 1 };
                    assert(t[i1] == s[i]);
                }
            }
        }
    }
}

} // verus!

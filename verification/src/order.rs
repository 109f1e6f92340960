//! Lexicographic orders on texts and on numeric version keys.

use vstd::prelude::*;
use vstd::relations::*;

verus! {

/// Lexicographic `<=` on numeric keys, as `Vec<u32>` orders them.
pub open spec fn key_le(a: Seq<u32>, b: Seq<u32>) -> bool
    decreases a.len(),
{
    if a.len() == 0 {
        true
    } else if b.len() == 0 {
        false
    } else if a[0] != b[0] {
        a[0] < b[0]
    } else {
        key_le(a.drop_first(), b.drop_first())
    }
}

/// Lexicographic `<` on numeric keys.
pub open spec fn key_lt(a: Seq<u32>, b: Seq<u32>) -> bool {
    key_le(a, b) && a != b
}

/// Lexicographic `<=` on texts by code point, as `String` orders them
/// (UTF-8 byte order and code point order agree).
pub open spec fn text_le(a: Seq<char>, b: Seq<char>) -> bool
    decreases a.len(),
{
    if a.len() == 0 {
        true
    } else if b.len() == 0 {
        false
    } else if a[0] != b[0] {
        (a[0] as int) < (b[0] as int)
    } else {
        text_le(a.drop_first(), b.drop_first())
    }
}

/// Lexicographic `<` on texts.
pub open spec fn text_lt(a: Seq<char>, b: Seq<char>) -> bool {
    text_le(a, b) && a != b
}

/// `key_le` as a relation.
pub open spec fn key_leq_rel() -> spec_fn(Seq<u32>, Seq<u32>) -> bool {
    |a: Seq<u32>, b: Seq<u32>| key_le(a, b)
}

/// `text_le` as a relation.
pub open spec fn text_leq_rel() -> spec_fn(Seq<char>, Seq<char>) -> bool {
    |a: Seq<char>, b: Seq<char>| text_le(a, b)
}

proof fn lemma_key_reflexive(a: Seq<u32>)
    ensures
        key_le(a, a),
    decreases a.len(),
{
    if a.len() > 0 {
        lemma_key_reflexive(a.drop_first());
    }
}

proof fn lemma_key_antisymmetric(a: Seq<u32>, b: Seq<u32>)
    requires
        key_le(a, b),
        key_le(b, a),
    ensures
        a == b,
    decreases a.len(),
{
    if a.len() > 0 && b.len() > 0 {
        lemma_key_antisymmetric(a.drop_first(), b.drop_first());
        assert(a =~= seq![a[0]] + a.drop_first());
        assert(b =~= seq![b[0]] + b.drop_first());
    }
}

proof fn lemma_key_transitive(a: Seq<u32>, b: Seq<u32>, c: Seq<u32>)
    requires
        key_le(a, b),
        key_le(b, c),
    ensures
        key_le(a, c),
    decreases a.len(),
{
    if a.len() > 0 && b.len() > 0 && c.len() > 0 {
        if a[0] == b[0] && b[0] == c[0] {
            lemma_key_transitive(a.drop_first(), b.drop_first(), c.drop_first());
        }
    }
}

proof fn lemma_key_total(a: Seq<u32>, b: Seq<u32>)
    ensures
        key_le(a, b) || key_le(b, a),
    decreases a.len(),
{
    if a.len() > 0 && b.len() > 0 && a[0] == b[0] {
        lemma_key_total(a.drop_first(), b.drop_first());
    }
}

/// `key_le` is a total order.
pub proof fn lemma_key_order()
    ensures
        total_ordering(key_leq_rel()),
        forall|a: Seq<u32>| #[trigger] key_le(a, a),
        forall|a: Seq<u32>, b: Seq<u32>| key_le(a, b) || key_le(b, a),
        forall|a: Seq<u32>, b: Seq<u32>| #[trigger] key_le(a, b) && #[trigger] key_le(b, a) ==> a == b,
        forall|a: Seq<u32>, b: Seq<u32>, c: Seq<u32>|
            #[trigger] key_le(a, b) && #[trigger] key_le(b, c) ==> key_le(a, c),
{
    assert forall|a: Seq<u32>| #[trigger] key_le(a, a) by {
        lemma_key_reflexive(a);
    }
    assert forall|a: Seq<u32>, b: Seq<u32>| key_le(a, b) || key_le(b, a) by {
        lemma_key_total(a, b);
    }
    assert forall|a: Seq<u32>, b: Seq<u32>| #[trigger] key_le(a, b) && #[trigger] key_le(b, a) implies a == b by {
        lemma_key_antisymmetric(a, b);
    }
    assert forall|a: Seq<u32>, b: Seq<u32>, c: Seq<u32>|
        #[trigger] key_le(a, b) && #[trigger] key_le(b, c) implies key_le(a, c) by {
        lemma_key_transitive(a, b, c);
    }
    let r = key_leq_rel();
    assert(reflexive(r));
    assert(antisymmetric(r));
    assert(transitive(r));
    assert(strongly_connected(r));
}

proof fn lemma_text_reflexive(a: Seq<char>)
    ensures
        text_le(a, a),
    decreases a.len(),
{
    if a.len() > 0 {
        lemma_text_reflexive(a.drop_first());
    }
}

proof fn lemma_text_antisymmetric(a: Seq<char>, b: Seq<char>)
    requires
        text_le(a, b),
        text_le(b, a),
    ensures
        a == b,
    decreases a.len(),
{
    if a.len() > 0 && b.len() > 0 {
        if a[0] != b[0] {
            assert((a[0] as int) != (b[0] as int));
        }
        lemma_text_antisymmetric(a.drop_first(), b.drop_first());
        assert(a =~= seq![a[0]] + a.drop_first());
        assert(b =~= seq![b[0]] + b.drop_first());
    }
}

proof fn lemma_text_transitive(a: Seq<char>, b: Seq<char>, c: Seq<char>)
    requires
        text_le(a, b),
        text_le(b, c),
    ensures
        text_le(a, c),
    decreases a.len(),
{
    if a.len() > 0 && b.len() > 0 && c.len() > 0 {
        if a[0] == b[0] && b[0] == c[0] {
            lemma_text_transitive(a.drop_first(), b.drop_first(), c.drop_first());
        } else if a[0] != c[0] {
        } else {
            // a[0] == c[0] but b differs from one of them: both strict steps cannot hold
            assert((a[0] as int) == (c[0] as int));
        }
    }
}

proof fn lemma_text_total(a: Seq<char>, b: Seq<char>)
    ensures
        text_le(a, b) || text_le(b, a),
    decreases a.len(),
{
    if a.len() > 0 && b.len() > 0 {
        if a[0] == b[0] {
            lemma_text_total(a.drop_first(), b.drop_first());
        } else {
            assert((a[0] as int) != (b[0] as int));
        }
    }
}

/// `text_le` is a total order.
pub proof fn lemma_text_order()
    ensures
        total_ordering(text_leq_rel()),
        forall|a: Seq<char>| #[trigger] text_le(a, a),
        forall|a: Seq<char>, b: Seq<char>| text_le(a, b) || text_le(b, a),
        forall|a: Seq<char>, b: Seq<char>| #[trigger] text_le(a, b) && #[trigger] text_le(b, a) ==> a == b,
        forall|a: Seq<char>, b: Seq<char>, c: Seq<char>|
            #[trigger] text_le(a, b) && #[trigger] text_le(b, c) ==> text_le(a, c),
{
    assert forall|a: Seq<char>| #[trigger] text_le(a, a) by {
        lemma_text_reflexive(a);
    }
    assert forall|a: Seq<char>, b: Seq<char>| text_le(a, b) || text_le(b, a) by {
        lemma_text_total(a, b);
    }
    assert forall|a: Seq<char>, b: Seq<char>| #[trigger] text_le(a, b) && #[trigger] text_le(b, a) implies a == b by {
        lemma_text_antisymmetric(a, b);
    }
    assert forall|a: Seq<char>, b: Seq<char>, c: Seq<char>|
        #[trigger] text_le(a, b) && #[trigger] text_le(b, c) implies text_le(a, c) by {
        lemma_text_transitive(a, b, c);
    }
    let r = text_leq_rel();
    assert(reflexive(r));
    assert(antisymmetric(r));
    assert(transitive(r));
    assert(strongly_connected(r));
}

/// The outcome of comparing two keys.
#[derive(Clone, Copy, Debug, PartialEq, Eq)]
pub enum Rank {
    Below,
    Same,
    Above,
}

/// Compares two numeric keys lexicographically.
pub fn rank_keys(a: &[u32], b: &[u32]) -> (r: Rank)
    ensures
        (r == Rank::Below) == key_lt(a@, b@),
        (r == Rank::Same) == (a@ == b@),
        (r == Rank::Above) == key_lt(b@, a@),
{
    proof {
        lemma_key_order();
    }
    let mut i: usize = 0;
    assert(a@.skip(0) =~= a@);
    assert(b@.skip(0) =~= b@);
    while i < a.len() && i < b.len()
        invariant
            i <= a@.len(),
            i <= b@.len(),
            a@.take(i as int) == b@.take(i as int),
            key_le(a@, b@) == key_le(a@.skip(i as int), b@.skip(i as int)),
            key_le(b@, a@) == key_le(b@.skip(i as int), a@.skip(i as int)),
            (a@ == b@) == (a@.skip(i as int) == b@.skip(i as int)),
        decreases a@.len() - i,
    {
        let ghost sa = a@.skip(i as int);
        let ghost sb = b@.skip(i as int);
        assert(sa.drop_first() =~= a@.skip(i as int + 1));
        assert(sb.drop_first() =~= b@.skip(i as int + 1));
        if a[i] < b[i] {
            assert(sa != sb) by {
                assert(sa[0] != sb[0]);
            }
            return Rank::Below;
        }
        if a[i] > b[i] {
            assert(sa != sb) by {
                assert(sa[0] != sb[0]);
            }
            return Rank::Above;
        }
        proof {
            if sa.drop_first() == sb.drop_first() {
                assert(sa[0] == sb[0]);
                assert(sa.len() == sb.len());
                assert forall|k: int| 0 <= k < sa.len() implies sa[k] == sb[k] by {
                    if k > 0 {
                        assert(sa[k] == sa.drop_first()[k - 1]);
                        assert(sb[k] == sb.drop_first()[k - 1]);
                    }
                }
                assert(sa =~= sb);
            }
            assert(a@.take(i as int + 1) =~= a@.take(i as int).push(a@[i as int]));
            assert(b@.take(i as int + 1) =~= b@.take(i as int).push(b@[i as int]));
        }
        i = i + 1;
    }
    if i < b.len() {
        assert(a@.skip(i as int).len() == 0);
        assert(a@.skip(i as int) != b@.skip(i as int));
        Rank::Below
    } else if i < a.len() {
        assert(b@.skip(i as int).len() == 0);
        assert(a@.skip(i as int) != b@.skip(i as int));
        Rank::Above
    } else {
        assert(a@.skip(i as int) =~= b@.skip(i as int));
        Rank::Same
    }
}

/// Whether `a <= b` by code point (`String`'s order).
pub fn text_le_exec(a: &[char], b: &[char]) -> (r: bool)
    ensures
        r == text_le(a@, b@),
{
    let mut i: usize = 0;
    assert(a@.skip(0) =~= a@);
    assert(b@.skip(0) =~= b@);
    while i < a.len() && i < b.len()
        invariant
            i <= a@.len(),
            i <= b@.len(),
            text_le(a@, b@) == text_le(a@.skip(i as int), b@.skip(i as int)),
        decreases a@.len() - i,
    {
        let ghost sa = a@.skip(i as int);
        let ghost sb = b@.skip(i as int);
        assert(sa.drop_first() =~= a@.skip(i as int + 1));
        assert(sb.drop_first() =~= b@.skip(i as int + 1));
        if a[i] != b[i] {
            return a[i] < b[i];
        }
        i = i + 1;
    }
    i == a.len()
}

} // verus!

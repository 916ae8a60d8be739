//! Lexicographic order of texts by code point, the order in which the store
//! sorts names and addresses.

use vstd::prelude::*;

verus! {

/// `a` sorts strictly before `b`: at the first position where they differ
/// `a` has the smaller code point, or `a` is a proper prefix of `b`.
pub open spec fn text_less(a: Seq<char>, b: Seq<char>) -> bool
    decreases a.len(),
{
    if a.len() == 0 {
        b.len() > 0
    } else if b.len() == 0 {
        false
    } else if a[0] != b[0] {
        (a[0] as int) < (b[0] as int)
    } else {
        text_less(a.drop_first(), b.drop_first())
    }
}

/// The order is strict: irreflexive and asymmetric.
pub proof fn lemma_text_less_strict(a: Seq<char>, b: Seq<char>)
    ensures
        !text_less(a, a),
        !(text_less(a, b) && text_less(b, a)),
    decreases a.len(),
{
    if a.len() > 0 {
        lemma_text_less_strict(a.drop_first(), a.drop_first());
        if b.len() > 0 {
            lemma_text_less_strict(a.drop_first(), b.drop_first());
        }
    }
}

/// The order is total: distinct texts are ordered one way or the other.
pub proof fn lemma_text_less_total(a: Seq<char>, b: Seq<char>)
    ensures
        a != b ==> text_less(a, b) || text_less(b, a),
    decreases a.len(),
{
    if a.len() > 0 && b.len() > 0 && a[0] == b[0] {
        lemma_text_less_total(a.drop_first(), b.drop_first());
        if a.drop_first() == b.drop_first() {
            assert(a =~= seq![a[0]] + a.drop_first());
            assert(b =~= seq![b[0]] + b.drop_first());
        }
    } else if a.len() == 0 && b.len() == 0 {
        assert(a =~= b);
    }
}

proof fn lemma_text_less_from(a: Seq<char>, b: Seq<char>, i: int)
    requires
        0 <= i <= a.len(),
        i <= b.len(),
        forall|k: int| 0 <= k < i ==> a[k] == b[k],
    ensures
        text_less(a, b) == text_less(a.skip(i), b.skip(i)),
        text_less(b, a) == text_less(b.skip(i), a.skip(i)),
    decreases i,
{
    if i > 0 {
        lemma_text_less_from(a.drop_first(), b.drop_first(), i - 1);
        assert(a.drop_first().skip(i - 1) =~= a.skip(i));
        assert(b.drop_first().skip(i - 1) =~= b.skip(i));
    } else {
        assert(a.skip(0) =~= a);
        assert(b.skip(0) =~= b);
    }
}

/// Three-way comparison: negative, zero or positive as `a` sorts before,
/// equals or sorts after `b`.
pub fn compare_text(a: &str, b: &str) -> (r: i8)
    ensures
        (r == 0) == (a@ == b@),
        (r < 0) == text_less(a@, b@),
        (r > 0) == text_less(b@, a@),
{
    proof {
        lemma_text_less_strict(a@, b@);
        lemma_text_less_strict(b@, a@);
        lemma_text_less_total(a@, b@);
    }
    let n = a.unicode_len();
    let m = b.unicode_len();
    let mut i: usize = 0;
    while i < n && i < m
        invariant
            n == a@.len(),
            m == b@.len(),
            i <= n,
            i <= m,
            forall|k: int| 0 <= k < i ==> a@[k] == b@[k],
        decreases n - i,
    {
        let ca = a.get_char(i);
        let cb = b.get_char(i);
        if ca != cb {
            proof {
                lemma_text_less_from(a@, b@, i as int);
                assert(a@.skip(i as int)[0] == ca);
                assert(b@.skip(i as int)[0] == cb);
            }
            if (ca as u32) < (cb as u32) {
                return -1;
            } else {
                return 1;
            }
        }
        i = i + 1;
    }
    proof {
        lemma_text_less_from(a@, b@, i as int);
    }
    if n == m {
        assert(a@ =~= b@);
        0
    } else if n < m {
        -1
    } else {
        1
    }
}

} // verus!

//! The order of texts: character by character, the shorter first where one
//! text begins the other.

use vstd::prelude::*;
use crate::text::{all_digits, decimal_value, is_digit, to_chars};

verus! {

/// Whether `a` comes before `b` in lexicographic order.
pub open spec fn precedes(a: Seq<char>, b: Seq<char>) -> bool
    decreases a.len(),
{
    if b.len() == 0 {
        false
    } else if a.len() == 0 {
        true
    } else if a.first() != b.first() {
        a.first() < b.first()
    } else {
        precedes(a.drop_first(), b.drop_first())
    }
}

/// Of two different texts exactly one comes before the other, and no text
/// comes before itself.
pub proof fn lemma_precedes_total(a: Seq<char>, b: Seq<char>)
    ensures
        a == b ==> !precedes(a, b) && !precedes(b, a),
        a != b ==> (precedes(a, b) <==> !precedes(b, a)),
    decreases a.len(),
{
    if a.len() > 0 && b.len() > 0 && a.first() == b.first() {
        lemma_precedes_total(a.drop_first(), b.drop_first());
        if a.drop_first() == b.drop_first() {
            assert(a =~= seq![a.first()] + a.drop_first());
            assert(b =~= seq![b.first()] + b.drop_first());
        }
    } else if a.len() == 0 && b.len() == 0 {
        assert(a =~= b);
    }
}

/// The order is transitive.
pub proof fn lemma_precedes_transitive(a: Seq<char>, b: Seq<char>, c: Seq<char>)
    requires
        precedes(a, b),
        precedes(b, c),
    ensures
        precedes(a, c),
    decreases a.len(),
{
    if a.len() > 0 && a.first() == b.first() && b.first() == c.first() {
        lemma_precedes_transitive(a.drop_first(), b.drop_first(), c.drop_first());
    }
}

/// Where two texts agree on their first `n` characters, their order is that of
/// what follows.
pub proof fn lemma_precedes_after_common_prefix(a: Seq<char>, b: Seq<char>, n: int)
    requires
        0 <= n <= a.len(),
        n <= b.len(),
        forall|i: int| 0 <= i < n ==> a[i] == b[i],
    ensures
        precedes(a, b) == precedes(a.skip(n), b.skip(n)),
    decreases n,
{
    if n == 0 {
        assert(a.skip(0) =~= a);
        assert(b.skip(0) =~= b);
    } else {
        let ra = a.drop_first();
        let rb = b.drop_first();
        assert forall|i: int| 0 <= i < n - 1 implies ra[i] == rb[i] by {
            assert(ra[i] == a[i + 1]);
            assert(rb[i] == b[i + 1]);
        }
        lemma_precedes_after_common_prefix(ra, rb, n - 1);
        assert(ra.skip(n - 1) =~= a.skip(n));
        assert(rb.skip(n - 1) =~= b.skip(n));
    }
}

/// Between texts of one length the parts in front of the last character
/// decide, and the last character where those parts are the same.
pub proof fn lemma_precedes_by_last(a: Seq<char>, b: Seq<char>)
    requires
        a.len() == b.len(),
        a.len() > 0,
    ensures
        precedes(a, b) <==> precedes(a.drop_last(), b.drop_last()) || (a.drop_last()
            == b.drop_last() && a.last() < b.last()),
    decreases a.len(),
{
    let fa = a.drop_last();
    let fb = b.drop_last();
    if a.len() == 1 {
        assert(fa =~= fb);
        assert(!precedes(a.drop_first(), b.drop_first()));
        assert(!precedes(fa, fb));
    } else if a.first() != b.first() {
        assert(fa.first() == a.first());
        assert(fb.first() == b.first());
    } else {
        let ra = a.drop_first();
        let rb = b.drop_first();
        lemma_precedes_by_last(ra, rb);
        assert(ra.drop_last() =~= fa.drop_first());
        assert(rb.drop_last() =~= fb.drop_first());
        assert(fa.first() == fb.first());
        assert(ra.last() == a.last());
        assert(rb.last() == b.last());
        if fa.drop_first() == fb.drop_first() {
            assert(fa =~= seq![fa.first()] + fa.drop_first());
            assert(fb =~= seq![fb.first()] + fb.drop_first());
        }
    }
}

/// Between texts of decimal digits of one length, the order of the texts is
/// the order of the numbers that they write.
pub proof fn lemma_precedes_is_numeric(a: Seq<char>, b: Seq<char>)
    requires
        a.len() == b.len(),
        all_digits(a),
        all_digits(b),
    ensures
        precedes(a, b) <==> decimal_value(a) < decimal_value(b),
        a == b <==> decimal_value(a) == decimal_value(b),
    decreases a.len(),
{
    if a.len() == 0 {
        assert(a =~= b);
    } else {
        let fa = a.drop_last();
        let fb = b.drop_last();
        assert forall|i: int| 0 <= i < fa.len() implies is_digit(#[trigger] fa[i]) by {
            assert(fa[i] == a[i]);
        }
        assert forall|i: int| 0 <= i < fb.len() implies is_digit(#[trigger] fb[i]) by {
            assert(fb[i] == b[i]);
        }
        lemma_precedes_is_numeric(fa, fb);
        lemma_precedes_by_last(a, b);
        lemma_precedes_total(fa, fb);
        assert(is_digit(a[a.len() - 1]) && is_digit(b[b.len() - 1]));
        if fa == fb && a.last() == b.last() {
            assert(a =~= fa.push(a.last()));
            assert(b =~= fb.push(b.last()));
        }
    }
}

/// Tells whether `a` comes before `b` in lexicographic order.
pub fn text_precedes(a: &str, b: &str) -> (before: bool)
    ensures
        before == precedes(a@, b@),
{
    let x = to_chars(a);
    let y = to_chars(b);
    let mut i: usize = 0;
    while i < x.len() && i < y.len() && x[i] == y[i]
        invariant
            i <= x@.len(),
            i <= y@.len(),
            forall|j: int| 0 <= j < i ==> x@[j] == y@[j],
        decreases x@.len() - i,
    {
        i += 1;
    }
    proof {
        lemma_precedes_after_common_prefix(x@, y@, i as int);
    }
    if i >= y.len() {
        false
    } else if i >= x.len() {
        true
    } else {
        x[i] < y[i]
    }
}

} // verus!

//! The order of sort keys as text, and the numbers behind it.

use vstd::prelude::*;

use crate::timestamp::is_digit;
use crate::timestamp::is_sort_key;

verus! {

/// Whether `a` comes before `b`, or is `b`, in the order of text: character
/// by character from the front, by code point, a prefix before what extends
/// it. This is how `String` values compare.
pub open spec fn text_le(a: Seq<char>, b: Seq<char>) -> bool
    decreases a.len(),
{
    if a.len() == 0 {
        true
    } else if b.len() == 0 {
        false
    } else if a[0] == b[0] {
        text_le(a.drop_first(), b.drop_first())
    } else {
        a[0] < b[0]
    }
}

/// The order of text holds of every text and itself.
pub proof fn lemma_text_le_reflexive(a: Seq<char>)
    ensures
        text_le(a, a),
    decreases a.len(),
{
    if a.len() > 0 {
        lemma_text_le_reflexive(a.drop_first());
    }
}

/// Two texts that each come before the other are one text.
pub proof fn lemma_text_le_antisymmetric(a: Seq<char>, b: Seq<char>)
    requires
        text_le(a, b),
        text_le(b, a),
    ensures
        a == b,
    decreases a.len(),
{
    if a.len() > 0 {
        lemma_text_le_antisymmetric(a.drop_first(), b.drop_first());
        assert(a == seq![a[0]] + a.drop_first());
        assert(b == seq![b[0]] + b.drop_first());
    } else {
        assert(a == b);
    }
}

/// The order of text carries over a text in between.
pub proof fn lemma_text_le_transitive(a: Seq<char>, b: Seq<char>, c: Seq<char>)
    requires
        text_le(a, b),
        text_le(b, c),
    ensures
        text_le(a, c),
    decreases a.len(),
{
    if a.len() > 0 && a[0] == b[0] && b[0] == c[0] {
        lemma_text_le_transitive(a.drop_first(), b.drop_first(), c.drop_first());
    }
}

/// Of two texts one comes before the other.
pub proof fn lemma_text_le_total(a: Seq<char>, b: Seq<char>)
    ensures
        text_le(a, b) || text_le(b, a),
    decreases a.len(),
{
    if a.len() > 0 && b.len() > 0 && a[0] == b[0] {
        lemma_text_le_total(a.drop_first(), b.drop_first());
    }
}

/// Ten to the power `n`.
pub open spec fn pow10(n: nat) -> int
    decreases n,
{
    if n == 0 {
        1
    } else {
        10 * pow10((n - 1) as nat)
    }
}

/// The digit that the character `c` stands for.
pub open spec fn digit_value(c: char) -> int {
    c as int - '0' as int
}

/// Whether `s` is made of ASCII digits only.
pub open spec fn all_digits(s: Seq<char>) -> bool {
    forall|i: int| 0 <= i < s.len() ==> is_digit(#[trigger] s[i])
}

/// The number that the digits `s` write in base ten.
pub open spec fn decimal_value(s: Seq<char>) -> int
    decreases s.len(),
{
    if s.len() == 0 {
        0
    } else {
        digit_value(s[0]) * pow10((s.len() - 1) as nat) + decimal_value(s.drop_first())
    }
}

proof fn lemma_decimal_value_bounds(s: Seq<char>)
    requires
        all_digits(s),
    ensures
        0 <= decimal_value(s) < pow10(s.len()),
    decreases s.len(),
{
    if s.len() > 0 {
        let rest = s.drop_first();
        assert forall|i: int| 0 <= i < rest.len() implies is_digit(#[trigger] rest[i]) by {
            assert(rest[i] == s[i + 1]);
        }
        lemma_decimal_value_bounds(rest);
        let d = digit_value(s[0]);
        let p = pow10(rest.len());
        assert(is_digit(s[0]));
        assert(0 <= d <= 9);
        assert(0 <= d * p <= 9 * p) by (nonlinear_arith)
            requires
                0 <= d <= 9,
                p > 0,
        ;
    }
}

/// Digit strings of one length compare as text exactly as the numbers they
/// write compare.
pub proof fn lemma_text_order_is_numeric(a: Seq<char>, b: Seq<char>)
    requires
        a.len() == b.len(),
        all_digits(a),
        all_digits(b),
    ensures
        text_le(a, b) <==> decimal_value(a) <= decimal_value(b),
    decreases a.len(),
{
    if a.len() > 0 {
        let ra = a.drop_first();
        let rb = b.drop_first();
        assert forall|i: int| 0 <= i < ra.len() implies is_digit(#[trigger] ra[i]) by {
            assert(ra[i] == a[i + 1]);
        }
        assert forall|i: int| 0 <= i < rb.len() implies is_digit(#[trigger] rb[i]) by {
            assert(rb[i] == b[i + 1]);
        }
        lemma_decimal_value_bounds(ra);
        lemma_decimal_value_bounds(rb);
        let p = pow10(ra.len());
        let da = digit_value(a[0]);
        let db = digit_value(b[0]);
        assert(is_digit(a[0]) && is_digit(b[0]));
        if a[0] == b[0] {
            lemma_text_order_is_numeric(ra, rb);
        } else if a[0] < b[0] {
            assert((da + 1) * p <= db * p) by (nonlinear_arith)
                requires
                    da + 1 <= db,
                    p > 0,
            ;
            assert((da + 1) * p == da * p + p) by (nonlinear_arith);
        } else {
            assert((db + 1) * p <= da * p) by (nonlinear_arith)
                requires
                    db + 1 <= da,
                    p > 0,
            ;
            assert((db + 1) * p == db * p + p) by (nonlinear_arith);
        }
    }
}

/// Sort keys compare as text exactly as the numbers `YYYYMMDDhhmmss` that
/// they write compare.
pub proof fn lemma_key_order_is_numeric(a: Seq<char>, b: Seq<char>)
    requires
        is_sort_key(a),
        is_sort_key(b),
    ensures
        text_le(a, b) <==> decimal_value(a) <= decimal_value(b),
{
    lemma_text_order_is_numeric(a, b);
}

} // verus!

//! Offset values as the metadata reader displays them.

use vstd::prelude::*;
use vstd::string::StrSliceExecFns;

verus! {

/// The character that the metadata reader's display wraps text values in.
pub const QUOTE: char = '"';

/// How many quote characters `s` begins with.
pub open spec fn leading_quotes(s: Seq<char>) -> nat
    decreases s.len(),
{
    if s.len() > 0 && s[0] == QUOTE {
        1 + leading_quotes(s.drop_first())
    } else {
        0
    }
}

/// How many quote characters `s` ends with.
pub open spec fn trailing_quotes(s: Seq<char>) -> nat
    decreases s.len(),
{
    if s.len() > 0 && s.last() == QUOTE {
        1 + trailing_quotes(s.drop_last())
    } else {
        0
    }
}

/// `s` without the quote characters it begins with and, of what is left,
/// without those it ends with.
pub open spec fn strip_quotes(s: Seq<char>) -> Seq<char> {
    let rest = s.skip(leading_quotes(s) as int);
    rest.take(rest.len() - trailing_quotes(rest))
}

/// Whether every character of `s` is a quote.
pub open spec fn all_quotes(s: Seq<char>) -> bool {
    forall|i: int| 0 <= i < s.len() ==> s[i] == QUOTE
}

proof fn lemma_leading_quotes_bound(s: Seq<char>)
    ensures
        leading_quotes(s) <= s.len(),
        all_quotes(s) <==> leading_quotes(s) == s.len(),
        leading_quotes(s) < s.len() ==> s[leading_quotes(s) as int] != QUOTE,
    decreases s.len(),
{
    if s.len() > 0 && s[0] == QUOTE {
        let t = s.drop_first();
        lemma_leading_quotes_bound(t);
        if all_quotes(s) {
            assert forall|i: int| 0 <= i < t.len() implies t[i] == QUOTE by {
                assert(t[i] == s[i + 1]);
            }
        }
        if all_quotes(t) {
            assert forall|i: int| 0 <= i < s.len() implies s[i] == QUOTE by {
                if i > 0 {
                    assert(s[i] == t[i - 1]);
                }
            }
        }
        if leading_quotes(s) < s.len() {
            assert(s[leading_quotes(s) as int] == t[leading_quotes(t) as int]);
        }
    }
}

proof fn lemma_leading_quotes_push(s: Seq<char>)
    ensures
        leading_quotes(s + seq![QUOTE]) == if all_quotes(s) {
            s.len() + 1
        } else {
            leading_quotes(s)
        },
    decreases s.len(),
{
    let extended = s + seq![QUOTE];
    if s.len() == 0 {
        assert(extended.drop_first() == Seq::<char>::empty());
        assert(leading_quotes(Seq::<char>::empty()) == 0);
    } else {
        let t = s.drop_first();
        assert(extended[0] == s[0]);
        assert(extended.drop_first() == t + seq![QUOTE]);
        lemma_leading_quotes_bound(s);
        if s[0] == QUOTE {
            lemma_leading_quotes_push(t);
            lemma_leading_quotes_bound(t);
        }
    }
}

proof fn lemma_trailing_quotes_bound(s: Seq<char>)
    ensures
        trailing_quotes(s) <= s.len(),
        trailing_quotes(s) < s.len() ==> s[s.len() - trailing_quotes(s) - 1] != QUOTE,
    decreases s.len(),
{
    if s.len() > 0 && s.last() == QUOTE {
        let t = s.drop_last();
        lemma_trailing_quotes_bound(t);
        if trailing_quotes(s) < s.len() {
            assert(s[s.len() - trailing_quotes(s) - 1] == t[t.len() - trailing_quotes(t) - 1]);
        }
    }
}

/// What is left after stripping neither begins nor ends with a quote.
pub proof fn lemma_stripped_is_bare(value: Seq<char>)
    ensures
        strip_quotes(value).len() > 0 ==> strip_quotes(value)[0] != QUOTE && strip_quotes(
            value,
        ).last() != QUOTE,
{
    lemma_leading_quotes_bound(value);
    let rest = value.skip(leading_quotes(value) as int);
    lemma_trailing_quotes_bound(rest);
}

/// A value that neither begins nor ends with a quote is left as it is.
pub proof fn lemma_strip_quotes_of_plain(value: Seq<char>)
    requires
        value.len() > 0 ==> value[0] != QUOTE && value.last() != QUOTE,
    ensures
        strip_quotes(value) == value,
{
    assert(value.skip(0) == value);
    assert(value.take(value.len() as int) == value);
}

/// A value delivered between a pair of quotes strips to the same text as the
/// value delivered bare.
pub proof fn lemma_strip_quotes_of_quoted(value: Seq<char>)
    ensures
        strip_quotes(seq![QUOTE] + value + seq![QUOTE]) == strip_quotes(value),
{
    let quoted = seq![QUOTE] + value + seq![QUOTE];
    let tail = value + seq![QUOTE];
    assert(quoted[0] == QUOTE);
    assert(quoted.drop_first() == tail);
    lemma_leading_quotes_push(value);
    lemma_leading_quotes_bound(value);
    let lead = leading_quotes(value);
    let rest = value.skip(lead as int);
    if all_quotes(value) {
        assert(quoted.skip(leading_quotes(quoted) as int) == Seq::<char>::empty());
        assert(rest == Seq::<char>::empty());
    } else {
        let quoted_rest = quoted.skip(leading_quotes(quoted) as int);
        assert(quoted_rest == rest + seq![QUOTE]);
        assert(quoted_rest.last() == QUOTE);
        assert(quoted_rest.drop_last() == rest);
        lemma_trailing_quotes_bound(rest);
        assert(quoted_rest.take(quoted_rest.len() - trailing_quotes(quoted_rest)) == rest.take(
            rest.len() - trailing_quotes(rest),
        ));
    }
}

/// Strips the quote characters that surround a displayed offset value.
pub fn parse_offset(offset_str: &str) -> (stripped: &str)
    ensures
        stripped@ == strip_quotes(offset_str@),
{
    let len = offset_str.unicode_len();
    let mut start: usize = 0;
    proof {
        assert(offset_str@.skip(0) == offset_str@);
    }
    while start < len && offset_str.get_char(start) == QUOTE
        invariant
            start <= len,
            len == offset_str@.len(),
            leading_quotes(offset_str@) == start + leading_quotes(offset_str@.skip(start as int)),
        decreases len - start,
    {
        proof {
            assert(offset_str@.skip(start as int).drop_first() == offset_str@.skip(start + 1));
        }
        start += 1;
    }
    let ghost rest = offset_str@.skip(start as int);
    let mut end: usize = len;
    proof {
        assert(rest.take(len - start) == rest);
    }
    while end > start && offset_str.get_char(end - 1) == QUOTE
        invariant
            start <= end <= len,
            len == offset_str@.len(),
            rest == offset_str@.skip(start as int),
            trailing_quotes(rest) == (len - end) + trailing_quotes(rest.take(end - start)),
        decreases end,
    {
        proof {
            assert(rest.take(end - start).drop_last() == rest.take(end - start - 1));
        }
        end -= 1;
    }
    proof {
        assert(rest.take(end - start) == offset_str@.subrange(start as int, end as int));
    }
    offset_str.substring_char(start, end)
}

} // verus!

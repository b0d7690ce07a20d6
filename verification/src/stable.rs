//! What follows from a stable sort by sort key, and from the naming of the
//! copies.

use vstd::prelude::*;

use crate::collect::destination_text;
use crate::collect::has_key;
use crate::collect::is_stable_sort;
use crate::collect::ordered_by_key;
use crate::collect::with_key;
use crate::collect::ImageEntry;
use crate::order::decimal_value;
use crate::order::lemma_key_order_is_numeric;
use crate::order::lemma_text_le_antisymmetric;
use crate::order::text_le;
use crate::timestamp::is_sort_key;

verus! {

/// How many of the first `i` elements of `s` satisfy `pred`.
spec fn rank<A>(s: Seq<A>, pred: spec_fn(A) -> bool, i: int) -> int {
    s.take(i).filter(pred).len() as int
}

proof fn lemma_rank_grows<A>(s: Seq<A>, pred: spec_fn(A) -> bool, i: int, j: int)
    requires
        0 <= i <= j <= s.len(),
    ensures
        rank(s, pred, i) <= rank(s, pred, j),
        i < j && pred(s[i]) ==> rank(s, pred, i) < rank(s, pred, j),
{
    let between = s.subrange(i, j);
    assert(s.take(j) == s.take(i) + between);
    Seq::filter_distributes_over_add(s.take(i), between, pred);
    if i < j && pred(s[i]) {
        let rest = s.subrange(i + 1, j);
        assert(between == seq![s[i]] + rest);
        Seq::filter_distributes_over_add(seq![s[i]], rest, pred);
        lemma_filter_of_one(s[i], pred);
    }
}

proof fn lemma_filter_of_one<A>(a: A, pred: spec_fn(A) -> bool)
    requires
        pred(a),
    ensures
        seq![a].filter(pred) == seq![a],
{
    reveal_with_fuel(Seq::filter, 2);
    assert(seq![a].drop_last() == Seq::<A>::empty());
    assert(seq![a].last() == a);
}

/// An element that satisfies `pred` is found again among those that do, at
/// the place that its rank gives.
proof fn lemma_filter_keeps<A>(s: Seq<A>, pred: spec_fn(A) -> bool, i: int)
    requires
        0 <= i < s.len(),
        pred(s[i]),
    ensures
        rank(s, pred, i) < s.filter(pred).len(),
        s.filter(pred)[rank(s, pred, i)] == s[i],
{
    let before = s.take(i);
    let after = s.skip(i + 1);
    assert(s == before + seq![s[i]] + after);
    Seq::filter_distributes_over_add(before + seq![s[i]], after, pred);
    Seq::filter_distributes_over_add(before, seq![s[i]], pred);
    lemma_filter_of_one(s[i], pred);
}

/// An element among those that satisfy `pred` comes from the element of
/// `s` that has its place as rank.
proof fn lemma_filter_origin<A>(s: Seq<A>, pred: spec_fn(A) -> bool, a: int) -> (i: int)
    requires
        0 <= a < s.filter(pred).len(),
    ensures
        0 <= i < s.len(),
        pred(s[i]),
        rank(s, pred, i) == a,
        s[i] == s.filter(pred)[a],
    decreases s.len(),
{
    reveal(Seq::filter);
    let init = s.drop_last();
    if a < init.filter(pred).len() {
        let i = lemma_filter_origin(init, pred, a);
        assert(init.take(i) == s.take(i));
        i
    } else {
        assert(s.take(s.len() - 1) == init);
        s.len() - 1
    }
}

/// Entries of one sort key keep, after sorting, the order in which they
/// were collected.
pub proof fn lemma_ties_keep_their_order(
    entries: Seq<ImageEntry>,
    sorted: Seq<ImageEntry>,
    i: int,
    j: int,
)
    requires
        is_stable_sort(sorted, entries),
        0 <= i < j < entries.len(),
        entries[i].sort_key@ == entries[j].sort_key@,
    ensures
        exists|a: int, b: int|
            0 <= a < b < sorted.len() && sorted[a] == entries[i] && sorted[b] == entries[j],
{
    let key = entries[i].sort_key@;
    let pred = has_key(key);
    assert(with_key(sorted, key) == with_key(entries, key));
    lemma_filter_keeps(entries, pred, i);
    lemma_filter_keeps(entries, pred, j);
    lemma_rank_grows(entries, pred, i, j);
    let a = lemma_filter_origin(sorted, pred, rank(entries, pred, i));
    let b = lemma_filter_origin(sorted, pred, rank(entries, pred, j));
    if b <= a {
        lemma_rank_grows(sorted, pred, b, a);
    }
    assert(0 <= a < b < sorted.len() && sorted[a] == entries[i] && sorted[b] == entries[j]);
}

proof fn lemma_with_key_of_last(entries: Seq<ImageEntry>, key: Seq<char>)
    requires
        entries.len() > 0,
    ensures
        with_key(entries, key) == if entries.last().sort_key@ == key {
            with_key(entries.drop_last(), key).push(entries.last())
        } else {
            with_key(entries.drop_last(), key)
        },
{
    reveal(Seq::filter);
}

proof fn lemma_ordered_groups_agree(first: Seq<ImageEntry>, second: Seq<ImageEntry>)
    requires
        first.len() == second.len(),
        ordered_by_key(first),
        ordered_by_key(second),
        forall|key: Seq<char>| #[trigger] with_key(first, key) == with_key(second, key),
    ensures
        first == second,
    decreases first.len(),
{
    if first.len() == 0 {
        assert(first == second);
    } else {
        let n = first.len() - 1;
        let x = first.last();
        let y = second.last();
        let kx = x.sort_key@;
        let ky = y.sort_key@;
        assert(with_key(first, kx) == with_key(second, kx));
        assert(with_key(first, ky) == with_key(second, ky));
        lemma_with_key_of_last(first, kx);
        lemma_with_key_of_last(second, kx);
        lemma_with_key_of_last(first, ky);
        lemma_with_key_of_last(second, ky);
        if kx != ky {
            let px = has_key(kx);
            let py = has_key(ky);
            let at_x = with_key(first.drop_last(), kx).len() as int;
            assert(with_key(second, kx)[at_x] == x);
            let ix = lemma_filter_origin(second, px, at_x);
            assert(text_le(second[ix].sort_key@, second[n].sort_key@));
            let at_y = with_key(second.drop_last(), ky).len() as int;
            assert(with_key(first, ky)[at_y] == y);
            let iy = lemma_filter_origin(first, py, at_y);
            assert(text_le(first[iy].sort_key@, first[n].sort_key@));
            lemma_text_le_antisymmetric(kx, ky);
        }
        let shorter_first = first.drop_last();
        let shorter_second = second.drop_last();
        assert(with_key(first, kx).last() == x);
        assert(with_key(second, kx).last() == y);
        assert(x == y);
        assert forall|key: Seq<char>| #[trigger]
            with_key(shorter_first, key) == with_key(shorter_second, key) by {
            assert(with_key(first, key) == with_key(second, key));
            lemma_with_key_of_last(first, key);
            lemma_with_key_of_last(second, key);
            if key == kx {
                assert(with_key(shorter_first, key) == with_key(first, key).drop_last());
                assert(with_key(shorter_second, key) == with_key(second, key).drop_last());
            }
        }
        assert(ordered_by_key(shorter_first)) by {
            assert forall|i: int, j: int| 0 <= i < j < shorter_first.len() implies text_le(
                #[trigger] shorter_first[i].sort_key@,
                #[trigger] shorter_first[j].sort_key@,
            ) by {
                assert(text_le(first[i].sort_key@, first[j].sort_key@));
            }
        }
        assert(ordered_by_key(shorter_second)) by {
            assert forall|i: int, j: int| 0 <= i < j < shorter_second.len() implies text_le(
                #[trigger] shorter_second[i].sort_key@,
                #[trigger] shorter_second[j].sort_key@,
            ) by {
                assert(text_le(second[i].sort_key@, second[j].sort_key@));
            }
        }
        lemma_ordered_groups_agree(shorter_first, shorter_second);
        assert(first == shorter_first.push(x));
        assert(second == shorter_second.push(y));
    }
}

/// There is one stable sort of a list of entries: what is said of the
/// sorted entries fixes every one of them.
pub proof fn lemma_stable_sort_is_unique(
    entries: Seq<ImageEntry>,
    first: Seq<ImageEntry>,
    second: Seq<ImageEntry>,
)
    requires
        is_stable_sort(first, entries),
        is_stable_sort(second, entries),
    ensures
        first == second,
{
    lemma_sort_keeps_entries(entries, first);
    lemma_sort_keeps_entries(entries, second);
    assert forall|key: Seq<char>| #[trigger] with_key(first, key) == with_key(second, key) by {
        assert(with_key(first, key) == with_key(entries, key));
        assert(with_key(second, key) == with_key(entries, key));
    }
    lemma_ordered_groups_agree(first, second);
}

/// Sorting neither adds nor loses an entry: the sorted entries are as many,
/// and each of them is one of those collected.
pub proof fn lemma_sort_keeps_entries(entries: Seq<ImageEntry>, sorted: Seq<ImageEntry>)
    requires
        is_stable_sort(sorted, entries),
    ensures
        sorted.len() == entries.len(),
        forall|a: int| 0 <= a < sorted.len() ==> entries.contains(#[trigger] sorted[a]),
        forall|i: int| 0 <= i < entries.len() ==> sorted.contains(#[trigger] entries[i]),
{
    sorted.to_multiset_ensures();
    entries.to_multiset_ensures();
    assert forall|a: int| 0 <= a < sorted.len() implies entries.contains(#[trigger] sorted[a]) by {
        assert(sorted.contains(sorted[a]));
        assert(sorted.to_multiset().count(sorted[a]) > 0);
        assert(entries.to_multiset().count(sorted[a]) > 0);
    }
    assert forall|i: int| 0 <= i < entries.len() implies sorted.contains(#[trigger] entries[i]) by {
        assert(entries.contains(entries[i]));
        assert(entries.to_multiset().count(entries[i]) > 0);
        assert(sorted.to_multiset().count(entries[i]) > 0);
    }
}

/// In sorted entries with well-formed keys, the numbers `YYYYMMDDhhmmss`
/// that the keys write ascend.
pub proof fn lemma_sorted_keys_ascend(sorted: Seq<ImageEntry>, i: int, j: int)
    requires
        ordered_by_key(sorted),
        0 <= i < j < sorted.len(),
        sorted[i].well_formed(),
        sorted[j].well_formed(),
    ensures
        decimal_value(sorted[i].sort_key@) <= decimal_value(sorted[j].sort_key@),
{
    lemma_key_order_is_numeric(sorted[i].sort_key@, sorted[j].sort_key@);
}

/// Two copies in one folder get one name only where both the sort keys and
/// the names of the images are the same.
pub proof fn lemma_destinations_differ(
    dest_dir: Seq<char>,
    first_key: Seq<char>,
    first_name: Seq<char>,
    second_key: Seq<char>,
    second_name: Seq<char>,
)
    requires
        is_sort_key(first_key),
        is_sort_key(second_key),
        destination_text(dest_dir, first_key, first_name) == destination_text(
            dest_dir,
            second_key,
            second_name,
        ),
    ensures
        first_key == second_key,
        first_name == second_name,
{
    let first = destination_text(dest_dir, first_key, first_name);
    let second = destination_text(dest_dir, second_key, second_name);
    let key_at: int = dest_dir.len() as int + 1;
    let name_at: int = key_at + 14 + 1;
    assert(first.subrange(key_at, key_at + 14) == first_key);
    assert(second.subrange(key_at, key_at + 14) == second_key);
    assert(first.skip(name_at) == first_name);
    assert(second.skip(name_at) == second_name);
}

} // verus!

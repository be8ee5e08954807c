//! Newest first: the order of a listing.
//!
//! Every item carries a timestamp, a text that sorts as time does. A listing
//! shows the items with the greatest timestamp first. Items with the same
//! timestamp stay in the order in which they were found.

use crate::order::{
    lemma_empty_text_is_least, lemma_text_lt_total, lemma_text_not_lt_transitive, text_lt,
};
use vstd::seq_lib::*;
use vstd::prelude::*;

verus! {

/// No item comes before a newer one.
pub open spec fn is_newest_first<T>(s: Seq<T>, key: spec_fn(T) -> Seq<char>) -> bool {
    forall|i: int, j: int| 0 <= i < j < s.len() ==> !text_lt(key(s[i]), key(s[j]))
}

/// The test "this item's timestamp is `stamp`".
pub open spec fn has_stamp<T>(key: spec_fn(T) -> Seq<char>, stamp: Seq<char>) -> spec_fn(T) -> bool {
    |item: T| key(item) == stamp
}

/// The items of `s` whose timestamp is `stamp`, in their order in `s`.
pub open spec fn with_stamp<T>(s: Seq<T>, key: spec_fn(T) -> Seq<char>, stamp: Seq<char>) -> Seq<
    T,
> {
    s.filter(has_stamp(key, stamp))
}

/// Number of leading items of `s` that are newer than `stamp`.
pub open spec fn newer_prefix_len<T>(s: Seq<T>, key: spec_fn(T) -> Seq<char>, stamp: Seq<char>) -> nat
    decreases s.len(),
{
    if s.len() > 0 && text_lt(stamp, key(s[0])) {
        1 + newer_prefix_len(s.drop_first(), key, stamp)
    } else {
        0
    }
}

/// `s` in listing order: each item, from the last to the first, is put
/// behind the items that are newer than it and before all others.
pub open spec fn newest_first<T>(s: Seq<T>, key: spec_fn(T) -> Seq<char>) -> Seq<T>
    decreases s.len(),
{
    if s.len() == 0 {
        s
    } else {
        let rest = newest_first(s.drop_first(), key);
        rest.insert(newer_prefix_len(rest, key, key(s[0])) as int, s[0])
    }
}

/// The place that `newer_prefix_len` names: everything before it is newer
/// than `stamp`, and the item at it, if there is one, is not.
pub proof fn lemma_newer_prefix_len<T>(s: Seq<T>, key: spec_fn(T) -> Seq<char>, stamp: Seq<char>)
    ensures
        newer_prefix_len(s, key, stamp) <= s.len(),
        forall|j: int|
            0 <= j < newer_prefix_len(s, key, stamp) ==> text_lt(stamp, key(#[trigger] s[j])),
        newer_prefix_len(s, key, stamp) < s.len() ==> !text_lt(
            stamp,
            key(s[newer_prefix_len(s, key, stamp) as int]),
        ),
    decreases s.len(),
{
    if s.len() > 0 && text_lt(stamp, key(s[0])) {
        let rest = s.drop_first();
        lemma_newer_prefix_len(rest, key, stamp);
        let p = newer_prefix_len(rest, key, stamp) as int;
        assert forall|j: int| 0 <= j < p + 1 implies text_lt(stamp, key(#[trigger] s[j])) by {
            if j > 0 {
                assert(s[j] == rest[j - 1]);
            }
        }
        if p + 1 < s.len() {
            assert(s[p + 1] == rest[p]);
        }
    }
}

/// A place with these two properties is the one that `newer_prefix_len`
/// names.
pub proof fn lemma_newer_prefix_len_is<T>(
    s: Seq<T>,
    key: spec_fn(T) -> Seq<char>,
    stamp: Seq<char>,
    p: int,
)
    requires
        0 <= p <= s.len(),
        forall|j: int| 0 <= j < p ==> text_lt(stamp, key(#[trigger] s[j])),
        p < s.len() ==> !text_lt(stamp, key(s[p])),
    ensures
        newer_prefix_len(s, key, stamp) == p,
    decreases p,
{
    if p > 0 {
        let rest = s.drop_first();
        assert(text_lt(stamp, key(s[0])));
        assert forall|j: int| 0 <= j < p - 1 implies text_lt(stamp, key(#[trigger] rest[j])) by {
            assert(rest[j] == s[j + 1]);
        }
        if p < s.len() {
            assert(rest[p - 1] == s[p]);
        }
        lemma_newer_prefix_len_is(rest, key, stamp, p - 1);
    }
}

/// A listing is in order: no item comes before a newer one.
pub proof fn lemma_newest_first_is_ordered<T>(s: Seq<T>, key: spec_fn(T) -> Seq<char>)
    ensures
        is_newest_first(newest_first(s, key), key),
    decreases s.len(),
{
    if s.len() > 0 {
        let rest = newest_first(s.drop_first(), key);
        lemma_newest_first_is_ordered(s.drop_first(), key);
        let x = s[0];
        let stamp = key(x);
        lemma_newer_prefix_len(rest, key, stamp);
        let p = newer_prefix_len(rest, key, stamp) as int;
        let r = rest.insert(p, x);
        assert forall|i: int, j: int| 0 <= i < j < r.len() implies !text_lt(
            key(r[i]),
            key(r[j]),
        ) by {
            if j < p {
                assert(r[i] == rest[i] && r[j] == rest[j]);
            } else if j == p {
                assert(r[i] == rest[i] && r[j] == x);
                lemma_text_lt_total(key(rest[i]), stamp);
            } else {
                assert(r[j] == rest[j - 1]);
                if i < p {
                    assert(r[i] == rest[i]);
                } else if i == p {
                    assert(r[i] == x);
                    if j - 1 > p {
                        lemma_text_not_lt_transitive(stamp, key(rest[p]), key(rest[j - 1]));
                    }
                } else {
                    assert(r[i] == rest[i - 1]);
                }
            }
        }
    }
}

/// A listing keeps, for every timestamp, the items that carry it, and keeps
/// them in the order in which they were given: nothing is lost, nothing is
/// added, and equal timestamps do not change places.
pub proof fn lemma_newest_first_keeps_groups<T>(
    s: Seq<T>,
    key: spec_fn(T) -> Seq<char>,
    stamp: Seq<char>,
)
    ensures
        with_stamp(newest_first(s, key), key, stamp) == with_stamp(s, key, stamp),
    decreases s.len(),
{
    if s.len() > 0 {
        let tail = s.drop_first();
        let rest = newest_first(tail, key);
        let x = s[0];
        lemma_newest_first_keeps_groups(tail, key, stamp);
        lemma_newer_prefix_len(rest, key, key(x));
        let p = newer_prefix_len(rest, key, key(x)) as int;
        let pred = has_stamp(key, stamp);
        let before = rest.subrange(0, p);
        let after = rest.subrange(p, rest.len() as int);
        assert(rest =~= before + after);
        assert(s =~= seq![x] + tail);
        Seq::filter_distributes_over_add(before, after, pred);
        Seq::filter_distributes_over_add(before.push(x), after, pred);
        before.lemma_filter_push(x, pred);
        tail.lemma_filter_prepend(x, pred);
        if key(x) == stamp {
            assert forall|j: int| 0 <= j < before.len() implies !pred(#[trigger] before[j]) by {
                assert(before[j] == rest[j]);
                lemma_text_lt_total(stamp, key(rest[j]));
            }
            assert(before.all(|y: T| !pred(y)));
            before.lemma_all_neg_filter_empty(pred);
            assert(before.filter(pred) =~= Seq::<T>::empty());
            assert(before.filter(pred).push(x) + after.filter(pred) =~= seq![x] + (before.filter(
                pred,
            ) + after.filter(pred)));
        }
    }
}

/// A listing holds the items that were given, each as often as it was given.
pub proof fn lemma_newest_first_permutes<T>(s: Seq<T>, key: spec_fn(T) -> Seq<char>)
    ensures
        newest_first(s, key).to_multiset() == s.to_multiset(),
        newest_first(s, key).len() == s.len(),
    decreases s.len(),
{
    if s.len() > 0 {
        let tail = s.drop_first();
        let rest = newest_first(tail, key);
        lemma_newest_first_permutes(tail, key);
        lemma_newer_prefix_len(rest, key, key(s[0]));
        let p = newer_prefix_len(rest, key, key(s[0])) as int;
        to_multiset_insert(rest, p, s[0]);
        to_multiset_insert(tail, 0, s[0]);
        assert(tail.insert(0, s[0]) =~= s);
    }
}

/// Where some item carries `stamp`, one of the items does.
proof fn lemma_group_has_member<T>(s: Seq<T>, key: spec_fn(T) -> Seq<char>, stamp: Seq<char>)
    requires
        with_stamp(s, key, stamp).len() > 0,
    ensures
        exists|i: int| 0 <= i < s.len() && key(#[trigger] s[i]) == stamp,
{
    let pred = has_stamp(key, stamp);
    if forall|i: int| 0 <= i < s.len() ==> key(#[trigger] s[i]) != stamp {
        assert(s.all(|item: T| !pred(item)));
        s.lemma_all_neg_filter_empty(pred);
    }
}

/// Taking the first item away takes it out of its own group and leaves every
/// other group as it was.
proof fn lemma_groups_without_first<T>(s: Seq<T>, key: spec_fn(T) -> Seq<char>, stamp: Seq<char>)
    requires
        s.len() > 0,
    ensures
        with_stamp(s, key, stamp) == if key(s[0]) == stamp {
            seq![s[0]] + with_stamp(s.drop_first(), key, stamp)
        } else {
            with_stamp(s.drop_first(), key, stamp)
        },
{
    assert(s =~= seq![s[0]] + s.drop_first());
    s.drop_first().lemma_filter_prepend(s[0], has_stamp(key, stamp));
}

/// Two sequences that are both in order and hold the same groups are the
/// same sequence.
pub proof fn lemma_order_and_groups_decide<T>(a: Seq<T>, b: Seq<T>, key: spec_fn(T) -> Seq<char>)
    requires
        is_newest_first(a, key),
        is_newest_first(b, key),
        forall|stamp: Seq<char>| #[trigger]
            with_stamp(a, key, stamp) == with_stamp(b, key, stamp),
    ensures
        a == b,
    decreases a.len(),
{
    if a.len() == 0 || b.len() == 0 {
        if a.len() > 0 {
            lemma_groups_without_first(a, key, key(a[0]));
            assert(with_stamp(b, key, key(a[0])).len() > 0);
            lemma_group_has_member(b, key, key(a[0]));
        }
        if b.len() > 0 {
            lemma_groups_without_first(b, key, key(b[0]));
            assert(with_stamp(a, key, key(b[0])).len() > 0);
            lemma_group_has_member(a, key, key(b[0]));
        }
        assert(a =~= b);
    } else {
        let ka = key(a[0]);
        let kb = key(b[0]);
        lemma_groups_without_first(a, key, ka);
        lemma_groups_without_first(b, key, kb);
        assert(with_stamp(b, key, ka).len() > 0);
        assert(with_stamp(a, key, kb).len() > 0);
        lemma_group_has_member(b, key, ka);
        lemma_group_has_member(a, key, kb);
        let i = choose|i: int| 0 <= i < a.len() && key(#[trigger] a[i]) == kb;
        let j = choose|j: int| 0 <= j < b.len() && key(#[trigger] b[j]) == ka;
        lemma_text_lt_total(ka, kb);
        assert(ka == kb) by {
            if i > 0 {
                assert(!text_lt(key(a[0]), key(a[i])));
            }
            if j > 0 {
                assert(!text_lt(key(b[0]), key(b[j])));
            }
        }
        let ra = a.drop_first();
        let rb = b.drop_first();
        lemma_groups_without_first(b, key, ka);
        let ga = with_stamp(ra, key, ka);
        let gb = with_stamp(rb, key, ka);
        assert(seq![a[0]] + ga == seq![b[0]] + gb);
        assert(a[0] == b[0]) by {
            assert((seq![a[0]] + ga)[0] == a[0]);
            assert((seq![b[0]] + gb)[0] == b[0]);
        }
        assert(ga == gb) by {
            assert((seq![a[0]] + ga).drop_first() =~= ga);
            assert((seq![b[0]] + gb).drop_first() =~= gb);
        }
        assert forall|stamp: Seq<char>| #[trigger]
            with_stamp(ra, key, stamp) == with_stamp(rb, key, stamp) by {
            lemma_groups_without_first(a, key, stamp);
            lemma_groups_without_first(b, key, stamp);
            assert(with_stamp(a, key, stamp) == with_stamp(b, key, stamp));
        }
        assert(is_newest_first(ra, key)) by {
            assert forall|m: int, n: int| 0 <= m < n < ra.len() implies !text_lt(
                key(ra[m]),
                key(ra[n]),
            ) by {
                assert(ra[m] == a[m + 1] && ra[n] == a[n + 1]);
            }
        }
        assert(is_newest_first(rb, key)) by {
            assert forall|m: int, n: int| 0 <= m < n < rb.len() implies !text_lt(
                key(rb[m]),
                key(rb[n]),
            ) by {
                assert(rb[m] == b[m + 1] && rb[n] == b[n + 1]);
            }
        }
        lemma_order_and_groups_decide(ra, rb, key);
        assert(a =~= seq![a[0]] + ra);
        assert(b =~= seq![b[0]] + rb);
    }
}

/// The listing order is the only one that is newest first and leaves every
/// group of equal timestamps as it was given.
pub proof fn lemma_newest_first_is_the_only_one<T>(
    r: Seq<T>,
    s: Seq<T>,
    key: spec_fn(T) -> Seq<char>,
)
    requires
        is_newest_first(r, key),
        forall|stamp: Seq<char>| #[trigger]
            with_stamp(r, key, stamp) == with_stamp(s, key, stamp),
    ensures
        r == newest_first(s, key),
{
    let t = newest_first(s, key);
    lemma_newest_first_is_ordered(s, key);
    assert forall|stamp: Seq<char>| #[trigger]
        with_stamp(r, key, stamp) == with_stamp(t, key, stamp) by {
        lemma_newest_first_keeps_groups(s, key, stamp);
        assert(with_stamp(r, key, stamp) == with_stamp(s, key, stamp));
    }
    lemma_order_and_groups_decide(r, t, key);
}

/// An item without a timestamp comes after every item that has one.
pub proof fn lemma_unstamped_come_last<T>(
    s: Seq<T>,
    key: spec_fn(T) -> Seq<char>,
    i: int,
    j: int,
)
    requires
        0 <= i < s.len(),
        0 <= j < s.len(),
        key(newest_first(s, key)[i]).len() == 0,
        key(newest_first(s, key)[j]).len() > 0,
    ensures
        j < i,
{
    lemma_newest_first_is_ordered(s, key);
    lemma_newest_first_permutes(s, key);
    let r = newest_first(s, key);
    lemma_empty_text_is_least(key(r[j]));
    assert(key(r[i]) =~= Seq::<char>::empty());
}

} // verus!

//! The members of an object in key order: a stable sort by key, and the
//! facts about it that canonical form rests on.

use crate::text::{
    key_le, key_lt, lemma_key_lt_asymmetric, lemma_key_lt_irreflexive, lemma_key_lt_total,
    lemma_key_lt_transitive,
};
use vstd::prelude::*;

verus! {

/// No member comes after one with a smaller key.
pub open spec fn keys_sorted<V>(s: Seq<(Seq<char>, V)>) -> bool {
    forall|i: int, j: int| #![trigger s[i], s[j]] 0 <= i < j < s.len() ==> key_le(s[i].0, s[j].0)
}

/// Every member's key is smaller than the keys of all that follow.
pub open spec fn keys_increasing<V>(s: Seq<(Seq<char>, V)>) -> bool {
    forall|i: int, j: int| #![trigger s[i], s[j]] 0 <= i < j < s.len() ==> key_lt(s[i].0, s[j].0)
}

/// No key occurs twice.
pub open spec fn keys_distinct<V>(s: Seq<(Seq<char>, V)>) -> bool {
    forall|i: int, j: int| #![trigger s[i], s[j]] 0 <= i < j < s.len() ==> s[i].0 != s[j].0
}

/// Two sequences hold the same members, in whatever order.
pub open spec fn same_members<V>(a: Seq<(Seq<char>, V)>, b: Seq<(Seq<char>, V)>) -> bool {
    forall|m: (Seq<char>, V)| a.contains(m) <==> b.contains(m)
}

/// The first index at or after `from` whose key is greater than `key`, or
/// the length where there is none.
pub open spec fn first_greater<V>(s: Seq<(Seq<char>, V)>, key: Seq<char>, from: int) -> int
    decreases s.len() - from,
{
    if from < 0 || from >= s.len() {
        s.len() as int
    } else if key_lt(key, s[from].0) {
        from
    } else {
        first_greater(s, key, from + 1)
    }
}

/// Where a member with `key` goes: behind every member whose key is not
/// greater, so that equal keys keep their order.
pub open spec fn insert_index<V>(s: Seq<(Seq<char>, V)>, key: Seq<char>) -> int {
    first_greater(s, key, 0)
}

/// `s` with the member `m` put in at its place.
pub open spec fn insert_member<V>(s: Seq<(Seq<char>, V)>, m: (Seq<char>, V)) -> Seq<
    (Seq<char>, V),
> {
    s.insert(insert_index(s, m.0), m)
}

/// The members of `s` sorted by key; members with equal keys keep their order.
pub open spec fn sort_members<V>(s: Seq<(Seq<char>, V)>) -> Seq<(Seq<char>, V)>
    decreases s.len(),
{
    if s.len() == 0 {
        s
    } else {
        insert_member(sort_members(s.drop_last()), s.last())
    }
}

/// Where the first greater key stands: at or after `from`, behind keys
/// that are not greater, and on a key that is, unless it is the length.
pub proof fn lemma_first_greater<V>(s: Seq<(Seq<char>, V)>, key: Seq<char>, from: int)
    requires
        0 <= from <= s.len(),
    ensures
        from <= first_greater(s, key, from) <= s.len(),
        forall|k: int| from <= k < first_greater(s, key, from) ==> !key_lt(key, #[trigger] s[k].0),
        first_greater(s, key, from) < s.len() ==> key_lt(key, s[first_greater(s, key, from)].0),
    decreases s.len() - from,
{
    if from < s.len() && !key_lt(key, s[from].0) {
        lemma_first_greater(s, key, from + 1);
    }
}

/// An index that no greater key precedes, and that holds a greater key or
/// is the length, is the first greater one.
pub proof fn lemma_first_greater_is<V>(
    s: Seq<(Seq<char>, V)>,
    key: Seq<char>,
    from: int,
    at: int,
)
    requires
        0 <= from <= at <= s.len(),
        forall|k: int| from <= k < at ==> !key_lt(key, #[trigger] s[k].0),
        at < s.len() ==> key_lt(key, s[at].0),
    ensures
        first_greater(s, key, from) == at,
    decreases at - from,
{
    if from < at {
        lemma_first_greater_is(s, key, from + 1, at);
    }
}

/// What inserting a member does: the length grows by one, the member stands
/// at its index, the others keep their order, and nothing else changes.
pub proof fn lemma_insert_member<V>(s: Seq<(Seq<char>, V)>, m: (Seq<char>, V))
    ensures
        0 <= insert_index(s, m.0) <= s.len(),
        insert_member(s, m).len() == s.len() + 1,
        insert_member(s, m)[insert_index(s, m.0)] == m,
        forall|i: int| 0 <= i < insert_index(s, m.0) ==> #[trigger] insert_member(s, m)[i] == s[i],
        forall|i: int|
            insert_index(s, m.0) <= i < s.len() ==> #[trigger] insert_member(s, m)[i + 1] == s[i],
        forall|x: (Seq<char>, V)|
            #[trigger] insert_member(s, m).contains(x) <==> (x == m || s.contains(x)),
{
    lemma_first_greater(s, m.0, 0);
    let p = insert_index(s, m.0);
    let r = insert_member(s, m);
    s.insert_ensures(p, m);
    assert forall|x: (Seq<char>, V)| #[trigger] r.contains(x) <==> (x == m || s.contains(x)) by {
        if r.contains(x) {
            let k = choose|k: int| 0 <= k < r.len() && r[k] == x;
            if k < p {
                assert(s[k] == x);
            } else if k > p {
                assert(r[(k - 1) + 1] == s[k - 1]);
                assert(s[k - 1] == x);
            }
        }
        if x == m {
            assert(r[p] == x);
        }
        if s.contains(x) {
            let k = choose|k: int| 0 <= k < s.len() && s[k] == x;
            if k < p {
                assert(r[k] == x);
            } else {
                assert(r[k + 1] == x);
            }
        }
    }
}

/// Inserting into sorted members leaves them sorted.
pub proof fn lemma_insert_keeps_sorted<V>(s: Seq<(Seq<char>, V)>, m: (Seq<char>, V))
    requires
        keys_sorted(s),
    ensures
        keys_sorted(insert_member(s, m)),
{
    lemma_first_greater(s, m.0, 0);
    lemma_insert_member(s, m);
    let p = insert_index(s, m.0);
    let r = insert_member(s, m);
    assert forall|i: int, j: int| 0 <= i < j < r.len() implies key_le(
        #[trigger] r[i].0,
        #[trigger] r[j].0,
    ) by {
        if j < p {
            assert(r[i] == s[i] && r[j] == s[j]);
        } else if j == p {
            assert(r[i] == s[i]);
        } else if i == p {
            // r[j] is s[j - 1], which does not come before s[p], and s[p] is greater than m
            assert(r[(j - 1) + 1] == s[j - 1]);
            if key_lt(s[j - 1].0, m.0) {
                lemma_key_lt_transitive(s[j - 1].0, m.0, s[p].0);
                if j - 1 == p {
                    lemma_key_lt_irreflexive(s[p].0);
                } else {
                    assert(key_le(s[p].0, s[j - 1].0));
                }
            }
        } else if i < p {
            assert(r[i] == s[i]);
            assert(r[(j - 1) + 1] == s[j - 1]);
        } else {
            assert(r[(i - 1) + 1] == s[i - 1]);
            assert(r[(j - 1) + 1] == s[j - 1]);
        }
    }
}

/// Inserting a member whose key is new leaves the keys distinct.
pub proof fn lemma_insert_keeps_distinct<V>(s: Seq<(Seq<char>, V)>, m: (Seq<char>, V))
    requires
        keys_distinct(s),
        forall|k: int| 0 <= k < s.len() ==> (#[trigger] s[k]).0 != m.0,
    ensures
        keys_distinct(insert_member(s, m)),
{
    lemma_insert_member(s, m);
    let p = insert_index(s, m.0);
    let r = insert_member(s, m);
    assert forall|i: int, j: int| 0 <= i < j < r.len() implies (#[trigger] r[i]).0 != (
    #[trigger] r[j]).0 by {
        if i < p {
            assert(r[i] == s[i]);
        } else if i > p {
            assert(r[(i - 1) + 1] == s[i - 1]);
        }
        if j < p {
            assert(r[j] == s[j]);
        } else if j > p {
            assert(r[(j - 1) + 1] == s[j - 1]);
        }
    }
}

/// Sorting keeps the length and the members, and yields sorted keys; where
/// the keys were distinct they still are.
pub proof fn lemma_sort_members<V>(s: Seq<(Seq<char>, V)>)
    ensures
        sort_members(s).len() == s.len(),
        keys_sorted(sort_members(s)),
        same_members(sort_members(s), s),
        keys_distinct(s) ==> keys_distinct(sort_members(s)),
    decreases s.len(),
{
    if s.len() > 0 {
        let front = s.drop_last();
        let sorted = sort_members(front);
        let r = sort_members(s);
        lemma_sort_members(front);
        lemma_insert_member(sorted, s.last());
        lemma_insert_keeps_sorted(sorted, s.last());
        assert forall|x: (Seq<char>, V)| r.contains(x) <==> s.contains(x) by {
            if s.contains(x) {
                let k = choose|k: int| 0 <= k < s.len() && s[k] == x;
                if k < s.len() - 1 {
                    assert(front[k] == x);
                    assert(front.contains(x));
                }
            }
            if front.contains(x) {
                let k = choose|k: int| 0 <= k < front.len() && front[k] == x;
                assert(s[k] == x);
            }
            assert(s[s.len() - 1] == s.last());
        }
        if keys_distinct(s) {
            assert(keys_distinct(front)) by {
                assert forall|i: int, j: int| 0 <= i < j < front.len() implies (
                #[trigger] front[i]).0 != (#[trigger] front[j]).0 by {
                    assert(front[i] == s[i] && front[j] == s[j]);
                }
            }
            assert forall|k: int| 0 <= k < sorted.len() implies (#[trigger] sorted[k]).0
                != s.last().0 by {
                assert(sorted.contains(sorted[k]));
                assert(front.contains(sorted[k]));
                let i = choose|i: int| 0 <= i < front.len() && front[i] == sorted[k];
                assert(front[i] == s[i]);
                assert(s[s.len() - 1] == s.last());
            }
            lemma_insert_keeps_distinct(sorted, s.last());
        }
    }
}

/// Sorting members that are sorted already changes nothing.
pub proof fn lemma_sorted_is_fixed<V>(s: Seq<(Seq<char>, V)>)
    requires
        keys_sorted(s),
    ensures
        sort_members(s) == s,
    decreases s.len(),
{
    if s.len() > 0 {
        let front = s.drop_last();
        assert(keys_sorted(front)) by {
            assert forall|i: int, j: int| 0 <= i < j < front.len() implies key_le(
                (#[trigger] front[i]).0,
                (#[trigger] front[j]).0,
            ) by {
                assert(front[i] == s[i] && front[j] == s[j]);
            }
        }
        lemma_sorted_is_fixed(front);
        assert forall|k: int| 0 <= k < front.len() implies !key_lt(
            s.last().0,
            (#[trigger] front[k]).0,
        ) by {
            assert(front[k] == s[k]);
            assert(s[s.len() - 1] == s.last());
        }
        lemma_first_greater_is(front, s.last().0, 0, front.len() as int);
        assert(front.insert(front.len() as int, s.last()) =~= s);
    }
}

/// Sorted members with distinct keys have increasing keys.
pub proof fn lemma_sorted_distinct_is_increasing<V>(s: Seq<(Seq<char>, V)>)
    requires
        keys_sorted(s),
        keys_distinct(s),
    ensures
        keys_increasing(s),
{
    assert forall|i: int, j: int| 0 <= i < j < s.len() implies key_lt(
        (#[trigger] s[i]).0,
        (#[trigger] s[j]).0,
    ) by {
        if !key_lt(s[i].0, s[j].0) {
            lemma_key_lt_total(s[i].0, s[j].0);
        }
    }
}

/// Members with increasing keys are fixed by what they are: two such
/// sequences with the same members are equal.
pub proof fn lemma_increasing_unique<V>(a: Seq<(Seq<char>, V)>, b: Seq<(Seq<char>, V)>)
    requires
        keys_increasing(a),
        keys_increasing(b),
        same_members(a, b),
    ensures
        a == b,
    decreases a.len(),
{
    if a.len() == 0 {
        if b.len() > 0 {
            assert(b.contains(b[0]));
            assert(a.contains(b[0]));
        }
        assert(a =~= b);
    } else {
        assert(a.contains(a[0]));
        assert(b.contains(a[0]));
        let j = choose|j: int| 0 <= j < b.len() && b[j] == a[0];
        assert(b.contains(b[0]));
        assert(a.contains(b[0]));
        let i = choose|i: int| 0 <= i < a.len() && a[i] == b[0];
        if j > 0 {
            assert(key_lt(b[0].0, b[j].0));
            if i == 0 {
                lemma_key_lt_irreflexive(a[0].0);
            } else {
                assert(key_lt(a[0].0, a[i].0));
                lemma_key_lt_asymmetric(a[0].0, a[i].0);
            }
        }
        assert(a[0] == b[0]);
        let ta = a.drop_first();
        let tb = b.drop_first();
        assert forall|p: int, q: int| 0 <= p < q < ta.len() implies key_lt(
            (#[trigger] ta[p]).0,
            (#[trigger] ta[q]).0,
        ) by {
            assert(ta[p] == a[p + 1] && ta[q] == a[q + 1]);
        }
        assert forall|p: int, q: int| 0 <= p < q < tb.len() implies key_lt(
            (#[trigger] tb[p]).0,
            (#[trigger] tb[q]).0,
        ) by {
            assert(tb[p] == b[p + 1] && tb[q] == b[q + 1]);
        }
        assert forall|x: (Seq<char>, V)| ta.contains(x) <==> tb.contains(x) by {
            if ta.contains(x) {
                let k = choose|k: int| 0 <= k < ta.len() && ta[k] == x;
                assert(a[k + 1] == x);
                assert(a.contains(x));
                assert(b.contains(x));
                let m = choose|m: int| 0 <= m < b.len() && b[m] == x;
                if m == 0 {
                    assert(key_lt(a[0].0, a[k + 1].0));
                    lemma_key_lt_irreflexive(a[0].0);
                }
                assert(tb[m - 1] == x);
            }
            if tb.contains(x) {
                let k = choose|k: int| 0 <= k < tb.len() && tb[k] == x;
                assert(b[k + 1] == x);
                assert(b.contains(x));
                assert(a.contains(x));
                let m = choose|m: int| 0 <= m < a.len() && a[m] == x;
                if m == 0 {
                    assert(key_lt(b[0].0, b[k + 1].0));
                    lemma_key_lt_irreflexive(b[0].0);
                }
                assert(ta[m - 1] == x);
            }
        }
        lemma_increasing_unique(ta, tb);
        assert(a.len() == b.len());
        assert forall|k: int| 0 <= k < a.len() implies a[k] == b[k] by {
            if k > 0 {
                assert(ta[k - 1] == a[k]);
                assert(tb[k - 1] == b[k]);
            }
        }
        assert(a =~= b);
    }
}

/// The sorted order does not depend on the order before: sequences with
/// distinct keys and the same members sort to the same sequence.
pub proof fn lemma_sort_unique<V>(a: Seq<(Seq<char>, V)>, b: Seq<(Seq<char>, V)>)
    requires
        keys_distinct(a),
        keys_distinct(b),
        same_members(a, b),
    ensures
        sort_members(a) == sort_members(b),
{
    lemma_sort_members(a);
    lemma_sort_members(b);
    lemma_sorted_distinct_is_increasing(sort_members(a));
    lemma_sorted_distinct_is_increasing(sort_members(b));
    lemma_increasing_unique(sort_members(a), sort_members(b));
}

} // verus!

//! Canonical form of JSON-RPC requests: members sorted by key at every
//! depth, and, where the privacy level asks for it, the request's identity
//! taken out.

use crate::json::{entries_view, items_view, Json, JsonView};
use crate::members::{
    first_greater, insert_index, insert_member, keys_distinct, keys_sorted, lemma_sort_members,
    lemma_sort_unique, lemma_sorted_is_fixed, same_members, sort_members,
};
use crate::privacy_mode::PrivacyMode;
use crate::text::{key_less, str_eq};
use vstd::prelude::*;

verus! {

/// The canonical form of a value: every object's members sorted by key,
/// arrays in their order, scalars as they are.
pub open spec fn canonical(value: JsonView) -> JsonView
    decreases value,
{
    match value {
        JsonView::Array(items) => JsonView::Array(canonical_items(items)),
        JsonView::Object(entries) => JsonView::Object(sort_members(canonical_values(entries))),
        _ => value,
    }
}

/// The canonical forms of the elements of an array.
pub open spec fn canonical_items(items: Seq<JsonView>) -> Seq<JsonView>
    decreases items,
{
    Seq::new(
        items.len(),
        |i: int|
            if 0 <= i < items.len() {
                canonical(items[i])
            } else {
                JsonView::Null
            },
    )
}

/// The members of an object, each with its value in canonical form.
pub open spec fn canonical_values(entries: Seq<(Seq<char>, JsonView)>) -> Seq<
    (Seq<char>, JsonView),
>
    decreases entries,
{
    Seq::new(
        entries.len(),
        |i: int|
            if 0 <= i < entries.len() {
                (entries[i].0, canonical(entries[i].1))
            } else {
                (Seq::empty(), JsonView::Null)
            },
    )
}

/// Whether a value is in canonical form: keys in order at every depth.
pub open spec fn is_canonical(value: JsonView) -> bool
    decreases value,
{
    match value {
        JsonView::Array(items) => forall|i: int|
            0 <= i < items.len() ==> is_canonical(#[trigger] items[i]),
        JsonView::Object(entries) => keys_sorted(entries) && forall|i: int|
            0 <= i < entries.len() ==> is_canonical((#[trigger] entries[i]).1),
        _ => true,
    }
}

/// Whether a privacy level takes the request's identity out before hashing.
pub open spec fn strips_identity(mode: PrivacyMode) -> bool {
    mode != PrivacyMode::Dev
}

/// A member after stripping: `jsonrpc` is set to `"2.0"`, others stay.
pub open spec fn strip_member(m: (Seq<char>, JsonView)) -> (Seq<char>, JsonView) {
    if m.0 == "jsonrpc"@ {
        (m.0, JsonView::String("2.0"@))
    } else {
        m
    }
}

/// The members of a request without `id`, and with `jsonrpc` set to `"2.0"`.
pub open spec fn strip_members(entries: Seq<(Seq<char>, JsonView)>) -> Seq<(Seq<char>, JsonView)> {
    entries.filter(|m: (Seq<char>, JsonView)| m.0 != "id"@).map_values(
        |m: (Seq<char>, JsonView)| strip_member(m),
    )
}

/// The request without what identifies the client's call: applied to a
/// top-level object at a level that strips, and to nothing else.
pub open spec fn strip_identity(mode: PrivacyMode, value: JsonView) -> JsonView {
    match value {
        JsonView::Object(entries) if strips_identity(mode) => JsonView::Object(
            strip_members(entries),
        ),
        _ => value,
    }
}

fn insert_sorted(sorted: &mut Vec<(String, Json)>, key: String, value: Json)
    ensures
        entries_view(final(sorted)@) == insert_member(
            entries_view(old(sorted)@),
            (key@, value@),
        ),
{
    let ghost before = entries_view(sorted@);
    let mut at: usize = 0;
    while at < sorted.len() && !key_less(key.as_str(), sorted[at].0.as_str())
        invariant
            at <= sorted.len(),
            before == entries_view(sorted@),
            first_greater(before, key@, 0) == first_greater(before, key@, at as int),
        decreases sorted.len() - at,
    {
        at += 1;
    }
    proof {
        assert(insert_index(before, key@) == at);
    }
    sorted.insert(at, (key, value));
    proof {
        assert(entries_view(sorted@) =~= before.insert(at as int, (key@, value@)));
    }
}

fn canonical_array(items: &Vec<Json>) -> (out: Vec<Json>)
    ensures
        items_view(out@) == canonical_items(items_view(items@)),
    decreases items,
{
    let mut out: Vec<Json> = Vec::new();
    let mut i: usize = 0;
    while i < items.len()
        invariant
            i <= items.len(),
            out.len() == i,
            forall|k: int| 0 <= k < i ==> (#[trigger] out@[k])@ == canonical(items@[k]@),
        decreases items.len() - i,
    {
        out.push(canonical_copy(&items[i]));
        i += 1;
    }
    assert(items_view(out@) =~= canonical_items(items_view(items@)));
    out
}

fn canonical_object(entries: &Vec<(String, Json)>) -> (out: Vec<(String, Json)>)
    ensures
        entries_view(out@) == sort_members(canonical_values(entries_view(entries@))),
    decreases entries,
{
    let ghost goal = canonical_values(entries_view(entries@));
    let mut out: Vec<(String, Json)> = Vec::new();
    let mut i: usize = 0;
    assert(entries_view(out@) =~= sort_members(goal.take(0)));
    while i < entries.len()
        invariant
            i <= entries.len(),
            goal == canonical_values(entries_view(entries@)),
            entries_view(out@) == sort_members(goal.take(i as int)),
        decreases entries.len() - i,
    {
        let key = entries[i].0.clone();
        let value = canonical_copy(&entries[i].1);
        proof {
            let next = goal.take(i + 1);
            assert(next.drop_last() =~= goal.take(i as int));
            assert(next.last() == (key@, value@));
        }
        insert_sorted(&mut out, key, value);
        i += 1;
    }
    assert(goal.take(i as int) =~= goal);
    out
}

fn canonical_copy(value: &Json) -> (out: Json)
    ensures
        out@ == canonical(value@),
    decreases value,
{
    match value {
        Json::Array(items) => {
            let out = canonical_array(items);
            Json::Array(out)
        },
        Json::Object(entries) => {
            let out = canonical_object(entries);
            Json::Object(out)
        },
        _ => value.clone(),
    }
}

/// Rewrites a request into canonical form: members sorted by key at every
/// depth, arrays and scalars untouched.
pub fn normalize_rpc_request(value: Json) -> (normalized: Json)
    ensures
        normalized@ == canonical(value@),
{
    canonical_copy(&value)
}

/// Equality up to the order of members, at every depth: arrays agree
/// element by element, objects hold the same keys with values that agree in
/// this sense, scalars are equal.
pub open spec fn same_content(a: JsonView, b: JsonView) -> bool
    decreases a,
{
    match a {
        JsonView::Array(x) => b is Array && x.len() == b->Array_0.len() && forall|i: int|
            0 <= i < x.len() ==> same_content(#[trigger] x[i], b->Array_0[i]),
        JsonView::Object(x) => b is Object && (forall|i: int|
            0 <= i < x.len() ==> member_among(#[trigger] x[i], b->Object_0)) && (forall|j: int|
            0 <= j < b->Object_0.len() ==> among_members(x, #[trigger] b->Object_0[j])),
        _ => a == b,
    }
}

/// `others` holds a member with the key of `m` and a value of the same content.
pub open spec fn member_among(m: (Seq<char>, JsonView), others: Seq<(Seq<char>, JsonView)>) -> bool
    decreases m,
{
    exists|j: int|
        0 <= j < others.len() && (#[trigger] others[j]).0 == m.0 && same_content(m.1, others[j].1)
}

/// `members` holds a member with the key of `m` and a value of the same content.
pub open spec fn among_members(
    members: Seq<(Seq<char>, JsonView)>,
    m: (Seq<char>, JsonView),
) -> bool
    decreases members,
{
    exists|i: int|
        0 <= i < members.len() && (#[trigger] members[i]).0 == m.0 && same_content(
            members[i].1,
            m.1,
        )
}

/// What `normalize_rpc_request` returns is in canonical form.
pub proof fn lemma_canonical_is_canonical(value: JsonView)
    ensures
        is_canonical(canonical(value)),
    decreases value,
{
    match value {
        JsonView::Array(items) => {
            let out = canonical_items(items);
            assert forall|i: int| 0 <= i < out.len() implies is_canonical(#[trigger] out[i]) by {
                lemma_canonical_is_canonical(items[i]);
            }
        },
        JsonView::Object(entries) => {
            let values = canonical_values(entries);
            let out = sort_members(values);
            lemma_sort_members(values);
            assert forall|i: int| 0 <= i < out.len() implies is_canonical(
                (#[trigger] out[i]).1,
            ) by {
                assert(out.contains(out[i]));
                assert(values.contains(out[i]));
                let k = choose|k: int| 0 <= k < values.len() && values[k] == out[i];
                lemma_canonical_is_canonical(entries[k].1);
            }
        },
        _ => {},
    }
}

/// A value in canonical form is its own canonical form.
pub proof fn lemma_canonical_fixed_point(value: JsonView)
    requires
        is_canonical(value),
    ensures
        canonical(value) == value,
    decreases value,
{
    match value {
        JsonView::Array(items) => {
            assert forall|i: int| 0 <= i < items.len() implies canonical_items(items)[i]
                == items[i] by {
                lemma_canonical_fixed_point(items[i]);
            }
            assert(canonical_items(items) =~= items);
        },
        JsonView::Object(entries) => {
            assert forall|i: int| 0 <= i < entries.len() implies canonical_values(entries)[i]
                == entries[i] by {
                lemma_canonical_fixed_point(entries[i].1);
            }
            assert(canonical_values(entries) =~= entries);
            lemma_sorted_is_fixed(entries);
        },
        _ => {},
    }
}

/// Canonicalization is idempotent: applied twice it gives what it gives
/// applied once, for every value.
pub proof fn lemma_canonical_idempotent(value: JsonView)
    ensures
        canonical(canonical(value)) == canonical(value),
{
    lemma_canonical_is_canonical(value);
    lemma_canonical_fixed_point(canonical(value));
}

/// The canonical form of a value in which no object holds a key twice is
/// such a value too.
pub proof fn lemma_canonical_wf(value: JsonView)
    requires
        value.wf(),
    ensures
        canonical(value).wf(),
    decreases value,
{
    match value {
        JsonView::Array(items) => {
            let out = canonical_items(items);
            assert forall|i: int| 0 <= i < out.len() implies (#[trigger] out[i]).wf() by {
                lemma_canonical_wf(items[i]);
            }
        },
        JsonView::Object(entries) => {
            let values = canonical_values(entries);
            let out = sort_members(values);
            assert(keys_distinct(values)) by {
                assert forall|i: int, j: int| 0 <= i < j < values.len() implies (
                #[trigger] values[i]).0 != (#[trigger] values[j]).0 by {
                    assert(entries[i].0 != entries[j].0);
                }
            }
            lemma_sort_members(values);
            assert forall|i: int| 0 <= i < out.len() implies (#[trigger] out[i]).1.wf() by {
                assert(out.contains(out[i]));
                assert(values.contains(out[i]));
                let k = choose|k: int| 0 <= k < values.len() && values[k] == out[i];
                lemma_canonical_wf(entries[k].1);
            }
        },
        _ => {},
    }
}

/// Key-order invariance: two objects that hold the same members, in
/// whatever order, have the same canonical form.
pub proof fn lemma_key_order_invariance(
    x: Seq<(Seq<char>, JsonView)>,
    y: Seq<(Seq<char>, JsonView)>,
)
    requires
        keys_distinct(x),
        keys_distinct(y),
        same_members(x, y),
    ensures
        canonical(JsonView::Object(x)) == canonical(JsonView::Object(y)),
{
    let cx = canonical_values(x);
    let cy = canonical_values(y);
    assert forall|i: int, j: int| 0 <= i < j < cx.len() implies (#[trigger] cx[i]).0 != (
    #[trigger] cx[j]).0 by {
        assert(x[i].0 != x[j].0);
    }
    assert forall|i: int, j: int| 0 <= i < j < cy.len() implies (#[trigger] cy[i]).0 != (
    #[trigger] cy[j]).0 by {
        assert(y[i].0 != y[j].0);
    }
    assert forall|m: (Seq<char>, JsonView)| cx.contains(m) <==> cy.contains(m) by {
        if cx.contains(m) {
            let i = choose|i: int| 0 <= i < cx.len() && cx[i] == m;
            assert(x.contains(x[i]));
            assert(y.contains(x[i]));
            let j = choose|j: int| 0 <= j < y.len() && y[j] == x[i];
            assert(cy[j] == m);
        }
        if cy.contains(m) {
            let j = choose|j: int| 0 <= j < cy.len() && cy[j] == m;
            assert(y.contains(y[j]));
            assert(x.contains(y[j]));
            let i = choose|i: int| 0 <= i < x.len() && x[i] == y[j];
            assert(cx[i] == m);
        }
    }
    lemma_sort_unique(cx, cy);
}

/// Key-order invariance at every depth: values in which no object holds a
/// key twice, and which are equal up to the order of members, have the same
/// canonical form.
pub proof fn lemma_canonical_same_content(a: JsonView, b: JsonView)
    requires
        a.wf(),
        b.wf(),
        same_content(a, b),
    ensures
        canonical(a) == canonical(b),
    decreases a,
{
    match a {
        JsonView::Array(x) => {
            let y = b->Array_0;
            assert forall|i: int| 0 <= i < x.len() implies canonical_items(x)[i]
                == canonical_items(y)[i] by {
                assert(same_content(x[i], y[i]));
                assert(x[i].wf() && y[i].wf());
                lemma_canonical_same_content(x[i], y[i]);
            }
            assert(canonical_items(x) =~= canonical_items(y));
        },
        JsonView::Object(x) => {
            let y = b->Object_0;
            let cx = canonical_values(x);
            let cy = canonical_values(y);
            assert forall|i: int, j: int| 0 <= i < j < cx.len() implies (#[trigger] cx[i]).0 != (
            #[trigger] cx[j]).0 by {
                assert(x[i].0 != x[j].0);
            }
            assert forall|i: int, j: int| 0 <= i < j < cy.len() implies (#[trigger] cy[i]).0 != (
            #[trigger] cy[j]).0 by {
                assert(y[i].0 != y[j].0);
            }
            assert forall|m: (Seq<char>, JsonView)| cx.contains(m) <==> cy.contains(m) by {
                if cx.contains(m) {
                    let i = choose|i: int| 0 <= i < cx.len() && cx[i] == m;
                    assert(member_among(x[i], y));
                    let j = choose|j: int|
                        0 <= j < y.len() && (#[trigger] y[j]).0 == x[i].0 && same_content(
                            x[i].1,
                            y[j].1,
                        );
                    assert(x[i].1.wf() && y[j].1.wf());
                    lemma_canonical_same_content(x[i].1, y[j].1);
                    assert(cy[j] == m);
                }
                if cy.contains(m) {
                    let j = choose|j: int| 0 <= j < cy.len() && cy[j] == m;
                    assert(among_members(x, y[j]));
                    let i = choose|i: int|
                        0 <= i < x.len() && (#[trigger] x[i]).0 == y[j].0 && same_content(
                            x[i].1,
                            y[j].1,
                        );
                    assert(x[i].1.wf() && y[j].1.wf());
                    lemma_canonical_same_content(x[i].1, y[j].1);
                    assert(cx[i] == m);
                }
            }
            lemma_sort_unique(cx, cy);
        },
        _ => {},
    }
}

/// Canonicalization only reorders: a value and its canonical form are
/// equal up to the order of members, so that no number, no string, no
/// array element and no member is added, lost or changed.
pub proof fn lemma_canonical_keeps_content(value: JsonView)
    ensures
        same_content(value, canonical(value)),
    decreases value,
{
    match value {
        JsonView::Array(items) => {
            let out = canonical_items(items);
            assert forall|i: int| 0 <= i < items.len() implies same_content(
                #[trigger] items[i],
                out[i],
            ) by {
                lemma_canonical_keeps_content(items[i]);
            }
        },
        JsonView::Object(entries) => {
            let values = canonical_values(entries);
            let out = sort_members(values);
            lemma_sort_members(values);
            assert forall|i: int| 0 <= i < entries.len() implies member_among(
                #[trigger] entries[i],
                out,
            ) by {
                assert(values.contains(values[i]));
                assert(out.contains(values[i]));
                let j = choose|j: int| 0 <= j < out.len() && out[j] == values[i];
                lemma_canonical_keeps_content(entries[i].1);
                assert(out[j].0 == entries[i].0 && same_content(entries[i].1, out[j].1));
            }
            assert forall|j: int| 0 <= j < out.len() implies among_members(
                entries,
                #[trigger] out[j],
            ) by {
                assert(out.contains(out[j]));
                assert(values.contains(out[j]));
                let i = choose|i: int| 0 <= i < values.len() && values[i] == out[j];
                lemma_canonical_keeps_content(entries[i].1);
                assert(entries[i].0 == out[j].0 && same_content(entries[i].1, out[j].1));
            }
        },
        _ => {},
    }
}

/// The canonical form is the only one: a value in canonical form that is
/// equal to `value` up to the order of members is the canonical form of
/// `value`, where neither holds a key twice in one object.
pub proof fn lemma_canonical_is_unique(value: JsonView, other: JsonView)
    requires
        value.wf(),
        other.wf(),
        same_content(value, other),
        is_canonical(other),
    ensures
        other == canonical(value),
{
    lemma_canonical_same_content(value, other);
    lemma_canonical_fixed_point(other);
}

/// What stripping does to the members of an object: `id` is gone, every
/// other member is there with `jsonrpc` set, in the order they had, and
/// distinct keys stay distinct.
pub proof fn lemma_strip_members(entries: Seq<(Seq<char>, JsonView)>)
    ensures
        forall|m: (Seq<char>, JsonView)| #[trigger]
            strip_members(entries).contains(m) <==> exists|k: int|
                0 <= k < entries.len() && (#[trigger] entries[k]).0 != "id"@ && m == strip_member(
                    entries[k],
                ),
        keys_distinct(entries) ==> keys_distinct(strip_members(entries)),
    decreases entries.len(),
{
    reveal(Seq::filter);
    let keep = |m: (Seq<char>, JsonView)| m.0 != "id"@;
    let set = |m: (Seq<char>, JsonView)| strip_member(m);
    let out = strip_members(entries);
    if entries.len() == 0 {
        assert(out.len() == 0);
    } else {
        let front = entries.drop_last();
        let last = entries.last();
        let before = strip_members(front);
        lemma_strip_members(front);
        if keep(last) {
            assert(out =~= before.push(strip_member(last)));
        } else {
            assert(out =~= before);
        }
        assert forall|m: (Seq<char>, JsonView)| #[trigger] out.contains(m) <==> exists|k: int|
            0 <= k < entries.len() && (#[trigger] entries[k]).0 != "id"@ && m == strip_member(
                entries[k],
            ) by {
            if out.contains(m) {
                let i = choose|i: int| 0 <= i < out.len() && out[i] == m;
                if i < before.len() {
                    assert(before[i] == m);
                    assert(before.contains(m));
                    let k = choose|k: int|
                        0 <= k < front.len() && (#[trigger] front[k]).0 != "id"@ && m
                            == strip_member(front[k]);
                    assert(entries[k] == front[k]);
                } else {
                    assert(entries[entries.len() - 1] == last);
                }
            }
            if exists|k: int|
                0 <= k < entries.len() && (#[trigger] entries[k]).0 != "id"@ && m == strip_member(
                    entries[k],
                ) {
                let k = choose|k: int|
                    0 <= k < entries.len() && (#[trigger] entries[k]).0 != "id"@ && m
                        == strip_member(entries[k]);
                if k < front.len() {
                    assert(front[k] == entries[k]);
                    assert(before.contains(m));
                    let i = choose|i: int| 0 <= i < before.len() && before[i] == m;
                    assert(out[i] == m);
                } else {
                    assert(out[out.len() - 1] == m);
                }
            }
        }
        if keys_distinct(entries) {
            assert(keys_distinct(front)) by {
                assert forall|i: int, j: int| 0 <= i < j < front.len() implies (
                #[trigger] front[i]).0 != (#[trigger] front[j]).0 by {
                    assert(front[i] == entries[i] && front[j] == entries[j]);
                }
            }
            if keep(last) {
                assert forall|i: int, j: int| 0 <= i < j < out.len() implies (#[trigger] out[i]).0
                    != (#[trigger] out[j]).0 by {
                    assert(out[i] == before[i]);
                    if j < before.len() {
                        assert(out[j] == before[j]);
                    } else {
                        assert(before.contains(before[i]));
                        let k = choose|k: int|
                            0 <= k < front.len() && (#[trigger] front[k]).0 != "id"@ && before[i]
                                == strip_member(front[k]);
                        assert(front[k] == entries[k]);
                        assert(entries[entries.len() - 1] == last);
                    }
                }
            }
        }
    }
}

/// Stripping keeps a value free of repeated keys.
pub proof fn lemma_strip_wf(mode: PrivacyMode, request: JsonView)
    requires
        request.wf(),
    ensures
        strip_identity(mode, request).wf(),
{
    match request {
        JsonView::Object(entries) => {
            if strips_identity(mode) {
                let out = strip_members(entries);
                lemma_strip_members(entries);
                assert forall|i: int| 0 <= i < out.len() implies (#[trigger] out[i]).1.wf() by {
                    assert(out.contains(out[i]));
                    let k = choose|k: int|
                        0 <= k < entries.len() && (#[trigger] entries[k]).0 != "id"@ && out[i]
                            == strip_member(entries[k]);
                    assert(entries[k].1.wf());
                }
            }
        },
        _ => {},
    }
}

fn strip_entries(entries: &Vec<(String, Json)>) -> (out: Vec<(String, Json)>)
    ensures
        entries_view(out@) == strip_members(entries_view(entries@)),
{
    let ghost all = entries_view(entries@);
    let mut out: Vec<(String, Json)> = Vec::new();
    let mut i: usize = 0;
    proof {
        reveal(Seq::filter);
        assert(entries_view(out@) =~= strip_members(all.take(0)));
    }
    while i < entries.len()
        invariant
            i <= entries.len(),
            all == entries_view(entries@),
            entries_view(out@) == strip_members(all.take(i as int)),
        decreases entries.len() - i,
    {
        let ghost before = entries_view(out@);
        proof {
            reveal(Seq::filter);
            let next = all.take(i + 1);
            assert(next.drop_last() =~= all.take(i as int));
            assert(next.last() == all[i as int]);
            if all[i as int].0 != "id"@ {
                assert(strip_members(next) =~= before.push(strip_member(all[i as int])));
            } else {
                assert(strip_members(next) =~= before);
            }
        }
        if !str_eq(entries[i].0.as_str(), "id") {
            if str_eq(entries[i].0.as_str(), "jsonrpc") {
                out.push((entries[i].0.clone(), Json::String("2.0".to_owned())));
            } else {
                out.push((entries[i].0.clone(), entries[i].1.clone()));
            }
            proof {
                assert(entries_view(out@) =~= before.push(strip_member(all[i as int])));
            }
        }
        i += 1;
    }
    assert(all.take(i as int) =~= all);
    out
}

/// The form of a request that is hashed: its identity stripped where the
/// level asks for it (`id` removed and `jsonrpc` set to `"2.0"`, on a
/// top-level object only), then made canonical.
pub fn normalize_for_mode(mode: PrivacyMode, value: Json) -> (normalized: Json)
    ensures
        normalized@ == canonical(strip_identity(mode, value@)),
{
    match mode {
        PrivacyMode::Dev => canonical_copy(&value),
        _ => match &value {
            Json::Object(entries) => {
                let stripped = Json::Object(strip_entries(entries));
                canonical_copy(&stripped)
            },
            _ => canonical_copy(&value),
        },
    }
}

} // verus!

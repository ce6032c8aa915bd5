//! JSON values as trees of plain data, and their mathematical view.

use crate::members::keys_distinct;
use crate::text::str_eq;
use vstd::prelude::*;

verus! {

/// A JSON value. A number is held as its JSON text, so that no rewriting of
/// the tree can change how it is written; an object keeps its members in the
/// order in which they were written.
#[derive(Debug, PartialEq, Eq)]
pub enum Json {
    Null,
    Bool(bool),
    Number(String),
    String(String),
    Array(Vec<Json>),
    Object(Vec<(String, Json)>),
}

/// The mathematical value of a [`Json`] tree.
pub enum JsonView {
    Null,
    Bool(bool),
    Number(Seq<char>),
    String(Seq<char>),
    Array(Seq<JsonView>),
    Object(Seq<(Seq<char>, JsonView)>),
}

/// The mathematical value of a tree, by recursion over it.
pub open spec fn json_view(value: Json) -> JsonView
    decreases value,
{
    match value {
        Json::Null => JsonView::Null,
        Json::Bool(b) => JsonView::Bool(b),
        Json::Number(n) => JsonView::Number(n@),
        Json::String(s) => JsonView::String(s@),
        Json::Array(items) => JsonView::Array(items_view(items@)),
        Json::Object(entries) => JsonView::Object(entries_view(entries@)),
    }
}

/// The views of the elements of an array.
pub open spec fn items_view(items: Seq<Json>) -> Seq<JsonView>
    decreases items,
{
    Seq::new(
        items.len(),
        |i: int|
            if 0 <= i < items.len() {
                json_view(items[i])
            } else {
                JsonView::Null
            },
    )
}

/// The views of the members of an object.
pub open spec fn entries_view(entries: Seq<(String, Json)>) -> Seq<(Seq<char>, JsonView)>
    decreases entries,
{
    Seq::new(
        entries.len(),
        |i: int|
            if 0 <= i < entries.len() {
                (entries[i].0@, json_view(entries[i].1))
            } else {
                (Seq::empty(), JsonView::Null)
            },
    )
}

impl View for Json {
    type V = JsonView;

    open spec fn view(&self) -> JsonView {
        json_view(*self)
    }
}

impl JsonView {
    /// No object, at any depth, holds a key twice.
    pub open spec fn wf(self) -> bool
        decreases self,
    {
        match self {
            JsonView::Array(items) => forall|i: int|
                0 <= i < items.len() ==> (#[trigger] items[i]).wf(),
            JsonView::Object(entries) => keys_distinct(entries) && forall|i: int|
                0 <= i < entries.len() ==> (#[trigger] entries[i]).1.wf(),
            _ => true,
        }
    }
}

fn copy_items(items: &Vec<Json>) -> (copy: Vec<Json>)
    ensures
        items_view(copy@) == items_view(items@),
    decreases items,
{
    let mut copy: Vec<Json> = Vec::new();
    let mut i: usize = 0;
    while i < items.len()
        invariant
            i <= items.len(),
            copy.len() == i,
            forall|k: int| 0 <= k < i ==> (#[trigger] copy@[k])@ == items@[k]@,
        decreases items.len() - i,
    {
        copy.push(copy_json(&items[i]));
        i += 1;
    }
    assert(items_view(copy@) =~= items_view(items@));
    copy
}

fn copy_entries(entries: &Vec<(String, Json)>) -> (copy: Vec<(String, Json)>)
    ensures
        entries_view(copy@) == entries_view(entries@),
    decreases entries,
{
    let mut copy: Vec<(String, Json)> = Vec::new();
    let mut i: usize = 0;
    while i < entries.len()
        invariant
            i <= entries.len(),
            copy.len() == i,
            forall|k: int|
                0 <= k < i ==> (#[trigger] copy@[k]).0@ == entries@[k].0@ && copy@[k].1@
                    == entries@[k].1@,
        decreases entries.len() - i,
    {
        copy.push((entries[i].0.clone(), copy_json(&entries[i].1)));
        i += 1;
    }
    assert(entries_view(copy@) =~= entries_view(entries@));
    copy
}

fn copy_json(value: &Json) -> (copy: Json)
    ensures
        copy@ == value@,
    decreases value,
{
    match value {
        Json::Null => Json::Null,
        Json::Bool(b) => Json::Bool(*b),
        Json::Number(n) => Json::Number(n.clone()),
        Json::String(s) => Json::String(s.clone()),
        Json::Array(items) => {
            let copy = copy_items(items);
            Json::Array(copy)
        },
        Json::Object(entries) => {
            let copy = copy_entries(entries);
            Json::Object(copy)
        },
    }
}

impl Clone for Json {
    fn clone(&self) -> (copy: Json)
        ensures
            copy@ == self@,
    {
        copy_json(self)
    }
}

/// The value of the first member at or after `from` whose key is `key`.
pub open spec fn first_with_key(
    entries: Seq<(Seq<char>, JsonView)>,
    key: Seq<char>,
    from: int,
) -> Option<JsonView>
    decreases entries.len() - from,
{
    if from < 0 || from >= entries.len() {
        None
    } else if entries[from].0 == key {
        Some(entries[from].1)
    } else {
        first_with_key(entries, key, from + 1)
    }
}

impl JsonView {
    /// The value that an object holds for `key`; `None` for a key that it
    /// does not hold and for a value that is no object.
    pub open spec fn member(self, key: Seq<char>) -> Option<JsonView> {
        match self {
            JsonView::Object(entries) => first_with_key(entries, key, 0),
            _ => None,
        }
    }

    /// The characters of a string; `None` for a value that is no string.
    pub open spec fn text(self) -> Option<Seq<char>> {
        match self {
            JsonView::String(s) => Some(s),
            _ => None,
        }
    }
}

impl Json {
    /// The value that an object holds for `key`.
    pub fn get(&self, key: &str) -> (found: Option<&Json>)
        ensures
            match found {
                Some(value) => self@.member(key@) == Some(value@),
                None => self@.member(key@) is None,
            },
    {
        match self {
            Json::Object(entries) => {
                let mut i: usize = 0;
                while i < entries.len()
                    invariant
                        i <= entries.len(),
                        self@ == JsonView::Object(entries_view(entries@)),
                        first_with_key(entries_view(entries@), key@, 0) == first_with_key(
                            entries_view(entries@),
                            key@,
                            i as int,
                        ),
                    decreases entries.len() - i,
                {
                    if str_eq(entries[i].0.as_str(), key) {
                        proof {
                            let members = entries_view(entries@);
                            assert(members[i as int] == (
                                entries@[i as int].0@,
                                entries@[i as int].1@,
                            ));
                            assert(self@.member(key@) == Some(entries@[i as int].1@));
                        }
                        return Some(&entries[i].1);
                    }
                    i += 1;
                }
                None
            },
            _ => None,
        }
    }

    /// The characters of a string value.
    pub fn as_str(&self) -> (text: Option<&str>)
        ensures
            match text {
                Some(s) => self@.text() == Some(s@),
                None => self@.text() is None,
            },
    {
        match self {
            Json::String(s) => Some(s.as_str()),
            _ => None,
        }
    }
}

} // verus!

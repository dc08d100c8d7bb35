//! JSON documents as trees of plain values.

use vstd::prelude::*;

use crate::failure::Failure;
use crate::trusted::{json_document, json_from_value, parse_json};

verus! {

/// A JSON document.
#[derive(Debug, PartialEq, Eq)]
pub enum Json {
    Null,
    Bool(bool),
    /// A number, by the text that stands for it.
    Number(String),
    Text(String),
    Array(Vec<Json>),
    /// The members of an object, each with its name.
    Object(Vec<(String, Json)>),
}

/// What a [`Json`] value stands for.
pub enum JsonView {
    Null,
    Bool(bool),
    Number(Seq<char>),
    Text(Seq<char>),
    Array(Seq<JsonView>),
    Object(Seq<(Seq<char>, JsonView)>),
}

impl View for Json {
    type V = JsonView;

    open spec fn view(&self) -> JsonView {
        tree(*self)
    }
}

/// The tree that `json` stands for: strings by their characters, vectors by
/// the sequence of what their elements stand for.
pub open spec fn tree(json: Json) -> JsonView
    decreases json,
{
    match json {
        Json::Null => JsonView::Null,
        Json::Bool(b) => JsonView::Bool(b),
        Json::Number(digits) => JsonView::Number(digits@),
        Json::Text(text) => JsonView::Text(text@),
        Json::Array(items) => JsonView::Array(
            Seq::new(
                items.len() as nat,
                |i: int|
                    if 0 <= i < items.len() {
                        tree(items[i])
                    } else {
                        JsonView::Null
                    },
            ),
        ),
        Json::Object(members) => JsonView::Object(
            Seq::new(
                members.len() as nat,
                |i: int|
                    if 0 <= i < members.len() {
                        (members[i].0@, tree(members[i].1))
                    } else {
                        (Seq::empty(), JsonView::Null)
                    },
            ),
        ),
    }
}

impl JsonView {
    /// The value of the first member called `name`, where this is an object
    /// that has one.
    pub open spec fn member(self, name: Seq<char>) -> Option<JsonView> {
        match self {
            JsonView::Object(members) => member_from(members, name, 0),
            _ => None,
        }
    }

    /// The elements, where this is an array.
    pub open spec fn items(self) -> Option<Seq<JsonView>> {
        match self {
            JsonView::Array(items) => Some(items),
            _ => None,
        }
    }

    /// The characters, where this is a string.
    pub open spec fn text(self) -> Option<Seq<char>> {
        match self {
            JsonView::Text(text) => Some(text),
            _ => None,
        }
    }
}

/// The value of the first member called `name` at index `from` or later.
pub open spec fn member_from(
    members: Seq<(Seq<char>, JsonView)>,
    name: Seq<char>,
    from: int,
) -> Option<JsonView>
    decreases members.len() - from,
{
    if from < 0 || from >= members.len() {
        None
    } else if members[from].0 == name {
        Some(members[from].1)
    } else {
        member_from(members, name, from + 1)
    }
}

/// The view of an object holds the views of its members, in order.
pub proof fn lemma_object_view(members: Vec<(String, Json)>)
    ensures
        Json::Object(members)@ is Object,
        Json::Object(members)@->Object_0.len() == members.len(),
        forall|k: int|
            0 <= k < members.len() ==> #[trigger] Json::Object(members)@->Object_0[k] == (
                members[k].0@,
                members[k].1@,
            ),
{
}

/// The view of an array holds the views of its elements, in order.
pub proof fn lemma_array_view(items: Vec<Json>)
    ensures
        Json::Array(items)@ is Array,
        Json::Array(items)@->Array_0.len() == items.len(),
        forall|k: int| 0 <= k < items.len() ==> #[trigger] Json::Array(items)@->Array_0[k] == items[k]@,
{
}

impl Json {
    /// The value of the first member called `name`; `None` where this is no
    /// object or has no such member.
    pub fn member(&self, name: &str) -> (found: Option<&Json>)
        ensures
            match found {
                Some(value) => self@.member(name@) == Some(value@),
                None => self@.member(name@) is None,
            },
    {
        match self {
            Json::Object(members) => {
                let wanted = name.to_owned();
                let ghost seen = self@->Object_0;
                proof {
                    lemma_object_view(*members);
                }
                let mut i: usize = 0;
                while i < members.len()
                    invariant
                        i <= members.len(),
                        wanted@ == name@,
                        self@ == JsonView::Object(seen),
                        seen.len() == members.len(),
                        forall|k: int|
                            0 <= k < seen.len() ==> #[trigger] seen[k] == (
                                members[k].0@,
                                members[k].1@,
                            ),
                        member_from(seen, name@, 0) == member_from(seen, name@, i as int),
                    decreases members.len() - i,
                {
                    if members[i].0 == wanted {
                        return Some(&members[i].1);
                    }
                    i += 1;
                }
                None
            },
            _ => None,
        }
    }

    /// The elements; `None` where this is no array.
    pub fn items(&self) -> (found: Option<&Vec<Json>>)
        ensures
            match found {
                Some(items) => self@.items() == Some(Seq::new(items.len() as nat, |i: int| items[i]@)),
                None => self@.items() is None,
            },
    {
        match self {
            Json::Array(items) => {
                proof {
                    lemma_array_view(*items);
                }
                Some(items)
            },
            _ => None,
        }
    }

    /// The characters; `None` where this is no string.
    pub fn text(&self) -> (found: Option<&String>)
        ensures
            match found {
                Some(text) => self@.text() == Some(text@),
                None => self@.text() is None,
            },
    {
        match self {
            Json::Text(text) => Some(text),
            _ => None,
        }
    }
}

/// Reads `bytes` as one JSON document.
pub fn read_json(bytes: &[u8]) -> (read: Result<Json, Failure>)
    ensures
        match read {
            Ok(document) => json_document(bytes@) == Some(document@),
            Err(failure) => failure == Failure::ParseError && json_document(bytes@) is None,
        },
{
    match parse_json(bytes) {
        Ok(value) => Ok(json_from_value(value)),
        Err(_) => Err(Failure::ParseError),
    }
}

} // verus!

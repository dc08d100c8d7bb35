//! INI documents as the `ini` crate holds them: sections in order, each
//! with its properties in order.
//!
//! This is the model over which the calls into the crate are stated, and
//! what follows from it for setting a property.

use vstd::prelude::*;

verus! {

/// The properties of one section, in order: each a key and its value.
pub type Properties = Seq<(Seq<char>, Seq<char>)>;

/// The sections of a document, in order: each its name and its properties.
/// The section without a name holds what precedes the first header.
pub type Sections = Seq<(Option<Seq<char>>, Properties)>;

/// The names of the sections, in order.
pub open spec fn section_names(sections: Sections) -> Seq<Option<Seq<char>>> {
    sections.map_values(|section: (Option<Seq<char>>, Properties)| section.0)
}

/// The characters of each name, where there is one.
pub open spec fn name_texts(names: Seq<Option<String>>) -> Seq<Option<Seq<char>>> {
    names.map_values(
        |name: Option<String>|
            match name {
                Some(text) => Some(text@),
                None => None,
            },
    )
}

/// The index of the first section called `name` at index `from` or later.
pub open spec fn section_index_from(sections: Sections, name: Seq<char>, from: int) -> Option<int>
    decreases sections.len() - from,
{
    if from < 0 || from >= sections.len() {
        None
    } else if sections[from].0 == Some(name) {
        Some(from)
    } else {
        section_index_from(sections, name, from + 1)
    }
}

/// The index of the first section called `name`.
pub open spec fn section_index(sections: Sections, name: Seq<char>) -> Option<int> {
    section_index_from(sections, name, 0)
}

/// Whether a property stands under `key`.
pub open spec fn keyed(key: Seq<char>) -> spec_fn((Seq<char>, Seq<char>)) -> bool {
    |property: (Seq<char>, Seq<char>)| property.0 == key
}

/// Whether a property stands under another key than `key`.
pub open spec fn not_keyed(key: Seq<char>) -> spec_fn((Seq<char>, Seq<char>)) -> bool {
    |property: (Seq<char>, Seq<char>)| property.0 != key
}

/// The values that `properties` hold under `key`, in order.
pub open spec fn values_of(properties: Properties, key: Seq<char>) -> Seq<Seq<char>> {
    properties.filter(keyed(key)).map_values(|property: (Seq<char>, Seq<char>)| property.1)
}

/// `properties` with `key` set to `value`: whatever stood under `key` is
/// gone, the other properties keep their order, and the new one is last.
pub open spec fn with_value(properties: Properties, key: Seq<char>, value: Seq<char>) -> Properties {
    properties.filter(not_keyed(key)).push((key, value))
}

/// `sections` with `key` set to `value` in the first section called
/// `section`, or in a new last section of that name where there is none.
pub open spec fn with_property(
    sections: Sections,
    section: Seq<char>,
    key: Seq<char>,
    value: Seq<char>,
) -> Sections {
    match section_index(sections, section) {
        Some(at) => sections.update(
            at,
            (Some(section), with_value(sections[at].1, key, value)),
        ),
        None => sections.push((Some(section), with_value(Seq::empty(), key, value))),
    }
}

/// Where the section called `name` is, or is put: the index of the first
/// section of that name, or the length where there is none.
pub open spec fn place_of(sections: Sections, name: Seq<char>) -> int {
    match section_index(sections, name) {
        Some(at) => at,
        None => sections.len() as int,
    }
}

/// The properties of the section at `at`; none where there is no section.
pub open spec fn held_at(sections: Sections, at: int) -> Properties {
    if 0 <= at < sections.len() {
        sections[at].1
    } else {
        Seq::empty()
    }
}

/// No property is left under `key` once those under `key` are taken out.
proof fn lemma_none_left(properties: Properties, key: Seq<char>)
    ensures
        properties.filter(not_keyed(key)).filter(keyed(key)) == Seq::<(Seq<char>, Seq<char>)>::empty(),
    decreases properties.len(),
{
    if properties.len() == 0 {
        assert(properties.filter(not_keyed(key)) =~= Seq::empty()) by {
            properties.lemma_filter_len(not_keyed(key));
        }
        let none = Seq::<(Seq<char>, Seq<char>)>::empty();
        assert(none.filter(keyed(key)) =~= Seq::empty()) by {
            none.lemma_filter_len(keyed(key));
        }
    } else {
        let rest = properties.drop_last();
        let last = properties.last();
        assert(properties =~= rest.push(last));
        lemma_none_left(rest, key);
        rest.lemma_filter_push(last, not_keyed(key));
        if not_keyed(key)(last) {
            rest.filter(not_keyed(key)).lemma_filter_push(last, keyed(key));
        }
    }
}

/// Taking out the properties under `key` leaves those under `other` as
/// they were.
proof fn lemma_others_left(properties: Properties, key: Seq<char>, other: Seq<char>)
    requires
        key != other,
    ensures
        properties.filter(not_keyed(key)).filter(keyed(other)) == properties.filter(keyed(other)),
    decreases properties.len(),
{
    if properties.len() == 0 {
        assert(properties.filter(not_keyed(key)) =~= properties) by {
            properties.lemma_filter_len(not_keyed(key));
        }
    } else {
        let rest = properties.drop_last();
        let last = properties.last();
        assert(properties =~= rest.push(last));
        lemma_others_left(rest, key, other);
        rest.lemma_filter_push(last, not_keyed(key));
        rest.lemma_filter_push(last, keyed(other));
        if not_keyed(key)(last) {
            rest.filter(not_keyed(key)).lemma_filter_push(last, keyed(other));
        }
    }
}

/// After `key` is set to `value`, the properties hold `value` alone under
/// `key`, and under every other key what they held before.
pub proof fn lemma_with_value(properties: Properties, key: Seq<char>, value: Seq<char>)
    ensures
        values_of(with_value(properties, key, value), key) == seq![value],
        forall|other: Seq<char>|
            other != key ==> #[trigger] values_of(with_value(properties, key, value), other)
                == values_of(properties, other),
{
    let kept = properties.filter(not_keyed(key));
    lemma_none_left(properties, key);
    kept.lemma_filter_push((key, value), keyed(key));
    assert forall|other: Seq<char>| other != key implies #[trigger] values_of(
        with_value(properties, key, value),
        other,
    ) == values_of(properties, other) by {
        lemma_others_left(properties, key, other);
        kept.lemma_filter_push((key, value), keyed(other));
    }
}

/// Where the first section called `name` at `from` or later is, if anywhere.
proof fn lemma_section_index_from(sections: Sections, name: Seq<char>, from: int)
    requires
        0 <= from,
    ensures
        match section_index_from(sections, name, from) {
            Some(at) => {
                &&& from <= at < sections.len()
                &&& sections[at].0 == Some(name)
                &&& forall|i: int| from <= i < at ==> sections[i].0 != Some(name)
            },
            None => forall|i: int| from <= i < sections.len() ==> sections[i].0 != Some(name),
        },
    decreases sections.len() - from,
{
    if from < sections.len() && sections[from].0 != Some(name) {
        lemma_section_index_from(sections, name, from + 1);
    }
}

/// The first section called `name` is at `at` where it is called so and
/// none before it is.
proof fn lemma_section_index_is(sections: Sections, name: Seq<char>, from: int, at: int)
    requires
        0 <= from <= at < sections.len(),
        sections[at].0 == Some(name),
        forall|i: int| from <= i < at ==> sections[i].0 != Some(name),
    ensures
        section_index_from(sections, name, from) == Some(at),
    decreases at - from,
{
    if from < at {
        lemma_section_index_is(sections, name, from + 1, at);
    }
}

/// After `key` is set to `value` in the section `section`, that section is
/// where its first was, or last where there was none; its properties are
/// those it held, with `key` set to `value`; every other section is where
/// it was and as it was.
pub proof fn lemma_with_property(
    sections: Sections,
    section: Seq<char>,
    key: Seq<char>,
    value: Seq<char>,
)
    ensures
        ({
            let after = with_property(sections, section, key, value);
            let at = place_of(sections, section);
            let held = held_at(sections, at);
            &&& 0 <= at <= sections.len()
            &&& after.len() == if at < sections.len() {
                sections.len()
            } else {
                sections.len() + 1
            }
            &&& section_index(after, section) == Some(at)
            &&& after[at] == (Some(section), with_value(held, key, value))
            &&& forall|i: int| 0 <= i < sections.len() && i != at ==> after[i] == sections[i]
        }),
{
    let after = with_property(sections, section, key, value);
    lemma_section_index_from(sections, section, 0);
    match section_index(sections, section) {
        Some(at) => {
            lemma_section_index_is(after, section, 0, at);
        },
        None => {
            lemma_section_index_is(after, section, 0, sections.len() as int);
        },
    }
}

} // verus!

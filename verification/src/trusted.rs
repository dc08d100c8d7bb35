//! What is taken on trust: the calls into `serde_json`, into `ini` and into
//! the standard library that Verus does not see into.
//!
//! Each call stands in a function of its own, and the contract of that
//! function is believed, not proved. What a call gives is either stated
//! over the models of [`crate::json`] and [`crate::document`], or given a
//! name where it takes a parser or a writer to say it.

use vstd::prelude::*;
use vstd::string::StringSliceAdditionalSpecFns;
use vstd::utf8::valid_utf8;

use crate::document::{name_texts, section_names, with_property, Sections};
use crate::json::{Json, JsonView};

verus! {

/// `serde_json::Value`: opaque here; [`value_tree`] names what it holds.
#[verifier::external_type_specification]
#[verifier::external_body]
pub struct ExValue(serde_json::Value);

/// `serde_json::Error`: opaque here, and only told apart from success.
#[verifier::external_type_specification]
#[verifier::external_body]
pub struct ExJsonError(serde_json::Error);

/// The tree that a `serde_json::Value` holds: a number by the text that its
/// `to_string` gives, the members of an object in the order in which its map
/// hands them out.
pub uninterp spec fn value_tree(value: serde_json::Value) -> JsonView;

/// The tree of the value that `serde_json::from_slice` reads from `bytes`,
/// and `None` where it rejects them.
pub uninterp spec fn json_document(bytes: Seq<u8>) -> Option<JsonView>;

/// Calls `serde_json::from_slice` for a `serde_json::Value`. The contract
/// gives the outcome a name: the same bytes are read as the same value, or
/// rejected, every time.
#[verifier::external_body]
pub(crate) fn parse_json(bytes: &[u8]) -> (parsed: Result<serde_json::Value, serde_json::Error>)
    ensures
        match parsed {
            Ok(value) => json_document(bytes@) == Some(value_tree(value)),
            Err(_) => json_document(bytes@) is None,
        },
{
    serde_json::from_slice::<serde_json::Value>(bytes)
}

/// Moves a `serde_json::Value` into a [`Json`], variant by variant and
/// element by element: the result stands for the tree that the value holds.
#[verifier::external_body]
pub(crate) fn json_from_value(value: serde_json::Value) -> (json: Json)
    ensures
        json@ == value_tree(value),
{
    match value {
        serde_json::Value::Null => Json::Null,
        serde_json::Value::Bool(b) => Json::Bool(b),
        serde_json::Value::Number(n) => Json::Number(n.to_string()),
        serde_json::Value::String(s) => Json::Text(s),
        serde_json::Value::Array(a) => Json::Array(a.into_iter().map(json_from_value).collect()),
        serde_json::Value::Object(m) => Json::Object(
            m.into_iter().map(|(k, v)| (k, json_from_value(v))).collect(),
        ),
    }
}

/// Calls `std::str::from_utf8`. As its documentation says, the bytes are
/// accepted exactly when they are valid UTF-8, and the string then has those
/// bytes.
#[verifier::external_body]
pub(crate) fn text_of(bytes: &[u8]) -> (text: Option<&str>)
    ensures
        match text {
            Some(text) => valid_utf8(bytes@) && text.spec_bytes() == bytes@,
            None => !valid_utf8(bytes@),
        },
{
    match std::str::from_utf8(bytes) {
        Ok(text) => Some(text),
        Err(_) => None,
    }
}

/// `ini::Ini`: opaque here; [`ini_sections`] names what it holds.
#[verifier::external_type_specification]
#[verifier::external_body]
pub struct ExIni(ini::Ini);

/// `ini::ParseError`: opaque here, and only told apart from success.
#[verifier::external_type_specification]
#[verifier::external_body]
pub struct ExIniParseError(ini::ParseError);

/// The sections that an `ini::Ini` holds, in the order in which `Ini::iter`
/// hands them out, each with its properties in the order in which
/// `Properties::iter` hands them out.
pub uninterp spec fn ini_sections(document: ini::Ini) -> Sections;

/// The sections of the document that `Ini::load_from_str` reads from `text`,
/// and `None` where it rejects the text.
pub uninterp spec fn ini_parsed(text: Seq<char>) -> Option<Sections>;

/// The bytes that `Ini::write_to_opt` writes for a document with these
/// sections, with the escape policy `Basics`, a line feed at each line's end
/// and `=` between key and value.
pub uninterp spec fn ini_written(sections: Sections) -> Seq<u8>;

/// Calls `Ini::load_from_str`. The contract gives the outcome a name: the
/// same text is read as the same sections, or rejected, every time.
#[verifier::external_body]
pub(crate) fn ini_load(text: &str) -> (loaded: Result<ini::Ini, ini::ParseError>)
    ensures
        match loaded {
            Ok(document) => ini_parsed(text@) == Some(ini_sections(document)),
            Err(_) => ini_parsed(text@) is None,
        },
{
    ini::Ini::load_from_str(text)
}

/// Calls `Ini::iter` and copies the name of each section that it hands
/// out, in its order; `None` stands for the section without a name.
#[verifier::external_body]
pub(crate) fn ini_names(document: &ini::Ini) -> (names: Vec<Option<String>>)
    ensures
        name_texts(names@) == section_names(ini_sections(*document)),
{
    document.iter().map(|(name, _)| name.map(String::from)).collect()
}

/// Calls `SectionSetter::set` on `Ini::with_section` for the section
/// `section`. As the crate's source shows, the first section of that name
/// loses what it held under `key` and gets the new property as its last; a
/// document without such a section gets one, as its last.
#[verifier::external_body]
pub(crate) fn ini_set(document: &mut ini::Ini, section: &str, key: &str, value: &str)
    ensures
        ini_sections(*final(document)) == with_property(
            ini_sections(*old(document)),
            section@,
            key@,
            value@,
        ),
{
    document.with_section(Some(section)).set(key, value);
}

/// Calls `Ini::write_to_opt` on an empty vector, which takes every write.
/// The contract gives the bytes a name: they depend on the sections alone.
#[verifier::external_body]
pub(crate) fn ini_write(document: &ini::Ini) -> (bytes: Vec<u8>)
    ensures
        bytes@ == ini_written(ini_sections(*document)),
{
    let mut bytes = Vec::new();
    let options = ini::WriteOption {
        escape_policy: ini::EscapePolicy::Basics,
        line_separator: ini::LineSeparator::CR,
        kv_separator: "=",
    };
    let _ = document.write_to_opt(&mut bytes, options);
    bytes
}

} // verus!

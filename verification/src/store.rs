//! The credentials file: which of its profiles can be chosen, and how the
//! derived profile is written into it.
//!
//! The file is an INI document with one section for each profile. Nothing
//! here opens a file: the caller hands over the bytes that it read and
//! stores the bytes that it gets back.

use vstd::prelude::*;
use vstd::seq_lib::to_multiset_contains;
use vstd::utf8::{decode_utf8, encode_utf8_decode_utf8, valid_utf8};

use crate::aws::{Credentials, CredentialsView};
use crate::document::{
    held_at, lemma_with_property, lemma_with_value, name_texts, place_of, section_index,
    section_names, values_of, with_property, with_value, Sections,
};
use crate::failure::Failure;
use crate::order::{ascending, lemma_ascending_is_unique, sort_names};
use crate::text::{ends_with, join, texts};
use crate::trusted::{
    ini_load, ini_names, ini_parsed, ini_sections, ini_set, ini_write, ini_written, text_of,
};

verus! {

/// The ending of the name of a profile that this library writes.
pub const RESERVED_SUFFIX: &'static str = "_mfa-authorized";

/// Whether a profile of this name is offered for selection: one that ends
/// as the derived profiles do is not.
pub open spec fn selectable(name: Seq<char>) -> bool {
    !RESERVED_SUFFIX@.is_suffix_of(name)
}

/// The name of the profile that holds the session credentials for `base`.
pub open spec fn derived_name(base: Seq<char>) -> Seq<char> {
    base + RESERVED_SUFFIX@
}

/// Whether a section of this name, if it has one, is offered for selection.
pub open spec fn offered(name: Option<Seq<char>>) -> bool {
    name matches Some(text) && selectable(text)
}

/// [`offered`] as a predicate.
pub open spec fn is_offered() -> spec_fn(Option<Seq<char>>) -> bool {
    |name: Option<Seq<char>>| offered(name)
}

/// The names among `names` that are offered for selection, in order and
/// each as often as it stands there.
pub open spec fn offered_names(names: Seq<Option<Seq<char>>>) -> Seq<Seq<char>> {
    names.filter(is_offered()).map_values(|name: Option<Seq<char>>| name->0)
}

/// Whether `listing` is what a document with these sections offers: its
/// selectable names, each as often as the document has it, in ascending
/// order.
pub open spec fn is_listing(listing: Seq<Seq<char>>, sections: Sections) -> bool {
    &&& ascending(listing)
    &&& listing.to_multiset() == offered_names(section_names(sections)).to_multiset()
}

/// `bytes` without the byte order mark that may precede them.
pub open spec fn without_mark(bytes: Seq<u8>) -> Seq<u8> {
    if bytes.len() >= 3 && bytes[0] == 0xEF && bytes[1] == 0xBB && bytes[2] == 0xBF {
        bytes.skip(3)
    } else {
        bytes
    }
}

/// The text of a file with these bytes; `None` where they are not UTF-8.
pub open spec fn file_text(bytes: Seq<u8>) -> Option<Seq<char>> {
    if valid_utf8(without_mark(bytes)) {
        Some(decode_utf8(without_mark(bytes)))
    } else {
        None
    }
}

/// The sections of a file with these bytes; `None` where the file is
/// malformed.
pub open spec fn file_sections(bytes: Seq<u8>) -> Option<Sections> {
    match file_text(bytes) {
        Some(text) => ini_parsed(text),
        None => None,
    }
}

/// `sections` with the three credentials set in the profile derived from
/// `base`.
pub open spec fn with_credentials(
    sections: Sections,
    base: Seq<char>,
    credentials: CredentialsView,
) -> Sections {
    let name = derived_name(base);
    let first = with_property(sections, name, "aws_access_key_id"@, credentials.access_key_id);
    let second = with_property(
        first,
        name,
        "aws_secret_access_key"@,
        credentials.secret_access_key,
    );
    with_property(second, name, "aws_session_token"@, credentials.session_token)
}

/// What writing the credentials for `base` guarantees of the sections
/// `after` it, given those `before` it: the derived profile is where its
/// first section was, or last where there was none; it holds each of the
/// three credentials, once, and under any other key what it held before;
/// every other section is where it was and as it was.
pub open spec fn credentials_stored(
    before: Sections,
    after: Sections,
    base: Seq<char>,
    credentials: CredentialsView,
) -> bool {
    let name = derived_name(base);
    let at = place_of(before, name);
    let held = held_at(before, at);
    &&& 0 <= at <= before.len()
    &&& after.len() == if at < before.len() {
        before.len()
    } else {
        before.len() + 1
    }
    &&& section_index(after, name) == Some(at)
    &&& after[at].0 == Some(name)
    &&& forall|i: int| 0 <= i < before.len() && i != at ==> after[i] == before[i]
    &&& values_of(after[at].1, "aws_access_key_id"@) == seq![credentials.access_key_id]
    &&& values_of(after[at].1, "aws_secret_access_key"@) == seq![credentials.secret_access_key]
    &&& values_of(after[at].1, "aws_session_token"@) == seq![credentials.session_token]
    &&& forall|key: Seq<char>|
        key != "aws_access_key_id"@ && key != "aws_secret_access_key"@ && key
            != "aws_session_token"@ ==> #[trigger] values_of(after[at].1, key) == values_of(
            held,
            key,
        )
}

/// Writing the credentials for `base` keeps what [`credentials_stored`]
/// says.
pub proof fn lemma_with_credentials(
    sections: Sections,
    base: Seq<char>,
    credentials: CredentialsView,
)
    ensures
        credentials_stored(
            sections,
            with_credentials(sections, base, credentials),
            base,
            credentials,
        ),
{
    let name = derived_name(base);
    let id = "aws_access_key_id"@;
    let secret = "aws_secret_access_key"@;
    let token = "aws_session_token"@;
    reveal_strlit("aws_access_key_id");
    reveal_strlit("aws_secret_access_key");
    reveal_strlit("aws_session_token");
    assert(id != secret && id != token && secret != token) by {
        assert(id[4] != token[4]);
        assert(secret[6] != token[6]);
    }
    let first = with_property(sections, name, id, credentials.access_key_id);
    let second = with_property(first, name, secret, credentials.secret_access_key);
    lemma_with_property(sections, name, id, credentials.access_key_id);
    lemma_with_property(first, name, secret, credentials.secret_access_key);
    lemma_with_property(second, name, token, credentials.session_token);
    let at = place_of(sections, name);
    let held = held_at(sections, at);
    let one = with_value(held, id, credentials.access_key_id);
    let two = with_value(one, secret, credentials.secret_access_key);
    lemma_with_value(held, id, credentials.access_key_id);
    lemma_with_value(one, secret, credentials.secret_access_key);
    lemma_with_value(two, token, credentials.session_token);
}

/// No name that ends as the derived profiles do is offered.
pub proof fn lemma_derived_name_not_selectable(base: Seq<char>)
    ensures
        !selectable(derived_name(base)),
{
    let name = derived_name(base);
    assert(name.subrange(name.len() - RESERVED_SUFFIX@.len(), name.len() as int)
        =~= RESERVED_SUFFIX@);
}

/// Names that are, one for one, the offered ones among `names` are all
/// selectable.
pub proof fn lemma_offered_names_are_selectable(
    listing: Seq<Seq<char>>,
    names: Seq<Option<Seq<char>>>,
)
    requires
        listing.to_multiset() == offered_names(names).to_multiset(),
    ensures
        forall|i: int| 0 <= i < listing.len() ==> selectable(#[trigger] listing[i]),
{
    let kept = names.filter(is_offered());
    assert forall|i: int| 0 <= i < listing.len() implies selectable(#[trigger] listing[i]) by {
        to_multiset_contains(listing, listing[i]);
        to_multiset_contains(offered_names(names), listing[i]);
        let k = choose|k: int| 0 <= k < kept.len() && offered_names(names)[k] == listing[i];
        names.lemma_filter_pred(is_offered(), k);
    }
}

/// The profile derived from `base` is in no listing, whatever the file
/// holds.
pub proof fn lemma_derived_profile_not_listed(
    listing: Seq<Seq<char>>,
    sections: Sections,
    base: Seq<char>,
)
    requires
        is_listing(listing, sections),
    ensures
        !listing.contains(derived_name(base)),
{
    lemma_derived_name_not_selectable(base);
    lemma_offered_names_are_selectable(listing, section_names(sections));
}

/// A document has one listing only.
pub proof fn lemma_listing_is_unique(
    first: Seq<Seq<char>>,
    second: Seq<Seq<char>>,
    sections: Sections,
)
    requires
        is_listing(first, sections),
        is_listing(second, sections),
    ensures
        first == second,
{
    lemma_ascending_is_unique(first, second);
}

/// Writing a profile and then listing the profiles of the file that was
/// written. Let `before` be the sections of the file, `after` those that the
/// written file reads as, and `listing` the profiles listed from it. Then
/// the listing is without the derived profile; and where the written file
/// reads as what was written, it holds the three credentials as
/// [`credentials_stored`] says.
pub proof fn lemma_write_then_list(
    before: Sections,
    base: Seq<char>,
    credentials: CredentialsView,
    after: Sections,
    listing: Seq<Seq<char>>,
)
    requires
        is_listing(listing, after),
    ensures
        !listing.contains(derived_name(base)),
        after == with_credentials(before, base, credentials) ==> credentials_stored(
            before,
            after,
            base,
            credentials,
        ),
{
    lemma_derived_profile_not_listed(listing, after, base);
    lemma_with_credentials(before, base, credentials);
}

/// A credentials file that was read.
pub struct Store {
    document: ini::Ini,
}

impl View for Store {
    type V = Sections;

    closed spec fn view(&self) -> Sections {
        ini_sections(self.document)
    }
}

impl Store {
    /// Reads the bytes of a credentials file. A byte order mark at the start
    /// is passed over. Bytes that are not UTF-8, or text that is no INI
    /// document, are a `ParseError`.
    pub fn read(content: &[u8]) -> (read: Result<Store, Failure>)
        ensures
            match read {
                Ok(store) => file_sections(content@) == Some(store@),
                Err(failure) => failure == Failure::ParseError && file_sections(content@) is None,
            },
    {
        let marked = content.len() >= 3 && content[0] == 0xEF && content[1] == 0xBB && content[2]
            == 0xBF;
        let body = if marked {
            &content[3..content.len()]
        } else {
            content
        };
        let text = match text_of(body) {
            Some(text) => text,
            None => {
                return Err(Failure::ParseError);
            },
        };
        proof {
            encode_utf8_decode_utf8(text@);
        }
        match ini_load(text) {
            Ok(document) => Ok(Store { document }),
            Err(_) => Err(Failure::ParseError),
        }
    }

    /// The profiles that can be chosen: the names of the sections, without
    /// those that end as the derived profiles do, in ascending order.
    pub fn profiles(&self) -> (names: Vec<String>)
        ensures
            is_listing(texts(names@), self@),
            ascending(texts(names@)),
            forall|i: int| 0 <= i < names.len() ==> selectable(#[trigger] names[i]@),
    {
        selectable_profiles(&ini_names(&self.document))
    }

    /// Sets the three credentials in the profile derived from `base`,
    /// which is made where the file has none. Nothing else changes.
    pub fn put_credentials(&mut self, base: &str, credentials: &Credentials)
        ensures
            final(self)@ == with_credentials(old(self)@, base@, credentials@),
            credentials_stored(old(self)@, final(self)@, base@, credentials@),
    {
        proof {
            lemma_with_credentials(self@, base@, credentials@);
        }
        let name = join(base, RESERVED_SUFFIX);
        ini_set(
            &mut self.document,
            name.as_str(),
            "aws_access_key_id",
            credentials.access_key_id.as_str(),
        );
        ini_set(
            &mut self.document,
            name.as_str(),
            "aws_secret_access_key",
            credentials.secret_access_key.as_str(),
        );
        ini_set(
            &mut self.document,
            name.as_str(),
            "aws_session_token",
            credentials.session_token.as_str(),
        );
    }

    /// The bytes of the file that holds these sections.
    pub fn write(&self) -> (bytes: Vec<u8>)
        ensures
            bytes@ == ini_written(self@),
    {
        ini_write(&self.document)
    }
}

/// The names among `names` that are offered for selection, in ascending
/// order.
pub fn selectable_profiles(names: &Vec<Option<String>>) -> (listing: Vec<String>)
    ensures
        ascending(texts(listing@)),
        texts(listing@).to_multiset() == offered_names(name_texts(names@)).to_multiset(),
        forall|i: int| 0 <= i < listing.len() ==> selectable(#[trigger] listing[i]@),
{
    let mut kept: Vec<String> = Vec::new();
    let mut i: usize = 0;
    while i < names.len()
        invariant
            i <= names.len(),
            texts(kept@) =~= offered_names(name_texts(names@.take(i as int))),
        decreases names.len() - i,
    {
        let ghost before = name_texts(names@.take(i as int));
        let ghost name = name_texts(names@)[i as int];
        proof {
            assert(name_texts(names@.take(i + 1)) =~= before.push(name));
            before.lemma_filter_push(name, is_offered());
        }
        match &names[i] {
            Some(text) => {
                if !ends_with(text.as_str(), RESERVED_SUFFIX) {
                    let ghost earlier = texts(kept@);
                    kept.push(text.clone());
                    assert(texts(kept@) =~= earlier.push(text@));
                }
            },
            None => {},
        }
        i += 1;
    }
    assert(names@.take(i as int) =~= names@);
    let listing = sort_names(&kept);
    proof {
        lemma_offered_names_are_selectable(texts(listing@), name_texts(names@));
        assert forall|i: int| 0 <= i < listing.len() implies selectable(
            #[trigger] listing[i]@,
        ) by {
            assert(texts(listing@)[i] == listing[i]@);
        }
    }
    listing
}

/// The profiles of the credentials file with these bytes that can be
/// chosen, in ascending order: the names of its sections, each as often as
/// the file has it, without those that end as the derived profiles do.
pub fn list_profiles(content: &[u8]) -> (profiles: Result<Vec<String>, Failure>)
    ensures
        match profiles {
            Ok(names) => {
                &&& file_sections(content@) matches Some(sections) && is_listing(
                    texts(names@),
                    sections,
                )
                &&& ascending(texts(names@))
                &&& forall|i: int| 0 <= i < names.len() ==> selectable(#[trigger] names[i]@)
            },
            Err(failure) => failure == Failure::ParseError && file_sections(content@) is None,
        },
{
    match Store::read(content) {
        Ok(store) => Ok(store.profiles()),
        Err(failure) => Err(failure),
    }
}

/// The bytes of the credentials file after the session credentials for
/// `base` were written into the file with the bytes `content`.
pub fn write_profile(content: &[u8], base: &str, credentials: &Credentials) -> (written: Result<
    Vec<u8>,
    Failure,
>)
    ensures
        match written {
            Ok(bytes) => file_sections(content@) matches Some(sections) && bytes@ == ini_written(
                with_credentials(sections, base@, credentials@),
            ),
            Err(failure) => failure == Failure::ParseError && file_sections(content@) is None,
        },
{
    match Store::read(content) {
        Ok(store) => {
            let mut store = store;
            store.put_credentials(base, credentials);
            Ok(store.write())
        },
        Err(failure) => Err(failure),
    }
}

} // verus!

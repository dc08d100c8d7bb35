//! The order of names, and sorting by it.
//!
//! Names are ordered as their UTF-8 encodings are, byte by byte: the order
//! that the standard library gives to strings.

use vstd::prelude::*;
use vstd::relations::{sorted_by, total_ordering};
use vstd::seq_lib::{lemma_sorted_unique, to_multiset_build, to_multiset_insert};
use vstd::utf8::{encode_utf8, encode_utf8_decode_utf8};

use crate::text::texts;

verus! {

/// Whether `a` comes no later than `b` when both are read from index `from`
/// on: the first differing byte decides, and a sequence that ends first
/// comes first.
pub open spec fn bytes_le_from(a: Seq<u8>, b: Seq<u8>, from: int) -> bool
    decreases a.len() - from,
{
    if from >= a.len() {
        true
    } else if from >= b.len() {
        false
    } else if a[from] != b[from] {
        a[from] < b[from]
    } else {
        bytes_le_from(a, b, from + 1)
    }
}

/// Whether the name `a` comes no later than the name `b`.
pub open spec fn name_le(a: Seq<char>, b: Seq<char>) -> bool {
    bytes_le_from(encode_utf8(a), encode_utf8(b), 0)
}

/// Whether every name comes no later than each name after it.
pub open spec fn ascending(names: Seq<Seq<char>>) -> bool {
    forall|i: int, j: int| 0 <= i <= j < names.len() ==> name_le(names[i], names[j])
}

/// Of two byte sequences, one comes no later than the other.
pub proof fn lemma_bytes_le_total(a: Seq<u8>, b: Seq<u8>, from: int)
    requires
        0 <= from,
    ensures
        bytes_le_from(a, b, from) || bytes_le_from(b, a, from),
    decreases a.len() - from,
{
    if from < a.len() && from < b.len() && a[from] == b[from] {
        lemma_bytes_le_total(a, b, from + 1);
    }
}

/// The order of byte sequences is transitive.
pub proof fn lemma_bytes_le_transitive(a: Seq<u8>, b: Seq<u8>, c: Seq<u8>, from: int)
    requires
        0 <= from,
        bytes_le_from(a, b, from),
        bytes_le_from(b, c, from),
    ensures
        bytes_le_from(a, c, from),
    decreases a.len() - from,
{
    if from < a.len() && a[from] == b[from] && b[from] == c[from] {
        lemma_bytes_le_transitive(a, b, c, from + 1);
    }
}

/// Two byte sequences of which each comes no later than the other are the
/// same from `from` on.
pub proof fn lemma_bytes_le_antisymmetric(a: Seq<u8>, b: Seq<u8>, from: int)
    requires
        0 <= from <= a.len(),
        from <= b.len(),
        bytes_le_from(a, b, from),
        bytes_le_from(b, a, from),
    ensures
        a.len() == b.len(),
        forall|i: int| from <= i < a.len() ==> a[i] == b[i],
    decreases a.len() - from,
{
    if from < a.len() {
        lemma_bytes_le_antisymmetric(a, b, from + 1);
    }
}

/// The order of names is total: of two names one comes no later than the
/// other, and only a name itself comes both no later and no earlier than it.
pub proof fn lemma_name_le_is_total_order()
    ensures
        total_ordering(|a: Seq<char>, b: Seq<char>| name_le(a, b)),
{
    let le = |a: Seq<char>, b: Seq<char>| name_le(a, b);
    assert forall|a: Seq<char>| #[trigger] le(a, a) by {
        lemma_name_le_reflexive(a);
    }
    assert forall|a: Seq<char>, b: Seq<char>| #[trigger] le(a, b) && #[trigger] le(b, a) implies a
        == b by {
        lemma_bytes_le_antisymmetric(encode_utf8(a), encode_utf8(b), 0);
        assert(encode_utf8(a) =~= encode_utf8(b));
        encode_utf8_decode_utf8(a);
        encode_utf8_decode_utf8(b);
    }
    assert forall|a: Seq<char>, b: Seq<char>, c: Seq<char>| #[trigger] le(a, b) && #[trigger] le(
        b,
        c,
    ) implies le(a, c) by {
        lemma_bytes_le_transitive(encode_utf8(a), encode_utf8(b), encode_utf8(c), 0);
    }
    assert forall|a: Seq<char>, b: Seq<char>| #[trigger] le(a, b) || #[trigger] le(b, a) by {
        lemma_bytes_le_total(encode_utf8(a), encode_utf8(b), 0);
    }
}

/// Names in ascending order are in one order only: two ascending sequences
/// that hold the same names, each as often, are the same sequence.
pub proof fn lemma_ascending_is_unique(first: Seq<Seq<char>>, second: Seq<Seq<char>>)
    requires
        ascending(first),
        ascending(second),
        first.to_multiset() == second.to_multiset(),
    ensures
        first == second,
{
    let le = |a: Seq<char>, b: Seq<char>| name_le(a, b);
    lemma_name_le_is_total_order();
    lemma_sorted_unique(first, second, le);
}

/// Every name comes no later than itself.
pub proof fn lemma_name_le_reflexive(a: Seq<char>)
    ensures
        name_le(a, a),
{
    lemma_bytes_le_reflexive(encode_utf8(a), 0);
}

proof fn lemma_bytes_le_reflexive(a: Seq<u8>, from: int)
    requires
        0 <= from,
    ensures
        bytes_le_from(a, a, from),
    decreases a.len() - from,
{
    if from < a.len() {
        lemma_bytes_le_reflexive(a, from + 1);
    }
}

/// Whether the name `a` comes no later than the name `b`.
pub fn name_precedes(a: &str, b: &str) -> (le: bool)
    ensures
        le == name_le(a@, b@),
{
    let x = a.as_bytes();
    let y = b.as_bytes();
    let mut i: usize = 0;
    while i < x.len() && i < y.len()
        invariant
            i <= x.len(),
            i <= y.len(),
            x@ == encode_utf8(a@),
            y@ == encode_utf8(b@),
            bytes_le_from(x@, y@, 0) == bytes_le_from(x@, y@, i as int),
        decreases x.len() - i,
    {
        if x[i] != y[i] {
            return x[i] < y[i];
        }
        i += 1;
    }
    i >= x.len()
}

/// The names of `names`, each as often as it stands there, in ascending order.
pub fn sort_names(names: &Vec<String>) -> (sorted: Vec<String>)
    ensures
        ascending(texts(sorted@)),
        texts(sorted@).to_multiset() == texts(names@).to_multiset(),
{
    let mut sorted: Vec<String> = Vec::new();
    let mut i: usize = 0;
    assert(texts(names@.take(0)) =~= texts(sorted@));
    while i < names.len()
        invariant
            i <= names.len(),
            ascending(texts(sorted@)),
            texts(sorted@).to_multiset() == texts(names@.take(i as int)).to_multiset(),
        decreases names.len() - i,
    {
        let name = names[i].clone();
        let mut at: usize = 0;
        while at < sorted.len() && name_precedes(sorted[at].as_str(), name.as_str())
            invariant
                at <= sorted.len(),
                forall|k: int| 0 <= k < at ==> name_le(#[trigger] sorted@[k]@, name@),
            decreases sorted.len() - at,
        {
            at += 1;
        }
        let ghost before = texts(sorted@);
        sorted.insert(at, name);
        proof {
            let after = texts(sorted@);
            assert(after =~= before.insert(at as int, name@));
            assert forall|p: int, q: int| 0 <= p <= q < after.len() implies name_le(
                after[p],
                after[q],
            ) by {
                if p == q {
                    lemma_name_le_reflexive(after[p]);
                } else if p == at {
                    let next = encode_utf8(before[at as int]);
                    lemma_bytes_le_total(next, encode_utf8(name@), 0);
                    assert(name_le(before[at as int], before[q - 1]));
                    lemma_bytes_le_transitive(
                        encode_utf8(name@),
                        next,
                        encode_utf8(before[q - 1]),
                        0,
                    );
                }
            }
            to_multiset_insert(before, at as int, name@);
            assert(texts(names@.take(i + 1)) =~= texts(names@.take(i as int)).push(name@));
            to_multiset_build(texts(names@.take(i as int)), name@);
        }
        i += 1;
    }
    assert(names@.take(i as int) =~= names@);
    sorted
}

} // verus!

//! Strings as sequences of characters: reading them, testing an ending,
//! joining two of them.

use vstd::prelude::*;
use vstd::string::StringExecFns;

verus! {

/// The texts that a sequence of strings holds, each by its characters.
pub open spec fn texts(strings: Seq<String>) -> Seq<Seq<char>> {
    strings.map_values(|text: String| text@)
}

/// The characters of `text`, in order.
pub fn chars_of(text: &str) -> (chars: Vec<char>)
    ensures
        chars@ == text@,
{
    let mut chars: Vec<char> = Vec::new();
    for c in it: text.chars()
        invariant
            it.seq() == text@,
            chars@ == text@.take(it.index()),
    {
        chars.push(c);
    }
    chars
}

/// Whether `text` ends with `tail`.
pub fn ends_with(text: &str, tail: &str) -> (found: bool)
    ensures
        found == tail@.is_suffix_of(text@),
{
    let whole = chars_of(text);
    let end = chars_of(tail);
    if end.len() > whole.len() {
        return false;
    }
    let shift: usize = whole.len() - end.len();
    let mut i: usize = 0;
    while i < end.len()
        invariant
            i <= end.len(),
            shift + end.len() == whole.len(),
            whole@ == text@,
            end@ == tail@,
            forall|k: int| 0 <= k < i ==> whole@[shift + k] == end@[k],
        decreases end.len() - i,
    {
        if whole[shift + i] != end[i] {
            return false;
        }
        i += 1;
    }
    true
}

/// `head` followed by `tail`.
pub fn join(head: &str, tail: &str) -> (joined: String)
    ensures
        joined@ == head@ + tail@,
{
    let mut joined = String::from_str(head);
    joined.append(tail);
    joined
}

} // verus!

//! The selection list: a cursor over a list of options, moved by keys.
//!
//! The cursor starts on the first option. Moving down from the last option
//! leads to the first, moving up from the first leads to the last. Reading
//! keys and drawing the list is the caller's part: it hands each key to
//! [`Selector::press`] and does what the reply says.

use vstd::prelude::*;

use crate::text::{join, texts};

verus! {

/// A key, as far as the list tells keys apart.
#[derive(Clone, Copy, Debug, PartialEq, Eq, Structural)]
pub enum Key {
    /// Move the cursor to the option before.
    Up,
    /// Move the cursor to the option after.
    Down,
    /// Take the option under the cursor.
    Confirm,
    /// Leave without an option.
    Cancel,
    /// Any other key.
    Other,
}

/// What the caller does after a key.
#[derive(Clone, Copy, Debug, PartialEq, Eq, Structural)]
pub enum Reply {
    /// Nothing changed: wait for the next key.
    Wait,
    /// The cursor moved: erase the list and draw it again.
    Redraw,
    /// The option at this index was taken: the interaction is over.
    Chosen(usize),
    /// The interaction is over and no option was taken.
    Cancelled,
}

/// Where the cursor stands after `key`, in a list of `count` options.
pub open spec fn moved(count: nat, cursor: nat, key: Key) -> nat {
    match key {
        Key::Down => if cursor + 1 >= count {
            0
        } else {
            cursor + 1
        },
        Key::Up => if cursor == 0 {
            (count - 1) as nat
        } else {
            (cursor - 1) as nat
        },
        _ => cursor,
    }
}

/// What is answered to `key` with the cursor at `cursor`, in a list of
/// `count` options.
pub open spec fn reply_to(count: nat, cursor: nat, key: Key) -> Reply {
    match key {
        Key::Confirm => Reply::Chosen(cursor as usize),
        Key::Cancel => Reply::Cancelled,
        _ => if moved(count, cursor, key) == cursor {
            Reply::Wait
        } else {
            Reply::Redraw
        },
    }
}

/// The index taken when the keys from index `from` on are pressed in order,
/// with the cursor at `cursor`: that under the cursor at the first
/// `Confirm`. No index is taken where `Cancel` comes first or the keys end
/// before either.
pub open spec fn taken_from(count: nat, cursor: nat, keys: Seq<Key>, from: int) -> Option<nat>
    decreases keys.len() - from,
{
    if from < 0 || from >= keys.len() {
        None
    } else {
        match keys[from] {
            Key::Confirm => Some(cursor),
            Key::Cancel => None,
            key => taken_from(count, moved(count, cursor, key), keys, from + 1),
        }
    }
}

/// The index taken in a list of `count` options when `keys` are pressed in
/// order.
pub open spec fn taken(count: nat, keys: Seq<Key>) -> Option<nat> {
    if count == 0 {
        None
    } else {
        taken_from(count, 0, keys, 0)
    }
}

/// The line drawn for `option`: marked where the cursor is on it.
pub open spec fn line_of(option: Seq<char>, current: bool) -> Seq<char> {
    if current {
        "> "@ + option
    } else {
        "  "@ + option
    }
}

/// What a [`Selector`] stands for: its options and the index under the
/// cursor.
pub struct SelectorView {
    pub options: Seq<Seq<char>>,
    pub cursor: nat,
}

/// A list of options with a cursor on one of them.
pub struct Selector {
    options: Vec<String>,
    cursor: usize,
}

impl View for Selector {
    type V = SelectorView;

    closed spec fn view(&self) -> SelectorView {
        SelectorView { options: texts(self.options@), cursor: self.cursor as nat }
    }
}

impl Selector {
    #[verifier::type_invariant]
    spec fn cursor_on_an_option(self) -> bool {
        self.cursor < self.options.len()
    }

    /// A list of `options` with the cursor on the first; `None` where there
    /// is no option.
    pub fn new(options: Vec<String>) -> (made: Option<Selector>)
        ensures
            options.len() == 0 <==> made is None,
            made matches Some(selector) ==> selector@.options == texts(options@)
                && selector@.cursor == 0,
    {
        if options.len() == 0 {
            None
        } else {
            Some(Selector { options, cursor: 0 })
        }
    }

    /// The number of options, which is not zero.
    pub fn len(&self) -> (count: usize)
        ensures
            count == self@.options.len(),
            count > 0,
    {
        proof {
            use_type_invariant(self);
        }
        self.options.len()
    }

    /// The index under the cursor.
    pub fn cursor(&self) -> (cursor: usize)
        ensures
            cursor == self@.cursor,
            cursor < self@.options.len(),
    {
        proof {
            use_type_invariant(self);
        }
        self.cursor
    }

    /// The option under the cursor.
    pub fn current(&self) -> (option: &String)
        ensures
            self@.cursor < self@.options.len(),
            option@ == self@.options[self@.cursor as int],
    {
        proof {
            use_type_invariant(self);
        }
        &self.options[self.cursor]
    }

    /// Takes one key: moves the cursor as [`moved`] says and answers as
    /// [`reply_to`] says. The options stay as they are.
    pub fn press(&mut self, key: Key) -> (reply: Reply)
        ensures
            final(self)@.options == old(self)@.options,
            final(self)@.cursor == moved(old(self)@.options.len(), old(self)@.cursor, key),
            final(self)@.cursor < final(self)@.options.len(),
            reply == reply_to(old(self)@.options.len(), old(self)@.cursor, key),
    {
        proof {
            use_type_invariant(&*self);
        }
        let count = self.options.len();
        let before = self.cursor;
        match key {
            Key::Down => {
                self.cursor = if before == count - 1 {
                    0
                } else {
                    before + 1
                };
            },
            Key::Up => {
                self.cursor = if before == 0 {
                    count - 1
                } else {
                    before - 1
                };
            },
            Key::Confirm => {
                return Reply::Chosen(before);
            },
            Key::Cancel => {
                return Reply::Cancelled;
            },
            Key::Other => {},
        }
        if self.cursor == before {
            Reply::Wait
        } else {
            Reply::Redraw
        }
    }

    /// The lines to draw, one for each option in order; the one under the
    /// cursor is marked.
    pub fn lines(&self) -> (lines: Vec<String>)
        ensures
            lines.len() == self@.options.len(),
            forall|i: int|
                0 <= i < lines.len() ==> #[trigger] lines[i]@ == line_of(
                    self@.options[i],
                    i == self@.cursor,
                ),
    {
        let mut lines: Vec<String> = Vec::new();
        let mut i: usize = 0;
        while i < self.options.len()
            invariant
                i <= self.options.len(),
                lines.len() == i,
                forall|k: int|
                    0 <= k < i ==> #[trigger] lines[k]@ == line_of(
                        self.options[k]@,
                        k == self.cursor,
                    ),
            decreases self.options.len() - i,
        {
            let mark = if i == self.cursor {
                "> "
            } else {
                "  "
            };
            lines.push(join(mark, self.options[i].as_str()));
            i += 1;
        }
        lines
    }
}

/// Presses `keys` in order on a list of `options` and gives the option
/// that was taken: the one under the cursor at the first `Confirm`. `None`
/// where there is no option, where `Cancel` comes before any `Confirm`, or
/// where the keys end before either.
pub fn select<'a>(options: &'a Vec<String>, keys: &Vec<Key>) -> (choice: Option<&'a String>)
    ensures
        match choice {
            Some(option) => taken(options@.len(), keys@) matches Some(index) && index
                < options.len() && *option == options[index as int],
            None => taken(options@.len(), keys@) is None,
        },
{
    let count = options.len();
    if count == 0 {
        return None;
    }
    let mut cursor: usize = 0;
    let mut i: usize = 0;
    while i < keys.len()
        invariant
            i <= keys.len(),
            count == options.len(),
            cursor < count,
            taken(count as nat, keys@) == taken_from(count as nat, cursor as nat, keys@, i as int),
        decreases keys.len() - i,
    {
        match keys[i] {
            Key::Confirm => {
                return Some(&options[cursor]);
            },
            Key::Cancel => {
                return None;
            },
            Key::Down => {
                cursor = if cursor == count - 1 {
                    0
                } else {
                    cursor + 1
                };
            },
            Key::Up => {
                cursor = if cursor == 0 {
                    count - 1
                } else {
                    cursor - 1
                };
            },
            Key::Other => {},
        }
        i += 1;
    }
    None
}

/// In a list that is not empty, the index that is taken is that of an
/// option.
pub proof fn lemma_taken_is_an_option(count: nat, keys: Seq<Key>)
    requires
        count > 0,
    ensures
        taken(count, keys) matches Some(index) ==> index < count,
{
    lemma_taken_from_is_an_option(count, 0, keys, 0);
}

proof fn lemma_taken_from_is_an_option(count: nat, cursor: nat, keys: Seq<Key>, from: int)
    requires
        cursor < count,
    ensures
        taken_from(count, cursor, keys, from) matches Some(index) ==> index < count,
    decreases keys.len() - from,
{
    if 0 <= from < keys.len() && keys[from] != Key::Confirm && keys[from] != Key::Cancel {
        lemma_taken_from_is_an_option(count, moved(count, cursor, keys[from]), keys, from + 1);
    }
}

/// `Confirm` as the first key takes the first option, whatever follows: a
/// list of one option needs no other key.
pub proof fn lemma_confirm_takes_first(count: nat, keys: Seq<Key>)
    requires
        count > 0,
        keys.len() > 0,
        keys[0] == Key::Confirm,
    ensures
        taken(count, keys) == Some(0nat),
{
}

/// The cursor goes around: down from the last option leads to the first,
/// up from the first leads to the last. Elsewhere it moves by one, and it
/// always stays on an option.
pub proof fn lemma_cursor_wraps(count: nat, cursor: nat)
    requires
        cursor < count,
    ensures
        moved(count, (count - 1) as nat, Key::Down) == 0,
        moved(count, 0, Key::Up) == count - 1,
        cursor + 1 < count ==> moved(count, cursor, Key::Down) == cursor + 1,
        cursor > 0 ==> moved(count, cursor, Key::Up) == cursor - 1,
        moved(count, cursor, Key::Down) < count,
        moved(count, cursor, Key::Up) < count,
        moved(count, moved(count, cursor, Key::Down), Key::Up) == cursor,
        moved(count, moved(count, cursor, Key::Up), Key::Down) == cursor,
{
}

} // verus!

//! An editable line of text with a caret counted in characters, never in bytes.

use vstd::prelude::*;
use vstd::string::*;
use vstd::utf8::*;

use crate::keys::{EventState, KeyCode, KeyEvent, KeyModifiers};
use crate::strings::{lemma_encode_utf8_concat, push_char, utf8_width};

verus! {

/// The text after typing `c` at caret position `k`.
pub open spec fn text_inserted(t: Seq<char>, k: int, c: char) -> Seq<char> {
    t.take(k) + seq![c] + t.skip(k)
}

/// The text after removing the character before caret position `k` (nothing at the start).
pub open spec fn text_deleted(t: Seq<char>, k: int) -> Seq<char> {
    if k == 0 {
        t
    } else {
        t.take(k - 1) + t.skip(k)
    }
}

/// The caret after deleting backward from caret position `k`.
pub open spec fn cursor_deleted(k: int) -> int {
    if k == 0 {
        0
    } else {
        k - 1
    }
}

/// `pos` limited to the range `[0, len]`.
pub open spec fn clamped(pos: int, len: int) -> int {
    if pos > len {
        len
    } else {
        pos
    }
}

/// A text field: its characters and a caret between `0` and the number of characters.
pub struct FilterComponent {
    value: String,
    character_index: usize,
}

impl FilterComponent {
    #[verifier::type_invariant]
    spec fn caret_in_text(self) -> bool {
        self.character_index <= self.value@.len()
    }

    /// The characters of the text.
    pub closed spec fn text(&self) -> Seq<char> {
        self.value@
    }

    /// The caret, as a number of characters before it.
    pub closed spec fn cursor(&self) -> int {
        self.character_index as int
    }

    /// An empty text with the caret at its start.
    pub fn default() -> (r: Self)
        ensures
            r.text() == Seq::<char>::empty(),
            r.cursor() == 0,
    {
        FilterComponent { value: String::new(), character_index: 0 }
    }

    /// The current text.
    pub fn value(&self) -> (r: &String)
        ensures
            r@ == self.text(),
    {
        &self.value
    }

    /// The caret position in characters.
    pub fn character_index(&self) -> (r: usize)
        ensures
            r == self.cursor(),
            r <= self.text().len(),
    {
        proof {
            use_type_invariant(self);
        }
        self.character_index
    }

    /// `new_cursor_pos` limited to the positions that the text has.
    pub fn clamp_cursor(&self, new_cursor_pos: usize) -> (r: usize)
        ensures
            r == clamped(new_cursor_pos as int, self.text().len() as int),
    {
        let n = self.value.as_str().unicode_len();
        if new_cursor_pos > n {
            n
        } else {
            new_cursor_pos
        }
    }

    /// Moves the caret one character to the right, staying within the text.
    pub fn move_filter_cursor_right(&mut self)
        ensures
            final(self).text() == old(self).text(),
            final(self).cursor() == clamped(old(self).cursor() + 1, old(self).text().len() as int),
            0 <= final(self).cursor() <= final(self).text().len(),
    {
        proof {
            use_type_invariant(&*self);
        }
        let n = self.value.as_str().unicode_len();
        let moved = self.character_index.saturating_add(1);
        self.character_index = if moved > n {
            n
        } else {
            moved
        };
    }

    /// Moves the caret one character to the left, staying within the text.
    pub fn move_cursor_left(&mut self)
        ensures
            final(self).text() == old(self).text(),
            final(self).cursor() == if old(self).cursor() == 0 {
                0
            } else {
                old(self).cursor() - 1
            },
            0 <= final(self).cursor() <= final(self).text().len(),
    {
        proof {
            use_type_invariant(&*self);
        }
        let moved = self.character_index.saturating_sub(1);
        self.character_index = self.clamp_cursor(moved);
    }

    /// The byte offset in the UTF-8 text at which the caret stands.
    pub fn byte_index(&self) -> (r: usize)
        ensures
            r == encode_utf8(self.text().take(self.cursor())).len(),
    {
        proof {
            use_type_invariant(self);
        }
        let s = self.value.as_str();
        let total = s.as_bytes().len();
        let k = self.character_index;
        let mut i: usize = 0;
        let mut bytes: usize = 0;
        proof {
            assert(self.value@.take(0) =~= Seq::<char>::empty());
        }
        while i < k
            invariant
                k == self.cursor(),
                k <= s@.len(),
                s@ == self.text(),
                i <= k,
                bytes == encode_utf8(s@.take(i as int)).len(),
                total == encode_utf8(s@).len(),
            decreases k - i,
        {
            let c = s.get_char(i);
            let w = utf8_width(c);
            proof {
                assert(s@.take(i + 1) =~= s@.take(i as int) + seq![c]);
                lemma_encode_utf8_concat(s@.take(i as int), seq![c]);
                assert(seq![c].drop_first() =~= Seq::<char>::empty());
                reveal_with_fuel(encode_utf8, 2);
                assert(seq![c][0] == c);
                assert(encode_utf8(seq![c]) =~= encode_scalar(c as u32));
                assert(s@ =~= s@.take(i + 1) + s@.skip(i + 1));
                lemma_encode_utf8_concat(s@.take(i + 1), s@.skip(i + 1));
                assert(s.spec_bytes() == encode_utf8(s@));
            }
            bytes = bytes + w;
            i = i + 1;
        }
        bytes
    }

    /// Types `new_char` at the caret, which then stands after it.
    pub fn enter_char(&mut self, new_char: char)
        ensures
            final(self).text() == text_inserted(old(self).text(), old(self).cursor(), new_char),
            final(self).cursor() == old(self).cursor() + 1,
            0 <= final(self).cursor() <= final(self).text().len(),
    {
        proof {
            use_type_invariant(&*self);
        }
        let s = self.value.as_str();
        let n = s.unicode_len();
        let k = self.character_index;
        let before = s.substring_char(0, k);
        let after = s.substring_char(k, n);
        let mut text = String::from_str(before);
        push_char(&mut text, new_char);
        text.append(after);
        proof {
            assert(s@.subrange(0, k as int) =~= s@.take(k as int));
            assert(s@.subrange(k as int, n as int) =~= s@.skip(k as int));
        }
        self.value = text;
        self.move_filter_cursor_right();
    }

    /// Removes the character before the caret, which moves back by one;
    /// nothing happens with the caret at the start.
    pub fn delete_char(&mut self)
        ensures
            final(self).text() == text_deleted(old(self).text(), old(self).cursor()),
            final(self).cursor() == cursor_deleted(old(self).cursor()),
            0 <= final(self).cursor() <= final(self).text().len(),
    {
        proof {
            use_type_invariant(&*self);
        }
        if self.character_index != 0 {
            let s = self.value.as_str();
            let n = s.unicode_len();
            let k = self.character_index;
            let before = s.substring_char(0, k - 1);
            let after = s.substring_char(k, n);
            let mut text = String::from_str(before);
            text.append(after);
            proof {
                assert(s@.subrange(0, k - 1) =~= s@.take(k - 1));
                assert(s@.subrange(k as int, n as int) =~= s@.skip(k as int));
            }
            self.move_cursor_left();
            self.value = text;
        }
    }

    /// Edits the text on a plain key: Backspace deletes, a character is typed.
    /// Any key pressed with Control alone, and any other key, is left to the caller.
    pub fn handle_key(&mut self, key: KeyEvent) -> (r: EventState)
        ensures
            r == filter_key_outcome(key),
            r != EventState::Consumed ==> *final(self) == *old(self),
            final(self).text() == key_text(key, old(self).text(), old(self).cursor()),
            final(self).cursor() == key_cursor(key, old(self).text(), old(self).cursor()),
            0 <= final(self).cursor() <= final(self).text().len(),
    {
        proof {
            use_type_invariant(&*self);
        }
        if key.modifiers == KeyModifiers::Control {
            return EventState::NotConsumed;
        }
        match key.code {
            KeyCode::Backspace => {
                self.delete_char();
            },
            KeyCode::Char(c) => {
                self.enter_char(c);
            },
            _ => {
                return EventState::NotConsumed;
            },
        }
        EventState::Consumed
    }
}

/// Whether a text field uses `key`: Backspace and characters, unless Control alone is held.
pub open spec fn filter_key_outcome(key: KeyEvent) -> EventState {
    if key.modifiers == KeyModifiers::Control {
        EventState::NotConsumed
    } else {
        match key.code {
            KeyCode::Backspace => EventState::Consumed,
            KeyCode::Char(_) => EventState::Consumed,
            _ => EventState::NotConsumed,
        }
    }
}

/// The text after a text field has handled `key`.
pub open spec fn key_text(key: KeyEvent, t: Seq<char>, k: int) -> Seq<char> {
    if filter_key_outcome(key) != EventState::Consumed {
        t
    } else {
        match key.code {
            KeyCode::Char(c) => text_inserted(t, k, c),
            _ => text_deleted(t, k),
        }
    }
}

/// The caret after a text field has handled `key`.
pub open spec fn key_cursor(key: KeyEvent, t: Seq<char>, k: int) -> int {
    if filter_key_outcome(key) != EventState::Consumed {
        k
    } else {
        match key.code {
            KeyCode::Char(_) => k + 1,
            _ => if k == 0 {
                0
            } else {
                k - 1
            },
        }
    }
}

/// Typing a character and then deleting backward restores the text and the caret.
pub proof fn lemma_insert_then_delete(t: Seq<char>, k: int, c: char)
    requires
        0 <= k <= t.len(),
    ensures
        text_deleted(text_inserted(t, k, c), k + 1) == t,
        cursor_deleted(k + 1) == k,
{
    let u = text_inserted(t, k, c);
    assert(u.take(k) =~= t.take(k));
    assert(u.skip(k + 1) =~= t.skip(k));
    assert(t.take(k) + t.skip(k) =~= t);
}

} // verus!

//! The line being edited: its characters and a cursor between them.
use vstd::prelude::*;
use vstd::slice::slice_to_vec;

use crate::actions::{Direction, Range, Scope};
use crate::prompt::navigation::{
    is_next_word, is_previous_word, is_previous_word_end, next_codepoint, next_codepoint_spec,
    next_word, previous_codepoint, previous_codepoint_spec, previous_word, previous_word_end,
    word_bounds_of,
};
use crate::Context;

verus! {

/// Relies on `String`'s `FromIterator<&char>`: the string of the given characters.
#[verifier::external_body]
pub(crate) fn text_of(chars: &[char]) -> (r: String)
    ensures
        r@ == chars@,
{
    chars.iter().collect()
}

/// The span `[from, to)` that a deletion of `scope` removes from `text` with
/// the cursor at `cursor`.
pub open spec fn deletion_span(text: Seq<char>, cursor: int, scope: Scope, from: int, to: int) -> bool {
    let len = text.len() as int;
    let words = word_bounds_of(text);
    match scope {
        Scope::Relative(Range::Single, Direction::Backward) => from == previous_codepoint_spec(
            cursor,
        ) && to == cursor,
        Scope::Relative(Range::Single, Direction::Forward) => from == cursor && to
            == next_codepoint_spec(len, cursor),
        Scope::Relative(Range::Word, Direction::Backward) => is_previous_word(words, cursor, from)
            && to == cursor,
        Scope::Relative(Range::Word, Direction::Forward) => from == cursor && is_next_word(
            words,
            cursor,
            to,
        ),
        Scope::Relative(Range::Line, Direction::Backward) => from == 0 && to == cursor,
        Scope::Relative(Range::Line, Direction::Forward) => from == cursor && to == len,
        Scope::WholeWord => is_previous_word_end(words, cursor, from) && is_next_word(
            words,
            cursor,
            to,
        ),
        Scope::WholeLine => from == 0 && to == len,
    }
}

/// Where a move over `range` in `direction` takes the cursor from `cursor`.
pub open spec fn move_target(
    text: Seq<char>,
    cursor: int,
    range: Range,
    direction: Direction,
    to: int,
) -> bool {
    let len = text.len() as int;
    let words = word_bounds_of(text);
    match (range, direction) {
        (Range::Single, Direction::Forward) => to == next_codepoint_spec(len, cursor),
        (Range::Single, Direction::Backward) => to == previous_codepoint_spec(cursor),
        (Range::Word, Direction::Forward) => is_next_word(words, cursor, to),
        (Range::Word, Direction::Backward) => is_previous_word(words, cursor, to),
        (Range::Line, Direction::Forward) => to == len,
        (Range::Line, Direction::Backward) => to == 0,
    }
}

/// The characters of `text` with `[from, to)` taken out.
pub open spec fn cut_spec(text: Seq<char>, from: int, to: int) -> Seq<char> {
    text.subrange(0, from) + text.subrange(to, text.len() as int)
}

/// A line of characters and a cursor, which never lies past the end.
pub struct Buffer {
    chars: Vec<char>,
    cursor: usize,
}

impl Buffer {
    /// The characters of the line.
    pub closed spec fn text(&self) -> Seq<char> {
        self.chars@
    }

    /// The cursor, as a codepoint position.
    pub closed spec fn position(&self) -> int {
        self.cursor as int
    }

    #[verifier::type_invariant]
    spec fn cursor_in_line(&self) -> bool {
        self.cursor <= self.chars@.len()
    }

    /// An empty line.
    pub fn new() -> (r: Buffer)
        ensures
            r.text() == Seq::<char>::empty(),
            r.position() == 0,
    {
        Buffer { chars: Vec::new(), cursor: 0 }
    }

    /// The characters of the line.
    pub fn chars(&self) -> (r: &[char])
        ensures
            r@ == self.text(),
    {
        self.chars.as_slice()
    }

    /// The cursor position.
    pub fn cursor(&self) -> (r: usize)
        ensures
            r == self.position(),
            r <= self.text().len(),
    {
        proof {
            use_type_invariant(self);
        }
        self.cursor
    }

    /// A read-only view of the line and its cursor.
    pub fn context(&self) -> (r: Context<'_>)
        ensures
            r.text() == self.text(),
            r.position() == self.position(),
    {
        proof {
            use_type_invariant(self);
        }
        Context::new(self.chars.as_slice(), self.cursor)
    }

    /// The line as a string.
    pub fn to_string(&self) -> (r: String)
        ensures
            r@ == self.text(),
    {
        text_of(self.chars.as_slice())
    }

    /// Inserts `c` at the cursor and moves the cursor past it.
    pub fn write(&mut self, c: char)
        ensures
            final(self).text() == old(self).text().insert(old(self).position(), c),
            final(self).position() == old(self).position() + 1,
    {
        proof {
            use_type_invariant(&*self);
        }
        let mut chars = slice_to_vec(self.chars.as_slice());
        chars.insert(self.cursor, c);
        let len = chars.len();
        *self = Buffer { chars, cursor: self.cursor + 1 };
    }

    /// Appends `tail` to the line and puts the cursor at the new end.
    pub fn append(&mut self, tail: &[char])
        ensures
            final(self).text() == old(self).text() + tail@,
            final(self).position() == final(self).text().len(),
    {
        let mut chars = slice_to_vec(self.chars.as_slice());
        let mut i: usize = 0;
        while i < tail.len()
            invariant
                i <= tail@.len(),
                chars@ == self.chars@ + tail@.subrange(0, i as int),
            decreases tail.len() - i,
        {
            chars.push(tail[i]);
            i = i + 1;
        }
        let cursor = chars.len();
        *self = Buffer { chars, cursor };
    }

    /// Replaces the whole line with `contents` and puts the cursor at its end.
    pub fn overwrite(&mut self, contents: &[char])
        ensures
            final(self).text() == contents@,
            final(self).position() == contents@.len(),
    {
        let chars = slice_to_vec(contents);
        let cursor = chars.len();
        *self = Buffer { chars, cursor };
    }

    /// Deletes the span that `scope` gives around the cursor, and puts the
    /// cursor where the span began.
    pub fn delete(&mut self, scope: Scope)
        ensures
            exists|from: int, to: int|
                deletion_span(old(self).text(), old(self).position(), scope, from, to) && 0 <= from
                    <= old(self).position() <= to <= old(self).text().len() && final(self).text()
                    == cut_spec(old(self).text(), from, to) && final(self).position() == from,
    {
        proof {
            use_type_invariant(&*self);
        }
        let ghost text = self.chars@;
        let cursor = self.cursor;
        let len = self.chars.len();
        let (from, to) = match scope {
            Scope::Relative(Range::Single, Direction::Backward) => (
                previous_codepoint(cursor, &text_of(self.chars.as_slice())),
                cursor,
            ),
            Scope::Relative(Range::Single, Direction::Forward) => (
                cursor,
                next_codepoint(cursor, &text_of(self.chars.as_slice())),
            ),
            Scope::Relative(Range::Word, Direction::Backward) => (
                previous_word(cursor, &text_of(self.chars.as_slice())),
                cursor,
            ),
            Scope::Relative(Range::Word, Direction::Forward) => (
                cursor,
                next_word(cursor, &text_of(self.chars.as_slice())),
            ),
            Scope::Relative(Range::Line, Direction::Backward) => (0, cursor),
            Scope::Relative(Range::Line, Direction::Forward) => (cursor, len),
            Scope::WholeWord => {
                let line = text_of(self.chars.as_slice());
                (previous_word_end(cursor, &line), next_word(cursor, &line))
            },
            Scope::WholeLine => (0, len),
        };
        let mut rest: Vec<char> = Vec::new();
        let mut i: usize = 0;
        while i < from
            invariant
                text == self.chars@,
                from <= to <= text.len(),
                i <= from,
                rest@ == text.subrange(0, i as int),
            decreases from - i,
        {
            rest.push(self.chars[i]);
            i = i + 1;
        }
        let mut j: usize = to;
        while j < len
            invariant
                text == self.chars@,
                len == text.len(),
                from <= to <= j <= len,
                rest@ == text.subrange(0, from as int) + text.subrange(to as int, j as int),
            decreases len - j,
        {
            rest.push(self.chars[j]);
            j = j + 1;
        }
        *self = Buffer { chars: rest, cursor: from };
        assert(deletion_span(text, cursor as int, scope, from as int, to as int) && 0 <= from
            <= cursor <= to <= text.len() && self.text() == cut_spec(text, from as int, to as int)
            && self.position() == from);
        assert(text == old(self).text() && cursor == old(self).position());
    }

    /// Moves the cursor over `range` in `direction`.
    pub fn move_cursor(&mut self, range: Range, direction: Direction)
        ensures
            final(self).text() == old(self).text(),
            move_target(old(self).text(), old(self).position(), range, direction, final(self).position()),
    {
        proof {
            use_type_invariant(&*self);
        }
        let cursor = self.cursor;
        let to = match (range, direction) {
            (Range::Single, Direction::Forward) => next_codepoint(
                cursor,
                &text_of(self.chars.as_slice()),
            ),
            (Range::Single, Direction::Backward) => previous_codepoint(
                cursor,
                &text_of(self.chars.as_slice()),
            ),
            (Range::Word, Direction::Forward) => next_word(cursor, &text_of(self.chars.as_slice())),
            (Range::Word, Direction::Backward) => previous_word(
                cursor,
                &text_of(self.chars.as_slice()),
            ),
            (Range::Line, Direction::Forward) => self.chars.len(),
            (Range::Line, Direction::Backward) => 0,
        };
        *self = Buffer { chars: slice_to_vec(self.chars.as_slice()), cursor: to };
    }
}

} // verus!

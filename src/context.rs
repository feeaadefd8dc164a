//! A read-only view of the line being edited.
use vstd::prelude::*;

verus! {

/// A borrowed, read-only view of the line being edited and of its cursor.
pub struct Context<'a> {
    buffer: &'a [char],
    cursor: usize,
}

impl<'a> Context<'a> {
    /// The characters of the line.
    pub closed spec fn text(&self) -> Seq<char> {
        self.buffer@
    }

    /// The cursor, as a codepoint position in the line.
    pub closed spec fn position(&self) -> int {
        self.cursor as int
    }

    #[verifier::type_invariant]
    spec fn cursor_in_line(&self) -> bool {
        self.cursor <= self.buffer@.len()
    }

    /// A view of `buffer` with the cursor at `cursor`.
    pub fn new(buffer: &'a [char], cursor: usize) -> (r: Context<'a>)
        requires
            cursor <= buffer@.len(),
        ensures
            r.text() == buffer@,
            r.position() == cursor,
    {
        Context { buffer, cursor }
    }

    /// The characters of the line.
    pub fn buffer(&self) -> (r: &'a [char])
        ensures
            r@ == self.text(),
    {
        self.buffer
    }

    /// The cursor position, which never lies past the end of the line.
    pub fn cursor(&self) -> (r: usize)
        ensures
            r == self.position(),
            r <= self.text().len(),
    {
        proof {
            use_type_invariant(self);
        }
        self.cursor
    }
}

} // verus!

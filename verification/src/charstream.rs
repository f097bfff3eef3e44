//! A stream of characters over one line of input.
//!
//! The stream owns the immutable text and a 0-based cursor, one past the last
//! character consumed.  It yields one character at a time, supports a
//! single-step putback, and reports the cursor for diagnostics.  Putback is
//! guarded by a precondition: the cursor must have advanced at least once,
//! and a caller may step back only over characters it has just consumed.

use vstd::prelude::*;
use vstd::string::StrSliceExecFns;

verus! {

/// Returned by [`CharStream::new`] when the input line has no characters.
#[derive(Clone, Copy, Debug, PartialEq, Eq, Structural)]
pub struct EmptyStringError;

/// One line of input and a cursor over its characters.
pub struct CharStream {
    input: String,
    length: usize,
    current_position: usize,
}

impl CharStream {
    /// The full text of the line, as a sequence of characters.
    pub closed spec fn text(self) -> Seq<char> {
        self.input@
    }

    /// The cursor: the number of characters consumed so far.
    pub closed spec fn cursor(self) -> int {
        self.current_position as int
    }

    /// The cached character count matches the text.
    pub closed spec fn inv(self) -> bool {
        self.length == self.input@.len()
    }

    /// Well-formed stream: the cursor stays within `[0, length]`, and the
    /// text is addressable (its character count fits a machine word).
    pub open spec fn wf(self) -> bool {
        self.inv() && 0 <= self.cursor() <= self.text().len() && self.text().len() <= usize::MAX
    }

    /// Wraps one input line; fails when it holds no characters at all.
    pub fn new(input: String) -> (r: Result<CharStream, EmptyStringError>)
        ensures
            input@.len() == 0 ==> r is Err,
            input@.len() > 0 ==> (r matches Ok(cs)
                && cs.wf() && cs.text() == input@ && cs.cursor() == 0),
    {
        let length = input.as_str().unicode_len();
        if length == 0 {
            return Err(EmptyStringError);
        }
        Ok(CharStream { input, length, current_position: 0 })
    }

    /// Returns the character at the cursor and advances it, or signals
    /// end-of-input (without moving) when every character has been consumed.
    pub fn next_char(&mut self) -> (r: Option<char>)
        requires
            old(self).wf(),
        ensures
            final(self).wf(),
            final(self).text() == old(self).text(),
            old(self).cursor() < old(self).text().len() ==> (r matches Some(c)
                && c == old(self).text()[old(self).cursor()]
                && final(self).cursor() == old(self).cursor() + 1),
            old(self).cursor() == old(self).text().len() ==> r is None
                && final(self).cursor() == old(self).cursor(),
    {
        if self.current_position < self.length {
            let c = self.input.as_str().get_char(self.current_position);
            self.current_position = self.current_position + 1;
            Some(c)
        } else {
            None
        }
    }

    /// Steps the cursor back by exactly one character.  Valid only after a
    /// successful advance, which the precondition reflects.
    pub fn putback(&mut self)
        requires
            old(self).wf(),
            old(self).cursor() >= 1,
        ensures
            final(self).wf(),
            final(self).text() == old(self).text(),
            final(self).cursor() == old(self).cursor() - 1,
    {
        self.current_position = self.current_position - 1;
    }

    /// The current cursor, used for diagnostics only.
    pub fn current_pos(&self) -> (p: usize)
        ensures
            p as int == self.cursor(),
    {
        self.current_position
    }
}

} // verus!

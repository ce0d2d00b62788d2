//! A raw character-stream front end: a cursor over the characters of a
//! source text that can step forward and un-read one step backward.

use vstd::prelude::*;
use vstd::string::StrSliceExecFns;

verus! {

/// A cursor over the characters of one source text. The characters are
/// materialized up front, so stepping is O(1) and rewinding re-reads the
/// same characters.
pub struct CodeStorage {
    chars: Vec<char>,
    pos: usize,
}

impl CodeStorage {
    /// The full character sequence of the source text.
    pub closed spec fn stream(&self) -> Seq<char> {
        self.chars@
    }

    /// The index of the next character to be returned.
    pub closed spec fn position(&self) -> usize {
        self.pos
    }

    /// The position never runs past the end of the text.
    pub open spec fn wf(&self) -> bool {
        self.position() <= self.stream().len()
    }

    /// Creates a cursor at the start of `code`.
    pub fn new(code: &str) -> (r: Self)
        ensures
            r.stream() == code@,
            r.position() == 0,
            r.wf(),
    {
        let n = code.unicode_len();
        let mut chars: Vec<char> = Vec::new();
        let mut i: usize = 0;
        while i < n
            invariant
                n == code@.len(),
                i <= n,
                chars@ == code@.subrange(0, i as int),
            decreases n - i,
        {
            let c = code.get_char(i);
            chars.push(c);
            i = i + 1;
            proof {
                assert(chars@ =~= code@.subrange(0, i as int));
            }
        }
        proof {
            assert(code@.subrange(0, n as int) =~= code@);
        }
        CodeStorage { chars, pos: 0 }
    }

    /// Returns the character at the current position and advances by one, or
    /// nothing once the text is exhausted.
    pub fn next(&mut self) -> (r: Option<char>)
        requires
            old(self).wf(),
        ensures
            final(self).wf(),
            final(self).stream() == old(self).stream(),
            old(self).position() < old(self).stream().len() ==> r == Some(
                old(self).stream()[old(self).position() as int],
            ) && final(self).position() == old(self).position() + 1,
            old(self).position() >= old(self).stream().len() ==> r is None && final(self).position()
                == old(self).position(),
    {
        if self.pos < self.chars.len() {
            let c = self.chars[self.pos];
            self.pos = self.pos + 1;
            Some(c)
        } else {
            None
        }
    }

    /// Moves back by one, so the most recently returned character is
    /// returned again by the following `next`; reports nothing when no
    /// character has been read yet.
    pub fn back(&mut self) -> (r: Option<()>)
        requires
            old(self).wf(),
        ensures
            final(self).wf(),
            final(self).stream() == old(self).stream(),
            old(self).position() > 0 ==> r is Some && final(self).position() == old(self).position()
                - 1,
            old(self).position() == 0 ==> r is None && final(self).position() == 0,
    {
        if self.pos > 0 {
            self.pos = self.pos - 1;
            Some(())
        } else {
            None
        }
    }
}

/// The lexical front end over one source text; it owns the character cursor
/// that tokenization would read from.
pub struct Lexer {
    code: CodeStorage,
}

impl Lexer {
    /// The full character sequence of the source text.
    pub closed spec fn stream(&self) -> Seq<char> {
        self.code.stream()
    }

    /// The index of the next character the front end would read.
    pub closed spec fn position(&self) -> usize {
        self.code.position()
    }

    /// Creates a front end reading `code` from the start.
    pub fn new(code: &str) -> (r: Self)
        ensures
            r.stream() == code@,
            r.position() == 0,
    {
        Lexer { code: CodeStorage::new(code) }
    }
}

} // verus!

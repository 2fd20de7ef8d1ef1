//! The source text as a stream of characters.

use vstd::prelude::*;

verus! {

/// The characters of a text, and how many of them have been read.
pub struct CharStream {
    pub code: Vec<char>,
    pub index: usize,
    /// Whether every character has been read.
    pub eof: bool,
}

impl CharStream {
    /// The position is within the text or at its end, and `eof` says
    /// whether it is at the end.
    pub open spec fn wf(&self) -> bool {
        self.index <= self.code.len() && self.eof == (self.index == self.code.len())
    }

    /// The next character, which stays unread.
    pub fn peek(&self) -> (c: char)
        requires
            self.wf(),
            !self.eof,
        ensures
            c == self.code[self.index as int],
    {
        self.code[self.index]
    }

    /// Reads the next character.
    pub fn read(&mut self) -> (c: char)
        requires
            old(self).wf(),
            !old(self).eof,
        ensures
            final(self).wf(),
            c == old(self).code[old(self).index as int],
            final(self).code == old(self).code,
            final(self).index == old(self).index + 1,
    {
        let c = self.code[self.index];
        self.index += 1;
        self.eof = self.index == self.code.len();
        c
    }
}

/// A stream over the characters of `code`, with none read yet.
pub fn new(code: String) -> (r: CharStream)
    ensures
        r.wf(),
        r.code@ == code@,
        r.index == 0,
{
    let mut chars: Vec<char> = Vec::new();
    for c in it: code.as_str().chars()
        invariant
            chars@ == it.seq().take(it.index()),
    {
        chars.push(c);
        assert(it.seq().take(it.index() + 1) =~= it.seq().take(it.index()).push(c));
    }
    assert(chars@ =~= code@);
    let eof: bool = chars.len() == 0;
    CharStream { code: chars, index: 0, eof }
}

} // verus!

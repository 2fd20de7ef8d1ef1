//! The small steps of the parser.

use vstd::prelude::*;
use crate::errors::SyntaxError;
use crate::parsing::parser::Parser;
use crate::parsing::tokens::Token;
use crate::parsing::grammar::next_is_punctuation;
use crate::parsing::grammar::next_is_keyword;
use crate::parsing::grammar::punctuation_expected;

verus! {

impl Parser {
    /// Reads a token, which must be the punctuation mark `c`.
    pub fn expect_punctuation(&mut self, c: char) -> (r: Result<(), SyntaxError>)
        requires
            old(self).tokens.wf(),
        ensures
            final(self).tokens.wf(),
            (final(self).tokens@, r) == punctuation_expected(old(self).tokens@, c),
    {
        let tk = match self.tokens.read() {
            Ok(tk) => tk,
            Err(e) => {
                return Err(e);
            },
        };
        match tk {
            Token::Punctuation(pnc) => {
                if pnc == c {
                    Ok(())
                } else {
                    Err(SyntaxError::ExpectedPunctuation)
                }
            },
            _ => Err(SyntaxError::ExpectedPunctuation),
        }
    }

    /// Whether the next token is the punctuation mark `c`.
    pub fn is_next_punctuation(&self, c: char) -> (r: bool)
        ensures
            r == next_is_punctuation(self.tokens@, c),
    {
        match self.tokens.peek() {
            Token::Punctuation(pnc) => *pnc == c,
            _ => false,
        }
    }

    /// Whether the next token is the keyword `s`.
    pub fn is_next_keyword(&self, s: &str) -> (r: bool)
        ensures
            r == next_is_keyword(self.tokens@, s@),
    {
        match self.tokens.peek() {
            Token::Keyword(st) => {
                let word: String = String::from_str(s);
                *st == word
            },
            _ => false,
        }
    }
}

} // verus!

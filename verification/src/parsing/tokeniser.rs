//! From characters to tokens, one token ahead of the reader.

use vstd::prelude::*;
use crate::errors::SyntaxError;
use crate::parsing::char_stream;
use crate::parsing::char_stream::CharStream;
use crate::parsing::tokens::Token;
use crate::parsing::tokens::TokenView;
use crate::parsing::tokens::whitespace_char;
use crate::parsing::tokens::number_char;
use crate::parsing::tokens::operator_char;
use crate::parsing::tokens::punctuation_char;
use crate::parsing::tokens::identifier_char;
use crate::parsing::tokens::identifier_start_char;
use crate::parsing::tokens::keyword;
use crate::parsing::tokens::operator;
use crate::parsing::tokens::is_whitespace;
use crate::parsing::tokens::is_number;
use crate::parsing::tokens::is_operator_char;
use crate::parsing::tokens::is_punctuation;
use crate::parsing::tokens::is_identifier;
use crate::parsing::tokens::is_identifier_start;
use crate::parsing::tokens::is_keyword;
use crate::parsing::tokens::is_operator;
use crate::text::spells;
use crate::text::string_from_chars;

verus! {

/// The kinds of runs of characters that the tokeniser reads in one go.
#[derive(Clone, Copy, Debug, PartialEq, Eq, Structural)]
pub enum CharClass {
    /// What separates tokens.
    Blank,
    /// What an identifier goes on with.
    Word,
    /// What operators are made of.
    Symbol,
    /// What number literals are made of.
    Digits,
    /// Anything but the quote that ends a string.
    Quoted,
    /// Anything but the line feed that ends a line.
    Line,
}

/// Whether the character belongs to the class.
pub open spec fn in_class(class: CharClass, c: char) -> bool {
    match class {
        CharClass::Blank => whitespace_char(c),
        CharClass::Word => identifier_char(c),
        CharClass::Symbol => operator_char(c),
        CharClass::Digits => number_char(c),
        CharClass::Quoted => c != '"',
        CharClass::Line => c != '\n',
    }
}

/// Where the run of characters of the class that begins at `from` ends.
pub open spec fn run_end(code: Seq<char>, from: nat, class: CharClass) -> nat
    decreases code.len() - from,
{
    if from < code.len() && in_class(class, code[from as int]) {
        run_end(code, from + 1, class)
    } else {
        from
    }
}

/// A run ends at or after its beginning, and within the text if it begins
/// there.
pub proof fn lemma_run_end_bounds(code: Seq<char>, from: nat, class: CharClass)
    ensures
        from <= run_end(code, from, class),
        from <= code.len() ==> run_end(code, from, class) <= code.len(),
    decreases code.len() - from,
{
    if from < code.len() && in_class(class, code[from as int]) {
        lemma_run_end_bounds(code, from + 1, class);
    }
}

/// Where the block comment ends whose text begins at `from`: behind the
/// first `*/` at or after `from`.
pub open spec fn comment_end(code: Seq<char>, from: nat) -> Option<nat>
    decreases code.len() - from,
{
    if from + 1 >= code.len() {
        None
    } else if code[from as int] == '*' && code[from as int + 1] == '/' {
        Some(from + 2)
    } else {
        comment_end(code, from + 1)
    }
}

/// A comment ends after its beginning and within the text.
pub proof fn lemma_comment_end_bounds(code: Seq<char>, from: nat)
    ensures
        comment_end(code, from) matches Some(k) ==> from + 2 <= k <= code.len(),
    decreases code.len() - from,
{
    if from + 1 < code.len() && !(code[from as int] == '*' && code[from as int + 1] == '/') {
        lemma_comment_end_bounds(code, from + 1);
    }
}

/// How many decimal points the text has.
pub open spec fn points(text: Seq<char>) -> nat
    decreases text.len(),
{
    if text.len() == 0 {
        0
    } else {
        points(text.drop_last()) + if text.last() == '.' {
            1nat
        } else {
            0nat
        }
    }
}

/// The token that a word is.
pub open spec fn word_token(text: Seq<char>) -> TokenView {
    if text == "true"@ {
        TokenView::Boolean(true)
    } else if text == "false"@ {
        TokenView::Boolean(false)
    } else if text == "null"@ {
        TokenView::Null
    } else if keyword(text) {
        TokenView::Keyword(text)
    } else {
        TokenView::Identifier(text)
    }
}

/// What the tokeniser finds: a token, the end of the text, or an error; and
/// where it stops reading.
pub enum Lexed {
    Token(TokenView, nat),
    End(nat),
    Error(SyntaxError, nat),
}

/// What the tokeniser finds when it reads on from position `start`.
#[verifier::opaque]
pub open spec fn next_token(code: Seq<char>, start: nat) -> Lexed
    decreases code.len() - start,
{
    let i = run_end(code, start, CharClass::Blank);
    if i >= code.len() {
        Lexed::End(i)
    } else {
        let c = code[i as int];
        let j = i + 1;
        if c == '"' {
            let k = run_end(code, j, CharClass::Quoted);
            if k >= code.len() {
                Lexed::Error(SyntaxError::UnterminatedString, k)
            } else {
                Lexed::Token(TokenView::Text(code.subrange(j as int, k as int)), k + 1)
            }
        } else if c == '/' && j < code.len() && code[j as int] == '/' {
            proof {
                lemma_run_end_bounds(code, start, CharClass::Blank);
                lemma_run_end_bounds(code, j, CharClass::Line);
            }
            next_token(code, run_end(code, j, CharClass::Line))
        } else if c == '/' && j < code.len() && code[j as int] == '*' {
            match comment_end(code, j + 1) {
                None => Lexed::Error(SyntaxError::UnterminatedComment, code.len()),
                Some(k) => {
                    proof {
                        lemma_run_end_bounds(code, start, CharClass::Blank);
                        lemma_comment_end_bounds(code, j + 1);
                    }
                    next_token(code, k)
                },
            }
        } else if identifier_start_char(c) {
            let k = run_end(code, j, CharClass::Word);
            Lexed::Token(word_token(code.subrange(i as int, k as int)), k)
        } else if operator_char(c) {
            let k = run_end(code, j, CharClass::Symbol);
            let text = code.subrange(i as int, k as int);
            if operator(text) {
                Lexed::Token(TokenView::Operator(text), k)
            } else {
                Lexed::Error(SyntaxError::InvalidOperator, k)
            }
        } else if punctuation_char(c) {
            Lexed::Token(TokenView::Punctuation(c), j)
        } else if number_char(c) {
            let k = run_end(code, j, CharClass::Digits);
            let text = code.subrange(i as int, k as int);
            if points(text) > 1 {
                Lexed::Error(SyntaxError::InvalidNumber, k)
            } else {
                Lexed::Token(TokenView::Number(text), k)
            }
        } else {
            Lexed::Error(SyntaxError::UnexpectedCharacter, j)
        }
    }
}

/// The tokeniser: the text, and the token that will be handed out next.
pub struct Tokeniser {
    pub code: CharStream,
    pub current: Token,
    /// Whether the token in `current` has been handed out and none follows.
    pub eof: bool,
}

/// A tokeniser as a mathematical value.
pub struct TokeniserView {
    pub code: Seq<char>,
    pub index: nat,
    pub current: TokenView,
    pub eof: bool,
}

impl View for Tokeniser {
    type V = TokeniserView;

    open spec fn view(&self) -> TokeniserView {
        TokeniserView {
            code: self.code.code@,
            index: self.code.index as nat,
            current: self.current@,
            eof: self.eof,
        }
    }
}

/// The tokeniser after it has read on: the next token is in `current`, or
/// `eof` is set where none follows.
pub open spec fn advanced(t: TokeniserView) -> (TokeniserView, Result<(), SyntaxError>) {
    match next_token(t.code, t.index) {
        Lexed::Token(token, i) => (TokeniserView { index: i, current: token, ..t }, Ok(())),
        Lexed::End(i) => (TokeniserView { index: i, eof: true, ..t }, Ok(())),
        Lexed::Error(e, i) => (TokeniserView { index: i, ..t }, Err(e)),
    }
}

/// The token that is handed out, and the tokeniser after it.
pub open spec fn token_read(t: TokeniserView) -> (TokeniserView, Result<TokenView, SyntaxError>) {
    let (after, r) = advanced(t);
    (
        after,
        match r {
            Ok(_) => Ok(t.current),
            Err(e) => Err(e),
        },
    )
}

fn class_has(class: CharClass, c: &char) -> (r: bool)
    ensures
        r == in_class(class, *c),
{
    match class {
        CharClass::Blank => is_whitespace(c),
        CharClass::Word => is_identifier(c),
        CharClass::Symbol => is_operator_char(c),
        CharClass::Digits => is_number(c),
        CharClass::Quoted => *c != '"',
        CharClass::Line => *c != '\n',
    }
}

impl Tokeniser {
    /// The stream of characters is well formed.
    pub open spec fn wf(&self) -> bool {
        self.code.wf()
    }

    /// Reads the run of characters of the class that begins at the
    /// position, and adds them to `out`.
    fn read_run(&mut self, class: CharClass, out: &mut Vec<char>)
        requires
            old(self).wf(),
        ensures
            final(self).wf(),
            final(self)@ == (TokeniserView {
                index: run_end(old(self)@.code, old(self)@.index, class),
                ..old(self)@
            }),
            final(out)@ == old(out)@ + old(self)@.code.subrange(
                old(self)@.index as int,
                final(self)@.index as int,
            ),
    {
        let ghost code = self@.code;
        let ghost start = self@.index;
        proof {
            lemma_run_end_bounds(code, start, class);
            assert(out@ =~= old(out)@ + code.subrange(start as int, start as int));
        }
        while !self.code.eof && class_has(class, &self.code.peek())
            invariant
                self.wf(),
                self@ == (TokeniserView { index: self@.index, ..old(self)@ }),
                code == old(self)@.code,
                start == old(self)@.index,
                start <= self@.index,
                run_end(code, start, class) == run_end(code, self@.index, class),
                out@ == old(out)@ + code.subrange(start as int, self@.index as int),
            decreases self.code.code.len() - self.code.index,
        {
            let ghost at = self@.index;
            let c = self.code.read();
            out.push(c);
            assert(code.subrange(start as int, at as int + 1) =~= code.subrange(
                start as int,
                at as int,
            ).push(c));
            assert(out@ =~= old(out)@ + code.subrange(start as int, at as int + 1));
        }
    }

    /// Skips what separates tokens.
    fn eat_whitespace(&mut self)
        requires
            old(self).wf(),
        ensures
            final(self).wf(),
            final(self)@ == (TokeniserView {
                index: run_end(old(self)@.code, old(self)@.index, CharClass::Blank),
                ..old(self)@
            }),
    {
        let mut skipped: Vec<char> = Vec::new();
        self.read_run(CharClass::Blank, &mut skipped);
    }

    /// Skips the rest of the line.
    fn read_single_line_comment(&mut self)
        requires
            old(self).wf(),
        ensures
            final(self).wf(),
            final(self)@ == (TokeniserView {
                index: run_end(old(self)@.code, old(self)@.index, CharClass::Line),
                ..old(self)@
            }),
    {
        let mut skipped: Vec<char> = Vec::new();
        self.read_run(CharClass::Line, &mut skipped);
    }

    /// Skips to behind the `*/` that ends the comment. Without one, skips
    /// to the end of the text and says so.
    fn read_multi_line_comment(&mut self) -> (closed: bool)
        requires
            old(self).wf(),
        ensures
            final(self).wf(),
            closed == comment_end(old(self)@.code, old(self)@.index) is Some,
            final(self)@ == (TokeniserView {
                index: match comment_end(old(self)@.code, old(self)@.index) {
                    Some(k) => k,
                    None => old(self)@.code.len(),
                },
                ..old(self)@
            }),
    {
        let ghost code = self@.code;
        let ghost start = self@.index;
        while !self.code.eof
            invariant
                self.wf(),
                self@ == (TokeniserView { index: self@.index, ..old(self)@ }),
                code == old(self)@.code,
                start == old(self)@.index,
                comment_end(code, start) == comment_end(code, self@.index),
            decreases self.code.code.len() - self.code.index,
        {
            let ghost at = self@.index;
            let c = self.code.read();
            if !self.code.eof && c == '*' && self.code.peek() == '/' {
                let _ = self.code.read();
                assert(comment_end(code, at) == Some((at + 2) as nat));
                return true;
            }
        }
        false
    }

    /// Reads a string literal whose opening quote has been read.
    fn read_string(&mut self) -> (r: Result<Token, SyntaxError>)
        requires
            old(self).wf(),
        ensures
            final(self).wf(),
            ({
                let code = old(self)@.code;
                let j = old(self)@.index;
                let k = run_end(code, j, CharClass::Quoted);
                if k >= code.len() {
                    r == Err::<Token, SyntaxError>(SyntaxError::UnterminatedString) && final(self)@
                        == (TokeniserView { index: k, ..old(self)@ })
                } else {
                    r is Ok && r->Ok_0@ == TokenView::Text(code.subrange(j as int, k as int))
                        && final(self)@ == (TokeniserView { index: k + 1, ..old(self)@ })
                }
            }),
    {
        let mut chars: Vec<char> = Vec::new();
        proof {
            lemma_run_end_bounds(self@.code, self@.index, CharClass::Quoted);
        }
        self.read_run(CharClass::Quoted, &mut chars);
        if self.code.eof {
            return Err(SyntaxError::UnterminatedString);
        }
        let _ = self.code.read();
        assert(chars@ =~= old(self)@.code.subrange(
            old(self)@.index as int,
            run_end(old(self)@.code, old(self)@.index, CharClass::Quoted) as int,
        ));
        Ok(Token::String(string_from_chars(&chars)))
    }

    /// Reads the rest of a run that began with `first`, and gives the whole
    /// run as a string.
    fn read_text(&mut self, first: char, class: CharClass) -> (r: String)
        requires
            old(self).wf(),
            old(self)@.index > 0,
            old(self)@.code[old(self)@.index - 1] == first,
        ensures
            final(self).wf(),
            final(self)@ == (TokeniserView {
                index: run_end(old(self)@.code, old(self)@.index, class),
                ..old(self)@
            }),
            r@ == old(self)@.code.subrange(old(self)@.index - 1, final(self)@.index as int),
    {
        let mut chars: Vec<char> = Vec::new();
        chars.push(first);
        proof {
            lemma_run_end_bounds(self@.code, self@.index, class);
        }
        self.read_run(class, &mut chars);
        assert(chars@ =~= old(self)@.code.subrange(old(self)@.index - 1, self@.index as int));
        string_from_chars(&chars)
    }

    /// Reads an operator whose first character has been read.
    fn read_operator(&mut self, first: char) -> (r: Result<Token, SyntaxError>)
        requires
            old(self).wf(),
            old(self)@.index > 0,
            old(self)@.code[old(self)@.index - 1] == first,
        ensures
            final(self).wf(),
            final(self)@ == (TokeniserView {
                index: run_end(old(self)@.code, old(self)@.index, CharClass::Symbol),
                ..old(self)@
            }),
            ({
                let text = old(self)@.code.subrange(
                    old(self)@.index - 1,
                    final(self)@.index as int,
                );
                if operator(text) {
                    r is Ok && r->Ok_0@ == TokenView::Operator(text)
                } else {
                    r == Err::<Token, SyntaxError>(SyntaxError::InvalidOperator)
                }
            }),
    {
        let st: String = self.read_text(first, CharClass::Symbol);
        if !is_operator(&st) {
            return Err(SyntaxError::InvalidOperator);
        }
        Ok(Token::Operator(st))
    }

    /// Reads a word whose first character has been read.
    fn read_identifier(&mut self, first: char) -> (r: Token)
        requires
            old(self).wf(),
            old(self)@.index > 0,
            old(self)@.code[old(self)@.index - 1] == first,
        ensures
            final(self).wf(),
            final(self)@ == (TokeniserView {
                index: run_end(old(self)@.code, old(self)@.index, CharClass::Word),
                ..old(self)@
            }),
            r@ == word_token(
                old(self)@.code.subrange(old(self)@.index - 1, final(self)@.index as int),
            ),
    {
        let st: String = self.read_text(first, CharClass::Word);
        if spells(&st, "true") {
            return Token::Boolean(true);
        }
        if spells(&st, "false") {
            return Token::Boolean(false);
        }
        if spells(&st, "null") {
            return Token::Null;
        }
        if is_keyword(&st) {
            Token::Keyword(st)
        } else {
            Token::Identifier(st)
        }
    }

    /// Reads a number literal whose first character has been read.
    fn read_number(&mut self, first: char) -> (r: Result<Token, SyntaxError>)
        requires
            old(self).wf(),
            old(self)@.index > 0,
            old(self)@.code[old(self)@.index - 1] == first,
        ensures
            final(self).wf(),
            final(self)@ == (TokeniserView {
                index: run_end(old(self)@.code, old(self)@.index, CharClass::Digits),
                ..old(self)@
            }),
            ({
                let text = old(self)@.code.subrange(
                    old(self)@.index - 1,
                    final(self)@.index as int,
                );
                if points(text) > 1 {
                    r == Err::<Token, SyntaxError>(SyntaxError::InvalidNumber)
                } else {
                    r is Ok && r->Ok_0@ == TokenView::Number(text)
                }
            }),
    {
        let mut chars: Vec<char> = Vec::new();
        chars.push(first);
        proof {
            lemma_run_end_bounds(self@.code, self@.index, CharClass::Digits);
        }
        self.read_run(CharClass::Digits, &mut chars);
        assert(chars@ =~= old(self)@.code.subrange(old(self)@.index - 1, self@.index as int));
        if count_points(&chars) > 1 {
            return Err(SyntaxError::InvalidNumber);
        }
        Ok(Token::Number(string_from_chars(&chars)))
    }

    /// Reads on to the next token.
    pub fn read_next(&mut self) -> (r: Result<(), SyntaxError>)
        requires
            old(self).wf(),
        ensures
            final(self).wf(),
            (final(self)@, r) == advanced(old(self)@),
        decreases old(self).code.code.len() - old(self).code.index,
    {
        reveal(next_token);
        let ghost code = self@.code;
        let ghost start = self@.index;
        proof {
            lemma_run_end_bounds(code, start, CharClass::Blank);
        }
        self.eat_whitespace();
        if self.code.eof {
            self.eof = true;
            return Ok(());
        }
        let c = self.code.read();
        if c == '"' {
            match self.read_string() {
                Ok(token) => {
                    self.current = token;
                    Ok(())
                },
                Err(e) => Err(e),
            }
        } else if c == '/' && !self.code.eof && self.code.peek() == '/' {
            proof {
                lemma_run_end_bounds(code, self@.index, CharClass::Line);
            }
            self.read_single_line_comment();
            self.read_next()
        } else if c == '/' && !self.code.eof && self.code.peek() == '*' {
            let _ = self.code.read();
            proof {
                lemma_comment_end_bounds(code, self@.index);
            }
            if !self.read_multi_line_comment() {
                return Err(SyntaxError::UnterminatedComment);
            }
            self.read_next()
        } else if is_identifier_start(&c) {
            self.current = self.read_identifier(c);
            Ok(())
        } else if is_operator_char(&c) {
            match self.read_operator(c) {
                Ok(token) => {
                    self.current = token;
                    Ok(())
                },
                Err(e) => Err(e),
            }
        } else if is_punctuation(&c) {
            self.current = Token::Punctuation(c);
            Ok(())
        } else if is_number(&c) {
            match self.read_number(c) {
                Ok(token) => {
                    self.current = token;
                    Ok(())
                },
                Err(e) => Err(e),
            }
        } else {
            Err(SyntaxError::UnexpectedCharacter)
        }
    }

    /// The token that will be handed out next.
    pub fn peek(&self) -> (r: &Token)
        ensures
            r@ == self@.current,
    {
        &self.current
    }

    /// Hands out a token and reads on.
    pub fn read(&mut self) -> (r: Result<Token, SyntaxError>)
        requires
            old(self).wf(),
        ensures
            final(self).wf(),
            final(self)@.code == old(self)@.code,
            (
                final(self)@,
                match r {
                    Ok(token) => Ok::<TokenView, SyntaxError>(token@),
                    Err(e) => Err(e),
                },
            ) == token_read(old(self)@),
    {
        let tk = self.current.duplicate();
        match self.read_next() {
            Ok(_) => Ok(tk),
            Err(e) => Err(e),
        }
    }
}

/// How many decimal points the characters hold.
fn count_points(chars: &Vec<char>) -> (n: usize)
    ensures
        n == points(chars@),
{
    let mut n: usize = 0;
    let mut i: usize = 0;
    assert(chars@.take(0) =~= Seq::<char>::empty());
    while i < chars.len()
        invariant
            i <= chars.len(),
            n <= i,
            n == points(chars@.take(i as int)),
        decreases chars.len() - i,
    {
        assert(chars@.take(i + 1).drop_last() =~= chars@.take(i as int));
        if chars[i] == '.' {
            n += 1;
        }
        i += 1;
    }
    assert(chars@.take(i as int) =~= chars@);
    n
}

/// A tokeniser on `code` that has read up to the first token.
pub fn new(code: String) -> (r: Result<Tokeniser, SyntaxError>)
    ensures
        match r {
            Ok(t) => t.wf() && (t@, Ok::<(), SyntaxError>(())) == advanced(
                TokeniserView {
                    code: code@,
                    index: 0,
                    current: TokenView::Number("0"@),
                    eof: false,
                },
            ),
            Err(e) => advanced(
                TokeniserView {
                    code: code@,
                    index: 0,
                    current: TokenView::Number("0"@),
                    eof: false,
                },
            ).1 == Err::<(), SyntaxError>(e),
        },
{
    let cs = char_stream::new(code);
    let mut tk = Tokeniser {
        code: cs,
        current: Token::Number(String::from_str("0")),
        eof: false,
    };
    match tk.read_next() {
        Ok(_) => Ok(tk),
        Err(e) => Err(e),
    }
}

} // verus!

//! Tokens, and which characters and words make them.

use vstd::prelude::*;
use crate::text::spells;

verus! {

/// A token of the source text.
#[derive(Debug)]
pub enum Token {
    String(String),
    Identifier(String),
    Keyword(String),
    /// A number literal, as it is spelled.
    Number(String),
    Boolean(bool),
    Null,
    Operator(String),
    Punctuation(char),
}

/// A token as a mathematical value.
pub enum TokenView {
    Text(Seq<char>),
    Identifier(Seq<char>),
    Keyword(Seq<char>),
    Number(Seq<char>),
    Boolean(bool),
    Null,
    Operator(Seq<char>),
    Punctuation(char),
}

impl View for Token {
    type V = TokenView;

    open spec fn view(&self) -> TokenView {
        match self {
            Token::String(s) => TokenView::Text(s@),
            Token::Identifier(s) => TokenView::Identifier(s@),
            Token::Keyword(s) => TokenView::Keyword(s@),
            Token::Number(s) => TokenView::Number(s@),
            Token::Boolean(b) => TokenView::Boolean(*b),
            Token::Null => TokenView::Null,
            Token::Operator(s) => TokenView::Operator(s@),
            Token::Punctuation(c) => TokenView::Punctuation(*c),
        }
    }
}

impl Token {
    /// A copy of the token.
    pub fn duplicate(&self) -> (r: Token)
        ensures
            r@ == self@,
    {
        match self {
            Token::String(s) => Token::String(s.clone()),
            Token::Identifier(s) => Token::Identifier(s.clone()),
            Token::Keyword(s) => Token::Keyword(s.clone()),
            Token::Number(s) => Token::Number(s.clone()),
            Token::Boolean(b) => Token::Boolean(*b),
            Token::Null => Token::Null,
            Token::Operator(s) => Token::Operator(s.clone()),
            Token::Punctuation(c) => Token::Punctuation(*c),
        }
    }
}

/// Space, tab, line feed and the semicolon separate tokens.
pub open spec fn whitespace_char(c: char) -> bool {
    c == ' ' || c == '\t' || c == '\n' || c == ';'
}

/// A digit or the decimal point.
pub open spec fn number_char(c: char) -> bool {
    ('0' <= c <= '9') || c == '.'
}

/// A character that an operator can be made of.
pub open spec fn operator_char(c: char) -> bool {
    c == '=' || c == '!' || c == '+' || c == '-' || c == '/' || c == '*' || c == '%' || c == '&'
        || c == '|' || c == '<' || c == '>'
}

/// A punctuation mark.
pub open spec fn punctuation_char(c: char) -> bool {
    c == ':' || c == ',' || c == '.' || c == '(' || c == ')' || c == '[' || c == ']' || c == '{'
        || c == '}'
}

/// A character that an identifier can begin with.
pub open spec fn identifier_start_char(c: char) -> bool {
    ('a' <= c <= 'z') || ('A' <= c <= 'Z') || c == '$' || c == '_'
}

/// A character that an identifier can go on with.
pub open spec fn identifier_char(c: char) -> bool {
    identifier_start_char(c) || ('0' <= c <= '9')
}

/// The words that are keywords.
pub open spec fn keyword(s: Seq<char>) -> bool {
    s == "let"@ || s == "const"@ || s == "function"@ || s == "if"@ || s == "else"@ || s
        == "return"@ || s == "while"@ || s == "break"@ || s == "continue"@ || s == "for"@
}

/// The operators that assign.
pub open spec fn assignment_operator(s: Seq<char>) -> bool {
    s == "="@ || s == "*="@ || s == "+="@ || s == "-="@ || s == "/="@ || s == "%="@ || s == "**="@
}

/// The operators that combine two values.
pub open spec fn binary_operator(s: Seq<char>) -> bool {
    s == "=="@ || s == "+"@ || s == "-"@ || s == "*"@ || s == "/"@ || s == "!="@ || s == "**"@ || s
        == "%"@ || s == "&&"@ || s == "||"@ || s == ">"@ || s == "<"@ || s == ">="@ || s == "<="@
}

/// The operators.
pub open spec fn operator(s: Seq<char>) -> bool {
    assignment_operator(s) || binary_operator(s)
}

/// How tightly a binary operator binds; 0 for what is no binary operator.
pub open spec fn precedence(s: Seq<char>) -> i32 {
    if s == "||"@ {
        5
    } else if s == "&&"@ {
        6
    } else if s == "=="@ || s == "!="@ {
        11
    } else if s == ">"@ || s == ">="@ || s == "<"@ || s == "<="@ {
        12
    } else if s == "+"@ || s == "-"@ {
        14
    } else if s == "*"@ || s == "/"@ || s == "%"@ {
        15
    } else if s == "**"@ {
        16
    } else {
        0
    }
}

/// Whether the character separates tokens.
pub fn is_whitespace(c: &char) -> (r: bool)
    ensures
        r == whitespace_char(*c),
{
    *c == ' ' || *c == '\t' || *c == '\n' || *c == ';'
}

/// Whether the character can stand in a number literal.
pub fn is_number(c: &char) -> (r: bool)
    ensures
        r == number_char(*c),
{
    (*c >= '0' && *c <= '9') || *c == '.'
}

/// Whether the word is a keyword.
pub fn is_keyword(s: &String) -> (r: bool)
    ensures
        r == keyword(s@),
{
    spells(s, "let") || spells(s, "const") || spells(s, "function") || spells(s, "if") || spells(
        s,
        "else",
    ) || spells(s, "return") || spells(s, "while") || spells(s, "break") || spells(s, "continue")
        || spells(s, "for")
}

/// Whether the text is an operator.
pub fn is_operator(s: &String) -> (r: bool)
    ensures
        r == operator(s@),
{
    is_assignment_operator(s) || is_binary_operator(s)
}

/// Whether the text is an operator that assigns.
pub fn is_assignment_operator(s: &String) -> (r: bool)
    ensures
        r == assignment_operator(s@),
{
    spells(s, "=") || spells(s, "*=") || spells(s, "+=") || spells(s, "-=") || spells(s, "/=")
        || spells(s, "%=") || spells(s, "**=")
}

/// Whether the text is an operator that combines two values.
pub fn is_binary_operator(s: &String) -> (r: bool)
    ensures
        r == binary_operator(s@),
{
    spells(s, "==") || spells(s, "+") || spells(s, "-") || spells(s, "*") || spells(s, "/")
        || spells(s, "!=") || spells(s, "**") || spells(s, "%") || spells(s, "&&") || spells(
        s,
        "||",
    ) || spells(s, ">") || spells(s, "<") || spells(s, ">=") || spells(s, "<=")
}

/// How tightly the operator binds; 0 for what is no binary operator.
pub fn get_operator_precedence(s: &String) -> (r: i32)
    ensures
        r == precedence(s@),
{
    if spells(s, "||") {
        5
    } else if spells(s, "&&") {
        6
    } else if spells(s, "==") || spells(s, "!=") {
        11
    } else if spells(s, ">") || spells(s, ">=") || spells(s, "<") || spells(s, "<=") {
        12
    } else if spells(s, "+") || spells(s, "-") {
        14
    } else if spells(s, "*") || spells(s, "/") || spells(s, "%") {
        15
    } else if spells(s, "**") {
        16
    } else {
        0
    }
}

/// Characters may be part of an operator without being operators themselves.
pub fn is_operator_char(c: &char) -> (r: bool)
    ensures
        r == operator_char(*c),
{
    *c == '=' || *c == '!' || *c == '+' || *c == '-' || *c == '/' || *c == '*' || *c == '%' || *c
        == '&' || *c == '|' || *c == '<' || *c == '>'
}

/// Whether the character is a punctuation mark.
pub fn is_punctuation(c: &char) -> (r: bool)
    ensures
        r == punctuation_char(*c),
{
    *c == ':' || *c == ',' || *c == '.' || *c == '(' || *c == ')' || *c == '[' || *c == ']' || *c
        == '{' || *c == '}'
}

/// Whether an identifier can go on with the character.
pub fn is_identifier(c: &char) -> (r: bool)
    ensures
        r == identifier_char(*c),
{
    is_identifier_start(c) || (*c >= '0' && *c <= '9')
}

/// Whether an identifier can begin with the character.
pub fn is_identifier_start(c: &char) -> (r: bool)
    ensures
        r == identifier_start_char(*c),
{
    (*c >= 'a' && *c <= 'z') || (*c >= 'A' && *c <= 'Z') || *c == '$' || *c == '_'
}

} // verus!

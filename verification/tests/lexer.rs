use kaffee::errors::SyntaxError;
use kaffee::parsing::char_stream;
use kaffee::parsing::tokeniser;
use kaffee::parsing::tokens::get_operator_precedence;
use kaffee::parsing::tokens::is_assignment_operator;
use kaffee::parsing::tokens::is_binary_operator;
use kaffee::parsing::tokens::is_identifier;
use kaffee::parsing::tokens::is_identifier_start;
use kaffee::parsing::tokens::is_keyword;
use kaffee::parsing::tokens::is_number;
use kaffee::parsing::tokens::is_operator;
use kaffee::parsing::tokens::is_operator_char;
use kaffee::parsing::tokens::is_punctuation;
use kaffee::parsing::tokens::is_whitespace;
use kaffee::parsing::tokens::Token;
use kaffee::parsing::printer::describe_token;

fn s(text: &str) -> String {
    String::from(text)
}

/// The tokens of the text, each as its line of description, or the error
/// that ends them.
fn tokens_of(code: &str) -> Result<Vec<String>, SyntaxError> {
    let mut tk = tokeniser::new(s(code))?;
    let mut out = Vec::new();
    while !tk.eof {
        let token = tk.read()?;
        out.push(describe_token(&token));
    }
    Ok(out)
}

fn described(expected: Vec<&str>) -> Result<Vec<String>, SyntaxError> {
    let mut out = Vec::new();
    for line in expected {
        out.push(s(line));
    }
    Ok(out)
}

#[test]
fn whitespace_is_space_tab_feed_and_semicolon() {
    for c in [' ', '\t', '\n', ';'] {
        assert!(is_whitespace(&c));
    }
    for c in ['\r', 'a', '0', ',', '.'] {
        assert!(!is_whitespace(&c));
    }
}

#[test]
fn number_characters_are_digits_and_point() {
    for c in "0123456789.".chars() {
        assert!(is_number(&c));
    }
    for c in ['a', '-', '+', 'e', ' ', '/', ':'] {
        assert!(!is_number(&c));
    }
}

#[test]
fn keywords_are_recognised() {
    for word in ["let", "const", "function", "if", "else", "return", "while", "break", "continue", "for"] {
        assert!(is_keyword(&s(word)), "{}", word);
    }
    for word in ["fn", "Let", "lets", "", "true", "null", "println"] {
        assert!(!is_keyword(&s(word)), "{}", word);
    }
}

#[test]
fn operators_are_recognised() {
    let assigning = ["=", "*=", "+=", "-=", "/=", "%=", "**="];
    let binary = ["==", "+", "-", "*", "/", "!=", "**", "%", "&&", "||", ">", "<", ">=", "<="];
    for op in assigning {
        assert!(is_operator(&s(op)), "{}", op);
        assert!(is_assignment_operator(&s(op)), "{}", op);
        assert!(!is_binary_operator(&s(op)), "{}", op);
    }
    for op in binary {
        assert!(is_operator(&s(op)), "{}", op);
        assert!(!is_assignment_operator(&s(op)), "{}", op);
        assert!(is_binary_operator(&s(op)), "{}", op);
    }
    for op in ["=!", "===", "!", "&", "|", "<>", "", "++", "a"] {
        assert!(!is_operator(&s(op)), "{}", op);
        assert!(!is_assignment_operator(&s(op)), "{}", op);
        assert!(!is_binary_operator(&s(op)), "{}", op);
    }
}

#[test]
fn precedence_of_each_operator() {
    let expected = [
        ("||", 5),
        ("&&", 6),
        ("==", 11),
        ("!=", 11),
        (">", 12),
        (">=", 12),
        ("<", 12),
        ("<=", 12),
        ("+", 14),
        ("-", 14),
        ("*", 15),
        ("/", 15),
        ("%", 15),
        ("**", 16),
        ("=", 0),
        ("+=", 0),
        ("x", 0),
        ("", 0),
    ];
    for (op, p) in expected {
        assert_eq!(get_operator_precedence(&s(op)), p, "{}", op);
    }
}

#[test]
fn operator_characters() {
    for c in "=!+-/*%&|<>".chars() {
        assert!(is_operator_char(&c));
    }
    for c in ['a', '0', '.', '(', '^', '~', ' '] {
        assert!(!is_operator_char(&c));
    }
}

#[test]
fn punctuation_characters() {
    for c in ":,.()[]{}".chars() {
        assert!(is_punctuation(&c));
    }
    for c in [';', 'a', '0', '=', '"', ' '] {
        assert!(!is_punctuation(&c));
    }
}

#[test]
fn identifier_characters() {
    for c in "abcdefghijklmnopqrstuvwxyzABCDEFGHIJKLMNOPQRSTUVWXYZ$_".chars() {
        assert!(is_identifier(&c));
        assert!(is_identifier_start(&c));
    }
    for c in "0123456789".chars() {
        assert!(is_identifier(&c));
        assert!(!is_identifier_start(&c));
    }
    for c in ['-', ' ', '.', '\u{e9}', '@', '[', '`', '{', '/', ':'] {
        assert!(!is_identifier(&c));
        assert!(!is_identifier_start(&c));
    }
}

#[test]
fn char_stream_reads_in_order() {
    let mut cs = char_stream::new(s("a\u{e9}c"));
    assert_eq!(cs.code, vec!['a', '\u{e9}', 'c']);
    assert_eq!(cs.index, 0);
    assert!(!cs.eof);
    assert_eq!(cs.peek(), 'a');
    assert_eq!(cs.read(), 'a');
    assert_eq!(cs.peek(), '\u{e9}');
    assert_eq!(cs.read(), '\u{e9}');
    assert!(!cs.eof);
    assert_eq!(cs.read(), 'c');
    assert!(cs.eof);
    assert_eq!(cs.index, 3);
}

#[test]
fn char_stream_on_empty_text_is_at_its_end() {
    let cs = char_stream::new(s(""));
    assert!(cs.eof);
    assert_eq!(cs.index, 0);
}

#[test]
fn empty_text_has_no_tokens() {
    assert_eq!(tokens_of(""), described(vec![]));
    assert_eq!(tokens_of("  \n\t;; "), described(vec![]));
    assert_eq!(tokens_of("// only a comment"), described(vec![]));
    assert_eq!(tokens_of("/* only\n a comment */"), described(vec![]));
}

#[test]
fn tokens_of_a_declaration() {
    assert_eq!(
        tokens_of("let x = 3 + 4 * 2"),
        described(vec![
            "Keyword: let",
            "Identifier: x",
            "Operator: =",
            "Number: 3",
            "Operator: +",
            "Number: 4",
            "Operator: *",
            "Number: 2",
        ]),
    );
}

#[test]
fn tokens_of_every_kind() {
    assert_eq!(
        tokens_of("const $a_1 = {k: \"s t\", n: null}; f(true, false, 1.5)[0].x **= y"),
        described(vec![
            "Keyword: const",
            "Identifier: $a_1",
            "Operator: =",
            "Punctuation: {",
            "Identifier: k",
            "Punctuation: :",
            "String: \"s t\"",
            "Punctuation: ,",
            "Identifier: n",
            "Punctuation: :",
            "Null literal",
            "Punctuation: }",
            "Identifier: f",
            "Punctuation: (",
            "Boolean: true",
            "Punctuation: ,",
            "Boolean: false",
            "Punctuation: ,",
            "Number: 1.5",
            "Punctuation: )",
            "Punctuation: [",
            "Number: 0",
            "Punctuation: ]",
            "Punctuation: .",
            "Identifier: x",
            "Operator: **=",
            "Identifier: y",
        ]),
    );
}

#[test]
fn comments_separate_tokens() {
    assert_eq!(
        tokens_of("a // rest of line\nb /* c */ d /**/ e /* * / */ f"),
        described(vec![
            "Identifier: a",
            "Identifier: b",
            "Identifier: d",
            "Identifier: e",
            "Identifier: f",
        ]),
    );
}

#[test]
fn slash_alone_is_an_operator() {
    assert_eq!(
        tokens_of("a / b /"),
        described(vec!["Identifier: a", "Operator: /", "Identifier: b", "Operator: /"]),
    );
}

#[test]
fn number_may_end_with_a_point() {
    assert_eq!(tokens_of("1. 007 12.50"), described(vec!["Number: 1.", "Number: 007", "Number: 12.50"]));
}

#[test]
fn point_before_digits_is_punctuation() {
    assert_eq!(tokens_of(".5"), described(vec!["Punctuation: .", "Number: 5"]));
}

#[test]
fn strings_keep_their_characters() {
    assert_eq!(
        tokens_of("\"\" \"a;b // c\" \"h\u{e9}\""),
        described(vec!["String: \"\"", "String: \"a;b // c\"", "String: \"h\u{e9}\""]),
    );
}

#[test]
fn words_next_to_keywords_are_identifiers() {
    assert_eq!(
        tokens_of("letter truex nulls fn iffy"),
        described(vec![
            "Identifier: letter",
            "Identifier: truex",
            "Identifier: nulls",
            "Identifier: fn",
            "Identifier: iffy",
        ]),
    );
}

#[test]
fn unexpected_character_is_an_error() {
    assert_eq!(tokens_of("let x = #"), Err(SyntaxError::UnexpectedCharacter));
    assert_eq!(tokens_of("@"), Err(SyntaxError::UnexpectedCharacter));
    assert_eq!(tokens_of("a ? b"), Err(SyntaxError::UnexpectedCharacter));
}

#[test]
fn misspelled_operator_is_an_error() {
    assert_eq!(tokens_of("a =! b"), Err(SyntaxError::InvalidOperator));
    assert_eq!(tokens_of("a === b"), Err(SyntaxError::InvalidOperator));
    assert_eq!(tokens_of("!a"), Err(SyntaxError::InvalidOperator));
    assert_eq!(tokens_of("a+-b"), Err(SyntaxError::InvalidOperator));
}

#[test]
fn unterminated_string_is_an_error() {
    assert_eq!(tokens_of("let s = \"abc"), Err(SyntaxError::UnterminatedString));
    assert_eq!(tokens_of("\""), Err(SyntaxError::UnterminatedString));
}

#[test]
fn unterminated_comment_is_an_error() {
    assert_eq!(tokens_of("a /* b"), Err(SyntaxError::UnterminatedComment));
    assert_eq!(tokens_of("/*"), Err(SyntaxError::UnterminatedComment));
    assert_eq!(tokens_of("/*/"), Err(SyntaxError::UnterminatedComment));
    assert_eq!(tokens_of("/* *"), Err(SyntaxError::UnterminatedComment));
}

#[test]
fn number_with_two_points_is_an_error() {
    assert_eq!(tokens_of("1.2.3"), Err(SyntaxError::InvalidNumber));
    assert_eq!(tokens_of("1.."), Err(SyntaxError::InvalidNumber));
}

#[test]
fn tokeniser_is_one_token_ahead() {
    let mut tk = tokeniser::new(s("a b")).expect("the first token is read");
    assert!(!tk.eof);
    assert!(matches!(tk.peek(), Token::Identifier(name) if name == "a"));
    assert!(matches!(tk.read(), Ok(Token::Identifier(name)) if name == "a"));
    assert!(!tk.eof);
    assert!(matches!(tk.peek(), Token::Identifier(name) if name == "b"));
    assert!(matches!(tk.read(), Ok(Token::Identifier(name)) if name == "b"));
    assert!(tk.eof);
    assert!(matches!(tk.read(), Ok(Token::Identifier(name)) if name == "b"));
    assert!(tk.eof);
}

#[test]
fn token_copy_is_the_same_token() {
    let tokens = vec![
        Token::String(s("a")),
        Token::Identifier(s("b")),
        Token::Keyword(s("let")),
        Token::Number(s("1.5")),
        Token::Boolean(true),
        Token::Null,
        Token::Operator(s("+")),
        Token::Punctuation('('),
    ];
    for token in tokens {
        assert_eq!(describe_token(&token.duplicate()), describe_token(&token));
    }
}

//! What parsing means.
//!
//! Each function says which tree a part of the parser builds from the
//! tokens, and where the tokeniser stands afterwards. All of them take a
//! depth, which every nested part and every turn of a loop lowers by one.

use vstd::prelude::*;
use crate::errors::SyntaxError;
use crate::parsing::ast_utils::NodeView;
use crate::parsing::tokens::TokenView;
use crate::parsing::tokens::assignment_operator;
use crate::parsing::tokens::binary_operator;
use crate::parsing::tokens::precedence;
use crate::parsing::tokeniser::TokeniserView;
use crate::parsing::tokeniser::token_read;
use crate::parsing::tokeniser::advanced;

verus! {

/// Whether the next token is the punctuation mark.
pub open spec fn next_is_punctuation(t: TokeniserView, c: char) -> bool {
    t.current == TokenView::Punctuation(c)
}

/// Whether the next token is the keyword.
pub open spec fn next_is_keyword(t: TokeniserView, word: Seq<char>) -> bool {
    t.current == TokenView::Keyword(word)
}

/// Reads a token, which must be the punctuation mark.
pub open spec fn punctuation_expected(t: TokeniserView, c: char) -> (
    TokeniserView,
    Result<(), SyntaxError>,
) {
    let (t1, r) = token_read(t);
    match r {
        Err(e) => (t1, Err(e)),
        Ok(token) => if token == TokenView::Punctuation(c) {
            (t1, Ok(()))
        } else {
            (t1, Err(SyntaxError::ExpectedPunctuation))
        },
    }
}

/// The name that an identifier node holds.
pub open spec fn name_of(node: NodeView) -> Result<Seq<char>, SyntaxError> {
    match node {
        NodeView::Identifier(name) => Ok(name),
        _ => Err(SyntaxError::ExpectedIdentifier),
    }
}

/// The names that the identifier nodes from position `from` on hold, after
/// those in `done`.
pub open spec fn names_of(nodes: Seq<NodeView>, from: nat, done: Seq<Seq<char>>) -> Result<
    Seq<Seq<char>>,
    SyntaxError,
>
    decreases nodes.len() - from,
{
    if from >= nodes.len() {
        Ok(done)
    } else {
        match name_of(nodes[from as int]) {
            Err(e) => Err(e),
            Ok(name) => names_of(nodes, from + 1, done.push(name)),
        }
    }
}

/// The text without its last character.
pub open spec fn without_last(text: Seq<char>) -> Seq<char> {
    if text.len() > 0 {
        text.drop_last()
    } else {
        text
    }
}

/// An atom: a bracketed expression, an array literal, a literal, an
/// identifier, a function definition, an object literal where statements
/// are not accepted, or a statement where they are.
pub open spec fn atom_parsed(t: TokeniserView, accept_statements: bool, depth: nat) -> (
    TokeniserView,
    Result<NodeView, SyntaxError>,
)
    decreases depth,
{
    if depth == 0 {
        (t, Err(SyntaxError::NestingTooDeep))
    } else {
        let rest = (depth - 1) as nat;
        let (t1, r) = token_read(t);
        match r {
            Err(e) => (t1, Err(e)),
            Ok(token) => match token {
                TokenView::Punctuation(c) => if c == '(' {
                    let (t2, e) = component_parsed(t1, true, 0, rest);
                    match e {
                        Err(e) => (t2, Err(e)),
                        Ok(exp) => {
                            let (t3, p) = punctuation_expected(t2, ')');
                            match p {
                                Err(e) => (t3, Err(e)),
                                Ok(_) => (t3, Ok(exp)),
                            }
                        },
                    }
                } else if c == '[' {
                    let (t2, i) = items_parsed(t1, ',', ']', rest);
                    match i {
                        Err(e) => (t2, Err(e)),
                        Ok(items) => (t2, Ok(NodeView::ArrayLiteral(items))),
                    }
                } else if accept_statements {
                    statement_parsed(t1, token, rest)
                } else if c == '{' {
                    object_literal_parsed(t1, Seq::empty(), Seq::empty(), rest)
                } else {
                    (t1, Err(SyntaxError::StatementNotAllowed))
                },
                TokenView::Text(s) => (t1, Ok(NodeView::Text(s))),
                TokenView::Number(s) => (t1, Ok(NodeView::Number(s))),
                TokenView::Identifier(s) => (t1, Ok(NodeView::Identifier(s))),
                TokenView::Boolean(b) => (t1, Ok(NodeView::Boolean(b))),
                TokenView::Null => (t1, Ok(NodeView::Null)),
                TokenView::Keyword(word) => if word == "function"@ {
                    function_definition_parsed(t1, rest)
                } else if accept_statements {
                    statement_parsed(t1, token, rest)
                } else {
                    (t1, Err(SyntaxError::StatementNotAllowed))
                },
                TokenView::Operator(_) => if accept_statements {
                    statement_parsed(t1, token, rest)
                } else {
                    (t1, Err(SyntaxError::StatementNotAllowed))
                },
            },
        }
    }
}

/// A statement whose first token, `token`, has been read.
pub open spec fn statement_parsed(t: TokeniserView, token: TokenView, depth: nat) -> (
    TokeniserView,
    Result<NodeView, SyntaxError>,
)
    decreases depth,
{
    if depth == 0 {
        (t, Err(SyntaxError::NestingTooDeep))
    } else {
        let rest = (depth - 1) as nat;
        match token {
            TokenView::Keyword(word) => if word == "let"@ {
                declaration_parsed(t, false, rest)
            } else if word == "const"@ {
                declaration_parsed(t, true, rest)
            } else if word == "if"@ {
                if_parsed(t, rest)
            } else if word == "return"@ {
                return_parsed(t, rest)
            } else if word == "continue"@ {
                (t, Ok(NodeView::Continue))
            } else if word == "break"@ {
                (t, Ok(NodeView::Break))
            } else if word == "while"@ {
                while_parsed(t, rest)
            } else if word == "for"@ {
                for_parsed(t, rest)
            } else {
                (t, Err(SyntaxError::UnknownKeyword))
            },
            TokenView::Punctuation(c) => if c == '{' {
                block_parsed(t, false, true, rest)
            } else {
                (t, Err(SyntaxError::UnexpectedToken))
            },
            _ => (t, Err(SyntaxError::UnexpectedToken)),
        }
    }
}

/// The three parts of the head of a `for`, with the brackets around them
/// if there are any.
pub open spec fn for_head_parsed(t: TokeniserView, depth: nat) -> (
    TokeniserView,
    Result<(NodeView, NodeView, NodeView), SyntaxError>,
)
    decreases depth,
{
    if depth == 0 {
        (t, Err(SyntaxError::NestingTooDeep))
    } else {
        let rest = (depth - 1) as nat;
        let bracketed = next_is_punctuation(t, '(');
        let (t0, opened) = if bracketed {
            token_read(t)
        } else {
            (t, Ok(t.current))
        };
        match opened {
            Err(e) => (t0, Err(e)),
            Ok(_) => {
                let (t1, d) = component_parsed(t0, true, 0, rest);
                match d {
                    Err(e) => (t1, Err(e)),
                    Ok(decl) => {
                        let (t2, c) = component_parsed(t1, true, 0, rest);
                        match c {
                            Err(e) => (t2, Err(e)),
                            Ok(check) => {
                                let (t3, i) = component_parsed(t2, true, 0, rest);
                                match i {
                                    Err(e) => (t3, Err(e)),
                                    Ok(incr) => if bracketed {
                                        let (t4, p) = punctuation_expected(t3, ')');
                                        match p {
                                            Err(e) => (t4, Err(e)),
                                            Ok(_) => (t4, Ok((decl, check, incr))),
                                        }
                                    } else {
                                        (t3, Ok((decl, check, incr)))
                                    },
                                }
                            },
                        }
                    },
                }
            },
        }
    }
}

/// The `while` that a `for` stands for: the block of the declaration and a
/// `while` whose body runs the body of the `for` and then its increment.
pub open spec fn while_for(decl: NodeView, check: NodeView, incr: NodeView, body: NodeView) -> NodeView {
    NodeView::Block(
        seq![
            decl,
            NodeView::While {
                check: Box::new(check),
                body: Box::new(NodeView::Block(seq![body, incr])),
            },
        ],
    )
}

/// A `for`, as the `while` that it stands for.
pub open spec fn for_parsed(t: TokeniserView, depth: nat) -> (
    TokeniserView,
    Result<NodeView, SyntaxError>,
)
    decreases depth,
{
    if depth == 0 {
        (t, Err(SyntaxError::NestingTooDeep))
    } else {
        let rest = (depth - 1) as nat;
        let (t1, h) = for_head_parsed(t, rest);
        match h {
            Err(e) => (t1, Err(e)),
            Ok((decl, check, incr)) => {
                let (t2, b) = component_parsed(t1, true, 0, rest);
                match b {
                    Err(e) => (t2, Err(e)),
                    Ok(body) => (t2, Ok(while_for(decl, check, incr, body))),
                }
            },
        }
    }
}

/// A `while`: its condition and its body.
pub open spec fn while_parsed(t: TokeniserView, depth: nat) -> (
    TokeniserView,
    Result<NodeView, SyntaxError>,
)
    decreases depth,
{
    if depth == 0 {
        (t, Err(SyntaxError::NestingTooDeep))
    } else {
        let rest = (depth - 1) as nat;
        let (t1, c) = component_parsed(t, false, 0, rest);
        match c {
            Err(e) => (t1, Err(e)),
            Ok(check) => {
                let (t2, b) = component_parsed(t1, true, 0, rest);
                match b {
                    Err(e) => (t2, Err(e)),
                    Ok(body) => (
                        t2,
                        Ok(NodeView::While { check: Box::new(check), body: Box::new(body) }),
                    ),
                }
            },
        }
    }
}

/// A `return` with its value.
pub open spec fn return_parsed(t: TokeniserView, depth: nat) -> (
    TokeniserView,
    Result<NodeView, SyntaxError>,
)
    decreases depth,
{
    if depth == 0 {
        (t, Err(SyntaxError::NestingTooDeep))
    } else {
        let (t1, v) = component_parsed(t, false, 0, (depth - 1) as nat);
        match v {
            Err(e) => (t1, Err(e)),
            Ok(value) => (t1, Ok(NodeView::Return(Box::new(value)))),
        }
    }
}

/// An `if`: its condition, its body, and what follows an `else`.
pub open spec fn if_parsed(t: TokeniserView, depth: nat) -> (
    TokeniserView,
    Result<NodeView, SyntaxError>,
)
    decreases depth,
{
    if depth == 0 {
        (t, Err(SyntaxError::NestingTooDeep))
    } else {
        let rest = (depth - 1) as nat;
        let (t1, c) = component_parsed(t, false, 0, rest);
        match c {
            Err(e) => (t1, Err(e)),
            Ok(check) => {
                let (t2, b) = component_parsed(t1, true, 0, rest);
                match b {
                    Err(e) => (t2, Err(e)),
                    Ok(body) => if next_is_keyword(t2, "else"@) {
                        let (t3, r) = token_read(t2);
                        match r {
                            Err(e) => (t3, Err(e)),
                            Ok(_) => {
                                let (t4, o) = component_parsed(t3, true, 0, rest);
                                match o {
                                    Err(e) => (t4, Err(e)),
                                    Ok(otherwise) => (
                                        t4,
                                        Ok(
                                            NodeView::If {
                                                check: Box::new(check),
                                                body: Box::new(body),
                                                otherwise: Some(Box::new(otherwise)),
                                            },
                                        ),
                                    ),
                                }
                            },
                        }
                    } else {
                        (
                            t2,
                            Ok(
                                NodeView::If {
                                    check: Box::new(check),
                                    body: Box::new(body),
                                    otherwise: None,
                                },
                            ),
                        )
                    },
                }
            },
        }
    }
}

/// A function definition: its name, its parameters in brackets, and its
/// body in braces.
pub open spec fn function_definition_parsed(t: TokeniserView, depth: nat) -> (
    TokeniserView,
    Result<NodeView, SyntaxError>,
)
    decreases depth,
{
    if depth == 0 {
        (t, Err(SyntaxError::NestingTooDeep))
    } else {
        let rest = (depth - 1) as nat;
        let (t1, n) = atom_parsed(t, false, rest);
        match n {
            Err(e) => (t1, Err(e)),
            Ok(name_node) => match name_of(name_node) {
                Err(e) => (t1, Err(e)),
                Ok(name) => {
                    let (t2, a) = delimited_parsed(t1, '(', ',', ')', rest);
                    match a {
                        Err(e) => (t2, Err(e)),
                        Ok(arg_nodes) => match names_of(arg_nodes, 0, Seq::empty()) {
                            Err(e) => (t2, Err(e)),
                            Ok(params) => {
                                let (t3, b) = block_parsed(t2, true, true, rest);
                                match b {
                                    Err(e) => (t3, Err(e)),
                                    Ok(NodeView::Block(statements)) => (
                                        t3,
                                        Ok(
                                            NodeView::FunctionDefinition {
                                                name,
                                                params,
                                                statements,
                                            },
                                        ),
                                    ),
                                    Ok(_) => (t3, Err(SyntaxError::UnexpectedToken)),
                                }
                            },
                        },
                    }
                },
            },
        }
    }
}

/// The rest of an object literal, after the pairs in `keys` and `values`.
/// A key alone stands for the pair of the key and the variable of its name.
pub open spec fn object_literal_parsed(
    t: TokeniserView,
    keys: Seq<Seq<char>>,
    values: Seq<NodeView>,
    depth: nat,
) -> (TokeniserView, Result<NodeView, SyntaxError>)
    decreases depth,
{
    if depth == 0 {
        (t, Err(SyntaxError::NestingTooDeep))
    } else if t.eof {
        (t, Ok(NodeView::ObjectLiteral { keys, values }))
    } else {
        let rest = (depth - 1) as nat;
        let (t1, r) = token_read(t);
        match r {
            Err(e) => (t1, Err(e)),
            Ok(TokenView::Identifier(id)) => if next_is_punctuation(t1, ',') || next_is_punctuation(
                t1,
                '}',
            ) {
                let (t2, r2) = token_read(t1);
                match r2 {
                    Err(e) => (t2, Err(e)),
                    Ok(_) => if next_is_punctuation(t1, '}') {
                        (
                            t2,
                            Ok(
                                NodeView::ObjectLiteral {
                                    keys: keys.push(id),
                                    values: values.push(NodeView::Identifier(id)),
                                },
                            ),
                        )
                    } else {
                        object_literal_parsed(
                            t2,
                            keys.push(id),
                            values.push(NodeView::Identifier(id)),
                            rest,
                        )
                    },
                }
            } else {
                let (t2, p) = punctuation_expected(t1, ':');
                match p {
                    Err(e) => (t2, Err(e)),
                    Ok(_) => {
                        let (t3, v) = component_parsed(t2, false, 0, rest);
                        match v {
                            Err(e) => (t3, Err(e)),
                            Ok(value) => {
                                let (t4, n) = token_read(t3);
                                match n {
                                    Err(e) => (t4, Err(e)),
                                    Ok(next) => if next == TokenView::Punctuation('}') {
                                        (
                                            t4,
                                            Ok(
                                                NodeView::ObjectLiteral {
                                                    keys: keys.push(id),
                                                    values: values.push(value),
                                                },
                                            ),
                                        )
                                    } else if next == TokenView::Punctuation(',') {
                                        object_literal_parsed(
                                            t4,
                                            keys.push(id),
                                            values.push(value),
                                            rest,
                                        )
                                    } else {
                                        (t4, Err(SyntaxError::UnexpectedToken))
                                    },
                                }
                            },
                        }
                    },
                }
            },
            Ok(_) => (t1, Err(SyntaxError::ExpectedIdentifier)),
        }
    }
}

/// A declaration: `let` or `const` has been read, and an assignment must
/// follow.
pub open spec fn declaration_parsed(t: TokeniserView, constant: bool, depth: nat) -> (
    TokeniserView,
    Result<NodeView, SyntaxError>,
)
    decreases depth,
{
    if depth == 0 {
        (t, Err(SyntaxError::NestingTooDeep))
    } else {
        let (t1, n) = component_parsed(t, false, 0, (depth - 1) as nat);
        match n {
            Err(e) => (t1, Err(e)),
            Ok(NodeView::Assignment { left, operator, right }) => (
                t1,
                Ok(NodeView::Declaration { constant, left, operator, right }),
            ),
            Ok(_) => (t1, Err(SyntaxError::ExpectedAssignment)),
        }
    }
}

/// The items of a delimited list that follow those in `done`.
pub open spec fn delimited_items_parsed(
    t: TokeniserView,
    delim: char,
    end: char,
    done: Seq<NodeView>,
    depth: nat,
) -> (TokeniserView, Result<Seq<NodeView>, SyntaxError>)
    decreases depth,
{
    if depth == 0 {
        (t, Err(SyntaxError::NestingTooDeep))
    } else if next_is_punctuation(t, end) {
        (t, Ok(done))
    } else {
        let rest = (depth - 1) as nat;
        let (t1, i) = component_parsed(t, false, 0, rest);
        match i {
            Err(e) => (t1, Err(e)),
            Ok(item) => if !next_is_punctuation(t1, delim) {
                (t1, Ok(done.push(item)))
            } else {
                let (t2, r) = token_read(t1);
                match r {
                    Err(e) => (t2, Err(e)),
                    Ok(_) => delimited_items_parsed(t2, delim, end, done.push(item), rest),
                }
            },
        }
    }
}

/// A list of expressions separated by `delim`, up to and with the `end` that
/// closes it.
pub open spec fn items_parsed(t: TokeniserView, delim: char, end: char, depth: nat) -> (
    TokeniserView,
    Result<Seq<NodeView>, SyntaxError>,
)
    decreases depth,
{
    if depth == 0 {
        (t, Err(SyntaxError::NestingTooDeep))
    } else {
        delimited_finished(
            delimited_items_parsed(t, delim, end, Seq::empty(), (depth - 1) as nat),
            end,
        )
    }
}

/// A list of expressions between `start` and `end`, separated by `delim`.
pub open spec fn delimited_parsed(
    t: TokeniserView,
    start: char,
    delim: char,
    end: char,
    depth: nat,
) -> (TokeniserView, Result<Seq<NodeView>, SyntaxError>)
    decreases depth,
{
    if depth == 0 {
        (t, Err(SyntaxError::NestingTooDeep))
    } else {
        let (t1, s) = punctuation_expected(t, start);
        match s {
            Err(e) => (t1, Err(e)),
            Ok(_) => {
                items_parsed(t1, delim, end, (depth - 1) as nat)
            },
        }
    }
}

/// The end of a delimited list: after the items, the mark that ends the
/// list is read.
pub open spec fn delimited_finished(
    items: (TokeniserView, Result<Seq<NodeView>, SyntaxError>),
    end: char,
) -> (TokeniserView, Result<Seq<NodeView>, SyntaxError>) {
    match items.1 {
        Err(e) => (items.0, Err(e)),
        Ok(done) => {
            let (t3, e) = punctuation_expected(items.0, end);
            match e {
                Err(e) => (t3, Err(e)),
                Ok(_) => (t3, Ok(done)),
            }
        },
    }
}

/// `me`, or the assignment to `me` where an assignment operator follows.
/// `a op= b` stands for `a = a op b`.
pub open spec fn assignment_parsed(t: TokeniserView, me: NodeView, depth: nat) -> (
    TokeniserView,
    Result<NodeView, SyntaxError>,
)
    decreases depth,
{
    if depth == 0 {
        (t, Err(SyntaxError::NestingTooDeep))
    } else {
        match t.current {
            TokenView::Operator(op) => if assignment_operator(op) {
                let (t1, r) = token_read(t);
                match r {
                    Err(e) => (t1, Err(e)),
                    Ok(_) => {
                        let (t2, v) = component_parsed(t1, false, 0, (depth - 1) as nat);
                        match v {
                            Err(e) => (t2, Err(e)),
                            Ok(right) => if op == "="@ {
                                (
                                    t2,
                                    Ok(
                                        NodeView::Assignment {
                                            left: Box::new(me),
                                            operator: op,
                                            right: Box::new(right),
                                        },
                                    ),
                                )
                            } else {
                                (
                                    t2,
                                    Ok(
                                        NodeView::Assignment {
                                            left: Box::new(me),
                                            operator: "="@,
                                            right: Box::new(
                                                NodeView::Binary {
                                                    left: Box::new(me),
                                                    operator: without_last(op),
                                                    right: Box::new(right),
                                                },
                                            ),
                                        },
                                    ),
                                )
                            },
                        }
                    },
                }
            } else {
                (t, Ok(me))
            },
            _ => (t, Ok(me)),
        }
    }
}

/// `me`, or the operations on `me` with the binary operators that follow
/// and bind more tightly than `my_precedence`.
pub open spec fn binary_parsed(t: TokeniserView, me: NodeView, my_precedence: i32, depth: nat) -> (
    TokeniserView,
    Result<NodeView, SyntaxError>,
)
    decreases depth,
{
    if depth == 0 {
        (t, Err(SyntaxError::NestingTooDeep))
    } else {
        let rest = (depth - 1) as nat;
        match t.current {
            TokenView::Operator(op) => if binary_operator(op) && precedence(op) > my_precedence {
                let (t1, r) = token_read(t);
                match r {
                    Err(e) => (t1, Err(e)),
                    Ok(_) => {
                        let (t2, v) = component_parsed(t1, false, precedence(op), rest);
                        match v {
                            Err(e) => (t2, Err(e)),
                            Ok(them) => binary_parsed(
                                t2,
                                NodeView::Binary {
                                    left: Box::new(me),
                                    operator: op,
                                    right: Box::new(them),
                                },
                                my_precedence,
                                rest,
                            ),
                        }
                    },
                }
            } else {
                (t, Ok(me))
            },
            _ => (t, Ok(me)),
        }
    }
}

/// `node`, or the call of `node` where a bracket follows; and whether it is
/// a call.
pub open spec fn call_parsed(t: TokeniserView, node: NodeView, depth: nat) -> (
    TokeniserView,
    Result<(bool, NodeView), SyntaxError>,
)
    decreases depth,
{
    if depth == 0 {
        (t, Err(SyntaxError::NestingTooDeep))
    } else if next_is_punctuation(t, '(') {
        let (t1, a) = delimited_parsed(t, '(', ',', ')', (depth - 1) as nat);
        match a {
            Err(e) => (t1, Err(e)),
            Ok(args) => (t1, Ok((true, NodeView::Call { callee: Box::new(node), args }))),
        }
    } else {
        (t, Ok((false, node)))
    }
}

/// `node`, or the access to a property of `node` where a point follows;
/// and whether it is an access. `a.b` stands for `a["b"]`.
pub open spec fn property_parsed(t: TokeniserView, node: NodeView, depth: nat) -> (
    TokeniserView,
    Result<(bool, NodeView), SyntaxError>,
)
    decreases depth,
{
    if depth == 0 {
        (t, Err(SyntaxError::NestingTooDeep))
    } else if next_is_punctuation(t, '.') {
        let (t1, r) = token_read(t);
        match r {
            Err(e) => (t1, Err(e)),
            Ok(_) => {
                let (t2, k) = atom_parsed(t1, false, (depth - 1) as nat);
                match k {
                    Err(e) => (t2, Err(e)),
                    Ok(NodeView::Identifier(id)) => (
                        t2,
                        Ok(
                            (
                                true,
                                NodeView::PropertyAccess {
                                    object: Box::new(node),
                                    property: Box::new(NodeView::Text(id)),
                                },
                            ),
                        ),
                    ),
                    Ok(_) => (t2, Err(SyntaxError::ExpectedIdentifier)),
                }
            },
        }
    } else {
        (t, Ok((false, node)))
    }
}

/// `node`, or the access to a computed property of `node` where a square
/// bracket follows; and whether it is an access.
pub open spec fn computed_property_parsed(t: TokeniserView, node: NodeView, depth: nat) -> (
    TokeniserView,
    Result<(bool, NodeView), SyntaxError>,
)
    decreases depth,
{
    if depth == 0 {
        (t, Err(SyntaxError::NestingTooDeep))
    } else if next_is_punctuation(t, '[') {
        let (t1, r) = token_read(t);
        match r {
            Err(e) => (t1, Err(e)),
            Ok(_) => {
                let (t2, k) = atom_parsed(t1, false, (depth - 1) as nat);
                match k {
                    Err(e) => (t2, Err(e)),
                    Ok(key) => {
                        let (t3, p) = punctuation_expected(t2, ']');
                        match p {
                            Err(e) => (t3, Err(e)),
                            Ok(_) => (
                                t3,
                                Ok(
                                    (
                                        true,
                                        NodeView::PropertyAccess {
                                            object: Box::new(node),
                                            property: Box::new(key),
                                        },
                                    ),
                                ),
                            ),
                        }
                    },
                }
            },
        }
    } else {
        (t, Ok((false, node)))
    }
}

/// `node` with one round of what can follow it: a property, a computed
/// property and a call, in this order; and whether any of them followed.
pub open spec fn suffix_parsed(t: TokeniserView, node: NodeView, depth: nat) -> (
    TokeniserView,
    Result<(bool, NodeView), SyntaxError>,
)
    decreases depth,
{
    if depth == 0 {
        (t, Err(SyntaxError::NestingTooDeep))
    } else {
        let rest = (depth - 1) as nat;
        let (t1, a) = property_parsed(t, node, rest);
        match a {
            Err(e) => (t1, Err(e)),
            Ok((was_acc, acc_node)) => {
                let (t2, c) = computed_property_parsed(t1, acc_node, rest);
                match c {
                    Err(e) => (t2, Err(e)),
                    Ok((was_comp, comp_node)) => {
                        let (t3, f) = call_parsed(t2, comp_node, rest);
                        match f {
                            Err(e) => (t3, Err(e)),
                            Ok((was_call, call_node)) => (
                                t3,
                                Ok((was_acc || was_comp || was_call, call_node)),
                            ),
                        }
                    },
                }
            },
        }
    }
}

/// `node` with everything that follows it, round after round, until a round
/// finds nothing or the tokens end.
pub open spec fn suffixes_parsed(t: TokeniserView, node: NodeView, depth: nat) -> (
    TokeniserView,
    Result<NodeView, SyntaxError>,
)
    decreases depth,
{
    if depth == 0 {
        (t, Err(SyntaxError::NestingTooDeep))
    } else if t.eof {
        (t, Ok(node))
    } else {
        let rest = (depth - 1) as nat;
        let (t1, s) = suffix_parsed(t, node, rest);
        match s {
            Err(e) => (t1, Err(e)),
            Ok((found, next)) => if !found {
                (t1, Ok(next))
            } else {
                suffixes_parsed(t1, next, rest)
            },
        }
    }
}

/// A component: an atom with what follows it, then an assignment to it if
/// one follows, then the binary operations on it.
pub open spec fn component_parsed(
    t: TokeniserView,
    accept_statements: bool,
    my_precedence: i32,
    depth: nat,
) -> (TokeniserView, Result<NodeView, SyntaxError>)
    decreases depth,
{
    if depth == 0 {
        (t, Err(SyntaxError::NestingTooDeep))
    } else {
        let rest = (depth - 1) as nat;
        let (t1, a) = atom_parsed(t, accept_statements, rest);
        match a {
            Err(e) => (t1, Err(e)),
            Ok(atom) => {
                let (t2, s) = suffixes_parsed(t1, atom, rest);
                match s {
                    Err(e) => (t2, Err(e)),
                    Ok(node) => {
                        let (t3, m) = assignment_parsed(t2, node, rest);
                        match m {
                            Err(e) => (t3, Err(e)),
                            Ok(mba) => binary_parsed(t3, mba, my_precedence, rest),
                        }
                    },
                }
            },
        }
    }
}

/// The statements of a block that follow those in `done`, up to the end of
/// the tokens or, where a brace is to end the block, up to that brace.
pub open spec fn block_items_parsed(
    t: TokeniserView,
    expect_last_brace: bool,
    done: Seq<NodeView>,
    depth: nat,
) -> (TokeniserView, Result<Seq<NodeView>, SyntaxError>)
    decreases depth,
{
    if depth == 0 {
        (t, Err(SyntaxError::NestingTooDeep))
    } else if t.eof || (expect_last_brace && next_is_punctuation(t, '}')) {
        (t, Ok(done))
    } else {
        let rest = (depth - 1) as nat;
        let (t1, s) = component_parsed(t, true, 0, rest);
        match s {
            Err(e) => (t1, Err(e)),
            Ok(statement) => block_items_parsed(t1, expect_last_brace, done.push(statement), rest),
        }
    }
}

/// A block, with or without the braces around it.
pub open spec fn block_parsed(
    t: TokeniserView,
    expect_first_brace: bool,
    expect_last_brace: bool,
    depth: nat,
) -> (TokeniserView, Result<NodeView, SyntaxError>)
    decreases depth,
{
    if depth == 0 {
        (t, Err(SyntaxError::NestingTooDeep))
    } else {
        let (t1, f) = if expect_first_brace {
            punctuation_expected(t, '{')
        } else {
            (t, Ok(()))
        };
        match f {
            Err(e) => (t1, Err(e)),
            Ok(_) => {
                block_finished(
                    block_items_parsed(t1, expect_last_brace, Seq::empty(), (depth - 1) as nat),
                    expect_last_brace,
                )
            },
        }
    }
}

/// The end of a block: after the statements, the brace that ends the block
/// is read, if there is to be one.
pub open spec fn block_finished(
    items: (TokeniserView, Result<Seq<NodeView>, SyntaxError>),
    expect_last_brace: bool,
) -> (TokeniserView, Result<NodeView, SyntaxError>) {
    match items.1 {
        Err(e) => (items.0, Err(e)),
        Ok(statements) => if expect_last_brace {
            let (t3, l) = punctuation_expected(items.0, '}');
            match l {
                Err(e) => (t3, Err(e)),
                Ok(_) => (t3, Ok(NodeView::Block(statements))),
            }
        } else {
            (items.0, Ok(NodeView::Block(statements)))
        },
    }
}

/// The statements of a program: a block without braces that takes all the
/// tokens.
pub open spec fn program_parsed(t: TokeniserView, depth: nat) -> (
    TokeniserView,
    Result<Seq<NodeView>, SyntaxError>,
) {
    let (t1, b) = block_parsed(t, false, false, depth);
    match b {
        Err(e) => (t1, Err(e)),
        Ok(NodeView::Block(statements)) => (t1, Ok(statements)),
        Ok(_) => (t1, Err(SyntaxError::UnexpectedToken)),
    }
}

/// The tokeniser on `code` before it has read anything.
pub open spec fn tokeniser_on(code: Seq<char>) -> TokeniserView {
    TokeniserView { code, index: 0, current: TokenView::Number("0"@), eof: false }
}

/// The statements of the program that `code` spells, parsed to the depth
/// `depth`.
pub open spec fn source_parsed(code: Seq<char>, depth: nat) -> Result<Seq<NodeView>, SyntaxError> {
    match advanced(tokeniser_on(code)) {
        (_, Err(e)) => Err(e),
        (t, Ok(_)) => program_parsed(t, depth).1,
    }
}

} // verus!

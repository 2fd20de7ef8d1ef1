//! The parser: recursive descent, with precedence climbing for the binary
//! operators. It builds the tree in one go and does what
//! [`crate::parsing::grammar`] says.

use vstd::prelude::*;
use vstd::string::StringExecFns;
use vstd::string::StrSliceExecFns;
use crate::errors::SyntaxError;
use crate::parsing::ast_utils::ASTNode;
use crate::parsing::ast_utils::NodeView;
use crate::parsing::ast_utils::nodes_view;
use crate::parsing::ast_utils::clone_node;
use crate::parsing::ast_utils::else_view;
use crate::parsing::ast_utils::WhileProperties;
use crate::parsing::ast_utils::FunctionDefinitionProperties;
use crate::parsing::ast_utils::IfProperties;
use crate::parsing::ast_utils::ObjectLiteralProperties;
use crate::parsing::ast_utils::BinaryProperties;
use crate::parsing::ast_utils::DeclarationProperties;
use crate::parsing::ast_utils::CallProperties;
use crate::parsing::ast_utils::AccessProperties;
use crate::parsing::tokens::Token;
use crate::parsing::tokens::TokenView;
use crate::parsing::tokens::is_assignment_operator;
use crate::parsing::tokens::is_binary_operator;
use crate::parsing::tokens::get_operator_precedence;
use crate::parsing::tokeniser;
use crate::parsing::tokeniser::Tokeniser;
use crate::parsing::tokeniser::TokeniserView;
use crate::parsing::tokeniser::advanced;
use crate::parsing::grammar::name_of;
use crate::parsing::grammar::names_of;
use crate::parsing::grammar::without_last;
use crate::parsing::grammar::atom_parsed;
use crate::parsing::grammar::statement_parsed;
use crate::parsing::grammar::for_head_parsed;
use crate::parsing::grammar::for_parsed;
use crate::parsing::grammar::while_for;
use crate::parsing::grammar::while_parsed;
use crate::parsing::grammar::return_parsed;
use crate::parsing::grammar::if_parsed;
use crate::parsing::grammar::function_definition_parsed;
use crate::parsing::grammar::object_literal_parsed;
use crate::parsing::grammar::declaration_parsed;
use crate::parsing::grammar::delimited_items_parsed;
use crate::parsing::grammar::delimited_parsed;
use crate::parsing::grammar::items_parsed;
use crate::parsing::grammar::delimited_finished;
use crate::parsing::grammar::block_finished;
use crate::parsing::grammar::assignment_parsed;
use crate::parsing::grammar::binary_parsed;
use crate::parsing::grammar::call_parsed;
use crate::parsing::grammar::property_parsed;
use crate::parsing::grammar::computed_property_parsed;
use crate::parsing::grammar::suffix_parsed;
use crate::parsing::grammar::suffixes_parsed;
use crate::parsing::grammar::component_parsed;
use crate::parsing::grammar::block_items_parsed;
use crate::parsing::grammar::block_parsed;
use crate::parsing::grammar::program_parsed;
use crate::text::texts;
use crate::text::spells;
use crate::text::push_text;

verus! {

/// The parser. It does not act like a stream: it builds the tree in one go.
pub struct Parser {
    pub tokens: Tokeniser,
}

/// The view of a result that holds a tree.
pub open spec fn node_result(r: Result<ASTNode, SyntaxError>) -> Result<NodeView, SyntaxError> {
    match r {
        Ok(node) => Ok(node@),
        Err(e) => Err(e),
    }
}

/// The view of a result that holds a list of trees.
pub open spec fn nodes_result(r: Result<Vec<ASTNode>, SyntaxError>) -> Result<
    Seq<NodeView>,
    SyntaxError,
> {
    match r {
        Ok(nodes) => Ok(nodes_view(nodes)),
        Err(e) => Err(e),
    }
}

/// The view of a result that holds a tree and whether something was found.
pub open spec fn found_result(r: Result<(bool, ASTNode), SyntaxError>) -> Result<
    (bool, NodeView),
    SyntaxError,
> {
    match r {
        Ok((found, node)) => Ok((found, node@)),
        Err(e) => Err(e),
    }
}

/// How deep a program may nest, and how long its lists may be.
pub const DEPTH_LIMIT: u64 = 0xffff_ffff_ffff_ffff;

/// Adds a tree to a list.
fn push_node(nodes: &mut Vec<ASTNode>, node: ASTNode)
    ensures
        nodes_view(*final(nodes)) == nodes_view(*old(nodes)).push(node@),
{
    let ghost view = node@;
    nodes.push(node);
    assert(nodes_view(*nodes) =~= nodes_view(*old(nodes)).push(view));
}

/// The name that an identifier node holds.
fn ident_as_string(ident: &ASTNode) -> (r: Result<String, SyntaxError>)
    ensures
        match r {
            Ok(name) => name_of(ident@) == Ok::<Seq<char>, SyntaxError>(name@),
            Err(e) => name_of(ident@) == Err::<Seq<char>, SyntaxError>(e),
        },
{
    match ident {
        ASTNode::Identifier(name) => Ok(name.clone()),
        _ => Err(SyntaxError::ExpectedIdentifier),
    }
}

/// The names that identifier nodes hold.
fn idents_as_strings(idents: &Vec<ASTNode>) -> (r: Result<Vec<String>, SyntaxError>)
    ensures
        match r {
            Ok(names) => names_of(nodes_view(*idents), 0, Seq::empty()) == Ok::<
                Seq<Seq<char>>,
                SyntaxError,
            >(texts(names)),
            Err(e) => names_of(nodes_view(*idents), 0, Seq::empty()) == Err::<
                Seq<Seq<char>>,
                SyntaxError,
            >(e),
        },
{
    let mut names: Vec<String> = Vec::new();
    let mut i: usize = 0;
    assert(texts(names) =~= Seq::<Seq<char>>::empty());
    while i < idents.len()
        invariant
            i <= idents.len(),
            names_of(nodes_view(*idents), 0, Seq::empty()) == names_of(
                nodes_view(*idents),
                i as nat,
                texts(names),
            ),
        decreases idents.len() - i,
    {
        match ident_as_string(&idents[i]) {
            Ok(name) => {
                push_text(&mut names, name);
            },
            Err(e) => {
                return Err(e);
            },
        }
        i += 1;
    }
    Ok(names)
}

/// The operator without the `=` at its end.
fn strip_assignment(op: &String) -> (r: String)
    ensures
        r@ == without_last(op@),
{
    let n: usize = op.as_str().unicode_len();
    if n == 0 {
        op.clone()
    } else {
        let r = String::from_str(op.as_str().substring_char(0, n - 1));
        assert(r@ =~= op@.drop_last());
        r
    }
}

/// The `while` that a `for` stands for: the body of the loop runs, then the
/// increment; the declaration stands before the loop, in a block with it.
fn for_as_while(decl: ASTNode, check: ASTNode, incr: ASTNode, body: ASTNode) -> (r: ASTNode)
    ensures
        r@ == while_for(decl@, check@, incr@, body@),
{
    let ghost views = (decl@, check@, incr@, body@);
    let mut inner: Vec<ASTNode> = Vec::new();
    inner.push(body);
    inner.push(incr);
    assert(nodes_view(inner) =~= seq![views.3, views.2]);
    let block = ASTNode::BlockStatement(inner);
    assert(block@ == NodeView::Block(seq![views.3, views.2]));
    let wl = ASTNode::WhileLoop(WhileProperties { check: Box::new(check), body: Box::new(block) });
    assert(wl@ == NodeView::While {
        check: Box::new(views.1),
        body: Box::new(NodeView::Block(seq![views.3, views.2])),
    });
    let mut outer: Vec<ASTNode> = Vec::new();
    outer.push(decl);
    outer.push(wl);
    assert(nodes_view(outer) =~= seq![
        views.0,
        NodeView::While {
            check: Box::new(views.1),
            body: Box::new(NodeView::Block(seq![views.3, views.2])),
        },
    ]);
    ASTNode::BlockStatement(outer)
}

impl Parser {
    fn parse_atom(&mut self, accept_statements: bool, depth: u64) -> (r: Result<
        ASTNode,
        SyntaxError,
    >)
        requires
            old(self).tokens.wf(),
        ensures
            final(self).tokens.wf(),
            (final(self).tokens@, node_result(r)) == atom_parsed(
                old(self).tokens@,
                accept_statements,
                depth as nat,
            ),
        decreases depth,
    {
        if depth == 0 {
            return Err(SyntaxError::NestingTooDeep);
        }
        let t = match self.tokens.read() {
            Ok(t) => t,
            Err(e) => {
                return Err(e);
            },
        };
        match t {
            Token::Punctuation(pnc) => {
                if pnc == '(' {
                    let exp = match self.parse_component(true, 0, depth - 1) {
                        Ok(exp) => exp,
                        Err(e) => {
                            return Err(e);
                        },
                    };
                    match self.expect_punctuation(')') {
                        Ok(_) => Ok(exp),
                        Err(e) => Err(e),
                    }
                } else if pnc == '[' {
                    match self.parse_items(',', ']', depth - 1) {
                        Ok(items) => Ok(ASTNode::ArrayLiteral(items)),
                        Err(e) => Err(e),
                    }
                } else if accept_statements {
                    self.parse_statement(Token::Punctuation(pnc), depth - 1)
                } else if pnc == '{' {
                    self.parse_object_literal(depth - 1)
                } else {
                    Err(SyntaxError::StatementNotAllowed)
                }
            },
            Token::String(st) => Ok(ASTNode::String(st)),
            Token::Number(n) => Ok(ASTNode::Number(n)),
            Token::Identifier(id) => Ok(ASTNode::Identifier(id)),
            Token::Boolean(bl) => Ok(ASTNode::Boolean(bl)),
            Token::Null => Ok(ASTNode::Null),
            Token::Keyword(kw) => {
                if spells(&kw, "function") {
                    self.parse_function_definition(depth - 1)
                } else if accept_statements {
                    self.parse_statement(Token::Keyword(kw), depth - 1)
                } else {
                    Err(SyntaxError::StatementNotAllowed)
                }
            },
            Token::Operator(op) => {
                if accept_statements {
                    self.parse_statement(Token::Operator(op), depth - 1)
                } else {
                    Err(SyntaxError::StatementNotAllowed)
                }
            },
        }
    }

    fn parse_statement(&mut self, t: Token, depth: u64) -> (r: Result<ASTNode, SyntaxError>)
        requires
            old(self).tokens.wf(),
        ensures
            final(self).tokens.wf(),
            (final(self).tokens@, node_result(r)) == statement_parsed(
                old(self).tokens@,
                t@,
                depth as nat,
            ),
        decreases depth,
    {
        if depth == 0 {
            return Err(SyntaxError::NestingTooDeep);
        }
        match t {
            Token::Keyword(kw) => {
                if spells(&kw, "let") {
                    self.parse_variable_declaration(false, depth - 1)
                } else if spells(&kw, "const") {
                    self.parse_variable_declaration(true, depth - 1)
                } else if spells(&kw, "if") {
                    self.parse_if_statement(depth - 1)
                } else if spells(&kw, "return") {
                    self.parse_return_statement(depth - 1)
                } else if spells(&kw, "continue") {
                    Ok(ASTNode::ContinueStatement)
                } else if spells(&kw, "break") {
                    Ok(ASTNode::BreakStatement)
                } else if spells(&kw, "while") {
                    self.parse_while_loop(depth - 1)
                } else if spells(&kw, "for") {
                    self.parse_for_loop(depth - 1)
                } else {
                    Err(SyntaxError::UnknownKeyword)
                }
            },
            Token::Punctuation(pnc) => {
                if pnc == '{' {
                    self.parse_block_statement(false, true, depth - 1)
                } else {
                    Err(SyntaxError::UnexpectedToken)
                }
            },
            _ => Err(SyntaxError::UnexpectedToken),
        }
    }

    /// The declaration, the condition and the increment of a `for`. The
    /// brackets around them are optional.
    fn parse_for_head(&mut self, depth: u64) -> (r: Result<(ASTNode, ASTNode, ASTNode), SyntaxError>)
        requires
            old(self).tokens.wf(),
        ensures
            final(self).tokens.wf(),
            (
                final(self).tokens@,
                match r {
                    Ok((d, c, i)) => Ok::<(NodeView, NodeView, NodeView), SyntaxError>(
                        (d@, c@, i@),
                    ),
                    Err(e) => Err(e),
                },
            ) == for_head_parsed(old(self).tokens@, depth as nat),
        decreases depth,
    {
        if depth == 0 {
            return Err(SyntaxError::NestingTooDeep);
        }
        let mut expect_last: bool = false;
        if self.is_next_punctuation('(') {
            match self.tokens.read() {
                Ok(_) => {},
                Err(e) => {
                    return Err(e);
                },
            }
            expect_last = true;
        }
        let decl = match self.parse_component(true, 0, depth - 1) {
            Ok(n) => n,
            Err(e) => {
                return Err(e);
            },
        };
        let check = match self.parse_component(true, 0, depth - 1) {
            Ok(n) => n,
            Err(e) => {
                return Err(e);
            },
        };
        let incr = match self.parse_component(true, 0, depth - 1) {
            Ok(n) => n,
            Err(e) => {
                return Err(e);
            },
        };
        if expect_last {
            match self.expect_punctuation(')') {
                Ok(_) => {},
                Err(e) => {
                    return Err(e);
                },
            }
        }
        Ok((decl, check, incr))
    }

    /// A `for` becomes a `while`: the body of the loop runs, then the
    /// increment; the declaration stands before the loop.
    fn parse_for_loop(&mut self, depth: u64) -> (r: Result<ASTNode, SyntaxError>)
        requires
            old(self).tokens.wf(),
        ensures
            final(self).tokens.wf(),
            (final(self).tokens@, node_result(r)) == for_parsed(old(self).tokens@, depth as nat),
        decreases depth,
    {
        if depth == 0 {
            return Err(SyntaxError::NestingTooDeep);
        }
        let (decl, check, incr) = match self.parse_for_head(depth - 1) {
            Ok(head) => head,
            Err(e) => {
                return Err(e);
            },
        };
        let body = match self.parse_component(true, 0, depth - 1) {
            Ok(n) => n,
            Err(e) => {
                return Err(e);
            },
        };
        Ok(for_as_while(decl, check, incr, body))
    }

    fn parse_while_loop(&mut self, depth: u64) -> (r: Result<ASTNode, SyntaxError>)
        requires
            old(self).tokens.wf(),
        ensures
            final(self).tokens.wf(),
            (final(self).tokens@, node_result(r)) == while_parsed(old(self).tokens@, depth as nat),
        decreases depth,
    {
        if depth == 0 {
            return Err(SyntaxError::NestingTooDeep);
        }
        let check = match self.parse_component(false, 0, depth - 1) {
            Ok(n) => n,
            Err(e) => {
                return Err(e);
            },
        };
        let body = match self.parse_component(true, 0, depth - 1) {
            Ok(n) => n,
            Err(e) => {
                return Err(e);
            },
        };
        Ok(ASTNode::WhileLoop(WhileProperties { check: Box::new(check), body: Box::new(body) }))
    }

    fn parse_return_statement(&mut self, depth: u64) -> (r: Result<ASTNode, SyntaxError>)
        requires
            old(self).tokens.wf(),
        ensures
            final(self).tokens.wf(),
            (final(self).tokens@, node_result(r)) == return_parsed(
                old(self).tokens@,
                depth as nat,
            ),
        decreases depth,
    {
        if depth == 0 {
            return Err(SyntaxError::NestingTooDeep);
        }
        match self.parse_component(false, 0, depth - 1) {
            Ok(val) => Ok(ASTNode::ReturnStatement(Box::new(val))),
            Err(e) => Err(e),
        }
    }

    fn parse_if_statement(&mut self, depth: u64) -> (r: Result<ASTNode, SyntaxError>)
        requires
            old(self).tokens.wf(),
        ensures
            final(self).tokens.wf(),
            (final(self).tokens@, node_result(r)) == if_parsed(old(self).tokens@, depth as nat),
        decreases depth,
    {
        if depth == 0 {
            return Err(SyntaxError::NestingTooDeep);
        }
        let check_exp = match self.parse_component(false, 0, depth - 1) {
            Ok(n) => n,
            Err(e) => {
                return Err(e);
            },
        };
        let body = match self.parse_component(true, 0, depth - 1) {
            Ok(n) => n,
            Err(e) => {
                return Err(e);
            },
        };
        let mut else_exp: Option<Box<ASTNode>> = None;
        if self.is_next_keyword("else") {
            match self.tokens.read() {
                Ok(_) => {},
                Err(e) => {
                    return Err(e);
                },
            }
            match self.parse_component(true, 0, depth - 1) {
                Ok(n) => {
                    else_exp = Some(Box::new(n));
                },
                Err(e) => {
                    return Err(e);
                },
            }
        }
        assert(else_view(else_exp) == match else_exp {
            Some(e) => Some(Box::new(e@)),
            None => None::<Box<NodeView>>,
        });
        Ok(
            ASTNode::IfStatement(
                IfProperties { check_exp: Box::new(check_exp), body: Box::new(body), else_exp },
            ),
        )
    }

    fn parse_function_definition(&mut self, depth: u64) -> (r: Result<ASTNode, SyntaxError>)
        requires
            old(self).tokens.wf(),
        ensures
            final(self).tokens.wf(),
            (final(self).tokens@, node_result(r)) == function_definition_parsed(
                old(self).tokens@,
                depth as nat,
            ),
        decreases depth,
    {
        if depth == 0 {
            return Err(SyntaxError::NestingTooDeep);
        }
        let name_ident = match self.parse_atom(false, depth - 1) {
            Ok(n) => n,
            Err(e) => {
                return Err(e);
            },
        };
        let name = match ident_as_string(&name_ident) {
            Ok(n) => n,
            Err(e) => {
                return Err(e);
            },
        };
        let arg_nodes = match self.parse_delimited('(', ',', ')', depth - 1) {
            Ok(n) => n,
            Err(e) => {
                return Err(e);
            },
        };
        let args = match idents_as_strings(&arg_nodes) {
            Ok(n) => n,
            Err(e) => {
                return Err(e);
            },
        };
        let body_block = match self.parse_block_statement(true, true, depth - 1) {
            Ok(n) => n,
            Err(e) => {
                return Err(e);
            },
        };
        match body_block {
            ASTNode::BlockStatement(body) => Ok(
                ASTNode::FunctionDefinition(FunctionDefinitionProperties { name, args, body }),
            ),
            _ => Err(SyntaxError::UnexpectedToken),
        }
    }

    fn parse_object_literal(&mut self, depth: u64) -> (r: Result<ASTNode, SyntaxError>)
        requires
            old(self).tokens.wf(),
        ensures
            final(self).tokens.wf(),
            (final(self).tokens@, node_result(r)) == object_literal_parsed(
                old(self).tokens@,
                Seq::empty(),
                Seq::empty(),
                depth as nat,
            ),
        decreases depth,
    {
        let mut keys: Vec<String> = Vec::new();
        let mut values: Vec<ASTNode> = Vec::new();
        let mut left: u64 = depth;
        assert(texts(keys) =~= Seq::<Seq<char>>::empty());
        assert(nodes_view(values) =~= Seq::<NodeView>::empty());
        loop
            invariant
                left <= depth,
                self.tokens.wf(),
                object_literal_parsed(old(self).tokens@, Seq::empty(), Seq::empty(), depth as nat)
                    == object_literal_parsed(
                    self.tokens@,
                    texts(keys),
                    nodes_view(values),
                    left as nat,
                ),
            decreases left,
        {
            if left == 0 {
                return Err(SyntaxError::NestingTooDeep);
            }
            if self.tokens.eof {
                return Ok(ASTNode::ObjectLiteral(ObjectLiteralProperties { keys, values }));
            }
            let t = match self.tokens.read() {
                Ok(t) => t,
                Err(e) => {
                    return Err(e);
                },
            };
            let id = match t {
                Token::Identifier(id) => id,
                _ => {
                    return Err(SyntaxError::ExpectedIdentifier);
                },
            };
            if self.is_next_punctuation(',') || self.is_next_punctuation('}') {
                let closing: bool = self.is_next_punctuation('}');
                match self.tokens.read() {
                    Ok(_) => {},
                    Err(e) => {
                        return Err(e);
                    },
                }
                push_text(&mut keys, id.clone());
                push_node(&mut values, ASTNode::Identifier(id));
                if closing {
                    return Ok(ASTNode::ObjectLiteral(ObjectLiteralProperties { keys, values }));
                }
            } else {
                match self.expect_punctuation(':') {
                    Ok(_) => {},
                    Err(e) => {
                        return Err(e);
                    },
                }
                let value = match self.parse_component(false, 0, left - 1) {
                    Ok(n) => n,
                    Err(e) => {
                        return Err(e);
                    },
                };
                let nt = match self.tokens.read() {
                    Ok(t) => t,
                    Err(e) => {
                        return Err(e);
                    },
                };
                push_text(&mut keys, id);
                push_node(&mut values, value);
                match nt {
                    Token::Punctuation(pnc) => {
                        if pnc == '}' {
                            return Ok(
                                ASTNode::ObjectLiteral(ObjectLiteralProperties { keys, values }),
                            );
                        } else if pnc != ',' {
                            return Err(SyntaxError::UnexpectedToken);
                        }
                    },
                    _ => {
                        return Err(SyntaxError::UnexpectedToken);
                    },
                }
            }
            left = left - 1;
        }
    }

    fn parse_variable_declaration(&mut self, constant: bool, depth: u64) -> (r: Result<
        ASTNode,
        SyntaxError,
    >)
        requires
            old(self).tokens.wf(),
        ensures
            final(self).tokens.wf(),
            (final(self).tokens@, node_result(r)) == declaration_parsed(
                old(self).tokens@,
                constant,
                depth as nat,
            ),
        decreases depth,
    {
        if depth == 0 {
            return Err(SyntaxError::NestingTooDeep);
        }
        let nxt = match self.parse_component(false, 0, depth - 1) {
            Ok(n) => n,
            Err(e) => {
                return Err(e);
            },
        };
        match nxt {
            ASTNode::Assignment(assignment) => Ok(
                ASTNode::Declaration(DeclarationProperties { constant, assignment }),
            ),
            _ => Err(SyntaxError::ExpectedAssignment),
        }
    }

    fn parse_delimited(&mut self, start: char, delim: char, end: char, depth: u64) -> (r: Result<
        Vec<ASTNode>,
        SyntaxError,
    >)
        requires
            old(self).tokens.wf(),
        ensures
            final(self).tokens.wf(),
            (final(self).tokens@, nodes_result(r)) == delimited_parsed(
                old(self).tokens@,
                start,
                delim,
                end,
                depth as nat,
            ),
        decreases depth,
    {
        if depth == 0 {
            return Err(SyntaxError::NestingTooDeep);
        }
        match self.expect_punctuation(start) {
            Ok(_) => {},
            Err(e) => {
                return Err(e);
            },
        }
        self.parse_items(delim, end, depth - 1)
    }

    /// The items of a list, up to and with the mark that closes it.
    fn parse_items(&mut self, delim: char, end: char, depth: u64) -> (r: Result<
        Vec<ASTNode>,
        SyntaxError,
    >)
        requires
            old(self).tokens.wf(),
        ensures
            final(self).tokens.wf(),
            (final(self).tokens@, nodes_result(r)) == items_parsed(
                old(self).tokens@,
                delim,
                end,
                depth as nat,
            ),
        decreases depth,
    {
        if depth == 0 {
            return Err(SyntaxError::NestingTooDeep);
        }
        let ghost whole = items_parsed(old(self).tokens@, delim, end, depth as nat);
        let mut args: Vec<ASTNode> = Vec::new();
        let mut left: u64 = depth - 1;
        assert(nodes_view(args) =~= Seq::<NodeView>::empty());
        loop
            invariant_except_break
                whole == delimited_finished(
                    delimited_items_parsed(self.tokens@, delim, end, nodes_view(args), left as nat),
                    end,
                ),
            invariant
                left < depth,
                self.tokens.wf(),
                whole == items_parsed(old(self).tokens@, delim, end, depth as nat),
            ensures
                self.tokens.wf(),
                whole == delimited_finished(
                    (self.tokens@, Ok::<Seq<NodeView>, SyntaxError>(nodes_view(args))),
                    end,
                ),
            decreases left,
        {
            if left == 0 {
                return Err(SyntaxError::NestingTooDeep);
            }
            if self.is_next_punctuation(end) {
                break ;
            }
            let item = match self.parse_component(false, 0, left - 1) {
                Ok(n) => n,
                Err(e) => {
                    return Err(e);
                },
            };
            push_node(&mut args, item);
            if !self.is_next_punctuation(delim) {
                break ;
            }
            match self.tokens.read() {
                Ok(_) => {},
                Err(e) => {
                    return Err(e);
                },
            }
            left = left - 1;
        }
        match self.expect_punctuation(end) {
            Ok(_) => Ok(args),
            Err(e) => Err(e),
        }
    }

    fn might_be_assignment(&mut self, me: ASTNode, depth: u64) -> (r: Result<ASTNode, SyntaxError>)
        requires
            old(self).tokens.wf(),
        ensures
            final(self).tokens.wf(),
            (final(self).tokens@, node_result(r)) == assignment_parsed(
                old(self).tokens@,
                me@,
                depth as nat,
            ),
        decreases depth,
    {
        if depth == 0 {
            return Err(SyntaxError::NestingTooDeep);
        }
        let op: String = match self.tokens.peek() {
            Token::Operator(op) => {
                if is_assignment_operator(op) {
                    op.clone()
                } else {
                    return Ok(me);
                }
            },
            _ => {
                return Ok(me);
            },
        };
        match self.tokens.read() {
            Ok(_) => {},
            Err(e) => {
                return Err(e);
            },
        }
        let right = match self.parse_component(false, 0, depth - 1) {
            Ok(n) => n,
            Err(e) => {
                return Err(e);
            },
        };
        if spells(&op, "=") {
            return Ok(
                ASTNode::Assignment(
                    BinaryProperties { left: Box::new(me), operator: op, right: Box::new(right) },
                ),
            );
        }
        let bin_op: String = strip_assignment(&op);
        let ghost right_view = right@;
        let bin = ASTNode::BinaryNode(
            BinaryProperties {
                left: Box::new(clone_node(&me)),
                operator: bin_op,
                right: Box::new(right),
            },
        );
        assert(bin@ == NodeView::Binary {
            left: Box::new(me@),
            operator: without_last(op@),
            right: Box::new(right_view),
        });
        Ok(
            ASTNode::Assignment(
                BinaryProperties {
                    left: Box::new(me),
                    operator: String::from_str("="),
                    right: Box::new(bin),
                },
            ),
        )
    }

    fn might_be_binary(&mut self, me: ASTNode, my_precedence: i32, depth: u64) -> (r: Result<
        ASTNode,
        SyntaxError,
    >)
        requires
            old(self).tokens.wf(),
        ensures
            final(self).tokens.wf(),
            (final(self).tokens@, node_result(r)) == binary_parsed(
                old(self).tokens@,
                me@,
                my_precedence,
                depth as nat,
            ),
        decreases depth,
    {
        if depth == 0 {
            return Err(SyntaxError::NestingTooDeep);
        }
        let op: String = match self.tokens.peek() {
            Token::Operator(op) => {
                if is_binary_operator(op) && get_operator_precedence(op) > my_precedence {
                    op.clone()
                } else {
                    return Ok(me);
                }
            },
            _ => {
                return Ok(me);
            },
        };
        let their_prec: i32 = get_operator_precedence(&op);
        match self.tokens.read() {
            Ok(_) => {},
            Err(e) => {
                return Err(e);
            },
        }
        let them = match self.parse_component(false, their_prec, depth - 1) {
            Ok(n) => n,
            Err(e) => {
                return Err(e);
            },
        };
        let node = ASTNode::BinaryNode(
            BinaryProperties { left: Box::new(me), operator: op, right: Box::new(them) },
        );
        self.might_be_binary(node, my_precedence, depth - 1)
    }

    fn might_be_call(&mut self, node: ASTNode, depth: u64) -> (r: Result<
        (bool, ASTNode),
        SyntaxError,
    >)
        requires
            old(self).tokens.wf(),
        ensures
            final(self).tokens.wf(),
            (final(self).tokens@, found_result(r)) == call_parsed(
                old(self).tokens@,
                node@,
                depth as nat,
            ),
        decreases depth,
    {
        if depth == 0 {
            return Err(SyntaxError::NestingTooDeep);
        }
        if self.is_next_punctuation('(') {
            return match self.parse_delimited('(', ',', ')', depth - 1) {
                Ok(args) => Ok(
                    (true, ASTNode::FunctionCall(CallProperties { callee: Box::new(node), args })),
                ),
                Err(e) => Err(e),
            };
        }
        Ok((false, node))
    }

    fn might_be_property_access(&mut self, node: ASTNode, depth: u64) -> (r: Result<
        (bool, ASTNode),
        SyntaxError,
    >)
        requires
            old(self).tokens.wf(),
        ensures
            final(self).tokens.wf(),
            (final(self).tokens@, found_result(r)) == property_parsed(
                old(self).tokens@,
                node@,
                depth as nat,
            ),
        decreases depth,
    {
        if depth == 0 {
            return Err(SyntaxError::NestingTooDeep);
        }
        if self.is_next_punctuation('.') {
            match self.tokens.read() {
                Ok(_) => {},
                Err(e) => {
                    return Err(e);
                },
            }
            let key = match self.parse_atom(false, depth - 1) {
                Ok(n) => n,
                Err(e) => {
                    return Err(e);
                },
            };
            return match key {
                ASTNode::Identifier(id) => {
                    let property = ASTNode::String(id);
                    assert(property@ == NodeView::Text(id@));
                    Ok(
                        (
                            true,
                            ASTNode::PropertyAccess(
                                AccessProperties {
                                    object: Box::new(node),
                                    property: Box::new(property),
                                },
                            ),
                        ),
                    )
                },
                _ => Err(SyntaxError::ExpectedIdentifier),
            };
        }
        Ok((false, node))
    }

    fn might_be_computed_property_access(&mut self, node: ASTNode, depth: u64) -> (r: Result<
        (bool, ASTNode),
        SyntaxError,
    >)
        requires
            old(self).tokens.wf(),
        ensures
            final(self).tokens.wf(),
            (final(self).tokens@, found_result(r)) == computed_property_parsed(
                old(self).tokens@,
                node@,
                depth as nat,
            ),
        decreases depth,
    {
        if depth == 0 {
            return Err(SyntaxError::NestingTooDeep);
        }
        if self.is_next_punctuation('[') {
            match self.tokens.read() {
                Ok(_) => {},
                Err(e) => {
                    return Err(e);
                },
            }
            let key = match self.parse_atom(false, depth - 1) {
                Ok(n) => n,
                Err(e) => {
                    return Err(e);
                },
            };
            return match self.expect_punctuation(']') {
                Ok(_) => Ok(
                    (
                        true,
                        ASTNode::PropertyAccess(
                            AccessProperties { object: Box::new(node), property: Box::new(key) },
                        ),
                    ),
                ),
                Err(e) => Err(e),
            };
        }
        Ok((false, node))
    }

    /// One round of what can follow `node`.
    fn parse_suffix(&mut self, node: ASTNode, depth: u64) -> (r: Result<(bool, ASTNode), SyntaxError>)
        requires
            old(self).tokens.wf(),
        ensures
            final(self).tokens.wf(),
            (final(self).tokens@, found_result(r)) == suffix_parsed(
                old(self).tokens@,
                node@,
                depth as nat,
            ),
        decreases depth,
    {
        if depth == 0 {
            return Err(SyntaxError::NestingTooDeep);
        }
        let (was_acc, acc_node) = match self.might_be_property_access(node, depth - 1) {
            Ok(found) => found,
            Err(e) => {
                return Err(e);
            },
        };
        let (was_comp, comp_node) = match self.might_be_computed_property_access(
            acc_node,
            depth - 1,
        ) {
            Ok(found) => found,
            Err(e) => {
                return Err(e);
            },
        };
        let (was_call, call_node) = match self.might_be_call(comp_node, depth - 1) {
            Ok(found) => found,
            Err(e) => {
                return Err(e);
            },
        };
        Ok((was_acc || was_comp || was_call, call_node))
    }

    /// Everything that follows `node`.
    fn parse_suffixes(&mut self, node: ASTNode, depth: u64) -> (r: Result<ASTNode, SyntaxError>)
        requires
            old(self).tokens.wf(),
        ensures
            final(self).tokens.wf(),
            (final(self).tokens@, node_result(r)) == suffixes_parsed(
                old(self).tokens@,
                node@,
                depth as nat,
            ),
        decreases depth,
    {
        let mut current = node;
        let mut left: u64 = depth;
        loop
            invariant
                left <= depth,
                self.tokens.wf(),
                suffixes_parsed(old(self).tokens@, node@, depth as nat) == suffixes_parsed(
                    self.tokens@,
                    current@,
                    left as nat,
                ),
            decreases left,
        {
            if left == 0 {
                return Err(SyntaxError::NestingTooDeep);
            }
            if self.tokens.eof {
                return Ok(current);
            }
            let (found, next) = match self.parse_suffix(current, left - 1) {
                Ok(found) => found,
                Err(e) => {
                    return Err(e);
                },
            };
            if !found {
                return Ok(next);
            }
            current = next;
            left = left - 1;
        }
    }

    fn parse_component(&mut self, accept_statements: bool, prec: i32, depth: u64) -> (r: Result<
        ASTNode,
        SyntaxError,
    >)
        requires
            old(self).tokens.wf(),
        ensures
            final(self).tokens.wf(),
            (final(self).tokens@, node_result(r)) == component_parsed(
                old(self).tokens@,
                accept_statements,
                prec,
                depth as nat,
            ),
        decreases depth,
    {
        if depth == 0 {
            return Err(SyntaxError::NestingTooDeep);
        }
        let atom = match self.parse_atom(accept_statements, depth - 1) {
            Ok(n) => n,
            Err(e) => {
                return Err(e);
            },
        };
        let node = match self.parse_suffixes(atom, depth - 1) {
            Ok(n) => n,
            Err(e) => {
                return Err(e);
            },
        };
        let mba = match self.might_be_assignment(node, depth - 1) {
            Ok(n) => n,
            Err(e) => {
                return Err(e);
            },
        };
        self.might_be_binary(mba, prec, depth - 1)
    }

    fn parse_block_statement(&mut self, expect_first_brace: bool, expect_last_brace: bool, depth: u64) -> (r:
        Result<ASTNode, SyntaxError>)
        requires
            old(self).tokens.wf(),
        ensures
            final(self).tokens.wf(),
            (final(self).tokens@, node_result(r)) == block_parsed(
                old(self).tokens@,
                expect_first_brace,
                expect_last_brace,
                depth as nat,
            ),
        decreases depth,
    {
        if depth == 0 {
            return Err(SyntaxError::NestingTooDeep);
        }
        if expect_first_brace {
            match self.expect_punctuation('{') {
                Ok(_) => {},
                Err(e) => {
                    return Err(e);
                },
            }
        }
        let ghost whole = block_parsed(
            old(self).tokens@,
            expect_first_brace,
            expect_last_brace,
            depth as nat,
        );
        let mut statements: Vec<ASTNode> = Vec::new();
        let mut left: u64 = depth - 1;
        assert(nodes_view(statements) =~= Seq::<NodeView>::empty());
        loop
            invariant_except_break
                whole == block_finished(
                    block_items_parsed(
                        self.tokens@,
                        expect_last_brace,
                        nodes_view(statements),
                        left as nat,
                    ),
                    expect_last_brace,
                ),
            invariant
                left < depth,
                self.tokens.wf(),
                whole == block_parsed(
                    old(self).tokens@,
                    expect_first_brace,
                    expect_last_brace,
                    depth as nat,
                ),
            ensures
                self.tokens.wf(),
                whole == block_finished(
                    (self.tokens@, Ok::<Seq<NodeView>, SyntaxError>(nodes_view(statements))),
                    expect_last_brace,
                ),
            decreases left,
        {
            if left == 0 {
                return Err(SyntaxError::NestingTooDeep);
            }
            if self.tokens.eof || (expect_last_brace && self.is_next_punctuation('}')) {
                break ;
            }
            let statement = match self.parse_component(true, 0, left - 1) {
                Ok(n) => n,
                Err(e) => {
                    return Err(e);
                },
            };
            push_node(&mut statements, statement);
            left = left - 1;
        }
        if expect_last_brace {
            match self.expect_punctuation('}') {
                Ok(_) => {},
                Err(e) => {
                    return Err(e);
                },
            }
        }
        Ok(ASTNode::BlockStatement(statements))
    }

    /// Parses the whole program.
    pub fn generate_ast(&mut self) -> (r: Result<Vec<ASTNode>, SyntaxError>)
        requires
            old(self).tokens.wf(),
        ensures
            final(self).tokens.wf(),
            (final(self).tokens@, nodes_result(r)) == program_parsed(
                old(self).tokens@,
                DEPTH_LIMIT as nat,
            ),
    {
        self.generate_ast_within(DEPTH_LIMIT)
    }

    /// Parses the whole program, as far as it nests no deeper and has no
    /// longer lists than `depth` allows.
    pub fn generate_ast_within(&mut self, depth: u64) -> (r: Result<Vec<ASTNode>, SyntaxError>)
        requires
            old(self).tokens.wf(),
        ensures
            final(self).tokens.wf(),
            (final(self).tokens@, nodes_result(r)) == program_parsed(
                old(self).tokens@,
                depth as nat,
            ),
    {
        match self.parse_block_statement(false, false, depth) {
            Ok(ASTNode::BlockStatement(statements)) => Ok(statements),
            Ok(_) => Err(SyntaxError::UnexpectedToken),
            Err(e) => Err(e),
        }
    }
}

/// A parser on `code`, with the first token read.
pub fn new(code: String) -> (r: Result<Parser, SyntaxError>)
    ensures
        match r {
            Ok(p) => p.tokens.wf() && (p.tokens@, Ok::<(), SyntaxError>(())) == advanced(
                TokeniserView {
                    code: code@,
                    index: 0,
                    current: TokenView::Number("0"@),
                    eof: false,
                },
            ),
            Err(e) => advanced(
                TokeniserView {
                    code: code@,
                    index: 0,
                    current: TokenView::Number("0"@),
                    eof: false,
                },
            ).1 == Err::<(), SyntaxError>(e),
        },
{
    match tokeniser::new(code) {
        Ok(tokens) => Ok(Parser { tokens }),
        Err(e) => Err(e),
    }
}

} // verus!

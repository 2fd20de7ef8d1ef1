use kaffee::errors::SyntaxError;
use kaffee::parsing::ast_utils::clone_node;
use kaffee::parsing::ast_utils::node_equal;
use kaffee::parsing::ast_utils::ASTNode;
use kaffee::parsing::ast_utils::AccessProperties;
use kaffee::parsing::ast_utils::BinaryProperties;
use kaffee::parsing::ast_utils::CallProperties;
use kaffee::parsing::ast_utils::DeclarationProperties;
use kaffee::parsing::ast_utils::FunctionDefinitionProperties;
use kaffee::parsing::ast_utils::IfProperties;
use kaffee::parsing::ast_utils::ObjectLiteralProperties;
use kaffee::parsing::ast_utils::WhileProperties;
use kaffee::parsing::parser;
use kaffee::parsing::printer::describe_ast;

fn s(text: &str) -> String {
    String::from(text)
}

fn parse(code: &str) -> Result<Vec<ASTNode>, SyntaxError> {
    let mut ps = parser::new(s(code))?;
    ps.generate_ast()
}

fn ident(name: &str) -> ASTNode {
    ASTNode::Identifier(s(name))
}

fn number(text: &str) -> ASTNode {
    ASTNode::Number(s(text))
}

fn string(text: &str) -> ASTNode {
    ASTNode::String(s(text))
}

fn binary(left: ASTNode, operator: &str, right: ASTNode) -> BinaryProperties {
    BinaryProperties { left: Box::new(left), operator: s(operator), right: Box::new(right) }
}

fn operation(left: ASTNode, operator: &str, right: ASTNode) -> ASTNode {
    ASTNode::BinaryNode(binary(left, operator, right))
}

fn assignment(left: ASTNode, right: ASTNode) -> ASTNode {
    ASTNode::Assignment(binary(left, "=", right))
}

fn declaration(constant: bool, name: &str, right: ASTNode) -> ASTNode {
    ASTNode::Declaration(
        DeclarationProperties { constant, assignment: binary(ident(name), "=", right) },
    )
}

fn access(object: ASTNode, property: ASTNode) -> ASTNode {
    ASTNode::PropertyAccess(
        AccessProperties { object: Box::new(object), property: Box::new(property) },
    )
}

fn call(callee: ASTNode, args: Vec<ASTNode>) -> ASTNode {
    ASTNode::FunctionCall(CallProperties { callee: Box::new(callee), args })
}

#[test]
fn empty_source_is_an_empty_program() {
    assert_eq!(parse(""), Ok(vec![]));
    assert_eq!(parse(" ; // nothing\n"), Ok(vec![]));
}

#[test]
fn declaration_with_precedence() {
    assert_eq!(
        parse("let x = 3 + 4 * 2"),
        Ok(vec![declaration(
            false,
            "x",
            operation(number("3"), "+", operation(number("4"), "*", number("2"))),
        )]),
    );
}

#[test]
fn constant_declaration() {
    assert_eq!(parse("const c = \"v\""), Ok(vec![declaration(true, "c", string("v"))]));
}

#[test]
fn equal_precedence_groups_to_the_left() {
    assert_eq!(
        parse("x = 10 - 2 - 3"),
        Ok(vec![assignment(
            ident("x"),
            operation(operation(number("10"), "-", number("2")), "-", number("3")),
        )]),
    );
}

#[test]
fn brackets_group() {
    assert_eq!(
        parse("x = (1 + 2) * 3"),
        Ok(vec![assignment(
            ident("x"),
            operation(operation(number("1"), "+", number("2")), "*", number("3")),
        )]),
    );
}

#[test]
fn comparison_binds_looser_than_arithmetic() {
    assert_eq!(
        parse("x = a + 1 < b && c"),
        Ok(vec![assignment(
            ident("x"),
            operation(
                operation(operation(ident("a"), "+", number("1")), "<", ident("b")),
                "&&",
                ident("c"),
            ),
        )]),
    );
}

#[test]
fn compound_assignment_becomes_assignment_of_operation() {
    assert_eq!(
        parse("a += 1"),
        Ok(vec![assignment(ident("a"), operation(ident("a"), "+", number("1")))]),
    );
    assert_eq!(
        parse("a.b **= 2"),
        Ok(vec![assignment(
            access(ident("a"), string("b")),
            operation(access(ident("a"), string("b")), "**", number("2")),
        )]),
    );
}

#[test]
fn literals() {
    assert_eq!(
        parse("f(true, false, null, \"s\", 1.5, x)"),
        Ok(vec![call(
            ident("f"),
            vec![
                ASTNode::Boolean(true),
                ASTNode::Boolean(false),
                ASTNode::Null,
                string("s"),
                number("1.5"),
                ident("x"),
            ],
        )]),
    );
}

#[test]
fn call_without_arguments() {
    assert_eq!(parse("f()"), Ok(vec![call(ident("f"), vec![])]));
}

#[test]
fn chained_calls_and_accesses() {
    assert_eq!(
        parse("a.b[0](1).c"),
        Ok(vec![access(
            call(access(access(ident("a"), string("b")), number("0")), vec![number("1")]),
            string("c"),
        )]),
    );
}

#[test]
fn array_literal() {
    assert_eq!(
        parse("let a = [1, x, [2]]"),
        Ok(vec![declaration(
            false,
            "a",
            ASTNode::ArrayLiteral(vec![number("1"), ident("x"), ASTNode::ArrayLiteral(vec![number("2")])]),
        )]),
    );
    assert_eq!(parse("let a = []"), Ok(vec![declaration(false, "a", ASTNode::ArrayLiteral(vec![]))]));
}

#[test]
fn object_literal() {
    assert_eq!(
        parse("let o = {a: 1, b, c: x + 1}"),
        Ok(vec![declaration(
            false,
            "o",
            ASTNode::ObjectLiteral(
                ObjectLiteralProperties {
                    keys: vec![s("a"), s("b"), s("c")],
                    values: vec![number("1"), ident("b"), operation(ident("x"), "+", number("1"))],
                },
            ),
        )]),
    );
}

#[test]
fn block_of_statements() {
    assert_eq!(
        parse("{ let a = 1; a = 2 }"),
        Ok(vec![ASTNode::BlockStatement(vec![
            declaration(false, "a", number("1")),
            assignment(ident("a"), number("2")),
        ])]),
    );
    assert_eq!(parse("{}"), Ok(vec![ASTNode::BlockStatement(vec![])]));
}

#[test]
fn if_with_and_without_else() {
    assert_eq!(
        parse("if a f() else g()"),
        Ok(vec![ASTNode::IfStatement(
            IfProperties {
                check_exp: Box::new(ident("a")),
                body: Box::new(call(ident("f"), vec![])),
                else_exp: Some(Box::new(call(ident("g"), vec![]))),
            },
        )]),
    );
    assert_eq!(
        parse("if a == 1 { break }"),
        Ok(vec![ASTNode::IfStatement(
            IfProperties {
                check_exp: Box::new(operation(ident("a"), "==", number("1"))),
                body: Box::new(ASTNode::BlockStatement(vec![ASTNode::BreakStatement])),
                else_exp: None,
            },
        )]),
    );
}

#[test]
fn while_loop() {
    assert_eq!(
        parse("while i < 3 { continue }"),
        Ok(vec![ASTNode::WhileLoop(
            WhileProperties {
                check: Box::new(operation(ident("i"), "<", number("3"))),
                body: Box::new(ASTNode::BlockStatement(vec![ASTNode::ContinueStatement])),
            },
        )]),
    );
}

#[test]
fn for_loop_becomes_a_while() {
    let expected = ASTNode::BlockStatement(vec![
        declaration(false, "i", number("0")),
        ASTNode::WhileLoop(
            WhileProperties {
                check: Box::new(operation(ident("i"), "<", number("3"))),
                body: Box::new(ASTNode::BlockStatement(vec![
                    call(ident("f"), vec![ident("i")]),
                    assignment(ident("i"), operation(ident("i"), "+", number("1"))),
                ])),
            },
        ),
    ]);
    assert_eq!(parse("for let i = 0 i < 3 i += 1 f(i)"), Ok(vec![clone_node(&expected)]));
    assert_eq!(parse("for (let i = 0; i < 3; i += 1) f(i)"), Ok(vec![expected]));
}

#[test]
fn function_definition() {
    assert_eq!(
        parse("function f(a, b) { return a + b }"),
        Ok(vec![ASTNode::FunctionDefinition(
            FunctionDefinitionProperties {
                name: s("f"),
                args: vec![s("a"), s("b")],
                body: vec![ASTNode::ReturnStatement(Box::new(operation(ident("a"), "+", ident("b"))))],
            },
        )]),
    );
    assert_eq!(
        parse("function g() {}"),
        Ok(vec![ASTNode::FunctionDefinition(
            FunctionDefinitionProperties { name: s("g"), args: vec![], body: vec![] },
        )]),
    );
}

#[test]
fn function_definition_as_a_value() {
    assert_eq!(
        parse("let f = function g(a) { }"),
        Ok(vec![declaration(
            false,
            "f",
            ASTNode::FunctionDefinition(
                FunctionDefinitionProperties { name: s("g"), args: vec![s("a")], body: vec![] },
            ),
        )]),
    );
}

#[test]
fn several_statements() {
    assert_eq!(
        parse("let a = 1\nlet b = 2; f(a)\n"),
        Ok(vec![
            declaration(false, "a", number("1")),
            declaration(false, "b", number("2")),
            call(ident("f"), vec![ident("a")]),
        ]),
    );
}

#[test]
fn lexical_error_stops_the_parser() {
    assert_eq!(parse("let x = #"), Err(SyntaxError::UnexpectedCharacter));
    assert_eq!(parse("#"), Err(SyntaxError::UnexpectedCharacter));
    assert_eq!(parse("let s = \"abc"), Err(SyntaxError::UnterminatedString));
    assert_eq!(parse("let n = 1.2.3"), Err(SyntaxError::InvalidNumber));
    assert_eq!(parse("a =! b"), Err(SyntaxError::InvalidOperator));
    assert_eq!(parse("a /* b"), Err(SyntaxError::UnterminatedComment));
}

#[test]
fn statement_in_an_expression_is_an_error() {
    assert_eq!(parse("let x = let"), Err(SyntaxError::StatementNotAllowed));
    assert_eq!(parse("x = + 1"), Err(SyntaxError::StatementNotAllowed));
    assert_eq!(parse("f(while)"), Err(SyntaxError::StatementNotAllowed));
    assert_eq!(parse("x = )"), Err(SyntaxError::StatementNotAllowed));
}

#[test]
fn keyword_that_starts_nothing_is_an_error() {
    assert_eq!(parse("else"), Err(SyntaxError::UnknownKeyword));
}

#[test]
fn token_that_starts_nothing_is_an_error() {
    assert_eq!(parse(")"), Err(SyntaxError::UnexpectedToken));
    assert_eq!(parse("+"), Err(SyntaxError::UnexpectedToken));
    assert_eq!(parse(","), Err(SyntaxError::UnexpectedToken));
    assert_eq!(parse("let o = {a: 1 b}"), Err(SyntaxError::UnexpectedToken));
}

#[test]
fn missing_punctuation_is_an_error() {
    assert_eq!(parse("f(1"), Err(SyntaxError::ExpectedPunctuation));
    assert_eq!(parse("(1 + 2"), Err(SyntaxError::ExpectedPunctuation));
    assert_eq!(parse("a[0"), Err(SyntaxError::ExpectedPunctuation));
    assert_eq!(parse("{ f()"), Err(SyntaxError::ExpectedPunctuation));
    assert_eq!(parse("function f { }"), Err(SyntaxError::ExpectedPunctuation));
    assert_eq!(parse("function f() return 1"), Err(SyntaxError::ExpectedPunctuation));
    assert_eq!(parse("let a = [1 2]"), Err(SyntaxError::ExpectedPunctuation));
    assert_eq!(parse("let o = {a 1}"), Err(SyntaxError::ExpectedPunctuation));
}

#[test]
fn missing_identifier_is_an_error() {
    assert_eq!(parse("function 1() {}"), Err(SyntaxError::ExpectedIdentifier));
    assert_eq!(parse("function f(1) {}"), Err(SyntaxError::ExpectedIdentifier));
    assert_eq!(parse("o.1"), Err(SyntaxError::ExpectedIdentifier));
    assert_eq!(parse("let o = {1: 2}"), Err(SyntaxError::ExpectedIdentifier));
    assert_eq!(parse("let o = {a: 1,}"), Err(SyntaxError::ExpectedIdentifier));
}

#[test]
fn declaration_without_assignment_is_an_error() {
    assert_eq!(parse("let x"), Err(SyntaxError::ExpectedAssignment));
    assert_eq!(parse("const x + 1"), Err(SyntaxError::ExpectedAssignment));
}

#[test]
fn helpers_look_at_the_next_token() {
    let mut ps = parser::new(s("( let )")).expect("the first token is read");
    assert!(ps.is_next_punctuation('('));
    assert!(!ps.is_next_punctuation(')'));
    assert!(!ps.is_next_keyword("let"));
    assert_eq!(ps.expect_punctuation('('), Ok(()));
    assert!(ps.is_next_keyword("let"));
    assert!(!ps.is_next_keyword("const"));
    assert!(!ps.is_next_punctuation('('));
    assert_eq!(ps.expect_punctuation(')'), Err(SyntaxError::ExpectedPunctuation));
    assert!(ps.is_next_punctuation(')'));
    assert_eq!(ps.expect_punctuation(')'), Ok(()));
}

#[test]
fn trees_compare_by_structure() {
    let a = operation(number("1"), "+", ident("x"));
    let b = operation(number("1"), "+", ident("x"));
    let c = operation(number("1"), "-", ident("x"));
    let d = operation(number("1.0"), "+", ident("x"));
    assert!(node_equal(&a, &b));
    assert!(!node_equal(&a, &c));
    assert!(!node_equal(&a, &d));
    assert!(!node_equal(&ASTNode::Null, &ASTNode::BreakStatement));
    assert!(!node_equal(&ASTNode::ArrayLiteral(vec![]), &ASTNode::BlockStatement(vec![])));
    assert_eq!(a.clone(), a);
}

#[test]
fn copy_of_a_parsed_program_is_equal() {
    let code = "function f(a) { if a > 1 { return [a, {k: a}] } else { while true break } } for let i = 0 i < 2 i += 1 f(i.x[0])";
    let ast = parse(code).expect("the source parses");
    for node in &ast {
        assert!(node_equal(&clone_node(node), node));
    }
}

#[test]
fn tree_is_described_line_by_line() {
    let ast = parse("let x = 1 + y").expect("the source parses");
    assert_eq!(
        describe_ast(&ast),
        vec![
            s("Declaration, constant: false"),
            s("    Left:"),
            s("        Identifier: \"x\""),
            s("    Operator: ="),
            s("    Right: "),
            s("        Binary node:"),
            s("            Left:"),
            s("                Number: 1"),
            s("            Operator: +"),
            s("            Right: "),
            s("                Identifier: \"y\""),
        ],
    );
}

#[test]
fn every_kind_of_node_is_described() {
    let code = "function f(a, b) { return null } if true break else continue; while false {} o.k = {a: \"s\"}; f([1, 2], 3)";
    let ast = parse(code).expect("the source parses");
    assert_eq!(
        describe_ast(&ast),
        vec![
            s("Function definition - \"f\":"),
            s("    Args:"),
            s("        a"),
            s("        b"),
            s("    Body:"),
            s("        Return statement:"),
            s("            Null"),
            s("If Statement:"),
            s("    Condition:"),
            s("        Boolean - true"),
            s("    Then statement:"),
            s("        Break statement"),
            s("    Else statement:"),
            s("        Continue statement"),
            s("While loop:"),
            s("    Check:"),
            s("        Boolean - false"),
            s("    Body:"),
            s("        Block statement:"),
            s("Assignment"),
            s("    Left:"),
            s("        Property access:"),
            s("            Object:"),
            s("                Identifier: \"o\""),
            s("            Property:"),
            s("                String: \"k\""),
            s("    Operator: ="),
            s("    Right: "),
            s("        Object literal:"),
            s("            Key: \"a\", Value:"),
            s("                String: \"s\""),
            s("Function call:"),
            s("    Callee:"),
            s("        Identifier: \"f\""),
            s("    Args:"),
            s("        Array (len 2):"),
            s("            Number: 1"),
            s("            Number: 2"),
            s("        Number: 3"),
        ],
    );
}

#[test]
fn nesting_beyond_the_depth_is_an_error() {
    let mut shallow = parser::new(s("x = ((1))")).expect("the first token is read");
    assert_eq!(shallow.generate_ast_within(3), Err(SyntaxError::NestingTooDeep));
    let mut none = parser::new(s("x = 1")).expect("the first token is read");
    assert_eq!(none.generate_ast_within(0), Err(SyntaxError::NestingTooDeep));
    let mut deep = parser::new(s("x = ((1))")).expect("the first token is read");
    assert_eq!(
        deep.generate_ast_within(100),
        Ok(vec![assignment(ident("x"), number("1"))]),
    );
}

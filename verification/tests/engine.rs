use kaffee::errors::RuntimeError;
use kaffee::errors::SyntaxError;
use kaffee::host::ArithmeticOperator;
use kaffee::host::Console;
use kaffee::host::Host;
use kaffee::interpretting::interpreter::Interpreter;
use kaffee::interpretting::interpreter_utils::BreakType;
use kaffee::interpretting::interpreter_utils::FunctionDefinition;
use kaffee::interpretting::interpreter_utils::KaffeeValue;
use kaffee::interpretting::interpreter_utils::ObjectValue;
use kaffee::interpretting::variables;
use kaffee::number::Number;
use kaffee::parsing::ast_utils::ASTNode;
use kaffee::parsing::ast_utils::AccessProperties;
use kaffee::parsing::ast_utils::BinaryProperties;
use kaffee::parsing::ast_utils::CallProperties;
use kaffee::parsing::ast_utils::DeclarationProperties;
use kaffee::parsing::ast_utils::ObjectLiteralProperties;
use kaffee::std_lib::operators::operator_handler;

struct TestHost {
    printed: Vec<String>,
}

impl Host for TestHost {
    fn parse_number(&mut self, text: &String) -> Option<Number> {
        match text.parse::<f64>() {
            Ok(x) => Some(Number::from_bits(x.to_bits())),
            Err(_) => None,
        }
    }

    fn arithmetic(&mut self, operator: ArithmeticOperator, left: Number, right: Number) -> Number {
        let a = f64::from_bits(left.to_bits());
        let b = f64::from_bits(right.to_bits());
        let r = match operator {
            ArithmeticOperator::Add => a + b,
            ArithmeticOperator::Subtract => a - b,
            ArithmeticOperator::Multiply => a * b,
            ArithmeticOperator::Divide => a / b,
            ArithmeticOperator::Remainder => a % b,
            ArithmeticOperator::Power => a.powf(b),
        };
        Number::from_bits(r.to_bits())
    }

    fn format_number(&mut self, value: Number) -> String {
        format!("{}", f64::from_bits(value.to_bits()))
    }

    fn print_line(&mut self, text: &String) {
        self.printed.push(text.clone());
    }

    fn read_line(&mut self) -> String {
        String::new()
    }
}

const BUDGET: u64 = 1000;

fn console() -> Console<TestHost> {
    Console::new(TestHost { printed: Vec::new() })
}

fn s(text: &str) -> String {
    String::from(text)
}

fn num(x: f64) -> KaffeeValue {
    KaffeeValue::Number(Number::from_bits(x.to_bits()))
}

fn ident(name: &str) -> ASTNode {
    ASTNode::Identifier(s(name))
}

fn number(text: &str) -> ASTNode {
    ASTNode::Number(s(text))
}

fn binary(left: ASTNode, right: ASTNode) -> BinaryProperties {
    BinaryProperties { left: Box::new(left), operator: s("="), right: Box::new(right) }
}

fn access(object: ASTNode, key: &str) -> ASTNode {
    ASTNode::PropertyAccess(
        AccessProperties { object: Box::new(object), property: Box::new(ASTNode::String(s(key))) },
    )
}

/// An interpreter with one scope, in which `x` is declared for 1.
fn with_x(constant: bool) -> Interpreter {
    let mut vars = variables::new();
    vars.new_scope();
    assert_eq!(vars.alloc_in_scope(&s("x"), num(1.0), constant), Ok(()));
    Interpreter { ast: vec![], vars }
}

fn empty() -> Interpreter {
    let mut vars = variables::new();
    vars.new_scope();
    Interpreter { ast: vec![], vars }
}

#[test]
fn block_releases_the_object_it_declared() {
    let mut interp = empty();
    let literal = ASTNode::ObjectLiteral(
        ObjectLiteralProperties { keys: vec![s("a")], values: vec![number("1")] },
    );
    let node = ASTNode::BlockStatement(vec![ASTNode::Declaration(
        DeclarationProperties { constant: false, assignment: binary(ident("t"), literal) },
    )]);
    let result = interp.eval_node(&node, &mut console(), BUDGET);
    assert_eq!(result, Ok((BreakType::Normal, KaffeeValue::Null)));
    assert_eq!(interp.vars.scopestack.len(), 1);
    assert!(interp.vars.scopestack[0].bindings.is_empty());
    assert!(interp.vars.alloced.is_empty());
    assert_eq!(interp.vars.alloc_index, 3);
}

#[test]
fn block_stops_at_the_first_signal() {
    let mut interp = with_x(false);
    let node = ASTNode::BlockStatement(vec![
        ASTNode::BreakStatement,
        ASTNode::Assignment(binary(ident("x"), number("2"))),
    ]);
    let result = interp.eval_node(&node, &mut console(), BUDGET);
    assert_eq!(result, Ok((BreakType::Break, KaffeeValue::Null)));
    assert_eq!(interp.vars.read(0), Ok(&num(1.0)));
    assert_eq!(interp.vars.scopestack.len(), 1);
}

#[test]
fn assignment_to_constant_changes_nothing() {
    let mut interp = with_x(true);
    let bin = binary(ident("x"), ident("missing"));
    assert_eq!(
        interp.assign_variable(&bin, &mut console(), BUDGET),
        Err(RuntimeError::AssignmentToConstant),
    );
    assert_eq!(interp.vars.read(0), Ok(&num(1.0)));
    assert_eq!(interp.vars.is_constant(0), Ok(true));
    let with_value = binary(ident("x"), number("2"));
    assert_eq!(
        interp.assign_variable(&with_value, &mut console(), BUDGET),
        Err(RuntimeError::AssignmentToConstant),
    );
    assert_eq!(interp.vars.read(0), Ok(&num(1.0)));
}

#[test]
fn assignment_writes_the_slot_of_the_name() {
    let mut interp = with_x(false);
    let bin = binary(ident("x"), number("2"));
    assert_eq!(interp.assign_variable(&bin, &mut console(), BUDGET), Ok(()));
    assert_eq!(interp.vars.read(0), Ok(&num(2.0)));
    assert_eq!(interp.vars.is_constant(0), Ok(false));
    assert_eq!(interp.vars.scopestack.len(), 1);
    assert_eq!(interp.vars.scopestack[0].bindings.len(), 1);
    assert_eq!(interp.vars.find_variable_index(&s("x")), Ok(0));
    assert_eq!(interp.vars.resolve_identifier(&s("x")), Ok(&num(2.0)));
    interp.vars.new_scope();
    assert_eq!(interp.vars.resolve_identifier(&s("x")), Ok(&num(2.0)));
}

#[test]
fn write_in_a_nested_block_is_seen_outside() {
    let mut interp = with_x(false);
    let node = ASTNode::BlockStatement(vec![ASTNode::Assignment(binary(ident("x"), number("2")))]);
    let result = interp.eval_node(&node, &mut console(), BUDGET);
    assert_eq!(result, Ok((BreakType::Normal, KaffeeValue::Null)));
    assert_eq!(interp.vars.scopestack.len(), 1);
    assert_eq!(interp.vars.find_variable_index(&s("x")), Ok(0));
    assert_eq!(interp.vars.read(0), Ok(&num(2.0)));
}

/// An interpreter in which `o` is declared, constant, for an object with
/// the one pair of "a" and 1.
fn with_object() -> Interpreter {
    let mut vars = variables::new();
    vars.new_scope();
    let key = vars.alloc_value(KaffeeValue::String(s("a")), true);
    let value = vars.alloc_value(num(1.0), false);
    assert_eq!(
        vars.alloc_in_scope(
            &s("o"),
            KaffeeValue::Object(ObjectValue { keys: vec![key], values: vec![value] }),
            true,
        ),
        Ok(()),
    );
    Interpreter { ast: vec![], vars }
}

#[test]
fn insertion_adds_a_pair_to_the_object() {
    let mut interp = with_object();
    let bin = binary(access(ident("o"), "k"), number("5"));
    assert_eq!(interp.handle_insertion(&bin, &mut console(), BUDGET), Ok(()));
    assert_eq!(
        interp.vars.read(2),
        Ok(&KaffeeValue::Object(ObjectValue { keys: vec![0, 3], values: vec![1, 4] })),
    );
    assert_eq!(interp.vars.is_constant(2), Ok(true));
    assert_eq!(interp.vars.read(3), Ok(&KaffeeValue::String(s("k"))));
    assert_eq!(interp.vars.read(4), Ok(&num(5.0)));
    assert_eq!(interp.vars.read(0), Ok(&KaffeeValue::String(s("a"))));
    assert_eq!(interp.vars.read(1), Ok(&num(1.0)));
    assert_eq!(interp.vars.alloc_index, 5);
    assert_eq!(interp.resolve_node(&access(ident("o"), "k"), &mut console(), BUDGET), Ok(num(5.0)));
    assert_eq!(interp.resolve_node(&access(ident("o"), "a"), &mut console(), BUDGET), Ok(num(1.0)));
}

#[test]
fn assignment_inserts_where_the_key_is_new() {
    let mut interp = with_object();
    let bin = binary(access(ident("o"), "k"), number("5"));
    assert_eq!(interp.assign_variable(&bin, &mut console(), BUDGET), Ok(()));
    assert_eq!(interp.resolve_node(&access(ident("o"), "k"), &mut console(), BUDGET), Ok(num(5.0)));
}

#[test]
fn assignment_through_a_missing_segment_changes_nothing() {
    let mut interp = with_object();
    let bin = binary(access(access(ident("o"), "x"), "b"), number("5"));
    assert_eq!(
        interp.assign_variable(&bin, &mut console(), BUDGET),
        Err(RuntimeError::InvalidInsertionTarget),
    );
    assert_eq!(
        interp.vars.read(2),
        Ok(&KaffeeValue::Object(ObjectValue { keys: vec![0], values: vec![1] })),
    );
    assert_eq!(interp.vars.alloc_index, 3);
}

fn call_with(args: Vec<ASTNode>) -> CallProperties {
    CallProperties { callee: Box::new(ident("f")), args }
}

#[test]
fn parameter_is_read_inside_the_call() {
    let mut interp = with_x(false);
    let fd = FunctionDefinition {
        args: vec![s("x")],
        body: vec![ASTNode::ReturnStatement(Box::new(ident("x")))],
    };
    let result = interp.eval_userfn_call(&call_with(vec![number("2")]), &fd, &mut console(), BUDGET);
    assert_eq!(result, Ok(num(2.0)));
}

#[test]
fn write_to_a_parameter_leaves_the_outer_variable() {
    let mut interp = with_x(false);
    let fd = FunctionDefinition {
        args: vec![s("x")],
        body: vec![
            ASTNode::Assignment(binary(ident("x"), number("3"))),
            ASTNode::ReturnStatement(Box::new(ident("x"))),
        ],
    };
    let result = interp.eval_userfn_call(&call_with(vec![number("2")]), &fd, &mut console(), BUDGET);
    assert_eq!(result, Ok(num(3.0)));
    assert_eq!(interp.vars.scopestack.len(), 1);
    assert_eq!(interp.vars.scopestack[0].bindings.len(), 1);
    assert_eq!(interp.vars.find_variable_index(&s("x")), Ok(0));
    assert_eq!(interp.vars.read(0), Ok(&num(1.0)));
}

#[test]
fn call_releases_parameters_and_locals() {
    let mut interp = with_x(false);
    let before = interp.vars.alloc_index;
    let fd = FunctionDefinition {
        args: vec![s("a"), s("b")],
        body: vec![
            ASTNode::Declaration(
                DeclarationProperties {
                    constant: false,
                    assignment: binary(ident("local"), ASTNode::ArrayLiteral(vec![ident("a")])),
                },
            ),
            ASTNode::ReturnStatement(Box::new(ident("b"))),
        ],
    };
    let result = interp.eval_userfn_call(
        &call_with(vec![number("2"), number("3")]),
        &fd,
        &mut console(),
        BUDGET,
    );
    assert_eq!(result, Ok(num(3.0)));
    assert_eq!(interp.vars.scopestack.len(), 1);
    assert_eq!(interp.vars.find_variable_index(&s("x")), Ok(0));
    assert!(interp.vars.alloc_index > before);
    for index in before..interp.vars.alloc_index {
        assert!(!interp.vars.alloced.contains_key(&index), "{}", index);
    }
    assert_eq!(interp.vars.read(0), Ok(&num(1.0)));
    assert_eq!(interp.vars.alloced.len(), 1);
}

#[test]
fn return_in_nested_blocks_ends_the_call() {
    let mut interp = empty();
    let fd = FunctionDefinition {
        args: vec![],
        body: vec![
            ASTNode::BlockStatement(vec![ASTNode::BlockStatement(vec![ASTNode::ReturnStatement(
                Box::new(number("7")),
            )])]),
            ASTNode::ReturnStatement(Box::new(number("8"))),
        ],
    };
    let result = interp.eval_userfn_call(&call_with(vec![]), &fd, &mut console(), BUDGET);
    assert_eq!(result, Ok(num(7.0)));
    assert_eq!(interp.vars.scopestack.len(), 1);
}

#[test]
fn call_with_the_wrong_number_of_arguments_runs_nothing() {
    let mut interp = with_x(false);
    let fd = FunctionDefinition {
        args: vec![s("a")],
        body: vec![ASTNode::Assignment(binary(ident("x"), number("9")))],
    };
    let result = interp.eval_userfn_call(&call_with(vec![]), &fd, &mut console(), BUDGET);
    assert_eq!(result, Err(RuntimeError::ArityMismatch));
    assert_eq!(interp.vars.scopestack.len(), 1);
    assert_eq!(interp.vars.read(0), Ok(&num(1.0)));
    assert_eq!(interp.vars.alloc_index, 1);
}

#[test]
fn declaration_of_what_is_no_identifier_changes_nothing() {
    let mut interp = with_x(false);
    let dcl = DeclarationProperties { constant: false, assignment: binary(number("1"), number("2")) };
    assert_eq!(
        interp.define_variable(&dcl, &mut console(), BUDGET),
        Err(RuntimeError::InvalidDeclarationTarget),
    );
    assert_eq!(interp.vars.alloc_index, 1);
    assert_eq!(interp.vars.scopestack[0].bindings.len(), 1);
}

#[test]
fn object_literal_has_constant_keys_and_free_values() {
    let mut interp = empty();
    let literal = ObjectLiteralProperties {
        keys: vec![s("a"), s("b")],
        values: vec![number("1"), ASTNode::Boolean(true)],
    };
    let result = interp.resolve_object_literal(&literal, &mut console(), BUDGET);
    assert_eq!(
        result,
        Ok(KaffeeValue::Object(ObjectValue { keys: vec![0, 1], values: vec![2, 3] })),
    );
    assert_eq!(interp.vars.read(0), Ok(&KaffeeValue::String(s("a"))));
    assert_eq!(interp.vars.read(1), Ok(&KaffeeValue::String(s("b"))));
    assert_eq!(interp.vars.is_constant(0), Ok(true));
    assert_eq!(interp.vars.is_constant(1), Ok(true));
    assert_eq!(interp.vars.read(2), Ok(&num(1.0)));
    assert_eq!(interp.vars.read(3), Ok(&KaffeeValue::Boolean(true)));
    assert_eq!(interp.vars.is_constant(2), Ok(false));
    assert_eq!(interp.vars.is_constant(3), Ok(false));
}

#[test]
fn operators_on_values() {
    let mut c = console();
    assert_eq!(
        operator_handler(KaffeeValue::Boolean(true), &s("=="), KaffeeValue::Null, &mut c),
        Ok(KaffeeValue::Boolean(false)),
    );
    assert_eq!(
        operator_handler(KaffeeValue::Null, &s("!="), num(1.0), &mut c),
        Ok(KaffeeValue::Boolean(true)),
    );
    assert_eq!(
        operator_handler(num(1.0), &s("+"), KaffeeValue::String(s("a")), &mut c),
        Err(RuntimeError::InvalidOperatorTypes),
    );
    assert_eq!(operator_handler(num(6.0), &s("/"), num(4.0), &mut c), Ok(num(1.5)));
    assert_eq!(operator_handler(num(1.0), &s("/"), num(0.0), &mut c), Ok(num(f64::INFINITY)));
    assert_eq!(operator_handler(num(2.0), &s("<"), num(3.0), &mut c), Ok(KaffeeValue::Boolean(true)));
    assert_eq!(
        operator_handler(num(2.0), &s("&&"), num(3.0), &mut c),
        Err(RuntimeError::InvalidOperatorTypes),
    );
}

#[test]
fn exit_codes_are_distinct() {
    let syntax = [
        SyntaxError::UnexpectedCharacter,
        SyntaxError::InvalidOperator,
        SyntaxError::UnterminatedString,
        SyntaxError::UnterminatedComment,
        SyntaxError::InvalidNumber,
        SyntaxError::UnexpectedToken,
        SyntaxError::UnknownKeyword,
        SyntaxError::StatementNotAllowed,
        SyntaxError::ExpectedPunctuation,
        SyntaxError::ExpectedIdentifier,
        SyntaxError::ExpectedAssignment,
        SyntaxError::NestingTooDeep,
    ];
    let runtime = [
        RuntimeError::UnknownReference,
        RuntimeError::UnresolvedIdentifier,
        RuntimeError::DuplicateDeclaration,
        RuntimeError::InvalidOperatorTypes,
        RuntimeError::NonBooleanCondition,
        RuntimeError::InvalidPropertyAccess,
        RuntimeError::InvalidIndex,
        RuntimeError::IndexOutOfRange,
        RuntimeError::Unstringifyable,
        RuntimeError::AssignmentToConstant,
        RuntimeError::InvalidDeclarationTarget,
        RuntimeError::InvalidInsertionTarget,
        RuntimeError::ArityMismatch,
        RuntimeError::UncallableValue,
        RuntimeError::UnknownProperty,
        RuntimeError::InvalidAssignmentTarget,
        RuntimeError::UnsupportedStatement,
        RuntimeError::UnsupportedExpression,
        RuntimeError::NoLength,
        RuntimeError::InvalidAppendTarget,
        RuntimeError::InvalidNumber,
        RuntimeError::HeapExhausted,
        RuntimeError::BudgetExhausted,
    ];
    let mut codes: Vec<i32> = Vec::new();
    for e in syntax {
        codes.push(e.exit_code());
    }
    for e in runtime {
        codes.push(e.exit_code());
    }
    assert_eq!(codes[0], 10);
    assert_eq!(codes[11], 21);
    assert_eq!(codes[12], 30);
    assert_eq!(codes[34], 52);
    for i in 0..codes.len() {
        assert_ne!(codes[i], 0);
        for j in 0..i {
            assert_ne!(codes[i], codes[j]);
        }
    }
}

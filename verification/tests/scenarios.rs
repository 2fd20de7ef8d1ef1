use kaffee::host::ArithmeticOperator;
use kaffee::host::Console;
use kaffee::host::Host;
use kaffee::errors::RuntimeError;
use kaffee::interpretting::interpreter;
use kaffee::interpretting::interpreter::Interpreter;
use kaffee::interpretting::interpreter_utils::KaffeeValue;
use kaffee::number::Number;

struct TestHost {
    printed: Vec<String>,
    input: Vec<String>,
}

impl TestHost {
    fn new() -> TestHost {
        TestHost { printed: Vec::new(), input: Vec::new() }
    }
}

impl Host for TestHost {
    fn parse_number(&mut self, text: &String) -> Option<Number> {
        match text.parse::<f64>() {
            Ok(x) => Some(Number::from_bits(x.to_bits())),
            Err(_) => None,
        }
    }

    fn arithmetic(&mut self, operator: ArithmeticOperator, left: Number, right: Number) -> Number {
        let a = f64::from_bits(left.to_bits());
        let b = f64::from_bits(right.to_bits());
        let r = match operator {
            ArithmeticOperator::Add => a + b,
            ArithmeticOperator::Subtract => a - b,
            ArithmeticOperator::Multiply => a * b,
            ArithmeticOperator::Divide => a / b,
            ArithmeticOperator::Remainder => a % b,
            ArithmeticOperator::Power => a.powf(b),
        };
        Number::from_bits(r.to_bits())
    }

    fn format_number(&mut self, value: Number) -> String {
        format!("{}", f64::from_bits(value.to_bits()))
    }

    fn print_line(&mut self, text: &String) {
        self.printed.push(text.clone());
    }

    fn read_line(&mut self) -> String {
        if self.input.is_empty() {
            String::new()
        } else {
            self.input.remove(0)
        }
    }
}

const BUDGET: u64 = 1_000_000;

fn run(code: &str) -> (Interpreter, Result<(), RuntimeError>, Vec<String>) {
    let mut interp = interpreter::new(String::from(code)).expect("the source parses");
    let mut console = Console::new(TestHost::new());
    let result = interp.run(&mut console, BUDGET);
    (interp, result, console.host.printed)
}

fn number_of(interp: &Interpreter, name: &str) -> f64 {
    match interp.vars.resolve_identifier(&String::from(name)) {
        Ok(KaffeeValue::Number(n)) => f64::from_bits(n.to_bits()),
        _ => panic!("no number under that name"),
    }
}

#[test]
fn arithmetic_follows_precedence() {
    let (interp, result, _) = run("let x = 3 + 4 * 2");
    assert_eq!(result, Ok(()));
    assert_eq!(number_of(&interp, "x"), 11.0);
}

#[test]
fn constant_object_takes_a_new_key() {
    let (_, result, printed) = run("const o = {a: 1}; o.b = 2; println(o.b)");
    assert_eq!(result, Ok(()));
    assert_eq!(printed, vec![String::from("2")]);
}

#[test]
fn len_counts_array_elements() {
    let (_, result, printed) = run("let a = [1,2,3]; println(len(a))");
    assert_eq!(result, Ok(()));
    assert_eq!(printed, vec![String::from("3")]);
}

#[test]
fn function_returns_from_if_and_from_body() {
    let (_, result, printed) = run(
        "function f(n){ if n == 0 return 1; return n } println(f(0)) println(f(5))",
    );
    assert_eq!(result, Ok(()));
    assert_eq!(printed, vec![String::from("1"), String::from("5")]);
}

#[test]
fn while_loop_counts_to_three() {
    let (_, result, printed) = run("let i = 0; while i < 3 { println(i); i = i + 1 }");
    assert_eq!(result, Ok(()));
    assert_eq!(printed, vec![String::from("0"), String::from("1"), String::from("2")]);
}

#[test]
fn redeclaration_in_one_scope_fails() {
    let (_, result, _) = run("let x = 1; let x = 2");
    assert_eq!(result, Err(RuntimeError::DuplicateDeclaration));
}

#[test]
fn tree_is_printed_through_the_console() {
    let interp = interpreter::new(String::from("f(1)")).expect("the source parses");
    let mut console = Console::new(TestHost::new());
    kaffee::parsing::printer::print_ast(&interp.ast, &mut console);
    assert_eq!(
        console.host.printed,
        vec![
            String::from("Function call:"),
            String::from("    Callee:"),
            String::from("        Identifier: \"f\""),
            String::from("    Args:"),
            String::from("        Number: 1"),
        ],
    );
}

#[test]
fn token_is_printed_through_the_console() {
    let mut console = Console::new(TestHost::new());
    let token = kaffee::parsing::tokens::Token::Operator(String::from("+="));
    kaffee::parsing::printer::print_token(&token, &mut console);
    assert_eq!(console.host.printed, vec![String::from("Operator: +=")]);
}

#[test]
fn array_of_many_elements_prints_its_length() {
    let mut source = String::from("let a = [0");
    for _ in 0..1234 {
        source.push_str(", 0");
    }
    source.push_str("]; println(len(a))");
    let (_, result, printed) = run(&source);
    assert_eq!(result, Ok(()));
    assert_eq!(printed, vec![String::from("1235")]);
}

#[test]
fn block_exit_frees_what_only_the_block_named() {
    let (interp, result, _) = run("let keep = [1, 2]; { let gone = {a: 1, b: [3]}; let n = 5 }");
    assert_eq!(result, Ok(()));
    assert_eq!(interp.vars.alloc_index, 15);
    assert_eq!(interp.vars.alloced.len(), 8);
    for index in [0usize, 1, 2, 3, 4, 5, 6, 7] {
        assert!(interp.vars.alloced.contains_key(&index), "{}", index);
    }
}

#[test]
fn call_frees_its_arguments() {
    let (interp, result, printed) = run("function f(a, b) { let c = a + b; return c } println(f(1, 2))");
    assert_eq!(result, Ok(()));
    assert_eq!(printed, vec![String::from("3")]);
    assert_eq!(interp.vars.alloced.len(), 6);
    assert_eq!(interp.vars.alloc_index, 9);
}

#[test]
fn host_is_asked_in_order() {
    let mut interp = interpreter::new(String::from("println(input() + stringify(1 + 2))"))
        .expect("the source parses");
    let mut host = TestHost::new();
    host.input.push(String::from("sum: \n"));
    let mut console = Console::new(host);
    assert_eq!(interp.run(&mut console, BUDGET), Ok(()));
    assert_eq!(console.host.printed, vec![String::from("sum: 3")]);
    assert!(console.host.input.is_empty());
}

#[test]
fn heap_is_printed_slot_by_slot() {
    let (interp, result, _) = run(
        "let x = 1.5; let s = \"a\"; let o = {k: true}; let a = [null]; function f(a, b) { return a }",
    );
    assert_eq!(result, Ok(()));
    let mut console = Console::new(TestHost::new());
    interp.vars.print_allocced(&mut console);
    assert_eq!(
        console.host.printed,
        vec![
            String::from("0 - NativeFunction: \"println\" - 1 args"),
            String::from("1 - NativeFunction: \"stringify\" - 1 args"),
            String::from("2 - NativeFunction: \"len\" - 1 args"),
            String::from("3 - NativeFunction: \"append\" - 2 args"),
            String::from("4 - NativeFunction: \"input\" - 0 args"),
            String::from("5 - Number: 1.5"),
            String::from("6 - String: \"a\""),
            String::from("7 - String: \"k\""),
            String::from("8 - Boolean: true"),
            String::from("9 - Object:\n    - 7 - 8"),
            String::from("10 - Null"),
            String::from("11 - Array:\n    - 10"),
            String::from("12 - Function: 2 args, 1 body nodes"),
        ],
    );
}

#[test]
fn scope_stack_is_printed_outermost_first() {
    let (interp, result, _) = run("let x = 1.5; let s = \"a\"");
    assert_eq!(result, Ok(()));
    let expected = vec![
        String::from("Scope frame 0:"),
        String::from(" - \"println\" - 0"),
        String::from(" - \"stringify\" - 1"),
        String::from(" - \"len\" - 2"),
        String::from(" - \"append\" - 3"),
        String::from(" - \"input\" - 4"),
        String::from("Scope frame 1:"),
        String::from(" - \"x\" - 5"),
        String::from(" - \"s\" - 6"),
    ];
    assert_eq!(interp.vars.describe_scopestack(), expected);
    let mut console = Console::new(TestHost::new());
    interp.vars.print_scopestack(&mut console);
    assert_eq!(console.host.printed, expected);
}

#[test]
fn empty_state_prints_nothing() {
    let vars = kaffee::interpretting::variables::new();
    let mut console = Console::new(TestHost::new());
    vars.print_allocced(&mut console);
    vars.print_scopestack(&mut console);
    assert!(console.host.printed.is_empty());
}

use kaffee::errors::RuntimeError;
use kaffee::host::ArithmeticOperator;
use kaffee::host::Console;
use kaffee::host::Host;
use kaffee::interpretting::interpreter;
use kaffee::number::Number;

struct TestHost {
    printed: Vec<String>,
    input: Vec<String>,
}

impl TestHost {
    fn new() -> TestHost {
        TestHost { printed: Vec::new(), input: Vec::new() }
    }
}

impl Host for TestHost {
    fn parse_number(&mut self, text: &String) -> Option<Number> {
        match text.parse::<f64>() {
            Ok(x) => Some(Number::from_bits(x.to_bits())),
            Err(_) => None,
        }
    }

    fn arithmetic(&mut self, operator: ArithmeticOperator, left: Number, right: Number) -> Number {
        let a = f64::from_bits(left.to_bits());
        let b = f64::from_bits(right.to_bits());
        let r = match operator {
            ArithmeticOperator::Add => a + b,
            ArithmeticOperator::Subtract => a - b,
            ArithmeticOperator::Multiply => a * b,
            ArithmeticOperator::Divide => a / b,
            ArithmeticOperator::Remainder => a % b,
            ArithmeticOperator::Power => a.powf(b),
        };
        Number::from_bits(r.to_bits())
    }

    fn format_number(&mut self, value: Number) -> String {
        format!("{}", f64::from_bits(value.to_bits()))
    }

    fn print_line(&mut self, text: &String) {
        self.printed.push(text.clone());
    }

    fn read_line(&mut self) -> String {
        if self.input.is_empty() {
            String::new()
        } else {
            self.input.remove(0)
        }
    }
}

/// A host that finds no number in any text.
struct RefusingHost;

impl Host for RefusingHost {
    fn parse_number(&mut self, _text: &String) -> Option<Number> {
        None
    }

    fn arithmetic(&mut self, _operator: ArithmeticOperator, left: Number, _right: Number) -> Number {
        left
    }

    fn format_number(&mut self, _value: Number) -> String {
        String::new()
    }

    fn print_line(&mut self, _text: &String) {
    }

    fn read_line(&mut self) -> String {
        String::new()
    }
}

const BUDGET: u64 = 1_000_000;

fn run_with(code: &str, input: Vec<&str>, budget: u64) -> (Result<(), RuntimeError>, Vec<String>) {
    let mut interp = interpreter::new(String::from(code)).expect("the source parses");
    let mut host = TestHost::new();
    for line in input {
        host.input.push(String::from(line));
    }
    let mut console = Console::new(host);
    let result = interp.run(&mut console, budget);
    (result, console.host.printed)
}

fn output(code: &str) -> Vec<String> {
    let (result, printed) = run_with(code, vec![], BUDGET);
    assert_eq!(result, Ok(()));
    printed
}

fn failure(code: &str) -> RuntimeError {
    let (result, _) = run_with(code, vec![], BUDGET);
    match result {
        Err(e) => e,
        Ok(_) => panic!("the program ran to its end"),
    }
}

fn lines(expected: Vec<&str>) -> Vec<String> {
    let mut out = Vec::new();
    for line in expected {
        out.push(String::from(line));
    }
    out
}

#[test]
fn inner_declaration_shadows_until_block_ends() {
    assert_eq!(output("let x = 1; { let x = 2; println(x) } println(x)"), lines(vec!["2", "1"]));
}

#[test]
fn same_name_twice_in_nested_block_fails() {
    assert_eq!(failure("let x = 1; { let x = 2; let x = 3 }"), RuntimeError::DuplicateDeclaration);
}

#[test]
fn function_name_cannot_be_declared_twice() {
    assert_eq!(failure("function f() {} function f() {}"), RuntimeError::DuplicateDeclaration);
}

#[test]
fn native_names_can_be_shadowed_by_the_program() {
    assert_eq!(output("let len = 3; println(len)"), lines(vec!["3"]));
}

#[test]
fn assignment_to_constant_fails() {
    assert_eq!(failure("const c = 1; c = 2"), RuntimeError::AssignmentToConstant);
}

#[test]
fn assignment_to_constant_fails_before_right_side_runs() {
    assert_eq!(failure("const c = 1; c = missing"), RuntimeError::AssignmentToConstant);
}

#[test]
fn assignment_to_native_function_fails() {
    assert_eq!(failure("println = 1"), RuntimeError::AssignmentToConstant);
}

#[test]
fn assignment_is_visible_in_same_scope() {
    assert_eq!(output("let a = 1; a = 2; println(a)"), lines(vec!["2"]));
}

#[test]
fn assignment_in_nested_scope_is_visible_outside() {
    assert_eq!(output("let a = 1; { a = 5; println(a) } println(a)"), lines(vec!["5", "5"]));
}

#[test]
fn compound_assignment_applies_the_operator() {
    assert_eq!(
        output("let a = 6; a += 2; println(a); a -= 3; println(a); a *= 4; println(a); a /= 2; println(a); a %= 4; println(a); a **= 3; println(a)"),
        lines(vec!["8", "5", "20", "10", "2", "8"]),
    );
}

#[test]
fn insertion_creates_the_key() {
    assert_eq!(output("let o = {a: 1}; o.b = 2; println(o.b); println(o.a)"), lines(vec!["2", "1"]));
}

#[test]
fn insertion_with_computed_key() {
    assert_eq!(output("let o = {a: 1}; o[\"b c\"] = 2; println(o[\"b c\"])"), lines(vec!["2"]));
}

#[test]
fn insertion_through_missing_segment_fails() {
    assert_eq!(failure("let o = {a: 1}; o.x.y = 2"), RuntimeError::InvalidInsertionTarget);
}

#[test]
fn existing_key_is_overwritten() {
    assert_eq!(output("let o = {a: 1}; o.a = 7; println(o.a)"), lines(vec!["7"]));
}

#[test]
fn array_element_is_overwritten() {
    assert_eq!(output("let a = [1, 2]; a[0] = 5; println(a[0]); println(a[1])"), lines(vec!["5", "2"]));
}

#[test]
fn array_rejects_insertion_beyond_its_end() {
    assert_eq!(failure("let a = [1]; a[3] = 1"), RuntimeError::IndexOutOfRange);
}

#[test]
fn parameter_shadows_outer_variable_only_in_the_call() {
    assert_eq!(
        output("let x = 1; function f(x) { x = x + 1; return x } println(f(10)); println(x)"),
        lines(vec!["11", "1"]),
    );
}

#[test]
fn locals_of_a_call_are_gone_after_it() {
    assert_eq!(
        failure("function f() { let secret = 1; return secret } f(); println(secret)"),
        RuntimeError::UnresolvedIdentifier,
    );
}

#[test]
fn function_sees_the_scopes_of_its_caller() {
    assert_eq!(
        output("function show() { println(v) } function caller() { let v = 7; show() } caller()"),
        lines(vec!["7"]),
    );
}

#[test]
fn recursion_computes_factorial() {
    assert_eq!(
        output("function fact(n) { if n <= 1 return 1; return n * fact(n - 1) } println(fact(5))"),
        lines(vec!["120"]),
    );
}

#[test]
fn return_leaves_nested_blocks() {
    assert_eq!(output("function f() { { { return 7 } } return 8 } println(f())"), lines(vec!["7"]));
}

#[test]
fn return_leaves_a_loop() {
    assert_eq!(
        output("function g() { let i = 0; while true { i = i + 1; if i == 3 return i } return 0 } println(g())"),
        lines(vec!["3"]),
    );
}

#[test]
fn function_without_return_gives_null() {
    assert_eq!(output("function f() { let a = 1 } println(f() == null)"), lines(vec!["true"]));
}

#[test]
fn break_leaves_only_the_nearest_loop() {
    assert_eq!(
        output("let c = 0; let i = 0; while i < 2 { while true { c = c + 1; break } i = i + 1 } println(c); println(i)"),
        lines(vec!["2", "2"]),
    );
}

#[test]
fn continue_skips_the_rest_of_the_body() {
    assert_eq!(
        output("let i = 0; let s = 0; while i < 5 { i = i + 1; if i == 3 continue; s = s + i } println(s)"),
        lines(vec!["12"]),
    );
}

#[test]
fn signal_at_top_level_is_dropped() {
    assert_eq!(output("return 5; println(1); break; println(2)"), lines(vec!["1", "2"]));
}

#[test]
fn else_branch_runs_when_condition_is_false() {
    assert_eq!(output("if 1 > 2 println(1) else println(2)"), lines(vec!["2"]));
}

#[test]
fn if_without_else_does_nothing_when_false() {
    assert_eq!(output("if false println(1); println(3)"), lines(vec!["3"]));
}

#[test]
fn for_loop_runs_like_a_while() {
    assert_eq!(output("for let i = 0 i < 3 i += 1 println(i)"), lines(vec!["0", "1", "2"]));
}

#[test]
fn for_loop_with_brackets_and_block() {
    assert_eq!(
        output("for (let i = 1; i <= 3; i += 1) { println(i * 2) }"),
        lines(vec!["2", "4", "6"]),
    );
}

#[test]
fn fizzbuzz_of_the_first_five() {
    let code = "
        function stringy (n) {
            let out = \"\"
            if n % 3 == 0 out = \"Fizz\"
            if n % 5 == 0 out += \"Buzz\"
            if out == \"\" out = stringify(n)
            println(out)
        }

        function fizzbuzz (x) {
            for let i = 1 i < x i += 1 stringy(i)
        }

        fizzbuzz(6)
    ";
    assert_eq!(output(code), lines(vec!["1", "2", "Fizz", "4", "Buzz"]));
}

#[test]
fn arithmetic_operators() {
    assert_eq!(
        output("println(7 + 2); println(7 - 2); println(7 * 2); println(7 / 2); println(7 % 4); println(2 ** 10)"),
        lines(vec!["9", "5", "14", "3.5", "3", "1024"]),
    );
}

#[test]
fn division_by_zero_follows_the_machine() {
    assert_eq!(output("println(1 / 0); println(0 / 0); println(5 % 0)"), lines(vec!["inf", "NaN", "NaN"]));
}

#[test]
fn not_a_number_equals_nothing() {
    assert_eq!(output("let n = 0 / 0; println(n == n); println(n != n); println(n < 1); println(n >= 1)"), lines(vec!["false", "true", "false", "false"]));
}

#[test]
fn comparison_operators() {
    assert_eq!(
        output("println(1 < 2); println(2 < 1); println(2 <= 2); println(3 > 2); println(2 >= 3); println(0 - 1 < 0)"),
        lines(vec!["true", "false", "true", "true", "false", "true"]),
    );
}

#[test]
fn precedence_and_associativity() {
    assert_eq!(
        output("println(1 + 2 * 3 == 7); println(2 * 3 ** 2); println(10 - 2 - 3); println((1 + 2) * 3); println(1 < 2 && 2 < 3 || false)"),
        lines(vec!["true", "18", "5", "9", "true"]),
    );
}

#[test]
fn boolean_operators() {
    assert_eq!(
        output("println(true && false); println(true || false); println(false || false)"),
        lines(vec!["false", "true", "false"]),
    );
}

#[test]
fn string_concatenation() {
    assert_eq!(output("println(\"ab\" + \"cd\")"), lines(vec!["abcd"]));
}

#[test]
fn equality_is_defined_on_all_values() {
    assert_eq!(
        output("println(1 == 1); println(\"a\" == \"a\"); println(1 == \"1\"); println(null == null); println(true != false); println(println == println); println(println == len)"),
        lines(vec!["true", "true", "false", "true", "true", "true", "false"]),
    );
}

#[test]
fn functions_are_equal_when_their_definitions_are() {
    assert_eq!(
        output("function f(a) { return a } function g(a) { return a } function h(b) { return b } println(f == g); println(f == h)"),
        lines(vec!["true", "false"]),
    );
}

#[test]
fn number_plus_string_fails() {
    assert_eq!(failure("let x = 1 + \"a\""), RuntimeError::InvalidOperatorTypes);
}

#[test]
fn boolean_arithmetic_fails() {
    assert_eq!(failure("let x = true + false"), RuntimeError::InvalidOperatorTypes);
}

#[test]
fn string_subtraction_fails() {
    assert_eq!(failure("let x = \"a\" - \"b\""), RuntimeError::InvalidOperatorTypes);
}

#[test]
fn number_with_boolean_operator_fails() {
    assert_eq!(failure("let x = 1 && 2"), RuntimeError::InvalidOperatorTypes);
}

#[test]
fn unresolved_identifier_fails() {
    assert_eq!(failure("println(y)"), RuntimeError::UnresolvedIdentifier);
}

#[test]
fn condition_must_be_boolean() {
    assert_eq!(failure("if 1 println(1)"), RuntimeError::NonBooleanCondition);
    assert_eq!(failure("while null println(1)"), RuntimeError::NonBooleanCondition);
}

#[test]
fn property_of_a_number_fails() {
    assert_eq!(failure("let x = 1; println(x.a)"), RuntimeError::InvalidPropertyAccess);
}

#[test]
fn fractional_index_fails() {
    assert_eq!(failure("let a = [1]; println(a[0.5])"), RuntimeError::InvalidIndex);
}

#[test]
fn negative_index_fails() {
    assert_eq!(failure("let a = [1]; println(a[(0 - 1)])"), RuntimeError::InvalidIndex);
}

#[test]
fn string_index_on_array_fails() {
    assert_eq!(failure("let a = [1]; println(a[\"0\"])"), RuntimeError::InvalidIndex);
}

#[test]
fn index_beyond_the_end_fails() {
    assert_eq!(failure("let a = [1]; println(a[1])"), RuntimeError::IndexOutOfRange);
}

#[test]
fn array_elements_are_read_by_index() {
    assert_eq!(output("let a = [10, 20, 30]; println(a[0]); println(a[2]); println(a[(1 + 0)])"), lines(vec!["10", "30", "20"]));
}

#[test]
fn null_has_no_text() {
    assert_eq!(failure("println(null)"), RuntimeError::Unstringifyable);
    assert_eq!(failure("stringify([1])"), RuntimeError::Unstringifyable);
}

#[test]
fn wrong_number_of_arguments_fails() {
    assert_eq!(failure("println(1, 2)"), RuntimeError::ArityMismatch);
    assert_eq!(failure("function f(a) {} f()"), RuntimeError::ArityMismatch);
    assert_eq!(failure("function f(a) {} f(1, 2)"), RuntimeError::ArityMismatch);
}

#[test]
fn calling_a_number_fails() {
    assert_eq!(failure("let x = 1; x()"), RuntimeError::UncallableValue);
}

#[test]
fn missing_key_cannot_be_read() {
    assert_eq!(failure("let o = {a: 1}; println(o.b)"), RuntimeError::UnknownProperty);
}

#[test]
fn declaration_of_a_property_fails() {
    assert_eq!(failure("let o = {a: 1}; let o.b = 2"), RuntimeError::InvalidDeclarationTarget);
}

#[test]
fn assignment_to_a_literal_fails() {
    assert_eq!(failure("1 = 2"), RuntimeError::InvalidAssignmentTarget);
}

#[test]
fn expression_is_no_statement() {
    assert_eq!(failure("1"), RuntimeError::UnsupportedStatement);
}

#[test]
fn statement_is_no_expression() {
    assert_eq!(failure("let x = (let y = 1)"), RuntimeError::UnsupportedExpression);
}

#[test]
fn len_needs_a_string_or_an_array() {
    assert_eq!(failure("len(1)"), RuntimeError::NoLength);
}

#[test]
fn append_needs_an_array() {
    assert_eq!(failure("append(1, 2)"), RuntimeError::InvalidAppendTarget);
}

#[test]
fn number_that_the_host_refuses_fails() {
    let mut interp = interpreter::new(String::from("let x = 1")).expect("the source parses");
    let mut console = Console::new(RefusingHost);
    assert_eq!(interp.run(&mut console, BUDGET), Err(RuntimeError::InvalidNumber));
}

#[test]
fn full_heap_fails() {
    let mut interp = interpreter::new(String::from("let x = 1")).expect("the source parses");
    interp.vars.alloc_index = usize::MAX;
    let mut console = Console::new(TestHost::new());
    assert_eq!(interp.run(&mut console, BUDGET), Err(RuntimeError::HeapExhausted));
}

#[test]
fn endless_loop_ends_with_the_budget() {
    let (result, _) = run_with("while true {}", vec![], 1000);
    assert_eq!(result, Err(RuntimeError::BudgetExhausted));
}

#[test]
fn budget_of_zero_runs_nothing() {
    let (result, printed) = run_with("println(1)", vec![], 0);
    assert_eq!(result, Err(RuntimeError::BudgetExhausted));
    assert_eq!(printed, lines(vec![]));
}

#[test]
fn empty_program_needs_no_budget() {
    let (result, printed) = run_with("", vec![], 0);
    assert_eq!(result, Ok(()));
    assert_eq!(printed, lines(vec![]));
}

#[test]
fn array_made_in_a_call_loses_its_elements() {
    assert_eq!(
        failure("function mk() { return [1, 2] } let a = mk(); println(a[0])"),
        RuntimeError::UnknownReference,
    );
}

#[test]
fn elements_of_a_named_array_survive_collection() {
    assert_eq!(output("let a = [1, 2]; { let t = 0 } println(a[1])"), lines(vec!["2"]));
}

#[test]
fn members_of_a_named_object_survive_collection() {
    assert_eq!(output("let o = {a: 1, b: 2}; { let t = 0 } println(o.b)"), lines(vec!["2"]));
}

#[test]
fn stringify_gives_text() {
    assert_eq!(
        output("println(stringify(1.5) + \"!\"); println(stringify(true)); println(stringify(\"s\"))"),
        lines(vec!["1.5!", "true", "s"]),
    );
}

#[test]
fn println_gives_null() {
    assert_eq!(output("println(println(1) == null)"), lines(vec!["1", "true"]));
}

#[test]
fn len_counts_characters() {
    assert_eq!(output("println(len(\"h\u{e9}llo\")); println(len(\"\")); println(len([]))"), lines(vec!["5", "0", "0"]));
}

#[test]
fn append_gives_a_new_array() {
    assert_eq!(
        output("let a = [1]; let b = append(a, 2); println(len(a)); println(len(b)); println(b[1])"),
        lines(vec!["1", "2", "2"]),
    );
}

#[test]
fn append_in_a_loop_builds_an_array() {
    assert_eq!(
        output("let a = []; let i = 0; while i < 4 { a = append(a, i * i); i += 1 } println(len(a)); println(a[3])"),
        lines(vec!["4", "9"]),
    );
}

#[test]
fn input_strips_the_line_feed() {
    let (result, printed) = run_with(
        "println(input()); println(input()); println(len(input()))",
        vec!["hello\n", "no feed", "\n"],
        BUDGET,
    );
    assert_eq!(result, Ok(()));
    assert_eq!(printed, lines(vec!["hello", "no feed", "0"]));
}

#[test]
fn object_literal_with_key_alone() {
    assert_eq!(output("let a = 1; let o = {a}; println(o.a)"), lines(vec!["1"]));
}

#[test]
fn object_keys_are_found_by_value() {
    assert_eq!(output("let k = \"a\"; let o = {a: 4}; println(o[k])"), lines(vec!["4"]));
}

#[test]
fn function_as_a_value_can_be_called() {
    assert_eq!(output("let f = function named(a) { return a + 1 }; println(f(1))"), lines(vec!["2"]));
}

#[test]
fn comments_are_skipped() {
    assert_eq!(
        output("// first\nprintln(1) /* in\n between */ println(2) // last"),
        lines(vec!["1", "2"]),
    );
}

#[test]
fn run_opens_two_scopes() {
    let mut interp = interpreter::new(String::from("let x = 1")).expect("the source parses");
    let mut console = Console::new(TestHost::new());
    assert_eq!(interp.run(&mut console, BUDGET), Ok(()));
    assert_eq!(interp.vars.scopestack.len(), 2);
    assert_eq!(interp.vars.scopestack[0].bindings.len(), 5);
    assert_eq!(interp.vars.scopestack[1].bindings.len(), 1);
}

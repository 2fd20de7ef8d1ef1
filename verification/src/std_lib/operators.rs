//! The binary operators.
//!
//! `==` and `!=` compare any two values. The other operators are defined on
//! two numbers, two booleans or two strings. Comparisons of numbers are
//! decided here; their arithmetic is asked of the host.

use vstd::prelude::*;
use vstd::string::StringExecFns;
use crate::errors::RuntimeError;
use crate::host::Host;
use crate::host::Console;
use crate::host::ConsoleView;
use crate::host::HostAnswer;
use crate::host::HostCall;
use crate::host::ArithmeticOperator;
use crate::host::computed_at;
use crate::number::Number;
use crate::number::number_lt;
use crate::number::number_le;
use crate::interpretting::interpreter_utils::KaffeeValue;
use crate::interpretting::interpreter_utils::ValueView;
use crate::interpretting::interpreter_utils::values_equal;
use crate::text::spells;

verus! {

/// The arithmetic that an operator stands for, if it stands for one.
pub open spec fn arithmetic_of(op: Seq<char>) -> Option<ArithmeticOperator> {
    if op == "+"@ {
        Some(ArithmeticOperator::Add)
    } else if op == "-"@ {
        Some(ArithmeticOperator::Subtract)
    } else if op == "*"@ {
        Some(ArithmeticOperator::Multiply)
    } else if op == "/"@ {
        Some(ArithmeticOperator::Divide)
    } else if op == "%"@ {
        Some(ArithmeticOperator::Remainder)
    } else if op == "**"@ {
        Some(ArithmeticOperator::Power)
    } else {
        None
    }
}

/// The result of a comparison of two numbers, if the operator is one.
pub open spec fn comparison_of(l: u64, op: Seq<char>, r: u64) -> Option<bool> {
    if op == ">"@ {
        Some(number_lt(r, l))
    } else if op == "<"@ {
        Some(number_lt(l, r))
    } else if op == ">="@ {
        Some(number_le(r, l))
    } else if op == "<="@ {
        Some(number_le(l, r))
    } else {
        None
    }
}

/// What `left op right` gives, and what the console is like afterwards,
/// when the host answers as `oracle` does.
pub open spec fn operator_result(
    console: ConsoleView,
    left: ValueView,
    op: Seq<char>,
    right: ValueView,
    oracle: Seq<HostAnswer>,
) -> (ConsoleView, Result<ValueView, RuntimeError>) {
    if op == "=="@ {
        (console, Ok(ValueView::Boolean(values_equal(left, right))))
    } else if op == "!="@ {
        (console, Ok(ValueView::Boolean(!values_equal(left, right))))
    } else {
        match (left, right) {
            (ValueView::Number(l), ValueView::Number(r)) => match comparison_of(l, op, r) {
                Some(b) => (console, Ok(ValueView::Boolean(b))),
                None => match arithmetic_of(op) {
                    Some(operator) => (
                        console.after(HostCall::Arithmetic(operator, l, r)),
                        Ok(ValueView::Number(computed_at(oracle, console.asked()))),
                    ),
                    None => (console, Err(RuntimeError::InvalidOperatorTypes)),
                },
            },
            (ValueView::Boolean(l), ValueView::Boolean(r)) => if op == "&&"@ {
                (console, Ok(ValueView::Boolean(l && r)))
            } else if op == "||"@ {
                (console, Ok(ValueView::Boolean(l || r)))
            } else {
                (console, Err(RuntimeError::InvalidOperatorTypes))
            },
            (ValueView::Text(l), ValueView::Text(r)) => if op == "+"@ {
                (console, Ok(ValueView::Text(l + r)))
            } else {
                (console, Err(RuntimeError::InvalidOperatorTypes))
            },
            _ => (console, Err(RuntimeError::InvalidOperatorTypes)),
        }
    }
}

/// `==` and `!=` are defined on any two values, ask nothing of the host and
/// never fail.
pub proof fn lemma_equality_is_generic(
    console: ConsoleView,
    left: ValueView,
    right: ValueView,
    oracle: Seq<HostAnswer>,
)
    ensures
        operator_result(console, left, "=="@, right, oracle) == (
            console,
            Ok::<ValueView, RuntimeError>(ValueView::Boolean(values_equal(left, right))),
        ),
        operator_result(console, left, "!="@, right, oracle) == (
            console,
            Ok::<ValueView, RuntimeError>(ValueView::Boolean(!values_equal(left, right))),
        ),
{
    reveal_strlit("==");
    reveal_strlit("!=");
    assert("!="@[0] != "=="@[0]);
}

/// Any other operator fails on two values that are not two numbers, two
/// booleans or two strings.
pub proof fn lemma_mixed_operands_fail(
    console: ConsoleView,
    left: ValueView,
    op: Seq<char>,
    right: ValueView,
    oracle: Seq<HostAnswer>,
)
    requires
        op != "=="@,
        op != "!="@,
        !(left is Number && right is Number),
        !(left is Boolean && right is Boolean),
        !(left is Text && right is Text),
    ensures
        operator_result(console, left, op, right, oracle) == (
            console,
            Err::<ValueView, RuntimeError>(RuntimeError::InvalidOperatorTypes),
        ),
{
}

/// Arithmetic on two numbers never fails, whatever the numbers are: the
/// host is asked, and its answer is the result. Division and remainder by
/// zero are no exception.
pub proof fn lemma_arithmetic_never_fails(
    console: ConsoleView,
    l: u64,
    op: Seq<char>,
    r: u64,
    oracle: Seq<HostAnswer>,
)
    requires
        op != "=="@,
        op != "!="@,
        comparison_of(l, op, r) is None,
        arithmetic_of(op) is Some,
    ensures
        operator_result(console, ValueView::Number(l), op, ValueView::Number(r), oracle) == (
            console.after(HostCall::Arithmetic(arithmetic_of(op)->Some_0, l, r)),
            Ok::<ValueView, RuntimeError>(ValueView::Number(computed_at(oracle, console.asked()))),
        ),
{
}

/// Applies a binary operator to two values.
pub fn operator_handler<H: Host>(
    left: KaffeeValue,
    op: &String,
    right: KaffeeValue,
    console: &mut Console<H>,
) -> (r: Result<KaffeeValue, RuntimeError>)
    ensures
        old(console).recorded() ==> final(console).recorded(),
        old(console).recorded() ==> operator_result(
            old(console)@,
            left@,
            op@,
            right@,
            final(console).answers@,
        ) == (
            final(console)@,
            match r {
                Ok(v) => Ok::<ValueView, RuntimeError>(v@),
                Err(e) => Err(e),
            },
        ),
        forall|oracle: Seq<HostAnswer>| #[trigger]
            final(console).heard(oracle) ==> old(console).heard(oracle) && operator_result(
                old(console)@,
                left@,
                op@,
                right@,
                oracle,
            ) == (
                final(console)@,
                match r {
                    Ok(v) => Ok::<ValueView, RuntimeError>(v@),
                    Err(e) => Err(e),
                },
            ),
{
    if spells(op, "==") || spells(op, "!=") {
        return generic(left, op, right);
    }
    match (left, right) {
        (KaffeeValue::Number(n1), KaffeeValue::Number(n2)) => maths(n1, op, n2, console),
        (KaffeeValue::Boolean(b1), KaffeeValue::Boolean(b2)) => bools(b1, op, b2),
        (KaffeeValue::String(s1), KaffeeValue::String(s2)) => strings(s1, op, s2),
        _ => Err(RuntimeError::InvalidOperatorTypes),
    }
}

/// The operators that work on all values.
fn generic(l: KaffeeValue, op: &String, r: KaffeeValue) -> (res: Result<KaffeeValue, RuntimeError>)
    requires
        op@ == "=="@ || op@ == "!="@,
    ensures
        res is Ok,
        res->Ok_0@ == ValueView::Boolean(
            if op@ == "=="@ {
                values_equal(l@, r@)
            } else {
                !values_equal(l@, r@)
            },
        ),
{
    let same: bool = l.equals(&r);
    if spells(op, "==") {
        Ok(KaffeeValue::Boolean(same))
    } else {
        Ok(KaffeeValue::Boolean(!same))
    }
}

/// The operator as arithmetic.
fn arithmetic_operator(op: &String) -> (r: Option<ArithmeticOperator>)
    ensures
        r == arithmetic_of(op@),
{
    if spells(op, "+") {
        Some(ArithmeticOperator::Add)
    } else if spells(op, "-") {
        Some(ArithmeticOperator::Subtract)
    } else if spells(op, "*") {
        Some(ArithmeticOperator::Multiply)
    } else if spells(op, "/") {
        Some(ArithmeticOperator::Divide)
    } else if spells(op, "%") {
        Some(ArithmeticOperator::Remainder)
    } else if spells(op, "**") {
        Some(ArithmeticOperator::Power)
    } else {
        None
    }
}

/// The operators on two numbers.
fn maths<H: Host>(l: Number, op: &String, r: Number, console: &mut Console<H>) -> (res: Result<
    KaffeeValue,
    RuntimeError,
>)
    ensures
        old(console).recorded() ==> final(console).recorded(),
        old(console).recorded() ==> (match comparison_of(
            l@,
            op@,
            r@,
        ) {
            Some(b) => (old(console)@, Ok::<ValueView, RuntimeError>(ValueView::Boolean(b))),
            None => match arithmetic_of(op@) {
                Some(operator) => (
                    old(console)@.after(HostCall::Arithmetic(operator, l@, r@)),
                    Ok(ValueView::Number(computed_at(final(console).answers@, old(console)@.asked()))),
                ),
                None => (old(console)@, Err(RuntimeError::InvalidOperatorTypes)),
            },
        }) == (
            final(console)@,
            match res {
                Ok(v) => Ok::<ValueView, RuntimeError>(v@),
                Err(e) => Err(e),
            },
        ),
        forall|oracle: Seq<HostAnswer>| #[trigger]
            final(console).heard(oracle) ==> old(console).heard(oracle) && (match comparison_of(
                l@,
                op@,
                r@,
            ) {
                Some(b) => (old(console)@, Ok::<ValueView, RuntimeError>(ValueView::Boolean(b))),
                None => match arithmetic_of(op@) {
                    Some(operator) => (
                        old(console)@.after(HostCall::Arithmetic(operator, l@, r@)),
                        Ok(ValueView::Number(computed_at(oracle, old(console)@.asked()))),
                    ),
                    None => (old(console)@, Err(RuntimeError::InvalidOperatorTypes)),
                },
            }) == (
                final(console)@,
                match res {
                    Ok(v) => Ok::<ValueView, RuntimeError>(v@),
                    Err(e) => Err(e),
                },
            ),
{
    if spells(op, ">") {
        return Ok(KaffeeValue::Boolean(r.less_than(&l)));
    }
    if spells(op, "<") {
        return Ok(KaffeeValue::Boolean(l.less_than(&r)));
    }
    if spells(op, ">=") {
        return Ok(KaffeeValue::Boolean(r.less_or_equal(&l)));
    }
    if spells(op, "<=") {
        return Ok(KaffeeValue::Boolean(l.less_or_equal(&r)));
    }
    match arithmetic_operator(op) {
        Some(operator) => {
            let n = console.arithmetic(operator, l, r);
            Ok(KaffeeValue::Number(n))
        },
        None => Err(RuntimeError::InvalidOperatorTypes),
    }
}

/// The operators on two booleans.
fn bools(l: bool, op: &String, r: bool) -> (res: Result<KaffeeValue, RuntimeError>)
    ensures
        op@ == "&&"@ ==> res is Ok && res->Ok_0@ == ValueView::Boolean(l && r),
        op@ != "&&"@ && op@ == "||"@ ==> res is Ok && res->Ok_0@ == ValueView::Boolean(l || r),
        op@ != "&&"@ && op@ != "||"@ ==> res == Err::<KaffeeValue, RuntimeError>(
            RuntimeError::InvalidOperatorTypes,
        ),
{
    if spells(op, "&&") {
        Ok(KaffeeValue::Boolean(l && r))
    } else if spells(op, "||") {
        Ok(KaffeeValue::Boolean(l || r))
    } else {
        Err(RuntimeError::InvalidOperatorTypes)
    }
}

/// The operators on two strings.
fn strings(l: String, op: &String, r: String) -> (res: Result<KaffeeValue, RuntimeError>)
    ensures
        op@ == "+"@ ==> res is Ok && res->Ok_0@ == ValueView::Text(l@ + r@),
        op@ != "+"@ ==> res == Err::<KaffeeValue, RuntimeError>(RuntimeError::InvalidOperatorTypes),
{
    if spells(op, "+") {
        Ok(KaffeeValue::String(l.concat(r.as_str())))
    } else {
        Err(RuntimeError::InvalidOperatorTypes)
    }
}

} // verus!

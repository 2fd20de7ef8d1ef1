//! What evaluation means.
//!
//! Each function here says what a part of the evaluator gives and what the
//! world is like afterwards. All of them take a budget, which every nested
//! evaluation and every turn of a loop lowers by one, and an oracle: the
//! answers that the host gives, in the order in which it is asked.
//!
//! A failed evaluation leaves the world as it was when the failure was
//! found: scopes that were opened on the way stay open.

use vstd::prelude::*;
use crate::errors::RuntimeError;
use crate::host::ConsoleView;
use crate::host::HostAnswer;
use crate::host::HostCall;
use crate::host::parsed_at;
use crate::parsing::ast_utils::NodeView;
use crate::interpretting::interpreter_utils::BreakType;
use crate::interpretting::interpreter_utils::ValueView;
use crate::interpretting::interpreter_utils::SlotView;
use crate::interpretting::variables::VariablesView;
use crate::interpretting::variables::resolve_name;
use crate::interpretting::variables::read_slot;
use crate::interpretting::variables::object_lookup;
use crate::interpretting::variables::array_lookup;
use crate::interpretting::variables::allocated;
use crate::interpretting::variables::declared;
use crate::interpretting::variables::pushed;
use crate::interpretting::variables::popped;
use crate::interpretting::variables::written;
use crate::interpretting::variables::inserted;
use crate::interpretting::variables::lemma_resolve_through_nested;
use crate::interpretting::garbage_collector::swept;
use crate::std_lib::operators::operator_result;
use crate::std_lib::functions::native_result;
use crate::std_lib::functions::std_lib_mappings;

verus! {

/// The state that the evaluator works on: the heap and the scope stack,
/// and what it knows of the console.
pub struct World {
    pub vars: VariablesView,
    pub console: ConsoleView,
}

/// The state after a run of the collector.
pub open spec fn collected(before: VariablesView) -> VariablesView {
    VariablesView {
        heap: swept(before.scopes, before.heap),
        ..before
    }
}

/// The world after the innermost scope has been closed and the collector
/// has run.
pub open spec fn closed(world: World) -> World {
    World { vars: collected(popped(world.vars)), ..world }
}

/// The world in which one more call has been made of the host.
pub open spec fn called(world: World, call: HostCall) -> World {
    World { console: world.console.after(call), ..world }
}

/// The value of an expression.
pub open spec fn value_of(world: World, node: NodeView, budget: nat, oracle: Seq<HostAnswer>) -> (
    World,
    Result<ValueView, RuntimeError>,
)
    decreases budget, 0nat,
{
    if budget == 0 {
        (world, Err(RuntimeError::BudgetExhausted))
    } else {
        let rest = (budget - 1) as nat;
        match node {
            NodeView::Text(s) => (world, Ok(ValueView::Text(s))),
            NodeView::Number(text) => (
                called(world, HostCall::ParseNumber(text)),
                match parsed_at(oracle, world.console.asked()) {
                    Some(bits) => Ok(ValueView::Number(bits)),
                    None => Err(RuntimeError::InvalidNumber),
                },
            ),
            NodeView::Boolean(b) => (world, Ok(ValueView::Boolean(b))),
            NodeView::Null => (world, Ok(ValueView::Null)),
            NodeView::Identifier(name) => (
                world,
                match resolve_name(world.vars.scopes, name) {
                    Err(e) => Err(e),
                    Ok(index) => read_slot(world.vars.heap, index),
                },
            ),
            NodeView::Binary { left, operator, right } => binary_value(
                world,
                *left,
                operator,
                *right,
                rest,
                oracle,
            ),
            NodeView::ObjectLiteral { keys, values } => object_literal_value(
                world,
                keys,
                values,
                rest,
                oracle,
            ),
            NodeView::PropertyAccess { object, property } => property_value(
                world,
                *object,
                *property,
                rest,
                oracle,
            ),
            NodeView::FunctionDefinition { name, params, statements } => (
                world,
                Ok(ValueView::Function { params, statements }),
            ),
            NodeView::Call { callee, args } => call_value(world, *callee, args, rest, oracle),
            NodeView::ArrayLiteral(items) => array_literal_value(world, items, rest, oracle),
            _ => (world, Err(RuntimeError::UnsupportedExpression)),
        }
    }
}

/// The value of `left operator right`: both sides are evaluated, the left
/// one first, and the operator is applied.
pub open spec fn binary_value(
    world: World,
    left: NodeView,
    operator: Seq<char>,
    right: NodeView,
    budget: nat,
    oracle: Seq<HostAnswer>,
) -> (World, Result<ValueView, RuntimeError>)
    decreases budget, 0nat,
{
    if budget == 0 {
        (world, Err(RuntimeError::BudgetExhausted))
    } else {
        let rest = (budget - 1) as nat;
        let (w1, l) = value_of(world, left, rest, oracle);
        match l {
            Err(e) => (w1, Err(e)),
            Ok(lv) => {
                let (w2, r) = value_of(w1, right, rest, oracle);
                match r {
                    Err(e) => (w2, Err(e)),
                    Ok(rv) => {
                        let (console, result) = operator_result(
                            w2.console,
                            lv,
                            operator,
                            rv,
                            oracle,
                        );
                        (World { console, ..w2 }, result)
                    },
                }
            },
        }
    }
}

/// The value of an array literal: each element is evaluated and put into
/// a slot of its own.
pub open spec fn array_literal_value(
    world: World,
    items: Seq<NodeView>,
    budget: nat,
    oracle: Seq<HostAnswer>,
) -> (World, Result<ValueView, RuntimeError>)
    decreases budget, 0nat,
{
    if budget == 0 {
        (world, Err(RuntimeError::BudgetExhausted))
    } else {
        let (w1, r) = slots_of(world, items, 0, Seq::empty(), (budget - 1) as nat, oracle);
        match r {
            Err(e) => (w1, Err(e)),
            Ok(indices) => (w1, Ok(ValueView::Array(indices))),
        }
    }
}

/// The slots of the values of the expressions from position `from` on,
/// after those in `done`.
pub open spec fn slots_of(
    world: World,
    items: Seq<NodeView>,
    from: nat,
    done: Seq<usize>,
    budget: nat,
    oracle: Seq<HostAnswer>,
) -> (World, Result<Seq<usize>, RuntimeError>)
    decreases budget, items.len() - from,
{
    if from >= items.len() {
        (world, Ok(done))
    } else {
        let (w1, r) = value_of(world, items[from as int], budget, oracle);
        match r {
            Err(e) => (w1, Err(e)),
            Ok(value) => match allocated(w1.vars, value, false) {
                (vars, Err(e)) => (World { vars, ..w1 }, Err(e)),
                (vars, Ok(index)) => slots_of(
                    World { vars, ..w1 },
                    items,
                    from + 1,
                    done.push(index),
                    budget,
                    oracle,
                ),
            },
        }
    }
}

/// The slots of the keys from position `from` on, after those in `done`.
/// Each key is a string in a constant slot.
pub open spec fn key_slots_of(
    vars: VariablesView,
    keys: Seq<Seq<char>>,
    from: nat,
    done: Seq<usize>,
) -> (VariablesView, Result<Seq<usize>, RuntimeError>)
    decreases keys.len() - from,
{
    if from >= keys.len() {
        (vars, Ok(done))
    } else {
        match allocated(vars, ValueView::Text(keys[from as int]), true) {
            (after, Err(e)) => (after, Err(e)),
            (after, Ok(index)) => key_slots_of(after, keys, from + 1, done.push(index)),
        }
    }
}

/// The value of an object literal: all keys get their slots, then each
/// value is evaluated and gets its slot.
pub open spec fn object_literal_value(
    world: World,
    keys: Seq<Seq<char>>,
    values: Seq<NodeView>,
    budget: nat,
    oracle: Seq<HostAnswer>,
) -> (World, Result<ValueView, RuntimeError>)
    decreases budget, 0nat,
{
    if budget == 0 {
        (world, Err(RuntimeError::BudgetExhausted))
    } else {
        match key_slots_of(world.vars, keys, 0, Seq::empty()) {
            (vars, Err(e)) => (World { vars, ..world }, Err(e)),
            (vars, Ok(key_indices)) => {
                let (w1, r) = slots_of(
                    World { vars, ..world },
                    values,
                    0,
                    Seq::empty(),
                    (budget - 1) as nat,
                    oracle,
                );
                match r {
                    Err(e) => (w1, Err(e)),
                    Ok(value_indices) => (
                        w1,
                        Ok(ValueView::Object { keys: key_indices, values: value_indices }),
                    ),
                }
            },
        }
    }
}

/// Where the value of `object[property]` is kept: whether there is such a
/// place, and its index.
pub open spec fn property_place(
    world: World,
    object: NodeView,
    property: NodeView,
    budget: nat,
    oracle: Seq<HostAnswer>,
) -> (World, Result<(bool, usize), RuntimeError>)
    decreases budget, 0nat,
{
    if budget == 0 {
        (world, Err(RuntimeError::BudgetExhausted))
    } else {
        let rest = (budget - 1) as nat;
        let (w1, l) = value_of(world, object, rest, oracle);
        match l {
            Err(e) => (w1, Err(e)),
            Ok(container) => {
                let (w2, k) = value_of(w1, property, rest, oracle);
                match k {
                    Err(e) => (w2, Err(e)),
                    Ok(key) => match container {
                        ValueView::Object { keys, values } => (
                            w2,
                            object_lookup(w2.vars.heap, keys, values, key, 0),
                        ),
                        ValueView::Array(items) => (w2, array_lookup(items, key)),
                        _ => (w2, Err(RuntimeError::InvalidPropertyAccess)),
                    },
                }
            },
        }
    }
}

/// The value of `object[property]`.
pub open spec fn property_value(
    world: World,
    object: NodeView,
    property: NodeView,
    budget: nat,
    oracle: Seq<HostAnswer>,
) -> (World, Result<ValueView, RuntimeError>)
    decreases budget, 0nat,
{
    if budget == 0 {
        (world, Err(RuntimeError::BudgetExhausted))
    } else {
        let (w1, place) = property_place(world, object, property, (budget - 1) as nat, oracle);
        match place {
            Err(e) => (w1, Err(e)),
            Ok((found, index)) => if !found {
                (w1, Err(RuntimeError::UnknownProperty))
            } else {
                (w1, read_slot(w1.vars.heap, index))
            },
        }
    }
}

/// The place that an assignment to `node` writes to.
pub open spec fn assignment_place(
    world: World,
    node: NodeView,
    budget: nat,
    oracle: Seq<HostAnswer>,
) -> (World, Result<(bool, usize), RuntimeError>)
    decreases budget, 0nat,
{
    if budget == 0 {
        (world, Err(RuntimeError::BudgetExhausted))
    } else {
        match node {
            NodeView::Identifier(name) => (
                world,
                match resolve_name(world.vars.scopes, name) {
                    Err(e) => Err(e),
                    Ok(index) => Ok((true, index)),
                },
            ),
            NodeView::PropertyAccess { object, property } => property_place(
                world,
                *object,
                *property,
                (budget - 1) as nat,
                oracle,
            ),
            _ => (world, Err(RuntimeError::InvalidAssignmentTarget)),
        }
    }
}

/// The values of the expressions from position `from` on, after those in
/// `done`.
pub open spec fn values_of(
    world: World,
    items: Seq<NodeView>,
    from: nat,
    done: Seq<ValueView>,
    budget: nat,
    oracle: Seq<HostAnswer>,
) -> (World, Result<Seq<ValueView>, RuntimeError>)
    decreases budget, items.len() - from,
{
    if from >= items.len() {
        (world, Ok(done))
    } else {
        let (w1, r) = value_of(world, items[from as int], budget, oracle);
        match r {
            Err(e) => (w1, Err(e)),
            Ok(value) => values_of(w1, items, from + 1, done.push(value), budget, oracle),
        }
    }
}

/// The value of a call: the callee is evaluated and must be a function
/// that takes as many arguments as the call gives.
pub open spec fn call_value(
    world: World,
    callee: NodeView,
    args: Seq<NodeView>,
    budget: nat,
    oracle: Seq<HostAnswer>,
) -> (World, Result<ValueView, RuntimeError>)
    decreases budget, 0nat,
{
    if budget == 0 {
        (world, Err(RuntimeError::BudgetExhausted))
    } else {
        let rest = (budget - 1) as nat;
        let (w1, c) = value_of(world, callee, rest, oracle);
        match c {
            Err(e) => (w1, Err(e)),
            Ok(ValueView::Native { name, arg_count, func }) => {
                let (w2, r) = values_of(w1, args, 0, Seq::empty(), rest, oracle);
                match r {
                    Err(e) => (w2, Err(e)),
                    Ok(values) => if values.len() != arg_count {
                        (w2, Err(RuntimeError::ArityMismatch))
                    } else {
                        native_result(w2, func, values, oracle)
                    },
                }
            },
            Ok(ValueView::Function { params, statements }) => function_call_value(
                w1,
                args,
                params,
                statements,
                rest,
                oracle,
            ),
            Ok(_) => (w1, Err(RuntimeError::UncallableValue)),
        }
    }
}

/// The world after the arguments from position `from` on have been
/// evaluated in turn and declared under the names of their parameters.
pub open spec fn arguments_bound(
    world: World,
    args: Seq<NodeView>,
    params: Seq<Seq<char>>,
    from: nat,
    budget: nat,
    oracle: Seq<HostAnswer>,
) -> (World, Result<(), RuntimeError>)
    decreases budget, params.len() - from,
{
    if from >= params.len() || from >= args.len() {
        (world, Ok(()))
    } else {
        let (w1, r) = value_of(world, args[from as int], budget, oracle);
        match r {
            Err(e) => (w1, Err(e)),
            Ok(value) => match declared(w1.vars, params[from as int], value, false) {
                (vars, Err(e)) => (World { vars, ..w1 }, Err(e)),
                (vars, Ok(_)) => arguments_bound(
                    World { vars, ..w1 },
                    args,
                    params,
                    from + 1,
                    budget,
                    oracle,
                ),
            },
        }
    }
}

/// The value of a call of a function of the language: a scope is opened
/// for the arguments, the body runs as a block, the scope is closed and
/// the collector runs. The value is the one that the body ended with.
pub open spec fn function_call_value(
    world: World,
    args: Seq<NodeView>,
    params: Seq<Seq<char>>,
    statements: Seq<NodeView>,
    budget: nat,
    oracle: Seq<HostAnswer>,
) -> (World, Result<ValueView, RuntimeError>)
    decreases budget, 0nat,
{
    if budget == 0 {
        (world, Err(RuntimeError::BudgetExhausted))
    } else if args.len() != params.len() {
        (world, Err(RuntimeError::ArityMismatch))
    } else {
        let rest = (budget - 1) as nat;
        let w0 = World { vars: pushed(world.vars), ..world };
        let (w1, bound) = arguments_bound(w0, args, params, 0, rest, oracle);
        match bound {
            Err(e) => (w1, Err(e)),
            Ok(_) => {
                let (w2, r) = block_outcome(w1, statements, rest, oracle);
                match r {
                    Err(e) => (w2, Err(e)),
                    Ok((_, value)) => (closed(w2), Ok(value)),
                }
            },
        }
    }
}

/// How a block ends: a scope is opened, the statements run in order until
/// one ends with a signal, the scope is closed and the collector runs.
pub open spec fn block_outcome(
    world: World,
    statements: Seq<NodeView>,
    budget: nat,
    oracle: Seq<HostAnswer>,
) -> (World, Result<(BreakType, ValueView), RuntimeError>)
    decreases budget, 0nat,
{
    if budget == 0 {
        (world, Err(RuntimeError::BudgetExhausted))
    } else {
        statements_outcome(
            World { vars: pushed(world.vars), ..world },
            statements,
            0,
            (budget - 1) as nat,
            oracle,
        )
    }
}

/// How the statements of a block from position `from` on end.
pub open spec fn statements_outcome(
    world: World,
    statements: Seq<NodeView>,
    from: nat,
    budget: nat,
    oracle: Seq<HostAnswer>,
) -> (World, Result<(BreakType, ValueView), RuntimeError>)
    decreases budget, statements.len() - from,
{
    if from >= statements.len() {
        (closed(world), Ok((BreakType::Normal, ValueView::Null)))
    } else {
        let (w1, r) = outcome_of(world, statements[from as int], budget, oracle);
        match r {
            Err(e) => (w1, Err(e)),
            Ok((signal, value)) => if signal != BreakType::Normal {
                (closed(w1), Ok((signal, value)))
            } else {
                statements_outcome(w1, statements, from + 1, budget, oracle)
            },
        }
    }
}

/// The condition of an `if` or a `while`: a boolean, and nothing else.
pub open spec fn condition_of(
    world: World,
    node: NodeView,
    budget: nat,
    oracle: Seq<HostAnswer>,
) -> (World, Result<bool, RuntimeError>)
    decreases budget, 0nat,
{
    if budget == 0 {
        (world, Err(RuntimeError::BudgetExhausted))
    } else {
        let (w1, r) = value_of(world, node, (budget - 1) as nat, oracle);
        match r {
            Err(e) => (w1, Err(e)),
            Ok(ValueView::Boolean(b)) => (w1, Ok(b)),
            Ok(_) => (w1, Err(RuntimeError::NonBooleanCondition)),
        }
    }
}

/// How an `if` ends: as the branch that the condition picks, or without a
/// signal where there is no such branch.
pub open spec fn if_outcome(
    world: World,
    check: NodeView,
    body: NodeView,
    otherwise: Option<Box<NodeView>>,
    budget: nat,
    oracle: Seq<HostAnswer>,
) -> (World, Result<(BreakType, ValueView), RuntimeError>)
    decreases budget, 0nat,
{
    if budget == 0 {
        (world, Err(RuntimeError::BudgetExhausted))
    } else {
        let rest = (budget - 1) as nat;
        let (w1, c) = condition_of(world, check, rest, oracle);
        match c {
            Err(e) => (w1, Err(e)),
            Ok(true) => outcome_of(w1, body, rest, oracle),
            Ok(false) => match otherwise {
                Some(e) => outcome_of(w1, *e, rest, oracle),
                None => (w1, Ok((BreakType::Normal, ValueView::Null))),
            },
        }
    }
}

/// How a `while` ends. A `return` in the body ends the loop and is passed
/// on; a `break` ends the loop and is absorbed; after anything else the
/// condition is looked at again.
pub open spec fn while_outcome(
    world: World,
    check: NodeView,
    body: NodeView,
    budget: nat,
    oracle: Seq<HostAnswer>,
) -> (World, Result<(BreakType, ValueView), RuntimeError>)
    decreases budget, 0nat,
{
    if budget == 0 {
        (world, Err(RuntimeError::BudgetExhausted))
    } else {
        let rest = (budget - 1) as nat;
        let (w1, c) = condition_of(world, check, rest, oracle);
        match c {
            Err(e) => (w1, Err(e)),
            Ok(false) => (w1, Ok((BreakType::Normal, ValueView::Null))),
            Ok(true) => {
                let (w2, r) = outcome_of(w1, body, rest, oracle);
                match r {
                    Err(e) => (w2, Err(e)),
                    Ok((signal, value)) => if signal == BreakType::Return {
                        (w2, Ok((BreakType::Return, value)))
                    } else if signal == BreakType::Break {
                        (w2, Ok((BreakType::Normal, ValueView::Null)))
                    } else {
                        while_outcome(w2, check, body, rest, oracle)
                    },
                }
            },
        }
    }
}

/// What a declaration does: the left side must be an identifier; the right
/// side is evaluated and declared under that name.
pub open spec fn declaration_done(
    world: World,
    constant: bool,
    left: NodeView,
    right: NodeView,
    budget: nat,
    oracle: Seq<HostAnswer>,
) -> (World, Result<(), RuntimeError>)
    decreases budget, 0nat,
{
    if budget == 0 {
        (world, Err(RuntimeError::BudgetExhausted))
    } else {
        match left {
            NodeView::Identifier(name) => {
                let (w1, r) = value_of(world, right, (budget - 1) as nat, oracle);
                match r {
                    Err(e) => (w1, Err(e)),
                    Ok(value) => {
                        let (vars, done) = declared(w1.vars, name, value, constant);
                        (World { vars, ..w1 }, done)
                    },
                }
            },
            _ => (world, Err(RuntimeError::InvalidDeclarationTarget)),
        }
    }
}

/// What the adding of a pair to the object at `target` does: the key and
/// then the value are evaluated, each gets a slot, and the object gets the
/// pair.
pub open spec fn pair_inserted(
    world: World,
    property: NodeView,
    right: NodeView,
    target: usize,
    budget: nat,
    oracle: Seq<HostAnswer>,
) -> (World, Result<(), RuntimeError>)
    decreases budget, 0nat,
{
    if budget == 0 {
        (world, Err(RuntimeError::BudgetExhausted))
    } else {
        let rest = (budget - 1) as nat;
        let (w1, k) = value_of(world, property, rest, oracle);
        match k {
            Err(e) => (w1, Err(e)),
            Ok(key) => {
                let (w2, v) = value_of(w1, right, rest, oracle);
                match v {
                    Err(e) => (w2, Err(e)),
                    Ok(value) => {
                        let (vars, done) = inserted(w2.vars, key, value, target);
                        (World { vars, ..w2 }, done)
                    },
                }
            },
        }
    }
}

/// What the adding of a pair to the object that `object` names does: the
/// place where the object is kept is found, and the pair is added there.
pub open spec fn pair_placed(
    world: World,
    object: NodeView,
    property: NodeView,
    right: NodeView,
    budget: nat,
    oracle: Seq<HostAnswer>,
) -> (World, Result<(), RuntimeError>)
    decreases budget, 0nat,
{
    if budget == 0 {
        (world, Err(RuntimeError::BudgetExhausted))
    } else {
        let rest = (budget - 1) as nat;
        let (w1, place) = assignment_place(world, object, rest, oracle);
        match place {
            Err(e) => (w1, Err(e)),
            Ok((found, target)) => if !found {
                (w1, Err(RuntimeError::InvalidInsertionTarget))
            } else {
                pair_inserted(w1, property, right, target, rest, oracle)
            },
        }
    }
}

/// What an assignment to a property that the object does not have yet
/// does: the object must be an object and must itself be kept somewhere;
/// the key and the value are evaluated and added to it as a pair.
pub open spec fn insertion_done(
    world: World,
    left: NodeView,
    right: NodeView,
    budget: nat,
    oracle: Seq<HostAnswer>,
) -> (World, Result<(), RuntimeError>)
    decreases budget, 0nat,
{
    if budget == 0 {
        (world, Err(RuntimeError::BudgetExhausted))
    } else {
        let rest = (budget - 1) as nat;
        match left {
            NodeView::PropertyAccess { object, property } => {
                let (w1, container) = value_of(world, *object, rest, oracle);
                match container {
                    Err(e) => (w1, Err(e)),
                    Ok(ValueView::Object { keys, values }) => pair_placed(
                        w1,
                        *object,
                        *property,
                        right,
                        rest,
                        oracle,
                    ),
                    Ok(_) => (w1, Err(RuntimeError::InvalidInsertionTarget)),
                }
            },
            _ => (world, Err(RuntimeError::InvalidAssignmentTarget)),
        }
    }
}

/// What an assignment does. The place is found first. A path with a missing
/// segment is no place to insert into. A place that does not exist yet is
/// inserted; one that is marked constant is refused; any other gets the
/// value of the right side.
pub open spec fn assignment_done(
    world: World,
    left: NodeView,
    operator: Seq<char>,
    right: NodeView,
    budget: nat,
    oracle: Seq<HostAnswer>,
) -> (World, Result<(), RuntimeError>)
    decreases budget, 0nat,
{
    if budget == 0 {
        (world, Err(RuntimeError::BudgetExhausted))
    } else if operator != "="@ {
        (world, Err(RuntimeError::UnsupportedStatement))
    } else {
        let rest = (budget - 1) as nat;
        let (w1, place) = assignment_place(world, left, rest, oracle);
        match place {
            Err(e) => (
                w1,
                Err(
                    if e == RuntimeError::UnknownProperty {
                        RuntimeError::InvalidInsertionTarget
                    } else {
                        e
                    },
                ),
            ),
            Ok((found, index)) => if !found {
                insertion_done(w1, left, right, rest, oracle)
            } else if !w1.vars.heap.contains_key(index) {
                (w1, Err(RuntimeError::UnknownReference))
            } else if w1.vars.heap[index].constant {
                (w1, Err(RuntimeError::AssignmentToConstant))
            } else {
                let (w2, r) = value_of(w1, right, rest, oracle);
                match r {
                    Err(e) => (w2, Err(e)),
                    Ok(value) => {
                        let (vars, done) = written(w2.vars, index, value);
                        (World { vars, ..w2 }, done)
                    },
                }
            },
        }
    }
}

/// A result without a signal, or the error.
pub open spec fn unsignalled(r: Result<(), RuntimeError>) -> Result<
    (BreakType, ValueView),
    RuntimeError,
> {
    match r {
        Err(e) => Err(e),
        Ok(_) => Ok((BreakType::Normal, ValueView::Null)),
    }
}

/// How a statement ends.
pub open spec fn outcome_of(world: World, node: NodeView, budget: nat, oracle: Seq<HostAnswer>) -> (
    World,
    Result<(BreakType, ValueView), RuntimeError>,
)
    decreases budget, 0nat,
{
    if budget == 0 {
        (world, Err(RuntimeError::BudgetExhausted))
    } else {
        let rest = (budget - 1) as nat;
        match node {
            NodeView::Block(statements) => block_outcome(world, statements, rest, oracle),
            NodeView::Declaration { constant, left, operator, right } => {
                let (w1, r) = declaration_done(world, constant, *left, *right, rest, oracle);
                (w1, unsignalled(r))
            },
            NodeView::Assignment { left, operator, right } => {
                let (w1, r) = assignment_done(world, *left, operator, *right, rest, oracle);
                (w1, unsignalled(r))
            },
            NodeView::Call { callee, args } => {
                let (w1, r) = call_value(world, *callee, args, rest, oracle);
                match r {
                    Err(e) => (w1, Err(e)),
                    Ok(_) => (w1, Ok((BreakType::Normal, ValueView::Null))),
                }
            },
            NodeView::FunctionDefinition { name, params, statements } => {
                let (vars, r) = declared(
                    world.vars,
                    name,
                    ValueView::Function { params, statements },
                    false,
                );
                (World { vars, ..world }, unsignalled(r))
            },
            NodeView::If { check, body, otherwise } => if_outcome(
                world,
                *check,
                *body,
                otherwise,
                rest,
                oracle,
            ),
            NodeView::Return(value) => {
                let (w1, r) = value_of(world, *value, rest, oracle);
                match r {
                    Err(e) => (w1, Err(e)),
                    Ok(v) => (w1, Ok((BreakType::Return, v))),
                }
            },
            NodeView::Continue => (world, Ok((BreakType::Continue, ValueView::Null))),
            NodeView::Break => (world, Ok((BreakType::Break, ValueView::Null))),
            NodeView::While { check, body } => while_outcome(world, *check, *body, rest, oracle),
            _ => (world, Err(RuntimeError::UnsupportedStatement)),
        }
    }
}

/// The state after the native functions from position `from` on have been
/// declared, each as a constant.
pub open spec fn std_lib_loaded(vars: VariablesView, from: nat) -> (
    VariablesView,
    Result<(), RuntimeError>,
)
    decreases std_lib_mappings().len() - from,
{
    if from >= std_lib_mappings().len() {
        (vars, Ok(()))
    } else {
        let (name, arg_count, func) = std_lib_mappings()[from as int];
        match declared(vars, name, ValueView::Native { name, arg_count, func }, true) {
            (after, Err(e)) => (after, Err(e)),
            (after, Ok(_)) => std_lib_loaded(after, from + 1),
        }
    }
}

/// The world after the top-level statements from position `from` on have
/// run. A signal that a statement ends with is dropped.
pub open spec fn program_run(
    world: World,
    statements: Seq<NodeView>,
    from: nat,
    budget: nat,
    oracle: Seq<HostAnswer>,
) -> (World, Result<(), RuntimeError>)
    decreases statements.len() - from,
{
    if from >= statements.len() {
        (world, Ok(()))
    } else {
        let (w1, r) = outcome_of(world, statements[from as int], budget, oracle);
        match r {
            Err(e) => (w1, Err(e)),
            Ok(_) => program_run(w1, statements, from + 1, budget, oracle),
        }
    }
}

/// The world after a run of the program: a scope with the native functions
/// is opened, above it the program's own outermost scope, and the
/// statements run in order.
pub open spec fn run_outcome(
    world: World,
    statements: Seq<NodeView>,
    budget: nat,
    oracle: Seq<HostAnswer>,
) -> (World, Result<(), RuntimeError>) {
    match std_lib_loaded(pushed(world.vars), 0) {
        (vars, Err(e)) => (World { vars, ..world }, Err(e)),
        (vars, Ok(_)) => program_run(
            World { vars: pushed(vars), ..world },
            statements,
            0,
            budget,
            oracle,
        ),
    }
}

/// A declaration whose left side is no identifier fails, and changes
/// nothing.
pub proof fn lemma_declaration_needs_identifier(
    world: World,
    constant: bool,
    left: NodeView,
    right: NodeView,
    budget: nat,
    oracle: Seq<HostAnswer>,
)
    requires
        budget > 0,
        !(left is Identifier),
    ensures
        declaration_done(world, constant, left, right, budget, oracle) == (
            world,
            Err::<(), RuntimeError>(RuntimeError::InvalidDeclarationTarget),
        ),
{
}

/// A condition that has a value that is no boolean fails.
pub proof fn lemma_condition_must_be_boolean(
    world: World,
    node: NodeView,
    budget: nat,
    oracle: Seq<HostAnswer>,
)
    requires
        budget > 0,
        value_of(world, node, (budget - 1) as nat, oracle).1 matches Ok(value) && !(value
            is Boolean),
    ensures
        condition_of(world, node, budget, oracle) == (
            value_of(world, node, (budget - 1) as nat, oracle).0,
            Err::<bool, RuntimeError>(RuntimeError::NonBooleanCondition),
        ),
{
}

/// A call of a value that is no function fails.
pub proof fn lemma_call_needs_function(
    world: World,
    callee: NodeView,
    args: Seq<NodeView>,
    budget: nat,
    oracle: Seq<HostAnswer>,
)
    requires
        budget > 0,
        value_of(world, callee, (budget - 1) as nat, oracle).1 matches Ok(value) && !(value
            is Native) && !(value is Function),
    ensures
        call_value(world, callee, args, budget, oracle) == (
            value_of(world, callee, (budget - 1) as nat, oracle).0,
            Err::<ValueView, RuntimeError>(RuntimeError::UncallableValue),
        ),
{
}

/// A call of a function of the language with more or fewer arguments than
/// it has parameters fails before anything is evaluated.
pub proof fn lemma_function_call_checks_arity(
    world: World,
    args: Seq<NodeView>,
    params: Seq<Seq<char>>,
    statements: Seq<NodeView>,
    budget: nat,
    oracle: Seq<HostAnswer>,
)
    requires
        budget > 0,
        args.len() != params.len(),
    ensures
        function_call_value(world, args, params, statements, budget, oracle) == (
            world,
            Err::<ValueView, RuntimeError>(RuntimeError::ArityMismatch),
        ),
{
}

/// A call of a native function with more or fewer arguments than it takes
/// fails once the arguments have been evaluated.
pub proof fn lemma_native_call_checks_arity(
    world: World,
    callee: NodeView,
    args: Seq<NodeView>,
    budget: nat,
    oracle: Seq<HostAnswer>,
)
    requires
        budget > 0,
        value_of(world, callee, (budget - 1) as nat, oracle).1 matches Ok(value) && value
            is Native,
        values_of(
            value_of(world, callee, (budget - 1) as nat, oracle).0,
            args,
            0,
            Seq::empty(),
            (budget - 1) as nat,
            oracle,
        ).1 matches Ok(values) && values.len() != value_of(
            world,
            callee,
            (budget - 1) as nat,
            oracle,
        ).1->Ok_0->Native_arg_count,
    ensures
        call_value(world, callee, args, budget, oracle) == (
            values_of(
                value_of(world, callee, (budget - 1) as nat, oracle).0,
                args,
                0,
                Seq::empty(),
                (budget - 1) as nat,
                oracle,
            ).0,
            Err::<ValueView, RuntimeError>(RuntimeError::ArityMismatch),
        ),
{
}

/// The key slots of an object literal are constant and hold the keys as
/// strings; there is one for each key, and none of them was on the heap
/// before.
pub proof fn lemma_key_slots_are_constant(
    vars: VariablesView,
    keys: Seq<Seq<char>>,
    from: nat,
    done: Seq<usize>,
)
    requires
        from <= keys.len(),
        done.len() == from,
        forall|i: usize| vars.heap.contains_key(i) ==> i < vars.next,
        key_slots_of(vars, keys, from, done).1 is Ok,
    ensures
        ({
            let (after, slots) = key_slots_of(vars, keys, from, done);
            &&& slots->Ok_0.len() == keys.len()
            &&& after.scopes == vars.scopes
            &&& forall|i: usize| after.heap.contains_key(i) ==> i < after.next
            &&& forall|i: usize| #[trigger]
                vars.heap.contains_key(i) ==> after.heap.contains_key(i) && after.heap[i]
                    == vars.heap[i]
            &&& forall|k: int| 0 <= k < from ==> slots->Ok_0[k] == done[k]
            &&& forall|k: int|
                from <= k < keys.len() ==> !vars.heap.contains_key(#[trigger] slots->Ok_0[k])
                    && after.heap.contains_key(slots->Ok_0[k]) && after.heap[slots->Ok_0[k]]
                    == (SlotView { value: ValueView::Text(keys[k]), constant: true })
        }),
    decreases keys.len() - from,
{
    if from < keys.len() {
        let (next, a) = allocated(vars, ValueView::Text(keys[from as int]), true);
        let index = a->Ok_0;
        lemma_key_slots_are_constant(next, keys, from + 1, done.push(index));
        let (after, slots) = key_slots_of(vars, keys, from, done);
        assert((after, slots) == key_slots_of(next, keys, from + 1, done.push(index)));
        assert(slots->Ok_0[from as int] == done.push(index)[from as int]);
        assert(index == vars.next);
        assert(next.heap.contains_key(index));
        assert forall|k: int| 0 <= k < from implies slots->Ok_0[k] == done[k] by {
            assert(done.push(index)[k] == done[k]);
        }
        assert forall|i: usize| #[trigger] vars.heap.contains_key(i) implies after.heap.contains_key(
            i,
        ) && after.heap[i] == vars.heap[i] by {
            assert(i < vars.next);
            assert(next.heap.contains_key(i));
            assert(next.heap[i] == vars.heap[i]);
            assert(after.heap.contains_key(i) && after.heap[i] == next.heap[i]);
        }
        assert forall|k: int| from <= k < keys.len() implies !vars.heap.contains_key(
            #[trigger] slots->Ok_0[k],
        ) && after.heap.contains_key(slots->Ok_0[k]) && after.heap[slots->Ok_0[k]] == (SlotView {
            value: ValueView::Text(keys[k]),
            constant: true,
        }) by {
            if k == from {
                assert(after.heap.contains_key(index) && after.heap[index] == next.heap[index]);
            } else {
                assert(!next.heap.contains_key(slots->Ok_0[k]));
            }
        }
    }
}

/// A block whose statement at `from` ends with a signal ends with that
/// signal and its value, and runs no statement after it.
pub proof fn lemma_block_passes_signal(
    world: World,
    statements: Seq<NodeView>,
    from: nat,
    budget: nat,
    oracle: Seq<HostAnswer>,
)
    requires
        from < statements.len(),
        outcome_of(world, statements[from as int], budget, oracle).1 matches Ok((signal, _))
            && signal != BreakType::Normal,
    ensures
        statements_outcome(world, statements, from, budget, oracle) == (
            closed(outcome_of(world, statements[from as int], budget, oracle).0),
            outcome_of(world, statements[from as int], budget, oracle).1,
        ),
{
}

/// A `return` in the body of a `while` ends the loop and is passed on with
/// its value.
pub proof fn lemma_while_passes_return(
    world: World,
    check: NodeView,
    body: NodeView,
    budget: nat,
    oracle: Seq<HostAnswer>,
)
    requires
        budget > 0,
        condition_of(world, check, (budget - 1) as nat, oracle).1 == Ok::<bool, RuntimeError>(true),
        outcome_of(
            condition_of(world, check, (budget - 1) as nat, oracle).0,
            body,
            (budget - 1) as nat,
            oracle,
        ).1 matches Ok((signal, _)) && signal == BreakType::Return,
    ensures
        while_outcome(world, check, body, budget, oracle) == outcome_of(
            condition_of(world, check, (budget - 1) as nat, oracle).0,
            body,
            (budget - 1) as nat,
            oracle,
        ),
{
}

/// A `break` in the body of a `while` ends that loop and goes no further:
/// the loop ends without a signal.
pub proof fn lemma_while_absorbs_break(
    world: World,
    check: NodeView,
    body: NodeView,
    budget: nat,
    oracle: Seq<HostAnswer>,
)
    requires
        budget > 0,
        condition_of(world, check, (budget - 1) as nat, oracle).1 == Ok::<bool, RuntimeError>(true),
        outcome_of(
            condition_of(world, check, (budget - 1) as nat, oracle).0,
            body,
            (budget - 1) as nat,
            oracle,
        ).1 matches Ok((signal, _)) && signal == BreakType::Break,
    ensures
        while_outcome(world, check, body, budget, oracle) == (
            outcome_of(
                condition_of(world, check, (budget - 1) as nat, oracle).0,
                body,
                (budget - 1) as nat,
                oracle,
            ).0,
            Ok::<(BreakType, ValueView), RuntimeError>((BreakType::Normal, ValueView::Null)),
        ),
{
}

/// A call of a function of the language gives the value that its body
/// ended with, whatever the signal, and closes the scope of its arguments.
pub proof fn lemma_call_gives_returned_value(
    world: World,
    args: Seq<NodeView>,
    params: Seq<Seq<char>>,
    statements: Seq<NodeView>,
    budget: nat,
    oracle: Seq<HostAnswer>,
)
    requires
        budget > 0,
        args.len() == params.len(),
        arguments_bound(
            World { vars: pushed(world.vars), ..world },
            args,
            params,
            0,
            (budget - 1) as nat,
            oracle,
        ).1 is Ok,
        block_outcome(
            arguments_bound(
                World { vars: pushed(world.vars), ..world },
                args,
                params,
                0,
                (budget - 1) as nat,
                oracle,
            ).0,
            statements,
            (budget - 1) as nat,
            oracle,
        ).1 is Ok,
    ensures
        ({
            let bound = arguments_bound(
                World { vars: pushed(world.vars), ..world },
                args,
                params,
                0,
                (budget - 1) as nat,
                oracle,
            ).0;
            let (after, ended) = block_outcome(bound, statements, (budget - 1) as nat, oracle);
            function_call_value(world, args, params, statements, budget, oracle) == (
                closed(after),
                Ok::<ValueView, RuntimeError>(ended->Ok_0.1),
            )
        }),
{
}

/// An assignment to a name whose slot is marked constant fails, and changes
/// nothing.
pub proof fn lemma_assignment_to_constant_fails(
    world: World,
    name: Seq<char>,
    right: NodeView,
    budget: nat,
    oracle: Seq<HostAnswer>,
)
    requires
        budget >= 2,
        resolve_name(world.vars.scopes, name) matches Ok(index) && world.vars.heap.contains_key(
            index,
        ) && world.vars.heap[index].constant,
    ensures
        assignment_done(world, NodeView::Identifier(name), "="@, right, budget, oracle) == (
            world,
            Err::<(), RuntimeError>(RuntimeError::AssignmentToConstant),
        ),
{
}

/// An assignment to a name whose slot is not marked constant puts the value
/// of the right side into that slot.
pub proof fn lemma_assignment_writes_slot(
    world: World,
    name: Seq<char>,
    right: NodeView,
    budget: nat,
    oracle: Seq<HostAnswer>,
)
    requires
        budget >= 2,
        resolve_name(world.vars.scopes, name) matches Ok(index) && world.vars.heap.contains_key(
            index,
        ) && !world.vars.heap[index].constant,
        value_of(world, right, (budget - 1) as nat, oracle).1 is Ok,
    ensures
        ({
            let index = resolve_name(world.vars.scopes, name)->Ok_0;
            let (after, value) = value_of(world, right, (budget - 1) as nat, oracle);
            let (vars, done) = written(after.vars, index, value->Ok_0);
            assignment_done(world, NodeView::Identifier(name), "="@, right, budget, oracle) == (
                World { vars, ..after },
                done,
            )
        }),
{
}

/// After a value has been written to the slot that a name stands for, the
/// name has that value, in the scope of the name and in every scope nested
/// in it that does not define the name again.
pub proof fn lemma_written_is_read(
    world: World,
    name: Seq<char>,
    value: ValueView,
    nested: Seq<Map<Seq<char>, usize>>,
    budget: nat,
    oracle: Seq<HostAnswer>,
)
    requires
        budget > 0,
        resolve_name(world.vars.scopes, name) matches Ok(index) && world.vars.heap.contains_key(
            index,
        ),
        forall|i: int| 0 <= i < nested.len() ==> !nested[i].contains_key(name),
    ensures
        ({
            let index = resolve_name(world.vars.scopes, name)->Ok_0;
            let vars = written(world.vars, index, value).0;
            let inner = World {
                vars: VariablesView { scopes: vars.scopes + nested, ..vars },
                ..world
            };
            value_of(inner, NodeView::Identifier(name), budget, oracle) == (
                inner,
                Ok::<ValueView, RuntimeError>(value),
            )
        }),
{
    lemma_resolve_through_nested(world.vars.scopes, nested, name);
}

/// An assignment to a property of a property that the object does not have
/// fails: a path with a missing segment is no place to insert into.
pub proof fn lemma_insertion_needs_every_segment(
    world: World,
    object: Seq<char>,
    first: Seq<char>,
    second: Seq<char>,
    right: NodeView,
    budget: nat,
    oracle: Seq<HostAnswer>,
)
    requires
        budget >= 7,
        resolve_name(world.vars.scopes, object) matches Ok(index) && world.vars.heap.contains_key(
            index,
        ) && (world.vars.heap[index].value matches ValueView::Object { keys, values }
            && object_lookup(world.vars.heap, keys, values, ValueView::Text(first), 0) == Ok::<
            (bool, usize),
            RuntimeError,
        >((false, 0usize))),
    ensures
        assignment_done(
            world,
            NodeView::PropertyAccess {
                object: Box::new(
                    NodeView::PropertyAccess {
                        object: Box::new(NodeView::Identifier(object)),
                        property: Box::new(NodeView::Text(first)),
                    },
                ),
                property: Box::new(NodeView::Text(second)),
            },
            "="@,
            right,
            budget,
            oracle,
        ) == (world, Err::<(), RuntimeError>(RuntimeError::InvalidInsertionTarget)),
{
    reveal_with_fuel(value_of, 3);
    reveal_with_fuel(property_place, 2);
}

} // verus!

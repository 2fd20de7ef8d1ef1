//! What no evaluation does: it never changes a scope below the innermost
//! one that it found, never takes a name out of that one, and never frees a
//! slot that one of these scopes names. An expression that has a value
//! leaves the scope stack as it was; a statement that runs to its end
//! leaves as many scopes as it found.

use vstd::prelude::*;
use crate::errors::RuntimeError;
use crate::host::HostAnswer;
use crate::parsing::ast_utils::NodeView;
use crate::interpretting::interpreter_utils::BreakType;
use crate::interpretting::interpreter_utils::ValueView;
use crate::interpretting::interpreter_utils::NativeFunction;
use crate::interpretting::variables::VariablesView;
use crate::interpretting::variables::resolve_name;
use crate::interpretting::variables::object_lookup;
use crate::interpretting::variables::with_inserted;
use crate::interpretting::variables::allocated;
use crate::interpretting::variables::declared;
use crate::interpretting::variables::pushed;
use crate::interpretting::variables::popped;
use crate::interpretting::variables::written;
use crate::interpretting::variables::inserted;
use crate::interpretting::garbage_collector::is_root;
use crate::interpretting::garbage_collector::reached_from;
use crate::interpretting::garbage_collector::reachable;
use crate::interpretting::garbage_collector::lemma_swept_is_reachable;
use crate::interpretting::semantics::World;
use crate::interpretting::semantics::collected;
use crate::interpretting::semantics::value_of;
use crate::interpretting::semantics::binary_value;
use crate::interpretting::semantics::array_literal_value;
use crate::interpretting::semantics::slots_of;
use crate::interpretting::semantics::key_slots_of;
use crate::interpretting::semantics::object_literal_value;
use crate::interpretting::semantics::property_place;
use crate::interpretting::semantics::property_value;
use crate::interpretting::semantics::assignment_place;
use crate::interpretting::semantics::values_of;
use crate::interpretting::semantics::call_value;
use crate::interpretting::semantics::arguments_bound;
use crate::interpretting::semantics::function_call_value;
use crate::interpretting::semantics::block_outcome;
use crate::interpretting::semantics::statements_outcome;
use crate::interpretting::semantics::condition_of;
use crate::interpretting::semantics::if_outcome;
use crate::interpretting::semantics::while_outcome;
use crate::interpretting::semantics::declaration_done;
use crate::interpretting::semantics::pair_inserted;
use crate::interpretting::semantics::pair_placed;
use crate::interpretting::semantics::insertion_done;
use crate::interpretting::semantics::assignment_done;
use crate::interpretting::semantics::outcome_of;
use crate::std_lib::functions::native_result;

verus! {

/// Whether `after` has every scope of `before` but the innermost as it was,
/// every name of the innermost with the index it had, and every slot that a
/// scope of `before` named.
#[verifier::opaque]
pub open spec fn undisturbed(before: VariablesView, after: VariablesView) -> bool {
    &&& after.scopes.len() >= before.scopes.len()
    &&& forall|i: int| 0 <= i < before.scopes.len() - 1 ==> after.scopes[i] == before.scopes[i]
    &&& before.scopes.len() > 0 ==> forall|n: Seq<char>| #[trigger]
        before.scopes.last().contains_key(n) ==> after.scopes[before.scopes.len() - 1].contains_key(
            n,
        ) && after.scopes[before.scopes.len() - 1][n] == before.scopes.last()[n]
    &&& forall|i: usize|
        is_root(before.scopes, i) && before.heap.contains_key(i) ==> after.heap.contains_key(i)
}

/// What holds of the state after an expression: nothing is disturbed, and
/// when it has a value the scope stack is as it was.
pub open spec fn kept(before: VariablesView, after: VariablesView, ok: bool) -> bool {
    &&& undisturbed(before, after)
    &&& after.scopes.len() >= before.scopes.len()
    &&& ok ==> after.scopes == before.scopes
}

/// What holds of the state after a statement: nothing is disturbed, and
/// when it runs to its end there are as many scopes as there were.
pub open spec fn kept_outer(before: VariablesView, after: VariablesView, ok: bool) -> bool {
    &&& undisturbed(before, after)
    &&& after.scopes.len() >= before.scopes.len()
    &&& ok ==> after.scopes.len() == before.scopes.len()
}

/// A name that the scopes of `before` define is defined in `after`, as far
/// as `after` has not been disturbed.
proof fn lemma_roots_stay_roots(before: VariablesView, after: VariablesView, index: usize)
    requires
        undisturbed(before, after),
        is_root(before.scopes, index),
    ensures
        is_root(after.scopes, index),
{
    reveal(undisturbed);
    let (f, n) = choose|f: int, n: Seq<char>|
        0 <= f < before.scopes.len() && (#[trigger] before.scopes[f].contains_key(n))
            && before.scopes[f][n] == index;
    if f == before.scopes.len() - 1 {
        assert(before.scopes.last().contains_key(n));
    }
    assert(after.scopes[f].contains_key(n));
    assert(after.scopes[f][n] == index);
}

/// A state is not disturbed by nothing being done.
pub proof fn lemma_undisturbed_by_nothing(vars: VariablesView)
    ensures
        undisturbed(vars, vars),
{
    reveal(undisturbed);
}

/// What is not disturbed by either of two steps is not disturbed by one
/// after the other.
pub proof fn lemma_undisturbed_in_turn(a: VariablesView, b: VariablesView, c: VariablesView)
    requires
        undisturbed(a, b),
        undisturbed(b, c),
    ensures
        undisturbed(a, c),
{
    assert forall|i: usize| is_root(a.scopes, i) && a.heap.contains_key(i) implies c.heap.contains_key(
        i,
    ) by {
        lemma_roots_stay_roots(a, b, i);
        reveal(undisturbed);
    }
    reveal(undisturbed);
    assert forall|i: int| 0 <= i < a.scopes.len() - 1 implies c.scopes[i] == a.scopes[i] by {
        assert(b.scopes[i] == a.scopes[i]);
    }
    if a.scopes.len() > 0 {
        let top = a.scopes.len() - 1;
        assert forall|n: Seq<char>| #[trigger] a.scopes.last().contains_key(n) implies c.scopes[top].contains_key(
            n,
        ) && c.scopes[top][n] == a.scopes.last()[n] by {
            assert(b.scopes[top].contains_key(n));
            if b.scopes.len() == a.scopes.len() {
                assert(b.scopes.last().contains_key(n));
            } else {
                assert(c.scopes[top] == b.scopes[top]);
            }
        }
    }
}

proof fn lemma_kept_in_turn(a: VariablesView, b: VariablesView, c: VariablesView, ok: bool)
    requires
        kept(a, b, true),
        kept(b, c, ok),
    ensures
        kept(a, c, ok),
{
    lemma_undisturbed_in_turn(a, b, c);
}

proof fn lemma_kept_outer_in_turn(a: VariablesView, b: VariablesView, c: VariablesView, ok: bool)
    requires
        kept_outer(a, b, true),
        kept_outer(b, c, ok),
    ensures
        kept_outer(a, c, ok),
{
    lemma_undisturbed_in_turn(a, b, c);
}

proof fn lemma_allocation_keeps(vars: VariablesView, value: ValueView, constant: bool)
    ensures
        kept(vars, allocated(vars, value, constant).0, true),
{
    reveal(undisturbed);
}

proof fn lemma_declaration_keeps(vars: VariablesView, name: Seq<char>, value: ValueView, constant: bool)
    requires
        vars.scopes.len() > 0,
    ensures
        kept_outer(vars, declared(vars, name, value, constant).0, true),
{
    reveal(undisturbed);
}

proof fn lemma_writing_keeps(vars: VariablesView, index: usize, value: ValueView)
    ensures
        kept(vars, written(vars, index, value).0, true),
{
    reveal(undisturbed);
}

proof fn lemma_insertion_keeps(vars: VariablesView, key: ValueView, value: ValueView, target: usize)
    ensures
        kept(vars, inserted(vars, key, value, target).0, true),
{
    reveal(undisturbed);
}

proof fn lemma_native_keeps(
    world: World,
    func: NativeFunction,
    args: Seq<ValueView>,
    oracle: Seq<HostAnswer>,
)
    ensures
        kept(world.vars, native_result(world, func, args, oracle).0.vars, true),
{
    reveal(undisturbed);
}

proof fn lemma_opening_keeps(vars: VariablesView)
    ensures
        undisturbed(vars, pushed(vars)),
{
    reveal(undisturbed);
    assert forall|i: usize| is_root(vars.scopes, i) implies is_root(pushed(vars).scopes, i) by {
        let (f, n) = choose|f: int, n: Seq<char>|
            0 <= f < vars.scopes.len() && (#[trigger] vars.scopes[f].contains_key(n))
                && vars.scopes[f][n] == i;
        assert(pushed(vars).scopes[f].contains_key(n));
    }
}

/// Closing the scope that was opened on `base` gives `base` its scope
/// stack back, with every slot that it named.
proof fn lemma_closing_restores(base: VariablesView, inner: VariablesView)
    requires
        undisturbed(pushed(base), inner),
        inner.scopes.len() == base.scopes.len() + 1,
    ensures
        kept(base, collected(popped(inner)), true),
{
    reveal(undisturbed);
    let after = collected(popped(inner));
    assert(after.scopes =~= base.scopes) by {
        assert forall|i: int| 0 <= i < base.scopes.len() implies after.scopes[i] == base.scopes[i] by {
            assert(pushed(base).scopes[i] == base.scopes[i]);
        }
    }
    assert forall|i: usize| is_root(base.scopes, i) && base.heap.contains_key(i) implies after.heap.contains_key(
        i,
    ) by {
        let (f, n) = choose|f: int, n: Seq<char>|
            0 <= f < base.scopes.len() && (#[trigger] base.scopes[f].contains_key(n))
                && base.scopes[f][n] == i;
        assert(pushed(base).scopes[f].contains_key(n));
        assert(is_root(pushed(base).scopes, i));
        assert(inner.heap.contains_key(i));
        assert(is_root(after.scopes, i));
        assert(reached_from(inner.heap, i, i));
        assert(reachable(after.scopes, inner.heap).contains(i));
    }
}

/// An expression disturbs nothing, and when it has a value the scope stack
/// is as it was.
pub proof fn lemma_value_keeps(world: World, node: NodeView, budget: nat, oracle: Seq<HostAnswer>)
    requires
        world.vars.scopes.len() > 0,
    ensures
        kept(
            world.vars,
            value_of(world, node, budget, oracle).0.vars,
            value_of(world, node, budget, oracle).1 is Ok,
        ),
    decreases budget, 0nat,
{
    lemma_undisturbed_by_nothing(world.vars);
    if budget > 0 {
        let rest = (budget - 1) as nat;
        match node {
            NodeView::Binary { left, operator, right } => {
                lemma_binary_keeps(world, *left, operator, *right, rest, oracle);
            },
            NodeView::ObjectLiteral { keys, values } => {
                lemma_object_literal_keeps(world, keys, values, rest, oracle);
            },
            NodeView::PropertyAccess { object, property } => {
                lemma_property_value_keeps(world, *object, *property, rest, oracle);
            },
            NodeView::Call { callee, args } => {
                lemma_call_keeps(world, *callee, args, rest, oracle);
            },
            NodeView::ArrayLiteral(items) => {
                lemma_array_literal_keeps(world, items, rest, oracle);
            },
            _ => {},
        }
    }
}

proof fn lemma_binary_keeps(
    world: World,
    left: NodeView,
    operator: Seq<char>,
    right: NodeView,
    budget: nat,
    oracle: Seq<HostAnswer>,
)
    requires
        world.vars.scopes.len() > 0,
    ensures
        kept(
            world.vars,
            binary_value(world, left, operator, right, budget, oracle).0.vars,
            binary_value(world, left, operator, right, budget, oracle).1 is Ok,
        ),
    decreases budget, 0nat,
{
    lemma_undisturbed_by_nothing(world.vars);
    if budget > 0 {
        let rest = (budget - 1) as nat;
        lemma_value_keeps(world, left, rest, oracle);
        let (w1, l) = value_of(world, left, rest, oracle);
        if l is Ok {
            lemma_value_keeps(w1, right, rest, oracle);
            let (w2, r) = value_of(w1, right, rest, oracle);
            lemma_kept_in_turn(world.vars, w1.vars, w2.vars, r is Ok);
        }
    }
}

proof fn lemma_slots_keep(
    world: World,
    items: Seq<NodeView>,
    from: nat,
    done: Seq<usize>,
    budget: nat,
    oracle: Seq<HostAnswer>,
)
    requires
        world.vars.scopes.len() > 0,
    ensures
        kept(
            world.vars,
            slots_of(world, items, from, done, budget, oracle).0.vars,
            slots_of(world, items, from, done, budget, oracle).1 is Ok,
        ),
    decreases budget, items.len() - from,
{
    lemma_undisturbed_by_nothing(world.vars);
    if from < items.len() {
        lemma_value_keeps(world, items[from as int], budget, oracle);
        let (w1, r) = value_of(world, items[from as int], budget, oracle);
        if let Ok(value) = r {
            lemma_allocation_keeps(w1.vars, value, false);
            let (vars, a) = allocated(w1.vars, value, false);
            lemma_kept_in_turn(world.vars, w1.vars, vars, true);
            if let Ok(index) = a {
                let w2 = World { vars, ..w1 };
                lemma_slots_keep(w2, items, from + 1, done.push(index), budget, oracle);
                lemma_kept_in_turn(
                    world.vars,
                    vars,
                    slots_of(w2, items, from + 1, done.push(index), budget, oracle).0.vars,
                    slots_of(w2, items, from + 1, done.push(index), budget, oracle).1 is Ok,
                );
            }
        }
    }
}

proof fn lemma_array_literal_keeps(
    world: World,
    items: Seq<NodeView>,
    budget: nat,
    oracle: Seq<HostAnswer>,
)
    requires
        world.vars.scopes.len() > 0,
    ensures
        kept(
            world.vars,
            array_literal_value(world, items, budget, oracle).0.vars,
            array_literal_value(world, items, budget, oracle).1 is Ok,
        ),
    decreases budget, 0nat,
{
    lemma_undisturbed_by_nothing(world.vars);
    if budget > 0 {
        lemma_slots_keep(world, items, 0, Seq::empty(), (budget - 1) as nat, oracle);
    }
}

proof fn lemma_key_slots_keep(vars: VariablesView, keys: Seq<Seq<char>>, from: nat, done: Seq<usize>)
    ensures
        kept(vars, key_slots_of(vars, keys, from, done).0, true),
    decreases keys.len() - from,
{
    lemma_undisturbed_by_nothing(vars);
    if from < keys.len() {
        lemma_allocation_keeps(vars, ValueView::Text(keys[from as int]), true);
        let (after, a) = allocated(vars, ValueView::Text(keys[from as int]), true);
        if let Ok(index) = a {
            lemma_key_slots_keep(after, keys, from + 1, done.push(index));
            lemma_kept_in_turn(
                vars,
                after,
                key_slots_of(after, keys, from + 1, done.push(index)).0,
                true,
            );
        }
    }
}

proof fn lemma_object_literal_keeps(
    world: World,
    keys: Seq<Seq<char>>,
    values: Seq<NodeView>,
    budget: nat,
    oracle: Seq<HostAnswer>,
)
    requires
        world.vars.scopes.len() > 0,
    ensures
        kept(
            world.vars,
            object_literal_value(world, keys, values, budget, oracle).0.vars,
            object_literal_value(world, keys, values, budget, oracle).1 is Ok,
        ),
    decreases budget, 0nat,
{
    lemma_undisturbed_by_nothing(world.vars);
    if budget > 0 {
        lemma_key_slots_keep(world.vars, keys, 0, Seq::empty());
        let (vars, k) = key_slots_of(world.vars, keys, 0, Seq::empty());
        if k is Ok {
            let w1 = World { vars, ..world };
            lemma_slots_keep(w1, values, 0, Seq::empty(), (budget - 1) as nat, oracle);
            lemma_kept_in_turn(
                world.vars,
                vars,
                slots_of(w1, values, 0, Seq::empty(), (budget - 1) as nat, oracle).0.vars,
                slots_of(w1, values, 0, Seq::empty(), (budget - 1) as nat, oracle).1 is Ok,
            );
        }
    }
}

proof fn lemma_property_place_keeps(
    world: World,
    object: NodeView,
    property: NodeView,
    budget: nat,
    oracle: Seq<HostAnswer>,
)
    requires
        world.vars.scopes.len() > 0,
    ensures
        kept(
            world.vars,
            property_place(world, object, property, budget, oracle).0.vars,
            property_place(world, object, property, budget, oracle).1 is Ok,
        ),
    decreases budget, 0nat,
{
    lemma_undisturbed_by_nothing(world.vars);
    if budget > 0 {
        let rest = (budget - 1) as nat;
        lemma_value_keeps(world, object, rest, oracle);
        let (w1, l) = value_of(world, object, rest, oracle);
        if l is Ok {
            lemma_value_keeps(w1, property, rest, oracle);
            let (w2, k) = value_of(w1, property, rest, oracle);
            lemma_kept_in_turn(world.vars, w1.vars, w2.vars, k is Ok);
        }
    }
}

proof fn lemma_property_value_keeps(
    world: World,
    object: NodeView,
    property: NodeView,
    budget: nat,
    oracle: Seq<HostAnswer>,
)
    requires
        world.vars.scopes.len() > 0,
    ensures
        kept(
            world.vars,
            property_value(world, object, property, budget, oracle).0.vars,
            property_value(world, object, property, budget, oracle).1 is Ok,
        ),
    decreases budget, 0nat,
{
    lemma_undisturbed_by_nothing(world.vars);
    if budget > 0 {
        lemma_property_place_keeps(world, object, property, (budget - 1) as nat, oracle);
    }
}

proof fn lemma_assignment_place_keeps(
    world: World,
    node: NodeView,
    budget: nat,
    oracle: Seq<HostAnswer>,
)
    requires
        world.vars.scopes.len() > 0,
    ensures
        kept(
            world.vars,
            assignment_place(world, node, budget, oracle).0.vars,
            assignment_place(world, node, budget, oracle).1 is Ok,
        ),
    decreases budget, 0nat,
{
    lemma_undisturbed_by_nothing(world.vars);
    if budget > 0 {
        match node {
            NodeView::PropertyAccess { object, property } => {
                lemma_property_place_keeps(world, *object, *property, (budget - 1) as nat, oracle);
            },
            _ => {},
        }
    }
}

proof fn lemma_values_keep(
    world: World,
    items: Seq<NodeView>,
    from: nat,
    done: Seq<ValueView>,
    budget: nat,
    oracle: Seq<HostAnswer>,
)
    requires
        world.vars.scopes.len() > 0,
    ensures
        kept(
            world.vars,
            values_of(world, items, from, done, budget, oracle).0.vars,
            values_of(world, items, from, done, budget, oracle).1 is Ok,
        ),
    decreases budget, items.len() - from,
{
    lemma_undisturbed_by_nothing(world.vars);
    if from < items.len() {
        lemma_value_keeps(world, items[from as int], budget, oracle);
        let (w1, r) = value_of(world, items[from as int], budget, oracle);
        if let Ok(value) = r {
            lemma_values_keep(w1, items, from + 1, done.push(value), budget, oracle);
            lemma_kept_in_turn(
                world.vars,
                w1.vars,
                values_of(w1, items, from + 1, done.push(value), budget, oracle).0.vars,
                values_of(w1, items, from + 1, done.push(value), budget, oracle).1 is Ok,
            );
        }
    }
}

/// A call disturbs nothing, and when it has a value the scope stack is as
/// it was: the scope of the arguments is gone and the scopes of the caller
/// are back.
pub proof fn lemma_call_keeps(
    world: World,
    callee: NodeView,
    args: Seq<NodeView>,
    budget: nat,
    oracle: Seq<HostAnswer>,
)
    requires
        world.vars.scopes.len() > 0,
    ensures
        kept(
            world.vars,
            call_value(world, callee, args, budget, oracle).0.vars,
            call_value(world, callee, args, budget, oracle).1 is Ok,
        ),
    decreases budget, 0nat,
{
    lemma_undisturbed_by_nothing(world.vars);
    if budget > 0 {
        let rest = (budget - 1) as nat;
        lemma_value_keeps(world, callee, rest, oracle);
        let (w1, c) = value_of(world, callee, rest, oracle);
        match c {
            Ok(ValueView::Native { name, arg_count, func }) => {
                lemma_values_keep(w1, args, 0, Seq::empty(), rest, oracle);
                let (w2, r) = values_of(w1, args, 0, Seq::empty(), rest, oracle);
                lemma_kept_in_turn(world.vars, w1.vars, w2.vars, r is Ok);
                if let Ok(values) = r {
                    lemma_native_keeps(w2, func, values, oracle);
                    lemma_kept_in_turn(
                        world.vars,
                        w2.vars,
                        native_result(w2, func, values, oracle).0.vars,
                        true,
                    );
                }
            },
            Ok(ValueView::Function { params, statements }) => {
                lemma_function_call_keeps(w1, args, params, statements, rest, oracle);
                lemma_kept_in_turn(
                    world.vars,
                    w1.vars,
                    function_call_value(w1, args, params, statements, rest, oracle).0.vars,
                    function_call_value(w1, args, params, statements, rest, oracle).1 is Ok,
                );
            },
            _ => {},
        }
    }
}

proof fn lemma_arguments_keep(
    world: World,
    args: Seq<NodeView>,
    params: Seq<Seq<char>>,
    from: nat,
    budget: nat,
    oracle: Seq<HostAnswer>,
)
    requires
        world.vars.scopes.len() > 0,
    ensures
        kept_outer(
            world.vars,
            arguments_bound(world, args, params, from, budget, oracle).0.vars,
            arguments_bound(world, args, params, from, budget, oracle).1 is Ok,
        ),
    decreases budget, params.len() - from,
{
    lemma_undisturbed_by_nothing(world.vars);
    if from < params.len() && from < args.len() {
        lemma_value_keeps(world, args[from as int], budget, oracle);
        let (w1, r) = value_of(world, args[from as int], budget, oracle);
        if let Ok(value) = r {
            lemma_declaration_keeps(w1.vars, params[from as int], value, false);
            let (vars, d) = declared(w1.vars, params[from as int], value, false);
            lemma_kept_outer_in_turn(world.vars, w1.vars, vars, true);
            if d is Ok {
                let w2 = World { vars, ..w1 };
                lemma_arguments_keep(w2, args, params, from + 1, budget, oracle);
                lemma_kept_outer_in_turn(
                    world.vars,
                    vars,
                    arguments_bound(w2, args, params, from + 1, budget, oracle).0.vars,
                    arguments_bound(w2, args, params, from + 1, budget, oracle).1 is Ok,
                );
            }
        }
    }
}

proof fn lemma_function_call_keeps(
    world: World,
    args: Seq<NodeView>,
    params: Seq<Seq<char>>,
    statements: Seq<NodeView>,
    budget: nat,
    oracle: Seq<HostAnswer>,
)
    requires
        world.vars.scopes.len() > 0,
    ensures
        kept(
            world.vars,
            function_call_value(world, args, params, statements, budget, oracle).0.vars,
            function_call_value(world, args, params, statements, budget, oracle).1 is Ok,
        ),
    decreases budget, 0nat,
{
    lemma_undisturbed_by_nothing(world.vars);
    if budget > 0 && args.len() == params.len() {
        let rest = (budget - 1) as nat;
        let w0 = World { vars: pushed(world.vars), ..world };
        lemma_opening_keeps(world.vars);
        lemma_arguments_keep(w0, args, params, 0, rest, oracle);
        let (w1, bound) = arguments_bound(w0, args, params, 0, rest, oracle);
        lemma_undisturbed_in_turn(world.vars, w0.vars, w1.vars);
        if bound is Ok {
            lemma_block_keeps(w1, statements, rest, oracle);
            let (w2, r) = block_outcome(w1, statements, rest, oracle);
            lemma_undisturbed_in_turn(w0.vars, w1.vars, w2.vars);
            lemma_undisturbed_in_turn(world.vars, w0.vars, w2.vars);
            if r is Ok {
                lemma_closing_restores(world.vars, w2.vars);
            }
        }
    }
}

/// A block disturbs nothing, and when it runs to its end or ends with a
/// signal the scope stack is as it was.
pub proof fn lemma_block_keeps(
    world: World,
    statements: Seq<NodeView>,
    budget: nat,
    oracle: Seq<HostAnswer>,
)
    requires
        world.vars.scopes.len() > 0,
    ensures
        kept(
            world.vars,
            block_outcome(world, statements, budget, oracle).0.vars,
            block_outcome(world, statements, budget, oracle).1 is Ok,
        ),
    decreases budget, 0nat,
{
    lemma_undisturbed_by_nothing(world.vars);
    if budget > 0 {
        let opened = World { vars: pushed(world.vars), ..world };
        lemma_undisturbed_by_nothing(opened.vars);
        lemma_statements_keep(world.vars, opened, statements, 0, (budget - 1) as nat, oracle);
    }
}

proof fn lemma_statements_keep(
    base: VariablesView,
    world: World,
    statements: Seq<NodeView>,
    from: nat,
    budget: nat,
    oracle: Seq<HostAnswer>,
)
    requires
        base.scopes.len() > 0,
        undisturbed(pushed(base), world.vars),
        world.vars.scopes.len() == base.scopes.len() + 1,
    ensures
        kept(
            base,
            statements_outcome(world, statements, from, budget, oracle).0.vars,
            statements_outcome(world, statements, from, budget, oracle).1 is Ok,
        ),
    decreases budget, statements.len() - from,
{
    lemma_opening_keeps(base);
    lemma_undisturbed_in_turn(base, pushed(base), world.vars);
    if from >= statements.len() {
        lemma_closing_restores(base, world.vars);
    } else {
        lemma_outcome_keeps(world, statements[from as int], budget, oracle);
        let (w1, r) = outcome_of(world, statements[from as int], budget, oracle);
        lemma_undisturbed_in_turn(pushed(base), world.vars, w1.vars);
        lemma_undisturbed_in_turn(base, pushed(base), w1.vars);
        if let Ok((signal, value)) = r {
            if signal != BreakType::Normal {
                lemma_closing_restores(base, w1.vars);
            } else {
                lemma_statements_keep(base, w1, statements, from + 1, budget, oracle);
            }
        }
    }
}

proof fn lemma_condition_keeps(world: World, node: NodeView, budget: nat, oracle: Seq<HostAnswer>)
    requires
        world.vars.scopes.len() > 0,
    ensures
        kept(
            world.vars,
            condition_of(world, node, budget, oracle).0.vars,
            condition_of(world, node, budget, oracle).1 is Ok,
        ),
    decreases budget, 0nat,
{
    lemma_undisturbed_by_nothing(world.vars);
    if budget > 0 {
        lemma_value_keeps(world, node, (budget - 1) as nat, oracle);
    }
}

proof fn lemma_if_keeps(
    world: World,
    check: NodeView,
    body: NodeView,
    otherwise: Option<Box<NodeView>>,
    budget: nat,
    oracle: Seq<HostAnswer>,
)
    requires
        world.vars.scopes.len() > 0,
    ensures
        kept_outer(
            world.vars,
            if_outcome(world, check, body, otherwise, budget, oracle).0.vars,
            if_outcome(world, check, body, otherwise, budget, oracle).1 is Ok,
        ),
    decreases budget, 0nat,
{
    lemma_undisturbed_by_nothing(world.vars);
    if budget > 0 {
        let rest = (budget - 1) as nat;
        lemma_condition_keeps(world, check, rest, oracle);
        let (w1, c) = condition_of(world, check, rest, oracle);
        match c {
            Ok(true) => {
                lemma_outcome_keeps(w1, body, rest, oracle);
                lemma_kept_outer_in_turn(
                    world.vars,
                    w1.vars,
                    outcome_of(w1, body, rest, oracle).0.vars,
                    outcome_of(w1, body, rest, oracle).1 is Ok,
                );
            },
            Ok(false) => {
                match otherwise {
                    Some(e) => {
                        lemma_outcome_keeps(w1, *e, rest, oracle);
                        lemma_kept_outer_in_turn(
                            world.vars,
                            w1.vars,
                            outcome_of(w1, *e, rest, oracle).0.vars,
                            outcome_of(w1, *e, rest, oracle).1 is Ok,
                        );
                    },
                    None => {},
                }
            },
            Err(_) => {},
        }
    }
}

proof fn lemma_while_keeps(
    world: World,
    check: NodeView,
    body: NodeView,
    budget: nat,
    oracle: Seq<HostAnswer>,
)
    requires
        world.vars.scopes.len() > 0,
    ensures
        kept_outer(
            world.vars,
            while_outcome(world, check, body, budget, oracle).0.vars,
            while_outcome(world, check, body, budget, oracle).1 is Ok,
        ),
    decreases budget, 0nat,
{
    lemma_undisturbed_by_nothing(world.vars);
    if budget > 0 {
        let rest = (budget - 1) as nat;
        lemma_condition_keeps(world, check, rest, oracle);
        let (w1, c) = condition_of(world, check, rest, oracle);
        if c == Ok::<bool, RuntimeError>(true) {
            lemma_outcome_keeps(w1, body, rest, oracle);
            let (w2, r) = outcome_of(w1, body, rest, oracle);
            lemma_kept_outer_in_turn(world.vars, w1.vars, w2.vars, r is Ok);
            if let Ok((signal, value)) = r {
                if signal != BreakType::Return && signal != BreakType::Break {
                    lemma_while_keeps(w2, check, body, rest, oracle);
                    lemma_kept_outer_in_turn(
                        world.vars,
                        w2.vars,
                        while_outcome(w2, check, body, rest, oracle).0.vars,
                        while_outcome(w2, check, body, rest, oracle).1 is Ok,
                    );
                }
            }
        }
    }
}

proof fn lemma_declaration_done_keeps(
    world: World,
    constant: bool,
    left: NodeView,
    right: NodeView,
    budget: nat,
    oracle: Seq<HostAnswer>,
)
    requires
        world.vars.scopes.len() > 0,
    ensures
        kept_outer(
            world.vars,
            declaration_done(world, constant, left, right, budget, oracle).0.vars,
            declaration_done(world, constant, left, right, budget, oracle).1 is Ok,
        ),
    decreases budget, 0nat,
{
    lemma_undisturbed_by_nothing(world.vars);
    if budget > 0 {
        match left {
            NodeView::Identifier(name) => {
                lemma_value_keeps(world, right, (budget - 1) as nat, oracle);
                let (w1, r) = value_of(world, right, (budget - 1) as nat, oracle);
                if let Ok(value) = r {
                    lemma_declaration_keeps(w1.vars, name, value, constant);
                    lemma_kept_outer_in_turn(
                        world.vars,
                        w1.vars,
                        declared(w1.vars, name, value, constant).0,
                        true,
                    );
                }
            },
            _ => {},
        }
    }
}

proof fn lemma_pair_inserted_keeps(
    world: World,
    property: NodeView,
    right: NodeView,
    target: usize,
    budget: nat,
    oracle: Seq<HostAnswer>,
)
    requires
        world.vars.scopes.len() > 0,
    ensures
        kept(
            world.vars,
            pair_inserted(world, property, right, target, budget, oracle).0.vars,
            pair_inserted(world, property, right, target, budget, oracle).1 is Ok,
        ),
    decreases budget, 0nat,
{
    lemma_undisturbed_by_nothing(world.vars);
    if budget > 0 {
        let rest = (budget - 1) as nat;
        lemma_value_keeps(world, property, rest, oracle);
        let (w1, k) = value_of(world, property, rest, oracle);
        if let Ok(key) = k {
            lemma_value_keeps(w1, right, rest, oracle);
            let (w2, v) = value_of(w1, right, rest, oracle);
            lemma_kept_in_turn(world.vars, w1.vars, w2.vars, v is Ok);
            if let Ok(value) = v {
                lemma_insertion_keeps(w2.vars, key, value, target);
                lemma_kept_in_turn(
                    world.vars,
                    w2.vars,
                    inserted(w2.vars, key, value, target).0,
                    true,
                );
            }
        }
    }
}

proof fn lemma_pair_placed_keeps(
    world: World,
    object: NodeView,
    property: NodeView,
    right: NodeView,
    budget: nat,
    oracle: Seq<HostAnswer>,
)
    requires
        world.vars.scopes.len() > 0,
    ensures
        kept(
            world.vars,
            pair_placed(world, object, property, right, budget, oracle).0.vars,
            pair_placed(world, object, property, right, budget, oracle).1 is Ok,
        ),
    decreases budget, 0nat,
{
    lemma_undisturbed_by_nothing(world.vars);
    if budget > 0 {
        let rest = (budget - 1) as nat;
        lemma_assignment_place_keeps(world, object, rest, oracle);
        let (w1, place) = assignment_place(world, object, rest, oracle);
        if let Ok((found, target)) = place {
            if found {
                lemma_pair_inserted_keeps(w1, property, right, target, rest, oracle);
                lemma_kept_in_turn(
                    world.vars,
                    w1.vars,
                    pair_inserted(w1, property, right, target, rest, oracle).0.vars,
                    pair_inserted(w1, property, right, target, rest, oracle).1 is Ok,
                );
            }
        }
    }
}

proof fn lemma_insertion_done_keeps(
    world: World,
    left: NodeView,
    right: NodeView,
    budget: nat,
    oracle: Seq<HostAnswer>,
)
    requires
        world.vars.scopes.len() > 0,
    ensures
        kept(
            world.vars,
            insertion_done(world, left, right, budget, oracle).0.vars,
            insertion_done(world, left, right, budget, oracle).1 is Ok,
        ),
    decreases budget, 0nat,
{
    lemma_undisturbed_by_nothing(world.vars);
    if budget > 0 {
        let rest = (budget - 1) as nat;
        match left {
            NodeView::PropertyAccess { object, property } => {
                lemma_value_keeps(world, *object, rest, oracle);
                let (w1, container) = value_of(world, *object, rest, oracle);
                match container {
                    Ok(ValueView::Object { keys, values }) => {
                        lemma_pair_placed_keeps(w1, *object, *property, right, rest, oracle);
                        lemma_kept_in_turn(
                            world.vars,
                            w1.vars,
                            pair_placed(w1, *object, *property, right, rest, oracle).0.vars,
                            pair_placed(w1, *object, *property, right, rest, oracle).1 is Ok,
                        );
                    },
                    _ => {},
                }
            },
            _ => {},
        }
    }
}

proof fn lemma_assignment_done_keeps(
    world: World,
    left: NodeView,
    operator: Seq<char>,
    right: NodeView,
    budget: nat,
    oracle: Seq<HostAnswer>,
)
    requires
        world.vars.scopes.len() > 0,
    ensures
        kept(
            world.vars,
            assignment_done(world, left, operator, right, budget, oracle).0.vars,
            assignment_done(world, left, operator, right, budget, oracle).1 is Ok,
        ),
    decreases budget, 0nat,
{
    lemma_undisturbed_by_nothing(world.vars);
    if budget > 0 && operator == "="@ {
        let rest = (budget - 1) as nat;
        lemma_assignment_place_keeps(world, left, rest, oracle);
        let (w1, place) = assignment_place(world, left, rest, oracle);
        if let Ok((found, index)) = place {
            if !found {
                lemma_insertion_done_keeps(w1, left, right, rest, oracle);
                lemma_kept_in_turn(
                    world.vars,
                    w1.vars,
                    insertion_done(w1, left, right, rest, oracle).0.vars,
                    insertion_done(w1, left, right, rest, oracle).1 is Ok,
                );
            } else if w1.vars.heap.contains_key(index) && !w1.vars.heap[index].constant {
                lemma_value_keeps(w1, right, rest, oracle);
                let (w2, r) = value_of(w1, right, rest, oracle);
                lemma_kept_in_turn(world.vars, w1.vars, w2.vars, r is Ok);
                if let Ok(value) = r {
                    lemma_writing_keeps(w2.vars, index, value);
                    lemma_kept_in_turn(
                        world.vars,
                        w2.vars,
                        written(w2.vars, index, value).0,
                        true,
                    );
                }
            }
        }
    }
}

/// A statement disturbs nothing, and when it runs to its end or ends with a
/// signal there are as many scopes as there were.
pub proof fn lemma_outcome_keeps(world: World, node: NodeView, budget: nat, oracle: Seq<HostAnswer>)
    requires
        world.vars.scopes.len() > 0,
    ensures
        kept_outer(
            world.vars,
            outcome_of(world, node, budget, oracle).0.vars,
            outcome_of(world, node, budget, oracle).1 is Ok,
        ),
    decreases budget, 0nat,
{
    lemma_undisturbed_by_nothing(world.vars);
    if budget > 0 {
        let rest = (budget - 1) as nat;
        match node {
            NodeView::Block(statements) => {
                lemma_block_keeps(world, statements, rest, oracle);
            },
            NodeView::Declaration { constant, left, operator, right } => {
                lemma_declaration_done_keeps(world, constant, *left, *right, rest, oracle);
            },
            NodeView::Assignment { left, operator, right } => {
                lemma_assignment_done_keeps(world, *left, operator, *right, rest, oracle);
            },
            NodeView::Call { callee, args } => {
                lemma_call_keeps(world, *callee, args, rest, oracle);
            },
            NodeView::FunctionDefinition { name, params, statements } => {
                lemma_declaration_keeps(
                    world.vars,
                    name,
                    ValueView::Function { params, statements },
                    false,
                );
            },
            NodeView::If { check, body, otherwise } => {
                lemma_if_keeps(world, *check, *body, otherwise, rest, oracle);
            },
            NodeView::Return(value) => {
                lemma_value_keeps(world, *value, rest, oracle);
            },
            NodeView::While { check, body } => {
                lemma_while_keeps(world, *check, *body, rest, oracle);
            },
            _ => {},
        }
    }
}

/// A variable of the caller is still there after a call: the name stands
/// for the slot that it stood for, and the slot is on the heap.
pub proof fn lemma_call_restores_outer_binding(
    world: World,
    callee: NodeView,
    args: Seq<NodeView>,
    name: Seq<char>,
    budget: nat,
    oracle: Seq<HostAnswer>,
)
    requires
        world.vars.scopes.len() > 0,
        call_value(world, callee, args, budget, oracle).1 is Ok,
        resolve_name(world.vars.scopes, name) matches Ok(index)
            && world.vars.heap.contains_key(index),
    ensures
        ({
            let after = call_value(world, callee, args, budget, oracle).0;
            let index = resolve_name(world.vars.scopes, name)->Ok_0;
            &&& after.vars.scopes == world.vars.scopes
            &&& resolve_name(after.vars.scopes, name) == Ok::<
                usize,
                RuntimeError,
            >(index)
            &&& after.vars.heap.contains_key(index)
        }),
{
    lemma_call_keeps(world, callee, args, budget, oracle);
    let index = resolve_name(world.vars.scopes, name)->Ok_0;
    lemma_resolved_is_root(world.vars.scopes, name);
    reveal(undisturbed);
}

/// An assignment to a name whose slot is not marked constant succeeds when
/// its right side has a value, and afterwards the name has that value.
pub proof fn lemma_assignment_is_read(
    world: World,
    name: Seq<char>,
    right: NodeView,
    budget: nat,
    oracle: Seq<HostAnswer>,
)
    requires
        budget >= 2,
        world.vars.scopes.len() > 0,
        resolve_name(world.vars.scopes, name) matches Ok(index) && world.vars.heap.contains_key(
            index,
        ) && !world.vars.heap[index].constant,
        value_of(world, right, (budget - 1) as nat, oracle).1 is Ok,
    ensures
        ({
            let value = value_of(world, right, (budget - 1) as nat, oracle).1->Ok_0;
            let (after, done) = assignment_done(
                world,
                NodeView::Identifier(name),
                "="@,
                right,
                budget,
                oracle,
            );
            &&& done is Ok
            &&& after.vars.scopes == world.vars.scopes
            &&& value_of(after, NodeView::Identifier(name), budget, oracle) == (
                after,
                Ok::<ValueView, RuntimeError>(value),
            )
        }),
{
    lemma_value_keeps(world, right, (budget - 1) as nat, oracle);
    lemma_resolved_is_root(world.vars.scopes, name);
    reveal(undisturbed);
}

/// An assignment to a property that an object does not have yet adds the
/// property: afterwards the object has one more pair, whose key slot holds
/// the key and whose value slot holds the value. This is stated of a right
/// side whose evaluation changes nothing.
pub proof fn lemma_insertion_creates_key(
    world: World,
    object: Seq<char>,
    key: Seq<char>,
    right: NodeView,
    budget: nat,
    oracle: Seq<HostAnswer>,
)
    requires
        budget >= 6,
        world.vars.next + 2 <= usize::MAX,
        resolve_name(world.vars.scopes, object) matches Ok(index) && world.vars.heap.contains_key(
            index,
        ) && (world.vars.heap[index].value matches ValueView::Object { keys, values }
            && object_lookup(world.vars.heap, keys, values, ValueView::Text(key), 0) == Ok::<
            (bool, usize),
            RuntimeError,
        >((false, 0usize))),
        value_of(world, right, (budget - 4) as nat, oracle).0 == world,
        value_of(world, right, (budget - 4) as nat, oracle).1 is Ok,
    ensures
        ({
            let index = resolve_name(world.vars.scopes, object)->Ok_0;
            let value = value_of(world, right, (budget - 4) as nat, oracle).1->Ok_0;
            assignment_done(
                world,
                NodeView::PropertyAccess {
                    object: Box::new(NodeView::Identifier(object)),
                    property: Box::new(NodeView::Text(key)),
                },
                "="@,
                right,
                budget,
                oracle,
            ) == (
                World {
                    vars: with_inserted(world.vars, ValueView::Text(key), value, index),
                    ..world
                },
                Ok::<(), RuntimeError>(()),
            )
        }),
{
    reveal_with_fuel(value_of, 2);
    reveal_with_fuel(assignment_place, 2);
}

/// Whether every slot is one that a scope names or a member of a composite
/// value that a scope names.
pub open spec fn all_reachable(vars: VariablesView) -> bool {
    forall|i: usize| vars.heap.contains_key(i) ==> reachable(vars.scopes, vars.heap).contains(i)
}

/// After the collector has run, nothing is on the heap that the scopes do
/// not reach.
pub proof fn lemma_collected_is_reachable(vars: VariablesView)
    ensures
        all_reachable(collected(vars)),
{
    assert forall|i: usize| collected(vars).heap.contains_key(i) implies reachable(
        collected(vars).scopes,
        collected(vars).heap,
    ).contains(i) by {
        lemma_swept_is_reachable(vars.scopes, vars.heap, i);
    }
}

proof fn lemma_statements_leave_reachable(
    world: World,
    statements: Seq<NodeView>,
    from: nat,
    budget: nat,
    oracle: Seq<HostAnswer>,
)
    requires
        statements_outcome(world, statements, from, budget, oracle).1 is Ok,
    ensures
        all_reachable(statements_outcome(world, statements, from, budget, oracle).0.vars),
    decreases statements.len() - from,
{
    if from >= statements.len() {
        lemma_collected_is_reachable(popped(world.vars));
    } else {
        let (w1, r) = outcome_of(world, statements[from as int], budget, oracle);
        if let Ok((signal, value)) = r {
            if signal != BreakType::Normal {
                lemma_collected_is_reachable(popped(w1.vars));
            } else {
                lemma_statements_leave_reachable(w1, statements, from + 1, budget, oracle);
            }
        }
    }
}

/// When a block has run to its end or ended with a signal, its scope is
/// closed and the collector has run: the scope stack is as it was, and
/// what the block alone named is gone from the heap.
pub proof fn lemma_block_releases_its_scope(
    world: World,
    statements: Seq<NodeView>,
    budget: nat,
    oracle: Seq<HostAnswer>,
)
    requires
        world.vars.scopes.len() > 0,
        block_outcome(world, statements, budget, oracle).1 is Ok,
    ensures
        block_outcome(world, statements, budget, oracle).0.vars.scopes == world.vars.scopes,
        all_reachable(block_outcome(world, statements, budget, oracle).0.vars),
{
    lemma_block_keeps(world, statements, budget, oracle);
    lemma_statements_leave_reachable(
        World { vars: pushed(world.vars), ..world },
        statements,
        0,
        (budget - 1) as nat,
        oracle,
    );
}

/// When a call of a function of the language has returned, the scope of
/// its arguments is closed and the collector has run: the scope stack is
/// as it was, and the parameters and what the body alone named are gone
/// from the heap.
pub proof fn lemma_call_releases_its_scope(
    world: World,
    args: Seq<NodeView>,
    params: Seq<Seq<char>>,
    statements: Seq<NodeView>,
    budget: nat,
    oracle: Seq<HostAnswer>,
)
    requires
        world.vars.scopes.len() > 0,
        function_call_value(world, args, params, statements, budget, oracle).1 is Ok,
    ensures
        function_call_value(world, args, params, statements, budget, oracle).0.vars.scopes
            == world.vars.scopes,
        all_reachable(function_call_value(world, args, params, statements, budget, oracle).0.vars),
        undisturbed(
            world.vars,
            function_call_value(world, args, params, statements, budget, oracle).0.vars,
        ),
{
    lemma_function_call_keeps(world, args, params, statements, budget, oracle);
    let rest = (budget - 1) as nat;
    let w0 = World { vars: pushed(world.vars), ..world };
    let (w1, bound) = arguments_bound(w0, args, params, 0, rest, oracle);
    let (w2, r) = block_outcome(w1, statements, rest, oracle);
    lemma_collected_is_reachable(popped(w2.vars));
}

/// The index that a name resolves to is one that a scope names.
pub proof fn lemma_resolved_is_root(scopes: Seq<Map<Seq<char>, usize>>, name: Seq<char>)
    requires
        resolve_name(scopes, name) is Ok,
    ensures
        is_root(scopes, resolve_name(scopes, name)->Ok_0),
    decreases scopes.len(),
{
    if scopes.len() > 0 {
        if scopes.last().contains_key(name) {
            assert(scopes[scopes.len() - 1].contains_key(name));
        } else {
            lemma_resolved_is_root(scopes.drop_last(), name);
            let index = resolve_name(scopes.drop_last(), name)->Ok_0;
            let (f, n) = choose|f: int, n: Seq<char>|
                0 <= f < scopes.drop_last().len() && (#[trigger] scopes.drop_last()[f].contains_key(
                    n,
                )) && scopes.drop_last()[f][n] == index;
            assert(scopes[f].contains_key(n));
        }
    }
}

} // verus!

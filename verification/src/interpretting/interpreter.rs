//! The evaluator: a walk over the tree that does what
//! [`crate::interpretting::semantics`] says.

use vstd::prelude::*;
use crate::errors::RuntimeError;
use crate::errors::SyntaxError;
use crate::host::Host;
use crate::host::Console;
use crate::host::HostAnswer;
use crate::parsing::ast_utils::ASTNode;
use crate::parsing::ast_utils::NodeView;
use crate::parsing::ast_utils::node_view;
use crate::parsing::ast_utils::nodes_view;
use crate::parsing::ast_utils::else_view;
use crate::parsing::ast_utils::clone_node;
use crate::parsing::ast_utils::clone_nodes;
use crate::parsing::ast_utils::WhileProperties;
use crate::parsing::ast_utils::FunctionDefinitionProperties;
use crate::parsing::ast_utils::IfProperties;
use crate::parsing::ast_utils::ObjectLiteralProperties;
use crate::parsing::ast_utils::BinaryProperties;
use crate::parsing::ast_utils::DeclarationProperties;
use crate::parsing::ast_utils::CallProperties;
use crate::parsing::ast_utils::AccessProperties;
use crate::interpretting::interpreter_utils::BreakType;
use crate::interpretting::interpreter_utils::KaffeeValue;
use crate::interpretting::interpreter_utils::ValueView;
use crate::interpretting::interpreter_utils::FunctionDefinition;
use crate::interpretting::interpreter_utils::NativeMapping;
use crate::interpretting::interpreter_utils::ObjectValue;
use crate::interpretting::interpreter_utils::value_result;
use crate::interpretting::interpreter_utils::signal_result;
use crate::interpretting::interpreter_utils::values_view;
use crate::interpretting::variables::Variables;
use crate::interpretting::variables::VariablesView;
use crate::interpretting::variables::declared;
use crate::interpretting::variables::resolve_name;
use crate::interpretting::variables::pushed;
use crate::interpretting::garbage_collector;
use crate::interpretting::invariants::all_reachable;
use crate::interpretting::invariants::undisturbed;
use crate::interpretting::invariants::lemma_block_keeps;
use crate::interpretting::invariants::lemma_block_releases_its_scope;
use crate::interpretting::invariants::lemma_call_releases_its_scope;
use crate::interpretting::variables;
use crate::parsing::parser;
use crate::parsing::parser::DEPTH_LIMIT;
use crate::parsing::grammar::source_parsed;
use crate::interpretting::semantics::World;
use crate::interpretting::semantics::collected;
use crate::interpretting::semantics::value_of;
use crate::interpretting::semantics::binary_value;
use crate::interpretting::semantics::array_literal_value;
use crate::interpretting::semantics::slots_of;
use crate::interpretting::semantics::key_slots_of;
use crate::interpretting::semantics::object_literal_value;
use crate::interpretting::semantics::property_place;
use crate::interpretting::semantics::property_value;
use crate::interpretting::semantics::assignment_place;
use crate::interpretting::semantics::values_of;
use crate::interpretting::semantics::call_value;
use crate::interpretting::semantics::arguments_bound;
use crate::interpretting::semantics::function_call_value;
use crate::interpretting::semantics::block_outcome;
use crate::interpretting::semantics::statements_outcome;
use crate::interpretting::semantics::condition_of;
use crate::interpretting::semantics::if_outcome;
use crate::interpretting::semantics::while_outcome;
use crate::interpretting::semantics::declaration_done;
use crate::interpretting::semantics::insertion_done;
use crate::interpretting::semantics::pair_inserted;
use crate::interpretting::semantics::pair_placed;
use crate::interpretting::semantics::assignment_done;
use crate::interpretting::semantics::outcome_of;
use crate::interpretting::semantics::std_lib_loaded;
use crate::interpretting::semantics::program_run;
use crate::interpretting::semantics::run_outcome;
use crate::std_lib::functions::get_std_lib_mappings;
use crate::std_lib::functions::call_native;
use crate::std_lib::functions::std_lib_mappings;
use crate::std_lib::operators::operator_handler;
use crate::text::texts;
use crate::text::clone_texts;
use crate::text::spells;

verus! {

/// A program and the state it runs on.
pub struct Interpreter {
    pub ast: Vec<ASTNode>,
    pub vars: Variables,
}

/// The world that an evaluation starts from or ends in.
pub open spec fn world_of<H: Host>(vars: Variables, console: Console<H>) -> World {
    World { vars: vars@, console: console@ }
}

/// What the evaluation of an expression leaves of the scope stack: it
/// closes no scope that it found open, and when it succeeds the stack is as
/// it was.
pub open spec fn scopes_kept(before: VariablesView, after: VariablesView, ok: bool) -> bool {
    &&& after.scopes.len() >= before.scopes.len()
    &&& ok ==> after.scopes == before.scopes
}

/// What the evaluation of a statement leaves of the scope stack: it closes
/// no scope that it found open, and when it succeeds only the innermost
/// scope can have changed.
pub open spec fn outer_scopes_kept(before: VariablesView, after: VariablesView, ok: bool) -> bool {
    &&& after.scopes.len() >= before.scopes.len()
    &&& ok ==> after.scopes.len() == before.scopes.len() && after.scopes.drop_last()
        == before.scopes.drop_last()
}

/// The function that a definition defines, as a value.
pub fn ast_func_to_value(fd: &FunctionDefinitionProperties) -> (r: KaffeeValue)
    ensures
        r@ == (ValueView::Function { params: texts(fd.args), statements: nodes_view(fd.body) }),
{
    KaffeeValue::Function(
        FunctionDefinition { args: clone_texts(&fd.args), body: clone_nodes(&fd.body) },
    )
}

/// A declaration changes no scope but the innermost, and opens or closes
/// none.
pub proof fn lemma_declared_keeps_outer(
    before: VariablesView,
    name: Seq<char>,
    value: ValueView,
    constant: bool,
)
    requires
        before.scopes.len() > 0,
    ensures
        declared(before, name, value, constant).0.scopes.len() == before.scopes.len(),
        declared(before, name, value, constant).0.scopes.drop_last() == before.scopes.drop_last(),
{
    let after = declared(before, name, value, constant).0;
    assert(after.scopes.drop_last() =~= before.scopes.drop_last());
}

/// Whether the value is an object.
fn is_object(value: &KaffeeValue) -> (r: bool)
    ensures
        r == (value@ is Object),
{
    match value {
        KaffeeValue::Object(_) => true,
        _ => false,
    }
}

impl Interpreter {
    /// The invariant of the state, and a scope to declare in.
    pub open spec fn ready(&self) -> bool {
        self.vars.wf() && self.vars@.scopes.len() > 0
    }

    /// Runs the collector on the heap.
    pub fn gc_collect(&mut self)
        requires
            old(self).vars.wf(),
        ensures
            final(self).vars.wf(),
            final(self).ast == old(self).ast,
            final(self).vars@ == collected(old(self).vars@),
    {
        garbage_collector::gc_collect(&mut self.vars.alloced, &self.vars.scopestack);
    }

    /// Closes the innermost scope and runs the collector.
    fn close_scope(&mut self)
        requires
            old(self).vars.wf(),
        ensures
            final(self).vars.wf(),
            final(self).ast == old(self).ast,
            final(self).vars@ == collected(crate::interpretting::variables::popped(old(self).vars@)),
    {
        self.vars.pop_scope();
        self.gc_collect();
    }

    /// The value of an expression.
    pub fn resolve_node<H: Host>(&mut self, node: &ASTNode, console: &mut Console<H>, budget: u64) -> (r:
        Result<KaffeeValue, RuntimeError>)
        requires
            old(self).ready(),
        ensures
            final(self).vars.wf(),
            final(self).ast == old(self).ast,
            scopes_kept(old(self).vars@, final(self).vars@, r is Ok),
            old(console).recorded() ==> final(console).recorded(),
            old(console).recorded() ==> value_of(
                world_of(old(self).vars, *old(console)),
                node@,
                budget as nat,
                final(console).answers@,
            ) == (world_of(final(self).vars, *final(console)), value_result(r)),
            forall|oracle: Seq<HostAnswer>| #[trigger]
                final(console).heard(oracle) ==> old(console).heard(oracle) && value_of(
                    world_of(old(self).vars, *old(console)),
                    node@,
                    budget as nat,
                    oracle,
                ) == (world_of(final(self).vars, *final(console)), value_result(r)),
        decreases budget, 0nat,
    {
        if budget == 0 {
            return Err(RuntimeError::BudgetExhausted);
        }
        match node {
            ASTNode::String(st) => Ok(KaffeeValue::String(st.clone())),
            ASTNode::Number(text) => match console.parse_number(text) {
                Some(n) => Ok(KaffeeValue::Number(n)),
                None => Err(RuntimeError::InvalidNumber),
            },
            ASTNode::Boolean(bl) => Ok(KaffeeValue::Boolean(*bl)),
            ASTNode::Null => Ok(KaffeeValue::Null),
            ASTNode::Identifier(id) => match self.vars.resolve_identifier(id) {
                Ok(value) => Ok(value.duplicate()),
                Err(e) => Err(e),
            },
            ASTNode::BinaryNode(bn) => self.resolve_binary(bn, console, budget - 1),
            ASTNode::ObjectLiteral(ov) => self.resolve_object_literal(ov, console, budget - 1),
            ASTNode::PropertyAccess(pa) => self.resolve_property_access(pa, console, budget - 1),
            ASTNode::FunctionDefinition(fd) => Ok(ast_func_to_value(fd)),
            ASTNode::FunctionCall(cp) => self.eval_call(cp, console, budget - 1),
            ASTNode::ArrayLiteral(items) => self.resolve_array_literal(items, console, budget - 1),
            _ => Err(RuntimeError::UnsupportedExpression),
        }
    }

    /// The value of a binary operation.
    pub fn resolve_binary<H: Host>(
        &mut self,
        bn: &BinaryProperties,
        console: &mut Console<H>,
        budget: u64,
    ) -> (r: Result<KaffeeValue, RuntimeError>)
        requires
            old(self).ready(),
        ensures
            final(self).vars.wf(),
            final(self).ast == old(self).ast,
            scopes_kept(old(self).vars@, final(self).vars@, r is Ok),
            old(console).recorded() ==> final(console).recorded(),
            old(console).recorded() ==> binary_value(
                world_of(old(self).vars, *old(console)),
                node_view(*bn.left),
                bn.operator@,
                node_view(*bn.right),
                budget as nat,
                final(console).answers@,
            ) == (world_of(final(self).vars, *final(console)), value_result(r)),
            forall|oracle: Seq<HostAnswer>| #[trigger]
                final(console).heard(oracle) ==> old(console).heard(oracle) && binary_value(
                    world_of(old(self).vars, *old(console)),
                    node_view(*bn.left),
                    bn.operator@,
                    node_view(*bn.right),
                    budget as nat,
                    oracle,
                ) == (world_of(final(self).vars, *final(console)), value_result(r)),
        decreases budget, 0nat,
    {
        if budget == 0 {
            return Err(RuntimeError::BudgetExhausted);
        }
        let lft = match self.resolve_node(&bn.left, console, budget - 1) {
            Ok(v) => v,
            Err(e) => {
                return Err(e);
            },
        };
        let rgt = match self.resolve_node(&bn.right, console, budget - 1) {
            Ok(v) => v,
            Err(e) => {
                return Err(e);
            },
        };
        operator_handler(lft, &bn.operator, rgt, console)
    }

    /// Evaluates each expression and puts its value into a slot of its
    /// own.
    fn resolve_slots<H: Host>(&mut self, items: &Vec<ASTNode>, console: &mut Console<H>, budget: u64) -> (r:
        Result<Vec<usize>, RuntimeError>)
        requires
            old(self).ready(),
        ensures
            final(self).vars.wf(),
            final(self).ast == old(self).ast,
            scopes_kept(old(self).vars@, final(self).vars@, r is Ok),
            old(console).recorded() ==> final(console).recorded(),
            old(console).recorded() ==> slots_of(
                world_of(old(self).vars, *old(console)),
                nodes_view(*items),
                0,
                Seq::empty(),
                budget as nat,
                final(console).answers@,
            ) == (
                world_of(final(self).vars, *final(console)),
                match r {
                    Ok(v) => Ok::<Seq<usize>, RuntimeError>(v@),
                    Err(e) => Err(e),
                },
            ),
            forall|oracle: Seq<HostAnswer>| #[trigger]
                final(console).heard(oracle) ==> old(console).heard(oracle) && slots_of(
                    world_of(old(self).vars, *old(console)),
                    nodes_view(*items),
                    0,
                    Seq::empty(),
                    budget as nat,
                    oracle,
                ) == (
                    world_of(final(self).vars, *final(console)),
                    match r {
                        Ok(v) => Ok::<Seq<usize>, RuntimeError>(v@),
                        Err(e) => Err(e),
                    },
                ),
        decreases budget, 1nat,
    {
        let ghost views = nodes_view(*items);
        let mut idxs: Vec<usize> = Vec::new();
        let mut i: usize = 0;
        while i < items.len()
            invariant
                i <= items.len(),
                views == nodes_view(*items),
                self.ready(),
                self.ast == old(self).ast,
                self.vars@.scopes == old(self).vars@.scopes,
                old(console).recorded() ==> console.recorded(),
                forall|oracle: Seq<HostAnswer>| #[trigger]
                    console.heard(oracle) ==> old(console).heard(oracle) && slots_of(
                        world_of(old(self).vars, *old(console)),
                        views,
                        0,
                        Seq::empty(),
                        budget as nat,
                        oracle,
                    ) == slots_of(
                        world_of(self.vars, *console),
                        views,
                        i as nat,
                        idxs@,
                        budget as nat,
                        oracle,
                    ),
            decreases items.len() - i,
        {
            let val = match self.resolve_node(&items[i], console, budget) {
                Ok(v) => v,
                Err(e) => {
                    return Err(e);
                },
            };
            if !self.vars.has_room() {
                return Err(RuntimeError::HeapExhausted);
            }
            let idx: usize = self.vars.alloc_value(val, false);
            idxs.push(idx);
            i += 1;
        }
        Ok(idxs)
    }

    /// The value of an array literal.
    pub fn resolve_array_literal<H: Host>(
        &mut self,
        items: &Vec<ASTNode>,
        console: &mut Console<H>,
        budget: u64,
    ) -> (r: Result<KaffeeValue, RuntimeError>)
        requires
            old(self).ready(),
        ensures
            final(self).vars.wf(),
            final(self).ast == old(self).ast,
            scopes_kept(old(self).vars@, final(self).vars@, r is Ok),
            old(console).recorded() ==> final(console).recorded(),
            old(console).recorded() ==> array_literal_value(
                world_of(old(self).vars, *old(console)),
                nodes_view(*items),
                budget as nat,
                final(console).answers@,
            ) == (world_of(final(self).vars, *final(console)), value_result(r)),
            forall|oracle: Seq<HostAnswer>| #[trigger]
                final(console).heard(oracle) ==> old(console).heard(oracle) && array_literal_value(
                    world_of(old(self).vars, *old(console)),
                    nodes_view(*items),
                    budget as nat,
                    oracle,
                ) == (world_of(final(self).vars, *final(console)), value_result(r)),
        decreases budget, 0nat,
    {
        if budget == 0 {
            return Err(RuntimeError::BudgetExhausted);
        }
        match self.resolve_slots(items, console, budget - 1) {
            Ok(idxs) => Ok(KaffeeValue::Array(idxs)),
            Err(e) => Err(e),
        }
    }

    /// Puts each key into a constant slot of its own.
    fn alloc_keys(&mut self, keys: &Vec<String>) -> (r: Result<Vec<usize>, RuntimeError>)
        requires
            old(self).ready(),
        ensures
            final(self).vars.wf(),
            final(self).ast == old(self).ast,
            final(self).vars@.scopes == old(self).vars@.scopes,
            key_slots_of(old(self).vars@, texts(*keys), 0, Seq::empty()) == (
                final(self).vars@,
                match r {
                    Ok(v) => Ok::<Seq<usize>, RuntimeError>(v@),
                    Err(e) => Err(e),
                },
            ),
    {
        let ghost names = texts(*keys);
        let mut idxs: Vec<usize> = Vec::new();
        let mut i: usize = 0;
        while i < keys.len()
            invariant
                i <= keys.len(),
                names == texts(*keys),
                self.ready(),
                self.ast == old(self).ast,
                self.vars@.scopes == old(self).vars@.scopes,
                key_slots_of(old(self).vars@, names, 0, Seq::empty()) == key_slots_of(
                    self.vars@,
                    names,
                    i as nat,
                    idxs@,
                ),
            decreases keys.len() - i,
        {
            if !self.vars.has_room() {
                return Err(RuntimeError::HeapExhausted);
            }
            let idx: usize = self.vars.alloc_value(KaffeeValue::String(keys[i].clone()), true);
            idxs.push(idx);
            i += 1;
        }
        Ok(idxs)
    }

    /// The value of an object literal.
    pub fn resolve_object_literal<H: Host>(
        &mut self,
        ov: &ObjectLiteralProperties,
        console: &mut Console<H>,
        budget: u64,
    ) -> (r: Result<KaffeeValue, RuntimeError>)
        requires
            old(self).ready(),
        ensures
            final(self).vars.wf(),
            final(self).ast == old(self).ast,
            scopes_kept(old(self).vars@, final(self).vars@, r is Ok),
            old(console).recorded() ==> final(console).recorded(),
            old(console).recorded() ==> object_literal_value(
                world_of(old(self).vars, *old(console)),
                texts(ov.keys),
                nodes_view(ov.values),
                budget as nat,
                final(console).answers@,
            ) == (world_of(final(self).vars, *final(console)), value_result(r)),
            forall|oracle: Seq<HostAnswer>| #[trigger]
                final(console).heard(oracle) ==> old(console).heard(oracle) && object_literal_value(
                    world_of(old(self).vars, *old(console)),
                    texts(ov.keys),
                    nodes_view(ov.values),
                    budget as nat,
                    oracle,
                ) == (world_of(final(self).vars, *final(console)), value_result(r)),
        decreases budget, 0nat,
    {
        if budget == 0 {
            return Err(RuntimeError::BudgetExhausted);
        }
        let keys = match self.alloc_keys(&ov.keys) {
            Ok(v) => v,
            Err(e) => {
                return Err(e);
            },
        };
        let values = match self.resolve_slots(&ov.values, console, budget - 1) {
            Ok(v) => v,
            Err(e) => {
                return Err(e);
            },
        };
        Ok(KaffeeValue::Object(ObjectValue { keys, values }))
    }

    /// Where the value of a property access is kept.
    pub fn lookup_property_access<H: Host>(
        &mut self,
        pa: &AccessProperties,
        console: &mut Console<H>,
        budget: u64,
    ) -> (r: Result<(bool, usize), RuntimeError>)
        requires
            old(self).ready(),
        ensures
            final(self).vars.wf(),
            final(self).ast == old(self).ast,
            scopes_kept(old(self).vars@, final(self).vars@, r is Ok),
            old(console).recorded() ==> final(console).recorded(),
            old(console).recorded() ==> property_place(
                world_of(old(self).vars, *old(console)),
                node_view(*pa.object),
                node_view(*pa.property),
                budget as nat,
                final(console).answers@,
            ) == (world_of(final(self).vars, *final(console)), r),
            forall|oracle: Seq<HostAnswer>| #[trigger]
                final(console).heard(oracle) ==> old(console).heard(oracle) && property_place(
                    world_of(old(self).vars, *old(console)),
                    node_view(*pa.object),
                    node_view(*pa.property),
                    budget as nat,
                    oracle,
                ) == (world_of(final(self).vars, *final(console)), r),
        decreases budget, 0nat,
    {
        if budget == 0 {
            return Err(RuntimeError::BudgetExhausted);
        }
        let lft = match self.resolve_node(&pa.object, console, budget - 1) {
            Ok(v) => v,
            Err(e) => {
                return Err(e);
            },
        };
        let key = match self.resolve_node(&pa.property, console, budget - 1) {
            Ok(v) => v,
            Err(e) => {
                return Err(e);
            },
        };
        match lft {
            KaffeeValue::Object(obj) => self.vars.lookup_object_value_index(&obj, &key),
            KaffeeValue::Array(items) => self.vars.lookup_array_value_index(&items, &key),
            _ => Err(RuntimeError::InvalidPropertyAccess),
        }
    }

    /// The value of a property access.
    pub fn resolve_property_access<H: Host>(
        &mut self,
        pa: &AccessProperties,
        console: &mut Console<H>,
        budget: u64,
    ) -> (r: Result<KaffeeValue, RuntimeError>)
        requires
            old(self).ready(),
        ensures
            final(self).vars.wf(),
            final(self).ast == old(self).ast,
            scopes_kept(old(self).vars@, final(self).vars@, r is Ok),
            old(console).recorded() ==> final(console).recorded(),
            old(console).recorded() ==> property_value(
                world_of(old(self).vars, *old(console)),
                node_view(*pa.object),
                node_view(*pa.property),
                budget as nat,
                final(console).answers@,
            ) == (world_of(final(self).vars, *final(console)), value_result(r)),
            forall|oracle: Seq<HostAnswer>| #[trigger]
                final(console).heard(oracle) ==> old(console).heard(oracle) && property_value(
                    world_of(old(self).vars, *old(console)),
                    node_view(*pa.object),
                    node_view(*pa.property),
                    budget as nat,
                    oracle,
                ) == (world_of(final(self).vars, *final(console)), value_result(r)),
        decreases budget, 0nat,
    {
        if budget == 0 {
            return Err(RuntimeError::BudgetExhausted);
        }
        let (exists, idx) = match self.lookup_property_access(pa, console, budget - 1) {
            Ok(place) => place,
            Err(e) => {
                return Err(e);
            },
        };
        if !exists {
            return Err(RuntimeError::UnknownProperty);
        }
        match self.vars.read(idx) {
            Ok(value) => Ok(value.duplicate()),
            Err(e) => Err(e),
        }
    }

    /// The place that an assignment to `node` writes to.
    pub fn resolve_assignment_target<H: Host>(
        &mut self,
        node: &ASTNode,
        console: &mut Console<H>,
        budget: u64,
    ) -> (r: Result<(bool, usize), RuntimeError>)
        requires
            old(self).ready(),
        ensures
            final(self).vars.wf(),
            final(self).ast == old(self).ast,
            scopes_kept(old(self).vars@, final(self).vars@, r is Ok),
            old(console).recorded() ==> final(console).recorded(),
            old(console).recorded() ==> assignment_place(
                world_of(old(self).vars, *old(console)),
                node@,
                budget as nat,
                final(console).answers@,
            ) == (world_of(final(self).vars, *final(console)), r),
            forall|oracle: Seq<HostAnswer>| #[trigger]
                final(console).heard(oracle) ==> old(console).heard(oracle) && assignment_place(
                    world_of(old(self).vars, *old(console)),
                    node@,
                    budget as nat,
                    oracle,
                ) == (world_of(final(self).vars, *final(console)), r),
        decreases budget, 0nat,
    {
        if budget == 0 {
            return Err(RuntimeError::BudgetExhausted);
        }
        match node {
            ASTNode::Identifier(id) => match self.vars.find_variable_index(id) {
                Ok(index) => Ok((true, index)),
                Err(e) => Err(e),
            },
            ASTNode::PropertyAccess(pa) => self.lookup_property_access(pa, console, budget - 1),
            _ => {
                assert(!(node@ is Identifier) && !(node@ is PropertyAccess));
                Err(RuntimeError::InvalidAssignmentTarget)
            },
        }
    }

    /// Evaluates each expression.
    fn resolve_all<H: Host>(&mut self, items: &Vec<ASTNode>, console: &mut Console<H>, budget: u64) -> (r:
        Result<Vec<KaffeeValue>, RuntimeError>)
        requires
            old(self).ready(),
        ensures
            final(self).vars.wf(),
            final(self).ast == old(self).ast,
            scopes_kept(old(self).vars@, final(self).vars@, r is Ok),
            old(console).recorded() ==> final(console).recorded(),
            old(console).recorded() ==> values_of(
                world_of(old(self).vars, *old(console)),
                nodes_view(*items),
                0,
                Seq::empty(),
                budget as nat,
                final(console).answers@,
            ) == (
                world_of(final(self).vars, *final(console)),
                match r {
                    Ok(v) => Ok::<Seq<ValueView>, RuntimeError>(values_view(v)),
                    Err(e) => Err(e),
                },
            ),
            forall|oracle: Seq<HostAnswer>| #[trigger]
                final(console).heard(oracle) ==> old(console).heard(oracle) && values_of(
                    world_of(old(self).vars, *old(console)),
                    nodes_view(*items),
                    0,
                    Seq::empty(),
                    budget as nat,
                    oracle,
                ) == (
                    world_of(final(self).vars, *final(console)),
                    match r {
                        Ok(v) => Ok::<Seq<ValueView>, RuntimeError>(values_view(v)),
                        Err(e) => Err(e),
                    },
                ),
        decreases budget, 1nat,
    {
        let ghost views = nodes_view(*items);
        let mut values: Vec<KaffeeValue> = Vec::new();
        let mut i: usize = 0;
        assert(values_view(values) =~= Seq::<ValueView>::empty());
        while i < items.len()
            invariant
                i <= items.len(),
                views == nodes_view(*items),
                self.ready(),
                self.ast == old(self).ast,
                self.vars@.scopes == old(self).vars@.scopes,
                old(console).recorded() ==> console.recorded(),
                forall|oracle: Seq<HostAnswer>| #[trigger]
                    console.heard(oracle) ==> old(console).heard(oracle) && values_of(
                        world_of(old(self).vars, *old(console)),
                        views,
                        0,
                        Seq::empty(),
                        budget as nat,
                        oracle,
                    ) == values_of(
                        world_of(self.vars, *console),
                        views,
                        i as nat,
                        values_view(values),
                        budget as nat,
                        oracle,
                    ),
            decreases items.len() - i,
        {
            let ghost done = values_view(values);
            let val = match self.resolve_node(&items[i], console, budget) {
                Ok(v) => v,
                Err(e) => {
                    return Err(e);
                },
            };
            let ghost view = val@;
            values.push(val);
            assert(values_view(values) =~= done.push(view));
            i += 1;
        }
        Ok(values)
    }

    /// The value of a call.
    pub fn eval_call<H: Host>(&mut self, cp: &CallProperties, console: &mut Console<H>, budget: u64) -> (r:
        Result<KaffeeValue, RuntimeError>)
        requires
            old(self).ready(),
        ensures
            final(self).vars.wf(),
            final(self).ast == old(self).ast,
            scopes_kept(old(self).vars@, final(self).vars@, r is Ok),
            old(console).recorded() ==> final(console).recorded(),
            old(console).recorded() ==> call_value(
                world_of(old(self).vars, *old(console)),
                node_view(*cp.callee),
                nodes_view(cp.args),
                budget as nat,
                final(console).answers@,
            ) == (world_of(final(self).vars, *final(console)), value_result(r)),
            forall|oracle: Seq<HostAnswer>| #[trigger]
                final(console).heard(oracle) ==> old(console).heard(oracle) && call_value(
                    world_of(old(self).vars, *old(console)),
                    node_view(*cp.callee),
                    nodes_view(cp.args),
                    budget as nat,
                    oracle,
                ) == (world_of(final(self).vars, *final(console)), value_result(r)),
        decreases budget, 0nat,
    {
        if budget == 0 {
            return Err(RuntimeError::BudgetExhausted);
        }
        let callee = match self.resolve_node(&cp.callee, console, budget - 1) {
            Ok(v) => v,
            Err(e) => {
                return Err(e);
            },
        };
        match callee {
            KaffeeValue::NativeFunction(nf) => {
                let rargs = match self.resolve_all(&cp.args, console, budget - 1) {
                    Ok(v) => v,
                    Err(e) => {
                        return Err(e);
                    },
                };
                if rargs.len() != nf.arg_count {
                    return Err(RuntimeError::ArityMismatch);
                }
                call_native(nf.func, rargs, &mut self.vars, console)
            },
            KaffeeValue::Function(f) => self.eval_userfn_call(cp, &f, console, budget - 1),
            _ => Err(RuntimeError::UncallableValue),
        }
    }

    /// The value of a call of a function of the language.
    pub fn eval_userfn_call<H: Host>(
        &mut self,
        cp: &CallProperties,
        fd: &FunctionDefinition,
        console: &mut Console<H>,
        budget: u64,
    ) -> (r: Result<KaffeeValue, RuntimeError>)
        requires
            old(self).ready(),
        ensures
            final(self).vars.wf(),
            final(self).ast == old(self).ast,
            scopes_kept(old(self).vars@, final(self).vars@, r is Ok),
            budget > 0 && cp.args.len() != fd.args.len() ==> r == Err::<KaffeeValue, RuntimeError>(
                RuntimeError::ArityMismatch,
            ) && final(self).vars@ == old(self).vars@ && final(console)@ == old(console)@,
            old(console).recorded() && r is Ok ==> all_reachable(final(self).vars@) && undisturbed(
                old(self).vars@,
                final(self).vars@,
            ),
            old(console).recorded() ==> final(console).recorded(),
            old(console).recorded() ==> function_call_value(
                world_of(old(self).vars, *old(console)),
                nodes_view(cp.args),
                texts(fd.args),
                nodes_view(fd.body),
                budget as nat,
                final(console).answers@,
            ) == (world_of(final(self).vars, *final(console)), value_result(r)),
            forall|oracle: Seq<HostAnswer>| #[trigger]
                final(console).heard(oracle) ==> old(console).heard(oracle) && function_call_value(
                    world_of(old(self).vars, *old(console)),
                    nodes_view(cp.args),
                    texts(fd.args),
                    nodes_view(fd.body),
                    budget as nat,
                    oracle,
                ) == (world_of(final(self).vars, *final(console)), value_result(r)),
        decreases budget, 0nat,
    {
        if budget == 0 {
            return Err(RuntimeError::BudgetExhausted);
        }
        if cp.args.len() != fd.args.len() {
            return Err(RuntimeError::ArityMismatch);
        }
        self.vars.new_scope();
        let ghost args = nodes_view(cp.args);
        let ghost params = texts(fd.args);
        let ghost opened = world_of(self.vars, *console);
        let mut i: usize = 0;
        while i < fd.args.len()
            invariant
                i <= fd.args.len(),
                cp.args.len() == fd.args.len(),
                budget > 0,
                args == nodes_view(cp.args),
                params == texts(fd.args),
                opened == (World {
                    vars: pushed(old(self).vars@),
                    console: old(console)@,
                }),
                self.ready(),
                self.ast == old(self).ast,
                self.vars@.scopes.len() == old(self).vars@.scopes.len() + 1,
                self.vars@.scopes.drop_last() == old(self).vars@.scopes,
                old(console).recorded() ==> console.recorded(),
                forall|oracle: Seq<HostAnswer>| #[trigger]
                    console.heard(oracle) ==> old(console).heard(oracle) && arguments_bound(
                        opened,
                        args,
                        params,
                        0,
                        (budget - 1) as nat,
                        oracle,
                    ) == arguments_bound(
                        world_of(self.vars, *console),
                        args,
                        params,
                        i as nat,
                        (budget - 1) as nat,
                        oracle,
                    ),
            decreases fd.args.len() - i,
        {
            let val = match self.resolve_node(&cp.args[i], console, budget - 1) {
                Ok(v) => v,
                Err(e) => {
                    return Err(e);
                },
            };
            match self.vars.alloc_in_scope(&fd.args[i], val, false) {
                Ok(_) => {},
                Err(e) => {
                    return Err(e);
                },
            }
            i += 1;
        }
        let ret_val = match self.eval_block(&fd.body, console, budget - 1) {
            Ok((_, v)) => v,
            Err(e) => {
                return Err(e);
            },
        };
        self.close_scope();
        proof {
            if old(console).recorded() {
                let before = world_of(old(self).vars, *old(console));
                assert(function_call_value(
                    before,
                    nodes_view(cp.args),
                    texts(fd.args),
                    nodes_view(fd.body),
                    budget as nat,
                    console.answers@,
                ) == (world_of(self.vars, *console), Ok::<ValueView, RuntimeError>(ret_val@)));
                lemma_call_releases_its_scope(
                    before,
                    nodes_view(cp.args),
                    texts(fd.args),
                    nodes_view(fd.body),
                    budget as nat,
                    console.answers@,
                );
            }
        }
        Ok(ret_val)
    }

    /// How a block ends.
    pub fn eval_block<H: Host>(&mut self, statements: &Vec<ASTNode>, console: &mut Console<H>, budget: u64) -> (r:
        Result<(BreakType, KaffeeValue), RuntimeError>)
        requires
            old(self).ready(),
        ensures
            final(self).vars.wf(),
            final(self).ast == old(self).ast,
            scopes_kept(old(self).vars@, final(self).vars@, r is Ok),
            old(console).recorded() && r is Ok ==> all_reachable(final(self).vars@) && undisturbed(
                old(self).vars@,
                final(self).vars@,
            ),
            old(console).recorded() ==> final(console).recorded(),
            old(console).recorded() ==> block_outcome(
                world_of(old(self).vars, *old(console)),
                nodes_view(*statements),
                budget as nat,
                final(console).answers@,
            ) == (world_of(final(self).vars, *final(console)), signal_result(r)),
            forall|oracle: Seq<HostAnswer>| #[trigger]
                final(console).heard(oracle) ==> old(console).heard(oracle) && block_outcome(
                    world_of(old(self).vars, *old(console)),
                    nodes_view(*statements),
                    budget as nat,
                    oracle,
                ) == (world_of(final(self).vars, *final(console)), signal_result(r)),
        decreases budget, 0nat,
    {
        if budget == 0 {
            return Err(RuntimeError::BudgetExhausted);
        }
        self.vars.new_scope();
        let ghost views = nodes_view(*statements);
        let ghost opened = world_of(self.vars, *console);
        let mut i: usize = 0;
        while i < statements.len()
            invariant
                i <= statements.len(),
                budget > 0,
                views == nodes_view(*statements),
                opened == (World {
                    vars: pushed(old(self).vars@),
                    console: old(console)@,
                }),
                self.ready(),
                old(self).vars@.scopes.len() > 0,
                self.ast == old(self).ast,
                self.vars@.scopes.len() == old(self).vars@.scopes.len() + 1,
                self.vars@.scopes.drop_last() == old(self).vars@.scopes,
                old(console).recorded() ==> console.recorded(),
                forall|oracle: Seq<HostAnswer>| #[trigger]
                    console.heard(oracle) ==> old(console).heard(oracle) && statements_outcome(
                        opened,
                        views,
                        0,
                        (budget - 1) as nat,
                        oracle,
                    ) == statements_outcome(
                        world_of(self.vars, *console),
                        views,
                        i as nat,
                        (budget - 1) as nat,
                        oracle,
                    ),
            decreases statements.len() - i,
        {
            let (bt, kv) = match self.eval_node(&statements[i], console, budget - 1) {
                Ok(outcome) => outcome,
                Err(e) => {
                    return Err(e);
                },
            };
            if bt != BreakType::Normal {
                self.close_scope();
                proof {
                    if old(console).recorded() {
                        let before = world_of(old(self).vars, *old(console));
                        assert(block_outcome(before, views, budget as nat, console.answers@) == (
                            world_of(self.vars, *console),
                            Ok::<(BreakType, ValueView), RuntimeError>((bt, kv@)),
                        ));
                        lemma_block_releases_its_scope(
                            before,
                            views,
                            budget as nat,
                            console.answers@,
                        );
                        lemma_block_keeps(before, views, budget as nat, console.answers@);
                    }
                }
                return Ok((bt, kv));
            }
            i += 1;
        }
        self.close_scope();
        proof {
            if old(console).recorded() {
                let before = world_of(old(self).vars, *old(console));
                assert(block_outcome(before, views, budget as nat, console.answers@) == (
                    world_of(self.vars, *console),
                    Ok::<(BreakType, ValueView), RuntimeError>(
                        (BreakType::Normal, ValueView::Null),
                    ),
                ));
                lemma_block_releases_its_scope(before, views, budget as nat, console.answers@);
                lemma_block_keeps(before, views, budget as nat, console.answers@);
            }
        }
        Ok((BreakType::Normal, KaffeeValue::Null))
    }

    /// The condition of an `if` or a `while`.
    pub fn node_as_bool<H: Host>(&mut self, node: &ASTNode, console: &mut Console<H>, budget: u64) -> (r:
        Result<bool, RuntimeError>)
        requires
            old(self).ready(),
        ensures
            final(self).vars.wf(),
            final(self).ast == old(self).ast,
            scopes_kept(old(self).vars@, final(self).vars@, r is Ok),
            old(console).recorded() ==> final(console).recorded(),
            old(console).recorded() ==> condition_of(
                world_of(old(self).vars, *old(console)),
                node@,
                budget as nat,
                final(console).answers@,
            ) == (world_of(final(self).vars, *final(console)), r),
            forall|oracle: Seq<HostAnswer>| #[trigger]
                final(console).heard(oracle) ==> old(console).heard(oracle) && condition_of(
                    world_of(old(self).vars, *old(console)),
                    node@,
                    budget as nat,
                    oracle,
                ) == (world_of(final(self).vars, *final(console)), r),
        decreases budget, 0nat,
    {
        if budget == 0 {
            return Err(RuntimeError::BudgetExhausted);
        }
        match self.resolve_node(node, console, budget - 1) {
            Ok(KaffeeValue::Boolean(bl)) => Ok(bl),
            Ok(_) => Err(RuntimeError::NonBooleanCondition),
            Err(e) => Err(e),
        }
    }

    /// How an `if` ends.
    pub fn eval_if_stmnt<H: Host>(&mut self, ifp: &IfProperties, console: &mut Console<H>, budget: u64) -> (r:
        Result<(BreakType, KaffeeValue), RuntimeError>)
        requires
            old(self).ready(),
        ensures
            final(self).vars.wf(),
            final(self).ast == old(self).ast,
            outer_scopes_kept(old(self).vars@, final(self).vars@, r is Ok),
            old(console).recorded() ==> final(console).recorded(),
            old(console).recorded() ==> if_outcome(
                world_of(old(self).vars, *old(console)),
                node_view(*ifp.check_exp),
                node_view(*ifp.body),
                else_view(ifp.else_exp),
                budget as nat,
                final(console).answers@,
            ) == (world_of(final(self).vars, *final(console)), signal_result(r)),
            forall|oracle: Seq<HostAnswer>| #[trigger]
                final(console).heard(oracle) ==> old(console).heard(oracle) && if_outcome(
                    world_of(old(self).vars, *old(console)),
                    node_view(*ifp.check_exp),
                    node_view(*ifp.body),
                    else_view(ifp.else_exp),
                    budget as nat,
                    oracle,
                ) == (world_of(final(self).vars, *final(console)), signal_result(r)),
        decreases budget, 0nat,
    {
        if budget == 0 {
            return Err(RuntimeError::BudgetExhausted);
        }
        let check = match self.node_as_bool(&ifp.check_exp, console, budget - 1) {
            Ok(b) => b,
            Err(e) => {
                return Err(e);
            },
        };
        if check {
            self.eval_node(&ifp.body, console, budget - 1)
        } else {
            match &ifp.else_exp {
                Some(en) => self.eval_node(en, console, budget - 1),
                None => Ok((BreakType::Normal, KaffeeValue::Null)),
            }
        }
    }

    /// How a `while` ends.
    pub fn eval_while_loop<H: Host>(&mut self, wp: &WhileProperties, console: &mut Console<H>, budget: u64) -> (r:
        Result<(BreakType, KaffeeValue), RuntimeError>)
        requires
            old(self).ready(),
        ensures
            final(self).vars.wf(),
            final(self).ast == old(self).ast,
            outer_scopes_kept(old(self).vars@, final(self).vars@, r is Ok),
            old(console).recorded() ==> final(console).recorded(),
            old(console).recorded() ==> while_outcome(
                world_of(old(self).vars, *old(console)),
                node_view(*wp.check),
                node_view(*wp.body),
                budget as nat,
                final(console).answers@,
            ) == (world_of(final(self).vars, *final(console)), signal_result(r)),
            forall|oracle: Seq<HostAnswer>| #[trigger]
                final(console).heard(oracle) ==> old(console).heard(oracle) && while_outcome(
                    world_of(old(self).vars, *old(console)),
                    node_view(*wp.check),
                    node_view(*wp.body),
                    budget as nat,
                    oracle,
                ) == (world_of(final(self).vars, *final(console)), signal_result(r)),
        decreases budget, 0nat,
    {
        let mut left: u64 = budget;
        loop
            invariant
                left <= budget,
                self.ready(),
                self.ast == old(self).ast,
                self.vars@.scopes.len() == old(self).vars@.scopes.len(),
                self.vars@.scopes.drop_last() == old(self).vars@.scopes.drop_last(),
                old(console).recorded() ==> console.recorded(),
                forall|oracle: Seq<HostAnswer>| #[trigger]
                    console.heard(oracle) ==> old(console).heard(oracle) && while_outcome(
                        world_of(old(self).vars, *old(console)),
                        node_view(*wp.check),
                        node_view(*wp.body),
                        budget as nat,
                        oracle,
                    ) == while_outcome(
                        world_of(self.vars, *console),
                        node_view(*wp.check),
                        node_view(*wp.body),
                        left as nat,
                        oracle,
                    ),
            decreases left,
        {
            if left == 0 {
                return Err(RuntimeError::BudgetExhausted);
            }
            let check = match self.node_as_bool(&wp.check, console, left - 1) {
                Ok(b) => b,
                Err(e) => {
                    return Err(e);
                },
            };
            if !check {
                return Ok((BreakType::Normal, KaffeeValue::Null));
            }
            let (b_type, ret_val) = match self.eval_node(&wp.body, console, left - 1) {
                Ok(outcome) => outcome,
                Err(e) => {
                    return Err(e);
                },
            };
            if b_type == BreakType::Return {
                return Ok((b_type, ret_val));
            }
            if b_type == BreakType::Break {
                return Ok((BreakType::Normal, KaffeeValue::Null));
            }
            left = left - 1;
        }
    }

    /// Declares a function of the language under its name.
    pub fn eval_function_definition(&mut self, fd: &FunctionDefinitionProperties) -> (r: Result<
        (),
        RuntimeError,
    >)
        requires
            old(self).ready(),
        ensures
            final(self).vars.wf(),
            final(self).ast == old(self).ast,
            outer_scopes_kept(old(self).vars@, final(self).vars@, r is Ok),
            (final(self).vars@, r) == declared(
                old(self).vars@,
                fd.name@,
                ValueView::Function { params: texts(fd.args), statements: nodes_view(fd.body) },
                false,
            ),
    {
        let kv_fn = ast_func_to_value(fd);
        proof {
            lemma_declared_keeps_outer(self.vars@, fd.name@, kv_fn@, false);
        }
        self.vars.alloc_in_scope(&fd.name, kv_fn, false)
    }

    /// Evaluates the right side of a declaration and declares the name on
    /// its left side for the value.
    pub fn define_variable<H: Host>(
        &mut self,
        dcl: &DeclarationProperties,
        console: &mut Console<H>,
        budget: u64,
    ) -> (r: Result<(), RuntimeError>)
        requires
            old(self).ready(),
        ensures
            final(self).vars.wf(),
            final(self).ast == old(self).ast,
            outer_scopes_kept(old(self).vars@, final(self).vars@, r is Ok),
            budget > 0 && !(node_view(*dcl.assignment.left) is Identifier) ==> r == Err::<
                (),
                RuntimeError,
            >(RuntimeError::InvalidDeclarationTarget) && final(self).vars@ == old(self).vars@
                && final(console)@ == old(console)@,
            old(console).recorded() ==> final(console).recorded(),
            old(console).recorded() ==> declaration_done(
                world_of(old(self).vars, *old(console)),
                dcl.constant,
                node_view(*dcl.assignment.left),
                node_view(*dcl.assignment.right),
                budget as nat,
                final(console).answers@,
            ) == (world_of(final(self).vars, *final(console)), r),
            forall|oracle: Seq<HostAnswer>| #[trigger]
                final(console).heard(oracle) ==> old(console).heard(oracle) && declaration_done(
                    world_of(old(self).vars, *old(console)),
                    dcl.constant,
                    node_view(*dcl.assignment.left),
                    node_view(*dcl.assignment.right),
                    budget as nat,
                    oracle,
                ) == (world_of(final(self).vars, *final(console)), r),
        decreases budget, 0nat,
    {
        if budget == 0 {
            return Err(RuntimeError::BudgetExhausted);
        }
        let left: &ASTNode = &dcl.assignment.left;
        match left {
            ASTNode::Identifier(id) => {
                let val = match self.resolve_node(&dcl.assignment.right, console, budget - 1) {
                    Ok(v) => v,
                    Err(e) => {
                        return Err(e);
                    },
                };
                proof {
                    lemma_declared_keeps_outer(self.vars@, id@, val@, dcl.constant);
                }
                self.vars.alloc_in_scope(id, val, dcl.constant)
            },
            _ => Err(RuntimeError::InvalidDeclarationTarget),
        }
    }

    /// Adds a pair to an object that does not have the key yet.
    pub fn handle_insertion<H: Host>(&mut self, bin: &BinaryProperties, console: &mut Console<H>, budget: u64) -> (r:
        Result<(), RuntimeError>)
        requires
            old(self).ready(),
        ensures
            final(self).vars.wf(),
            final(self).ast == old(self).ast,
            scopes_kept(old(self).vars@, final(self).vars@, r is Ok),
            old(console).recorded() ==> final(console).recorded(),
            old(console).recorded() ==> insertion_done(
                world_of(old(self).vars, *old(console)),
                node_view(*bin.left),
                node_view(*bin.right),
                budget as nat,
                final(console).answers@,
            ) == (world_of(final(self).vars, *final(console)), r),
            forall|oracle: Seq<HostAnswer>| #[trigger]
                final(console).heard(oracle) ==> old(console).heard(oracle) && insertion_done(
                    world_of(old(self).vars, *old(console)),
                    node_view(*bin.left),
                    node_view(*bin.right),
                    budget as nat,
                    oracle,
                ) == (world_of(final(self).vars, *final(console)), r),
        decreases budget, 0nat,
    {
        if budget == 0 {
            return Err(RuntimeError::BudgetExhausted);
        }
        let left: &ASTNode = &bin.left;
        let pa = match left {
            ASTNode::PropertyAccess(x) => x,
            _ => {
                assert(!(left@ is PropertyAccess));
                return Err(RuntimeError::InvalidAssignmentTarget);
            },
        };
        let container = match self.resolve_node(&pa.object, console, budget - 1) {
            Ok(v) => v,
            Err(e) => {
                return Err(e);
            },
        };
        if !is_object(&container) {
            return Err(RuntimeError::InvalidInsertionTarget);
        }
        self.place_pair(&pa.object, &pa.property, &bin.right, console, budget - 1)
    }

    /// Finds the slot of the object that `object` names and adds a pair to
    /// the object.
    pub fn place_pair<H: Host>(
        &mut self,
        object: &ASTNode,
        property: &ASTNode,
        right: &ASTNode,
        console: &mut Console<H>,
        budget: u64,
    ) -> (r: Result<(), RuntimeError>)
        requires
            old(self).ready(),
        ensures
            final(self).vars.wf(),
            final(self).ast == old(self).ast,
            scopes_kept(old(self).vars@, final(self).vars@, r is Ok),
            old(console).recorded() ==> final(console).recorded(),
            old(console).recorded() ==> pair_placed(
                world_of(old(self).vars, *old(console)),
                object@,
                property@,
                right@,
                budget as nat,
                final(console).answers@,
            ) == (world_of(final(self).vars, *final(console)), r),
            forall|oracle: Seq<HostAnswer>| #[trigger]
                final(console).heard(oracle) ==> old(console).heard(oracle) && pair_placed(
                    world_of(old(self).vars, *old(console)),
                    object@,
                    property@,
                    right@,
                    budget as nat,
                    oracle,
                ) == (world_of(final(self).vars, *final(console)), r),
        decreases budget, 0nat,
    {
        if budget == 0 {
            return Err(RuntimeError::BudgetExhausted);
        }
        let (exists, obj_idx) = match self.resolve_assignment_target(object, console, budget - 1) {
            Ok(place) => place,
            Err(e) => {
                return Err(e);
            },
        };
        if !exists {
            return Err(RuntimeError::InvalidInsertionTarget);
        }
        self.insert_pair(property, right, obj_idx, console, budget - 1)
    }

    /// Evaluates a key and a value and adds them as a pair to the object in
    /// the slot at `obj_idx`.
    pub fn insert_pair<H: Host>(
        &mut self,
        property: &ASTNode,
        right: &ASTNode,
        obj_idx: usize,
        console: &mut Console<H>,
        budget: u64,
    ) -> (r: Result<(), RuntimeError>)
        requires
            old(self).ready(),
        ensures
            final(self).vars.wf(),
            final(self).ast == old(self).ast,
            scopes_kept(old(self).vars@, final(self).vars@, r is Ok),
            old(console).recorded() ==> final(console).recorded(),
            old(console).recorded() ==> pair_inserted(
                world_of(old(self).vars, *old(console)),
                property@,
                right@,
                obj_idx,
                budget as nat,
                final(console).answers@,
            ) == (world_of(final(self).vars, *final(console)), r),
            forall|oracle: Seq<HostAnswer>| #[trigger]
                final(console).heard(oracle) ==> old(console).heard(oracle) && pair_inserted(
                    world_of(old(self).vars, *old(console)),
                    property@,
                    right@,
                    obj_idx,
                    budget as nat,
                    oracle,
                ) == (world_of(final(self).vars, *final(console)), r),
        decreases budget, 0nat,
    {
        if budget == 0 {
            return Err(RuntimeError::BudgetExhausted);
        }
        let key = match self.resolve_node(property, console, budget - 1) {
            Ok(v) => v,
            Err(e) => {
                return Err(e);
            },
        };
        let value = match self.resolve_node(right, console, budget - 1) {
            Ok(v) => v,
            Err(e) => {
                return Err(e);
            },
        };
        self.vars.insert_into_object(key, value, obj_idx)
    }

    /// Does an assignment.
    pub fn assign_variable<H: Host>(&mut self, bin: &BinaryProperties, console: &mut Console<H>, budget: u64) -> (r:
        Result<(), RuntimeError>)
        requires
            old(self).ready(),
        ensures
            final(self).vars.wf(),
            final(self).ast == old(self).ast,
            scopes_kept(old(self).vars@, final(self).vars@, r is Ok),
            old(console).recorded() && budget >= 2 && bin.operator@ == "="@ && (node_view(
                *bin.left,
            ) matches NodeView::Identifier(name) && (resolve_name(old(self).vars@.scopes, name)
                matches Ok(index) && old(self).vars@.heap.contains_key(index) && old(
                self,
            ).vars@.heap[index].constant)) ==> r == Err::<(), RuntimeError>(
                RuntimeError::AssignmentToConstant,
            ) && final(self).vars@ == old(self).vars@ && final(console)@ == old(console)@,
            old(console).recorded() ==> final(console).recorded(),
            old(console).recorded() ==> assignment_done(
                world_of(old(self).vars, *old(console)),
                node_view(*bin.left),
                bin.operator@,
                node_view(*bin.right),
                budget as nat,
                final(console).answers@,
            ) == (world_of(final(self).vars, *final(console)), r),
            forall|oracle: Seq<HostAnswer>| #[trigger]
                final(console).heard(oracle) ==> old(console).heard(oracle) && assignment_done(
                    world_of(old(self).vars, *old(console)),
                    node_view(*bin.left),
                    bin.operator@,
                    node_view(*bin.right),
                    budget as nat,
                    oracle,
                ) == (world_of(final(self).vars, *final(console)), r),
        decreases budget, 0nat,
    {
        if budget == 0 {
            return Err(RuntimeError::BudgetExhausted);
        }
        if !spells(&bin.operator, "=") {
            return Err(RuntimeError::UnsupportedStatement);
        }
        let (key_exists, val_idx) = match self.resolve_assignment_target(
            &bin.left,
            console,
            budget - 1,
        ) {
            Ok(place) => place,
            Err(RuntimeError::UnknownProperty) => {
                return Err(RuntimeError::InvalidInsertionTarget);
            },
            Err(e) => {
                return Err(e);
            },
        };
        if !key_exists {
            return self.handle_insertion(bin, console, budget - 1);
        }
        match self.vars.is_constant(val_idx) {
            Err(e) => {
                return Err(e);
            },
            Ok(true) => {
                return Err(RuntimeError::AssignmentToConstant);
            },
            Ok(false) => {},
        }
        let val = match self.resolve_node(&bin.right, console, budget - 1) {
            Ok(v) => v,
            Err(e) => {
                return Err(e);
            },
        };
        self.vars.write(val_idx, val)
    }

    /// How a statement ends.
    pub fn eval_node<H: Host>(&mut self, node: &ASTNode, console: &mut Console<H>, budget: u64) -> (r:
        Result<(BreakType, KaffeeValue), RuntimeError>)
        requires
            old(self).ready(),
        ensures
            final(self).vars.wf(),
            final(self).ast == old(self).ast,
            outer_scopes_kept(old(self).vars@, final(self).vars@, r is Ok),
            old(console).recorded() ==> final(console).recorded(),
            old(console).recorded() ==> outcome_of(
                world_of(old(self).vars, *old(console)),
                node@,
                budget as nat,
                final(console).answers@,
            ) == (world_of(final(self).vars, *final(console)), signal_result(r)),
            forall|oracle: Seq<HostAnswer>| #[trigger]
                final(console).heard(oracle) ==> old(console).heard(oracle) && outcome_of(
                    world_of(old(self).vars, *old(console)),
                    node@,
                    budget as nat,
                    oracle,
                ) == (world_of(final(self).vars, *final(console)), signal_result(r)),
        decreases budget, 0nat,
    {
        if budget == 0 {
            return Err(RuntimeError::BudgetExhausted);
        }
        match node {
            ASTNode::BlockStatement(bs) => self.eval_block(bs, console, budget - 1),
            ASTNode::Declaration(dcl) => match self.define_variable(dcl, console, budget - 1) {
                Ok(_) => Ok((BreakType::Normal, KaffeeValue::Null)),
                Err(e) => Err(e),
            },
            ASTNode::Assignment(asn) => match self.assign_variable(asn, console, budget - 1) {
                Ok(_) => Ok((BreakType::Normal, KaffeeValue::Null)),
                Err(e) => Err(e),
            },
            ASTNode::FunctionCall(cp) => match self.eval_call(cp, console, budget - 1) {
                Ok(_) => Ok((BreakType::Normal, KaffeeValue::Null)),
                Err(e) => Err(e),
            },
            ASTNode::FunctionDefinition(fd) => match self.eval_function_definition(fd) {
                Ok(_) => Ok((BreakType::Normal, KaffeeValue::Null)),
                Err(e) => Err(e),
            },
            ASTNode::IfStatement(ifs) => self.eval_if_stmnt(ifs, console, budget - 1),
            ASTNode::ReturnStatement(rs) => match self.resolve_node(rs, console, budget - 1) {
                Ok(v) => Ok((BreakType::Return, v)),
                Err(e) => Err(e),
            },
            ASTNode::ContinueStatement => Ok((BreakType::Continue, KaffeeValue::Null)),
            ASTNode::BreakStatement => Ok((BreakType::Break, KaffeeValue::Null)),
            ASTNode::WhileLoop(wp) => self.eval_while_loop(wp, console, budget - 1),
            _ => Err(RuntimeError::UnsupportedStatement),
        }
    }

    /// Declares the native functions in the innermost scope.
    fn load_std_lib(&mut self) -> (r: Result<(), RuntimeError>)
        requires
            old(self).ready(),
        ensures
            final(self).vars.wf(),
            final(self).ast == old(self).ast,
            final(self).vars@.scopes.len() == old(self).vars@.scopes.len(),
            (final(self).vars@, r) == std_lib_loaded(old(self).vars@, 0),
    {
        let mappings: Vec<NativeMapping> = get_std_lib_mappings();
        let mut i: usize = 0;
        while i < mappings.len()
            invariant
                i <= mappings.len(),
                mappings.len() == std_lib_mappings().len(),
                forall|k: int|
                    0 <= k < mappings.len() ==> (
                        mappings[k].name@,
                        mappings[k].arg_count,
                        mappings[k].func,
                    ) == #[trigger] std_lib_mappings()[k],
                self.ready(),
                self.ast == old(self).ast,
                self.vars@.scopes.len() == old(self).vars@.scopes.len(),
                std_lib_loaded(old(self).vars@, 0) == std_lib_loaded(self.vars@, i as nat),
            decreases mappings.len() - i,
        {
            let mapping = mappings[i].duplicate();
            assert((mapping.name@, mapping.arg_count, mapping.func) == std_lib_mappings()[i as int]);
            match self.vars.alloc_in_scope(
                &mappings[i].name,
                KaffeeValue::NativeFunction(mapping),
                true,
            ) {
                Ok(_) => {},
                Err(e) => {
                    return Err(e);
                },
            }
            i += 1;
        }
        Ok(())
    }

    /// Runs the program: opens a scope with the native functions and one
    /// above it for the program, and runs the top-level statements in
    /// order.
    pub fn run<H: Host>(&mut self, console: &mut Console<H>, budget: u64) -> (r: Result<(), RuntimeError>)
        requires
            old(self).vars.wf(),
        ensures
            final(self).vars.wf(),
            final(self).ast == old(self).ast,
            final(self).vars@.scopes.len() >= old(self).vars@.scopes.len() + 1,
            r is Ok ==> final(self).vars@.scopes.len() == old(self).vars@.scopes.len() + 2,
            old(console).recorded() ==> final(console).recorded(),
            old(console).recorded() ==> run_outcome(
                world_of(old(self).vars, *old(console)),
                nodes_view(old(self).ast),
                budget as nat,
                final(console).answers@,
            ) == (world_of(final(self).vars, *final(console)), r),
            forall|oracle: Seq<HostAnswer>| #[trigger]
                final(console).heard(oracle) ==> old(console).heard(oracle) && run_outcome(
                    world_of(old(self).vars, *old(console)),
                    nodes_view(old(self).ast),
                    budget as nat,
                    oracle,
                ) == (world_of(final(self).vars, *final(console)), r),
    {
        self.vars.new_scope();
        match self.load_std_lib() {
            Ok(_) => {},
            Err(e) => {
                return Err(e);
            },
        }
        self.vars.new_scope();
        let ghost views = nodes_view(self.ast);
        let mut i: usize = 0;
        while i < self.ast.len()
            invariant
                i <= self.ast.len(),
                views == nodes_view(self.ast),
                self.ready(),
                self.ast == old(self).ast,
                self.vars@.scopes.len() == old(self).vars@.scopes.len() + 2,
                old(console).recorded() ==> console.recorded(),
                forall|oracle: Seq<HostAnswer>| #[trigger]
                    console.heard(oracle) ==> old(console).heard(oracle) && run_outcome(
                        world_of(old(self).vars, *old(console)),
                        views,
                        budget as nat,
                        oracle,
                    ) == program_run(
                        world_of(self.vars, *console),
                        views,
                        i as nat,
                        budget as nat,
                        oracle,
                    ),
            decreases self.ast.len() - i,
        {
            let node = clone_node(&self.ast[i]);
            match self.eval_node(&node, console, budget) {
                Ok(_) => {},
                Err(e) => {
                    return Err(e);
                },
            }
            i += 1;
        }
        Ok(())
    }
}

/// The interpreter of the program that `code` spells, on an empty heap and
/// an empty scope stack.
pub fn new(code: String) -> (r: Result<Interpreter, SyntaxError>)
    ensures
        match r {
            Ok(interpreter) => interpreter.vars.wf() && interpreter.vars@ == (VariablesView {
                heap: Map::empty(),
                next: 0,
                scopes: Seq::empty(),
            }) && source_parsed(code@, DEPTH_LIMIT as nat) == Ok::<Seq<NodeView>, SyntaxError>(
                nodes_view(interpreter.ast),
            ),
            Err(e) => source_parsed(code@, DEPTH_LIMIT as nat) == Err::<
                Seq<NodeView>,
                SyntaxError,
            >(e),
        },
{
    let mut ps = match parser::new(code) {
        Ok(ps) => ps,
        Err(e) => {
            return Err(e);
        },
    };
    match ps.generate_ast() {
        Ok(ast) => Ok(Interpreter { ast, vars: variables::new() }),
        Err(e) => Err(e),
    }
}

} // verus!

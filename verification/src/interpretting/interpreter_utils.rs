//! The values of the language and how a statement can end.

use vstd::prelude::*;
use vstd::std_specs::cmp::PartialEqSpecImpl;
use crate::errors::RuntimeError;
use crate::number::Number;
use crate::number::number_eq;
use crate::parsing::ast_utils::ASTNode;
use crate::parsing::ast_utils::NodeView;
use crate::parsing::ast_utils::nodes_view;
use crate::parsing::ast_utils::clone_nodes;
use crate::parsing::ast_utils::nodes_equal;
use crate::text::texts;
use crate::text::clone_texts;
use crate::text::texts_equal;

verus! {

/// A heap slot: a value and whether it may be assigned to.
#[derive(Debug)]
pub struct AllocedValue {
    pub value: KaffeeValue,
    pub constant: bool,
}

/// How the evaluation of a statement ended.
#[derive(Clone, Copy, Debug, PartialEq, Eq, Structural)]
pub enum BreakType {
    /// The statement ran to its end.
    Normal,
    Break,
    Continue,
    Return,
}

/// A value of the language. Composite values hold heap indices.
#[derive(Debug)]
pub enum KaffeeValue {
    Number(Number),
    String(String),
    Boolean(bool),
    Null,
    NativeFunction(NativeMapping),
    Object(ObjectValue),
    Array(Vec<usize>),
    Function(FunctionDefinition),
}

/// A function of the language: its parameter names and its body.
#[derive(Debug)]
pub struct FunctionDefinition {
    pub args: Vec<String>,
    pub body: Vec<ASTNode>,
}

/// Which function of the standard library a native function is.
#[derive(Clone, Copy, Debug, PartialEq, Eq, Structural)]
pub enum NativeFunction {
    Println,
    Stringify,
    Len,
    Append,
    Input,
}

/// A function of the standard library under its name in the language.
#[derive(Debug)]
pub struct NativeMapping {
    pub name: String,
    pub arg_count: usize,
    pub func: NativeFunction,
}

/// An object: the heap indices of its keys and, at the same positions, of
/// its values.
#[derive(Debug)]
pub struct ObjectValue {
    pub keys: Vec<usize>,
    pub values: Vec<usize>,
}

/// A value as a mathematical value.
pub enum ValueView {
    Number(u64),
    Text(Seq<char>),
    Boolean(bool),
    Null,
    Native { name: Seq<char>, arg_count: usize, func: NativeFunction },
    Object { keys: Seq<usize>, values: Seq<usize> },
    Array(Seq<usize>),
    Function { params: Seq<Seq<char>>, statements: Seq<NodeView> },
}

/// A heap slot as a mathematical value.
pub struct SlotView {
    pub value: ValueView,
    pub constant: bool,
}

impl View for KaffeeValue {
    type V = ValueView;

    open spec fn view(&self) -> ValueView {
        match self {
            KaffeeValue::Number(n) => ValueView::Number(n@),
            KaffeeValue::String(s) => ValueView::Text(s@),
            KaffeeValue::Boolean(b) => ValueView::Boolean(*b),
            KaffeeValue::Null => ValueView::Null,
            KaffeeValue::NativeFunction(m) => ValueView::Native {
                name: m.name@,
                arg_count: m.arg_count,
                func: m.func,
            },
            KaffeeValue::Object(o) => ValueView::Object { keys: o.keys@, values: o.values@ },
            KaffeeValue::Array(a) => ValueView::Array(a@),
            KaffeeValue::Function(f) => ValueView::Function {
                params: texts(f.args),
                statements: nodes_view(f.body),
            },
        }
    }
}

impl View for AllocedValue {
    type V = SlotView;

    open spec fn view(&self) -> SlotView {
        SlotView { value: self.value@, constant: self.constant }
    }
}

/// What a list of values holds.
pub open spec fn values_view(values: Vec<KaffeeValue>) -> Seq<ValueView> {
    Seq::new(values.len() as nat, |i: int| values[i]@)
}

/// The view of a result that holds a value.
pub open spec fn value_result(r: Result<KaffeeValue, RuntimeError>) -> Result<
    ValueView,
    RuntimeError,
> {
    match r {
        Ok(v) => Ok(v@),
        Err(e) => Err(e),
    }
}

/// The view of a result that holds a signal and a value.
pub open spec fn signal_result(r: Result<(BreakType, KaffeeValue), RuntimeError>) -> Result<
    (BreakType, ValueView),
    RuntimeError,
> {
    match r {
        Ok((signal, v)) => Ok((signal, v@)),
        Err(e) => Err(e),
    }
}

/// Equality of two values: by structure, except that numbers are equal as
/// IEEE-754 has it and native functions are equal when their names are.
pub open spec fn values_equal(a: ValueView, b: ValueView) -> bool {
    match (a, b) {
        (ValueView::Number(x), ValueView::Number(y)) => number_eq(x, y),
        (
            ValueView::Native { name: x, arg_count: _, func: _ },
            ValueView::Native { name: y, arg_count: _, func: _ },
        ) => x == y,
        _ => a == b,
    }
}

/// The heap indices that a composite value holds.
pub open spec fn members(value: ValueView) -> Set<usize> {
    match value {
        ValueView::Object { keys, values } => keys.to_set().union(values.to_set()),
        ValueView::Array(items) => items.to_set(),
        _ => Set::empty(),
    }
}

/// A copy of the list of indices.
pub fn clone_indices(indices: &Vec<usize>) -> (r: Vec<usize>)
    ensures
        r@ == indices@,
{
    let mut out: Vec<usize> = Vec::new();
    let mut i: usize = 0;
    while i < indices.len()
        invariant
            i <= indices.len(),
            out@ == indices@.take(i as int),
        decreases indices.len() - i,
    {
        out.push(indices[i]);
        assert(indices@.take(i + 1) =~= indices@.take(i as int).push(indices[i as int]));
        i += 1;
    }
    assert(indices@.take(i as int) =~= indices@);
    out
}

/// Whether the two lists hold the same indices in the same order.
pub fn indices_equal(a: &Vec<usize>, b: &Vec<usize>) -> (r: bool)
    ensures
        r == (a@ == b@),
{
    if a.len() != b.len() {
        return false;
    }
    let mut i: usize = 0;
    while i < a.len()
        invariant
            i <= a.len(),
            a.len() == b.len(),
            forall|k: int| 0 <= k < i ==> a[k] == b[k],
        decreases a.len() - i,
    {
        if a[i] != b[i] {
            return false;
        }
        i += 1;
    }
    assert(a@ =~= b@);
    true
}

impl NativeMapping {
    /// A copy of the mapping.
    pub fn duplicate(&self) -> (r: NativeMapping)
        ensures
            r.name@ == self.name@,
            r.arg_count == self.arg_count,
            r.func == self.func,
    {
        NativeMapping { name: self.name.clone(), arg_count: self.arg_count, func: self.func }
    }
}

impl KaffeeValue {
    /// A copy of the value.
    pub fn duplicate(&self) -> (r: KaffeeValue)
        ensures
            r@ == self@,
    {
        match self {
            KaffeeValue::Number(n) => KaffeeValue::Number(*n),
            KaffeeValue::String(s) => KaffeeValue::String(s.clone()),
            KaffeeValue::Boolean(b) => KaffeeValue::Boolean(*b),
            KaffeeValue::Null => KaffeeValue::Null,
            KaffeeValue::NativeFunction(m) => KaffeeValue::NativeFunction(m.duplicate()),
            KaffeeValue::Object(o) => KaffeeValue::Object(
                ObjectValue { keys: clone_indices(&o.keys), values: clone_indices(&o.values) },
            ),
            KaffeeValue::Array(a) => KaffeeValue::Array(clone_indices(a)),
            KaffeeValue::Function(f) => KaffeeValue::Function(
                FunctionDefinition { args: clone_texts(&f.args), body: clone_nodes(&f.body) },
            ),
        }
    }

    /// `self == other` in the language.
    pub fn equals(&self, other: &KaffeeValue) -> (r: bool)
        ensures
            r == values_equal(self@, other@),
    {
        match (self, other) {
            (KaffeeValue::Number(x), KaffeeValue::Number(y)) => x.equals(y),
            (KaffeeValue::String(x), KaffeeValue::String(y)) => *x == *y,
            (KaffeeValue::Boolean(x), KaffeeValue::Boolean(y)) => *x == *y,
            (KaffeeValue::Null, KaffeeValue::Null) => true,
            (KaffeeValue::NativeFunction(x), KaffeeValue::NativeFunction(y)) => x.name == y.name,
            (KaffeeValue::Object(x), KaffeeValue::Object(y)) => indices_equal(&x.keys, &y.keys)
                && indices_equal(&x.values, &y.values),
            (KaffeeValue::Array(x), KaffeeValue::Array(y)) => indices_equal(x, y),
            (KaffeeValue::Function(x), KaffeeValue::Function(y)) => texts_equal(&x.args, &y.args)
                && nodes_equal(&x.body, &y.body),
            _ => false,
        }
    }
}

impl PartialEq for KaffeeValue {
    /// `self == other` in the language.
    fn eq(&self, other: &KaffeeValue) -> (r: bool) {
        self.equals(other)
    }
}

impl PartialEqSpecImpl for KaffeeValue {
    open spec fn obeys_eq_spec() -> bool {
        true
    }

    open spec fn eq_spec(&self, other: &KaffeeValue) -> bool {
        values_equal(self@, other@)
    }
}

impl Clone for KaffeeValue {
    /// A copy of the value.
    fn clone(&self) -> (r: KaffeeValue)
        ensures
            r@ == self@,
    {
        self.duplicate()
    }
}

} // verus!

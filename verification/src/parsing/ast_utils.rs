//! The tree that the parser builds and the evaluator walks.

use vstd::prelude::*;
use vstd::std_specs::cmp::PartialEqSpecImpl;
use crate::text::texts;
use crate::text::clone_texts;
use crate::text::texts_equal;

verus! {

/// A node of the tree: an expression or a statement.
#[derive(Debug)]
pub enum ASTNode {
    String(String),
    /// A number literal, as it was spelled.
    Number(String),
    Identifier(String),
    Boolean(bool),
    Null,
    ObjectLiteral(ObjectLiteralProperties),
    BlockStatement(Vec<ASTNode>),
    Assignment(BinaryProperties),
    Declaration(DeclarationProperties),
    BinaryNode(BinaryProperties),
    FunctionCall(CallProperties),
    FunctionDefinition(FunctionDefinitionProperties),
    PropertyAccess(AccessProperties),
    IfStatement(IfProperties),
    ReturnStatement(Box<ASTNode>),
    WhileLoop(WhileProperties),
    ContinueStatement,
    BreakStatement,
    ArrayLiteral(Vec<ASTNode>),
}

/// A loop: its condition and its body.
#[derive(Debug)]
pub struct WhileProperties {
    pub check: Box<ASTNode>,
    pub body: Box<ASTNode>,
}

/// A function definition: its name, its parameters and its body.
#[derive(Debug)]
pub struct FunctionDefinitionProperties {
    pub name: String,
    pub args: Vec<String>,
    pub body: Vec<ASTNode>,
}

/// A conditional: its condition, its body, and what follows `else`.
#[derive(Debug)]
pub struct IfProperties {
    pub check_exp: Box<ASTNode>,
    pub body: Box<ASTNode>,
    pub else_exp: Option<Box<ASTNode>>,
}

/// An object literal: its keys and, at the same positions, its values.
#[derive(Debug)]
pub struct ObjectLiteralProperties {
    pub keys: Vec<String>,
    pub values: Vec<ASTNode>,
}

/// Two operands and the operator between them.
#[derive(Debug)]
pub struct BinaryProperties {
    pub left: Box<ASTNode>,
    pub operator: String,
    pub right: Box<ASTNode>,
}

/// A declaration: the assignment that follows `let` or `const`.
#[derive(Debug)]
pub struct DeclarationProperties {
    pub constant: bool,
    pub assignment: BinaryProperties,
}

/// A call: what is called, and the arguments.
#[derive(Debug)]
pub struct CallProperties {
    pub callee: Box<ASTNode>,
    pub args: Vec<ASTNode>,
}

/// A property access: the object and the key.
#[derive(Debug)]
pub struct AccessProperties {
    pub object: Box<ASTNode>,
    pub property: Box<ASTNode>,
}

/// A tree as a mathematical value: strings are sequences of characters and
/// lists are sequences.
pub enum NodeView {
    Text(Seq<char>),
    Number(Seq<char>),
    Identifier(Seq<char>),
    Boolean(bool),
    Null,
    ObjectLiteral { keys: Seq<Seq<char>>, values: Seq<NodeView> },
    Block(Seq<NodeView>),
    Assignment { left: Box<NodeView>, operator: Seq<char>, right: Box<NodeView> },
    Declaration { constant: bool, left: Box<NodeView>, operator: Seq<char>, right: Box<NodeView> },
    Binary { left: Box<NodeView>, operator: Seq<char>, right: Box<NodeView> },
    Call { callee: Box<NodeView>, args: Seq<NodeView> },
    FunctionDefinition { name: Seq<char>, params: Seq<Seq<char>>, statements: Seq<NodeView> },
    PropertyAccess { object: Box<NodeView>, property: Box<NodeView> },
    If { check: Box<NodeView>, body: Box<NodeView>, otherwise: Option<Box<NodeView>> },
    Return(Box<NodeView>),
    While { check: Box<NodeView>, body: Box<NodeView> },
    Continue,
    Break,
    ArrayLiteral(Seq<NodeView>),
}

/// The tree as a mathematical value.
pub open spec fn node_view(node: ASTNode) -> NodeView
    decreases node,
{
    match node {
        ASTNode::String(s) => NodeView::Text(s@),
        ASTNode::Number(s) => NodeView::Number(s@),
        ASTNode::Identifier(s) => NodeView::Identifier(s@),
        ASTNode::Boolean(b) => NodeView::Boolean(b),
        ASTNode::Null => NodeView::Null,
        ASTNode::ObjectLiteral(p) => NodeView::ObjectLiteral {
            keys: texts(p.keys),
            values: nodes_view(p.values),
        },
        ASTNode::BlockStatement(v) => NodeView::Block(nodes_view(v)),
        ASTNode::Assignment(b) => NodeView::Assignment {
            left: Box::new(node_view(*b.left)),
            operator: b.operator@,
            right: Box::new(node_view(*b.right)),
        },
        ASTNode::Declaration(d) => NodeView::Declaration {
            constant: d.constant,
            left: Box::new(node_view(*d.assignment.left)),
            operator: d.assignment.operator@,
            right: Box::new(node_view(*d.assignment.right)),
        },
        ASTNode::BinaryNode(b) => NodeView::Binary {
            left: Box::new(node_view(*b.left)),
            operator: b.operator@,
            right: Box::new(node_view(*b.right)),
        },
        ASTNode::FunctionCall(c) => NodeView::Call {
            callee: Box::new(node_view(*c.callee)),
            args: nodes_view(c.args),
        },
        ASTNode::FunctionDefinition(f) => NodeView::FunctionDefinition {
            name: f.name@,
            params: texts(f.args),
            statements: nodes_view(f.body),
        },
        ASTNode::PropertyAccess(a) => NodeView::PropertyAccess {
            object: Box::new(node_view(*a.object)),
            property: Box::new(node_view(*a.property)),
        },
        ASTNode::IfStatement(i) => NodeView::If {
            check: Box::new(node_view(*i.check_exp)),
            body: Box::new(node_view(*i.body)),
            otherwise: else_view(i.else_exp),
        },
        ASTNode::ReturnStatement(r) => NodeView::Return(Box::new(node_view(*r))),
        ASTNode::WhileLoop(w) => NodeView::While {
            check: Box::new(node_view(*w.check)),
            body: Box::new(node_view(*w.body)),
        },
        ASTNode::ContinueStatement => NodeView::Continue,
        ASTNode::BreakStatement => NodeView::Break,
        ASTNode::ArrayLiteral(v) => NodeView::ArrayLiteral(nodes_view(v)),
    }
}

/// What follows `else`, as a mathematical value.
pub open spec fn else_view(otherwise: Option<Box<ASTNode>>) -> Option<Box<NodeView>>
    decreases otherwise,
{
    match otherwise {
        Some(e) => Some(Box::new(node_view(*e))),
        None => None,
    }
}

/// The trees of a list as mathematical values.
pub open spec fn nodes_view(nodes: Vec<ASTNode>) -> Seq<NodeView>
    decreases nodes,
{
    Seq::new(
        nodes.len() as nat,
        |i: int|
            if 0 <= i < nodes.len() {
                node_view(nodes[i])
            } else {
                NodeView::Null
            },
    )
}

impl View for ASTNode {
    type V = NodeView;

    open spec fn view(&self) -> NodeView {
        node_view(*self)
    }
}

/// A copy of the list of trees.
pub fn clone_nodes(nodes: &Vec<ASTNode>) -> (r: Vec<ASTNode>)
    ensures
        nodes_view(r) == nodes_view(*nodes),
    decreases nodes,
{
    let mut out: Vec<ASTNode> = Vec::new();
    let mut i: usize = 0;
    while i < nodes.len()
        invariant
            i <= nodes.len(),
            out.len() == i,
            forall|k: int| 0 <= k < i ==> node_view(out[k]) == node_view(nodes[k]),
        decreases nodes.len() - i,
    {
        out.push(clone_node(&nodes[i]));
        i += 1;
    }
    assert(nodes_view(out) =~= nodes_view(*nodes));
    out
}

/// A copy of the tree.
pub fn clone_node(node: &ASTNode) -> (r: ASTNode)
    ensures
        r@ == node@,
    decreases node,
{
    match node {
        ASTNode::String(s) => ASTNode::String(s.clone()),
        ASTNode::Number(s) => ASTNode::Number(s.clone()),
        ASTNode::Identifier(s) => ASTNode::Identifier(s.clone()),
        ASTNode::Boolean(b) => ASTNode::Boolean(*b),
        ASTNode::Null => ASTNode::Null,
        ASTNode::ObjectLiteral(p) => ASTNode::ObjectLiteral(
            ObjectLiteralProperties { keys: clone_texts(&p.keys), values: clone_nodes(&p.values) },
        ),
        ASTNode::BlockStatement(v) => ASTNode::BlockStatement(clone_nodes(v)),
        ASTNode::Assignment(b) => ASTNode::Assignment(clone_binary(b)),
        ASTNode::Declaration(d) => ASTNode::Declaration(
            DeclarationProperties { constant: d.constant, assignment: clone_binary(&d.assignment) },
        ),
        ASTNode::BinaryNode(b) => ASTNode::BinaryNode(clone_binary(b)),
        ASTNode::FunctionCall(c) => ASTNode::FunctionCall(
            CallProperties { callee: Box::new(clone_node(&c.callee)), args: clone_nodes(&c.args) },
        ),
        ASTNode::FunctionDefinition(f) => ASTNode::FunctionDefinition(
            FunctionDefinitionProperties {
                name: f.name.clone(),
                args: clone_texts(&f.args),
                body: clone_nodes(&f.body),
            },
        ),
        ASTNode::PropertyAccess(a) => ASTNode::PropertyAccess(
            AccessProperties {
                object: Box::new(clone_node(&a.object)),
                property: Box::new(clone_node(&a.property)),
            },
        ),
        ASTNode::IfStatement(i) => {
            let otherwise: Option<Box<ASTNode>> = match &i.else_exp {
                Some(e) => Some(Box::new(clone_node(e))),
                None => None,
            };
            assert(else_view(otherwise) == else_view(i.else_exp));
            ASTNode::IfStatement(
                IfProperties {
                    check_exp: Box::new(clone_node(&i.check_exp)),
                    body: Box::new(clone_node(&i.body)),
                    else_exp: otherwise,
                },
            )
        },
        ASTNode::ReturnStatement(r) => ASTNode::ReturnStatement(Box::new(clone_node(r))),
        ASTNode::WhileLoop(w) => ASTNode::WhileLoop(
            WhileProperties {
                check: Box::new(clone_node(&w.check)),
                body: Box::new(clone_node(&w.body)),
            },
        ),
        ASTNode::ContinueStatement => ASTNode::ContinueStatement,
        ASTNode::BreakStatement => ASTNode::BreakStatement,
        ASTNode::ArrayLiteral(v) => ASTNode::ArrayLiteral(clone_nodes(v)),
    }
}

/// A copy of the two operands and the operator.
pub fn clone_binary(b: &BinaryProperties) -> (r: BinaryProperties)
    ensures
        node_view(*r.left) == node_view(*b.left),
        r.operator@ == b.operator@,
        node_view(*r.right) == node_view(*b.right),
    decreases b,
{
    BinaryProperties {
        left: Box::new(clone_node(&b.left)),
        operator: b.operator.clone(),
        right: Box::new(clone_node(&b.right)),
    }
}

/// Whether the two lists hold the same trees in the same order.
pub fn nodes_equal(a: &Vec<ASTNode>, b: &Vec<ASTNode>) -> (r: bool)
    ensures
        r == (nodes_view(*a) == nodes_view(*b)),
    decreases a,
{
    if a.len() != b.len() {
        assert(nodes_view(*a).len() != nodes_view(*b).len());
        return false;
    }
    let mut i: usize = 0;
    while i < a.len()
        invariant
            i <= a.len(),
            a.len() == b.len(),
            forall|k: int| 0 <= k < i ==> node_view(a[k]) == node_view(b[k]),
        decreases a.len() - i,
    {
        if !node_equal(&a[i], &b[i]) {
            assert(nodes_view(*a)[i as int] != nodes_view(*b)[i as int]);
            return false;
        }
        i += 1;
    }
    assert(nodes_view(*a) =~= nodes_view(*b));
    true
}

/// Whether the two operations have the same operands and operator.
pub fn binary_equal(a: &BinaryProperties, b: &BinaryProperties) -> (r: bool)
    ensures
        r == (node_view(*a.left) == node_view(*b.left) && a.operator@ == b.operator@ && node_view(
            *a.right,
        ) == node_view(*b.right)),
    decreases a,
{
    node_equal(&a.left, &b.left) && a.operator == b.operator && node_equal(&a.right, &b.right)
}

/// Whether the two trees are the same tree.
pub fn node_equal(a: &ASTNode, b: &ASTNode) -> (r: bool)
    ensures
        r == (a@ == b@),
    decreases a,
{
    match (a, b) {
        (ASTNode::String(x), ASTNode::String(y)) => *x == *y,
        (ASTNode::Number(x), ASTNode::Number(y)) => *x == *y,
        (ASTNode::Identifier(x), ASTNode::Identifier(y)) => *x == *y,
        (ASTNode::Boolean(x), ASTNode::Boolean(y)) => *x == *y,
        (ASTNode::Null, ASTNode::Null) => true,
        (ASTNode::ObjectLiteral(x), ASTNode::ObjectLiteral(y)) => texts_equal(&x.keys, &y.keys)
            && nodes_equal(&x.values, &y.values),
        (ASTNode::BlockStatement(x), ASTNode::BlockStatement(y)) => nodes_equal(x, y),
        (ASTNode::Assignment(x), ASTNode::Assignment(y)) => binary_equal(x, y),
        (ASTNode::Declaration(x), ASTNode::Declaration(y)) => x.constant == y.constant
            && binary_equal(&x.assignment, &y.assignment),
        (ASTNode::BinaryNode(x), ASTNode::BinaryNode(y)) => binary_equal(x, y),
        (ASTNode::FunctionCall(x), ASTNode::FunctionCall(y)) => node_equal(&x.callee, &y.callee)
            && nodes_equal(&x.args, &y.args),
        (ASTNode::FunctionDefinition(x), ASTNode::FunctionDefinition(y)) => x.name == y.name
            && texts_equal(&x.args, &y.args) && nodes_equal(&x.body, &y.body),
        (ASTNode::PropertyAccess(x), ASTNode::PropertyAccess(y)) => node_equal(
            &x.object,
            &y.object,
        ) && node_equal(&x.property, &y.property),
        (ASTNode::IfStatement(x), ASTNode::IfStatement(y)) => {
            let same_else: bool = match (&x.else_exp, &y.else_exp) {
                (Some(p), Some(q)) => node_equal(p, q),
                (None, None) => true,
                _ => false,
            };
            assert(same_else == (else_view(x.else_exp) == else_view(y.else_exp)));
            node_equal(&x.check_exp, &y.check_exp) && node_equal(&x.body, &y.body) && same_else
        },
        (ASTNode::ReturnStatement(x), ASTNode::ReturnStatement(y)) => node_equal(x, y),
        (ASTNode::WhileLoop(x), ASTNode::WhileLoop(y)) => node_equal(&x.check, &y.check)
            && node_equal(&x.body, &y.body),
        (ASTNode::ContinueStatement, ASTNode::ContinueStatement) => true,
        (ASTNode::BreakStatement, ASTNode::BreakStatement) => true,
        (ASTNode::ArrayLiteral(x), ASTNode::ArrayLiteral(y)) => nodes_equal(x, y),
        _ => false,
    }
}

impl PartialEq for ASTNode {
    /// Whether the two trees are the same tree.
    fn eq(&self, other: &ASTNode) -> (r: bool) {
        node_equal(self, other)
    }
}

impl PartialEqSpecImpl for ASTNode {
    open spec fn obeys_eq_spec() -> bool {
        true
    }

    open spec fn eq_spec(&self, other: &ASTNode) -> bool {
        self@ == other@
    }
}

impl Clone for ASTNode {
    /// A copy of the tree.
    fn clone(&self) -> (r: ASTNode)
        ensures
            r@ == self@,
    {
        clone_node(self)
    }
}

} // verus!

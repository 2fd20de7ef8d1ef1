//! Tokens and trees as lines of text, for debugging.

use vstd::prelude::*;
use vstd::string::StringExecFns;
use crate::host::Host;
use crate::host::Console;
use crate::host::HostAnswer;
use crate::host::HostCall;
use crate::host::print_calls;
use crate::parsing::ast_utils::ASTNode;
use crate::parsing::ast_utils::NodeView;
use crate::parsing::ast_utils::node_view;
use crate::parsing::ast_utils::nodes_view;
use crate::parsing::ast_utils::BinaryProperties;
use crate::parsing::ast_utils::ObjectLiteralProperties;
use crate::parsing::ast_utils::CallProperties;
use crate::parsing::ast_utils::AccessProperties;
use crate::parsing::ast_utils::FunctionDefinitionProperties;
use crate::parsing::ast_utils::IfProperties;
use crate::parsing::ast_utils::WhileProperties;
use crate::parsing::ast_utils::else_view;
use crate::parsing::tokens::Token;
use crate::parsing::tokens::TokenView;
use crate::text::texts;
use crate::text::push_text;
use crate::text::decimal;
use crate::text::decimal_text;
use crate::text::string_from_chars;

verus! {

/// The text of a boolean.
pub open spec fn boolean_text(b: bool) -> Seq<char> {
    if b {
        "true"@
    } else {
        "false"@
    }
}

/// The line that describes a token.
pub open spec fn token_line(token: TokenView) -> Seq<char> {
    match token {
        TokenView::Number(s) => "Number: "@ + s,
        TokenView::Text(s) => "String: \""@ + s + "\""@,
        TokenView::Keyword(s) => "Keyword: "@ + s,
        TokenView::Identifier(s) => "Identifier: "@ + s,
        TokenView::Operator(s) => "Operator: "@ + s,
        TokenView::Punctuation(c) => "Punctuation: "@ + seq![c],
        TokenView::Boolean(b) => "Boolean: "@ + boolean_text(b),
        TokenView::Null => "Null literal"@,
    }
}

/// Four spaces for each level of depth.
pub open spec fn indent(depth: nat) -> Seq<char>
    decreases depth,
{
    if depth == 0 {
        Seq::empty()
    } else {
        indent((depth - 1) as nat) + "    "@
    }
}

/// The text behind the indent of its depth.
pub open spec fn at_depth(text: Seq<char>, depth: nat) -> Seq<char> {
    indent(depth) + text
}

/// The depth `by` levels further in, as far as depths go.
pub open spec fn deeper(depth: nat, by: nat) -> nat {
    if depth + by > usize::MAX {
        usize::MAX as nat
    } else {
        depth + by
    }
}

/// The lines that describe an operation, given the lines of its two sides.
pub open spec fn binary_lines(
    left: Seq<Seq<char>>,
    operator: Seq<char>,
    right: Seq<Seq<char>>,
    depth: nat,
) -> Seq<Seq<char>> {
    seq![at_depth("Left:"@, depth)] + left + seq![
        at_depth("Operator: "@ + operator, depth),
        at_depth("Right: "@, depth),
    ] + right
}

/// The lines that describe the trees from position `from` on.
pub open spec fn nodes_lines(nodes: Seq<NodeView>, from: nat, depth: nat) -> Seq<Seq<char>>
    decreases nodes, nodes.len() - from,
{
    if from >= nodes.len() {
        Seq::empty()
    } else {
        node_lines(nodes[from as int], depth) + nodes_lines(nodes, from + 1, depth)
    }
}

/// The lines that describe the texts from position `from` on.
pub open spec fn texts_lines(names: Seq<Seq<char>>, from: nat, depth: nat) -> Seq<Seq<char>>
    decreases names.len() - from,
{
    if from >= names.len() {
        Seq::empty()
    } else {
        seq![at_depth(names[from as int], depth)] + texts_lines(names, from + 1, depth)
    }
}

/// The lines that describe the pairs of an object literal from position
/// `from` on.
pub open spec fn pairs_lines(
    keys: Seq<Seq<char>>,
    values: Seq<NodeView>,
    from: nat,
    depth: nat,
) -> Seq<Seq<char>>
    decreases values, values.len() - from,
{
    if from >= keys.len() || from >= values.len() {
        Seq::empty()
    } else {
        seq![at_depth("Key: \""@ + keys[from as int] + "\", Value:"@, deeper(depth, 1))]
            + node_lines(values[from as int], deeper(depth, 2)) + pairs_lines(
            keys,
            values,
            from + 1,
            depth,
        )
    }
}

/// The lines that describe what follows an `else`, if anything does.
pub open spec fn else_lines(otherwise: Option<Box<NodeView>>, depth: nat) -> Seq<Seq<char>>
    decreases otherwise, 0nat,
{
    match otherwise {
        Some(e) => seq![at_depth("Else statement:"@, deeper(depth, 1))] + node_lines(
            *e,
            deeper(depth, 2),
        ),
        None => Seq::empty(),
    }
}

/// The lines that describe a tree.
pub open spec fn node_lines(node: NodeView, depth: nat) -> Seq<Seq<char>>
    decreases node, 0nat,
{
    let d1 = deeper(depth, 1);
    let d2 = deeper(depth, 2);
    match node {
        NodeView::Declaration { constant, left, operator, right } => seq![
            at_depth("Declaration, constant: "@ + boolean_text(constant), depth),
        ] + binary_lines(
            node_lines(*left, deeper(d1, 1)),
            operator,
            node_lines(*right, deeper(d1, 1)),
            d1,
        ),
        NodeView::Assignment { left, operator, right } => seq![at_depth("Assignment"@, depth)]
            + binary_lines(
            node_lines(*left, deeper(d1, 1)),
            operator,
            node_lines(*right, deeper(d1, 1)),
            d1,
        ),
        NodeView::Text(s) => seq![at_depth("String: \""@ + s + "\""@, depth)],
        NodeView::Number(s) => seq![at_depth("Number: "@ + s, depth)],
        NodeView::Identifier(s) => seq![at_depth("Identifier: \""@ + s + "\""@, depth)],
        NodeView::ObjectLiteral { keys, values } => seq![at_depth("Object literal:"@, depth)]
            + pairs_lines(keys, values, 0, depth),
        NodeView::Block(statements) => seq![at_depth("Block statement:"@, depth)] + nodes_lines(
            statements,
            0,
            d1,
        ),
        NodeView::Binary { left, operator, right } => seq![at_depth("Binary node:"@, depth)]
            + binary_lines(
            node_lines(*left, deeper(d1, 1)),
            operator,
            node_lines(*right, deeper(d1, 1)),
            d1,
        ),
        NodeView::Call { callee, args } => seq![
            at_depth("Function call:"@, depth),
            at_depth("Callee:"@, d1),
        ] + node_lines(*callee, d2) + seq![at_depth("Args:"@, d1)] + nodes_lines(args, 0, d2),
        NodeView::PropertyAccess { object, property } => seq![
            at_depth("Property access:"@, depth),
            at_depth("Object:"@, d1),
        ] + node_lines(*object, d2) + seq![at_depth("Property:"@, d1)] + node_lines(*property, d2),
        NodeView::FunctionDefinition { name, params, statements } => seq![
            at_depth("Function definition - \""@ + name + "\":"@, depth),
            at_depth("Args:"@, d1),
        ] + texts_lines(params, 0, d2) + seq![at_depth("Body:"@, d1)] + nodes_lines(
            statements,
            0,
            d2,
        ),
        NodeView::Boolean(b) => seq![at_depth("Boolean - "@ + boolean_text(b), depth)],
        NodeView::If { check, body, otherwise } => seq![
            at_depth("If Statement:"@, depth),
            at_depth("Condition:"@, d1),
        ] + node_lines(*check, d2) + seq![at_depth("Then statement:"@, d1)] + node_lines(*body, d2)
            + else_lines(otherwise, depth),
        NodeView::Null => seq![at_depth("Null"@, depth)],
        NodeView::Return(value) => seq![at_depth("Return statement:"@, depth)] + node_lines(
            *value,
            d1,
        ),
        NodeView::While { check, body } => seq![
            at_depth("While loop:"@, depth),
            at_depth("Check:"@, d1),
        ] + node_lines(*check, d2) + seq![at_depth("Body:"@, d1)] + node_lines(*body, d2),
        NodeView::Break => seq![at_depth("Break statement"@, depth)],
        NodeView::Continue => seq![at_depth("Continue statement"@, depth)],
        NodeView::ArrayLiteral(items) => seq![
            at_depth("Array (len "@ + decimal(items.len()) + "):"@, depth),
        ] + nodes_lines(items, 0, d1),
    }
}

fn boolean_string(b: bool) -> (r: String)
    ensures
        r@ == boolean_text(b),
{
    if b {
        String::from_str("true")
    } else {
        String::from_str("false")
    }
}

/// The line that describes a token.
pub fn describe_token(tk: &Token) -> (r: String)
    ensures
        r@ == token_line(tk@),
{
    match tk {
        Token::Number(nm) => String::from_str("Number: ").concat(nm.as_str()),
        Token::String(st) => String::from_str("String: \"").concat(st.as_str()).concat("\""),
        Token::Keyword(kw) => String::from_str("Keyword: ").concat(kw.as_str()),
        Token::Identifier(id) => String::from_str("Identifier: ").concat(id.as_str()),
        Token::Operator(op) => String::from_str("Operator: ").concat(op.as_str()),
        Token::Punctuation(pnc) => {
            let mut chars: Vec<char> = Vec::new();
            chars.push(*pnc);
            assert(chars@ =~= seq![*pnc]);
            let mark: String = string_from_chars(&chars);
            String::from_str("Punctuation: ").concat(mark.as_str())
        },
        Token::Boolean(bl) => {
            let text: String = boolean_string(*bl);
            String::from_str("Boolean: ").concat(text.as_str())
        },
        Token::Null => String::from_str("Null literal"),
    }
}

/// Prints the line that describes a token.
pub fn print_token<H: Host>(tk: &Token, console: &mut Console<H>)
    ensures
        final(console)@ == old(console)@.after(HostCall::PrintLine(token_line(tk@))),
        old(console).recorded() ==> final(console).recorded(),
        forall|oracle: Seq<HostAnswer>| #[trigger]
            final(console).heard(oracle) ==> old(console).heard(oracle),
{
    let line: String = describe_token(tk);
    console.print_line(&line);
}

/// The depth `by` levels further in.
fn go_deeper(depth: usize, by: usize) -> (r: usize)
    ensures
        r == deeper(depth as nat, by as nat),
{
    if depth > usize::MAX - by {
        usize::MAX
    } else {
        depth + by
    }
}

/// The text behind the indent of its depth.
fn print_at_depth(s: &str, depth: usize, out: &mut Vec<String>)
    ensures
        texts(*final(out)) == texts(*old(out)).push(at_depth(s@, depth as nat)),
{
    let mut line: String = String::new();
    let mut i: usize = 0;
    assert(line@ =~= indent(0));
    while i < depth
        invariant
            i <= depth,
            line@ == indent(i as nat),
        decreases depth - i,
    {
        line = line.concat("    ");
        i += 1;
    }
    line = line.concat(s);
    push_text(out, line);
}

fn print_binary(bin: &BinaryProperties, depth: usize, out: &mut Vec<String>)
    ensures
        texts(*final(out)) == texts(*old(out)) + binary_lines(
            node_lines(node_view(*bin.left), deeper(depth as nat, 1)),
            bin.operator@,
            node_lines(node_view(*bin.right), deeper(depth as nat, 1)),
            depth as nat,
        ),
    decreases bin, 0nat,
{
    let ghost start = texts(*out);
    print_at_depth("Left:", depth, out);
    print_ast_node(&bin.left, go_deeper(depth, 1), out);
    let operator: String = String::from_str("Operator: ").concat(bin.operator.as_str());
    print_at_depth(operator.as_str(), depth, out);
    print_at_depth("Right: ", depth, out);
    print_ast_node(&bin.right, go_deeper(depth, 1), out);
    assert(texts(*out) =~= start + binary_lines(
        node_lines(node_view(*bin.left), deeper(depth as nat, 1)),
        bin.operator@,
        node_lines(node_view(*bin.right), deeper(depth as nat, 1)),
        depth as nat,
    ));
}

fn print_nodes(nodes: &Vec<ASTNode>, depth: usize, out: &mut Vec<String>)
    ensures
        texts(*final(out)) == texts(*old(out)) + nodes_lines(nodes_view(*nodes), 0, depth as nat),
    decreases nodes, 0nat,
{
    let ghost start = texts(*out);
    let ghost views = nodes_view(*nodes);
    let mut i: usize = 0;
    assert(start + nodes_lines(views, 0, depth as nat) =~= texts(*out) + nodes_lines(
        views,
        0,
        depth as nat,
    ));
    while i < nodes.len()
        invariant
            i <= nodes.len(),
            views == nodes_view(*nodes),
            start + nodes_lines(views, 0, depth as nat) == texts(*out) + nodes_lines(
                views,
                i as nat,
                depth as nat,
            ),
        decreases nodes.len() - i,
    {
        let ghost before = texts(*out);
        print_ast_node(&nodes[i], depth, out);
        assert(texts(*out) + nodes_lines(views, (i + 1) as nat, depth as nat) =~= before
            + nodes_lines(views, i as nat, depth as nat));
        i += 1;
    }
    assert(texts(*out) + nodes_lines(views, i as nat, depth as nat) =~= texts(*out));
}

fn print_texts(names: &Vec<String>, depth: usize, out: &mut Vec<String>)
    ensures
        texts(*final(out)) == texts(*old(out)) + texts_lines(texts(*names), 0, depth as nat),
{
    let ghost start = texts(*out);
    let ghost views = texts(*names);
    let mut i: usize = 0;
    assert(start + texts_lines(views, 0, depth as nat) =~= texts(*out) + texts_lines(
        views,
        0,
        depth as nat,
    ));
    while i < names.len()
        invariant
            i <= names.len(),
            views == texts(*names),
            start + texts_lines(views, 0, depth as nat) == texts(*out) + texts_lines(
                views,
                i as nat,
                depth as nat,
            ),
        decreases names.len() - i,
    {
        let ghost before = texts(*out);
        print_at_depth(names[i].as_str(), depth, out);
        assert(texts(*out) + texts_lines(views, (i + 1) as nat, depth as nat) =~= before
            + texts_lines(views, i as nat, depth as nat));
        i += 1;
    }
    assert(texts(*out) + texts_lines(views, i as nat, depth as nat) =~= texts(*out));
}

fn print_object_literal(obj: &ObjectLiteralProperties, depth: usize, out: &mut Vec<String>)
    ensures
        texts(*final(out)) == texts(*old(out)) + seq![at_depth("Object literal:"@, depth as nat)]
            + pairs_lines(texts(obj.keys), nodes_view(obj.values), 0, depth as nat),
    decreases obj, 0nat,
{
    let ghost start = texts(*out);
    print_at_depth("Object literal:", depth, out);
    let ghost keys = texts(obj.keys);
    let ghost values = nodes_view(obj.values);
    let ghost head = texts(*out);
    let mut i: usize = 0;
    assert(head + pairs_lines(keys, values, 0, depth as nat) =~= texts(*out) + pairs_lines(
        keys,
        values,
        0,
        depth as nat,
    ));
    while i < obj.keys.len() && i < obj.values.len()
        invariant
            keys == texts(obj.keys),
            values == nodes_view(obj.values),
            head + pairs_lines(keys, values, 0, depth as nat) == texts(*out) + pairs_lines(
                keys,
                values,
                i as nat,
                depth as nat,
            ),
        decreases obj.keys.len() - i,
    {
        let ghost before = texts(*out);
        let key: String = String::from_str("Key: \"").concat(obj.keys[i].as_str()).concat(
            "\", Value:",
        );
        print_at_depth(key.as_str(), go_deeper(depth, 1), out);
        print_ast_node(&obj.values[i], go_deeper(depth, 2), out);
        assert(texts(*out) + pairs_lines(keys, values, (i + 1) as nat, depth as nat) =~= before
            + pairs_lines(keys, values, i as nat, depth as nat));
        i += 1;
    }
    assert(texts(*out) + pairs_lines(keys, values, i as nat, depth as nat) =~= texts(*out));
    assert(texts(*out) =~= start + seq![at_depth("Object literal:"@, depth as nat)] + pairs_lines(
        keys,
        values,
        0,
        depth as nat,
    ));
}

fn print_call(fnc: &CallProperties, depth: usize, out: &mut Vec<String>)
    ensures
        texts(*final(out)) == texts(*old(out)) + seq![
            at_depth("Function call:"@, depth as nat),
            at_depth("Callee:"@, deeper(depth as nat, 1)),
        ] + node_lines(node_view(*fnc.callee), deeper(depth as nat, 2)) + seq![
            at_depth("Args:"@, deeper(depth as nat, 1)),
        ] + nodes_lines(nodes_view(fnc.args), 0, deeper(depth as nat, 2)),
    decreases fnc, 0nat,
{
    let ghost start = texts(*out);
    let d1: usize = go_deeper(depth, 1);
    let d2: usize = go_deeper(depth, 2);
    print_at_depth("Function call:", depth, out);
    print_at_depth("Callee:", d1, out);
    print_ast_node(&fnc.callee, d2, out);
    print_at_depth("Args:", d1, out);
    print_nodes(&fnc.args, d2, out);
    assert(texts(*out) =~= start + seq![
        at_depth("Function call:"@, depth as nat),
        at_depth("Callee:"@, deeper(depth as nat, 1)),
    ] + node_lines(node_view(*fnc.callee), deeper(depth as nat, 2)) + seq![
        at_depth("Args:"@, deeper(depth as nat, 1)),
    ] + nodes_lines(nodes_view(fnc.args), 0, deeper(depth as nat, 2)));
}

fn print_access(prp: &AccessProperties, depth: usize, out: &mut Vec<String>)
    ensures
        texts(*final(out)) == texts(*old(out)) + seq![
            at_depth("Property access:"@, depth as nat),
            at_depth("Object:"@, deeper(depth as nat, 1)),
        ] + node_lines(node_view(*prp.object), deeper(depth as nat, 2)) + seq![
            at_depth("Property:"@, deeper(depth as nat, 1)),
        ] + node_lines(node_view(*prp.property), deeper(depth as nat, 2)),
    decreases prp, 0nat,
{
    let ghost start = texts(*out);
    let d1: usize = go_deeper(depth, 1);
    let d2: usize = go_deeper(depth, 2);
    print_at_depth("Property access:", depth, out);
    print_at_depth("Object:", d1, out);
    print_ast_node(&prp.object, d2, out);
    print_at_depth("Property:", d1, out);
    print_ast_node(&prp.property, d2, out);
    assert(texts(*out) =~= start + seq![
        at_depth("Property access:"@, depth as nat),
        at_depth("Object:"@, deeper(depth as nat, 1)),
    ] + node_lines(node_view(*prp.object), deeper(depth as nat, 2)) + seq![
        at_depth("Property:"@, deeper(depth as nat, 1)),
    ] + node_lines(node_view(*prp.property), deeper(depth as nat, 2)));
}

fn print_function_definition(fd: &FunctionDefinitionProperties, depth: usize, out: &mut Vec<String>)
    ensures
        texts(*final(out)) == texts(*old(out)) + seq![
            at_depth("Function definition - \""@ + fd.name@ + "\":"@, depth as nat),
            at_depth("Args:"@, deeper(depth as nat, 1)),
        ] + texts_lines(texts(fd.args), 0, deeper(depth as nat, 2)) + seq![
            at_depth("Body:"@, deeper(depth as nat, 1)),
        ] + nodes_lines(nodes_view(fd.body), 0, deeper(depth as nat, 2)),
    decreases fd, 0nat,
{
    let ghost start = texts(*out);
    let d1: usize = go_deeper(depth, 1);
    let d2: usize = go_deeper(depth, 2);
    let head: String = String::from_str("Function definition - \"").concat(
        fd.name.as_str(),
    ).concat("\":");
    print_at_depth(head.as_str(), depth, out);
    print_at_depth("Args:", d1, out);
    print_texts(&fd.args, d2, out);
    print_at_depth("Body:", d1, out);
    print_nodes(&fd.body, d2, out);
    assert(texts(*out) =~= start + seq![
        at_depth("Function definition - \""@ + fd.name@ + "\":"@, depth as nat),
        at_depth("Args:"@, deeper(depth as nat, 1)),
    ] + texts_lines(texts(fd.args), 0, deeper(depth as nat, 2)) + seq![
        at_depth("Body:"@, deeper(depth as nat, 1)),
    ] + nodes_lines(nodes_view(fd.body), 0, deeper(depth as nat, 2)));
}

fn print_if(istmt: &IfProperties, depth: usize, out: &mut Vec<String>)
    ensures
        texts(*final(out)) == texts(*old(out)) + seq![
            at_depth("If Statement:"@, depth as nat),
            at_depth("Condition:"@, deeper(depth as nat, 1)),
        ] + node_lines(node_view(*istmt.check_exp), deeper(depth as nat, 2)) + seq![
            at_depth("Then statement:"@, deeper(depth as nat, 1)),
        ] + node_lines(node_view(*istmt.body), deeper(depth as nat, 2)) + else_lines(
            else_view(istmt.else_exp),
            depth as nat,
        ),
    decreases istmt, 0nat,
{
    let ghost start = texts(*out);
    let d1: usize = go_deeper(depth, 1);
    let d2: usize = go_deeper(depth, 2);
    print_at_depth("If Statement:", depth, out);
    print_at_depth("Condition:", d1, out);
    print_ast_node(&istmt.check_exp, d2, out);
    print_at_depth("Then statement:", d1, out);
    print_ast_node(&istmt.body, d2, out);
    let ghost middle = texts(*out);
    assert(middle =~= start + seq![
        at_depth("If Statement:"@, depth as nat),
        at_depth("Condition:"@, deeper(depth as nat, 1)),
    ] + node_lines(node_view(*istmt.check_exp), deeper(depth as nat, 2)) + seq![
        at_depth("Then statement:"@, deeper(depth as nat, 1)),
    ] + node_lines(node_view(*istmt.body), deeper(depth as nat, 2)));
    match &istmt.else_exp {
        Some(els) => {
            print_at_depth("Else statement:", d1, out);
            print_ast_node(els, d2, out);
            assert(texts(*out) =~= middle + else_lines(else_view(istmt.else_exp), depth as nat));
        },
        None => {
            assert(texts(*out) =~= middle + else_lines(else_view(istmt.else_exp), depth as nat));
        },
    }
}

fn print_while(wl: &WhileProperties, depth: usize, out: &mut Vec<String>)
    ensures
        texts(*final(out)) == texts(*old(out)) + seq![
            at_depth("While loop:"@, depth as nat),
            at_depth("Check:"@, deeper(depth as nat, 1)),
        ] + node_lines(node_view(*wl.check), deeper(depth as nat, 2)) + seq![
            at_depth("Body:"@, deeper(depth as nat, 1)),
        ] + node_lines(node_view(*wl.body), deeper(depth as nat, 2)),
    decreases wl, 0nat,
{
    let ghost start = texts(*out);
    let d1: usize = go_deeper(depth, 1);
    let d2: usize = go_deeper(depth, 2);
    print_at_depth("While loop:", depth, out);
    print_at_depth("Check:", d1, out);
    print_ast_node(&wl.check, d2, out);
    print_at_depth("Body:", d1, out);
    print_ast_node(&wl.body, d2, out);
    assert(texts(*out) =~= start + seq![
        at_depth("While loop:"@, depth as nat),
        at_depth("Check:"@, deeper(depth as nat, 1)),
    ] + node_lines(node_view(*wl.check), deeper(depth as nat, 2)) + seq![
        at_depth("Body:"@, deeper(depth as nat, 1)),
    ] + node_lines(node_view(*wl.body), deeper(depth as nat, 2)));
}

/// Adds `head` at `depth` and the lines of an operation below it.
fn print_operation(head: &str, bin: &BinaryProperties, depth: usize, out: &mut Vec<String>)
    ensures
        texts(*final(out)) == texts(*old(out)) + seq![at_depth(head@, depth as nat)]
            + binary_lines(
            node_lines(node_view(*bin.left), deeper(deeper(depth as nat, 1), 1)),
            bin.operator@,
            node_lines(node_view(*bin.right), deeper(deeper(depth as nat, 1), 1)),
            deeper(depth as nat, 1),
        ),
    decreases bin, 1nat,
{
    let ghost start = texts(*out);
    print_at_depth(head, depth, out);
    print_binary(bin, go_deeper(depth, 1), out);
    assert(texts(*out) =~= start + seq![at_depth(head@, depth as nat)] + binary_lines(
        node_lines(node_view(*bin.left), deeper(deeper(depth as nat, 1), 1)),
        bin.operator@,
        node_lines(node_view(*bin.right), deeper(deeper(depth as nat, 1), 1)),
        deeper(depth as nat, 1),
    ));
}

/// Adds `head` at `depth` and the lines of the trees one level below it.
fn print_list(head: &str, nodes: &Vec<ASTNode>, depth: usize, out: &mut Vec<String>)
    ensures
        texts(*final(out)) == texts(*old(out)) + seq![at_depth(head@, depth as nat)] + nodes_lines(
            nodes_view(*nodes),
            0,
            deeper(depth as nat, 1),
        ),
    decreases nodes, 1nat,
{
    let ghost start = texts(*out);
    print_at_depth(head, depth, out);
    print_nodes(nodes, go_deeper(depth, 1), out);
    assert(texts(*out) =~= start + seq![at_depth(head@, depth as nat)] + nodes_lines(
        nodes_view(*nodes),
        0,
        deeper(depth as nat, 1),
    ));
}

/// The line that describes a tree without branches.
fn leaf_line(node: &ASTNode) -> (r: Option<String>)
    ensures
        match node@ {
            NodeView::Text(s) => r is Some && r->Some_0@ == "String: \""@ + s + "\""@,
            NodeView::Number(s) => r is Some && r->Some_0@ == "Number: "@ + s,
            NodeView::Identifier(s) => r is Some && r->Some_0@ == "Identifier: \""@ + s + "\""@,
            NodeView::Boolean(b) => r is Some && r->Some_0@ == "Boolean - "@ + boolean_text(b),
            NodeView::Null => r is Some && r->Some_0@ == "Null"@,
            NodeView::Break => r is Some && r->Some_0@ == "Break statement"@,
            NodeView::Continue => r is Some && r->Some_0@ == "Continue statement"@,
            _ => r is None,
        },
{
    match node {
        ASTNode::String(st) => Some(
            String::from_str("String: \"").concat(st.as_str()).concat("\""),
        ),
        ASTNode::Number(n) => Some(String::from_str("Number: ").concat(n.as_str())),
        ASTNode::Identifier(id) => Some(
            String::from_str("Identifier: \"").concat(id.as_str()).concat("\""),
        ),
        ASTNode::Boolean(bl) => {
            let text: String = boolean_string(*bl);
            Some(String::from_str("Boolean - ").concat(text.as_str()))
        },
        ASTNode::Null => Some(String::from_str("Null")),
        ASTNode::BreakStatement => Some(String::from_str("Break statement")),
        ASTNode::ContinueStatement => Some(String::from_str("Continue statement")),
        _ => None,
    }
}

/// Adds the lines that describe a tree to `out`.
pub fn print_ast_node(node: &ASTNode, depth: usize, out: &mut Vec<String>)
    ensures
        texts(*final(out)) == texts(*old(out)) + node_lines(node@, depth as nat),
    decreases node, 2nat,
{
    let ghost start = texts(*out);
    match leaf_line(node) {
        Some(line) => {
            print_at_depth(line.as_str(), depth, out);
            assert(texts(*out) =~= start + node_lines(node@, depth as nat));
            return ;
        },
        None => {},
    }
    match node {
        ASTNode::Declaration(dec) => {
            let text: String = boolean_string(dec.constant);
            let head: String = String::from_str("Declaration, constant: ").concat(text.as_str());
            print_operation(head.as_str(), &dec.assignment, depth, out);
        },
        ASTNode::Assignment(asn) => {
            print_operation("Assignment", asn, depth, out);
        },
        ASTNode::ObjectLiteral(obj) => {
            print_object_literal(obj, depth, out);
        },
        ASTNode::BlockStatement(bs) => {
            print_list("Block statement:", bs, depth, out);
        },
        ASTNode::BinaryNode(bn) => {
            print_operation("Binary node:", bn, depth, out);
        },
        ASTNode::FunctionCall(fnc) => {
            print_call(fnc, depth, out);
        },
        ASTNode::PropertyAccess(prp) => {
            print_access(prp, depth, out);
        },
        ASTNode::FunctionDefinition(fd) => {
            print_function_definition(fd, depth, out);
        },
        ASTNode::IfStatement(istmt) => {
            print_if(istmt, depth, out);
        },
        ASTNode::ReturnStatement(rs) => {
            print_at_depth("Return statement:", depth, out);
            print_ast_node(rs, go_deeper(depth, 1), out);
        },
        ASTNode::WhileLoop(wl) => {
            print_while(wl, depth, out);
        },
        ASTNode::ArrayLiteral(items) => {
            let count: String = decimal_text(items.len());
            let head: String = String::from_str("Array (len ").concat(count.as_str()).concat("):");
            print_list(head.as_str(), items, depth, out);
        },
        _ => {},
    }
    assert(texts(*out) =~= start + node_lines(node@, depth as nat));
}

/// The lines that describe the trees of a program.
pub fn describe_ast(ast: &Vec<ASTNode>) -> (r: Vec<String>)
    ensures
        texts(r) == nodes_lines(nodes_view(*ast), 0, 0),
{
    let mut out: Vec<String> = Vec::new();
    assert(texts(out) =~= Seq::<Seq<char>>::empty());
    print_nodes(ast, 0, &mut out);
    assert(texts(out) =~= nodes_lines(nodes_view(*ast), 0, 0));
    out
}

/// Prints the lines, one after the other.
pub fn print_lines<H: Host>(lines: &Vec<String>, console: &mut Console<H>)
    ensures
        final(console)@.calls == old(console)@.calls + print_calls(texts(*lines)),
        old(console).recorded() ==> final(console).recorded(),
        forall|oracle: Seq<HostAnswer>| #[trigger]
            final(console).heard(oracle) ==> old(console).heard(oracle),
{
    let mut i: usize = 0;
    assert(old(console)@.calls + print_calls(texts(*lines).take(0)) =~= console@.calls);
    while i < lines.len()
        invariant
            i <= lines.len(),
            console@.calls == old(console)@.calls + print_calls(texts(*lines).take(i as int)),
            old(console).recorded() ==> console.recorded(),
            forall|oracle: Seq<HostAnswer>| #[trigger]
                console.heard(oracle) ==> old(console).heard(oracle),
        decreases lines.len() - i,
    {
        console.print_line(&lines[i]);
        assert(old(console)@.calls + print_calls(texts(*lines).take(i + 1)) =~= (
            old(console)@.calls + print_calls(texts(*lines).take(i as int))).push(
            HostCall::PrintLine(lines[i as int]@),
        ));
        i += 1;
    }
    assert(texts(*lines).take(i as int) =~= texts(*lines));
}

/// Prints the lines that describe the trees of a program.
pub fn print_ast<H: Host>(ast: &Vec<ASTNode>, console: &mut Console<H>)
    ensures
        final(console)@.calls == old(console)@.calls + print_calls(
            nodes_lines(nodes_view(*ast), 0, 0),
        ),
        old(console).recorded() ==> final(console).recorded(),
        forall|oracle: Seq<HostAnswer>| #[trigger]
            final(console).heard(oracle) ==> old(console).heard(oracle),
{
    let lines: Vec<String> = describe_ast(ast);
    print_lines(&lines, console);
}

} // verus!

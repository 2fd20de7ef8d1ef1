//! The heap and the scope stack as lines of text, for debugging.

use vstd::prelude::*;
use vstd::string::StringExecFns;
use crate::host::Host;
use crate::host::Console;
use crate::host::ConsoleView;
use crate::host::HostAnswer;
use crate::host::HostCall;
use crate::host::formatted_at;
use crate::host::print_calls;
use crate::interpretting::interpreter_utils::KaffeeValue;
use crate::interpretting::interpreter_utils::ValueView;
use crate::interpretting::interpreter_utils::SlotView;
use crate::interpretting::variables::Variables;
use crate::interpretting::variables::Scope;
use crate::parsing::ast_utils::nodes_view;
use crate::parsing::printer::boolean_text;
use crate::text::texts;
use crate::text::push_text;
use crate::text::decimal;
use crate::text::decimal_text;

verus! {

broadcast use vstd::std_specs::hash::group_hash_axioms;

/// One line for each index from position `from` on, each behind a line
/// feed.
pub open spec fn indices_text(indices: Seq<usize>, from: nat) -> Seq<char>
    decreases indices.len() - from,
{
    if from >= indices.len() {
        Seq::empty()
    } else {
        "\n    - "@ + decimal(indices[from as int] as nat) + indices_text(indices, from + 1)
    }
}

/// One line for each pair of a key index and a value index from position
/// `from` on, each behind a line feed.
pub open spec fn pairs_text(keys: Seq<usize>, values: Seq<usize>, from: nat) -> Seq<char>
    decreases keys.len() - from,
{
    if from >= keys.len() || from >= values.len() {
        Seq::empty()
    } else {
        "\n    - "@ + decimal(keys[from as int] as nat) + " - "@ + decimal(
            values[from as int] as nat,
        ) + pairs_text(keys, values, from + 1)
    }
}

/// The text that describes a value, and the console after it has been
/// made: the text of a number is asked of the host.
pub open spec fn value_text(console: ConsoleView, value: ValueView, oracle: Seq<HostAnswer>) -> (
    ConsoleView,
    Seq<char>,
) {
    match value {
        ValueView::Number(bits) => (
            console.after(HostCall::FormatNumber(bits)),
            "Number: "@ + formatted_at(oracle, console.asked()),
        ),
        ValueView::Text(s) => (console, "String: \""@ + s + "\""@),
        ValueView::Native { name, arg_count, func } => (
            console,
            "NativeFunction: \""@ + name + "\" - "@ + decimal(arg_count as nat) + " args"@,
        ),
        ValueView::Function { params, statements } => (
            console,
            "Function: "@ + decimal(params.len()) + " args, "@ + decimal(statements.len())
                + " body nodes"@,
        ),
        ValueView::Object { keys, values } => (console, "Object:"@ + pairs_text(keys, values, 0)),
        ValueView::Array(items) => (console, "Array:"@ + indices_text(items, 0)),
        ValueView::Boolean(b) => (console, "Boolean: "@ + boolean_text(b)),
        ValueView::Null => (console, "Null"@),
    }
}

/// The console after the slots with the indices from `from` up to `upto`
/// have been printed, in rising order, each as its index and the text of
/// its value.
pub open spec fn heap_printed(
    console: ConsoleView,
    heap: Map<usize, SlotView>,
    from: nat,
    upto: nat,
    oracle: Seq<HostAnswer>,
) -> ConsoleView
    decreases upto - from,
{
    if from >= upto {
        console
    } else if heap.contains_key(from as usize) {
        let (described, text) = value_text(console, heap[from as usize].value, oracle);
        heap_printed(
            described.after(HostCall::PrintLine(decimal(from) + " - "@ + text)),
            heap,
            from + 1,
            upto,
            oracle,
        )
    } else {
        heap_printed(console, heap, from + 1, upto, oracle)
    }
}

/// The lines that describe the bindings of a scope from position `from` on.
pub open spec fn bindings_lines(scope: Scope, from: nat) -> Seq<Seq<char>>
    decreases scope.bindings.len() - from,
{
    if from >= scope.bindings.len() {
        Seq::empty()
    } else {
        seq![
            " - \""@ + scope.bindings[from as int].name@ + "\" - "@ + decimal(
                scope.bindings[from as int].index as nat,
            ),
        ] + bindings_lines(scope, from + 1)
    }
}

/// The lines that describe the scopes from position `from` on, outermost
/// first.
pub open spec fn scopes_lines(stack: Seq<Scope>, from: nat) -> Seq<Seq<char>>
    decreases stack.len() - from,
{
    if from >= stack.len() {
        Seq::empty()
    } else {
        seq!["Scope frame "@ + decimal(from) + ":"@] + bindings_lines(stack[from as int], 0)
            + scopes_lines(stack, from + 1)
    }
}

fn indices_string(indices: &Vec<usize>) -> (r: String)
    ensures
        r@ == indices_text(indices@, 0),
{
    let mut out: String = String::new();
    let mut i: usize = 0;
    assert(out@ + indices_text(indices@, 0) =~= indices_text(indices@, 0));
    while i < indices.len()
        invariant
            i <= indices.len(),
            indices_text(indices@, 0) == out@ + indices_text(indices@, i as nat),
        decreases indices.len() - i,
    {
        let ghost before = out@;
        let number: String = decimal_text(indices[i]);
        out = out.concat("\n    - ").concat(number.as_str());
        assert(out@ + indices_text(indices@, (i + 1) as nat) =~= before + indices_text(
            indices@,
            i as nat,
        ));
        i += 1;
    }
    assert(out@ + indices_text(indices@, i as nat) =~= out@);
    out
}

fn pairs_string(keys: &Vec<usize>, values: &Vec<usize>) -> (r: String)
    ensures
        r@ == pairs_text(keys@, values@, 0),
{
    let mut out: String = String::new();
    let mut i: usize = 0;
    assert(out@ + pairs_text(keys@, values@, 0) =~= pairs_text(keys@, values@, 0));
    while i < keys.len() && i < values.len()
        invariant
            pairs_text(keys@, values@, 0) == out@ + pairs_text(keys@, values@, i as nat),
        decreases keys.len() - i,
    {
        let ghost before = out@;
        let key: String = decimal_text(keys[i]);
        let value: String = decimal_text(values[i]);
        out = out.concat("\n    - ").concat(key.as_str()).concat(" - ").concat(value.as_str());
        assert(out@ + pairs_text(keys@, values@, (i + 1) as nat) =~= before + pairs_text(
            keys@,
            values@,
            i as nat,
        ));
        i += 1;
    }
    assert(out@ + pairs_text(keys@, values@, i as nat) =~= out@);
    out
}

/// The text that describes a value.
pub fn describe_value<H: Host>(value: &KaffeeValue, console: &mut Console<H>) -> (r: String)
    ensures
        old(console).recorded() ==> final(console).recorded(),
        old(console).recorded() ==> value_text(
            old(console)@,
            value@,
            final(console).answers@,
        ) == (final(console)@, r@),
        forall|oracle: Seq<HostAnswer>| #[trigger]
            final(console).heard(oracle) ==> old(console).heard(oracle) && value_text(
                old(console)@,
                value@,
                oracle,
            ) == (final(console)@, r@),
{
    match value {
        KaffeeValue::Number(n) => {
            let text: String = console.format_number(*n);
            String::from_str("Number: ").concat(text.as_str())
        },
        KaffeeValue::String(s) => String::from_str("String: \"").concat(s.as_str()).concat("\""),
        KaffeeValue::NativeFunction(nm) => {
            let count: String = decimal_text(nm.arg_count);
            String::from_str("NativeFunction: \"").concat(nm.name.as_str()).concat("\" - ").concat(
                count.as_str(),
            ).concat(" args")
        },
        KaffeeValue::Function(f) => {
            let args: String = decimal_text(f.args.len());
            let body: String = decimal_text(f.body.len());
            assert(texts(f.args).len() == f.args.len());
            assert(nodes_view(f.body).len() == f.body.len());
            String::from_str("Function: ").concat(args.as_str()).concat(" args, ").concat(
                body.as_str(),
            ).concat(" body nodes")
        },
        KaffeeValue::Object(ov) => {
            let pairs: String = pairs_string(&ov.keys, &ov.values);
            String::from_str("Object:").concat(pairs.as_str())
        },
        KaffeeValue::Array(it) => {
            let items: String = indices_string(it);
            String::from_str("Array:").concat(items.as_str())
        },
        KaffeeValue::Boolean(bl) => {
            if *bl {
                String::from_str("Boolean: ").concat("true")
            } else {
                String::from_str("Boolean: ").concat("false")
            }
        },
        KaffeeValue::Null => String::from_str("Null"),
    }
}

/// The lines that describe the bindings of a scope.
fn describe_bindings(scope: &Scope, out: &mut Vec<String>)
    ensures
        texts(*final(out)) == texts(*old(out)) + bindings_lines(*scope, 0),
{
    let ghost start = texts(*out);
    let mut i: usize = 0;
    assert(start + bindings_lines(*scope, 0) =~= texts(*out) + bindings_lines(*scope, 0));
    while i < scope.bindings.len()
        invariant
            i <= scope.bindings.len(),
            start + bindings_lines(*scope, 0) == texts(*out) + bindings_lines(*scope, i as nat),
        decreases scope.bindings.len() - i,
    {
        let ghost before = texts(*out);
        let index: String = decimal_text(scope.bindings[i].index);
        let line: String = String::from_str(" - \"").concat(scope.bindings[i].name.as_str()).concat(
            "\" - ",
        ).concat(index.as_str());
        push_text(out, line);
        assert(texts(*out) + bindings_lines(*scope, (i + 1) as nat) =~= before + bindings_lines(
            *scope,
            i as nat,
        ));
        i += 1;
    }
    assert(texts(*out) + bindings_lines(*scope, i as nat) =~= texts(*out));
}

impl Variables {
    /// Prints every slot of the heap, in the order of the indices.
    pub fn print_allocced<H: Host>(&self, console: &mut Console<H>)
        ensures
            old(console).recorded() ==> final(console).recorded(),
            old(console).recorded() ==> heap_printed(
                old(console)@,
                self@.heap,
                0,
                self@.next as nat,
                final(console).answers@,
            ) == final(console)@,
            forall|oracle: Seq<HostAnswer>| #[trigger]
                final(console).heard(oracle) ==> old(console).heard(oracle) && heap_printed(
                    old(console)@,
                    self@.heap,
                    0,
                    self@.next as nat,
                    oracle,
                ) == final(console)@,
    {
        let mut i: usize = 0;
        while i < self.alloc_index
            invariant
                i <= self.alloc_index,
                old(console).recorded() ==> console.recorded(),
                forall|oracle: Seq<HostAnswer>| #[trigger]
                    console.heard(oracle) ==> old(console).heard(oracle) && heap_printed(
                        old(console)@,
                        self@.heap,
                        0,
                        self@.next as nat,
                        oracle,
                    ) == heap_printed(console@, self@.heap, i as nat, self@.next as nat, oracle),
            decreases self.alloc_index - i,
        {
            match self.alloced.get(&i) {
                Some(slot) => {
                    let text: String = describe_value(&slot.value, console);
                    let index: String = decimal_text(i);
                    let line: String = index.concat(" - ").concat(text.as_str());
                    console.print_line(&line);
                },
                None => {},
            }
            i += 1;
        }
    }

    /// The lines that describe the scope stack, outermost scope first.
    pub fn describe_scopestack(&self) -> (r: Vec<String>)
        ensures
            texts(r) == scopes_lines(self.scopestack@, 0),
    {
        let mut out: Vec<String> = Vec::new();
        let mut i: usize = 0;
        assert(texts(out) =~= Seq::<Seq<char>>::empty());
        assert(scopes_lines(self.scopestack@, 0) =~= texts(out) + scopes_lines(
            self.scopestack@,
            0,
        ));
        while i < self.scopestack.len()
            invariant
                i <= self.scopestack.len(),
                scopes_lines(self.scopestack@, 0) == texts(out) + scopes_lines(
                    self.scopestack@,
                    i as nat,
                ),
            decreases self.scopestack.len() - i,
        {
            let ghost before = texts(out);
            let number: String = decimal_text(i);
            let head: String = String::from_str("Scope frame ").concat(number.as_str()).concat(":");
            push_text(&mut out, head);
            describe_bindings(&self.scopestack[i], &mut out);
            assert(texts(out) + scopes_lines(self.scopestack@, (i + 1) as nat) =~= before
                + scopes_lines(self.scopestack@, i as nat));
            i += 1;
        }
        assert(texts(out) + scopes_lines(self.scopestack@, i as nat) =~= texts(out));
        out
    }

    /// Prints the scope stack, outermost scope first.
    pub fn print_scopestack<H: Host>(&self, console: &mut Console<H>)
        ensures
            final(console)@.calls == old(console)@.calls + print_calls(
                scopes_lines(self.scopestack@, 0),
            ),
            old(console).recorded() ==> final(console).recorded(),
            forall|oracle: Seq<HostAnswer>| #[trigger]
                final(console).heard(oracle) ==> old(console).heard(oracle),
    {
        let lines: Vec<String> = self.describe_scopestack();
        crate::parsing::printer::print_lines(&lines, console);
    }
}

} // verus!

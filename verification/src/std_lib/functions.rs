//! The native functions: `println`, `stringify`, `len`, `append`, `input`.

use vstd::prelude::*;
use vstd::string::StringExecFns;
use vstd::string::StrSliceExecFns;
use crate::errors::RuntimeError;
use crate::host::Host;
use crate::host::Console;
use crate::host::ConsoleView;
use crate::host::HostAnswer;
use crate::host::HostCall;
use crate::host::formatted_at;
use crate::host::line_at;
use crate::number::Number;
use crate::number::bits_of_count;
use crate::interpretting::interpreter_utils::KaffeeValue;
use crate::interpretting::interpreter_utils::ValueView;
use crate::interpretting::interpreter_utils::SlotView;
use crate::interpretting::interpreter_utils::NativeMapping;
use crate::interpretting::interpreter_utils::NativeFunction;
use crate::interpretting::interpreter_utils::clone_indices;
use crate::interpretting::interpreter_utils::value_result;
use crate::interpretting::interpreter_utils::values_view;
use crate::interpretting::variables::Variables;
use crate::interpretting::variables::VariablesView;
use crate::interpretting::semantics::World;

verus! {

/// A line without the line feed at its end, if it has one.
pub open spec fn without_line_end(line: Seq<char>) -> Seq<char> {
    if line.len() > 0 && line.last() == '\n' {
        line.drop_last()
    } else {
        line
    }
}

/// The text of a value, and what the console is like afterwards, when the
/// host answers as `oracle` does. Numbers, strings and booleans have a text.
pub open spec fn text_of(console: ConsoleView, value: ValueView, oracle: Seq<HostAnswer>) -> (
    ConsoleView,
    Result<Seq<char>, RuntimeError>,
) {
    match value {
        ValueView::Number(bits) => (
            console.after(HostCall::FormatNumber(bits)),
            Ok(formatted_at(oracle, console.asked())),
        ),
        ValueView::Text(s) => (console, Ok(s)),
        ValueView::Boolean(b) => (
            console,
            Ok(
                if b {
                    "true"@
                } else {
                    "false"@
                },
            ),
        ),
        _ => (console, Err(RuntimeError::Unstringifyable)),
    }
}

/// How many arguments the native function reads.
pub open spec fn native_arity(func: NativeFunction) -> nat {
    match func {
        NativeFunction::Println => 1,
        NativeFunction::Stringify => 1,
        NativeFunction::Len => 1,
        NativeFunction::Append => 2,
        NativeFunction::Input => 0,
    }
}

/// What a call of the native function gives and does, when the host answers
/// as `oracle` does.
pub open spec fn native_result(
    world: World,
    func: NativeFunction,
    args: Seq<ValueView>,
    oracle: Seq<HostAnswer>,
) -> (World, Result<ValueView, RuntimeError>) {
    if args.len() < native_arity(func) {
        (world, Err(RuntimeError::ArityMismatch))
    } else {
        match func {
            NativeFunction::Println => {
                let (console, text) = text_of(world.console, args[0], oracle);
                match text {
                    Err(e) => (World { console, ..world }, Err(e)),
                    Ok(line) => (
                        World {
                            console: console.after(HostCall::PrintLine(line)),
                            ..world
                        },
                        Ok(ValueView::Null),
                    ),
                }
            },
            NativeFunction::Stringify => {
                let (console, text) = text_of(world.console, args[0], oracle);
                match text {
                    Err(e) => (World { console, ..world }, Err(e)),
                    Ok(s) => (World { console, ..world }, Ok(ValueView::Text(s))),
                }
            },
            NativeFunction::Len => match args[0] {
                ValueView::Text(s) => (
                    world,
                    Ok(ValueView::Number(bits_of_count(s.len() as u64))),
                ),
                ValueView::Array(items) => (
                    world,
                    Ok(ValueView::Number(bits_of_count(items.len() as u64))),
                ),
                _ => (world, Err(RuntimeError::NoLength)),
            },
            NativeFunction::Append => match args[0] {
                ValueView::Array(items) => if world.vars.next == usize::MAX {
                    (world, Err(RuntimeError::HeapExhausted))
                } else {
                    (
                        World {
                            vars: VariablesView {
                                heap: world.vars.heap.insert(
                                    world.vars.next,
                                    SlotView { value: args[1], constant: false },
                                ),
                                next: (world.vars.next + 1) as usize,
                                ..world.vars
                            },
                            ..world
                        },
                        Ok(ValueView::Array(items.push(world.vars.next))),
                    )
                },
                _ => (world, Err(RuntimeError::InvalidAppendTarget)),
            },
            NativeFunction::Input => (
                World {
                    console: world.console.after(HostCall::ReadLine),
                    ..world
                },
                Ok(ValueView::Text(without_line_end(line_at(oracle, world.console.asked())))),
            ),
        }
    }
}

/// The text of a number, a string or a boolean.
fn rust_stringify<H: Host>(value: &KaffeeValue, console: &mut Console<H>) -> (r: Result<
    String,
    RuntimeError,
>)
    ensures
        old(console).recorded() ==> final(console).recorded(),
        old(console).recorded() ==> text_of(
            old(console)@,
            value@,
            final(console).answers@,
        ) == (
            final(console)@,
            match r {
                Ok(s) => Ok::<Seq<char>, RuntimeError>(s@),
                Err(e) => Err(e),
            },
        ),
        forall|oracle: Seq<HostAnswer>| #[trigger]
            final(console).heard(oracle) ==> old(console).heard(oracle) && text_of(
                old(console)@,
                value@,
                oracle,
            ) == (
                final(console)@,
                match r {
                    Ok(s) => Ok::<Seq<char>, RuntimeError>(s@),
                    Err(e) => Err(e),
                },
            ),
{
    match value {
        KaffeeValue::Number(n) => Ok(console.format_number(*n)),
        KaffeeValue::String(s) => Ok(s.clone()),
        KaffeeValue::Boolean(b) => {
            if *b {
                Ok(String::from_str("true"))
            } else {
                Ok(String::from_str("false"))
            }
        },
        _ => Err(RuntimeError::Unstringifyable),
    }
}

/// The line without the line feed at its end.
pub fn strip_line_end(line: String) -> (r: String)
    ensures
        r@ == without_line_end(line@),
{
    let n: usize = line.as_str().unicode_len();
    if n > 0 && line.as_str().get_char(n - 1) == '\n' {
        let r = String::from_str(line.as_str().substring_char(0, n - 1));
        assert(r@ =~= line@.drop_last());
        r
    } else {
        line
    }
}

/// `println(v)`: prints the text of `v` and gives null.
pub fn native_println<H: Host>(
    args: Vec<KaffeeValue>,
    vars: &mut Variables,
    console: &mut Console<H>,
) -> (r: Result<KaffeeValue, RuntimeError>)
    ensures
        *final(vars) == *old(vars),
        old(console).recorded() ==> final(console).recorded(),
        old(console).recorded() ==> native_result(
            World { vars: old(vars)@, console: old(console)@ },
            NativeFunction::Println,
            values_view(args),
            final(console).answers@,
        ) == (World { vars: final(vars)@, console: final(console)@ }, value_result(r)),
        forall|oracle: Seq<HostAnswer>| #[trigger]
            final(console).heard(oracle) ==> old(console).heard(oracle) && native_result(
                World { vars: old(vars)@, console: old(console)@ },
                NativeFunction::Println,
                values_view(args),
                oracle,
            ) == (World { vars: final(vars)@, console: final(console)@ }, value_result(r)),
{
    if args.len() < 1 {
        return Err(RuntimeError::ArityMismatch);
    }
    match rust_stringify(&args[0], console) {
        Err(e) => Err(e),
        Ok(line) => {
            console.print_line(&line);
            Ok(KaffeeValue::Null)
        },
    }
}

/// `stringify(v)`: the text of `v`.
pub fn native_stringify<H: Host>(
    args: Vec<KaffeeValue>,
    vars: &mut Variables,
    console: &mut Console<H>,
) -> (r: Result<KaffeeValue, RuntimeError>)
    ensures
        *final(vars) == *old(vars),
        old(console).recorded() ==> final(console).recorded(),
        old(console).recorded() ==> native_result(
            World { vars: old(vars)@, console: old(console)@ },
            NativeFunction::Stringify,
            values_view(args),
            final(console).answers@,
        ) == (World { vars: final(vars)@, console: final(console)@ }, value_result(r)),
        forall|oracle: Seq<HostAnswer>| #[trigger]
            final(console).heard(oracle) ==> old(console).heard(oracle) && native_result(
                World { vars: old(vars)@, console: old(console)@ },
                NativeFunction::Stringify,
                values_view(args),
                oracle,
            ) == (World { vars: final(vars)@, console: final(console)@ }, value_result(r)),
{
    if args.len() < 1 {
        return Err(RuntimeError::ArityMismatch);
    }
    match rust_stringify(&args[0], console) {
        Err(e) => Err(e),
        Ok(s) => Ok(KaffeeValue::String(s)),
    }
}

/// `len(v)`: how many characters a string has, or how many elements an
/// array has.
pub fn native_len<H: Host>(args: Vec<KaffeeValue>, vars: &mut Variables, console: &mut Console<H>) -> (r:
    Result<KaffeeValue, RuntimeError>)
    ensures
        *final(vars) == *old(vars),
        *final(console) == *old(console),
        forall|oracle: Seq<HostAnswer>| #[trigger]
            native_result(
                World { vars: old(vars)@, console: old(console)@ },
                NativeFunction::Len,
                values_view(args),
                oracle,
            ) == (World { vars: final(vars)@, console: final(console)@ }, value_result(r)),
{
    if args.len() < 1 {
        return Err(RuntimeError::ArityMismatch);
    }
    match &args[0] {
        KaffeeValue::String(s) => {
            let n: usize = s.as_str().unicode_len();
            Ok(KaffeeValue::Number(Number::from_count(n as u64)))
        },
        KaffeeValue::Array(items) => {
            let n: usize = items.len();
            Ok(KaffeeValue::Number(Number::from_count(n as u64)))
        },
        _ => Err(RuntimeError::NoLength),
    }
}

/// `append(array, v)`: a new array with the elements of `array` and, in a
/// new slot, `v`.
pub fn native_append<H: Host>(
    args: Vec<KaffeeValue>,
    vars: &mut Variables,
    console: &mut Console<H>,
) -> (r: Result<KaffeeValue, RuntimeError>)
    requires
        old(vars).wf(),
    ensures
        final(vars).wf(),
        final(vars)@.scopes == old(vars)@.scopes,
        *final(console) == *old(console),
        forall|oracle: Seq<HostAnswer>| #[trigger]
            native_result(
                World { vars: old(vars)@, console: old(console)@ },
                NativeFunction::Append,
                values_view(args),
                oracle,
            ) == (World { vars: final(vars)@, console: final(console)@ }, value_result(r)),
{
    let mut args = args;
    let ghost views = values_view(args);
    if args.len() < 2 {
        return Err(RuntimeError::ArityMismatch);
    }
    let mut items: Vec<usize> = match &args[0] {
        KaffeeValue::Array(items) => clone_indices(items),
        _ => {
            return Err(RuntimeError::InvalidAppendTarget);
        },
    };
    if !vars.has_room() {
        return Err(RuntimeError::HeapExhausted);
    }
    let value: KaffeeValue = args.remove(1);
    assert(value@ == views[1]);
    let index: usize = vars.alloc_value(value, false);
    items.push(index);
    Ok(KaffeeValue::Array(items))
}

/// `input()`: a line of input, without the line feed at its end.
pub fn native_input<H: Host>(
    args: Vec<KaffeeValue>,
    vars: &mut Variables,
    console: &mut Console<H>,
) -> (r: Result<KaffeeValue, RuntimeError>)
    ensures
        *final(vars) == *old(vars),
        old(console).recorded() ==> final(console).recorded(),
        old(console).recorded() ==> native_result(
            World { vars: old(vars)@, console: old(console)@ },
            NativeFunction::Input,
            values_view(args),
            final(console).answers@,
        ) == (World { vars: final(vars)@, console: final(console)@ }, value_result(r)),
        forall|oracle: Seq<HostAnswer>| #[trigger]
            final(console).heard(oracle) ==> old(console).heard(oracle) && native_result(
                World { vars: old(vars)@, console: old(console)@ },
                NativeFunction::Input,
                values_view(args),
                oracle,
            ) == (World { vars: final(vars)@, console: final(console)@ }, value_result(r)),
{
    let line: String = console.read_line();
    Ok(KaffeeValue::String(strip_line_end(line)))
}

/// Calls a native function on evaluated arguments.
pub fn call_native<H: Host>(
    func: NativeFunction,
    args: Vec<KaffeeValue>,
    vars: &mut Variables,
    console: &mut Console<H>,
) -> (r: Result<KaffeeValue, RuntimeError>)
    requires
        old(vars).wf(),
    ensures
        final(vars).wf(),
        final(vars)@.scopes == old(vars)@.scopes,
        old(console).recorded() ==> final(console).recorded(),
        old(console).recorded() ==> native_result(
            World { vars: old(vars)@, console: old(console)@ },
            func,
            values_view(args),
            final(console).answers@,
        ) == (World { vars: final(vars)@, console: final(console)@ }, value_result(r)),
        forall|oracle: Seq<HostAnswer>| #[trigger]
            final(console).heard(oracle) ==> old(console).heard(oracle) && native_result(
                World { vars: old(vars)@, console: old(console)@ },
                func,
                values_view(args),
                oracle,
            ) == (World { vars: final(vars)@, console: final(console)@ }, value_result(r)),
{
    match func {
        NativeFunction::Println => native_println(args, vars, console),
        NativeFunction::Stringify => native_stringify(args, vars, console),
        NativeFunction::Len => native_len(args, vars, console),
        NativeFunction::Append => native_append(args, vars, console),
        NativeFunction::Input => native_input(args, vars, console),
    }
}

/// The native functions under their names in the language, with the
/// number of arguments that each takes.
pub open spec fn std_lib_mappings() -> Seq<(Seq<char>, usize, NativeFunction)> {
    seq![
        ("println"@, 1usize, NativeFunction::Println),
        ("stringify"@, 1usize, NativeFunction::Stringify),
        ("len"@, 1usize, NativeFunction::Len),
        ("append"@, 2usize, NativeFunction::Append),
        ("input"@, 0usize, NativeFunction::Input),
    ]
}

/// The native functions of the language.
pub fn get_std_lib_mappings() -> (r: Vec<NativeMapping>)
    ensures
        r.len() == std_lib_mappings().len(),
        forall|i: int|
            0 <= i < r.len() ==> (r[i].name@, r[i].arg_count, r[i].func) == #[trigger] std_lib_mappings()[i],
{
    let mut r: Vec<NativeMapping> = Vec::new();
    r.push(
        NativeMapping {
            name: String::from_str("println"),
            arg_count: 1,
            func: NativeFunction::Println,
        },
    );
    r.push(
        NativeMapping {
            name: String::from_str("stringify"),
            arg_count: 1,
            func: NativeFunction::Stringify,
        },
    );
    r.push(
        NativeMapping { name: String::from_str("len"), arg_count: 1, func: NativeFunction::Len },
    );
    r.push(
        NativeMapping {
            name: String::from_str("append"),
            arg_count: 2,
            func: NativeFunction::Append,
        },
    );
    r.push(
        NativeMapping {
            name: String::from_str("input"),
            arg_count: 0,
            func: NativeFunction::Input,
        },
    );
    r
}

} // verus!

use kaffee::errors::RuntimeError;
use kaffee::interpretting::garbage_collector::gc_collect;
use kaffee::interpretting::interpreter_utils::BreakType;
use kaffee::interpretting::interpreter_utils::FunctionDefinition;
use kaffee::interpretting::interpreter_utils::KaffeeValue;
use kaffee::interpretting::interpreter_utils::NativeFunction;
use kaffee::interpretting::interpreter_utils::NativeMapping;
use kaffee::interpretting::interpreter_utils::ObjectValue;
use kaffee::interpretting::variables;
use kaffee::interpretting::variables::Scope;
use kaffee::interpretting::variables::Variables;
use kaffee::number::Number;
use kaffee::std_lib::functions::get_std_lib_mappings;

fn num(x: f64) -> KaffeeValue {
    KaffeeValue::Number(Number::from_bits(x.to_bits()))
}

fn text(s: &str) -> KaffeeValue {
    KaffeeValue::String(String::from(s))
}

fn name(s: &str) -> String {
    String::from(s)
}

fn with_scope() -> Variables {
    let mut vars = variables::new();
    vars.new_scope();
    vars
}

#[test]
fn new_state_is_empty() {
    let vars = variables::new();
    assert_eq!(vars.alloced.len(), 0);
    assert_eq!(vars.alloc_index, 0);
    assert_eq!(vars.scopestack.len(), 0);
}

#[test]
fn allocation_issues_rising_indices() {
    let mut vars = variables::new();
    assert_eq!(vars.alloc_value(num(1.0), false), 0);
    assert_eq!(vars.alloc_value(num(2.0), true), 1);
    assert_eq!(vars.alloc_value(text("a"), false), 2);
    assert_eq!(vars.alloc_index, 3);
    assert_eq!(vars.read(1), Ok(&num(2.0)));
    assert_eq!(vars.is_constant(1), Ok(true));
    assert_eq!(vars.is_constant(0), Ok(false));
}

#[test]
fn indices_are_not_issued_again_after_removal() {
    let mut vars = variables::new();
    let first = vars.alloc_value(num(1.0), false);
    vars.remove(first);
    let second = vars.alloc_value(num(2.0), false);
    assert_eq!(first, 0);
    assert_eq!(second, 1);
    assert_eq!(vars.read(first), Err(RuntimeError::UnknownReference));
    assert_eq!(vars.read(second), Ok(&num(2.0)));
}

#[test]
fn has_room_until_the_last_index() {
    let mut vars = variables::new();
    assert!(vars.has_room());
    vars.alloc_index = usize::MAX;
    assert!(!vars.has_room());
}

#[test]
fn read_and_write_need_a_slot() {
    let mut vars = variables::new();
    assert_eq!(vars.read(5), Err(RuntimeError::UnknownReference));
    assert_eq!(vars.write(5, num(1.0)), Err(RuntimeError::UnknownReference));
    assert_eq!(vars.is_constant(5), Err(RuntimeError::UnknownReference));
    let index = vars.alloc_value(num(1.0), true);
    assert_eq!(vars.write(index, text("x")), Ok(()));
    assert_eq!(vars.read(index), Ok(&text("x")));
    assert_eq!(vars.is_constant(index), Ok(true));
}

#[test]
fn declaration_binds_in_the_innermost_scope() {
    let mut vars = with_scope();
    assert_eq!(vars.alloc_in_scope(&name("x"), num(1.0), false), Ok(()));
    assert_eq!(vars.find_variable_index(&name("x")), Ok(0));
    assert_eq!(vars.resolve_identifier(&name("x")), Ok(&num(1.0)));
    assert_eq!(vars.scopestack[0].bindings.len(), 1);
}

#[test]
fn second_declaration_in_one_scope_fails() {
    let mut vars = with_scope();
    assert_eq!(vars.alloc_in_scope(&name("x"), num(1.0), false), Ok(()));
    assert_eq!(
        vars.alloc_in_scope(&name("x"), num(2.0), false),
        Err(RuntimeError::DuplicateDeclaration),
    );
    assert_eq!(vars.alloc_index, 1);
    assert_eq!(vars.resolve_identifier(&name("x")), Ok(&num(1.0)));
}

#[test]
fn declaration_without_room_fails() {
    let mut vars = with_scope();
    vars.alloc_index = usize::MAX;
    assert_eq!(vars.alloc_in_scope(&name("x"), num(1.0), false), Err(RuntimeError::HeapExhausted));
    assert_eq!(vars.find_variable_index(&name("x")), Err(RuntimeError::UnresolvedIdentifier));
}

#[test]
fn inner_scope_shadows_and_outer_returns() {
    let mut vars = with_scope();
    assert_eq!(vars.alloc_in_scope(&name("x"), num(1.0), false), Ok(()));
    vars.new_scope();
    assert_eq!(vars.resolve_identifier(&name("x")), Ok(&num(1.0)));
    assert_eq!(vars.alloc_in_scope(&name("x"), num(2.0), false), Ok(()));
    assert_eq!(vars.resolve_identifier(&name("x")), Ok(&num(2.0)));
    assert_eq!(vars.find_variable_index(&name("x")), Ok(1));
    vars.pop_scope();
    assert_eq!(vars.resolve_identifier(&name("x")), Ok(&num(1.0)));
    assert_eq!(vars.find_variable_index(&name("x")), Ok(0));
}

#[test]
fn unknown_name_does_not_resolve() {
    let vars = with_scope();
    assert_eq!(vars.find_variable_index(&name("x")), Err(RuntimeError::UnresolvedIdentifier));
    assert_eq!(vars.resolve_identifier(&name("x")), Err(RuntimeError::UnresolvedIdentifier));
    let empty = variables::new();
    assert_eq!(empty.find_variable_index(&name("x")), Err(RuntimeError::UnresolvedIdentifier));
}

#[test]
fn name_without_slot_is_an_unknown_reference() {
    let mut vars = with_scope();
    vars.add_to_scope(name("ghost"), 42);
    assert_eq!(vars.find_variable_index(&name("ghost")), Ok(42));
    assert_eq!(vars.resolve_identifier(&name("ghost")), Err(RuntimeError::UnknownReference));
}

#[test]
fn add_to_scope_replaces_a_binding() {
    let mut vars = with_scope();
    vars.add_to_scope(name("x"), 1);
    vars.add_to_scope(name("y"), 2);
    vars.add_to_scope(name("x"), 3);
    assert_eq!(vars.find_variable_index(&name("x")), Ok(3));
    assert_eq!(vars.find_variable_index(&name("y")), Ok(2));
    assert_eq!(vars.scopestack[0].bindings.len(), 2);
}

#[test]
fn pop_on_empty_stack_does_nothing() {
    let mut vars = variables::new();
    vars.pop_scope();
    assert_eq!(vars.scopestack.len(), 0);
    vars.new_scope();
    vars.new_scope();
    vars.pop_scope();
    assert_eq!(vars.scopestack.len(), 1);
}

#[test]
fn scope_get_and_set() {
    let mut scope = Scope::new();
    assert_eq!(scope.get(&name("a")), None);
    assert_eq!(scope.position(&name("a")), None);
    scope.set(name("a"), 1);
    scope.set(name("b"), 2);
    assert_eq!(scope.get(&name("a")), Some(1));
    assert_eq!(scope.get(&name("b")), Some(2));
    assert_eq!(scope.position(&name("b")), Some(1));
    scope.set(name("a"), 5);
    assert_eq!(scope.get(&name("a")), Some(5));
    assert_eq!(scope.bindings.len(), 2);
}

#[test]
fn object_lookup_finds_by_key_value() {
    let mut vars = variables::new();
    let k1 = vars.alloc_value(text("a"), true);
    let v1 = vars.alloc_value(num(1.0), false);
    let k2 = vars.alloc_value(num(2.0), true);
    let v2 = vars.alloc_value(num(20.0), false);
    let obj = ObjectValue { keys: vec![k1, k2], values: vec![v1, v2] };
    assert_eq!(vars.lookup_object_value_index(&obj, &text("a")), Ok((true, v1)));
    assert_eq!(vars.lookup_object_value_index(&obj, &num(2.0)), Ok((true, v2)));
    assert_eq!(vars.lookup_object_value_index(&obj, &text("b")), Ok((false, 0)));
    assert_eq!(vars.lookup_object_value_index(&obj, &text("2")), Ok((false, 0)));
}

#[test]
fn object_lookup_takes_the_first_of_equal_keys() {
    let mut vars = variables::new();
    let k1 = vars.alloc_value(text("a"), true);
    let k2 = vars.alloc_value(text("a"), true);
    let obj = ObjectValue { keys: vec![k1, k2], values: vec![10, 20] };
    assert_eq!(vars.lookup_object_value_index(&obj, &text("a")), Ok((true, 10)));
}

#[test]
fn object_lookup_with_missing_key_slot_fails() {
    let mut vars = variables::new();
    let k1 = vars.alloc_value(text("a"), true);
    let obj = ObjectValue { keys: vec![99, k1], values: vec![1, 2] };
    assert_eq!(
        vars.lookup_object_value_index(&obj, &text("a")),
        Err(RuntimeError::UnknownReference),
    );
    let found_first = ObjectValue { keys: vec![k1, 99], values: vec![1, 2] };
    assert_eq!(vars.lookup_object_value_index(&found_first, &text("a")), Ok((true, 1)));
}

#[test]
fn object_lookup_ignores_keys_without_values() {
    let mut vars = variables::new();
    let k1 = vars.alloc_value(text("a"), true);
    let k2 = vars.alloc_value(text("b"), true);
    let obj = ObjectValue { keys: vec![k1, k2], values: vec![7] };
    assert_eq!(vars.lookup_object_value_index(&obj, &text("a")), Ok((true, 7)));
    assert_eq!(vars.lookup_object_value_index(&obj, &text("b")), Ok((false, 0)));
}

#[test]
fn array_lookup_by_whole_number() {
    let vars = variables::new();
    let arr: Vec<usize> = vec![10, 11, 12];
    assert_eq!(vars.lookup_array_value_index(&arr, &num(0.0)), Ok((true, 10)));
    assert_eq!(vars.lookup_array_value_index(&arr, &num(2.0)), Ok((true, 12)));
    assert_eq!(vars.lookup_array_value_index(&arr, &num(-0.0)), Ok((true, 10)));
    assert_eq!(vars.lookup_array_value_index(&arr, &num(3.0)), Err(RuntimeError::IndexOutOfRange));
    assert_eq!(vars.lookup_array_value_index(&arr, &num(1e300)), Err(RuntimeError::IndexOutOfRange));
    assert_eq!(vars.lookup_array_value_index(&arr, &num(1.5)), Err(RuntimeError::InvalidIndex));
    assert_eq!(vars.lookup_array_value_index(&arr, &num(-1.0)), Err(RuntimeError::InvalidIndex));
    assert_eq!(vars.lookup_array_value_index(&arr, &num(f64::NAN)), Err(RuntimeError::InvalidIndex));
    assert_eq!(
        vars.lookup_array_value_index(&arr, &num(f64::INFINITY)),
        Err(RuntimeError::InvalidIndex),
    );
    assert_eq!(vars.lookup_array_value_index(&arr, &text("0")), Err(RuntimeError::InvalidIndex));
    assert_eq!(vars.lookup_array_value_index(&arr, &KaffeeValue::Null), Err(RuntimeError::InvalidIndex));
    let empty: Vec<usize> = vec![];
    assert_eq!(vars.lookup_array_value_index(&empty, &num(0.0)), Err(RuntimeError::IndexOutOfRange));
}

#[test]
fn insertion_adds_a_pair_in_new_slots() {
    let mut vars = variables::new();
    let obj = vars.alloc_value(
        KaffeeValue::Object(ObjectValue { keys: vec![], values: vec![] }),
        true,
    );
    assert_eq!(vars.insert_into_object(text("k"), num(5.0), obj), Ok(()));
    assert_eq!(vars.alloc_index, 3);
    assert_eq!(vars.is_constant(obj), Ok(true));
    assert_eq!(vars.read(obj), Ok(&KaffeeValue::Object(ObjectValue { keys: vec![1], values: vec![2] })));
    assert_eq!(vars.read(1), Ok(&text("k")));
    assert_eq!(vars.read(2), Ok(&num(5.0)));
    assert_eq!(vars.is_constant(1), Ok(false));
    let object = match vars.read(obj) {
        Ok(KaffeeValue::Object(o)) => ObjectValue { keys: o.keys.clone(), values: o.values.clone() },
        _ => panic!("the slot holds no object"),
    };
    assert_eq!(vars.lookup_object_value_index(&object, &text("k")), Ok((true, 2)));
}

#[test]
fn insertion_needs_an_object() {
    let mut vars = variables::new();
    let n = vars.alloc_value(num(1.0), false);
    assert_eq!(
        vars.insert_into_object(text("k"), num(5.0), n),
        Err(RuntimeError::InvalidInsertionTarget),
    );
    assert_eq!(vars.insert_into_object(text("k"), num(5.0), 77), Err(RuntimeError::UnknownReference));
    assert_eq!(vars.alloc_index, 1);
}

#[test]
fn insertion_needs_two_indices() {
    let mut vars = variables::new();
    let obj = vars.alloc_value(
        KaffeeValue::Object(ObjectValue { keys: vec![], values: vec![] }),
        false,
    );
    vars.alloc_index = usize::MAX - 1;
    assert_eq!(vars.insert_into_object(text("k"), num(5.0), obj), Err(RuntimeError::HeapExhausted));
    vars.alloc_index = usize::MAX - 2;
    assert_eq!(vars.insert_into_object(text("k"), num(5.0), obj), Ok(()));
}

#[test]
fn collector_keeps_what_scopes_name() {
    let mut vars = with_scope();
    assert_eq!(vars.alloc_in_scope(&name("a"), num(1.0), false), Ok(()));
    vars.new_scope();
    assert_eq!(vars.alloc_in_scope(&name("b"), num(2.0), false), Ok(()));
    let loose = vars.alloc_value(num(3.0), false);
    gc_collect(&mut vars.alloced, &vars.scopestack);
    assert_eq!(vars.read(0), Ok(&num(1.0)));
    assert_eq!(vars.read(1), Ok(&num(2.0)));
    assert_eq!(vars.read(loose), Err(RuntimeError::UnknownReference));
    assert_eq!(vars.alloced.len(), 2);
}

#[test]
fn collector_frees_what_a_closed_scope_named() {
    let mut vars = with_scope();
    assert_eq!(vars.alloc_in_scope(&name("a"), num(1.0), false), Ok(()));
    vars.new_scope();
    assert_eq!(vars.alloc_in_scope(&name("b"), num(2.0), false), Ok(()));
    vars.pop_scope();
    gc_collect(&mut vars.alloced, &vars.scopestack);
    assert_eq!(vars.read(0), Ok(&num(1.0)));
    assert_eq!(vars.read(1), Err(RuntimeError::UnknownReference));
}

#[test]
fn collector_keeps_members_of_named_composites() {
    let mut vars = with_scope();
    let key = vars.alloc_value(text("k"), true);
    let value = vars.alloc_value(num(1.0), false);
    let e0 = vars.alloc_value(num(10.0), false);
    let e1 = vars.alloc_value(num(11.0), false);
    let loose = vars.alloc_value(num(99.0), false);
    assert_eq!(
        vars.alloc_in_scope(
            &name("o"),
            KaffeeValue::Object(ObjectValue { keys: vec![key], values: vec![value] }),
            false,
        ),
        Ok(()),
    );
    vars.new_scope();
    assert_eq!(vars.alloc_in_scope(&name("a"), KaffeeValue::Array(vec![e0, e1]), false), Ok(()));
    gc_collect(&mut vars.alloced, &vars.scopestack);
    assert_eq!(vars.read(key), Ok(&text("k")));
    assert_eq!(vars.read(value), Ok(&num(1.0)));
    assert_eq!(vars.read(e0), Ok(&num(10.0)));
    assert_eq!(vars.read(e1), Ok(&num(11.0)));
    assert_eq!(vars.read(loose), Err(RuntimeError::UnknownReference));
    assert_eq!(vars.alloced.len(), 6);
    vars.pop_scope();
    gc_collect(&mut vars.alloced, &vars.scopestack);
    assert_eq!(vars.read(key), Ok(&text("k")));
    assert_eq!(vars.read(value), Ok(&num(1.0)));
    assert_eq!(vars.read(e0), Err(RuntimeError::UnknownReference));
    assert_eq!(vars.read(e1), Err(RuntimeError::UnknownReference));
    assert_eq!(vars.alloced.len(), 3);
}

#[test]
fn collector_traces_one_level() {
    let mut vars = with_scope();
    let deep = vars.alloc_value(num(1.0), false);
    let inner = vars.alloc_value(KaffeeValue::Array(vec![deep]), false);
    assert_eq!(vars.alloc_in_scope(&name("outer"), KaffeeValue::Array(vec![inner]), false), Ok(()));
    gc_collect(&mut vars.alloced, &vars.scopestack);
    assert_eq!(vars.read(inner), Ok(&KaffeeValue::Array(vec![deep])));
    assert_eq!(vars.read(deep), Err(RuntimeError::UnknownReference));
}

#[test]
fn collector_on_empty_stack_frees_everything() {
    let mut vars = variables::new();
    vars.alloc_value(num(1.0), false);
    vars.alloc_value(num(2.0), true);
    gc_collect(&mut vars.alloced, &vars.scopestack);
    assert_eq!(vars.alloced.len(), 0);
    assert_eq!(vars.alloc_index, 2);
}

#[test]
fn collector_bears_names_without_slots() {
    let mut vars = with_scope();
    vars.add_to_scope(name("ghost"), 7);
    let kept = vars.alloc_value(num(1.0), false);
    vars.add_to_scope(name("kept"), kept);
    gc_collect(&mut vars.alloced, &vars.scopestack);
    assert_eq!(vars.read(kept), Ok(&num(1.0)));
    assert_eq!(vars.alloced.len(), 1);
}

#[test]
fn values_compare_as_the_language_does() {
    assert_eq!(num(1.0), num(1.0));
    assert_ne!(num(1.0), num(2.0));
    assert_eq!(num(0.0), num(-0.0));
    assert_ne!(num(f64::NAN), num(f64::NAN));
    assert_eq!(text("a"), text("a"));
    assert_ne!(text("a"), text("b"));
    assert_ne!(text("1"), num(1.0));
    assert_eq!(KaffeeValue::Null, KaffeeValue::Null);
    assert_ne!(KaffeeValue::Null, KaffeeValue::Boolean(false));
    assert_eq!(KaffeeValue::Boolean(true), KaffeeValue::Boolean(true));
    assert_eq!(KaffeeValue::Array(vec![1, 2]), KaffeeValue::Array(vec![1, 2]));
    assert_ne!(KaffeeValue::Array(vec![1, 2]), KaffeeValue::Array(vec![2, 1]));
    assert_ne!(KaffeeValue::Array(vec![1]), KaffeeValue::Array(vec![1, 1]));
    assert_eq!(
        KaffeeValue::Object(ObjectValue { keys: vec![1], values: vec![2] }),
        KaffeeValue::Object(ObjectValue { keys: vec![1], values: vec![2] }),
    );
    assert_ne!(
        KaffeeValue::Object(ObjectValue { keys: vec![1], values: vec![2] }),
        KaffeeValue::Object(ObjectValue { keys: vec![1], values: vec![3] }),
    );
    assert_eq!(
        KaffeeValue::Function(FunctionDefinition { args: vec![name("a")], body: vec![] }),
        KaffeeValue::Function(FunctionDefinition { args: vec![name("a")], body: vec![] }),
    );
    assert_ne!(
        KaffeeValue::Function(FunctionDefinition { args: vec![name("a")], body: vec![] }),
        KaffeeValue::Function(FunctionDefinition { args: vec![name("b")], body: vec![] }),
    );
}

#[test]
fn native_functions_are_equal_by_name() {
    let a = KaffeeValue::NativeFunction(
        NativeMapping { name: name("f"), arg_count: 1, func: NativeFunction::Len },
    );
    let b = KaffeeValue::NativeFunction(
        NativeMapping { name: name("f"), arg_count: 2, func: NativeFunction::Append },
    );
    let c = KaffeeValue::NativeFunction(
        NativeMapping { name: name("g"), arg_count: 1, func: NativeFunction::Len },
    );
    assert_eq!(a, b);
    assert_ne!(a, c);
}

#[test]
fn copies_equal_what_they_copy() {
    let values = vec![
        num(1.5),
        text("abc"),
        KaffeeValue::Boolean(true),
        KaffeeValue::Null,
        KaffeeValue::Array(vec![3, 4]),
        KaffeeValue::Object(ObjectValue { keys: vec![1], values: vec![2] }),
        KaffeeValue::Function(FunctionDefinition { args: vec![name("a")], body: vec![] }),
    ];
    for value in values {
        assert_eq!(value.duplicate(), value);
        assert_eq!(value.clone(), value);
    }
}

#[test]
fn standard_library_has_five_functions() {
    let mappings = get_std_lib_mappings();
    let mut found: Vec<(String, usize, NativeFunction)> = Vec::new();
    for m in mappings {
        found.push((m.name, m.arg_count, m.func));
    }
    assert_eq!(
        found,
        vec![
            (name("println"), 1, NativeFunction::Println),
            (name("stringify"), 1, NativeFunction::Stringify),
            (name("len"), 1, NativeFunction::Len),
            (name("append"), 2, NativeFunction::Append),
            (name("input"), 0, NativeFunction::Input),
        ],
    );
}

#[test]
fn signals_are_distinct() {
    assert_ne!(BreakType::Normal, BreakType::Break);
    assert_ne!(BreakType::Break, BreakType::Continue);
    assert_ne!(BreakType::Continue, BreakType::Return);
    assert_eq!(BreakType::Return, BreakType::Return);
}

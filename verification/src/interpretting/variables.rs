//! The heap and the scope stack.
//!
//! The heap is a table from indices to slots. Indices are issued in rising
//! order and never again. A scope is a list of bindings with distinct
//! names; the scope stack ends with the innermost scope.

use vstd::prelude::*;
use std::collections::HashMap;
use crate::errors::RuntimeError;
use crate::number::Whole;
use crate::number::whole_of;
use crate::interpretting::interpreter_utils::AllocedValue;
use crate::interpretting::interpreter_utils::KaffeeValue;
use crate::interpretting::interpreter_utils::ObjectValue;
use crate::interpretting::interpreter_utils::ValueView;
use crate::interpretting::interpreter_utils::SlotView;
use crate::interpretting::interpreter_utils::values_equal;
use crate::interpretting::interpreter_utils::clone_indices;

verus! {

broadcast use vstd::std_specs::hash::group_hash_axioms;

/// A name and the heap index it stands for.
#[derive(Debug)]
pub struct Binding {
    pub name: String,
    pub index: usize,
}

/// One lexical frame.
#[derive(Debug)]
pub struct Scope {
    pub bindings: Vec<Binding>,
}

impl Scope {
    /// Whether the `i`th binding is the one of `name`.
    pub open spec fn binds_at(&self, name: Seq<char>, i: int) -> bool {
        0 <= i < self.bindings.len() && self.bindings[i].name@ == name
    }

    /// No name is bound twice.
    pub open spec fn wf(&self) -> bool {
        forall|i: int, j: int|
            0 <= i < j < self.bindings.len() ==> self.bindings[i].name@ != self.bindings[j].name@
    }

    /// With distinct names, each binding is an entry of the view.
    pub proof fn lemma_binding(&self, i: int)
        requires
            self.wf(),
            0 <= i < self.bindings.len(),
        ensures
            self@.contains_key(self.bindings[i].name@),
            self@[self.bindings[i].name@] == self.bindings[i].index,
    {
        let name = self.bindings[i].name@;
        assert(self.binds_at(name, i));
        let j = choose|j: int| self.binds_at(name, j);
        assert(i == j);
    }

    /// An empty scope.
    pub fn new() -> (r: Scope)
        ensures
            r.wf(),
            r@ == Map::<Seq<char>, usize>::empty(),
    {
        let r = Scope { bindings: Vec::new() };
        assert(r@ =~= Map::<Seq<char>, usize>::empty());
        r
    }

    /// Where the binding of `name` stands, if there is one.
    pub fn position(&self, name: &String) -> (r: Option<usize>)
        ensures
            match r {
                Some(i) => self.binds_at(name@, i as int),
                None => forall|i: int| !self.binds_at(name@, i),
            },
    {
        let mut i: usize = 0;
        while i < self.bindings.len()
            invariant
                i <= self.bindings.len(),
                forall|k: int| 0 <= k < i ==> !self.binds_at(name@, k),
            decreases self.bindings.len() - i,
        {
            if self.bindings[i].name == *name {
                return Some(i);
            }
            i += 1;
        }
        None
    }

    /// The index bound to `name`, if it is bound.
    pub fn get(&self, name: &String) -> (r: Option<usize>)
        requires
            self.wf(),
        ensures
            r == (if self@.contains_key(name@) {
                Some(self@[name@])
            } else {
                None
            }),
    {
        match self.position(name) {
            Some(i) => {
                proof {
                    self.lemma_binding(i as int);
                }
                Some(self.bindings[i].index)
            },
            None => None,
        }
    }

    /// Binds `name` to `index`, in place of what it was bound to.
    pub fn set(&mut self, name: String, index: usize)
        requires
            old(self).wf(),
        ensures
            final(self).wf(),
            final(self)@ == old(self)@.insert(name@, index),
    {
        let ghost key = name@;
        match self.position(&name) {
            Some(i) => {
                self.bindings.set(i, Binding { name, index });
                assert forall|a: int, b: int| 0 <= a < b < self.bindings.len() implies self.bindings[a].name@
                    != self.bindings[b].name@ by {
                    assert(old(self).bindings[a].name@ == self.bindings[a].name@);
                    assert(old(self).bindings[b].name@ == self.bindings[b].name@);
                }
                assert forall|n: Seq<char>| #[trigger]
                    self@.contains_key(n) == old(self)@.insert(key, index).contains_key(n) by {
                    if old(self)@.contains_key(n) {
                        let j = choose|j: int| old(self).binds_at(n, j);
                        assert(self.binds_at(n, j));
                    }
                    if self@.contains_key(n) {
                        let j = choose|j: int| self.binds_at(n, j);
                        assert(old(self).binds_at(n, j));
                    }
                    if n == key {
                        assert(self.binds_at(n, i as int));
                    }
                }
                assert forall|n: Seq<char>| #[trigger] self@.contains_key(n) implies self@[n]
                    == old(self)@.insert(key, index)[n] by {
                    let j = choose|j: int| self.binds_at(n, j);
                    self.lemma_binding(j);
                    if n != key {
                        assert(old(self).binds_at(n, j));
                        old(self).lemma_binding(j);
                    } else {
                        assert(j == i);
                    }
                }
                assert(self@ =~= old(self)@.insert(key, index));
            },
            None => {
                self.bindings.push(Binding { name, index });
                let ghost last = old(self).bindings.len() as int;
                assert forall|a: int, b: int| 0 <= a < b < self.bindings.len() implies self.bindings[a].name@
                    != self.bindings[b].name@ by {
                    assert(!old(self).binds_at(key, a));
                }
                assert forall|n: Seq<char>| #[trigger]
                    self@.contains_key(n) == old(self)@.insert(key, index).contains_key(n) by {
                    if old(self)@.contains_key(n) {
                        let j = choose|j: int| old(self).binds_at(n, j);
                        assert(self.binds_at(n, j));
                    }
                    if self@.contains_key(n) {
                        let j = choose|j: int| self.binds_at(n, j);
                        if j < last {
                            assert(old(self).binds_at(n, j));
                        }
                    }
                    if n == key {
                        assert(self.binds_at(n, last));
                    }
                }
                assert forall|n: Seq<char>| #[trigger] self@.contains_key(n) implies self@[n]
                    == old(self)@.insert(key, index)[n] by {
                    let j = choose|j: int| self.binds_at(n, j);
                    self.lemma_binding(j);
                    if n != key {
                        assert(self.bindings[last].name@ == key);
                        assert(j != last);
                        assert(old(self).binds_at(n, j));
                        old(self).lemma_binding(j);
                    } else {
                        assert(self.binds_at(n, last));
                        assert(j == last);
                    }
                }
                assert(self@ =~= old(self)@.insert(key, index));
            },
        }
    }
}

impl View for Scope {
    type V = Map<Seq<char>, usize>;

    open spec fn view(&self) -> Map<Seq<char>, usize> {
        Map::new(
            |n: Seq<char>| exists|i: int| self.binds_at(n, i),
            |n: Seq<char>| self.bindings[choose|i: int| self.binds_at(n, i)].index,
        )
    }
}

/// The heap and the scope stack of a running program.
pub struct Variables {
    pub alloced: HashMap<usize, AllocedValue>,
    pub alloc_index: usize,
    pub scopestack: Vec<Scope>,
}

/// The heap and the scope stack as mathematical values.
pub struct VariablesView {
    pub heap: Map<usize, SlotView>,
    pub next: usize,
    pub scopes: Seq<Map<Seq<char>, usize>>,
}

/// The slots of a table as mathematical values.
pub open spec fn heap_view(table: Map<usize, AllocedValue>) -> Map<usize, SlotView> {
    Map::new(|i: usize| table.contains_key(i), |i: usize| table[i]@)
}

/// The scopes of a stack as maps.
pub open spec fn scopes_view(stack: Seq<Scope>) -> Seq<Map<Seq<char>, usize>> {
    Seq::new(stack.len(), |i: int| stack[i]@)
}

/// Every scope has distinct names.
pub open spec fn scopes_wf(stack: Seq<Scope>) -> bool {
    forall|i: int| 0 <= i < stack.len() ==> (#[trigger] stack[i]).wf()
}

/// The index that `name` stands for: that of the innermost scope that
/// defines it.
pub open spec fn resolve_name(scopes: Seq<Map<Seq<char>, usize>>, name: Seq<char>) -> Result<
    usize,
    RuntimeError,
>
    decreases scopes.len(),
{
    if scopes.len() == 0 {
        Err(RuntimeError::UnresolvedIdentifier)
    } else if scopes.last().contains_key(name) {
        Ok(scopes.last()[name])
    } else {
        resolve_name(scopes.drop_last(), name)
    }
}

/// The value in the slot at `index`.
pub open spec fn read_slot(heap: Map<usize, SlotView>, index: usize) -> Result<
    ValueView,
    RuntimeError,
> {
    if heap.contains_key(index) {
        Ok(heap[index].value)
    } else {
        Err(RuntimeError::UnknownReference)
    }
}

/// Where the value of `key` is kept in an object, looking at the pairs from
/// position `from` on: the first pair whose key slot holds a value equal to
/// `key` decides. A key index without a slot ends the search with an error.
pub open spec fn object_lookup(
    heap: Map<usize, SlotView>,
    keys: Seq<usize>,
    values: Seq<usize>,
    key: ValueView,
    from: int,
) -> Result<(bool, usize), RuntimeError>
    decreases keys.len() - from,
{
    if from < 0 || from >= keys.len() || from >= values.len() {
        Ok((false, 0))
    } else if !heap.contains_key(keys[from]) {
        Err(RuntimeError::UnknownReference)
    } else if values_equal(heap[keys[from]].value, key) {
        Ok((true, values[from]))
    } else {
        object_lookup(heap, keys, values, key, from + 1)
    }
}

/// Where the element at `key` is kept in an array.
pub open spec fn array_lookup(items: Seq<usize>, key: ValueView) -> Result<
    (bool, usize),
    RuntimeError,
> {
    match key {
        ValueView::Number(bits) => match whole_of(bits) {
            Whole::Exact(k) => if k < items.len() {
                Ok((true, items[k as int]))
            } else {
                Err(RuntimeError::IndexOutOfRange)
            },
            Whole::Huge => Err(RuntimeError::IndexOutOfRange),
            Whole::NotWhole => Err(RuntimeError::InvalidIndex),
        },
        _ => Err(RuntimeError::InvalidIndex),
    }
}

/// The state after `key` and `value` have been put into new slots and
/// added as a pair to the object at `target`.
pub open spec fn with_inserted(
    before: VariablesView,
    key: ValueView,
    value: ValueView,
    target: usize,
) -> VariablesView
    recommends
        before.heap.contains_key(target),
        before.heap[target].value is Object,
        before.next + 2 <= usize::MAX,
{
    let key_index = before.next;
    let value_index = (before.next + 1) as usize;
    let object = before.heap[target];
    VariablesView {
        heap: before.heap.insert(key_index, SlotView { value: key, constant: false }).insert(
            value_index,
            SlotView { value, constant: false },
        ).insert(
            target,
            SlotView {
                value: ValueView::Object {
                    keys: object.value->Object_keys.push(key_index),
                    values: object.value->Object_values.push(value_index),
                },
                constant: object.constant,
            },
        ),
        next: (before.next + 2) as usize,
        scopes: before.scopes,
    }
}

/// The state after `value` has been put into a new slot, and the slot's
/// index; or the state as it was, when no index is left.
pub open spec fn allocated(before: VariablesView, value: ValueView, constant: bool) -> (
    VariablesView,
    Result<usize, RuntimeError>,
) {
    if before.next == usize::MAX {
        (before, Err(RuntimeError::HeapExhausted))
    } else {
        (
            VariablesView {
                heap: before.heap.insert(before.next, SlotView { value, constant }),
                next: (before.next + 1) as usize,
                ..before
            },
            Ok(before.next),
        )
    }
}

/// The state after `name` has been bound to `index` in the innermost scope.
pub open spec fn bound(before: VariablesView, name: Seq<char>, index: usize) -> VariablesView
    recommends
        before.scopes.len() > 0,
{
    VariablesView {
        scopes: before.scopes.update(
            before.scopes.len() - 1,
            before.scopes.last().insert(name, index),
        ),
        ..before
    }
}

/// The state after `name` has been declared for `value` in the innermost
/// scope; or the state as it was, with the reason why it could not be.
pub open spec fn declared(
    before: VariablesView,
    name: Seq<char>,
    value: ValueView,
    constant: bool,
) -> (VariablesView, Result<(), RuntimeError>)
    recommends
        before.scopes.len() > 0,
{
    if before.scopes.last().contains_key(name) {
        (before, Err(RuntimeError::DuplicateDeclaration))
    } else {
        match allocated(before, value, constant) {
            (after, Ok(index)) => (bound(after, name, index), Ok(())),
            (after, Err(e)) => (after, Err(e)),
        }
    }
}

/// The state with a new, empty innermost scope.
pub open spec fn pushed(before: VariablesView) -> VariablesView {
    VariablesView { scopes: before.scopes.push(Map::empty()), ..before }
}

/// The state without its innermost scope.
pub open spec fn popped(before: VariablesView) -> VariablesView {
    VariablesView {
        scopes: if before.scopes.len() > 0 {
            before.scopes.drop_last()
        } else {
            before.scopes
        },
        ..before
    }
}

/// The state after `value` has been put into the slot at `index`.
pub open spec fn written(before: VariablesView, index: usize, value: ValueView) -> (
    VariablesView,
    Result<(), RuntimeError>,
) {
    if before.heap.contains_key(index) {
        (
            VariablesView {
                heap: before.heap.insert(
                    index,
                    SlotView { value, constant: before.heap[index].constant },
                ),
                ..before
            },
            Ok(()),
        )
    } else {
        (before, Err(RuntimeError::UnknownReference))
    }
}

/// The state after a pair has been added to the object at `target`; or the
/// state as it was, with the reason why it could not be.
pub open spec fn inserted(
    before: VariablesView,
    key: ValueView,
    value: ValueView,
    target: usize,
) -> (VariablesView, Result<(), RuntimeError>) {
    if !before.heap.contains_key(target) {
        (before, Err(RuntimeError::UnknownReference))
    } else if !(before.heap[target].value is Object) {
        (before, Err(RuntimeError::InvalidInsertionTarget))
    } else if before.next + 2 > usize::MAX {
        (before, Err(RuntimeError::HeapExhausted))
    } else {
        (with_inserted(before, key, value, target), Ok(()))
    }
}

/// A name resolves through scopes that do not define it to what it
/// resolved to below them.
pub proof fn lemma_resolve_through_nested(
    scopes: Seq<Map<Seq<char>, usize>>,
    nested: Seq<Map<Seq<char>, usize>>,
    name: Seq<char>,
)
    requires
        forall|i: int| 0 <= i < nested.len() ==> !nested[i].contains_key(name),
    ensures
        resolve_name(scopes + nested, name) == resolve_name(scopes, name),
    decreases nested.len(),
{
    if nested.len() == 0 {
        assert(scopes + nested =~= scopes);
    } else {
        assert((scopes + nested).drop_last() =~= scopes + nested.drop_last());
        assert((scopes + nested).last() == nested.last());
        lemma_resolve_through_nested(scopes, nested.drop_last(), name);
    }
}

/// A name that the innermost scope defines cannot be declared there again,
/// and the attempt changes nothing.
pub proof fn lemma_redeclaration_fails(
    before: VariablesView,
    name: Seq<char>,
    first: ValueView,
    first_constant: bool,
    second: ValueView,
    second_constant: bool,
)
    requires
        before.scopes.len() > 0,
        declared(before, name, first, first_constant).1 is Ok,
    ensures
        declared(
            declared(before, name, first, first_constant).0,
            name,
            second,
            second_constant,
        ) == (
            declared(before, name, first, first_constant).0,
            Err::<(), RuntimeError>(RuntimeError::DuplicateDeclaration),
        ),
{
}

/// A name that an outer scope defines can be declared in a new scope. In
/// that scope it stands for the new slot; once the scope is closed it
/// stands for what it stood for before.
pub proof fn lemma_shadowing(
    before: VariablesView,
    name: Seq<char>,
    value: ValueView,
    constant: bool,
)
    requires
        before.next < usize::MAX,
    ensures
        declared(pushed(before), name, value, constant).1 is Ok,
        resolve_name(declared(pushed(before), name, value, constant).0.scopes, name) == Ok::<
            usize,
            RuntimeError,
        >(before.next),
        popped(declared(pushed(before), name, value, constant).0).scopes == before.scopes,
        resolve_name(popped(declared(pushed(before), name, value, constant).0).scopes, name)
            == resolve_name(before.scopes, name),
{
    let inner = declared(pushed(before), name, value, constant).0;
    assert(pushed(before).scopes.last() == Map::<Seq<char>, usize>::empty());
    assert(popped(inner).scopes =~= before.scopes);
}

/// The pair that has been added to an object is found under its key, and
/// the slot found holds the value. This is stated of an object that did
/// not have the key, that has as many keys as values and that is not one of
/// its own keys, and of a key that equals itself.
pub proof fn lemma_inserted_is_found(
    before: VariablesView,
    key: ValueView,
    value: ValueView,
    target: usize,
)
    requires
        forall|i: usize| before.heap.contains_key(i) ==> i < before.next,
        inserted(before, key, value, target).1 is Ok,
        values_equal(key, key),
        before.heap[target].value matches ValueView::Object { keys, values } && object_lookup(
            before.heap,
            keys,
            values,
            key,
            0,
        ) == Ok::<(bool, usize), RuntimeError>((false, 0usize)) && keys.len() == values.len()
            && !keys.contains(target),
    ensures
        ({
            let after = inserted(before, key, value, target).0;
            &&& after.heap.contains_key(target)
            &&& after.heap[target].value matches ValueView::Object { keys, values }
                && object_lookup(after.heap, keys, values, key, 0) == Ok::<
                (bool, usize),
                RuntimeError,
            >((true, (before.next + 1) as usize))
            &&& read_slot(after.heap, (before.next + 1) as usize) == Ok::<ValueView, RuntimeError>(
                value,
            )
        }),
{
    let after = inserted(before, key, value, target).0;
    let keys = before.heap[target].value->Object_keys;
    let values = before.heap[target].value->Object_values;
    let new_keys = keys.push(before.next);
    let new_values = values.push((before.next + 1) as usize);
    lemma_lookup_after_insertion(before, after, keys, values, new_keys, new_values, key, 0);
}

/// The search for a key that the object did not have goes through the old
/// pairs as before and ends at the pair that was added.
proof fn lemma_lookup_after_insertion(
    before: VariablesView,
    after: VariablesView,
    keys: Seq<usize>,
    values: Seq<usize>,
    new_keys: Seq<usize>,
    new_values: Seq<usize>,
    key: ValueView,
    from: int,
)
    requires
        0 <= from <= keys.len(),
        keys.len() == values.len(),
        new_keys == keys.push(before.next),
        new_values == values.push((before.next + 1) as usize),
        before.next + 2 <= usize::MAX,
        forall|i: usize| before.heap.contains_key(i) ==> i < before.next,
        values_equal(key, key),
        object_lookup(before.heap, keys, values, key, from) == Ok::<(bool, usize), RuntimeError>(
            (false, 0usize),
        ),
        after.heap.contains_key(before.next),
        after.heap[before.next].value == key,
        forall|i: int|
            0 <= i < keys.len() && before.heap.contains_key(keys[i]) ==> after.heap.contains_key(
                keys[i],
            ) && after.heap[keys[i]] == before.heap[keys[i]],
    ensures
        object_lookup(after.heap, new_keys, new_values, key, from) == Ok::<
            (bool, usize),
            RuntimeError,
        >((true, (before.next + 1) as usize)),
    decreases keys.len() - from,
{
    if from < keys.len() {
        assert(new_keys[from] == keys[from]);
        assert(new_values[from] == values[from]);
        assert(before.heap.contains_key(keys[from]));
        assert(!values_equal(before.heap[keys[from]].value, key));
        lemma_lookup_after_insertion(
            before,
            after,
            keys,
            values,
            new_keys,
            new_values,
            key,
            from + 1,
        );
    } else {
        assert(new_keys[from] == before.next);
        assert(new_values[from] == (before.next + 1) as usize);
    }
}

impl View for Variables {
    type V = VariablesView;

    open spec fn view(&self) -> VariablesView {
        VariablesView {
            heap: heap_view(self.alloced@),
            next: self.alloc_index,
            scopes: scopes_view(self.scopestack@),
        }
    }
}

impl Variables {
    /// Scopes have distinct names, and every slot has an index that was
    /// issued.
    pub open spec fn wf(&self) -> bool {
        &&& scopes_wf(self.scopestack@)
        &&& forall|i: usize| self.alloced@.contains_key(i) ==> i < self.alloc_index
    }

    /// The value that `name` stands for.
    pub fn resolve_identifier(&self, name: &String) -> (r: Result<&KaffeeValue, RuntimeError>)
        requires
            self.wf(),
        ensures
            match resolve_name(self@.scopes, name@) {
                Err(e) => r == Err::<&KaffeeValue, RuntimeError>(e),
                Ok(index) => match read_slot(self@.heap, index) {
                    Err(e) => r == Err::<&KaffeeValue, RuntimeError>(e),
                    Ok(value) => r is Ok && r->Ok_0@ == value,
                },
            },
    {
        match self.find_variable_index(name) {
            Err(e) => Err(e),
            Ok(index) => self.read(index),
        }
    }

    /// The heap index that `name` stands for.
    pub fn find_variable_index(&self, name: &String) -> (r: Result<usize, RuntimeError>)
        requires
            self.wf(),
        ensures
            r == resolve_name(self@.scopes, name@),
    {
        let mut i: usize = self.scopestack.len();
        assert(self@.scopes.take(i as int) =~= self@.scopes);
        while i > 0
            invariant
                i <= self.scopestack.len(),
                self.wf(),
                resolve_name(self@.scopes, name@) == resolve_name(
                    self@.scopes.take(i as int),
                    name@,
                ),
            decreases i,
        {
            let ghost upto = self@.scopes.take(i as int);
            i -= 1;
            assert(upto.last() == self.scopestack[i as int]@);
            assert(upto.drop_last() =~= self@.scopes.take(i as int));
            match self.scopestack[i].get(name) {
                Some(index) => {
                    return Ok(index);
                },
                None => {},
            }
        }
        Err(RuntimeError::UnresolvedIdentifier)
    }

    /// Opens a new innermost scope.
    pub fn new_scope(&mut self)
        requires
            old(self).wf(),
        ensures
            final(self).wf(),
            final(self)@ == pushed(old(self)@),
    {
        self.scopestack.push(Scope::new());
        assert(self@.scopes =~= old(self)@.scopes.push(Map::empty()));
    }

    /// Closes the innermost scope, if there is one.
    pub fn pop_scope(&mut self)
        requires
            old(self).wf(),
        ensures
            final(self).wf(),
            final(self)@ == popped(old(self)@),
    {
        let _ = self.scopestack.pop();
        assert(self@.scopes =~= if old(self)@.scopes.len() > 0 {
            old(self)@.scopes.drop_last()
        } else {
            old(self)@.scopes
        });
    }

    /// Whether an index is left to issue.
    pub fn has_room(&self) -> (r: bool)
        ensures
            r == (self@.next < usize::MAX),
    {
        self.alloc_index < usize::MAX
    }

    /// Puts `value` into a new slot and declares `identifier` for it in the
    /// innermost scope.
    pub fn alloc_in_scope(&mut self, identifier: &String, value: KaffeeValue, constant: bool) -> (r:
        Result<(), RuntimeError>)
        requires
            old(self).wf(),
            old(self)@.scopes.len() > 0,
        ensures
            final(self).wf(),
            (final(self)@, r) == declared(old(self)@, identifier@, value@, constant),
    {
        let top: usize = self.scopestack.len() - 1;
        assert(self@.scopes.last() == self.scopestack[top as int]@);
        if self.scopestack[top].get(identifier).is_some() {
            return Err(RuntimeError::DuplicateDeclaration);
        }
        if !self.has_room() {
            return Err(RuntimeError::HeapExhausted);
        }
        let index: usize = self.alloc_value(value, constant);
        self.add_to_scope(identifier.clone(), index);
        Ok(())
    }

    /// Binds `identifier` to `alloc_index` in the innermost scope.
    pub fn add_to_scope(&mut self, identifier: String, alloc_index: usize)
        requires
            old(self).wf(),
            old(self)@.scopes.len() > 0,
        ensures
            final(self).wf(),
            final(self)@ == bound(old(self)@, identifier@, alloc_index),
    {
        let top: usize = self.scopestack.len() - 1;
        let ghost name = identifier@;
        self.scopestack[top].set(identifier, alloc_index);
        assert(self@.scopes =~= old(self)@.scopes.update(
            old(self)@.scopes.len() - 1,
            old(self)@.scopes.last().insert(name, alloc_index),
        ));
    }

    /// Puts `value` into a new slot and returns the slot's index.
    pub fn alloc_value(&mut self, value: KaffeeValue, constant: bool) -> (index: usize)
        requires
            old(self).wf(),
            old(self)@.next < usize::MAX,
        ensures
            final(self).wf(),
            !old(self)@.heap.contains_key(old(self)@.next),
            (final(self)@, Ok::<usize, RuntimeError>(index)) == allocated(
                old(self)@,
                value@,
                constant,
            ),
    {
        let index: usize = self.alloc_index;
        let ghost slot = SlotView { value: value@, constant };
        self.alloced.insert(index, AllocedValue { value, constant });
        self.alloc_index += 1;
        assert(self@.heap =~= old(self)@.heap.insert(index, slot));
        index
    }

    /// The value in the slot at `index`.
    pub fn read(&self, index: usize) -> (r: Result<&KaffeeValue, RuntimeError>)
        ensures
            match read_slot(self@.heap, index) {
                Err(e) => r == Err::<&KaffeeValue, RuntimeError>(e),
                Ok(value) => r is Ok && r->Ok_0@ == value,
            },
    {
        match self.alloced.get(&index) {
            Some(slot) => Ok(&slot.value),
            None => Err(RuntimeError::UnknownReference),
        }
    }

    /// Whether the slot at `index` is marked constant.
    pub fn is_constant(&self, index: usize) -> (r: Result<bool, RuntimeError>)
        ensures
            r == (if self@.heap.contains_key(index) {
                Ok(self@.heap[index].constant)
            } else {
                Err(RuntimeError::UnknownReference)
            }),
    {
        match self.alloced.get(&index) {
            Some(slot) => Ok(slot.constant),
            None => Err(RuntimeError::UnknownReference),
        }
    }

    /// Puts `value` into the slot at `index`. The slot's mark is kept and not
    /// looked at.
    pub fn write(&mut self, index: usize, value: KaffeeValue) -> (r: Result<(), RuntimeError>)
        requires
            old(self).wf(),
        ensures
            final(self).wf(),
            (final(self)@, r) == written(old(self)@, index, value@),
    {
        let constant: bool = match self.alloced.get(&index) {
            Some(slot) => slot.constant,
            None => {
                return Err(RuntimeError::UnknownReference);
            },
        };
        let ghost slot = SlotView { value: value@, constant };
        self.alloced.insert(index, AllocedValue { value, constant });
        assert(self@.heap =~= old(self)@.heap.insert(index, slot));
        Ok(())
    }

    /// Takes the slot at `index` out of the heap.
    pub fn remove(&mut self, index: usize)
        requires
            old(self).wf(),
        ensures
            final(self).wf(),
            final(self)@ == (VariablesView {
                heap: old(self)@.heap.remove(index),
                ..old(self)@
            }),
    {
        let _ = self.alloced.remove(&index);
        assert(self@.heap =~= old(self)@.heap.remove(index));
    }

    /// Where the object keeps the value of the key `kv`.
    pub fn lookup_object_value_index(&self, obj: &ObjectValue, kv: &KaffeeValue) -> (r: Result<
        (bool, usize),
        RuntimeError,
    >)
        ensures
            r == object_lookup(self@.heap, obj.keys@, obj.values@, kv@, 0),
    {
        let mut i: usize = 0;
        while i < obj.keys.len() && i < obj.values.len()
            invariant
                object_lookup(self@.heap, obj.keys@, obj.values@, kv@, 0) == object_lookup(
                    self@.heap,
                    obj.keys@,
                    obj.values@,
                    kv@,
                    i as int,
                ),
            decreases obj.keys.len() - i,
        {
            match self.alloced.get(&obj.keys[i]) {
                None => {
                    return Err(RuntimeError::UnknownReference);
                },
                Some(slot) => {
                    if slot.value.equals(kv) {
                        return Ok((true, obj.values[i]));
                    }
                },
            }
            i += 1;
        }
        Ok((false, 0))
    }

    /// Where the array keeps the element at the index `kv`.
    pub fn lookup_array_value_index(&self, arr: &Vec<usize>, kv: &KaffeeValue) -> (r: Result<
        (bool, usize),
        RuntimeError,
    >)
        ensures
            r == array_lookup(arr@, kv@),
    {
        match kv {
            KaffeeValue::Number(n) => match n.as_whole() {
                Whole::Exact(k) => {
                    if k < arr.len() as u64 {
                        Ok((true, arr[k as usize]))
                    } else {
                        Err(RuntimeError::IndexOutOfRange)
                    }
                },
                Whole::Huge => Err(RuntimeError::IndexOutOfRange),
                Whole::NotWhole => Err(RuntimeError::InvalidIndex),
            },
            _ => Err(RuntimeError::InvalidIndex),
        }
    }

    /// Adds the pair of `key` and `value` to the object in the slot at
    /// `obj_idx`, each of the two in a new slot.
    pub fn insert_into_object(&mut self, key: KaffeeValue, value: KaffeeValue, obj_idx: usize) -> (r:
        Result<(), RuntimeError>)
        requires
            old(self).wf(),
        ensures
            final(self).wf(),
            (final(self)@, r) == inserted(old(self)@, key@, value@, obj_idx),
    {
        let (mut keys, mut values, constant): (Vec<usize>, Vec<usize>, bool) = match self.alloced.get(
            &obj_idx,
        ) {
            None => {
                return Err(RuntimeError::UnknownReference);
            },
            Some(slot) => match &slot.value {
                KaffeeValue::Object(o) => (
                    clone_indices(&o.keys),
                    clone_indices(&o.values),
                    slot.constant,
                ),
                _ => {
                    return Err(RuntimeError::InvalidInsertionTarget);
                },
            },
        };
        if self.alloc_index >= usize::MAX - 1 {
            return Err(RuntimeError::HeapExhausted);
        }
        let ki: usize = self.alloc_value(key, false);
        let vi: usize = self.alloc_value(value, false);
        keys.push(ki);
        values.push(vi);
        let object = KaffeeValue::Object(ObjectValue { keys, values });
        let ghost slot = SlotView { value: object@, constant };
        let ghost before = self@.heap;
        self.alloced.insert(obj_idx, AllocedValue { value: object, constant });
        assert(self@.heap =~= before.insert(obj_idx, slot));
        Ok(())
    }
}

/// An empty heap and an empty scope stack.
pub fn new() -> (r: Variables)
    ensures
        r.wf(),
        r@ == (VariablesView { heap: Map::empty(), next: 0, scopes: Seq::empty() }),
{
    let r = Variables { alloced: HashMap::new(), alloc_index: 0, scopestack: Vec::new() };
    assert(r@.heap =~= Map::<usize, SlotView>::empty());
    assert(r@.scopes =~= Seq::<Map<Seq<char>, usize>>::empty());
    r
}

} // verus!

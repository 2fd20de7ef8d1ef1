//! The collector: a stop-the-world trace from the scope stack.
//!
//! A slot stays when a scope on the stack names its index, or when it is a
//! member of a composite value that a scope names. The trace goes one level
//! deep: the members of a member are not followed.

use vstd::prelude::*;
use std::collections::HashMap;
use std::collections::HashSet;
use vstd::std_specs::iter::IteratorSpec;
use crate::interpretting::interpreter_utils::AllocedValue;
use crate::interpretting::interpreter_utils::KaffeeValue;
use crate::interpretting::interpreter_utils::SlotView;
use crate::interpretting::interpreter_utils::members;
use crate::interpretting::variables::Scope;
use crate::interpretting::variables::heap_view;
use crate::interpretting::variables::scopes_view;
use crate::interpretting::variables::scopes_wf;

verus! {

broadcast use vstd::std_specs::hash::group_hash_axioms;

/// Whether some scope names `index`.
pub open spec fn is_root(scopes: Seq<Map<Seq<char>, usize>>, index: usize) -> bool {
    exists|f: int, n: Seq<char>|
        0 <= f < scopes.len() && (#[trigger] scopes[f].contains_key(n)) && scopes[f][n] == index
}

/// Whether `index` is `root` or a member of the composite value at `root`.
pub open spec fn reached_from(heap: Map<usize, SlotView>, root: usize, index: usize) -> bool {
    index == root || (heap.contains_key(root) && members(heap[root].value).contains(index))
}

/// The indices that the collector keeps.
pub open spec fn reachable(scopes: Seq<Map<Seq<char>, usize>>, heap: Map<usize, SlotView>) -> Set<
    usize,
> {
    Set::new(|i: usize| exists|root: usize| is_root(scopes, root) && reached_from(heap, root, i))
}

/// The heap after a run of the collector: the slots that are reachable.
pub open spec fn swept(scopes: Seq<Map<Seq<char>, usize>>, heap: Map<usize, SlotView>) -> Map<
    usize,
    SlotView,
> {
    heap.restrict(reachable(scopes, heap))
}

/// The collector never frees a slot that a scope names.
pub proof fn lemma_roots_are_kept(
    scopes: Seq<Map<Seq<char>, usize>>,
    heap: Map<usize, SlotView>,
    frame: int,
    name: Seq<char>,
)
    requires
        0 <= frame < scopes.len(),
        scopes[frame].contains_key(name),
        heap.contains_key(scopes[frame][name]),
    ensures
        swept(scopes, heap).contains_key(scopes[frame][name]),
        swept(scopes, heap)[scopes[frame][name]] == heap[scopes[frame][name]],
{
    let root = scopes[frame][name];
    assert(is_root(scopes, root));
    assert(reached_from(heap, root, root));
    assert(reachable(scopes, heap).contains(root));
}

/// The collector never frees a member of a composite value that a scope
/// names.
pub proof fn lemma_members_of_roots_are_kept(
    scopes: Seq<Map<Seq<char>, usize>>,
    heap: Map<usize, SlotView>,
    frame: int,
    name: Seq<char>,
    member: usize,
)
    requires
        0 <= frame < scopes.len(),
        scopes[frame].contains_key(name),
        heap.contains_key(scopes[frame][name]),
        members(heap[scopes[frame][name]].value).contains(member),
        heap.contains_key(member),
    ensures
        swept(scopes, heap).contains_key(member),
        swept(scopes, heap)[member] == heap[member],
{
    let root = scopes[frame][name];
    assert(is_root(scopes, root));
    assert(reached_from(heap, root, member));
    assert(reachable(scopes, heap).contains(member));
}

/// The collector frees every slot that is neither named by a scope nor a
/// member of a composite value that a scope names, and adds none.
pub proof fn lemma_unreachable_is_freed(
    scopes: Seq<Map<Seq<char>, usize>>,
    heap: Map<usize, SlotView>,
    index: usize,
)
    requires
        !is_root(scopes, index),
        forall|root: usize|
            is_root(scopes, root) && heap.contains_key(root) ==> !members(
                heap[root].value,
            ).contains(index),
    ensures
        !swept(scopes, heap).contains_key(index),
        forall|i: usize| swept(scopes, heap).contains_key(i) ==> heap.contains_key(i),
{
    if reachable(scopes, heap).contains(index) {
        let root = choose|root: usize| is_root(scopes, root) && reached_from(heap, root, index);
        assert(false);
    }
}

/// What a scope that has been closed named alone is freed: a slot stays
/// only if one of the scopes that are left reaches it.
pub proof fn lemma_closed_scope_is_freed(
    scopes: Seq<Map<Seq<char>, usize>>,
    heap: Map<usize, SlotView>,
    index: usize,
)
    requires
        scopes.len() > 0,
        !reachable(scopes.drop_last(), heap).contains(index),
    ensures
        !swept(scopes.drop_last(), heap).contains_key(index),
{
}

/// After a run of the collector every slot is one that a scope names or a
/// member of a composite value that a scope names.
pub proof fn lemma_swept_is_reachable(
    scopes: Seq<Map<Seq<char>, usize>>,
    heap: Map<usize, SlotView>,
    index: usize,
)
    requires
        swept(scopes, heap).contains_key(index),
    ensures
        reachable(scopes, swept(scopes, heap)).contains(index),
{
    let root = choose|root: usize| is_root(scopes, root) && reached_from(heap, root, index);
    if index != root {
        assert(reached_from(heap, root, root));
        assert(reachable(scopes, heap).contains(root));
        assert(swept(scopes, heap).contains_key(root));
    }
    assert(reached_from(swept(scopes, heap), root, index));
}

/// Whether `index` is reached from a binding that stands before binding `b`
/// of scope `f`.
pub open spec fn marked_by(
    stack: Seq<Scope>,
    heap: Map<usize, SlotView>,
    f: int,
    b: int,
    index: usize,
) -> bool {
    exists|g: int, c: int|
        0 <= g < stack.len() && 0 <= c < stack[g].bindings.len() && (g < f || (g == f && c < b))
            && #[trigger] reached_from(heap, stack[g].bindings[c].index, index)
}

/// Adds every index of the list to the set.
fn mark_all(seen: &mut HashSet<usize>, indices: &Vec<usize>)
    ensures
        final(seen)@ == old(seen)@.union(indices@.to_set()),
{
    let mut i: usize = 0;
    while i < indices.len()
        invariant
            i <= indices.len(),
            seen@ == old(seen)@.union(indices@.take(i as int).to_set()),
        decreases indices.len() - i,
    {
        seen.insert(indices[i]);
        proof {
            let before = indices@.take(i as int);
            let after = indices@.take(i + 1);
            assert(after =~= before.push(indices[i as int]));
            assert forall|k: usize| after.to_set().contains(k) == (before.to_set().contains(k) || k
                == indices[i as int]) by {
                if before.to_set().contains(k) {
                    let j = choose|j: int| 0 <= j < before.len() && before[j] == k;
                    assert(after[j] == k);
                }
                if k == indices[i as int] {
                    assert(after[i as int] == k);
                }
                if after.to_set().contains(k) {
                    let j = choose|j: int| 0 <= j < after.len() && after[j] == k;
                    if j < i {
                        assert(before[j] == k);
                    }
                }
            }
            assert(seen@ =~= old(seen)@.union(after.to_set()));
        }
        i += 1;
    }
    assert(indices@.take(i as int) =~= indices@);
}

/// The indices of all slots, in no particular order.
fn slot_indices(alloced: &HashMap<usize, AllocedValue>) -> (r: Vec<usize>)
    ensures
        r@.to_set() == alloced@.dom(),
{
    let mut out: Vec<usize> = Vec::new();
    for k in iter: alloced.keys()
        invariant
            out.len() == iter.index(),
            forall|j: int| 0 <= j < out.len() ==> out[j] == *iter.seq()[j],
    {
        out.push(*k);
    }
    assert(out@ =~= alloced.keys().remaining().unref());
    out
}

/// Frees every slot that the scope stack does not reach.
pub fn gc_collect(alloced: &mut HashMap<usize, AllocedValue>, scopestack: &Vec<Scope>)
    requires
        scopes_wf(scopestack@),
    ensures
        forall|i: usize| #[trigger]
            final(alloced)@.contains_key(i) ==> old(alloced)@.contains_key(i) && final(alloced)@[i]
                == old(alloced)@[i],
        forall|i: usize|
            final(alloced)@.contains_key(i) == (old(alloced)@.contains_key(i) && reachable(
                scopes_view(scopestack@),
                heap_view(old(alloced)@),
            ).contains(i)),
        heap_view(final(alloced)@) == heap_view(old(alloced)@).restrict(
            reachable(scopes_view(scopestack@), heap_view(old(alloced)@)),
        ),
{
    let ghost heap = heap_view(alloced@);
    let ghost stack = scopestack@;
    let mut seen: HashSet<usize> = HashSet::new();
    let mut f: usize = 0;
    while f < scopestack.len()
        invariant
            f <= scopestack.len(),
            stack == scopestack@,
            heap == heap_view(alloced@),
            alloced@ == old(alloced)@,
            forall|i: usize| seen@.contains(i) == marked_by(stack, heap, f as int, 0, i),
        decreases scopestack.len() - f,
    {
        let scope = &scopestack[f];
        let mut b: usize = 0;
        while b < scope.bindings.len()
            invariant
                f < scopestack.len(),
                b <= scope.bindings.len(),
                stack == scopestack@,
                *scope == scopestack[f as int],
                heap == heap_view(alloced@),
                alloced@ == old(alloced)@,
                forall|i: usize| seen@.contains(i) == marked_by(stack, heap, f as int, b as int, i),
            decreases scope.bindings.len() - b,
        {
            let root: usize = scope.bindings[b].index;
            let ghost before = seen@;
            seen.insert(root);
            match alloced.get(&root) {
                Some(slot) => match &slot.value {
                    KaffeeValue::Object(o) => {
                        mark_all(&mut seen, &o.keys);
                        mark_all(&mut seen, &o.values);
                    },
                    KaffeeValue::Array(a) => {
                        mark_all(&mut seen, a);
                    },
                    _ => {},
                },
                None => {},
            }
            proof {
                assert forall|i: usize| seen@.contains(i) == (before.contains(i) || reached_from(
                    heap,
                    root,
                    i,
                )) by {}
                assert forall|i: usize| seen@.contains(i) == marked_by(
                    stack,
                    heap,
                    f as int,
                    b + 1,
                    i,
                ) by {
                    if marked_by(stack, heap, f as int, b + 1, i) {
                        let (g, c) = choose|g: int, c: int|
                            0 <= g < stack.len() && 0 <= c < stack[g].bindings.len() && (g < f || (g
                                == f && c < b + 1)) && #[trigger] reached_from(
                                heap,
                                stack[g].bindings[c].index,
                                i,
                            );
                        if !(g == f && c == b) {
                            assert(marked_by(stack, heap, f as int, b as int, i));
                        }
                    }
                    if before.contains(i) {
                        let (g, c) = choose|g: int, c: int|
                            0 <= g < stack.len() && 0 <= c < stack[g].bindings.len() && (g < f || (g
                                == f && c < b)) && #[trigger] reached_from(
                                heap,
                                stack[g].bindings[c].index,
                                i,
                            );
                        assert(reached_from(heap, stack[g].bindings[c].index, i));
                    }
                    if reached_from(heap, root, i) {
                        assert(reached_from(heap, stack[f as int].bindings[b as int].index, i));
                    }
                }
            }
            b += 1;
        }
        proof {
            assert forall|i: usize| seen@.contains(i) == marked_by(stack, heap, f + 1, 0, i) by {
                if marked_by(stack, heap, f + 1, 0, i) {
                    let (g, c) = choose|g: int, c: int|
                        0 <= g < stack.len() && 0 <= c < stack[g].bindings.len() && (g < f + 1 || (g
                            == f + 1 && c < 0)) && #[trigger] reached_from(
                            heap,
                            stack[g].bindings[c].index,
                            i,
                        );
                    assert(reached_from(heap, stack[g].bindings[c].index, i));
                }
                if marked_by(stack, heap, f as int, b as int, i) {
                    let (g, c) = choose|g: int, c: int|
                        0 <= g < stack.len() && 0 <= c < stack[g].bindings.len() && (g < f || (g
                            == f && c < b)) && #[trigger] reached_from(
                            heap,
                            stack[g].bindings[c].index,
                            i,
                        );
                    assert(reached_from(heap, stack[g].bindings[c].index, i));
                }
            }
        }
        f += 1;
    }
    proof {
        lemma_marked_is_reachable(stack, heap);
    }
    let ghost keep = reachable(scopes_view(stack), heap);
    let indices: Vec<usize> = slot_indices(alloced);
    let mut k: usize = 0;
    while k < indices.len()
        invariant
            k <= indices.len(),
            indices@.to_set() == old(alloced)@.dom(),
            forall|i: usize| seen@.contains(i) == keep.contains(i),
            forall|i: usize| #[trigger]
                alloced@.contains_key(i) ==> old(alloced)@.contains_key(i) && alloced@[i] == old(
                    alloced,
                )@[i],
            forall|i: usize|
                (#[trigger] alloced@.contains_key(i)) == (old(alloced)@.contains_key(i) && (
                keep.contains(i) || !indices@.take(k as int).contains(i))),
        decreases indices.len() - k,
    {
        let index: usize = indices[k];
        let ghost table = alloced@;
        if !seen.contains(&index) {
            let _ = alloced.remove(&index);
        }
        proof {
            let before = indices@.take(k as int);
            let after = indices@.take(k + 1);
            assert(after =~= before.push(index));
            assert forall|i: usize| after.contains(i) == (before.contains(i) || i == index) by {
                if before.contains(i) {
                    let j = choose|j: int| 0 <= j < before.len() && before[j] == i;
                    assert(after[j] == i);
                }
                if i == index {
                    assert(after[k as int] == i);
                }
                if after.contains(i) {
                    let j = choose|j: int| 0 <= j < after.len() && after[j] == i;
                    if j < k {
                        assert(before[j] == i);
                    }
                }
            }
            assert(seen@.contains(index) == keep.contains(index));
            assert forall|i: usize|
                (#[trigger] alloced@.contains_key(i)) == (old(alloced)@.contains_key(i) && (
                keep.contains(i) || !after.contains(i))) by {
                assert(after.contains(i) == (before.contains(i) || i == index));
                assert(table.contains_key(i) == (old(alloced)@.contains_key(i) && (keep.contains(i)
                    || !before.contains(i))));
                if seen@.contains(index) {
                    assert(alloced@ == table);
                } else {
                    assert(alloced@ == table.remove(index));
                }
                if i == index {
                    assert(indices@.to_set().contains(index)) by {
                        assert(indices@[k as int] == index);
                    }
                }
            }
        }
        k += 1;
    }
    proof {
        assert(indices@.take(k as int) =~= indices@);
        assert forall|i: usize|
            alloced@.contains_key(i) == (old(alloced)@.contains_key(i) && keep.contains(i)) by {
            if old(alloced)@.contains_key(i) {
                assert(indices@.to_set().contains(i));
                assert(indices@.contains(i));
            }
        }
        assert(heap_view(alloced@) =~= heap.restrict(keep));
    }
}

/// Once every binding has been traced, what is marked is what is reachable.
proof fn lemma_marked_is_reachable(stack: Seq<Scope>, heap: Map<usize, SlotView>)
    requires
        scopes_wf(stack),
    ensures
        forall|i: usize|
            marked_by(stack, heap, stack.len() as int, 0, i) == reachable(
                scopes_view(stack),
                heap,
            ).contains(i),
{
    let scopes = scopes_view(stack);
    assert forall|i: usize|
        marked_by(stack, heap, stack.len() as int, 0, i) == reachable(scopes, heap).contains(
            i,
        ) by {
        if marked_by(stack, heap, stack.len() as int, 0, i) {
            let (g, c) = choose|g: int, c: int|
                0 <= g < stack.len() && 0 <= c < stack[g].bindings.len() && (g < stack.len() || (g
                    == stack.len() && c < 0)) && #[trigger] reached_from(
                    heap,
                    stack[g].bindings[c].index,
                    i,
                );
            assert(stack[g].wf());
            stack[g].lemma_binding(c);
            let root = stack[g].bindings[c].index;
            assert(scopes[g].contains_key(stack[g].bindings[c].name@));
            assert(is_root(scopes, root));
            assert(reachable(scopes, heap).contains(i));
        }
        if reachable(scopes, heap).contains(i) {
            let root = choose|root: usize| is_root(scopes, root) && reached_from(heap, root, i);
            let (g, n) = choose|g: int, n: Seq<char>|
                0 <= g < scopes.len() && (#[trigger] scopes[g].contains_key(n)) && scopes[g][n]
                    == root;
            let c = choose|c: int| stack[g].binds_at(n, c);
            assert(stack[g].wf());
            stack[g].lemma_binding(c);
            assert(reached_from(heap, stack[g].bindings[c].index, i));
        }
    }
}

} // verus!

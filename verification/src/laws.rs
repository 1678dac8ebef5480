//! Laws of the compilation context, stated and proved once for all inputs.

use crate::callset::{call_registration_effect, strictly_sorted};
use vstd::prelude::*;

verus! {

/// One bracketing operation on a stack of compilation units: opening a unit
/// or completing the innermost open one. The same discipline governs the
/// module stack and each module's procedure stack.
pub enum StackOp {
    /// A successful `begin_module` or `begin_proc`: pushes a unit.
    Begin,
    /// A `complete_module` or `complete_proc`: pops the innermost unit.
    Complete,
}

/// The depth of the stack after a sequence of bracketing operations, starting
/// from an empty stack: each `Begin` adds a unit, each `Complete` removes one.
pub open spec fn depth_after(ops: Seq<StackOp>) -> int
    decreases ops.len(),
{
    if ops.len() == 0 {
        0
    } else {
        depth_after(ops.drop_last()) + match ops.last() {
            StackOp::Begin => 1int,
            StackOp::Complete => -1int,
        }
    }
}

/// The number of `Begin` operations in a sequence.
pub open spec fn count_begins(ops: Seq<StackOp>) -> int
    decreases ops.len(),
{
    if ops.len() == 0 {
        0
    } else {
        count_begins(ops.drop_last()) + match ops.last() {
            StackOp::Begin => 1int,
            StackOp::Complete => 0int,
        }
    }
}

/// The number of `Complete` operations in a sequence.
pub open spec fn count_completes(ops: Seq<StackOp>) -> int
    decreases ops.len(),
{
    if ops.len() == 0 {
        0
    } else {
        count_completes(ops.drop_last()) + match ops.last() {
            StackOp::Begin => 0int,
            StackOp::Complete => 1int,
        }
    }
}

/// A valid sequence of operations: every `Complete` finds a unit to pop.
/// This is the precondition discipline the context enforces: completing with
/// an empty stack is a programming error ruled out by `requires`, not a
/// recoverable state.
pub open spec fn valid_ops(ops: Seq<StackOp>) -> bool {
    forall|i: int|
        0 <= i < ops.len() && (#[trigger] ops[i]) is Complete ==> depth_after(ops.take(i)) > 0
}

/// Stack balance: over any valid sequence of bracketing operations, the
/// number of completions never exceeds the number of openings, and the stack
/// depth never goes negative. By the contracts of `begin_module` /
/// `complete_module` and `begin_proc` / `complete_proc` — a successful begin
/// pushes exactly one unit and a complete requires a unit and pops exactly
/// one — this holds of the module stack and of every procedure stack.
pub proof fn lemma_stack_balance(ops: Seq<StackOp>)
    requires
        valid_ops(ops),
    ensures
        depth_after(ops) >= 0,
        depth_after(ops) == count_begins(ops) - count_completes(ops),
        count_completes(ops) <= count_begins(ops),
    decreases ops.len(),
{
    if ops.len() > 0 {
        assert(ops.take(ops.len() - 1) =~= ops.drop_last());
        assert forall|i: int|
            0 <= i < ops.drop_last().len() && (#[trigger] ops.drop_last()[i]) is Complete implies
            depth_after(ops.drop_last().take(i)) > 0 by {
            assert(ops[i] is Complete);
            assert(ops.drop_last().take(i) =~= ops.take(i));
        }
        lemma_stack_balance(ops.drop_last());
        if ops.last() is Complete {
            assert(depth_after(ops.take(ops.len() - 1)) > 0);
        }
    }
}

/// Call set algebra: a procedure P whose body makes exactly one call, to a
/// procedure Q, ends with `callset(P) == callset(Q)` when the call is
/// inlined, and `callset(P) == callset(Q) + {hash(Q)}` when it is not. P's
/// call set starts empty, and registering the call applies
/// `call_registration_effect`, as the contracts of `register_local_call` and
/// `register_external_call` state.
pub proof fn lemma_callset_of_single_call(q_callset: Set<u64>, q_root: u64)
    ensures
        call_registration_effect(Set::<u64>::empty(), q_callset, q_root, true) == q_callset,
        call_registration_effect(Set::<u64>::empty(), q_callset, q_root, false)
            == q_callset.insert(q_root),
{
    assert(call_registration_effect(Set::<u64>::empty(), q_callset, q_root, true) =~= q_callset);
    assert(call_registration_effect(Set::<u64>::empty(), q_callset, q_root, false)
        =~= q_callset.insert(q_root));
}

/// Registration order is irrelevant: registering two calls in either order
/// leaves the compiling procedure with the same call set. Together with
/// `lemma_sorted_set_determines_elements` this makes finalization
/// deterministic: a call set, and hence the code block table built from it,
/// depends only on which calls were registered, never on their order.
pub proof fn lemma_registration_order_irrelevant(
    current: Set<u64>,
    a_callset: Set<u64>,
    a_root: u64,
    a_inlined: bool,
    b_callset: Set<u64>,
    b_root: u64,
    b_inlined: bool,
)
    ensures
        call_registration_effect(
            call_registration_effect(current, a_callset, a_root, a_inlined),
            b_callset,
            b_root,
            b_inlined,
        ) == call_registration_effect(
            call_registration_effect(current, b_callset, b_root, b_inlined),
            a_callset,
            a_root,
            a_inlined,
        ),
{
    assert(call_registration_effect(
        call_registration_effect(current, a_callset, a_root, a_inlined),
        b_callset,
        b_root,
        b_inlined,
    ) =~= call_registration_effect(
        call_registration_effect(current, b_callset, b_root, b_inlined),
        a_callset,
        a_root,
        a_inlined,
    ));
}

/// A call set's canonical layout is determined by its contents: two strictly
/// sorted sequences holding the same set of hashes are the same sequence.
/// Hence two call sets built from the same calls are equal as values, and
/// iterating one at finalization visits the same hashes in the same order.
pub proof fn lemma_sorted_set_determines_elements(s1: Seq<u64>, s2: Seq<u64>)
    requires
        strictly_sorted(s1),
        strictly_sorted(s2),
        s1.to_set() == s2.to_set(),
    ensures
        s1 == s2,
    decreases s1.len(),
{
    if s1.len() == 0 {
        if s2.len() > 0 {
            assert(s2.to_set().contains(s2[0]));
            assert(s1.contains(s2[0]));
            assert(false);
        }
        assert(s1 =~= s2);
    } else {
        assert(s1.to_set().contains(s1[0]));
        assert(s2.contains(s1[0]));
        if s2.len() == 0 {
            assert(s2.to_set().contains(s1[0]));
            assert(false);
        }
        assert(s2.to_set().contains(s2[0]));
        assert(s1.contains(s2[0]));
        let i1 = choose|i: int| 0 <= i < s1.len() && s1[i] == s2[0];
        let i2 = choose|i: int| 0 <= i < s2.len() && s2[i] == s1[0];
        assert(s1[i1] >= s1[0]);
        assert(s2[i2] >= s2[0]);
        assert(s1[0] == s2[0]);
        let t1 = s1.drop_first();
        let t2 = s2.drop_first();
        assert(strictly_sorted(t1)) by {
            assert forall|i: int, j: int| 0 <= i < j < t1.len() implies t1[i] < t1[j] by {
                assert(t1[i] == s1[i + 1] && t1[j] == s1[j + 1]);
            }
        }
        assert(strictly_sorted(t2)) by {
            assert forall|i: int, j: int| 0 <= i < j < t2.len() implies t2[i] < t2[j] by {
                assert(t2[i] == s2[i + 1] && t2[j] == s2[j + 1]);
            }
        }
        assert(t1.to_set() =~= t2.to_set()) by {
            assert forall|x: u64| t1.to_set().contains(x) implies t2.to_set().contains(x) by {
                let i = choose|i: int| 0 <= i < t1.len() && t1[i] == x;
                assert(s1[i + 1] == x);
                assert(x > s1[0]);
                assert(s1.contains(x));
                assert(s2.to_set().contains(x));
                let j = choose|j: int| 0 <= j < s2.len() && s2[j] == x;
                assert(j > 0);
                assert(t2[j - 1] == x);
                assert(t2.contains(x));
            }
            assert forall|x: u64| t2.to_set().contains(x) implies t1.to_set().contains(x) by {
                let i = choose|i: int| 0 <= i < t2.len() && t2[i] == x;
                assert(s2[i + 1] == x);
                assert(x > s2[0]);
                assert(s2.contains(x));
                assert(s1.to_set().contains(x));
                let j = choose|j: int| 0 <= j < s1.len() && s1[j] == x;
                assert(j > 0);
                assert(t1[j - 1] == x);
                assert(t1.contains(x));
            }
        }
        lemma_sorted_set_determines_elements(t1, t2);
        assert(s1.len() == s2.len());
        assert forall|i: int| 0 <= i < s1.len() implies s1[i] == s2[i] by {
            if i > 0 {
                assert(t1[i - 1] == s1[i]);
                assert(t2[i - 1] == s2[i]);
            }
        }
        assert(s1 =~= s2);
    }
}

} // verus!

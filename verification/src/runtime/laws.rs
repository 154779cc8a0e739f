//! What holds of every execution.

use crate::format::binary_format::{NodeView, OpCode};
use crate::runtime::async_runtime::{
    registry_ok, spec_begin, };
use crate::runtime::error::RuntimeErrorView;
use crate::runtime::floats::FloatModel;
use crate::runtime::semantics::{
    apply_binary, apply_unary, bind_from, bind_local, eval_arg, eval_args, eval_node,
    eval_opcode, find_node, get_value, print_from, run_branch, set_value, ContextView, };
use crate::runtime::value::{truthy, ValueView};
use vstd::prelude::*;

verus! {

/// Whether the state `b` can come after the state `a` in an execution: the
/// program, the limits and the capabilities are the same, and every id
/// that had a memoized value has one.
pub open spec fn same_setting(a: ContextView, b: ContextView) -> bool {
    &&& a.program == b.program
    &&& a.max_call_depth == b.max_call_depth
    &&& a.max_eval_depth == b.max_eval_depth
    &&& a.granted_capabilities == b.granted_capabilities
    &&& forall|id: u32| a.values.contains_key(id) ==> #[trigger] b.values.contains_key(id)
}

/// Evaluating a node changes neither the program nor the limits, and
/// forgets no memoized value.
pub proof fn lemma_node_keeps_setting(m: FloatModel, st: ContextView, id: u32, fuel: nat)
    ensures
        same_setting(st, eval_node(m, st, id, fuel).0),
    decreases fuel, 1nat, 0nat,
{
    match find_node(st.program.nodes, id) {
        None => {},
        Some(node) => match get_value(st, node.result_id) {
            Some(_) => {},
            None => if fuel != 0 && OpCode::is_known(node.opcode) {
                lemma_opcode_keeps_setting(
                    m,
                    st,
                    crate::runtime::semantics::opcode_of(node.opcode),
                    node,
                    (fuel - 1) as nat,
                );
            },
        },
    }
}

/// Resolving an operand changes neither the program nor the limits.
pub proof fn lemma_arg_keeps_setting(
    m: FloatModel,
    st: ContextView,
    node: NodeView,
    index: int,
    fuel: nat,
)
    ensures
        same_setting(st, eval_arg(m, st, node, index, fuel).0),
    decreases fuel, 2nat, 0nat,
{
    if 0 <= index < crate::runtime::semantics::operand_count(node) && node.args[index] != 0 {
        if get_value(st, node.args[index]) is None {
            lemma_node_keeps_setting(m, st, node.args[index], fuel);
        }
    }
}

/// Evaluating operands in turn changes neither the program nor the limits.
pub proof fn lemma_args_keep_setting(
    m: FloatModel,
    st: ContextView,
    node: NodeView,
    from: int,
    to: int,
    done: Seq<ValueView>,
    fuel: nat,
)
    ensures
        same_setting(st, eval_args(m, st, node, from, to, done, fuel).0),
    decreases fuel, 3nat, to - from,
{
    if from < to {
        lemma_arg_keeps_setting(m, st, node, from, fuel);
        let (s1, r) = eval_arg(m, st, node, from, fuel);
        if let Ok(v) = r {
            lemma_args_keep_setting(m, s1, node, from + 1, to, done.push(v), fuel);
        }
    }
}

/// Printing changes neither the program nor the limits.
pub proof fn lemma_print_keeps_setting(
    m: FloatModel,
    st: ContextView,
    node: NodeView,
    i: int,
    fuel: nat,
)
    ensures
        same_setting(st, print_from(m, st, node, i, fuel).0),
    decreases fuel, 3nat, node.arg_count - i,
{
    if 0 <= i < node.arg_count {
        lemma_arg_keeps_setting(m, st, node, i, fuel);
        let (s1, r) = eval_arg(m, st, node, i, fuel);
        if let Ok(v) = r {
            let text = s1.output + crate::runtime::value::text_of(m, v);
            let s2 = ContextView {
                output: if i < node.arg_count - 1 {
                    text + " "@
                } else {
                    text
                },
                ..s1
            };
            lemma_print_keeps_setting(m, s2, node, i + 1, fuel);
        }
    }
}

/// Binding the operands of a call changes neither the program nor the
/// limits.
pub proof fn lemma_bind_keeps_setting(
    m: FloatModel,
    st: ContextView,
    node: NodeView,
    i: int,
    fuel: nat,
)
    ensures
        same_setting(st, bind_from(m, st, node, i, fuel).0),
    decreases fuel, 3nat, node.arg_count - i,
{
    if 1 <= i < node.arg_count {
        lemma_arg_keeps_setting(m, st, node, i, fuel);
        let (s1, r) = eval_arg(m, st, node, i, fuel);
        if let Ok(v) = r {
            lemma_bind_keeps_setting(m, bind_local(s1, i as u32, v), node, i + 1, fuel);
        }
    }
}

/// Running a node changes neither the program nor the limits.
pub proof fn lemma_opcode_keeps_setting(
    m: FloatModel,
    st: ContextView,
    op: OpCode,
    node: NodeView,
    fuel: nat,
)
    ensures
        same_setting(st, eval_opcode(m, st, op, node, fuel).0),
    decreases fuel, 5nat, 0nat,
{
    lemma_arg_keeps_setting(m, st, node, 0, fuel);
    lemma_arg_keeps_setting(m, st, node, 1, fuel);
    let (s0, r0) = eval_arg(m, st, node, 0, fuel);
    let (s1, r1) = eval_arg(m, st, node, 1, fuel);
    lemma_arg_keeps_setting(m, s0, node, 1, fuel);
    lemma_arg_keeps_setting(m, s0, node, 2, fuel);
    lemma_args_keep_setting(m, s1, node, 0, 2, Seq::empty(), fuel);
    lemma_args_keep_setting(m, st, node, 0, node.arg_count as int, Seq::empty(), fuel);
    lemma_args_keep_setting(
        m,
        st,
        node,
        0,
        crate::runtime::semantics::fixed_operands(op),
        Seq::empty(),
        fuel,
    );
    lemma_print_keeps_setting(m, st, node, 0, fuel);
    if op == OpCode::Call {
        if let Ok(ValueView::Function { node_id, .. }) = r0 {
            if s0.call_stack.len() < s0.max_call_depth {
                let s2 = ContextView {
                    call_stack: s0.call_stack.push(
                        crate::runtime::semantics::FrameView {
                            node_id,
                            locals: Map::empty(),
                            return_to: Some(node.result_id),
                        },
                    ),
                    ..s0
                };
                lemma_bind_keeps_setting(m, s2, node, 1, fuel);
                let (s3, bound) = bind_from(m, s2, node, 1, fuel);
                if bound is Ok {
                    lemma_node_keeps_setting(m, s3, node_id, fuel);
                }
            }
        }
    }
}

/// The node that an id names has that id.
pub proof fn lemma_found_node_has_the_id(nodes: Seq<NodeView>, id: u32, from: int)
    requires
        0 <= from,
    ensures
        crate::runtime::semantics::node_from(nodes, id, from) matches Some(node) ==> node.result_id
            == id,
    decreases nodes.len() - from,
{
    if from < nodes.len() && nodes[from].result_id != id {
        lemma_found_node_has_the_id(nodes, id, from + 1);
    }
}

/// A division by zero is an error before anything is divided: where the
/// second operand resolves to the integer zero or a float zero, of either
/// sign, the division fails and the first operand is never resolved.
pub proof fn lemma_division_by_zero(m: FloatModel, st: ContextView, node: NodeView, fuel: nat)
    requires
        eval_arg(m, st, node, 1, fuel).1 matches Ok(divisor)
            && crate::runtime::semantics::is_zero_divisor(divisor),
    ensures
        crate::runtime::semantics::run_division(m, st, node, fuel) == (
            eval_arg(m, st, node, 1, fuel).0,
            Err::<ValueView, RuntimeErrorView>(RuntimeErrorView::DivisionByZero),
        ),
{
}

/// A node is run at most once. Once evaluating a node has given a value,
/// evaluating it again, whatever nesting is left, gives the same value and
/// leaves the state as it is: nothing is put out, allocated or completed a
/// second time.
pub proof fn lemma_node_runs_once(m: FloatModel, st: ContextView, id: u32, fuel: nat, later: nat)
    requires
        eval_node(m, st, id, fuel).1 is Ok,
    ensures
        get_value(eval_node(m, st, id, fuel).0, id) == Some(eval_node(m, st, id, fuel).1->Ok_0),
        eval_node(m, eval_node(m, st, id, fuel).0, id, later) == eval_node(m, st, id, fuel),
{
    lemma_node_keeps_setting(m, st, id, fuel);
    let node = find_node(st.program.nodes, id)->Some_0;
    lemma_found_node_has_the_id(st.program.nodes, id, 0);
    if get_value(st, node.result_id) is None {
        let (s1, r) = eval_opcode(
            m,
            st,
            crate::runtime::semantics::opcode_of(node.opcode),
            node,
            (fuel - 1) as nat,
        );
        lemma_opcode_keeps_setting(
            m,
            st,
            crate::runtime::semantics::opcode_of(node.opcode),
            node,
            (fuel - 1) as nat,
        );
        let v = r->Ok_0;
        let s2 = set_value(s1, node.result_id, v);
        assert(get_value(s2, node.result_id) == Some(v));
    }
}

/// An operand that has a value is not evaluated: resolving it gives that
/// value and leaves the state as it is.
pub proof fn lemma_known_operand_is_not_run(
    m: FloatModel,
    st: ContextView,
    node: NodeView,
    index: int,
    fuel: nat,
)
    requires
        0 <= index < crate::runtime::semantics::operand_count(node),
        node.args[index] != 0,
        get_value(st, node.args[index]) is Some,
    ensures
        eval_arg(m, st, node, index, fuel) == (st, Ok::<ValueView, RuntimeErrorView>(
            get_value(st, node.args[index])->Some_0,
        )),
{
}

/// What `node` is with the operand slot `index` holding `slot`.
pub open spec fn with_slot(node: NodeView, index: int, slot: u32) -> NodeView {
    NodeView { args: node.args.update(index, slot), ..node }
}

/// A branch is lazy. Once the condition is resolved, the branch gives what
/// the chosen operand gives and leaves the state that resolving the chosen
/// operand leaves: the second operand where the condition counts as true,
/// the third where it does not, and nil in the state as it is where it does
/// not and there is no third. The operand that is not chosen plays no
/// part: whatever its slot holds, the value or error and the state after
/// are the same. So it is not evaluated on the branch's account, gets no
/// memoized value, puts nothing out, changes neither the heap nor a
/// computation, and no error of it shows.
pub proof fn lemma_branch_is_lazy(m: FloatModel, st: ContextView, node: NodeView, fuel: nat)
    requires
        node.args.len() == 3,
        eval_arg(m, st, node, 0, fuel).1 is Ok,
    ensures
        ({
            let (s1, r) = eval_arg(m, st, node, 0, fuel);
            let c = r->Ok_0;
            &&& run_branch(m, st, node, fuel) == if truthy(c) {
                eval_arg(m, s1, node, 1, fuel)
            } else if node.arg_count > 2 {
                eval_arg(m, s1, node, 2, fuel)
            } else {
                (s1, Ok::<ValueView, RuntimeErrorView>(ValueView::Nil))
            }
            &&& truthy(c) ==> forall|slot: u32|
                run_branch(m, st, #[trigger] with_slot(node, 2, slot), fuel) == run_branch(
                    m,
                    st,
                    node,
                    fuel,
                )
            &&& !truthy(c) ==> forall|slot: u32|
                run_branch(m, st, #[trigger] with_slot(node, 1, slot), fuel) == run_branch(
                    m,
                    st,
                    node,
                    fuel,
                )
        }),
{
    let (s1, r) = eval_arg(m, st, node, 0, fuel);
    let c = r->Ok_0;
    if truthy(c) {
        assert forall|slot: u32|
            run_branch(m, st, #[trigger] with_slot(node, 2, slot), fuel) == run_branch(
                m,
                st,
                node,
                fuel,
            ) by {
            let other = with_slot(node, 2, slot);
            assert(eval_arg(m, st, other, 0, fuel) == eval_arg(m, st, node, 0, fuel));
            assert(eval_arg(m, s1, other, 1, fuel) == eval_arg(m, s1, node, 1, fuel));
        }
    } else {
        assert forall|slot: u32|
            run_branch(m, st, #[trigger] with_slot(node, 1, slot), fuel) == run_branch(
                m,
                st,
                node,
                fuel,
            ) by {
            let other = with_slot(node, 1, slot);
            assert(eval_arg(m, st, other, 0, fuel) == eval_arg(m, st, node, 0, fuel));
            assert(eval_arg(m, s1, other, 2, fuel) == eval_arg(m, s1, node, 2, fuel));
        }
    }
}

/// Awaiting never blocks. A handle whose computation has not ended is
/// given back as it is, and the state stays as it is; a handle whose
/// computation was completed gives the value it was completed with.
pub proof fn lemma_await_does_not_block(m: FloatModel, st: ContextView, value: ValueView)
    requires
        registry_ok(st.async_runtime),
        st.async_runtime.next_id < u64::MAX,
    ensures
        ({
            let (begun, handle) = spec_begin(st.async_runtime);
            let s1 = ContextView { async_runtime: begun, ..st };
            let (s2, completed) = apply_binary(
                m,
                s1,
                OpCode::AsyncComplete,
                ValueView::AsyncHandle(handle),
                value,
            );
            &&& apply_unary(s1, OpCode::AsyncAwait, ValueView::AsyncHandle(handle)) == (
                s1,
                Ok::<ValueView, RuntimeErrorView>(ValueView::AsyncHandle(handle)),
            )
            &&& completed == Ok::<ValueView, RuntimeErrorView>(ValueView::Nil)
            &&& apply_unary(s2, OpCode::AsyncAwait, ValueView::AsyncHandle(handle)) == (
                s2,
                Ok::<ValueView, RuntimeErrorView>(value),
            )
        }),
{
}

/// Whether no two entries have the same key.
pub open spec fn unique_keys(entries: Seq<(Seq<char>, ValueView)>) -> bool {
    forall|i: int, j: int|
        0 <= i < j < entries.len() ==> (#[trigger] entries[i]).0 != (#[trigger] entries[j]).0
}

/// Where the first entry under a key is found, no entry before it has the
/// key; where none is found, no entry has it.
pub proof fn lemma_entry_from(entries: Seq<(Seq<char>, ValueView)>, key: Seq<char>, from: int)
    requires
        0 <= from,
    ensures
        match crate::runtime::value::entry_from(entries, key, from) {
            Some(i) => from <= i < entries.len() && entries[i].0 == key && forall|j: int|
                from <= j < i ==> (#[trigger] entries[j]).0 != key,
            None => forall|j: int| from <= j < entries.len() ==> (#[trigger] entries[j]).0 != key,
        },
    decreases entries.len() - from,
{
    if from < entries.len() && entries[from].0 != key {
        lemma_entry_from(entries, key, from + 1);
    }
}

/// Setting a key keeps a mapping free of double keys, and what is then
/// read under the key is what was set.
pub proof fn lemma_map_set_then_get(
    entries: Seq<(Seq<char>, ValueView)>,
    key: Seq<char>,
    value: ValueView,
)
    requires
        unique_keys(entries),
    ensures
        unique_keys(crate::runtime::semantics::with_entry(entries, key, value)),
        crate::runtime::value::lookup(
            crate::runtime::semantics::with_entry(entries, key, value),
            key,
        ) == Some(value),
{
    let after = crate::runtime::semantics::with_entry(entries, key, value);
    lemma_entry_from(entries, key, 0);
    lemma_entry_from(after, key, 0);
    match crate::runtime::value::entry_from(entries, key, 0) {
        Some(i) => {
            assert(after[i] == (key, value));
            assert forall|a: int, b: int| 0 <= a < b < after.len() implies (#[trigger] after[a]).0
                != (#[trigger] after[b]).0 by {
                assert(entries[a].0 != entries[b].0);
            }
        },
        None => {
            assert(after[entries.len() as int] == (key, value));
            assert forall|a: int, b: int| 0 <= a < b < after.len() implies (#[trigger] after[a]).0
                != (#[trigger] after[b]).0 by {
                if b < entries.len() {
                    assert(entries[a].0 != entries[b].0);
                } else {
                    assert(entries[a].0 != key);
                }
            }
        },
    }
}

} // verus!

//! What executing a graph means, stated over the views of the runtime's
//! state.
//!
//! A node is evaluated on demand: its operands are resolved through the
//! table of memoized values first, and only a node without a memoized value
//! is run. Every function here takes the state before and gives the state
//! after together with the value or the error; an error ends the execution
//! and leaves the state as it was when the error was met.

use crate::format::binary_format::{
    Capability, ConstantPoolView, NodeView, OpCode, ProgramView,
};
use crate::runtime::async_runtime::{
    invalid, spec_begin, spec_complete, spec_result, AsyncHandle, AsyncView,
};
use crate::runtime::error::RuntimeErrorView;
use crate::runtime::floats::{is_zero_bits, FloatModel, FloatOp};
use crate::runtime::memory::{
    spec_allocate, spec_free, spec_load, spec_store, HeapView, MemoryReference,
};
use crate::runtime::text::decimal;
use crate::runtime::value::{
    entry_from, kind_name_of, lookup, text_of, truthy, value_eq, ValueView,
};
use vstd::prelude::*;

verus! {

/// What a call frame holds.
pub struct FrameView {
    pub node_id: u32,
    pub locals: Map<u32, ValueView>,
    pub return_to: Option<u32>,
}

/// What the state of an execution holds.
pub struct ContextView {
    pub program: ProgramView,
    pub values: Map<u32, ValueView>,
    pub call_stack: Seq<FrameView>,
    pub granted_capabilities: Seq<Capability>,
    pub max_call_depth: usize,
    pub max_eval_depth: usize,
    pub memory: HeapView,
    pub async_runtime: AsyncView,
    pub output: Seq<char>,
}

/// The state after a step, and the value or the error of the step.
pub type Outcome = (ContextView, Result<ValueView, RuntimeErrorView>);

/// The state after some operands were evaluated, and their values or the
/// error.
pub type Operands = (ContextView, Result<Seq<ValueView>, RuntimeErrorView>);

/// The first node at or behind position `from` whose `result_id` is `id`.
pub open spec fn node_from(nodes: Seq<NodeView>, id: u32, from: int) -> Option<NodeView>
    decreases nodes.len() - from,
{
    if from < 0 || from >= nodes.len() {
        None
    } else if nodes[from].result_id == id {
        Some(nodes[from])
    } else {
        node_from(nodes, id, from + 1)
    }
}

/// The node that `id` names: the first whose `result_id` it is.
pub open spec fn find_node(nodes: Seq<NodeView>, id: u32) -> Option<NodeView> {
    node_from(nodes, id, 0)
}

/// The value under `id`: that of the current frame, if it has one, else
/// the memoized one.
pub open spec fn get_value(st: ContextView, id: u32) -> Option<ValueView> {
    if st.call_stack.len() > 0 && st.call_stack.last().locals.contains_key(id) {
        Some(st.call_stack.last().locals[id])
    } else if st.values.contains_key(id) {
        Some(st.values[id])
    } else {
        None
    }
}

/// The state with `value` bound to `id` in the current frame, if there is
/// one.
pub open spec fn bind_local(st: ContextView, id: u32, value: ValueView) -> ContextView {
    if st.call_stack.len() > 0 {
        let frame = st.call_stack.last();
        ContextView {
            call_stack: st.call_stack.drop_last().push(
                FrameView { locals: frame.locals.insert(id, value), ..frame },
            ),
            ..st
        }
    } else {
        st
    }
}

/// The state with `value` under `id`, in the current frame and in the
/// table of memoized values.
pub open spec fn set_value(st: ContextView, id: u32, value: ValueView) -> ContextView {
    ContextView { values: st.values.insert(id, value), ..bind_local(st, id, value) }
}

/// The operation whose code `code` is.
pub open spec fn opcode_of(code: u16) -> OpCode {
    choose|op: OpCode| op.spec_code() == code
}

/// The name of an operation.
pub open spec fn opcode_name(op: OpCode) -> Seq<char> {
    match op {
        OpCode::Nop => "Nop"@,
        OpCode::Return => "Return"@,
        OpCode::Call => "Call"@,
        OpCode::Branch => "Branch"@,
        OpCode::Add => "Add"@,
        OpCode::Sub => "Sub"@,
        OpCode::Mul => "Mul"@,
        OpCode::Div => "Div"@,
        OpCode::Mod => "Mod"@,
        OpCode::Eq => "Eq"@,
        OpCode::Ne => "Ne"@,
        OpCode::Lt => "Lt"@,
        OpCode::Le => "Le"@,
        OpCode::Gt => "Gt"@,
        OpCode::Ge => "Ge"@,
        OpCode::And => "And"@,
        OpCode::Or => "Or"@,
        OpCode::Not => "Not"@,
        OpCode::Xor => "Xor"@,
        OpCode::Load => "Load"@,
        OpCode::Store => "Store"@,
        OpCode::Alloc => "Alloc"@,
        OpCode::Free => "Free"@,
        OpCode::LoadArg => "LoadArg"@,
        OpCode::ConstInt => "ConstInt"@,
        OpCode::ConstFloat => "ConstFloat"@,
        OpCode::ConstString => "ConstString"@,
        OpCode::ConstBool => "ConstBool"@,
        OpCode::CreateArray => "CreateArray"@,
        OpCode::CreateMap => "CreateMap"@,
        OpCode::ArrayGet => "ArrayGet"@,
        OpCode::ArraySet => "ArraySet"@,
        OpCode::MapGet => "MapGet"@,
        OpCode::MapSet => "MapSet"@,
        OpCode::DefineFunc => "DefineFunc"@,
        OpCode::CreateClosure => "CreateClosure"@,
        OpCode::Cast => "Cast"@,
        OpCode::TypeOf => "TypeOf"@,
        OpCode::Print => "Print"@,
        OpCode::Read => "Read"@,
        OpCode::UICreateElement => "UICreateElement"@,
        OpCode::UISetAttribute => "UISetAttribute"@,
        OpCode::UIAppendChild => "UIAppendChild"@,
        OpCode::AsyncBegin => "AsyncBegin"@,
        OpCode::AsyncAwait => "AsyncAwait"@,
        OpCode::AsyncComplete => "AsyncComplete"@,
        OpCode::ExternalCall => "ExternalCall"@,
    }
}

/// The error for operands of kinds that an operation does not take.
pub open spec fn mismatch(expected: Seq<char>, actual: Seq<char>) -> RuntimeErrorView {
    RuntimeErrorView::TypeMismatch { expected, actual }
}

/// The kinds of two operands, as an error names them.
pub open spec fn kinds_of(left: ValueView, right: ValueView) -> Seq<char> {
    kind_name_of(left) + " and "@ + kind_name_of(right)
}

// ---------------------------------------------------------------------
// Operations on values
// ---------------------------------------------------------------------
/// The float nearest to an integer.
pub open spec fn float_from_int(m: FloatModel, i: i64) -> u64 {
    (m.arith)(FloatOp::FromInt, i as u64, 0)
}

/// What a float operation on two integers gives: an integer where the
/// float result has no fractional part, else that float.
pub open spec fn whole_or_float(m: FloatModel, bits: u64) -> ValueView {
    if is_zero_bits((m.arith)(FloatOp::Fract, bits, 0)) {
        ValueView::Int((m.arith)(FloatOp::ToInt, bits, 0) as i64)
    } else {
        ValueView::Float(bits)
    }
}

/// What an arithmetic operation gives. Both operands are taken as floats;
/// the result is a float unless both operands are integers and the result
/// has no fractional part.
pub open spec fn arithmetic(m: FloatModel, op: FloatOp, left: ValueView, right: ValueView) -> Result<
    ValueView,
    RuntimeErrorView,
> {
    match (left, right) {
        (ValueView::Int(a), ValueView::Int(b)) => Ok(
            whole_or_float(m, (m.arith)(op, float_from_int(m, a), float_from_int(m, b))),
        ),
        (ValueView::Float(a), ValueView::Float(b)) => Ok(ValueView::Float((m.arith)(op, a, b))),
        (ValueView::Int(a), ValueView::Float(b)) => Ok(
            ValueView::Float((m.arith)(op, float_from_int(m, a), b)),
        ),
        (ValueView::Float(a), ValueView::Int(b)) => Ok(
            ValueView::Float((m.arith)(op, a, float_from_int(m, b))),
        ),
        _ => Err(mismatch("numeric"@, kinds_of(left, right))),
    }
}

/// Whether a value is the integer zero or a float zero.
pub open spec fn is_zero_divisor(v: ValueView) -> bool {
    match v {
        ValueView::Int(i) => i == 0,
        ValueView::Float(bits) => is_zero_bits(bits),
        _ => false,
    }
}

/// The remainder of a division that rounds toward zero: it has the sign of
/// the dividend.
pub open spec fn remainder(a: int, b: int) -> int {
    let r = (if a < 0 {
        -a
    } else {
        a
    }) % (if b < 0 {
        -b
    } else {
        b
    });
    if a < 0 {
        -r
    } else {
        r
    }
}

/// What the remainder operation gives: it takes integers only.
pub open spec fn modulo(left: ValueView, right: ValueView) -> Result<ValueView, RuntimeErrorView> {
    match (left, right) {
        (ValueView::Int(a), ValueView::Int(b)) => if b == 0 {
            Err(RuntimeErrorView::DivisionByZero)
        } else {
            Ok(ValueView::Int(remainder(a as int, b as int) as i64))
        },
        _ => Err(mismatch("integer"@, kinds_of(left, right))),
    }
}

/// What a comparison of numbers gives: it takes integers and floats only,
/// and compares them as floats.
pub open spec fn compare(m: FloatModel, op: FloatOp, left: ValueView, right: ValueView) -> Result<
    ValueView,
    RuntimeErrorView,
> {
    match (left, right) {
        (ValueView::Int(a), ValueView::Int(b)) => Ok(
            ValueView::Bool((m.arith)(op, float_from_int(m, a), float_from_int(m, b)) != 0),
        ),
        (ValueView::Float(a), ValueView::Float(b)) => Ok(
            ValueView::Bool((m.arith)(op, a, b) != 0),
        ),
        (ValueView::Int(a), ValueView::Float(b)) => Ok(
            ValueView::Bool((m.arith)(op, float_from_int(m, a), b) != 0),
        ),
        (ValueView::Float(a), ValueView::Int(b)) => Ok(
            ValueView::Bool((m.arith)(op, a, float_from_int(m, b)) != 0),
        ),
        _ => Err(mismatch("numeric"@, kinds_of(left, right))),
    }
}

/// What reading an element of an array gives. An index that is negative or
/// at or behind the length is out of bounds.
pub open spec fn array_get(array: ValueView, index: ValueView) -> Result<
    ValueView,
    RuntimeErrorView,
> {
    match (array, index) {
        (ValueView::Array(items), ValueView::Int(i)) => if 0 <= i < items.len() {
            Ok(items[i as int])
        } else {
            Err(
                RuntimeErrorView::ArrayIndexOutOfBounds {
                    index: i as usize,
                    length: items.len() as usize,
                },
            )
        },
        _ => Err(mismatch("array and integer"@, kinds_of(array, index))),
    }
}

/// What setting an element of an array gives: a new array.
pub open spec fn array_set(array: ValueView, index: ValueView, value: ValueView) -> Result<
    ValueView,
    RuntimeErrorView,
> {
    match (array, index) {
        (ValueView::Array(items), ValueView::Int(i)) => if 0 <= i < items.len() {
            Ok(ValueView::Array(items.update(i as int, value)))
        } else {
            Err(
                RuntimeErrorView::ArrayIndexOutOfBounds {
                    index: i as usize,
                    length: items.len() as usize,
                },
            )
        },
        _ => Err(mismatch("array and integer"@, kinds_of(array, index))),
    }
}

/// What reading a mapping under a key gives.
pub open spec fn map_get(map: ValueView, key: ValueView) -> Result<ValueView, RuntimeErrorView> {
    match (map, key) {
        (ValueView::Mapping(entries), ValueView::String(k)) => match lookup(entries, k) {
            Some(v) => Ok(v),
            None => Err(RuntimeErrorView::MapKeyNotFound(k)),
        },
        _ => Err(mismatch("map and string"@, kinds_of(map, key))),
    }
}

/// The entries with `value` under `key`: in the place of the first entry
/// under that key, or behind the last entry where there is none.
pub open spec fn with_entry(
    entries: Seq<(Seq<char>, ValueView)>,
    key: Seq<char>,
    value: ValueView,
) -> Seq<(Seq<char>, ValueView)> {
    match entry_from(entries, key, 0) {
        Some(i) => entries.update(i, (key, value)),
        None => entries.push((key, value)),
    }
}

/// What setting a key of a mapping gives: a new mapping.
pub open spec fn map_set(map: ValueView, key: ValueView, value: ValueView) -> Result<
    ValueView,
    RuntimeErrorView,
> {
    match (map, key) {
        (ValueView::Mapping(entries), ValueView::String(k)) => Ok(
            ValueView::Mapping(with_entry(entries, k, value)),
        ),
        _ => Err(mismatch("map and string"@, kinds_of(map, key))),
    }
}

/// The captures of a closure after the operands from `i` on were looked
/// at: each that names a value that is there is captured with that value,
/// in the place of what was captured under the same id.
pub open spec fn captures_from(
    st: ContextView,
    node: NodeView,
    captured: Map<u32, ValueView>,
    i: int,
) -> Map<u32, ValueView>
    decreases operand_count(node) - i,
{
    if i < 1 || i >= operand_count(node) {
        captured
    } else {
        match get_value(st, node.args[i]) {
            Some(v) => captures_from(st, node, captured.insert(node.args[i], v), i + 1),
            None => captures_from(st, node, captured, i + 1),
        }
    }
}

/// How many operand slots a node uses: its argument count, but no more
/// than the three that a node has.
pub open spec fn operand_count(node: NodeView) -> int {
    if node.arg_count < 3 {
        node.arg_count as int
    } else {
        3
    }
}

/// The error for an operand that the node does not have.
pub open spec fn missing_operand(node: NodeView, index: int) -> RuntimeErrorView {
    RuntimeErrorView::InvalidArgCount {
        expected: (index + 1) as usize,
        actual: node.arg_count as usize,
    }
}

/// The error for an evaluation that nests deeper than the limit.
pub open spec fn too_deep() -> RuntimeErrorView {
    invalid("Maximum evaluation depth exceeded"@)
}

/// The size of an allocation that a value asks for: a positive integer, at
/// most the largest size.
pub open spec fn allocation_size(v: ValueView) -> Option<usize> {
    match v {
        ValueView::Int(s) => if s <= 0 {
            None
        } else if s > usize::MAX {
            Some(usize::MAX)
        } else {
            Some(s as usize)
        },
        _ => None,
    }
}

/// The slot that lies `offset` slots behind slot 1000, counted round the
/// 32 bits of a slot.
pub open spec fn slot_behind_1000(offset: u32) -> u32 {
    if 1000 + offset > u32::MAX {
        (1000 + offset - 0x1_0000_0000) as u32
    } else {
        (1000 + offset) as u32
    }
}

/// The slot of the host argument that an index names: the index, cut to 32
/// bits, behind slot 1000.
pub open spec fn argument_slot(index: i64) -> u32 {
    slot_behind_1000(index as u32)
}

/// The slot of the host argument at a position.
pub open spec fn host_slot(index: usize) -> u32 {
    slot_behind_1000(index as u32)
}

/// The slot that holds the number of host arguments.
pub open spec fn argc_slot() -> u32 {
    999
}

/// The state before anything of `program` was executed.
pub open spec fn initial_state(program: ProgramView) -> ContextView {
    ContextView {
        program,
        values: Map::empty(),
        call_stack: Seq::empty(),
        granted_capabilities: Seq::empty(),
        max_call_depth: 1000,
        max_eval_depth: usize::MAX,
        memory: crate::runtime::memory::empty_heap(),
        async_runtime: crate::runtime::async_runtime::empty_registry(),
        output: Seq::empty(),
    }
}

// ---------------------------------------------------------------------
// Evaluation
// ---------------------------------------------------------------------
/// What evaluating the node `id` gives, with `fuel` levels of nesting to
/// spend.
///
/// An id that names no node is an error. A node with a memoized value gives
/// that value and leaves the state as it is: no node is run twice. Any
/// other node is run, unless the nesting is used up or its opcode is the
/// code of no operation, and its value is memoized under its id.
pub open spec fn eval_node(m: FloatModel, st: ContextView, id: u32, fuel: nat) -> Outcome
    decreases fuel, 1nat, 0nat,
{
    match find_node(st.program.nodes, id) {
        None => (st, Err(RuntimeErrorView::InvalidNodeRef(id))),
        Some(node) => match get_value(st, node.result_id) {
            Some(v) => (st, Ok(v)),
            None => if fuel == 0 {
                (st, Err(too_deep()))
            } else if !OpCode::is_known(node.opcode) {
                (st, Err(RuntimeErrorView::UnknownOpcode(node.opcode)))
            } else {
                let (s1, r) = eval_opcode(m, st, opcode_of(node.opcode), node, (fuel - 1) as nat);
                match r {
                    Err(e) => (s1, Err(e)),
                    Ok(v) => (set_value(s1, node.result_id, v), Ok(v)),
                }
            },
        },
    }
}

/// What resolving the operand `index` of `node` gives.
///
/// An operand that the node does not have is an error. The id 0 stands for
/// nil. An id with a value gives that value; any other id is evaluated as a
/// node.
pub open spec fn eval_arg(m: FloatModel, st: ContextView, node: NodeView, index: int, fuel: nat) -> Outcome
    decreases fuel, 2nat, 0nat,
{
    if index < 0 || index >= operand_count(node) {
        (st, Err(missing_operand(node, index)))
    } else if node.args[index] == 0 {
        (st, Ok(ValueView::Nil))
    } else {
        match get_value(st, node.args[index]) {
            Some(v) => (st, Ok(v)),
            None => eval_node(m, st, node.args[index], fuel),
        }
    }
}

/// What evaluating the operands from `from` up to `to` in turn gives: their
/// values behind `done`, or the first error.
pub open spec fn eval_args(
    m: FloatModel,
    st: ContextView,
    node: NodeView,
    from: int,
    to: int,
    done: Seq<ValueView>,
    fuel: nat,
) -> Operands
    decreases fuel, 3nat, to - from,
{
    if from >= to {
        (st, Ok(done))
    } else {
        let (s1, r) = eval_arg(m, st, node, from, fuel);
        match r {
            Err(e) => (s1, Err(e)),
            Ok(v) => eval_args(m, s1, node, from + 1, to, done.push(v), fuel),
        }
    }
}

/// What printing the operands from `i` on gives: each is evaluated and its
/// text put out, with a blank between two operands and a line end behind
/// the last.
pub open spec fn print_from(m: FloatModel, st: ContextView, node: NodeView, i: int, fuel: nat) -> Outcome
    decreases fuel, 3nat, node.arg_count - i,
{
    if i < 0 || i >= node.arg_count {
        (ContextView { output: st.output + "\n"@, ..st }, Ok(ValueView::Nil))
    } else {
        let (s1, r) = eval_arg(m, st, node, i, fuel);
        match r {
            Err(e) => (s1, Err(e)),
            Ok(v) => {
                let text = s1.output + text_of(m, v);
                let s2 = ContextView {
                    output: if i < node.arg_count - 1 {
                        text + " "@
                    } else {
                        text
                    },
                    ..s1
                };
                print_from(m, s2, node, i + 1, fuel)
            },
        }
    }
}

/// What binding the operands of a call from `i` on gives: each is
/// evaluated and bound in the current frame under its position.
pub open spec fn bind_from(m: FloatModel, st: ContextView, node: NodeView, i: int, fuel: nat) -> (
    ContextView,
    Result<(), RuntimeErrorView>,
)
    decreases fuel, 3nat, node.arg_count - i,
{
    if i < 1 || i >= node.arg_count {
        (st, Ok(()))
    } else {
        let (s1, r) = eval_arg(m, st, node, i, fuel);
        match r {
            Err(e) => (s1, Err(e)),
            Ok(v) => bind_from(m, bind_local(s1, i as u32, v), node, i + 1, fuel),
        }
    }
}

/// What a call gives. The first operand must be a function. A frame for it
/// is pushed, unless the stack is as deep as the limit allows; the other
/// operands are bound in the frame under their positions; the body of the
/// function is evaluated; the frame is popped.
pub open spec fn run_call(m: FloatModel, st: ContextView, node: NodeView, fuel: nat) -> Outcome
    decreases fuel, 4nat, 0nat,
{
    let (s1, r) = eval_arg(m, st, node, 0, fuel);
    match r {
        Err(e) => (s1, Err(e)),
        Ok(ValueView::Function { node_id, .. }) => if s1.call_stack.len() >= s1.max_call_depth {
            (s1, Err(RuntimeErrorView::StackOverflow))
        } else {
            let s2 = ContextView {
                call_stack: s1.call_stack.push(
                    FrameView {
                        node_id,
                        locals: Map::empty(),
                        return_to: Some(node.result_id),
                    },
                ),
                ..s1
            };
            let (s3, bound) = bind_from(m, s2, node, 1, fuel);
            match bound {
                Err(e) => (s3, Err(e)),
                Ok(_) => {
                    let (s4, body) = eval_node(m, s3, node_id, fuel);
                    match body {
                        Err(e) => (s4, Err(e)),
                        Ok(v) => (
                            ContextView {
                                call_stack: if s4.call_stack.len() > 0 {
                                    s4.call_stack.drop_last()
                                } else {
                                    s4.call_stack
                                },
                                ..s4
                            },
                            Ok(v),
                        ),
                    }
                },
            }
        },
        Ok(other) => (s1, Err(mismatch("function"@, kind_name_of(other)))),
    }
}

/// What a branch gives. The condition is evaluated; where it counts as
/// true the second operand is evaluated, else the third if the node has
/// one, else the branch gives nil. The operand that is not chosen is never
/// evaluated.
pub open spec fn run_branch(m: FloatModel, st: ContextView, node: NodeView, fuel: nat) -> Outcome
    decreases fuel, 4nat, 0nat,
{
    let (s1, r) = eval_arg(m, st, node, 0, fuel);
    match r {
        Err(e) => (s1, Err(e)),
        Ok(c) => if truthy(c) {
            eval_arg(m, s1, node, 1, fuel)
        } else if node.arg_count > 2 {
            eval_arg(m, s1, node, 2, fuel)
        } else {
            (s1, Ok(ValueView::Nil))
        },
    }
}

/// What `and` and `or` give. The first operand decides alone where it can:
/// a first operand that counts as `decides` gives `decides`, and the second
/// operand is not evaluated; else the second operand is evaluated and the
/// result is whether it counts as true.
pub open spec fn run_logic(
    m: FloatModel,
    st: ContextView,
    node: NodeView,
    decides: bool,
    fuel: nat,
) -> Outcome
    decreases fuel, 4nat, 0nat,
{
    let (s1, r) = eval_arg(m, st, node, 0, fuel);
    match r {
        Err(e) => (s1, Err(e)),
        Ok(left) => if truthy(left) == decides {
            (s1, Ok(ValueView::Bool(decides)))
        } else {
            let (s2, r2) = eval_arg(m, s1, node, 1, fuel);
            match r2 {
                Err(e) => (s2, Err(e)),
                Ok(right) => (s2, Ok(ValueView::Bool(truthy(right)))),
            }
        },
    }
}

/// What a division gives. The divisor is evaluated first; an integer zero
/// or a float zero is an error. Then both operands are evaluated and
/// divided as floats.
pub open spec fn run_division(m: FloatModel, st: ContextView, node: NodeView, fuel: nat) -> Outcome
    decreases fuel, 4nat, 0nat,
{
    let (s1, r) = eval_arg(m, st, node, 1, fuel);
    match r {
        Err(e) => (s1, Err(e)),
        Ok(divisor) => if is_zero_divisor(divisor) {
            (s1, Err(RuntimeErrorView::DivisionByZero))
        } else {
            let (s2, operands) = eval_args(m, s1, node, 0, 2, Seq::empty(), fuel);
            match operands {
                Err(e) => (s2, Err(e)),
                Ok(vs) => (s2, arithmetic(m, FloatOp::Div, vs[0], vs[1])),
            }
        },
    }
}

/// What an allocation gives: the size must be a positive integer; the
/// second operand, if the node has one, is the initial value, else nil.
pub open spec fn run_alloc(m: FloatModel, st: ContextView, node: NodeView, fuel: nat) -> Outcome
    decreases fuel, 4nat, 0nat,
{
    let (s1, r) = eval_arg(m, st, node, 0, fuel);
    match r {
        Err(e) => (s1, Err(e)),
        Ok(size_value) => match allocation_size(size_value) {
            None => (s1, Err(mismatch("positive integer"@, kind_name_of(size_value)))),
            Some(size) => {
                let (s2, r2) = if node.arg_count > 1 {
                    eval_arg(m, s1, node, 1, fuel)
                } else {
                    (s1, Ok(ValueView::Nil))
                };
                match r2 {
                    Err(e) => (s2, Err(e)),
                    Ok(initial) => {
                        let (heap, allocated) = spec_allocate(s2.memory, size, initial);
                        match allocated {
                            Err(e) => (ContextView { memory: heap, ..s2 }, Err(e)),
                            Ok(address) => (
                                ContextView { memory: heap, ..s2 },
                                Ok(ValueView::MemoryRef(MemoryReference { address, offset: 0 })),
                            ),
                        }
                    },
                }
            },
        },
    }
}

/// What a closure is made of: the function that the first operand gives,
/// with the other operands captured where they name values that are there.
pub open spec fn run_closure(m: FloatModel, st: ContextView, node: NodeView, fuel: nat) -> Outcome
    decreases fuel, 4nat, 0nat,
{
    let (s1, r) = eval_arg(m, st, node, 0, fuel);
    match r {
        Err(e) => (s1, Err(e)),
        Ok(ValueView::Function { node_id, arity, captured }) => (
            s1,
            Ok(
                ValueView::Function {
                    node_id,
                    arity,
                    captured: captures_from(s1, node, captured, 1),
                },
            ),
        ),
        Ok(other) => (s1, Err(mismatch("function"@, kind_name_of(other)))),
    }
}

/// What an operation on one operand gives once the operand is known.
pub open spec fn apply_unary(st: ContextView, op: OpCode, a: ValueView) -> Outcome {
    match op {
        OpCode::Not => (st, Ok(ValueView::Bool(!truthy(a)))),
        OpCode::Free => match a {
            ValueView::MemoryRef(r) => {
                let (heap, freed) = spec_free(st.memory, r.address);
                match freed {
                    Err(e) => (ContextView { memory: heap, ..st }, Err(e)),
                    Ok(_) => (ContextView { memory: heap, ..st }, Ok(ValueView::Nil)),
                }
            },
            _ => (st, Err(mismatch("memory reference"@, kind_name_of(a)))),
        },
        OpCode::Load => match a {
            ValueView::MemoryRef(r) => (st, spec_load(st.memory, r.address)),
            _ => (st, Err(mismatch("memory reference"@, kind_name_of(a)))),
        },
        OpCode::LoadArg => match a {
            ValueView::Int(index) => match get_value(st, argument_slot(index)) {
                Some(v) => (st, Ok(v)),
                None => (
                    st,
                    Err(invalid("Argument "@ + decimal(index as int) + " not found"@)),
                ),
            },
            _ => (st, Err(mismatch("integer"@, kind_name_of(a)))),
        },
        OpCode::AsyncAwait => match a {
            ValueView::AsyncHandle(h) => match spec_result(st.async_runtime, h.id) {
                Err(e) => (st, Err(e)),
                Ok(Some(v)) => (st, Ok(v)),
                Ok(None) => (st, Ok(ValueView::AsyncHandle(h))),
            },
            _ => (st, Err(mismatch("async handle"@, kind_name_of(a)))),
        },
        _ => (st, Ok(ValueView::Nil)),
    }
}

/// What an operation on two operands gives once the operands are known.
pub open spec fn apply_binary(
    m: FloatModel,
    st: ContextView,
    op: OpCode,
    a: ValueView,
    b: ValueView,
) -> Outcome {
    match op {
        OpCode::Add => (st, arithmetic(m, FloatOp::Add, a, b)),
        OpCode::Sub => (st, arithmetic(m, FloatOp::Sub, a, b)),
        OpCode::Mul => (st, arithmetic(m, FloatOp::Mul, a, b)),
        OpCode::Mod => (st, modulo(a, b)),
        OpCode::Eq => (st, Ok(ValueView::Bool(value_eq(m, a, b)))),
        OpCode::Ne => (st, Ok(ValueView::Bool(!value_eq(m, a, b)))),
        OpCode::Lt => (st, compare(m, FloatOp::Less, a, b)),
        OpCode::Le => (st, compare(m, FloatOp::LessEq, a, b)),
        OpCode::Gt => (st, compare(m, FloatOp::Greater, a, b)),
        OpCode::Ge => (st, compare(m, FloatOp::GreaterEq, a, b)),
        OpCode::Xor => (st, Ok(ValueView::Bool(truthy(a) != truthy(b)))),
        OpCode::ArrayGet => (st, array_get(a, b)),
        OpCode::MapGet => (st, map_get(a, b)),
        OpCode::Store => match a {
            ValueView::MemoryRef(r) => {
                let (heap, stored) = spec_store(st.memory, r.address, b);
                match stored {
                    Err(e) => (ContextView { memory: heap, ..st }, Err(e)),
                    Ok(_) => (ContextView { memory: heap, ..st }, Ok(b)),
                }
            },
            _ => (st, Err(mismatch("memory reference"@, kind_name_of(a)))),
        },
        OpCode::AsyncComplete => match a {
            ValueView::AsyncHandle(h) => {
                let (tasks, completed) = spec_complete(st.async_runtime, h.id, b);
                match completed {
                    Err(e) => (ContextView { async_runtime: tasks, ..st }, Err(e)),
                    Ok(_) => (ContextView { async_runtime: tasks, ..st }, Ok(ValueView::Nil)),
                }
            },
            _ => (st, Err(mismatch("async handle"@, kind_name_of(a)))),
        },
        _ => (st, Ok(ValueView::Nil)),
    }
}

/// What an operation on three operands gives once the operands are known.
pub open spec fn apply_ternary(op: OpCode, a: ValueView, b: ValueView, c: ValueView) -> Result<
    ValueView,
    RuntimeErrorView,
> {
    match op {
        OpCode::ArraySet => array_set(a, b, c),
        OpCode::MapSet => map_set(a, b, c),
        _ => Ok(ValueView::Nil),
    }
}

/// What a constant node gives: the constant of its kind at the index that
/// its first slot holds.
pub open spec fn constant(pool: ConstantPoolView, op: OpCode, index: u32) -> Result<
    ValueView,
    RuntimeErrorView,
> {
    let missing = Err(RuntimeErrorView::InvalidConstantIndex(index));
    match op {
        OpCode::ConstInt => if index < pool.integers.len() {
            Ok(ValueView::Int(pool.integers[index as int]))
        } else {
            missing
        },
        OpCode::ConstFloat => if index < pool.floats.len() {
            Ok(ValueView::Float(pool.floats[index as int]))
        } else {
            missing
        },
        OpCode::ConstString => if index < pool.strings.len() {
            Ok(ValueView::String(pool.strings[index as int]))
        } else {
            missing
        },
        OpCode::ConstBool => if index < pool.booleans.len() {
            Ok(ValueView::Bool(pool.booleans[index as int]))
        } else {
            missing
        },
        _ => missing,
    }
}

/// How many operands an operation evaluates before it is applied, where
/// that is one, two or three.
pub open spec fn fixed_operands(op: OpCode) -> int {
    match op {
        OpCode::Not | OpCode::Free | OpCode::Load | OpCode::LoadArg | OpCode::AsyncAwait => 1,
        OpCode::Add | OpCode::Sub | OpCode::Mul | OpCode::Mod | OpCode::Eq | OpCode::Ne
        | OpCode::Lt | OpCode::Le | OpCode::Gt | OpCode::Ge | OpCode::Xor | OpCode::ArrayGet
        | OpCode::MapGet | OpCode::Store | OpCode::AsyncComplete => 2,
        OpCode::ArraySet | OpCode::MapSet => 3,
        _ => 0,
    }
}

/// What running a node gives, by its operation.
pub open spec fn eval_opcode(m: FloatModel, st: ContextView, op: OpCode, node: NodeView, fuel: nat) -> Outcome
    decreases fuel, 5nat, 0nat,
{
    match op {
        OpCode::Nop => (st, Ok(ValueView::Nil)),
        OpCode::Return => if node.arg_count > 0 {
            eval_arg(m, st, node, 0, fuel)
        } else {
            (st, Ok(ValueView::Nil))
        },
        OpCode::Call => run_call(m, st, node, fuel),
        OpCode::Branch => run_branch(m, st, node, fuel),
        OpCode::Div => run_division(m, st, node, fuel),
        OpCode::And => run_logic(m, st, node, false, fuel),
        OpCode::Or => run_logic(m, st, node, true, fuel),
        OpCode::ConstInt | OpCode::ConstFloat | OpCode::ConstString | OpCode::ConstBool => (
            st,
            constant(st.program.constants, op, node.args[0]),
        ),
        OpCode::CreateArray => {
            let (s1, operands) = eval_args(
                m,
                st,
                node,
                0,
                node.arg_count as int,
                Seq::empty(),
                fuel,
            );
            match operands {
                Err(e) => (s1, Err(e)),
                Ok(vs) => (s1, Ok(ValueView::Array(vs))),
            }
        },
        OpCode::CreateMap => (st, Ok(ValueView::Mapping(Seq::empty()))),
        OpCode::DefineFunc => (
            st,
            Ok(
                ValueView::Function {
                    node_id: node.args[0],
                    arity: node.args[1] as usize,
                    captured: Map::empty(),
                },
            ),
        ),
        OpCode::CreateClosure => run_closure(m, st, node, fuel),
        OpCode::Print => print_from(m, st, node, 0, fuel),
        OpCode::Alloc => run_alloc(m, st, node, fuel),
        OpCode::AsyncBegin => if st.async_runtime.next_id < u64::MAX {
            let (tasks, handle) = spec_begin(st.async_runtime);
            (ContextView { async_runtime: tasks, ..st }, Ok(ValueView::AsyncHandle(handle)))
        } else {
            (st, Err(invalid("Async handles exhausted"@)))
        },
        OpCode::Cast | OpCode::TypeOf | OpCode::Read | OpCode::UICreateElement
        | OpCode::UISetAttribute | OpCode::UIAppendChild | OpCode::ExternalCall => (
            st,
            Err(invalid("Opcode "@ + opcode_name(op) + " not implemented"@)),
        ),
        _ => {
            let (s1, operands) = eval_args(m, st, node, 0, fixed_operands(op), Seq::empty(), fuel);
            match operands {
                Err(e) => (s1, Err(e)),
                Ok(vs) => if fixed_operands(op) == 1 {
                    apply_unary(s1, op, vs[0])
                } else if fixed_operands(op) == 2 {
                    apply_binary(m, s1, op, vs[0], vs[1])
                } else {
                    (s1, apply_ternary(op, vs[0], vs[1], vs[2]))
                },
            }
        },
    }
}

} // verus!

//! The executor: it runs a graph from its entry node.

use crate::format::binary_format::{Capability, Node, OpCode, Program};
use crate::runtime::async_runtime::{invalid, AsyncHandle};
use crate::runtime::context::ExecutionContext;
use crate::runtime::error::{RuntimeError, RuntimeErrorView};
use crate::runtime::floats::{FloatOp, FloatUnit};
use crate::runtime::memory::{value_result, MemoryReference};
use crate::runtime::operations::{
    arithmetic_op, array_get_op, array_set_op, capture, captures_of, compare_op, is_zero,
    kind_mismatch, map_get_op, map_set_op, modulo_op,
};
use crate::runtime::semantics::{
    apply_binary, apply_unary, argc_slot, bind_from, captures_from, constant, eval_arg, eval_args, eval_node, eval_opcode,
    fixed_operands, host_slot, initial_state, opcode_name, opcode_of,
    operand_count, print_from, run_alloc, run_branch, run_call, run_closure, run_division,
    run_logic, set_value, slot_behind_1000, ContextView,
};
use crate::runtime::text::{join3, signed_text};
use crate::runtime::value::{Function, Value, ValueView};
use std::collections::HashMap;
use vstd::prelude::*;
use vstd::string::StringExecFns;

verus! {

broadcast use vstd::std_specs::hash::group_hash_axioms;

/// What evaluating operands gives, by views.
pub open spec fn operands_result(r: Result<Vec<Value>, RuntimeError>) -> Result<
    Seq<ValueView>,
    RuntimeErrorView,
> {
    match r {
        Ok(values) => Ok(values.deep_view()),
        Err(e) => Err(e@),
    }
}

/// What binding operands gives, by views.
pub open spec fn bound_result(r: Result<(), RuntimeError>) -> Result<(), RuntimeErrorView> {
    match r {
        Ok(_) => Ok(()),
        Err(e) => Err(e@),
    }
}

/// The slot that lies `offset` slots behind slot 1000.
fn slot_behind(offset: u32) -> (slot: u32)
    ensures
        slot == slot_behind_1000(offset),
{
    if offset > u32::MAX - 1000 {
        offset - (u32::MAX - 1000) - 1
    } else {
        1000 + offset
    }
}

/// The name of an operation.
fn name_of(op: OpCode) -> (name: &'static str)
    ensures
        name@ == opcode_name(op),
{
    match op {
        OpCode::Nop => "Nop",
        OpCode::Return => "Return",
        OpCode::Call => "Call",
        OpCode::Branch => "Branch",
        OpCode::Add => "Add",
        OpCode::Sub => "Sub",
        OpCode::Mul => "Mul",
        OpCode::Div => "Div",
        OpCode::Mod => "Mod",
        OpCode::Eq => "Eq",
        OpCode::Ne => "Ne",
        OpCode::Lt => "Lt",
        OpCode::Le => "Le",
        OpCode::Gt => "Gt",
        OpCode::Ge => "Ge",
        OpCode::And => "And",
        OpCode::Or => "Or",
        OpCode::Not => "Not",
        OpCode::Xor => "Xor",
        OpCode::Load => "Load",
        OpCode::Store => "Store",
        OpCode::Alloc => "Alloc",
        OpCode::Free => "Free",
        OpCode::LoadArg => "LoadArg",
        OpCode::ConstInt => "ConstInt",
        OpCode::ConstFloat => "ConstFloat",
        OpCode::ConstString => "ConstString",
        OpCode::ConstBool => "ConstBool",
        OpCode::CreateArray => "CreateArray",
        OpCode::CreateMap => "CreateMap",
        OpCode::ArrayGet => "ArrayGet",
        OpCode::ArraySet => "ArraySet",
        OpCode::MapGet => "MapGet",
        OpCode::MapSet => "MapSet",
        OpCode::DefineFunc => "DefineFunc",
        OpCode::CreateClosure => "CreateClosure",
        OpCode::Cast => "Cast",
        OpCode::TypeOf => "TypeOf",
        OpCode::Print => "Print",
        OpCode::Read => "Read",
        OpCode::UICreateElement => "UICreateElement",
        OpCode::UISetAttribute => "UISetAttribute",
        OpCode::UIAppendChild => "UIAppendChild",
        OpCode::AsyncBegin => "AsyncBegin",
        OpCode::AsyncAwait => "AsyncAwait",
        OpCode::AsyncComplete => "AsyncComplete",
        OpCode::ExternalCall => "ExternalCall",
    }
}

/// How many operands an operation evaluates before it is applied.
fn operands_of(op: OpCode) -> (count: usize)
    ensures
        count == fixed_operands(op),
{
    match op {
        OpCode::Not | OpCode::Free | OpCode::Load | OpCode::LoadArg | OpCode::AsyncAwait => 1,
        OpCode::Add | OpCode::Sub | OpCode::Mul | OpCode::Mod | OpCode::Eq | OpCode::Ne
        | OpCode::Lt | OpCode::Le | OpCode::Gt | OpCode::Ge | OpCode::Xor | OpCode::ArrayGet
        | OpCode::MapGet | OpCode::Store | OpCode::AsyncComplete => 2,
        OpCode::ArraySet | OpCode::MapSet => 3,
        _ => 0,
    }
}

/// An `InvalidOperation` with the given message.
fn invalid_operation(message: String) -> (error: RuntimeError)
    ensures
        error@ == invalid(message@),
{
    RuntimeError::InvalidOperation(message)
}

/// The executor of one program. It owns the state of the execution.
#[derive(Debug)]
pub struct Executor {
    context: ExecutionContext,
}

impl View for Executor {
    type V = ContextView;

    closed spec fn view(&self) -> ContextView {
        self.context@
    }
}

impl Executor {
    /// Whether the state is as the executor's operations leave it.
    pub closed spec fn wf(&self) -> bool {
        self.context.wf()
    }

    /// An executor for `program`, before anything of it was executed.
    pub fn new(program: Program) -> (executor: Executor)
        ensures
            executor.wf(),
            executor@ == initial_state(program@),
    {
        Executor { context: ExecutionContext::new(program) }
    }

    /// The state of the execution.
    pub fn context(&self) -> (context: &ExecutionContext)
        ensures
            context@ == self@,
            self.wf() ==> context.wf(),
    {
        &self.context
    }

    /// Grants `cap`, unless it is granted already.
    pub fn grant_capability(&mut self, cap: Capability)
        ensures
            old(self).wf() ==> final(self).wf(),
            final(self)@ == (ContextView {
                granted_capabilities: if old(self)@.granted_capabilities.contains(cap) {
                    old(self)@.granted_capabilities
                } else {
                    old(self)@.granted_capabilities.push(cap)
                },
                ..old(self)@
            }),
    {
        self.context.grant_capability(cap);
    }

    /// Hands the host argument at position `index` to the program: it is
    /// put under slot 1000 and the position.
    pub fn set_argument(&mut self, index: usize, value: Value)
        ensures
            old(self).wf() ==> final(self).wf(),
            final(self)@ == set_value(old(self)@, host_slot(index), value@),
    {
        let offset: u32 = #[verifier::truncate]
        (index as u32);
        self.context.set_value(slot_behind(offset), value);
    }

    /// Hands the number of host arguments to the program: it is put under
    /// slot 999, as an integer.
    pub fn set_argc(&mut self, count: usize)
        ensures
            old(self).wf() ==> final(self).wf(),
            final(self)@ == set_value(old(self)@, argc_slot(), ValueView::Int(count as i64)),
    {
        let count: i64 = #[verifier::truncate]
        (count as i64);
        self.context.set_value(999, Value::Int(count));
    }

    /// Sets how deep calls may nest.
    pub fn set_max_call_depth(&mut self, depth: usize)
        ensures
            old(self).wf() ==> final(self).wf(),
            final(self)@ == (ContextView { max_call_depth: depth, ..old(self)@ }),
    {
        self.context.max_call_depth = depth;
    }

    /// Sets how deep the evaluation of operands may nest. Every level
    /// takes room on the stack of the host; with a limit, a graph that runs
    /// in a circle fails with an error where it would else use the stack
    /// up.
    pub fn set_max_eval_depth(&mut self, depth: usize)
        ensures
            old(self).wf() ==> final(self).wf(),
            final(self)@ == (ContextView { max_eval_depth: depth, ..old(self)@ }),
    {
        self.context.max_eval_depth = depth;
    }

    /// What was printed since the output was last taken.
    pub fn take_output(&mut self) -> (text: String)
        ensures
            old(self).wf() ==> final(self).wf(),
            text@ == old(self)@.output,
            final(self)@ == (ContextView { output: Seq::empty(), ..old(self)@ }),
    {
        let mut text = String::new();
        std::mem::swap(&mut text, &mut self.context.output);
        text
    }

    /// Executes the program: evaluates its entry node, with as many levels
    /// of nesting to spend as the state allows.
    pub fn execute<A: Fn(FloatOp, u64, u64) -> u64, S: Fn(u64) -> String>(
        &mut self,
        unit: &FloatUnit<A, S>,
    ) -> (r: Result<Value, RuntimeError>)
        requires
            old(self).wf(),
            unit.reliable(),
        ensures
            final(self).wf(),
            (final(self)@, value_result(r)) == eval_node(
                unit.model(),
                old(self)@,
                old(self)@.program.metadata.entry_point,
                old(self)@.max_eval_depth as nat,
            ),
    {
        let entry_point = self.context.program.metadata.entry_point;
        let fuel = self.context.max_eval_depth;
        self.execute_node(unit, entry_point, fuel)
    }

    /// Evaluates the node `node_id` with `fuel` levels of nesting to spend.
    pub fn execute_node<A: Fn(FloatOp, u64, u64) -> u64, S: Fn(u64) -> String>(
        &mut self,
        unit: &FloatUnit<A, S>,
        node_id: u32,
        fuel: usize,
    ) -> (r: Result<Value, RuntimeError>)
        requires
            old(self).wf(),
            unit.reliable(),
        ensures
            final(self).wf(),
            (final(self)@, value_result(r)) == eval_node(
                unit.model(),
                old(self)@,
                node_id,
                fuel as nat,
            ),
        decreases fuel, 1nat, 0nat,
    {
        let node: Node = match self.context.get_node(node_id) {
            None => {
                return Err(RuntimeError::InvalidNodeRef(node_id));
            },
            Some(node) => *node,
        };
        match self.context.get_value(node.result_id) {
            Some(value) => {
                return Ok(value.clone());
            },
            None => {},
        }
        if fuel == 0 {
            return Err(
                invalid_operation(String::from_str("Maximum evaluation depth exceeded")),
            );
        }
        let op = match OpCode::try_from(node.opcode) {
            Ok(op) => op,
            Err(_) => {
                return Err(RuntimeError::UnknownOpcode(node.opcode));
            },
        };
        proof {
            OpCode::lemma_code_is_injective(op, opcode_of(node.opcode));
        }
        let result = match self.execute_opcode(unit, op, &node, fuel - 1) {
            Err(e) => {
                return Err(e);
            },
            Ok(value) => value,
        };
        self.context.set_value(node.result_id, result.clone());
        Ok(result)
    }

    /// Resolves the operand `index` of `node`.
    fn get_arg_value<A: Fn(FloatOp, u64, u64) -> u64, S: Fn(u64) -> String>(
        &mut self,
        unit: &FloatUnit<A, S>,
        node: &Node,
        index: usize,
        fuel: usize,
    ) -> (r: Result<Value, RuntimeError>)
        requires
            old(self).wf(),
            unit.reliable(),
        ensures
            final(self).wf(),
            (final(self)@, value_result(r)) == eval_arg(
                unit.model(),
                old(self)@,
                node@,
                index as int,
                fuel as nat,
            ),
        decreases fuel, 2nat, 0nat,
    {
        if index >= node.arg_count as usize || index >= 3 {
            return Err(
                RuntimeError::InvalidArgCount {
                    expected: #[verifier::truncate]
                    ((index as u128 + 1) as usize),
                    actual: node.arg_count as usize,
                },
            );
        }
        let arg_id = node.args[index];
        if arg_id == 0 {
            return Ok(Value::Nil);
        }
        match self.context.get_value(arg_id) {
            Some(value) => {
                return Ok(value.clone());
            },
            None => {},
        }
        self.execute_node(unit, arg_id, fuel)
    }

    /// Evaluates the operands from `from` up to `to` in turn.
    #[verifier::loop_isolation(false)]
    fn eval_operands<A: Fn(FloatOp, u64, u64) -> u64, S: Fn(u64) -> String>(
        &mut self,
        unit: &FloatUnit<A, S>,
        node: &Node,
        from: usize,
        to: usize,
        fuel: usize,
    ) -> (r: Result<Vec<Value>, RuntimeError>)
        requires
            old(self).wf(),
            unit.reliable(),
            from <= to,
        ensures
            final(self).wf(),
            (final(self)@, operands_result(r)) == eval_args(
                unit.model(),
                old(self)@,
                node@,
                from as int,
                to as int,
                Seq::empty(),
                fuel as nat,
            ),
            r matches Ok(values) ==> values.len() == to - from,
        decreases fuel, 3nat, to - from,
    {
        let ghost m = unit.model();
        let ghost whole = eval_args(
            m,
            self@,
            node@,
            from as int,
            to as int,
            Seq::empty(),
            fuel as nat,
        );
        let mut done: Vec<Value> = Vec::new();
        let mut i: usize = from;
        assert(done.deep_view() =~= Seq::empty());
        while i < to
            invariant
                from <= i <= to,
                self.wf(),
                done.len() == i - from,
                whole == eval_args(
                    m,
                    self@,
                    node@,
                    i as int,
                    to as int,
                    done.deep_view(),
                    fuel as nat,
                ),
            decreases to - i,
        {
            match self.get_arg_value(unit, node, i, fuel) {
                Err(e) => {
                    return Err(e);
                },
                Ok(value) => {
                    let ghost before = done.deep_view();
                    done.push(value);
                    assert(done.deep_view() =~= before.push(value@));
                    i += 1;
                },
            }
        }
        Ok(done)
    }

    /// Prints the operands of `node`.
    #[verifier::loop_isolation(false)]
    fn execute_print<A: Fn(FloatOp, u64, u64) -> u64, S: Fn(u64) -> String>(
        &mut self,
        unit: &FloatUnit<A, S>,
        node: &Node,
        fuel: usize,
    ) -> (r: Result<Value, RuntimeError>)
        requires
            old(self).wf(),
            unit.reliable(),
        ensures
            final(self).wf(),
            (final(self)@, value_result(r)) == print_from(
                unit.model(),
                old(self)@,
                node@,
                0,
                fuel as nat,
            ),
        decreases fuel, 3nat, node.arg_count as nat,
    {
        let ghost m = unit.model();
        let ghost whole = print_from(m, self@, node@, 0, fuel as nat);
        let count = node.arg_count as usize;
        let mut i: usize = 0;
        while i < count
            invariant
                i <= count,
                self.wf(),
                whole == print_from(m, self@, node@, i as int, fuel as nat),
            decreases count - i,
        {
            match self.get_arg_value(unit, node, i, fuel) {
                Err(e) => {
                    return Err(e);
                },
                Ok(value) => {
                    let text = value.to_string(unit);
                    self.context.output.append(text.as_str());
                    if i < count - 1 {
                        self.context.output.append(" ");
                    }
                    i += 1;
                },
            }
        }
        self.context.output.append("\n");
        Ok(Value::Nil)
    }

    /// Binds the operands of a call from the second on in the current
    /// frame.
    #[verifier::loop_isolation(false)]
    fn bind_operands<A: Fn(FloatOp, u64, u64) -> u64, S: Fn(u64) -> String>(
        &mut self,
        unit: &FloatUnit<A, S>,
        node: &Node,
        fuel: usize,
    ) -> (r: Result<(), RuntimeError>)
        requires
            old(self).wf(),
            unit.reliable(),
        ensures
            final(self).wf(),
            (final(self)@, bound_result(r)) == bind_from(
                unit.model(),
                old(self)@,
                node@,
                1,
                fuel as nat,
            ),
        decreases fuel, 3nat, node.arg_count as nat,
    {
        let ghost m = unit.model();
        let ghost whole = bind_from(m, self@, node@, 1, fuel as nat);
        let count = node.arg_count as usize;
        let mut i: usize = 1;
        while i < count
            invariant
                1 <= i,
                count == node.arg_count,
                self.wf(),
                whole == bind_from(m, self@, node@, i as int, fuel as nat),
            decreases count - i,
        {
            match self.get_arg_value(unit, node, i, fuel) {
                Err(e) => {
                    return Err(e);
                },
                Ok(value) => {
                    self.context.bind_local(i as u32, value);
                    i += 1;
                },
            }
        }
        Ok(())
    }

    /// Runs a call.
    fn execute_call<A: Fn(FloatOp, u64, u64) -> u64, S: Fn(u64) -> String>(
        &mut self,
        unit: &FloatUnit<A, S>,
        node: &Node,
        fuel: usize,
    ) -> (r: Result<Value, RuntimeError>)
        requires
            old(self).wf(),
            unit.reliable(),
        ensures
            final(self).wf(),
            (final(self)@, value_result(r)) == run_call(
                unit.model(),
                old(self)@,
                node@,
                fuel as nat,
            ),
        decreases fuel, 4nat, 0nat,
    {
        let function = match self.get_arg_value(unit, node, 0, fuel) {
            Err(e) => {
                return Err(e);
            },
            Ok(value) => value,
        };
        match function {
            Value::Function(called) => {
                let node_id = called.node_id;
                match self.context.push_frame(node_id, Some(node.result_id)) {
                    Err(e) => {
                        return Err(e);
                    },
                    Ok(_) => {},
                }
                match self.bind_operands(unit, node, fuel) {
                    Err(e) => {
                        return Err(e);
                    },
                    Ok(_) => {},
                }
                let result = match self.execute_node(unit, node_id, fuel) {
                    Err(e) => {
                        return Err(e);
                    },
                    Ok(value) => value,
                };
                let _ = self.context.pop_frame();
                Ok(result)
            },
            other => Err(kind_mismatch("function", &other)),
        }
    }

    /// Runs a branch.
    fn execute_branch<A: Fn(FloatOp, u64, u64) -> u64, S: Fn(u64) -> String>(
        &mut self,
        unit: &FloatUnit<A, S>,
        node: &Node,
        fuel: usize,
    ) -> (r: Result<Value, RuntimeError>)
        requires
            old(self).wf(),
            unit.reliable(),
        ensures
            final(self).wf(),
            (final(self)@, value_result(r)) == run_branch(
                unit.model(),
                old(self)@,
                node@,
                fuel as nat,
            ),
        decreases fuel, 4nat, 0nat,
    {
        let condition = match self.get_arg_value(unit, node, 0, fuel) {
            Err(e) => {
                return Err(e);
            },
            Ok(value) => value,
        };
        if condition.is_truthy() {
            self.get_arg_value(unit, node, 1, fuel)
        } else if node.arg_count > 2 {
            self.get_arg_value(unit, node, 2, fuel)
        } else {
            Ok(Value::Nil)
        }
    }

    /// Runs `and` (where `decides` is false) or `or` (where it is true).
    fn execute_logic<A: Fn(FloatOp, u64, u64) -> u64, S: Fn(u64) -> String>(
        &mut self,
        unit: &FloatUnit<A, S>,
        node: &Node,
        decides: bool,
        fuel: usize,
    ) -> (r: Result<Value, RuntimeError>)
        requires
            old(self).wf(),
            unit.reliable(),
        ensures
            final(self).wf(),
            (final(self)@, value_result(r)) == run_logic(
                unit.model(),
                old(self)@,
                node@,
                decides,
                fuel as nat,
            ),
        decreases fuel, 4nat, 0nat,
    {
        let left = match self.get_arg_value(unit, node, 0, fuel) {
            Err(e) => {
                return Err(e);
            },
            Ok(value) => value,
        };
        if left.is_truthy() == decides {
            return Ok(Value::Bool(decides));
        }
        match self.get_arg_value(unit, node, 1, fuel) {
            Err(e) => Err(e),
            Ok(right) => Ok(Value::Bool(right.is_truthy())),
        }
    }

    /// Runs a division.
    fn execute_division<A: Fn(FloatOp, u64, u64) -> u64, S: Fn(u64) -> String>(
        &mut self,
        unit: &FloatUnit<A, S>,
        node: &Node,
        fuel: usize,
    ) -> (r: Result<Value, RuntimeError>)
        requires
            old(self).wf(),
            unit.reliable(),
        ensures
            final(self).wf(),
            (final(self)@, value_result(r)) == run_division(
                unit.model(),
                old(self)@,
                node@,
                fuel as nat,
            ),
        decreases fuel, 4nat, 0nat,
    {
        let divisor = match self.get_arg_value(unit, node, 1, fuel) {
            Err(e) => {
                return Err(e);
            },
            Ok(value) => value,
        };
        if is_zero(&divisor) {
            return Err(RuntimeError::DivisionByZero);
        }
        match self.eval_operands(unit, node, 0, 2, fuel) {
            Err(e) => Err(e),
            Ok(values) => arithmetic_op(unit, FloatOp::Div, &values[0], &values[1]),
        }
    }

    /// Runs an allocation.
    fn execute_alloc<A: Fn(FloatOp, u64, u64) -> u64, S: Fn(u64) -> String>(
        &mut self,
        unit: &FloatUnit<A, S>,
        node: &Node,
        fuel: usize,
    ) -> (r: Result<Value, RuntimeError>)
        requires
            old(self).wf(),
            unit.reliable(),
        ensures
            final(self).wf(),
            (final(self)@, value_result(r)) == run_alloc(
                unit.model(),
                old(self)@,
                node@,
                fuel as nat,
            ),
        decreases fuel, 4nat, 0nat,
    {
        let size_value = match self.get_arg_value(unit, node, 0, fuel) {
            Err(e) => {
                return Err(e);
            },
            Ok(value) => value,
        };
        let wanted: i64 = match size_value {
            Value::Int(s) => s,
            _ => 0,
        };
        if wanted <= 0 {
            return Err(kind_mismatch("positive integer", &size_value));
        }
        let size: usize = if wanted as u64 > usize::MAX as u64 {
            usize::MAX
        } else {
            wanted as usize
        };
        let initial = if node.arg_count > 1 {
            match self.get_arg_value(unit, node, 1, fuel) {
                Err(e) => {
                    return Err(e);
                },
                Ok(value) => value,
            }
        } else {
            Value::Nil
        };
        match self.context.memory.allocate(size, initial) {
            Err(e) => Err(e),
            Ok(address) => Ok(Value::MemoryRef(MemoryReference { address, offset: 0 })),
        }
    }

    /// Makes a closure.
    #[verifier::loop_isolation(false)]
    fn execute_create_closure<A: Fn(FloatOp, u64, u64) -> u64, S: Fn(u64) -> String>(
        &mut self,
        unit: &FloatUnit<A, S>,
        node: &Node,
        fuel: usize,
    ) -> (r: Result<Value, RuntimeError>)
        requires
            old(self).wf(),
            unit.reliable(),
        ensures
            final(self).wf(),
            (final(self)@, value_result(r)) == run_closure(
                unit.model(),
                old(self)@,
                node@,
                fuel as nat,
            ),
        decreases fuel, 4nat, 0nat,
    {
        let base = match self.get_arg_value(unit, node, 0, fuel) {
            Err(e) => {
                return Err(e);
            },
            Ok(value) => value,
        };
        match base {
            Value::Function(function) => {
                let node_id = function.node_id;
                let arity = function.arity;
                let mut captured = function.captured_values;
                let ghost start = captures_of(captured);
                let ghost st = self@;
                let count: usize = if node.arg_count < 3 {
                    node.arg_count as usize
                } else {
                    3
                };
                let mut i: usize = 1;
                while i < count
                    invariant
                        1 <= i,
                        count == operand_count(node@),
                        st == self@,
                        captures_from(st, node@, start, 1) == captures_from(
                            st,
                            node@,
                            captures_of(captured),
                            i as int,
                        ),
                    decreases count - i,
                {
                    let capture_id = node.args[i];
                    match self.context.get_value(capture_id) {
                        Some(value) => {
                            let value = value.clone();
                            capture(&mut captured, capture_id, value);
                        },
                        None => {},
                    }
                    i += 1;
                }
                let closure = Value::Function(
                    Function { node_id, arity, captured_values: captured },
                );
                assert(closure@->captured == captures_of(captured));
                Ok(closure)
            },
            other => Err(kind_mismatch("function", &other)),
        }
    }

    /// Applies an operation on one operand.
    fn apply_one(&mut self, op: OpCode, a: Value) -> (r: Result<Value, RuntimeError>)
        requires
            old(self).wf(),
            fixed_operands(op) == 1,
        ensures
            final(self).wf(),
            (final(self)@, value_result(r)) == apply_unary(old(self)@, op, a@),
    {
        match op {
            OpCode::Not => Ok(Value::Bool(!a.is_truthy())),
            OpCode::Free => match a {
                Value::MemoryRef(reference) => match self.context.memory.free(reference.address) {
                    Err(e) => Err(e),
                    Ok(_) => Ok(Value::Nil),
                },
                other => Err(kind_mismatch("memory reference", &other)),
            },
            OpCode::Load => match a {
                Value::MemoryRef(reference) => self.context.memory.load(reference.address),
                other => Err(kind_mismatch("memory reference", &other)),
            },
            OpCode::LoadArg => match a {
                Value::Int(index) => {
                    let offset: u32 = #[verifier::truncate]
                    (index as u32);
                    match self.context.get_value(slot_behind(offset)) {
                        Some(value) => Ok(value.clone()),
                        None => Err(
                            invalid_operation(
                                join3("Argument ", signed_text(index).as_str(), " not found"),
                            ),
                        ),
                    }
                },
                other => Err(kind_mismatch("integer", &other)),
            },
            OpCode::AsyncAwait => match a {
                Value::AsyncHandle(handle) => match self.context.async_runtime.get_result(&handle) {
                    Err(e) => Err(e),
                    Ok(Some(value)) => Ok(value),
                    Ok(None) => Ok(Value::AsyncHandle(handle)),
                },
                other => Err(kind_mismatch("async handle", &other)),
            },
            _ => Ok(Value::Nil),
        }
    }

    /// Applies an operation on two operands.
    fn apply_two<A: Fn(FloatOp, u64, u64) -> u64, S: Fn(u64) -> String>(
        &mut self,
        unit: &FloatUnit<A, S>,
        op: OpCode,
        a: Value,
        b: Value,
    ) -> (r: Result<Value, RuntimeError>)
        requires
            old(self).wf(),
            unit.reliable(),
            fixed_operands(op) == 2,
        ensures
            final(self).wf(),
            (final(self)@, value_result(r)) == apply_binary(
                unit.model(),
                old(self)@,
                op,
                a@,
                b@,
            ),
    {
        match op {
            OpCode::Add => arithmetic_op(unit, FloatOp::Add, &a, &b),
            OpCode::Sub => arithmetic_op(unit, FloatOp::Sub, &a, &b),
            OpCode::Mul => arithmetic_op(unit, FloatOp::Mul, &a, &b),
            OpCode::Mod => modulo_op(&a, &b),
            OpCode::Eq => Ok(Value::Bool(a.equals(&b, unit))),
            OpCode::Ne => Ok(Value::Bool(!a.equals(&b, unit))),
            OpCode::Lt => compare_op(unit, FloatOp::Less, &a, &b),
            OpCode::Le => compare_op(unit, FloatOp::LessEq, &a, &b),
            OpCode::Gt => compare_op(unit, FloatOp::Greater, &a, &b),
            OpCode::Ge => compare_op(unit, FloatOp::GreaterEq, &a, &b),
            OpCode::Xor => Ok(Value::Bool(a.is_truthy() != b.is_truthy())),
            OpCode::ArrayGet => array_get_op(&a, &b),
            OpCode::MapGet => map_get_op(&a, &b),
            OpCode::Store => match a {
                Value::MemoryRef(reference) => {
                    match self.context.memory.store(reference.address, b.clone()) {
                        Err(e) => Err(e),
                        Ok(_) => Ok(b),
                    }
                },
                other => Err(kind_mismatch("memory reference", &other)),
            },
            OpCode::AsyncComplete => match a {
                Value::AsyncHandle(handle) => {
                    match self.context.async_runtime.complete_async(&handle, b) {
                        Err(e) => Err(e),
                        Ok(_) => Ok(Value::Nil),
                    }
                },
                other => Err(kind_mismatch("async handle", &other)),
            },
            _ => Ok(Value::Nil),
        }
    }

    /// The constant of the kind of `op` at `index`.
    fn constant_at(&self, op: OpCode, index: u32) -> (r: Result<Value, RuntimeError>)
        ensures
            value_result(r) == constant(self@.program.constants, op, index),
    {
        let pool = &self.context.program.constants;
        let found = match op {
            OpCode::ConstInt => match pool.get_int(index) {
                Some(i) => Some(Value::Int(i)),
                None => None,
            },
            OpCode::ConstFloat => match pool.get_float(index) {
                Some(bits) => Some(Value::Float(bits)),
                None => None,
            },
            OpCode::ConstString => match pool.get_string(index) {
                Some(s) => Some(Value::String(s.clone())),
                None => None,
            },
            OpCode::ConstBool => match pool.get_bool(index) {
                Some(b) => Some(Value::Bool(b)),
                None => None,
            },
            _ => None,
        };
        match found {
            Some(value) => Ok(value),
            None => Err(RuntimeError::InvalidConstantIndex(index)),
        }
    }

    /// Runs `node`, whose operation is `op`.
    fn execute_opcode<A: Fn(FloatOp, u64, u64) -> u64, S: Fn(u64) -> String>(
        &mut self,
        unit: &FloatUnit<A, S>,
        op: OpCode,
        node: &Node,
        fuel: usize,
    ) -> (r: Result<Value, RuntimeError>)
        requires
            old(self).wf(),
            unit.reliable(),
        ensures
            final(self).wf(),
            (final(self)@, value_result(r)) == eval_opcode(
                unit.model(),
                old(self)@,
                op,
                node@,
                fuel as nat,
            ),
        decreases fuel, 5nat, 0nat,
    {
        match op {
            OpCode::Nop => Ok(Value::Nil),
            OpCode::Return => if node.arg_count > 0 {
                self.get_arg_value(unit, node, 0, fuel)
            } else {
                Ok(Value::Nil)
            },
            OpCode::Call => self.execute_call(unit, node, fuel),
            OpCode::Branch => self.execute_branch(unit, node, fuel),
            OpCode::Div => self.execute_division(unit, node, fuel),
            OpCode::And => self.execute_logic(unit, node, false, fuel),
            OpCode::Or => self.execute_logic(unit, node, true, fuel),
            OpCode::ConstInt | OpCode::ConstFloat | OpCode::ConstString | OpCode::ConstBool => {
                self.constant_at(op, node.args[0])
            },
            OpCode::CreateArray => {
                match self.eval_operands(unit, node, 0, node.arg_count as usize, fuel) {
                    Err(e) => Err(e),
                    Ok(values) => {
                        let array = Value::Array(values);
                        assert(array@->Array_0 =~= values.deep_view());
                        Ok(array)
                    },
                }
            },
            OpCode::CreateMap => {
                let map = Value::Mapping(Vec::new());
                assert(map@->Mapping_0 =~= Seq::empty());
                Ok(map)
            },
            OpCode::DefineFunc => {
                let function = Value::Function(
                    Function {
                        node_id: node.args[0],
                        arity: node.args[1] as usize,
                        captured_values: HashMap::new(),
                    },
                );
                assert(function@->captured =~= Map::empty());
                Ok(function)
            },
            OpCode::CreateClosure => self.execute_create_closure(unit, node, fuel),
            OpCode::Print => self.execute_print(unit, node, fuel),
            OpCode::Alloc => self.execute_alloc(unit, node, fuel),
            OpCode::AsyncBegin => {
                if self.context.async_runtime.can_begin() {
                    let handle = self.context.async_runtime.begin_async();
                    Ok(Value::AsyncHandle(handle))
                } else {
                    Err(invalid_operation(String::from_str("Async handles exhausted")))
                }
            },
            OpCode::Cast | OpCode::TypeOf | OpCode::Read | OpCode::UICreateElement
            | OpCode::UISetAttribute | OpCode::UIAppendChild | OpCode::ExternalCall => Err(
                invalid_operation(join3("Opcode ", name_of(op), " not implemented")),
            ),
            _ => {
                let count = operands_of(op);
                match self.eval_operands(unit, node, 0, count, fuel) {
                    Err(e) => Err(e),
                    Ok(values) => {
                        let mut values = values;
                        if count == 1 {
                            let a = values.pop().unwrap();
                            self.apply_one(op, a)
                        } else if count == 2 {
                            let b = values.pop().unwrap();
                            let a = values.pop().unwrap();
                            self.apply_two(unit, op, a, b)
                        } else {
                            let c = values.pop().unwrap();
                            let b = values.pop().unwrap();
                            let a = values.pop().unwrap();
                            match op {
                                OpCode::ArraySet => array_set_op(a, &b, c),
                                OpCode::MapSet => map_set_op(a, &b, c),
                                _ => Ok(Value::Nil),
                            }
                        }
                    },
                }
            },
        }
    }
}

} // verus!

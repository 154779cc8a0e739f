//! The state of an execution.

use crate::format::binary_format::{holds_capability, Capability, Node, Program};
use crate::runtime::async_runtime::{empty_registry, AsyncRuntime};
use crate::runtime::error::{RuntimeError, RuntimeErrorView};
use crate::runtime::memory::{empty_heap, unit_result, MemoryManager};
use crate::runtime::semantics::{
    bind_local, find_node, get_value, node_from, set_value, ContextView, FrameView,
};
use crate::runtime::value::{Value, ValueView};
use std::collections::HashMap;
use vstd::prelude::*;

verus! {

broadcast use vstd::std_specs::hash::group_hash_axioms;

/// How deep calls nest at most, unless a context is told otherwise.
pub const DEFAULT_MAX_CALL_DEPTH: usize = 1000;

/// How deep the evaluation of operands nests at most, unless a context is
/// told otherwise: as deep as a count can say, which is to say that nothing
/// but the stack of the host bounds it. A host that runs graphs it does
/// not trust to be free of circles sets a lower limit.
pub const DEFAULT_MAX_EVAL_DEPTH: usize = usize::MAX;

/// What a table of values holds.
pub open spec fn table_view(table: Map<u32, Value>) -> Map<u32, ValueView> {
    Map::new(|id: u32| table.contains_key(id), |id: u32| table[id]@)
}

/// The frame of a call: the node of the function that is called, the
/// values that are bound in the call, and the node to which the call
/// returns.
#[derive(Debug)]
pub struct CallFrame {
    pub node_id: u32,
    pub locals: HashMap<u32, Value>,
    pub return_to: Option<u32>,
}

impl View for CallFrame {
    type V = FrameView;

    open spec fn view(&self) -> FrameView {
        FrameView {
            node_id: self.node_id,
            locals: table_view(self.locals@),
            return_to: self.return_to,
        }
    }
}

impl DeepView for CallFrame {
    type V = FrameView;

    open spec fn deep_view(&self) -> FrameView {
        self@
    }
}

/// The state of an execution: the program, the table of memoized values,
/// the call stack, the capabilities that were granted, the heap, the
/// registry of computations that complete later, and what was printed.
#[derive(Debug)]
pub struct ExecutionContext {
    pub program: Program,
    pub values: HashMap<u32, Value>,
    pub call_stack: Vec<CallFrame>,
    pub granted_capabilities: Vec<Capability>,
    pub max_call_depth: usize,
    pub max_eval_depth: usize,
    pub memory: MemoryManager,
    pub async_runtime: AsyncRuntime,
    pub output: String,
}

impl View for ExecutionContext {
    type V = ContextView;

    open spec fn view(&self) -> ContextView {
        ContextView {
            program: self.program@,
            values: table_view(self.values@),
            call_stack: self.call_stack.deep_view(),
            granted_capabilities: self.granted_capabilities@,
            max_call_depth: self.max_call_depth,
            max_eval_depth: self.max_eval_depth,
            memory: self.memory@,
            async_runtime: self.async_runtime@,
            output: self.output@,
        }
    }
}

impl ExecutionContext {
    /// Whether the heap and the registry are as their operations leave
    /// them.
    pub open spec fn wf(&self) -> bool {
        self.memory.wf() && self.async_runtime.wf()
    }

    /// The state before anything of `program` was executed.
    pub fn new(program: Program) -> (context: ExecutionContext)
        ensures
            context.wf(),
            context@.program == program@,
            context@.values == Map::<u32, ValueView>::empty(),
            context@.call_stack == Seq::<FrameView>::empty(),
            context@.granted_capabilities == Seq::<Capability>::empty(),
            context@.max_call_depth == DEFAULT_MAX_CALL_DEPTH,
            context@.max_eval_depth == DEFAULT_MAX_EVAL_DEPTH,
            context@.output == Seq::<char>::empty(),
            context@.memory == empty_heap(),
            context@.async_runtime == empty_registry(),
    {
        let context = ExecutionContext {
            program,
            values: HashMap::new(),
            call_stack: Vec::new(),
            granted_capabilities: Vec::new(),
            max_call_depth: DEFAULT_MAX_CALL_DEPTH,
            max_eval_depth: DEFAULT_MAX_EVAL_DEPTH,
            memory: MemoryManager::new(),
            async_runtime: AsyncRuntime::new(),
            output: String::new(),
        };
        assert(context@.values =~= Map::<u32, ValueView>::empty());
        assert(context@.call_stack =~= Seq::<FrameView>::empty());
        context
    }

    /// Grants `cap`, unless it is granted already.
    pub fn grant_capability(&mut self, cap: Capability)
        ensures
            final(self)@ == (ContextView {
                granted_capabilities: if old(self)@.granted_capabilities.contains(cap) {
                    old(self)@.granted_capabilities
                } else {
                    old(self)@.granted_capabilities.push(cap)
                },
                ..old(self)@
            }),
            old(self).wf() ==> final(self).wf(),
    {
        if !holds_capability(&self.granted_capabilities, cap) {
            self.granted_capabilities.push(cap);
        }
    }

    /// Whether `cap` was granted: an error where it was not. No operation
    /// asks this today.
    pub fn check_capability(&self, cap: &Capability) -> (r: Result<(), RuntimeError>)
        ensures
            unit_result(r) == if self@.granted_capabilities.contains(*cap) {
                Ok::<(), RuntimeErrorView>(())
            } else {
                Err::<(), RuntimeErrorView>(RuntimeErrorView::MissingCapability(*cap))
            },
    {
        if holds_capability(&self.granted_capabilities, *cap) {
            Ok(())
        } else {
            Err(RuntimeError::MissingCapability(*cap))
        }
    }

    /// Pushes a frame for a call of the function at `node_id`, unless the
    /// stack is as deep as the limit allows.
    pub fn push_frame(&mut self, node_id: u32, return_to: Option<u32>) -> (r: Result<
        (),
        RuntimeError,
    >)
        ensures
            old(self).wf() ==> final(self).wf(),
            old(self)@.call_stack.len() >= old(self)@.max_call_depth ==> final(self)@ == old(
                self,
            )@ && unit_result(r) == Err::<(), RuntimeErrorView>(RuntimeErrorView::StackOverflow),
            old(self)@.call_stack.len() < old(self)@.max_call_depth ==> r is Ok && final(self)@
                == (ContextView {
                call_stack: old(self)@.call_stack.push(
                    FrameView { node_id, locals: Map::empty(), return_to },
                ),
                ..old(self)@
            }),
    {
        if self.call_stack.len() >= self.max_call_depth {
            return Err(RuntimeError::StackOverflow);
        }
        let ghost before = self.call_stack.deep_view();
        let frame = CallFrame { node_id, locals: HashMap::new(), return_to };
        assert(frame@.locals =~= Map::<u32, ValueView>::empty());
        self.call_stack.push(frame);
        assert(self.call_stack.deep_view() =~= before.push(frame@));
        Ok(())
    }

    /// Pops the current frame, if there is one.
    pub fn pop_frame(&mut self) -> (frame: Option<CallFrame>)
        ensures
            old(self).wf() ==> final(self).wf(),
            final(self)@ == (ContextView {
                call_stack: if old(self)@.call_stack.len() > 0 {
                    old(self)@.call_stack.drop_last()
                } else {
                    old(self)@.call_stack
                },
                ..old(self)@
            }),
            match frame {
                Some(f) => old(self)@.call_stack.len() > 0 && f@ == old(self)@.call_stack.last(),
                None => old(self)@.call_stack.len() == 0,
            },
    {
        let ghost before = self.call_stack.deep_view();
        let frame = self.call_stack.pop();
        assert(self.call_stack.deep_view() =~= if before.len() > 0 {
            before.drop_last()
        } else {
            before
        });
        frame
    }

    /// The current frame, if there is one.
    pub fn current_frame(&self) -> (frame: Option<&CallFrame>)
        ensures
            match frame {
                Some(f) => self@.call_stack.len() > 0 && f@ == self@.call_stack.last(),
                None => self@.call_stack.len() == 0,
            },
    {
        let depth = self.call_stack.len();
        if depth == 0 {
            None
        } else {
            Some(&self.call_stack[depth - 1])
        }
    }

    /// The current frame, to be changed in place, if there is one. What the
    /// frame holds once the caller is done with it is what the stack holds
    /// on top.
    pub fn current_frame_mut(&mut self) -> (frame: Option<&mut CallFrame>)
        ensures
            match frame {
                Some(f) => {
                    &&& old(self).call_stack@.len() > 0
                    &&& *f == old(self).call_stack@.last()
                    &&& final(self).call_stack@ == old(self).call_stack@.update(
                        old(self).call_stack@.len() - 1,
                        *final(f),
                    )
                },
                None => {
                    &&& old(self).call_stack@.len() == 0
                    &&& final(self).call_stack@ == old(self).call_stack@
                },
            },
            final(self).program == old(self).program,
            final(self).values == old(self).values,
            final(self).granted_capabilities == old(self).granted_capabilities,
            final(self).max_call_depth == old(self).max_call_depth,
            final(self).max_eval_depth == old(self).max_eval_depth,
            final(self).memory == old(self).memory,
            final(self).async_runtime == old(self).async_runtime,
            final(self).output == old(self).output,
    {
        self.call_stack.as_mut_slice().last_mut()
    }

    /// Binds `value` to `id` in the current frame, if there is one.
    pub fn bind_local(&mut self, id: u32, value: Value)
        ensures
            old(self).wf() ==> final(self).wf(),
            final(self)@ == bind_local(old(self)@, id, value@),
    {
        let ghost before = self.call_stack.deep_view();
        match self.call_stack.pop() {
            None => {
                assert(self.call_stack.deep_view() =~= before);
            },
            Some(frame) => {
                let mut frame = frame;
                let ghost locals = frame@.locals;
                frame.locals.insert(id, value);
                assert(frame@.locals =~= locals.insert(id, value@));
                let ghost rest = self.call_stack.deep_view();
                self.call_stack.push(frame);
                assert(rest =~= before.drop_last());
                assert(self.call_stack.deep_view() =~= rest.push(frame@));
            },
        }
    }

    /// Puts `value` under `result_id`, in the current frame and in the
    /// table of memoized values.
    pub fn set_value(&mut self, result_id: u32, value: Value)
        ensures
            old(self).wf() ==> final(self).wf(),
            final(self)@ == set_value(old(self)@, result_id, value@),
    {
        if self.call_stack.len() > 0 {
            self.bind_local(result_id, value.clone());
        }
        let ghost table = self@.values;
        self.values.insert(result_id, value);
        assert(self@.values =~= table.insert(result_id, value@));
    }

    /// The value under `result_id`: that of the current frame, if it has
    /// one, else the memoized one.
    pub fn get_value(&self, result_id: u32) -> (found: Option<&Value>)
        ensures
            match found {
                Some(v) => get_value(self@, result_id) == Some(v@),
                None => get_value(self@, result_id) is None,
            },
    {
        let depth = self.call_stack.len();
        if depth > 0 {
            assert(self@.call_stack.last() == self.call_stack[depth - 1]@);
            match self.call_stack[depth - 1].locals.get(&result_id) {
                Some(v) => {
                    return Some(v);
                },
                None => {},
            }
        }
        self.values.get(&result_id)
    }

    /// The node that `result_id` names: the first whose `result_id` it is.
    pub fn get_node(&self, result_id: u32) -> (found: Option<&Node>)
        ensures
            match found {
                Some(n) => find_node(self@.program.nodes, result_id) == Some(n@),
                None => find_node(self@.program.nodes, result_id) is None,
            },
    {
        let ghost nodes = self@.program.nodes;
        let mut i: usize = 0;
        while i < self.program.nodes.len()
            invariant
                i <= self.program.nodes.len(),
                nodes == self@.program.nodes,
                find_node(nodes, result_id) == node_from(nodes, result_id, i as int),
            decreases self.program.nodes.len() - i,
        {
            assert(nodes[i as int] == self.program.nodes[i as int]@);
            if self.program.nodes[i].result_id == result_id {
                return Some(&self.program.nodes[i]);
            }
            i += 1;
        }
        None
    }
}

} // verus!

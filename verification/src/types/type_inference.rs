//! Finding the types of the nodes of a graph.

use crate::format::binary_format::{Node, NodeView, OpCode, Program};
use crate::runtime::semantics::opcode_of;
use crate::types::type_system::{bindings_view, type_text, Type, TypeView};
use std::collections::HashMap;
use vstd::prelude::*;
use vstd::string::StringExecFns;

verus! {

broadcast use vstd::std_specs::hash::group_hash_axioms;

/// What an expectation holds.
pub struct ConstraintView {
    pub node_id: u32,
    pub expected_type: TypeView,
    pub reason: Seq<char>,
}

/// What a node's type is expected to be, and why.
#[derive(Debug)]
pub struct TypeConstraint {
    pub node_id: u32,
    pub expected_type: Type,
    pub reason: String,
}

impl View for TypeConstraint {
    type V = ConstraintView;

    open spec fn view(&self) -> ConstraintView {
        ConstraintView {
            node_id: self.node_id,
            expected_type: self.expected_type@,
            reason: self.reason@,
        }
    }
}

impl DeepView for TypeConstraint {
    type V = ConstraintView;

    open spec fn deep_view(&self) -> ConstraintView {
        self@
    }
}

/// What an inferencer holds: the types found so far, and what is still
/// expected.
pub struct InferenceView {
    pub node_types: Map<u32, TypeView>,
    pub constraints: Seq<ConstraintView>,
}

/// The types found so far, and what is still expected.
#[derive(Debug)]
pub struct TypeInferencer {
    node_types: HashMap<u32, Type>,
    constraints: Vec<TypeConstraint>,
}

impl View for TypeInferencer {
    type V = InferenceView;

    closed spec fn view(&self) -> InferenceView {
        InferenceView {
            node_types: bindings_view(self.node_types@),
            constraints: self.constraints.deep_view(),
        }
    }
}

/// The one type that two types come down to, or the complaint that they do
/// not. `Any` gives way to the other type; the five types without parts
/// come down to themselves; arrays and mappings as their parts do. The
/// complaint names the two types that do not come down to one.
pub open spec fn unified(a: TypeView, b: TypeView) -> Result<TypeView, Seq<char>>
    decreases a,
{
    match (a, b) {
        (TypeView::Any, t) => Ok(t),
        (t, TypeView::Any) => Ok(t),
        (TypeView::Int, TypeView::Int) => Ok(TypeView::Int),
        (TypeView::Float, TypeView::Float) => Ok(TypeView::Float),
        (TypeView::String, TypeView::String) => Ok(TypeView::String),
        (TypeView::Bool, TypeView::Bool) => Ok(TypeView::Bool),
        (TypeView::Nil, TypeView::Nil) => Ok(TypeView::Nil),
        (TypeView::Array(e1), TypeView::Array(e2)) => match unified(*e1, *e2) {
            Ok(e) => Ok(TypeView::Array(Box::new(e))),
            Err(m) => Err(m),
        },
        (TypeView::Mapping(k1, v1), TypeView::Mapping(k2, v2)) => match unified(*k1, *k2) {
            Err(m) => Err(m),
            Ok(k) => match unified(*v1, *v2) {
                Err(m) => Err(m),
                Ok(v) => Ok(TypeView::Mapping(Box::new(k), Box::new(v))),
            },
        },
        _ => Err("Cannot unify types "@ + type_text(a) + " and "@ + type_text(b)),
    }
}

/// What unifying gives, by views.
pub open spec fn unified_view(r: Result<Type, String>) -> Result<TypeView, Seq<char>> {
    match r {
        Ok(t) => Ok(t@),
        Err(m) => Err(m@),
    }
}

/// What is known of a node from its operation alone: its type, or what its
/// type is expected to be and why.
pub enum Finding {
    Known(TypeView),
    Expected(TypeView, Seq<char>),
}

/// What is known of a node from its operation alone. A constant has the
/// type of its kind, a comparison gives a boolean, a new mapping maps
/// anything to anything; of arithmetic, arrays, reads and computations that
/// complete later something is expected; every other node, and one whose
/// opcode is the code of no operation, can be anything.
pub open spec fn finding(node: NodeView) -> Finding {
    if !OpCode::is_known(node.opcode) {
        Finding::Known(TypeView::Any)
    } else {
        match opcode_of(node.opcode) {
            OpCode::ConstInt => Finding::Known(TypeView::Int),
            OpCode::ConstFloat => Finding::Known(TypeView::Float),
            OpCode::ConstString => Finding::Known(TypeView::String),
            OpCode::ConstBool => Finding::Known(TypeView::Bool),
            OpCode::Add | OpCode::Sub | OpCode::Mul | OpCode::Div => Finding::Expected(
                TypeView::Any,
                "Arithmetic operation"@,
            ),
            OpCode::Eq | OpCode::Ne | OpCode::Lt | OpCode::Le | OpCode::Gt | OpCode::Ge => {
                Finding::Known(TypeView::Bool)
            },
            OpCode::CreateArray => Finding::Expected(
                TypeView::Array(Box::new(TypeView::Any)),
                "Array creation"@,
            ),
            OpCode::ArrayGet => Finding::Expected(TypeView::Any, "Array element access"@),
            OpCode::CreateMap => Finding::Known(
                TypeView::Mapping(Box::new(TypeView::Any), Box::new(TypeView::Any)),
            ),
            OpCode::MapGet => Finding::Expected(TypeView::Any, "Map value access"@),
            OpCode::Load => Finding::Expected(TypeView::Any, "Memory load"@),
            OpCode::AsyncBegin => Finding::Expected(TypeView::NodeRef, "Async operation"@),
            _ => Finding::Known(TypeView::Any),
        }
    }
}

/// The inferencer after a node was looked at: its type is put down, in the
/// place of an earlier one, or an expectation is added.
pub open spec fn after_node(st: InferenceView, node: NodeView) -> InferenceView {
    match finding(node) {
        Finding::Known(t) => InferenceView {
            node_types: st.node_types.insert(node.result_id, t),
            ..st
        },
        Finding::Expected(t, reason) => InferenceView {
            constraints: st.constraints.push(
                ConstraintView { node_id: node.result_id, expected_type: t, reason },
            ),
            ..st
        },
    }
}

/// The inferencer after the nodes from `from` on were looked at in turn.
pub open spec fn after_nodes(st: InferenceView, nodes: Seq<NodeView>, from: int) -> InferenceView
    decreases nodes.len() - from,
{
    if from < 0 || from >= nodes.len() {
        st
    } else {
        after_nodes(after_node(st, nodes[from]), nodes, from + 1)
    }
}

/// The types once the expectations from `from` on were met in turn: a node
/// without a type gets the type that is expected of it first.
pub open spec fn settled(
    types: Map<u32, TypeView>,
    constraints: Seq<ConstraintView>,
    from: int,
) -> Map<u32, TypeView>
    decreases constraints.len() - from,
{
    if from < 0 || from >= constraints.len() {
        types
    } else if types.contains_key(constraints[from].node_id) {
        settled(types, constraints, from + 1)
    } else {
        settled(
            types.insert(constraints[from].node_id, constraints[from].expected_type),
            constraints,
            from + 1,
        )
    }
}

impl TypeInferencer {
    /// An inferencer that has found nothing and expects nothing.
    pub fn new() -> (inferencer: TypeInferencer)
        ensures
            inferencer@ == (InferenceView { node_types: Map::empty(), constraints: Seq::empty() }),
    {
        let inferencer = TypeInferencer { node_types: HashMap::new(), constraints: Vec::new() };
        assert(inferencer@.node_types =~= Map::empty());
        assert(inferencer@.constraints =~= Seq::empty());
        inferencer
    }

    /// Puts down the type of `id`, in the place of an earlier one.
    fn know(&mut self, id: u32, ty: Type)
        ensures
            final(self)@ == (InferenceView {
                node_types: old(self)@.node_types.insert(id, ty@),
                ..old(self)@
            }),
    {
        let ghost before = self@.node_types;
        self.node_types.insert(id, ty);
        assert(self@.node_types =~= before.insert(id, ty@));
    }

    /// Adds the expectation that the type of `id` is `ty`.
    fn expect(&mut self, id: u32, ty: Type, reason: &str)
        ensures
            final(self)@ == (InferenceView {
                constraints: old(self)@.constraints.push(
                    ConstraintView { node_id: id, expected_type: ty@, reason: reason@ },
                ),
                ..old(self)@
            }),
    {
        let ghost before = self@.constraints;
        let constraint = TypeConstraint {
            node_id: id,
            expected_type: ty,
            reason: String::from_str(reason),
        };
        self.constraints.push(constraint);
        assert(self@.constraints =~= before.push(constraint@));
    }

    /// Looks at a node: puts down what its operation alone tells of its
    /// type. This never fails.
    pub fn collect_constraints(&mut self, node: &Node, program: &Program) -> (r: Result<
        (),
        String,
    >)
        ensures
            r is Ok,
            final(self)@ == after_node(old(self)@, node@),
    {
        let id = node.result_id;
        match OpCode::try_from(node.opcode) {
            Err(_) => {
                self.know(id, Type::Any);
            },
            Ok(op) => {
                proof {
                    OpCode::lemma_code_is_injective(op, opcode_of(node.opcode));
                }
                match op {
                    OpCode::ConstInt => self.know(id, Type::Int),
                    OpCode::ConstFloat => self.know(id, Type::Float),
                    OpCode::ConstString => self.know(id, Type::String),
                    OpCode::ConstBool => self.know(id, Type::Bool),
                    OpCode::Add | OpCode::Sub | OpCode::Mul | OpCode::Div => {
                        self.expect(id, Type::Any, "Arithmetic operation")
                    },
                    OpCode::Eq | OpCode::Ne | OpCode::Lt | OpCode::Le | OpCode::Gt | OpCode::Ge => {
                        self.know(id, Type::Bool)
                    },
                    OpCode::CreateArray => {
                        self.expect(id, Type::Array(Box::new(Type::Any)), "Array creation")
                    },
                    OpCode::ArrayGet => self.expect(id, Type::Any, "Array element access"),
                    OpCode::CreateMap => self.know(
                        id,
                        Type::Mapping(Box::new(Type::Any), Box::new(Type::Any)),
                    ),
                    OpCode::MapGet => self.expect(id, Type::Any, "Map value access"),
                    OpCode::Load => self.expect(id, Type::Any, "Memory load"),
                    OpCode::AsyncBegin => self.expect(id, Type::NodeRef, "Async operation"),
                    _ => self.know(id, Type::Any),
                }
            },
        }
        Ok(())
    }

    /// Meets the expectations: every node without a type gets the type that
    /// is expected of it first. This never fails.
    pub fn solve_constraints(&mut self) -> (r: Result<(), String>)
        ensures
            r is Ok,
            final(self)@ == (InferenceView {
                node_types: settled(old(self)@.node_types, old(self)@.constraints, 0),
                ..old(self)@
            }),
    {
        let ghost start = self@;
        let mut i: usize = 0;
        while i < self.constraints.len()
            invariant
                i <= self.constraints.len(),
                self@.constraints == start.constraints,
                start == old(self)@,
                settled(start.node_types, start.constraints, 0) == settled(
                    self@.node_types,
                    start.constraints,
                    i as int,
                ),
            decreases self.constraints.len() - i,
        {
            assert(self@.constraints[i as int] == self.constraints[i as int]@);
            let id = self.constraints[i].node_id;
            if !self.node_types.contains_key(&id) {
                let ty = self.constraints[i].expected_type.clone();
                let ghost before = self@.node_types;
                self.node_types.insert(id, ty);
                assert(self@.node_types =~= before.insert(id, ty@));
            }
            i += 1;
        }
        Ok(())
    }

    /// Finds the types of the nodes of `program`: looks at every node in
    /// turn, meets the expectations, and gives the types found, by node.
    /// This never fails.
    pub fn infer_types(&mut self, program: &Program) -> (r: Result<HashMap<u32, Type>, String>)
        ensures
            r matches Ok(types) && bindings_view(types@) == final(self)@.node_types,
            ({
                let seen = after_nodes(old(self)@, program@.nodes, 0);
                final(self)@ == (InferenceView {
                    node_types: settled(seen.node_types, seen.constraints, 0),
                    ..seen
                })
            }),
    {
        let ghost nodes = program@.nodes;
        let mut i: usize = 0;
        while i < program.nodes.len()
            invariant
                i <= program.nodes.len(),
                nodes == program@.nodes,
                after_nodes(old(self)@, nodes, 0) == after_nodes(self@, nodes, i as int),
            decreases program.nodes.len() - i,
        {
            assert(nodes[i as int] == program.nodes[i as int]@);
            let _ = self.collect_constraints(&program.nodes[i], program);
            i += 1;
        }
        let _ = self.solve_constraints();
        Ok(self.node_types.clone())
    }

    /// The one type that `t1` and `t2` come down to.
    pub fn unify(&self, t1: &Type, t2: &Type) -> (r: Result<Type, String>)
        ensures
            unified_view(r) == unified(t1@, t2@),
        decreases t1,
    {
        match (t1, t2) {
            (Type::Any, t) => Ok(t.clone()),
            (t, Type::Any) => Ok(t.clone()),
            (Type::Int, Type::Int) => Ok(Type::Int),
            (Type::Float, Type::Float) => Ok(Type::Float),
            (Type::String, Type::String) => Ok(Type::String),
            (Type::Bool, Type::Bool) => Ok(Type::Bool),
            (Type::Nil, Type::Nil) => Ok(Type::Nil),
            (Type::Array(e1), Type::Array(e2)) => match self.unify(e1, e2) {
                Ok(e) => Ok(Type::Array(Box::new(e))),
                Err(m) => Err(m),
            },
            (Type::Mapping(k1, v1), Type::Mapping(k2, v2)) => match self.unify(k1, k2) {
                Err(m) => Err(m),
                Ok(k) => match self.unify(v1, v2) {
                    Err(m) => Err(m),
                    Ok(v) => Ok(Type::Mapping(Box::new(k), Box::new(v))),
                },
            },
            _ => {
                let mut message = String::from_str("Cannot unify types ");
                message.append(t1.to_string().as_str());
                message.append(" and ");
                message.append(t2.to_string().as_str());
                Err(message)
            },
        }
    }
}

} // verus!

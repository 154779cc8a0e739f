//! Checking the types of the nodes of a graph.

use crate::format::binary_format::{Node, NodeView, OpCode, Program};
use crate::runtime::semantics::{find_node, node_from, opcode_of};
use crate::runtime::text::{decimal, join3, unsigned_text};
use crate::types::type_system::{
    bindings_view, type_text, with_builtins, SignatureView, Type, TypeEnvironment, TypeView,
};
use std::collections::HashMap;
use vstd::prelude::*;
use vstd::string::StringExecFns;

verus! {

broadcast use vstd::std_specs::hash::group_hash_axioms;

/// The types of the nodes checked so far, and the type of a node or the
/// complaint about it.
pub type Checked = (Map<u32, TypeView>, Result<TypeView, Seq<char>>);

/// The type of an arithmetic operation on operands of two types: an
/// integer for two integers, a float where one is a float, and a complaint
/// for anything else.
pub open spec fn arithmetic_type(left: TypeView, right: TypeView) -> Result<TypeView, Seq<char>> {
    if left is Int && right is Int {
        Ok(TypeView::Int)
    } else if left is Float || right is Float {
        Ok(TypeView::Float)
    } else {
        Err(
            "Type error: cannot apply arithmetic to "@ + type_text(left) + " and "@ + type_text(
                right,
            ),
        )
    }
}

/// The complaint about a check that nests deeper than there are nodes: the
/// graph runs in a circle.
pub open spec fn nests_too_deep() -> Seq<char> {
    "Type check nests too deep"@
}

/// The type of the operand `index` of `node`: nil for the id 0, else the
/// type of the node that the operand names.
pub open spec fn checked_arg(
    types: Map<u32, TypeView>,
    nodes: Seq<NodeView>,
    node: NodeView,
    index: int,
    fuel: nat,
) -> Checked
    decreases fuel, 1nat, 0nat,
{
    if index < 0 || index >= node.arg_count || index >= 3 {
        (types, Err("Invalid argument index"@))
    } else if node.args[index] == 0 {
        (types, Ok(TypeView::Nil))
    } else {
        match find_node(nodes, node.args[index]) {
            None => (types, Err("Node "@ + decimal(node.args[index] as int) + " not found"@)),
            Some(operand) => checked_node(types, nodes, operand, fuel),
        }
    }
}

/// The type of `node`, with `fuel` levels of nesting to spend. A node that
/// was checked has the type that was found. A constant has the type of its
/// kind; arithmetic has the type that its two operands give; a comparison
/// is a boolean; printing gives nil; an array is an array of what its first
/// operand is, or of anything; reading an array gives what the array holds;
/// every other node can be anything. The type that is found is put down.
pub open spec fn checked_node(
    types: Map<u32, TypeView>,
    nodes: Seq<NodeView>,
    node: NodeView,
    fuel: nat,
) -> Checked
    decreases fuel, 0nat, 1nat,
{
    if types.contains_key(node.result_id) {
        (types, Ok(types[node.result_id]))
    } else {
        let (after, found) = found_type(types, nodes, node, fuel);
        match found {
            Err(m) => (after, Err(m)),
            Ok(t) => (after.insert(node.result_id, t), Ok(t)),
        }
    }
}

/// The type that the operation of `node` and its operands give.
pub open spec fn found_type(
    types: Map<u32, TypeView>,
    nodes: Seq<NodeView>,
    node: NodeView,
    fuel: nat,
) -> Checked
    decreases fuel, 0nat, 0nat,
{
    let op = opcode_of(node.opcode);
    let known = OpCode::is_known(node.opcode);
    if !known {
        (types, Ok(TypeView::Any))
    } else if op == OpCode::ConstInt {
        (types, Ok(TypeView::Int))
    } else if op == OpCode::ConstFloat {
        (types, Ok(TypeView::Float))
    } else if op == OpCode::ConstString {
        (types, Ok(TypeView::String))
    } else if op == OpCode::ConstBool {
        (types, Ok(TypeView::Bool))
    } else if op == OpCode::Add || op == OpCode::Sub || op == OpCode::Mul || op
        == OpCode::Div {
        if fuel == 0 {
            (types, Err(nests_too_deep()))
        } else {
            let (t1, left) = checked_arg(types, nodes, node, 0, (fuel - 1) as nat);
            match left {
                Err(m) => (t1, Err(m)),
                Ok(l) => {
                    let (t2, right) = checked_arg(t1, nodes, node, 1, (fuel - 1) as nat);
                    match right {
                        Err(m) => (t2, Err(m)),
                        Ok(r) => (t2, arithmetic_type(l, r)),
                    }
                },
            }
        }
    } else if op == OpCode::Eq || op == OpCode::Ne || op == OpCode::Lt || op == OpCode::Le
        || op == OpCode::Gt || op == OpCode::Ge {
        (types, Ok(TypeView::Bool))
    } else if op == OpCode::Print {
        (types, Ok(TypeView::Nil))
    } else if op == OpCode::CreateArray {
        if node.arg_count == 0 {
            (types, Ok(TypeView::Array(Box::new(TypeView::Any))))
        } else if fuel == 0 {
            (types, Err(nests_too_deep()))
        } else {
            let (t1, element) = checked_arg(types, nodes, node, 0, (fuel - 1) as nat);
            match element {
                Err(m) => (t1, Err(m)),
                Ok(e) => (t1, Ok(TypeView::Array(Box::new(e)))),
            }
        }
    } else if op == OpCode::ArrayGet {
        if fuel == 0 {
            (types, Err(nests_too_deep()))
        } else {
            let (t1, array) = checked_arg(types, nodes, node, 0, (fuel - 1) as nat);
            match array {
                Err(m) => (t1, Err(m)),
                Ok(TypeView::Array(e)) => (t1, Ok(*e)),
                Ok(_) => (t1, Err("Type error: ArrayGet requires array type"@)),
            }
        }
    } else {
        (types, Ok(TypeView::Any))
    }
}

/// The types once the nodes from `from` on were checked in turn, or the
/// first complaint.
pub open spec fn checked_nodes(
    types: Map<u32, TypeView>,
    nodes: Seq<NodeView>,
    from: int,
) -> (Map<u32, TypeView>, Result<(), Seq<char>>)
    decreases nodes.len() - from,
{
    if from < 0 || from >= nodes.len() {
        (types, Ok(()))
    } else {
        let (after, found) = checked_node(types, nodes, nodes[from], nodes.len());
        match found {
            Err(m) => (after, Err(m)),
            Ok(_) => checked_nodes(after, nodes, from + 1),
        }
    }
}

/// What checking a node gives, by views.
pub open spec fn checked_view(r: Result<Type, String>) -> Result<TypeView, Seq<char>> {
    match r {
        Ok(t) => Ok(t@),
        Err(m) => Err(m@),
    }
}

/// What checking a program gives, by views.
pub open spec fn verdict_view(r: Result<(), String>) -> Result<(), Seq<char>> {
    match r {
        Ok(_) => Ok(()),
        Err(m) => Err(m@),
    }
}

/// The types that are known, and the types of the nodes checked so far.
#[derive(Debug)]
pub struct TypeChecker {
    env: TypeEnvironment,
    node_types: HashMap<u32, Type>,
}

impl TypeChecker {
    /// The functions that the checker knows, by name.
    pub closed spec fn known_functions(&self) -> Seq<(Seq<char>, SignatureView)> {
        self.env.signatures()
    }

    /// The types of the nodes checked so far.
    pub closed spec fn types(&self) -> Map<u32, TypeView> {
        bindings_view(self.node_types@)
    }

    /// A checker that knows the built-in functions and has checked nothing.
    pub fn new() -> (checker: TypeChecker)
        ensures
            checker.known_functions() == with_builtins(Seq::empty()),
            checker.types() == Map::<u32, TypeView>::empty(),
    {
        let mut env = TypeEnvironment::new();
        env.add_builtin_functions();
        let checker = TypeChecker { env, node_types: HashMap::new() };
        assert(checker.types() =~= Map::empty());
        checker
    }

    /// The type of the operand `arg_idx` of `node`.
    fn arg_type(&mut self, node: &Node, arg_idx: usize, program: &Program, fuel: usize) -> (r:
        Result<Type, String>)
        ensures
            (final(self).types(), checked_view(r)) == checked_arg(
                old(self).types(),
                program@.nodes,
                node@,
                arg_idx as int,
                fuel as nat,
            ),
            final(self).known_functions() == old(self).known_functions(),
        decreases fuel, 1nat, 0nat,
    {
        if arg_idx >= node.arg_count as usize || arg_idx >= 3 {
            return Err(String::from_str("Invalid argument index"));
        }
        let arg_id = node.args[arg_idx];
        if arg_id == 0 {
            return Ok(Type::Nil);
        }
        match position_of(program, arg_id) {
            Some(i) => self.node_type(&program.nodes[i], program, fuel),
            None => Err(join3("Node ", unsigned_text(arg_id as u64).as_str(), " not found")),
        }
    }

    /// The type of `node`, with `fuel` levels of nesting to spend.
    fn node_type(&mut self, node: &Node, program: &Program, fuel: usize) -> (r: Result<
        Type,
        String,
    >)
        ensures
            (final(self).types(), checked_view(r)) == checked_node(
                old(self).types(),
                program@.nodes,
                node@,
                fuel as nat,
            ),
            final(self).known_functions() == old(self).known_functions(),
        decreases fuel, 0nat, 1nat,
    {
        match self.node_types.get(&node.result_id) {
            Some(ty) => {
                return Ok(ty.clone());
            },
            None => {},
        }
        match self.operation_type(node, program, fuel) {
            Err(m) => Err(m),
            Ok(ty) => {
                let ghost before = self.types();
                self.node_types.insert(node.result_id, ty.clone());
                assert(self.types() =~= before.insert(node.result_id, ty@));
                Ok(ty)
            },
        }
    }

    /// The type that the operation of `node` and its operands give.
    fn operation_type(&mut self, node: &Node, program: &Program, fuel: usize) -> (r: Result<
        Type,
        String,
    >)
        ensures
            (final(self).types(), checked_view(r)) == found_type(
                old(self).types(),
                program@.nodes,
                node@,
                fuel as nat,
            ),
            final(self).known_functions() == old(self).known_functions(),
        decreases fuel, 0nat, 0nat,
    {
        match OpCode::try_from(node.opcode) {
            Err(_) => Ok(Type::Any),
            Ok(op) => {
                proof {
                    OpCode::lemma_code_is_injective(op, opcode_of(node.opcode));
                }
                match op {
                    OpCode::ConstInt => Ok(Type::Int),
                    OpCode::ConstFloat => Ok(Type::Float),
                    OpCode::ConstString => Ok(Type::String),
                    OpCode::ConstBool => Ok(Type::Bool),
                    OpCode::Add | OpCode::Sub | OpCode::Mul | OpCode::Div => {
                        if fuel == 0 {
                            Err(String::from_str("Type check nests too deep"))
                        } else {
                            match self.arg_type(node, 0, program, fuel - 1) {
                                Err(m) => Err(m),
                                Ok(left) => match self.arg_type(node, 1, program, fuel - 1) {
                                    Err(m) => Err(m),
                                    Ok(right) => arithmetic_of(&left, &right),
                                },
                            }
                        }
                    },
                    OpCode::Eq | OpCode::Ne | OpCode::Lt | OpCode::Le | OpCode::Gt | OpCode::Ge => {
                        Ok(Type::Bool)
                    },
                    OpCode::Print => Ok(Type::Nil),
                    OpCode::CreateArray => {
                        if node.arg_count == 0 {
                            let any = Type::Any;
                            assert(any@ == TypeView::Any);
                            let array = Type::Array(Box::new(any));
                            assert(array@ == TypeView::Array(Box::new(any@)));
                            Ok(array)
                        } else if fuel == 0 {
                            Err(String::from_str("Type check nests too deep"))
                        } else {
                            match self.arg_type(node, 0, program, fuel - 1) {
                                Err(m) => Err(m),
                                Ok(element) => {
                                    let array = Type::Array(Box::new(element));
                                    assert(array@ == TypeView::Array(Box::new(element@)));
                                    Ok(array)
                                },
                            }
                        }
                    },
                    OpCode::ArrayGet => {
                        if fuel == 0 {
                            Err(String::from_str("Type check nests too deep"))
                        } else {
                            match self.arg_type(node, 0, program, fuel - 1) {
                                Err(m) => Err(m),
                                Ok(Type::Array(element)) => {
                                    assert(Type::Array(element)@ == TypeView::Array(
                                        Box::new(element@),
                                    ));
                                    Ok(*element)
                                },
                                Ok(other) => {
                                    assert(!(other@ is Array));
                                    Err(String::from_str("Type error: ArrayGet requires array type"))
                                },
                            }
                        }
                    },
                    _ => Ok(Type::Any),
                }
            },
        }
    }

    /// The type of the operand `arg_idx` of `node`. The check of the node
    /// that the operand names nests no deeper than the program has nodes.
    pub fn get_arg_type(&mut self, node: &Node, arg_idx: usize, program: &Program) -> (r: Result<
        Type,
        String,
    >)
        ensures
            (final(self).types(), checked_view(r)) == checked_arg(
                old(self).types(),
                program@.nodes,
                node@,
                arg_idx as int,
                program@.nodes.len(),
            ),
            final(self).known_functions() == old(self).known_functions(),
    {
        self.arg_type(node, arg_idx, program, program.nodes.len())
    }

    /// The type of `node`. The check nests no deeper than the program has
    /// nodes.
    pub fn check_node(&mut self, node: &Node, program: &Program) -> (r: Result<Type, String>)
        ensures
            (final(self).types(), checked_view(r)) == checked_node(
                old(self).types(),
                program@.nodes,
                node@,
                program@.nodes.len(),
            ),
            final(self).known_functions() == old(self).known_functions(),
    {
        self.node_type(node, program, program.nodes.len())
    }

    /// Checks every node of `program` in turn, and that the entry point has
    /// a type then.
    pub fn check_program(&mut self, program: &Program) -> (r: Result<(), String>)
        ensures
            ({
                let (types, checked) = checked_nodes(old(self).types(), program@.nodes, 0);
                &&& final(self).types() == types
                &&& verdict_view(r) == match checked {
                    Err(m) => Err::<(), Seq<char>>(m),
                    Ok(_) => if types.contains_key(program@.metadata.entry_point) {
                        Ok::<(), Seq<char>>(())
                    } else {
                        Err::<(), Seq<char>>("Entry point node not found"@)
                    },
                }
            }),
            final(self).known_functions() == old(self).known_functions(),
    {
        let ghost nodes = program@.nodes;
        let ghost whole = checked_nodes(self.types(), nodes, 0);
        let mut i: usize = 0;
        while i < program.nodes.len()
            invariant
                i <= program.nodes.len(),
                nodes == program@.nodes,
                self.known_functions() == old(self).known_functions(),
                whole == checked_nodes(old(self).types(), nodes, 0),
                whole == checked_nodes(self.types(), nodes, i as int),
            decreases program.nodes.len() - i,
        {
            assert(nodes[i as int] == program.nodes[i as int]@);
            match self.check_node(&program.nodes[i], program) {
                Err(m) => {
                    return Err(m);
                },
                Ok(_) => {},
            }
            i += 1;
        }
        if self.node_types.contains_key(&program.metadata.entry_point) {
            Ok(())
        } else {
            Err(String::from_str("Entry point node not found"))
        }
    }
}

/// The position of the first node of `program` whose `result_id` is `id`.
fn position_of(program: &Program, id: u32) -> (found: Option<usize>)
    ensures
        match found {
            Some(i) => i < program.nodes.len() && find_node(program@.nodes, id) == Some(
                program.nodes[i as int]@,
            ),
            None => find_node(program@.nodes, id) is None,
        },
{
    let ghost nodes = program@.nodes;
    let mut i: usize = 0;
    while i < program.nodes.len()
        invariant
            i <= program.nodes.len(),
            nodes == program@.nodes,
            find_node(nodes, id) == node_from(nodes, id, i as int),
        decreases program.nodes.len() - i,
    {
        assert(nodes[i as int] == program.nodes[i as int]@);
        if program.nodes[i].result_id == id {
            return Some(i);
        }
        i += 1;
    }
    None
}

/// The type of an arithmetic operation on operands of two types.
fn arithmetic_of(left: &Type, right: &Type) -> (r: Result<Type, String>)
    ensures
        checked_view(r) == arithmetic_type(left@, right@),
{
    match (left, right) {
        (Type::Int, Type::Int) => Ok(Type::Int),
        (Type::Float, _) => Ok(Type::Float),
        (_, Type::Float) => Ok(Type::Float),
        _ => {
            let mut message = String::from_str("Type error: cannot apply arithmetic to ");
            message.append(left.to_string().as_str());
            message.append(" and ");
            message.append(right.to_string().as_str());
            Err(message)
        },
    }
}

} // verus!

use der::types::type_checker::TypeChecker;
use der::types::type_inference::TypeInferencer;
use der::types::type_system::{Type, TypeEnvironment};

#[test]
fn test_type_compatibility() {
    assert!(Type::Int.is_compatible_with(&Type::Int));
    assert!(Type::Int.is_compatible_with(&Type::Float));
    assert!(Type::Float.is_compatible_with(&Type::Int));
    assert!(!Type::Int.is_compatible_with(&Type::String));

    assert!(Type::Any.is_compatible_with(&Type::Int));
    assert!(Type::Int.is_compatible_with(&Type::Any));

    let array_int = Type::Array(Box::new(Type::Int));
    let array_float = Type::Array(Box::new(Type::Float));
    assert!(array_int.is_compatible_with(&array_float));
}

#[test]
fn test_common_type() {
    assert_eq!(Type::Int.common_type(&Type::Float), Some(Type::Float));

    assert_eq!(Type::Int.common_type(&Type::Int), Some(Type::Int));

    let union = Type::Int.common_type(&Type::String).unwrap();
    match union {
        Type::Union(types) => {
            assert_eq!(types.len(), 2);
            assert!(types.contains(&Type::Int));
            assert!(types.contains(&Type::String));
        }
        _ => panic!("Expected union type"),
    }
}

#[test]
fn test_type_display() {
    assert_eq!(Type::Int.to_string(), "int");
    assert_eq!(Type::Array(Box::new(Type::Int)).to_string(), "array<int>");
    assert_eq!(
        Type::Mapping(Box::new(Type::String), Box::new(Type::Int)).to_string(),
        "map<string, int>"
    );
    assert_eq!(
        Type::Function(vec![Type::Int, Type::Int], Box::new(Type::Int)).to_string(),
        "fn(int, int) -> int"
    );
}

#[test]
fn type_kinds() {
    assert!(Type::Int.is_numeric());
    assert!(Type::Float.is_numeric());
    assert!(!Type::Bool.is_numeric());
    assert!(Type::Nil.is_primitive());
    assert!(Type::String.is_primitive());
    assert!(!Type::Any.is_primitive());
    assert!(!Type::Array(Box::new(Type::Int)).is_primitive());
    assert!(Type::NodeRef.is_reference());
    assert!(Type::MemoryRef(Box::new(Type::Int)).is_reference());
    assert!(Type::AsyncHandle(Box::new(Type::Any)).is_reference());
    assert!(!Type::Int.is_reference());
    assert_eq!(Type::TypeVar(12).to_string(), "T12");
    assert_eq!(Type::Union(vec![Type::Int, Type::Nil]).to_string(), "(int | nil)");
    assert_eq!(Type::MemoryRef(Box::new(Type::Never)).to_string(), "memref<never>");
    assert_eq!(Type::AsyncHandle(Box::new(Type::Any)).to_string(), "async<any>");
}

#[test]
fn compatibility_of_compound_types() {
    let never = Type::Never;
    assert!(!never.is_compatible_with(&Type::Never));
    assert!(Type::Any.is_compatible_with(&Type::Never));
    let f = |params: Vec<Type>, result: Type| Type::Function(params, Box::new(result));
    assert!(f(vec![Type::Int], Type::Int).is_compatible_with(&f(vec![Type::Float], Type::Float)));
    assert!(!f(vec![Type::Int], Type::Int).is_compatible_with(&f(vec![], Type::Int)));
    assert!(!f(vec![Type::Bool], Type::Int).is_compatible_with(&f(vec![Type::Int], Type::Int)));
    let union = Type::Union(vec![Type::String, Type::Int]);
    assert!(union.is_compatible_with(&Type::Float));
    assert!(Type::Float.is_compatible_with(&union));
    assert!(!union.is_compatible_with(&Type::Bool));
    assert!(!Type::Bool.is_compatible_with(&union));
    // a parameter that is a union is met from the other side
    assert!(f(vec![union.clone()], Type::Nil).is_compatible_with(&f(vec![Type::Float], Type::Nil)));
    let map = |k: Type, v: Type| Type::Mapping(Box::new(k), Box::new(v));
    assert!(map(Type::String, Type::Int).is_compatible_with(&map(Type::String, Type::Float)));
    assert!(!map(Type::String, Type::Int).is_compatible_with(&map(Type::Int, Type::Int)));
    assert!(Type::Any.common_type(&Type::Bool) == Some(Type::Bool));
    assert!(Type::Bool.common_type(&Type::Any) == Some(Type::Bool));
    assert_eq!(
        Type::Array(Box::new(Type::Int)).common_type(&Type::Array(Box::new(Type::Float))),
        Some(Type::Array(Box::new(Type::Float)))
    );
}

#[test]
fn environment_resolves_bindings() {
    let mut env = TypeEnvironment::new();
    let t0 = env.new_type_var();
    let t1 = env.new_type_var();
    assert_eq!(t0, Type::TypeVar(0));
    assert_eq!(t1, Type::TypeVar(1));
    env.bind_type_var(0, Type::Array(Box::new(Type::TypeVar(1))));
    env.bind_type_var(1, Type::Int);
    assert_eq!(env.resolve_type(&t0), Type::Array(Box::new(Type::Int)));
    assert_eq!(
        env.resolve_type(&Type::Function(vec![t1.clone(), Type::TypeVar(5)], Box::new(t0.clone()))),
        Type::Function(
            vec![Type::Int, Type::TypeVar(5)],
            Box::new(Type::Array(Box::new(Type::Int)))
        )
    );
    // a variable bound in a circle stays a variable
    env.bind_type_var(1, Type::TypeVar(0));
    assert!(matches!(env.resolve_type(&t1), Type::Array(_) | Type::TypeVar(_)));
    env.add_builtin_functions();
    env.add_builtin_functions();
    let names: Vec<&str> = env.functions.iter().map(|(name, _)| name.as_str()).collect();
    assert_eq!(names, vec!["add", "eq", "array_get", "alloc", "async_begin"]);
    assert_eq!(env.functions[3].1.params, vec![Type::Int, Type::TypeVar(0)]);
    assert_eq!(env.functions[3].1.return_type, Type::MemoryRef(Box::new(Type::TypeVar(0))));
    let _ = TypeChecker::new();
}

#[test]
fn unify_names_what_does_not_fit() {
    let inferencer = TypeInferencer::new();
    assert_eq!(inferencer.unify(&Type::Any, &Type::Int), Ok(Type::Int));
    assert_eq!(inferencer.unify(&Type::Bool, &Type::Any), Ok(Type::Bool));
    assert_eq!(inferencer.unify(&Type::Nil, &Type::Nil), Ok(Type::Nil));
    assert_eq!(
        inferencer.unify(
            &Type::Array(Box::new(Type::Any)),
            &Type::Array(Box::new(Type::String))
        ),
        Ok(Type::Array(Box::new(Type::String)))
    );
    assert_eq!(
        inferencer.unify(&Type::Int, &Type::Float),
        Err("Cannot unify types int and float".to_string())
    );
    assert_eq!(
        inferencer.unify(
            &Type::Mapping(Box::new(Type::String), Box::new(Type::Int)),
            &Type::Mapping(Box::new(Type::String), Box::new(Type::Bool))
        ),
        Err("Cannot unify types int and bool".to_string())
    );
}

use der::format::binary_format::{Node, OpCode, Program};

#[test]
fn test_basic_type_inference() {
    let mut program = Program::new();

    let idx = program.constants.add_int(42);
    let node = Node::new(OpCode::ConstInt, 1).with_args(&[idx]);
    program.add_node(node);

    let mut inferencer = TypeInferencer::new();
    let types = inferencer.infer_types(&program).unwrap();

    assert_eq!(types.get(&1), Some(&Type::Int));
}

fn typed_program() -> Program {
    let mut program = Program::new();
    let i = program.constants.add_int(1);
    let f = program.constants.add_float(1.5f64.to_bits());
    let s = program.constants.add_string("s".to_string());
    program.add_node(Node::new(OpCode::ConstInt, 1).with_args(&[i]));
    program.add_node(Node::new(OpCode::ConstFloat, 2).with_args(&[f]));
    program.add_node(Node::new(OpCode::ConstString, 3).with_args(&[s]));
    program.add_node(Node::new(OpCode::Add, 4).with_args(&[1, 1]));
    program.add_node(Node::new(OpCode::Mul, 5).with_args(&[1, 2]));
    program.add_node(Node::new(OpCode::CreateArray, 6).with_args(&[2, 1]));
    program.add_node(Node::new(OpCode::ArrayGet, 7).with_args(&[6, 1]));
    program.add_node(Node::new(OpCode::Lt, 8).with_args(&[1, 2]));
    program.add_node(Node::new(OpCode::Print, 9).with_args(&[3]));
    program.add_node(Node::new(OpCode::CreateMap, 10));
    program.add_node(Node::new(OpCode::CreateArray, 11));
    program.set_entry_point(9);
    program
}

#[test]
fn inference_meets_expectations_after_findings() {
    let program = typed_program();
    let mut inferencer = TypeInferencer::new();
    let types = inferencer.infer_types(&program).unwrap();
    assert_eq!(types.len(), 11);
    assert_eq!(types.get(&2), Some(&Type::Float));
    assert_eq!(types.get(&3), Some(&Type::String));
    assert_eq!(types.get(&4), Some(&Type::Any));
    assert_eq!(types.get(&6), Some(&Type::Array(Box::new(Type::Any))));
    assert_eq!(types.get(&7), Some(&Type::Any));
    assert_eq!(types.get(&8), Some(&Type::Bool));
    assert_eq!(types.get(&9), Some(&Type::Any));
    assert_eq!(
        types.get(&10),
        Some(&Type::Mapping(Box::new(Type::Any), Box::new(Type::Any)))
    );
}

#[test]
fn checker_types_nodes_through_their_operands() {
    let program = typed_program();
    let mut checker = TypeChecker::new();
    assert_eq!(checker.check_node(&program.nodes[3], &program), Ok(Type::Int));
    assert_eq!(checker.check_node(&program.nodes[4], &program), Ok(Type::Float));
    assert_eq!(
        checker.check_node(&program.nodes[5], &program),
        Ok(Type::Array(Box::new(Type::Float)))
    );
    assert_eq!(checker.check_node(&program.nodes[6], &program), Ok(Type::Float));
    assert_eq!(checker.check_node(&program.nodes[7], &program), Ok(Type::Bool));
    assert_eq!(checker.check_node(&program.nodes[8], &program), Ok(Type::Nil));
    assert_eq!(checker.check_node(&program.nodes[9], &program), Ok(Type::Any));
    assert_eq!(
        checker.check_node(&program.nodes[10], &program),
        Ok(Type::Array(Box::new(Type::Any)))
    );
    assert_eq!(checker.get_arg_type(&program.nodes[3], 2, &program),
        Err("Invalid argument index".to_string()));
    assert_eq!(TypeChecker::new().check_program(&program), Ok(()));
}

#[test]
fn checker_complains() {
    let mut program = Program::new();
    let s = program.constants.add_string("s".to_string());
    program.add_node(Node::new(OpCode::ConstString, 1).with_args(&[s]));
    program.add_node(Node::new(OpCode::Sub, 2).with_args(&[1, 1]));
    program.add_node(Node::new(OpCode::ArrayGet, 3).with_args(&[1, 1]));
    program.add_node(Node::new(OpCode::Add, 4).with_args(&[40, 1]));
    program.add_node(Node::new(OpCode::Add, 5).with_args(&[5, 5]));
    let mut checker = TypeChecker::new();
    assert_eq!(
        checker.check_node(&program.nodes[1], &program),
        Err("Type error: cannot apply arithmetic to string and string".to_string())
    );
    assert_eq!(
        checker.check_node(&program.nodes[2], &program),
        Err("Type error: ArrayGet requires array type".to_string())
    );
    assert_eq!(
        checker.check_node(&program.nodes[3], &program),
        Err("Node 40 not found".to_string())
    );
    // a node that is its own operand
    assert_eq!(
        checker.check_node(&program.nodes[4], &program),
        Err("Type check nests too deep".to_string())
    );
    let mut only = Program::new();
    only.add_node(Node::new(OpCode::Nop, 1));
    only.set_entry_point(2);
    assert_eq!(
        TypeChecker::new().check_program(&only),
        Err("Entry point node not found".to_string())
    );
}

#[test]
fn a_chain_of_bindings_is_followed() {
    let mut env = TypeEnvironment::new();
    env.bind_type_var(0, Type::TypeVar(1));
    env.bind_type_var(1, Type::Int);
    let ty = Type::Array(Box::new(Type::TypeVar(0)));
    let resolved = env.resolve_type(&ty);
    assert_eq!(resolved, Type::Array(Box::new(Type::Int)));
    // resolving again changes nothing, and the environment is as it was
    assert_eq!(env.resolve_type(&resolved), resolved);
    assert_eq!(env.resolve_type(&Type::TypeVar(1)), Type::Int);
    assert_eq!(env.resolve_type(&Type::TypeVar(7)), Type::TypeVar(7));
    assert_eq!(env.resolve_type(&Type::String), Type::String);
    assert_eq!(env.type_vars.len(), 2);
    assert!(env.can_new_type_var());
}

use der::format::binary_format::{Node, OpCode, Program};
use der::runtime::error::RuntimeError;
use der::runtime::executor::Executor;
use der::runtime::floats::{FloatOp, FloatUnit};
use der::runtime::value::{Function, Value};
use std::collections::HashMap;

fn runtime_arith(op: FloatOp, a: u64, b: u64) -> u64 {
    let x = f64::from_bits(a);
    let y = f64::from_bits(b);
    match op {
        FloatOp::Add => (x + y).to_bits(),
        FloatOp::Sub => (x - y).to_bits(),
        FloatOp::Mul => (x * y).to_bits(),
        FloatOp::Div => (x / y).to_bits(),
        FloatOp::FromInt => ((a as i64) as f64).to_bits(),
        FloatOp::ToInt => (x as i64) as u64,
        FloatOp::Fract => x.fract().to_bits(),
        FloatOp::Less => (x < y) as u64,
        FloatOp::LessEq => (x <= y) as u64,
        FloatOp::Greater => (x > y) as u64,
        FloatOp::GreaterEq => (x >= y) as u64,
    }
}

fn runtime_show(bits: u64) -> String {
    f64::from_bits(bits).to_string()
}

type RuntimeUnit = FloatUnit<fn(FloatOp, u64, u64) -> u64, fn(u64) -> String>;

fn runtime_unit() -> RuntimeUnit {
    FloatUnit { arith: runtime_arith, show: runtime_show }
}

fn create_test_program() -> Program {
    Program::new()
}

/// Builds `left op right` over two integer constants, entered at the
/// operation.
fn int_binary(op: OpCode, left: i64, right: i64) -> Program {
    let mut program = create_test_program();
    let const1_idx = program.constants.add_int(left);
    let const2_idx = program.constants.add_int(right);
    let node1 = Node::new(OpCode::ConstInt, 1).with_args(&[const1_idx]);
    let node2 = Node::new(OpCode::ConstInt, 2).with_args(&[const2_idx]);
    let node3 = Node::new(op, 3).with_args(&[1, 2]);
    program.add_node(node1);
    program.add_node(node2);
    program.add_node(node3);
    program.set_entry_point(3);
    program
}

fn float_binary(op: OpCode, left: f64, right: f64) -> Program {
    let mut program = create_test_program();
    let const1_idx = program.constants.add_float(left.to_bits());
    let const2_idx = program.constants.add_float(right.to_bits());
    let node1 = Node::new(OpCode::ConstFloat, 1).with_args(&[const1_idx]);
    let node2 = Node::new(OpCode::ConstFloat, 2).with_args(&[const2_idx]);
    let node3 = Node::new(op, 3).with_args(&[1, 2]);
    program.add_node(node1);
    program.add_node(node2);
    program.add_node(node3);
    program.set_entry_point(3);
    program
}

fn run(program: Program) -> Result<Value, RuntimeError> {
    let mut executor = Executor::new(program);
    executor.execute(&runtime_unit())
}

#[test]
fn test_arithmetic_operations() {
    let result = run(int_binary(OpCode::Add, 10, 20)).unwrap();
    match result {
        Value::Int(30) => {}
        _ => panic!("Expected Int(30), got {:?}", result),
    }
}

#[test]
fn test_subtraction() {
    let result = run(int_binary(OpCode::Sub, 50, 20)).unwrap();
    match result {
        Value::Int(30) => {}
        _ => panic!("Expected Int(30), got {:?}", result),
    }
}

#[test]
fn test_multiplication() {
    let result = run(int_binary(OpCode::Mul, 6, 7)).unwrap();
    match result {
        Value::Int(42) => {}
        _ => panic!("Expected Int(42), got {:?}", result),
    }
}

#[test]
fn test_division() {
    let result = run(float_binary(OpCode::Div, 10.0, 4.0)).unwrap();
    match result {
        Value::Float(bits) if (f64::from_bits(bits) - 2.5).abs() < 0.001 => {}
        _ => panic!("Expected Float(2.5), got {:?}", result),
    }
}

#[test]
fn test_division_by_zero() {
    let result = run(int_binary(OpCode::Div, 10, 0));
    assert!(matches!(result, Err(RuntimeError::DivisionByZero)));
}

#[test]
fn test_comparison_operations() {
    let result = run(int_binary(OpCode::Lt, 10, 20)).unwrap();
    match result {
        Value::Bool(true) => {}
        _ => panic!("Expected Bool(true), got {:?}", result),
    }
}

#[test]
fn test_logical_operations() {
    let mut program = create_test_program();
    let true_idx = program.constants.add_bool(true);
    let false_idx = program.constants.add_bool(false);
    let node1 = Node::new(OpCode::ConstBool, 1).with_args(&[true_idx]);
    let node2 = Node::new(OpCode::ConstBool, 2).with_args(&[false_idx]);
    let node3 = Node::new(OpCode::And, 3).with_args(&[1, 2]);
    program.add_node(node1);
    program.add_node(node2);
    program.add_node(node3);
    program.set_entry_point(3);
    let result = run(program).unwrap();
    match result {
        Value::Bool(false) => {}
        _ => panic!("Expected Bool(false), got {:?}", result),
    }
}

fn branch_program(condition: bool) -> Program {
    let mut program = create_test_program();
    let cond_idx = program.constants.add_bool(condition);
    let val1_idx = program.constants.add_int(100);
    let val2_idx = program.constants.add_int(200);
    let cond_node = Node::new(OpCode::ConstBool, 1).with_args(&[cond_idx]);
    let then_node = Node::new(OpCode::ConstInt, 2).with_args(&[val1_idx]);
    let else_node = Node::new(OpCode::ConstInt, 3).with_args(&[val2_idx]);
    let branch_node = Node::new(OpCode::Branch, 4).with_args(&[1, 2, 3]);
    program.add_node(cond_node);
    program.add_node(then_node);
    program.add_node(else_node);
    program.add_node(branch_node);
    program.set_entry_point(4);
    program
}

#[test]
fn test_branch_true() {
    let result = run(branch_program(true)).unwrap();
    match result {
        Value::Int(100) => {}
        _ => panic!("Expected Int(100), got {:?}", result),
    }
}

#[test]
fn test_branch_false() {
    let result = run(branch_program(false)).unwrap();
    match result {
        Value::Int(200) => {}
        _ => panic!("Expected Int(200), got {:?}", result),
    }
}

#[test]
fn test_array_operations() {
    let mut program = create_test_program();
    let val1_idx = program.constants.add_int(10);
    let val2_idx = program.constants.add_int(20);
    let val3_idx = program.constants.add_int(30);
    let index_idx = program.constants.add_int(1);
    let elem1 = Node::new(OpCode::ConstInt, 1).with_args(&[val1_idx]);
    let elem2 = Node::new(OpCode::ConstInt, 2).with_args(&[val2_idx]);
    let elem3 = Node::new(OpCode::ConstInt, 3).with_args(&[val3_idx]);
    let array = Node::new(OpCode::CreateArray, 4).with_args(&[1, 2, 3]);
    let index = Node::new(OpCode::ConstInt, 5).with_args(&[index_idx]);
    let get = Node::new(OpCode::ArrayGet, 6).with_args(&[4, 5]);
    program.add_node(elem1);
    program.add_node(elem2);
    program.add_node(elem3);
    program.add_node(array);
    program.add_node(index);
    program.add_node(get);
    program.set_entry_point(6);
    let result = run(program).unwrap();
    match result {
        Value::Int(20) => {}
        _ => panic!("Expected Int(20), got {:?}", result),
    }
}

#[test]
fn test_map_operations() {
    let mut program = create_test_program();
    let key_idx = program.constants.add_string("test_key".to_string());
    let val_idx = program.constants.add_int(42);
    let map_node = Node::new(OpCode::CreateMap, 1);
    let key_node = Node::new(OpCode::ConstString, 2).with_args(&[key_idx]);
    let val_node = Node::new(OpCode::ConstInt, 3).with_args(&[val_idx]);
    let set_node = Node::new(OpCode::MapSet, 4).with_args(&[1, 2, 3]);
    let get_node = Node::new(OpCode::MapGet, 5).with_args(&[4, 2]);
    program.add_node(map_node);
    program.add_node(key_node);
    program.add_node(val_node);
    program.add_node(set_node);
    program.add_node(get_node);
    program.set_entry_point(5);
    let result = run(program).unwrap();
    match result {
        Value::Int(42) => {}
        _ => panic!("Expected Int(42), got {:?}", result),
    }
}

#[test]
fn test_string_operations() {
    let mut program = create_test_program();
    let str1_idx = program.constants.add_string("Hello".to_string());
    let str2_idx = program.constants.add_string("World".to_string());
    let str1_node = Node::new(OpCode::ConstString, 1).with_args(&[str1_idx]);
    let str2_node = Node::new(OpCode::ConstString, 2).with_args(&[str2_idx]);
    let eq_node = Node::new(OpCode::Eq, 3).with_args(&[1, 2]);
    program.add_node(str1_node);
    program.add_node(str2_node);
    program.add_node(eq_node);
    program.set_entry_point(3);
    let result = run(program).unwrap();
    match result {
        Value::Bool(false) => {}
        _ => panic!("Expected Bool(false), got {:?}", result),
    }
}

#[test]
fn test_value_truthiness() {
    assert_eq!(Value::Nil.is_truthy(), false);
    assert_eq!(Value::Bool(true).is_truthy(), true);
    assert_eq!(Value::Bool(false).is_truthy(), false);
    assert_eq!(Value::Int(0).is_truthy(), false);
    assert_eq!(Value::Int(1).is_truthy(), true);
    assert_eq!(Value::Float(0.0f64.to_bits()).is_truthy(), false);
    assert_eq!(Value::Float(1.0f64.to_bits()).is_truthy(), true);
    assert_eq!(Value::String("".to_string()).is_truthy(), false);
    assert_eq!(Value::String("hello".to_string()).is_truthy(), true);
    assert_eq!(Value::Array(vec![]).is_truthy(), false);
    assert_eq!(Value::Array(vec![Value::Int(1)]).is_truthy(), true);
}

#[test]
fn test_complex_expression() {
    let mut program = create_test_program();
    let c10 = program.constants.add_int(10);
    let c20 = program.constants.add_int(20);
    let c5 = program.constants.add_int(5);
    let c3 = program.constants.add_int(3);
    let n10 = Node::new(OpCode::ConstInt, 1).with_args(&[c10]);
    let n20 = Node::new(OpCode::ConstInt, 2).with_args(&[c20]);
    let add = Node::new(OpCode::Add, 3).with_args(&[1, 2]);
    let n5 = Node::new(OpCode::ConstInt, 4).with_args(&[c5]);
    let n3 = Node::new(OpCode::ConstInt, 5).with_args(&[c3]);
    let sub = Node::new(OpCode::Sub, 6).with_args(&[4, 5]);
    let mul = Node::new(OpCode::Mul, 7).with_args(&[3, 6]);
    program.add_node(n10);
    program.add_node(n20);
    program.add_node(add);
    program.add_node(n5);
    program.add_node(n3);
    program.add_node(sub);
    program.add_node(mul);
    program.set_entry_point(7);
    let result = run(program).unwrap();
    match result {
        Value::Int(60) => {}
        _ => panic!("Expected Int(60), got {:?}", result),
    }
}

#[test]
fn exact_integer_division_gives_an_integer() {
    let result = run(int_binary(OpCode::Div, 10, 2)).unwrap();
    assert!(matches!(result, Value::Int(5)));
}

#[test]
fn inexact_integer_division_gives_a_float() {
    let result = run(int_binary(OpCode::Div, 7, 2)).unwrap();
    match result {
        Value::Float(bits) => assert_eq!(f64::from_bits(bits), 3.5),
        other => panic!("expected a float, got {:?}", other),
    }
}

#[test]
fn float_division_by_zero_is_an_error() {
    let result = run(float_binary(OpCode::Div, 1.0, 0.0));
    assert!(matches!(result, Err(RuntimeError::DivisionByZero)));
    let result = run(float_binary(OpCode::Div, 1.0, -0.0));
    assert!(matches!(result, Err(RuntimeError::DivisionByZero)));
}

#[test]
fn mixed_arithmetic_gives_a_float() {
    let mut program = create_test_program();
    let i = program.constants.add_int(10);
    let f = program.constants.add_float(2.5f64.to_bits());
    program.add_node(Node::new(OpCode::ConstInt, 1).with_args(&[i]));
    program.add_node(Node::new(OpCode::ConstFloat, 2).with_args(&[f]));
    program.add_node(Node::new(OpCode::Add, 3).with_args(&[1, 2]));
    program.set_entry_point(3);
    match run(program).unwrap() {
        Value::Float(bits) => assert_eq!(f64::from_bits(bits), 12.5),
        other => panic!("expected a float, got {:?}", other),
    }
}

#[test]
fn modulo_takes_the_sign_of_the_dividend() {
    assert!(matches!(run(int_binary(OpCode::Mod, 7, 3)).unwrap(), Value::Int(1)));
    assert!(matches!(run(int_binary(OpCode::Mod, -7, 3)).unwrap(), Value::Int(-1)));
    assert!(matches!(run(int_binary(OpCode::Mod, 7, -3)).unwrap(), Value::Int(1)));
    assert!(matches!(run(int_binary(OpCode::Mod, i64::MIN, -1)).unwrap(), Value::Int(0)));
    assert!(matches!(run(int_binary(OpCode::Mod, 7, 0)), Err(RuntimeError::DivisionByZero)));
    assert!(matches!(
        run(float_binary(OpCode::Mod, 7.0, 2.0)),
        Err(RuntimeError::TypeMismatch { .. })
    ));
}

#[test]
fn comparisons_take_numbers_only() {
    assert!(matches!(run(int_binary(OpCode::Le, 20, 20)).unwrap(), Value::Bool(true)));
    assert!(matches!(run(int_binary(OpCode::Gt, 20, 20)).unwrap(), Value::Bool(false)));
    assert!(matches!(run(int_binary(OpCode::Ge, 21, 20)).unwrap(), Value::Bool(true)));
    assert!(matches!(run(float_binary(OpCode::Lt, 1.5, 2.5)).unwrap(), Value::Bool(true)));
    let mut program = create_test_program();
    let s = program.constants.add_string("a".to_string());
    program.add_node(Node::new(OpCode::ConstString, 1).with_args(&[s]));
    program.add_node(Node::new(OpCode::Lt, 2).with_args(&[1, 1]));
    program.set_entry_point(2);
    match run(program) {
        Err(RuntimeError::TypeMismatch { expected, actual }) => {
            assert_eq!(expected, "numeric");
            assert_eq!(actual, "string and string");
        }
        other => panic!("expected a type mismatch, got {:?}", other),
    }
}

#[test]
fn floats_within_epsilon_are_equal() {
    let near = f64::from_bits(1.0f64.to_bits() + 0);
    assert!(matches!(run(float_binary(OpCode::Eq, 1.0, near)).unwrap(), Value::Bool(true)));
    assert!(matches!(run(float_binary(OpCode::Eq, 1.0, 1.5)).unwrap(), Value::Bool(false)));
    assert!(matches!(run(float_binary(OpCode::Ne, 1.0, 1.5)).unwrap(), Value::Bool(true)));
    assert!(matches!(run(int_binary(OpCode::Eq, 3, 3)).unwrap(), Value::Bool(true)));
}

/// A branch whose else operand would fail with an index out of bounds.
#[test]
fn untaken_branch_is_never_evaluated() {
    let mut program = create_test_program();
    let t = program.constants.add_bool(true);
    let v = program.constants.add_int(7);
    let zero = program.constants.add_int(0);
    program.add_node(Node::new(OpCode::ConstBool, 1).with_args(&[t]));
    program.add_node(Node::new(OpCode::ConstInt, 2).with_args(&[v]));
    program.add_node(Node::new(OpCode::CreateArray, 3));
    program.add_node(Node::new(OpCode::ConstInt, 4).with_args(&[zero]));
    program.add_node(Node::new(OpCode::ArrayGet, 5).with_args(&[3, 4]));
    program.add_node(Node::new(OpCode::Branch, 6).with_args(&[1, 2, 5]));
    program.add_node(Node::new(OpCode::Branch, 7).with_args(&[1, 5, 2]));
    program.set_entry_point(6);
    assert!(matches!(run(program.clone()).unwrap(), Value::Int(7)));
    // the same else operand, once it is the one that is taken, does fail
    let mut executor = Executor::new(program);
    let taken = executor.execute_node(&runtime_unit(), 7, 64);
    assert!(matches!(
        taken,
        Err(RuntimeError::ArrayIndexOutOfBounds { index: 0, length: 0 })
    ));
}

#[test]
fn branch_without_else_gives_nil() {
    let mut program = create_test_program();
    let f = program.constants.add_bool(false);
    let v = program.constants.add_int(7);
    program.add_node(Node::new(OpCode::ConstBool, 1).with_args(&[f]));
    program.add_node(Node::new(OpCode::ConstInt, 2).with_args(&[v]));
    program.add_node(Node::new(OpCode::Branch, 3).with_args(&[1, 2]));
    program.set_entry_point(3);
    assert!(matches!(run(program).unwrap(), Value::Nil));
}

#[test]
fn short_circuit_skips_the_second_operand() {
    let mut program = create_test_program();
    let f = program.constants.add_bool(false);
    let t = program.constants.add_bool(true);
    program.add_node(Node::new(OpCode::ConstBool, 1).with_args(&[f]));
    program.add_node(Node::new(OpCode::ConstBool, 2).with_args(&[t]));
    // node 3 would fail: it refers to a node that is not there
    program.add_node(Node::new(OpCode::Not, 3).with_args(&[99]));
    program.add_node(Node::new(OpCode::And, 4).with_args(&[1, 3]));
    program.add_node(Node::new(OpCode::Or, 5).with_args(&[2, 3]));
    program.add_node(Node::new(OpCode::And, 6).with_args(&[2, 3]));
    let mut executor = Executor::new(program);
    let unit = runtime_unit();
    assert!(matches!(executor.execute_node(&unit, 4, 64).unwrap(), Value::Bool(false)));
    assert!(matches!(executor.execute_node(&unit, 5, 64).unwrap(), Value::Bool(true)));
    assert!(matches!(
        executor.execute_node(&unit, 6, 64),
        Err(RuntimeError::InvalidNodeRef(99))
    ));
}

/// Two prints refer to one print: the inner one puts out its line once.
#[test]
fn a_node_is_run_once() {
    let mut program = create_test_program();
    let s = program.constants.add_string("once".to_string());
    program.add_node(Node::new(OpCode::ConstString, 1).with_args(&[s]));
    program.add_node(Node::new(OpCode::Print, 2).with_args(&[1]));
    program.add_node(Node::new(OpCode::Print, 3).with_args(&[2]));
    program.add_node(Node::new(OpCode::Print, 4).with_args(&[2]));
    program.add_node(Node::new(OpCode::CreateArray, 5).with_args(&[3, 4]));
    program.set_entry_point(5);
    let mut executor = Executor::new(program);
    let unit = runtime_unit();
    let result = executor.execute(&unit).unwrap();
    assert!(matches!(result, Value::Array(ref items) if items.len() == 2));
    assert_eq!(executor.take_output(), "once\nnil\nnil\n");
    // a second execution finds every value memoized and prints nothing
    executor.execute(&unit).unwrap();
    assert_eq!(executor.take_output(), "");
}

#[test]
fn print_separates_with_blanks() {
    let mut program = create_test_program();
    let s = program.constants.add_string("Hello".to_string());
    let i = program.constants.add_int(-12);
    let f = program.constants.add_float(2.5f64.to_bits());
    program.add_node(Node::new(OpCode::ConstString, 1).with_args(&[s]));
    program.add_node(Node::new(OpCode::ConstInt, 2).with_args(&[i]));
    program.add_node(Node::new(OpCode::ConstFloat, 3).with_args(&[f]));
    program.add_node(Node::new(OpCode::Print, 4).with_args(&[1, 2, 3]));
    program.set_entry_point(4);
    let mut executor = Executor::new(program);
    let result = executor.execute(&runtime_unit()).unwrap();
    assert!(matches!(result, Value::Nil));
    assert_eq!(executor.take_output(), "Hello -12 2.5\n");
}

#[test]
fn values_as_text() {
    let unit = runtime_unit();
    assert_eq!(Value::Nil.to_string(&unit), "nil");
    assert_eq!(Value::Bool(true).to_string(&unit), "true");
    assert_eq!(Value::Int(0).to_string(&unit), "0");
    assert_eq!(Value::Int(i64::MIN).to_string(&unit), "-9223372036854775808");
    assert_eq!(Value::Float(3.14f64.to_bits()).to_string(&unit), "3.14");
    assert_eq!(Value::String("hi".to_string()).to_string(&unit), "hi");
    assert_eq!(
        Value::Array(vec![Value::Int(1), Value::Nil, Value::Array(vec![])]).to_string(&unit),
        "[1, nil, []]"
    );
    assert_eq!(
        Value::Mapping(vec![("a".to_string(), Value::Int(1)), ("b".to_string(), Value::Bool(false))])
            .to_string(&unit),
        "{a: 1, b: false}"
    );
    assert_eq!(
        Value::Function(Function { node_id: 7, arity: 1, captured_values: HashMap::new() })
            .to_string(&unit),
        "<function:7>"
    );
    assert_eq!(Value::NodeRef(9).to_string(&unit), "<node:9>");
    assert_eq!(
        Value::MemoryRef(der::runtime::memory::MemoryReference { address: 0x1000, offset: 3 })
            .to_string(&unit),
        "<memory:0x1000+3>"
    );
    assert_eq!(
        Value::AsyncHandle(der::runtime::async_runtime::AsyncHandle { id: 255 }).to_string(&unit),
        "<async:255>"
    );
}

#[test]
fn value_kinds_and_equality() {
    let unit = runtime_unit();
    assert_eq!(Value::Nil.kind_name(), "nil");
    assert_eq!(Value::Float(0).kind_name(), "float");
    assert_eq!(Value::Mapping(vec![]).kind_name(), "map");
    assert_eq!(Value::NodeRef(1).kind_name(), "noderef");
    let a = Value::Mapping(vec![("x".to_string(), Value::Int(1)), ("y".to_string(), Value::Int(2))]);
    let b = Value::Mapping(vec![("y".to_string(), Value::Int(2)), ("x".to_string(), Value::Int(1))]);
    assert!(a.equals(&b, &unit));
    assert!(!a.equals(&Value::Mapping(vec![("x".to_string(), Value::Int(1))]), &unit));
    assert!(Value::NodeRef(3).equals(&Value::NodeRef(3), &unit));
    let f = Value::Function(Function { node_id: 1, arity: 0, captured_values: HashMap::new() });
    assert!(!f.equals(&f.clone(), &unit));
    assert!(!Value::Int(1).equals(&Value::Float(1.0f64.to_bits()), &unit));
    assert!(Value::Array(vec![Value::Float(0.5f64.to_bits())])
        .equals(&Value::Array(vec![Value::Float(0.5f64.to_bits())]), &unit));
}

#[test]
fn unknown_and_reserved_opcodes_fail() {
    let mut program = create_test_program();
    let mut odd = Node::new(OpCode::Nop, 1);
    odd.opcode = 0xFFFF;
    program.add_node(odd);
    program.add_node(Node::new(OpCode::Cast, 2));
    program.add_node(Node::new(OpCode::ExternalCall, 3));
    let mut executor = Executor::new(program);
    let unit = runtime_unit();
    assert!(matches!(
        executor.execute_node(&unit, 1, 8),
        Err(RuntimeError::UnknownOpcode(0xFFFF))
    ));
    match executor.execute_node(&unit, 2, 8) {
        Err(RuntimeError::InvalidOperation(message)) => {
            assert_eq!(message, "Opcode Cast not implemented")
        }
        other => panic!("expected an invalid operation, got {:?}", other),
    }
    match executor.execute_node(&unit, 3, 8) {
        Err(RuntimeError::InvalidOperation(message)) => {
            assert_eq!(message, "Opcode ExternalCall not implemented")
        }
        other => panic!("expected an invalid operation, got {:?}", other),
    }
}

#[test]
fn references_and_operands_are_checked() {
    let mut program = create_test_program();
    program.add_node(Node::new(OpCode::Not, 1).with_args(&[42]));
    program.add_node(Node::new(OpCode::Add, 2).with_args(&[1]));
    program.add_node(Node::new(OpCode::ConstInt, 3).with_args(&[5]));
    program.add_node(Node::new(OpCode::Add, 4).with_args(&[0, 0]));
    program.set_entry_point(77);
    let mut executor = Executor::new(program);
    let unit = runtime_unit();
    assert!(matches!(executor.execute(&unit), Err(RuntimeError::InvalidNodeRef(77))));
    assert!(matches!(
        executor.execute_node(&unit, 1, 8),
        Err(RuntimeError::InvalidNodeRef(42))
    ));
    assert!(matches!(
        executor.execute_node(&unit, 3, 8),
        Err(RuntimeError::InvalidConstantIndex(5))
    ));
    // slot 0 stands for nil
    assert!(matches!(
        executor.execute_node(&unit, 4, 8),
        Err(RuntimeError::TypeMismatch { .. })
    ));
}

#[test]
fn missing_operand_is_reported() {
    let mut program = create_test_program();
    let t = program.constants.add_bool(true);
    program.add_node(Node::new(OpCode::ConstBool, 1).with_args(&[t]));
    program.add_node(Node::new(OpCode::Xor, 2).with_args(&[1]));
    program.set_entry_point(2);
    assert!(matches!(
        run(program),
        Err(RuntimeError::InvalidArgCount { expected: 2, actual: 1 })
    ));
}

#[test]
fn map_key_not_found() {
    let mut program = create_test_program();
    let key = program.constants.add_string("k".to_string());
    program.add_node(Node::new(OpCode::CreateMap, 1));
    program.add_node(Node::new(OpCode::ConstString, 2).with_args(&[key]));
    program.add_node(Node::new(OpCode::MapGet, 3).with_args(&[1, 2]));
    program.set_entry_point(3);
    match run(program) {
        Err(RuntimeError::MapKeyNotFound(k)) => assert_eq!(k, "k"),
        other => panic!("expected a missing key, got {:?}", other),
    }
}

#[test]
fn array_set_gives_a_new_array() {
    let mut program = create_test_program();
    let a = program.constants.add_int(1);
    let b = program.constants.add_int(9);
    let zero = program.constants.add_int(0);
    program.add_node(Node::new(OpCode::ConstInt, 1).with_args(&[a]));
    program.add_node(Node::new(OpCode::CreateArray, 2).with_args(&[1, 1]));
    program.add_node(Node::new(OpCode::ConstInt, 3).with_args(&[b]));
    program.add_node(Node::new(OpCode::ConstInt, 4).with_args(&[zero]));
    program.add_node(Node::new(OpCode::ArraySet, 5).with_args(&[2, 4, 3]));
    let mut executor = Executor::new(program);
    let unit = runtime_unit();
    let updated = executor.execute_node(&unit, 5, 16).unwrap();
    assert_eq!(updated.to_string(&unit), "[9, 1]");
    let original = executor.execute_node(&unit, 2, 16).unwrap();
    assert_eq!(original.to_string(&unit), "[1, 1]");
}

#[test]
fn call_runs_the_body_in_a_frame() {
    let mut program = create_test_program();
    let v = program.constants.add_int(5);
    program.add_node(Node::new(OpCode::ConstInt, 10).with_args(&[v]));
    // the body adds its first argument, bound under 1, to itself
    program.add_node(Node::new(OpCode::Add, 20).with_args(&[1, 1]));
    program.add_node(Node::new(OpCode::DefineFunc, 30).with_args(&[20, 1]));
    program.add_node(Node::new(OpCode::Call, 40).with_args(&[30, 10]));
    program.add_node(Node::new(OpCode::Call, 50).with_args(&[10]));
    program.set_entry_point(40);
    let mut executor = Executor::new(program);
    let unit = runtime_unit();
    assert!(matches!(executor.execute(&unit).unwrap(), Value::Int(10)));
    assert_eq!(executor.context().call_stack.len(), 0);
    match executor.execute_node(&unit, 50, 16) {
        Err(RuntimeError::TypeMismatch { expected, actual }) => {
            assert_eq!(expected, "function");
            assert_eq!(actual, "int");
        }
        other => panic!("expected a type mismatch, got {:?}", other),
    }
}

/// A function that calls itself nests frames until the limit is met.
#[test]
fn call_depth_is_limited() {
    let mut program = create_test_program();
    program.add_node(Node::new(OpCode::DefineFunc, 1).with_args(&[2, 0]));
    program.add_node(Node::new(OpCode::Call, 2).with_args(&[1]));
    program.set_entry_point(2);
    let mut context = der::runtime::context::ExecutionContext::new(program);
    context.max_call_depth = 3;
    for _ in 0..3 {
        assert!(context.push_frame(2, None).is_ok());
    }
    assert!(matches!(context.push_frame(2, None), Err(RuntimeError::StackOverflow)));
    assert_eq!(context.call_stack.len(), 3);
    assert!(context.pop_frame().is_some());
    assert_eq!(context.call_stack.len(), 2);
}

#[test]
fn evaluation_depth_is_limited() {
    let mut program = create_test_program();
    // a node that refers to itself
    program.add_node(Node::new(OpCode::Not, 1).with_args(&[1]));
    program.set_entry_point(1);
    let mut executor = Executor::new(program);
    assert_eq!(executor.context().max_eval_depth, usize::MAX);
    executor.set_max_eval_depth(100);
    match executor.execute(&runtime_unit()) {
        Err(RuntimeError::InvalidOperation(message)) => {
            assert_eq!(message, "Maximum evaluation depth exceeded")
        }
        other => panic!("expected the depth error, got {:?}", other),
    }
}

/// A chain of several hundred nodes, each the operand of the next, is
/// evaluated to its end: no limit on nesting is set unless the host sets
/// one.
#[test]
fn long_chains_are_evaluated() {
    let mut program = create_test_program();
    let t = program.constants.add_bool(true);
    program.add_node(Node::new(OpCode::ConstBool, 1).with_args(&[t]));
    for id in 2..=600u32 {
        program.add_node(Node::new(OpCode::Not, id).with_args(&[id - 1]));
    }
    program.set_entry_point(600);
    assert!(matches!(run(program.clone()).unwrap(), Value::Bool(false)));
    let mut guarded = Executor::new(program);
    guarded.set_max_eval_depth(599);
    assert!(matches!(
        guarded.execute(&runtime_unit()),
        Err(RuntimeError::InvalidOperation(_))
    ));
    guarded.set_max_eval_depth(600);
    assert!(matches!(guarded.execute(&runtime_unit()).unwrap(), Value::Bool(false)));
}

/// The entry point is the `result_id` of a node, not its position: on the
/// program 10 + 20, whose sum is the third node and has the id 3, the entry
/// point 2, which is the position that adding the sum gave, names the
/// second constant.
#[test]
fn entry_point_is_a_result_id() {
    let mut program = create_test_program();
    let const1_idx = program.constants.add_int(10);
    let const2_idx = program.constants.add_int(20);
    program.add_node(Node::new(OpCode::ConstInt, 1).with_args(&[const1_idx]));
    program.add_node(Node::new(OpCode::ConstInt, 2).with_args(&[const2_idx]));
    let result = program.add_node(Node::new(OpCode::Add, 3).with_args(&[1, 2]));
    assert_eq!(result, 2);
    program.set_entry_point(result);
    assert!(matches!(run(program).unwrap(), Value::Int(20)));
}

#[test]
fn host_arguments_are_loaded() {
    let mut program = create_test_program();
    let zero = program.constants.add_int(0);
    let one = program.constants.add_int(1);
    program.add_node(Node::new(OpCode::ConstInt, 1).with_args(&[zero]));
    program.add_node(Node::new(OpCode::LoadArg, 2).with_args(&[1]));
    program.add_node(Node::new(OpCode::ConstInt, 3).with_args(&[one]));
    program.add_node(Node::new(OpCode::LoadArg, 4).with_args(&[3]));
    let mut executor = Executor::new(program);
    executor.set_argc(1);
    executor.set_argument(0, Value::String("first".to_string()));
    let unit = runtime_unit();
    match executor.execute_node(&unit, 2, 16).unwrap() {
        Value::String(s) => assert_eq!(s, "first"),
        other => panic!("expected a string, got {:?}", other),
    }
    match executor.execute_node(&unit, 4, 16) {
        Err(RuntimeError::InvalidOperation(message)) => {
            assert_eq!(message, "Argument 1 not found")
        }
        other => panic!("expected the missing argument, got {:?}", other),
    }
    match executor.context().get_value(999) {
        Some(Value::Int(1)) => {}
        other => panic!("expected the argument count, got {:?}", other),
    }
}

#[test]
fn closure_captures_values_that_are_there() {
    let mut program = create_test_program();
    let v = program.constants.add_int(5);
    program.add_node(Node::new(OpCode::ConstInt, 1).with_args(&[v]));
    program.add_node(Node::new(OpCode::DefineFunc, 2).with_args(&[1, 0]));
    program.add_node(Node::new(OpCode::CreateClosure, 3).with_args(&[2, 1, 9]));
    let mut executor = Executor::new(program);
    let unit = runtime_unit();
    executor.execute_node(&unit, 1, 16).unwrap();
    match executor.execute_node(&unit, 3, 16).unwrap() {
        Value::Function(function) => {
            assert_eq!(function.node_id, 1);
            assert_eq!(function.arity, 0);
            assert_eq!(function.captured_values.len(), 1);
            assert!(matches!(function.captured_values.get(&1), Some(Value::Int(5))));
            assert!(function.captured_values.get(&9).is_none());
        }
        other => panic!("expected a function, got {:?}", other),
    }
}

#[test]
fn context_prefers_frame_locals() {
    let mut context = der::runtime::context::ExecutionContext::new(Program::new());
    context.set_value(5, Value::Int(1));
    context.push_frame(0, Some(9)).unwrap();
    assert!(matches!(context.get_value(5), Some(Value::Int(1))));
    context.bind_local(5, Value::Int(2));
    assert!(matches!(context.get_value(5), Some(Value::Int(2))));
    context.set_value(6, Value::Int(3));
    let frame = context.pop_frame().unwrap();
    assert_eq!(frame.node_id, 0);
    assert_eq!(frame.return_to, Some(9));
    assert!(matches!(context.get_value(5), Some(Value::Int(1))));
    // a value set inside the frame stays visible once the frame is gone
    assert!(matches!(context.get_value(6), Some(Value::Int(3))));
    assert!(context.current_frame().is_none());
    assert!(context.current_frame_mut().is_none());
    assert!(context.get_node(1).is_none());
    context.push_frame(3, None).unwrap();
    context.current_frame_mut().unwrap().locals.insert(8, Value::Int(4));
    assert!(matches!(context.get_value(8), Some(Value::Int(4))));
    assert_eq!(context.current_frame().unwrap().node_id, 3);
}

#[test]
fn runaway_calls_overflow_the_call_stack() {
    let mut program = create_test_program();
    program.add_node(Node::new(OpCode::DefineFunc, 1).with_args(&[2, 0]));
    program.add_node(Node::new(OpCode::Call, 2).with_args(&[1]));
    program.set_entry_point(2);
    let mut executor = Executor::new(program.clone());
    executor.set_max_call_depth(5);
    assert!(matches!(executor.execute(&runtime_unit()), Err(RuntimeError::StackOverflow)));
    assert_eq!(executor.context().call_stack.len(), 5);
    // with room for calls and little room for nesting, the nesting runs out first
    let mut shallow = Executor::new(program);
    shallow.set_max_eval_depth(4);
    match shallow.execute(&runtime_unit()) {
        Err(RuntimeError::InvalidOperation(message)) => {
            assert_eq!(message, "Maximum evaluation depth exceeded")
        }
        other => panic!("expected the depth error, got {:?}", other),
    }
}

/// Integers are added as floats: past 53 bits they are rounded, and past
/// 63 bits the result stays at the bound.
#[test]
fn integer_arithmetic_goes_through_floats() {
    assert!(matches!(
        run(int_binary(OpCode::Add, i64::MAX, 1)).unwrap(),
        Value::Int(i64::MAX)
    ));
    assert!(matches!(
        run(int_binary(OpCode::Mul, i64::MIN, 2)).unwrap(),
        Value::Int(i64::MIN)
    ));
    assert!(matches!(
        run(int_binary(OpCode::Add, (1 << 53) + 1, 0)).unwrap(),
        Value::Int(9007199254740992)
    ));
    assert!(matches!(run(int_binary(OpCode::Sub, 3, 5)).unwrap(), Value::Int(-2)));
}

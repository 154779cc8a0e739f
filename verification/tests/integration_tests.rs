use der::format::binary_format::{Capability, Node, OpCode, Program};
use der::format::deserializer::DERDeserializer;
use der::format::serializer::DERSerializer;
use der::runtime::error::RuntimeError;
use der::runtime::executor::Executor;
use der::runtime::floats::{FloatOp, FloatUnit};
use der::runtime::value::Value;

fn pipeline_arith(op: FloatOp, a: u64, b: u64) -> u64 {
    let x = f64::from_bits(a);
    let y = f64::from_bits(b);
    match op {
        FloatOp::Add => (x + y).to_bits(),
        FloatOp::Sub => (x - y).to_bits(),
        FloatOp::Mul => (x * y).to_bits(),
        FloatOp::Div => (x / y).to_bits(),
        FloatOp::FromInt => ((a as i64) as f64).to_bits(),
        FloatOp::ToInt => (x as i64) as u64,
        FloatOp::Fract => x.fract().to_bits(),
        FloatOp::Less => (x < y) as u64,
        FloatOp::LessEq => (x <= y) as u64,
        FloatOp::Greater => (x > y) as u64,
        FloatOp::GreaterEq => (x >= y) as u64,
    }
}

fn pipeline_show(bits: u64) -> String {
    f64::from_bits(bits).to_string()
}

fn pipeline_unit() -> FloatUnit<fn(FloatOp, u64, u64) -> u64, fn(u64) -> String> {
    FloatUnit { arith: pipeline_arith, show: pipeline_show }
}

#[test]
fn test_capabilities() {
    let mut program = Program::new();

    let str_idx = program.constants.add_string("Hello".to_string());
    let str_node = Node::new(OpCode::ConstString, 1).with_args(&[str_idx]);
    let print_node = Node::new(OpCode::Print, 2).with_args(&[1]);

    program.add_node(str_node);
    let result = program.add_node(print_node);
    program.set_entry_point(result);

    let mut executor = Executor::new(program);
    let result = executor.execute(&pipeline_unit());
    assert!(result.is_ok());
}

#[test]
fn capabilities_are_recorded_and_not_enforced() {
    let mut program = Program::new();
    let str_idx = program.constants.add_string("Hello".to_string());
    program.add_node(Node::new(OpCode::ConstString, 1).with_args(&[str_idx]));
    program.add_node(Node::new(OpCode::Print, 2).with_args(&[1]));
    program.set_entry_point(2);
    program.require_capability(Capability::UI);
    let mut executor = Executor::new(program);
    assert!(matches!(
        executor.context().check_capability(&Capability::UI),
        Err(RuntimeError::MissingCapability(Capability::UI))
    ));
    executor.grant_capability(Capability::Network);
    executor.grant_capability(Capability::Network);
    assert_eq!(executor.context().granted_capabilities, vec![Capability::Network]);
    assert!(executor.context().check_capability(&Capability::Network).is_ok());
    // the program asks for a capability that nobody granted, and runs all the same
    assert!(matches!(executor.execute(&pipeline_unit()), Ok(Value::Nil)));
    assert_eq!(executor.take_output(), "Hello\n");
}

#[test]
fn test_node_caching() {
    let mut program = Program::new();

    let c10 = program.constants.add_int(10);
    let c20 = program.constants.add_int(20);

    let n10 = Node::new(OpCode::ConstInt, 1).with_args(&[c10]);
    let n20 = Node::new(OpCode::ConstInt, 2).with_args(&[c20]);
    let add = Node::new(OpCode::Add, 3).with_args(&[1, 2]);

    let mul1 = Node::new(OpCode::Mul, 4).with_args(&[3, 3]);
    let mul2 = Node::new(OpCode::Mul, 5).with_args(&[3, 4]);

    program.add_node(n10);
    program.add_node(n20);
    program.add_node(add);
    program.add_node(mul1);
    program.add_node(mul2);
    program.set_entry_point(5);

    let mut executor = Executor::new(program);
    let result = executor.execute(&pipeline_unit()).unwrap();

    match result {
        Value::Int(27000) => {}
        _ => panic!("Expected Int(27000), got {:?}", result),
    }
}

#[test]
fn test_error_propagation() {
    let mut program = Program::new();

    let arr = Node::new(OpCode::CreateArray, 1);
    let idx = program.constants.add_int(0);
    let idx_node = Node::new(OpCode::ConstInt, 2).with_args(&[idx]);
    let get = Node::new(OpCode::ArrayGet, 3).with_args(&[1, 2]);

    program.add_node(arr);
    program.add_node(idx_node);
    program.add_node(get);
    program.set_entry_point(3);

    let mut executor = Executor::new(program);
    let result = executor.execute(&pipeline_unit());

    assert!(matches!(result, Err(RuntimeError::ArrayIndexOutOfBounds { .. })));
}

#[test]
fn test_mixed_types() {
    let mut program = Program::new();

    let int_idx = program.constants.add_int(10);
    let float_idx = program.constants.add_float(2.5f64.to_bits());

    let int_node = Node::new(OpCode::ConstInt, 1).with_args(&[int_idx]);
    let float_node = Node::new(OpCode::ConstFloat, 2).with_args(&[float_idx]);
    let mul = Node::new(OpCode::Mul, 3).with_args(&[1, 2]);

    program.add_node(int_node);
    program.add_node(float_node);
    program.add_node(mul);
    program.set_entry_point(3);

    let mut executor = Executor::new(program);
    let result = executor.execute(&pipeline_unit()).unwrap();

    match result {
        Value::Float(bits) if (f64::from_bits(bits) - 25.0).abs() < 0.001 => {}
        _ => panic!("Expected Float(25.0), got {:?}", result),
    }
}

/// A program is written, read back and executed.
#[test]
fn written_program_runs_after_reading() {
    let mut program = Program::new();
    let c6 = program.constants.add_int(6);
    let c7 = program.constants.add_int(7);
    program.add_node(Node::new(OpCode::ConstInt, 1).with_args(&[c6]));
    program.add_node(Node::new(OpCode::ConstInt, 2).with_args(&[c7]));
    program.add_node(Node::new(OpCode::Mul, 3).with_args(&[1, 2]));
    program.add_node(Node::new(OpCode::Print, 4).with_args(&[3]));
    program.set_entry_point(4);
    program.header.chunk_count = 3;

    let mut serializer = DERSerializer::new(Vec::new());
    serializer.write_program(&program).unwrap();
    let loaded = DERDeserializer::new(serializer.into_inner()).read_program().unwrap();

    let mut executor = Executor::new(loaded);
    assert!(matches!(executor.execute(&pipeline_unit()), Ok(Value::Nil)));
    assert_eq!(executor.take_output(), "42\n");
}

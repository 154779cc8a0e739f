use der::format::binary_format::{Node, OpCode, Program};
use der::runtime::async_runtime::{
    AsyncHandle, AsyncPromise, AsyncRuntime, AsyncStatus, PollOutcome,
};
use der::runtime::error::RuntimeError;
use der::runtime::executor::Executor;
use der::runtime::floats::{FloatOp, FloatUnit};
use der::runtime::value::Value;

fn async_arith(op: FloatOp, a: u64, b: u64) -> u64 {
    let x = f64::from_bits(a);
    let y = f64::from_bits(b);
    match op {
        FloatOp::Add => (x + y).to_bits(),
        FloatOp::Sub => (x - y).to_bits(),
        FloatOp::Mul => (x * y).to_bits(),
        FloatOp::Div => (x / y).to_bits(),
        FloatOp::FromInt => ((a as i64) as f64).to_bits(),
        FloatOp::ToInt => (x as i64) as u64,
        FloatOp::Fract => x.fract().to_bits(),
        FloatOp::Less => (x < y) as u64,
        FloatOp::LessEq => (x <= y) as u64,
        FloatOp::Greater => (x > y) as u64,
        FloatOp::GreaterEq => (x >= y) as u64,
    }
}

fn async_show(bits: u64) -> String {
    f64::from_bits(bits).to_string()
}

/// Runs the nodes of `program` one after the other, in the order in which
/// they were added, and gives what the last one gives, or the first error.
fn run_each(program: Program) -> Result<Value, RuntimeError> {
    let unit: FloatUnit<fn(FloatOp, u64, u64) -> u64, fn(u64) -> String> =
        FloatUnit { arith: async_arith, show: async_show };
    let ids: Vec<u32> = program.nodes.iter().map(|n| n.result_id).collect();
    let mut executor = Executor::new(program);
    let mut last = Value::Nil;
    for id in ids {
        last = executor.execute_node(&unit, id, 64)?;
    }
    Ok(last)
}

#[test]
fn async_runtime_test_async_begin() {
    let mut runtime = AsyncRuntime::new();
    let handle = runtime.begin_async();

    assert_eq!(handle.id, 1);
    assert_eq!(runtime.get_status(&handle), AsyncStatus::Pending);
}

#[test]
fn async_runtime_test_async_complete() {
    let mut runtime = AsyncRuntime::new();
    let handle = runtime.begin_async();

    runtime.complete_async(&handle, Value::Int(42)).unwrap();

    assert_eq!(runtime.get_status(&handle), AsyncStatus::Completed);
    assert!(matches!(runtime.get_result(&handle).unwrap(), Some(Value::Int(42))));
}

#[test]
fn test_async_fail() {
    let mut runtime = AsyncRuntime::new();
    let handle = runtime.begin_async();

    let error = RuntimeError::InvalidOperation("Test error".to_string());
    runtime.fail_async(&handle, error).unwrap();

    assert_eq!(runtime.get_status(&handle), AsyncStatus::Failed);
    assert!(runtime.get_result(&handle).is_err());
}

#[test]
fn test_async_promise() {
    let mut runtime = AsyncRuntime::new();
    let handle = runtime.begin_async();
    let promise = AsyncPromise::new(handle.clone());

    promise.resolve(&mut runtime, Value::String("Success".to_string())).unwrap();

    assert_eq!(runtime.get_status(&handle), AsyncStatus::Completed);
    match runtime.get_result(&handle).unwrap() {
        Some(Value::String(s)) => assert_eq!(s, "Success"),
        other => panic!("expected the string, got {:?}", other),
    }
}

#[test]
fn test_async_cleanup() {
    let mut runtime = AsyncRuntime::new();

    let handle1 = runtime.begin_async();
    let handle2 = runtime.begin_async();
    let handle3 = runtime.begin_async();

    runtime.complete_async(&handle1, Value::Nil).unwrap();
    runtime.fail_async(&handle2, RuntimeError::InvalidOperation("Test".to_string())).unwrap();

    assert_eq!(runtime.task_count(), 3);

    runtime.cleanup_completed();

    assert_eq!(runtime.task_count(), 1);
    assert!(runtime.is_registered(handle3.id));
    // the states outlive the registry entries
    assert_eq!(runtime.get_status(&handle1), AsyncStatus::Completed);
    assert_eq!(runtime.get_status(&handle2), AsyncStatus::Failed);
}

#[test]
fn a_computation_ends_once() {
    let mut runtime = AsyncRuntime::new();
    let handle = runtime.begin_async();
    assert_eq!(runtime.complete_async(&handle, Value::Int(1)).unwrap(), false);
    let message = |r: Result<bool, RuntimeError>| match r {
        Err(RuntimeError::InvalidOperation(m)) => m,
        other => panic!("expected an invalid operation, got {:?}", other),
    };
    assert_eq!(
        message(runtime.complete_async(&handle, Value::Int(2))),
        "Cannot complete async operation that is already completed"
    );
    assert_eq!(
        message(runtime.fail_async(&handle, RuntimeError::DivisionByZero)),
        "Cannot fail async operation that is already completed"
    );
    assert_eq!(
        message(AsyncPromise::new(handle).resolve(&mut runtime, Value::Nil)),
        "Promise already resolved"
    );
    assert_eq!(
        message(AsyncPromise::new(handle).reject(&mut runtime, RuntimeError::DivisionByZero)),
        "Promise already resolved"
    );
    assert!(matches!(runtime.get_result(&handle).unwrap(), Some(Value::Int(1))));
    let stranger = AsyncHandle { id: 99 };
    assert_eq!(message(runtime.complete_async(&stranger, Value::Nil)), "Unknown async handle");
    assert_eq!(runtime.get_status(&stranger), AsyncStatus::Pending);
    assert!(matches!(runtime.get_result(&stranger), Ok(None)));
}

#[test]
fn polling_registers_a_waker() {
    let mut runtime = AsyncRuntime::new();
    let first = runtime.begin_async();
    let second = runtime.begin_async();
    assert_eq!(second.id, 2);
    let awaiter = runtime.await_async(&first);
    assert!(matches!(awaiter.poll(&mut runtime), PollOutcome::Pending));
    // somebody waits for the first, nobody for the second
    assert_eq!(runtime.complete_async(&first, Value::Int(7)).unwrap(), true);
    assert_eq!(runtime.fail_async(&second, RuntimeError::StackOverflow).unwrap(), false);
    assert!(matches!(awaiter.poll(&mut runtime), PollOutcome::Ready(Ok(Value::Int(7)))));
    assert!(matches!(
        runtime.poll_async(&second),
        PollOutcome::Ready(Err(RuntimeError::StackOverflow))
    ));
    assert!(matches!(runtime.get_result(&second), Err(RuntimeError::StackOverflow)));
}

#[test]
fn async_tests_test_async_begin() {
    let mut program = Program::new();

    let async_node = Node::new(OpCode::AsyncBegin, 1);
    program.add_node(async_node);

    let result = run_each(program).unwrap();

    match result {
        Value::AsyncHandle(handle) => {
            assert!(handle.id > 0);
        }
        _ => panic!("Expected AsyncHandle, got {:?}", result),
    }
}

#[test]
fn async_tests_test_async_complete() {
    let mut program = Program::new();

    let begin_node = Node::new(OpCode::AsyncBegin, 1);
    let value_idx = program.constants.add_int(42);
    let value_node = Node::new(OpCode::ConstInt, 2).with_args(&[value_idx]);
    let complete_node = Node::new(OpCode::AsyncComplete, 3).with_args(&[1, 2]);
    let await_node = Node::new(OpCode::AsyncAwait, 4).with_args(&[1]);

    program.add_node(begin_node);
    program.add_node(value_node);
    program.add_node(complete_node);
    program.add_node(await_node);

    let result = run_each(program).unwrap();

    match result {
        Value::Int(42) => {}
        _ => panic!("Expected Int(42), got {:?}", result),
    }
}

#[test]
fn test_async_await_pending() {
    let mut program = Program::new();

    let begin_node = Node::new(OpCode::AsyncBegin, 1);
    let await_node = Node::new(OpCode::AsyncAwait, 2).with_args(&[1]);

    program.add_node(begin_node);
    program.add_node(await_node);
    program.set_entry_point(2);

    let unit: FloatUnit<fn(FloatOp, u64, u64) -> u64, fn(u64) -> String> =
        FloatUnit { arith: async_arith, show: async_show };
    let mut executor = Executor::new(program);
    let result = executor.execute(&unit).unwrap();

    match result {
        Value::AsyncHandle(handle) => assert_eq!(handle.id, 1),
        _ => panic!("Expected AsyncHandle (pending), got {:?}", result),
    }
}

#[test]
fn test_multiple_async_operations() {
    let mut program = Program::new();

    let begin1 = Node::new(OpCode::AsyncBegin, 1);
    let begin2 = Node::new(OpCode::AsyncBegin, 2);
    let val1_idx = program.constants.add_int(100);
    let val2_idx = program.constants.add_int(200);
    let val1 = Node::new(OpCode::ConstInt, 3).with_args(&[val1_idx]);
    let val2 = Node::new(OpCode::ConstInt, 4).with_args(&[val2_idx]);
    let complete1 = Node::new(OpCode::AsyncComplete, 5).with_args(&[1, 3]);
    let complete2 = Node::new(OpCode::AsyncComplete, 6).with_args(&[2, 4]);
    let await1 = Node::new(OpCode::AsyncAwait, 7).with_args(&[1]);
    let await2 = Node::new(OpCode::AsyncAwait, 8).with_args(&[2]);
    let add = Node::new(OpCode::Add, 9).with_args(&[7, 8]);

    program.add_node(begin1);
    program.add_node(begin2);
    program.add_node(val1);
    program.add_node(val2);
    program.add_node(complete1);
    program.add_node(complete2);
    program.add_node(await1);
    program.add_node(await2);
    program.add_node(add);

    let result = run_each(program).unwrap();

    match result {
        Value::Int(300) => {}
        _ => panic!("Expected Int(300), got {:?}", result),
    }
}

#[test]
fn test_async_with_complex_value() {
    let mut program = Program::new();

    let begin_node = Node::new(OpCode::AsyncBegin, 1);
    let val1_idx = program.constants.add_int(10);
    let val2_idx = program.constants.add_int(20);
    let val3_idx = program.constants.add_int(30);
    let val1 = Node::new(OpCode::ConstInt, 2).with_args(&[val1_idx]);
    let val2 = Node::new(OpCode::ConstInt, 3).with_args(&[val2_idx]);
    let val3 = Node::new(OpCode::ConstInt, 4).with_args(&[val3_idx]);
    let array = Node::new(OpCode::CreateArray, 5).with_args(&[2, 3, 4]);
    let complete = Node::new(OpCode::AsyncComplete, 6).with_args(&[1, 5]);
    let await_node = Node::new(OpCode::AsyncAwait, 7).with_args(&[1]);
    let idx = program.constants.add_int(0);
    let idx_node = Node::new(OpCode::ConstInt, 8).with_args(&[idx]);
    let get = Node::new(OpCode::ArrayGet, 9).with_args(&[7, 8]);

    program.add_node(begin_node);
    program.add_node(val1);
    program.add_node(val2);
    program.add_node(val3);
    program.add_node(array);
    program.add_node(complete);
    program.add_node(await_node);
    program.add_node(idx_node);
    program.add_node(get);

    let result = run_each(program).unwrap();

    match result {
        Value::Int(10) => {}
        _ => panic!("Expected Int(10), got {:?}", result),
    }
}

#[test]
fn test_async_type_errors() {
    let mut program = Program::new();

    let val_idx = program.constants.add_int(42);
    let val_node = Node::new(OpCode::ConstInt, 1).with_args(&[val_idx]);
    let await_node = Node::new(OpCode::AsyncAwait, 2).with_args(&[1]);

    program.add_node(val_node);
    program.add_node(await_node);

    let result = run_each(program);

    assert!(result.is_err());
    match result {
        Err(RuntimeError::TypeMismatch { expected, actual }) => {
            assert_eq!(expected, "async handle");
            assert_eq!(actual, "int");
        }
        _ => panic!("Expected TypeMismatch error"),
    }
}

#[test]
fn test_async_chain() {
    let mut program = Program::new();

    let begin1 = Node::new(OpCode::AsyncBegin, 1);
    let val1_idx = program.constants.add_int(10);
    let val1 = Node::new(OpCode::ConstInt, 2).with_args(&[val1_idx]);
    let complete1 = Node::new(OpCode::AsyncComplete, 3).with_args(&[1, 2]);
    let begin2 = Node::new(OpCode::AsyncBegin, 4);
    let await1 = Node::new(OpCode::AsyncAwait, 5).with_args(&[1]);
    let two_idx = program.constants.add_int(2);
    let two = Node::new(OpCode::ConstInt, 6).with_args(&[two_idx]);
    let mul = Node::new(OpCode::Mul, 7).with_args(&[5, 6]);
    let complete2 = Node::new(OpCode::AsyncComplete, 8).with_args(&[4, 7]);
    let await2 = Node::new(OpCode::AsyncAwait, 9).with_args(&[4]);

    program.add_node(begin1);
    program.add_node(val1);
    program.add_node(complete1);
    program.add_node(begin2);
    program.add_node(await1);
    program.add_node(two);
    program.add_node(mul);
    program.add_node(complete2);
    program.add_node(await2);

    let result = run_each(program).unwrap();

    match result {
        Value::Int(20) => {}
        _ => panic!("Expected Int(20), got {:?}", result),
    }
}

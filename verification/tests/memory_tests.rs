use der::format::binary_format::{Node, OpCode, Program};
use der::runtime::error::RuntimeError;
use der::runtime::executor::Executor;
use der::runtime::floats::{FloatOp, FloatUnit};
use der::runtime::memory::MemoryManager;
use der::runtime::value::Value;

fn memory_arith(op: FloatOp, a: u64, b: u64) -> u64 {
    let x = f64::from_bits(a);
    let y = f64::from_bits(b);
    match op {
        FloatOp::Add => (x + y).to_bits(),
        FloatOp::Sub => (x - y).to_bits(),
        FloatOp::Mul => (x * y).to_bits(),
        FloatOp::Div => (x / y).to_bits(),
        FloatOp::FromInt => ((a as i64) as f64).to_bits(),
        FloatOp::ToInt => (x as i64) as u64,
        FloatOp::Fract => x.fract().to_bits(),
        FloatOp::Less => (x < y) as u64,
        FloatOp::LessEq => (x <= y) as u64,
        FloatOp::Greater => (x > y) as u64,
        FloatOp::GreaterEq => (x >= y) as u64,
    }
}

fn memory_show(bits: u64) -> String {
    f64::from_bits(bits).to_string()
}

/// Runs the nodes of `program` one after the other, in the order in which
/// they were added, and gives what the last one gives, or the first error.
fn run_in_order(program: Program) -> Result<Value, RuntimeError> {
    let unit: FloatUnit<fn(FloatOp, u64, u64) -> u64, fn(u64) -> String> =
        FloatUnit { arith: memory_arith, show: memory_show };
    let ids: Vec<u32> = program.nodes.iter().map(|n| n.result_id).collect();
    let mut executor = Executor::new(program);
    let mut last = Value::Nil;
    for id in ids {
        last = executor.execute_node(&unit, id, 64)?;
    }
    Ok(last)
}

#[test]
fn test_allocate_and_load() {
    let mut mem = MemoryManager::new();

    let addr = mem.allocate(8, Value::Int(42)).unwrap();
    let value = mem.load(addr).unwrap();

    assert!(matches!(value, Value::Int(42)));
}

#[test]
fn test_store() {
    let mut mem = MemoryManager::new();

    let addr = mem.allocate(8, Value::Int(42)).unwrap();
    mem.store(addr, Value::Int(100)).unwrap();
    let value = mem.load(addr).unwrap();

    assert!(matches!(value, Value::Int(100)));
}

#[test]
fn test_free() {
    let mut mem = MemoryManager::new();

    let addr = mem.allocate(8, Value::Int(42)).unwrap();
    mem.free(addr).unwrap();

    assert!(mem.load(addr).is_err());
    assert!(mem.store(addr, Value::Int(100)).is_err());
}

#[test]
fn test_double_free() {
    let mut mem = MemoryManager::new();

    let addr = mem.allocate(8, Value::Int(42)).unwrap();
    mem.free(addr).unwrap();

    assert!(mem.free(addr).is_err());
}

#[test]
fn test_reference_counting() {
    let mut mem = MemoryManager::new();

    let addr = mem.allocate(8, Value::Int(42)).unwrap();
    mem.add_ref(addr).unwrap();
    mem.add_ref(addr).unwrap();

    assert_eq!(mem.get_stats().total_refs, 3);

    mem.release_ref(addr).unwrap();
    mem.release_ref(addr).unwrap();

    assert!(mem.load(addr).is_ok());

    mem.release_ref(addr).unwrap();
    assert!(mem.load(addr).is_err());
}

#[test]
fn test_garbage_collection() {
    let mut mem = MemoryManager::new();

    let addr1 = mem.allocate(8, Value::Int(1)).unwrap();
    let addr2 = mem.allocate(8, Value::Int(2)).unwrap();
    let addr3 = mem.allocate(8, Value::Int(3)).unwrap();

    mem.free(addr1).unwrap();
    mem.free(addr3).unwrap();

    assert_eq!(mem.get_stats().heap_size, 3);
    let collected = mem.collect_garbage();
    assert_eq!(collected, 2);
    assert_eq!(mem.get_stats().heap_size, 1);

    assert!(mem.load(addr2).is_ok());
}

#[test]
fn test_memory_limit() {
    let mut mem = MemoryManager::new();
    mem.set_allocation_limit(100);

    mem.allocate(50, Value::Nil).unwrap();
    mem.allocate(40, Value::Nil).unwrap();

    assert!(mem.allocate(20, Value::Nil).is_err());
}

#[test]
fn addresses_rise_and_are_never_reused() {
    let mut mem = MemoryManager::new();
    let a = mem.allocate(8, Value::Nil).unwrap();
    let b = mem.allocate(24, Value::Nil).unwrap();
    assert_eq!(a, 0x1000);
    assert_eq!(b, 0x1008);
    mem.free(a).unwrap();
    assert_eq!(mem.collect_garbage(), 1);
    let c = mem.allocate(1, Value::Nil).unwrap();
    assert_eq!(c, 0x1020);
    match mem.load(a) {
        Err(RuntimeError::InvalidOperation(message)) => {
            assert_eq!(message, "Invalid memory address: 0x1000")
        }
        other => panic!("expected an unknown address, got {:?}", other),
    }
}

#[test]
fn heap_errors_name_the_address() {
    let mut mem = MemoryManager::new();
    let a = mem.allocate(8, Value::Nil).unwrap();
    mem.free(a).unwrap();
    let message = |r: Result<(), RuntimeError>| match r {
        Err(RuntimeError::InvalidOperation(m)) => m,
        other => panic!("expected an invalid operation, got {:?}", other),
    };
    assert_eq!(message(mem.free(a)), "Double free at 0x1000");
    assert_eq!(message(mem.store(a, Value::Nil)), "Writing to freed memory at 0x1000");
    assert_eq!(message(mem.add_ref(a)), "Adding reference to freed memory at 0x1000");
    assert_eq!(message(mem.load(a).map(|_| ())), "Accessing freed memory at 0x1000");
    assert_eq!(message(mem.free(0xabcdef)), "Invalid memory address: 0xabcdef");
    // the tombstone still has its one reference
    mem.release_ref(a).unwrap();
    assert_eq!(message(mem.release_ref(a)), "Reference count underflow at 0x1000");
    mem.set_allocation_limit(4);
    assert_eq!(
        message(mem.allocate(5, Value::Nil).map(|_| ())),
        "Memory allocation limit exceeded"
    );
}

#[test]
fn stats_count_without_changing() {
    let mut mem = MemoryManager::new();
    let a = mem.allocate(10, Value::Nil).unwrap();
    let b = mem.allocate(20, Value::Nil).unwrap();
    mem.allocate(30, Value::Nil).unwrap();
    mem.add_ref(b).unwrap();
    mem.free(a).unwrap();
    let stats = mem.get_stats();
    assert_eq!(stats.total_allocated, 50);
    assert_eq!(stats.active_objects, 2);
    assert_eq!(stats.freed_objects, 1);
    assert_eq!(stats.total_refs, 3);
    assert_eq!(stats.heap_size, 3);
    assert_eq!(mem.get_stats(), stats);
}

#[test]
fn an_object_of_no_bytes_gives_way() {
    let mut mem = MemoryManager::new();
    let a = mem.allocate(0, Value::Int(1)).unwrap();
    let b = mem.allocate(4, Value::Int(2)).unwrap();
    assert_eq!(a, b);
    assert!(matches!(mem.load(a).unwrap(), Value::Int(2)));
    assert_eq!(mem.get_stats().heap_size, 1);
}

#[test]
fn test_memory_allocation() {
    let mut program = Program::new();
    let size_idx = program.constants.add_int(100);
    let size_node = Node::new(OpCode::ConstInt, 1).with_args(&[size_idx]);
    let alloc_node = Node::new(OpCode::Alloc, 2).with_args(&[1]);
    program.add_node(size_node);
    program.add_node(alloc_node);

    let result = run_in_order(program).unwrap();

    match result {
        Value::MemoryRef(ref_val) => {
            assert!(ref_val.address > 0);
            assert_eq!(ref_val.offset, 0);
        }
        _ => panic!("Expected MemoryRef, got {:?}", result),
    }
}

#[test]
fn test_memory_store_and_load() {
    let mut program = Program::new();
    let size_idx = program.constants.add_int(8);
    let size_node = Node::new(OpCode::ConstInt, 1).with_args(&[size_idx]);
    let alloc_node = Node::new(OpCode::Alloc, 2).with_args(&[1]);
    let value_idx = program.constants.add_int(42);
    let value_node = Node::new(OpCode::ConstInt, 3).with_args(&[value_idx]);
    let store_node = Node::new(OpCode::Store, 4).with_args(&[2, 3]);
    let load_node = Node::new(OpCode::Load, 5).with_args(&[2]);
    program.add_node(size_node);
    program.add_node(alloc_node);
    program.add_node(value_node);
    program.add_node(store_node);
    program.add_node(load_node);

    let result = run_in_order(program).unwrap();

    match result {
        Value::Int(42) => {}
        _ => panic!("Expected Int(42), got {:?}", result),
    }
}

#[test]
fn test_memory_free() {
    let mut program = Program::new();
    let size_idx = program.constants.add_int(8);
    let size_node = Node::new(OpCode::ConstInt, 1).with_args(&[size_idx]);
    let alloc_node = Node::new(OpCode::Alloc, 2).with_args(&[1]);
    let free_node = Node::new(OpCode::Free, 3).with_args(&[2]);
    let load_node = Node::new(OpCode::Load, 4).with_args(&[2]);
    program.add_node(size_node);
    program.add_node(alloc_node);
    program.add_node(free_node);
    program.add_node(load_node);

    let result = run_in_order(program);

    assert!(result.is_err());
    match result {
        Err(RuntimeError::InvalidOperation(msg)) => {
            assert!(msg.contains("freed memory"));
        }
        _ => panic!("Expected InvalidOperation error"),
    }
}

#[test]
fn test_memory_with_initial_value() {
    let mut program = Program::new();
    let size_idx = program.constants.add_int(8);
    let init_idx = program.constants.add_string("Hello".to_string());
    let size_node = Node::new(OpCode::ConstInt, 1).with_args(&[size_idx]);
    let init_node = Node::new(OpCode::ConstString, 2).with_args(&[init_idx]);
    let alloc_node = Node::new(OpCode::Alloc, 3).with_args(&[1, 2]);
    let load_node = Node::new(OpCode::Load, 4).with_args(&[3]);
    program.add_node(size_node);
    program.add_node(init_node);
    program.add_node(alloc_node);
    program.add_node(load_node);

    let result = run_in_order(program).unwrap();

    match result {
        Value::String(s) if s == "Hello" => {}
        _ => panic!("Expected String(Hello), got {:?}", result),
    }
}

#[test]
fn test_multiple_allocations() {
    let mut program = Program::new();
    let size_idx = program.constants.add_int(8);
    let size_node = Node::new(OpCode::ConstInt, 1).with_args(&[size_idx]);
    let alloc1 = Node::new(OpCode::Alloc, 2).with_args(&[1]);
    let alloc2 = Node::new(OpCode::Alloc, 3).with_args(&[1]);
    let alloc3 = Node::new(OpCode::Alloc, 4).with_args(&[1]);
    let val1_idx = program.constants.add_int(10);
    let val2_idx = program.constants.add_int(20);
    let val3_idx = program.constants.add_int(30);
    let val1_node = Node::new(OpCode::ConstInt, 5).with_args(&[val1_idx]);
    let val2_node = Node::new(OpCode::ConstInt, 6).with_args(&[val2_idx]);
    let val3_node = Node::new(OpCode::ConstInt, 7).with_args(&[val3_idx]);
    let store1 = Node::new(OpCode::Store, 8).with_args(&[2, 5]);
    let store2 = Node::new(OpCode::Store, 9).with_args(&[3, 6]);
    let store3 = Node::new(OpCode::Store, 10).with_args(&[4, 7]);
    let load = Node::new(OpCode::Load, 11).with_args(&[3]);
    program.add_node(size_node);
    program.add_node(alloc1);
    program.add_node(alloc2);
    program.add_node(alloc3);
    program.add_node(val1_node);
    program.add_node(val2_node);
    program.add_node(val3_node);
    program.add_node(store1);
    program.add_node(store2);
    program.add_node(store3);
    program.add_node(load);

    let result = run_in_order(program).unwrap();

    match result {
        Value::Int(20) => {}
        _ => panic!("Expected Int(20), got {:?}", result),
    }
}

#[test]
fn test_invalid_allocation_size() {
    let mut program = Program::new();
    let size_idx = program.constants.add_int(-10);
    let size_node = Node::new(OpCode::ConstInt, 1).with_args(&[size_idx]);
    let alloc_node = Node::new(OpCode::Alloc, 2).with_args(&[1]);
    program.add_node(size_node);
    program.add_node(alloc_node);

    let result = run_in_order(program);

    assert!(result.is_err());
    match result {
        Err(RuntimeError::TypeMismatch { expected, .. }) => {
            assert!(expected.contains("positive integer"));
        }
        _ => panic!("Expected TypeMismatch error"),
    }
}

#[test]
fn test_memory_update() {
    let mut program = Program::new();
    let size_idx = program.constants.add_int(8);
    let size_node = Node::new(OpCode::ConstInt, 1).with_args(&[size_idx]);
    let alloc_node = Node::new(OpCode::Alloc, 2).with_args(&[1]);
    let val1_idx = program.constants.add_int(100);
    let val1_node = Node::new(OpCode::ConstInt, 3).with_args(&[val1_idx]);
    let store1 = Node::new(OpCode::Store, 4).with_args(&[2, 3]);
    let val2_idx = program.constants.add_int(200);
    let val2_node = Node::new(OpCode::ConstInt, 5).with_args(&[val2_idx]);
    let store2 = Node::new(OpCode::Store, 6).with_args(&[2, 5]);
    let load = Node::new(OpCode::Load, 7).with_args(&[2]);
    program.add_node(size_node);
    program.add_node(alloc_node);
    program.add_node(val1_node);
    program.add_node(store1);
    program.add_node(val2_node);
    program.add_node(store2);
    program.add_node(load);

    let result = run_in_order(program).unwrap();

    match result {
        Value::Int(200) => {}
        _ => panic!("Expected Int(200), got {:?}", result),
    }
}

#[test]
fn test_memory_type_operations() {
    let mut program = Program::new();
    let not_a_ref_idx = program.constants.add_int(42);
    let not_a_ref = Node::new(OpCode::ConstInt, 1).with_args(&[not_a_ref_idx]);
    let free_node = Node::new(OpCode::Free, 2).with_args(&[1]);
    program.add_node(not_a_ref);
    program.add_node(free_node);

    let result = run_in_order(program);

    assert!(result.is_err());
    match result {
        Err(RuntimeError::TypeMismatch { expected, actual }) => {
            assert_eq!(expected, "memory reference");
            assert_eq!(actual, "int");
        }
        _ => panic!("Expected TypeMismatch error"),
    }
}

/// Alloc(8), Store(100), Load; then Free, after which Load, Store and a
/// second Free all fail.
#[test]
fn heap_life_through_the_graph() {
    let mut program = Program::new();
    let eight = program.constants.add_int(8);
    let hundred = program.constants.add_int(100);
    program.add_node(Node::new(OpCode::ConstInt, 1).with_args(&[eight]));
    program.add_node(Node::new(OpCode::Alloc, 2).with_args(&[1]));
    program.add_node(Node::new(OpCode::ConstInt, 3).with_args(&[hundred]));
    program.add_node(Node::new(OpCode::Store, 4).with_args(&[2, 3]));
    program.add_node(Node::new(OpCode::Load, 5).with_args(&[2]));
    program.add_node(Node::new(OpCode::Free, 6).with_args(&[2]));
    program.add_node(Node::new(OpCode::Load, 7).with_args(&[2]));
    program.add_node(Node::new(OpCode::Store, 8).with_args(&[2, 3]));
    program.add_node(Node::new(OpCode::Free, 9).with_args(&[2]));
    let unit: FloatUnit<fn(FloatOp, u64, u64) -> u64, fn(u64) -> String> =
        FloatUnit { arith: memory_arith, show: memory_show };
    let mut executor = Executor::new(program);
    assert!(matches!(executor.execute_node(&unit, 4, 16).unwrap(), Value::Int(100)));
    assert!(matches!(executor.execute_node(&unit, 5, 16).unwrap(), Value::Int(100)));
    assert!(matches!(executor.execute_node(&unit, 6, 16).unwrap(), Value::Nil));
    assert!(matches!(
        executor.execute_node(&unit, 7, 16),
        Err(RuntimeError::InvalidOperation(_))
    ));
    assert!(matches!(
        executor.execute_node(&unit, 8, 16),
        Err(RuntimeError::InvalidOperation(_))
    ));
    match executor.execute_node(&unit, 9, 16) {
        Err(RuntimeError::InvalidOperation(message)) => {
            assert_eq!(message, "Double free at 0x1000")
        }
        other => panic!("expected a double free, got {:?}", other),
    }
    assert_eq!(executor.context().memory.get_stats().freed_objects, 1);
}

#[test]
fn a_sweep_forgets_the_tombstones() {
    let mut mem = MemoryManager::new();
    let a = mem.allocate(4, Value::Int(1)).unwrap();
    let b = mem.allocate(4, Value::Int(2)).unwrap();
    mem.add_ref(b).unwrap();
    mem.free(a).unwrap();
    assert_eq!(mem.collect_garbage(), 1);
    assert_eq!(mem.collect_garbage(), 0);

    match mem.load(a) {
        Err(RuntimeError::InvalidOperation(message)) => {
            assert_eq!(message, "Invalid memory address: 0x1000")
        }
        _ => panic!("a swept address holds nothing"),
    }
    let stats = mem.get_stats();
    assert_eq!(stats.total_allocated, 4);
    assert_eq!(stats.active_objects, 1);
    assert_eq!(stats.freed_objects, 0);
    assert_eq!(stats.total_refs, 2);
    assert_eq!(stats.heap_size, 1);

    let c = mem.allocate(4, Value::Int(3)).unwrap();
    assert_eq!(c, 0x1008);
}

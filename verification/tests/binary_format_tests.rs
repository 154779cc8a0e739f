use der::format::binary_format::{
    ConstantPool, FileHeader, Node, NodeFlag, OpCode, Program, DER_MAGIC, VERSION,
};

#[test]
fn test_file_header_creation() {
    let header = FileHeader::new(3);
    assert_eq!(header.magic, DER_MAGIC);
    assert_eq!(header.version, VERSION);
    assert_eq!(header.chunk_count, 3);
}

#[test]
fn test_node_creation() {
    let node = Node::new(OpCode::Add, 100);
    assert_eq!(node.opcode, OpCode::Add.code());
    assert_eq!(node.opcode, 0x0100);
    assert_eq!(node.result_id, 100);
    assert_eq!(node.arg_count, 0);
    assert!(node.timestamp > 0);
}

#[test]
fn test_node_with_args() {
    let node = Node::new(OpCode::Add, 100).with_args(&[10, 20]);
    assert_eq!(node.arg_count, 2);
    assert_eq!(node.args[0], 10);
    assert_eq!(node.args[1], 20);
    assert_eq!(node.args[2], 0);
}

#[test]
fn test_node_flags() {
    let mut node = Node::new(OpCode::Add, 100);

    node.set_flag(NodeFlag::IsAsync);
    assert!(node.has_flag(NodeFlag::IsAsync));
    assert!(!node.has_flag(NodeFlag::IsPure));

    node.set_flag(NodeFlag::IsPure);
    assert!(node.has_flag(NodeFlag::IsAsync));
    assert!(node.has_flag(NodeFlag::IsPure));
}

#[test]
fn test_constant_pool() {
    let mut pool = ConstantPool::new();

    let int_idx = pool.add_int(42);
    let float_idx = pool.add_float(3.14f64.to_bits());
    let string_idx = pool.add_string("hello".to_string());
    let bool_idx = pool.add_bool(true);

    assert_eq!(pool.get_int(int_idx), Some(42));
    assert_eq!(pool.get_float(float_idx).map(f64::from_bits), Some(3.14));
    assert_eq!(pool.get_string(string_idx).map(|s| s.as_str()), Some("hello"));
    assert_eq!(pool.get_bool(bool_idx), Some(true));
}

#[test]
fn test_program_creation() {
    let mut program = Program::new();

    let node1 = Node::new(OpCode::ConstInt, 1);
    let node2 = Node::new(OpCode::ConstInt, 2);
    let node3 = Node::new(OpCode::Add, 3).with_args(&[1, 2]);

    let idx1 = program.add_node(node1);
    let idx2 = program.add_node(node2);
    let idx3 = program.add_node(node3);

    assert_eq!(idx1, 0);
    assert_eq!(idx2, 1);
    assert_eq!(idx3, 2);

    program.set_entry_point(idx3);
    assert_eq!(program.metadata.entry_point, idx3);
}

#[test]
fn test_opcode_range() {
    let opcodes = vec![
        OpCode::Nop, OpCode::Return, OpCode::Call, OpCode::Branch,
        OpCode::Add, OpCode::Sub, OpCode::Mul, OpCode::Div, OpCode::Mod,
        OpCode::Eq, OpCode::Ne, OpCode::Lt, OpCode::Le, OpCode::Gt, OpCode::Ge,
        OpCode::And, OpCode::Or, OpCode::Not, OpCode::Xor,
        OpCode::ConstInt, OpCode::ConstFloat, OpCode::ConstString, OpCode::ConstBool,
        OpCode::CreateArray, OpCode::ArrayGet, OpCode::ArraySet,
        OpCode::CreateMap, OpCode::MapGet, OpCode::MapSet,
        OpCode::DefineFunc, OpCode::CreateClosure,
        OpCode::Print,
    ];

    for opcode in opcodes {
        let value = opcode.code();
        assert!(value <= 0xFFFF);
        assert_eq!(OpCode::try_from(value), Ok(opcode));
    }
}

use der::format::binary_format::{Capability, Trait};
use der::format::deserializer::DERDeserializer;
use der::format::serializer::DERSerializer;
use der::format::wire::{DecodeError, EncodeError};

fn encode(program: &Program) -> Vec<u8> {
    let mut serializer = DERSerializer::new(Vec::new());
    serializer.write_program(program).unwrap();
    serializer.into_inner()
}

fn decode(bytes: Vec<u8>) -> Result<Program, DecodeError> {
    DERDeserializer::new(bytes).read_program()
}

#[test]
fn test_serialization_deserialization() {
    let mut program = Program::new();

    let const1_idx = program.constants.add_int(10);
    let const2_idx = program.constants.add_int(20);

    let node1 = Node::new(OpCode::ConstInt, 1).with_args(&[const1_idx]);
    let node2 = Node::new(OpCode::ConstInt, 2).with_args(&[const2_idx]);
    let node3 = Node::new(OpCode::Add, 3).with_args(&[1, 2]);

    program.add_node(node1);
    program.add_node(node2);
    let result_node = program.add_node(node3);
    program.set_entry_point(result_node);

    program.require_capability(Capability::FileSystem);
    program.metadata.traits.push(Trait {
        name: "Addition".to_string(),
        preconditions: vec!["inputs are integers".to_string()],
        postconditions: vec!["result is sum".to_string()],
    });

    program.header.chunk_count = 3;

    let mut serializer = DERSerializer::new(Vec::new());
    serializer.write_program(&program).unwrap();
    let buffer = serializer.into_inner();

    let mut deserializer = DERDeserializer::new(buffer);
    let loaded_program = deserializer.read_program().unwrap();

    assert_eq!(loaded_program.nodes.len(), 3);
    assert_eq!(loaded_program.metadata.entry_point, result_node);
    assert_eq!(loaded_program.metadata.required_capabilities.len(), 1);
    assert_eq!(loaded_program.metadata.traits.len(), 1);
    assert_eq!(loaded_program.constants.get_int(const1_idx), Some(10));
    assert_eq!(loaded_program.constants.get_int(const2_idx), Some(20));
}

fn rich_program() -> Program {
    let mut program = Program::new();
    program.header.chunk_count = 3;
    program.header.flags = 0xBEEF;
    program.header.reserved = [1, 2, 3, 4];
    program.constants.add_int(-1);
    program.constants.add_int(i64::MAX);
    program.constants.add_float(3.14f64.to_bits());
    program.constants.add_float(f64::NEG_INFINITY.to_bits());
    program.constants.add_string("grüße".to_string());
    program.constants.add_string(String::new());
    program.constants.add_bool(true);
    program.constants.add_bool(false);
    let mut none = Node::with_timestamp(OpCode::Nop, 7, 0x0102_0304_0506_0708);
    none.set_flag(NodeFlag::IsEntryPoint);
    program.add_node(none);
    program.add_node(Node::with_timestamp(OpCode::Branch, 0xFFFF_FFFF, 1).with_args(&[7, 8, 9]));
    program.set_entry_point(7);
    program.require_capability(Capability::Network);
    program.require_capability(Capability::ExternalCode);
    program.require_capability(Capability::Network);
    program.metadata.traits.push(Trait {
        name: "Pure".to_string(),
        preconditions: vec![],
        postconditions: vec!["a".to_string(), "b".to_string()],
    });
    program.metadata.traits.push(Trait {
        name: String::new(),
        preconditions: vec!["p".to_string()],
        postconditions: vec![],
    });
    program
}

#[test]
fn round_trip_keeps_every_field() {
    let program = rich_program();
    let bytes = encode(&program);
    let loaded = decode(bytes.clone()).unwrap();
    assert_eq!(loaded.header.magic, DER_MAGIC);
    assert_eq!(loaded.header.version, VERSION);
    assert_eq!(loaded.header.flags, 0xBEEF);
    assert_eq!(loaded.header.chunk_count, 3);
    assert_eq!(loaded.header.reserved, [1, 2, 3, 4]);
    assert_eq!(loaded.nodes.len(), 2);
    for (a, b) in loaded.nodes.iter().zip(program.nodes.iter()) {
        assert_eq!(a.opcode, b.opcode);
        assert_eq!(a.flags, b.flags);
        assert_eq!(a.result_id, b.result_id);
        assert_eq!(a.timestamp, b.timestamp);
        assert_eq!(a.arg_count, b.arg_count);
        assert_eq!(a.args, b.args);
    }
    assert_eq!(loaded.nodes[0].arg_count, 0);
    assert_eq!(loaded.nodes[1].arg_count, 3);
    assert_eq!(loaded.constants.integers, vec![-1, i64::MAX]);
    assert_eq!(loaded.constants.floats, program.constants.floats);
    assert_eq!(loaded.constants.get_float(0).map(f64::from_bits), Some(3.14));
    assert_eq!(loaded.constants.strings, vec!["grüße".to_string(), String::new()]);
    assert_eq!(loaded.constants.booleans, vec![true, false]);
    assert_eq!(loaded.metadata.entry_point, 7);
    assert_eq!(
        loaded.metadata.required_capabilities,
        vec![Capability::Network, Capability::ExternalCode]
    );
    assert_eq!(loaded.metadata.traits.len(), 2);
    assert_eq!(loaded.metadata.traits[0].name, "Pure");
    assert!(loaded.metadata.traits[0].preconditions.is_empty());
    assert_eq!(loaded.metadata.traits[0].postconditions, vec!["a".to_string(), "b".to_string()]);
    assert_eq!(loaded.metadata.traits[1].name, "");
    assert_eq!(loaded.metadata.traits[1].preconditions, vec!["p".to_string()]);
    // writing what was read gives the same bytes
    assert_eq!(encode(&loaded), bytes);
}

#[test]
fn wire_layout_is_exact() {
    let mut program = Program::new();
    program.header.chunk_count = 3;
    program.add_node(Node::with_timestamp(OpCode::Add, 3, 0x1122).with_args(&[1, 2]));
    program.set_entry_point(3);
    program.constants.add_int(1);
    program.constants.add_bool(true);
    let bytes = encode(&program);
    let mut expected: Vec<u8> = Vec::new();
    // file header
    expected.extend_from_slice(&[0x44, 0x45, 0x52, 0x21, 0x00, 0x01, 0, 0, 3, 0, 0, 0, 0, 0, 0, 0]);
    // META: entry point, no capabilities, no traits
    expected.extend_from_slice(b"META");
    expected.extend_from_slice(&[12, 0, 0, 0, 0, 0, 0, 0, 0, 0, 0, 0]);
    expected.extend_from_slice(&[3, 0, 0, 0, 0, 0, 0, 0, 0, 0, 0, 0]);
    // IMPL: one record of 29 bytes
    expected.extend_from_slice(b"IMPL");
    expected.extend_from_slice(&[29, 0, 0, 0, 0, 0, 0, 0, 0, 0, 0, 0]);
    expected.extend_from_slice(&[0x00, 0x01, 0, 0, 3, 0, 0, 0]);
    expected.extend_from_slice(&[0x22, 0x11, 0, 0, 0, 0, 0, 0]);
    expected.extend_from_slice(&[2, 1, 0, 0, 0, 2, 0, 0, 0, 0, 0, 0, 0]);
    // CNST: one integer, no floats, no strings, one boolean
    expected.extend_from_slice(b"CNST");
    expected.extend_from_slice(&[25, 0, 0, 0, 0, 0, 0, 0, 0, 0, 0, 0]);
    expected.extend_from_slice(&[1, 0, 0, 0, 1, 0, 0, 0, 0, 0, 0, 0]);
    expected.extend_from_slice(&[0, 0, 0, 0, 0, 0, 0, 0, 1, 0, 0, 0, 1]);
    assert_eq!(bytes, expected);
}

#[test]
fn bad_magic_differs_from_truncation() {
    let mut bytes = encode(&rich_program());
    assert_eq!(decode(bytes[..15].to_vec()).err(), Some(DecodeError::Truncated));
    assert_eq!(decode(Vec::new()).err(), Some(DecodeError::Truncated));
    assert_eq!(decode(bytes[..bytes.len() - 1].to_vec()).err(), Some(DecodeError::Truncated));
    bytes[0] = b'X';
    assert_eq!(decode(bytes.clone()).err(), Some(DecodeError::BadMagic));
    // a wrong magic in front of too few bytes for a header is a truncation
    assert_eq!(decode(bytes[..8].to_vec()).err(), Some(DecodeError::Truncated));
}

#[test]
fn invalid_utf8_is_refused() {
    let mut program = Program::new();
    program.header.chunk_count = 3;
    program.constants.add_string("ab".to_string());
    let mut bytes = encode(&program);
    let last = bytes.len() - 5;
    assert_eq!(&bytes[last - 1..last + 1], b"ab");
    bytes[last] = 0xFF;
    assert_eq!(decode(bytes).err(), Some(DecodeError::InvalidUtf8));
}

#[test]
fn unknown_chunks_and_capabilities_are_skipped() {
    let mut bytes: Vec<u8> = Vec::new();
    bytes.extend_from_slice(&[0x44, 0x45, 0x52, 0x21, 0x00, 0x01, 0, 0, 3, 0, 0, 0, 0, 0, 0, 0]);
    bytes.extend_from_slice(b"PROF");
    bytes.extend_from_slice(&[3, 0, 0, 0, 0, 0, 0, 0, 9, 9, 9, 9, 0xAA, 0xBB, 0xCC]);
    bytes.extend_from_slice(b"XTRA");
    bytes.extend_from_slice(&[0, 0, 0, 0, 0, 0, 0, 0, 0, 0, 0, 0]);
    bytes.extend_from_slice(b"META");
    bytes.extend_from_slice(&[20, 0, 0, 0, 0, 0, 0, 0, 0, 0, 0, 0]);
    bytes.extend_from_slice(&[5, 0, 0, 0, 2, 0, 0, 0, 9, 0, 0, 0, 4, 0, 0, 0, 0, 0, 0, 0]);
    bytes.extend_from_slice(&[1, 2, 3]);
    let mut deserializer = DERDeserializer::new(bytes.clone());
    let program = deserializer.read_program().unwrap();
    assert_eq!(deserializer.position(), bytes.len() - 3);
    assert_eq!(program.metadata.entry_point, 5);
    assert_eq!(program.metadata.required_capabilities, vec![Capability::UI]);
    assert!(program.nodes.is_empty());
    // what follows is no container
    assert_eq!(deserializer.read_program().err(), Some(DecodeError::Truncated));
    assert_eq!(deserializer.position(), bytes.len() - 3);
}

#[test]
fn node_count_comes_from_the_record_size() {
    let mut bytes: Vec<u8> = Vec::new();
    bytes.extend_from_slice(&[0x44, 0x45, 0x52, 0x21, 0x00, 0x01, 0, 0, 1, 0, 0, 0, 0, 0, 0, 0]);
    bytes.extend_from_slice(b"IMPL");
    bytes.extend_from_slice(&[58, 0, 0, 0, 0, 0, 0, 0, 0, 0, 0, 0]);
    for id in [1u8, 2u8] {
        bytes.extend_from_slice(&[0x00, 0x05, 0, 0, id, 0, 0, 0]);
        bytes.extend_from_slice(&[0; 8]);
        bytes.extend_from_slice(&[1, 0, 0, 0, 0, 0, 0, 0, 0, 0, 0, 0, 0]);
    }
    let program = decode(bytes.clone()).unwrap();
    assert_eq!(program.nodes.len(), 2);
    assert_eq!(program.nodes[1].result_id, 2);
    assert_eq!(program.nodes[1].opcode, OpCode::ConstInt.code());
    // a size of 57 holds one whole record
    bytes[20] = 57;
    assert_eq!(decode(bytes).unwrap().nodes.len(), 1);
}

#[test]
fn writer_appends_and_counts_chunks_as_given() {
    let mut program = Program::new();
    let mut serializer = DERSerializer::new(vec![0xEE]);
    assert_eq!(serializer.write_program(&program), Ok::<(), EncodeError>(()));
    let bytes = serializer.into_inner();
    assert_eq!(bytes[0], 0xEE);
    // the header of a new program announces no chunk: nothing of it is read back
    let loaded = decode(bytes[1..].to_vec()).unwrap();
    assert_eq!(loaded.header.chunk_count, 0);
    program.header.chunk_count = 3;
    let mut nodes: Vec<u8> = Vec::new();
    DERSerializer::new(Vec::new()).write_impl_chunk(&mut nodes, &program.nodes);
    assert_eq!(nodes, b"IMPL\0\0\0\0\0\0\0\0\0\0\0\0".to_vec());
}

#[test]
fn opcodes_decode_to_themselves() {
    for code in 0..=0xFFFFu16 {
        match OpCode::try_from(code) {
            Ok(op) => assert_eq!(op.code(), code),
            Err(()) => {}
        }
    }
    assert_eq!(OpCode::try_from(0x0B02), Ok(OpCode::AsyncComplete));
    assert_eq!(OpCode::try_from(0x0F00), Ok(OpCode::ExternalCall));
    assert_eq!(OpCode::try_from(0x0004), Err(()));
    assert_eq!(NodeFlag::RequiresProof.bit(), 0x0040);
}

#[test]
fn with_args_takes_at_most_three() {
    let node = Node::with_timestamp(OpCode::Print, 1, 0).with_args(&[5, 6, 7, 8]);
    assert_eq!(node.arg_count, 3);
    assert_eq!(node.args, [5, 6, 7]);
    let fewer = node.with_args(&[9]);
    assert_eq!(fewer.arg_count, 1);
    assert_eq!(fewer.args, [9, 0, 0]);
    let none = fewer.with_args(&[]);
    assert_eq!(none.arg_count, 0);
    assert_eq!(none.args, [0, 0, 0]);
}

#[test]
fn unused_slots_hold_the_sentinel() {
    let node = Node::new(OpCode::Add, 1).with_args(&[1, 2, 3]);
    let result = node.with_args(&[9]);
    assert_eq!(result.arg_count, 1);
    assert_eq!(result.args, [9, 0, 0]);
    assert_eq!(result.opcode, node.opcode);
    assert_eq!(result.result_id, 1);
    assert_eq!(result.timestamp, node.timestamp);
}

#[test]
fn every_prefix_is_refused_as_truncated() {
    let bytes = encode(&rich_program());
    for cut in 0..bytes.len() {
        assert_eq!(
            decode(bytes[..cut].to_vec()).err(),
            Some(DecodeError::Truncated),
            "prefix of {} bytes",
            cut
        );
    }
    assert!(decode(bytes).is_ok());
}

#[test]
fn damaged_bytes_never_break_the_reader() {
    let bytes = encode(&rich_program());
    for at in 0..bytes.len() {
        for flip in [0x01u8, 0x80u8, 0xFFu8] {
            let mut damaged = bytes.clone();
            damaged[at] ^= flip;
            let _ = decode(damaged);
        }
    }
}

//! The in-memory shape of a program: header, node records, constant pool and
//! metadata, together with the mathematical views that the contracts of the
//! codec and of the runtime speak about.

use crate::format::clock::{clock_now, duration_micros, since_epoch};
use vstd::prelude::*;

verus! {

/// The four bytes that open every container: the ASCII text `DER!`.
pub const DER_MAGIC: [u8; 4] = [0x44, 0x45, 0x52, 0x21];

/// Format version 1.0.
pub const VERSION: u16 = 0x0100;

/// The largest number of operands a node can reference.
pub const MAX_ARGS: usize = 3;

/// What a file header holds.
pub struct HeaderView {
    pub magic: Seq<u8>,
    pub version: u16,
    pub flags: u16,
    pub chunk_count: u32,
    pub reserved: Seq<u8>,
}

/// The fixed 16-byte record at the start of a container.
#[derive(Debug, Clone, Copy)]
pub struct FileHeader {
    pub magic: [u8; 4],
    pub version: u16,
    pub flags: u16,
    pub chunk_count: u32,
    pub reserved: [u8; 4],
}

impl View for FileHeader {
    type V = HeaderView;

    open spec fn view(&self) -> HeaderView {
        HeaderView {
            magic: self.magic@,
            version: self.version,
            flags: self.flags,
            chunk_count: self.chunk_count,
            reserved: self.reserved@,
        }
    }
}

impl FileHeader {
    /// A header of the current version that announces `chunk_count` chunks.
    pub fn new(chunk_count: u32) -> (header: FileHeader)
        ensures
            header.magic == DER_MAGIC,
            header.version == VERSION,
            header.flags == 0,
            header.chunk_count == chunk_count,
            header.reserved@ == seq![0u8, 0u8, 0u8, 0u8],
    {
        FileHeader { magic: DER_MAGIC, version: VERSION, flags: 0, chunk_count, reserved: [0u8; 4] }
    }
}

/// What a chunk header holds.
pub struct ChunkHeaderView {
    pub chunk_type: Seq<u8>,
    pub size: u32,
    pub flags: u32,
    pub checksum: u32,
}

/// The fixed 16-byte record in front of every chunk payload: the tag of
/// the chunk, the size of the payload in bytes, flags, and a checksum that
/// is written as 0 and never looked at.
#[derive(Debug, Clone, Copy)]
pub struct ChunkHeader {
    pub chunk_type: [u8; 4],
    pub size: u32,
    pub flags: u32,
    pub checksum: u32,
}

impl View for ChunkHeader {
    type V = ChunkHeaderView;

    open spec fn view(&self) -> ChunkHeaderView {
        ChunkHeaderView {
            chunk_type: self.chunk_type@,
            size: self.size,
            flags: self.flags,
            checksum: self.checksum,
        }
    }
}

/// The operation a node performs.
#[derive(Debug, Clone, Copy, PartialEq, Eq, Structural)]
pub enum OpCode {
    Nop,
    Return,
    Call,
    Branch,
    Add,
    Sub,
    Mul,
    Div,
    Mod,
    Eq,
    Ne,
    Lt,
    Le,
    Gt,
    Ge,
    And,
    Or,
    Not,
    Xor,
    Load,
    Store,
    Alloc,
    Free,
    LoadArg,
    ConstInt,
    ConstFloat,
    ConstString,
    ConstBool,
    CreateArray,
    CreateMap,
    ArrayGet,
    ArraySet,
    MapGet,
    MapSet,
    DefineFunc,
    CreateClosure,
    Cast,
    TypeOf,
    Print,
    Read,
    UICreateElement,
    UISetAttribute,
    UIAppendChild,
    AsyncBegin,
    AsyncAwait,
    AsyncComplete,
    ExternalCall,
}

impl OpCode {
    /// The 16-bit code under which the operation travels in a node record.
    pub open spec fn spec_code(self) -> u16 {
        match self {
            OpCode::Nop => 0x0000,
            OpCode::Return => 0x0001,
            OpCode::Call => 0x0002,
            OpCode::Branch => 0x0003,
            OpCode::Add => 0x0100,
            OpCode::Sub => 0x0101,
            OpCode::Mul => 0x0102,
            OpCode::Div => 0x0103,
            OpCode::Mod => 0x0104,
            OpCode::Eq => 0x0200,
            OpCode::Ne => 0x0201,
            OpCode::Lt => 0x0202,
            OpCode::Le => 0x0203,
            OpCode::Gt => 0x0204,
            OpCode::Ge => 0x0205,
            OpCode::And => 0x0300,
            OpCode::Or => 0x0301,
            OpCode::Not => 0x0302,
            OpCode::Xor => 0x0303,
            OpCode::Load => 0x0400,
            OpCode::Store => 0x0401,
            OpCode::Alloc => 0x0402,
            OpCode::Free => 0x0403,
            OpCode::LoadArg => 0x0404,
            OpCode::ConstInt => 0x0500,
            OpCode::ConstFloat => 0x0501,
            OpCode::ConstString => 0x0502,
            OpCode::ConstBool => 0x0503,
            OpCode::CreateArray => 0x0600,
            OpCode::CreateMap => 0x0601,
            OpCode::ArrayGet => 0x0602,
            OpCode::ArraySet => 0x0603,
            OpCode::MapGet => 0x0604,
            OpCode::MapSet => 0x0605,
            OpCode::DefineFunc => 0x0700,
            OpCode::CreateClosure => 0x0701,
            OpCode::Cast => 0x0800,
            OpCode::TypeOf => 0x0801,
            OpCode::Print => 0x0900,
            OpCode::Read => 0x0901,
            OpCode::UICreateElement => 0x0A00,
            OpCode::UISetAttribute => 0x0A01,
            OpCode::UIAppendChild => 0x0A02,
            OpCode::AsyncBegin => 0x0B00,
            OpCode::AsyncAwait => 0x0B01,
            OpCode::AsyncComplete => 0x0B02,
            OpCode::ExternalCall => 0x0F00,
        }
    }

    /// The 16-bit code under which the operation travels in a node record.
    #[verifier::when_used_as_spec(spec_code)]
    pub fn code(self) -> (code: u16)
        ensures
            code == self.spec_code(),
    {
        match self {
            OpCode::Nop => 0x0000,
            OpCode::Return => 0x0001,
            OpCode::Call => 0x0002,
            OpCode::Branch => 0x0003,
            OpCode::Add => 0x0100,
            OpCode::Sub => 0x0101,
            OpCode::Mul => 0x0102,
            OpCode::Div => 0x0103,
            OpCode::Mod => 0x0104,
            OpCode::Eq => 0x0200,
            OpCode::Ne => 0x0201,
            OpCode::Lt => 0x0202,
            OpCode::Le => 0x0203,
            OpCode::Gt => 0x0204,
            OpCode::Ge => 0x0205,
            OpCode::And => 0x0300,
            OpCode::Or => 0x0301,
            OpCode::Not => 0x0302,
            OpCode::Xor => 0x0303,
            OpCode::Load => 0x0400,
            OpCode::Store => 0x0401,
            OpCode::Alloc => 0x0402,
            OpCode::Free => 0x0403,
            OpCode::LoadArg => 0x0404,
            OpCode::ConstInt => 0x0500,
            OpCode::ConstFloat => 0x0501,
            OpCode::ConstString => 0x0502,
            OpCode::ConstBool => 0x0503,
            OpCode::CreateArray => 0x0600,
            OpCode::CreateMap => 0x0601,
            OpCode::ArrayGet => 0x0602,
            OpCode::ArraySet => 0x0603,
            OpCode::MapGet => 0x0604,
            OpCode::MapSet => 0x0605,
            OpCode::DefineFunc => 0x0700,
            OpCode::CreateClosure => 0x0701,
            OpCode::Cast => 0x0800,
            OpCode::TypeOf => 0x0801,
            OpCode::Print => 0x0900,
            OpCode::Read => 0x0901,
            OpCode::UICreateElement => 0x0A00,
            OpCode::UISetAttribute => 0x0A01,
            OpCode::UIAppendChild => 0x0A02,
            OpCode::AsyncBegin => 0x0B00,
            OpCode::AsyncAwait => 0x0B01,
            OpCode::AsyncComplete => 0x0B02,
            OpCode::ExternalCall => 0x0F00,
        }
    }

    /// Whether some operation travels under `value`.
    pub open spec fn is_known(value: u16) -> bool {
        exists|op: OpCode| op.spec_code() == value
    }

    /// The operation that travels under `value`; an error for a code that no
    /// operation has.
    pub fn try_from(value: u16) -> (decoded: Result<OpCode, ()>)
        ensures
            decoded is Ok <==> OpCode::is_known(value),
            decoded matches Ok(op) ==> op.spec_code() == value,
    {
        let found = match value {
            0x0000 => Some(OpCode::Nop),
            0x0001 => Some(OpCode::Return),
            0x0002 => Some(OpCode::Call),
            0x0003 => Some(OpCode::Branch),
            0x0100 => Some(OpCode::Add),
            0x0101 => Some(OpCode::Sub),
            0x0102 => Some(OpCode::Mul),
            0x0103 => Some(OpCode::Div),
            0x0104 => Some(OpCode::Mod),
            0x0200 => Some(OpCode::Eq),
            0x0201 => Some(OpCode::Ne),
            0x0202 => Some(OpCode::Lt),
            0x0203 => Some(OpCode::Le),
            0x0204 => Some(OpCode::Gt),
            0x0205 => Some(OpCode::Ge),
            0x0300 => Some(OpCode::And),
            0x0301 => Some(OpCode::Or),
            0x0302 => Some(OpCode::Not),
            0x0303 => Some(OpCode::Xor),
            0x0400 => Some(OpCode::Load),
            0x0401 => Some(OpCode::Store),
            0x0402 => Some(OpCode::Alloc),
            0x0403 => Some(OpCode::Free),
            0x0404 => Some(OpCode::LoadArg),
            0x0500 => Some(OpCode::ConstInt),
            0x0501 => Some(OpCode::ConstFloat),
            0x0502 => Some(OpCode::ConstString),
            0x0503 => Some(OpCode::ConstBool),
            0x0600 => Some(OpCode::CreateArray),
            0x0601 => Some(OpCode::CreateMap),
            0x0602 => Some(OpCode::ArrayGet),
            0x0603 => Some(OpCode::ArraySet),
            0x0604 => Some(OpCode::MapGet),
            0x0605 => Some(OpCode::MapSet),
            0x0700 => Some(OpCode::DefineFunc),
            0x0701 => Some(OpCode::CreateClosure),
            0x0800 => Some(OpCode::Cast),
            0x0801 => Some(OpCode::TypeOf),
            0x0900 => Some(OpCode::Print),
            0x0901 => Some(OpCode::Read),
            0x0A00 => Some(OpCode::UICreateElement),
            0x0A01 => Some(OpCode::UISetAttribute),
            0x0A02 => Some(OpCode::UIAppendChild),
            0x0B00 => Some(OpCode::AsyncBegin),
            0x0B01 => Some(OpCode::AsyncAwait),
            0x0B02 => Some(OpCode::AsyncComplete),
            0x0F00 => Some(OpCode::ExternalCall),
            _ => None,
        };
        match found {
            Some(op) => {
                assert(op.spec_code() == value);
                Ok(op)
            },
            None => {
                assert(forall|op: OpCode| op.spec_code() != value);
                Err(())
            },
        }
    }

    /// Decoding the code of an operation gives the operation back: no two
    /// operations share a code.
    pub proof fn lemma_code_is_injective(a: OpCode, b: OpCode)
        requires
            a.spec_code() == b.spec_code(),
        ensures
            a == b,
    {
    }
}

/// Advisory marks on a node. Execution never consults them.
#[derive(Debug, Clone, Copy, PartialEq, Eq, Structural)]
pub enum NodeFlag {
    IsAsync,
    IsPure,
    IsUnsafe,
    HasSideEffects,
    IsTerminal,
    IsEntryPoint,
    RequiresProof,
}

impl NodeFlag {
    /// The single bit that stands for the flag in a node's flag word.
    pub open spec fn spec_bit(self) -> u16 {
        match self {
            NodeFlag::IsAsync => 0x0001,
            NodeFlag::IsPure => 0x0002,
            NodeFlag::IsUnsafe => 0x0004,
            NodeFlag::HasSideEffects => 0x0008,
            NodeFlag::IsTerminal => 0x0010,
            NodeFlag::IsEntryPoint => 0x0020,
            NodeFlag::RequiresProof => 0x0040,
        }
    }

    /// The single bit that stands for the flag in a node's flag word.
    #[verifier::when_used_as_spec(spec_bit)]
    pub fn bit(self) -> (bit: u16)
        ensures
            bit == self.spec_bit(),
    {
        match self {
            NodeFlag::IsAsync => 0x0001,
            NodeFlag::IsPure => 0x0002,
            NodeFlag::IsUnsafe => 0x0004,
            NodeFlag::HasSideEffects => 0x0008,
            NodeFlag::IsTerminal => 0x0010,
            NodeFlag::IsEntryPoint => 0x0020,
            NodeFlag::RequiresProof => 0x0040,
        }
    }
}

/// What a node holds.
pub struct NodeView {
    pub opcode: u16,
    pub flags: u16,
    pub result_id: u32,
    pub timestamp: u64,
    pub arg_count: u8,
    pub args: Seq<u32>,
}

/// One operation record of the graph. Other nodes refer to its output by
/// `result_id`, which the caller assigns.
#[derive(Debug, Clone, Copy)]
pub struct Node {
    pub opcode: u16,
    pub flags: u16,
    pub result_id: u32,
    pub timestamp: u64,
    pub arg_count: u8,
    pub args: [u32; 3],
}

impl View for Node {
    type V = NodeView;

    open spec fn view(&self) -> NodeView {
        NodeView {
            opcode: self.opcode,
            flags: self.flags,
            result_id: self.result_id,
            timestamp: self.timestamp,
            arg_count: self.arg_count,
            args: self.args@,
        }
    }
}

impl DeepView for Node {
    type V = NodeView;

    open spec fn deep_view(&self) -> NodeView {
        self@
    }
}

impl Node {
    /// Whether the flag word `flags` has the bit of `flag` set.
    pub open spec fn flag_is_set(flags: u16, flag: NodeFlag) -> bool {
        flags & flag.spec_bit() != 0
    }

    /// Whether `self` is a node without operands or flags, made for `opcode`
    /// and `result_id` at `timestamp`.
    pub open spec fn is_blank(self, opcode: OpCode, result_id: u32, timestamp: u64) -> bool {
        &&& self.opcode == opcode.spec_code()
        &&& self.flags == 0
        &&& self.result_id == result_id
        &&& self.timestamp == timestamp
        &&& self.arg_count == 0
        &&& self.args[0] == 0
        &&& self.args[1] == 0
        &&& self.args[2] == 0
    }

    /// A node without operands or flags that carries the given creation time
    /// in microseconds.
    pub fn with_timestamp(opcode: OpCode, result_id: u32, timestamp: u64) -> (node: Node)
        ensures
            node.is_blank(opcode, result_id, timestamp),
    {
        Node {
            opcode: opcode.code(),
            flags: 0,
            result_id,
            timestamp,
            arg_count: 0,
            args: [0u32; 3],
        }
    }

    /// A node without operands or flags, stamped with the system clock: the
    /// microseconds since the Unix epoch, cut to 64 bits, or 0 where the clock
    /// stands before the epoch.
    pub fn new(opcode: OpCode, result_id: u32) -> (node: Node)
        ensures
            node.is_blank(opcode, result_id, node.timestamp),
    {
        let now = clock_now();
        let timestamp: u64 = match since_epoch(&now) {
            Some(elapsed) => {
                let micros: u128 = duration_micros(&elapsed);
                #[verifier::truncate]
                (micros as u64)
            },
            None => 0,
        };
        Node::with_timestamp(opcode, result_id, timestamp)
    }

    /// The node with the operands of `args`, of which at most three are
    /// taken: they fill the first slots, and every slot behind them holds
    /// the sentinel 0, whatever it held before.
    pub fn with_args(self, args: &[u32]) -> (node: Node)
        ensures
            node.opcode == self.opcode,
            node.flags == self.flags,
            node.result_id == self.result_id,
            node.timestamp == self.timestamp,
            node.arg_count == if args@.len() < 3 { args@.len() } else { 3 },
            forall|i: int|
                0 <= i < 3 ==> node.args[i] == if i < args@.len() {
                    args@[i]
                } else {
                    0
                },
    {
        let taken: usize = if args.len() < MAX_ARGS { args.len() } else { MAX_ARGS };
        let mut slots: [u32; 3] = [0u32; 3];
        let mut i: usize = 0;
        while i < taken
            invariant
                i <= taken <= 3,
                taken <= args@.len(),
                forall|j: int| 0 <= j < i ==> slots[j] == args@[j],
                forall|j: int| i <= j < 3 ==> slots[j] == 0,
            decreases taken - i,
        {
            slots[i] = args[i];
            i += 1;
        }
        Node {
            opcode: self.opcode,
            flags: self.flags,
            result_id: self.result_id,
            timestamp: self.timestamp,
            arg_count: taken as u8,
            args: slots,
        }
    }

    /// Sets the bit of `flag`; every other bit stays.
    pub fn set_flag(&mut self, flag: NodeFlag)
        ensures
            final(self).flags == old(self).flags | flag.spec_bit(),
            final(self).opcode == old(self).opcode,
            final(self).result_id == old(self).result_id,
            final(self).timestamp == old(self).timestamp,
            final(self).arg_count == old(self).arg_count,
            final(self).args == old(self).args,
    {
        self.flags = self.flags | flag.bit();
    }

    /// Whether the bit of `flag` is set.
    pub fn has_flag(&self, flag: NodeFlag) -> (set: bool)
        ensures
            set == Node::flag_is_set(self.flags, flag),
    {
        self.flags & flag.bit() != 0
    }

    /// A flag that was set reads as set, and setting it changes the reading
    /// of no other flag.
    pub proof fn lemma_set_flag_reads_back(flags: u16, flag: NodeFlag, other: NodeFlag)
        ensures
            Node::flag_is_set(flags | flag.spec_bit(), flag),
            other != flag ==> (Node::flag_is_set(flags | flag.spec_bit(), other)
                <==> Node::flag_is_set(flags, other)),
    {
        let f = flag.spec_bit();
        let o = other.spec_bit();
        assert(f != 0 ==> (flags | f) & f != 0) by (bit_vector);
        assert(f & o == 0 ==> (((flags | f) & o != 0) <==> (flags & o != 0))) by (bit_vector);
        assert(other != flag ==> f & o == 0) by {
            assert(0x0001u16 & 0x0002u16 == 0 && 0x0001u16 & 0x0004u16 == 0 && 0x0001u16 & 0x0008u16
                == 0 && 0x0001u16 & 0x0010u16 == 0 && 0x0001u16 & 0x0020u16 == 0 && 0x0001u16
                & 0x0040u16 == 0) by (bit_vector);
            assert(0x0002u16 & 0x0001u16 == 0 && 0x0002u16 & 0x0004u16 == 0 && 0x0002u16 & 0x0008u16
                == 0 && 0x0002u16 & 0x0010u16 == 0 && 0x0002u16 & 0x0020u16 == 0 && 0x0002u16
                & 0x0040u16 == 0) by (bit_vector);
            assert(0x0004u16 & 0x0001u16 == 0 && 0x0004u16 & 0x0002u16 == 0 && 0x0004u16 & 0x0008u16
                == 0 && 0x0004u16 & 0x0010u16 == 0 && 0x0004u16 & 0x0020u16 == 0 && 0x0004u16
                & 0x0040u16 == 0) by (bit_vector);
            assert(0x0008u16 & 0x0001u16 == 0 && 0x0008u16 & 0x0002u16 == 0 && 0x0008u16 & 0x0004u16
                == 0 && 0x0008u16 & 0x0010u16 == 0 && 0x0008u16 & 0x0020u16 == 0 && 0x0008u16
                & 0x0040u16 == 0) by (bit_vector);
            assert(0x0010u16 & 0x0001u16 == 0 && 0x0010u16 & 0x0002u16 == 0 && 0x0010u16 & 0x0004u16
                == 0 && 0x0010u16 & 0x0008u16 == 0 && 0x0010u16 & 0x0020u16 == 0 && 0x0010u16
                & 0x0040u16 == 0) by (bit_vector);
            assert(0x0020u16 & 0x0001u16 == 0 && 0x0020u16 & 0x0002u16 == 0 && 0x0020u16 & 0x0004u16
                == 0 && 0x0020u16 & 0x0008u16 == 0 && 0x0020u16 & 0x0010u16 == 0 && 0x0020u16
                & 0x0040u16 == 0) by (bit_vector);
            assert(0x0040u16 & 0x0001u16 == 0 && 0x0040u16 & 0x0002u16 == 0 && 0x0040u16 & 0x0004u16
                == 0 && 0x0040u16 & 0x0008u16 == 0 && 0x0040u16 & 0x0010u16 == 0 && 0x0040u16
                & 0x0020u16 == 0) by (bit_vector);
        }
    }
}

/// What a constant pool holds, as four sequences. A float stands as the 64
/// bits of its IEEE 754 double-precision encoding.
pub struct ConstantPoolView {
    pub integers: Seq<i64>,
    pub floats: Seq<u64>,
    pub strings: Seq<Seq<char>>,
    pub booleans: Seq<bool>,
}

/// Four append-only, index-addressed sequences of literals. An index, once
/// handed out, always names the same value; nothing is deduplicated. A float
/// is held as the 64 bits of its IEEE 754 double-precision encoding.
#[derive(Debug, Clone)]
pub struct ConstantPool {
    pub integers: Vec<i64>,
    pub floats: Vec<u64>,
    pub strings: Vec<String>,
    pub booleans: Vec<bool>,
}

impl View for ConstantPool {
    type V = ConstantPoolView;

    open spec fn view(&self) -> ConstantPoolView {
        ConstantPoolView {
            integers: self.integers@,
            floats: self.floats@,
            strings: self.strings.deep_view(),
            booleans: self.booleans@,
        }
    }
}

impl ConstantPool {
    /// The empty pool.
    pub fn new() -> (pool: ConstantPool)
        ensures
            pool@.integers.len() == 0,
            pool@.floats.len() == 0,
            pool@.strings.len() == 0,
            pool@.booleans.len() == 0,
    {
        ConstantPool {
            integers: Vec::new(),
            floats: Vec::new(),
            strings: Vec::new(),
            booleans: Vec::new(),
        }
    }

    /// Appends an integer and returns its index.
    pub fn add_int(&mut self, value: i64) -> (index: u32)
        requires
            old(self).integers.len() < u32::MAX,
        ensures
            index == old(self)@.integers.len(),
            final(self)@.integers == old(self)@.integers.push(value),
            final(self)@.floats == old(self)@.floats,
            final(self)@.strings == old(self)@.strings,
            final(self)@.booleans == old(self)@.booleans,
    {
        let index = self.integers.len() as u32;
        self.integers.push(value);
        index
    }

    /// Appends a float, given by its bits, and returns its index.
    pub fn add_float(&mut self, bits: u64) -> (index: u32)
        requires
            old(self).floats.len() < u32::MAX,
        ensures
            index == old(self)@.floats.len(),
            final(self)@.floats == old(self)@.floats.push(bits),
            final(self)@.integers == old(self)@.integers,
            final(self)@.strings == old(self)@.strings,
            final(self)@.booleans == old(self)@.booleans,
    {
        let index = self.floats.len() as u32;
        self.floats.push(bits);
        index
    }

    /// Appends a string and returns its index.
    pub fn add_string(&mut self, value: String) -> (index: u32)
        requires
            old(self).strings.len() < u32::MAX,
        ensures
            index == old(self).strings.len(),
            final(self).strings.len() == old(self).strings.len() + 1,
            final(self)@.strings == old(self)@.strings.push(value@),
            final(self)@.integers == old(self)@.integers,
            final(self)@.floats == old(self)@.floats,
            final(self)@.booleans == old(self)@.booleans,
    {
        let index = self.strings.len() as u32;
        self.strings.push(value);
        assert(self.strings.deep_view() =~= old(self).strings.deep_view().push(value@));
        index
    }

    /// Appends a boolean and returns its index.
    pub fn add_bool(&mut self, value: bool) -> (index: u32)
        requires
            old(self).booleans.len() < u32::MAX,
        ensures
            index == old(self)@.booleans.len(),
            final(self)@.booleans == old(self)@.booleans.push(value),
            final(self)@.integers == old(self)@.integers,
            final(self)@.floats == old(self)@.floats,
            final(self)@.strings == old(self)@.strings,
    {
        let index = self.booleans.len() as u32;
        self.booleans.push(value);
        index
    }

    /// The integer at `index`, if the pool has one there.
    pub fn get_int(&self, index: u32) -> (found: Option<i64>)
        ensures
            found == if index < self@.integers.len() {
                Some(self@.integers[index as int])
            } else {
                None
            },
    {
        let i = index as usize;
        if i < self.integers.len() {
            Some(self.integers[i])
        } else {
            None
        }
    }

    /// The bits of the float at `index`, if the pool has one there.
    pub fn get_float(&self, index: u32) -> (found: Option<u64>)
        ensures
            found == if index < self@.floats.len() {
                Some(self@.floats[index as int])
            } else {
                None
            },
    {
        let i = index as usize;
        if i < self.floats.len() {
            Some(self.floats[i])
        } else {
            None
        }
    }

    /// The string at `index`, if the pool has one there.
    pub fn get_string(&self, index: u32) -> (found: Option<&String>)
        ensures
            found is Some <==> index < self@.strings.len(),
            found matches Some(s) ==> s@ == self@.strings[index as int],
    {
        let i = index as usize;
        if i < self.strings.len() {
            Some(&self.strings[i])
        } else {
            None
        }
    }

    /// The boolean at `index`, if the pool has one there.
    pub fn get_bool(&self, index: u32) -> (found: Option<bool>)
        ensures
            found == if index < self@.booleans.len() {
                Some(self@.booleans[index as int])
            } else {
                None
            },
    {
        let i = index as usize;
        if i < self.booleans.len() {
            Some(self.booleans[i])
        } else {
            None
        }
    }
}

/// A permission tag that a program declares it needs. Advisory.
#[derive(Debug, Clone, Copy, PartialEq, Eq, Structural)]
pub enum Capability {
    FileSystem,
    Network,
    Process,
    UI,
    ExternalCode,
}

/// What a trait annotation holds.
pub struct TraitView {
    pub name: Seq<char>,
    pub preconditions: Seq<Seq<char>>,
    pub postconditions: Seq<Seq<char>>,
}

/// A free-form annotation of a program: a name with pre- and postconditions
/// in prose. Documentation only; nothing checks it at run time.
#[derive(Debug, Clone)]
pub struct Trait {
    pub name: String,
    pub preconditions: Vec<String>,
    pub postconditions: Vec<String>,
}

impl View for Trait {
    type V = TraitView;

    open spec fn view(&self) -> TraitView {
        TraitView {
            name: self.name@,
            preconditions: self.preconditions.deep_view(),
            postconditions: self.postconditions.deep_view(),
        }
    }
}

impl DeepView for Trait {
    type V = TraitView;

    open spec fn deep_view(&self) -> TraitView {
        self@
    }
}

/// What the metadata of a program holds.
pub struct MetadataView {
    pub entry_point: u32,
    pub required_capabilities: Seq<Capability>,
    pub traits: Seq<TraitView>,
}

/// The entry point, the capabilities a program asks for, and its annotations.
#[derive(Debug, Clone)]
pub struct ProgramMetadata {
    pub entry_point: u32,
    pub required_capabilities: Vec<Capability>,
    pub traits: Vec<Trait>,
}

impl View for ProgramMetadata {
    type V = MetadataView;

    open spec fn view(&self) -> MetadataView {
        MetadataView {
            entry_point: self.entry_point,
            required_capabilities: self.required_capabilities@,
            traits: self.traits.deep_view(),
        }
    }
}

/// What a program holds.
pub struct ProgramView {
    pub header: HeaderView,
    pub nodes: Seq<NodeView>,
    pub constants: ConstantPoolView,
    pub metadata: MetadataView,
}

/// A computation graph: header, nodes in insertion order, constants and
/// metadata.
#[derive(Debug, Clone)]
pub struct Program {
    pub header: FileHeader,
    pub nodes: Vec<Node>,
    pub constants: ConstantPool,
    pub metadata: ProgramMetadata,
}

impl View for Program {
    type V = ProgramView;

    open spec fn view(&self) -> ProgramView {
        ProgramView {
            header: self.header@,
            nodes: self.nodes.deep_view(),
            constants: self.constants@,
            metadata: self.metadata@,
        }
    }
}

impl Program {
    /// The program without nodes, constants, capabilities or annotations,
    /// under a header that announces no chunk, entered at 0.
    pub fn new() -> (program: Program)
        ensures
            program@.header.magic == DER_MAGIC@,
            program@.header.version == VERSION,
            program@.header.flags == 0,
            program@.header.chunk_count == 0,
            program@.header.reserved == seq![0u8, 0u8, 0u8, 0u8],
            program@.nodes.len() == 0,
            program@.constants.integers.len() == 0,
            program@.constants.floats.len() == 0,
            program@.constants.strings.len() == 0,
            program@.constants.booleans.len() == 0,
            program@.metadata.entry_point == 0,
            program@.metadata.required_capabilities.len() == 0,
            program@.metadata.traits.len() == 0,
    {
        Program {
            header: FileHeader::new(0),
            nodes: Vec::new(),
            constants: ConstantPool::new(),
            metadata: ProgramMetadata {
                entry_point: 0,
                required_capabilities: Vec::new(),
                traits: Vec::new(),
            },
        }
    }

    /// Appends a node and returns its position in the node sequence. The
    /// position is not the name by which other nodes refer to it: that is its
    /// `result_id`.
    pub fn add_node(&mut self, node: Node) -> (index: u32)
        requires
            old(self).nodes.len() < u32::MAX,
        ensures
            index == old(self).nodes.len(),
            final(self).nodes.len() == old(self).nodes.len() + 1,
            final(self)@.nodes == old(self)@.nodes.push(node@),
            final(self)@.header == old(self)@.header,
            final(self)@.constants == old(self)@.constants,
            final(self)@.metadata == old(self)@.metadata,
    {
        let index = self.nodes.len() as u32;
        self.nodes.push(node);
        assert(self.nodes.deep_view() =~= old(self).nodes.deep_view().push(node@));
        index
    }

    /// Makes the node named `node_id` the entry point.
    pub fn set_entry_point(&mut self, node_id: u32)
        ensures
            final(self)@.metadata == (MetadataView {
                entry_point: node_id,
                ..old(self)@.metadata
            }),
            final(self)@.header == old(self)@.header,
            final(self)@.nodes == old(self)@.nodes,
            final(self)@.constants == old(self)@.constants,
    {
        self.metadata.entry_point = node_id;
    }

    /// Records that the program needs `cap`, unless it is recorded already.
    pub fn require_capability(&mut self, cap: Capability)
        ensures
            final(self)@.metadata.required_capabilities == if old(
                self,
            )@.metadata.required_capabilities.contains(cap) {
                old(self)@.metadata.required_capabilities
            } else {
                old(self)@.metadata.required_capabilities.push(cap)
            },
            final(self)@.metadata.entry_point == old(self)@.metadata.entry_point,
            final(self)@.metadata.traits == old(self)@.metadata.traits,
            final(self)@.header == old(self)@.header,
            final(self)@.nodes == old(self)@.nodes,
            final(self)@.constants == old(self)@.constants,
    {
        if !holds_capability(&self.metadata.required_capabilities, cap) {
            self.metadata.required_capabilities.push(cap);
        }
    }
}

/// Whether `cap` occurs in `caps`.
pub fn holds_capability(caps: &Vec<Capability>, cap: Capability) -> (found: bool)
    ensures
        found == caps@.contains(cap),
{
    let mut i: usize = 0;
    while i < caps.len()
        invariant
            i <= caps.len(),
            forall|j: int| 0 <= j < i ==> caps@[j] != cap,
        decreases caps.len() - i,
    {
        if caps[i] == cap {
            return true;
        }
        i += 1;
    }
    false
}

} // verus!

//! The wire format of a container, stated over sequences of bytes: what a
//! program is written as, and how bytes are read back into a program.
//!
//! All integers are little-endian. A container is a 16-byte file header
//! followed by chunks; a chunk is a 16-byte chunk header followed by as many
//! payload bytes as the header announces.

use crate::format::binary_format::{
    Capability, ChunkHeaderView, ConstantPoolView, HeaderView, MetadataView, NodeView,
    ProgramView, TraitView, DER_MAGIC,
};
use vstd::bytes::{
    spec_u16_from_le_bytes, spec_u16_to_le_bytes, spec_u32_from_le_bytes, spec_u32_to_le_bytes,
    spec_u64_from_le_bytes, spec_u64_to_le_bytes,
};
use vstd::prelude::*;
use vstd::utf8::{decode_utf8, encode_utf8, valid_utf8};

verus! {

/// Why bytes could not be read as a container.
#[derive(Debug, Clone, Copy, PartialEq, Eq, Structural)]
pub enum DecodeError {
    /// The file header does not open with the magic bytes.
    BadMagic,
    /// The bytes end before the record that is being read does.
    Truncated,
    /// A string field does not hold well-formed UTF-8.
    InvalidUtf8,
}

/// Why a program could not be written as a container.
#[derive(Debug, Clone, Copy, PartialEq, Eq, Structural)]
pub enum EncodeError {
    /// A count, a string length or a chunk size does not fit in 32 bits.
    TooLarge,
}

/// The size of a file header, and of a chunk header, on the wire.
pub const HEADER_SIZE: usize = 16;

/// The size of one node record on the wire.
pub const NODE_WIRE_SIZE: usize = 29;

/// The tag of the metadata chunk, `META`.
pub const TAG_META: [u8; 4] = [0x4D, 0x45, 0x54, 0x41];

/// The tag of the chunk of node records, `IMPL`.
pub const TAG_IMPL: [u8; 4] = [0x49, 0x4D, 0x50, 0x4C];

/// The tag of the constant pool chunk, `CNST`.
pub const TAG_CNST: [u8; 4] = [0x43, 0x4E, 0x53, 0x54];

// ---------------------------------------------------------------------
// Writing
// ---------------------------------------------------------------------
/// The bytes of a signed 64-bit integer: those of its two's complement form.
pub open spec fn enc_i64(x: i64) -> Seq<u8> {
    spec_u64_to_le_bytes(x as u64)
}

/// A string on the wire: the length of its UTF-8 form in bytes, then that
/// form.
pub open spec fn enc_text(t: Seq<char>) -> Seq<u8> {
    spec_u32_to_le_bytes(encode_utf8(t).len() as u32) + encode_utf8(t)
}

/// Strings on the wire, one after the other.
pub open spec fn enc_texts(ts: Seq<Seq<char>>) -> Seq<u8>
    decreases ts.len(),
{
    if ts.len() == 0 {
        Seq::empty()
    } else {
        enc_text(ts.first()) + enc_texts(ts.drop_first())
    }
}

/// A list of strings on the wire: their number, then the strings.
pub open spec fn enc_text_list(ts: Seq<Seq<char>>) -> Seq<u8> {
    spec_u32_to_le_bytes(ts.len() as u32) + enc_texts(ts)
}

/// The number under which a capability travels.
pub open spec fn capability_id(cap: Capability) -> u32 {
    match cap {
        Capability::FileSystem => 1,
        Capability::Network => 2,
        Capability::Process => 3,
        Capability::UI => 4,
        Capability::ExternalCode => 5,
    }
}

/// The capability that travels under `id`, if there is one.
pub open spec fn capability_of(id: u32) -> Option<Capability> {
    if id == 1 {
        Some(Capability::FileSystem)
    } else if id == 2 {
        Some(Capability::Network)
    } else if id == 3 {
        Some(Capability::Process)
    } else if id == 4 {
        Some(Capability::UI)
    } else if id == 5 {
        Some(Capability::ExternalCode)
    } else {
        None
    }
}

/// Capabilities on the wire, one number each.
pub open spec fn enc_caps(caps: Seq<Capability>) -> Seq<u8>
    decreases caps.len(),
{
    if caps.len() == 0 {
        Seq::empty()
    } else {
        spec_u32_to_le_bytes(capability_id(caps.first())) + enc_caps(caps.drop_first())
    }
}

/// A trait annotation on the wire: its name, its preconditions, its
/// postconditions.
pub open spec fn enc_trait(t: TraitView) -> Seq<u8> {
    enc_text(t.name) + enc_text_list(t.preconditions) + enc_text_list(t.postconditions)
}

/// Trait annotations on the wire, one after the other.
pub open spec fn enc_traits(ts: Seq<TraitView>) -> Seq<u8>
    decreases ts.len(),
{
    if ts.len() == 0 {
        Seq::empty()
    } else {
        enc_trait(ts.first()) + enc_traits(ts.drop_first())
    }
}

/// The payload of a metadata chunk.
pub open spec fn enc_meta(m: MetadataView) -> Seq<u8> {
    spec_u32_to_le_bytes(m.entry_point) + spec_u32_to_le_bytes(
        m.required_capabilities.len() as u32,
    ) + enc_caps(m.required_capabilities) + spec_u32_to_le_bytes(m.traits.len() as u32)
        + enc_traits(m.traits)
}

/// A node record on the wire: 29 bytes.
pub open spec fn enc_node(n: NodeView) -> Seq<u8> {
    spec_u16_to_le_bytes(n.opcode) + spec_u16_to_le_bytes(n.flags) + spec_u32_to_le_bytes(
        n.result_id,
    ) + spec_u64_to_le_bytes(n.timestamp) + seq![n.arg_count] + spec_u32_to_le_bytes(n.args[0])
        + spec_u32_to_le_bytes(n.args[1]) + spec_u32_to_le_bytes(n.args[2])
}

/// Node records on the wire, one after the other.
pub open spec fn enc_nodes(ns: Seq<NodeView>) -> Seq<u8>
    decreases ns.len(),
{
    if ns.len() == 0 {
        Seq::empty()
    } else {
        enc_node(ns.first()) + enc_nodes(ns.drop_first())
    }
}

/// Signed integers on the wire, eight bytes each.
pub open spec fn enc_ints(xs: Seq<i64>) -> Seq<u8>
    decreases xs.len(),
{
    if xs.len() == 0 {
        Seq::empty()
    } else {
        enc_i64(xs.first()) + enc_ints(xs.drop_first())
    }
}

/// Floats on the wire, given by their bits, eight bytes each.
pub open spec fn enc_floats(xs: Seq<u64>) -> Seq<u8>
    decreases xs.len(),
{
    if xs.len() == 0 {
        Seq::empty()
    } else {
        spec_u64_to_le_bytes(xs.first()) + enc_floats(xs.drop_first())
    }
}

/// A boolean on the wire: one byte, 1 or 0.
pub open spec fn enc_bool(b: bool) -> u8 {
    if b {
        1
    } else {
        0
    }
}

/// Booleans on the wire, one byte each.
pub open spec fn enc_bools(xs: Seq<bool>) -> Seq<u8>
    decreases xs.len(),
{
    if xs.len() == 0 {
        Seq::empty()
    } else {
        seq![enc_bool(xs.first())] + enc_bools(xs.drop_first())
    }
}

/// The payload of a constant pool chunk: each of the four sequences behind
/// its length.
pub open spec fn enc_pool(c: ConstantPoolView) -> Seq<u8> {
    spec_u32_to_le_bytes(c.integers.len() as u32) + enc_ints(c.integers) + spec_u32_to_le_bytes(
        c.floats.len() as u32,
    ) + enc_floats(c.floats) + spec_u32_to_le_bytes(c.strings.len() as u32) + enc_texts(c.strings)
        + spec_u32_to_le_bytes(c.booleans.len() as u32) + enc_bools(c.booleans)
}

/// A chunk header on the wire.
pub open spec fn enc_chunk_header(h: ChunkHeaderView) -> Seq<u8> {
    h.chunk_type + spec_u32_to_le_bytes(h.size) + spec_u32_to_le_bytes(h.flags)
        + spec_u32_to_le_bytes(h.checksum)
}

/// The header that is written in front of a payload under `tag`: it
/// carries the size of the payload, no flags, and 0 for the checksum.
pub open spec fn header_for(tag: Seq<u8>, payload: Seq<u8>) -> ChunkHeaderView {
    ChunkHeaderView { chunk_type: tag, size: payload.len() as u32, flags: 0, checksum: 0 }
}

/// A chunk on the wire: its header, then the payload.
pub open spec fn enc_chunk(tag: Seq<u8>, payload: Seq<u8>) -> Seq<u8> {
    enc_chunk_header(header_for(tag, payload)) + payload
}

/// A file header on the wire.
pub open spec fn enc_header(h: HeaderView) -> Seq<u8> {
    h.magic + spec_u16_to_le_bytes(h.version) + spec_u16_to_le_bytes(h.flags)
        + spec_u32_to_le_bytes(h.chunk_count) + h.reserved
}

/// A program on the wire: the header, then the metadata chunk, the chunk of
/// node records and the constant pool chunk, in this order.
pub open spec fn enc_program(p: ProgramView) -> Seq<u8> {
    enc_header(p.header) + enc_chunk(TAG_META@, enc_meta(p.metadata)) + enc_chunk(
        TAG_IMPL@,
        enc_nodes(p.nodes),
    ) + enc_chunk(TAG_CNST@, enc_pool(p.constants))
}

/// Whether the UTF-8 form of `t` has a length that 32 bits hold.
pub open spec fn text_fits(t: Seq<char>) -> bool {
    encode_utf8(t).len() <= u32::MAX
}

/// Whether `ts` has a length that 32 bits hold, and only strings that fit.
pub open spec fn texts_fit(ts: Seq<Seq<char>>) -> bool {
    &&& ts.len() <= u32::MAX
    &&& forall|i: int| 0 <= i < ts.len() ==> text_fits(#[trigger] ts[i])
}

/// Whether every string of `t`, and each of its two lists, fits.
pub open spec fn trait_fits(t: TraitView) -> bool {
    &&& text_fits(t.name)
    &&& texts_fit(t.preconditions)
    &&& texts_fit(t.postconditions)
}

/// Whether the metadata can be written: every count, every string length
/// and the size of the payload fit in 32 bits.
pub open spec fn meta_fits(m: MetadataView) -> bool {
    &&& m.required_capabilities.len() <= u32::MAX
    &&& m.traits.len() <= u32::MAX
    &&& forall|i: int| 0 <= i < m.traits.len() ==> trait_fits(#[trigger] m.traits[i])
    &&& enc_meta(m).len() <= u32::MAX
}

/// Whether the constant pool can be written: every count, every string
/// length and the size of the payload fit in 32 bits.
pub open spec fn pool_fits(c: ConstantPoolView) -> bool {
    &&& c.integers.len() <= u32::MAX
    &&& c.floats.len() <= u32::MAX
    &&& texts_fit(c.strings)
    &&& c.booleans.len() <= u32::MAX
    &&& enc_pool(c).len() <= u32::MAX
}

/// Whether the program can be written as a container.
pub open spec fn encodable(p: ProgramView) -> bool {
    &&& meta_fits(p.metadata)
    &&& p.nodes.len() * 29 <= u32::MAX
    &&& pool_fits(p.constants)
}

// ---------------------------------------------------------------------
// Reading
// ---------------------------------------------------------------------
/// Whether `n` bytes can be read at `pos` without passing `end`.
pub open spec fn has_bytes(s: Seq<u8>, pos: int, end: int, n: int) -> bool {
    0 <= pos && pos + n <= end && end <= s.len()
}

/// The 16-bit integer at `pos`, if two bytes can be read there.
pub open spec fn dec_u16(s: Seq<u8>, pos: int, end: int) -> Option<u16> {
    if has_bytes(s, pos, end, 2) {
        Some(spec_u16_from_le_bytes(s.subrange(pos, pos + 2)))
    } else {
        None
    }
}

/// The 32-bit integer at `pos`, if four bytes can be read there.
pub open spec fn dec_u32(s: Seq<u8>, pos: int, end: int) -> Option<u32> {
    if has_bytes(s, pos, end, 4) {
        Some(spec_u32_from_le_bytes(s.subrange(pos, pos + 4)))
    } else {
        None
    }
}

/// The 64-bit integer at `pos`, if eight bytes can be read there.
pub open spec fn dec_u64(s: Seq<u8>, pos: int, end: int) -> Option<u64> {
    if has_bytes(s, pos, end, 8) {
        Some(spec_u64_from_le_bytes(s.subrange(pos, pos + 8)))
    } else {
        None
    }
}

/// What reading a list gives once its first item `x` has been read and
/// `rest` is what reading the others gives.
pub open spec fn prepend<T>(x: T, rest: Result<(Seq<T>, int), DecodeError>) -> Result<
    (Seq<T>, int),
    DecodeError,
> {
    match rest {
        Ok((xs, fin)) => Ok((seq![x] + xs, fin)),
        Err(e) => Err(e),
    }
}

/// What reading a list gives once the items `done` have been read and `rest`
/// is what reading the others gives.
pub open spec fn extend<T>(done: Seq<T>, rest: Result<(Seq<T>, int), DecodeError>) -> Result<
    (Seq<T>, int),
    DecodeError,
> {
    match rest {
        Ok((xs, fin)) => Ok((done + xs, fin)),
        Err(e) => Err(e),
    }
}

/// The string at `pos`, and the position behind it.
pub open spec fn dec_text(s: Seq<u8>, pos: int, end: int) -> Result<(Seq<char>, int), DecodeError> {
    match dec_u32(s, pos, end) {
        None => Err(DecodeError::Truncated),
        Some(len) => {
            if pos + 4 + len > end {
                Err(DecodeError::Truncated)
            } else {
                let raw = s.subrange(pos + 4, pos + 4 + len);
                if valid_utf8(raw) {
                    Ok((decode_utf8(raw), pos + 4 + len))
                } else {
                    Err(DecodeError::InvalidUtf8)
                }
            }
        },
    }
}

/// The `n` strings that start at `pos`, and the position behind them.
pub open spec fn dec_texts(s: Seq<u8>, pos: int, end: int, n: nat) -> Result<
    (Seq<Seq<char>>, int),
    DecodeError,
>
    decreases n,
{
    if n == 0 {
        Ok((Seq::empty(), pos))
    } else {
        match dec_text(s, pos, end) {
            Err(e) => Err(e),
            Ok((t, next)) => prepend(t, dec_texts(s, next, end, (n - 1) as nat)),
        }
    }
}

/// The list of strings at `pos`: a count, then that many strings.
pub open spec fn dec_text_list(s: Seq<u8>, pos: int, end: int) -> Result<
    (Seq<Seq<char>>, int),
    DecodeError,
> {
    match dec_u32(s, pos, end) {
        None => Err(DecodeError::Truncated),
        Some(n) => dec_texts(s, pos + 4, end, n as nat),
    }
}

/// What `n` capability numbers from `pos` on stand for, and the position
/// behind them. A number that stands for no capability is passed over.
pub open spec fn dec_caps(s: Seq<u8>, pos: int, end: int, n: nat) -> Result<
    (Seq<Capability>, int),
    DecodeError,
>
    decreases n,
{
    if n == 0 {
        Ok((Seq::empty(), pos))
    } else {
        match dec_u32(s, pos, end) {
            None => Err(DecodeError::Truncated),
            Some(id) => match capability_of(id) {
                Some(cap) => prepend(cap, dec_caps(s, pos + 4, end, (n - 1) as nat)),
                None => dec_caps(s, pos + 4, end, (n - 1) as nat),
            },
        }
    }
}

/// The trait annotation at `pos`, and the position behind it.
pub open spec fn dec_trait(s: Seq<u8>, pos: int, end: int) -> Result<(TraitView, int), DecodeError> {
    match dec_text(s, pos, end) {
        Err(e) => Err(e),
        Ok((name, p1)) => match dec_text_list(s, p1, end) {
            Err(e) => Err(e),
            Ok((preconditions, p2)) => match dec_text_list(s, p2, end) {
                Err(e) => Err(e),
                Ok((postconditions, p3)) => Ok(
                    (TraitView { name, preconditions, postconditions }, p3),
                ),
            },
        },
    }
}

/// The `n` trait annotations that start at `pos`, and the position behind
/// them.
pub open spec fn dec_traits(s: Seq<u8>, pos: int, end: int, n: nat) -> Result<
    (Seq<TraitView>, int),
    DecodeError,
>
    decreases n,
{
    if n == 0 {
        Ok((Seq::empty(), pos))
    } else {
        match dec_trait(s, pos, end) {
            Err(e) => Err(e),
            Ok((t, next)) => prepend(t, dec_traits(s, next, end, (n - 1) as nat)),
        }
    }
}

/// The metadata after a metadata payload between `pos` and `end` has been
/// read into `base`: the entry point is replaced, capabilities and trait
/// annotations are appended. Bytes of the payload behind the last annotation
/// are ignored.
pub open spec fn dec_meta(s: Seq<u8>, pos: int, end: int, base: MetadataView) -> Result<
    MetadataView,
    DecodeError,
> {
    match dec_u32(s, pos, end) {
        None => Err(DecodeError::Truncated),
        Some(entry_point) => match dec_u32(s, pos + 4, end) {
            None => Err(DecodeError::Truncated),
            Some(cap_count) => match dec_caps(s, pos + 8, end, cap_count as nat) {
                Err(e) => Err(e),
                Ok((caps, p1)) => match dec_u32(s, p1, end) {
                    None => Err(DecodeError::Truncated),
                    Some(trait_count) => match dec_traits(s, p1 + 4, end, trait_count as nat) {
                        Err(e) => Err(e),
                        Ok((traits, _)) => Ok(
                            MetadataView {
                                entry_point,
                                required_capabilities: base.required_capabilities + caps,
                                traits: base.traits + traits,
                            },
                        ),
                    },
                },
            },
        }
    }
}

/// The node record at `pos`, and the position behind it.
pub open spec fn dec_node(s: Seq<u8>, pos: int, end: int) -> Result<(NodeView, int), DecodeError> {
    if has_bytes(s, pos, end, 29) {
        Ok(
            (
                NodeView {
                    opcode: spec_u16_from_le_bytes(s.subrange(pos, pos + 2)),
                    flags: spec_u16_from_le_bytes(s.subrange(pos + 2, pos + 4)),
                    result_id: spec_u32_from_le_bytes(s.subrange(pos + 4, pos + 8)),
                    timestamp: spec_u64_from_le_bytes(s.subrange(pos + 8, pos + 16)),
                    arg_count: s[pos + 16],
                    args: seq![
                        spec_u32_from_le_bytes(s.subrange(pos + 17, pos + 21)),
                        spec_u32_from_le_bytes(s.subrange(pos + 21, pos + 25)),
                        spec_u32_from_le_bytes(s.subrange(pos + 25, pos + 29)),
                    ],
                },
                pos + 29,
            ),
        )
    } else {
        Err(DecodeError::Truncated)
    }
}

/// The `n` node records that start at `pos`, and the position behind them.
pub open spec fn dec_nodes(s: Seq<u8>, pos: int, end: int, n: nat) -> Result<
    (Seq<NodeView>, int),
    DecodeError,
>
    decreases n,
{
    if n == 0 {
        Ok((Seq::empty(), pos))
    } else {
        match dec_node(s, pos, end) {
            Err(e) => Err(e),
            Ok((x, next)) => prepend(x, dec_nodes(s, next, end, (n - 1) as nat)),
        }
    }
}

/// The `n` signed integers that start at `pos`, and the position behind
/// them.
pub open spec fn dec_ints(s: Seq<u8>, pos: int, end: int, n: nat) -> Result<
    (Seq<i64>, int),
    DecodeError,
>
    decreases n,
{
    if n == 0 {
        Ok((Seq::empty(), pos))
    } else {
        match dec_u64(s, pos, end) {
            None => Err(DecodeError::Truncated),
            Some(x) => prepend(x as i64, dec_ints(s, pos + 8, end, (n - 1) as nat)),
        }
    }
}

/// The bits of the `n` floats that start at `pos`, and the position behind
/// them.
pub open spec fn dec_floats(s: Seq<u8>, pos: int, end: int, n: nat) -> Result<
    (Seq<u64>, int),
    DecodeError,
>
    decreases n,
{
    if n == 0 {
        Ok((Seq::empty(), pos))
    } else {
        match dec_u64(s, pos, end) {
            None => Err(DecodeError::Truncated),
            Some(x) => prepend(x, dec_floats(s, pos + 8, end, (n - 1) as nat)),
        }
    }
}

/// The `n` booleans that start at `pos`, and the position behind them. A
/// byte other than 0 reads as true.
pub open spec fn dec_bools(s: Seq<u8>, pos: int, end: int, n: nat) -> Result<
    (Seq<bool>, int),
    DecodeError,
>
    decreases n,
{
    if n == 0 {
        Ok((Seq::empty(), pos))
    } else if has_bytes(s, pos, end, 1) {
        prepend(s[pos] != 0, dec_bools(s, pos + 1, end, (n - 1) as nat))
    } else {
        Err(DecodeError::Truncated)
    }
}

/// The constant pool after a pool payload between `pos` and `end` has been
/// read into `base`: what is read is appended, kind by kind. Bytes of the
/// payload behind the last boolean are ignored.
pub open spec fn dec_pool(s: Seq<u8>, pos: int, end: int, base: ConstantPoolView) -> Result<
    ConstantPoolView,
    DecodeError,
> {
    match dec_u32(s, pos, end) {
        None => Err(DecodeError::Truncated),
        Some(int_count) => match dec_ints(s, pos + 4, end, int_count as nat) {
            Err(e) => Err(e),
            Ok((integers, p1)) => match dec_u32(s, p1, end) {
                None => Err(DecodeError::Truncated),
                Some(float_count) => match dec_floats(s, p1 + 4, end, float_count as nat) {
                    Err(e) => Err(e),
                    Ok((floats, p2)) => match dec_text_list(s, p2, end) {
                        Err(e) => Err(e),
                        Ok((strings, p3)) => match dec_u32(s, p3, end) {
                            None => Err(DecodeError::Truncated),
                            Some(bool_count) => match dec_bools(
                                s,
                                p3 + 4,
                                end,
                                bool_count as nat,
                            ) {
                                Err(e) => Err(e),
                                Ok((booleans, _)) => Ok(
                                    ConstantPoolView {
                                        integers: base.integers + integers,
                                        floats: base.floats + floats,
                                        strings: base.strings + strings,
                                        booleans: base.booleans + booleans,
                                    },
                                ),
                            },
                        },
                    },
                },
            },
        },
    }
}

/// The program after the chunk at `pos` has been read into `prog`, and the
/// position behind the chunk.
///
/// A metadata or constant pool chunk must be there in full before any of it
/// is read, and is left behind as a whole. Of a chunk of node records, as
/// many records are read as its size holds whole, and no byte more. A chunk
/// of any other tag, the reserved `PROF` among them, is passed over.
pub open spec fn dec_chunk(s: Seq<u8>, pos: int, prog: ProgramView) -> Result<
    (ProgramView, int),
    DecodeError,
> {
    match dec_chunk_header(s, pos) {
        None => Err(DecodeError::Truncated),
        Some(header) => {
            let tag = header.chunk_type;
            let size = header.size;
            let body = pos + 16;
            dec_chunk_body(s, body, tag, size, prog)
        },
    }
}

/// The chunk header at `pos`, if sixteen bytes can be read there.
pub open spec fn dec_chunk_header(s: Seq<u8>, pos: int) -> Option<ChunkHeaderView> {
    if has_bytes(s, pos, s.len() as int, 16) {
        Some(
            ChunkHeaderView {
                chunk_type: s.subrange(pos, pos + 4),
                size: spec_u32_from_le_bytes(s.subrange(pos + 4, pos + 8)),
                flags: spec_u32_from_le_bytes(s.subrange(pos + 8, pos + 12)),
                checksum: spec_u32_from_le_bytes(s.subrange(pos + 12, pos + 16)),
            },
        )
    } else {
        None
    }
}

/// The program after the payload at `body` of a chunk with the given tag
/// and size has been read into `prog`, and the position behind the chunk.
pub open spec fn dec_chunk_body(
    s: Seq<u8>,
    body: int,
    tag: Seq<u8>,
    size: u32,
    prog: ProgramView,
) -> Result<(ProgramView, int), DecodeError> {
    if tag == TAG_IMPL@ {
        match dec_nodes(s, body, s.len() as int, (size / 29) as nat) {
            Err(e) => Err(e),
            Ok((nodes, fin)) => Ok((ProgramView { nodes: prog.nodes + nodes, ..prog }, fin)),
        }
    } else if body + size > s.len() {
        Err(DecodeError::Truncated)
    } else if tag == TAG_META@ {
        match dec_meta(s, body, body + size, prog.metadata) {
            Err(e) => Err(e),
            Ok(metadata) => Ok((ProgramView { metadata, ..prog }, body + size)),
        }
    } else if tag == TAG_CNST@ {
        match dec_pool(s, body, body + size, prog.constants) {
            Err(e) => Err(e),
            Ok(constants) => Ok((ProgramView { constants, ..prog }, body + size)),
        }
    } else {
        Ok((prog, body + size))
    }
}

/// The program after `n` chunks from `pos` on have been read into `prog`,
/// and the position behind them.
pub open spec fn dec_chunks(s: Seq<u8>, pos: int, prog: ProgramView, n: nat) -> Result<
    (ProgramView, int),
    DecodeError,
>
    decreases n,
{
    if n == 0 {
        Ok((prog, pos))
    } else {
        match dec_chunk(s, pos, prog) {
            Err(e) => Err(e),
            Ok((next_prog, next)) => dec_chunks(s, next, next_prog, (n - 1) as nat),
        }
    }
}

/// The file header at `pos`, if sixteen bytes can be read there.
pub open spec fn dec_header(s: Seq<u8>, pos: int) -> Option<HeaderView> {
    if has_bytes(s, pos, s.len() as int, 16) {
        Some(
            HeaderView {
                magic: s.subrange(pos, pos + 4),
                version: spec_u16_from_le_bytes(s.subrange(pos + 4, pos + 6)),
                flags: spec_u16_from_le_bytes(s.subrange(pos + 6, pos + 8)),
                chunk_count: spec_u32_from_le_bytes(s.subrange(pos + 8, pos + 12)),
                reserved: s.subrange(pos + 12, pos + 16),
            },
        )
    } else {
        None
    }
}

/// The program without nodes, constants, capabilities or annotations, under
/// the header `h`, entered at 0.
pub open spec fn empty_program(h: HeaderView) -> ProgramView {
    ProgramView {
        header: h,
        nodes: Seq::empty(),
        constants: ConstantPoolView {
            integers: Seq::empty(),
            floats: Seq::empty(),
            strings: Seq::empty(),
            booleans: Seq::empty(),
        },
        metadata: MetadataView {
            entry_point: 0,
            required_capabilities: Seq::empty(),
            traits: Seq::empty(),
        },
    }
}

/// The program that the container at `pos` holds, and the position behind
/// its last chunk: the header is read whole, its magic is checked, and as
/// many chunks are read as it announces.
pub open spec fn dec_program(s: Seq<u8>, pos: int) -> Result<(ProgramView, int), DecodeError> {
    match dec_header(s, pos) {
        None => Err(DecodeError::Truncated),
        Some(h) => {
            if h.magic != DER_MAGIC@ {
                Err(DecodeError::BadMagic)
            } else {
                dec_chunks(s, pos + 16, empty_program(h), h.chunk_count as nat)
            }
        },
    }
}

// ---------------------------------------------------------------------
// Facts about reading lists
// ---------------------------------------------------------------------
/// Reading one more item moves it from what is still to be read to what has
/// been read.
pub proof fn lemma_extend_step<T>(done: Seq<T>, x: T, rest: Result<(Seq<T>, int), DecodeError>)
    ensures
        extend(done, prepend(x, rest)) == extend(done.push(x), rest),
{
    match rest {
        Ok((xs, fin)) => {
            assert(done + (seq![x] + xs) =~= done.push(x) + xs);
        },
        Err(_) => {},
    }
}

/// With nothing read yet, what reading gives is what reading the rest gives;
/// with nothing left to read, it is what has been read.
pub proof fn lemma_extend_ends<T>(done: Seq<T>, rest: Result<(Seq<T>, int), DecodeError>, pos: int)
    ensures
        extend(Seq::<T>::empty(), rest) == rest,
        extend(done, Ok((Seq::<T>::empty(), pos))) == Ok::<(Seq<T>, int), DecodeError>((done, pos)),
{
    match rest {
        Ok((xs, fin)) => {
            assert(Seq::<T>::empty() + xs =~= xs);
        },
        Err(_) => {},
    }
    assert(done + Seq::<T>::empty() =~= done);
}

// ---------------------------------------------------------------------
// Facts about sizes
// ---------------------------------------------------------------------
/// The fixed-width integers take two, four and eight bytes.
pub proof fn lemma_int_sizes()
    ensures
        forall|x: u16| #[trigger] spec_u16_to_le_bytes(x).len() == 2,
        forall|x: u32| #[trigger] spec_u32_to_le_bytes(x).len() == 4,
        forall|x: u64| #[trigger] spec_u64_to_le_bytes(x).len() == 8,
{
    vstd::bytes::lemma_auto_spec_u16_to_from_le_bytes();
    vstd::bytes::lemma_auto_spec_u32_to_from_le_bytes();
    vstd::bytes::lemma_auto_spec_u64_to_from_le_bytes();
}

/// A node record takes 29 bytes.
pub proof fn lemma_node_len(n: NodeView)
    ensures
        enc_node(n).len() == 29,
{
    lemma_int_sizes();
}

/// Node records take 29 bytes each.
pub proof fn lemma_nodes_len(ns: Seq<NodeView>)
    ensures
        enc_nodes(ns).len() == ns.len() * 29,
    decreases ns.len(),
{
    if ns.len() > 0 {
        lemma_node_len(ns.first());
        lemma_nodes_len(ns.drop_first());
    }
}

} // verus!

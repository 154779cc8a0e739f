//! Writing a program as a container.

use crate::format::binary_format::{
    Capability, ChunkHeader, ChunkHeaderView, ConstantPool, FileHeader, Node, Program, ProgramMetadata, Trait,
};
use crate::format::bytes::{append_bytes, le_bytes_i64, le_bytes_u16, le_bytes_u32, le_bytes_u64};
use crate::format::wire::{
    capability_id, enc_bool, enc_chunk_header, enc_bools, enc_caps, enc_chunk, enc_floats, enc_header, enc_i64,
    enc_ints, enc_meta, enc_node, enc_nodes, enc_pool, enc_program, enc_text, enc_text_list,
    enc_texts, enc_trait, enc_traits, encodable, lemma_nodes_len, meta_fits, pool_fits, text_fits,
    texts_fit, trait_fits, EncodeError, NODE_WIRE_SIZE, TAG_CNST, TAG_IMPL, TAG_META,
};
use vstd::bytes::{spec_u16_to_le_bytes, spec_u32_to_le_bytes, spec_u64_to_le_bytes};
use vstd::prelude::*;

verus! {

/// The largest value of 32 bits, as a length.
const MAX_U32: usize = 0xFFFF_FFFF;

/// Appends the two bytes of `value`.
fn put_u16(out: &mut Vec<u8>, value: u16)
    ensures
        final(out)@ == old(out)@ + spec_u16_to_le_bytes(value),
{
    let bytes = le_bytes_u16(value);
    append_bytes(out, bytes.as_slice());
}

/// Appends the four bytes of `value`.
fn put_u32(out: &mut Vec<u8>, value: u32)
    ensures
        final(out)@ == old(out)@ + spec_u32_to_le_bytes(value),
{
    let bytes = le_bytes_u32(value);
    append_bytes(out, bytes.as_slice());
}

/// Appends the eight bytes of `value`.
fn put_u64(out: &mut Vec<u8>, value: u64)
    ensures
        final(out)@ == old(out)@ + spec_u64_to_le_bytes(value),
{
    let bytes = le_bytes_u64(value);
    append_bytes(out, bytes.as_slice());
}

/// Appends the eight bytes of `value`.
fn put_i64(out: &mut Vec<u8>, value: i64)
    ensures
        final(out)@ == old(out)@ + enc_i64(value),
{
    let bytes = le_bytes_i64(value);
    append_bytes(out, bytes.as_slice());
}

/// Appends a string, unless its UTF-8 form is too long for a 32-bit length.
fn put_text(out: &mut Vec<u8>, text: &String) -> (fits: bool)
    ensures
        fits == text_fits(text@),
        fits ==> final(out)@ == old(out)@ + enc_text(text@),
{
    let bytes = text.as_str().as_bytes();
    if bytes.len() > MAX_U32 {
        return false;
    }
    put_u32(out, bytes.len() as u32);
    append_bytes(out, bytes);
    assert(out@ =~= old(out)@ + enc_text(text@));
    true
}

/// Appends strings one after the other, unless one of them does not fit.
fn put_texts(out: &mut Vec<u8>, texts: &Vec<String>) -> (fits: bool)
    ensures
        fits == (forall|i: int|
            0 <= i < texts.deep_view().len() ==> text_fits(#[trigger] texts.deep_view()[i])),
        fits ==> final(out)@ == old(out)@ + enc_texts(texts.deep_view()),
{
    let ghost ts = texts.deep_view();
    let mut i: usize = 0;
    assert(ts.skip(0) =~= ts);
    while i < texts.len()
        invariant
            i <= texts.len(),
            ts == texts.deep_view(),
            forall|j: int| 0 <= j < i ==> text_fits(#[trigger] ts[j]),
            out@ + enc_texts(ts.skip(i as int)) == old(out)@ + enc_texts(ts),
        decreases texts.len() - i,
    {
        let ghost before = out@;
        let ghost rest = ts.skip(i as int);
        assert(rest.first() == ts[i as int]);
        assert(rest.drop_first() =~= ts.skip(i + 1));
        assert(ts[i as int] == texts@[i as int]@);
        if !put_text(out, &texts[i]) {
            return false;
        }
        assert(out@ + enc_texts(ts.skip(i + 1)) =~= before + enc_texts(rest));
        i += 1;
    }
    assert(ts.skip(i as int) =~= Seq::empty());
    assert(out@ + Seq::<u8>::empty() =~= out@);
    true
}

/// Appends a list of strings behind its length, unless the length or one of
/// the strings does not fit.
fn put_text_list(out: &mut Vec<u8>, texts: &Vec<String>) -> (fits: bool)
    ensures
        fits == texts_fit(texts.deep_view()),
        fits ==> final(out)@ == old(out)@ + enc_text_list(texts.deep_view()),
{
    if texts.len() > MAX_U32 {
        return false;
    }
    put_u32(out, texts.len() as u32);
    if !put_texts(out, texts) {
        return false;
    }
    assert(out@ =~= old(out)@ + enc_text_list(texts.deep_view()));
    true
}

/// The number under which a capability travels.
fn capability_number(cap: Capability) -> (id: u32)
    ensures
        id == capability_id(cap),
{
    match cap {
        Capability::FileSystem => 1,
        Capability::Network => 2,
        Capability::Process => 3,
        Capability::UI => 4,
        Capability::ExternalCode => 5,
    }
}

/// Appends the numbers of the capabilities.
fn put_caps(out: &mut Vec<u8>, caps: &Vec<Capability>)
    ensures
        final(out)@ == old(out)@ + enc_caps(caps@),
{
    let mut i: usize = 0;
    assert(caps@.skip(0) =~= caps@);
    while i < caps.len()
        invariant
            i <= caps.len(),
            out@ + enc_caps(caps@.skip(i as int)) == old(out)@ + enc_caps(caps@),
        decreases caps.len() - i,
    {
        let ghost before = out@;
        let ghost rest = caps@.skip(i as int);
        assert(rest.first() == caps@[i as int]);
        assert(rest.drop_first() =~= caps@.skip(i + 1));
        put_u32(out, capability_number(caps[i]));
        assert(out@ + enc_caps(caps@.skip(i + 1)) =~= before + enc_caps(rest));
        i += 1;
    }
    assert(caps@.skip(i as int) =~= Seq::empty());
    assert(out@ + Seq::<u8>::empty() =~= out@);
}

/// Appends a trait annotation, unless one of its parts does not fit.
fn put_trait(out: &mut Vec<u8>, annotation: &Trait) -> (fits: bool)
    ensures
        fits == trait_fits(annotation@),
        fits ==> final(out)@ == old(out)@ + enc_trait(annotation@),
{
    if !put_text(out, &annotation.name) {
        return false;
    }
    if !put_text_list(out, &annotation.preconditions) {
        return false;
    }
    if !put_text_list(out, &annotation.postconditions) {
        return false;
    }
    assert(out@ =~= old(out)@ + enc_trait(annotation@));
    true
}

/// Appends trait annotations one after the other, unless one of them does
/// not fit.
fn put_traits(out: &mut Vec<u8>, traits: &Vec<Trait>) -> (fits: bool)
    ensures
        fits == (forall|i: int|
            0 <= i < traits.deep_view().len() ==> trait_fits(#[trigger] traits.deep_view()[i])),
        fits ==> final(out)@ == old(out)@ + enc_traits(traits.deep_view()),
{
    let ghost ts = traits.deep_view();
    let mut i: usize = 0;
    assert(ts.skip(0) =~= ts);
    while i < traits.len()
        invariant
            i <= traits.len(),
            ts == traits.deep_view(),
            forall|j: int| 0 <= j < i ==> trait_fits(#[trigger] ts[j]),
            out@ + enc_traits(ts.skip(i as int)) == old(out)@ + enc_traits(ts),
        decreases traits.len() - i,
    {
        let ghost before = out@;
        let ghost rest = ts.skip(i as int);
        assert(rest.first() == ts[i as int]);
        assert(rest.drop_first() =~= ts.skip(i + 1));
        assert(ts[i as int] == traits@[i as int]@);
        if !put_trait(out, &traits[i]) {
            return false;
        }
        assert(out@ + enc_traits(ts.skip(i + 1)) =~= before + enc_traits(rest));
        i += 1;
    }
    assert(ts.skip(i as int) =~= Seq::empty());
    assert(out@ + Seq::<u8>::empty() =~= out@);
    true
}

/// The payload of the metadata chunk, unless the metadata cannot be
/// written.
fn metadata_chunk_payload(metadata: &ProgramMetadata) -> (payload: Option<Vec<u8>>)
    ensures
        payload is Some <==> meta_fits(metadata@),
        payload matches Some(bytes) ==> bytes@ == enc_meta(metadata@),
{
    if metadata.required_capabilities.len() > MAX_U32 || metadata.traits.len() > MAX_U32 {
        return None;
    }
    let mut out: Vec<u8> = Vec::new();
    put_u32(&mut out, metadata.entry_point);
    put_u32(&mut out, metadata.required_capabilities.len() as u32);
    put_caps(&mut out, &metadata.required_capabilities);
    put_u32(&mut out, metadata.traits.len() as u32);
    if !put_traits(&mut out, &metadata.traits) {
        return None;
    }
    assert(out@ =~= enc_meta(metadata@));
    if out.len() > MAX_U32 {
        return None;
    }
    Some(out)
}

/// Appends a node record.
fn write_node(out: &mut Vec<u8>, node: &Node)
    ensures
        final(out)@ == old(out)@ + enc_node(node@),
{
    put_u16(out, node.opcode);
    put_u16(out, node.flags);
    put_u32(out, node.result_id);
    put_u64(out, node.timestamp);
    out.push(node.arg_count);
    put_u32(out, node.args[0]);
    put_u32(out, node.args[1]);
    put_u32(out, node.args[2]);
    assert(out@ =~= old(out)@ + enc_node(node@));
}

/// Appends node records one after the other.
fn write_nodes(out: &mut Vec<u8>, nodes: &Vec<Node>)
    ensures
        final(out)@ == old(out)@ + enc_nodes(nodes.deep_view()),
{
    let ghost ns = nodes.deep_view();
    let mut i: usize = 0;
    assert(ns.skip(0) =~= ns);
    while i < nodes.len()
        invariant
            i <= nodes.len(),
            ns == nodes.deep_view(),
            out@ + enc_nodes(ns.skip(i as int)) == old(out)@ + enc_nodes(ns),
        decreases nodes.len() - i,
    {
        let ghost before = out@;
        let ghost rest = ns.skip(i as int);
        assert(rest.first() == ns[i as int]);
        assert(rest.drop_first() =~= ns.skip(i + 1));
        assert(ns[i as int] == nodes@[i as int]@);
        write_node(out, &nodes[i]);
        assert(out@ + enc_nodes(ns.skip(i + 1)) =~= before + enc_nodes(rest));
        i += 1;
    }
    assert(ns.skip(i as int) =~= Seq::empty());
    assert(out@ + Seq::<u8>::empty() =~= out@);
}

/// Appends signed integers one after the other.
fn put_ints(out: &mut Vec<u8>, values: &Vec<i64>)
    ensures
        final(out)@ == old(out)@ + enc_ints(values@),
{
    let mut i: usize = 0;
    assert(values@.skip(0) =~= values@);
    while i < values.len()
        invariant
            i <= values.len(),
            out@ + enc_ints(values@.skip(i as int)) == old(out)@ + enc_ints(values@),
        decreases values.len() - i,
    {
        let ghost before = out@;
        let ghost rest = values@.skip(i as int);
        assert(rest.first() == values@[i as int]);
        assert(rest.drop_first() =~= values@.skip(i + 1));
        put_i64(out, values[i]);
        assert(out@ + enc_ints(values@.skip(i + 1)) =~= before + enc_ints(rest));
        i += 1;
    }
    assert(values@.skip(i as int) =~= Seq::empty());
    assert(out@ + Seq::<u8>::empty() =~= out@);
}

/// Appends floats, given by their bits, one after the other.
fn put_floats(out: &mut Vec<u8>, values: &Vec<u64>)
    ensures
        final(out)@ == old(out)@ + enc_floats(values@),
{
    let mut i: usize = 0;
    assert(values@.skip(0) =~= values@);
    while i < values.len()
        invariant
            i <= values.len(),
            out@ + enc_floats(values@.skip(i as int)) == old(out)@ + enc_floats(values@),
        decreases values.len() - i,
    {
        let ghost before = out@;
        let ghost rest = values@.skip(i as int);
        assert(rest.first() == values@[i as int]);
        assert(rest.drop_first() =~= values@.skip(i + 1));
        put_u64(out, values[i]);
        assert(out@ + enc_floats(values@.skip(i + 1)) =~= before + enc_floats(rest));
        i += 1;
    }
    assert(values@.skip(i as int) =~= Seq::empty());
    assert(out@ + Seq::<u8>::empty() =~= out@);
}

/// Appends booleans, one byte each.
fn put_bools(out: &mut Vec<u8>, values: &Vec<bool>)
    ensures
        final(out)@ == old(out)@ + enc_bools(values@),
{
    let mut i: usize = 0;
    assert(values@.skip(0) =~= values@);
    while i < values.len()
        invariant
            i <= values.len(),
            out@ + enc_bools(values@.skip(i as int)) == old(out)@ + enc_bools(values@),
        decreases values.len() - i,
    {
        let ghost before = out@;
        let ghost rest = values@.skip(i as int);
        assert(rest.first() == values@[i as int]);
        assert(rest.drop_first() =~= values@.skip(i + 1));
        out.push(if values[i] { 1u8 } else { 0u8 });
        assert(out@ =~= before + seq![enc_bool(values@[i as int])]);
        assert(out@ + enc_bools(values@.skip(i + 1)) =~= before + enc_bools(rest));
        i += 1;
    }
    assert(values@.skip(i as int) =~= Seq::empty());
    assert(out@ + Seq::<u8>::empty() =~= out@);
}

/// The payload of the constant pool chunk, unless the pool cannot be
/// written.
fn const_chunk_payload(pool: &ConstantPool) -> (payload: Option<Vec<u8>>)
    ensures
        payload is Some <==> pool_fits(pool@),
        payload matches Some(bytes) ==> bytes@ == enc_pool(pool@),
{
    if pool.integers.len() > MAX_U32 || pool.floats.len() > MAX_U32 || pool.strings.len() > MAX_U32
        || pool.booleans.len() > MAX_U32 {
        return None;
    }
    let mut out: Vec<u8> = Vec::new();
    put_u32(&mut out, pool.integers.len() as u32);
    put_ints(&mut out, &pool.integers);
    put_u32(&mut out, pool.floats.len() as u32);
    put_floats(&mut out, &pool.floats);
    put_u32(&mut out, pool.strings.len() as u32);
    if !put_texts(&mut out, &pool.strings) {
        return None;
    }
    put_u32(&mut out, pool.booleans.len() as u32);
    put_bools(&mut out, &pool.booleans);
    assert(out@ =~= enc_pool(pool@));
    if out.len() > MAX_U32 {
        return None;
    }
    Some(out)
}

/// Appends the header of a chunk with the given tag and a payload of
/// `size` bytes: no flags, and 0 for the checksum.
fn write_chunk_header(out: &mut Vec<u8>, chunk_type: [u8; 4], size: u32)
    ensures
        final(out)@ == old(out)@ + enc_chunk_header(
            ChunkHeaderView { chunk_type: chunk_type@, size, flags: 0, checksum: 0 },
        ),
{
    let header = ChunkHeader { chunk_type, size, flags: 0, checksum: 0 };
    append_bytes(out, header.chunk_type.as_slice());
    put_u32(out, header.size);
    put_u32(out, header.flags);
    put_u32(out, header.checksum);
    assert(out@ =~= old(out)@ + enc_chunk_header(header@));
}

/// Appends a file header.
fn write_header(out: &mut Vec<u8>, header: &FileHeader)
    ensures
        final(out)@ == old(out)@ + enc_header(header@),
{
    append_bytes(out, header.magic.as_slice());
    put_u16(out, header.version);
    put_u16(out, header.flags);
    put_u32(out, header.chunk_count);
    append_bytes(out, header.reserved.as_slice());
    assert(out@ =~= old(out)@ + enc_header(header@));
}

/// A writer of containers into bytes held in memory.
pub struct DERSerializer {
    writer: Vec<u8>,
}

impl DERSerializer {
    /// The bytes written so far, behind those that the writer was made with.
    pub closed spec fn written(&self) -> Seq<u8> {
        self.writer@
    }

    /// A writer that appends to `writer`.
    pub fn new(writer: Vec<u8>) -> (serializer: DERSerializer)
        ensures
            serializer.written() == writer@,
    {
        DERSerializer { writer }
    }

    /// The bytes written so far.
    pub fn into_inner(self) -> (bytes: Vec<u8>)
        ensures
            bytes@ == self.written(),
    {
        self.writer
    }

    /// Writes `program` as a container: the header as it stands in the
    /// program, then the metadata chunk, the chunk of node records and the
    /// constant pool chunk. Where a count, a string length or a chunk size
    /// does not fit in 32 bits nothing is written.
    pub fn write_program(&mut self, program: &Program) -> (r: Result<(), EncodeError>)
        ensures
            r is Ok <==> encodable(program@),
            r is Ok ==> final(self).written() == old(self).written() + enc_program(program@),
            r is Err ==> final(self).written() == old(self).written(),
    {
        let meta = match metadata_chunk_payload(&program.metadata) {
            None => {
                return Err(EncodeError::TooLarge);
            },
            Some(bytes) => bytes,
        };
        if program.nodes.len() > MAX_U32 / NODE_WIRE_SIZE {
            return Err(EncodeError::TooLarge);
        }
        let pool = match const_chunk_payload(&program.constants) {
            None => {
                return Err(EncodeError::TooLarge);
            },
            Some(bytes) => bytes,
        };
        let mut nodes: Vec<u8> = Vec::new();
        self.write_impl_chunk(&mut nodes, &program.nodes);
        write_header(&mut self.writer, &program.header);
        write_chunk_header(&mut self.writer, TAG_META, meta.len() as u32);
        append_bytes(&mut self.writer, meta.as_slice());
        append_bytes(&mut self.writer, nodes.as_slice());
        write_chunk_header(&mut self.writer, TAG_CNST, pool.len() as u32);
        append_bytes(&mut self.writer, pool.as_slice());
        assert(self.writer@ =~= old(self).writer@ + enc_program(program@));
        Ok(())
    }

    /// Appends to `out` the chunk of node records for `nodes`: a chunk
    /// header that announces 29 bytes for each node, then the records.
    pub fn write_impl_chunk(&self, out: &mut Vec<u8>, nodes: &Vec<Node>)
        requires
            nodes.len() * 29 <= u32::MAX,
        ensures
            final(out)@ == old(out)@ + enc_chunk(TAG_IMPL@, enc_nodes(nodes.deep_view())),
    {
        let mut records: Vec<u8> = Vec::new();
        write_nodes(&mut records, nodes);
        assert(records@ =~= enc_nodes(nodes.deep_view()));
        proof {
            lemma_nodes_len(nodes.deep_view());
        }
        write_chunk_header(out, TAG_IMPL, (nodes.len() * NODE_WIRE_SIZE) as u32);
        append_bytes(out, records.as_slice());
        assert(out@ =~= old(out)@ + enc_chunk(TAG_IMPL@, enc_nodes(nodes.deep_view())));
    }
}

} // verus!

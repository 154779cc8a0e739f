//! What is written can be read back: the proof that reading the bytes of a
//! program gives the program.

use crate::format::binary_format::{
    Capability, ConstantPoolView, MetadataView, NodeView, Program, ProgramView,
    TraitView, DER_MAGIC,
};
use crate::format::wire::{
    capability_id, capability_of, dec_bools, dec_caps, dec_chunk, dec_chunk_header, dec_chunks, dec_floats,
    dec_header, dec_ints, dec_meta, dec_node, dec_nodes, dec_pool, dec_program, dec_text,
    dec_text_list, dec_texts, dec_trait, dec_traits, dec_u16, dec_u32, dec_u64, empty_program,
    enc_bool, enc_bools, enc_caps, enc_chunk, enc_floats, enc_header, enc_i64, enc_ints, enc_meta,
    enc_node, enc_nodes, enc_pool, enc_program, enc_text, enc_text_list, enc_texts, enc_trait,
    enc_traits, encodable, has_bytes, header_for, lemma_int_sizes, lemma_nodes_len, meta_fits, pool_fits,
    text_fits, texts_fit, trait_fits, DecodeError, TAG_CNST, TAG_IMPL, TAG_META,
};
use vstd::bytes::{
    lemma_auto_spec_u16_to_from_le_bytes, lemma_auto_spec_u32_to_from_le_bytes,
    lemma_auto_spec_u64_to_from_le_bytes, spec_u16_from_le_bytes, spec_u16_to_le_bytes,
    spec_u32_from_le_bytes, spec_u32_to_le_bytes, spec_u64_from_le_bytes, spec_u64_to_le_bytes,
};
use vstd::prelude::*;
use vstd::utf8::{
    encode_utf8, encode_utf8_decode_utf8, encode_utf8_valid_utf8, };

verus! {

/// Whether the bytes `x` stand in `s` at `pos`, before `end`.
pub open spec fn placed(s: Seq<u8>, pos: int, end: int, x: Seq<u8>) -> bool {
    &&& 0 <= pos
    &&& pos + x.len() <= end
    &&& end <= s.len()
    &&& s.subrange(pos, pos + x.len()) == x
}

/// Where `a` followed by `b` stands, `a` stands, and `b` stands behind it.
pub proof fn lemma_placed_split(s: Seq<u8>, pos: int, end: int, a: Seq<u8>, b: Seq<u8>)
    requires
        placed(s, pos, end, a + b),
    ensures
        placed(s, pos, end, a),
        placed(s, pos + a.len(), end, b),
{
    let whole = s.subrange(pos, pos + (a + b).len());
    assert(s.subrange(pos, pos + a.len()) =~= whole.subrange(0, a.len() as int));
    assert(whole.subrange(0, a.len() as int) =~= a);
    assert(s.subrange(pos + a.len(), pos + a.len() + b.len()) =~= whole.subrange(
        a.len() as int,
        (a + b).len() as int,
    ));
    assert(whole.subrange(a.len() as int, (a + b).len() as int) =~= b);
}

/// A 16-bit integer that was written is read back.
pub proof fn lemma_read_back_u16(s: Seq<u8>, pos: int, end: int, x: u16)
    requires
        placed(s, pos, end, spec_u16_to_le_bytes(x)),
    ensures
        dec_u16(s, pos, end) == Some(x),
        spec_u16_from_le_bytes(s.subrange(pos, pos + 2)) == x,
{
    lemma_auto_spec_u16_to_from_le_bytes();
}

/// A 32-bit integer that was written is read back.
pub proof fn lemma_read_back_u32(s: Seq<u8>, pos: int, end: int, x: u32)
    requires
        placed(s, pos, end, spec_u32_to_le_bytes(x)),
    ensures
        dec_u32(s, pos, end) == Some(x),
        spec_u32_from_le_bytes(s.subrange(pos, pos + 4)) == x,
{
    lemma_auto_spec_u32_to_from_le_bytes();
}

/// A 64-bit integer that was written is read back.
pub proof fn lemma_read_back_u64(s: Seq<u8>, pos: int, end: int, x: u64)
    requires
        placed(s, pos, end, spec_u64_to_le_bytes(x)),
    ensures
        dec_u64(s, pos, end) == Some(x),
        spec_u64_from_le_bytes(s.subrange(pos, pos + 8)) == x,
{
    lemma_auto_spec_u64_to_from_le_bytes();
}

/// A string that was written is read back.
pub proof fn lemma_read_back_text(s: Seq<u8>, pos: int, end: int, t: Seq<char>)
    requires
        text_fits(t),
        placed(s, pos, end, enc_text(t)),
    ensures
        dec_text(s, pos, end) == Ok::<(Seq<char>, int), DecodeError>(
            (t, pos + enc_text(t).len()),
        ),
{
    let raw = encode_utf8(t);
    let len = raw.len() as u32;
    lemma_int_sizes();
    lemma_placed_split(s, pos, end, spec_u32_to_le_bytes(len), raw);
    lemma_read_back_u32(s, pos, end, len);
    encode_utf8_valid_utf8(t);
    encode_utf8_decode_utf8(t);
}

/// Strings that were written are read back.
pub proof fn lemma_read_back_texts(s: Seq<u8>, pos: int, end: int, ts: Seq<Seq<char>>)
    requires
        forall|i: int| 0 <= i < ts.len() ==> text_fits(#[trigger] ts[i]),
        placed(s, pos, end, enc_texts(ts)),
    ensures
        dec_texts(s, pos, end, ts.len()) == Ok::<(Seq<Seq<char>>, int), DecodeError>(
            (ts, pos + enc_texts(ts).len()),
        ),
    decreases ts.len(),
{
    if ts.len() == 0 {
        assert(ts =~= Seq::empty());
    } else {
        let first = ts.first();
        let rest = ts.drop_first();
        lemma_placed_split(s, pos, end, enc_text(first), enc_texts(rest));
        lemma_read_back_text(s, pos, end, first);
        assert forall|i: int| 0 <= i < rest.len() implies text_fits(#[trigger] rest[i]) by {
            assert(rest[i] == ts[i + 1]);
        }
        lemma_read_back_texts(s, pos + enc_text(first).len(), end, rest);
        assert(seq![first] + rest =~= ts);
    }
}

/// A list of strings that was written is read back.
pub proof fn lemma_read_back_text_list(s: Seq<u8>, pos: int, end: int, ts: Seq<Seq<char>>)
    requires
        texts_fit(ts),
        placed(s, pos, end, enc_text_list(ts)),
    ensures
        dec_text_list(s, pos, end) == Ok::<(Seq<Seq<char>>, int), DecodeError>(
            (ts, pos + enc_text_list(ts).len()),
        ),
{
    lemma_int_sizes();
    lemma_placed_split(s, pos, end, spec_u32_to_le_bytes(ts.len() as u32), enc_texts(ts));
    lemma_read_back_u32(s, pos, end, ts.len() as u32);
    lemma_read_back_texts(s, pos + 4, end, ts);
}

/// Capabilities that were written are read back.
pub proof fn lemma_read_back_caps(s: Seq<u8>, pos: int, end: int, caps: Seq<Capability>)
    requires
        placed(s, pos, end, enc_caps(caps)),
    ensures
        dec_caps(s, pos, end, caps.len()) == Ok::<(Seq<Capability>, int), DecodeError>(
            (caps, pos + enc_caps(caps).len()),
        ),
    decreases caps.len(),
{
    if caps.len() == 0 {
        assert(caps =~= Seq::empty());
    } else {
        let first = caps.first();
        let rest = caps.drop_first();
        lemma_int_sizes();
        lemma_placed_split(s, pos, end, spec_u32_to_le_bytes(capability_id(first)), enc_caps(rest));
        lemma_read_back_u32(s, pos, end, capability_id(first));
        assert(capability_of(capability_id(first)) == Some(first));
        lemma_read_back_caps(s, pos + 4, end, rest);
        assert(seq![first] + rest =~= caps);
    }
}

/// A trait annotation that was written is read back.
pub proof fn lemma_read_back_trait(s: Seq<u8>, pos: int, end: int, t: TraitView)
    requires
        trait_fits(t),
        placed(s, pos, end, enc_trait(t)),
    ensures
        dec_trait(s, pos, end) == Ok::<(TraitView, int), DecodeError>(
            (t, pos + enc_trait(t).len()),
        ),
{
    let a = enc_text(t.name);
    let b = enc_text_list(t.preconditions);
    let c = enc_text_list(t.postconditions);
    lemma_placed_split(s, pos, end, a + b, c);
    lemma_placed_split(s, pos, end, a, b);
    lemma_read_back_text(s, pos, end, t.name);
    lemma_read_back_text_list(s, pos + a.len(), end, t.preconditions);
    lemma_read_back_text_list(s, pos + a.len() + b.len(), end, t.postconditions);
}

/// Trait annotations that were written are read back.
pub proof fn lemma_read_back_traits(s: Seq<u8>, pos: int, end: int, ts: Seq<TraitView>)
    requires
        forall|i: int| 0 <= i < ts.len() ==> trait_fits(#[trigger] ts[i]),
        placed(s, pos, end, enc_traits(ts)),
    ensures
        dec_traits(s, pos, end, ts.len()) == Ok::<(Seq<TraitView>, int), DecodeError>(
            (ts, pos + enc_traits(ts).len()),
        ),
    decreases ts.len(),
{
    if ts.len() == 0 {
        assert(ts =~= Seq::empty());
    } else {
        let first = ts.first();
        let rest = ts.drop_first();
        lemma_placed_split(s, pos, end, enc_trait(first), enc_traits(rest));
        lemma_read_back_trait(s, pos, end, first);
        assert forall|i: int| 0 <= i < rest.len() implies trait_fits(#[trigger] rest[i]) by {
            assert(rest[i] == ts[i + 1]);
        }
        lemma_read_back_traits(s, pos + enc_trait(first).len(), end, rest);
        assert(seq![first] + rest =~= ts);
    }
}

/// Metadata that was written is read back into metadata that held nothing.
pub proof fn lemma_read_back_meta(s: Seq<u8>, pos: int, end: int, m: MetadataView)
    requires
        meta_fits(m),
        placed(s, pos, end, enc_meta(m)),
    ensures
        dec_meta(
            s,
            pos,
            end,
            MetadataView {
                entry_point: 0,
                required_capabilities: Seq::empty(),
                traits: Seq::empty(),
            },
        ) == Ok::<MetadataView, DecodeError>(m),
{
    let a = spec_u32_to_le_bytes(m.entry_point);
    let b = spec_u32_to_le_bytes(m.required_capabilities.len() as u32);
    let c = enc_caps(m.required_capabilities);
    let d = spec_u32_to_le_bytes(m.traits.len() as u32);
    let e = enc_traits(m.traits);
    lemma_int_sizes();
    lemma_placed_split(s, pos, end, a + b + c + d, e);
    lemma_placed_split(s, pos, end, a + b + c, d);
    lemma_placed_split(s, pos, end, a + b, c);
    lemma_placed_split(s, pos, end, a, b);
    lemma_read_back_u32(s, pos, end, m.entry_point);
    lemma_read_back_u32(s, pos + 4, end, m.required_capabilities.len() as u32);
    lemma_read_back_caps(s, pos + 8, end, m.required_capabilities);
    lemma_read_back_u32(s, pos + 8 + c.len(), end, m.traits.len() as u32);
    lemma_read_back_traits(s, pos + 8 + c.len() + 4, end, m.traits);
    assert(Seq::<Capability>::empty() + m.required_capabilities =~= m.required_capabilities);
    assert(Seq::<TraitView>::empty() + m.traits =~= m.traits);
}

/// A node record that was written is read back.
pub proof fn lemma_read_back_node(s: Seq<u8>, pos: int, end: int, n: NodeView)
    requires
        n.args.len() == 3,
        placed(s, pos, end, enc_node(n)),
    ensures
        dec_node(s, pos, end) == Ok::<(NodeView, int), DecodeError>((n, pos + 29)),
{
    let a = spec_u16_to_le_bytes(n.opcode);
    let b = spec_u16_to_le_bytes(n.flags);
    let c = spec_u32_to_le_bytes(n.result_id);
    let d = spec_u64_to_le_bytes(n.timestamp);
    let e = seq![n.arg_count];
    let f = spec_u32_to_le_bytes(n.args[0]);
    let g = spec_u32_to_le_bytes(n.args[1]);
    let h = spec_u32_to_le_bytes(n.args[2]);
    lemma_int_sizes();
    lemma_placed_split(s, pos, end, a + b + c + d + e + f + g, h);
    lemma_placed_split(s, pos, end, a + b + c + d + e + f, g);
    lemma_placed_split(s, pos, end, a + b + c + d + e, f);
    lemma_placed_split(s, pos, end, a + b + c + d, e);
    lemma_placed_split(s, pos, end, a + b + c, d);
    lemma_placed_split(s, pos, end, a + b, c);
    lemma_placed_split(s, pos, end, a, b);
    lemma_read_back_u16(s, pos, end, n.opcode);
    lemma_read_back_u16(s, pos + 2, end, n.flags);
    lemma_read_back_u32(s, pos + 4, end, n.result_id);
    lemma_read_back_u64(s, pos + 8, end, n.timestamp);
    assert(s.subrange(pos + 16, pos + 17)[0] == n.arg_count);
    lemma_read_back_u32(s, pos + 17, end, n.args[0]);
    lemma_read_back_u32(s, pos + 21, end, n.args[1]);
    lemma_read_back_u32(s, pos + 25, end, n.args[2]);
    assert(seq![n.args[0], n.args[1], n.args[2]] =~= n.args);
}

/// Node records that were written are read back.
pub proof fn lemma_read_back_nodes(s: Seq<u8>, pos: int, end: int, ns: Seq<NodeView>)
    requires
        forall|i: int| 0 <= i < ns.len() ==> (#[trigger] ns[i]).args.len() == 3,
        placed(s, pos, end, enc_nodes(ns)),
    ensures
        dec_nodes(s, pos, end, ns.len()) == Ok::<(Seq<NodeView>, int), DecodeError>(
            (ns, pos + enc_nodes(ns).len()),
        ),
    decreases ns.len(),
{
    if ns.len() == 0 {
        assert(ns =~= Seq::empty());
    } else {
        let first = ns.first();
        let rest = ns.drop_first();
        lemma_placed_split(s, pos, end, enc_node(first), enc_nodes(rest));
        lemma_read_back_node(s, pos, end, first);
        lemma_int_sizes();
        assert forall|i: int| 0 <= i < rest.len() implies (#[trigger] rest[i]).args.len() == 3 by {
            assert(rest[i] == ns[i + 1]);
        }
        lemma_read_back_nodes(s, pos + 29, end, rest);
        assert(seq![first] + rest =~= ns);
    }
}

/// Signed integers that were written are read back.
pub proof fn lemma_read_back_ints(s: Seq<u8>, pos: int, end: int, xs: Seq<i64>)
    requires
        placed(s, pos, end, enc_ints(xs)),
    ensures
        dec_ints(s, pos, end, xs.len()) == Ok::<(Seq<i64>, int), DecodeError>(
            (xs, pos + enc_ints(xs).len()),
        ),
    decreases xs.len(),
{
    if xs.len() == 0 {
        assert(xs =~= Seq::empty());
    } else {
        let first = xs.first();
        let rest = xs.drop_first();
        lemma_int_sizes();
        lemma_placed_split(s, pos, end, enc_i64(first), enc_ints(rest));
        lemma_read_back_u64(s, pos, end, first as u64);
        assert((first as u64) as i64 == first) by (bit_vector);
        lemma_read_back_ints(s, pos + 8, end, rest);
        assert(seq![first] + rest =~= xs);
    }
}

/// Floats that were written are read back, bit for bit.
pub proof fn lemma_read_back_floats(s: Seq<u8>, pos: int, end: int, xs: Seq<u64>)
    requires
        placed(s, pos, end, enc_floats(xs)),
    ensures
        dec_floats(s, pos, end, xs.len()) == Ok::<(Seq<u64>, int), DecodeError>(
            (xs, pos + enc_floats(xs).len()),
        ),
    decreases xs.len(),
{
    if xs.len() == 0 {
        assert(xs =~= Seq::empty());
    } else {
        let first = xs.first();
        let rest = xs.drop_first();
        lemma_int_sizes();
        lemma_placed_split(s, pos, end, spec_u64_to_le_bytes(first), enc_floats(rest));
        lemma_read_back_u64(s, pos, end, first);
        lemma_read_back_floats(s, pos + 8, end, rest);
        assert(seq![first] + rest =~= xs);
    }
}

/// Booleans that were written are read back.
pub proof fn lemma_read_back_bools(s: Seq<u8>, pos: int, end: int, xs: Seq<bool>)
    requires
        placed(s, pos, end, enc_bools(xs)),
    ensures
        dec_bools(s, pos, end, xs.len()) == Ok::<(Seq<bool>, int), DecodeError>(
            (xs, pos + enc_bools(xs).len()),
        ),
    decreases xs.len(),
{
    if xs.len() == 0 {
        assert(xs =~= Seq::empty());
    } else {
        let first = xs.first();
        let rest = xs.drop_first();
        lemma_placed_split(s, pos, end, seq![enc_bool(first)], enc_bools(rest));
        assert(s.subrange(pos, pos + 1)[0] == enc_bool(first));
        lemma_read_back_bools(s, pos + 1, end, rest);
        assert(seq![first] + rest =~= xs);
    }
}

/// A constant pool that was written is read back into a pool that held
/// nothing.
pub proof fn lemma_read_back_pool(s: Seq<u8>, pos: int, end: int, c: ConstantPoolView)
    requires
        pool_fits(c),
        placed(s, pos, end, enc_pool(c)),
    ensures
        dec_pool(
            s,
            pos,
            end,
            ConstantPoolView {
                integers: Seq::empty(),
                floats: Seq::empty(),
                strings: Seq::empty(),
                booleans: Seq::empty(),
            },
        ) == Ok::<ConstantPoolView, DecodeError>(c),
{
    let a = spec_u32_to_le_bytes(c.integers.len() as u32);
    let b = enc_ints(c.integers);
    let d = spec_u32_to_le_bytes(c.floats.len() as u32);
    let e = enc_floats(c.floats);
    let f = spec_u32_to_le_bytes(c.strings.len() as u32);
    let g = enc_texts(c.strings);
    let h = spec_u32_to_le_bytes(c.booleans.len() as u32);
    let k = enc_bools(c.booleans);
    lemma_int_sizes();
    lemma_placed_split(s, pos, end, a + b + d + e + f + g + h, k);
    lemma_placed_split(s, pos, end, a + b + d + e + f + g, h);
    lemma_placed_split(s, pos, end, a + b + d + e + f, g);
    lemma_placed_split(s, pos, end, a + b + d + e, f);
    lemma_placed_split(s, pos, end, a + b + d, e);
    lemma_placed_split(s, pos, end, a + b, d);
    lemma_placed_split(s, pos, end, a, b);
    lemma_read_back_u32(s, pos, end, c.integers.len() as u32);
    lemma_read_back_ints(s, pos + 4, end, c.integers);
    let p1 = pos + 4 + b.len();
    lemma_read_back_u32(s, p1, end, c.floats.len() as u32);
    lemma_read_back_floats(s, p1 + 4, end, c.floats);
    let p2 = p1 + 4 + e.len();
    lemma_read_back_u32(s, p2, end, c.strings.len() as u32);
    lemma_read_back_texts(s, p2 + 4, end, c.strings);
    let p3 = p2 + 4 + g.len();
    lemma_read_back_u32(s, p3, end, c.booleans.len() as u32);
    lemma_read_back_bools(s, p3 + 4, end, c.booleans);
    assert(Seq::<i64>::empty() + c.integers =~= c.integers);
    assert(Seq::<u64>::empty() + c.floats =~= c.floats);
    assert(Seq::<Seq<char>>::empty() + c.strings =~= c.strings);
    assert(Seq::<bool>::empty() + c.booleans =~= c.booleans);
}

/// The three chunk tags differ from one another.
pub proof fn lemma_tags_differ()
    ensures
        TAG_META@.len() == 4,
        TAG_IMPL@.len() == 4,
        TAG_CNST@.len() == 4,
        TAG_META@ != TAG_IMPL@,
        TAG_META@ != TAG_CNST@,
        TAG_IMPL@ != TAG_CNST@,
{
    assert(TAG_META@[0] == 0x4D);
    assert(TAG_IMPL@[0] == 0x49);
    assert(TAG_CNST@[0] == 0x43);
}

/// Where a chunk stands, its header and its payload stand.
proof fn lemma_chunk_parts(s: Seq<u8>, pos: int, tag: Seq<u8>, payload: Seq<u8>)
    requires
        tag.len() == 4,
        payload.len() <= u32::MAX,
        placed(s, pos, s.len() as int, enc_chunk(tag, payload)),
    ensures
        dec_chunk_header(s, pos) == Some(header_for(tag, payload)),
        header_for(tag, payload).size == payload.len(),
        placed(s, pos + 16, pos + 16 + payload.len(), payload),
        placed(s, pos + 16, s.len() as int, payload),
        enc_chunk(tag, payload).len() == 16 + payload.len(),
{
    let size = spec_u32_to_le_bytes(payload.len() as u32);
    let zero = spec_u32_to_le_bytes(0);
    let end = s.len() as int;
    lemma_int_sizes();
    lemma_placed_split(s, pos, end, tag + size + zero + zero, payload);
    lemma_placed_split(s, pos, end, tag + size + zero, zero);
    lemma_placed_split(s, pos, end, tag + size, zero);
    lemma_placed_split(s, pos, end, tag, size);
    lemma_read_back_u32(s, pos + 4, end, payload.len() as u32);
    lemma_read_back_u32(s, pos + 8, end, 0);
    lemma_read_back_u32(s, pos + 12, end, 0);
}

/// A metadata chunk that was written is read back.
pub proof fn lemma_read_back_meta_chunk(s: Seq<u8>, pos: int, prog: ProgramView, m: MetadataView)
    requires
        meta_fits(m),
        placed(s, pos, s.len() as int, enc_chunk(TAG_META@, enc_meta(m))),
        prog.metadata == (MetadataView {
            entry_point: 0,
            required_capabilities: Seq::empty(),
            traits: Seq::empty(),
        }),
    ensures
        dec_chunk(s, pos, prog) == Ok::<(ProgramView, int), DecodeError>(
            (ProgramView { metadata: m, ..prog }, pos + enc_chunk(TAG_META@, enc_meta(m)).len()),
        ),
{
    lemma_tags_differ();
    lemma_chunk_parts(s, pos, TAG_META@, enc_meta(m));
    lemma_read_back_meta(s, pos + 16, pos + 16 + enc_meta(m).len(), m);
}

/// A chunk of node records that was written is read back.
pub proof fn lemma_read_back_impl_chunk(s: Seq<u8>, pos: int, prog: ProgramView, ns: Seq<NodeView>)
    requires
        ns.len() * 29 <= u32::MAX,
        forall|i: int| 0 <= i < ns.len() ==> (#[trigger] ns[i]).args.len() == 3,
        placed(s, pos, s.len() as int, enc_chunk(TAG_IMPL@, enc_nodes(ns))),
        prog.nodes == Seq::<NodeView>::empty(),
    ensures
        dec_chunk(s, pos, prog) == Ok::<(ProgramView, int), DecodeError>(
            (ProgramView { nodes: ns, ..prog }, pos + enc_chunk(TAG_IMPL@, enc_nodes(ns)).len()),
        ),
{
    lemma_tags_differ();
    lemma_nodes_len(ns);
    lemma_chunk_parts(s, pos, TAG_IMPL@, enc_nodes(ns));
    lemma_read_back_nodes(s, pos + 16, s.len() as int, ns);
    assert((ns.len() * 29) / 29 == ns.len());
    assert(Seq::<NodeView>::empty() + ns =~= ns);
}

/// A constant pool chunk that was written is read back.
pub proof fn lemma_read_back_pool_chunk(
    s: Seq<u8>,
    pos: int,
    prog: ProgramView,
    c: ConstantPoolView,
)
    requires
        pool_fits(c),
        placed(s, pos, s.len() as int, enc_chunk(TAG_CNST@, enc_pool(c))),
        prog.constants == (ConstantPoolView {
            integers: Seq::empty(),
            floats: Seq::empty(),
            strings: Seq::empty(),
            booleans: Seq::empty(),
        }),
    ensures
        dec_chunk(s, pos, prog) == Ok::<(ProgramView, int), DecodeError>(
            (ProgramView { constants: c, ..prog }, pos + enc_chunk(TAG_CNST@, enc_pool(c)).len()),
        ),
{
    lemma_tags_differ();
    lemma_chunk_parts(s, pos, TAG_CNST@, enc_pool(c));
    lemma_read_back_pool(s, pos + 16, pos + 16 + enc_pool(c).len(), c);
}

/// Writing a program and reading the bytes back gives the program: every
/// field of the header, the nodes with all three operand slots, the four
/// kinds of constants, the entry point, the capabilities and the trait
/// annotations. It holds of a program that can be written, whose header
/// carries the magic bytes and announces the three chunks that are written,
/// whatever bytes follow the container.
pub proof fn lemma_read_back_program(program: Program, tail: Seq<u8>)
    requires
        encodable(program@),
        program@.header.magic == DER_MAGIC@,
        program@.header.chunk_count == 3,
    ensures
        dec_program(enc_program(program@) + tail, 0) == Ok::<(ProgramView, int), DecodeError>(
            (program@, enc_program(program@).len() as int),
        ),
{
    let p = program@;
    let h = enc_header(p.header);
    let a = enc_chunk(TAG_META@, enc_meta(p.metadata));
    let b = enc_chunk(TAG_IMPL@, enc_nodes(p.nodes));
    let c = enc_chunk(TAG_CNST@, enc_pool(p.constants));
    let s = enc_program(p) + tail;
    let end = s.len() as int;
    lemma_int_sizes();
    assert(s.subrange(0, enc_program(p).len() as int) =~= enc_program(p));
    lemma_placed_split(s, 0, end, h + a + b, c);
    lemma_placed_split(s, 0, end, h + a, b);
    lemma_placed_split(s, 0, end, h, a);
    assert(p.header.magic.len() == 4);
    assert(p.header.reserved.len() == 4);
    assert(h.len() == 16);
    // the header
    let version = spec_u16_to_le_bytes(p.header.version);
    let flags = spec_u16_to_le_bytes(p.header.flags);
    let count = spec_u32_to_le_bytes(p.header.chunk_count);
    lemma_placed_split(s, 0, end, p.header.magic + version + flags + count, p.header.reserved);
    lemma_placed_split(s, 0, end, p.header.magic + version + flags, count);
    lemma_placed_split(s, 0, end, p.header.magic + version, flags);
    lemma_placed_split(s, 0, end, p.header.magic, version);
    lemma_read_back_u16(s, 4, end, p.header.version);
    lemma_read_back_u16(s, 6, end, p.header.flags);
    lemma_read_back_u32(s, 8, end, p.header.chunk_count);
    assert(dec_header(s, 0) == Some(p.header));
    // the chunks
    let p0 = empty_program(p.header);
    let p1 = ProgramView { metadata: p.metadata, ..p0 };
    let p2 = ProgramView { nodes: p.nodes, ..p1 };
    let p3 = ProgramView { constants: p.constants, ..p2 };
    assert forall|i: int| 0 <= i < p.nodes.len() implies (#[trigger] p.nodes[i]).args.len()
        == 3 by {
        assert(p.nodes[i] == program.nodes@[i]@);
    }
    let q1: int = 16 + a.len() as int;
    let q2: int = q1 + b.len() as int;
    let q3: int = q2 + c.len() as int;
    lemma_read_back_meta_chunk(s, 16, p0, p.metadata);
    lemma_read_back_impl_chunk(s, q1, p1, p.nodes);
    lemma_read_back_pool_chunk(s, q2, p2, p.constants);
    assert(p3 == p);
    assert(dec_chunks(s, q3, p3, 0) == Ok::<(ProgramView, int), DecodeError>((p3, q3)));
    assert(dec_chunks(s, q2, p2, 1) == dec_chunks(s, q3, p3, 0));
    assert(dec_chunks(s, q1, p1, 2) == dec_chunks(s, q2, p2, 1));
    assert(dec_chunks(s, 16, p0, 3) == dec_chunks(s, q1, p1, 2));
}

/// Bytes that do not open with the magic are refused as such, and never as
/// truncated: what is too short to hold a file header is truncated, and what
/// holds one with other magic bytes has bad magic.
pub proof fn lemma_bad_magic_is_not_truncated(s: Seq<u8>)
    ensures
        s.len() < 16 ==> dec_program(s, 0) == Err::<(ProgramView, int), DecodeError>(
            DecodeError::Truncated,
        ),
        s.len() >= 16 && s.subrange(0, 4) != DER_MAGIC@ ==> dec_program(s, 0) == Err::<
            (ProgramView, int),
            DecodeError,
        >(DecodeError::BadMagic),
{
}

} // verus!

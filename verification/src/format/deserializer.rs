//! Reading a container back into a program.

use crate::format::binary_format::{
    Capability, ChunkHeader, ConstantPool, ConstantPoolView, FileHeader, MetadataView, Node, NodeView, Program,
    Trait, TraitView, DER_MAGIC,
};
use crate::format::bytes::{
    copy_range, le_read_i64, le_read_u16, le_read_u32, le_read_u64, text_from_utf8,
};
use crate::format::wire::{
    capability_of, dec_bools, dec_caps, dec_chunk, dec_chunk_header, dec_chunks, dec_floats, dec_header, dec_ints,
    dec_meta, dec_node, dec_nodes, dec_pool, dec_program, dec_text, dec_text_list, dec_texts,
    dec_trait, dec_traits, dec_u16, dec_u32, dec_u64, empty_program, extend, lemma_extend_ends, lemma_extend_step, DecodeError, HEADER_SIZE, NODE_WIRE_SIZE,
    TAG_CNST, TAG_IMPL, TAG_META,
};
use vstd::prelude::*;
use vstd::slice::slice_subrange;

verus! {

/// The 16-bit integer at `pos`, if two bytes can be read there.
fn read_u16(buf: &[u8], pos: usize, end: usize) -> (r: Option<u16>)
    requires
        pos <= end <= buf@.len(),
    ensures
        r == dec_u16(buf@, pos as int, end as int),
{
    if end - pos < 2 {
        None
    } else {
        let field = slice_subrange(buf, pos, pos + 2);
        assert(field@.subrange(0, 2) =~= field@);
        Some(le_read_u16(field))
    }
}

/// The 32-bit integer at `pos`, if four bytes can be read there.
fn read_u32(buf: &[u8], pos: usize, end: usize) -> (r: Option<u32>)
    requires
        pos <= end <= buf@.len(),
    ensures
        r == dec_u32(buf@, pos as int, end as int),
{
    if end - pos < 4 {
        None
    } else {
        let field = slice_subrange(buf, pos, pos + 4);
        assert(field@.subrange(0, 4) =~= field@);
        Some(le_read_u32(field))
    }
}

/// The 64-bit integer at `pos`, if eight bytes can be read there.
fn read_u64(buf: &[u8], pos: usize, end: usize) -> (r: Option<u64>)
    requires
        pos <= end <= buf@.len(),
    ensures
        r == dec_u64(buf@, pos as int, end as int),
{
    if end - pos < 8 {
        None
    } else {
        let field = slice_subrange(buf, pos, pos + 8);
        assert(field@.subrange(0, 8) =~= field@);
        Some(le_read_u64(field))
    }
}

/// The string at `pos`, and the position behind it.
fn read_text(buf: &[u8], pos: usize, end: usize) -> (r: Result<(String, usize), DecodeError>)
    requires
        pos <= end <= buf@.len(),
    ensures
        match dec_text(buf@, pos as int, end as int) {
            Ok((t, fin)) => r matches Ok((text, next)) && text@ == t && next == fin && pos <= next
                <= end,
            Err(e) => r matches Err(x) && x == e,
        },
{
    match read_u32(buf, pos, end) {
        None => Err(DecodeError::Truncated),
        Some(len) => {
            let len = len as usize;
            if end - (pos + 4) < len {
                Err(DecodeError::Truncated)
            } else {
                let raw = copy_range(buf, pos + 4, pos + 4 + len);
                match text_from_utf8(raw) {
                    Some(text) => Ok((text, pos + 4 + len)),
                    None => Err(DecodeError::InvalidUtf8),
                }
            }
        },
    }
}

/// The `count` strings that start at `pos`, and the position behind them.
fn read_texts(buf: &[u8], pos: usize, end: usize, count: u32) -> (r: Result<
    (Vec<String>, usize),
    DecodeError,
>)
    requires
        pos <= end <= buf@.len(),
    ensures
        match dec_texts(buf@, pos as int, end as int, count as nat) {
            Ok((ts, fin)) => r matches Ok((texts, next)) && texts.deep_view() == ts && next == fin
                && pos <= next <= end,
            Err(e) => r matches Err(x) && x == e,
        },
{
    let ghost whole = dec_texts(buf@, pos as int, end as int, count as nat);
    let mut out: Vec<String> = Vec::new();
    let mut cur: usize = pos;
    let mut i: u32 = 0;
    proof {
        assert(out.deep_view() =~= Seq::<Seq<char>>::empty());
        lemma_extend_ends(Seq::<Seq<char>>::empty(), whole, 0);
    }
    while i < count
        invariant
            i <= count,
            pos <= cur <= end <= buf@.len(),
            whole == dec_texts(buf@, pos as int, end as int, count as nat),
            whole == extend(
                out.deep_view(),
                dec_texts(buf@, cur as int, end as int, (count - i) as nat),
            ),
        decreases count - i,
    {
        match read_text(buf, cur, end) {
            Err(e) => {
                assert(dec_texts(buf@, cur as int, end as int, (count - i) as nat) == Err::<
                    (Seq<Seq<char>>, int),
                    DecodeError,
                >(e));
                return Err(e);
            },
            Ok((text, next)) => {
                proof {
                    lemma_extend_step(
                        out.deep_view(),
                        text@,
                        dec_texts(buf@, next as int, end as int, (count - i - 1) as nat),
                    );
                }
                let ghost before = out.deep_view();
                out.push(text);
                assert(out.deep_view() =~= before.push(text@));
                cur = next;
                i += 1;
            },
        }
    }
    proof {
        lemma_extend_ends(out.deep_view(), whole, cur as int);
    }
    Ok((out, cur))
}

/// The list of strings at `pos`: a count, then that many strings.
fn read_text_list(buf: &[u8], pos: usize, end: usize) -> (r: Result<
    (Vec<String>, usize),
    DecodeError,
>)
    requires
        pos <= end <= buf@.len(),
    ensures
        match dec_text_list(buf@, pos as int, end as int) {
            Ok((ts, fin)) => r matches Ok((texts, next)) && texts.deep_view() == ts && next == fin
                && pos <= next <= end,
            Err(e) => r matches Err(x) && x == e,
        },
{
    match read_u32(buf, pos, end) {
        None => Err(DecodeError::Truncated),
        Some(count) => read_texts(buf, pos + 4, end, count),
    }
}

/// The capability that travels under `id`, if there is one.
fn capability_from_id(id: u32) -> (cap: Option<Capability>)
    ensures
        cap == capability_of(id),
{
    match id {
        1 => Some(Capability::FileSystem),
        2 => Some(Capability::Network),
        3 => Some(Capability::Process),
        4 => Some(Capability::UI),
        5 => Some(Capability::ExternalCode),
        _ => None,
    }
}

/// What `count` capability numbers from `pos` on stand for, and the position
/// behind them.
fn read_caps(buf: &[u8], pos: usize, end: usize, count: u32) -> (r: Result<
    (Vec<Capability>, usize),
    DecodeError,
>)
    requires
        pos <= end <= buf@.len(),
    ensures
        match dec_caps(buf@, pos as int, end as int, count as nat) {
            Ok((cs, fin)) => r matches Ok((caps, next)) && caps@ == cs && next == fin && pos <= next
                <= end,
            Err(e) => r matches Err(x) && x == e,
        },
{
    let ghost whole = dec_caps(buf@, pos as int, end as int, count as nat);
    let mut out: Vec<Capability> = Vec::new();
    let mut cur: usize = pos;
    let mut i: u32 = 0;
    proof {
        lemma_extend_ends(Seq::<Capability>::empty(), whole, 0);
    }
    while i < count
        invariant
            i <= count,
            pos <= cur <= end <= buf@.len(),
            whole == dec_caps(buf@, pos as int, end as int, count as nat),
            whole == extend(out@, dec_caps(buf@, cur as int, end as int, (count - i) as nat)),
        decreases count - i,
    {
        match read_u32(buf, cur, end) {
            None => {
                assert(dec_caps(buf@, cur as int, end as int, (count - i) as nat) == Err::<
                    (Seq<Capability>, int),
                    DecodeError,
                >(DecodeError::Truncated));
                return Err(DecodeError::Truncated);
            },
            Some(id) => {
                match capability_from_id(id) {
                    Some(cap) => {
                        proof {
                            lemma_extend_step(
                                out@,
                                cap,
                                dec_caps(buf@, cur + 4, end as int, (count - i - 1) as nat),
                            );
                        }
                        out.push(cap);
                    },
                    None => {},
                }
                cur = cur + 4;
                i += 1;
            },
        }
    }
    proof {
        lemma_extend_ends(out@, whole, cur as int);
    }
    Ok((out, cur))
}

/// The trait annotation at `pos`, and the position behind it.
fn read_trait(buf: &[u8], pos: usize, end: usize) -> (r: Result<(Trait, usize), DecodeError>)
    requires
        pos <= end <= buf@.len(),
    ensures
        match dec_trait(buf@, pos as int, end as int) {
            Ok((t, fin)) => r matches Ok((annotation, next)) && annotation@ == t && next == fin
                && pos <= next <= end,
            Err(e) => r matches Err(x) && x == e,
        },
{
    let (name, p1) = match read_text(buf, pos, end) {
        Err(e) => {
            return Err(e);
        },
        Ok(found) => found,
    };
    let (preconditions, p2) = match read_text_list(buf, p1, end) {
        Err(e) => {
            return Err(e);
        },
        Ok(found) => found,
    };
    let (postconditions, p3) = match read_text_list(buf, p2, end) {
        Err(e) => {
            return Err(e);
        },
        Ok(found) => found,
    };
    Ok((Trait { name, preconditions, postconditions }, p3))
}

/// The `count` trait annotations that start at `pos`, and the position
/// behind them.
fn read_traits(buf: &[u8], pos: usize, end: usize, count: u32) -> (r: Result<
    (Vec<Trait>, usize),
    DecodeError,
>)
    requires
        pos <= end <= buf@.len(),
    ensures
        match dec_traits(buf@, pos as int, end as int, count as nat) {
            Ok((ts, fin)) => r matches Ok((traits, next)) && traits.deep_view() == ts && next == fin
                && pos <= next <= end,
            Err(e) => r matches Err(x) && x == e,
        },
{
    let ghost whole = dec_traits(buf@, pos as int, end as int, count as nat);
    let mut out: Vec<Trait> = Vec::new();
    let mut cur: usize = pos;
    let mut i: u32 = 0;
    proof {
        assert(out.deep_view() =~= Seq::empty());
        lemma_extend_ends(Seq::empty(), whole, 0);
    }
    while i < count
        invariant
            i <= count,
            pos <= cur <= end <= buf@.len(),
            whole == dec_traits(buf@, pos as int, end as int, count as nat),
            whole == extend(
                out.deep_view(),
                dec_traits(buf@, cur as int, end as int, (count - i) as nat),
            ),
        decreases count - i,
    {
        match read_trait(buf, cur, end) {
            Err(e) => {
                assert(dec_traits(buf@, cur as int, end as int, (count - i) as nat) == Err::<
                    (Seq<TraitView>, int),
                    DecodeError,
                >(e));
                return Err(e);
            },
            Ok((annotation, next)) => {
                proof {
                    lemma_extend_step(
                        out.deep_view(),
                        annotation@,
                        dec_traits(buf@, next as int, end as int, (count - i - 1) as nat),
                    );
                }
                let ghost before = out.deep_view();
                out.push(annotation);
                assert(out.deep_view() =~= before.push(annotation@));
                cur = next;
                i += 1;
            },
        }
    }
    proof {
        lemma_extend_ends(out.deep_view(), whole, cur as int);
    }
    Ok((out, cur))
}

/// What a metadata payload between `pos` and `end` holds: the entry point,
/// the capabilities and the trait annotations.
fn read_metadata_chunk(buf: &[u8], pos: usize, end: usize) -> (r: Result<
    (u32, Vec<Capability>, Vec<Trait>),
    DecodeError,
>)
    requires
        pos <= end <= buf@.len(),
    ensures
        forall|base: MetadataView|
            match #[trigger] dec_meta(buf@, pos as int, end as int, base) {
                Ok(m) => r matches Ok((entry_point, caps, traits)) && m == (MetadataView {
                    entry_point,
                    required_capabilities: base.required_capabilities + caps@,
                    traits: base.traits + traits.deep_view(),
                }),
                Err(e) => r matches Err(x) && x == e,
            },
{
    let entry_point = match read_u32(buf, pos, end) {
        None => {
            return Err(DecodeError::Truncated);
        },
        Some(v) => v,
    };
    let cap_count = match read_u32(buf, pos + 4, end) {
        None => {
            return Err(DecodeError::Truncated);
        },
        Some(v) => v,
    };
    let (caps, p1) = match read_caps(buf, pos + 8, end, cap_count) {
        Err(e) => {
            return Err(e);
        },
        Ok(found) => found,
    };
    let trait_count = match read_u32(buf, p1, end) {
        None => {
            return Err(DecodeError::Truncated);
        },
        Some(v) => v,
    };
    let (traits, _) = match read_traits(buf, p1 + 4, end, trait_count) {
        Err(e) => {
            return Err(e);
        },
        Ok(found) => found,
    };
    Ok((entry_point, caps, traits))
}

/// The node record at `pos`, and the position behind it.
fn read_node(buf: &[u8], pos: usize, end: usize) -> (r: Result<(Node, usize), DecodeError>)
    requires
        pos <= end <= buf@.len(),
    ensures
        match dec_node(buf@, pos as int, end as int) {
            Ok((n, fin)) => r matches Ok((node, next)) && node@ == n && next == fin && pos <= next
                <= end,
            Err(e) => r matches Err(x) && x == e,
        },
{
    if end - pos < NODE_WIRE_SIZE {
        return Err(DecodeError::Truncated);
    }
    let opcode = le_read_u16(slice_subrange(buf, pos, pos + 2));
    let flags = le_read_u16(slice_subrange(buf, pos + 2, pos + 4));
    let result_id = le_read_u32(slice_subrange(buf, pos + 4, pos + 8));
    let timestamp = le_read_u64(slice_subrange(buf, pos + 8, pos + 16));
    let arg_count = buf[pos + 16];
    let a0 = le_read_u32(slice_subrange(buf, pos + 17, pos + 21));
    let a1 = le_read_u32(slice_subrange(buf, pos + 21, pos + 25));
    let a2 = le_read_u32(slice_subrange(buf, pos + 25, pos + 29));
    let node = Node { opcode, flags, result_id, timestamp, arg_count, args: [a0, a1, a2] };
    proof {
        let s = buf@;
        let p = pos as int;
        assert(s.subrange(p, p + 2).subrange(0, 2) =~= s.subrange(p, p + 2));
        assert(s.subrange(p + 2, p + 4).subrange(0, 2) =~= s.subrange(p + 2, p + 4));
        assert(s.subrange(p + 4, p + 8).subrange(0, 4) =~= s.subrange(p + 4, p + 8));
        assert(s.subrange(p + 8, p + 16).subrange(0, 8) =~= s.subrange(p + 8, p + 16));
        assert(s.subrange(p + 17, p + 21).subrange(0, 4) =~= s.subrange(p + 17, p + 21));
        assert(s.subrange(p + 21, p + 25).subrange(0, 4) =~= s.subrange(p + 21, p + 25));
        assert(s.subrange(p + 25, p + 29).subrange(0, 4) =~= s.subrange(p + 25, p + 29));
        assert(node@.args =~= seq![a0, a1, a2]);
    }
    Ok((node, pos + NODE_WIRE_SIZE))
}

/// The `count` node records that start at `pos`, and the position behind
/// them.
fn read_impl_chunk(buf: &[u8], pos: usize, end: usize, count: u32) -> (r: Result<
    (Vec<Node>, usize),
    DecodeError,
>)
    requires
        pos <= end <= buf@.len(),
    ensures
        match dec_nodes(buf@, pos as int, end as int, count as nat) {
            Ok((ns, fin)) => r matches Ok((nodes, next)) && nodes.deep_view() == ns && next == fin
                && pos <= next <= end,
            Err(e) => r matches Err(x) && x == e,
        },
{
    let ghost whole = dec_nodes(buf@, pos as int, end as int, count as nat);
    let mut out: Vec<Node> = Vec::new();
    let mut cur: usize = pos;
    let mut i: u32 = 0;
    proof {
        assert(out.deep_view() =~= Seq::empty());
        lemma_extend_ends(Seq::empty(), whole, 0);
    }
    while i < count
        invariant
            i <= count,
            pos <= cur <= end <= buf@.len(),
            whole == dec_nodes(buf@, pos as int, end as int, count as nat),
            whole == extend(
                out.deep_view(),
                dec_nodes(buf@, cur as int, end as int, (count - i) as nat),
            ),
        decreases count - i,
    {
        match read_node(buf, cur, end) {
            Err(e) => {
                assert(dec_nodes(buf@, cur as int, end as int, (count - i) as nat) == Err::<
                    (Seq<NodeView>, int),
                    DecodeError,
                >(e));
                return Err(e);
            },
            Ok((node, next)) => {
                proof {
                    lemma_extend_step(
                        out.deep_view(),
                        node@,
                        dec_nodes(buf@, next as int, end as int, (count - i - 1) as nat),
                    );
                }
                let ghost before = out.deep_view();
                out.push(node);
                assert(out.deep_view() =~= before.push(node@));
                cur = next;
                i += 1;
            },
        }
    }
    proof {
        lemma_extend_ends(out.deep_view(), whole, cur as int);
    }
    Ok((out, cur))
}

/// The `count` signed integers that start at `pos`, and the position behind
/// them.
fn read_ints(buf: &[u8], pos: usize, end: usize, count: u32) -> (r: Result<
    (Vec<i64>, usize),
    DecodeError,
>)
    requires
        pos <= end <= buf@.len(),
    ensures
        match dec_ints(buf@, pos as int, end as int, count as nat) {
            Ok((xs, fin)) => r matches Ok((values, next)) && values@ == xs && next == fin && pos
                <= next <= end,
            Err(e) => r matches Err(x) && x == e,
        },
{
    let ghost whole = dec_ints(buf@, pos as int, end as int, count as nat);
    let mut out: Vec<i64> = Vec::new();
    let mut cur: usize = pos;
    let mut i: u32 = 0;
    proof {
        lemma_extend_ends(Seq::<i64>::empty(), whole, 0);
    }
    while i < count
        invariant
            i <= count,
            pos <= cur <= end <= buf@.len(),
            whole == dec_ints(buf@, pos as int, end as int, count as nat),
            whole == extend(out@, dec_ints(buf@, cur as int, end as int, (count - i) as nat)),
        decreases count - i,
    {
        if end - cur < 8 {
            assert(dec_ints(buf@, cur as int, end as int, (count - i) as nat) == Err::<
                (Seq<i64>, int),
                DecodeError,
            >(DecodeError::Truncated));
            return Err(DecodeError::Truncated);
        }
        let field = slice_subrange(buf, cur, cur + 8);
        assert(field@.subrange(0, 8) =~= field@);
        let value = le_read_i64(field);
        proof {
            lemma_extend_step(
                out@,
                value,
                dec_ints(buf@, cur + 8, end as int, (count - i - 1) as nat),
            );
        }
        out.push(value);
        cur = cur + 8;
        i += 1;
    }
    proof {
        lemma_extend_ends(out@, whole, cur as int);
    }
    Ok((out, cur))
}

/// The bits of the `count` floats that start at `pos`, and the position
/// behind them.
fn read_floats(buf: &[u8], pos: usize, end: usize, count: u32) -> (r: Result<
    (Vec<u64>, usize),
    DecodeError,
>)
    requires
        pos <= end <= buf@.len(),
    ensures
        match dec_floats(buf@, pos as int, end as int, count as nat) {
            Ok((xs, fin)) => r matches Ok((values, next)) && values@ == xs && next == fin && pos
                <= next <= end,
            Err(e) => r matches Err(x) && x == e,
        },
{
    let ghost whole = dec_floats(buf@, pos as int, end as int, count as nat);
    let mut out: Vec<u64> = Vec::new();
    let mut cur: usize = pos;
    let mut i: u32 = 0;
    proof {
        lemma_extend_ends(Seq::<u64>::empty(), whole, 0);
    }
    while i < count
        invariant
            i <= count,
            pos <= cur <= end <= buf@.len(),
            whole == dec_floats(buf@, pos as int, end as int, count as nat),
            whole == extend(out@, dec_floats(buf@, cur as int, end as int, (count - i) as nat)),
        decreases count - i,
    {
        match read_u64(buf, cur, end) {
            None => {
                assert(dec_floats(buf@, cur as int, end as int, (count - i) as nat) == Err::<
                    (Seq<u64>, int),
                    DecodeError,
                >(DecodeError::Truncated));
                return Err(DecodeError::Truncated);
            },
            Some(bits) => {
                proof {
                    lemma_extend_step(
                        out@,
                        bits,
                        dec_floats(buf@, cur + 8, end as int, (count - i - 1) as nat),
                    );
                }
                out.push(bits);
                cur = cur + 8;
                i += 1;
            },
        }
    }
    proof {
        lemma_extend_ends(out@, whole, cur as int);
    }
    Ok((out, cur))
}

/// The `count` booleans that start at `pos`, and the position behind them.
fn read_bools(buf: &[u8], pos: usize, end: usize, count: u32) -> (r: Result<
    (Vec<bool>, usize),
    DecodeError,
>)
    requires
        pos <= end <= buf@.len(),
    ensures
        match dec_bools(buf@, pos as int, end as int, count as nat) {
            Ok((xs, fin)) => r matches Ok((values, next)) && values@ == xs && next == fin && pos
                <= next <= end,
            Err(e) => r matches Err(x) && x == e,
        },
{
    let ghost whole = dec_bools(buf@, pos as int, end as int, count as nat);
    let mut out: Vec<bool> = Vec::new();
    let mut cur: usize = pos;
    let mut i: u32 = 0;
    proof {
        lemma_extend_ends(Seq::<bool>::empty(), whole, 0);
    }
    while i < count
        invariant
            i <= count,
            pos <= cur <= end <= buf@.len(),
            whole == dec_bools(buf@, pos as int, end as int, count as nat),
            whole == extend(out@, dec_bools(buf@, cur as int, end as int, (count - i) as nat)),
        decreases count - i,
    {
        if end - cur < 1 {
            assert(dec_bools(buf@, cur as int, end as int, (count - i) as nat) == Err::<
                (Seq<bool>, int),
                DecodeError,
            >(DecodeError::Truncated));
            return Err(DecodeError::Truncated);
        }
        let value = buf[cur] != 0;
        proof {
            lemma_extend_step(
                out@,
                value,
                dec_bools(buf@, cur + 1, end as int, (count - i - 1) as nat),
            );
        }
        out.push(value);
        cur = cur + 1;
        i += 1;
    }
    proof {
        lemma_extend_ends(out@, whole, cur as int);
    }
    Ok((out, cur))
}

/// What a constant pool payload between `pos` and `end` holds.
fn read_const_chunk(buf: &[u8], pos: usize, end: usize) -> (r: Result<ConstantPool, DecodeError>)
    requires
        pos <= end <= buf@.len(),
    ensures
        forall|base: ConstantPoolView|
            match #[trigger] dec_pool(buf@, pos as int, end as int, base) {
                Ok(c) => r matches Ok(pool) && c == (ConstantPoolView {
                    integers: base.integers + pool@.integers,
                    floats: base.floats + pool@.floats,
                    strings: base.strings + pool@.strings,
                    booleans: base.booleans + pool@.booleans,
                }),
                Err(e) => r matches Err(x) && x == e,
            },
{
    let int_count = match read_u32(buf, pos, end) {
        None => {
            return Err(DecodeError::Truncated);
        },
        Some(v) => v,
    };
    let (integers, p1) = match read_ints(buf, pos + 4, end, int_count) {
        Err(e) => {
            return Err(e);
        },
        Ok(found) => found,
    };
    let float_count = match read_u32(buf, p1, end) {
        None => {
            return Err(DecodeError::Truncated);
        },
        Some(v) => v,
    };
    let (floats, p2) = match read_floats(buf, p1 + 4, end, float_count) {
        Err(e) => {
            return Err(e);
        },
        Ok(found) => found,
    };
    let (strings, p3) = match read_text_list(buf, p2, end) {
        Err(e) => {
            return Err(e);
        },
        Ok(found) => found,
    };
    let bool_count = match read_u32(buf, p3, end) {
        None => {
            return Err(DecodeError::Truncated);
        },
        Some(v) => v,
    };
    let (booleans, _) = match read_bools(buf, p3 + 4, end, bool_count) {
        Err(e) => {
            return Err(e);
        },
        Ok(found) => found,
    };
    Ok(ConstantPool { integers, floats, strings, booleans })
}

/// Whether the four bytes at `pos` are those of `tag`.
fn tag_matches(buf: &[u8], pos: usize, tag: [u8; 4]) -> (same: bool)
    requires
        pos + 4 <= buf@.len(),
    ensures
        same == (buf@.subrange(pos as int, pos + 4) == tag@),
{
    let same = buf[pos] == tag[0] && buf[pos + 1] == tag[1] && buf[pos + 2] == tag[2] && buf[pos
        + 3] == tag[3];
    proof {
        let field = buf@.subrange(pos as int, pos + 4);
        assert(field[0] == buf@[pos as int] && field[1] == buf@[pos + 1] && field[2] == buf@[pos
            + 2] && field[3] == buf@[pos + 3]);
        if same {
            assert(field =~= tag@);
        }
    }
    same
}

/// The chunk header at `pos`, if sixteen bytes can be read there.
fn read_chunk_header(buf: &[u8], pos: usize) -> (r: Option<ChunkHeader>)
    requires
        pos <= buf@.len(),
    ensures
        match dec_chunk_header(buf@, pos as int) {
            Some(h) => r matches Some(header) && header@ == h,
            None => r is None,
        },
{
    if buf.len() - pos < HEADER_SIZE {
        return None;
    }
    let chunk_type = [buf[pos], buf[pos + 1], buf[pos + 2], buf[pos + 3]];
    let size = le_read_u32(slice_subrange(buf, pos + 4, pos + 8));
    let flags = le_read_u32(slice_subrange(buf, pos + 8, pos + 12));
    let checksum = le_read_u32(slice_subrange(buf, pos + 12, pos + 16));
    proof {
        let s = buf@;
        let p = pos as int;
        assert(chunk_type@ =~= s.subrange(p, p + 4));
        assert(s.subrange(p + 4, p + 8).subrange(0, 4) =~= s.subrange(p + 4, p + 8));
        assert(s.subrange(p + 8, p + 12).subrange(0, 4) =~= s.subrange(p + 8, p + 12));
        assert(s.subrange(p + 12, p + 16).subrange(0, 4) =~= s.subrange(p + 12, p + 16));
    }
    Some(ChunkHeader { chunk_type, size, flags, checksum })
}

/// Reads the chunk at `pos` into `program` and returns the position behind
/// it.
fn read_chunk(buf: &[u8], pos: usize, program: &mut Program) -> (r: Result<usize, DecodeError>)
    requires
        pos <= buf@.len(),
    ensures
        match dec_chunk(buf@, pos as int, old(program)@) {
            Ok((p, fin)) => r matches Ok(next) && next == fin && final(program)@ == p && pos <= next
                <= buf@.len(),
            Err(e) => r matches Err(x) && x == e,
        },
{
    let len = buf.len();
    let header = match read_chunk_header(buf, pos) {
        None => {
            return Err(DecodeError::Truncated);
        },
        Some(header) => header,
    };
    let size = header.size as usize;
    let body = pos + HEADER_SIZE;
    assert(buf@.subrange(pos as int, pos + 4) == header@.chunk_type);
    if tag_matches(buf, pos, TAG_IMPL) {
        let count = (size / NODE_WIRE_SIZE) as u32;
        match read_impl_chunk(buf, body, len, count) {
            Err(e) => Err(e),
            Ok((mut nodes, next)) => {
                let ghost before = program.nodes.deep_view();
                let ghost added = nodes.deep_view();
                program.nodes.append(&mut nodes);
                assert(program.nodes.deep_view() =~= before + added);
                Ok(next)
            },
        }
    } else if len - body < size {
        Err(DecodeError::Truncated)
    } else if tag_matches(buf, pos, TAG_META) {
        match read_metadata_chunk(buf, body, body + size) {
            Err(e) => Err(e),
            Ok((entry_point, mut caps, mut traits)) => {
                let ghost before = program.metadata.traits.deep_view();
                let ghost added = traits.deep_view();
                program.metadata.entry_point = entry_point;
                program.metadata.required_capabilities.append(&mut caps);
                program.metadata.traits.append(&mut traits);
                assert(program.metadata.traits.deep_view() =~= before + added);
                Ok(body + size)
            },
        }
    } else if tag_matches(buf, pos, TAG_CNST) {
        match read_const_chunk(buf, body, body + size) {
            Err(e) => Err(e),
            Ok(pool) => {
                let ghost before = program.constants.strings.deep_view();
                let ghost added = pool.strings.deep_view();
                let mut pool = pool;
                program.constants.integers.append(&mut pool.integers);
                program.constants.floats.append(&mut pool.floats);
                program.constants.strings.append(&mut pool.strings);
                program.constants.booleans.append(&mut pool.booleans);
                assert(program.constants.strings.deep_view() =~= before + added);
                Ok(body + size)
            },
        }
    } else {
        Ok(body + size)
    }
}

/// The file header at `pos`, if sixteen bytes can be read there.
fn read_header(buf: &[u8], pos: usize) -> (r: Option<FileHeader>)
    requires
        pos <= buf@.len(),
    ensures
        match dec_header(buf@, pos as int) {
            Some(h) => r matches Some(header) && header@ == h,
            None => r is None,
        },
{
    if buf.len() - pos < HEADER_SIZE {
        return None;
    }
    let magic = [buf[pos], buf[pos + 1], buf[pos + 2], buf[pos + 3]];
    let version = le_read_u16(slice_subrange(buf, pos + 4, pos + 6));
    let flags = le_read_u16(slice_subrange(buf, pos + 6, pos + 8));
    let chunk_count = le_read_u32(slice_subrange(buf, pos + 8, pos + 12));
    let reserved = [buf[pos + 12], buf[pos + 13], buf[pos + 14], buf[pos + 15]];
    proof {
        let s = buf@;
        let p = pos as int;
        assert(magic@ =~= s.subrange(p, p + 4));
        assert(reserved@ =~= s.subrange(p + 12, p + 16));
        assert(s.subrange(p + 4, p + 6).subrange(0, 2) =~= s.subrange(p + 4, p + 6));
        assert(s.subrange(p + 6, p + 8).subrange(0, 2) =~= s.subrange(p + 6, p + 8));
        assert(s.subrange(p + 8, p + 12).subrange(0, 4) =~= s.subrange(p + 8, p + 12));
    }
    Some(FileHeader { magic, version, flags, chunk_count, reserved })
}

/// The program that the container at `start` holds, and the position
/// behind its last chunk.
fn read_container(buf: &[u8], start: usize) -> (r: Result<(Program, usize), DecodeError>)
    requires
        start <= buf@.len(),
    ensures
        match dec_program(buf@, start as int) {
            Ok((p, fin)) => r matches Ok((program, next)) && program@ == p && next == fin,
            Err(e) => r matches Err(x) && x == e,
        },
{
    let header = match read_header(buf, start) {
        None => {
            return Err(DecodeError::Truncated);
        },
        Some(header) => header,
    };
    if !tag_matches(buf, start, DER_MAGIC) {
        return Err(DecodeError::BadMagic);
    }
    let mut program = Program::new();
    program.header = header;
    assert(program@ == empty_program(header@)) by {
        assert(program@.nodes =~= Seq::empty());
        assert(program@.constants.integers =~= Seq::empty());
        assert(program@.constants.floats =~= Seq::empty());
        assert(program@.constants.strings =~= Seq::empty());
        assert(program@.constants.booleans =~= Seq::empty());
        assert(program@.metadata.required_capabilities =~= Seq::empty());
        assert(program@.metadata.traits =~= Seq::empty());
    }
    let ghost whole = dec_program(buf@, start as int);
    let len = buf.len();
    let mut cur: usize = start + HEADER_SIZE;
    let mut i: u32 = 0;
    while i < header.chunk_count
        invariant
            i <= header.chunk_count,
            cur <= buf@.len(),
            whole == dec_program(buf@, start as int),
            whole == dec_chunks(buf@, cur as int, program@, (header.chunk_count - i) as nat),
        decreases header.chunk_count - i,
    {
        match read_chunk(buf, cur, &mut program) {
            Err(e) => {
                return Err(e);
            },
            Ok(next) => {
                cur = next;
                i += 1;
            },
        }
    }
    Ok((program, cur))
}

/// A reader of containers from bytes held in memory. It remembers how far
/// it has read, so that containers that follow one another can be read in
/// turn.
pub struct DERDeserializer {
    reader: Vec<u8>,
    position: usize,
}

impl DERDeserializer {
    /// The bytes that are read from.
    pub closed spec fn source(&self) -> Seq<u8> {
        self.reader@
    }

    /// How many of the bytes have been read.
    pub closed spec fn offset(&self) -> int {
        self.position as int
    }

    /// A reader at the start of `reader`.
    pub fn new(reader: Vec<u8>) -> (deserializer: DERDeserializer)
        ensures
            deserializer.source() == reader@,
            deserializer.offset() == 0,
    {
        DERDeserializer { reader, position: 0 }
    }

    /// How many of the bytes have been read.
    pub fn position(&self) -> (position: usize)
        ensures
            position == self.offset(),
    {
        self.position
    }

    /// Reads the container that starts where the last one ended. On success
    /// the reader stands behind the last chunk that was read; on failure it
    /// stays where it was, and nothing of a program is handed out.
    pub fn read_program(&mut self) -> (r: Result<Program, DecodeError>)
        ensures
            final(self).source() == old(self).source(),
            match dec_program(old(self).source(), old(self).offset()) {
                Ok((p, fin)) => r matches Ok(program) && program@ == p && final(self).offset()
                    == fin,
                Err(e) => r matches Err(x) && x == e && final(self).offset() == old(self).offset(),
            },
    {
        if self.position > self.reader.len() {
            return Err(DecodeError::Truncated);
        }
        match read_container(self.reader.as_slice(), self.position) {
            Err(e) => Err(e),
            Ok((program, next)) => {
                self.position = next;
                Ok(program)
            },
        }
    }
}

} // verus!

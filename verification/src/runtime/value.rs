//! The values that a program computes with.

use crate::runtime::async_runtime::AsyncHandle;
use crate::runtime::floats::{
    float_is_zero, floats_nearly_equal, is_zero_bits, nearly_equal, FloatModel, FloatOp, FloatUnit,
};
use crate::runtime::memory::MemoryReference;
use crate::runtime::text::{decimal, hex_text, hexadecimal, signed_text, unsigned_text};
use crate::runtime::keys::keys_of;
use std::collections::HashMap;
use vstd::prelude::*;
use vstd::string::StringExecFns;

verus! {

broadcast use vstd::std_specs::hash::group_hash_axioms;

/// What a value holds. A float stands as its bits; the entries of a mapping
/// stand in the order in which they are kept.
pub enum ValueView {
    Nil,
    Bool(bool),
    Int(i64),
    Float(u64),
    String(Seq<char>),
    Array(Seq<ValueView>),
    Mapping(Seq<(Seq<char>, ValueView)>),
    Function { node_id: u32, arity: usize, captured: Map<u32, ValueView> },
    NodeRef(u32),
    MemoryRef(MemoryReference),
    AsyncHandle(AsyncHandle),
}

/// A runtime value. Arrays and mappings are values, not references: an
/// operation that sets an element gives a new value.
///
/// A float is held as the 64 bits of its IEEE 754 double-precision encoding.
/// A mapping is a list of entries with string keys, no key twice; the order
/// of the entries plays no part in equality.
#[derive(Debug)]
pub enum Value {
    Nil,
    Bool(bool),
    Int(i64),
    Float(u64),
    String(String),
    Array(Vec<Value>),
    Mapping(Vec<(String, Value)>),
    Function(Function),
    NodeRef(u32),
    MemoryRef(MemoryReference),
    AsyncHandle(AsyncHandle),
}

/// A function value: the node of its body, how many arguments it takes, and
/// the values that it has captured, by the ids under which it found them.
#[derive(Debug)]
pub struct Function {
    pub node_id: u32,
    pub arity: usize,
    pub captured_values: HashMap<u32, Value>,
}

/// What `v` holds.
pub open spec fn view_of(v: Value) -> ValueView
    decreases v,
{
    match v {
        Value::Nil => ValueView::Nil,
        Value::Bool(b) => ValueView::Bool(b),
        Value::Int(i) => ValueView::Int(i),
        Value::Float(bits) => ValueView::Float(bits),
        Value::String(s) => ValueView::String(s@),
        Value::Array(items) => ValueView::Array(
            Seq::new(
                items@.len(),
                |i: int|
                    if 0 <= i < items@.len() {
                        view_of(items@[i])
                    } else {
                        ValueView::Nil
                    },
            ),
        ),
        Value::Mapping(entries) => ValueView::Mapping(
            Seq::new(
                entries@.len(),
                |i: int|
                    if 0 <= i < entries@.len() {
                        (entries@[i].0@, view_of(entries@[i].1))
                    } else {
                        (Seq::empty(), ValueView::Nil)
                    },
            ),
        ),
        Value::Function(f) => ValueView::Function {
            node_id: f.node_id,
            arity: f.arity,
            captured: Map::new(
                |id: u32| f.captured_values@.contains_key(id),
                |id: u32|
                    if f.captured_values@.contains_key(id) {
                        view_of(f.captured_values@[id])
                    } else {
                        ValueView::Nil
                    },
            ),
        },
        Value::NodeRef(id) => ValueView::NodeRef(id),
        Value::MemoryRef(r) => ValueView::MemoryRef(r),
        Value::AsyncHandle(h) => ValueView::AsyncHandle(h),
    }
}

impl View for Value {
    type V = ValueView;

    open spec fn view(&self) -> ValueView {
        view_of(*self)
    }
}

impl DeepView for Value {
    type V = ValueView;

    open spec fn deep_view(&self) -> ValueView {
        self@
    }
}

impl Clone for Value {
    #[verifier::loop_isolation(false)]
    fn clone(&self) -> (copy: Value)
        ensures
            copy@ == self@,
        decreases self,
    {
        match self {
            Value::Nil => Value::Nil,
            Value::Bool(b) => Value::Bool(*b),
            Value::Int(i) => Value::Int(*i),
            Value::Float(bits) => Value::Float(*bits),
            Value::String(s) => Value::String(s.clone()),
            Value::Array(items) => {
                let mut out: Vec<Value> = Vec::new();
                let mut i: usize = 0;
                while i < items.len()
                    invariant
                        i <= items.len(),
                        out.len() == i,
                        forall|j: int| 0 <= j < i ==> out@[j]@ == items@[j]@,
                    decreases items.len() - i,
                {
                    out.push(items[i].clone());
                    i += 1;
                }
                let copy = Value::Array(out);
                assert(copy@->Array_0 =~= self@->Array_0);
                copy
            },
            Value::Mapping(entries) => {
                let mut out: Vec<(String, Value)> = Vec::new();
                let mut i: usize = 0;
                while i < entries.len()
                    invariant
                        i <= entries.len(),
                        out.len() == i,
                        forall|j: int|
                            0 <= j < i ==> out@[j].0@ == entries@[j].0@ && out@[j].1@
                                == entries@[j].1@,
                    decreases entries.len() - i,
                {
                    out.push((entries[i].0.clone(), entries[i].1.clone()));
                    i += 1;
                }
                let copy = Value::Mapping(out);
                assert(copy@->Mapping_0 =~= self@->Mapping_0);
                copy
            },
            Value::Function(f) => {
                let ids = keys_of(&f.captured_values);
                let mut out: HashMap<u32, Value> = HashMap::new();
                let mut i: usize = 0;
                assert(ids@.take(0).to_set() =~= Set::empty());
                while i < ids.len()
                    invariant
                        i <= ids.len(),
                        ids@.to_set() == f.captured_values@.dom(),
                        out@.dom() =~= ids@.take(i as int).to_set(),
                        forall|id: u32|
                            out@.contains_key(id) ==> #[trigger] out@[id]@
                                == f.captured_values@[id]@,
                    decreases ids.len() - i,
                {
                    let id = ids[i];
                    assert(ids@.to_set().contains(id));
                    match f.captured_values.get(&id) {
                        Some(value) => {
                            out.insert(id, value.clone());
                        },
                        None => {},
                    }
                    proof {
                        ids@.take(i as int).lemma_push_to_set_commute(id);
                        assert(ids@.take(i + 1) =~= ids@.take(i as int).push(id));
                    }
                    i += 1;
                }
                assert(ids@.take(i as int) =~= ids@);
                assert(out@.dom() =~= f.captured_values@.dom());
                let copy = Value::Function(
                    Function { node_id: f.node_id, arity: f.arity, captured_values: out },
                );
                assert forall|id: u32| #[trigger]
                    copy@->captured.contains_key(id) implies self@->captured.contains_key(id)
                    && copy@->captured[id] == self@->captured[id] by {
                    assert(out@.contains_key(id));
                    assert(f.captured_values@.dom().contains(id));
                    assert(out@[id]@ == f.captured_values@[id]@);
                }
                assert forall|id: u32| #[trigger]
                    self@->captured.contains_key(id) implies copy@->captured.contains_key(id) by {
                    assert(f.captured_values@.dom().contains(id));
                    assert(out@.dom().contains(id));
                }
                assert(copy@->captured =~= self@->captured);
                copy
            },
            Value::NodeRef(id) => Value::NodeRef(*id),
            Value::MemoryRef(r) => Value::MemoryRef(*r),
            Value::AsyncHandle(h) => Value::AsyncHandle(*h),
        }
    }
}

/// The name of the kind of a value.
pub open spec fn kind_name_of(v: ValueView) -> Seq<char> {
    match v {
        ValueView::Nil => "nil"@,
        ValueView::Bool(_) => "bool"@,
        ValueView::Int(_) => "int"@,
        ValueView::Float(_) => "float"@,
        ValueView::String(_) => "string"@,
        ValueView::Array(_) => "array"@,
        ValueView::Mapping(_) => "map"@,
        ValueView::Function { .. } => "function"@,
        ValueView::NodeRef(_) => "noderef"@,
        ValueView::MemoryRef(_) => "memoryref"@,
        ValueView::AsyncHandle(_) => "asynchandle"@,
    }
}

/// Whether a value counts as true: nil does not, a boolean counts as
/// itself, a number unless it is zero, a string, an array or a mapping
/// unless it is empty, and everything else does.
pub open spec fn truthy(v: ValueView) -> bool {
    match v {
        ValueView::Nil => false,
        ValueView::Bool(b) => b,
        ValueView::Int(i) => i != 0,
        ValueView::Float(bits) => !is_zero_bits(bits),
        ValueView::String(s) => s.len() != 0,
        ValueView::Array(items) => items.len() != 0,
        ValueView::Mapping(entries) => entries.len() != 0,
        _ => true,
    }
}

/// The texts of `parts` with `sep` between each two of them.
pub open spec fn join_texts(parts: Seq<Seq<char>>, sep: Seq<char>) -> Seq<char>
    decreases parts.len(),
{
    if parts.len() == 0 {
        Seq::empty()
    } else if parts.len() == 1 {
        parts[0]
    } else {
        join_texts(parts.drop_last(), sep) + sep + parts.last()
    }
}

/// A value as text, with floats formatted as the float unit does.
pub open spec fn text_of(m: FloatModel, v: ValueView) -> Seq<char>
    decreases v,
{
    match v {
        ValueView::Nil => "nil"@,
        ValueView::Bool(b) => if b {
            "true"@
        } else {
            "false"@
        },
        ValueView::Int(i) => decimal(i as int),
        ValueView::Float(bits) => (m.show)(bits),
        ValueView::String(s) => s,
        ValueView::Array(items) => "["@ + join_texts(item_texts(m, items), ", "@) + "]"@,
        ValueView::Mapping(entries) => "{"@ + join_texts(entry_texts(m, entries), ", "@) + "}"@,
        ValueView::Function { node_id, .. } => "<function:"@ + decimal(node_id as int) + ">"@,
        ValueView::NodeRef(id) => "<node:"@ + decimal(id as int) + ">"@,
        ValueView::MemoryRef(r) => "<memory:0x"@ + hexadecimal(r.address as nat) + "+"@ + decimal(
            r.offset as int,
        ) + ">"@,
        ValueView::AsyncHandle(h) => "<async:"@ + decimal(h.id as int) + ">"@,
    }
}

/// The texts of the items of an array.
pub open spec fn item_texts(m: FloatModel, items: Seq<ValueView>) -> Seq<Seq<char>>
    decreases items,
{
    Seq::new(
        items.len(),
        |i: int|
            if 0 <= i < items.len() {
                text_of(m, items[i])
            } else {
                Seq::empty()
            },
    )
}

/// The texts of the entries of a mapping: the key, a colon and a blank, the
/// value.
pub open spec fn entry_texts(m: FloatModel, entries: Seq<(Seq<char>, ValueView)>) -> Seq<
    Seq<char>,
>
    decreases entries,
{
    Seq::new(
        entries.len(),
        |i: int|
            if 0 <= i < entries.len() {
                entries[i].0 + ": "@ + text_of(m, entries[i].1)
            } else {
                Seq::empty()
            },
    )
}

/// The position of the first entry under `key`, from `from` on.
pub open spec fn entry_from(entries: Seq<(Seq<char>, ValueView)>, key: Seq<char>, from: int) -> Option<
    int,
>
    decreases entries.len() - from,
{
    if from < 0 || from >= entries.len() {
        None
    } else if entries[from].0 == key {
        Some(from)
    } else {
        entry_from(entries, key, from + 1)
    }
}

/// What a mapping holds under `key`: the value of its first entry with that
/// key.
pub open spec fn lookup(entries: Seq<(Seq<char>, ValueView)>, key: Seq<char>) -> Option<ValueView> {
    match entry_from(entries, key, 0) {
        Some(i) => Some(entries[i].1),
        None => None,
    }
}

/// Whether two values are equal. Nil, booleans, integers and strings are
/// equal to their like; two floats are equal when they differ by less than
/// the machine epsilon; arrays are equal element by element; mappings are
/// equal when they have as many entries and each entry of the first has an
/// equal in the second under its key; node references are equal by id.
/// Functions, memory references and async handles are equal to nothing.
pub open spec fn value_eq(m: FloatModel, a: ValueView, b: ValueView) -> bool
    decreases a,
{
    match (a, b) {
        (ValueView::Nil, ValueView::Nil) => true,
        (ValueView::Bool(x), ValueView::Bool(y)) => x == y,
        (ValueView::Int(x), ValueView::Int(y)) => x == y,
        (ValueView::Float(x), ValueView::Float(y)) => nearly_equal(m, x, y),
        (ValueView::String(x), ValueView::String(y)) => x == y,
        (ValueView::Array(xs), ValueView::Array(ys)) => {
            &&& xs.len() == ys.len()
            &&& forall|i: int| 0 <= i < xs.len() ==> value_eq(m, #[trigger] xs[i], ys[i])
        },
        (ValueView::Mapping(xs), ValueView::Mapping(ys)) => {
            &&& xs.len() == ys.len()
            &&& forall|i: int|
                0 <= i < xs.len() ==> match lookup(ys, (#[trigger] xs[i]).0) {
                    Some(y) => value_eq(m, xs[i].1, y),
                    None => false,
                }
        },
        (ValueView::NodeRef(x), ValueView::NodeRef(y)) => x == y,
        _ => false,
    }
}

/// The entries of a mapping, as its view holds them.
pub open spec fn entries_of(entries: Vec<(String, Value)>) -> Seq<(Seq<char>, ValueView)> {
    Value::Mapping(entries)@->Mapping_0
}

/// The first entry of `entries` under `key`, by position.
pub fn find_entry(entries: &Vec<(String, Value)>, key: &String) -> (found: Option<usize>)
    ensures
        match found {
            Some(i) => i < entries.len() && entry_from(entries_of(*entries), key@, 0) == Some(
                i as int,
            ) && entries_of(*entries)[i as int] == (key@, entries[i as int].1@),
            None => entry_from(entries_of(*entries), key@, 0) is None,
        },
        entries_of(*entries).len() == entries.len(),
{
    let ghost all = entries_of(*entries);
    let mut i: usize = 0;
    while i < entries.len()
        invariant
            i <= entries.len(),
            all == entries_of(*entries),
            all.len() == entries.len(),
            entry_from(all, key@, 0) == entry_from(all, key@, i as int),
        decreases entries.len() - i,
    {
        assert(all[i as int] == (entries[i as int].0@, entries[i as int].1@));
        if entries[i].0 == *key {
            return Some(i);
        }
        i += 1;
    }
    None
}

impl Value {
    /// The name of the kind of the value.
    pub fn kind_name(&self) -> (name: &'static str)
        ensures
            name@ == kind_name_of(self@),
    {
        match self {
            Value::Nil => "nil",
            Value::Bool(_) => "bool",
            Value::Int(_) => "int",
            Value::Float(_) => "float",
            Value::String(_) => "string",
            Value::Array(_) => "array",
            Value::Mapping(_) => "map",
            Value::Function(_) => "function",
            Value::NodeRef(_) => "noderef",
            Value::MemoryRef(_) => "memoryref",
            Value::AsyncHandle(_) => "asynchandle",
        }
    }

    /// Whether the value counts as true.
    pub fn is_truthy(&self) -> (yes: bool)
        ensures
            yes == truthy(self@),
    {
        match self {
            Value::Nil => false,
            Value::Bool(b) => *b,
            Value::Int(i) => *i != 0,
            Value::Float(bits) => !float_is_zero(*bits),
            Value::String(s) => !s.as_str().is_empty(),
            Value::Array(items) => items.len() != 0,
            Value::Mapping(entries) => entries.len() != 0,
            _ => true,
        }
    }

    /// The value as text, with floats formatted by the float unit.
    #[verifier::loop_isolation(false)]
    pub fn to_string<A: Fn(FloatOp, u64, u64) -> u64, S: Fn(u64) -> String>(
        &self,
        unit: &FloatUnit<A, S>,
    ) -> (text: String)
        requires
            unit.reliable(),
        ensures
            text@ == text_of(unit.model(), self@),
        decreases self,
    {
        let ghost m = unit.model();
        match self {
            Value::Nil => String::from_str("nil"),
            Value::Bool(b) => if *b {
                String::from_str("true")
            } else {
                String::from_str("false")
            },
            Value::Int(i) => signed_text(*i),
            Value::Float(bits) => unit.render(*bits),
            Value::String(s) => s.clone(),
            Value::Array(items) => {
                let ghost parts = Seq::new(
                    items@.len(),
                    |i: int|
                        if 0 <= i < items@.len() {
                            text_of(m, items@[i]@)
                        } else {
                            Seq::empty()
                        },
                );
                let mut text = String::from_str("[");
                let mut i: usize = 0;
                assert(parts.take(0) =~= Seq::empty());
                assert(text@ =~= "["@ + join_texts(parts.take(0), ", "@));
                while i < items.len()
                    invariant
                        i <= items.len(),
                        text@ == "["@ + join_texts(parts.take(i as int), ", "@),
                    decreases items.len() - i,
                {
                    if i > 0 {
                        text.append(", ");
                    }
                    let item = items[i].to_string(unit);
                    text.append(item.as_str());
                    proof {
                        let now = parts.take(i + 1);
                        assert(now.drop_last() =~= parts.take(i as int));
                        assert(now.last() == item@);
                        assert(text@ =~= "["@ + join_texts(now, ", "@));
                    }
                    i += 1;
                }
                text.append("]");
                proof {
                    assert(parts.take(i as int) =~= parts);
                    assert(item_texts(m, self@->Array_0) =~= parts);
                }
                text
            },
            Value::Mapping(entries) => {
                let ghost parts = Seq::new(
                    entries@.len(),
                    |i: int|
                        if 0 <= i < entries@.len() {
                            entries@[i].0@ + ": "@ + text_of(m, entries@[i].1@)
                        } else {
                            Seq::empty()
                        },
                );
                let mut text = String::from_str("{");
                let mut i: usize = 0;
                assert(parts.take(0) =~= Seq::empty());
                assert(text@ =~= "{"@ + join_texts(parts.take(0), ", "@));
                while i < entries.len()
                    invariant
                        i <= entries.len(),
                        text@ == "{"@ + join_texts(parts.take(i as int), ", "@),
                    decreases entries.len() - i,
                {
                    if i > 0 {
                        text.append(", ");
                    }
                    text.append(entries[i].0.as_str());
                    text.append(": ");
                    let item = entries[i].1.to_string(unit);
                    text.append(item.as_str());
                    proof {
                        let now = parts.take(i + 1);
                        assert(now.drop_last() =~= parts.take(i as int));
                        assert(now.last() =~= entries@[i as int].0@ + ": "@ + item@);
                        assert(text@ =~= "{"@ + join_texts(now, ", "@));
                    }
                    i += 1;
                }
                text.append("}");
                proof {
                    assert(parts.take(i as int) =~= parts);
                    assert(entry_texts(m, self@->Mapping_0) =~= parts);
                }
                text
            },
            Value::Function(f) => {
                let mut text = String::from_str("<function:");
                text.append(unsigned_text(f.node_id as u64).as_str());
                text.append(">");
                text
            },
            Value::NodeRef(id) => {
                let mut text = String::from_str("<node:");
                text.append(unsigned_text(*id as u64).as_str());
                text.append(">");
                text
            },
            Value::MemoryRef(r) => {
                let mut text = String::from_str("<memory:0x");
                text.append(hex_text(r.address).as_str());
                text.append("+");
                text.append(unsigned_text(r.offset as u64).as_str());
                text.append(">");
                text
            },
            Value::AsyncHandle(h) => {
                let mut text = String::from_str("<async:");
                text.append(unsigned_text(h.id).as_str());
                text.append(">");
                text
            },
        }
    }

    /// Whether the value equals `other`, with floats compared by the float
    /// unit.
    #[verifier::loop_isolation(false)]
    pub fn equals<A: Fn(FloatOp, u64, u64) -> u64, S: Fn(u64) -> String>(
        &self,
        other: &Value,
        unit: &FloatUnit<A, S>,
    ) -> (same: bool)
        requires
            unit.reliable(),
        ensures
            same == value_eq(unit.model(), self@, other@),
        decreases self,
    {
        let ghost m = unit.model();
        match (self, other) {
            (Value::Nil, Value::Nil) => true,
            (Value::Bool(x), Value::Bool(y)) => *x == *y,
            (Value::Int(x), Value::Int(y)) => *x == *y,
            (Value::Float(x), Value::Float(y)) => floats_nearly_equal(unit, *x, *y),
            (Value::String(x), Value::String(y)) => *x == *y,
            (Value::Array(xs), Value::Array(ys)) => {
                if xs.len() != ys.len() {
                    return false;
                }
                let mut i: usize = 0;
                while i < xs.len()
                    invariant
                        i <= xs.len(),
                        forall|j: int| 0 <= j < i ==> value_eq(m, xs@[j]@, ys@[j]@),
                    decreases xs.len() - i,
                {
                    if !xs[i].equals(&ys[i], unit) {
                        assert(!value_eq(m, self@->Array_0[i as int], other@->Array_0[i as int]));
                        return false;
                    }
                    i += 1;
                }
                assert forall|j: int| 0 <= j < self@->Array_0.len() implies value_eq(
                    m,
                    #[trigger] self@->Array_0[j],
                    other@->Array_0[j],
                ) by {
                    assert(value_eq(m, xs@[j]@, ys@[j]@));
                }
                true
            },
            (Value::Mapping(xs), Value::Mapping(ys)) => {
                if xs.len() != ys.len() {
                    return false;
                }
                let mut i: usize = 0;
                while i < xs.len()
                    invariant
                        i <= xs.len(),
                        forall|j: int|
                            0 <= j < i ==> match lookup(entries_of(*ys), (#[trigger] xs@[j]).0@) {
                                Some(y) => value_eq(m, xs@[j].1@, y),
                                None => false,
                            },
                    decreases xs.len() - i,
                {
                    let ghost mine = self@->Mapping_0[i as int];
                    assert(mine == (xs@[i as int].0@, xs@[i as int].1@));
                    match find_entry(ys, &xs[i].0) {
                        None => {
                            return false;
                        },
                        Some(j) => {
                            if !xs[i].1.equals(&ys[j].1, unit) {
                                return false;
                            }
                        },
                    }
                    i += 1;
                }
                assert forall|j: int| 0 <= j < self@->Mapping_0.len() implies match lookup(
                    other@->Mapping_0,
                    (#[trigger] self@->Mapping_0[j]).0,
                ) {
                    Some(y) => value_eq(m, self@->Mapping_0[j].1, y),
                    None => false,
                } by {
                    assert(self@->Mapping_0[j] == (xs@[j].0@, xs@[j].1@));
                }
                true
            },
            (Value::NodeRef(x), Value::NodeRef(y)) => *x == *y,
            _ => false,
        }
    }
}

} // verus!

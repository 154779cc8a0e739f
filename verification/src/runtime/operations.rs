//! The operations on values that need nothing of the state of an
//! execution.

use crate::runtime::error::{RuntimeError};
use crate::runtime::floats::{float_is_zero, FloatOp, FloatUnit};
use crate::runtime::memory::value_result;
use crate::runtime::semantics::{
    arithmetic, array_get, array_set, compare, float_from_int, is_zero_divisor,
    kinds_of, map_get, map_set, mismatch, modulo, remainder,
    with_entry,
};
use crate::runtime::text::join3;
use crate::runtime::value::{entries_of, find_entry, view_of, Function, Value, ValueView};
use std::collections::HashMap;
use vstd::prelude::*;
use vstd::string::StringExecFns;

verus! {

broadcast use vstd::std_specs::hash::group_hash_axioms;

/// The error for operands of kinds that an operation does not take.
pub fn type_mismatch(expected: &str, actual: String) -> (error: RuntimeError)
    ensures
        error@ == mismatch(expected@, actual@),
{
    RuntimeError::TypeMismatch { expected: String::from_str(expected), actual }
}

/// The error for two operands of kinds that an operation does not take.
pub fn kinds_mismatch(expected: &str, left: &Value, right: &Value) -> (error: RuntimeError)
    ensures
        error@ == mismatch(expected@, kinds_of(left@, right@)),
{
    type_mismatch(expected, join3(left.kind_name(), " and ", right.kind_name()))
}

/// The error for one operand of a kind that an operation does not take.
pub fn kind_mismatch(expected: &str, operand: &Value) -> (error: RuntimeError)
    ensures
        error@ == mismatch(expected@, crate::runtime::value::kind_name_of(operand@)),
{
    type_mismatch(expected, String::from_str(operand.kind_name()))
}

/// The float nearest to an integer, asked of the float unit.
pub fn int_to_float<A: Fn(FloatOp, u64, u64) -> u64, S: Fn(u64) -> String>(
    unit: &FloatUnit<A, S>,
    i: i64,
) -> (bits: u64)
    requires
        unit.reliable(),
    ensures
        bits == float_from_int(unit.model(), i),
{
    unit.ask(FloatOp::FromInt, i as u64, 0)
}

/// Adds, subtracts, multiplies or divides two numbers as floats. The
/// result is an integer where both operands are and the float result has no
/// fractional part.
pub fn arithmetic_op<A: Fn(FloatOp, u64, u64) -> u64, S: Fn(u64) -> String>(
    unit: &FloatUnit<A, S>,
    op: FloatOp,
    left: &Value,
    right: &Value,
) -> (r: Result<Value, RuntimeError>)
    requires
        unit.reliable(),
    ensures
        value_result(r) == arithmetic(unit.model(), op, left@, right@),
{
    match (left, right) {
        (Value::Int(a), Value::Int(b)) => {
            let bits = unit.ask(op, int_to_float(unit, *a), int_to_float(unit, *b));
            if float_is_zero(unit.ask(FloatOp::Fract, bits, 0)) {
                Ok(Value::Int(unit.ask(FloatOp::ToInt, bits, 0) as i64))
            } else {
                Ok(Value::Float(bits))
            }
        },
        (Value::Float(a), Value::Float(b)) => Ok(Value::Float(unit.ask(op, *a, *b))),
        (Value::Int(a), Value::Float(b)) => Ok(
            Value::Float(unit.ask(op, int_to_float(unit, *a), *b)),
        ),
        (Value::Float(a), Value::Int(b)) => Ok(
            Value::Float(unit.ask(op, *a, int_to_float(unit, *b))),
        ),
        _ => Err(kinds_mismatch("numeric", left, right)),
    }
}

/// Whether a value is the integer zero or a float zero.
pub fn is_zero(value: &Value) -> (zero: bool)
    ensures
        zero == is_zero_divisor(value@),
{
    match value {
        Value::Int(i) => *i == 0,
        Value::Float(bits) => float_is_zero(*bits),
        _ => false,
    }
}

/// The size of an integer without its sign.
fn magnitude(i: i64) -> (m: u64)
    ensures
        m == if i < 0 {
            -(i as int)
        } else {
            i as int
        },
{
    if i >= 0 {
        i as u64
    } else {
        ((-(i + 1)) as u64) + 1
    }
}

/// The remainder of two integers, with the sign of the dividend.
pub fn modulo_op(left: &Value, right: &Value) -> (r: Result<Value, RuntimeError>)
    ensures
        value_result(r) == modulo(left@, right@),
{
    match (left, right) {
        (Value::Int(a), Value::Int(b)) => {
            if *b == 0 {
                return Err(RuntimeError::DivisionByZero);
            }
            let r = magnitude(*a) % magnitude(*b);
            let signed = if *a < 0 {
                -(r as i64)
            } else {
                r as i64
            };
            assert(signed == remainder(*a as int, *b as int));
            Ok(Value::Int(signed))
        },
        _ => Err(kinds_mismatch("integer", left, right)),
    }
}

/// Compares two numbers as floats.
pub fn compare_op<A: Fn(FloatOp, u64, u64) -> u64, S: Fn(u64) -> String>(
    unit: &FloatUnit<A, S>,
    op: FloatOp,
    left: &Value,
    right: &Value,
) -> (r: Result<Value, RuntimeError>)
    requires
        unit.reliable(),
    ensures
        value_result(r) == compare(unit.model(), op, left@, right@),
{
    match (left, right) {
        (Value::Int(a), Value::Int(b)) => Ok(
            Value::Bool(unit.ask(op, int_to_float(unit, *a), int_to_float(unit, *b)) != 0),
        ),
        (Value::Float(a), Value::Float(b)) => Ok(Value::Bool(unit.ask(op, *a, *b) != 0)),
        (Value::Int(a), Value::Float(b)) => Ok(
            Value::Bool(unit.ask(op, int_to_float(unit, *a), *b) != 0),
        ),
        (Value::Float(a), Value::Int(b)) => Ok(
            Value::Bool(unit.ask(op, *a, int_to_float(unit, *b)) != 0),
        ),
        _ => Err(kinds_mismatch("numeric", left, right)),
    }
}

/// The element of an array at an index.
pub fn array_get_op(array: &Value, index: &Value) -> (r: Result<Value, RuntimeError>)
    ensures
        value_result(r) == array_get(array@, index@),
{
    match (array, index) {
        (Value::Array(items), Value::Int(i)) => {
            if *i >= 0 && (*i as u64) < items.len() as u64 {
                Ok(items[*i as usize].clone())
            } else {
                Err(
                    RuntimeError::ArrayIndexOutOfBounds {
                        index: #[verifier::truncate]
                        (*i as usize),
                        length: items.len(),
                    },
                )
            }
        },
        _ => Err(kinds_mismatch("array and integer", array, index)),
    }
}

/// The array with the element at an index replaced.
pub fn array_set_op(array: Value, index: &Value, value: Value) -> (r: Result<Value, RuntimeError>)
    ensures
        value_result(r) == array_set(array@, index@, value@),
{
    match (array, index) {
        (Value::Array(items), Value::Int(i)) => {
            if *i >= 0 && (*i as u64) < items.len() as u64 {
                let mut items = items;
                let ghost before = view_of(Value::Array(items))->Array_0;
                items.set(*i as usize, value);
                let after = Value::Array(items);
                assert(after@->Array_0 =~= before.update(*i as int, value@));
                Ok(after)
            } else {
                Err(
                    RuntimeError::ArrayIndexOutOfBounds {
                        index: #[verifier::truncate]
                        (*i as usize),
                        length: items.len(),
                    },
                )
            }
        },
        (array, index) => Err(kinds_mismatch("array and integer", &array, index)),
    }
}

/// What a mapping holds under a key.
pub fn map_get_op(map: &Value, key: &Value) -> (r: Result<Value, RuntimeError>)
    ensures
        value_result(r) == map_get(map@, key@),
{
    match (map, key) {
        (Value::Mapping(entries), Value::String(k)) => match find_entry(entries, k) {
            Some(i) => Ok(entries[i].1.clone()),
            None => Err(RuntimeError::MapKeyNotFound(k.clone())),
        },
        _ => Err(kinds_mismatch("map and string", map, key)),
    }
}

/// The mapping with a value under a key, in the place of what it held
/// there.
pub fn map_set_op(map: Value, key: &Value, value: Value) -> (r: Result<Value, RuntimeError>)
    ensures
        value_result(r) == map_set(map@, key@, value@),
{
    match (map, key) {
        (Value::Mapping(entries), Value::String(k)) => {
            let mut entries = entries;
            let ghost before = entries_of(entries);
            match find_entry(&entries, k) {
                Some(i) => {
                    entries.set(i, (k.clone(), value));
                },
                None => {
                    entries.push((k.clone(), value));
                },
            }
            let after = Value::Mapping(entries);
            assert(after@->Mapping_0 =~= with_entry(before, k@, value@));
            Ok(after)
        },
        (map, key) => Err(kinds_mismatch("map and string", &map, key)),
    }
}

/// The captures of a function, as its view holds them.
pub open spec fn captures_of(captured: HashMap<u32, Value>) -> Map<u32, ValueView> {
    (Value::Function(Function { node_id: 0, arity: 0, captured_values: captured }))@->captured
}

/// Puts `value` under `id` among the captures, in the place of what was
/// captured under it.
pub fn capture(captured: &mut HashMap<u32, Value>, id: u32, value: Value)
    ensures
        captures_of(*final(captured)) == captures_of(*old(captured)).insert(id, value@),
{
    let ghost before = captures_of(*captured);
    captured.insert(id, value);
    assert(captures_of(*captured) =~= before.insert(id, value@));
}

} // verus!

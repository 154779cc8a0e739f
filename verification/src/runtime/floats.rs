//! Double-precision arithmetic, which the runtime does not do itself.
//!
//! A float is held as the 64 bits of its IEEE 754 double-precision
//! encoding. What the bits mean under arithmetic is asked of a float unit
//! that the host supplies: two functions, one that computes and one that
//! formats. The runtime's contracts are stated over what the unit answers.

use vstd::prelude::*;

verus! {

/// The bits of a float without its sign.
pub const MAGNITUDE_MASK: u64 = 0x7FFF_FFFF_FFFF_FFFF;

/// The bits of the machine epsilon of double precision, 2 to the power -52.
pub const EPSILON_BITS: u64 = 0x3CB0_0000_0000_0000;

/// What can be asked of the computing half of a float unit. Operands and
/// answers are 64-bit words.
#[derive(Debug, Clone, Copy, PartialEq, Eq, Structural)]
pub enum FloatOp {
    /// The sum of two floats.
    Add,
    /// The difference of two floats.
    Sub,
    /// The product of two floats.
    Mul,
    /// The quotient of two floats.
    Div,
    /// The float nearest to the signed integer whose two's complement form
    /// the first operand is. The second operand is ignored.
    FromInt,
    /// The two's complement form of the signed integer that the first
    /// operand, a float, is cut to: its fractional part dropped, values out
    /// of range brought to the nearest bound, no number to 0. The second
    /// operand is ignored.
    ToInt,
    /// The fractional part of the first operand, a float. The second
    /// operand is ignored.
    Fract,
    /// 1 if the first float is less than the second, else 0.
    Less,
    /// 1 if the first float is less than or equal to the second, else 0.
    LessEq,
    /// 1 if the first float is greater than the second, else 0.
    Greater,
    /// 1 if the first float is greater than or equal to the second, else 0.
    GreaterEq,
}

/// What a float unit answers, as mathematical functions.
pub struct FloatModel {
    pub arith: spec_fn(FloatOp, u64, u64) -> u64,
    pub show: spec_fn(u64) -> Seq<char>,
}

/// The float unit of a host: `arith` computes, `show` formats a float as
/// text.
pub struct FloatUnit<A, S> {
    pub arith: A,
    pub show: S,
}

impl<A: Fn(FloatOp, u64, u64) -> u64, S: Fn(u64) -> String> FloatUnit<A, S> {
    /// What the unit answers.
    pub open spec fn model(&self) -> FloatModel {
        FloatModel {
            arith: |op: FloatOp, a: u64, b: u64|
                choose|r: u64| call_ensures(self.arith, (op, a, b), r),
            show: |a: u64| (choose|t: String| call_ensures(self.show, (a,), t))@,
        }
    }

    /// Whether the unit answers every question, and the same question
    /// always alike.
    pub open spec fn reliable(&self) -> bool {
        &&& forall|op: FloatOp, a: u64, b: u64| call_requires(self.arith, (op, a, b))
        &&& forall|op: FloatOp, a: u64, b: u64, r: u64|
            call_ensures(self.arith, (op, a, b), r) ==> r == (self.model().arith)(op, a, b)
        &&& forall|a: u64| call_requires(self.show, (a,))
        &&& forall|a: u64, t: String|
            call_ensures(self.show, (a,), t) ==> t@ == (self.model().show)(a)
    }

    /// Asks the unit to compute.
    pub fn ask(&self, op: FloatOp, a: u64, b: u64) -> (r: u64)
        requires
            self.reliable(),
        ensures
            r == (self.model().arith)(op, a, b),
    {
        (self.arith)(op, a, b)
    }

    /// Asks the unit to format a float.
    pub fn render(&self, bits: u64) -> (text: String)
        requires
            self.reliable(),
        ensures
            text@ == (self.model().show)(bits),
    {
        (self.show)(bits)
    }
}

/// Whether the float is zero, of either sign.
pub open spec fn is_zero_bits(bits: u64) -> bool {
    bits & MAGNITUDE_MASK == 0
}

/// Whether the float is zero, of either sign.
pub fn float_is_zero(bits: u64) -> (zero: bool)
    ensures
        zero == is_zero_bits(bits),
{
    bits & MAGNITUDE_MASK == 0
}

/// Whether two floats differ by less than the machine epsilon.
pub open spec fn nearly_equal(m: FloatModel, a: u64, b: u64) -> bool {
    (m.arith)(FloatOp::Less, (m.arith)(FloatOp::Sub, a, b) & MAGNITUDE_MASK, EPSILON_BITS) != 0
}

/// Whether two floats differ by less than the machine epsilon.
pub fn floats_nearly_equal<A: Fn(FloatOp, u64, u64) -> u64, S: Fn(u64) -> String>(
    unit: &FloatUnit<A, S>,
    a: u64,
    b: u64,
) -> (near: bool)
    requires
        unit.reliable(),
    ensures
        near == nearly_equal(unit.model(), a, b),
{
    let difference = unit.ask(FloatOp::Sub, a, b);
    unit.ask(FloatOp::Less, difference & MAGNITUDE_MASK, EPSILON_BITS) != 0
}

} // verus!

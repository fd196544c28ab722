//! The tagged value model: the host encodes every dynamic value as a one-byte
//! type tag and a four-byte raw payload. This subsystem never invents tags of
//! its own; it copies, compares and arithmetically combines payloads.

use vstd::prelude::*;

verus! {

/// The type tag of a tagged value, one byte wide.
pub type VType = u8;

/// The raw payload of a tagged value, four bytes wide.
pub type VValue = u32;

/// One tagged value as the virtual machine holds it in a register:
/// the host's (tag, payload) pair copied verbatim.
#[derive(Clone, Copy, PartialEq, Eq, Structural, Debug)]
pub struct Register {
    pub tag: VType,
    pub value: VValue,
}

/// The empty value: the result of a program that halts without returning,
/// and the reply substituted for a failed native hook.
pub open spec fn null_value() -> Register {
    Register { tag: 0, value: 0 }
}

pub fn make_null() -> (r: Register)
    ensures
        r == null_value(),
{
    Register { tag: 0, value: 0 }
}

/// Host truthiness: a value is falsy exactly when its raw payload is zero
/// (the host's null and its number zero both carry a zero payload).
pub open spec fn is_truthy(r: Register) -> bool {
    r.value != 0
}

pub fn truthy(r: Register) -> (b: bool)
    ensures
        b == is_truthy(r),
{
    r.value != 0
}

/// The boolean-typed result of a comparison opcode.
pub open spec fn bool_value(b: bool) -> Register {
    Register { tag: 0, value: if b { 1 } else { 0 } }
}

/// Addition keeps the left operand's tag and combines the raw payloads,
/// wrapping on overflow.
pub open spec fn eval_add(l: Register, r: Register) -> Register {
    Register { tag: l.tag, value: l.value.wrapping_add(r.value) }
}

/// Subtraction, payload-wise and wrapping.
pub open spec fn eval_sub(l: Register, r: Register) -> Register {
    Register { tag: l.tag, value: l.value.wrapping_sub(r.value) }
}

/// Multiplication, payload-wise and wrapping.
pub open spec fn eval_mul(l: Register, r: Register) -> Register {
    Register { tag: l.tag, value: l.value.wrapping_mul(r.value) }
}

/// Division, payload-wise; a zero divisor yields a zero payload rather than
/// a fault, as the machine has no fault channel of its own.
pub open spec fn eval_div(l: Register, r: Register) -> Register {
    Register {
        tag: l.tag,
        value: if r.value == 0 {
            0
        } else {
            (l.value as int / r.value as int) as u32
        },
    }
}

pub fn arith_add(l: Register, r: Register) -> (res: Register)
    ensures
        res == eval_add(l, r),
{
    Register { tag: l.tag, value: l.value.wrapping_add(r.value) }
}

pub fn arith_sub(l: Register, r: Register) -> (res: Register)
    ensures
        res == eval_sub(l, r),
{
    Register { tag: l.tag, value: l.value.wrapping_sub(r.value) }
}

pub fn arith_mul(l: Register, r: Register) -> (res: Register)
    ensures
        res == eval_mul(l, r),
{
    Register { tag: l.tag, value: l.value.wrapping_mul(r.value) }
}

pub fn arith_div(l: Register, r: Register) -> (res: Register)
    ensures
        res == eval_div(l, r),
{
    if r.value == 0 {
        Register { tag: l.tag, value: 0 }
    } else {
        Register { tag: l.tag, value: l.value / r.value }
    }
}

/// Ordering comparisons order the raw payloads as unsigned numbers.
pub open spec fn eval_less_than(l: Register, r: Register) -> Register {
    bool_value(l.value < r.value)
}

pub open spec fn eval_less_or_equal(l: Register, r: Register) -> Register {
    bool_value(l.value <= r.value)
}

pub open spec fn eval_greater_or_equal(l: Register, r: Register) -> Register {
    bool_value(l.value >= r.value)
}

pub open spec fn eval_greater_than(l: Register, r: Register) -> Register {
    bool_value(l.value > r.value)
}

/// Equality compares the whole value: tag and payload alike.
pub open spec fn eval_equal(l: Register, r: Register) -> Register {
    bool_value(l == r)
}

pub fn cmp_less_than(l: Register, r: Register) -> (res: Register)
    ensures
        res == eval_less_than(l, r),
{
    Register { tag: 0, value: if l.value < r.value { 1 } else { 0 } }
}

pub fn cmp_less_or_equal(l: Register, r: Register) -> (res: Register)
    ensures
        res == eval_less_or_equal(l, r),
{
    Register { tag: 0, value: if l.value <= r.value { 1 } else { 0 } }
}

pub fn cmp_greater_or_equal(l: Register, r: Register) -> (res: Register)
    ensures
        res == eval_greater_or_equal(l, r),
{
    Register { tag: 0, value: if l.value >= r.value { 1 } else { 0 } }
}

pub fn cmp_greater_than(l: Register, r: Register) -> (res: Register)
    ensures
        res == eval_greater_than(l, r),
{
    Register { tag: 0, value: if l.value > r.value { 1 } else { 0 } }
}

pub fn cmp_equal(l: Register, r: Register) -> (res: Register)
    ensures
        res == eval_equal(l, r),
{
    Register { tag: 0, value: if l.tag == r.tag && l.value == r.value { 1 } else { 0 } }
}

} // verus!

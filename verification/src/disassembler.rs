//! The instruction decoder: turns a flat byte buffer into typed instructions.
//!
//! Decoding is purely forward: a cursor reads one opcode byte, then a fixed,
//! opcode-specific run of operand bytes (little-endian where multi-byte), and
//! advances. A byte that matches no known instruction ends decoding silently,
//! whether it is a true end of the buffer, a truncated operand run, or an
//! unrecognized opcode.

use vstd::arithmetic::div_mod::lemma_fundamental_div_mod;
use vstd::prelude::*;

use crate::value::{VType, VValue};

verus! {

pub const OP_HALT: u8 = 0x00;

pub const OP_LOAD_IMMEDIATE: u8 = 0x01;

pub const OP_LOAD_ARGUMENT: u8 = 0x02;

pub const OP_LOAD_LOCAL: u8 = 0x03;

pub const OP_STORE_LOCAL: u8 = 0x04;

pub const OP_GET_FIELD: u8 = 0x05;

// 0x06 belongs to the field-write instruction: it is part of the instruction
// vocabulary, but the decode table deliberately produces no instruction for
// it, so an encoded field write reads as unrecognized and stops decoding.
pub const OP_ADD: u8 = 0x07;

pub const OP_SUB: u8 = 0x08;

pub const OP_MUL: u8 = 0x09;

pub const OP_DIV: u8 = 0x0A;

pub const OP_LESS_THAN: u8 = 0x0B;

pub const OP_LESS_OR_EQUAL: u8 = 0x0C;

pub const OP_EQUAL: u8 = 0x0D;

pub const OP_GREATER_OR_EQUAL: u8 = 0x0E;

pub const OP_GREATER_THAN: u8 = 0x0F;

pub const OP_JUMP: u8 = 0x10;

pub const OP_JUMP_TRUE: u8 = 0x11;

pub const OP_JUMP_FALSE: u8 = 0x12;

pub const OP_PUSH: u8 = 0x13;

pub const OP_CALL: u8 = 0x14;

pub const OP_RETURN: u8 = 0x15;

/// A temp register index: the per-instruction working set.
#[derive(Clone, Copy, PartialEq, Eq, Structural, Debug)]
pub struct TempRegister(pub usize);

/// A local register index: scratch that persists across the whole execution.
#[derive(Clone, Copy, PartialEq, Eq, Structural, Debug)]
pub struct LocalRegister(pub usize);

/// An argument register index: read-only, bound at program start.
#[derive(Clone, Copy, PartialEq, Eq, Structural, Debug)]
pub struct ArgRegister(pub usize);

/// An absolute byte offset into the original buffer, the target of a branch.
#[derive(Clone, Copy, PartialEq, Eq, Structural, Debug)]
pub struct Location(pub u32);

/// A key into the host's external symbol table.
#[derive(Clone, Copy, PartialEq, Eq, Structural, Debug)]
pub struct StringId(pub u16);

/// One decoded instruction.
///
/// `SetField` is declared as part of the vocabulary but the decoder never
/// produces it, and `Invalid` is a placeholder that no decode path yields.
#[derive(Clone, Copy, PartialEq, Eq, Structural, Debug)]
pub enum DisOpcode {
    Halt,
    LoadImmediate(TempRegister, VType, VValue),
    LoadArgument(ArgRegister, TempRegister),
    LoadLocal(LocalRegister, TempRegister),
    StoreLocal(TempRegister, LocalRegister),
    GetField(TempRegister, StringId, TempRegister),
    SetField(TempRegister, StringId, TempRegister),
    Add(TempRegister, TempRegister, TempRegister),
    Sub(TempRegister, TempRegister, TempRegister),
    Mul(TempRegister, TempRegister, TempRegister),
    Div(TempRegister, TempRegister, TempRegister),
    LessThan(TempRegister, TempRegister, TempRegister),
    LessOrEqual(TempRegister, TempRegister, TempRegister),
    Equal(TempRegister, TempRegister, TempRegister),
    GreaterOrEqual(TempRegister, TempRegister, TempRegister),
    GreaterThan(TempRegister, TempRegister, TempRegister),
    Jump(Location),
    JumpTrue(TempRegister, Location),
    JumpFalse(TempRegister, Location),
    Push(TempRegister),
    Call(StringId, TempRegister),
    Return(TempRegister),
    Invalid,
}

/// The number a two-byte little-endian operand denotes.
pub open spec fn le16(b: Seq<u8>, p: int) -> int {
    b[p] + 0x100 * b[p + 1]
}

/// The number a four-byte little-endian operand denotes.
pub open spec fn le32(b: Seq<u8>, p: int) -> int {
    b[p] + 0x100 * b[p + 1] + 0x1_0000 * b[p + 2] + 0x100_0000 * b[p + 3]
}

/// Relies on byteorder's `LittleEndian::read_u16`: the two bytes of the
/// slice, least significant first.
#[verifier::external_body]
fn read_u16_le(code: &Vec<u8>, pos: usize) -> (r: u16)
    requires
        pos + 2 <= code.len(),
    ensures
        r as int == le16(code@, pos as int),
{
    <byteorder::LittleEndian as byteorder::ByteOrder>::read_u16(&code[pos..pos + 2])
}

/// Relies on byteorder's `LittleEndian::read_u32`: the four bytes of the
/// slice, least significant first.
#[verifier::external_body]
fn read_u32_le(code: &Vec<u8>, pos: usize) -> (r: u32)
    requires
        pos + 4 <= code.len(),
    ensures
        r as int == le32(code@, pos as int),
{
    <byteorder::LittleEndian as byteorder::ByteOrder>::read_u32(&code[pos..pos + 4])
}

/// Every register index of the instruction fits the single operand byte it
/// was decoded from.
pub open spec fn regs_bounded(i: DisOpcode) -> bool {
    match i {
        DisOpcode::Halt => true,
        DisOpcode::LoadImmediate(TempRegister(d), _, _) => d < 256,
        DisOpcode::LoadArgument(ArgRegister(a), TempRegister(d)) => a < 256 && d < 256,
        DisOpcode::LoadLocal(LocalRegister(l), TempRegister(d)) => l < 256 && d < 256,
        DisOpcode::StoreLocal(TempRegister(s), LocalRegister(l)) => s < 256 && l < 256,
        DisOpcode::GetField(TempRegister(o), _, TempRegister(d)) => o < 256 && d < 256,
        DisOpcode::SetField(TempRegister(o), _, TempRegister(s)) => o < 256 && s < 256,
        DisOpcode::Add(TempRegister(l), TempRegister(r), TempRegister(d)) => l < 256 && r < 256
            && d < 256,
        DisOpcode::Sub(TempRegister(l), TempRegister(r), TempRegister(d)) => l < 256 && r < 256
            && d < 256,
        DisOpcode::Mul(TempRegister(l), TempRegister(r), TempRegister(d)) => l < 256 && r < 256
            && d < 256,
        DisOpcode::Div(TempRegister(l), TempRegister(r), TempRegister(d)) => l < 256 && r < 256
            && d < 256,
        DisOpcode::LessThan(TempRegister(l), TempRegister(r), TempRegister(d)) => l < 256 && r
            < 256 && d < 256,
        DisOpcode::LessOrEqual(TempRegister(l), TempRegister(r), TempRegister(d)) => l < 256 && r
            < 256 && d < 256,
        DisOpcode::Equal(TempRegister(l), TempRegister(r), TempRegister(d)) => l < 256 && r < 256
            && d < 256,
        DisOpcode::GreaterOrEqual(TempRegister(l), TempRegister(r), TempRegister(d)) => l < 256
            && r < 256 && d < 256,
        DisOpcode::GreaterThan(TempRegister(l), TempRegister(r), TempRegister(d)) => l < 256 && r
            < 256 && d < 256,
        DisOpcode::Jump(_) => true,
        DisOpcode::JumpTrue(TempRegister(c), _) => c < 256,
        DisOpcode::JumpFalse(TempRegister(c), _) => c < 256,
        DisOpcode::Push(TempRegister(s)) => s < 256,
        DisOpcode::Call(_, TempRegister(d)) => d < 256,
        DisOpcode::Return(TempRegister(s)) => s < 256,
        DisOpcode::Invalid => true,
    }
}

/// What decoding one instruction at offset `p` yields: the instruction and
/// the offset just past it, or nothing when the opcode byte matches no known
/// instruction or its operands run past the end of the buffer.
pub open spec fn spec_decode_one(b: Seq<u8>, p: int) -> Option<(DisOpcode, int)> {
    if !(0 <= p < b.len()) {
        None
    } else {
        let op = b[p];
        if op == OP_HALT {
            Some((DisOpcode::Halt, p + 1))
        } else if op == OP_LOAD_IMMEDIATE {
            if p + 7 <= b.len() {
                Some(
                    (
                        DisOpcode::LoadImmediate(
                            TempRegister(b[p + 1] as usize),
                            b[p + 2],
                            le32(b, p + 3) as u32,
                        ),
                        p + 7,
                    ),
                )
            } else {
                None
            }
        } else if op == OP_LOAD_ARGUMENT {
            if p + 3 <= b.len() {
                Some(
                    (
                        DisOpcode::LoadArgument(
                            ArgRegister(b[p + 1] as usize),
                            TempRegister(b[p + 2] as usize),
                        ),
                        p + 3,
                    ),
                )
            } else {
                None
            }
        } else if op == OP_LOAD_LOCAL {
            if p + 3 <= b.len() {
                Some(
                    (
                        DisOpcode::LoadLocal(
                            LocalRegister(b[p + 1] as usize),
                            TempRegister(b[p + 2] as usize),
                        ),
                        p + 3,
                    ),
                )
            } else {
                None
            }
        } else if op == OP_STORE_LOCAL {
            if p + 3 <= b.len() {
                Some(
                    (
                        DisOpcode::StoreLocal(
                            TempRegister(b[p + 1] as usize),
                            LocalRegister(b[p + 2] as usize),
                        ),
                        p + 3,
                    ),
                )
            } else {
                None
            }
        } else if op == OP_GET_FIELD {
            if p + 5 <= b.len() {
                Some(
                    (
                        DisOpcode::GetField(
                            TempRegister(b[p + 1] as usize),
                            StringId(le16(b, p + 2) as u16),
                            TempRegister(b[p + 4] as usize),
                        ),
                        p + 5,
                    ),
                )
            } else {
                None
            }
        } else if op == OP_ADD {
            spec_decode_three_regs(b, p, DisOpcode::Add(three_l(b, p), three_r(b, p), three_d(b, p)))
        } else if op == OP_SUB {
            spec_decode_three_regs(b, p, DisOpcode::Sub(three_l(b, p), three_r(b, p), three_d(b, p)))
        } else if op == OP_MUL {
            spec_decode_three_regs(b, p, DisOpcode::Mul(three_l(b, p), three_r(b, p), three_d(b, p)))
        } else if op == OP_DIV {
            spec_decode_three_regs(b, p, DisOpcode::Div(three_l(b, p), three_r(b, p), three_d(b, p)))
        } else if op == OP_LESS_THAN {
            spec_decode_three_regs(
                b,
                p,
                DisOpcode::LessThan(three_l(b, p), three_r(b, p), three_d(b, p)),
            )
        } else if op == OP_LESS_OR_EQUAL {
            spec_decode_three_regs(
                b,
                p,
                DisOpcode::LessOrEqual(three_l(b, p), three_r(b, p), three_d(b, p)),
            )
        } else if op == OP_EQUAL {
            spec_decode_three_regs(
                b,
                p,
                DisOpcode::Equal(three_l(b, p), three_r(b, p), three_d(b, p)),
            )
        } else if op == OP_GREATER_OR_EQUAL {
            spec_decode_three_regs(
                b,
                p,
                DisOpcode::GreaterOrEqual(three_l(b, p), three_r(b, p), three_d(b, p)),
            )
        } else if op == OP_GREATER_THAN {
            spec_decode_three_regs(
                b,
                p,
                DisOpcode::GreaterThan(three_l(b, p), three_r(b, p), three_d(b, p)),
            )
        } else if op == OP_JUMP {
            if p + 5 <= b.len() {
                Some((DisOpcode::Jump(Location(le32(b, p + 1) as u32)), p + 5))
            } else {
                None
            }
        } else if op == OP_JUMP_TRUE {
            if p + 6 <= b.len() {
                Some(
                    (
                        DisOpcode::JumpTrue(
                            TempRegister(b[p + 1] as usize),
                            Location(le32(b, p + 2) as u32),
                        ),
                        p + 6,
                    ),
                )
            } else {
                None
            }
        } else if op == OP_JUMP_FALSE {
            if p + 6 <= b.len() {
                Some(
                    (
                        DisOpcode::JumpFalse(
                            TempRegister(b[p + 1] as usize),
                            Location(le32(b, p + 2) as u32),
                        ),
                        p + 6,
                    ),
                )
            } else {
                None
            }
        } else if op == OP_PUSH {
            if p + 2 <= b.len() {
                Some((DisOpcode::Push(TempRegister(b[p + 1] as usize)), p + 2))
            } else {
                None
            }
        } else if op == OP_CALL {
            if p + 4 <= b.len() {
                Some(
                    (
                        DisOpcode::Call(
                            StringId(le16(b, p + 1) as u16),
                            TempRegister(b[p + 3] as usize),
                        ),
                        p + 4,
                    ),
                )
            } else {
                None
            }
        } else if op == OP_RETURN {
            if p + 2 <= b.len() {
                Some((DisOpcode::Return(TempRegister(b[p + 1] as usize)), p + 2))
            } else {
                None
            }
        } else {
            None
        }
    }
}

/// The left operand register of a three-register instruction.
pub open spec fn three_l(b: Seq<u8>, p: int) -> TempRegister {
    TempRegister(b[p + 1] as usize)
}

/// The right operand register of a three-register instruction.
pub open spec fn three_r(b: Seq<u8>, p: int) -> TempRegister {
    TempRegister(b[p + 2] as usize)
}

/// The destination register of a three-register instruction.
pub open spec fn three_d(b: Seq<u8>, p: int) -> TempRegister {
    TempRegister(b[p + 3] as usize)
}

/// A three-register instruction occupies four bytes in all.
pub open spec fn spec_decode_three_regs(b: Seq<u8>, p: int, i: DisOpcode) -> Option<
    (DisOpcode, int),
> {
    if p + 4 <= b.len() {
        Some((i, p + 4))
    } else {
        None
    }
}

/// Decoding advances the cursor strictly, and never past the end.
pub proof fn lemma_decode_one_advances(b: Seq<u8>, p: int)
    ensures
        match spec_decode_one(b, p) {
            Some((i, n)) => p < n <= b.len() && regs_bounded(i),
            None => true,
        },
{
}

/// Decodes the instruction at byte offset `pos` of `code`.
pub fn decode_one_at(code: &Vec<u8>, pos: usize) -> (r: Option<(DisOpcode, usize)>)
    ensures
        match r {
            Some((instr, next)) => spec_decode_one(code@, pos as int) == Some(
                (instr, next as int),
            ) && pos < next <= code.len() && regs_bounded(instr),
            None => spec_decode_one(code@, pos as int) is None,
        },
{
    if pos >= code.len() {
        return None;
    }
    let left = code.len() - pos;
    let op = code[pos];
    if op == OP_HALT {
        Some((DisOpcode::Halt, pos + 1))
    } else if op == OP_LOAD_IMMEDIATE {
        if left >= 7 {
            let d = code[pos + 1] as usize;
            let t = code[pos + 2];
            let v = read_u32_le(code, pos + 3);
            Some((DisOpcode::LoadImmediate(TempRegister(d), t, v), pos + 7))
        } else {
            None
        }
    } else if op == OP_LOAD_ARGUMENT {
        if left >= 3 {
            let a = code[pos + 1] as usize;
            let d = code[pos + 2] as usize;
            Some((DisOpcode::LoadArgument(ArgRegister(a), TempRegister(d)), pos + 3))
        } else {
            None
        }
    } else if op == OP_LOAD_LOCAL {
        if left >= 3 {
            let l = code[pos + 1] as usize;
            let d = code[pos + 2] as usize;
            Some((DisOpcode::LoadLocal(LocalRegister(l), TempRegister(d)), pos + 3))
        } else {
            None
        }
    } else if op == OP_STORE_LOCAL {
        if left >= 3 {
            let s = code[pos + 1] as usize;
            let l = code[pos + 2] as usize;
            Some((DisOpcode::StoreLocal(TempRegister(s), LocalRegister(l)), pos + 3))
        } else {
            None
        }
    } else if op == OP_GET_FIELD {
        if left >= 5 {
            let o = code[pos + 1] as usize;
            let name = read_u16_le(code, pos + 2);
            let d = code[pos + 4] as usize;
            Some((DisOpcode::GetField(TempRegister(o), StringId(name), TempRegister(d)), pos + 5))
        } else {
            None
        }
    } else if op == OP_ADD || op == OP_SUB || op == OP_MUL || op == OP_DIV || op == OP_LESS_THAN
        || op == OP_LESS_OR_EQUAL || op == OP_EQUAL || op == OP_GREATER_OR_EQUAL
        || op == OP_GREATER_THAN {
        if left >= 4 {
            let l = TempRegister(code[pos + 1] as usize);
            let r = TempRegister(code[pos + 2] as usize);
            let d = TempRegister(code[pos + 3] as usize);
            let instr = if op == OP_ADD {
                DisOpcode::Add(l, r, d)
            } else if op == OP_SUB {
                DisOpcode::Sub(l, r, d)
            } else if op == OP_MUL {
                DisOpcode::Mul(l, r, d)
            } else if op == OP_DIV {
                DisOpcode::Div(l, r, d)
            } else if op == OP_LESS_THAN {
                DisOpcode::LessThan(l, r, d)
            } else if op == OP_LESS_OR_EQUAL {
                DisOpcode::LessOrEqual(l, r, d)
            } else if op == OP_EQUAL {
                DisOpcode::Equal(l, r, d)
            } else if op == OP_GREATER_OR_EQUAL {
                DisOpcode::GreaterOrEqual(l, r, d)
            } else {
                DisOpcode::GreaterThan(l, r, d)
            };
            Some((instr, pos + 4))
        } else {
            None
        }
    } else if op == OP_JUMP {
        if left >= 5 {
            let target = read_u32_le(code, pos + 1);
            Some((DisOpcode::Jump(Location(target)), pos + 5))
        } else {
            None
        }
    } else if op == OP_JUMP_TRUE {
        if left >= 6 {
            let c = code[pos + 1] as usize;
            let target = read_u32_le(code, pos + 2);
            Some((DisOpcode::JumpTrue(TempRegister(c), Location(target)), pos + 6))
        } else {
            None
        }
    } else if op == OP_JUMP_FALSE {
        if left >= 6 {
            let c = code[pos + 1] as usize;
            let target = read_u32_le(code, pos + 2);
            Some((DisOpcode::JumpFalse(TempRegister(c), Location(target)), pos + 6))
        } else {
            None
        }
    } else if op == OP_PUSH {
        if left >= 2 {
            let s = code[pos + 1] as usize;
            Some((DisOpcode::Push(TempRegister(s)), pos + 2))
        } else {
            None
        }
    } else if op == OP_CALL {
        if left >= 4 {
            let name = read_u16_le(code, pos + 1);
            let d = code[pos + 3] as usize;
            Some((DisOpcode::Call(StringId(name), TempRegister(d)), pos + 4))
        } else {
            None
        }
    } else if op == OP_RETURN {
        if left >= 2 {
            let s = code[pos + 1] as usize;
            Some((DisOpcode::Return(TempRegister(s)), pos + 2))
        } else {
            None
        }
    } else {
        None
    }
}

/// The ordered sequence of instructions decoded from offset `p` onward:
/// decode until the stream ends.
pub open spec fn spec_decode_all(b: Seq<u8>, p: int) -> Seq<DisOpcode>
    decreases b.len() - p,
        via spec_decode_all_dec
{
    match spec_decode_one(b, p) {
        None => Seq::empty(),
        Some((i, n)) => seq![i] + spec_decode_all(b, n),
    }
}

#[via_fn]
proof fn spec_decode_all_dec(b: Seq<u8>, p: int) {
    lemma_decode_one_advances(b, p);
}

/// A truncated or empty buffer decodes to the empty instruction sequence:
/// whenever no complete first instruction can be read, nothing at all is
/// produced, and never an error.
pub proof fn lemma_truncated_decodes_empty(b: Seq<u8>, p: int)
    ensures
        spec_decode_one(b, p) is None ==> spec_decode_all(b, p) == Seq::<DisOpcode>::empty(),
        b.len() == 0 ==> spec_decode_all(b, p) == Seq::<DisOpcode>::empty(),
{
}

/// The two little-endian operand bytes that denote `v`.
pub open spec fn u16_bytes(v: u16) -> Seq<u8> {
    seq![(v as int % 256) as u8, (v as int / 256) as u8]
}

/// The four little-endian operand bytes that denote `v`.
pub open spec fn u32_bytes(v: u32) -> Seq<u8> {
    seq![
        (v as int % 256) as u8,
        (v as int / 256 % 256) as u8,
        (v as int / 65536 % 256) as u8,
        (v as int / 16777216) as u8,
    ]
}

/// An instruction has a well-formed encoding when every register index fits
/// its one operand byte; the field write and the placeholder have no
/// encoding at all.
pub open spec fn encodable(i: DisOpcode) -> bool {
    regs_bounded(i) && !(i is SetField) && !(i is Invalid)
}

/// The well-formed encoding of an instruction: the opcode byte followed by
/// its fixed operand bytes, little-endian where multi-byte.
pub open spec fn spec_encode(i: DisOpcode) -> Seq<u8> {
    match i {
        DisOpcode::Halt => seq![OP_HALT],
        DisOpcode::LoadImmediate(TempRegister(d), t, v) => seq![OP_LOAD_IMMEDIATE, d as u8, t]
            + u32_bytes(v),
        DisOpcode::LoadArgument(ArgRegister(a), TempRegister(d)) => seq![
            OP_LOAD_ARGUMENT,
            a as u8,
            d as u8,
        ],
        DisOpcode::LoadLocal(LocalRegister(l), TempRegister(d)) => seq![
            OP_LOAD_LOCAL,
            l as u8,
            d as u8,
        ],
        DisOpcode::StoreLocal(TempRegister(s), LocalRegister(l)) => seq![
            OP_STORE_LOCAL,
            s as u8,
            l as u8,
        ],
        DisOpcode::GetField(TempRegister(o), StringId(n), TempRegister(d)) => seq![
            OP_GET_FIELD,
            o as u8,
        ] + u16_bytes(n) + seq![d as u8],
        DisOpcode::SetField(_, _, _) => Seq::empty(),
        DisOpcode::Add(TempRegister(l), TempRegister(r), TempRegister(d)) => seq![
            OP_ADD,
            l as u8,
            r as u8,
            d as u8,
        ],
        DisOpcode::Sub(TempRegister(l), TempRegister(r), TempRegister(d)) => seq![
            OP_SUB,
            l as u8,
            r as u8,
            d as u8,
        ],
        DisOpcode::Mul(TempRegister(l), TempRegister(r), TempRegister(d)) => seq![
            OP_MUL,
            l as u8,
            r as u8,
            d as u8,
        ],
        DisOpcode::Div(TempRegister(l), TempRegister(r), TempRegister(d)) => seq![
            OP_DIV,
            l as u8,
            r as u8,
            d as u8,
        ],
        DisOpcode::LessThan(TempRegister(l), TempRegister(r), TempRegister(d)) => seq![
            OP_LESS_THAN,
            l as u8,
            r as u8,
            d as u8,
        ],
        DisOpcode::LessOrEqual(TempRegister(l), TempRegister(r), TempRegister(d)) => seq![
            OP_LESS_OR_EQUAL,
            l as u8,
            r as u8,
            d as u8,
        ],
        DisOpcode::Equal(TempRegister(l), TempRegister(r), TempRegister(d)) => seq![
            OP_EQUAL,
            l as u8,
            r as u8,
            d as u8,
        ],
        DisOpcode::GreaterOrEqual(TempRegister(l), TempRegister(r), TempRegister(d)) => seq![
            OP_GREATER_OR_EQUAL,
            l as u8,
            r as u8,
            d as u8,
        ],
        DisOpcode::GreaterThan(TempRegister(l), TempRegister(r), TempRegister(d)) => seq![
            OP_GREATER_THAN,
            l as u8,
            r as u8,
            d as u8,
        ],
        DisOpcode::Jump(Location(t)) => seq![OP_JUMP] + u32_bytes(t),
        DisOpcode::JumpTrue(TempRegister(c), Location(t)) => seq![OP_JUMP_TRUE, c as u8]
            + u32_bytes(t),
        DisOpcode::JumpFalse(TempRegister(c), Location(t)) => seq![OP_JUMP_FALSE, c as u8]
            + u32_bytes(t),
        DisOpcode::Push(TempRegister(s)) => seq![OP_PUSH, s as u8],
        DisOpcode::Call(StringId(n), TempRegister(d)) => seq![OP_CALL] + u16_bytes(n) + seq![
            d as u8,
        ],
        DisOpcode::Return(TempRegister(s)) => seq![OP_RETURN, s as u8],
        DisOpcode::Invalid => Seq::empty(),
    }
}

/// A two-byte little-endian operand reads back as the number it encodes.
pub proof fn lemma_le16_bytes(v: u16)
    ensures
        le16(u16_bytes(v), 0) == v as int,
{
    lemma_fundamental_div_mod(v as int, 256);
}

/// A four-byte little-endian operand reads back as the number it encodes.
pub proof fn lemma_le32_bytes(v: u32)
    ensures
        le32(u32_bytes(v), 0) == v as int,
{
    let x = v as int;
    lemma_fundamental_div_mod(x, 256);
    lemma_fundamental_div_mod(x / 256, 256);
    lemma_fundamental_div_mod(x / 65536, 256);
    assert((x / 256) / 256 == x / 65536) by (nonlinear_arith);
    assert((x / 65536) / 256 == x / 16777216) by (nonlinear_arith);
}

/// The round trip: decoding a well-formed encoding, whatever follows it,
/// reproduces the instruction and its exact operand values, and advances
/// just past its bytes.
pub proof fn lemma_decode_round_trip(i: DisOpcode, rest: Seq<u8>)
    requires
        encodable(i),
    ensures
        spec_decode_one(spec_encode(i) + rest, 0) == Some((i, spec_encode(i).len() as int)),
{
    let b = spec_encode(i) + rest;
    match i {
        DisOpcode::LoadImmediate(TempRegister(d), t, v) => {
            lemma_le32_bytes(v);
            assert(le32(b, 3) == le32(u32_bytes(v), 0));
        }
        DisOpcode::GetField(TempRegister(o), StringId(n), TempRegister(d)) => {
            lemma_le16_bytes(n);
            assert(le16(b, 2) == le16(u16_bytes(n), 0));
        }
        DisOpcode::Jump(Location(t)) => {
            lemma_le32_bytes(t);
            assert(le32(b, 1) == le32(u32_bytes(t), 0));
        }
        DisOpcode::JumpTrue(TempRegister(c), Location(t)) => {
            lemma_le32_bytes(t);
            assert(le32(b, 2) == le32(u32_bytes(t), 0));
        }
        DisOpcode::JumpFalse(TempRegister(c), Location(t)) => {
            lemma_le32_bytes(t);
            assert(le32(b, 2) == le32(u32_bytes(t), 0));
        }
        DisOpcode::Call(StringId(n), TempRegister(d)) => {
            lemma_le16_bytes(n);
            assert(le16(b, 1) == le16(u16_bytes(n), 0));
        }
        _ => {}
    }
}

/// The forward disassembler: owns a byte buffer and a monotonically
/// advancing cursor.
#[derive(Debug)]
pub struct Dism {
    bytes: Vec<u8>,
    pos: usize,
}

impl Dism {
    /// The bytes being decoded.
    pub closed spec fn code(self) -> Seq<u8> {
        self.bytes@
    }

    /// The cursor: the byte offset the next decode starts at.
    pub closed spec fn position(self) -> int {
        self.pos as int
    }

    pub fn new(bytecode: Vec<u8>) -> (d: Dism)
        ensures
            d.code() == bytecode@,
            d.position() == 0,
    {
        Dism { bytes: bytecode, pos: 0 }
    }

    /// Decodes the one instruction under the cursor and advances past it;
    /// yields nothing, and leaves the cursor alone, when the stream ends.
    pub fn disassemble_one(&mut self) -> (r: Option<DisOpcode>)
        ensures
            final(self).code() == old(self).code(),
            match spec_decode_one(old(self).code(), old(self).position()) {
                Some((i, n)) => r == Some(i) && final(self).position() == n,
                None => r is None && final(self).position() == old(self).position(),
            },
    {
        match decode_one_at(&self.bytes, self.pos) {
            Some((instr, next)) => {
                self.pos = next;
                Some(instr)
            }
            None => None,
        }
    }

    /// Decodes every remaining instruction, in order, until the stream ends.
    pub fn disassemble(&mut self) -> (res: Vec<DisOpcode>)
        ensures
            final(self).code() == old(self).code(),
            res@ == spec_decode_all(old(self).code(), old(self).position()),
    {
        let mut res: Vec<DisOpcode> = Vec::new();
        loop
            invariant
                self.code() == old(self).code(),
                spec_decode_all(old(self).code(), old(self).position()) == res@ + spec_decode_all(
                    self.code(),
                    self.position(),
                ),
            decreases self.code().len() - self.position(),
        {
            let ghost before: int = self.position();
            match self.disassemble_one() {
                Some(op) => {
                    proof {
                        assert(spec_decode_all(self.code(), before) == seq![op]
                            + spec_decode_all(self.code(), self.position()));
                    }
                    res.push(op);
                    proof {
                        assert(spec_decode_all(old(self).code(), old(self).position()) == res@
                            + spec_decode_all(self.code(), self.position()));
                    }
                }
                None => {
                    proof {
                        assert(spec_decode_all(self.code(), self.position())
                            == Seq::<DisOpcode>::empty());
                        assert(res@ + Seq::<DisOpcode>::empty() =~= res@);
                    }
                    return res;
                }
            }
        }
    }
}

} // verus!

use vstd::prelude::*;
use vstd::arithmetic::div_mod::{lemma_div_denominator, lemma_fundamental_div_mod};

use crate::opcodes::{ArgKind, OpCode, OpMode, opcode_table, opcode_info};

verus! {

/// Largest value of the 18-bit Bx field.
pub const MAXARG_BX: u32 = 262143;

/// Bias subtracted from Bx to obtain the signed sBx field (half of `MAXARG_BX`).
pub const MAXARG_SBX: u32 = 131071;

/// One raw 32-bit instruction word, decoded on demand.
#[derive(Clone, Copy, Debug)]
pub struct Instruction(pub u32);

/// Opcode index: bits [0, 6).
pub open spec fn op_field(w: u32) -> nat {
    (w as nat) % 64
}

/// Operand A: bits [6, 14).
pub open spec fn a_field(w: u32) -> nat {
    ((w as nat) / 64) % 256
}

/// Operand B: bits [14, 23).
pub open spec fn b_field(w: u32) -> nat {
    ((w as nat) / 16384) % 512
}

/// Operand C: bits [23, 32).
pub open spec fn c_field(w: u32) -> nat {
    (w as nat) / 8388608
}

/// Operand Bx: bits [14, 32), unsigned.
pub open spec fn bx_field(w: u32) -> nat {
    (w as nat) / 16384
}

/// Operand Ax: bits [6, 32), unsigned.
pub open spec fn ax_field(w: u32) -> nat {
    (w as nat) / 64
}

/// The signed operand sBx: Bx minus the bias `MAXARG_SBX`.
pub open spec fn sbx_field(w: u32) -> int {
    bx_field(w) - MAXARG_SBX
}

/// Word with the given opcode and A, B, C operands.
pub open spec fn pack_abc(op: nat, a: nat, b: nat, c: nat) -> nat {
    op + a * 64 + b * 16384 + c * 8388608
}

/// Word with the given opcode and A, Bx operands.
pub open spec fn pack_abx(op: nat, a: nat, bx: nat) -> nat {
    op + a * 64 + bx * 16384
}

/// Word with the given opcode and A, sBx operands.
pub open spec fn pack_asbx(op: nat, a: nat, sbx: int) -> int {
    op + a * 64 + (sbx + MAXARG_SBX) * 16384
}

/// Word with the given opcode and Ax operand.
pub open spec fn pack_ax(op: nat, ax: nat) -> nat {
    op + ax * 64
}

/// How a B or C operand that may name a constant is shown: a field above
/// 0xFF is the constant `field & 0xFF`, written as `-1 - (field & 0xFF)`;
/// any other field is a register, written as it is.
pub open spec fn rk_value(field: nat) -> int {
    if field > 255 {
        -1 - (field % 256) as int
    } else {
        field as int
    }
}

/// The operands of word `w` as a disassembly lists them, by the layout and
/// operand roles of its opcode.
pub open spec fn shown_operands(w: u32) -> Seq<int> {
    let info = opcode_table(op_field(w) as u32);
    match info.op_mode {
        OpMode::IABC => seq![a_field(w) as int] + (if info.arg_b_mode != ArgKind::OpArgN {
            seq![rk_value(b_field(w))]
        } else {
            Seq::empty()
        }) + (if info.arg_c_mode != ArgKind::OpArgN {
            seq![rk_value(c_field(w))]
        } else {
            Seq::empty()
        }),
        OpMode::IABx => seq![a_field(w) as int] + (if info.arg_b_mode == ArgKind::OpArgK {
            seq![-1 - bx_field(w)]
        } else if info.arg_b_mode == ArgKind::OpArgU {
            seq![bx_field(w) as int]
        } else {
            Seq::empty()
        }),
        OpMode::IAsBx => seq![a_field(w) as int, sbx_field(w)],
        OpMode::IAx => seq![-1 - ax_field(w)],
    }
}

/// Decoding a word with the ABC layout and packing the fields again gives the word back.
pub proof fn lemma_abc_round_trip(w: u32)
    ensures
        pack_abc(op_field(w), a_field(w), b_field(w), c_field(w)) == w,
{
    lemma_shift_parts(w);
}

/// Decoding a word with the ABx layout and packing the fields again gives the word back.
pub proof fn lemma_abx_round_trip(w: u32)
    ensures
        pack_abx(op_field(w), a_field(w), bx_field(w)) == w,
{
    lemma_shift_parts(w);
}

/// Decoding a word with the AsBx layout and packing the fields again gives the word back.
pub proof fn lemma_asbx_round_trip(w: u32)
    ensures
        pack_asbx(op_field(w), a_field(w), sbx_field(w)) == w,
{
    lemma_shift_parts(w);
}

/// Decoding a word with the Ax layout and packing the fields again gives the word back.
pub proof fn lemma_ax_round_trip(w: u32)
    ensures
        pack_ax(op_field(w), ax_field(w)) == w,
{
    lemma_shift_parts(w);
}

proof fn lemma_shift_parts(w: u32)
    ensures
        w == op_field(w) + 64 * ax_field(w),
        ax_field(w) == a_field(w) + 256 * bx_field(w),
        bx_field(w) == b_field(w) + 512 * c_field(w),
{
    let x = w as nat;
    lemma_fundamental_div_mod(x as int, 64);
    lemma_fundamental_div_mod(x as int / 64, 256);
    lemma_div_denominator(x as int, 64, 256);
    lemma_fundamental_div_mod(x as int / 16384, 512);
    lemma_div_denominator(x as int, 16384, 512);
}

#[allow(non_snake_case)]
impl Instruction {
    pub fn new(value: u32) -> (r: Instruction)
        ensures
            r.0 == value,
    {
        Instruction(value)
    }

    /// The A, B and C operands.
    pub fn ABC(self) -> (r: (u32, u32, u32))
        ensures
            r.0 == a_field(self.0),
            r.1 == b_field(self.0),
            r.2 == c_field(self.0),
    {
        let w = self.0;
        assert((w >> 6u32) & 0xFFu32 == (w / 64) % 256) by (bit_vector);
        assert((w >> 14u32) & 0x1FFu32 == (w / 16384) % 512) by (bit_vector);
        assert((w >> 23u32) & 0x1FFu32 == w / 8388608) by (bit_vector);
        (w >> 6 & 0xFF, w >> 14 & 0x1FF, w >> 23 & 0x1FF)
    }

    /// The opcode's metadata, looked up by bits [0, 6).
    pub fn opcode(self) -> (r: OpCode)
        ensures
            r == opcode_table(op_field(self.0) as u32),
    {
        let w = self.0;
        assert(w & 0x3Fu32 == w % 64) by (bit_vector);
        opcode_info(w & 0x3F)
    }

    /// The A and Bx operands.
    pub fn ABx(self) -> (r: (u32, u32))
        ensures
            r.0 == a_field(self.0),
            r.1 == bx_field(self.0),
    {
        let w = self.0;
        assert((w >> 6u32) & 0xFFu32 == (w / 64) % 256) by (bit_vector);
        assert(w >> 14u32 == w / 16384) by (bit_vector);
        (w >> 6 & 0xFF, w >> 14)
    }

    /// The A operand and the signed sBx operand.
    pub fn AsBx(self) -> (r: (u32, i32))
        ensures
            r.0 == a_field(self.0),
            r.1 == sbx_field(self.0),
    {
        let (a, bx) = self.ABx();
        assert(self.0 / 16384 <= MAXARG_BX) by (nonlinear_arith);
        (a, bx as i32 - MAXARG_SBX as i32)
    }

    /// The Ax operand.
    pub fn Ax(self) -> (r: u32)
        ensures
            r == ax_field(self.0),
    {
        let w = self.0;
        assert(w >> 6u32 == w / 64) by (bit_vector);
        w >> 6
    }

    pub fn opname(self) -> (r: &'static str)
        ensures
            r == opcode_table(op_field(self.0) as u32).name,
    {
        self.opcode().name
    }

    pub fn opmode(self) -> (r: OpMode)
        ensures
            r == opcode_table(op_field(self.0) as u32).op_mode,
    {
        self.opcode().op_mode
    }

    pub fn b_mode(self) -> (r: ArgKind)
        ensures
            r == opcode_table(op_field(self.0) as u32).arg_b_mode,
    {
        self.opcode().arg_b_mode
    }

    pub fn c_mode(self) -> (r: ArgKind)
        ensures
            r == opcode_table(op_field(self.0) as u32).arg_c_mode,
    {
        self.opcode().arg_c_mode
    }

    /// The operands as a disassembly shows them: constant references as
    /// negative numbers, unused operands left out.
    pub fn shown_operands(self) -> (r: Vec<i64>)
        ensures
            r@.map_values(|v: i64| v as int) == shown_operands(self.0),
    {
        let mut out: Vec<i64> = Vec::new();
        let w = self.0;
        match self.opmode() {
            OpMode::IABC => {
                let (a, b, c) = self.ABC();
                out.push(a as i64);
                if self.b_mode() != ArgKind::OpArgN {
                    out.push(rk_operand(b));
                }
                if self.c_mode() != ArgKind::OpArgN {
                    out.push(rk_operand(c));
                }
            },
            OpMode::IABx => {
                let (a, bx) = self.ABx();
                out.push(a as i64);
                let kind = self.b_mode();
                if kind == ArgKind::OpArgK {
                    out.push(-1 - bx as i64);
                } else if kind == ArgKind::OpArgU {
                    out.push(bx as i64);
                }
            },
            OpMode::IAsBx => {
                let (a, sbx) = self.AsBx();
                out.push(a as i64);
                out.push(sbx as i64);
            },
            OpMode::IAx => {
                out.push(-1 - self.Ax() as i64);
            },
        }
        assert(out@.map_values(|v: i64| v as int) =~= shown_operands(w));
        out
    }
}

/// Shows a B or C operand that may name a constant (see `rk_value`).
pub fn rk_operand(field: u32) -> (r: i64)
    ensures
        r == rk_value(field as nat),
{
    if field > 0xFF {
        assert(field & 0xFFu32 == field % 256) by (bit_vector);
        -1 - (field & 0xFF) as i64
    } else {
        field as i64
    }
}

} // verus!

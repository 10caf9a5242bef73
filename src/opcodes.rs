use vstd::prelude::*;

verus! {

/// Number of slots in the opcode table: one per value of the 6-bit opcode field.
pub const NUM_OPCODE_SLOTS: u32 = 64;

/// Layout of an instruction word's operand bits.
#[derive(Clone, Copy, Debug, PartialEq, Eq, Structural)]
pub enum OpMode {
    /// A (8 bits), B (9 bits), C (9 bits).
    IABC,
    /// A (8 bits), Bx (18 bits, unsigned).
    IABx,
    /// A (8 bits), sBx (18 bits, biased signed).
    IAsBx,
    /// Ax (26 bits, unsigned).
    IAx,
}

/// Role of the B and C operands.
#[derive(Clone, Copy, Debug, PartialEq, Eq, Structural)]
pub enum ArgKind {
    /// The operand is not used.
    OpArgN,
    /// The operand is a raw value.
    OpArgU,
    /// The operand is a register (or a jump offset).
    OpArgR,
    /// The operand is a register or an index into the constant pool.
    OpArgK,
}

/// Metadata of one opcode: display name, operand layout and operand roles.
#[derive(Clone, Copy, Debug)]
pub struct OpCode {
    pub name: &'static str,
    pub op_mode: OpMode,
    pub arg_b_mode: ArgKind,
    pub arg_c_mode: ArgKind,
}

/// The opcode table. Slots past `EXTRAARG` are reserved: they decode with the
/// ABC layout, unused operands and the name `"INVALID"`.
pub open spec fn opcode_table(op: u32) -> OpCode {
    match op {
        0 => OpCode { name: "MOVE", op_mode: OpMode::IABC, arg_b_mode: ArgKind::OpArgR, arg_c_mode: ArgKind::OpArgN },
        1 => OpCode { name: "LOADK", op_mode: OpMode::IABx, arg_b_mode: ArgKind::OpArgK, arg_c_mode: ArgKind::OpArgN },
        2 => OpCode { name: "LOADKX", op_mode: OpMode::IABx, arg_b_mode: ArgKind::OpArgN, arg_c_mode: ArgKind::OpArgN },
        3 => OpCode { name: "LOADBOOL", op_mode: OpMode::IABC, arg_b_mode: ArgKind::OpArgU, arg_c_mode: ArgKind::OpArgU },
        4 => OpCode { name: "LOADNIL", op_mode: OpMode::IABC, arg_b_mode: ArgKind::OpArgU, arg_c_mode: ArgKind::OpArgN },
        5 => OpCode { name: "GETUPVAL", op_mode: OpMode::IABC, arg_b_mode: ArgKind::OpArgU, arg_c_mode: ArgKind::OpArgN },
        6 => OpCode { name: "GETTABUP", op_mode: OpMode::IABC, arg_b_mode: ArgKind::OpArgU, arg_c_mode: ArgKind::OpArgK },
        7 => OpCode { name: "GETTABLE", op_mode: OpMode::IABC, arg_b_mode: ArgKind::OpArgR, arg_c_mode: ArgKind::OpArgK },
        8 => OpCode { name: "SETTABUP", op_mode: OpMode::IABC, arg_b_mode: ArgKind::OpArgK, arg_c_mode: ArgKind::OpArgK },
        9 => OpCode { name: "SETUPVAL", op_mode: OpMode::IABC, arg_b_mode: ArgKind::OpArgU, arg_c_mode: ArgKind::OpArgN },
        10 => OpCode { name: "SETTABLE", op_mode: OpMode::IABC, arg_b_mode: ArgKind::OpArgK, arg_c_mode: ArgKind::OpArgK },
        11 => OpCode { name: "NEWTABLE", op_mode: OpMode::IABC, arg_b_mode: ArgKind::OpArgU, arg_c_mode: ArgKind::OpArgU },
        12 => OpCode { name: "SELF", op_mode: OpMode::IABC, arg_b_mode: ArgKind::OpArgR, arg_c_mode: ArgKind::OpArgK },
        13 => OpCode { name: "ADD", op_mode: OpMode::IABC, arg_b_mode: ArgKind::OpArgK, arg_c_mode: ArgKind::OpArgK },
        14 => OpCode { name: "SUB", op_mode: OpMode::IABC, arg_b_mode: ArgKind::OpArgK, arg_c_mode: ArgKind::OpArgK },
        15 => OpCode { name: "MUL", op_mode: OpMode::IABC, arg_b_mode: ArgKind::OpArgK, arg_c_mode: ArgKind::OpArgK },
        16 => OpCode { name: "MOD", op_mode: OpMode::IABC, arg_b_mode: ArgKind::OpArgK, arg_c_mode: ArgKind::OpArgK },
        17 => OpCode { name: "POW", op_mode: OpMode::IABC, arg_b_mode: ArgKind::OpArgK, arg_c_mode: ArgKind::OpArgK },
        18 => OpCode { name: "DIV", op_mode: OpMode::IABC, arg_b_mode: ArgKind::OpArgK, arg_c_mode: ArgKind::OpArgK },
        19 => OpCode { name: "IDIV", op_mode: OpMode::IABC, arg_b_mode: ArgKind::OpArgK, arg_c_mode: ArgKind::OpArgK },
        20 => OpCode { name: "BAND", op_mode: OpMode::IABC, arg_b_mode: ArgKind::OpArgK, arg_c_mode: ArgKind::OpArgK },
        21 => OpCode { name: "BOR", op_mode: OpMode::IABC, arg_b_mode: ArgKind::OpArgK, arg_c_mode: ArgKind::OpArgK },
        22 => OpCode { name: "BXOR", op_mode: OpMode::IABC, arg_b_mode: ArgKind::OpArgK, arg_c_mode: ArgKind::OpArgK },
        23 => OpCode { name: "SHL", op_mode: OpMode::IABC, arg_b_mode: ArgKind::OpArgK, arg_c_mode: ArgKind::OpArgK },
        24 => OpCode { name: "SHR", op_mode: OpMode::IABC, arg_b_mode: ArgKind::OpArgK, arg_c_mode: ArgKind::OpArgK },
        25 => OpCode { name: "UNM", op_mode: OpMode::IABC, arg_b_mode: ArgKind::OpArgR, arg_c_mode: ArgKind::OpArgN },
        26 => OpCode { name: "BNOT", op_mode: OpMode::IABC, arg_b_mode: ArgKind::OpArgR, arg_c_mode: ArgKind::OpArgN },
        27 => OpCode { name: "NOT", op_mode: OpMode::IABC, arg_b_mode: ArgKind::OpArgR, arg_c_mode: ArgKind::OpArgN },
        28 => OpCode { name: "LEN", op_mode: OpMode::IABC, arg_b_mode: ArgKind::OpArgR, arg_c_mode: ArgKind::OpArgN },
        29 => OpCode { name: "CONCAT", op_mode: OpMode::IABC, arg_b_mode: ArgKind::OpArgR, arg_c_mode: ArgKind::OpArgR },
        30 => OpCode { name: "JMP", op_mode: OpMode::IAsBx, arg_b_mode: ArgKind::OpArgR, arg_c_mode: ArgKind::OpArgN },
        31 => OpCode { name: "EQ", op_mode: OpMode::IABC, arg_b_mode: ArgKind::OpArgK, arg_c_mode: ArgKind::OpArgK },
        32 => OpCode { name: "LT", op_mode: OpMode::IABC, arg_b_mode: ArgKind::OpArgK, arg_c_mode: ArgKind::OpArgK },
        33 => OpCode { name: "LE", op_mode: OpMode::IABC, arg_b_mode: ArgKind::OpArgK, arg_c_mode: ArgKind::OpArgK },
        34 => OpCode { name: "TEST", op_mode: OpMode::IABC, arg_b_mode: ArgKind::OpArgN, arg_c_mode: ArgKind::OpArgU },
        35 => OpCode { name: "TESTSET", op_mode: OpMode::IABC, arg_b_mode: ArgKind::OpArgR, arg_c_mode: ArgKind::OpArgU },
        36 => OpCode { name: "CALL", op_mode: OpMode::IABC, arg_b_mode: ArgKind::OpArgU, arg_c_mode: ArgKind::OpArgU },
        37 => OpCode { name: "TAILCALL", op_mode: OpMode::IABC, arg_b_mode: ArgKind::OpArgU, arg_c_mode: ArgKind::OpArgU },
        38 => OpCode { name: "RETURN", op_mode: OpMode::IABC, arg_b_mode: ArgKind::OpArgU, arg_c_mode: ArgKind::OpArgN },
        39 => OpCode { name: "FORLOOP", op_mode: OpMode::IAsBx, arg_b_mode: ArgKind::OpArgR, arg_c_mode: ArgKind::OpArgN },
        40 => OpCode { name: "FORPREP", op_mode: OpMode::IAsBx, arg_b_mode: ArgKind::OpArgR, arg_c_mode: ArgKind::OpArgN },
        41 => OpCode { name: "TFORCALL", op_mode: OpMode::IABC, arg_b_mode: ArgKind::OpArgN, arg_c_mode: ArgKind::OpArgU },
        42 => OpCode { name: "TFORLOOP", op_mode: OpMode::IAsBx, arg_b_mode: ArgKind::OpArgR, arg_c_mode: ArgKind::OpArgN },
        43 => OpCode { name: "SETLIST", op_mode: OpMode::IABC, arg_b_mode: ArgKind::OpArgU, arg_c_mode: ArgKind::OpArgU },
        44 => OpCode { name: "CLOSURE", op_mode: OpMode::IABx, arg_b_mode: ArgKind::OpArgU, arg_c_mode: ArgKind::OpArgN },
        45 => OpCode { name: "VARARG", op_mode: OpMode::IABC, arg_b_mode: ArgKind::OpArgU, arg_c_mode: ArgKind::OpArgN },
        46 => OpCode { name: "EXTRAARG", op_mode: OpMode::IAx, arg_b_mode: ArgKind::OpArgU, arg_c_mode: ArgKind::OpArgU },
        _ => OpCode { name: "INVALID", op_mode: OpMode::IABC, arg_b_mode: ArgKind::OpArgN, arg_c_mode: ArgKind::OpArgN },
    }
}

/// Looks up the metadata of opcode `op`.
pub fn opcode_info(op: u32) -> (r: OpCode)
    requires
        op < NUM_OPCODE_SLOTS,
    ensures
        r == opcode_table(op),
{
    match op {
        0 => OpCode { name: "MOVE", op_mode: OpMode::IABC, arg_b_mode: ArgKind::OpArgR, arg_c_mode: ArgKind::OpArgN },
        1 => OpCode { name: "LOADK", op_mode: OpMode::IABx, arg_b_mode: ArgKind::OpArgK, arg_c_mode: ArgKind::OpArgN },
        2 => OpCode { name: "LOADKX", op_mode: OpMode::IABx, arg_b_mode: ArgKind::OpArgN, arg_c_mode: ArgKind::OpArgN },
        3 => OpCode { name: "LOADBOOL", op_mode: OpMode::IABC, arg_b_mode: ArgKind::OpArgU, arg_c_mode: ArgKind::OpArgU },
        4 => OpCode { name: "LOADNIL", op_mode: OpMode::IABC, arg_b_mode: ArgKind::OpArgU, arg_c_mode: ArgKind::OpArgN },
        5 => OpCode { name: "GETUPVAL", op_mode: OpMode::IABC, arg_b_mode: ArgKind::OpArgU, arg_c_mode: ArgKind::OpArgN },
        6 => OpCode { name: "GETTABUP", op_mode: OpMode::IABC, arg_b_mode: ArgKind::OpArgU, arg_c_mode: ArgKind::OpArgK },
        7 => OpCode { name: "GETTABLE", op_mode: OpMode::IABC, arg_b_mode: ArgKind::OpArgR, arg_c_mode: ArgKind::OpArgK },
        8 => OpCode { name: "SETTABUP", op_mode: OpMode::IABC, arg_b_mode: ArgKind::OpArgK, arg_c_mode: ArgKind::OpArgK },
        9 => OpCode { name: "SETUPVAL", op_mode: OpMode::IABC, arg_b_mode: ArgKind::OpArgU, arg_c_mode: ArgKind::OpArgN },
        10 => OpCode { name: "SETTABLE", op_mode: OpMode::IABC, arg_b_mode: ArgKind::OpArgK, arg_c_mode: ArgKind::OpArgK },
        11 => OpCode { name: "NEWTABLE", op_mode: OpMode::IABC, arg_b_mode: ArgKind::OpArgU, arg_c_mode: ArgKind::OpArgU },
        12 => OpCode { name: "SELF", op_mode: OpMode::IABC, arg_b_mode: ArgKind::OpArgR, arg_c_mode: ArgKind::OpArgK },
        13 => OpCode { name: "ADD", op_mode: OpMode::IABC, arg_b_mode: ArgKind::OpArgK, arg_c_mode: ArgKind::OpArgK },
        14 => OpCode { name: "SUB", op_mode: OpMode::IABC, arg_b_mode: ArgKind::OpArgK, arg_c_mode: ArgKind::OpArgK },
        15 => OpCode { name: "MUL", op_mode: OpMode::IABC, arg_b_mode: ArgKind::OpArgK, arg_c_mode: ArgKind::OpArgK },
        16 => OpCode { name: "MOD", op_mode: OpMode::IABC, arg_b_mode: ArgKind::OpArgK, arg_c_mode: ArgKind::OpArgK },
        17 => OpCode { name: "POW", op_mode: OpMode::IABC, arg_b_mode: ArgKind::OpArgK, arg_c_mode: ArgKind::OpArgK },
        18 => OpCode { name: "DIV", op_mode: OpMode::IABC, arg_b_mode: ArgKind::OpArgK, arg_c_mode: ArgKind::OpArgK },
        19 => OpCode { name: "IDIV", op_mode: OpMode::IABC, arg_b_mode: ArgKind::OpArgK, arg_c_mode: ArgKind::OpArgK },
        20 => OpCode { name: "BAND", op_mode: OpMode::IABC, arg_b_mode: ArgKind::OpArgK, arg_c_mode: ArgKind::OpArgK },
        21 => OpCode { name: "BOR", op_mode: OpMode::IABC, arg_b_mode: ArgKind::OpArgK, arg_c_mode: ArgKind::OpArgK },
        22 => OpCode { name: "BXOR", op_mode: OpMode::IABC, arg_b_mode: ArgKind::OpArgK, arg_c_mode: ArgKind::OpArgK },
        23 => OpCode { name: "SHL", op_mode: OpMode::IABC, arg_b_mode: ArgKind::OpArgK, arg_c_mode: ArgKind::OpArgK },
        24 => OpCode { name: "SHR", op_mode: OpMode::IABC, arg_b_mode: ArgKind::OpArgK, arg_c_mode: ArgKind::OpArgK },
        25 => OpCode { name: "UNM", op_mode: OpMode::IABC, arg_b_mode: ArgKind::OpArgR, arg_c_mode: ArgKind::OpArgN },
        26 => OpCode { name: "BNOT", op_mode: OpMode::IABC, arg_b_mode: ArgKind::OpArgR, arg_c_mode: ArgKind::OpArgN },
        27 => OpCode { name: "NOT", op_mode: OpMode::IABC, arg_b_mode: ArgKind::OpArgR, arg_c_mode: ArgKind::OpArgN },
        28 => OpCode { name: "LEN", op_mode: OpMode::IABC, arg_b_mode: ArgKind::OpArgR, arg_c_mode: ArgKind::OpArgN },
        29 => OpCode { name: "CONCAT", op_mode: OpMode::IABC, arg_b_mode: ArgKind::OpArgR, arg_c_mode: ArgKind::OpArgR },
        30 => OpCode { name: "JMP", op_mode: OpMode::IAsBx, arg_b_mode: ArgKind::OpArgR, arg_c_mode: ArgKind::OpArgN },
        31 => OpCode { name: "EQ", op_mode: OpMode::IABC, arg_b_mode: ArgKind::OpArgK, arg_c_mode: ArgKind::OpArgK },
        32 => OpCode { name: "LT", op_mode: OpMode::IABC, arg_b_mode: ArgKind::OpArgK, arg_c_mode: ArgKind::OpArgK },
        33 => OpCode { name: "LE", op_mode: OpMode::IABC, arg_b_mode: ArgKind::OpArgK, arg_c_mode: ArgKind::OpArgK },
        34 => OpCode { name: "TEST", op_mode: OpMode::IABC, arg_b_mode: ArgKind::OpArgN, arg_c_mode: ArgKind::OpArgU },
        35 => OpCode { name: "TESTSET", op_mode: OpMode::IABC, arg_b_mode: ArgKind::OpArgR, arg_c_mode: ArgKind::OpArgU },
        36 => OpCode { name: "CALL", op_mode: OpMode::IABC, arg_b_mode: ArgKind::OpArgU, arg_c_mode: ArgKind::OpArgU },
        37 => OpCode { name: "TAILCALL", op_mode: OpMode::IABC, arg_b_mode: ArgKind::OpArgU, arg_c_mode: ArgKind::OpArgU },
        38 => OpCode { name: "RETURN", op_mode: OpMode::IABC, arg_b_mode: ArgKind::OpArgU, arg_c_mode: ArgKind::OpArgN },
        39 => OpCode { name: "FORLOOP", op_mode: OpMode::IAsBx, arg_b_mode: ArgKind::OpArgR, arg_c_mode: ArgKind::OpArgN },
        40 => OpCode { name: "FORPREP", op_mode: OpMode::IAsBx, arg_b_mode: ArgKind::OpArgR, arg_c_mode: ArgKind::OpArgN },
        41 => OpCode { name: "TFORCALL", op_mode: OpMode::IABC, arg_b_mode: ArgKind::OpArgN, arg_c_mode: ArgKind::OpArgU },
        42 => OpCode { name: "TFORLOOP", op_mode: OpMode::IAsBx, arg_b_mode: ArgKind::OpArgR, arg_c_mode: ArgKind::OpArgN },
        43 => OpCode { name: "SETLIST", op_mode: OpMode::IABC, arg_b_mode: ArgKind::OpArgU, arg_c_mode: ArgKind::OpArgU },
        44 => OpCode { name: "CLOSURE", op_mode: OpMode::IABx, arg_b_mode: ArgKind::OpArgU, arg_c_mode: ArgKind::OpArgN },
        45 => OpCode { name: "VARARG", op_mode: OpMode::IABC, arg_b_mode: ArgKind::OpArgU, arg_c_mode: ArgKind::OpArgN },
        46 => OpCode { name: "EXTRAARG", op_mode: OpMode::IAx, arg_b_mode: ArgKind::OpArgU, arg_c_mode: ArgKind::OpArgU },
        _ => OpCode { name: "INVALID", op_mode: OpMode::IABC, arg_b_mode: ArgKind::OpArgN, arg_c_mode: ArgKind::OpArgN },
    }
}

} // verus!

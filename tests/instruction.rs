use binchunk::{opcode_info, rk_operand, ArgKind, Instruction, OpMode};

fn abc(op: u32, a: u32, b: u32, c: u32) -> u32 {
    op | a << 6 | b << 14 | c << 23
}

#[test]
fn abc_fields_round_trip() {
    for &w in &[0u32, 0xFFFF_FFFF, 0x1234_5678, abc(13, 200, 300, 511)] {
        let (a, b, c) = Instruction::new(w).ABC();
        assert_eq!(abc(w & 0x3F, a, b, c), w);
    }
    assert_eq!(Instruction::new(abc(13, 200, 300, 511)).ABC(), (200, 300, 511));
}

#[test]
fn abx_and_ax_fields_round_trip() {
    for &w in &[0u32, 0xFFFF_FFFF, 0x1234_5678] {
        let i = Instruction::new(w);
        let (a, bx) = i.ABx();
        assert_eq!((w & 0x3F) | a << 6 | bx << 14, w);
        let (a2, sbx) = i.AsBx();
        assert_eq!(a2, a);
        assert_eq!((w & 0x3F) | a << 6 | ((sbx + 131071) as u32) << 14, w);
        assert_eq!((w & 0x3F) | i.Ax() << 6, w);
    }
}

#[test]
fn sbx_bias() {
    let at = |bx: u32| Instruction::new(30 | bx << 14).AsBx().1;
    assert_eq!(at(131071), 0);
    assert_eq!(at(0), -131071);
    // Bx - 131071 at the largest Bx
    assert_eq!(at(262143), 131072);
}

#[test]
fn constant_index_presentation() {
    assert_eq!(rk_operand(0x100), -1);
    assert_eq!(rk_operand(257), -2);
    assert_eq!(rk_operand(511), -256);
    assert_eq!(rk_operand(255), 255);
    assert_eq!(rk_operand(0), 0);
}

#[test]
fn opcode_metadata() {
    let i = Instruction::new(1);
    assert_eq!(i.opname(), "LOADK");
    assert_eq!(i.opmode(), OpMode::IABx);
    assert_eq!(i.b_mode(), ArgKind::OpArgK);
    assert_eq!(i.c_mode(), ArgKind::OpArgN);
    assert_eq!(Instruction::new(30).opname(), "JMP");
    assert_eq!(Instruction::new(46).opmode(), OpMode::IAx);
    assert_eq!(Instruction::new(47).opname(), "INVALID");
    assert_eq!(opcode_info(63).op_mode, OpMode::IABC);
    assert_eq!(Instruction::new(0x40).opcode().name, "MOVE");
}

#[test]
fn shown_operands_by_layout() {
    // ADD 1 2 K(0): both B and C may name constants
    assert_eq!(Instruction::new(abc(13, 1, 2, 256)).shown_operands(), vec![1, 2, -1]);
    // MOVE 3 4: C unused
    assert_eq!(Instruction::new(abc(0, 3, 4, 0)).shown_operands(), vec![3, 4]);
    // LOADK 0 K(5): Bx is a constant index, shown without masking
    assert_eq!(Instruction::new(1 | 5 << 14).shown_operands(), vec![0, -6]);
    // CLOSURE 2 7: Bx is a raw value
    assert_eq!(Instruction::new(44 | 2 << 6 | 7 << 14).shown_operands(), vec![2, 7]);
    // LOADKX 4: B unused
    assert_eq!(Instruction::new(2 | 4 << 6).shown_operands(), vec![4]);
    // JMP 0 -1
    assert_eq!(Instruction::new(30 | 131070 << 14).shown_operands(), vec![0, -1]);
    // EXTRAARG 9: always a constant index
    assert_eq!(Instruction::new(46 | 9 << 6).shown_operands(), vec![-10]);
}

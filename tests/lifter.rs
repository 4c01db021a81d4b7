use riscv_jit::riscv::TranslateRiscv;
use riscv_jit::tcg::{TCGLabel, TCGOp, TCGOpcode, TCGv, TCGvType};

fn reg(i: u64) -> TCGv {
    TCGv::new_reg(i)
}

fn imm(v: u64) -> TCGv {
    TCGv::new_imm(v)
}

// Encoders for test inputs.
fn r_type(funct7: u32, rs2: u32, rs1: u32, funct3: u32, rd: u32, opcode: u32) -> u32 {
    (funct7 << 25) | (rs2 << 20) | (rs1 << 15) | (funct3 << 12) | (rd << 7) | opcode
}

fn i_type(imm12: u32, rs1: u32, funct3: u32, rd: u32, opcode: u32) -> u32 {
    ((imm12 & 0xfff) << 20) | (rs1 << 15) | (funct3 << 12) | (rd << 7) | opcode
}

fn b_type(off: i32, rs2: u32, rs1: u32, funct3: u32) -> u32 {
    let o = off as u32;
    (((o >> 12) & 1) << 31)
        | (((o >> 5) & 0x3f) << 25)
        | (rs2 << 20)
        | (rs1 << 15)
        | (funct3 << 12)
        | (((o >> 1) & 0xf) << 8)
        | (((o >> 11) & 1) << 7)
        | 0x63
}

#[test]
fn add_lifts_to_one_three_register_op() {
    let inst = r_type(0, 3, 2, 0, 1, 0x33);
    let ir = TranslateRiscv::translate_add(&inst);
    assert_eq!(ir, vec![TCGOp::new_3op(TCGOpcode::ADD, reg(1), reg(2), reg(3))]);
}

#[test]
fn sub_and_or_xor_lift_with_their_opcodes() {
    let inst = r_type(0x20, 31, 30, 0, 29, 0x33);
    assert_eq!(
        TranslateRiscv::translate_sub(&inst),
        vec![TCGOp::new_3op(TCGOpcode::SUB, reg(29), reg(30), reg(31))]
    );
    assert_eq!(
        TranslateRiscv::translate_and(&inst)[0].op,
        Some(TCGOpcode::AND)
    );
    assert_eq!(TranslateRiscv::translate_or(&inst)[0].op, Some(TCGOpcode::OR));
    assert_eq!(TranslateRiscv::translate_xor(&inst)[0].op, Some(TCGOpcode::XOR));
}

#[test]
fn addi_sign_extends_its_immediate() {
    let inst = i_type(0xfff, 0, 0, 5, 0x13);
    let ir = TranslateRiscv::translate_addi(&inst);
    assert_eq!(
        ir,
        vec![TCGOp::new_3op(TCGOpcode::ADD, reg(5), reg(0), imm(0xffff_ffff_ffff_ffff))]
    );
    let inst = i_type(0x7ff, 4, 0, 6, 0x13);
    let ir = TranslateRiscv::translate_addi(&inst);
    assert_eq!(ir, vec![TCGOp::new_3op(TCGOpcode::ADD, reg(6), reg(4), imm(0x7ff))]);
}

#[test]
fn andi_ori_xori_lift_with_their_opcodes() {
    let inst = i_type(0x800, 7, 7, 8, 0x13);
    assert_eq!(
        TranslateRiscv::translate_andi(&inst),
        vec![TCGOp::new_3op(TCGOpcode::AND, reg(8), reg(7), imm(0xffff_ffff_ffff_f800))]
    );
    assert_eq!(TranslateRiscv::translate_ori(&inst)[0].op, Some(TCGOpcode::OR));
    assert_eq!(TranslateRiscv::translate_xori(&inst)[0].op, Some(TCGOpcode::XOR));
}

#[test]
fn lui_adds_the_upper_immediate_to_x0() {
    let inst: u32 = (0x12345 << 12) | (5 << 7) | 0x37;
    let ir = TranslateRiscv::translate_lui(&inst);
    assert_eq!(ir, vec![TCGOp::new_3op(TCGOpcode::ADD, reg(5), reg(0), imm(0x1234_5000))]);
}

#[test]
fn jalr_keeps_the_raw_offset() {
    let inst = i_type(0xffc, 1, 0, 0, 0x67);
    let ir = TranslateRiscv::translate_jalr(&inst);
    assert_eq!(ir, vec![TCGOp::new_3op(TCGOpcode::JMP, reg(0), reg(1), imm(0xffc))]);
}

#[test]
fn beq_lifts_to_four_records_sharing_a_fresh_label() {
    let mut labels: Vec<TCGLabel> = vec![TCGLabel::new()];
    let inst = b_type(8, 2, 1, 0);
    let ir = TranslateRiscv::translate_beq(&inst, &mut labels);
    assert_eq!(labels.len(), 2);
    assert_eq!(labels[1].offset, 0);
    assert!(labels[1].code_ptr_vec.is_empty());
    assert_eq!(
        ir,
        vec![
            TCGOp::new_4op(TCGOpcode::EQ, reg(1), reg(2), imm(8), 1),
            TCGOp::new_goto_tb(imm(4)),
            TCGOp::new_label(1),
            TCGOp::new_goto_tb(imm(8)),
        ]
    );
}

#[test]
fn beq_sign_extends_a_backward_offset() {
    let mut labels: Vec<TCGLabel> = Vec::new();
    let inst = b_type(-16, 4, 3, 0);
    let ir = TranslateRiscv::translate_beq(&inst, &mut labels);
    assert_eq!(ir[0].arg2, Some(imm(0xffff_ffff_ffff_fff0)));
    assert_eq!(ir[3].arg1, Some(imm(0xffff_ffff_ffff_fff0)));
    assert_eq!(ir[0].label, Some(0));
    assert_eq!(ir[2].label, Some(0));
    assert_eq!(ir[1].arg0.map(|v| v.t), Some(TCGvType::ProgramCounter));
}

#[test]
fn other_branches_lift_with_their_conditions() {
    type Lift = fn(&u32, &mut Vec<TCGLabel>) -> Vec<TCGOp>;
    let cases: [(Lift, TCGOpcode); 5] = [
        (TranslateRiscv::translate_bne, TCGOpcode::NE),
        (TranslateRiscv::translate_blt, TCGOpcode::LT),
        (TranslateRiscv::translate_bge, TCGOpcode::GE),
        (TranslateRiscv::translate_bltu, TCGOpcode::LTU),
        (TranslateRiscv::translate_bgeu, TCGOpcode::GEU),
    ];
    for (lift, opc) in cases {
        let mut labels: Vec<TCGLabel> = Vec::new();
        let ir = lift(&b_type(4094, 31, 30, 1), &mut labels);
        assert_eq!(labels.len(), 1);
        assert_eq!(ir.len(), 4);
        assert_eq!(ir[0], TCGOp::new_4op(opc, reg(30), reg(31), imm(4094), 0));
        assert_eq!(ir[3], TCGOp::new_goto_tb(imm(4094)));
    }
}

#[test]
fn largest_backward_branch_offset() {
    let mut labels: Vec<TCGLabel> = Vec::new();
    let ir = TranslateRiscv::translate_beq(&b_type(-4096, 0, 0, 0), &mut labels);
    assert_eq!(ir[0].arg2, Some(imm((-4096i64) as u64)));
}

#[test]
fn operand_constructors_set_kind_and_value() {
    assert_eq!(TCGv::new_reg(31), TCGv { t: TCGvType::Register, value: 31 });
    assert_eq!(TCGv::new_imm(u64::MAX), TCGv { t: TCGvType::Immediate, value: u64::MAX });
    assert_eq!(TCGv::new_pc(), TCGv { t: TCGvType::ProgramCounter, value: 0 });
    let op = TCGOp::new_2op(TCGOpcode::MOV, TCGv::new_pc(), imm(4));
    assert_eq!(op.arg2, None);
    assert_eq!(op.label, None);
    assert_eq!(op, TCGOp::new_goto_tb(imm(4)));
    let def = TCGOp::new_label(3);
    assert_eq!(def.op, None);
    assert_eq!(def.label, Some(3));
}

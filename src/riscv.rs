//! Lifting of RISC-V instruction words into IR sequences.
use crate::tcg::{TCGLabel, TCGOp, TCGOpcode, TCGv, TCGvType};
use vstd::prelude::*;

verus! {

/// Source register 1: bits 19..15.
pub open spec fn rs1_of(inst: u32) -> u64 {
    ((inst >> 15u32) & 0x1f) as u64
}

/// Source register 2: bits 24..20.
pub open spec fn rs2_of(inst: u32) -> u64 {
    ((inst >> 20u32) & 0x1f) as u64
}

/// Destination register: bits 11..7.
pub open spec fn rd_of(inst: u32) -> u64 {
    ((inst >> 7u32) & 0x1f) as u64
}

/// The raw 12-bit I-type immediate, bits 31..20.
pub open spec fn i_imm_of(inst: u32) -> u64 {
    (inst >> 20u32) as u64
}

/// The U-type immediate: the upper 20 bits of the word, lower 12 cleared.
pub open spec fn u_imm_of(inst: u32) -> u64 {
    (inst as u64) & !0xfffu64
}

/// The raw 13-bit B-type immediate, reassembled from its scattered fields.
pub open spec fn b_imm_of(inst: u32) -> u64 {
    (((inst as u64 >> 7u64) & 0x01) << 11u64) | (((inst as u64 >> 8u64) & 0x0f) << 1u64) | (((
    inst as u64 >> 25u64) & 0x3f) << 5u64) | (((inst as u64 >> 31u64) & 0x01) << 12u64)
}

/// Sign extension of a 12-bit payload to 64 bits.
pub open spec fn sext12(v: u64) -> u64 {
    if v & 0x800 != 0 {
        v | 0xffff_ffff_ffff_f000
    } else {
        v
    }
}

/// Sign extension of a 13-bit payload to 64 bits.
pub open spec fn sext13(v: u64) -> u64 {
    if v & 0x1000 != 0 {
        v | 0xffff_ffff_ffff_e000
    } else {
        v
    }
}

pub open spec fn reg(i: u64) -> TCGv {
    TCGv { t: TCGvType::Register, value: i }
}

pub open spec fn imm(v: u64) -> TCGv {
    TCGv { t: TCGvType::Immediate, value: v }
}

pub open spec fn op3(opcode: TCGOpcode, a0: TCGv, a1: TCGv, a2: TCGv) -> TCGOp {
    TCGOp { op: Some(opcode), arg0: Some(a0), arg1: Some(a1), arg2: Some(a2), label: None }
}

/// The IR of a register-register instruction: `rd = rs1 op rs2`.
pub open spec fn rrr_ir(opcode: TCGOpcode, inst: u32) -> Seq<TCGOp> {
    seq![op3(opcode, reg(rd_of(inst)), reg(rs1_of(inst)), reg(rs2_of(inst)))]
}

/// The IR of a register-immediate instruction: `rd = rs1 op sext(imm)`.
pub open spec fn rri_ir(opcode: TCGOpcode, inst: u32) -> Seq<TCGOp> {
    seq![op3(opcode, reg(rd_of(inst)), reg(rs1_of(inst)), imm(sext12(i_imm_of(inst))))]
}

/// The four IR records of a conditional branch whose fall-through label is
/// `label`: the compare-and-branch, the exit to the next instruction, the
/// label definition, and the exit to the branch target.
pub open spec fn branch_ir(opcode: TCGOpcode, inst: u32, label: usize) -> Seq<TCGOp> {
    let target = sext13(b_imm_of(inst));
    seq![
        TCGOp {
            op: Some(opcode),
            arg0: Some(reg(rs1_of(inst))),
            arg1: Some(reg(rs2_of(inst))),
            arg2: Some(imm(target)),
            label: Some(label),
        },
        goto_ir(4),
        TCGOp { op: None, arg0: None, arg1: None, arg2: None, label: Some(label) },
        goto_ir(target),
    ]
}

/// The block exit that writes `target` to the program counter.
pub open spec fn goto_ir(target: u64) -> TCGOp {
    TCGOp {
        op: Some(TCGOpcode::MOV),
        arg0: Some(TCGv { t: TCGvType::ProgramCounter, value: 0 }),
        arg1: Some(imm(target)),
        arg2: None,
        label: None,
    }
}

fn sign_extend_12(v: u64) -> (r: u64)
    ensures
        r == sext12(v),
{
    if v & 0x800 != 0 {
        v | 0xffff_ffff_ffff_f000
    } else {
        v
    }
}

fn sign_extend_13(v: u64) -> (r: u64)
    ensures
        r == sext13(v),
{
    if v & 0x1000 != 0 {
        v | 0xffff_ffff_ffff_e000
    } else {
        v
    }
}

/// The RISC-V front end. Each function lifts one instruction word into the
/// IR sequence that stands for it.
pub struct TranslateRiscv;

impl TranslateRiscv {
    /// `JALR rd, imm(rs1)` as one `JMP` record carrying the raw 12-bit offset.
    pub fn translate_jalr(inst: &u32) -> (r: Vec<TCGOp>)
        ensures
            r@ == seq![
                op3(
                    TCGOpcode::JMP,
                    reg(rd_of(*inst)),
                    reg(rs1_of(*inst)),
                    imm(((*inst as u64) >> 20u64) & 0xfff),
                ),
            ],
    {
        let rs1_addr: u64 = ((*inst >> 15u32) & 0x1f) as u64;
        let imm_const: u64 = ((*inst as u64) >> 20u64) & 0xfff;
        let rd_addr: u64 = ((*inst >> 7u32) & 0x1f) as u64;
        let rs1 = TCGv::new_reg(rs1_addr);
        let imm = TCGv::new_imm(imm_const);
        let rd = TCGv::new_reg(rd_addr);
        let tcg_inst = TCGOp::new_3op(TCGOpcode::JMP, rd, rs1, imm);
        vec![tcg_inst]
    }

    /// `LUI rd, imm` as `rd = x0 + (upper immediate)`.
    pub fn translate_lui(inst: &u32) -> (r: Vec<TCGOp>)
        ensures
            r@ == seq![op3(TCGOpcode::ADD, reg(rd_of(*inst)), reg(0), imm(u_imm_of(*inst)))],
    {
        let imm_const: u64 = (*inst as u64) & !0xfffu64;
        let rd_addr: u64 = ((*inst >> 7u32) & 0x1f) as u64;
        let rs1 = TCGv::new_reg(0);
        let imm = TCGv::new_imm(imm_const);
        let rd = TCGv::new_reg(rd_addr);
        let tcg_inst = TCGOp::new_3op(TCGOpcode::ADD, rd, rs1, imm);
        vec![tcg_inst]
    }

    fn translate_rrr(op: TCGOpcode, inst: &u32) -> (r: Vec<TCGOp>)
        ensures
            r@ == rrr_ir(op, *inst),
    {
        let rs1_addr: u64 = ((*inst >> 15u32) & 0x1f) as u64;
        let rs2_addr: u64 = ((*inst >> 20u32) & 0x1f) as u64;
        let rd_addr: u64 = ((*inst >> 7u32) & 0x1f) as u64;
        let rs1 = TCGv::new_reg(rs1_addr);
        let rs2 = TCGv::new_reg(rs2_addr);
        let rd = TCGv::new_reg(rd_addr);
        let tcg_inst = TCGOp::new_3op(op, rd, rs1, rs2);
        vec![tcg_inst]
    }

    fn translate_rri(op: TCGOpcode, inst: &u32) -> (r: Vec<TCGOp>)
        ensures
            r@ == rri_ir(op, *inst),
    {
        let rs1_addr: u64 = ((*inst >> 15u32) & 0x1f) as u64;
        let imm_const: u64 = sign_extend_12((*inst >> 20u32) as u64);
        let rd_addr: u64 = ((*inst >> 7u32) & 0x1f) as u64;
        let rs1 = TCGv::new_reg(rs1_addr);
        let imm = TCGv::new_imm(imm_const);
        let rd = TCGv::new_reg(rd_addr);
        let tcg_inst = TCGOp::new_3op(op, rd, rs1, imm);
        vec![tcg_inst]
    }

    /// Lifts a conditional branch. A fresh label is appended to `labels`
    /// for the fall-through path; the records refer to it by its index.
    fn translate_branch(op: TCGOpcode, inst: &u32, labels: &mut Vec<TCGLabel>) -> (r: Vec<TCGOp>)
        requires
            old(labels).len() < usize::MAX,
        ensures
            r@ == branch_ir(op, *inst, old(labels).len() as usize),
            final(labels)@.len() == old(labels)@.len() + 1,
            final(labels)@.subrange(0, old(labels)@.len() as int) == old(labels)@,
            final(labels)@.last().offset == 0,
            final(labels)@.last().code_ptr_vec@ == Seq::<usize>::empty(),
    {
        let rs1_addr: u64 = ((*inst >> 15u32) & 0x1f) as u64;
        let rs2_addr: u64 = ((*inst >> 20u32) & 0x1f) as u64;
        let field: u64 = (((*inst as u64 >> 7u64) & 0x01) << 11u64) | (((*inst as u64 >> 8u64)
            & 0x0f) << 1u64) | (((*inst as u64 >> 25u64) & 0x3f) << 5u64) | (((*inst as u64
            >> 31u64) & 0x01) << 12u64);
        let target: u64 = sign_extend_13(field);
        let rs1 = TCGv::new_reg(rs1_addr);
        let rs2 = TCGv::new_reg(rs2_addr);
        let addr = TCGv::new_imm(target);
        let label: usize = labels.len();
        labels.push(TCGLabel::new());
        let tcg_inst = TCGOp::new_4op(op, rs1, rs2, addr, label);
        let tcg_true_tb = TCGOp::new_goto_tb(TCGv::new_imm(4));
        let tcg_set_label = TCGOp::new_label(label);
        let tcg_false_tb = TCGOp::new_goto_tb(TCGv::new_imm(target));
        proof {
            assert(final(labels)@.subrange(0, old(labels)@.len() as int) =~= old(labels)@);
        }
        vec![tcg_inst, tcg_true_tb, tcg_set_label, tcg_false_tb]
    }

    pub fn translate_add(inst: &u32) -> (r: Vec<TCGOp>)
        ensures
            r@ == rrr_ir(TCGOpcode::ADD, *inst),
    {
        Self::translate_rrr(TCGOpcode::ADD, inst)
    }

    pub fn translate_sub(inst: &u32) -> (r: Vec<TCGOp>)
        ensures
            r@ == rrr_ir(TCGOpcode::SUB, *inst),
    {
        Self::translate_rrr(TCGOpcode::SUB, inst)
    }

    pub fn translate_and(inst: &u32) -> (r: Vec<TCGOp>)
        ensures
            r@ == rrr_ir(TCGOpcode::AND, *inst),
    {
        Self::translate_rrr(TCGOpcode::AND, inst)
    }

    pub fn translate_or(inst: &u32) -> (r: Vec<TCGOp>)
        ensures
            r@ == rrr_ir(TCGOpcode::OR, *inst),
    {
        Self::translate_rrr(TCGOpcode::OR, inst)
    }

    pub fn translate_xor(inst: &u32) -> (r: Vec<TCGOp>)
        ensures
            r@ == rrr_ir(TCGOpcode::XOR, *inst),
    {
        Self::translate_rrr(TCGOpcode::XOR, inst)
    }

    pub fn translate_addi(inst: &u32) -> (r: Vec<TCGOp>)
        ensures
            r@ == rri_ir(TCGOpcode::ADD, *inst),
    {
        Self::translate_rri(TCGOpcode::ADD, inst)
    }

    pub fn translate_andi(inst: &u32) -> (r: Vec<TCGOp>)
        ensures
            r@ == rri_ir(TCGOpcode::AND, *inst),
    {
        Self::translate_rri(TCGOpcode::AND, inst)
    }

    pub fn translate_ori(inst: &u32) -> (r: Vec<TCGOp>)
        ensures
            r@ == rri_ir(TCGOpcode::OR, *inst),
    {
        Self::translate_rri(TCGOpcode::OR, inst)
    }

    pub fn translate_xori(inst: &u32) -> (r: Vec<TCGOp>)
        ensures
            r@ == rri_ir(TCGOpcode::XOR, *inst),
    {
        Self::translate_rri(TCGOpcode::XOR, inst)
    }

    /// `BEQ rs1, rs2, offset`; see `translate_branch`.
    pub fn translate_beq(inst: &u32, labels: &mut Vec<TCGLabel>) -> (r: Vec<TCGOp>)
        requires
            old(labels).len() < usize::MAX,
        ensures
            r@ == branch_ir(TCGOpcode::EQ, *inst, old(labels).len() as usize),
            final(labels)@.len() == old(labels)@.len() + 1,
            final(labels)@.subrange(0, old(labels)@.len() as int) == old(labels)@,
            final(labels)@.last().offset == 0,
            final(labels)@.last().code_ptr_vec@ == Seq::<usize>::empty(),
    {
        Self::translate_branch(TCGOpcode::EQ, inst, labels)
    }
    /// `NE rs1, rs2, offset`; see `translate_branch`.
    pub fn translate_bne(inst: &u32, labels: &mut Vec<TCGLabel>) -> (r: Vec<TCGOp>)
        requires
            old(labels).len() < usize::MAX,
        ensures
            r@ == branch_ir(TCGOpcode::NE, *inst, old(labels).len() as usize),
            final(labels)@.len() == old(labels)@.len() + 1,
            final(labels)@.subrange(0, old(labels)@.len() as int) == old(labels)@,
            final(labels)@.last().offset == 0,
            final(labels)@.last().code_ptr_vec@ == Seq::<usize>::empty(),
    {
        Self::translate_branch(TCGOpcode::NE, inst, labels)
    }

    /// `LT rs1, rs2, offset`; see `translate_branch`.
    pub fn translate_blt(inst: &u32, labels: &mut Vec<TCGLabel>) -> (r: Vec<TCGOp>)
        requires
            old(labels).len() < usize::MAX,
        ensures
            r@ == branch_ir(TCGOpcode::LT, *inst, old(labels).len() as usize),
            final(labels)@.len() == old(labels)@.len() + 1,
            final(labels)@.subrange(0, old(labels)@.len() as int) == old(labels)@,
            final(labels)@.last().offset == 0,
            final(labels)@.last().code_ptr_vec@ == Seq::<usize>::empty(),
    {
        Self::translate_branch(TCGOpcode::LT, inst, labels)
    }

    /// `GE rs1, rs2, offset`; see `translate_branch`.
    pub fn translate_bge(inst: &u32, labels: &mut Vec<TCGLabel>) -> (r: Vec<TCGOp>)
        requires
            old(labels).len() < usize::MAX,
        ensures
            r@ == branch_ir(TCGOpcode::GE, *inst, old(labels).len() as usize),
            final(labels)@.len() == old(labels)@.len() + 1,
            final(labels)@.subrange(0, old(labels)@.len() as int) == old(labels)@,
            final(labels)@.last().offset == 0,
            final(labels)@.last().code_ptr_vec@ == Seq::<usize>::empty(),
    {
        Self::translate_branch(TCGOpcode::GE, inst, labels)
    }

    /// `LTU rs1, rs2, offset`; see `translate_branch`.
    pub fn translate_bltu(inst: &u32, labels: &mut Vec<TCGLabel>) -> (r: Vec<TCGOp>)
        requires
            old(labels).len() < usize::MAX,
        ensures
            r@ == branch_ir(TCGOpcode::LTU, *inst, old(labels).len() as usize),
            final(labels)@.len() == old(labels)@.len() + 1,
            final(labels)@.subrange(0, old(labels)@.len() as int) == old(labels)@,
            final(labels)@.last().offset == 0,
            final(labels)@.last().code_ptr_vec@ == Seq::<usize>::empty(),
    {
        Self::translate_branch(TCGOpcode::LTU, inst, labels)
    }

    /// `GEU rs1, rs2, offset`; see `translate_branch`.
    pub fn translate_bgeu(inst: &u32, labels: &mut Vec<TCGLabel>) -> (r: Vec<TCGOp>)
        requires
            old(labels).len() < usize::MAX,
        ensures
            r@ == branch_ir(TCGOpcode::GEU, *inst, old(labels).len() as usize),
            final(labels)@.len() == old(labels)@.len() + 1,
            final(labels)@.subrange(0, old(labels)@.len() as int) == old(labels)@,
            final(labels)@.last().offset == 0,
            final(labels)@.last().code_ptr_vec@ == Seq::<usize>::empty(),
    {
        Self::translate_branch(TCGOpcode::GEU, inst, labels)
    }
}

} // verus!

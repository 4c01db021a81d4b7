use riscv_jit::emu_env::EmuEnv;
use riscv_jit::riscv::TranslateRiscv;
use riscv_jit::tcg::{MemOpType, TCGError, TCGLabel, TCGOp, TCGOpcode, TCGv, TCG};
use riscv_jit::x86::TCGX86;

fn env() -> EmuEnv {
    EmuEnv { guest_mem_base: 0x0000_7f00_1234_5678, epilogue_offset: 0x1000, block_pc: 0x8000_0000 }
}

fn reg(i: u64) -> TCGv {
    TCGv::new_reg(i)
}

fn imm(v: u64) -> TCGv {
    TCGv::new_imm(v)
}

fn le(w: u32) -> Vec<u8> {
    w.to_le_bytes().to_vec()
}

fn cat(parts: &[&[u8]]) -> Vec<u8> {
    let mut v = Vec::new();
    for p in parts {
        v.extend_from_slice(p);
    }
    v
}

fn i_type(imm12: u32, rs1: u32, funct3: u32, rd: u32, opcode: u32) -> u32 {
    ((imm12 & 0xfff) << 20) | (rs1 << 15) | (funct3 << 12) | (rd << 7) | opcode
}

fn r_type(funct7: u32, rs2: u32, rs1: u32, funct3: u32, rd: u32) -> u32 {
    (funct7 << 25) | (rs2 << 20) | (rs1 << 15) | (funct3 << 12) | (rd << 7) | 0x33
}

fn beq(off: i32, rs2: u32, rs1: u32) -> u32 {
    let o = off as u32;
    (((o >> 12) & 1) << 31)
        | (((o >> 5) & 0x3f) << 25)
        | (rs2 << 20)
        | (rs1 << 15)
        | (((o >> 1) & 0xf) << 8)
        | (((o >> 11) & 1) << 7)
        | 0x63
}

fn gen(op: &TCGOp, at: u64, labels: &mut Vec<TCGLabel>, mc: &mut Vec<u8>) -> Result<usize, TCGError> {
    <TCGX86 as TCG>::tcg_gen(&env(), at, op, labels, mc)
}

#[test]
fn add_of_three_registers_loads_adds_and_stores() {
    let op = TCGOp::new_3op(TCGOpcode::ADD, reg(1), reg(2), reg(3));
    let mut mc = Vec::new();
    let r = gen(&op, 0, &mut Vec::new(), &mut mc);
    let want = cat(&[
        &[0x48, 0x8b, 0x85],
        &le(16),
        &[0x48, 0x03, 0x85],
        &le(24),
        &[0x48, 0x89, 0x85],
        &le(8),
    ]);
    assert_eq!(mc, want);
    assert_eq!(r, Ok(21));
}

#[test]
fn sub_and_or_xor_use_their_opcodes() {
    for (opc, byte) in [
        (TCGOpcode::SUB, 0x2bu8),
        (TCGOpcode::AND, 0x23),
        (TCGOpcode::OR, 0x0b),
        (TCGOpcode::XOR, 0x33),
    ] {
        let op = TCGOp::new_3op(opc, reg(4), reg(5), reg(6));
        let mut mc = Vec::new();
        let r = gen(&op, 100, &mut Vec::new(), &mut mc);
        assert_eq!(r, Ok(121));
        assert_eq!(mc[7..10], [0x48, byte, 0x85]);
        assert_eq!(mc[10..14], le(48)[..]);
    }
}

#[test]
fn zero_register_destination_emits_nothing() {
    // ADDI x0, x3, 42
    let ir = TranslateRiscv::translate_addi(&i_type(42, 3, 0, 0, 0x13));
    let mut mc = vec![0x90u8];
    let r = gen(&ir[0], 1, &mut Vec::new(), &mut mc);
    assert_eq!(r, Ok(1));
    assert_eq!(mc, vec![0x90]);
    for opc in [TCGOpcode::SUB, TCGOpcode::AND, TCGOpcode::OR, TCGOpcode::XOR] {
        let op = TCGOp::new_3op(opc, reg(0), reg(5), reg(6));
        let r = gen(&op, 77, &mut Vec::new(), &mut mc);
        assert_eq!(r, Ok(77));
        assert_eq!(mc, vec![0x90]);
    }
}

#[test]
fn addi_from_x0_stores_the_immediate_directly() {
    // ADDI x5, x0, -1
    let ir = TranslateRiscv::translate_addi(&i_type(0xfff, 0, 0, 5, 0x13));
    let mut mc = Vec::new();
    let r = gen(&ir[0], 0, &mut Vec::new(), &mut mc);
    assert_eq!(mc, cat(&[&[0x48, 0xc7, 0x85], &le(40), &le(0xffff_ffff)]));
    assert_eq!(r, Ok(11));
}

#[test]
fn add_from_x0_register_copies_the_source() {
    let op = TCGOp::new_3op(TCGOpcode::OR, reg(9), reg(0), reg(10));
    let mut mc = Vec::new();
    let r = gen(&op, 0, &mut Vec::new(), &mut mc);
    assert_eq!(mc, cat(&[&[0x48, 0x8b, 0x85], &le(80), &[0x48, 0x89, 0x85], &le(72)]));
    assert_eq!(r, Ok(14));
}

#[test]
fn lui_then_addi_builds_the_constant() {
    // LUI x5, 0x12345; ADDI x5, x5, 0x678
    let lui: u32 = (0x12345 << 12) | (5 << 7) | 0x37;
    let addi = i_type(0x678, 5, 0, 5, 0x13);
    let mut ops = TranslateRiscv::translate_lui(&lui);
    ops.extend(TranslateRiscv::translate_addi(&addi));
    let mut labels = Vec::new();
    let mut mc = Vec::new();
    let r = TCGX86::tcg_gen_block(&env(), &ops, &mut labels, &mut mc);
    let want = cat(&[
        &[0x48, 0xc7, 0x85],
        &le(40),
        &le(0x1234_5000),
        &[0x48, 0x8b, 0x85],
        &le(40),
        &[0x05],
        &le(0x678),
        &[0x48, 0x89, 0x85],
        &le(40),
    ]);
    assert_eq!(mc, want);
    assert_eq!(r, Ok(30));
}

#[test]
fn xor_of_a_register_with_itself() {
    let ir = TranslateRiscv::translate_xor(&r_type(4, 7, 7, 4, 7));
    let mut mc = Vec::new();
    let r = gen(&ir[0], 0, &mut Vec::new(), &mut mc);
    let want = cat(&[
        &[0x48, 0x8b, 0x85],
        &le(56),
        &[0x48, 0x33, 0x85],
        &le(56),
        &[0x48, 0x89, 0x85],
        &le(56),
    ]);
    assert_eq!(mc, want);
    assert_eq!(r, Ok(21));
}

#[test]
fn and_with_immediate_accumulates_its_size() {
    let op = TCGOp::new_3op(TCGOpcode::AND, reg(1), reg(2), imm(0xff));
    let mut mc = Vec::new();
    let r = gen(&op, 10, &mut Vec::new(), &mut mc);
    assert_eq!(r, Ok(29));
    assert_eq!(mc[7], 0x25);
    assert_eq!(mc[8..12], le(0xff)[..]);
}

fn branch_block(x2: u32) -> (Vec<TCGOp>, Vec<TCGLabel>) {
    // ADDI x1,x0,5; ADDI x2,x0,x2; BEQ x1,x2,+8; ADDI x3,x0,99; ADDI x4,x0,7
    let mut labels = Vec::new();
    let mut ops = TranslateRiscv::translate_addi(&i_type(5, 0, 0, 1, 0x13));
    ops.extend(TranslateRiscv::translate_addi(&i_type(x2, 0, 0, 2, 0x13)));
    ops.extend(TranslateRiscv::translate_beq(&beq(8, 2, 1), &mut labels));
    (ops, labels)
}

#[test]
fn branch_block_patches_the_jump_to_its_label() {
    let (ops, mut labels) = branch_block(5);
    let mut mc = Vec::new();
    let r = TCGX86::tcg_gen_block(&env(), &ops, &mut labels, &mut mc);
    // Two direct stores of 11 bytes, then the compare and branch at 22.
    let site = 22 + 16;
    assert_eq!(labels[0].code_ptr_vec, vec![site]);
    assert_eq!(labels[0].offset, (22 + 20 + 17) as u64);
    let word = u32::from_le_bytes([mc[site], mc[site + 1], mc[site + 2], mc[site + 3]]);
    assert_eq!(word, (labels[0].offset as u32).wrapping_sub(site as u32 + 4));
    assert_eq!(word, 17);
    assert_eq!(mc[22..36], cat(&[&[0x48, 0x8b, 0x85], &le(8), &[0x48, 0x3b, 0x85], &le(16)])[..]);
    assert_eq!(mc[36..38], [0x0f, 0x84]);
    // Not taken: PC <- 4, then jump to the epilogue.
    assert_eq!(mc[42..47], cat(&[&[0xb8], &le(4)])[..]);
    assert_eq!(mc[47..54], cat(&[&[0x48, 0x89, 0x85], &le(256)])[..]);
    assert_eq!(mc[54..59], cat(&[&[0xe9], &le(0x1000 - 59)])[..]);
    // Taken: PC <- 8.
    assert_eq!(mc[59..64], cat(&[&[0xb8], &le(8)])[..]);
    assert_eq!(mc[71..76], cat(&[&[0xe9], &le(0x1000 - 76)])[..]);
    assert_eq!(r, Ok(76));
    assert_eq!(mc.len(), 76);
}

#[test]
fn branch_block_not_taken_differs_only_in_the_operand() {
    let (ops_taken, mut l1) = branch_block(5);
    let (ops_not, mut l2) = branch_block(6);
    let mut a = Vec::new();
    let mut b = Vec::new();
    TCGX86::tcg_gen_block(&env(), &ops_taken, &mut l1, &mut a).unwrap();
    TCGX86::tcg_gen_block(&env(), &ops_not, &mut l2, &mut b).unwrap();
    assert_eq!(a.len(), b.len());
    let diff: Vec<usize> = (0..a.len()).filter(|&i| a[i] != b[i]).collect();
    assert_eq!(diff, vec![18]);
    assert_eq!(b[18], 6);
}

#[test]
fn block_after_existing_code_records_absolute_sites() {
    let (ops, mut labels) = branch_block(5);
    let mut mc = vec![0xccu8; 100];
    let r = TCGX86::tcg_gen_block(&env(), &ops, &mut labels, &mut mc);
    assert_eq!(r, Ok(176));
    assert_eq!(labels[0].code_ptr_vec, vec![138]);
    assert_eq!(labels[0].offset, 159);
    assert_eq!(mc[138..142], le(17)[..]);
    assert_eq!(mc[..100], vec![0xccu8; 100][..]);
    assert_eq!(mc[171..176], cat(&[&[0xe9], &le(0x1000 - 176)])[..]);
}

#[test]
fn other_conditions_select_their_jumps() {
    for (opc, cc) in [
        (TCGOpcode::NE, 0x85u8),
        (TCGOpcode::LT, 0x8c),
        (TCGOpcode::GE, 0x8d),
        (TCGOpcode::LTU, 0x82),
        (TCGOpcode::GEU, 0x83),
    ] {
        let mut labels = vec![TCGLabel::new()];
        let op = TCGOp::new_4op(opc, reg(1), reg(2), imm(8), 0);
        let mut mc = Vec::new();
        let r = gen(&op, 0, &mut labels, &mut mc);
        assert_eq!(r, Ok(20));
        assert_eq!(mc[14..16], [0x0f, cc]);
        assert_eq!(labels[0].code_ptr_vec, vec![16]);
    }
}

#[test]
fn store_word_then_load_word() {
    let sw = TCGOp::new_3op(TCGOpcode::SW, reg(10), reg(11), imm(0x10));
    let lw = TCGOp::new_3op(TCGOpcode::LW, reg(12), reg(10), imm(0x10));
    let mut mc = Vec::new();
    let mut labels = Vec::new();
    let r = TCGX86::tcg_gen_block(&env(), &vec![sw, lw], &mut labels, &mut mc);
    let base = 0x0000_7f00_1234_5678u64;
    let want = cat(&[
        &[0x48, 0xb8],
        &base.to_le_bytes(),
        &[0x48, 0x8b, 0xc8],
        &[0x48, 0x8b, 0x85],
        &le(80),
        &[0x48, 0x03, 0xc1],
        &[0x48, 0x8b, 0x8d],
        &le(88),
        &[0x89, 0x88],
        &le(0x10),
        &[0x48, 0xb8],
        &base.to_le_bytes(),
        &[0x48, 0x8b, 0xc8],
        &[0x48, 0x8b, 0x85],
        &le(80),
        &[0x48, 0x03, 0xc1],
        &[0x48, 0x63, 0x80],
        &le(0x10),
        &[0x48, 0x89, 0x85],
        &le(96),
    ]);
    assert_eq!(mc, want);
    assert_eq!(r, Ok(want.len()));
}

#[test]
fn negative_displacement_is_sign_extended() {
    // A 12-bit displacement of -8, as the lifter sign-extends it.
    let op = TCGOp::new_3op(TCGOpcode::LD, reg(1), reg(2), imm(0xffff_ffff_ffff_fff8));
    let mut mc = Vec::new();
    gen(&op, 0, &mut Vec::new(), &mut mc).unwrap();
    assert_eq!(mc[23..30], cat(&[&[0x48, 0x8b, 0x80], &le(0xffff_fff8)])[..]);
}

#[test]
fn load_widths_use_their_encodings() {
    let cases: [(TCGOpcode, &[u8]); 7] = [
        (TCGOpcode::LD, &[0x48, 0x8b, 0x80]),
        (TCGOpcode::LW, &[0x48, 0x63, 0x80]),
        (TCGOpcode::LH, &[0x48, 0x0f, 0xbf, 0x80]),
        (TCGOpcode::LB, &[0x48, 0x0f, 0xbe, 0x80]),
        (TCGOpcode::LWU, &[0x8b, 0x80]),
        (TCGOpcode::LHU, &[0x0f, 0xb7, 0x80]),
        (TCGOpcode::LBU, &[0x0f, 0xb6, 0x80]),
    ];
    for (opc, prefix) in cases {
        let op = TCGOp::new_3op(opc, reg(1), reg(2), imm(4));
        let mut mc = Vec::new();
        let r = gen(&op, 0, &mut Vec::new(), &mut mc).unwrap();
        assert_eq!(mc[23..23 + prefix.len()], prefix[..]);
        assert_eq!(r, 23 + prefix.len() + 4 + 7);
        assert_eq!(r, mc.len());
    }
}

#[test]
fn store_widths_use_their_encodings() {
    let cases: [(TCGOpcode, &[u8]); 4] = [
        (TCGOpcode::SD, &[0x48, 0x89, 0x88]),
        (TCGOpcode::SW, &[0x89, 0x88]),
        (TCGOpcode::SH, &[0x66, 0x89, 0x88]),
        (TCGOpcode::SB, &[0x88, 0x88]),
    ];
    for (opc, prefix) in cases {
        let op = TCGOp::new_3op(opc, reg(1), reg(2), imm(4));
        let mut mc = Vec::new();
        let r = gen(&op, 0, &mut Vec::new(), &mut mc).unwrap();
        assert_eq!(mc[30..30 + prefix.len()], prefix[..]);
        assert_eq!(r, 30 + prefix.len() + 4);
    }
}

#[test]
fn load_into_x0_emits_nothing() {
    let op = TCGOp::new_3op(TCGOpcode::LW, reg(0), reg(2), imm(4));
    let mut mc = Vec::new();
    assert_eq!(gen(&op, 5, &mut Vec::new(), &mut mc), Ok(5));
    assert!(mc.is_empty());
}

#[test]
fn direct_load_and_store_emitters_agree_with_dispatch() {
    let op = TCGOp::new_3op(TCGOpcode::LH, reg(3), reg(4), imm(2));
    let mut a = Vec::new();
    let mut b = Vec::new();
    let r = TCGX86::tcg_gen_load(&env(), 0, &op, &mut a, MemOpType::LOAD_16BIT);
    gen(&op, 0, &mut Vec::new(), &mut b).unwrap();
    assert_eq!(a, b);
    assert_eq!(r, a.len());
    let op = TCGOp::new_3op(TCGOpcode::SH, reg(3), reg(4), imm(2));
    let mut a = Vec::new();
    let r = TCGX86::tcg_gen_store(&env(), 0, &op, &mut a, MemOpType::STORE_16BIT);
    assert_eq!(r, a.len());
}

#[test]
fn goto_tb_writes_pc_and_jumps_to_epilogue() {
    let op = TCGOp::new_goto_tb(imm(0x1234));
    let mut mc = vec![0u8; 3];
    let r = gen(&op, 3, &mut Vec::new(), &mut mc);
    let want = cat(&[
        &[0, 0, 0],
        &[0xb8],
        &le(0x1234),
        &[0x48, 0x89, 0x85],
        &le(256),
        &[0xe9],
        &le(0x1000 - 20),
    ]);
    assert_eq!(mc, want);
    assert_eq!(r, Ok(20));
}

#[test]
fn jump_to_an_epilogue_behind_the_code_wraps() {
    let e = EmuEnv { guest_mem_base: 0, epilogue_offset: -64, block_pc: 0 };
    let op = TCGOp::new_goto_tb(imm(4));
    let mut mc = Vec::new();
    <TCGX86 as TCG>::tcg_gen(&e, 0, &op, &mut Vec::new(), &mut mc).unwrap();
    assert_eq!(mc[12..17], cat(&[&[0xe9], &le((-64i32 - 17) as u32)])[..]);
}

#[test]
fn jalr_return_jumps_to_the_epilogue() {
    // JALR x0, 0(x1)
    let ir = TranslateRiscv::translate_jalr(&i_type(0, 1, 0, 0, 0x67));
    let mut mc = Vec::new();
    let r = gen(&ir[0], 0x10, &mut Vec::new(), &mut mc);
    assert_eq!(mc, cat(&[&[0xe9], &le(0x1000 - 0x15)]));
    assert_eq!(r, Ok(0x15));
}

#[test]
fn jalr_with_a_link_register_is_unsupported() {
    let ir = TranslateRiscv::translate_jalr(&i_type(0, 1, 0, 1, 0x67));
    let mut mc = Vec::new();
    assert_eq!(gen(&ir[0], 0, &mut Vec::new(), &mut mc), Err(TCGError::UnsupportedOp));
    assert!(mc.is_empty());
}

#[test]
fn jmpim_links_then_exits() {
    let op = TCGOp::new_2op(TCGOpcode::JMPIM, reg(1), imm(0x400));
    let mut mc = Vec::new();
    let r = gen(&op, 0, &mut Vec::new(), &mut mc);
    let want = cat(&[
        &[0x48, 0xb8],
        &0x8000_0000u64.to_le_bytes(),
        &[0x48, 0x89, 0x85],
        &le(8),
        &[0xb8],
        &le(0x400),
        &[0x48, 0x89, 0x85],
        &le(256),
        &[0xe9],
        &le(0x1000 - 34),
    ]);
    assert_eq!(mc, want);
    assert_eq!(r, Ok(34));
    let op = TCGOp::new_2op(TCGOpcode::JMPIM, reg(0), imm(0x400));
    let mut mc = Vec::new();
    assert_eq!(gen(&op, 0, &mut Vec::new(), &mut mc), Ok(17));
}

#[test]
fn label_definition_binds_without_bytes() {
    let mut labels = vec![TCGLabel::new(), TCGLabel::new()];
    let mut mc = vec![1u8, 2, 3];
    let r = gen(&TCGOp::new_label(1), 3, &mut labels, &mut mc);
    assert_eq!(r, Ok(3));
    assert_eq!(labels[1].offset, 3);
    assert_eq!(labels[0].offset, 0);
    assert_eq!(mc, vec![1, 2, 3]);
    assert_eq!(TCGX86::tcg_gen_label(9, &TCGOp::new_label(0), &mut labels), 9);
    assert_eq!(labels[0].offset, 9);
}

#[test]
fn relocation_appends_a_site() {
    let mut labels = vec![TCGLabel::new()];
    assert_eq!(TCGX86::tcg_out_reloc(40, 0, &mut labels), 0);
    assert_eq!(TCGX86::tcg_out_reloc(80, 0, &mut labels), 0);
    assert_eq!(labels[0].code_ptr_vec, vec![40, 80]);
}

#[test]
fn malformed_records_are_refused_untouched() {
    let mut labels = vec![TCGLabel::new()];
    let mut mc = vec![7u8];
    let missing = TCGOp::new_2op(TCGOpcode::ADD, reg(1), reg(2));
    assert_eq!(gen(&missing, 1, &mut labels, &mut mc), Err(TCGError::MissingOperand));
    let kind = TCGOp::new_3op(TCGOpcode::ADD, imm(1), reg(2), reg(3));
    assert_eq!(gen(&kind, 1, &mut labels, &mut mc), Err(TCGError::OperandKind));
    let pc_src = TCGOp::new_3op(TCGOpcode::ADD, reg(1), reg(2), TCGv::new_pc());
    assert_eq!(gen(&pc_src, 1, &mut labels, &mut mc), Err(TCGError::OperandKind));
    let big = TCGOp::new_3op(TCGOpcode::SUB, reg(1), reg(32), reg(3));
    assert_eq!(gen(&big, 1, &mut labels, &mut mc), Err(TCGError::OperandKind));
    let no_label = TCGOp::new_3op(TCGOpcode::EQ, reg(1), reg(2), imm(8));
    assert_eq!(gen(&no_label, 1, &mut labels, &mut mc), Err(TCGError::MissingLabel));
    let bad_label = TCGOp::new_4op(TCGOpcode::EQ, reg(1), reg(2), imm(8), 5);
    assert_eq!(gen(&bad_label, 1, &mut labels, &mut mc), Err(TCGError::MissingLabel));
    let empty = TCGOp { op: None, arg0: None, arg1: None, arg2: None, label: None };
    assert_eq!(gen(&empty, 1, &mut labels, &mut mc), Err(TCGError::MissingLabel));
    let mov_reg = TCGOp::new_2op(TCGOpcode::MOV, reg(1), imm(3));
    assert_eq!(gen(&mov_reg, 1, &mut labels, &mut mc), Err(TCGError::OperandKind));
    let load_reg_disp = TCGOp::new_3op(TCGOpcode::LW, reg(1), reg(2), reg(3));
    assert_eq!(gen(&load_reg_disp, 1, &mut labels, &mut mc), Err(TCGError::OperandKind));
    assert_eq!(mc, vec![7]);
    assert_eq!(labels[0].code_ptr_vec, Vec::<usize>::new());
    assert_eq!(TCGX86::tcg_check(&missing, 1), Err(TCGError::MissingOperand));
    assert_eq!(TCGX86::tcg_check(&TCGOp::new_label(0), 1), Ok(()));
}

#[test]
fn block_with_a_bad_record_writes_nothing() {
    let (mut ops, mut labels) = branch_block(5);
    ops.push(TCGOp::new_3op(TCGOpcode::SUB, reg(1), reg(2), imm(3)));
    let mut mc = vec![9u8];
    let r = TCGX86::tcg_gen_block(&env(), &ops, &mut labels, &mut mc);
    assert_eq!(r, Err(TCGError::OperandKind));
    assert_eq!(mc, vec![9]);
    assert_eq!(labels[0].code_ptr_vec, Vec::<usize>::new());
}

#[test]
fn gen_size_tracks_bytes_appended() {
    let (ops, mut labels) = branch_block(6);
    let mut mc = Vec::new();
    let mut at: u64 = 0;
    for op in &ops {
        let before = mc.len();
        let r = gen(op, at, &mut labels, &mut mc).unwrap();
        assert_eq!(r as u64, at + (mc.len() - before) as u64);
        at = r as u64;
    }
    assert_eq!(at as usize, mc.len());
}

#[test]
fn empty_block_emits_nothing() {
    let mut mc = vec![1u8];
    let r = TCGX86::tcg_gen_block(&env(), &Vec::new(), &mut Vec::new(), &mut mc);
    assert_eq!(r, Ok(1));
    assert_eq!(mc, vec![1]);
}

#[test]
fn layout_queries_report_the_runtime_layout() {
    let e = env();
    assert_eq!(e.calc_gpr_relat_address(0), 0);
    assert_eq!(e.calc_gpr_relat_address(31), 248);
    assert_eq!(e.calc_pc_address(), 256);
    assert_eq!(e.calc_guestcode_address(), 0x0000_7f00_1234_5678);
    assert_eq!(e.calc_epilogue_address(), 0x1000);
}

#[test]
fn direct_emitters_return_the_position_after_their_bytes() {
    let e = env();
    let op = TCGOp::new_3op(TCGOpcode::SUB, reg(1), reg(2), reg(3));
    let mut mc = Vec::new();
    assert_eq!(TCGX86::tcg_gen_sub(&e, 4, &op, &mut mc), 25);
    assert_eq!(mc[8], 0x2b);
    let op = TCGOp::new_3op(TCGOpcode::XOR, reg(1), reg(2), imm(0x80));
    let mut mc = Vec::new();
    assert_eq!(TCGX86::tcg_gen_xor(&e, 0, &op, &mut mc), 19);
    assert_eq!(mc[7], 0x35);
    let op = TCGOp::new_3op(TCGOpcode::OR, reg(1), reg(2), imm(0x80));
    let mut mc = Vec::new();
    assert_eq!(TCGX86::tcg_gen_or(&e, 0, &op, &mut mc), 19);
    assert_eq!(mc[7], 0x0d);
    let op = TCGOp::new_3op(TCGOpcode::AND, reg(1), reg(0), imm(0x80));
    let mut mc = Vec::new();
    assert_eq!(TCGX86::tcg_gen_and(&e, 0, &op, &mut mc), 11);
    assert_eq!(mc[1], 0xc7);
    let op = TCGOp::new_3op(TCGOpcode::ADD, reg(1), reg(2), imm(1));
    let mut mc = Vec::new();
    assert_eq!(TCGX86::tcg_gen_addi(&e, 0, &op, &mut mc), 19);
    assert_eq!(mc[7], 0x05);
    let mut labels = vec![TCGLabel::new()];
    let op = TCGOp::new_4op(TCGOpcode::EQ, reg(1), reg(2), imm(8), 0);
    let mut mc = Vec::new();
    assert_eq!(TCGX86::tcg_gen_eq(&e, 0, &op, &mut labels, &mut mc), 20);
    assert_eq!(TCGX86::tcg_gen_ne(&e, 20, &op, &mut labels, &mut mc), 40);
    assert_eq!(labels[0].code_ptr_vec, vec![16, 36]);
    let mut mc = Vec::new();
    assert_eq!(TCGX86::tcg_gen_lt(&e, 0, &op, &mut labels, &mut mc), 20);
    assert_eq!(TCGX86::tcg_gen_ge(&e, 20, &op, &mut labels, &mut mc), 40);
    assert_eq!(TCGX86::tcg_gen_ltu(&e, 40, &op, &mut labels, &mut mc), 60);
    assert_eq!(TCGX86::tcg_gen_geu(&e, 60, &op, &mut labels, &mut mc), 80);
    assert_eq!(mc[75], 0x83);
    let op = TCGOp::new_goto_tb(imm(4));
    let mut mc = Vec::new();
    assert_eq!(TCGX86::tcg_gen_mov(&e, 0, &op, &mut mc), 17);
    let op = TCGOp::new_3op(TCGOpcode::JMP, reg(0), reg(1), imm(0));
    let mut mc = Vec::new();
    assert_eq!(TCGX86::tcg_gen_jmpr(&e, 0, &op, &mut mc), 5);
    let op = TCGOp::new_2op(TCGOpcode::JMPIM, reg(0), imm(8));
    let mut mc = Vec::new();
    assert_eq!(TCGX86::tcg_gen_jmpim(&e, 0, &op, &mut mc), 17);
}

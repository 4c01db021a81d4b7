//! What the emitted host code does when it runs: a model of the host
//! instruction forms over the guest register file, the two scratch
//! registers, the compare flags and guest memory, and the laws that tie
//! lifted guest instructions to their effect.
use crate::emu_env::{gpr_disp, pc_disp, EmuEnv};
use crate::riscv::{b_imm_of, branch_ir, i_imm_of, rd_of, rri_ir, rrr_ir, rs1_of, rs2_of, sext12, sext13};
use crate::tcg::{LabelView, MemOpType, TCGOp, TCGOpcode};
use crate::host::{
    code_bytes, encode, le32, lemma_code_bytes_concat, lemma_code_bytes_pair,
    lemma_code_bytes_push, rel32, AluOp, Cond, HostInsn,
};
use crate::x86::{
    alu_code, block_code, block_emit, branch_code, exit_code, gen_code, lemma_block_bytes,
    lemma_branch_code_len, patch_value, rrr_code,
};
use vstd::prelude::*;

verus! {

/// The machine state that emitted code reads and writes. `frame` holds the
/// 8-byte slots at `RBP + disp`: guest register `i` at `gpr_disp(i)` and
/// the program counter at `pc_disp()`. `cmp` holds the operands of the last
/// compare while the flags still reflect it. `mem` holds the bytes of host
/// memory, where guest memory lives.
pub struct HostState {
    pub frame: spec_fn(u32) -> u64,
    pub rax: u64,
    pub rcx: u64,
    pub cmp: Option<(u64, u64)>,
    pub mem: spec_fn(int) -> u8,
}

pub open spec fn wrap64(x: int) -> u64 {
    (x % 0x1_0000_0000_0000_0000) as u64
}

pub open spec fn wrap32(x: int) -> u64 {
    (x % 0x1_0000_0000) as u64
}

/// The 64-bit sign extension of a 32-bit value.
pub open spec fn sext32(v: u32) -> u64 {
    if v & 0x8000_0000 != 0 {
        (v as u64) | 0xffff_ffff_0000_0000
    } else {
        v as u64
    }
}

pub open spec fn sext16(v: u64) -> u64 {
    if v & 0x8000 != 0 {
        v | 0xffff_ffff_ffff_0000
    } else {
        v
    }
}

pub open spec fn sext8(v: u64) -> u64 {
    if v & 0x80 != 0 {
        v | 0xffff_ffff_ffff_ff00
    } else {
        v
    }
}

/// The 64-bit operation of a register-memory form.
pub open spec fn alu64(op: AluOp, a: u64, b: u64) -> u64 {
    match op {
        AluOp::Add => wrap64(a + b),
        AluOp::Sub => wrap64(a - b),
        AluOp::And => a & b,
        AluOp::Or => a | b,
        AluOp::Xor => a ^ b,
    }
}

/// The 32-bit operation of an immediate form; the upper half of `rax` is
/// cleared.
pub open spec fn alu32(op: AluOp, a: u64, imm: u32) -> u64 {
    let lo = wrap32(a as int);
    match op {
        AluOp::Add => wrap32(lo + imm),
        AluOp::Sub => wrap32(lo - imm),
        AluOp::And => lo & (imm as u64),
        AluOp::Or => lo | (imm as u64),
        AluOp::Xor => lo ^ (imm as u64),
    }
}

/// Whether a conditional jump is taken after comparing `a` with `b`.
pub open spec fn cond_holds(c: Cond, a: u64, b: u64) -> bool {
    match c {
        Cond::E => a == b,
        Cond::NE => a != b,
        Cond::L => (a as i64) < (b as i64),
        Cond::GE => (a as i64) >= (b as i64),
        Cond::B => a < b,
        Cond::AE => a >= b,
    }
}

/// The little-endian value of the `n` bytes at `addr`.
pub open spec fn read_le(mem: spec_fn(int) -> u8, addr: int, n: nat) -> nat
    decreases n,
{
    if n == 0 {
        0
    } else {
        mem(addr) as nat + 256 * read_le(mem, addr + 1, (n - 1) as nat)
    }
}

/// Memory with the low `n` bytes of `v` written at `addr`.
pub open spec fn write_le(mem: spec_fn(int) -> u8, addr: int, n: nat, v: u64) -> spec_fn(int) -> u8 {
    |k: int|
        if addr <= k < addr + n {
            ((v as nat / pow256((k - addr) as nat)) % 256) as u8
        } else {
            mem(k)
        }
}

pub open spec fn pow256(i: nat) -> nat
    decreases i,
{
    if i == 0 {
        1
    } else {
        256 * pow256((i - 1) as nat)
    }
}

/// The number of bytes a memory access of `width` moves.
pub open spec fn width_bytes(width: MemOpType) -> nat {
    match width {
        MemOpType::LOAD_64BIT | MemOpType::STORE_64BIT => 8,
        MemOpType::LOAD_32BIT | MemOpType::LOAD_U_32BIT | MemOpType::STORE_32BIT => 4,
        MemOpType::LOAD_16BIT | MemOpType::LOAD_U_16BIT | MemOpType::STORE_16BIT => 2,
        _ => 1,
    }
}

/// The value a load of `width` leaves in `rax` when memory holds `raw`.
pub open spec fn load_extend(width: MemOpType, raw: nat) -> u64 {
    match width {
        MemOpType::LOAD_32BIT => sext32(raw as u32),
        MemOpType::LOAD_16BIT => sext16(raw as u64),
        MemOpType::LOAD_8BIT => sext8(raw as u64),
        _ => raw as u64,
    }
}

pub open spec fn set_slot(f: spec_fn(u32) -> u64, disp: u32, v: u64) -> spec_fn(u32) -> u64 {
    |d: u32|
        if d == disp {
            v
        } else {
            f(d)
        }
}

/// The effect of one host instruction on the state. Jumps leave the state
/// as it is; where they go is decided by `jump_taken`.
pub open spec fn exec_insn(i: HostInsn, st: HostState) -> HostState {
    match i {
        HostInsn::LoadSlot { to_rcx, disp } => if to_rcx {
            HostState { rcx: (st.frame)(disp), ..st }
        } else {
            HostState { rax: (st.frame)(disp), ..st }
        },
        HostInsn::AluSlot { op, disp } => HostState {
            rax: alu64(op, st.rax, (st.frame)(disp)),
            cmp: None,
            ..st
        },
        HostInsn::CmpSlot { disp } => HostState { cmp: Some((st.rax, (st.frame)(disp))), ..st },
        HostInsn::StoreSlot { disp } => HostState { frame: set_slot(st.frame, disp, st.rax), ..st },
        HostInsn::StoreImmSlot { disp, imm } => HostState {
            frame: set_slot(st.frame, disp, sext32(imm)),
            ..st
        },
        HostInsn::AluEaxImm { op, imm } => HostState {
            rax: alu32(op, st.rax, imm),
            cmp: None,
            ..st
        },
        HostInsn::MovEaxImm { imm } => HostState { rax: imm as u64, ..st },
        HostInsn::MovRaxImm64 { imm64 } => HostState { rax: imm64, ..st },
        HostInsn::MovRcxRax => HostState { rcx: st.rax, ..st },
        HostInsn::AddRaxRcx => HostState { rax: wrap64(st.rax + st.rcx), cmp: None, ..st },
        HostInsn::MemAccess { width, disp } => {
            let addr = wrap64(st.rax + sext32(disp)) as int;
            let n = width_bytes(width);
            match width {
                MemOpType::STORE_64BIT | MemOpType::STORE_32BIT | MemOpType::STORE_16BIT
                | MemOpType::STORE_8BIT => HostState { mem: write_le(st.mem, addr, n, st.rcx), ..st },
                _ => HostState { rax: load_extend(width, read_le(st.mem, addr, n)), ..st },
            }
        },
        HostInsn::Jcc { .. } => st,
        HostInsn::Jmp { .. } => st,
    }
}

/// Straight-line execution of a sequence of host instructions.
pub open spec fn run(code: Seq<HostInsn>, st: HostState) -> HostState
    decreases code.len(),
{
    if code.len() == 0 {
        st
    } else {
        exec_insn(code.last(), run(code.drop_last(), st))
    }
}

/// Guest register `i` as the register file holds it.
pub open spec fn gpr(st: HostState, i: u64) -> u64 {
    (st.frame)(gpr_disp(i))
}

/// The zero register reads as zero.
pub open spec fn zero_reg_clear(st: HostState) -> bool {
    gpr(st, 0) == 0
}

/// Every slot but `disp` holds what it held in `st`.
pub open spec fn frame_same_except(st: HostState, st2: HostState, disp: u32) -> bool {
    forall|d: u32| d != disp ==> #[trigger] (st2.frame)(d) == (st.frame)(d)
}

pub proof fn lemma_run_1(a: HostInsn, st: HostState)
    ensures
        run(seq![a], st) == exec_insn(a, st),
{
    assert(seq![a].drop_last() =~= Seq::<HostInsn>::empty());
    assert(run(Seq::<HostInsn>::empty(), st) == st);
    assert(seq![a].last() == a);
}

pub proof fn lemma_run_2(a: HostInsn, b: HostInsn, st: HostState)
    ensures
        run(seq![a, b], st) == exec_insn(b, exec_insn(a, st)),
{
    assert(seq![a, b].drop_last() =~= seq![a]);
    lemma_run_1(a, st);
}

pub proof fn lemma_run_3(a: HostInsn, b: HostInsn, c: HostInsn, st: HostState)
    ensures
        run(seq![a, b, c], st) == exec_insn(c, exec_insn(b, exec_insn(a, st))),
{
    assert(seq![a, b, c].drop_last() =~= seq![a, b]);
    lemma_run_2(a, b, st);
}

/// The position of instruction `idx` of `code` laid out from `base`.
pub open spec fn pos_of(code: Seq<HostInsn>, base: int, idx: int) -> int {
    base + code_bytes(code.subrange(0, idx)).len()
}

/// The first index from `j` on where an instruction of `code` starts at
/// position `t`, or the length of `code` if there is none.
pub open spec fn index_at(code: Seq<HostInsn>, base: int, t: int, j: int) -> int
    decreases code.len() - j,
{
    if j < 0 || j >= code.len() {
        code.len() as int
    } else if pos_of(code, base, j) == t {
        j
    } else {
        index_at(code, base, t, j + 1)
    }
}

/// The signed value of a 32-bit displacement.
pub open spec fn rel_value(rel: u32) -> int {
    if rel < 0x8000_0000 {
        rel as int
    } else {
        rel - 0x1_0000_0000
    }
}

/// Runs `code`, laid out from `base`, from instruction `idx` for at most
/// `fuel` instructions. Control leaves the code when it runs past the last
/// instruction or jumps to a position where none of them starts; the
/// result is then the state and that position. A conditional jump whose
/// flags do not come from a compare has no result.
pub open spec fn run_from(code: Seq<HostInsn>, base: int, idx: int, st: HostState, fuel: nat) -> Option<
    (HostState, int),
>
    decreases fuel,
{
    if idx < 0 || idx >= code.len() {
        Some((st, pos_of(code, base, idx)))
    } else if fuel == 0 {
        None
    } else {
        let i = code[idx];
        let st1 = exec_insn(i, st);
        let next = pos_of(code, base, idx + 1);
        let jump = match i {
            HostInsn::Jmp { rel } => Some(Some(rel)),
            HostInsn::Jcc { cond, rel } => match st.cmp {
                Some((a, b)) => if cond_holds(cond, a, b) {
                    Some(Some(rel))
                } else {
                    Some(None)
                },
                None => None,
            },
            _ => Some(None),
        };
        match jump {
            None => None,
            Some(None) => run_from(code, base, idx + 1, st1, (fuel - 1) as nat),
            Some(Some(rel)) => {
                let t = next + rel_value(rel);
                let k = index_at(code, base, t, 0);
                if k < code.len() {
                    run_from(code, base, k, st1, (fuel - 1) as nat)
                } else {
                    Some((st1, t))
                }
            },
        }
    }
}

pub proof fn lemma_pos_step(code: Seq<HostInsn>, base: int, j: int)
    requires
        0 <= j < code.len(),
    ensures
        pos_of(code, base, j + 1) == pos_of(code, base, j) + encode(code[j]).len(),
{
    assert(code.subrange(0, j + 1) =~= code.subrange(0, j).push(code[j]));
    lemma_code_bytes_push(code.subrange(0, j), code[j]);
}

/// Running the code emitted for `ADDI rd, x0, k` with `rd` not the zero
/// register leaves `k`, sign-extended from 12 bits, in `rd`, whatever the
/// register file held, and changes no other slot.
pub proof fn lemma_addi_from_zero(emu: EmuEnv, inst: u32, g: int, st: HostState)
    requires
        rs1_of(inst) == 0,
        rd_of(inst) != 0,
    ensures
        ({
            let st2 = run(gen_code(emu, rri_ir(TCGOpcode::ADD, inst)[0], g), st);
            &&& gpr(st2, rd_of(inst)) == sext12(i_imm_of(inst))
            &&& frame_same_except(st, st2, gpr_disp(rd_of(inst)))
        }),
{
    let op = rri_ir(TCGOpcode::ADD, inst)[0];
    let k = sext12(i_imm_of(inst));
    let code = gen_code(emu, op, g);
    assert(code == seq![HostInsn::StoreImmSlot { disp: gpr_disp(rd_of(inst)), imm: k as u32 }]);
    lemma_run_1(code[0], st);
    let x = i_imm_of(inst);
    assert(x == (inst >> 20u32) as u64);
    assert(sext32(k as u32) == k) by (bit_vector)
        requires
            k == (if x & 0x800 != 0 {
                x | 0xffff_ffff_ffff_f000
            } else {
                x
            }),
            x == (inst >> 20u32) as u64,
    ;
}

/// Running the code emitted for `ADD rd, rs1, rs2` with `rd` not the zero
/// register, from a register file whose zero register reads zero, leaves
/// the wrapping sum of `rs1` and `rs2` in `rd` (so its low 32 bits are the
/// 32-bit wrapping sum) and changes no other slot.
#[verifier::spinoff_prover]
pub proof fn lemma_add_registers(emu: EmuEnv, inst: u32, g: int, st: HostState)
    requires
        rd_of(inst) != 0,
        zero_reg_clear(st),
    ensures
        ({
            let st2 = run(gen_code(emu, rrr_ir(TCGOpcode::ADD, inst)[0], g), st);
            &&& gpr(st2, rd_of(inst)) == wrap64(gpr(st, rs1_of(inst)) + gpr(st, rs2_of(inst)))
            &&& frame_same_except(st, st2, gpr_disp(rd_of(inst)))
        }),
{
    let op = rrr_ir(TCGOpcode::ADD, inst)[0];
    assert(op.op == Some(TCGOpcode::ADD));
    let code = gen_code(emu, op, g);
    assert(code == alu_code(AluOp::Add, op));
    let (d0, d1, d2) = (gpr_disp(rd_of(inst)), gpr_disp(rs1_of(inst)), gpr_disp(rs2_of(inst)));
    let st2 = run(code, st);
    if rs1_of(inst) == 0 {
        let i0 = HostInsn::LoadSlot { to_rcx: false, disp: d2 };
        let i1 = HostInsn::StoreSlot { disp: d0 };
        assert(code == seq![i0, i1]);
        lemma_run_2(i0, i1, st);
        let s1 = exec_insn(i0, st);
        assert(s1.rax == gpr(st, rs2_of(inst)) && s1.frame == st.frame);
        assert(st2 == exec_insn(i1, s1));
        assert(st2.frame == set_slot(st.frame, d0, s1.rax));
    } else {
        let i0 = HostInsn::LoadSlot { to_rcx: false, disp: d1 };
        let i1 = HostInsn::AluSlot { op: AluOp::Add, disp: d2 };
        let i2 = HostInsn::StoreSlot { disp: d0 };
        assert(code == rrr_code(AluOp::Add, op));
        assert(code == seq![i0, i1, i2]);
        lemma_run_3(i0, i1, i2, st);
        let s1 = exec_insn(i0, st);
        assert(s1.rax == gpr(st, rs1_of(inst)) && s1.frame == st.frame);
        let s2 = exec_insn(i1, s1);
        assert(s2.rax == wrap64(gpr(st, rs1_of(inst)) + gpr(st, rs2_of(inst))));
        assert(s2.frame == st.frame);
        assert(st2 == exec_insn(i2, s2));
        assert(st2.frame == set_slot(st.frame, d0, s2.rax));
    }
}

pub proof fn lemma_exit_code_len(emu: EmuEnv, target: u32, g: int)
    ensures
        code_bytes(exit_code(emu, target, g)).len() == 17,
{
    let c = exit_code(emu, target, g);
    lemma_code_bytes_pair(c[0], c[1]);
    assert(seq![c[0], c[1]].push(c[2]) =~= c);
    lemma_code_bytes_push(seq![c[0], c[1]], c[2]);
}

/// The code of a lifted `BEQ rs1, rs2, off` block emitted from position `g`
/// (a compare-and-branch, the exit to the next instruction, the label, the
/// exit to the target) consists of the bytes `tcg_gen_block` appends, and
/// its one pending site lies in the branch's displacement field. With that
/// field patched, running the code from a state with the epilogue ahead
/// of the block leaves through the epilogue with the program counter slot
/// holding the low 32 bits of `off` when `rs1` and `rs2` are equal, and 4
/// when they are not: the address of the target or of the next
/// instruction, for a block entered at address zero.
#[verifier::spinoff_prover]
#[verifier::rlimit(40)]
pub proof fn lemma_beq_block(
    emu: EmuEnv,
    inst: u32,
    l: usize,
    g: int,
    ls: Seq<LabelView>,
    st: HostState,
)
    requires
        l < ls.len(),
        0 <= g,
        g + 54 <= usize::MAX,
        g + 54 <= emu.epilogue_offset < g + 0x8000_0000,
    ensures
        ({
            let ops = branch_ir(TCGOpcode::EQ, inst, l);
            let code = block_code(emu, ops, g);
            let (bytes, ls2) = block_emit(emu, ops, g, ls);
            let site = (g + 16) as usize;
            let patched = code.update(
                2,
                HostInsn::Jcc { cond: Cond::E, rel: patch_value(ls2[l as int], site) },
            );
            let target = sext13(b_imm_of(inst));
            let pc = if gpr(st, rs1_of(inst)) == gpr(st, rs2_of(inst)) {
                (target as u32) as u64
            } else {
                4u64
            };
            &&& bytes == code_bytes(code)
            &&& ls2 == ls.update(
                l as int,
                LabelView { offset: (g + 37) as u64, pending: ls[l as int].pending.push(site) },
            )
            &&& code[2] == HostInsn::Jcc { cond: Cond::E, rel: 0 }
            &&& pos_of(code, g, 2) + 2 == site
            &&& code_bytes(patched).len() == bytes.len()
            &&& code_bytes(patched).subrange(16, 20) == le32(patch_value(ls2[l as int], site))
            &&& forall|k: int|
                0 <= k < bytes.len() && !(16 <= k < 20) ==> #[trigger] code_bytes(patched)[k]
                    == bytes[k]
            &&& run_from(patched, g, 0, st, 9) matches Some((st2, t)) && t
                == emu.epilogue_offset && (st2.frame)(pc_disp()) == pc
        }),
{
    let ops = branch_ir(TCGOpcode::EQ, inst, l);
    let target = sext13(b_imm_of(inst));
    let e = emu.epilogue_offset as int;
    let (op0, op1, op2, op3) = (ops[0], ops[1], ops[2], ops[3]);
    // The host code, record by record.
    let c0 = branch_code(Cond::E, op0);
    let c1 = exit_code(emu, 4, g + 20);
    let c3 = exit_code(emu, target as u32, g + 37);
    assert(gen_code(emu, op0, g) == c0);
    assert(gen_code(emu, op1, g + 20) == c1);
    assert(gen_code(emu, op2, g + 37) == Seq::<HostInsn>::empty());
    assert(gen_code(emu, op3, g + 37) == c3);
    lemma_branch_code_len(Cond::E, op0);
    lemma_exit_code_len(emu, 4, g + 20);
    lemma_exit_code_len(emu, target as u32, g + 37);
    let o1 = seq![op0];
    let o2 = seq![op0, op1];
    let o3 = seq![op0, op1, op2];
    assert(o1.drop_last() =~= Seq::<TCGOp>::empty());
    assert(o2.drop_last() =~= o1);
    assert(o3.drop_last() =~= o2);
    assert(ops.drop_last() =~= o3);
    assert(block_code(emu, Seq::<TCGOp>::empty(), g) == Seq::<HostInsn>::empty());
    assert(code_bytes(Seq::<HostInsn>::empty()).len() == 0);
    assert(Seq::<HostInsn>::empty() + c0 =~= c0);
    assert(block_code(emu, o1, g) == c0);
    assert(block_code(emu, o2, g) == c0 + c1);
    lemma_code_bytes_concat(c0, c1);
    assert(block_code(emu, o3, g) =~= c0 + c1);
    let code = block_code(emu, ops, g);
    assert(code == c0 + c1 + c3);
    lemma_block_bytes(emu, ops, g, ls);
    // The label table.
    let (bytes, ls2) = block_emit(emu, ops, g, ls);
    assert(block_emit(emu, Seq::<TCGOp>::empty(), g, ls).1 == ls);
    assert(block_emit(emu, o1, g, ls).0 == code_bytes(c0)) by {
        lemma_block_bytes(emu, o1, g, ls);
    }
    assert(block_emit(emu, o2, g, ls).0.len() == 37) by {
        lemma_block_bytes(emu, o2, g, ls);
    }
    assert(block_emit(emu, o3, g, ls).0.len() == 37) by {
        lemma_block_bytes(emu, o3, g, ls);
    }
    let site = (g + 16) as usize;
    assert(ls2 =~= ls.update(
        l as int,
        LabelView { offset: (g + 37) as u64, pending: ls[l as int].pending.push(site) },
    ));
    assert(ls2[l as int].offset == g + 37);
    assert(site == g + 16);
    assert(rel32(g + 37, g + 20) == 17u32);
    assert(patch_value(ls2[l as int], site) == 17u32);
    // Positions of the nine instructions.
    let patched = code.update(2, HostInsn::Jcc { cond: Cond::E, rel: 17 });
    assert(code.subrange(0, 0) =~= Seq::<HostInsn>::empty());
    assert(patched.subrange(0, 0) =~= Seq::<HostInsn>::empty());
    assert(pos_of(code, g, 0) == g);
    assert(pos_of(patched, g, 0) == g);
    lemma_pos_step(code, g, 0);
    lemma_pos_step(code, g, 1);
    assert(bytes == code_bytes(code));
    assert(code[2] == HostInsn::Jcc { cond: Cond::E, rel: 0 });
    assert(pos_of(code, g, 2) + 2 == site);
    // The patched code differs from the emitted bytes only in the field.
    let j17 = HostInsn::Jcc { cond: Cond::E, rel: 17 };
    let c0p = c0.update(2, j17);
    assert(patched =~= c0p + c1 + c3);
    lemma_code_bytes_concat(c0 + c1, c3);
    lemma_code_bytes_concat(c0p + c1, c3);
    lemma_code_bytes_concat(c0p, c1);
    lemma_code_bytes_pair(c0[0], c0[1]);
    assert(c0 =~= seq![c0[0], c0[1]].push(c0[2]));
    assert(c0p =~= seq![c0[0], c0[1]].push(j17));
    lemma_code_bytes_push(seq![c0[0], c0[1]], c0[2]);
    lemma_code_bytes_push(seq![c0[0], c0[1]], j17);
    let bp = code_bytes(patched);
    assert(bp.subrange(16, 20) =~= le32(17));
    assert forall|k: int| 0 <= k < bytes.len() && !(16 <= k < 20) implies #[trigger] bp[k]
        == bytes[k] by {
        if k < 20 {
            assert(bp[k] == code_bytes(c0p)[k]);
            assert(bytes[k] == code_bytes(c0)[k]);
        } else {
            assert(bp[k] == (code_bytes(c1) + code_bytes(c3))[k - 20]);
            assert(bytes[k] == (code_bytes(c1) + code_bytes(c3))[k - 20]);
        }
    }
    // Positions of the nine instructions of the patched code.
    let p = patched;
    assert(p.len() == 9);
    lemma_pos_step(p, g, 0);
    lemma_pos_step(p, g, 1);
    lemma_pos_step(p, g, 2);
    lemma_pos_step(p, g, 3);
    lemma_pos_step(p, g, 4);
    lemma_pos_step(p, g, 5);
    lemma_pos_step(p, g, 6);
    lemma_pos_step(p, g, 7);
    lemma_pos_step(p, g, 8);
    assert(pos_of(p, g, 3) == g + 20);
    assert(pos_of(p, g, 6) == g + 37);
    assert(pos_of(p, g, 9) == g + 54);
    // Where the exits land: no instruction starts at the epilogue.
    assert(index_at(p, g, e, 9) == 9);
    assert(index_at(p, g, e, 8) == 9);
    assert(index_at(p, g, e, 7) == 9);
    assert(index_at(p, g, e, 6) == 9);
    assert(index_at(p, g, e, 5) == 9);
    assert(index_at(p, g, e, 4) == 9);
    assert(index_at(p, g, e, 3) == 9);
    assert(index_at(p, g, e, 2) == 9);
    assert(index_at(p, g, e, 1) == 9);
    assert(index_at(p, g, e, 0) == 9);
    let (a, b) = (gpr(st, rs1_of(inst)), gpr(st, rs2_of(inst)));
    let s1 = exec_insn(p[0], st);
    let s2 = exec_insn(p[1], s1);
    assert(s1.rax == a);
    assert(s2.cmp == Some((a, b)));
    assert(run_from(p, g, 0, st, 9) == run_from(p, g, 1, s1, 8));
    assert(run_from(p, g, 1, s1, 8) == run_from(p, g, 2, s2, 7));
    if a == b {
        assert(index_at(p, g, g + 37, 6) == 6);
        assert(index_at(p, g, g + 37, 5) == 6);
        assert(index_at(p, g, g + 37, 4) == 6);
        assert(index_at(p, g, g + 37, 3) == 6);
        assert(index_at(p, g, g + 37, 2) == 6);
        assert(index_at(p, g, g + 37, 1) == 6);
        assert(index_at(p, g, g + 37, 0) == 6);
        assert(exec_insn(p[2], s2) == s2);
        assert(run_from(p, g, 2, s2, 7) == run_from(p, g, 6, s2, 6));
        let s7 = exec_insn(p[6], s2);
        let s8 = exec_insn(p[7], s7);
        assert(s7.rax == (target as u32) as u64);
        assert((s8.frame)(pc_disp()) == (target as u32) as u64);
        assert(run_from(p, g, 6, s2, 6) == run_from(p, g, 7, s7, 5));
        assert(run_from(p, g, 7, s7, 5) == run_from(p, g, 8, s8, 4));
        assert(p[8] == HostInsn::Jmp { rel: rel32(e, g + 54) });
        assert(rel_value(rel32(e, g + 54)) == e - (g + 54));
        assert(run_from(p, g, 8, s8, 4) == Some((exec_insn(p[8], s8), e)));
    } else {
        assert(run_from(p, g, 2, s2, 7) == run_from(p, g, 3, s2, 6));
        let s4 = exec_insn(p[3], s2);
        let s5 = exec_insn(p[4], s4);
        assert(s4.rax == 4);
        assert((s5.frame)(pc_disp()) == 4);
        assert(run_from(p, g, 3, s2, 6) == run_from(p, g, 4, s4, 5));
        assert(run_from(p, g, 4, s4, 5) == run_from(p, g, 5, s5, 4));
        assert(p[5] == HostInsn::Jmp { rel: rel32(e, g + 37) });
        assert(rel_value(rel32(e, g + 37)) == e - (g + 37));
        assert(run_from(p, g, 5, s5, 4) == Some((exec_insn(p[5], s5), e)));
    }
}

} // verus!

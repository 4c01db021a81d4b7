//! The x86-64 back end: an encoder for the few host instruction forms that
//! the emitter uses, and one emitter per IR opcode.
use crate::emu_env::{gpr_disp, pc_disp, EmuEnv};
use crate::host::{
    alu_eax_opcode, alu_slot_opcode, byte_of, code_bytes, cond_opcode, encode, le32, le_bytes,
    lemma_code_bytes_concat, lemma_code_bytes_len, lemma_code_bytes_pair,
    lemma_code_bytes_push, lemma_le_bytes_1, lemma_le_bytes_2, mem_prefix, rel32, AluOp, Cond,
    HostInsn,
};
use crate::tcg::{
    labels_view, LabelView, MemOpType, TCGError, TCGLabel, TCGOp, TCGOpcode, TCGv, TCGvType, TCG,
};
use vstd::prelude::*;

verus! {

// One-byte opcodes.
const MOV_EV_IV: u32 = 0xc7;
const MOV_GV_EV: u32 = 0x8b;
const MOV_EB_GB: u32 = 0x88;
const MOV_EV_GV: u32 = 0x89;
const ADD_GV_EV: u32 = 0x03;
const ADD_EAX_IV: u32 = 0x05;
const SUB_GV_EV: u32 = 0x2b;
const AND_GV_EV: u32 = 0x23;
const OR_GV_EV: u32 = 0x0b;
const XOR_GV_EV: u32 = 0x33;
const AND_EAX_IV: u32 = 0x25;
const OR_EAX_IV: u32 = 0x0d;
const XOR_EAX_IV: u32 = 0x35;
const CMP_GV_EV: u32 = 0x3b;
const MOV_EAX_IV: u32 = 0xb8;
const JMP_JZ: u32 = 0xe9;
const MOV_GV_EV_32BIT: u32 = 0x63;

// Two-byte opcodes, first byte in the low half.
const JAE_REL32: u32 = 0x830f;
const JB_REL32: u32 = 0x820f;
const JE_REL32: u32 = 0x840f;
const JGE_REL32: u32 = 0x8d0f;
const JL_REL32: u32 = 0x8c0f;
const JNE_REL32: u32 = 0x850f;
const MOV_GV_EV_S_16BIT: u32 = 0xbf0f;
const MOV_GV_EV_S_8BIT: u32 = 0xbe0f;
const MOV_GV_EV_U_16BIT: u32 = 0xb70f;
const MOV_GV_EV_U_8BIT: u32 = 0xb60f;

// ModR/M bytes with the reg field left clear.
const MOD_10_DISP_RBP: u32 = 0x85;
const MOD_10_DISP_RAX: u32 = 0x80;
const MOD_11_DISP_RCX: u32 = 0xc1;
const MOD_11_DISP_RAX: u32 = 0xc0;

// Register numbers for the reg field.
const RAX: u32 = 0;
const RCX: u32 = 1;

/// The first error of two checks made in order.
pub open spec fn first_err(a: Result<(), TCGError>, b: Result<(), TCGError>) -> Result<(), TCGError> {
    if a is Err {
        a
    } else {
        b
    }
}

/// An operand that must name a guest register.
pub open spec fn reg_check(v: Option<TCGv>) -> Result<(), TCGError> {
    match v {
        None => Err(TCGError::MissingOperand),
        Some(x) => if x.t == TCGvType::Register && x.value < 32 {
            Ok(())
        } else {
            Err(TCGError::OperandKind)
        },
    }
}

/// An operand that must be an immediate.
pub open spec fn imm_check(v: Option<TCGv>) -> Result<(), TCGError> {
    match v {
        None => Err(TCGError::MissingOperand),
        Some(x) => if x.t == TCGvType::Immediate {
            Ok(())
        } else {
            Err(TCGError::OperandKind)
        },
    }
}

/// An operand that must be the program counter.
pub open spec fn pc_check(v: Option<TCGv>) -> Result<(), TCGError> {
    match v {
        None => Err(TCGError::MissingOperand),
        Some(x) => if x.t == TCGvType::ProgramCounter {
            Ok(())
        } else {
            Err(TCGError::OperandKind)
        },
    }
}

/// A source operand: a guest register or an immediate.
pub open spec fn src_check(v: Option<TCGv>) -> Result<(), TCGError> {
    match v {
        None => Err(TCGError::MissingOperand),
        Some(x) => if (x.t == TCGvType::Register && x.value < 32) || x.t == TCGvType::Immediate {
            Ok(())
        } else {
            Err(TCGError::OperandKind)
        },
    }
}

/// A label that must name an entry of a table of `n` labels.
pub open spec fn label_check(l: Option<usize>, n: nat) -> Result<(), TCGError> {
    match l {
        Some(i) if i < n => Ok(()),
        _ => Err(TCGError::MissingLabel),
    }
}

pub open spec fn is_alu(c: TCGOpcode) -> bool {
    c == TCGOpcode::ADD || c == TCGOpcode::AND || c == TCGOpcode::OR || c == TCGOpcode::XOR
}

pub open spec fn is_branch(c: TCGOpcode) -> bool {
    c == TCGOpcode::EQ || c == TCGOpcode::NE || c == TCGOpcode::LT || c == TCGOpcode::GE || c
        == TCGOpcode::LTU || c == TCGOpcode::GEU
}

pub open spec fn is_load(c: TCGOpcode) -> bool {
    c == TCGOpcode::LD || c == TCGOpcode::LW || c == TCGOpcode::LH || c == TCGOpcode::LB || c
        == TCGOpcode::LWU || c == TCGOpcode::LHU || c == TCGOpcode::LBU
}

pub open spec fn is_store(c: TCGOpcode) -> bool {
    c == TCGOpcode::SD || c == TCGOpcode::SW || c == TCGOpcode::SH || c == TCGOpcode::SB
}

/// Whether an IR record can be emitted against a table of `n` labels, and
/// if not, the first fault found, checking the operand slots in order.
pub open spec fn check_op(op: TCGOp, n: nat) -> Result<(), TCGError> {
    match op.op {
        None => label_check(op.label, n),
        Some(c) => if is_alu(c) {
            first_err(reg_check(op.arg0), first_err(reg_check(op.arg1), src_check(op.arg2)))
        } else if c == TCGOpcode::SUB || is_load(c) || is_store(c) {
            first_err(
                reg_check(op.arg0),
                first_err(
                    reg_check(op.arg1),
                    if c == TCGOpcode::SUB {
                        reg_check(op.arg2)
                    } else {
                        imm_check(op.arg2)
                    },
                ),
            )
        } else if c == TCGOpcode::JMP {
            first_err(
                reg_check(op.arg0),
                first_err(
                    reg_check(op.arg1),
                    if op.arg0->0.value == 0 && op.arg1->0.value == 1 {
                        Ok(())
                    } else {
                        Err(TCGError::UnsupportedOp)
                    },
                ),
            )
        } else if c == TCGOpcode::JMPIM {
            first_err(reg_check(op.arg0), imm_check(op.arg1))
        } else if is_branch(c) {
            first_err(reg_check(op.arg0), first_err(reg_check(op.arg1), label_check(op.label, n)))
        } else {
            first_err(pc_check(op.arg0), imm_check(op.arg1))
        },
    }
}

/// The register slot displacement of an operand.
pub open spec fn slot(v: Option<TCGv>) -> u32 {
    gpr_disp(v->0.value)
}

/// `a0 = a1 op a2` with the zero-register folds.
pub open spec fn alu_code(alu: AluOp, op: TCGOp) -> Seq<HostInsn> {
    let a1 = op.arg1->0;
    let a2 = op.arg2->0;
    if op.arg0->0.value == 0 {
        seq![]
    } else if a2.t == TCGvType::Immediate && a1.value == 0 {
        seq![HostInsn::StoreImmSlot { disp: slot(op.arg0), imm: a2.value as u32 }]
    } else if a1.value == 0 {
        seq![
            HostInsn::LoadSlot { to_rcx: false, disp: slot(op.arg2) },
            HostInsn::StoreSlot { disp: slot(op.arg0) },
        ]
    } else if a2.t == TCGvType::Immediate {
        rri_code(alu, op)
    } else {
        rrr_code(alu, op)
    }
}

/// Load `a1`, apply the operation with the register `a2`, store to `a0`.
pub open spec fn rrr_code(alu: AluOp, op: TCGOp) -> Seq<HostInsn> {
    seq![
        HostInsn::LoadSlot { to_rcx: false, disp: slot(op.arg1) },
        HostInsn::AluSlot { op: alu, disp: slot(op.arg2) },
        HostInsn::StoreSlot { disp: slot(op.arg0) },
    ]
}

/// Load `a1`, apply the operation with the immediate `a2`, store to `a0`.
pub open spec fn rri_code(alu: AluOp, op: TCGOp) -> Seq<HostInsn> {
    seq![
        HostInsn::LoadSlot { to_rcx: false, disp: slot(op.arg1) },
        HostInsn::AluEaxImm { op: alu, imm: op.arg2->0.value as u32 },
        HostInsn::StoreSlot { disp: slot(op.arg0) },
    ]
}

pub open spec fn sub_code(op: TCGOp) -> Seq<HostInsn> {
    if op.arg0->0.value == 0 {
        seq![]
    } else {
        rrr_code(AluOp::Sub, op)
    }
}

/// Write `target` to the program counter slot and jump to the epilogue;
/// `g` is the position of the first byte.
pub open spec fn exit_code(emu: EmuEnv, target: u32, g: int) -> Seq<HostInsn> {
    seq![
        HostInsn::MovEaxImm { imm: target },
        HostInsn::StoreSlot { disp: pc_disp() },
        HostInsn::Jmp { rel: rel32(emu.epilogue_offset as int, g + 17) },
    ]
}

/// A jump to the epilogue, with the link register written first when it is
/// not the zero register.
pub open spec fn jmpim_code(emu: EmuEnv, op: TCGOp, g: int) -> Seq<HostInsn> {
    let target = op.arg1->0.value as u32;
    if op.arg0->0.value != 0 {
        seq![
            HostInsn::MovRaxImm64 { imm64: emu.block_pc },
            HostInsn::StoreSlot { disp: slot(op.arg0) },
        ] + exit_code(emu, target, g + 17)
    } else {
        exit_code(emu, target, g)
    }
}

pub open spec fn cond_of(c: TCGOpcode) -> Cond {
    match c {
        TCGOpcode::EQ => Cond::E,
        TCGOpcode::NE => Cond::NE,
        TCGOpcode::LT => Cond::L,
        TCGOpcode::GE => Cond::GE,
        TCGOpcode::LTU => Cond::B,
        _ => Cond::AE,
    }
}

/// Compare `a0` with `a1` and jump, with a displacement patched later.
pub open spec fn branch_code(cond: Cond, op: TCGOp) -> Seq<HostInsn> {
    seq![
        HostInsn::LoadSlot { to_rcx: false, disp: slot(op.arg0) },
        HostInsn::CmpSlot { disp: slot(op.arg1) },
        HostInsn::Jcc { cond, rel: 0 },
    ]
}

pub open spec fn is_load_width(w: MemOpType) -> bool {
    w == MemOpType::LOAD_64BIT || w == MemOpType::LOAD_32BIT || w == MemOpType::LOAD_16BIT || w
        == MemOpType::LOAD_8BIT || w == MemOpType::LOAD_U_32BIT || w == MemOpType::LOAD_U_16BIT
        || w == MemOpType::LOAD_U_8BIT
}

pub open spec fn width_of(c: TCGOpcode) -> MemOpType {
    match c {
        TCGOpcode::LD => MemOpType::LOAD_64BIT,
        TCGOpcode::LW => MemOpType::LOAD_32BIT,
        TCGOpcode::LH => MemOpType::LOAD_16BIT,
        TCGOpcode::LB => MemOpType::LOAD_8BIT,
        TCGOpcode::LWU => MemOpType::LOAD_U_32BIT,
        TCGOpcode::LHU => MemOpType::LOAD_U_16BIT,
        TCGOpcode::LBU => MemOpType::LOAD_U_8BIT,
        TCGOpcode::SD => MemOpType::STORE_64BIT,
        TCGOpcode::SW => MemOpType::STORE_32BIT,
        TCGOpcode::SH => MemOpType::STORE_16BIT,
        _ => MemOpType::STORE_8BIT,
    }
}

/// `a0 = mem[a1 + a2]`; nothing when `a0` is the zero register.
pub open spec fn load_code(emu: EmuEnv, width: MemOpType, op: TCGOp) -> Seq<HostInsn> {
    if op.arg0->0.value == 0 {
        seq![]
    } else {
        seq![
            HostInsn::MovRaxImm64 { imm64: emu.guest_mem_base },
            HostInsn::MovRcxRax,
            HostInsn::LoadSlot { to_rcx: false, disp: slot(op.arg1) },
            HostInsn::AddRaxRcx,
            HostInsn::MemAccess { width, disp: op.arg2->0.value as u32 },
            HostInsn::StoreSlot { disp: slot(op.arg0) },
        ]
    }
}

/// `mem[a0 + a2] = a1`.
pub open spec fn store_code(emu: EmuEnv, width: MemOpType, op: TCGOp) -> Seq<HostInsn> {
    seq![
        HostInsn::MovRaxImm64 { imm64: emu.guest_mem_base },
        HostInsn::MovRcxRax,
        HostInsn::LoadSlot { to_rcx: false, disp: slot(op.arg0) },
        HostInsn::AddRaxRcx,
        HostInsn::LoadSlot { to_rcx: true, disp: slot(op.arg1) },
        HostInsn::MemAccess { width, disp: op.arg2->0.value as u32 },
    ]
}

/// The host code of a well-formed IR record whose first byte lands at
/// position `g` of the code buffer.
pub open spec fn gen_code(emu: EmuEnv, op: TCGOp, g: int) -> Seq<HostInsn> {
    match op.op {
        None => seq![],
        Some(c) => match c {
            TCGOpcode::MOV => exit_code(emu, op.arg1->0.value as u32, g),
            TCGOpcode::ADD => alu_code(AluOp::Add, op),
            TCGOpcode::AND => alu_code(AluOp::And, op),
            TCGOpcode::OR => alu_code(AluOp::Or, op),
            TCGOpcode::XOR => alu_code(AluOp::Xor, op),
            TCGOpcode::SUB => sub_code(op),
            TCGOpcode::JMP => seq![
                HostInsn::Jmp { rel: rel32(emu.epilogue_offset as int, g + 5) },
            ],
            TCGOpcode::JMPIM => jmpim_code(emu, op, g),
            _ => if is_branch(c) {
                branch_code(cond_of(c), op)
            } else if is_load(c) {
                load_code(emu, width_of(c), op)
            } else {
                store_code(emu, width_of(c), op)
            },
        },
    }
}

/// The bytes of a well-formed IR record emitted at position `g`.
pub open spec fn gen_bytes(emu: EmuEnv, op: TCGOp, g: int) -> Seq<u8> {
    code_bytes(gen_code(emu, op, g))
}

/// The label table after a well-formed IR record is emitted at `g`: a
/// branch records the position of its displacement field, a definition
/// binds its label to `g`.
pub open spec fn labels_after(ls: Seq<LabelView>, op: TCGOp, g: int) -> Seq<LabelView> {
    let l = op.label->0 as int;
    match op.op {
        None => ls.update(l, LabelView { offset: g as u64, pending: ls[l].pending }),
        Some(c) => if is_branch(c) {
            ls.update(
                l,
                LabelView { offset: ls[l].offset, pending: ls[l].pending.push((g + 16) as usize) },
            )
        } else {
            ls
        },
    }
}

/// The first fault of the records of `ops` from index `i` on.
pub open spec fn block_check(ops: Seq<TCGOp>, n: nat, i: int) -> Result<(), TCGError>
    decreases ops.len() - i,
{
    if i < 0 || i >= ops.len() {
        Ok(())
    } else {
        first_err(check_op(ops[i], n), block_check(ops, n, i + 1))
    }
}

/// The bytes appended and the label table reached when the well-formed
/// records `ops` are emitted one after another from position `g`, before
/// any displacement field is patched.
pub open spec fn block_emit(emu: EmuEnv, ops: Seq<TCGOp>, g: int, ls: Seq<LabelView>) -> (Seq<
    u8>, Seq<LabelView>)
    decreases ops.len(),
{
    if ops.len() == 0 {
        (Seq::empty(), ls)
    } else {
        let (b, l) = block_emit(emu, ops.drop_last(), g, ls);
        (
            b + gen_bytes(emu, ops.last(), g + b.len()),
            labels_after(l, ops.last(), g + b.len()),
        )
    }
}

/// The host instructions of the well-formed records `ops` emitted one after
/// another from position `g`, before any displacement field is patched.
pub open spec fn block_code(emu: EmuEnv, ops: Seq<TCGOp>, g: int) -> Seq<HostInsn>
    decreases ops.len(),
{
    if ops.len() == 0 {
        Seq::empty()
    } else {
        let c = block_code(emu, ops.drop_last(), g);
        c + gen_code(emu, ops.last(), g + code_bytes(c).len())
    }
}

/// The bytes of a block are the bytes of its host instructions.
pub proof fn lemma_block_bytes(emu: EmuEnv, ops: Seq<TCGOp>, g: int, ls: Seq<LabelView>)
    ensures
        block_emit(emu, ops, g, ls).0 == code_bytes(block_code(emu, ops, g)),
    decreases ops.len(),
{
    if ops.len() > 0 {
        let c = block_code(emu, ops.drop_last(), g);
        lemma_block_bytes(emu, ops.drop_last(), g, ls);
        lemma_code_bytes_concat(c, gen_code(emu, ops.last(), g + code_bytes(c).len()));
    }
}

/// `(a, i)` names pending site `i` of label `a`.
pub open spec fn is_site(ls: Seq<LabelView>, a: int, i: int) -> bool {
    0 <= a < ls.len() && 0 <= i < ls[a].pending.len()
}

/// Every pending site's 4-byte field lies within `[lo, hi)`.
pub open spec fn sites_within(ls: Seq<LabelView>, lo: int, hi: int) -> bool {
    forall|a: int, i: int|
        is_site(ls, a, i) ==> lo <= #[trigger] ls[a].pending[i] && ls[a].pending[i] + 4 <= hi
}

/// No two pending sites' 4-byte fields overlap.
pub open spec fn sites_apart(ls: Seq<LabelView>) -> bool {
    forall|a: int, i: int, b: int, j: int|
        is_site(ls, a, i) && is_site(ls, b, j) && (a != b || i != j) ==> #[trigger] ls[a].pending[i]
            + 4 <= #[trigger] ls[b].pending[j] || ls[b].pending[j] + 4 <= ls[a].pending[i]
}

/// Whether byte `k` lies in the field of some pending site.
pub open spec fn in_site(ls: Seq<LabelView>, k: int) -> bool {
    exists|a: int, i: int|
        is_site(ls, a, i) && #[trigger] ls[a].pending[i] <= k && k < ls[a].pending[i] + 4
}

/// The displacement written at site `s` of a label: the distance from the
/// end of the field to the label.
pub open spec fn patch_value(l: LabelView, s: usize) -> u32 {
    rel32(l.offset as int, s + 4)
}

pub proof fn lemma_branch_code_len(cond: Cond, op: TCGOp)
    ensures
        code_bytes(branch_code(cond, op)).len() == 20,
{
    let b = branch_code(cond, op);
    lemma_code_bytes_pair(b[0], b[1]);
    assert(seq![b[0], b[1]].push(b[2]) =~= b);
    lemma_code_bytes_push(seq![b[0], b[1]], b[2]);
}

/// A site added at or past `hi` keeps the sites apart and within bounds.
pub proof fn lemma_sites_push(ls: Seq<LabelView>, l: int, x: usize, lo: int, hi: int, hi2: int)
    requires
        sites_within(ls, lo, hi),
        sites_apart(ls),
        0 <= l < ls.len(),
        lo <= hi <= x,
        x + 4 <= hi2,
    ensures
        sites_within(
            ls.update(l, LabelView { offset: ls[l].offset, pending: ls[l].pending.push(x) }),
            lo,
            hi2,
        ),
        sites_apart(
            ls.update(l, LabelView { offset: ls[l].offset, pending: ls[l].pending.push(x) }),
        ),
{
    let ls2 = ls.update(l, LabelView { offset: ls[l].offset, pending: ls[l].pending.push(x) });
    assert forall|a: int, i: int| is_site(ls2, a, i) implies lo <= #[trigger] ls2[a].pending[i]
        && ls2[a].pending[i] + 4 <= hi2 by {
        if a == l && i == ls[l].pending.len() {
        } else {
            assert(is_site(ls, a, i));
            assert(ls2[a].pending[i] == ls[a].pending[i]);
        }
    }
    assert forall|a: int, i: int, b: int, j: int|
        is_site(ls2, a, i) && is_site(ls2, b, j) && (a != b || i != j) implies #[trigger] ls2[a].pending[i]
        + 4 <= #[trigger] ls2[b].pending[j] || ls2[b].pending[j] + 4 <= ls2[a].pending[i] by {
        let new_a = a == l && i == ls[l].pending.len();
        let new_b = b == l && j == ls[l].pending.len();
        if !new_a {
            assert(is_site(ls, a, i));
            assert(ls2[a].pending[i] == ls[a].pending[i]);
            assert(ls[a].pending[i] + 4 <= hi);
        }
        if !new_b {
            assert(is_site(ls, b, j));
            assert(ls2[b].pending[j] == ls[b].pending[j]);
            assert(ls[b].pending[j] + 4 <= hi);
        }
        if !new_a && !new_b {
            assert(ls[a].pending[i] + 4 <= ls[b].pending[j] || ls[b].pending[j] + 4
                <= ls[a].pending[i]);
        }
    }
}

/// Binding a label leaves its sites as they were.
pub proof fn lemma_sites_rebind(ls: Seq<LabelView>, l: int, g: u64, lo: int, hi: int, hi2: int)
    requires
        sites_within(ls, lo, hi),
        sites_apart(ls),
        0 <= l < ls.len(),
        hi <= hi2,
    ensures
        sites_within(ls.update(l, LabelView { offset: g, pending: ls[l].pending }), lo, hi2),
        sites_apart(ls.update(l, LabelView { offset: g, pending: ls[l].pending })),
{
    let ls2 = ls.update(l, LabelView { offset: g, pending: ls[l].pending });
    assert forall|a: int, i: int| is_site(ls2, a, i) implies lo <= #[trigger] ls2[a].pending[i]
        && ls2[a].pending[i] + 4 <= hi2 by {
        assert(is_site(ls, a, i));
        assert(ls2[a].pending[i] == ls[a].pending[i]);
    }
    assert forall|a: int, i: int, b: int, j: int|
        is_site(ls2, a, i) && is_site(ls2, b, j) && (a != b || i != j) implies #[trigger] ls2[a].pending[i]
        + 4 <= #[trigger] ls2[b].pending[j] || ls2[b].pending[j] + 4 <= ls2[a].pending[i] by {
        assert(is_site(ls, a, i));
        assert(is_site(ls, b, j));
        assert(ls2[a].pending[i] == ls[a].pending[i]);
        assert(ls2[b].pending[j] == ls[b].pending[j]);
    }
}

/// A three-operand arithmetic record whose destination is the zero
/// register emits no host bytes, so the emission position is unchanged.
pub proof fn lemma_zero_destination_emits_nothing(emu: EmuEnv, op: TCGOp, g: int)
    requires
        op.op matches Some(c) && (is_alu(c) || c == TCGOpcode::SUB),
        op.arg0 == Some(TCGv { t: TCGvType::Register, value: 0 }),
    ensures
        gen_bytes(emu, op, g) == Seq::<u8>::empty(),
{
}

/// The 32-bit sign extension of a 12-bit field.
pub open spec fn sext12_32(d: u32) -> u32 {
    if d & 0x800 != 0 {
        d | 0xffff_f000
    } else {
        d
    }
}

/// For a guest memory access whose displacement is a sign-extended 12-bit
/// field `d`, the host access carries `d` sign-extended to 32 bits as its
/// displacement, and its bytes end with that displacement.
pub proof fn lemma_displacement_sign_extended(emu: EmuEnv, op: TCGOp, g: int, d: u64)
    requires
        op.op matches Some(c) && (is_load(c) || is_store(c)),
        check_op(op, 0) is Ok,
        d < 4096,
        op.arg2 == Some(TCGv { t: TCGvType::Immediate, value: crate::riscv::sext12(d) }),
        is_load(op.op->0) ==> op.arg0->0.value != 0,
    ensures
        ({
            let k = if is_load(op.op->0) {
                4int
            } else {
                5int
            };
            let w = sext12_32(d as u32);
            &&& gen_code(emu, op, g)[k] == HostInsn::MemAccess { width: width_of(op.op->0), disp: w }
            &&& encode(gen_code(emu, op, g)[k]).subrange(
                encode(gen_code(emu, op, g)[k]).len() - 4,
                encode(gen_code(emu, op, g)[k]).len() as int,
            ) == le32(w)
        }),
{
    let v = crate::riscv::sext12(d);
    assert((v as u32) == sext12_32(d as u32)) by (bit_vector)
        requires
            v == (if d & 0x800 != 0 {
                d | 0xffff_ffff_ffff_f000
            } else {
                d
            }),
            d < 4096,
    ;
    let c = op.op->0;
    let k = if is_load(c) {
        4int
    } else {
        5int
    };
    let i = gen_code(emu, op, g)[k];
    let e = encode(i);
    assert(e.subrange(e.len() - 4, e.len() as int) =~= le32(sext12_32(d as u32)));
}

/// The emitter for the x86-64 host.
pub struct TCGX86;

impl TCGX86 {
    /// REX.W, a one-byte opcode and a ModR/M byte with `tgt_rm` in its
    /// reg field.
    fn tcg_modrm_64bit_out(op: u32, modrm: u32, tgt_rm: u32, mc: &mut Vec<u8>) -> (r: usize)
        requires
            op < 256,
            modrm < 256,
            (modrm / 8) % 8 == 0,
            tgt_rm < 8,
        ensures
            r == 3,
            final(mc)@ == old(mc)@ + seq![0x48u8, op as u8, (modrm + 8 * tgt_rm) as u8],
    {
        let w: u32 = ((modrm | (tgt_rm << 3u32)) << 16u32) | (op << 8u32) | 0x48;
        Self::tcg_out(w, 3, mc);
        proof {
            assert((w >> 0u32) & 0xff == 0x48) by (bit_vector)
                requires
                    w == ((modrm | (tgt_rm << 3u32)) << 16u32) | (op << 8u32) | 0x48,
                    op < 256,
            ;
            assert((w >> 8u32) & 0xff == op) by (bit_vector)
                requires
                    w == ((modrm | (tgt_rm << 3u32)) << 16u32) | (op << 8u32) | 0x48,
                    op < 256,
            ;
            assert((w >> 16u32) & 0xff == modrm + 8 * tgt_rm) by (bit_vector)
                requires
                    w == ((modrm | (tgt_rm << 3u32)) << 16u32) | (op << 8u32) | 0x48,
                    op < 256,
                    modrm < 256,
                    (modrm / 8) % 8 == 0,
                    tgt_rm < 8,
            ;
            assert(le_bytes(w, 3) =~= seq![0x48u8, op as u8, (modrm + 8 * tgt_rm) as u8]);
        }
        3
    }

    /// REX.W, a two-byte opcode (first byte in the low half of `op`) and a
    /// ModR/M byte.
    fn tcg_modrm_2byte_64bit_out(op: u32, modrm: u32, tgt_rm: u32, mc: &mut Vec<u8>) -> (r: usize)
        requires
            op < 0x10000,
            modrm < 256,
            (modrm / 8) % 8 == 0,
            tgt_rm < 8,
        ensures
            r == 4,
            final(mc)@ == old(mc)@ + seq![
                0x48u8,
                (op % 256) as u8,
                (op / 256) as u8,
                (modrm + 8 * tgt_rm) as u8,
            ],
    {
        let w: u32 = ((modrm | (tgt_rm << 3u32)) << 24u32) | (op << 8u32) | 0x48;
        Self::tcg_out(w, 4, mc);
        proof {
            assert((w >> 0u32) & 0xff == 0x48) by (bit_vector)
                requires
                    w == ((modrm | (tgt_rm << 3u32)) << 24u32) | (op << 8u32) | 0x48,
                    op < 0x10000,
            ;
            assert((w >> 8u32) & 0xff == op % 256) by (bit_vector)
                requires
                    w == ((modrm | (tgt_rm << 3u32)) << 24u32) | (op << 8u32) | 0x48,
                    op < 0x10000,
            ;
            assert((w >> 16u32) & 0xff == op / 256) by (bit_vector)
                requires
                    w == ((modrm | (tgt_rm << 3u32)) << 24u32) | (op << 8u32) | 0x48,
                    op < 0x10000,
            ;
            assert((w >> 24u32) & 0xff == modrm + 8 * tgt_rm) by (bit_vector)
                requires
                    w == ((modrm | (tgt_rm << 3u32)) << 24u32) | (op << 8u32) | 0x48,
                    op < 0x10000,
                    modrm < 256,
                    (modrm / 8) % 8 == 0,
                    tgt_rm < 8,
            ;
            assert(le_bytes(w, 4) =~= seq![
                0x48u8,
                (op % 256) as u8,
                (op / 256) as u8,
                (modrm + 8 * tgt_rm) as u8,
            ]);
        }
        4
    }

    /// A one-byte opcode and a ModR/M byte, no prefix.
    fn tcg_modrm_32bit_out(op: u32, modrm: u32, tgt_rm: u32, mc: &mut Vec<u8>) -> (r: usize)
        requires
            op < 256,
            modrm < 256,
            (modrm / 8) % 8 == 0,
            tgt_rm < 8,
        ensures
            r == 2,
            final(mc)@ == old(mc)@ + seq![op as u8, (modrm + 8 * tgt_rm) as u8],
    {
        let w: u32 = ((modrm | (tgt_rm << 3u32)) << 8u32) | op;
        Self::tcg_out(w, 2, mc);
        proof {
            assert((w >> 0u32) & 0xff == op) by (bit_vector)
                requires
                    w == ((modrm | (tgt_rm << 3u32)) << 8u32) | op,
                    op < 256,
            ;
            assert((w >> 8u32) & 0xff == modrm + 8 * tgt_rm) by (bit_vector)
                requires
                    w == ((modrm | (tgt_rm << 3u32)) << 8u32) | op,
                    op < 256,
                    modrm < 256,
                    (modrm / 8) % 8 == 0,
                    tgt_rm < 8,
            ;
            assert(le_bytes(w, 2) =~= seq![op as u8, (modrm + 8 * tgt_rm) as u8]);
        }
        2
    }

    /// The operand-size prefix, a one-byte opcode and a ModR/M byte.
    fn tcg_modrm_16bit_out(op: u32, modrm: u32, tgt_rm: u32, mc: &mut Vec<u8>) -> (r: usize)
        requires
            op < 256,
            modrm < 256,
            (modrm / 8) % 8 == 0,
            tgt_rm < 8,
        ensures
            r == 3,
            final(mc)@ == old(mc)@ + seq![0x66u8, op as u8, (modrm + 8 * tgt_rm) as u8],
    {
        let w: u32 = ((modrm | (tgt_rm << 3u32)) << 16u32) | (op << 8u32) | 0x66;
        Self::tcg_out(w, 3, mc);
        proof {
            assert((w >> 0u32) & 0xff == 0x66) by (bit_vector)
                requires
                    w == ((modrm | (tgt_rm << 3u32)) << 16u32) | (op << 8u32) | 0x66,
                    op < 256,
            ;
            assert((w >> 8u32) & 0xff == op) by (bit_vector)
                requires
                    w == ((modrm | (tgt_rm << 3u32)) << 16u32) | (op << 8u32) | 0x66,
                    op < 256,
            ;
            assert((w >> 16u32) & 0xff == modrm + 8 * tgt_rm) by (bit_vector)
                requires
                    w == ((modrm | (tgt_rm << 3u32)) << 16u32) | (op << 8u32) | 0x66,
                    op < 256,
                    modrm < 256,
                    (modrm / 8) % 8 == 0,
                    tgt_rm < 8,
            ;
            assert(le_bytes(w, 3) =~= seq![0x66u8, op as u8, (modrm + 8 * tgt_rm) as u8]);
        }
        3
    }

    /// A two-byte opcode and a ModR/M byte, no prefix.
    fn tcg_modrm_2byte_32bit_out(op: u32, modrm: u32, tgt_rm: u32, mc: &mut Vec<u8>) -> (r: usize)
        requires
            op < 0x10000,
            modrm < 256,
            (modrm / 8) % 8 == 0,
            tgt_rm < 8,
        ensures
            r == 3,
            final(mc)@ == old(mc)@ + seq![
                (op % 256) as u8,
                (op / 256) as u8,
                (modrm + 8 * tgt_rm) as u8,
            ],
    {
        let w: u32 = ((modrm | (tgt_rm << 3u32)) << 16u32) | op;
        Self::tcg_out(w, 3, mc);
        proof {
            assert((w >> 0u32) & 0xff == op % 256) by (bit_vector)
                requires
                    w == ((modrm | (tgt_rm << 3u32)) << 16u32) | op,
                    op < 0x10000,
            ;
            assert((w >> 8u32) & 0xff == op / 256) by (bit_vector)
                requires
                    w == ((modrm | (tgt_rm << 3u32)) << 16u32) | op,
                    op < 0x10000,
            ;
            assert((w >> 16u32) & 0xff == modrm + 8 * tgt_rm) by (bit_vector)
                requires
                    w == ((modrm | (tgt_rm << 3u32)) << 16u32) | op,
                    op < 0x10000,
                    modrm < 256,
                    (modrm / 8) % 8 == 0,
                    tgt_rm < 8,
            ;
            assert(le_bytes(w, 3) =~= seq![
                (op % 256) as u8,
                (op / 256) as u8,
                (modrm + 8 * tgt_rm) as u8,
            ]);
        }
        3
    }

    fn alu_slot_op(op: AluOp) -> (r: u32)
        ensures
            r < 256,
            r == alu_slot_opcode(op),
    {
        match op {
            AluOp::Add => ADD_GV_EV,
            AluOp::Sub => SUB_GV_EV,
            AluOp::And => AND_GV_EV,
            AluOp::Or => OR_GV_EV,
            AluOp::Xor => XOR_GV_EV,
        }
    }

    fn alu_eax_op(op: AluOp) -> (r: u32)
        ensures
            r < 256,
            r == alu_eax_opcode(op),
    {
        match op {
            AluOp::Add => ADD_EAX_IV,
            AluOp::Sub => 0x2d,
            AluOp::And => AND_EAX_IV,
            AluOp::Or => OR_EAX_IV,
            AluOp::Xor => XOR_EAX_IV,
        }
    }

    fn jcc_op(c: Cond) -> (r: u32)
        ensures
            r < 0x10000,
            r % 256 == 0x0f,
            r / 256 == cond_opcode(c),
    {
        match c {
            Cond::E => JE_REL32,
            Cond::NE => JNE_REL32,
            Cond::L => JL_REL32,
            Cond::GE => JGE_REL32,
            Cond::B => JB_REL32,
            Cond::AE => JAE_REL32,
        }
    }

    /// Appends the encoding of one host instruction.
    fn tcg_out_insn(insn: &HostInsn, mc: &mut Vec<u8>) -> (r: usize)
        ensures
            r == encode(*insn).len(),
            final(mc)@ == old(mc)@ + encode(*insn),
    {
        match *insn {
            HostInsn::LoadSlot { to_rcx, disp } => {
                let reg: u32 = if to_rcx {
                    RCX
                } else {
                    RAX
                };
                Self::tcg_modrm_64bit_out(MOV_GV_EV, MOD_10_DISP_RBP, reg, mc);
                Self::tcg_out(disp, 4, mc);
                proof {
                    assert(mc@ =~= old(mc)@ + encode(*insn));
                }
                7
            },
            HostInsn::AluSlot { op, disp } => {
                Self::tcg_modrm_64bit_out(Self::alu_slot_op(op), MOD_10_DISP_RBP, RAX, mc);
                Self::tcg_out(disp, 4, mc);
                proof {
                    assert(mc@ =~= old(mc)@ + encode(*insn));
                }
                7
            },
            HostInsn::CmpSlot { disp } => {
                Self::tcg_modrm_64bit_out(CMP_GV_EV, MOD_10_DISP_RBP, RAX, mc);
                Self::tcg_out(disp, 4, mc);
                proof {
                    assert(mc@ =~= old(mc)@ + encode(*insn));
                }
                7
            },
            HostInsn::StoreSlot { disp } => {
                Self::tcg_modrm_64bit_out(MOV_EV_GV, MOD_10_DISP_RBP, RAX, mc);
                Self::tcg_out(disp, 4, mc);
                proof {
                    assert(mc@ =~= old(mc)@ + encode(*insn));
                }
                7
            },
            HostInsn::StoreImmSlot { disp, imm } => {
                Self::tcg_modrm_64bit_out(MOV_EV_IV, MOD_10_DISP_RBP, RAX, mc);
                Self::tcg_out(disp, 4, mc);
                Self::tcg_out(imm, 4, mc);
                proof {
                    assert(mc@ =~= old(mc)@ + encode(*insn));
                }
                11
            },
            HostInsn::AluEaxImm { op, imm } => {
                let code = Self::alu_eax_op(op);
                Self::tcg_out(code, 1, mc);
                Self::tcg_out(imm, 4, mc);
                proof {
                    lemma_le_bytes_1(code);
                    assert(mc@ =~= old(mc)@ + encode(*insn));
                }
                5
            },
            HostInsn::MovEaxImm { imm } => {
                Self::tcg_out(MOV_EAX_IV, 1, mc);
                Self::tcg_out(imm, 4, mc);
                proof {
                    lemma_le_bytes_1(MOV_EAX_IV);
                    assert(mc@ =~= old(mc)@ + encode(*insn));
                }
                5
            },
            HostInsn::MovRaxImm64 { imm64 } => {
                Self::tcg_out(0x48, 1, mc);
                Self::tcg_out(MOV_EAX_IV + RAX, 1, mc);
                Self::tcg_out(#[verifier::truncate] ((imm64 & 0xffff_ffff) as u32), 4, mc);
                Self::tcg_out(#[verifier::truncate] (((imm64 >> 32u64) & 0xffff_ffff) as u32), 4, mc);
                proof {
                    lemma_le_bytes_1(0x48);
                    lemma_le_bytes_1((MOV_EAX_IV + RAX) as u32);
                    assert(mc@ =~= old(mc)@ + encode(*insn));
                }
                10
            },
            HostInsn::MovRcxRax => {
                Self::tcg_modrm_64bit_out(MOV_GV_EV, MOD_11_DISP_RAX, RCX, mc);
                proof {
                    assert(mc@ =~= old(mc)@ + encode(*insn));
                }
                3
            },
            HostInsn::AddRaxRcx => {
                Self::tcg_modrm_64bit_out(ADD_GV_EV, MOD_11_DISP_RCX, RAX, mc);
                proof {
                    assert(mc@ =~= old(mc)@ + encode(*insn));
                }
                3
            },
            HostInsn::MemAccess { width, disp } => {
                let n: usize = match width {
                    MemOpType::LOAD_64BIT => Self::tcg_modrm_64bit_out(
                        MOV_GV_EV,
                        MOD_10_DISP_RAX,
                        RAX,
                        mc,
                    ),
                    MemOpType::LOAD_32BIT => Self::tcg_modrm_64bit_out(
                        MOV_GV_EV_32BIT,
                        MOD_10_DISP_RAX,
                        RAX,
                        mc,
                    ),
                    MemOpType::LOAD_16BIT => Self::tcg_modrm_2byte_64bit_out(
                        MOV_GV_EV_S_16BIT,
                        MOD_10_DISP_RAX,
                        RAX,
                        mc,
                    ),
                    MemOpType::LOAD_8BIT => Self::tcg_modrm_2byte_64bit_out(
                        MOV_GV_EV_S_8BIT,
                        MOD_10_DISP_RAX,
                        RAX,
                        mc,
                    ),
                    MemOpType::LOAD_U_32BIT => Self::tcg_modrm_32bit_out(
                        MOV_GV_EV,
                        MOD_10_DISP_RAX,
                        RAX,
                        mc,
                    ),
                    MemOpType::LOAD_U_16BIT => Self::tcg_modrm_2byte_32bit_out(
                        MOV_GV_EV_U_16BIT,
                        MOD_10_DISP_RAX,
                        RAX,
                        mc,
                    ),
                    MemOpType::LOAD_U_8BIT => Self::tcg_modrm_2byte_32bit_out(
                        MOV_GV_EV_U_8BIT,
                        MOD_10_DISP_RAX,
                        RAX,
                        mc,
                    ),
                    MemOpType::STORE_64BIT => Self::tcg_modrm_64bit_out(
                        MOV_EV_GV,
                        MOD_10_DISP_RAX,
                        RCX,
                        mc,
                    ),
                    MemOpType::STORE_32BIT => Self::tcg_modrm_32bit_out(
                        MOV_EV_GV,
                        MOD_10_DISP_RAX,
                        RCX,
                        mc,
                    ),
                    MemOpType::STORE_16BIT => Self::tcg_modrm_16bit_out(
                        MOV_EV_GV,
                        MOD_10_DISP_RAX,
                        RCX,
                        mc,
                    ),
                    MemOpType::STORE_8BIT => Self::tcg_modrm_32bit_out(
                        MOV_EB_GB,
                        MOD_10_DISP_RAX,
                        RCX,
                        mc,
                    ),
                };
                let ghost mid = mc@;
                assert(mid =~= old(mc)@ + mem_prefix(width));
                Self::tcg_out(disp, 4, mc);
                proof {
                    assert(mc@ =~= old(mc)@ + encode(*insn));
                }
                n + 4
            },
            HostInsn::Jcc { cond, rel } => {
                let code = Self::jcc_op(cond);
                Self::tcg_out(code, 2, mc);
                Self::tcg_out(rel, 4, mc);
                proof {
                    lemma_le_bytes_2(code);
                    assert(mc@ =~= old(mc)@ + encode(*insn));
                }
                6
            },
            HostInsn::Jmp { rel } => {
                Self::tcg_out(JMP_JZ, 1, mc);
                Self::tcg_out(rel, 4, mc);
                proof {
                    lemma_le_bytes_1(JMP_JZ);
                    assert(mc@ =~= old(mc)@ + encode(*insn));
                }
                5
            },
        }
    }

    fn check_reg(v: Option<TCGv>) -> (r: Result<(), TCGError>)
        ensures
            r == reg_check(v),
    {
        match v {
            None => Err(TCGError::MissingOperand),
            Some(x) => if x.t == TCGvType::Register && x.value < 32 {
                Ok(())
            } else {
                Err(TCGError::OperandKind)
            },
        }
    }

    fn check_imm(v: Option<TCGv>) -> (r: Result<(), TCGError>)
        ensures
            r == imm_check(v),
    {
        match v {
            None => Err(TCGError::MissingOperand),
            Some(x) => if x.t == TCGvType::Immediate {
                Ok(())
            } else {
                Err(TCGError::OperandKind)
            },
        }
    }

    fn check_pc(v: Option<TCGv>) -> (r: Result<(), TCGError>)
        ensures
            r == pc_check(v),
    {
        match v {
            None => Err(TCGError::MissingOperand),
            Some(x) => if x.t == TCGvType::ProgramCounter {
                Ok(())
            } else {
                Err(TCGError::OperandKind)
            },
        }
    }

    fn check_src(v: Option<TCGv>) -> (r: Result<(), TCGError>)
        ensures
            r == src_check(v),
    {
        match v {
            None => Err(TCGError::MissingOperand),
            Some(x) => if (x.t == TCGvType::Register && x.value < 32) || x.t
                == TCGvType::Immediate {
                Ok(())
            } else {
                Err(TCGError::OperandKind)
            },
        }
    }

    fn check_label(l: Option<usize>, n: usize) -> (r: Result<(), TCGError>)
        ensures
            r == label_check(l, n as nat),
    {
        match l {
            Some(i) => if i < n {
                Ok(())
            } else {
                Err(TCGError::MissingLabel)
            },
            None => Err(TCGError::MissingLabel),
        }
    }

    fn check_then(a: Result<(), TCGError>, b: Result<(), TCGError>) -> (r: Result<(), TCGError>)
        ensures
            r == first_err(a, b),
    {
        match a {
            Err(e) => Err(e),
            Ok(()) => b,
        }
    }

    /// Decides whether `tcg` can be emitted against a table of `n_labels`
    /// labels, and names the first fault if not.
    pub fn tcg_check(tcg: &TCGOp, n_labels: usize) -> (r: Result<(), TCGError>)
        ensures
            r == check_op(*tcg, n_labels as nat),
    {
        let c = match tcg.op {
            None => {
                return Self::check_label(tcg.label, n_labels);
            },
            Some(c) => c,
        };
        match c {
            TCGOpcode::ADD | TCGOpcode::AND | TCGOpcode::OR | TCGOpcode::XOR => Self::check_then(
                Self::check_reg(tcg.arg0),
                Self::check_then(Self::check_reg(tcg.arg1), Self::check_src(tcg.arg2)),
            ),
            TCGOpcode::SUB => Self::check_then(
                Self::check_reg(tcg.arg0),
                Self::check_then(Self::check_reg(tcg.arg1), Self::check_reg(tcg.arg2)),
            ),
            TCGOpcode::LD | TCGOpcode::LW | TCGOpcode::LH | TCGOpcode::LB | TCGOpcode::LWU
            | TCGOpcode::LHU | TCGOpcode::LBU | TCGOpcode::SD | TCGOpcode::SW | TCGOpcode::SH
            | TCGOpcode::SB => Self::check_then(
                Self::check_reg(tcg.arg0),
                Self::check_then(Self::check_reg(tcg.arg1), Self::check_imm(tcg.arg2)),
            ),
            TCGOpcode::JMP => {
                let r0 = Self::check_reg(tcg.arg0);
                let r1 = Self::check_reg(tcg.arg1);
                match (r0, r1) {
                    (Ok(()), Ok(())) => {
                        if tcg.arg0.unwrap().value == 0 && tcg.arg1.unwrap().value == 1 {
                            Ok(())
                        } else {
                            Err(TCGError::UnsupportedOp)
                        }
                    },
                    (Err(e), _) => Err(e),
                    (Ok(()), Err(e)) => Err(e),
                }
            },
            TCGOpcode::JMPIM => Self::check_then(
                Self::check_reg(tcg.arg0),
                Self::check_imm(tcg.arg1),
            ),
            TCGOpcode::EQ | TCGOpcode::NE | TCGOpcode::LT | TCGOpcode::GE | TCGOpcode::LTU
            | TCGOpcode::GEU => Self::check_then(
                Self::check_reg(tcg.arg0),
                Self::check_then(Self::check_reg(tcg.arg1), Self::check_label(tcg.label, n_labels)),
            ),
            TCGOpcode::MOV => Self::check_then(Self::check_pc(tcg.arg0), Self::check_imm(tcg.arg1)),
        }
    }

    /// Appends the encodings of a list of host instructions, in order.
    fn tcg_out_code(code: &Vec<HostInsn>, mc: &mut Vec<u8>) -> (r: usize)
        ensures
            r == code_bytes(code@).len(),
            final(mc)@ == old(mc)@ + code_bytes(code@),
    {
        let start: usize = mc.len();
        let mut i: usize = 0;
        while i < code.len()
            invariant
                i <= code@.len(),
                start == old(mc)@.len(),
                mc@ == old(mc)@ + code_bytes(code@.subrange(0, i as int)),
            decreases code.len() - i,
        {
            Self::tcg_out_insn(&code[i], mc);
            proof {
                lemma_code_bytes_push(code@.subrange(0, i as int), code@[i as int]);
                assert(code@.subrange(0, i as int).push(code@[i as int]) =~= code@.subrange(
                    0,
                    i + 1,
                ));
            }
            i = i + 1;
        }
        proof {
            assert(code@.subrange(0, i as int) =~= code@);
        }
        mc.len() - start
    }

    /// The displacement of the jump to the epilogue from a jump ending at
    /// `end`.
    fn epilogue_rel(emu: &EmuEnv, end: usize) -> (r: u32)
        ensures
            r == rel32(emu.epilogue_offset as int, end as int),
    {
        let d: i128 = emu.calc_epilogue_address() as i128 - end as i128;
        #[verifier::truncate] (d as u32)
    }

    /// `a0 = a1 op a2` for three register operands.
    fn tcg_gen_rrr(emu: &EmuEnv, op: AluOp, tcg: &TCGOp, mc: &mut Vec<u8>) -> (r: usize)
        requires
            reg_check(tcg.arg0) is Ok,
            reg_check(tcg.arg1) is Ok,
            reg_check(tcg.arg2) is Ok,
        ensures
            r == code_bytes(rrr_code(op, *tcg)).len(),
            final(mc)@ == old(mc)@ + code_bytes(rrr_code(op, *tcg)),
    {
        let arg0 = tcg.arg0.unwrap();
        let arg1 = tcg.arg1.unwrap();
        let arg2 = tcg.arg2.unwrap();
        let code = vec![
            HostInsn::LoadSlot { to_rcx: false, disp: emu.calc_gpr_relat_address(arg1.value) },
            HostInsn::AluSlot { op, disp: emu.calc_gpr_relat_address(arg2.value) },
            HostInsn::StoreSlot { disp: emu.calc_gpr_relat_address(arg0.value) },
        ];
        Self::tcg_out_code(&code, mc)
    }

    /// `a0 = a1 op a2` for a register `a1` and an immediate `a2`.
    fn tcg_gen_rri(emu: &EmuEnv, op: AluOp, tcg: &TCGOp, mc: &mut Vec<u8>) -> (r: usize)
        requires
            reg_check(tcg.arg0) is Ok,
            reg_check(tcg.arg1) is Ok,
            imm_check(tcg.arg2) is Ok,
        ensures
            r == code_bytes(rri_code(op, *tcg)).len(),
            final(mc)@ == old(mc)@ + code_bytes(rri_code(op, *tcg)),
    {
        let arg0 = tcg.arg0.unwrap();
        let arg1 = tcg.arg1.unwrap();
        let arg2 = tcg.arg2.unwrap();
        let code = vec![
            HostInsn::LoadSlot { to_rcx: false, disp: emu.calc_gpr_relat_address(arg1.value) },
            HostInsn::AluEaxImm { op, imm: arg2.value as u32 },
            HostInsn::StoreSlot { disp: emu.calc_gpr_relat_address(arg0.value) },
        ];
        Self::tcg_out_code(&code, mc)
    }

    /// The arithmetic and logic emitters, with the zero-register folds.
    fn tcg_gen_alu(emu: &EmuEnv, op: AluOp, pc_address: u64, tcg: &TCGOp, mc: &mut Vec<u8>) -> (r:
        usize)
        requires
            reg_check(tcg.arg0) is Ok,
            reg_check(tcg.arg1) is Ok,
            src_check(tcg.arg2) is Ok,
            pc_address + 128 <= usize::MAX,
        ensures
            r == pc_address + code_bytes(alu_code(op, *tcg)).len(),
            final(mc)@ == old(mc)@ + code_bytes(alu_code(op, *tcg)),
    {
        let arg0 = tcg.arg0.unwrap();
        let arg1 = tcg.arg1.unwrap();
        let arg2 = tcg.arg2.unwrap();
        let gen_size = pc_address as usize;
        proof {
            lemma_code_bytes_len(alu_code(op, *tcg));
        }
        if arg0.value == 0 {
            // Writes to the zero register are dropped.
            proof {
                assert(mc@ =~= old(mc)@ + code_bytes(alu_code(op, *tcg)));
            }
            return gen_size;
        }
        if arg2.t == TCGvType::Immediate {
            if arg1.value == 0 {
                let code = vec![
                    HostInsn::StoreImmSlot {
                        disp: emu.calc_gpr_relat_address(arg0.value),
                        imm: #[verifier::truncate] (arg2.value as u32),
                    },
                ];
                proof {
                    assert(code@ =~= alu_code(op, *tcg));
                }
                return gen_size + Self::tcg_out_code(&code, mc);
            }
            gen_size + Self::tcg_gen_rri(emu, op, tcg, mc)
        } else {
            if arg1.value == 0 {
                let code = vec![
                    HostInsn::LoadSlot {
                        to_rcx: false,
                        disp: emu.calc_gpr_relat_address(arg2.value),
                    },
                    HostInsn::StoreSlot { disp: emu.calc_gpr_relat_address(arg0.value) },
                ];
                proof {
                    assert(code@ =~= alu_code(op, *tcg));
                }
                return gen_size + Self::tcg_out_code(&code, mc);
            }
            gen_size + Self::tcg_gen_rrr(emu, op, tcg, mc)
        }
    }

    /// `a0 = a1 + a2`.
    pub fn tcg_gen_addi(emu: &EmuEnv, pc_address: u64, tcg: &TCGOp, mc: &mut Vec<u8>) -> (r: usize)
        requires
            reg_check(tcg.arg0) is Ok,
            reg_check(tcg.arg1) is Ok,
            src_check(tcg.arg2) is Ok,
            pc_address + 128 <= usize::MAX,
        ensures
            r == pc_address + code_bytes(alu_code(AluOp::Add, *tcg)).len(),
            final(mc)@ == old(mc)@ + code_bytes(alu_code(AluOp::Add, *tcg)),
    {
        Self::tcg_gen_alu(emu, AluOp::Add, pc_address, tcg, mc)
    }

    /// `a0 = a1 & a2`.
    pub fn tcg_gen_and(emu: &EmuEnv, pc_address: u64, tcg: &TCGOp, mc: &mut Vec<u8>) -> (r: usize)
        requires
            reg_check(tcg.arg0) is Ok,
            reg_check(tcg.arg1) is Ok,
            src_check(tcg.arg2) is Ok,
            pc_address + 128 <= usize::MAX,
        ensures
            r == pc_address + code_bytes(alu_code(AluOp::And, *tcg)).len(),
            final(mc)@ == old(mc)@ + code_bytes(alu_code(AluOp::And, *tcg)),
    {
        Self::tcg_gen_alu(emu, AluOp::And, pc_address, tcg, mc)
    }

    /// `a0 = a1 | a2`.
    pub fn tcg_gen_or(emu: &EmuEnv, pc_address: u64, tcg: &TCGOp, mc: &mut Vec<u8>) -> (r: usize)
        requires
            reg_check(tcg.arg0) is Ok,
            reg_check(tcg.arg1) is Ok,
            src_check(tcg.arg2) is Ok,
            pc_address + 128 <= usize::MAX,
        ensures
            r == pc_address + code_bytes(alu_code(AluOp::Or, *tcg)).len(),
            final(mc)@ == old(mc)@ + code_bytes(alu_code(AluOp::Or, *tcg)),
    {
        Self::tcg_gen_alu(emu, AluOp::Or, pc_address, tcg, mc)
    }

    /// `a0 = a1 ^ a2`.
    pub fn tcg_gen_xor(emu: &EmuEnv, pc_address: u64, tcg: &TCGOp, mc: &mut Vec<u8>) -> (r: usize)
        requires
            reg_check(tcg.arg0) is Ok,
            reg_check(tcg.arg1) is Ok,
            src_check(tcg.arg2) is Ok,
            pc_address + 128 <= usize::MAX,
        ensures
            r == pc_address + code_bytes(alu_code(AluOp::Xor, *tcg)).len(),
            final(mc)@ == old(mc)@ + code_bytes(alu_code(AluOp::Xor, *tcg)),
    {
        Self::tcg_gen_alu(emu, AluOp::Xor, pc_address, tcg, mc)
    }

    /// `a0 = a1 - a2`, dropped when `a0` is the zero register.
    pub fn tcg_gen_sub(emu: &EmuEnv, pc_address: u64, tcg: &TCGOp, mc: &mut Vec<u8>) -> (r: usize)
        requires
            reg_check(tcg.arg0) is Ok,
            reg_check(tcg.arg1) is Ok,
            reg_check(tcg.arg2) is Ok,
            pc_address + 128 <= usize::MAX,
        ensures
            r == pc_address + code_bytes(sub_code(*tcg)).len(),
            final(mc)@ == old(mc)@ + code_bytes(sub_code(*tcg)),
    {
        let arg0 = tcg.arg0.unwrap();
        let gen_size = pc_address as usize;
        proof {
            lemma_code_bytes_len(sub_code(*tcg));
        }
        if arg0.value == 0 {
            proof {
                assert(mc@ =~= old(mc)@ + code_bytes(sub_code(*tcg)));
            }
            return gen_size;
        }
        gen_size + Self::tcg_gen_rrr(emu, AluOp::Sub, tcg, mc)
    }

    /// The return jump `JALR x0, 0(x1)`: straight to the epilogue.
    pub fn tcg_gen_jmpr(emu: &EmuEnv, pc_address: u64, tcg: &TCGOp, mc: &mut Vec<u8>) -> (r: usize)
        requires
            tcg.op == Some(TCGOpcode::JMP),
            check_op(*tcg, 0) is Ok,
            pc_address + 128 <= usize::MAX,
        ensures
            r == pc_address + code_bytes(gen_code(*emu, *tcg, pc_address as int)).len(),
            final(mc)@ == old(mc)@ + code_bytes(gen_code(*emu, *tcg, pc_address as int)),
    {
        let gen_size = pc_address as usize;
        let code = vec![HostInsn::Jmp { rel: Self::epilogue_rel(emu, gen_size + 5) }];
        proof {
            assert(code@ =~= gen_code(*emu, *tcg, pc_address as int));
            lemma_code_bytes_len(code@);
        }
        gen_size + Self::tcg_out_code(&code, mc)
    }

    /// Writes the immediate `a1` to the program counter and leaves the block;
    /// a non-zero `a0` first receives the block's entry address.
    pub fn tcg_gen_jmpim(emu: &EmuEnv, pc_address: u64, tcg: &TCGOp, mc: &mut Vec<u8>) -> (r: usize)
        requires
            reg_check(tcg.arg0) is Ok,
            imm_check(tcg.arg1) is Ok,
            pc_address + 128 <= usize::MAX,
        ensures
            r == pc_address + code_bytes(jmpim_code(*emu, *tcg, pc_address as int)).len(),
            final(mc)@ == old(mc)@ + code_bytes(jmpim_code(*emu, *tcg, pc_address as int)),
    {
        let arg0 = tcg.arg0.unwrap();
        let imm = tcg.arg1.unwrap();
        let gen_size = pc_address as usize;
        let code = if arg0.value != 0 {
            vec![
                HostInsn::MovRaxImm64 { imm64: emu.block_pc },
                HostInsn::StoreSlot { disp: emu.calc_gpr_relat_address(arg0.value) },
                HostInsn::MovEaxImm { imm: #[verifier::truncate] (imm.value as u32) },
                HostInsn::StoreSlot { disp: emu.calc_pc_address() },
                HostInsn::Jmp { rel: Self::epilogue_rel(emu, gen_size + 34) },
            ]
        } else {
            vec![
                HostInsn::MovEaxImm { imm: #[verifier::truncate] (imm.value as u32) },
                HostInsn::StoreSlot { disp: emu.calc_pc_address() },
                HostInsn::Jmp { rel: Self::epilogue_rel(emu, gen_size + 17) },
            ]
        };
        proof {
            assert(code@ =~= jmpim_code(*emu, *tcg, pc_address as int));
            lemma_code_bytes_len(code@);
        }
        gen_size + Self::tcg_out_code(&code, mc)
    }

    /// Writes the immediate `a1` to the program counter and jumps to the
    /// epilogue.
    pub fn tcg_gen_mov(emu: &EmuEnv, pc_address: u64, tcg: &TCGOp, mc: &mut Vec<u8>) -> (r: usize)
        requires
            pc_check(tcg.arg0) is Ok,
            imm_check(tcg.arg1) is Ok,
            pc_address + 128 <= usize::MAX,
        ensures
            r == pc_address + code_bytes(
                exit_code(*emu, tcg.arg1->0.value as u32, pc_address as int),
            ).len(),
            final(mc)@ == old(mc)@ + code_bytes(
                exit_code(*emu, tcg.arg1->0.value as u32, pc_address as int),
            ),
    {
        let arg1 = tcg.arg1.unwrap();
        let gen_size = pc_address as usize;
        let code = vec![
            HostInsn::MovEaxImm { imm: #[verifier::truncate] (arg1.value as u32) },
            HostInsn::StoreSlot { disp: emu.calc_pc_address() },
            HostInsn::Jmp { rel: Self::epilogue_rel(emu, gen_size + 17) },
        ];
        proof {
            lemma_code_bytes_len(code@);
        }
        gen_size + Self::tcg_out_code(&code, mc)
    }

    /// Records `host_code_ptr` as a displacement field to be patched with
    /// the distance to `label`.
    pub fn tcg_out_reloc(host_code_ptr: usize, label: usize, labels: &mut Vec<TCGLabel>) -> (r:
        usize)
        requires
            label < old(labels)@.len(),
        ensures
            r == 0,
            labels_view(final(labels)@) == labels_view(old(labels)@).update(
                label as int,
                LabelView {
                    offset: old(labels)@[label as int].offset,
                    pending: old(labels)@[label as int].code_ptr_vec@.push(host_code_ptr),
                },
            ),
    {
        labels[label].code_ptr_vec.push(host_code_ptr);
        proof {
            assert(labels_view(labels@) =~= labels_view(old(labels)@).update(
                label as int,
                LabelView {
                    offset: old(labels)@[label as int].offset,
                    pending: old(labels)@[label as int].code_ptr_vec@.push(host_code_ptr),
                },
            ));
        }
        0
    }

    /// A conditional jump whose displacement field, at `gen_size + 2`, is
    /// left to be patched with the distance to `label`.
    fn tcg_gen_jcc(
        gen_size: usize,
        cond: Cond,
        mc: &mut Vec<u8>,
        label: usize,
        labels: &mut Vec<TCGLabel>,
    ) -> (r: usize)
        requires
            label < old(labels)@.len(),
            gen_size + 6 <= usize::MAX,
        ensures
            r == gen_size + 6,
            final(mc)@ == old(mc)@ + encode(HostInsn::Jcc { cond, rel: 0 }),
            labels_view(final(labels)@) == labels_view(old(labels)@).update(
                label as int,
                LabelView {
                    offset: old(labels)@[label as int].offset,
                    pending: old(labels)@[label as int].code_ptr_vec@.push(
                        (gen_size + 2) as usize,
                    ),
                },
            ),
    {
        Self::tcg_out_insn(&HostInsn::Jcc { cond, rel: 0 }, mc);
        Self::tcg_out_reloc(gen_size + 2, label, labels);
        gen_size + 6
    }

    /// Compares `a0` with `a1` and jumps to the label when `cond` holds.
    fn tcg_gen_cmp_branch(
        emu: &EmuEnv,
        pc_address: u64,
        cond: Cond,
        tcg: &TCGOp,
        labels: &mut Vec<TCGLabel>,
        mc: &mut Vec<u8>,
    ) -> (r: usize)
        requires
            reg_check(tcg.arg0) is Ok,
            reg_check(tcg.arg1) is Ok,
            label_check(tcg.label, old(labels)@.len()) is Ok,
            pc_address + 128 <= usize::MAX,
        ensures
            r == pc_address + code_bytes(branch_code(cond, *tcg)).len(),
            final(mc)@ == old(mc)@ + code_bytes(branch_code(cond, *tcg)),
            labels_view(final(labels)@) == labels_view(old(labels)@).update(
                tcg.label->0 as int,
                LabelView {
                    offset: old(labels)@[tcg.label->0 as int].offset,
                    pending: old(labels)@[tcg.label->0 as int].code_ptr_vec@.push(
                        (pc_address + 16) as usize,
                    ),
                },
            ),
    {
        let arg0 = tcg.arg0.unwrap();
        let arg1 = tcg.arg1.unwrap();
        let label = tcg.label.unwrap();
        let mut gen_size: usize = pc_address as usize;
        let code = vec![
            HostInsn::LoadSlot { to_rcx: false, disp: emu.calc_gpr_relat_address(arg0.value) },
            HostInsn::CmpSlot { disp: emu.calc_gpr_relat_address(arg1.value) },
        ];
        proof {
            lemma_code_bytes_pair(code@[0], code@[1]);
            assert(code@ =~= seq![code@[0], code@[1]]);
            lemma_code_bytes_push(code@, HostInsn::Jcc { cond, rel: 0 });
            assert(code@.push(HostInsn::Jcc { cond, rel: 0 }) =~= branch_code(cond, *tcg));
        }
        gen_size = gen_size + Self::tcg_out_code(&code, mc);
        gen_size = Self::tcg_gen_jcc(gen_size, cond, mc, label, labels);
        proof {
            assert(mc@ =~= old(mc)@ + code_bytes(branch_code(cond, *tcg)));
        }
        gen_size
    }

    pub fn tcg_gen_eq(
        emu: &EmuEnv,
        pc_address: u64,
        tcg: &TCGOp,
        labels: &mut Vec<TCGLabel>,
        mc: &mut Vec<u8>,
    ) -> (r: usize)
        requires
            reg_check(tcg.arg0) is Ok,
            reg_check(tcg.arg1) is Ok,
            label_check(tcg.label, old(labels)@.len()) is Ok,
            pc_address + 128 <= usize::MAX,
        ensures
            r == pc_address + code_bytes(branch_code(Cond::E, *tcg)).len(),
            final(mc)@ == old(mc)@ + code_bytes(branch_code(Cond::E, *tcg)),
            labels_view(final(labels)@) == labels_view(old(labels)@).update(
                tcg.label->0 as int,
                LabelView {
                    offset: old(labels)@[tcg.label->0 as int].offset,
                    pending: old(labels)@[tcg.label->0 as int].code_ptr_vec@.push(
                        (pc_address + 16) as usize,
                    ),
                },
            ),
    {
        Self::tcg_gen_cmp_branch(emu, pc_address, Cond::E, tcg, labels, mc)
    }

    pub fn tcg_gen_ne(
        emu: &EmuEnv,
        pc_address: u64,
        tcg: &TCGOp,
        labels: &mut Vec<TCGLabel>,
        mc: &mut Vec<u8>,
    ) -> (r: usize)
        requires
            reg_check(tcg.arg0) is Ok,
            reg_check(tcg.arg1) is Ok,
            label_check(tcg.label, old(labels)@.len()) is Ok,
            pc_address + 128 <= usize::MAX,
        ensures
            r == pc_address + code_bytes(branch_code(Cond::NE, *tcg)).len(),
            final(mc)@ == old(mc)@ + code_bytes(branch_code(Cond::NE, *tcg)),
            labels_view(final(labels)@) == labels_view(old(labels)@).update(
                tcg.label->0 as int,
                LabelView {
                    offset: old(labels)@[tcg.label->0 as int].offset,
                    pending: old(labels)@[tcg.label->0 as int].code_ptr_vec@.push(
                        (pc_address + 16) as usize,
                    ),
                },
            ),
    {
        Self::tcg_gen_cmp_branch(emu, pc_address, Cond::NE, tcg, labels, mc)
    }

    pub fn tcg_gen_lt(
        emu: &EmuEnv,
        pc_address: u64,
        tcg: &TCGOp,
        labels: &mut Vec<TCGLabel>,
        mc: &mut Vec<u8>,
    ) -> (r: usize)
        requires
            reg_check(tcg.arg0) is Ok,
            reg_check(tcg.arg1) is Ok,
            label_check(tcg.label, old(labels)@.len()) is Ok,
            pc_address + 128 <= usize::MAX,
        ensures
            r == pc_address + code_bytes(branch_code(Cond::L, *tcg)).len(),
            final(mc)@ == old(mc)@ + code_bytes(branch_code(Cond::L, *tcg)),
            labels_view(final(labels)@) == labels_view(old(labels)@).update(
                tcg.label->0 as int,
                LabelView {
                    offset: old(labels)@[tcg.label->0 as int].offset,
                    pending: old(labels)@[tcg.label->0 as int].code_ptr_vec@.push(
                        (pc_address + 16) as usize,
                    ),
                },
            ),
    {
        Self::tcg_gen_cmp_branch(emu, pc_address, Cond::L, tcg, labels, mc)
    }

    pub fn tcg_gen_ge(
        emu: &EmuEnv,
        pc_address: u64,
        tcg: &TCGOp,
        labels: &mut Vec<TCGLabel>,
        mc: &mut Vec<u8>,
    ) -> (r: usize)
        requires
            reg_check(tcg.arg0) is Ok,
            reg_check(tcg.arg1) is Ok,
            label_check(tcg.label, old(labels)@.len()) is Ok,
            pc_address + 128 <= usize::MAX,
        ensures
            r == pc_address + code_bytes(branch_code(Cond::GE, *tcg)).len(),
            final(mc)@ == old(mc)@ + code_bytes(branch_code(Cond::GE, *tcg)),
            labels_view(final(labels)@) == labels_view(old(labels)@).update(
                tcg.label->0 as int,
                LabelView {
                    offset: old(labels)@[tcg.label->0 as int].offset,
                    pending: old(labels)@[tcg.label->0 as int].code_ptr_vec@.push(
                        (pc_address + 16) as usize,
                    ),
                },
            ),
    {
        Self::tcg_gen_cmp_branch(emu, pc_address, Cond::GE, tcg, labels, mc)
    }

    pub fn tcg_gen_ltu(
        emu: &EmuEnv,
        pc_address: u64,
        tcg: &TCGOp,
        labels: &mut Vec<TCGLabel>,
        mc: &mut Vec<u8>,
    ) -> (r: usize)
        requires
            reg_check(tcg.arg0) is Ok,
            reg_check(tcg.arg1) is Ok,
            label_check(tcg.label, old(labels)@.len()) is Ok,
            pc_address + 128 <= usize::MAX,
        ensures
            r == pc_address + code_bytes(branch_code(Cond::B, *tcg)).len(),
            final(mc)@ == old(mc)@ + code_bytes(branch_code(Cond::B, *tcg)),
            labels_view(final(labels)@) == labels_view(old(labels)@).update(
                tcg.label->0 as int,
                LabelView {
                    offset: old(labels)@[tcg.label->0 as int].offset,
                    pending: old(labels)@[tcg.label->0 as int].code_ptr_vec@.push(
                        (pc_address + 16) as usize,
                    ),
                },
            ),
    {
        Self::tcg_gen_cmp_branch(emu, pc_address, Cond::B, tcg, labels, mc)
    }

    pub fn tcg_gen_geu(
        emu: &EmuEnv,
        pc_address: u64,
        tcg: &TCGOp,
        labels: &mut Vec<TCGLabel>,
        mc: &mut Vec<u8>,
    ) -> (r: usize)
        requires
            reg_check(tcg.arg0) is Ok,
            reg_check(tcg.arg1) is Ok,
            label_check(tcg.label, old(labels)@.len()) is Ok,
            pc_address + 128 <= usize::MAX,
        ensures
            r == pc_address + code_bytes(branch_code(Cond::AE, *tcg)).len(),
            final(mc)@ == old(mc)@ + code_bytes(branch_code(Cond::AE, *tcg)),
            labels_view(final(labels)@) == labels_view(old(labels)@).update(
                tcg.label->0 as int,
                LabelView {
                    offset: old(labels)@[tcg.label->0 as int].offset,
                    pending: old(labels)@[tcg.label->0 as int].code_ptr_vec@.push(
                        (pc_address + 16) as usize,
                    ),
                },
            ),
    {
        Self::tcg_gen_cmp_branch(emu, pc_address, Cond::AE, tcg, labels, mc)
    }

    /// Binds the label of a definition record to `pc_address`; no bytes.
    pub fn tcg_gen_label(pc_address: u64, tcg: &TCGOp, labels: &mut Vec<TCGLabel>) -> (r: usize)
        requires
            label_check(tcg.label, old(labels)@.len()) is Ok,
            pc_address <= usize::MAX,
        ensures
            r == pc_address,
            labels_view(final(labels)@) == labels_view(old(labels)@).update(
                tcg.label->0 as int,
                LabelView {
                    offset: pc_address,
                    pending: old(labels)@[tcg.label->0 as int].code_ptr_vec@,
                },
            ),
    {
        let label = tcg.label.unwrap();
        labels[label].offset = pc_address;
        proof {
            assert(labels_view(labels@) =~= labels_view(old(labels)@).update(
                label as int,
                LabelView {
                    offset: pc_address,
                    pending: old(labels)@[label as int].code_ptr_vec@,
                },
            ));
        }
        pc_address as usize
    }

    /// A guest memory load of width `mem_size` into `a0` from `a1 + a2`.
    pub fn tcg_gen_load(
        emu: &EmuEnv,
        pc_address: u64,
        tcg: &TCGOp,
        mc: &mut Vec<u8>,
        mem_size: MemOpType,
    ) -> (r: usize)
        requires
            reg_check(tcg.arg0) is Ok,
            reg_check(tcg.arg1) is Ok,
            imm_check(tcg.arg2) is Ok,
            is_load_width(mem_size),
            pc_address + 128 <= usize::MAX,
        ensures
            r == pc_address + code_bytes(load_code(*emu, mem_size, *tcg)).len(),
            final(mc)@ == old(mc)@ + code_bytes(load_code(*emu, mem_size, *tcg)),
    {
        let gen_size: usize = pc_address as usize;
        let arg0 = tcg.arg0.unwrap();
        let arg1 = tcg.arg1.unwrap();
        let arg2 = tcg.arg2.unwrap();
        if arg0.value == 0 {
            // Writes to the zero register are dropped.
            proof {
                assert(mc@ =~= old(mc)@ + code_bytes(load_code(*emu, mem_size, *tcg)));
            }
            return gen_size;
        }
        let code = vec![
            HostInsn::MovRaxImm64 { imm64: emu.calc_guestcode_address() },
            HostInsn::MovRcxRax,
            HostInsn::LoadSlot { to_rcx: false, disp: emu.calc_gpr_relat_address(arg1.value) },
            HostInsn::AddRaxRcx,
            HostInsn::MemAccess { width: mem_size, disp: #[verifier::truncate] (arg2.value as u32) },
            HostInsn::StoreSlot { disp: emu.calc_gpr_relat_address(arg0.value) },
        ];
        proof {
            assert(code@ =~= load_code(*emu, mem_size, *tcg));
            lemma_code_bytes_len(code@);
        }
        gen_size + Self::tcg_out_code(&code, mc)
    }

    /// A guest memory store of width `mem_size` of `a1` to `a0 + a2`.
    pub fn tcg_gen_store(
        emu: &EmuEnv,
        pc_address: u64,
        tcg: &TCGOp,
        mc: &mut Vec<u8>,
        mem_size: MemOpType,
    ) -> (r: usize)
        requires
            reg_check(tcg.arg0) is Ok,
            reg_check(tcg.arg1) is Ok,
            imm_check(tcg.arg2) is Ok,
            !is_load_width(mem_size),
            pc_address + 128 <= usize::MAX,
        ensures
            r == pc_address + code_bytes(store_code(*emu, mem_size, *tcg)).len(),
            final(mc)@ == old(mc)@ + code_bytes(store_code(*emu, mem_size, *tcg)),
    {
        let gen_size: usize = pc_address as usize;
        let arg0 = tcg.arg0.unwrap();
        let arg1 = tcg.arg1.unwrap();
        let arg2 = tcg.arg2.unwrap();
        let code = vec![
            HostInsn::MovRaxImm64 { imm64: emu.calc_guestcode_address() },
            HostInsn::MovRcxRax,
            HostInsn::LoadSlot { to_rcx: false, disp: emu.calc_gpr_relat_address(arg0.value) },
            HostInsn::AddRaxRcx,
            HostInsn::LoadSlot { to_rcx: true, disp: emu.calc_gpr_relat_address(arg1.value) },
            HostInsn::MemAccess { width: mem_size, disp: #[verifier::truncate] (arg2.value as u32) },
        ];
        proof {
            assert(code@ =~= store_code(*emu, mem_size, *tcg));
            lemma_code_bytes_len(code@);
        }
        gen_size + Self::tcg_out_code(&code, mc)
    }

    /// Overwrites the four bytes at `s` with `w`, least significant first.
    fn tcg_patch_u32(mc: &mut Vec<u8>, s: usize, w: u32)
        requires
            s + 4 <= old(mc)@.len(),
        ensures
            final(mc)@.len() == old(mc)@.len(),
            final(mc)@.subrange(s as int, s + 4) == le32(w),
            forall|k: int|
                0 <= k < old(mc)@.len() && !(s <= k < s + 4) ==> #[trigger] final(mc)@[k]
                    == old(mc)@[k],
    {
        let n: usize = mc.len();
        let mut j: usize = 0;
        while j < 4
            invariant
                j <= 4,
                n == mc@.len(),
                s + 4 <= old(mc)@.len(),
                mc@.len() == old(mc)@.len(),
                forall|k: int| s <= k < s + j ==> #[trigger] mc@[k] == byte_of(w, k - s),
                forall|k: int|
                    0 <= k < old(mc)@.len() && !(s <= k < s + j) ==> #[trigger] mc@[k]
                        == old(mc)@[k],
            decreases 4 - j,
        {
            let idx: usize = s + j;
            mc[idx] = #[verifier::truncate] (((w >> (8 * j) as u32) & 0xff) as u8);
            j = j + 1;
        }
        proof {
            assert(mc@.subrange(s as int, s + 4) =~= le32(w));
        }
    }

    /// Emits a block of IR records at the end of the code buffer and then
    /// writes into every pending site the displacement to its label. A
    /// block with a record that cannot be emitted is refused with the first
    /// fault, and nothing is written.
    pub fn tcg_gen_block(
        emu: &EmuEnv,
        ops: &Vec<TCGOp>,
        labels: &mut Vec<TCGLabel>,
        mc: &mut Vec<u8>,
    ) -> (r: Result<usize, TCGError>)
        requires
            old(mc)@.len() + 128 * ops@.len() <= usize::MAX,
            forall|l: int| 0 <= l < old(labels)@.len() ==> #[trigger] old(labels)@[l].code_ptr_vec@.len() == 0,
        ensures
            block_check(ops@, old(labels)@.len(), 0) is Err ==> {
                &&& r == Err::<usize, TCGError>(block_check(ops@, old(labels)@.len(), 0)->Err_0)
                &&& final(mc)@ == old(mc)@
                &&& final(labels)@ == old(labels)@
            },
            block_check(ops@, old(labels)@.len(), 0) is Ok ==> {
                let (bytes, ls) = block_emit(
                    *emu,
                    ops@,
                    old(mc)@.len() as int,
                    labels_view(old(labels)@),
                );
                &&& r == Ok::<usize, TCGError>(final(mc)@.len() as usize)
                &&& final(mc)@.len() == old(mc)@.len() + bytes.len()
                &&& labels_view(final(labels)@) == ls
                &&& final(mc)@.subrange(0, old(mc)@.len() as int) == old(mc)@
                &&& forall|a: int, i: int|
                    is_site(ls, a, i) ==> final(mc)@.subrange(
                        #[trigger] ls[a].pending[i] as int,
                        ls[a].pending[i] + 4,
                    ) == le32(patch_value(ls[a], ls[a].pending[i]))
                &&& forall|k: int|
                    0 <= k < final(mc)@.len() ==> #[trigger] final(mc)@[k] == (old(mc)@
                        + bytes)[k] || in_site(ls, k)
            },
    {
        let n: usize = labels.len();
        let mut i: usize = 0;
        while i < ops.len()
            invariant
                i <= ops@.len(),
                n == labels@.len(),
                forall|j: int| 0 <= j < i ==> #[trigger] check_op(ops@[j], n as nat) is Ok,
                block_check(ops@, n as nat, 0) == block_check(ops@, n as nat, i as int),
            decreases ops.len() - i,
        {
            match Self::tcg_check(&ops[i], n) {
                Err(e) => {
                    return Err(e);
                },
                Ok(()) => {},
            }
            i = i + 1;
        }
        let start: usize = mc.len();
        let ghost ls0 = labels_view(labels@);
        let mut gen: usize = start;
        i = 0;
        while i < ops.len()
            invariant
                i <= ops@.len(),
                n == labels@.len(),
                n == old(labels)@.len(),
                start == old(mc)@.len(),
                ls0 == labels_view(old(labels)@),
                start + 128 * ops@.len() <= usize::MAX,
                forall|j: int| 0 <= j < ops@.len() ==> #[trigger] check_op(ops@[j], n as nat) is Ok,
                gen == mc@.len(),
                gen <= start + 128 * i,
                mc@ == old(mc)@ + block_emit(*emu, ops@.subrange(0, i as int), start as int, ls0).0,
                labels_view(labels@) == block_emit(
                    *emu,
                    ops@.subrange(0, i as int),
                    start as int,
                    ls0,
                ).1,
                sites_within(labels_view(labels@), start as int, gen as int),
                sites_apart(labels_view(labels@)),
            decreases ops.len() - i,
        {
            let ghost ls_before = labels_view(labels@);
            let ghost op = ops@[i as int];
            let r = <TCGX86 as TCG>::tcg_gen(emu, gen as u64, &ops[i], labels, mc);
            proof {
                assert(ops@.subrange(0, i + 1).drop_last() =~= ops@.subrange(0, i as int));
                assert(ops@.subrange(0, i + 1).last() == op);
                lemma_code_bytes_len(gen_code(*emu, op, gen as int));
                assert(labels_view(labels@).len() == labels@.len());
                match op.op {
                    None => {
                        lemma_sites_rebind(
                            ls_before,
                            op.label->0 as int,
                            gen as u64,
                            start as int,
                            gen as int,
                            mc@.len() as int,
                        );
                    },
                    Some(c) => {
                        if is_branch(c) {
                            lemma_branch_code_len(cond_of(c), op);
                            lemma_sites_push(
                                ls_before,
                                op.label->0 as int,
                                (gen + 16) as usize,
                                start as int,
                                gen as int,
                                mc@.len() as int,
                            );
                        } else {
                            assert forall|a: int, j: int|
                                is_site(ls_before, a, j) implies start <= #[trigger] ls_before[a].pending[j]
                                && ls_before[a].pending[j] + 4 <= mc@.len() by {}
                        }
                    },
                }
            }
            match r {
                Ok(g) => {
                    gen = g;
                },
                Err(e) => {
                    return Err(e);
                },
            }
            i = i + 1;
        }
        proof {
            assert(ops@.subrange(0, ops@.len() as int) =~= ops@);
        }
        let ghost base = mc@;
        let ghost ls = labels_view(labels@);
        let mut a: usize = 0;
        while a < labels.len()
            invariant
                a <= labels@.len(),
                ls == labels_view(labels@),
                mc@.len() == base.len(),
                start <= base.len(),
                sites_within(ls, start as int, base.len() as int),
                sites_apart(ls),
                forall|k: int| 0 <= k < start ==> #[trigger] mc@[k] == base[k],
                forall|b: int, j: int|
                    is_site(ls, b, j) && b < a ==> mc@.subrange(
                        #[trigger] ls[b].pending[j] as int,
                        ls[b].pending[j] + 4,
                    ) == le32(patch_value(ls[b], ls[b].pending[j])),
                forall|k: int|
                    0 <= k < base.len() ==> #[trigger] mc@[k] == base[k] || exists|b: int, j: int|
                        is_site(ls, b, j) && b < a && #[trigger] ls[b].pending[j] <= k && k
                            < ls[b].pending[j] + 4,
            decreases labels.len() - a,
        {
            let mut i: usize = 0;
            while i < labels[a].code_ptr_vec.len()
                invariant
                    a < labels@.len(),
                    i <= ls[a as int].pending.len(),
                    ls == labels_view(labels@),
                    mc@.len() == base.len(),
                    start <= base.len(),
                    sites_within(ls, start as int, base.len() as int),
                    sites_apart(ls),
                    forall|k: int| 0 <= k < start ==> #[trigger] mc@[k] == base[k],
                    forall|b: int, j: int|
                        is_site(ls, b, j) && (b < a || (b == a && j < i)) ==> mc@.subrange(
                            #[trigger] ls[b].pending[j] as int,
                            ls[b].pending[j] + 4,
                        ) == le32(patch_value(ls[b], ls[b].pending[j])),
                    forall|k: int|
                        0 <= k < base.len() ==> #[trigger] mc@[k] == base[k] || exists|
                            b: int,
                            j: int,
                        |
                            is_site(ls, b, j) && (b < a || (b == a && j < i))
                                && #[trigger] ls[b].pending[j] <= k && k < ls[b].pending[j] + 4,
                decreases ls[a as int].pending.len() - i,
            {
                let site: usize = labels[a].code_ptr_vec[i];
                let d: i128 = labels[a].offset as i128 - (site as i128 + 4);
                let w: u32 = #[verifier::truncate] (d as u32);
                proof {
                    assert(ls[a as int].pending[i as int] == site);
                    assert(is_site(ls, a as int, i as int));
                }
                let ghost before = mc@;
                Self::tcg_patch_u32(mc, site, w);
                proof {
                    assert forall|b: int, j: int|
                        is_site(ls, b, j) && (b < a || (b == a && j < i + 1)) implies mc@.subrange(
                        #[trigger] ls[b].pending[j] as int,
                        ls[b].pending[j] + 4,
                    ) == le32(patch_value(ls[b], ls[b].pending[j])) by {
                        if b == a && j == i {
                        } else {
                            let t = ls[b].pending[j] as int;
                            assert(t + 4 <= site || site + 4 <= t);
                            assert(mc@.subrange(t, t + 4) =~= before.subrange(t, t + 4));
                        }
                    }
                    assert forall|k: int| 0 <= k < base.len() implies #[trigger] mc@[k] == base[k]
                        || exists|b: int, j: int|
                        is_site(ls, b, j) && (b < a || (b == a && j < i + 1))
                            && #[trigger] ls[b].pending[j] <= k && k < ls[b].pending[j] + 4 by {
                        if site <= k && k < site + 4 {
                            assert(is_site(ls, a as int, i as int) && ls[a as int].pending[i as int]
                                <= k && k < ls[a as int].pending[i as int] + 4);
                        } else {
                            assert(mc@[k] == before[k]);
                        }
                    }
                }
                i = i + 1;
            }
            proof {
                assert forall|k: int| 0 <= k < base.len() implies #[trigger] mc@[k] == base[k]
                    || exists|b: int, j: int|
                    is_site(ls, b, j) && b < a + 1 && #[trigger] ls[b].pending[j] <= k && k
                        < ls[b].pending[j] + 4 by {
                    if mc@[k] != base[k] {
                        let (b, j) = choose|b: int, j: int|
                            is_site(ls, b, j) && (b < a || (b == a && j < i))
                                && #[trigger] ls[b].pending[j] <= k && k < ls[b].pending[j] + 4;
                        assert(is_site(ls, b, j) && b < a + 1 && ls[b].pending[j] <= k && k
                            < ls[b].pending[j] + 4);
                    }
                }
            }
            a = a + 1;
        }
        proof {
            assert(mc@.subrange(0, start as int) =~= old(mc)@);
            assert forall|k: int| 0 <= k < mc@.len() implies #[trigger] mc@[k] == base[k] || in_site(ls, k) by {
                if mc@[k] != base[k] {
                    let (b, j) = choose|b: int, j: int|
                        is_site(ls, b, j) && b < a && #[trigger] ls[b].pending[j] <= k && k
                            < ls[b].pending[j] + 4;
                    assert(is_site(ls, b, j) && ls[b].pending[j] <= k && k < ls[b].pending[j] + 4);
                }
            }
        }
        Ok(mc.len())
    }

    /// Appends the low `byte_len` bytes of `inst`, least significant first.
    fn tcg_out(inst: u32, byte_len: usize, v: &mut Vec<u8>) -> (r: usize)
        requires
            byte_len <= 4,
        ensures
            r == byte_len,
            final(v)@ == old(v)@ + le_bytes(inst, byte_len as nat),
    {
        let mut i: usize = 0;
        while i < byte_len
            invariant
                i <= byte_len <= 4,
                v@ == old(v)@ + le_bytes(inst, i as nat),
            decreases byte_len - i,
        {
            v.push(((inst >> (8 * i) as u32) & 0xff) as u8);
            proof {
                assert(v@ =~= old(v)@ + le_bytes(inst, (i + 1) as nat));
            }
            i = i + 1;
        }
        byte_len
    }
}

impl TCG for TCGX86 {
    open spec fn check_of(op: TCGOp, n: nat) -> Result<(), TCGError> {
        check_op(op, n)
    }

    open spec fn bytes_of(emu: EmuEnv, op: TCGOp, g: int) -> Seq<u8> {
        gen_bytes(emu, op, g)
    }

    open spec fn labels_of(ls: Seq<LabelView>, op: TCGOp, g: int) -> Seq<LabelView> {
        labels_after(ls, op, g)
    }

    fn tcg_gen(
        emu: &EmuEnv,
        pc_address: u64,
        tcg: &TCGOp,
        labels: &mut Vec<TCGLabel>,
        mc: &mut Vec<u8>,
    ) -> (r: Result<usize, TCGError>)
    {
        match Self::tcg_check(tcg, labels.len()) {
            Err(e) => {
                return Err(e);
            },
            Ok(()) => {},
        }
        proof {
            lemma_code_bytes_len(gen_code(*emu, *tcg, pc_address as int));
        }
        let op = match tcg.op {
            None => {
                let r = Self::tcg_gen_label(pc_address, tcg, labels);
                proof {
                    assert(mc@ =~= old(mc)@ + gen_bytes(*emu, *tcg, pc_address as int));
                }
                return Ok(r);
            },
            Some(op) => op,
        };
        let r = match op {
            TCGOpcode::ADD => Self::tcg_gen_addi(emu, pc_address, tcg, mc),
            TCGOpcode::SUB => Self::tcg_gen_sub(emu, pc_address, tcg, mc),
            TCGOpcode::AND => Self::tcg_gen_and(emu, pc_address, tcg, mc),
            TCGOpcode::OR => Self::tcg_gen_or(emu, pc_address, tcg, mc),
            TCGOpcode::XOR => Self::tcg_gen_xor(emu, pc_address, tcg, mc),
            TCGOpcode::JMP => Self::tcg_gen_jmpr(emu, pc_address, tcg, mc),
            TCGOpcode::JMPIM => Self::tcg_gen_jmpim(emu, pc_address, tcg, mc),
            TCGOpcode::EQ => Self::tcg_gen_eq(emu, pc_address, tcg, labels, mc),
            TCGOpcode::NE => Self::tcg_gen_ne(emu, pc_address, tcg, labels, mc),
            TCGOpcode::LT => Self::tcg_gen_lt(emu, pc_address, tcg, labels, mc),
            TCGOpcode::GE => Self::tcg_gen_ge(emu, pc_address, tcg, labels, mc),
            TCGOpcode::LTU => Self::tcg_gen_ltu(emu, pc_address, tcg, labels, mc),
            TCGOpcode::GEU => Self::tcg_gen_geu(emu, pc_address, tcg, labels, mc),
            TCGOpcode::LD => Self::tcg_gen_load(emu, pc_address, tcg, mc, MemOpType::LOAD_64BIT),
            TCGOpcode::LW => Self::tcg_gen_load(emu, pc_address, tcg, mc, MemOpType::LOAD_32BIT),
            TCGOpcode::LH => Self::tcg_gen_load(emu, pc_address, tcg, mc, MemOpType::LOAD_16BIT),
            TCGOpcode::LB => Self::tcg_gen_load(emu, pc_address, tcg, mc, MemOpType::LOAD_8BIT),
            TCGOpcode::LWU => Self::tcg_gen_load(
                emu,
                pc_address,
                tcg,
                mc,
                MemOpType::LOAD_U_32BIT,
            ),
            TCGOpcode::LHU => Self::tcg_gen_load(
                emu,
                pc_address,
                tcg,
                mc,
                MemOpType::LOAD_U_16BIT,
            ),
            TCGOpcode::LBU => Self::tcg_gen_load(
                emu,
                pc_address,
                tcg,
                mc,
                MemOpType::LOAD_U_8BIT,
            ),
            TCGOpcode::SD => Self::tcg_gen_store(emu, pc_address, tcg, mc, MemOpType::STORE_64BIT),
            TCGOpcode::SW => Self::tcg_gen_store(emu, pc_address, tcg, mc, MemOpType::STORE_32BIT),
            TCGOpcode::SH => Self::tcg_gen_store(emu, pc_address, tcg, mc, MemOpType::STORE_16BIT),
            TCGOpcode::SB => Self::tcg_gen_store(emu, pc_address, tcg, mc, MemOpType::STORE_8BIT),
            TCGOpcode::MOV => Self::tcg_gen_mov(emu, pc_address, tcg, mc),
        };
        Ok(r)
    }
}

} // verus!

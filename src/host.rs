//! The host instruction forms that emitted code is made of, and their
//! x86-64 machine encodings.
use crate::tcg::MemOpType;
use vstd::prelude::*;

verus! {

/// Byte `i` (from the least significant) of `w`.
pub open spec fn byte_of(w: u32, i: int) -> u8 {
    ((w >> ((8 * i) as u32)) & 0xff) as u8
}

/// The low `n` bytes of `w`, least significant first.
pub open spec fn le_bytes(w: u32, n: nat) -> Seq<u8> {
    Seq::new(n, |i: int| byte_of(w, i))
}

pub open spec fn le32(w: u32) -> Seq<u8> {
    le_bytes(w, 4)
}

/// The arithmetic and logic operations of the host forms.
#[derive(Debug, Copy, Clone, PartialEq, Eq, Structural)]
pub enum AluOp {
    Add,
    Sub,
    And,
    Or,
    Xor,
}

/// The conditions of the conditional jumps.
#[derive(Debug, Copy, Clone, PartialEq, Eq, Structural)]
pub enum Cond {
    E,
    NE,
    L,
    GE,
    B,
    AE,
}

/// The host instruction forms that emitted code is made of. `disp` fields
/// are 32-bit displacements; `rel` fields are 32-bit jump displacements
/// measured from the end of the instruction.
#[derive(Debug, Copy, Clone, PartialEq, Eq, Structural)]
pub enum HostInsn {
    /// `mov rax, [rbp+disp]`, or `mov rcx, [rbp+disp]` when `to_rcx`.
    LoadSlot { to_rcx: bool, disp: u32 },
    /// `op rax, [rbp+disp]`.
    AluSlot { op: AluOp, disp: u32 },
    /// `cmp rax, [rbp+disp]`.
    CmpSlot { disp: u32 },
    /// `mov [rbp+disp], rax`.
    StoreSlot { disp: u32 },
    /// `mov qword [rbp+disp], imm` with `imm` sign-extended.
    StoreImmSlot { disp: u32, imm: u32 },
    /// `op eax, imm`.
    AluEaxImm { op: AluOp, imm: u32 },
    /// `mov eax, imm`.
    MovEaxImm { imm: u32 },
    /// `mov rax, imm` with a 64-bit immediate.
    MovRaxImm64 { imm64: u64 },
    /// `mov rcx, rax`.
    MovRcxRax,
    /// `add rax, rcx`.
    AddRaxRcx,
    /// A guest memory access through `[rax+disp]`: a load into `rax`
    /// (`eax` for the unsigned widths) or a store of `rcx` of the width.
    MemAccess { width: MemOpType, disp: u32 },
    /// `jcc rel`.
    Jcc { cond: Cond, rel: u32 },
    /// `jmp rel`.
    Jmp { rel: u32 },
}

pub open spec fn alu_slot_opcode(op: AluOp) -> u8 {
    match op {
        AluOp::Add => 0x03,
        AluOp::Sub => 0x2b,
        AluOp::And => 0x23,
        AluOp::Or => 0x0b,
        AluOp::Xor => 0x33,
    }
}

pub open spec fn alu_eax_opcode(op: AluOp) -> u8 {
    match op {
        AluOp::Add => 0x05,
        AluOp::Sub => 0x2d,
        AluOp::And => 0x25,
        AluOp::Or => 0x0d,
        AluOp::Xor => 0x35,
    }
}

pub open spec fn cond_opcode(c: Cond) -> u8 {
    match c {
        Cond::E => 0x84,
        Cond::NE => 0x85,
        Cond::L => 0x8c,
        Cond::GE => 0x8d,
        Cond::B => 0x82,
        Cond::AE => 0x83,
    }
}

/// The bytes of a guest memory access before its displacement.
pub open spec fn mem_prefix(width: MemOpType) -> Seq<u8> {
    match width {
        MemOpType::LOAD_64BIT => seq![0x48u8, 0x8b, 0x80],
        MemOpType::LOAD_32BIT => seq![0x48u8, 0x63, 0x80],
        MemOpType::LOAD_16BIT => seq![0x48u8, 0x0f, 0xbf, 0x80],
        MemOpType::LOAD_8BIT => seq![0x48u8, 0x0f, 0xbe, 0x80],
        MemOpType::LOAD_U_32BIT => seq![0x8bu8, 0x80],
        MemOpType::LOAD_U_16BIT => seq![0x0fu8, 0xb7, 0x80],
        MemOpType::LOAD_U_8BIT => seq![0x0fu8, 0xb6, 0x80],
        MemOpType::STORE_64BIT => seq![0x48u8, 0x89, 0x88],
        MemOpType::STORE_32BIT => seq![0x89u8, 0x88],
        MemOpType::STORE_16BIT => seq![0x66u8, 0x89, 0x88],
        MemOpType::STORE_8BIT => seq![0x88u8, 0x88],
    }
}

/// The machine bytes of one host instruction.
pub open spec fn encode(i: HostInsn) -> Seq<u8> {
    match i {
        HostInsn::LoadSlot { to_rcx, disp } => seq![
            0x48u8,
            0x8b,
            if to_rcx {
                0x8du8
            } else {
                0x85u8
            },
        ] + le32(disp),
        HostInsn::AluSlot { op, disp } => seq![0x48u8, alu_slot_opcode(op), 0x85] + le32(disp),
        HostInsn::CmpSlot { disp } => seq![0x48u8, 0x3b, 0x85] + le32(disp),
        HostInsn::StoreSlot { disp } => seq![0x48u8, 0x89, 0x85] + le32(disp),
        HostInsn::StoreImmSlot { disp, imm } => seq![0x48u8, 0xc7, 0x85] + le32(disp) + le32(imm),
        HostInsn::AluEaxImm { op, imm } => seq![alu_eax_opcode(op)] + le32(imm),
        HostInsn::MovEaxImm { imm } => seq![0xb8u8] + le32(imm),
        HostInsn::MovRaxImm64 { imm64 } => seq![0x48u8, 0xb8] + le32((imm64 & 0xffff_ffff) as u32)
            + le32(((imm64 >> 32u64) & 0xffff_ffff) as u32),
        HostInsn::MovRcxRax => seq![0x48u8, 0x8b, 0xc8],
        HostInsn::AddRaxRcx => seq![0x48u8, 0x03, 0xc1],
        HostInsn::MemAccess { width, disp } => mem_prefix(width) + le32(disp),
        HostInsn::Jcc { cond, rel } => seq![0x0fu8, cond_opcode(cond)] + le32(rel),
        HostInsn::Jmp { rel } => seq![0xe9u8] + le32(rel),
    }
}

/// The bytes of a sequence of host instructions, in order.
pub open spec fn code_bytes(s: Seq<HostInsn>) -> Seq<u8>
    decreases s.len(),
{
    if s.len() == 0 {
        Seq::empty()
    } else {
        code_bytes(s.drop_last()) + encode(s.last())
    }
}

pub proof fn lemma_code_bytes_push(s: Seq<HostInsn>, i: HostInsn)
    ensures
        code_bytes(s.push(i)) == code_bytes(s) + encode(i),
{
    assert(s.push(i).drop_last() =~= s);
}

pub proof fn lemma_code_bytes_pair(a: HostInsn, b: HostInsn)
    ensures
        code_bytes(seq![a, b]) == encode(a) + encode(b),
{
    let e = Seq::<HostInsn>::empty();
    lemma_code_bytes_push(e, a);
    lemma_code_bytes_push(e.push(a), b);
    assert(code_bytes(e) == Seq::<u8>::empty());
    assert(seq![a, b] =~= e.push(a).push(b));
    assert(Seq::<u8>::empty() + encode(a) =~= encode(a));
}

pub proof fn lemma_code_bytes_len(s: Seq<HostInsn>)
    ensures
        code_bytes(s).len() <= 11 * s.len(),
    decreases s.len(),
{
    if s.len() > 0 {
        lemma_code_bytes_len(s.drop_last());
    }
}

pub proof fn lemma_le_bytes_1(b: u32)
    requires
        b < 256,
    ensures
        le_bytes(b, 1) == seq![b as u8],
{
    assert((b >> 0u32) & 0xff == b) by (bit_vector)
        requires
            b < 256,
    ;
    assert(le_bytes(b, 1) =~= seq![b as u8]);
}

pub proof fn lemma_le_bytes_2(w: u32)
    requires
        w < 0x10000,
    ensures
        le_bytes(w, 2) == seq![(w % 256) as u8, (w / 256) as u8],
{
    assert((w >> 0u32) & 0xff == w % 256) by (bit_vector)
        requires
            w < 0x10000,
    ;
    assert((w >> 8u32) & 0xff == w / 256) by (bit_vector)
        requires
            w < 0x10000,
    ;
    assert(le_bytes(w, 2) =~= seq![(w % 256) as u8, (w / 256) as u8]);
}

/// A 32-bit jump displacement from `from` to `to`, wrapped to 32 bits.
pub open spec fn rel32(to: int, from: int) -> u32 {
    (to - from) as u32
}

pub proof fn lemma_code_bytes_concat(a: Seq<HostInsn>, b: Seq<HostInsn>)
    ensures
        code_bytes(a + b) == code_bytes(a) + code_bytes(b),
    decreases b.len(),
{
    if b.len() == 0 {
        assert(a + b =~= a);
        assert(code_bytes(a) + code_bytes(b) =~= code_bytes(a));
    } else {
        lemma_code_bytes_concat(a, b.drop_last());
        assert((a + b).drop_last() =~= a + b.drop_last());
        assert((a + b).last() == b.last());
        assert(code_bytes(a) + code_bytes(b) =~= code_bytes(a) + code_bytes(b.drop_last())
            + encode(b.last()));
    }
}

} // verus!

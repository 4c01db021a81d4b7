//! The intermediate representation: operands, ops and branch labels.
use crate::emu_env::EmuEnv;
use vstd::prelude::*;

verus! {

/// The operations of the intermediate representation.
#[derive(Debug, Copy, Clone, PartialEq, Eq, Structural)]
pub enum TCGOpcode {
    MOV,
    ADD,
    SUB,
    AND,
    OR,
    XOR,
    JMP,
    JMPIM,
    EQ,
    NE,
    LT,
    GE,
    LTU,
    GEU,
    LD,
    LW,
    LH,
    LB,
    LWU,
    LHU,
    LBU,
    SD,
    SW,
    SH,
    SB,
}

/// Access widths of guest memory operations.
#[allow(non_camel_case_types)]
#[derive(Debug, Copy, Clone, PartialEq, Eq, Structural)]
pub enum MemOpType {
    LOAD_64BIT,
    LOAD_32BIT,
    LOAD_16BIT,
    LOAD_8BIT,
    LOAD_U_32BIT,
    LOAD_U_16BIT,
    LOAD_U_8BIT,
    STORE_64BIT,
    STORE_32BIT,
    STORE_16BIT,
    STORE_8BIT,
}

/// The kind of an operand.
#[derive(Debug, Copy, Clone, PartialEq, Eq, Structural)]
pub enum TCGvType {
    Register,
    Immediate,
    ProgramCounter,
}

/// An operand: a guest register index, an immediate bit pattern, or the
/// program counter slot.
#[derive(Debug, Copy, Clone, PartialEq, Eq, Structural)]
pub struct TCGv {
    pub t: TCGvType,
    pub value: u64,
}

/// One IR record. A record without an opcode that carries a label defines
/// that label at the current emission position. Labels are indices into the
/// label table that the emitter owns for the block.
#[derive(Debug, Copy, Clone, PartialEq, Eq, Structural)]
pub struct TCGOp {
    pub op: Option<TCGOpcode>,
    pub arg0: Option<TCGv>,
    pub arg1: Option<TCGv>,
    pub arg2: Option<TCGv>,
    pub label: Option<usize>,
}

/// A branch target inside the host code buffer: its offset once bound, and
/// the offsets of the 32-bit displacement fields that must reach it.
#[derive(Debug, Clone)]
pub struct TCGLabel {
    pub offset: u64,
    pub code_ptr_vec: Vec<usize>,
}

/// Why an IR record cannot be emitted.
#[derive(Debug, Copy, Clone, PartialEq, Eq, Structural)]
pub enum TCGError {
    /// The opcode, or this use of it, has no host translation.
    UnsupportedOp,
    /// A required operand slot is empty.
    MissingOperand,
    /// An operand has the wrong kind, or names no guest register.
    OperandKind,
    /// A label is required and absent, or names no label of the table.
    MissingLabel,
}

/// The abstract value of a label: its bound offset and pending sites.
pub struct LabelView {
    pub offset: u64,
    pub pending: Seq<usize>,
}

impl View for TCGLabel {
    type V = LabelView;

    open spec fn view(&self) -> LabelView {
        LabelView { offset: self.offset, pending: self.code_ptr_vec@ }
    }
}

pub open spec fn labels_view(ls: Seq<TCGLabel>) -> Seq<LabelView> {
    ls.map_values(|l: TCGLabel| l@)
}

impl TCGv {
    pub fn new_reg(val: u64) -> (r: TCGv)
        ensures
            r == (TCGv { t: TCGvType::Register, value: val }),
    {
        TCGv { t: TCGvType::Register, value: val }
    }

    pub fn new_imm(val: u64) -> (r: TCGv)
        ensures
            r == (TCGv { t: TCGvType::Immediate, value: val }),
    {
        TCGv { t: TCGvType::Immediate, value: val }
    }

    pub fn new_pc() -> (r: TCGv)
        ensures
            r == (TCGv { t: TCGvType::ProgramCounter, value: 0 }),
    {
        TCGv { t: TCGvType::ProgramCounter, value: 0 }
    }
}

impl TCGOp {
    pub fn new_2op(opcode: TCGOpcode, a1: TCGv, a2: TCGv) -> (r: TCGOp)
        ensures
            r == (TCGOp {
                op: Some(opcode),
                arg0: Some(a1),
                arg1: Some(a2),
                arg2: None,
                label: None,
            }),
    {
        TCGOp { op: Some(opcode), arg0: Some(a1), arg1: Some(a2), arg2: None, label: None }
    }

    pub fn new_3op(opcode: TCGOpcode, a1: TCGv, a2: TCGv, a3: TCGv) -> (r: TCGOp)
        ensures
            r == (TCGOp {
                op: Some(opcode),
                arg0: Some(a1),
                arg1: Some(a2),
                arg2: Some(a3),
                label: None,
            }),
    {
        TCGOp { op: Some(opcode), arg0: Some(a1), arg1: Some(a2), arg2: Some(a3), label: None }
    }

    pub fn new_4op(opcode: TCGOpcode, a1: TCGv, a2: TCGv, a3: TCGv, label: usize) -> (r: TCGOp)
        ensures
            r == (TCGOp {
                op: Some(opcode),
                arg0: Some(a1),
                arg1: Some(a2),
                arg2: Some(a3),
                label: Some(label),
            }),
    {
        TCGOp { op: Some(opcode), arg0: Some(a1), arg1: Some(a2), arg2: Some(a3), label: Some(label) }
    }

    /// A block exit that writes the immediate `addr` to the program counter.
    pub fn new_goto_tb(addr: TCGv) -> (r: TCGOp)
        requires
            addr.t == TCGvType::Immediate,
        ensures
            r == (TCGOp {
                op: Some(TCGOpcode::MOV),
                arg0: Some(TCGv { t: TCGvType::ProgramCounter, value: 0 }),
                arg1: Some(addr),
                arg2: None,
                label: None,
            }),
    {
        Self::new_2op(TCGOpcode::MOV, TCGv::new_pc(), addr)
    }

    /// The record that binds `label` to the position where it is emitted.
    pub fn new_label(label: usize) -> (r: TCGOp)
        ensures
            r == (TCGOp { op: None, arg0: None, arg1: None, arg2: None, label: Some(label) }),
    {
        TCGOp { op: None, arg0: None, arg1: None, arg2: None, label: Some(label) }
    }
}

impl TCGLabel {
    /// An unbound label with no pending displacement fields.
    pub fn new() -> (r: TCGLabel)
        ensures
            r.offset == 0,
            r.code_ptr_vec@ == Seq::<usize>::empty(),
    {
        TCGLabel { offset: 0, code_ptr_vec: Vec::new() }
    }
}

/// A host back end: emits IR records as host machine code.
pub trait TCG {
    /// Whether `op` can be emitted against a table of `n` labels, and the
    /// first fault if not.
    spec fn check_of(op: TCGOp, n: nat) -> Result<(), TCGError>;

    /// The bytes of a well-formed record emitted at position `g`.
    spec fn bytes_of(emu: EmuEnv, op: TCGOp, g: int) -> Seq<u8>;

    /// The label table after a well-formed record is emitted at `g`.
    spec fn labels_of(ls: Seq<LabelView>, op: TCGOp, g: int) -> Seq<LabelView>;

    /// Emits one IR record at position `pc_address` of the code buffer and
    /// returns the position after it. A record that cannot be emitted is
    /// refused with its first fault before anything is written.
    fn tcg_gen(
        emu: &EmuEnv,
        pc_address: u64,
        tcg: &TCGOp,
        labels: &mut Vec<TCGLabel>,
        mc: &mut Vec<u8>,
    ) -> (r: Result<usize, TCGError>)
        requires
            pc_address + 128 <= usize::MAX,
        ensures
            Self::check_of(*tcg, old(labels)@.len()) is Err ==> {
                &&& r == Err::<usize, TCGError>(Self::check_of(*tcg, old(labels)@.len())->Err_0)
                &&& final(mc)@ == old(mc)@
                &&& final(labels)@ == old(labels)@
            },
            Self::check_of(*tcg, old(labels)@.len()) is Ok ==> {
                &&& r == Ok::<usize, TCGError>(
                    (pc_address + Self::bytes_of(*emu, *tcg, pc_address as int).len()) as usize,
                )
                &&& final(mc)@ == old(mc)@ + Self::bytes_of(*emu, *tcg, pc_address as int)
                &&& labels_view(final(labels)@) == Self::labels_of(
                    labels_view(old(labels)@),
                    *tcg,
                    pc_address as int,
                )
            },
            r matches Ok(g) ==> g == pc_address + final(mc)@.len() - old(mc)@.len(),
    ;
}

} // verus!

//! What the emitter needs to know of the run-time harness: where the guest
//! register file, guest memory and the epilogue lie.
use vstd::prelude::*;

verus! {

/// The run-time layout seen by emitted code. `RBP` points at the guest
/// register file: register `i` lives at `RBP + 8 * i` and the program
/// counter at `RBP + 8 * 32`. Guest memory starts at `guest_mem_base`. The
/// epilogue lies at byte position `epilogue_offset` relative to the start
/// of the code buffer. `block_pc` is the guest program counter at the entry
/// of the block being emitted.
#[derive(Debug, Copy, Clone, PartialEq, Eq, Structural)]
pub struct EmuEnv {
    pub guest_mem_base: u64,
    pub epilogue_offset: i64,
    pub block_pc: u64,
}

/// The displacement from `RBP` of guest register slot `i`.
pub open spec fn gpr_disp(i: u64) -> u32 {
    (8 * i) as u32
}

/// The displacement from `RBP` of the program counter slot.
pub open spec fn pc_disp() -> u32 {
    256
}

impl EmuEnv {
    pub fn calc_gpr_relat_address(&self, i: u64) -> (r: u32)
        requires
            i < 32,
        ensures
            r == gpr_disp(i),
    {
        (8 * i) as u32
    }

    pub fn calc_pc_address(&self) -> (r: u32)
        ensures
            r == pc_disp(),
    {
        256
    }

    pub fn calc_guestcode_address(&self) -> (r: u64)
        ensures
            r == self.guest_mem_base,
    {
        self.guest_mem_base
    }

    pub fn calc_epilogue_address(&self) -> (r: i64)
        ensures
            r == self.epilogue_offset,
    {
        self.epilogue_offset
    }
}

} // verus!

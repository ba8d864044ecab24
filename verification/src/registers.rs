use vstd::prelude::*;

use crate::errors::ChipError;

verus! {

/// Number of general-purpose registers.
pub const NUM_GP_REGS: usize = 16;

/// Capacity of the call stack.
pub const STACK_SIZE: usize = 16;

/// Index of the register that arithmetic opcodes use as the carry/borrow
/// flag.
pub const FLAG_REG: usize = 15;

/// The register file: sixteen 8-bit general-purpose registers, the 16-bit
/// index register, two 8-bit timers, the 16-bit program counter, and a
/// bounded call stack with its pointer.
pub struct ChipRegisters {
    /// General-purpose registers, indexed 0 to 15.
    pub gp_reg: Vec<u8>,
    /// The call stack; only the first `sp_reg` entries are live.
    pub stack: Vec<u16>,
    /// The index register, a memory address used by indirect opcodes.
    pub i_reg: u16,
    /// The delay timer.
    pub d_reg: u8,
    /// The sound timer.
    pub s_reg: u8,
    /// The program counter.
    pub pc_reg: u16,
    /// The stack pointer: number of live stack entries.
    pub sp_reg: usize,
}

/// The mathematical model of the register file.
pub ghost struct RegistersView {
    pub gp: Seq<u8>,
    pub stack: Seq<u16>,
    pub i_reg: u16,
    pub d_reg: u8,
    pub s_reg: u8,
    pub pc: u16,
    pub sp: int,
}

impl RegistersView {
    pub open spec fn wf(&self) -> bool {
        &&& self.gp.len() == NUM_GP_REGS
        &&& self.stack.len() == STACK_SIZE
        &&& 0 <= self.sp <= STACK_SIZE
    }
}

impl View for ChipRegisters {
    type V = RegistersView;

    open spec fn view(&self) -> RegistersView {
        RegistersView {
            gp: self.gp_reg@,
            stack: self.stack@,
            i_reg: self.i_reg,
            d_reg: self.d_reg,
            s_reg: self.s_reg,
            pc: self.pc_reg,
            sp: self.sp_reg as int,
        }
    }
}

/// What a push does: with room on the stack the address goes to slot `sp`
/// and the pointer rises by one; on a full stack nothing changes and
/// `StackOverflow` comes back.
pub open spec fn push_result(r: RegistersView, addr: u16) -> Result<RegistersView, ChipError> {
    if r.sp < STACK_SIZE {
        Ok(RegistersView { stack: r.stack.update(r.sp, addr), sp: r.sp + 1, ..r })
    } else {
        Err(ChipError::StackOverflow)
    }
}

/// What a pop does: with a non-empty stack the pointer falls by one and the
/// address in the freed slot comes back; on an empty stack nothing changes
/// and `StackUnderflow` comes back.
pub open spec fn pop_result(r: RegistersView) -> Result<(RegistersView, u16), ChipError> {
    if r.sp > 0 {
        Ok((RegistersView { sp: r.sp - 1, ..r }, r.stack[r.sp - 1]))
    } else {
        Err(ChipError::StackUnderflow)
    }
}

impl ChipRegisters {
    pub open spec fn wf(&self) -> bool {
        self@.wf()
    }

    /// A fresh register file: every register, timer, counter and stack slot
    /// zero.
    pub fn init() -> (r: ChipRegisters)
        ensures
            r.wf(),
            forall|i: int| 0 <= i < NUM_GP_REGS ==> r@.gp[i] == 0u8,
            forall|i: int| 0 <= i < STACK_SIZE ==> r@.stack[i] == 0u16,
            r@.i_reg == 0,
            r@.d_reg == 0,
            r@.s_reg == 0,
            r@.pc == 0,
            r@.sp == 0,
    {
        let mut gp_reg: Vec<u8> = Vec::new();
        while gp_reg.len() < NUM_GP_REGS
            invariant
                gp_reg@.len() <= NUM_GP_REGS,
                forall|i: int| 0 <= i < gp_reg@.len() ==> gp_reg@[i] == 0u8,
            decreases NUM_GP_REGS - gp_reg@.len(),
        {
            gp_reg.push(0);
        }
        let mut stack: Vec<u16> = Vec::new();
        while stack.len() < STACK_SIZE
            invariant
                stack@.len() <= STACK_SIZE,
                forall|i: int| 0 <= i < stack@.len() ==> stack@[i] == 0u16,
            decreases STACK_SIZE - stack@.len(),
        {
            stack.push(0);
        }
        ChipRegisters { gp_reg, stack, i_reg: 0, d_reg: 0, s_reg: 0, pc_reg: 0, sp_reg: 0 }
    }

    /// Write a general-purpose register; an index past 15 is refused with
    /// `OutOfBounds` and nothing changes.
    pub fn set_gp(&mut self, index: usize, value: u8) -> (result: Result<(), ChipError>)
        requires
            old(self).wf(),
        ensures
            final(self).wf(),
            index < NUM_GP_REGS ==> result is Ok
                && final(self)@ == (RegistersView { gp: old(self)@.gp.update(index as int, value), ..old(self)@ }),
            index >= NUM_GP_REGS ==> result == Err::<(), ChipError>(ChipError::OutOfBounds)
                && final(self)@ == old(self)@,
    {
        if index < NUM_GP_REGS {
            self.gp_reg.set(index, value);
            Ok(())
        } else {
            Err(ChipError::OutOfBounds)
        }
    }

    /// Read a general-purpose register; an index past 15 is refused with
    /// `OutOfBounds`.
    pub fn get_gp(&self, index: usize) -> (result: Result<u8, ChipError>)
        requires
            self.wf(),
        ensures
            index < NUM_GP_REGS ==> result == Ok::<u8, ChipError>(self@.gp[index as int]),
            index >= NUM_GP_REGS ==> result == Err::<u8, ChipError>(ChipError::OutOfBounds),
    {
        if index < NUM_GP_REGS {
            Ok(self.gp_reg[index])
        } else {
            Err(ChipError::OutOfBounds)
        }
    }

    /// Add a value into a general-purpose register, wrapping modulo 256 and
    /// raising no carry flag; an index past 15 is refused with `OutOfBounds`
    /// and nothing changes.
    pub fn add_gp(&mut self, index: usize, value: u8) -> (result: Result<(), ChipError>)
        requires
            old(self).wf(),
        ensures
            final(self).wf(),
            index < NUM_GP_REGS ==> result is Ok
                && final(self)@ == (RegistersView {
                    gp: old(self)@.gp.update(
                        index as int,
                        ((old(self)@.gp[index as int] + value) % 256) as u8,
                    ),
                    ..old(self)@
                }),
            index >= NUM_GP_REGS ==> result == Err::<(), ChipError>(ChipError::OutOfBounds)
                && final(self)@ == old(self)@,
    {
        if index < NUM_GP_REGS {
            let sum: u16 = self.gp_reg[index] as u16 + value as u16;
            self.gp_reg.set(index, (sum % 256) as u8);
            Ok(())
        } else {
            Err(ChipError::OutOfBounds)
        }
    }

    /// Set the index register.
    pub fn set_i(&mut self, value: u16)
        requires
            old(self).wf(),
        ensures
            final(self).wf(),
            final(self)@ == (RegistersView { i_reg: value, ..old(self)@ }),
    {
        self.i_reg = value;
    }

    /// Read the index register.
    pub fn get_i(&self) -> (value: u16)
        ensures
            value == self@.i_reg,
    {
        self.i_reg
    }

    /// Set the program counter.
    pub fn set_pc(&mut self, value: u16)
        requires
            old(self).wf(),
        ensures
            final(self).wf(),
            final(self)@ == (RegistersView { pc: value, ..old(self)@ }),
    {
        self.pc_reg = value;
    }

    /// Advance the program counter by exactly 2, the size of one
    /// instruction, wrapping at the top of the 16-bit range.
    pub fn incr_pc(&mut self)
        requires
            old(self).wf(),
        ensures
            final(self).wf(),
            final(self)@ == (RegistersView {
                pc: ((old(self)@.pc + 2) % 0x10000) as u16,
                ..old(self)@
            }),
    {
        let next: u32 = self.pc_reg as u32 + 2;
        self.pc_reg = (next % 0x10000) as u16;
    }

    /// Read the program counter.
    pub fn get_pc(&self) -> (value: u16)
        ensures
            value == self@.pc,
    {
        self.pc_reg
    }

    /// Read the delay timer.
    pub fn get_d(&self) -> (value: u8)
        ensures
            value == self@.d_reg,
    {
        self.d_reg
    }

    /// Set the delay timer.
    pub fn set_d(&mut self, value: u8)
        requires
            old(self).wf(),
        ensures
            final(self).wf(),
            final(self)@ == (RegistersView { d_reg: value, ..old(self)@ }),
    {
        self.d_reg = value;
    }

    /// Read the sound timer.
    pub fn get_s(&self) -> (value: u8)
        ensures
            value == self@.s_reg,
    {
        self.s_reg
    }

    /// Set the sound timer.
    pub fn set_s(&mut self, value: u8)
        requires
            old(self).wf(),
        ensures
            final(self).wf(),
            final(self)@ == (RegistersView { s_reg: value, ..old(self)@ }),
    {
        self.s_reg = value;
    }

    /// Count the delay timer down by one, stopping at zero.
    pub fn decr_d(&mut self)
        requires
            old(self).wf(),
        ensures
            final(self).wf(),
            final(self)@ == (RegistersView {
                d_reg: (if old(self)@.d_reg > 0 {
                    (old(self)@.d_reg - 1) as u8
                } else {
                    0u8
                }),
                ..old(self)@
            }),
    {
        if self.d_reg > 0 {
            self.d_reg = self.d_reg - 1;
        }
    }

    /// Count the sound timer down by one, stopping at zero.
    pub fn decr_s(&mut self)
        requires
            old(self).wf(),
        ensures
            final(self).wf(),
            final(self)@ == (RegistersView {
                s_reg: (if old(self)@.s_reg > 0 {
                    (old(self)@.s_reg - 1) as u8
                } else {
                    0u8
                }),
                ..old(self)@
            }),
    {
        if self.s_reg > 0 {
            self.s_reg = self.s_reg - 1;
        }
    }

    /// Push a return address onto the call stack; a full stack is refused
    /// with `StackOverflow` and nothing changes.
    pub fn push_stack(&mut self, addr: u16) -> (result: Result<(), ChipError>)
        requires
            old(self).wf(),
        ensures
            final(self).wf(),
            (match push_result(old(self)@, addr) {
                Ok(r) => result is Ok && final(self)@ == r,
                Err(e) => result == Err::<(), ChipError>(e) && final(self)@ == old(self)@,
            }),
    {
        if self.sp_reg < STACK_SIZE {
            self.stack.set(self.sp_reg, addr);
            self.sp_reg = self.sp_reg + 1;
            Ok(())
        } else {
            Err(ChipError::StackOverflow)
        }
    }

    /// Pop the most recently pushed address from the call stack; an empty
    /// stack is refused with `StackUnderflow` and nothing changes.
    pub fn pop_stack(&mut self) -> (result: Result<u16, ChipError>)
        requires
            old(self).wf(),
        ensures
            final(self).wf(),
            (match pop_result(old(self)@) {
                Ok(ra) => result == Ok::<u16, ChipError>(ra.1) && final(self)@ == ra.0,
                Err(e) => result == Err::<u16, ChipError>(e) && final(self)@ == old(self)@,
            }),
    {
        if self.sp_reg > 0 {
            self.sp_reg = self.sp_reg - 1;
            Ok(self.stack[self.sp_reg])
        } else {
            Err(ChipError::StackUnderflow)
        }
    }
}

} // verus!

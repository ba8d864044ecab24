use vstd::prelude::*;

use rand::Rng;

use crate::display::{all_pixels_off, ChipDisplay, DISPLAY_SIZE};
use crate::errors::ChipError;
use crate::memory::{ChipMemory, RAM_SIZE};
use crate::opcode::{
    lemma_opcode_fields, op_addr, op_byte, op_header, op_n, op_x, op_y, Opcode,
};
use crate::registers::{
    pop_result, push_result, ChipRegisters, RegistersView, NUM_GP_REGS, STACK_SIZE,
};

verus! {

/// The mathematical model of the whole machine: memory, register file and
/// display together.
#[verifier::ext_equal]
pub ghost struct SystemView {
    pub ram: Seq<u8>,
    pub regs: RegistersView,
    pub display: Seq<bool>,
}

impl SystemView {
    pub open spec fn wf(&self) -> bool {
        &&& self.ram.len() == RAM_SIZE
        &&& self.regs.wf()
        &&& self.display.len() == DISPLAY_SIZE
    }
}

/// A value reduced to eight bits.
pub open spec fn wrap8(v: int) -> u8 {
    (v % 256) as u8
}

/// A value reduced to sixteen bits.
pub open spec fn wrap16(v: int) -> u16 {
    (v % 0x10000) as u16
}

/// The machine with its general-purpose registers replaced.
pub open spec fn with_gp(pre: SystemView, gp: Seq<u8>) -> SystemView {
    SystemView { regs: RegistersView { gp, ..pre.regs }, ..pre }
}

/// The machine with its program counter replaced.
pub open spec fn with_pc(pre: SystemView, pc: u16) -> SystemView {
    SystemView { regs: RegistersView { pc, ..pre.regs }, ..pre }
}

/// A conditional skip: the program counter moves 2 extra when the condition
/// holds, and not at all otherwise.
pub open spec fn skip_step(pre: SystemView, cond: bool) -> SystemView {
    if cond {
        with_pc(pre, wrap16(pre.regs.pc + 2))
    } else {
        pre
    }
}

/// The register-to-register operations, header 0x8, selected by the low
/// nibble. The flag register is written first and the destination second, so
/// when the destination is the flag register itself the result wins.
pub open spec fn step_alu(pre: SystemView, x: int, y: int, n: u16) -> Result<
    SystemView,
    ChipError,
> {
    let vx = pre.regs.gp[x];
    let vy = pre.regs.gp[y];
    if n == 0x0 {
        Ok(with_gp(pre, pre.regs.gp.update(x, vy)))
    } else if n == 0x1 {
        Ok(with_gp(pre, pre.regs.gp.update(x, vx | vy)))
    } else if n == 0x2 {
        Ok(with_gp(pre, pre.regs.gp.update(x, vx & vy)))
    } else if n == 0x3 {
        Ok(with_gp(pre, pre.regs.gp.update(x, vx ^ vy)))
    } else if n == 0x4 {
        // Widened add: carry flag 1 exactly when the sum tops 255.
        let flag: u8 = if vx + vy > 255 {
            1u8
        } else {
            0u8
        };
        Ok(with_gp(pre, pre.regs.gp.update(15, flag).update(x, wrap8(vx + vy))))
    } else if n == 0x5 {
        // Subtract with borrow flag: 0 on borrow, else 1; the difference
        // wraps modulo 256.
        let flag: u8 = if vx < vy {
            0u8
        } else {
            1u8
        };
        Ok(with_gp(pre, pre.regs.gp.update(15, flag).update(x, wrap8(vx - vy))))
    } else if n == 0x6 {
        // Shift right: the flag takes the shifted-out low bit.
        Ok(with_gp(pre, pre.regs.gp.update(15, (vx % 2) as u8).update(x, (vx / 2) as u8)))
    } else if n == 0x7 {
        // Reverse subtract, same flag and wrap rule as 0x5.
        let flag: u8 = if vy < vx {
            0u8
        } else {
            1u8
        };
        Ok(with_gp(pre, pre.regs.gp.update(15, flag).update(x, wrap8(vy - vx))))
    } else if n == 0xE {
        // Shift left: the flag takes the raw masked high bit (0 or 0x80,
        // deliberately not normalized to 0/1).
        Ok(with_gp(pre, pre.regs.gp.update(15, vx & 0x80).update(x, wrap8(vx * 2))))
    } else {
        Err(ChipError::InvalidInstruction)
    }
}

/// Binary-coded decimal: the hundreds, tens and ones digits of register `x`
/// go to the three memory cells at the index register; refused when the last
/// of them would fall outside memory.
pub open spec fn step_bcd(pre: SystemView, x: int) -> Result<SystemView, ChipError> {
    let i = pre.regs.i_reg as int;
    let v = pre.regs.gp[x];
    if i + 2 < RAM_SIZE {
        Ok(
            SystemView {
                ram: pre.ram.update(i, ((v / 100) % 10) as u8).update(
                    i + 1,
                    ((v / 10) % 10) as u8,
                ).update(i + 2, (v % 10) as u8),
                ..pre
            },
        )
    } else {
        Err(ChipError::OutOfBounds)
    }
}

/// Store registers 0 through `x` inclusive into memory at the index
/// register, which then advances by `x + 1`; refused when the last write
/// would fall outside memory, and memory is then untouched.
pub open spec fn step_store_regs(pre: SystemView, x: int) -> Result<SystemView, ChipError> {
    let i = pre.regs.i_reg as int;
    if i + x < RAM_SIZE {
        Ok(
            SystemView {
                ram: Seq::new(
                    RAM_SIZE as nat,
                    |k: int|
                        if i <= k <= i + x {
                            pre.regs.gp[k - i]
                        } else {
                            pre.ram[k]
                        },
                ),
                regs: RegistersView { i_reg: (i + x + 1) as u16, ..pre.regs },
                ..pre
            },
        )
    } else {
        Err(ChipError::OutOfBounds)
    }
}

/// Load registers from memory. This machine's quirk, kept exactly: the
/// source bytes are the absolute addresses 0 through `x` exclusive, the
/// targets are the registers numbered upward from the index register's
/// value, and the index register does not advance afterward — only loosely
/// the mirror of the store operation. Refused when a target register index
/// would pass 15, and the registers are then untouched.
pub open spec fn step_load_regs(pre: SystemView, x: int) -> Result<SystemView, ChipError> {
    let i = pre.regs.i_reg as int;
    if x == 0 {
        Ok(pre)
    } else if i + x <= NUM_GP_REGS {
        Ok(
            with_gp(
                pre,
                Seq::new(
                    NUM_GP_REGS as nat,
                    |k: int|
                        if i <= k < i + x {
                            pre.ram[k - i]
                        } else {
                            pre.regs.gp[k]
                        },
                ),
            ),
        )
    } else {
        Err(ChipError::OutOfBounds)
    }
}

/// The miscellaneous operations, header 0xF, selected by the low byte.
pub open spec fn step_misc(pre: SystemView, x: int, kk: u8) -> Result<SystemView, ChipError> {
    if kk == 0x07 {
        Ok(with_gp(pre, pre.regs.gp.update(x, pre.regs.d_reg)))
    } else if kk == 0x0A {
        // Wait-for-key is not implemented: the machine accepts the word and
        // leaves every part of its state alone.
        Ok(pre)
    } else if kk == 0x15 {
        Ok(SystemView { regs: RegistersView { d_reg: pre.regs.gp[x], ..pre.regs }, ..pre })
    } else if kk == 0x18 {
        Ok(SystemView { regs: RegistersView { s_reg: pre.regs.gp[x], ..pre.regs }, ..pre })
    } else if kk == 0x1E {
        Ok(
            SystemView {
                regs: RegistersView {
                    i_reg: wrap16(pre.regs.i_reg + pre.regs.gp[x]),
                    ..pre.regs
                },
                ..pre
            },
        )
    } else if kk == 0x29 {
        // Font-glyph lookup is not implemented: accepted, state unchanged.
        Ok(pre)
    } else if kk == 0x33 {
        step_bcd(pre, x)
    } else if kk == 0x55 {
        step_store_regs(pre, x)
    } else if kk == 0x65 {
        step_load_regs(pre, x)
    } else {
        Err(ChipError::InvalidInstruction)
    }
}

/// One step of the machine: what executing `word` does to the state, given
/// the byte `rnd` that the randomness source hands the one opcode that asks
/// for it. Every error leaves the state exactly as it was.
pub open spec fn step_spec(pre: SystemView, word: u16, rnd: u8) -> Result<SystemView, ChipError> {
    let h = op_header(word);
    let x = op_x(word) as int;
    let y = op_y(word) as int;
    let n = op_n(word);
    let kk = op_byte(word);
    let nnn = op_addr(word);
    if h == 0x0 {
        if n == 0x0 {
            // Clear the display.
            Ok(SystemView { display: all_pixels_off(), ..pre })
        } else if n == 0xE {
            // Return: pop an address and jump to it.
            match pop_result(pre.regs) {
                Ok(ra) => Ok(SystemView { regs: RegistersView { pc: ra.1, ..ra.0 }, ..pre }),
                Err(e) => Err(e),
            }
        } else {
            Err(ChipError::InvalidInstruction)
        }
    } else if h == 0x1 {
        // Jump.
        Ok(with_pc(pre, nnn))
    } else if h == 0x2 {
        // Call: the target is pushed; the program counter deliberately does
        // not move.
        match push_result(pre.regs, nnn) {
            Ok(r) => Ok(SystemView { regs: r, ..pre }),
            Err(e) => Err(e),
        }
    } else if h == 0x3 {
        Ok(skip_step(pre, pre.regs.gp[x] == kk))
    } else if h == 0x4 {
        Ok(skip_step(pre, pre.regs.gp[x] != kk))
    } else if h == 0x5 {
        Ok(skip_step(pre, pre.regs.gp[x] == pre.regs.gp[y]))
    } else if h == 0x6 {
        // Load immediate.
        Ok(with_gp(pre, pre.regs.gp.update(x, kk)))
    } else if h == 0x7 {
        // Add immediate, no carry flag, wrapping modulo 256.
        Ok(with_gp(pre, pre.regs.gp.update(x, wrap8(pre.regs.gp[x] + kk))))
    } else if h == 0x8 {
        step_alu(pre, x, y, n)
    } else if h == 0x9 {
        Ok(skip_step(pre, pre.regs.gp[x] != pre.regs.gp[y]))
    } else if h == 0xA {
        // Load the address immediate into the index register.
        Ok(SystemView { regs: RegistersView { i_reg: nnn, ..pre.regs }, ..pre })
    } else if h == 0xB {
        // Jump to the address immediate plus register 0.
        Ok(with_pc(pre, (nnn + pre.regs.gp[0]) as u16))
    } else if h == 0xC {
        // Random byte masked by the immediate.
        Ok(with_gp(pre, pre.regs.gp.update(x, kk & rnd)))
    } else if h == 0xD {
        // Sprite draw is not implemented: accepted, state unchanged.
        Ok(pre)
    } else if h == 0xE {
        if kk == 0x9E || kk == 0xA1 {
            // Key-state skips are not implemented: accepted, state
            // unchanged.
            Ok(pre)
        } else {
            Err(ChipError::InvalidInstruction)
        }
    } else if h == 0xF {
        step_misc(pre, x, kk)
    } else {
        Err(ChipError::InvalidInstruction)
    }
}

/// How one execution relates an old state, a new state and a result: on
/// success the new state is the stepped one, on failure the error is the
/// stepped one's and the state did not move.
pub open spec fn post_matches(
    pre: SystemView,
    word: u16,
    rnd: u8,
    post: SystemView,
    r: Result<(), ChipError>,
) -> bool {
    match step_spec(pre, word, rnd) {
        Ok(v) => r is Ok && post == v,
        Err(e) => r == Err::<(), ChipError>(e) && post == pre,
    }
}

/// The whole machine: register file, display and memory under one owner.
pub struct ChipSystem {
    pub registers: ChipRegisters,
    pub display: ChipDisplay,
    pub ram: ChipMemory,
}

impl View for ChipSystem {
    type V = SystemView;

    open spec fn view(&self) -> SystemView {
        SystemView { ram: self.ram@, regs: self.registers@, display: self.display@ }
    }
}

impl ChipSystem {
    pub open spec fn wf(&self) -> bool {
        &&& self.ram.wf()
        &&& self.registers.wf()
        &&& self.display.wf()
    }

    /// Assemble a machine from its three parts.
    pub fn new(reg: ChipRegisters, disp: ChipDisplay, ram: ChipMemory) -> (sys: ChipSystem)
        ensures
            sys.registers == reg,
            sys.display == disp,
            sys.ram == ram,
    {
        ChipSystem { registers: reg, display: disp, ram }
    }

    /// Relies on `rand::thread_rng` and `rand::Rng::gen` for one byte from
    /// the thread-local generator. Nothing is assumed about its value.
    #[verifier::external_body]
    fn random_byte() -> u8 {
        let mut rng = rand::thread_rng();
        let rand_byte: u8 = rng.gen();
        rand_byte
    }

    /// Copy registers 0 through `x` inclusive into memory at the index
    /// register onward, then advance the index register past them.
    fn store_registers(&mut self, x: u16)
        requires
            old(self).wf(),
            x < NUM_GP_REGS,
            old(self)@.regs.i_reg + x < RAM_SIZE,
        ensures
            final(self).wf(),
            final(self)@ == step_store_regs(old(self)@, x as int)->Ok_0,
    {
        let i_val = self.registers.i_reg;
        let mut loc: u16 = 0;
        while loc <= x
            invariant
                old(self).wf(),
                self.wf(),
                self.registers == old(self).registers,
                self.display == old(self).display,
                self.ram.start == old(self).ram.start,
                loc <= x + 1,
                x < NUM_GP_REGS,
                i_val + x < RAM_SIZE,
                forall|k: int|
                    0 <= k < RAM_SIZE ==> (#[trigger] self@.ram[k]) == (if i_val <= k < i_val
                        + loc {
                        old(self)@.regs.gp[k - i_val]
                    } else {
                        old(self)@.ram[k]
                    }),
            decreases x + 1 - loc,
        {
            let ghost prev = self@.ram;
            let v: u8 = self.registers.gp_reg[loc as usize];
            self.ram.ram.set(i_val as usize + loc as usize, v);
            proof {
                assert(v == old(self)@.regs.gp[loc as int]);
                assert(self@.ram == prev.update(i_val + loc, v));
            }
            loc = loc + 1;
        }
        proof {
            let target = step_store_regs(old(self)@, x as int)->Ok_0;
            assert forall|k: int| 0 <= k < RAM_SIZE implies self@.ram[k] == target.ram[k] by {
                assert(self@.ram[k] == (if i_val <= k <= i_val + x {
                    old(self)@.regs.gp[k - i_val]
                } else {
                    old(self)@.ram[k]
                }));
                assert(target.ram[k] == (if i_val <= k <= i_val + x {
                    old(self)@.regs.gp[k - i_val]
                } else {
                    old(self)@.ram[k]
                }));
            }
            assert(self@.ram =~= target.ram);
        }
        self.registers.i_reg = i_val + x + 1;
        proof {
            assert(self@ =~= step_store_regs(old(self)@, x as int)->Ok_0);
        }
    }

    /// Fill the registers numbered upward from the index register's value
    /// with the bytes at absolute addresses 0 through `x` exclusive.
    fn load_registers(&mut self, x: u16)
        requires
            old(self).wf(),
            0 < x < NUM_GP_REGS,
            old(self)@.regs.i_reg + x <= NUM_GP_REGS,
        ensures
            final(self).wf(),
            final(self)@ == step_load_regs(old(self)@, x as int)->Ok_0,
    {
        let i_val = self.registers.i_reg;
        let mut loc: u16 = 0;
        while loc < x
            invariant
                old(self).wf(),
                self.wf(),
                self.ram == old(self).ram,
                self.display == old(self).display,
                self.registers == (ChipRegisters {
                    gp_reg: self.registers.gp_reg,
                    ..old(self).registers
                }),
                loc <= x,
                0 < x < NUM_GP_REGS,
                i_val + x <= NUM_GP_REGS,
                forall|k: int|
                    0 <= k < NUM_GP_REGS ==> (#[trigger] self@.regs.gp[k]) == (if i_val <= k
                        < i_val + loc {
                        old(self)@.ram[k - i_val]
                    } else {
                        old(self)@.regs.gp[k]
                    }),
            decreases x - loc,
        {
            let ghost prev = self@.regs.gp;
            let v: u8 = self.ram.ram[loc as usize];
            self.registers.gp_reg.set(i_val as usize + loc as usize, v);
            proof {
                assert(v == old(self)@.ram[loc as int]);
                assert(self@.regs.gp == prev.update(i_val + loc, v));
            }
            loc = loc + 1;
        }
        proof {
            let target = step_load_regs(old(self)@, x as int)->Ok_0;
            assert forall|k: int| 0 <= k < NUM_GP_REGS implies self@.regs.gp[k]
                == target.regs.gp[k] by {
                assert(target.regs.gp[k] == (if i_val <= k < i_val + x {
                    old(self)@.ram[k - i_val]
                } else {
                    old(self)@.regs.gp[k]
                }));
            }
            assert(self@.regs.gp =~= target.regs.gp);
            assert(self@ =~= target);
        }
    }

    /// Execute one instruction word, with the byte `rnd` standing in for
    /// the randomness source. The outcome is exactly `step_spec`: the one
    /// deterministic step of the machine.
    pub fn ex_opcode_with_random(&mut self, opcode: u16, rnd: u8) -> (result: Result<
        (),
        ChipError,
    >)
        requires
            old(self).wf(),
        ensures
            final(self).wf(),
            post_matches(old(self)@, opcode, rnd, final(self)@, result),
    {
        proof {
            lemma_opcode_fields(opcode);
        }
        let comps = Opcode::new(opcode);
        let kk: u8 = (comps.v2 * 16 + comps.v3) as u8;
        let nnn: u16 = comps.v1 * 256 + comps.v2 * 16 + comps.v3;
        if comps.h1 == 0x0 {
            if comps.v3 == 0x0 {
                self.display.clear_display();
                Ok(())
            } else if comps.v3 == 0xE {
                match self.registers.pop_stack() {
                    Ok(pc) => {
                        self.registers.set_pc(pc);
                        Ok(())
                    },
                    Err(e) => Err(e),
                }
            } else {
                Err(ChipError::InvalidInstruction)
            }
        } else if comps.h1 == 0x1 {
            self.registers.set_pc(nnn);
            Ok(())
        } else if comps.h1 == 0x2 {
            match self.registers.push_stack(nnn) {
                Ok(_) => Ok(()),
                Err(e) => Err(e),
            }
        } else if comps.h1 == 0x3 {
            let vx = self.registers.gp_reg[comps.v1 as usize];
            if vx == kk {
                self.registers.incr_pc();
            }
            Ok(())
        } else if comps.h1 == 0x4 {
            let vx = self.registers.gp_reg[comps.v1 as usize];
            if vx != kk {
                self.registers.incr_pc();
            }
            Ok(())
        } else if comps.h1 == 0x5 {
            let vx = self.registers.gp_reg[comps.v1 as usize];
            let vy = self.registers.gp_reg[comps.v2 as usize];
            if vx == vy {
                self.registers.incr_pc();
            }
            Ok(())
        } else if comps.h1 == 0x6 {
            self.registers.gp_reg.set(comps.v1 as usize, kk);
            Ok(())
        } else if comps.h1 == 0x7 {
            let vx = self.registers.gp_reg[comps.v1 as usize];
            let sum: u16 = vx as u16 + kk as u16;
            self.registers.gp_reg.set(comps.v1 as usize, (sum % 256) as u8);
            Ok(())
        } else if comps.h1 == 0x8 {
            self.ex_alu(comps.v1, comps.v2, comps.v3)
        } else if comps.h1 == 0x9 {
            let vx = self.registers.gp_reg[comps.v1 as usize];
            let vy = self.registers.gp_reg[comps.v2 as usize];
            if vx != vy {
                self.registers.incr_pc();
            }
            Ok(())
        } else if comps.h1 == 0xA {
            self.registers.set_i(nnn);
            Ok(())
        } else if comps.h1 == 0xB {
            let v0 = self.registers.gp_reg[0];
            self.registers.set_pc(nnn + v0 as u16);
            Ok(())
        } else if comps.h1 == 0xC {
            self.registers.gp_reg.set(comps.v1 as usize, kk & rnd);
            Ok(())
        } else if comps.h1 == 0xD {
            Ok(())
        } else if comps.h1 == 0xE {
            if kk == 0x9E || kk == 0xA1 {
                Ok(())
            } else {
                Err(ChipError::InvalidInstruction)
            }
        } else {
            self.ex_misc(comps.v1, kk)
        }
    }

    /// The register-to-register operations of header 0x8.
    #[verifier::rlimit(60)]
    fn ex_alu(&mut self, x: u16, y: u16, n: u16) -> (result: Result<(), ChipError>)
        requires
            old(self).wf(),
            x < NUM_GP_REGS,
            y < NUM_GP_REGS,
        ensures
            final(self).wf(),
            (match step_alu(old(self)@, x as int, y as int, n) {
                Ok(v) => result is Ok && final(self)@ == v,
                Err(e) => result == Err::<(), ChipError>(e) && final(self)@ == old(self)@,
            }),
    {
        let xi = x as usize;
        let yi = y as usize;
        let vx = self.registers.gp_reg[xi];
        let vy = self.registers.gp_reg[yi];
        if n == 0x0 {
            self.registers.gp_reg.set(xi, vy);
            Ok(())
        } else if n == 0x1 {
            self.registers.gp_reg.set(xi, vx | vy);
            Ok(())
        } else if n == 0x2 {
            self.registers.gp_reg.set(xi, vx & vy);
            Ok(())
        } else if n == 0x3 {
            self.registers.gp_reg.set(xi, vx ^ vy);
            Ok(())
        } else if n == 0x4 {
            let holder: u16 = vx as u16 + vy as u16;
            let flag: u8 = if holder > 255 {
                1
            } else {
                0
            };
            self.registers.gp_reg.set(15, flag);
            self.registers.gp_reg.set(xi, (holder % 256) as u8);
            Ok(())
        } else if n == 0x5 {
            let flag: u8 = if vx < vy {
                0
            } else {
                1
            };
            self.registers.gp_reg.set(15, flag);
            let holder: u16 = (vx as u16 + 256 - vy as u16) % 256;
            self.registers.gp_reg.set(xi, holder as u8);
            Ok(())
        } else if n == 0x6 {
            self.registers.gp_reg.set(15, vx % 2);
            self.registers.gp_reg.set(xi, vx / 2);
            Ok(())
        } else if n == 0x7 {
            let flag: u8 = if vy < vx {
                0
            } else {
                1
            };
            self.registers.gp_reg.set(15, flag);
            let holder: u16 = (vy as u16 + 256 - vx as u16) % 256;
            self.registers.gp_reg.set(xi, holder as u8);
            Ok(())
        } else if n == 0xE {
            self.registers.gp_reg.set(15, vx & 0x80);
            let doubled: u16 = (vx as u16 * 2) % 256;
            self.registers.gp_reg.set(xi, doubled as u8);
            Ok(())
        } else {
            Err(ChipError::InvalidInstruction)
        }
    }

    /// The miscellaneous operations of header 0xF.
    fn ex_misc(&mut self, x: u16, kk: u8) -> (result: Result<(), ChipError>)
        requires
            old(self).wf(),
            x < NUM_GP_REGS,
        ensures
            final(self).wf(),
            (match step_misc(old(self)@, x as int, kk) {
                Ok(v) => result is Ok && final(self)@ == v,
                Err(e) => result == Err::<(), ChipError>(e) && final(self)@ == old(self)@,
            }),
    {
        let xi = x as usize;
        if kk == 0x07 {
            let d = self.registers.get_d();
            self.registers.gp_reg.set(xi, d);
            Ok(())
        } else if kk == 0x0A {
            Ok(())
        } else if kk == 0x15 {
            let vx = self.registers.gp_reg[xi];
            self.registers.set_d(vx);
            Ok(())
        } else if kk == 0x18 {
            let vx = self.registers.gp_reg[xi];
            self.registers.set_s(vx);
            Ok(())
        } else if kk == 0x1E {
            let vx = self.registers.gp_reg[xi];
            let next: u32 = (self.registers.i_reg as u32 + vx as u32) % 0x10000;
            self.registers.set_i(next as u16);
            Ok(())
        } else if kk == 0x29 {
            Ok(())
        } else if kk == 0x33 {
            let vx = self.registers.gp_reg[xi];
            let i_val = self.registers.i_reg;
            if (i_val as usize) + 2 < RAM_SIZE {
                self.ram.ram.set(i_val as usize, (vx / 100) % 10);
                self.ram.ram.set(i_val as usize + 1, (vx / 10) % 10);
                self.ram.ram.set(i_val as usize + 2, vx % 10);
                Ok(())
            } else {
                Err(ChipError::OutOfBounds)
            }
        } else if kk == 0x55 {
            let i_val = self.registers.i_reg;
            if (i_val as usize) + (x as usize) < RAM_SIZE {
                self.store_registers(x);
                Ok(())
            } else {
                Err(ChipError::OutOfBounds)
            }
        } else if kk == 0x65 {
            let i_val = self.registers.i_reg;
            if x == 0 {
                Ok(())
            } else if (i_val as usize) + (x as usize) <= NUM_GP_REGS {
                self.load_registers(x);
                Ok(())
            } else {
                Err(ChipError::OutOfBounds)
            }
        } else {
            Err(ChipError::InvalidInstruction)
        }
    }

    /// Execute one instruction word, drawing from the machine's randomness
    /// source where the word asks for it. Some byte accounts for the
    /// outcome, and for every header but 0xC the byte plays no part at all.
    pub fn ex_opcode(&mut self, opcode: u16) -> (result: Result<(), ChipError>)
        requires
            old(self).wf(),
        ensures
            final(self).wf(),
            exists|b: u8| post_matches(old(self)@, opcode, b, final(self)@, result),
            op_header(opcode) != 0xC ==> post_matches(old(self)@, opcode, 0u8, final(self)@, result),
    {
        let rnd: u8 = if opcode / 4096 == 0xC {
            Self::random_byte()
        } else {
            0
        };
        let result = self.ex_opcode_with_random(opcode, rnd);
        proof {
            assert(post_matches(old(self)@, opcode, rnd, self@, result));
        }
        result
    }
}

/// A machine at power-on: memory, registers and display all zero.
pub fn init_chip8() -> (sys: ChipSystem)
    ensures
        sys.wf(),
        forall|i: int| 0 <= i < RAM_SIZE ==> sys@.ram[i] == 0u8,
        forall|i: int| 0 <= i < NUM_GP_REGS ==> sys@.regs.gp[i] == 0u8,
        forall|i: int| 0 <= i < STACK_SIZE ==> sys@.regs.stack[i] == 0u16,
        sys@.regs.i_reg == 0,
        sys@.regs.d_reg == 0,
        sys@.regs.s_reg == 0,
        sys@.regs.pc == 0,
        sys@.regs.sp == 0,
        sys@.display == all_pixels_off(),
{
    let ram = ChipMemory::init();
    let disp = ChipDisplay::init();
    let reg = ChipRegisters::init();
    ChipSystem::new(reg, disp, ram)
}

} // verus!

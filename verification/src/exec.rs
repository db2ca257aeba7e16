//! The interpreter: fetch, decode and execute, each proved against the
//! step relation in `step_spec`.
use vstd::prelude::*;
use crate::machine::chip8;
use crate::opcode::{OpCode, lemma_field_bounds, op_nnn};
use crate::state::{MachineView, StepError, FONTSET_START_ADDRESS, MEMORY_SIZE, STACK_DEPTH};
use crate::step_spec::{
    alu_rel, bcd_rel, cycle_rel, draw_collides, draw_rel, first_pressed_from, flag_val,
    key_wait_rel, lemma_current_cell_fresh, lemma_draw_collides_extend, lemma_row_collides_extend,
    lemma_row_hits_extend, lemma_sprite_hits_extend, load_regs_rel, misc_rel, row_collides,
    row_hits, skip_pc, sprite_bit, sprite_hits, step_rel, store_regs_rel, with_flag, with_reg,
    wrap_add16, wrap_add8, wrap_col, wrap_row, wrap_sub8,
};

verus! {

impl chip8 {
    /// Read the two instruction bytes at the program counter and advance
    /// it past them; a counter at the top of memory is a reported fault
    /// that changes nothing.
    fn fetch(&mut self) -> (r: Result<OpCode, StepError>)
        requires
            old(self).wf(),
        ensures
            final(self).wf(),
            if old(self)@.pc + 1 >= MEMORY_SIZE {
                final(self)@ == old(self)@ && r == Err::<OpCode, StepError>(
                    StepError::MemoryOutOfBounds,
                )
            } else {
                &&& final(self)@ == (MachineView { pc: (old(self)@.pc + 2) as u16, ..old(self)@ })
                &&& r is Ok
                &&& r->Ok_0.higher_byte == old(self)@.mem[old(self)@.pc as int]
                &&& r->Ok_0.lower_byte == old(self)@.mem[old(self)@.pc as int + 1]
            },
    {
        let pc = self.pc as usize;
        if pc + 1 >= MEMORY_SIZE as usize {
            return Err(StepError::MemoryOutOfBounds);
        }
        let higher_byte: u8 = self.memory[pc];
        let lower_byte: u8 = self.memory[pc + 1];
        self.pc = self.pc + 2;
        proof {
            assert(self@ =~= (MachineView { pc: (old(self)@.pc + 2) as u16, ..old(self)@ }));
        }
        Ok(OpCode { higher_byte, lower_byte })
    }

    /// Execute one fetched instruction: dispatch on the leading nibble
    /// and, for four families, a secondary selector from the low byte or
    /// low nibble. The whole effect is pinned by the step relation.
    fn decode_and_execute(&mut self, op_code: OpCode) -> (r: Result<(), StepError>)
        requires
            old(self).wf(),
            old(self)@.pc >= 2,
            old(self)@.pc + 2 <= u16::MAX,
        ensures
            final(self).wf(),
            step_rel(old(self)@, final(self)@, op_code.higher_byte, op_code.lower_byte, r),
    {
        let hi: u8 = op_code.higher_byte;
        let lo: u8 = op_code.lower_byte;
        proof {
            lemma_field_bounds(hi, lo);
        }
        let fam: u8 = op_code.family();
        let x: u8 = op_code.get_x();
        let y: u8 = op_code.get_y();
        match fam {
            0x0 => {
                if lo == 0xE0 {
                    self.clear_video();
                    Ok(())
                } else if lo == 0xEE {
                    if self.sp == 0 {
                        Err(StepError::StackUnderflow)
                    } else {
                        self.sp = self.sp - 1;
                        self.pc = self.stack[self.sp as usize];
                        proof {
                            assert(self@ =~= (MachineView {
                                sp: (old(self)@.sp - 1) as u8,
                                pc: old(self)@.stack[old(self)@.sp - 1],
                                ..old(self)@
                            }));
                        }
                        Ok(())
                    }
                } else {
                    Err(StepError::UnknownOpcode { higher_byte: hi, lower_byte: lo })
                }
            },
            0x1 => {
                self.pc = op_code.get_nnn();
                proof {
                    assert(self@ =~= (MachineView { pc: op_nnn(hi, lo), ..old(self)@ }));
                }
                Ok(())
            },
            0x2 => {
                if self.sp >= STACK_DEPTH as u8 {
                    Err(StepError::StackOverflow)
                } else {
                    self.stack.set(self.sp as usize, self.pc);
                    self.sp = self.sp + 1;
                    self.pc = op_code.get_nnn();
                    proof {
                        assert(self@ =~= (MachineView {
                            stack: old(self)@.stack.update(old(self)@.sp as int, old(self)@.pc),
                            sp: (old(self)@.sp + 1) as u8,
                            pc: op_nnn(hi, lo),
                            ..old(self)@
                        }));
                    }
                    Ok(())
                }
            },
            0x3 => {
                if self.registers[x as usize] == lo {
                    self.pc = self.pc + 2;
                }
                proof {
                    assert(self@ =~= (MachineView {
                        pc: skip_pc(old(self)@, old(self)@.regs[x as int] == lo),
                        ..old(self)@
                    }));
                }
                Ok(())
            },
            0x4 => {
                if self.registers[x as usize] != lo {
                    self.pc = self.pc + 2;
                }
                proof {
                    assert(self@ =~= (MachineView {
                        pc: skip_pc(old(self)@, old(self)@.regs[x as int] != lo),
                        ..old(self)@
                    }));
                }
                Ok(())
            },
            0x5 => {
                if self.registers[x as usize] == self.registers[y as usize] {
                    self.pc = self.pc + 2;
                }
                proof {
                    assert(self@ =~= (MachineView {
                        pc: skip_pc(
                            old(self)@,
                            old(self)@.regs[x as int] == old(self)@.regs[y as int],
                        ),
                        ..old(self)@
                    }));
                }
                Ok(())
            },
            0x6 => {
                self.registers.set(x as usize, lo);
                proof {
                    assert(self@ =~= with_reg(old(self)@, x as int, lo));
                }
                Ok(())
            },
            0x7 => {
                let vx: u8 = self.registers[x as usize];
                let sum: u16 = vx as u16 + lo as u16;
                let res: u8 = (sum % 256) as u8;
                self.registers.set(x as usize, res);
                proof {
                    assert(res == wrap_add8(vx, lo));
                    assert(self@ =~= with_reg(old(self)@, x as int, wrap_add8(vx, lo)));
                }
                Ok(())
            },
            0x8 => self.exec_alu(x, y, op_code.get_n(), hi, lo),
            0x9 => {
                if self.registers[x as usize] != self.registers[y as usize] {
                    self.pc = self.pc + 2;
                }
                proof {
                    assert(self@ =~= (MachineView {
                        pc: skip_pc(
                            old(self)@,
                            old(self)@.regs[x as int] != old(self)@.regs[y as int],
                        ),
                        ..old(self)@
                    }));
                }
                Ok(())
            },
            0xA => {
                self.index = op_code.get_nnn();
                proof {
                    assert(self@ =~= (MachineView { index: op_nnn(hi, lo), ..old(self)@ }));
                }
                Ok(())
            },
            0xB => {
                self.pc = op_code.get_nnn() + self.registers[0] as u16;
                proof {
                    assert(self@ =~= (MachineView {
                        pc: (op_nnn(hi, lo) + old(self)@.regs[0]) as u16,
                        ..old(self)@
                    }));
                }
                Ok(())
            },
            0xC => {
                let random_num: u8 = self.get_random_number();
                self.registers.set(x as usize, random_num & lo);
                proof {
                    assert(self@ =~= with_reg(old(self)@, x as int, random_num & lo));
                    assert(exists|b: u8| self@ == with_reg(old(self)@, x as int, b & lo));
                }
                Ok(())
            },
            0xD => self.exec_draw(x, y, op_code.get_n()),
            0xE => {
                if lo == 0x9E || lo == 0xA1 {
                    let vx: u8 = self.registers[x as usize];
                    if vx >= 16 {
                        Err(StepError::KeyOutOfRange)
                    } else {
                        let pressed: bool = self.keypad[vx as usize];
                        let cond: bool = if lo == 0x9E {
                            pressed
                        } else {
                            !pressed
                        };
                        if cond {
                            self.pc = self.pc + 2;
                        }
                        proof {
                            assert(self@ =~= (MachineView {
                                pc: skip_pc(old(self)@, cond),
                                ..old(self)@
                            }));
                        }
                        Ok(())
                    }
                } else {
                    Err(StepError::UnknownOpcode { higher_byte: hi, lower_byte: lo })
                }
            },
            _ => {
                proof {
                    assert(fam == 0xF);
                }
                self.exec_misc(x, hi, lo)
            },
        }
    }

    /// Replace the framebuffer with the all-unlit grid.
    fn clear_video(&mut self)
        requires
            old(self).wf(),
        ensures
            final(self).wf(),
            final(self)@ == (MachineView {
                video: Seq::new(2048, |cell: int| false),
                ..old(self)@
            }),
    {
        let mut cleared: Vec<bool> = Vec::new();
        let mut i: usize = 0;
        while i < 2048
            invariant
                i <= 2048,
                cleared@ == Seq::new(i as nat, |j: int| false),
            decreases 2048 - i,
        {
            cleared.push(false);
            i = i + 1;
            proof {
                assert(cleared@ =~= Seq::new(i as nat, |j: int| false));
            }
        }
        self.video = cleared;
        proof {
            assert(self@ =~= (MachineView { video: Seq::new(2048, |cell: int| false), ..old(self)@ }));
        }
    }

    /// The register-to-register arithmetic family (leading nibble 0x8),
    /// selected by the low nibble: move, the three bitwise operations,
    /// wrapping add and both wrapping subtractions with their flag
    /// outcomes, and the two shifts.
    #[verifier::rlimit(60)]
    fn exec_alu(&mut self, x: u8, y: u8, n: u8, hi: u8, lo: u8) -> (r: Result<(), StepError>)
        requires
            old(self).wf(),
            x < 16,
            y < 16,
        ensures
            final(self).wf(),
            alu_rel(old(self)@, final(self)@, x as int, y as int, n, hi, lo, r),
    {
        let vx: u8 = self.registers[x as usize];
        let vy: u8 = self.registers[y as usize];
        match n {
            0x0 => {
                self.registers.set(x as usize, vy);
                proof {
                    assert(self@ =~= with_reg(old(self)@, x as int, vy));
                }
                Ok(())
            },
            0x1 => {
                self.registers.set(x as usize, vx | vy);
                proof {
                    assert(self@ =~= with_reg(old(self)@, x as int, vx | vy));
                }
                Ok(())
            },
            0x2 => {
                self.registers.set(x as usize, vx & vy);
                proof {
                    assert(self@ =~= with_reg(old(self)@, x as int, vx & vy));
                }
                Ok(())
            },
            0x3 => {
                self.registers.set(x as usize, vx ^ vy);
                proof {
                    assert(self@ =~= with_reg(old(self)@, x as int, vx ^ vy));
                }
                Ok(())
            },
            0x4 => {
                let sum: u16 = vx as u16 + vy as u16;
                let f: u8 = if sum > 255 {
                    1
                } else {
                    0
                };
                let res: u8 = (sum % 256) as u8;
                self.registers.set(x as usize, res);
                self.registers.set(15, f);
                proof {
                    assert(res == wrap_add8(vx, vy));
                    assert(self@ =~= with_flag(
                        with_reg(old(self)@, x as int, wrap_add8(vx, vy)),
                        flag_val(vx + vy > 255),
                    ));
                }
                Ok(())
            },
            0x5 => {
                let f: u8 = if vx > vy {
                    1
                } else {
                    0
                };
                let res: u8 = ((vx as u16 + 256 - vy as u16) % 256) as u8;
                self.registers.set(x as usize, res);
                self.registers.set(15, f);
                proof {
                    assert(res == wrap_sub8(vx, vy));
                    assert(self@ =~= with_flag(
                        with_reg(old(self)@, x as int, wrap_sub8(vx, vy)),
                        flag_val(vx > vy),
                    ));
                }
                Ok(())
            },
            0x6 => {
                let f: u8 = vx % 2;
                let res: u8 = vx / 2;
                self.registers.set(x as usize, res);
                self.registers.set(15, f);
                proof {
                    assert(self@ =~= with_flag(
                        with_reg(old(self)@, x as int, (vx / 2) as u8),
                        flag_val(vx % 2 == 1),
                    ));
                }
                Ok(())
            },
            0x7 => {
                let f: u8 = if vy > vx {
                    1
                } else {
                    0
                };
                let res: u8 = ((vy as u16 + 256 - vx as u16) % 256) as u8;
                self.registers.set(x as usize, res);
                self.registers.set(15, f);
                proof {
                    assert(res == wrap_sub8(vy, vx));
                    assert(self@ =~= with_flag(
                        with_reg(old(self)@, x as int, wrap_sub8(vy, vx)),
                        flag_val(vy > vx),
                    ));
                }
                Ok(())
            },
            0xE => {
                let f: u8 = if vx >= 128 {
                    1
                } else {
                    0
                };
                let res: u8 = ((vx as u16 * 2) % 256) as u8;
                self.registers.set(x as usize, res);
                self.registers.set(15, f);
                proof {
                    assert(res == wrap_add8(vx, vx));
                    assert(self@ =~= with_flag(
                        with_reg(old(self)@, x as int, wrap_add8(vx, vx)),
                        flag_val(vx >= 128),
                    ));
                }
                Ok(())
            },
            _ => Err(StepError::UnknownOpcode { higher_byte: hi, lower_byte: lo }),
        }
    }

    /// The miscellaneous family (leading nibble 0xF), selected by the low
    /// byte: key-wait, timer transfers, index arithmetic, glyph address
    /// lookup, the decimal store and the register block transfers.
    fn exec_misc(&mut self, x: u8, hi: u8, lo: u8) -> (r: Result<(), StepError>)
        requires
            old(self).wf(),
            x < 16,
            old(self)@.pc >= 2,
        ensures
            final(self).wf(),
            misc_rel(old(self)@, final(self)@, x as int, hi, lo, r),
    {
        if lo == 0x07 {
            let delay: u8 = self.delay_timer;
            self.registers.set(x as usize, delay);
            proof {
                assert(self@ =~= with_reg(old(self)@, x as int, old(self)@.delay));
            }
            Ok(())
        } else if lo == 0x0A {
            self.exec_key_wait(x)
        } else if lo == 0x15 {
            self.delay_timer = self.registers[x as usize];
            proof {
                assert(self@ =~= (MachineView { delay: old(self)@.regs[x as int], ..old(self)@ }));
            }
            Ok(())
        } else if lo == 0x18 {
            self.sound_timer = self.registers[x as usize];
            proof {
                assert(self@ =~= (MachineView { sound: old(self)@.regs[x as int], ..old(self)@ }));
            }
            Ok(())
        } else if lo == 0x1E {
            let vx: u8 = self.registers[x as usize];
            let sum: u32 = self.index as u32 + vx as u32;
            self.index = (sum % 0x10000) as u16;
            proof {
                assert(self@ =~= (MachineView {
                    index: wrap_add16(old(self)@.index, vx),
                    ..old(self)@
                }));
            }
            Ok(())
        } else if lo == 0x29 {
            let digit: u8 = self.registers[x as usize];
            self.index = FONTSET_START_ADDRESS + 5 * (digit as u16);
            proof {
                assert(self@ =~= (MachineView {
                    index: (FONTSET_START_ADDRESS + 5 * old(self)@.regs[x as int]) as u16,
                    ..old(self)@
                }));
            }
            Ok(())
        } else if lo == 0x33 {
            self.exec_bcd(x)
        } else if lo == 0x55 {
            self.exec_store_regs(x)
        } else if lo == 0x65 {
            self.exec_load_regs(x)
        } else {
            Err(StepError::UnknownOpcode { higher_byte: hi, lower_byte: lo })
        }
    }

    /// The blocking key-wait: scan the keypad in index order; store the
    /// first pressed index, or undo the fetch's advance so the same
    /// instruction repeats next cycle.
    fn exec_key_wait(&mut self, x: u8) -> (r: Result<(), StepError>)
        requires
            old(self).wf(),
            x < 16,
            old(self)@.pc >= 2,
        ensures
            final(self).wf(),
            key_wait_rel(old(self)@, final(self)@, x as int, r),
    {
        let mut key: usize = 0;
        while key < 16
            invariant
                old(self).wf(),
                self == old(self),
                x < 16,
                key <= 16,
                first_pressed_from(old(self)@.keys, 0) == first_pressed_from(
                    old(self)@.keys,
                    key as int,
                ),
            decreases 16 - key,
        {
            if self.keypad[key] {
                self.registers.set(x as usize, key as u8);
                proof {
                    assert(first_pressed_from(old(self)@.keys, key as int) == key as int);
                    assert(self@ =~= with_reg(old(self)@, x as int, key as u8));
                }
                return Ok(());
            }
            key = key + 1;
        }
        proof {
            assert(first_pressed_from(old(self)@.keys, 16) == 16);
        }
        self.pc = self.pc - 2;
        proof {
            assert(self@ =~= (MachineView { pc: (old(self)@.pc - 2) as u16, ..old(self)@ }));
        }
        Ok(())
    }

    /// The binary-coded-decimal store: the register value's hundreds,
    /// tens and ones digits at the index address and the two after it.
    fn exec_bcd(&mut self, x: u8) -> (r: Result<(), StepError>)
        requires
            old(self).wf(),
            x < 16,
        ensures
            final(self).wf(),
            bcd_rel(old(self)@, final(self)@, x as int, r),
    {
        let idx = self.index as usize;
        if idx + 2 >= MEMORY_SIZE as usize {
            return Err(StepError::MemoryOutOfBounds);
        }
        let v: u8 = self.registers[x as usize];
        self.memory.set(idx, v / 100);
        self.memory.set(idx + 1, v / 10 % 10);
        self.memory.set(idx + 2, v % 10);
        proof {
            assert(self@ =~= (MachineView {
                mem: old(self)@.mem.update(idx as int, (v / 100) as u8).update(
                    idx as int + 1,
                    (v / 10 % 10) as u8,
                ).update(idx as int + 2, (v % 10) as u8),
                ..old(self)@
            }));
        }
        Ok(())
    }

    /// Register block store: registers 0 through `x` inclusive written to
    /// memory at the index register, which is unchanged.
    fn exec_store_regs(&mut self, x: u8) -> (r: Result<(), StepError>)
        requires
            old(self).wf(),
            x < 16,
        ensures
            final(self).wf(),
            store_regs_rel(old(self)@, final(self)@, x as int, r),
    {
        let idx = self.index as usize;
        if idx + x as usize >= MEMORY_SIZE as usize {
            return Err(StepError::MemoryOutOfBounds);
        }
        let mut i: usize = 0;
        while i <= x as usize
            invariant
                old(self).wf(),
                x < 16,
                i <= x as usize + 1,
                idx == old(self)@.index,
                idx + x < MEMORY_SIZE,
                self.memory@.len() == MEMORY_SIZE,
                self.registers@ == old(self)@.regs,
                self.index == old(self)@.index,
                self.pc == old(self)@.pc,
                self.stack@ == old(self)@.stack,
                self.sp == old(self)@.sp,
                self.delay_timer == old(self)@.delay,
                self.sound_timer == old(self)@.sound,
                self.keypad@ == old(self)@.keys,
                self.video@ == old(self)@.video,
                forall|a: int| 0 <= a < MEMORY_SIZE ==> self.memory@[a] == (
                    if idx <= a < idx + i {
                        old(self)@.regs[a - idx]
                    } else {
                        old(self)@.mem[a]
                    }),
            decreases x as usize + 1 - i,
        {
            self.memory.set(idx + i, self.registers[i]);
            i = i + 1;
        }
        proof {
            assert(self@ =~= (MachineView {
                mem: Seq::new(
                    MEMORY_SIZE as nat,
                    |a: int| if idx <= a <= idx + x {
                        old(self)@.regs[a - idx]
                    } else {
                        old(self)@.mem[a]
                    },
                ),
                ..old(self)@
            }));
        }
        Ok(())
    }

    /// Register block load: registers 0 through `x` inclusive read from
    /// memory at the index register, which is unchanged.
    fn exec_load_regs(&mut self, x: u8) -> (r: Result<(), StepError>)
        requires
            old(self).wf(),
            x < 16,
        ensures
            final(self).wf(),
            load_regs_rel(old(self)@, final(self)@, x as int, r),
    {
        let idx = self.index as usize;
        if idx + x as usize >= MEMORY_SIZE as usize {
            return Err(StepError::MemoryOutOfBounds);
        }
        let mut i: usize = 0;
        while i <= x as usize
            invariant
                old(self).wf(),
                x < 16,
                i <= x as usize + 1,
                idx == old(self)@.index,
                idx + x < MEMORY_SIZE,
                self.registers@.len() == 16,
                self.memory@ == old(self)@.mem,
                self.index == old(self)@.index,
                self.pc == old(self)@.pc,
                self.stack@ == old(self)@.stack,
                self.sp == old(self)@.sp,
                self.delay_timer == old(self)@.delay,
                self.sound_timer == old(self)@.sound,
                self.keypad@ == old(self)@.keys,
                self.video@ == old(self)@.video,
                forall|j: int| 0 <= j < 16 ==> self.registers@[j] == (
                    if j < i {
                        old(self)@.mem[idx + j]
                    } else {
                        old(self)@.regs[j]
                    }),
            decreases x as usize + 1 - i,
        {
            self.registers.set(i, self.memory[idx + i]);
            i = i + 1;
        }
        proof {
            assert(self@ =~= (MachineView {
                regs: Seq::new(
                    16,
                    |j: int| if j <= x {
                        old(self)@.mem[idx + j]
                    } else {
                        old(self)@.regs[j]
                    },
                ),
                ..old(self)@
            }));
        }
        Ok(())
    }

    /// The draw instruction: XOR an 8-wide, `n`-high sprite read from
    /// memory at the index register into the framebuffer at the wrapped
    /// origin held in registers `x` and `y`, wrapping each touched cell
    /// around the grid, and set the flag register to whether any lit
    /// cell was toggled off.
    fn exec_draw(&mut self, x: u8, y: u8, n: u8) -> (r: Result<(), StepError>)
        requires
            old(self).wf(),
            x < 16,
            y < 16,
            n < 16,
        ensures
            final(self).wf(),
            draw_rel(old(self)@, final(self)@, x as int, y as int, n as int, r),
    {
        let idx = self.index as usize;
        if idx + n as usize > MEMORY_SIZE as usize {
            return Err(StepError::MemoryOutOfBounds);
        }
        let x_position: usize = (self.registers[x as usize] % 64) as usize;
        let y_position: usize = (self.registers[y as usize] % 32) as usize;
        let ghost pre = old(self)@;
        let ghost xp = x_position as int;
        let ghost yp = y_position as int;
        let mut collision: bool = false;
        let mut row: usize = 0;
        while row < n as usize
            invariant
                pre == old(self)@,
                old(self).wf(),
                row <= n as usize,
                n < 16,
                idx == pre.index,
                idx + n <= MEMORY_SIZE,
                xp == pre.regs[x as int] % 64,
                yp == pre.regs[y as int] % 32,
                x_position == xp,
                y_position == yp,
                0 <= xp < 64,
                0 <= yp < 32,
                self.memory@ == pre.mem,
                self.registers@ == pre.regs,
                self.index == pre.index,
                self.pc == pre.pc,
                self.stack@ == pre.stack,
                self.sp == pre.sp,
                self.delay_timer == pre.delay,
                self.sound_timer == pre.sound,
                self.keypad@ == pre.keys,
                self.video@.len() == 2048,
                forall|cell: int| 0 <= cell < 2048 ==> self.video@[cell] == (pre.video[cell]
                    != sprite_hits(pre.mem, idx as int, xp, yp, row as int, cell)),
                collision == draw_collides(pre.mem, idx as int, xp, yp, row as int, pre.video),
            decreases n as usize - row,
        {
            let sprite_byte: u8 = self.memory[idx + row];
            let row_y: usize = (y_position + row) % 32;
            proof {
                assert(row_y == wrap_row(yp, row as int));
            }
            let mut col: usize = 0;
            while col < 8
                invariant
                    pre == old(self)@,
                    old(self).wf(),
                    row < n as usize,
                    n < 16,
                    col <= 8,
                    idx == pre.index,
                    idx + n <= MEMORY_SIZE,
                    0 <= xp < 64,
                    0 <= yp < 32,
                    x_position == xp,
                    y_position == yp,
                    sprite_byte == pre.mem[idx + row],
                    row_y == wrap_row(yp, row as int),
                    self.memory@ == pre.mem,
                    self.registers@ == pre.regs,
                    self.index == pre.index,
                    self.pc == pre.pc,
                    self.stack@ == pre.stack,
                    self.sp == pre.sp,
                    self.delay_timer == pre.delay,
                    self.sound_timer == pre.sound,
                    self.keypad@ == pre.keys,
                    self.video@.len() == 2048,
                    forall|cell: int| 0 <= cell < 2048 ==> self.video@[cell] == (pre.video[cell]
                        != (sprite_hits(pre.mem, idx as int, xp, yp, row as int, cell)
                            || row_hits(sprite_byte, xp, row_y as int, col as int, cell))),
                    collision == (draw_collides(pre.mem, idx as int, xp, yp, row as int, pre.video)
                        || row_collides(sprite_byte, xp, row_y as int, col as int, pre.video)),
                decreases 8 - col,
            {
                let c8: u8 = col as u8;
                let bit_set: bool = sprite_byte & (0x80u8 >> c8) != 0;
                proof {
                    assert((sprite_byte & (0x80u8 >> c8) != 0) == sprite_bit(sprite_byte, c8))
                        by (bit_vector)
                        requires
                            c8 < 8,
                    ;
                }
                if bit_set {
                    let cx: usize = (x_position + col) % 64;
                    let cell: usize = row_y * 64 + cx;
                    proof {
                        assert(cx == wrap_col(xp, col as int));
                        lemma_current_cell_fresh(
                            pre.mem,
                            idx as int,
                            sprite_byte,
                            xp,
                            yp,
                            row as int,
                            col as int,
                        );
                        assert(self.video@[cell as int] == pre.video[cell as int]);
                    }
                    let lit: bool = self.video[cell];
                    if lit {
                        collision = true;
                    }
                    self.video.set(cell, !lit);
                    proof {
                        lemma_row_collides_extend(
                            sprite_byte,
                            xp,
                            row_y as int,
                            col as int,
                            pre.video,
                        );
                        assert forall|c: int| 0 <= c < 2048 implies self.video@[c] == (
                        pre.video[c] != (sprite_hits(pre.mem, idx as int, xp, yp, row as int, c)
                            || row_hits(sprite_byte, xp, row_y as int, col as int + 1, c))) by {
                            lemma_row_hits_extend(sprite_byte, xp, row_y as int, col as int, c);
                        }
                    }
                } else {
                    proof {
                        lemma_row_collides_extend(
                            sprite_byte,
                            xp,
                            row_y as int,
                            col as int,
                            pre.video,
                        );
                        assert forall|c: int| 0 <= c < 2048 implies self.video@[c] == (
                        pre.video[c] != (sprite_hits(pre.mem, idx as int, xp, yp, row as int, c)
                            || row_hits(sprite_byte, xp, row_y as int, col as int + 1, c))) by {
                            lemma_row_hits_extend(sprite_byte, xp, row_y as int, col as int, c);
                        }
                    }
                }
                col = col + 1;
            }
            proof {
                lemma_draw_collides_extend(
                    pre.mem,
                    idx as int,
                    xp,
                    yp,
                    row as int,
                    pre.video,
                );
                assert forall|c: int| 0 <= c < 2048 implies self.video@[c] == (pre.video[c]
                    != sprite_hits(pre.mem, idx as int, xp, yp, row as int + 1, c)) by {
                    lemma_sprite_hits_extend(pre.mem, idx as int, xp, yp, row as int, c);
                }
            }
            row = row + 1;
        }
        let f: u8 = if collision {
            1
        } else {
            0
        };
        self.registers.set(15, f);
        proof {
            let toggled = MachineView {
                video: Seq::new(
                    2048,
                    |cell: int| pre.video[cell] != sprite_hits(
                        pre.mem,
                        idx as int,
                        xp,
                        yp,
                        n as int,
                        cell,
                    ),
                ),
                ..pre
            };
            assert(self@ =~= with_flag(
                toggled,
                flag_val(draw_collides(pre.mem, idx as int, xp, yp, n as int, pre.video)),
            ));
        }
        Ok(())
    }

    /// One whole cycle: fetch the instruction at the program counter,
    /// advance past it, and execute it.
    pub fn emulate_cycle(&mut self) -> (r: Result<(), StepError>)
        requires
            old(self).wf(),
        ensures
            final(self).wf(),
            cycle_rel(old(self)@, final(self)@, r),
    {
        let op_code = match self.fetch() {
            Ok(op_code) => op_code,
            Err(e) => {
                return Err(e);
            },
        };
        self.decode_and_execute(op_code)
    }
}

} // verus!

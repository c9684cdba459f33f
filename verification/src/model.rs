//! The mathematical model of the machine: its state as plain sequences and
//! integers, and the meaning of every instruction as a function on states.

use vstd::prelude::*;

verus! {

/// Address at which a program image starts, and the initial program counter.
pub const ROM_START: u16 = 0x200;

/// Largest program counter at which both bytes of an instruction lie in memory.
pub const MAX_PC: u16 = 4094;

/// Width of the display in pixels; pixel (x, y) is at `x + WIDTH * y`.
pub const WIDTH: usize = 64;

/// Height of the display in pixels.
pub const HEIGHT: usize = 32;

/// Why the machine refused to execute an instruction.
#[derive(Clone, Copy, Debug, PartialEq, Eq, Structural)]
pub enum Fault {
    /// The program counter points at an instruction that is not wholly in memory.
    ProgramCounter,
    /// A call with sixteen return addresses already saved.
    StackOverflow,
    /// A return with no return address saved.
    StackUnderflow,
    /// An access through the index register beyond the last byte of memory.
    Memory,
    /// A key test with a register that names no key.
    Key,
}

/// The architectural state, as values.
pub struct State {
    /// V0 to VF.
    pub registers: Seq<u8>,
    /// The index register I.
    pub index: u16,
    /// The program counter.
    pub pc: u16,
    /// The saved return addresses, oldest first.
    pub stack: Seq<u16>,
    /// All of memory.
    pub memory: Seq<u8>,
    pub delay_timer: u8,
    pub sound_timer: u8,
    /// The pixels, row by row; pixel (x, y) is at `x + 64 * y`.
    pub display: Seq<u8>,
    /// Which of the sixteen keys are held down.
    pub keys: Seq<bool>,
    /// Whether the display changed since the renderer last looked.
    pub draw_flag: bool,
}

/// The highest four bits of an opcode: its family.
pub open spec fn op_family(opcode: u16) -> int {
    opcode as int / 4096
}

/// The X field: bits 8 to 11.
pub open spec fn op_x(opcode: u16) -> int {
    (opcode as int / 256) % 16
}

/// The Y field: bits 4 to 7.
pub open spec fn op_y(opcode: u16) -> int {
    (opcode as int / 16) % 16
}

/// The N field: the lowest four bits.
pub open spec fn op_n(opcode: u16) -> int {
    opcode as int % 16
}

/// The NN field: the low byte.
pub open spec fn op_nn(opcode: u16) -> u8 {
    (opcode as int % 256) as u8
}

/// The NNN field: the lowest twelve bits.
pub open spec fn op_nnn(opcode: u16) -> u16 {
    (opcode as int % 4096) as u16
}

/// Whether bit `k` of a sprite row is set, counting from the most significant
/// bit, which is the leftmost pixel.
pub open spec fn sprite_bit(row: u8, k: u8) -> bool {
    row & (0x80u8 >> k) != 0
}

/// The eighty glyph bytes: sixteen glyphs, 0 to F, of five rows each.
pub open spec fn font() -> Seq<u8> {
    seq![
        0xF0u8, 0x90u8, 0x90u8, 0x90u8, 0xF0u8,
        0x20u8, 0x60u8, 0x20u8, 0x20u8, 0x70u8,
        0xF0u8, 0x10u8, 0xF0u8, 0x80u8, 0xF0u8,
        0xF0u8, 0x10u8, 0xF0u8, 0x10u8, 0xF0u8,
        0x90u8, 0x90u8, 0xF0u8, 0x10u8, 0x10u8,
        0xF0u8, 0x80u8, 0xF0u8, 0x10u8, 0xF0u8,
        0xF0u8, 0x80u8, 0xF0u8, 0x90u8, 0xF0u8,
        0xF0u8, 0x10u8, 0x20u8, 0x40u8, 0x40u8,
        0xF0u8, 0x90u8, 0xF0u8, 0x90u8, 0xF0u8,
        0xF0u8, 0x90u8, 0xF0u8, 0x10u8, 0xF0u8,
        0xF0u8, 0x90u8, 0xF0u8, 0x90u8, 0x90u8,
        0xE0u8, 0x90u8, 0xE0u8, 0x90u8, 0xE0u8,
        0xF0u8, 0x80u8, 0x80u8, 0x80u8, 0xF0u8,
        0xE0u8, 0x90u8, 0x90u8, 0x90u8, 0xE0u8,
        0xF0u8, 0x80u8, 0xF0u8, 0x80u8, 0xF0u8,
        0xF0u8, 0x80u8, 0xF0u8, 0x80u8, 0x80u8,
    ]
}

/// The first index from `from` on at which a key is down, or 16 if there is none.
pub open spec fn first_pressed(keys: Seq<bool>, from: int) -> int
    decreases 16 - from,
{
    if from >= 16 || from < 0 {
        16
    } else if keys[from] {
        from
    } else {
        first_pressed(keys, from + 1)
    }
}

impl State {
    /// The state right after power-up: everything zero but the program
    /// counter and the glyphs.
    pub open spec fn initial() -> State {
        State {
            registers: Seq::new(16, |i: int| 0u8),
            index: 0,
            pc: ROM_START,
            stack: Seq::empty(),
            memory: Seq::new(
                4096,
                |a: int| if 0x50 <= a < 0x50 + 80 { font()[a - 0x50] } else { 0u8 },
            ),
            delay_timer: 0,
            sound_timer: 0,
            display: Seq::new(2048, |p: int| 0u8),
            keys: Seq::new(16, |k: int| false),
            draw_flag: false,
        }
    }

    /// What holds of every state the machine can be in.
    pub open spec fn wf(self) -> bool {
        &&& self.registers.len() == 16
        &&& self.stack.len() <= 16
        &&& self.memory.len() == 4096
        &&& self.display.len() == 2048
        &&& self.keys.len() == 16
        &&& forall|i: int| 0 <= i < self.stack.len() ==> #[trigger] self.stack[i] <= MAX_PC
        &&& forall|p: int| 0 <= p < 2048 ==> #[trigger] self.display[p] <= 1
    }

    /// Memory after loading a program image: its bytes stand from 0x200 on,
    /// as many as fit, which is 3584; every other byte is as before.
    pub open spec fn load(self, image: Seq<u8>) -> State {
        State {
            memory: Seq::new(
                4096,
                |a: int|
                    if 0x200 <= a && a - 0x200 < image.len() {
                        image[a - 0x200]
                    } else {
                        self.memory[a]
                    },
            ),
            ..self
        }
    }

    /// The opcode at the program counter: two bytes, high byte first.
    pub open spec fn fetch(self) -> u16 {
        (self.memory[self.pc as int] as int * 256 + self.memory[self.pc + 1] as int) as u16
    }

    /// The program counter moved forward by `by` bytes.
    pub open spec fn step(self, by: int) -> State {
        State { pc: (self.pc + by) as u16, ..self }
    }

    /// The next instruction is skipped when `hit` holds.
    pub open spec fn skip_when(self, hit: bool) -> State {
        self.step(if hit { 4 } else { 2 })
    }

    /// Register `x` holds `value`.
    pub open spec fn with_register(self, x: int, value: u8) -> State {
        State { registers: self.registers.update(x, value), ..self }
    }

    /// Register F holds 1 when `set` holds, else 0.
    pub open spec fn with_flag(self, set: bool) -> State {
        self.with_register(15, if set { 1u8 } else { 0u8 })
    }

    /// 00E0: every pixel is cleared.
    pub open spec fn cls(self) -> State {
        State { display: Seq::new(2048, |p: int| 0u8), ..self }.step(2)
    }

    /// 00EE: the newest return address leaves the stack, and execution goes
    /// on behind the call that saved it.
    pub open spec fn ret(self) -> State {
        State { pc: (self.stack.last() + 2) as u16, stack: self.stack.drop_last(), ..self }
    }

    /// 1NNN: jump to NNN.
    pub open spec fn jmp(self, opcode: u16) -> State {
        State { pc: op_nnn(opcode), ..self }
    }

    /// 2NNN: save the program counter and jump to NNN.
    pub open spec fn jsr(self, opcode: u16) -> State {
        State { pc: op_nnn(opcode), stack: self.stack.push(self.pc), ..self }
    }

    /// 3XNN: skip when VX equals NN.
    pub open spec fn skeq_c(self, opcode: u16) -> State {
        self.skip_when(self.registers[op_x(opcode)] == op_nn(opcode))
    }

    /// 4XNN: skip when VX differs from NN.
    pub open spec fn skne_c(self, opcode: u16) -> State {
        self.skip_when(self.registers[op_x(opcode)] != op_nn(opcode))
    }

    /// 5XY0: skip when VX equals VY.
    pub open spec fn skeq_r(self, opcode: u16) -> State {
        self.skip_when(self.registers[op_x(opcode)] == self.registers[op_y(opcode)])
    }

    /// 6XNN: VX becomes NN.
    pub open spec fn mov_c(self, opcode: u16) -> State {
        self.with_register(op_x(opcode), op_nn(opcode)).step(2)
    }

    /// 7XNN: VX becomes VX + NN modulo 256; VF is not a carry here.
    pub open spec fn add_c(self, opcode: u16) -> State {
        let x = op_x(opcode);
        self.with_register(x, ((self.registers[x] + op_nn(opcode)) % 256) as u8).step(2)
    }

    /// 8XY0: VX becomes VY.
    pub open spec fn mov_r(self, opcode: u16) -> State {
        self.with_register(op_x(opcode), self.registers[op_y(opcode)]).step(2)
    }

    /// 8XY1: VX becomes VX or VY, bit by bit.
    pub open spec fn or_r(self, opcode: u16) -> State {
        let x = op_x(opcode);
        self.with_register(x, self.registers[x] | self.registers[op_y(opcode)]).step(2)
    }

    /// 8XY2: VX becomes VX and VY, bit by bit.
    pub open spec fn and_r(self, opcode: u16) -> State {
        let x = op_x(opcode);
        self.with_register(x, self.registers[x] & self.registers[op_y(opcode)]).step(2)
    }

    /// 8XY3: VX becomes VX exclusive-or VY, bit by bit.
    pub open spec fn xor_r(self, opcode: u16) -> State {
        let x = op_x(opcode);
        self.with_register(x, self.registers[x] ^ self.registers[op_y(opcode)]).step(2)
    }

    /// 8XY4: VX becomes VX + VY modulo 256, then VF the carry.
    pub open spec fn add_r(self, opcode: u16) -> State {
        let x = op_x(opcode);
        let sum = self.registers[x] + self.registers[op_y(opcode)];
        self.with_register(x, (sum % 256) as u8).with_flag(sum > 255).step(2)
    }

    /// 8XY5: VX becomes VX - VY modulo 256, then VF is 1 unless it borrowed.
    pub open spec fn sub_r(self, opcode: u16) -> State {
        let x = op_x(opcode);
        let a = self.registers[x];
        let b = self.registers[op_y(opcode)];
        self.with_register(x, ((a - b) % 256) as u8).with_flag(a >= b).step(2)
    }

    /// 8XY6: VX is halved, then VF is the bit that fell out.
    pub open spec fn shr_r(self, opcode: u16) -> State {
        let x = op_x(opcode);
        let a = self.registers[x];
        self.with_register(x, a / 2).with_register(15, a % 2).step(2)
    }

    /// 8XY7: VX becomes VY - VX modulo 256, then VF is 1 unless it borrowed.
    pub open spec fn rsb_r(self, opcode: u16) -> State {
        let x = op_x(opcode);
        let a = self.registers[x];
        let b = self.registers[op_y(opcode)];
        self.with_register(x, ((b - a) % 256) as u8).with_flag(b >= a).step(2)
    }

    /// 8XYE: VX is doubled modulo 256, then VF is the bit that fell out.
    pub open spec fn shl_r(self, opcode: u16) -> State {
        let x = op_x(opcode);
        let a = self.registers[x];
        self.with_register(x, ((a * 2) % 256) as u8).with_register(15, a / 128).step(2)
    }

    /// 9XY0: skip when VX differs from VY.
    pub open spec fn skne_r(self, opcode: u16) -> State {
        self.skip_when(self.registers[op_x(opcode)] != self.registers[op_y(opcode)])
    }

    /// ANNN: I becomes NNN.
    pub open spec fn mvi(self, opcode: u16) -> State {
        State { index: op_nnn(opcode), ..self }.step(2)
    }

    /// BNNN: jump to NNN + V0.
    pub open spec fn jmi(self, opcode: u16) -> State {
        State { pc: (op_nnn(opcode) + self.registers[0]) as u16, ..self }
    }

    /// CXNN: VX becomes the bits of `random` that NN lets through.
    pub open spec fn rand(self, opcode: u16, random: u8) -> State {
        self.with_register(op_x(opcode), random & op_nn(opcode)).step(2)
    }

    /// The sprite column that falls on pixel `p` when the sprite's left edge
    /// is at column `vx` modulo 64; 8 or more where the sprite does not reach.
    pub open spec fn sprite_col(vx: u8, p: int) -> int {
        (p % 64 + 64 - vx % 64) % 64
    }

    /// The sprite row that falls on pixel `p` when the sprite's top edge is at
    /// row `vy` modulo 32.
    pub open spec fn sprite_row(vy: u8, p: int) -> int {
        (p / 64 + 32 - vy % 32) % 32
    }

    /// Whether DXYN flips pixel `p`: a set bit of one of the N sprite rows
    /// from `memory[I]` on lands on it, each row and column wrapping round
    /// the edges by itself.
    pub open spec fn sprite_hits(self, opcode: u16, p: int) -> bool {
        let k = Self::sprite_col(self.registers[op_x(opcode)], p);
        let r = Self::sprite_row(self.registers[op_y(opcode)], p);
        &&& k < 8
        &&& r < op_n(opcode)
        &&& sprite_bit(self.memory[self.index + r], k as u8)
    }

    /// Whether DXYN flips a pixel that is set.
    pub open spec fn sprite_collides(self, opcode: u16) -> bool {
        exists|p: int| 0 <= p < 2048 && #[trigger] self.sprite_hits(opcode, p) && self.display[p] == 1
    }

    /// DXYN: the pixels under the sprite's set bits are flipped, VF says
    /// whether one of them was set, and the display is marked as changed.
    pub open spec fn sprite(self, opcode: u16) -> State {
        State {
            display: Seq::new(
                2048,
                |p: int|
                    if self.sprite_hits(opcode, p) {
                        self.display[p] ^ 1
                    } else {
                        self.display[p]
                    },
            ),
            draw_flag: true,
            ..self
        }.with_flag(self.sprite_collides(opcode)).step(2)
    }

    /// EX9E: skip when the key that VX names is down.
    pub open spec fn skpr(self, opcode: u16) -> State {
        self.skip_when(self.keys[self.registers[op_x(opcode)] as int])
    }

    /// EXA1: skip when the key that VX names is up.
    pub open spec fn skup(self, opcode: u16) -> State {
        self.skip_when(!self.keys[self.registers[op_x(opcode)] as int])
    }

    /// FX07: VX becomes the delay timer.
    pub open spec fn gdelay(self, opcode: u16) -> State {
        self.with_register(op_x(opcode), self.delay_timer).step(2)
    }

    /// FX0A: with a key down, VX becomes the lowest such key and execution
    /// goes on; with none, nothing changes, so the instruction is tried again.
    pub open spec fn key(self, opcode: u16) -> State {
        let k = first_pressed(self.keys, 0);
        if k < 16 {
            self.with_register(op_x(opcode), k as u8).step(2)
        } else {
            self
        }
    }

    /// FX15: the delay timer becomes VX.
    pub open spec fn sdelay(self, opcode: u16) -> State {
        State { delay_timer: self.registers[op_x(opcode)], ..self }.step(2)
    }

    /// FX18: the sound timer becomes VX.
    pub open spec fn ssound(self, opcode: u16) -> State {
        State { sound_timer: self.registers[op_x(opcode)], ..self }.step(2)
    }

    /// FX1E: I becomes I + VX modulo 65536.
    pub open spec fn adi(self, opcode: u16) -> State {
        State {
            index: ((self.index + self.registers[op_x(opcode)]) % 65536) as u16,
            ..self
        }.step(2)
    }

    /// FX29: I becomes the address of the glyph for VX.
    pub open spec fn font(self, opcode: u16) -> State {
        State { index: (0x50 + self.registers[op_x(opcode)] * 5) as u16, ..self }.step(2)
    }

    /// FX33: the hundreds, tens and ones of VX go to memory at I, I+1, I+2.
    pub open spec fn bcd(self, opcode: u16) -> State {
        let a = self.registers[op_x(opcode)];
        let i = self.index as int;
        State {
            memory: self.memory.update(i, a / 100).update(i + 1, (a / 10) % 10).update(
                i + 2,
                a % 10,
            ),
            ..self
        }.step(2)
    }

    /// FX55: V0 to VX go to memory from I on.
    pub open spec fn str(self, opcode: u16) -> State {
        let i = self.index as int;
        State {
            memory: Seq::new(
                4096,
                |a: int|
                    if i <= a <= i + op_x(opcode) {
                        self.registers[a - i]
                    } else {
                        self.memory[a]
                    },
            ),
            ..self
        }.step(2)
    }

    /// FX65: V0 to VX come from memory from I on.
    pub open spec fn ldr(self, opcode: u16) -> State {
        State {
            registers: Seq::new(
                16,
                |r: int|
                    if r <= op_x(opcode) {
                        self.memory[self.index + r]
                    } else {
                        self.registers[r]
                    },
            ),
            ..self
        }.step(2)
    }

    /// Both timers count down by one, and stay at zero once there.
    pub open spec fn tick(self) -> State {
        State {
            delay_timer: if self.delay_timer > 0 { (self.delay_timer - 1) as u8 } else { 0 },
            sound_timer: if self.sound_timer > 0 { (self.sound_timer - 1) as u8 } else { 0 },
            ..self
        }
    }

    /// 00EE cannot run with nothing saved.
    pub open spec fn ret_fault(self) -> Option<Fault> {
        if self.stack.len() == 0 {
            Some(Fault::StackUnderflow)
        } else {
            None
        }
    }

    /// 2NNN cannot run with sixteen addresses saved.
    pub open spec fn jsr_fault(self) -> Option<Fault> {
        if self.stack.len() >= 16 {
            Some(Fault::StackOverflow)
        } else {
            None
        }
    }

    /// DXYN cannot run where one of its N rows lies beyond memory.
    pub open spec fn sprite_fault(self, opcode: u16) -> Option<Fault> {
        if op_n(opcode) > 0 && self.index + op_n(opcode) > 4096 {
            Some(Fault::Memory)
        } else {
            None
        }
    }

    /// EX9E and EXA1 cannot run where VX is no key.
    pub open spec fn key_fault(self, opcode: u16) -> Option<Fault> {
        if self.registers[op_x(opcode)] >= 16 {
            Some(Fault::Key)
        } else {
            None
        }
    }

    /// FX33 cannot run where one of its three bytes lies beyond memory.
    pub open spec fn bcd_fault(self) -> Option<Fault> {
        if self.index + 2 >= 4096 {
            Some(Fault::Memory)
        } else {
            None
        }
    }

    /// FX55 and FX65 cannot run where one of their X + 1 bytes lies beyond memory.
    pub open spec fn block_fault(self, opcode: u16) -> Option<Fault> {
        if self.index + op_x(opcode) >= 4096 {
            Some(Fault::Memory)
        } else {
            None
        }
    }

    /// Why `opcode` cannot be executed in this state, if it cannot.
    pub open spec fn execute_fault(self, opcode: u16) -> Option<Fault> {
        let family = op_family(opcode);
        let low = op_nn(opcode);
        if self.pc > MAX_PC {
            Some(Fault::ProgramCounter)
        } else if family == 0x0 && low == 0xEE {
            self.ret_fault()
        } else if family == 0x2 {
            self.jsr_fault()
        } else if family == 0xD {
            self.sprite_fault(opcode)
        } else if family == 0xE && (low == 0x9E || low == 0xA1) {
            self.key_fault(opcode)
        } else if family == 0xF && low == 0x33 {
            self.bcd_fault()
        } else if family == 0xF && (low == 0x55 || low == 0x65) {
            self.block_fault(opcode)
        } else {
            None
        }
    }

    /// The state after `opcode`, where it can be executed. `random` is the
    /// byte that CXNN draws; no other instruction looks at it.
    ///
    /// The family decides alone but for four: families 0, E and F go by the
    /// low byte, family 8 by the lowest four bits. What names no instruction
    /// there only moves the program counter on.
    pub open spec fn execute(self, opcode: u16, random: u8) -> State {
        let family = op_family(opcode);
        let low = op_nn(opcode);
        let n = op_n(opcode);
        if family == 0x0 {
            if low == 0xE0 {
                self.cls()
            } else if low == 0xEE {
                self.ret()
            } else {
                self.step(2)
            }
        } else if family == 0x1 {
            self.jmp(opcode)
        } else if family == 0x2 {
            self.jsr(opcode)
        } else if family == 0x3 {
            self.skeq_c(opcode)
        } else if family == 0x4 {
            self.skne_c(opcode)
        } else if family == 0x5 {
            self.skeq_r(opcode)
        } else if family == 0x6 {
            self.mov_c(opcode)
        } else if family == 0x7 {
            self.add_c(opcode)
        } else if family == 0x8 {
            if n == 0x0 {
                self.mov_r(opcode)
            } else if n == 0x1 {
                self.or_r(opcode)
            } else if n == 0x2 {
                self.and_r(opcode)
            } else if n == 0x3 {
                self.xor_r(opcode)
            } else if n == 0x4 {
                self.add_r(opcode)
            } else if n == 0x5 {
                self.sub_r(opcode)
            } else if n == 0x6 {
                self.shr_r(opcode)
            } else if n == 0x7 {
                self.rsb_r(opcode)
            } else if n == 0xE {
                self.shl_r(opcode)
            } else {
                self.step(2)
            }
        } else if family == 0x9 {
            self.skne_r(opcode)
        } else if family == 0xA {
            self.mvi(opcode)
        } else if family == 0xB {
            self.jmi(opcode)
        } else if family == 0xC {
            self.rand(opcode, random)
        } else if family == 0xD {
            self.sprite(opcode)
        } else if family == 0xE {
            if low == 0x9E {
                self.skpr(opcode)
            } else if low == 0xA1 {
                self.skup(opcode)
            } else {
                self.step(2)
            }
        } else {
            if low == 0x07 {
                self.gdelay(opcode)
            } else if low == 0x0A {
                self.key(opcode)
            } else if low == 0x15 {
                self.sdelay(opcode)
            } else if low == 0x18 {
                self.ssound(opcode)
            } else if low == 0x1E {
                self.adi(opcode)
            } else if low == 0x29 {
                self.font(opcode)
            } else if low == 0x33 {
                self.bcd(opcode)
            } else if low == 0x55 {
                self.str(opcode)
            } else if low == 0x65 {
                self.ldr(opcode)
            } else {
                self.step(2)
            }
        }
    }

    /// Why the machine cannot run a cycle in this state, if it cannot.
    pub open spec fn cycle_fault(self) -> Option<Fault> {
        if self.pc > MAX_PC {
            Some(Fault::ProgramCounter)
        } else {
            self.execute_fault(self.fetch())
        }
    }

    /// One cycle: fetch, execute, then the timers count down.
    pub open spec fn cycle(self, random: u8) -> State {
        self.execute(self.fetch(), random).tick()
    }
}

} // verus!

//! The executable machine, and the proof that it does what the model says.
//!
//! Each instruction has a method of its own. It takes the machine as it
//! stands when that instruction has been fetched: valid, and with the program
//! counter at the instruction, so at most `MAX_PC`. An instruction that cannot
//! run where it stands gives back a `Fault` and changes nothing.
//! `decode_execute` and `cycle` ask for a valid machine and no more.
//!
//! The view holds the saved return addresses only. Of the sixteen stack
//! slots themselves each contract says what becomes of them: a call that
//! runs writes the slot at `sp`, and nothing else writes any.

use crate::blit::{landing, lemma_next_bit, lemma_next_row, lemma_whole_sprite};
use crate::decode::{family, field_n, field_nn, field_nnn, field_x, field_y};
use crate::entropy::random_byte;
use crate::model::{
    first_pressed, font, op_family, op_n, op_x, op_y, sprite_bit, Fault, State, MAX_PC,
};
use vstd::prelude::*;

verus! {

/// A CHIP-8 machine.
pub struct Chip8 {
    /// V0 to VF.
    pub v: [u8; 16],
    /// The index register I.
    pub index: u16,
    /// The program counter.
    pub pc: u16,
    /// How many return addresses are saved.
    pub sp: u16,
    /// The saved return addresses; those from `sp` on are stale.
    pub stack: [u16; 16],
    pub memory: [u8; 4096],
    pub delay_timer: u8,
    pub sound_timer: u8,
    /// The pixels, row by row, each 0 or 1.
    pub display: [u8; 2048],
    /// Which keys are held down.
    pub keys: [bool; 16],
    /// Set when the display changed; the renderer clears it.
    pub draw_flag: bool,
}

impl View for Chip8 {
    type V = State;

    open spec fn view(&self) -> State {
        State {
            registers: self.v@,
            index: self.index,
            pc: self.pc,
            stack: self.stack@.take(self.sp as int),
            memory: self.memory@,
            delay_timer: self.delay_timer,
            sound_timer: self.sound_timer,
            display: self.display@,
            keys: self.keys@,
            draw_flag: self.draw_flag,
        }
    }
}

/// The glyph bytes, sixteen glyphs of five rows.
pub fn fontset() -> (glyphs: [u8; 80])
    ensures
        glyphs@ == font(),
{
    let glyphs: [u8; 80] = [
        0xF0, 0x90, 0x90, 0x90, 0xF0,
        0x20, 0x60, 0x20, 0x20, 0x70,
        0xF0, 0x10, 0xF0, 0x80, 0xF0,
        0xF0, 0x10, 0xF0, 0x10, 0xF0,
        0x90, 0x90, 0xF0, 0x10, 0x10,
        0xF0, 0x80, 0xF0, 0x10, 0xF0,
        0xF0, 0x80, 0xF0, 0x90, 0xF0,
        0xF0, 0x10, 0x20, 0x40, 0x40,
        0xF0, 0x90, 0xF0, 0x90, 0xF0,
        0xF0, 0x90, 0xF0, 0x10, 0xF0,
        0xF0, 0x90, 0xF0, 0x90, 0x90,
        0xE0, 0x90, 0xE0, 0x90, 0xE0,
        0xF0, 0x80, 0x80, 0x80, 0xF0,
        0xE0, 0x90, 0x90, 0x90, 0xE0,
        0xF0, 0x80, 0xF0, 0x80, 0xF0,
        0xF0, 0x80, 0xF0, 0x80, 0x80,
    ];
    assert(glyphs@ =~= font());
    glyphs
}

impl Chip8 {
    /// What holds of every machine between two operations.
    pub open spec fn wf(&self) -> bool {
        &&& self.sp <= 16
        &&& self@.wf()
    }

    /// The sixteen stack slots after `opcode`: a call that runs writes the
    /// program counter into the first free slot, and nothing else writes any.
    pub open spec fn slots_after(&self, opcode: u16) -> Seq<u16> {
        if op_family(opcode) == 0x2 && self@.execute_fault(opcode) is None {
            self.stack@.update(self.sp as int, self.pc)
        } else {
            self.stack@
        }
    }

    /// A machine right after power-up.
    pub fn new() -> (chip8: Chip8)
        ensures
            chip8.wf(),
            chip8@ == State::initial(),
            chip8.stack@ == Seq::new(16, |i: int| 0u16),
    {
        let mut chip8 = Chip8 {
            v: [0;16],
            index: 0,
            pc: 0x200,
            sp: 0,
            stack: [0;16],
            memory: [0;4096],
            delay_timer: 0,
            sound_timer: 0,
            display: [0;2048],
            keys: [false;16],
            draw_flag: false,
        };
        chip8.load_fontset();
        assert(chip8@.registers =~= State::initial().registers);
        assert(chip8@.stack =~= State::initial().stack);
        assert(chip8@.memory =~= State::initial().memory);
        assert(chip8@.display =~= State::initial().display);
        assert(chip8@.keys =~= State::initial().keys);
        chip8
    }

    /// Tests at run time whether the machine is valid, for one whose fields
    /// were set by hand.
    pub fn valid(&self) -> (ok: bool)
        ensures
            ok == self.wf(),
    {
        if self.sp > 16 {
            return false;
        }
        let mut i: usize = 0;
        while i < self.sp as usize
            invariant
                i <= self.sp <= 16,
                forall|j: int| 0 <= j < i ==> #[trigger] self.stack@[j] <= MAX_PC,
            decreases self.sp - i,
        {
            if self.stack[i] > MAX_PC {
                assert(self@.stack[i as int] > MAX_PC);
                return false;
            }
            i += 1;
        }
        let mut p: usize = 0;
        while p < 2048
            invariant
                p <= 2048,
                forall|q: int| 0 <= q < p ==> #[trigger] self.display@[q] <= 1,
            decreases 2048 - p,
        {
            if self.display[p] > 1 {
                return false;
            }
            p += 1;
        }
        assert forall|j: int| 0 <= j < self@.stack.len() implies #[trigger] self@.stack[j]
            <= MAX_PC by {
            assert(self@.stack[j] == self.stack@[j]);
        }
        true
    }

    /// Copies the glyphs into memory from 0x50 on.
    pub fn load_fontset(&mut self)
        ensures
            final(self).memory@ == Seq::new(
                4096,
                |a: int| if 0x50 <= a < 0x50 + 80 { font()[a - 0x50] } else { old(self).memory@[a] },
            ),
            final(self)@ == (State { memory: final(self).memory@, ..old(self)@ }),
            final(self).sp == old(self).sp,
            final(self).stack == old(self).stack,
    {
        let glyphs = fontset();
        let mut i: usize = 0;
        while i < 80
            invariant
                i <= 80,
                glyphs@ == font(),
                forall|a: int| 0 <= a < 4096 ==> #[trigger] self.memory@[a] == if 0x50 <= a < 0x50 + i {
                    font()[a - 0x50]
                } else {
                    old(self).memory@[a]
                },
                self@ == (State { memory: self.memory@, ..old(self)@ }),
                self.sp == old(self).sp,
                self.stack == old(self).stack,
            decreases 80 - i,
        {
            self.memory[0x50 + i] = glyphs[i];
            i += 1;
        }
        assert(self.memory@ =~= Seq::new(
            4096,
            |a: int| if 0x50 <= a < 0x50 + 80 { font()[a - 0x50] } else { old(self).memory@[a] },
        ));
    }

    /// Fetches the opcode at the program counter, without moving it.
    pub fn fetch_opcode(&self) -> (opcode: u16)
        requires
            self.pc <= MAX_PC,
        ensures
            opcode == self@.fetch(),
    {
        let hi: u8 = self.memory[self.pc as usize];
        let lo: u8 = self.memory[self.pc as usize + 1];
        assert((hi as u16) << 8 | (lo as u16) == hi * 256 + lo) by (bit_vector);
        (hi as u16) << 8 | (lo as u16)
    }

    /// 00E0: clears the display.
    pub fn cls(&mut self)
        requires
            old(self).wf(),
            old(self).pc <= MAX_PC,
        ensures
            final(self).wf(),
            final(self).stack == old(self).stack,
            final(self)@ == old(self)@.cls(),
    {
        self.display = [0;2048];
        self.pc += 2;
        assert(self@.display =~= old(self)@.cls().display);
    }

    /// 00EE: returns behind the newest call.
    pub fn ret(&mut self) -> (r: Result<(), Fault>)
        requires
            old(self).wf(),
            old(self).pc <= MAX_PC,
        ensures
            final(self).wf(),
            final(self).stack == old(self).stack,
            old(self)@.ret_fault() matches Some(f) ==> r == Err::<(), Fault>(f)
                && final(self)@ == old(self)@,
            old(self)@.ret_fault() is None ==> r is Ok
                && final(self)@ == old(self)@.ret(),
    {
        if self.sp == 0 {
            return Err(Fault::StackUnderflow);
        }
        self.sp -= 1;
        assert(old(self)@.stack[self.sp as int] <= MAX_PC);
        self.pc = self.stack[self.sp as usize] + 2;
        assert(self@.stack =~= old(self)@.ret().stack);
        Ok(())
    }

    /// 1NNN: jumps to NNN.
    pub fn jmp(&mut self, opcode: u16)
        requires
            old(self).wf(),
            old(self).pc <= MAX_PC,
        ensures
            final(self).wf(),
            final(self).stack == old(self).stack,
            final(self)@ == old(self)@.jmp(opcode),
    {
        self.pc = field_nnn(opcode);
    }

    /// 2NNN: calls the subroutine at NNN.
    pub fn jsr(&mut self, opcode: u16) -> (r: Result<(), Fault>)
        requires
            old(self).wf(),
            old(self).pc <= MAX_PC,
        ensures
            final(self).wf(),
            old(self)@.jsr_fault() matches Some(f) ==> r == Err::<(), Fault>(f)
                && final(self)@ == old(self)@,
            old(self)@.jsr_fault() is None ==> r is Ok
                && final(self)@ == old(self)@.jsr(opcode),
            final(self).stack@ == if old(self)@.jsr_fault() is None {
                old(self).stack@.update(old(self).sp as int, old(self).pc)
            } else {
                old(self).stack@
            },
    {
        if self.sp >= 16 {
            return Err(Fault::StackOverflow);
        }
        self.stack[self.sp as usize] = self.pc;
        self.sp += 1;
        self.pc = field_nnn(opcode);
        assert(self@.stack =~= old(self)@.jsr(opcode).stack);
        Ok(())
    }

    /// 3XNN: skips the next instruction if VX equals NN.
    pub fn skeq_c(&mut self, opcode: u16)
        requires
            old(self).wf(),
            old(self).pc <= MAX_PC,
        ensures
            final(self).wf(),
            final(self).stack == old(self).stack,
            final(self)@ == old(self)@.skeq_c(opcode),
    {
        let x = field_x(opcode);
        let nn = field_nn(opcode);
        if self.v[x] == nn {
            self.pc += 2;
        }
        self.pc += 2;
    }

    /// 4XNN: skips the next instruction if VX differs from NN.
    pub fn skne_c(&mut self, opcode: u16)
        requires
            old(self).wf(),
            old(self).pc <= MAX_PC,
        ensures
            final(self).wf(),
            final(self).stack == old(self).stack,
            final(self)@ == old(self)@.skne_c(opcode),
    {
        let x = field_x(opcode);
        let nn = field_nn(opcode);
        if self.v[x] != nn {
            self.pc += 2;
        }
        self.pc += 2;
    }

    /// 5XY0: skips the next instruction if VX equals VY.
    pub fn skeq_r(&mut self, opcode: u16)
        requires
            old(self).wf(),
            old(self).pc <= MAX_PC,
        ensures
            final(self).wf(),
            final(self).stack == old(self).stack,
            final(self)@ == old(self)@.skeq_r(opcode),
    {
        let x = field_x(opcode);
        let y = field_y(opcode);
        if self.v[x] == self.v[y] {
            self.pc += 2;
        }
        self.pc += 2;
    }

    /// 6XNN: loads NN into VX.
    pub fn mov_c(&mut self, opcode: u16)
        requires
            old(self).wf(),
            old(self).pc <= MAX_PC,
        ensures
            final(self).wf(),
            final(self).stack == old(self).stack,
            final(self)@ == old(self)@.mov_c(opcode),
    {
        let x = field_x(opcode);
        let nn = field_nn(opcode);
        self.v[x] = nn;
        self.pc += 2;
    }

    /// 7XNN: adds NN to VX, without a carry.
    pub fn add_c(&mut self, opcode: u16)
        requires
            old(self).wf(),
            old(self).pc <= MAX_PC,
        ensures
            final(self).wf(),
            final(self).stack == old(self).stack,
            final(self)@ == old(self)@.add_c(opcode),
    {
        let x = field_x(opcode);
        let nn = field_nn(opcode);
        self.v[x] = self.v[x].wrapping_add(nn);
        self.pc += 2;
    }

    /// 8XY0: copies VY into VX.
    pub fn mov_r(&mut self, opcode: u16)
        requires
            old(self).wf(),
            old(self).pc <= MAX_PC,
        ensures
            final(self).wf(),
            final(self).stack == old(self).stack,
            final(self)@ == old(self)@.mov_r(opcode),
    {
        let x = field_x(opcode);
        let y = field_y(opcode);
        self.v[x] = self.v[y];
        self.pc += 2;
    }

    /// 8XY1: ors VY into VX.
    pub fn or_r(&mut self, opcode: u16)
        requires
            old(self).wf(),
            old(self).pc <= MAX_PC,
        ensures
            final(self).wf(),
            final(self).stack == old(self).stack,
            final(self)@ == old(self)@.or_r(opcode),
    {
        let x = field_x(opcode);
        let y = field_y(opcode);
        self.v[x] = self.v[x] | self.v[y];
        self.pc += 2;
    }

    /// 8XY2: ands VY into VX.
    pub fn and_r(&mut self, opcode: u16)
        requires
            old(self).wf(),
            old(self).pc <= MAX_PC,
        ensures
            final(self).wf(),
            final(self).stack == old(self).stack,
            final(self)@ == old(self)@.and_r(opcode),
    {
        let x = field_x(opcode);
        let y = field_y(opcode);
        self.v[x] = self.v[x] & self.v[y];
        self.pc += 2;
    }

    /// 8XY3: exclusive-ors VY into VX.
    pub fn xor_r(&mut self, opcode: u16)
        requires
            old(self).wf(),
            old(self).pc <= MAX_PC,
        ensures
            final(self).wf(),
            final(self).stack == old(self).stack,
            final(self)@ == old(self)@.xor_r(opcode),
    {
        let x = field_x(opcode);
        let y = field_y(opcode);
        self.v[x] = self.v[x] ^ self.v[y];
        self.pc += 2;
    }

    /// 8XY4: adds VY to VX; VF becomes the carry.
    pub fn add_r(&mut self, opcode: u16)
        requires
            old(self).wf(),
            old(self).pc <= MAX_PC,
        ensures
            final(self).wf(),
            final(self).stack == old(self).stack,
            final(self)@ == old(self)@.add_r(opcode),
    {
        let x = field_x(opcode);
        let y = field_y(opcode);
        let vx: u8 = self.v[x];
        let vy: u8 = self.v[y];
        self.v[x] = vx.wrapping_add(vy);
        if vx > 255 - vy {
            self.v[0xF] = 1;
        } else {
            self.v[0xF] = 0;
        }
        self.pc += 2;
    }

    /// 8XY5: subtracts VY from VX; VF becomes 1 unless it borrowed.
    pub fn sub_r(&mut self, opcode: u16)
        requires
            old(self).wf(),
            old(self).pc <= MAX_PC,
        ensures
            final(self).wf(),
            final(self).stack == old(self).stack,
            final(self)@ == old(self)@.sub_r(opcode),
    {
        let x = field_x(opcode);
        let y = field_y(opcode);
        let vx: u8 = self.v[x];
        let vy: u8 = self.v[y];
        self.v[x] = vx.wrapping_sub(vy);
        if vx >= vy {
            self.v[0xF] = 1;
        } else {
            self.v[0xF] = 0;
        }
        self.pc += 2;
    }

    /// 8XY6: shifts VX right by one; VF becomes the bit that fell out.
    pub fn shr_r(&mut self, opcode: u16)
        requires
            old(self).wf(),
            old(self).pc <= MAX_PC,
        ensures
            final(self).wf(),
            final(self).stack == old(self).stack,
            final(self)@ == old(self)@.shr_r(opcode),
    {
        let x = field_x(opcode);
        let vx: u8 = self.v[x];
        let lsb: u8 = vx & 0x1;
        assert(vx & 0x1 == vx % 2 && vx >> 1 == vx / 2) by (bit_vector);
        self.v[x] = vx >> 1;
        self.v[0xF] = lsb;
        self.pc += 2;
    }

    /// 8XY7: sets VX to VY minus VX; VF becomes 1 unless it borrowed.
    pub fn rsb_r(&mut self, opcode: u16)
        requires
            old(self).wf(),
            old(self).pc <= MAX_PC,
        ensures
            final(self).wf(),
            final(self).stack == old(self).stack,
            final(self)@ == old(self)@.rsb_r(opcode),
    {
        let x = field_x(opcode);
        let y = field_y(opcode);
        let vx: u8 = self.v[x];
        let vy: u8 = self.v[y];
        self.v[x] = vy.wrapping_sub(vx);
        if vy >= vx {
            self.v[0xF] = 1;
        } else {
            self.v[0xF] = 0;
        }
        self.pc += 2;
    }

    /// 8XYE: shifts VX left by one; VF becomes the bit that fell out.
    pub fn shl_r(&mut self, opcode: u16)
        requires
            old(self).wf(),
            old(self).pc <= MAX_PC,
        ensures
            final(self).wf(),
            final(self).stack == old(self).stack,
            final(self)@ == old(self)@.shl_r(opcode),
    {
        let x = field_x(opcode);
        let vx: u8 = self.v[x];
        let msb: u8 = (vx & 0x80) >> 7;
        assert((vx & 0x80) >> 7 == vx / 128 && vx << 1 == (vx * 2) % 256) by (bit_vector);
        self.v[x] = vx << 1;
        self.v[0xF] = msb;
        self.pc += 2;
    }

    /// 9XY0: skips the next instruction if VX differs from VY.
    pub fn skne_r(&mut self, opcode: u16)
        requires
            old(self).wf(),
            old(self).pc <= MAX_PC,
        ensures
            final(self).wf(),
            final(self).stack == old(self).stack,
            final(self)@ == old(self)@.skne_r(opcode),
    {
        let x = field_x(opcode);
        let y = field_y(opcode);
        if self.v[x] != self.v[y] {
            self.pc += 2;
        }
        self.pc += 2;
    }

    /// ANNN: loads NNN into I.
    pub fn mvi(&mut self, opcode: u16)
        requires
            old(self).wf(),
            old(self).pc <= MAX_PC,
        ensures
            final(self).wf(),
            final(self).stack == old(self).stack,
            final(self)@ == old(self)@.mvi(opcode),
    {
        self.index = field_nnn(opcode);
        self.pc += 2;
    }

    /// BNNN: jumps to NNN plus V0.
    pub fn jmi(&mut self, opcode: u16)
        requires
            old(self).wf(),
            old(self).pc <= MAX_PC,
        ensures
            final(self).wf(),
            final(self).stack == old(self).stack,
            final(self)@ == old(self)@.jmi(opcode),
    {
        let nnn = field_nnn(opcode);
        self.pc = nnn + self.v[0] as u16;
    }

    /// CXNN: draws a random byte and loads its bits under NN into VX.
    pub fn rand(&mut self, opcode: u16)
        requires
            old(self).wf(),
            old(self).pc <= MAX_PC,
        ensures
            final(self).wf(),
            final(self).stack == old(self).stack,
            exists|random: u8| final(self)@ == old(self)@.rand(opcode, random),
    {
        let random = random_byte();
        self.rand_with(opcode, random);
    }

    /// CXNN with the byte that was drawn: loads `random & NN` into VX.
    pub fn rand_with(&mut self, opcode: u16, random: u8)
        requires
            old(self).wf(),
            old(self).pc <= MAX_PC,
        ensures
            final(self).wf(),
            final(self).stack == old(self).stack,
            final(self)@ == old(self)@.rand(opcode, random),
    {
        let x = field_x(opcode);
        let nn = field_nn(opcode);
        self.v[x] = random & nn;
        self.pc += 2;
    }

    /// DXYN: draws the N-row sprite at I onto the display at (VX, VY),
    /// flipping the pixels under its set bits; VF says whether a set pixel was
    /// flipped.
    pub fn sprite(&mut self, opcode: u16) -> (r: Result<(), Fault>)
        requires
            old(self).wf(),
            old(self).pc <= MAX_PC,
        ensures
            final(self).wf(),
            final(self).stack == old(self).stack,
            old(self)@.sprite_fault(opcode) matches Some(f) ==> r == Err::<(), Fault>(f)
                && final(self)@ == old(self)@,
            old(self)@.sprite_fault(opcode) is None ==> r is Ok
                && final(self)@ == old(self)@.sprite(opcode),
    {
        let vx: u8 = self.v[field_x(opcode)];
        let vy: u8 = self.v[field_y(opcode)];
        let height = field_n(opcode);
        let base = self.index as usize;
        if height > 0 && base + height > 4096 {
            return Err(Fault::Memory);
        }
        let ghost before = self@;
        self.v[0xF] = 0;
        proof {
            lemma_whole_sprite(before, opcode);
        }
        let mut yline: usize = 0;
        while yline < height
            invariant
                yline <= height,
                height == op_n(opcode),
                height > 0 ==> base + height <= 4096,
                before == old(self)@,
                before.wf(),
                vx == before.registers[op_x(opcode)],
                vy == before.registers[op_y(opcode)],
                base == before.index,
                self.sp == old(self).sp,
                self.stack == old(self).stack,
                self@ == (State { registers: self.v@, display: self.display@, ..before }),
                self.v@ == before.registers.update(
                    15,
                    if before.sprite_collides_before(opcode, yline as int, 0) {
                        1u8
                    } else {
                        0u8
                    },
                ),
                forall|p: int|
                    0 <= p < 2048 ==> #[trigger] self.display@[p] == if before.sprite_hits_before(
                        opcode,
                        p,
                        yline as int,
                        0,
                    ) {
                        before.display[p] ^ 1
                    } else {
                        before.display[p]
                    },
            decreases height - yline,
        {
            let pixel: u8 = self.memory[base + yline];
            let mut xline: u8 = 0;
            while xline < 8
                invariant
                    xline <= 8,
                    yline < height,
                    height == op_n(opcode),
                    base + height <= 4096,
                    before == old(self)@,
                    before.wf(),
                    vx == before.registers[op_x(opcode)],
                    vy == before.registers[op_y(opcode)],
                    base == before.index,
                    pixel == before.memory[base + yline],
                    self.sp == old(self).sp,
                    self.stack == old(self).stack,
                    self@ == (State { registers: self.v@, display: self.display@, ..before }),
                    self.v@ == before.registers.update(
                        15,
                        if before.sprite_collides_before(opcode, yline as int, xline as int) {
                            1u8
                        } else {
                            0u8
                        },
                    ),
                    forall|p: int|
                        0 <= p < 2048 ==> #[trigger] self.display@[p]
                            == if before.sprite_hits_before(opcode, p, yline as int, xline as int) {
                            before.display[p] ^ 1
                        } else {
                            before.display[p]
                        },
                decreases 8 - xline,
            {
                proof {
                    lemma_next_bit(before, opcode, yline as int, xline as int);
                }
                let ghost spot = landing(vx, vy, yline as int, xline as int);
                if pixel & (0x80u8 >> xline) != 0 {
                    let x_pos = (vx as usize + xline as usize) % 64;
                    let y_pos = (vy as usize + yline) % 32;
                    let idx = x_pos + y_pos * 64;
                    assert(idx == spot);
                    if self.display[idx] == 1 {
                        self.v[0xF] = 1;
                    }
                    self.display[idx] = self.display[idx] ^ 1;
                }
                proof {
                    let rows = yline as int;
                    let cols = xline as int;
                    let struck = sprite_bit(pixel, xline) && before.display[spot] == 1;
                    if before.sprite_collides_before(opcode, rows, cols) {
                        let w = choose|p: int|
                            0 <= p < 2048 && #[trigger] before.sprite_hits_before(
                                opcode,
                                p,
                                rows,
                                cols,
                            ) && before.display[p] == 1;
                        assert(before.sprite_hits_before(opcode, w, rows, cols + 1));
                    }
                    if struck {
                        assert(before.sprite_hits_before(opcode, spot, rows, cols + 1));
                    }
                    if before.sprite_collides_before(opcode, rows, cols + 1) {
                        let w = choose|p: int|
                            0 <= p < 2048 && #[trigger] before.sprite_hits_before(
                                opcode,
                                p,
                                rows,
                                cols + 1,
                            ) && before.display[p] == 1;
                        assert(before.sprite_hits_before(opcode, w, rows, cols) || struck);
                    }
                    assert(before.sprite_collides_before(opcode, rows, cols + 1) <==> (
                    before.sprite_collides_before(opcode, rows, cols) || struck));
                    assert(self.v@ =~= before.registers.update(
                        15,
                        if before.sprite_collides_before(opcode, rows, cols + 1) {
                            1u8
                        } else {
                            0u8
                        },
                    ));
                }
                xline += 1;
            }
            proof {
                lemma_next_row(before, opcode, yline as int);
            }
            yline += 1;
        }
        self.draw_flag = true;
        self.pc += 2;
        assert(self@.display =~= before.sprite(opcode).display);
        assert(self@.registers =~= before.sprite(opcode).registers);
        assert forall|p: int| 0 <= p < 2048 implies #[trigger] self@.display[p] <= 1 by {
            let d = before.display[p];
            assert(d <= 1 ==> d ^ 1 <= 1) by (bit_vector);
        }
        Ok(())
    }

    /// EX9E: skips the next instruction if the key that VX names is down.
    pub fn skpr(&mut self, opcode: u16) -> (r: Result<(), Fault>)
        requires
            old(self).wf(),
            old(self).pc <= MAX_PC,
        ensures
            final(self).wf(),
            final(self).stack == old(self).stack,
            old(self)@.key_fault(opcode) matches Some(f) ==> r == Err::<(), Fault>(f)
                && final(self)@ == old(self)@,
            old(self)@.key_fault(opcode) is None ==> r is Ok
                && final(self)@ == old(self)@.skpr(opcode),
    {
        let x = field_x(opcode);
        let k = self.v[x] as usize;
        if k >= 16 {
            return Err(Fault::Key);
        }
        if self.keys[k] {
            self.pc += 2;
        }
        self.pc += 2;
        Ok(())
    }

    /// EXA1: skips the next instruction if the key that VX names is up.
    pub fn skup(&mut self, opcode: u16) -> (r: Result<(), Fault>)
        requires
            old(self).wf(),
            old(self).pc <= MAX_PC,
        ensures
            final(self).wf(),
            final(self).stack == old(self).stack,
            old(self)@.key_fault(opcode) matches Some(f) ==> r == Err::<(), Fault>(f)
                && final(self)@ == old(self)@,
            old(self)@.key_fault(opcode) is None ==> r is Ok
                && final(self)@ == old(self)@.skup(opcode),
    {
        let x = field_x(opcode);
        let k = self.v[x] as usize;
        if k >= 16 {
            return Err(Fault::Key);
        }
        if !self.keys[k] {
            self.pc += 2;
        }
        self.pc += 2;
        Ok(())
    }

    /// FX07: loads the delay timer into VX.
    pub fn gdelay(&mut self, opcode: u16)
        requires
            old(self).wf(),
            old(self).pc <= MAX_PC,
        ensures
            final(self).wf(),
            final(self).stack == old(self).stack,
            final(self)@ == old(self)@.gdelay(opcode),
    {
        let x = field_x(opcode);
        self.v[x] = self.delay_timer;
        self.pc += 2;
    }

    /// FX0A: loads the lowest key that is down into VX and goes on; with no
    /// key down it leaves the machine as it is, to be tried again.
    pub fn key(&mut self, opcode: u16)
        requires
            old(self).wf(),
            old(self).pc <= MAX_PC,
        ensures
            final(self).wf(),
            final(self).stack == old(self).stack,
            final(self)@ == old(self)@.key(opcode),
    {
        let x = field_x(opcode);
        let mut k: u8 = 0;
        while k < 16
            invariant
                k <= 16,
                x == op_x(opcode),
                *self == *old(self),
                self.wf(),
                self.pc <= MAX_PC,
                first_pressed(self.keys@, 0) == first_pressed(self.keys@, k as int),
            decreases 16 - k,
        {
            if self.keys[k as usize] {
                assert(first_pressed(self.keys@, 0) == k);
                self.v[x] = k;
                self.pc += 2;
                return ;
            }
            k += 1;
        }
    }

    /// FX15: loads VX into the delay timer.
    pub fn sdelay(&mut self, opcode: u16)
        requires
            old(self).wf(),
            old(self).pc <= MAX_PC,
        ensures
            final(self).wf(),
            final(self).stack == old(self).stack,
            final(self)@ == old(self)@.sdelay(opcode),
    {
        let x = field_x(opcode);
        self.delay_timer = self.v[x];
        self.pc += 2;
    }

    /// FX18: loads VX into the sound timer.
    pub fn ssound(&mut self, opcode: u16)
        requires
            old(self).wf(),
            old(self).pc <= MAX_PC,
        ensures
            final(self).wf(),
            final(self).stack == old(self).stack,
            final(self)@ == old(self)@.ssound(opcode),
    {
        let x = field_x(opcode);
        self.sound_timer = self.v[x];
        self.pc += 2;
    }

    /// FX1E: adds VX to I, wrapping at sixteen bits.
    pub fn adi(&mut self, opcode: u16)
        requires
            old(self).wf(),
            old(self).pc <= MAX_PC,
        ensures
            final(self).wf(),
            final(self).stack == old(self).stack,
            final(self)@ == old(self)@.adi(opcode),
    {
        let x = field_x(opcode);
        self.index = self.index.wrapping_add(self.v[x] as u16);
        self.pc += 2;
    }

    /// FX29: points I at the glyph for VX.
    pub fn font(&mut self, opcode: u16)
        requires
            old(self).wf(),
            old(self).pc <= MAX_PC,
        ensures
            final(self).wf(),
            final(self).stack == old(self).stack,
            final(self)@ == old(self)@.font(opcode),
    {
        let x = field_x(opcode);
        self.index = 0x50 + (self.v[x] as u16) * 5;
        self.pc += 2;
    }

    /// FX33: stores the three decimal digits of VX at I, I+1 and I+2.
    pub fn bcd(&mut self, opcode: u16) -> (r: Result<(), Fault>)
        requires
            old(self).wf(),
            old(self).pc <= MAX_PC,
        ensures
            final(self).wf(),
            final(self).stack == old(self).stack,
            old(self)@.bcd_fault() matches Some(f) ==> r == Err::<(), Fault>(f)
                && final(self)@ == old(self)@,
            old(self)@.bcd_fault() is None ==> r is Ok
                && final(self)@ == old(self)@.bcd(opcode),
    {
        let x = field_x(opcode);
        if self.index >= 4094 {
            return Err(Fault::Memory);
        }
        let i = self.index as usize;
        let vx: u8 = self.v[x];
        self.memory[i] = vx / 100;
        self.memory[i + 1] = (vx / 10) % 10;
        self.memory[i + 2] = vx % 10;
        self.pc += 2;
        Ok(())
    }

    /// FX55: stores V0 to VX in memory from I on.
    pub fn str(&mut self, opcode: u16) -> (r: Result<(), Fault>)
        requires
            old(self).wf(),
            old(self).pc <= MAX_PC,
        ensures
            final(self).wf(),
            final(self).stack == old(self).stack,
            old(self)@.block_fault(opcode) matches Some(f) ==> r == Err::<(), Fault>(f)
                && final(self)@ == old(self)@,
            old(self)@.block_fault(opcode) is None ==> r is Ok
                && final(self)@ == old(self)@.str(opcode),
    {
        let x = field_x(opcode);
        if self.index as usize + x >= 4096 {
            return Err(Fault::Memory);
        }
        let base = self.index as usize;
        let mut i: usize = 0;
        while i <= x
            invariant
                i <= x + 1,
                x < 16,
                base + x < 4096,
                base == self.index,
                self.sp == old(self).sp,
                self.stack == old(self).stack,
                self@ == (State { memory: self.memory@, ..old(self)@ }),
                forall|a: int|
                    0 <= a < 4096 ==> #[trigger] self.memory@[a] == if base <= a < base + i {
                        old(self).v@[a - base]
                    } else {
                        old(self).memory@[a]
                    },
            decreases x + 1 - i,
        {
            self.memory[base + i] = self.v[i];
            i += 1;
        }
        self.pc += 2;
        assert(self@.memory =~= old(self)@.str(opcode).memory);
        Ok(())
    }

    /// FX65: loads V0 to VX from memory from I on.
    pub fn ldr(&mut self, opcode: u16) -> (r: Result<(), Fault>)
        requires
            old(self).wf(),
            old(self).pc <= MAX_PC,
        ensures
            final(self).wf(),
            final(self).stack == old(self).stack,
            old(self)@.block_fault(opcode) matches Some(f) ==> r == Err::<(), Fault>(f)
                && final(self)@ == old(self)@,
            old(self)@.block_fault(opcode) is None ==> r is Ok
                && final(self)@ == old(self)@.ldr(opcode),
    {
        let x = field_x(opcode);
        if self.index as usize + x >= 4096 {
            return Err(Fault::Memory);
        }
        let base = self.index as usize;
        let mut i: usize = 0;
        while i <= x
            invariant
                i <= x + 1,
                x < 16,
                base + x < 4096,
                base == self.index,
                self.sp == old(self).sp,
                self.stack == old(self).stack,
                self@ == (State { registers: self.v@, ..old(self)@ }),
                forall|r: int|
                    0 <= r < 16 ==> #[trigger] self.v@[r] == if r < i {
                        old(self).memory@[base + r]
                    } else {
                        old(self).v@[r]
                    },
            decreases x + 1 - i,
        {
            self.v[i] = self.memory[base + i];
            i += 1;
        }
        self.pc += 2;
        assert(self@.registers =~= old(self)@.ldr(opcode).registers);
        Ok(())
    }

    /// Takes over the sixteen key states that the input side has read.
    pub fn set_keys(&mut self, keys: [bool; 16])
        requires
            old(self).wf(),
        ensures
            final(self).wf(),
            final(self).stack == old(self).stack,
            final(self)@ == (State { keys: keys@, ..old(self)@ }),
    {
        self.keys = keys;
    }

    /// Copies a program image into memory from 0x200 on, and says whether
    /// all of it fitted. What lies beyond the 3584 bytes that fit is dropped.
    pub fn load_rom(&mut self, image: &[u8]) -> (complete: bool)
        requires
            old(self).wf(),
        ensures
            final(self).wf(),
            final(self).stack == old(self).stack,
            final(self)@ == old(self)@.load(image@),
            complete <==> image@.len() <= 3584,
    {
        let mut i: usize = 0;
        while i < image.len() && i + 512 < 4096
            invariant
                i <= image@.len(),
                i <= 3584,
                self.sp == old(self).sp,
                self.stack == old(self).stack,
                self@ == (State { memory: self.memory@, ..old(self)@ }),
                forall|a: int|
                    0 <= a < 4096 ==> #[trigger] self.memory@[a] == if 512 <= a < 512 + i {
                        image@[a - 512]
                    } else {
                        old(self).memory@[a]
                    },
            decreases 3584 - i,
        {
            self.memory[i + 512] = image[i];
            i += 1;
        }
        assert(self@.memory =~= old(self)@.load(image@).memory);
        i >= image.len()
    }

    /// Decodes `opcode` and executes it, or refuses it with the fault that
    /// stands in its way, leaving the machine as it was. An opcode that names
    /// no instruction only moves the program counter on.
    pub fn decode_execute(&mut self, opcode: u16) -> (r: Result<(), Fault>)
        requires
            old(self).wf(),
        ensures
            final(self).wf(),
            final(self).stack@ == old(self).slots_after(opcode),
            old(self)@.execute_fault(opcode) matches Some(f) ==> r == Err::<(), Fault>(f)
                && final(self)@ == old(self)@,
            old(self)@.execute_fault(opcode) is None ==> r is Ok && exists|random: u8|
                final(self)@ == #[trigger] old(self)@.execute(opcode, random),
            old(self)@.execute_fault(opcode) is None && op_family(opcode) != 0xC ==> forall|
                random: u8,
            |
                final(self)@ == #[trigger] old(self)@.execute(opcode, random),
    {
        if self.pc > MAX_PC {
            return Err(Fault::ProgramCounter);
        }
        let r = match family(opcode) {
            0x0 => match field_nn(opcode) {
                0xE0 => {
                    self.cls();
                    Ok(())
                },
                0xEE => self.ret(),
                _ => {
                    self.pc += 2;
                    Ok(())
                },
            },
            0x1 => {
                self.jmp(opcode);
                Ok(())
            },
            0x2 => self.jsr(opcode),
            0x3 => {
                self.skeq_c(opcode);
                Ok(())
            },
            0x4 => {
                self.skne_c(opcode);
                Ok(())
            },
            0x5 => {
                self.skeq_r(opcode);
                Ok(())
            },
            0x6 => {
                self.mov_c(opcode);
                Ok(())
            },
            0x7 => {
                self.add_c(opcode);
                Ok(())
            },
            0x8 => {
                match field_n(opcode) {
                    0x0 => self.mov_r(opcode),
                    0x1 => self.or_r(opcode),
                    0x2 => self.and_r(opcode),
                    0x3 => self.xor_r(opcode),
                    0x4 => self.add_r(opcode),
                    0x5 => self.sub_r(opcode),
                    0x6 => self.shr_r(opcode),
                    0x7 => self.rsb_r(opcode),
                    0xE => self.shl_r(opcode),
                    _ => self.pc += 2,
                }
                Ok(())
            },
            0x9 => {
                self.skne_r(opcode);
                Ok(())
            },
            0xA => {
                self.mvi(opcode);
                Ok(())
            },
            0xB => {
                self.jmi(opcode);
                Ok(())
            },
            0xC => {
                self.rand(opcode);
                proof {
                    let drawn = choose|random: u8| self@ == old(self)@.rand(opcode, random);
                    assert(self@ == old(self)@.execute(opcode, drawn));
                }
                Ok(())
            },
            0xD => self.sprite(opcode),
            0xE => match field_nn(opcode) {
                0x9E => self.skpr(opcode),
                0xA1 => self.skup(opcode),
                _ => {
                    self.pc += 2;
                    Ok(())
                },
            },
            _ => match field_nn(opcode) {
                0x07 => {
                    self.gdelay(opcode);
                    Ok(())
                },
                0x0A => {
                    self.key(opcode);
                    Ok(())
                },
                0x15 => {
                    self.sdelay(opcode);
                    Ok(())
                },
                0x18 => {
                    self.ssound(opcode);
                    Ok(())
                },
                0x1E => {
                    self.adi(opcode);
                    Ok(())
                },
                0x29 => {
                    self.font(opcode);
                    Ok(())
                },
                0x33 => self.bcd(opcode),
                0x55 => self.str(opcode),
                0x65 => self.ldr(opcode),
                _ => {
                    self.pc += 2;
                    Ok(())
                },
            },
        };
        proof {
            if r is Ok && op_family(opcode) != 0xC {
                assert(self@ == old(self)@.execute(opcode, 0u8));
            }
        }
        r
    }

    /// One cycle: fetches the opcode at the program counter and executes it,
    /// then counts both timers down. Where the instruction cannot run, the
    /// fault comes back and the machine stays as it was, timers included.
    pub fn cycle(&mut self) -> (r: Result<(), Fault>)
        requires
            old(self).wf(),
        ensures
            final(self).wf(),
            final(self).stack@ == old(self).slots_after(old(self)@.fetch()),
            old(self)@.cycle_fault() matches Some(f) ==> r == Err::<(), Fault>(f)
                && final(self)@ == old(self)@,
            old(self)@.cycle_fault() is None ==> r is Ok && exists|random: u8|
                final(self)@ == #[trigger] old(self)@.cycle(random),
            old(self)@.cycle_fault() is None && op_family(old(self)@.fetch()) != 0xC ==> forall|
                random: u8,
            |
                final(self)@ == #[trigger] old(self)@.cycle(random),
    {
        if self.pc > MAX_PC {
            return Err(Fault::ProgramCounter);
        }
        let opcode = self.fetch_opcode();
        match self.decode_execute(opcode) {
            Err(fault) => {
                return Err(fault);
            },
            Ok(()) => {},
        }
        let ghost executed = self@;
        if self.delay_timer > 0 {
            self.delay_timer -= 1;
        }
        if self.sound_timer > 0 {
            self.sound_timer -= 1;
        }
        proof {
            let drawn = choose|random: u8| executed == old(self)@.execute(opcode, random);
            assert(self@ == old(self)@.cycle(drawn));
        }
        Ok(())
    }
}

} // verus!

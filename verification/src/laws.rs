//! What follows from the instruction semantics, stated for every state and
//! every opcode and proved.

use crate::blit::{landing, lemma_landing};
use crate::model::{op_family, op_n, op_nn, op_x, op_y, sprite_bit, State, MAX_PC};
use vstd::prelude::*;

verus! {

/// 8XY4 leaves the sum of VX and VY modulo 256 in VX, and in VF a 1 exactly
/// when the sum exceeds 255, else a 0. Where X is F, the flag is what VF holds.
pub proof fn law_add_carries(m: State, opcode: u16)
    requires
        m.wf(),
    ensures
        op_x(opcode) != 15 ==> m.add_r(opcode).registers[op_x(opcode)] == (m.registers[op_x(
            opcode,
        )] + m.registers[op_y(opcode)]) % 256,
        m.add_r(opcode).registers[15] == 1 <==> m.registers[op_x(opcode)] + m.registers[op_y(
            opcode,
        )] > 255,
        m.add_r(opcode).registers[15] == 0 <==> m.registers[op_x(opcode)] + m.registers[op_y(
            opcode,
        )] <= 255,
{
}

/// 8XY5 leaves VX minus VY modulo 256 in VX, and in VF a 1 exactly when VX was
/// at least VY, else a 0. Where X is F, the flag is what VF holds.
pub proof fn law_sub_borrows(m: State, opcode: u16)
    requires
        m.wf(),
    ensures
        op_x(opcode) != 15 ==> m.sub_r(opcode).registers[op_x(opcode)] == (m.registers[op_x(
            opcode,
        )] - m.registers[op_y(opcode)]) % 256,
        m.sub_r(opcode).registers[15] == 1 <==> m.registers[op_x(opcode)] >= m.registers[op_y(
            opcode,
        )],
        m.sub_r(opcode).registers[15] == 0 <==> m.registers[op_x(opcode)] < m.registers[op_y(
            opcode,
        )],
{
}

/// 8XY7 leaves VY minus VX modulo 256 in VX, and in VF a 1 exactly when VY was
/// at least VX, else a 0. Where X is F, the flag is what VF holds.
pub proof fn law_rsb_borrows(m: State, opcode: u16)
    requires
        m.wf(),
    ensures
        op_x(opcode) != 15 ==> m.rsb_r(opcode).registers[op_x(opcode)] == (m.registers[op_y(
            opcode,
        )] - m.registers[op_x(opcode)]) % 256,
        m.rsb_r(opcode).registers[15] == 1 <==> m.registers[op_y(opcode)] >= m.registers[op_x(
            opcode,
        )],
        m.rsb_r(opcode).registers[15] == 0 <==> m.registers[op_y(opcode)] < m.registers[op_x(
            opcode,
        )],
{
}

/// 8XY6 leaves in VF the lowest bit that VX had, and 8XYE the highest; in VX
/// they leave the shifted byte, where X is not F.
pub proof fn law_shift_flags(m: State, opcode: u16)
    requires
        m.wf(),
    ensures
        m.shr_r(opcode).registers[15] == m.registers[op_x(opcode)] & 1,
        m.shl_r(opcode).registers[15] == m.registers[op_x(opcode)] >> 7,
        op_x(opcode) != 15 ==> m.shr_r(opcode).registers[op_x(opcode)] == m.registers[op_x(opcode)]
            >> 1,
        op_x(opcode) != 15 ==> m.shl_r(opcode).registers[op_x(opcode)] == m.registers[op_x(opcode)]
            << 1,
{
    let a: u8 = m.registers[op_x(opcode)];
    assert(a & 1 == a % 2 && a >> 7 == a / 128 && a >> 1 == a / 2 && a << 1 == (a * 2) % 256)
        by (bit_vector);
}

/// Whether two states show a sprite at the same place: the same columns and
/// rows of the display, taken from the same bytes.
pub open spec fn same_sprite(a: State, b: State, opcode: u16) -> bool {
    &&& a.registers[op_x(opcode)] % 64 == b.registers[op_x(opcode)] % 64
    &&& a.registers[op_y(opcode)] % 32 == b.registers[op_y(opcode)] % 32
    &&& a.index == b.index
    &&& a.memory == b.memory
}

/// Drawing a sprite a second time at the same origin gives back the display
/// as it was before the first. The second drawing leaves 0 in VF exactly when
/// every pixel under the sprite's set bits was set before the first.
pub proof fn law_sprite_twice(m: State, opcode: u16)
    requires
        m.wf(),
        same_sprite(m, m.sprite(opcode), opcode),
    ensures
        m.sprite(opcode).sprite(opcode).display == m.display,
        m.sprite(opcode).sprite(opcode).registers[15] == 0 <==> forall|p: int|
            0 <= p < 2048 && #[trigger] m.sprite_hits(opcode, p) ==> m.display[p] == 1,
{
    let once = m.sprite(opcode);
    let twice = once.sprite(opcode);
    assert forall|p: int| 0 <= p < 2048 implies (#[trigger] once.sprite_hits(opcode, p)
        <==> m.sprite_hits(opcode, p)) by {}
    assert forall|p: int| 0 <= p < 2048 implies #[trigger] twice.display[p] == m.display[p] by {
        let d = m.display[p];
        assert((d ^ 1) ^ 1 == d) by (bit_vector);
    }
    assert(twice.display =~= m.display);
    assert forall|p: int| 0 <= p < 2048 && m.sprite_hits(opcode, p) implies (
    #[trigger] once.display[p] == 1 <==> m.display[p] != 1) by {
        let d = m.display[p];
        assert(d <= 1 ==> (d ^ 1 == 1 <==> d != 1)) by (bit_vector);
    }
    if once.sprite_collides(opcode) {
        let w = choose|p: int|
            0 <= p < 2048 && #[trigger] once.sprite_hits(opcode, p) && once.display[p] == 1;
        assert(m.sprite_hits(opcode, w) && m.display[w] != 1);
    } else {
        assert forall|p: int| 0 <= p < 2048 && #[trigger] m.sprite_hits(opcode, p) implies m.display[p]
            == 1 by {
            assert(once.sprite_hits(opcode, p));
            assert(once.display[p] != 1);
        }
    }
}

/// Column `k` of row `r` of a sprite lands in column (VX + k) mod 64 of row
/// (VY + r) mod 32, each wrapping round its edge by itself, and that pixel is
/// flipped exactly when the bit is set.
pub proof fn law_sprite_wraps(m: State, opcode: u16, r: int, k: int)
    requires
        m.wf(),
        0 <= k < 8,
        0 <= r < op_n(opcode),
    ensures
        ({
            let spot = landing(m.registers[op_x(opcode)], m.registers[op_y(opcode)], r, k);
            &&& 0 <= spot < 2048
            &&& spot % 64 == (m.registers[op_x(opcode)] + k) % 64
            &&& spot / 64 == (m.registers[op_y(opcode)] + r) % 32
            &&& m.sprite_hits(opcode, spot) <==> sprite_bit(m.memory[m.index + r], k as u8)
            &&& m.sprite(opcode).display[spot] == if sprite_bit(m.memory[m.index + r], k as u8) {
                m.display[spot] ^ 1
            } else {
                m.display[spot]
            }
        }),
{
    let vx = m.registers[op_x(opcode)];
    let vy = m.registers[op_y(opcode)];
    lemma_landing(vx, vy, r, k, landing(vx, vy, r, k));
}

/// A pixel on which no set bit of the sprite lands is left as it was.
pub proof fn law_sprite_spares(m: State, opcode: u16, p: int)
    requires
        m.wf(),
        0 <= p < 2048,
        forall|r: int, k: int|
            0 <= r < op_n(opcode) && 0 <= k < 8 && sprite_bit(m.memory[m.index + r], k as u8) ==> p
                != #[trigger] landing(m.registers[op_x(opcode)], m.registers[op_y(opcode)], r, k),
    ensures
        m.sprite(opcode).display[p] == m.display[p],
{
    let vx = m.registers[op_x(opcode)];
    let vy = m.registers[op_y(opcode)];
    if m.sprite_hits(opcode, p) {
        let k = State::sprite_col(vx, p);
        let r = State::sprite_row(vy, p);
        lemma_landing(vx, vy, r, k, p);
        assert(p == landing(vx, vy, r, k));
    }
}

/// A call followed at once by a return goes on two bytes behind the call,
/// with everything else as it was.
pub proof fn law_call_return(m: State, opcode: u16)
    requires
        m.wf(),
        m.pc <= MAX_PC,
        m.jsr_fault() is None,
    ensures
        m.jsr(opcode).ret_fault() is None,
        m.jsr(opcode).ret() == m.step(2),
        m.jsr(opcode).ret().pc == m.pc + 2,
{
    assert(m.stack.push(m.pc).drop_last() =~= m.stack);
}

/// Each of the six skips moves the program counter on by 4 where its test
/// holds and by 2 where it does not, and changes nothing else.
pub proof fn law_skips(m: State, opcode: u16)
    requires
        m.wf(),
        m.pc <= MAX_PC,
    ensures
        m.skeq_c(opcode) == m.step(if m.registers[op_x(opcode)] == op_nn(opcode) { 4int } else { 2 }),
        m.skne_c(opcode) == m.step(if m.registers[op_x(opcode)] != op_nn(opcode) { 4int } else { 2 }),
        m.skeq_r(opcode) == m.step(
            if m.registers[op_x(opcode)] == m.registers[op_y(opcode)] { 4int } else { 2 },
        ),
        m.skne_r(opcode) == m.step(
            if m.registers[op_x(opcode)] != m.registers[op_y(opcode)] { 4int } else { 2 },
        ),
        m.skpr(opcode) == m.step(if m.keys[m.registers[op_x(opcode)] as int] { 4int } else { 2 }),
        m.skup(opcode) == m.step(if !m.keys[m.registers[op_x(opcode)] as int] { 4int } else { 2 }),
        m.step(4).pc == m.pc + 4,
        m.step(2).pc == m.pc + 2,
        m.step(4) == (State { pc: m.step(4).pc, ..m }),
        m.step(2) == (State { pc: m.step(2).pc, ..m }),
{
}

/// Loading a program image changes no byte below 0x200, the glyphs among
/// them, and nothing but memory; an image of 3584 bytes or more fills all of
/// memory from 0x200 on with its first 3584 bytes.
pub proof fn law_load_fills(m: State, image: Seq<u8>)
    requires
        m.wf(),
    ensures
        m.load(image).wf(),
        m.load(image) == (State { memory: m.load(image).memory, ..m }),
        forall|a: int| 0 <= a < 0x200 ==> #[trigger] m.load(image).memory[a] == m.memory[a],
        image.len() >= 3584 ==> m.load(image).memory.subrange(0x200, 4096) == image.take(3584),
        image.len() < 3584 ==> m.load(image).memory.subrange(0x200, 0x200 + image.len() as int) == image,
        forall|a: int|
            0x200 + image.len() <= a < 4096 ==> #[trigger] m.load(image).memory[a] == m.memory[a],
{
    if image.len() >= 3584 {
        assert(m.load(image).memory.subrange(0x200, 4096) =~= image.take(3584));
    } else {
        assert(m.load(image).memory.subrange(0x200, 0x200 + image.len() as int) =~= image);
    }
}

/// A cycle whose instruction does not set a timer counts that timer down by
/// one, and leaves it at zero once it is there.
pub proof fn law_timers_count_down(m: State, random: u8)
    requires
        m.wf(),
        m.cycle_fault() is None,
    ensures
        !(op_family(m.fetch()) == 0xF && op_nn(m.fetch()) == 0x15) ==> m.cycle(random).delay_timer
            == if m.delay_timer > 0 {
            m.delay_timer - 1
        } else {
            0
        },
        !(op_family(m.fetch()) == 0xF && op_nn(m.fetch()) == 0x18) ==> m.cycle(random).sound_timer
            == if m.sound_timer > 0 {
            m.sound_timer - 1
        } else {
            0
        },
{
}

/// The state after as many cycles as `randoms` is long, of which the k-th
/// draws `randoms[k]` where it draws a byte.
pub open spec fn run(m: State, randoms: Seq<u8>) -> State
    decreases randoms.len(),
{
    if randoms.len() == 0 {
        m
    } else {
        run(m.cycle(randoms[0]), randoms.drop_first())
    }
}

/// Whether each of those cycles can run and none of them sets a timer.
pub open spec fn runs_without_timer_writes(m: State, randoms: Seq<u8>) -> bool
    decreases randoms.len(),
{
    randoms.len() == 0 || {
        &&& m.cycle_fault() is None
        &&& !(op_family(m.fetch()) == 0xF && (op_nn(m.fetch()) == 0x15 || op_nn(m.fetch()) == 0x18))
        &&& runs_without_timer_writes(m.cycle(randoms[0]), randoms.drop_first())
    }
}

/// Over cycles that do not set them, the timers fall by one a cycle until
/// they are zero, and then stay zero.
pub proof fn law_timers_run_down(m: State, randoms: Seq<u8>)
    requires
        m.wf(),
        runs_without_timer_writes(m, randoms),
    ensures
        run(m, randoms).wf(),
        run(m, randoms).delay_timer == if m.delay_timer >= randoms.len() {
            m.delay_timer - randoms.len()
        } else {
            0
        },
        run(m, randoms).sound_timer == if m.sound_timer >= randoms.len() {
            m.sound_timer - randoms.len()
        } else {
            0
        },
    decreases randoms.len(),
{
    if randoms.len() > 0 {
        law_timers_count_down(m, randoms[0]);
        law_execute_keeps_wf(m, m.fetch(), randoms[0]);
        law_timers_run_down(m.cycle(randoms[0]), randoms.drop_first());
    }
}

/// Only CXNN looks at the random byte.
pub proof fn law_chance_only_in_rand(m: State, opcode: u16, r1: u8, r2: u8)
    requires
        op_family(opcode) != 0xC,
    ensures
        m.execute(opcode, r1) == m.execute(opcode, r2),
{
}

/// An opcode that names no instruction moves the program counter on by two
/// and changes nothing else.
pub proof fn law_unknown_is_skipped(m: State, opcode: u16, random: u8)
    requires
        m.wf(),
        m.pc <= MAX_PC,
        ({
            let f = op_family(opcode);
            let low = op_nn(opcode);
            let n = op_n(opcode);
            ||| f == 0x0 && low != 0xE0 && low != 0xEE
            ||| f == 0x8 && n > 0x7 && n != 0xE
            ||| f == 0xE && low != 0x9E && low != 0xA1
            ||| f == 0xF && low != 0x07 && low != 0x0A && low != 0x15 && low != 0x18 && low != 0x1E
                && low != 0x29 && low != 0x33 && low != 0x55 && low != 0x65
        }),
    ensures
        m.execute_fault(opcode) is None,
        m.execute(opcode, random) == m.step(2),
        m.step(2).pc == m.pc + 2,
{
}

/// Whatever can be executed leaves a state that is valid again.
pub proof fn law_execute_keeps_wf(m: State, opcode: u16, random: u8)
    requires
        m.wf(),
        m.execute_fault(opcode) is None,
    ensures
        m.execute(opcode, random).wf(),
        m.execute(opcode, random).tick().wf(),
{
    let d = m.execute(opcode, random).display;
    if op_family(opcode) == 0xD {
        assert forall|p: int| 0 <= p < 2048 implies #[trigger] d[p] <= 1 by {
            let b = m.display[p];
            assert(b <= 1 ==> b ^ 1 <= 1) by (bit_vector);
        }
    }
}

} // verus!

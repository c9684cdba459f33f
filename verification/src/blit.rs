//! How far a sprite has been drawn, pixel by pixel, and the facts that carry
//! the drawing loop from one sprite bit to the next.

use crate::model::{op_n, op_x, op_y, sprite_bit, State};
use vstd::prelude::*;

verus! {

impl State {
    /// Whether pixel `p` is flipped by one of the sprite bits that come before
    /// column `cols` of row `rows`, rows counted from the top and columns
    /// from the left.
    pub open spec fn sprite_hits_before(self, opcode: u16, p: int, rows: int, cols: int) -> bool {
        let k = Self::sprite_col(self.registers[op_x(opcode)], p);
        let r = Self::sprite_row(self.registers[op_y(opcode)], p);
        self.sprite_hits(opcode, p) && (r < rows || (r == rows && k < cols))
    }

    /// Whether one of those sprite bits flips a pixel that is set.
    pub open spec fn sprite_collides_before(self, opcode: u16, rows: int, cols: int) -> bool {
        exists|p: int|
            0 <= p < 2048 && #[trigger] self.sprite_hits_before(opcode, p, rows, cols)
                && self.display[p] == 1
    }
}

/// The pixel on which column `k` of row `r` of a sprite lands.
pub open spec fn landing(vx: u8, vy: u8, r: int, k: int) -> int {
    (vx + k) % 64 + ((vy + r) % 32) * 64
}

/// Each sprite bit lands on one pixel, and no two bits on the same.
pub proof fn lemma_landing(vx: u8, vy: u8, r: int, k: int, p: int)
    requires
        0 <= k < 64,
        0 <= r < 32,
        0 <= p < 2048,
    ensures
        0 <= landing(vx, vy, r, k) < 2048,
        (State::sprite_col(vx, p) == k && State::sprite_row(vy, p) == r) <==> p == landing(
            vx,
            vy,
            r,
            k,
        ),
{
}

/// Drawing one more sprite bit adds its landing pixel, if the bit is set, to
/// the pixels flipped so far, and nothing else.
pub proof fn lemma_next_bit(m: State, opcode: u16, r: int, k: int)
    requires
        m.wf(),
        0 <= k < 8,
        0 <= r < op_n(opcode),
    ensures
        forall|p: int|
            0 <= p < 2048 ==> (#[trigger] m.sprite_hits_before(opcode, p, r, k + 1) <==> (
            m.sprite_hits_before(opcode, p, r, k) || (p == landing(
                m.registers[op_x(opcode)],
                m.registers[op_y(opcode)],
                r,
                k,
            ) && sprite_bit(m.memory[m.index + r], k as u8)))),
        !m.sprite_hits_before(
            opcode,
            landing(m.registers[op_x(opcode)], m.registers[op_y(opcode)], r, k),
            r,
            k,
        ),
{
    let vx = m.registers[op_x(opcode)];
    let vy = m.registers[op_y(opcode)];
    assert forall|p: int| 0 <= p < 2048 implies (#[trigger] m.sprite_hits_before(
        opcode,
        p,
        r,
        k + 1,
    ) <==> (m.sprite_hits_before(opcode, p, r, k) || (p == landing(vx, vy, r, k) && sprite_bit(
        m.memory[m.index + r],
        k as u8,
    )))) by {
        lemma_landing(vx, vy, r, k, p);
    }
    lemma_landing(vx, vy, r, k, landing(vx, vy, r, k));
}

/// A finished row is the start of the next one.
pub proof fn lemma_next_row(m: State, opcode: u16, r: int)
    ensures
        forall|p: int|
            #![trigger m.sprite_hits_before(opcode, p, r, 8)]
            #![trigger m.sprite_hits_before(opcode, p, r + 1, 0)]
            m.sprite_hits_before(opcode, p, r, 8) <==> m.sprite_hits_before(opcode, p, r + 1, 0),
        m.sprite_collides_before(opcode, r, 8) <==> m.sprite_collides_before(opcode, r + 1, 0),
{
    assert forall|p: int|
        #![trigger m.sprite_hits_before(opcode, p, r, 8)]
        #![trigger m.sprite_hits_before(opcode, p, r + 1, 0)]
        m.sprite_hits_before(opcode, p, r, 8) <==> m.sprite_hits_before(opcode, p, r + 1, 0) by {}
}

/// Before the first bit nothing is drawn; after the last row all of the
/// sprite is.
pub proof fn lemma_whole_sprite(m: State, opcode: u16)
    ensures
        forall|p: int| !#[trigger] m.sprite_hits_before(opcode, p, 0, 0),
        !m.sprite_collides_before(opcode, 0, 0),
        forall|p: int|
            #![trigger m.sprite_hits_before(opcode, p, op_n(opcode), 0)]
            #![trigger m.sprite_hits(opcode, p)]
            m.sprite_hits_before(opcode, p, op_n(opcode), 0) <==> m.sprite_hits(opcode, p),
        m.sprite_collides_before(opcode, op_n(opcode), 0) <==> m.sprite_collides(opcode),
{
    assert forall|p: int|
        #![trigger m.sprite_hits_before(opcode, p, op_n(opcode), 0)]
        #![trigger m.sprite_hits(opcode, p)]
        m.sprite_hits_before(opcode, p, op_n(opcode), 0) <==> m.sprite_hits(opcode, p) by {}
}

} // verus!

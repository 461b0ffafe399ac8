//! Random draws for a tick, taken from macroquad's generator.

use vstd::prelude::*;
use crate::entities::{in_area, on_ring, random_inside_pos, random_outside_pos, SPAWN_DIST};
use crate::geometry::{Vec2i, WORLD_HEIGHT, WORLD_WIDTH};
use crate::world::{DropRoll, TickDraws};

verus! {

/// Range of a drop roll: rolls are thousandths.
pub const DROP_ROLL_RANGE: u32 = 1_000;

/// Range of a glitch roll: rolls are thousandths of a percent.
pub const GLITCH_ROLL_RANGE: u32 = 100_000;

/// Relies on `macroquad::rand::gen_range::<u32>(0, n)` (quad-rand 0.2): it
/// scales a 32-bit draw by `n / 2^32` and truncates, which for `n` up to a
/// million is below `n`.
#[verifier::external_body]
fn draw_below(n: u32) -> (r: u32)
    requires
        0 < n <= 1_000_000,
    ensures
        r < n,
{
    macroquad::rand::gen_range::<u32>(0, n)
}

/// A random point on the spawn ring.
fn draw_outside_pos() -> (p: Vec2i)
    ensures
        p.in_field(),
        on_ring(p),
{
    let offset = draw_below((2 * SPAWN_DIST + 1) as u32);
    let upper = draw_below(2) == 1;
    random_outside_pos(offset, upper)
}

/// A random point of the play area.
fn draw_inside_pos() -> (p: Vec2i)
    ensures
        p.in_field(),
        in_area(p),
{
    let x = draw_below(WORLD_WIDTH as u32);
    let y = draw_below(WORLD_HEIGHT as u32);
    random_inside_pos(x, y)
}

/// A direction step: -1, 0 or 1.
fn draw_direction() -> (d: i64)
    ensures
        -1 <= d <= 1,
{
    draw_below(3) as i64 - 1
}

impl TickDraws {
    /// What holds of every set of draws: spawn points on the ring, a pather
    /// path from the ring through three points of the play area back to the
    /// ring, drop points in the play area, and each roll within its range.
    pub open spec fn sampled(&self) -> bool {
        &&& self.wf()
        &&& on_ring(self.bullet_pos)
        &&& on_ring(self.follower_pos)
        &&& on_ring(self.pather_pos)
        &&& self.pather_path@.len() == 5
        &&& on_ring(self.pather_path@[0])
        &&& in_area(self.pather_path@[1])
        &&& in_area(self.pather_path@[2])
        &&& in_area(self.pather_path@[3])
        &&& on_ring(self.pather_path@[4])
        &&& forall|i: int| 0 <= i < self.drops@.len() ==> {
            &&& (#[trigger] self.drops@[i]).heal_roll < DROP_ROLL_RANGE
            &&& self.drops@[i].mana_roll < DROP_ROLL_RANGE
            &&& in_area(self.drops@[i].heal_pos)
            &&& in_area(self.drops@[i].mana_pos)
        }
        &&& forall|i: int| 0 <= i < self.glitch_rolls@.len() ==> #[trigger] self.glitch_rolls@[i] < GLITCH_ROLL_RANGE
    }

    /// Fresh random values for a tick over at most `enemy_count` enemies: a
    /// ring point for each spawn kind, a pather path of a ring point, three
    /// points of the play area and a ring point, and a drop roll and a glitch
    /// roll for each enemy.
    pub fn draw(enemy_count: usize) -> (d: Self)
        ensures
            d.wf(),
            d.sampled(),
            d.pather_path@.len() == 5,
            d.drops@.len() == enemy_count,
            d.glitch_rolls@.len() == enemy_count,
            forall|i: int| 0 <= i < enemy_count ==> (#[trigger] d.drops@[i]).heal_roll < DROP_ROLL_RANGE
                && d.drops@[i].mana_roll < DROP_ROLL_RANGE,
            forall|i: int| 0 <= i < enemy_count ==> #[trigger] d.glitch_rolls@[i] < GLITCH_ROLL_RANGE,
    {
        let bullet_pos = draw_outside_pos();
        let follower_pos = draw_outside_pos();
        let pather_pos = draw_outside_pos();
        let mut pather_path: Vec<Vec2i> = Vec::new();
        pather_path.push(draw_outside_pos());
        pather_path.push(draw_inside_pos());
        pather_path.push(draw_inside_pos());
        pather_path.push(draw_inside_pos());
        pather_path.push(draw_outside_pos());
        let mut drops: Vec<DropRoll> = Vec::new();
        let mut glitch_rolls: Vec<u32> = Vec::new();
        let mut i: usize = 0;
        while i < enemy_count
            invariant
                i <= enemy_count,
                drops@.len() == i,
                glitch_rolls@.len() == i,
                forall|j: int| 0 <= j < i ==> (#[trigger] drops@[j]).heal_pos.in_field()
                    && drops@[j].mana_pos.in_field() && in_area(drops@[j].heal_pos)
                    && in_area(drops@[j].mana_pos) && drops@[j].heal_roll < DROP_ROLL_RANGE
                    && drops@[j].mana_roll < DROP_ROLL_RANGE,
                forall|j: int| 0 <= j < i ==> #[trigger] glitch_rolls@[j] < GLITCH_ROLL_RANGE,
            decreases enemy_count - i,
        {
            let heal_roll = draw_below(DROP_ROLL_RANGE);
            let mana_roll = draw_below(DROP_ROLL_RANGE);
            let heal_pos = draw_inside_pos();
            let mana_pos = draw_inside_pos();
            drops.push(DropRoll { heal_roll, mana_roll, heal_pos, mana_pos });
            glitch_rolls.push(draw_below(GLITCH_ROLL_RANGE));
            i = i + 1;
        }
        let x_direction = draw_direction();
        let y_direction = draw_direction();
        TickDraws {
            bullet_pos,
            follower_pos,
            pather_pos,
            pather_path,
            drops,
            glitch_rolls,
            x_direction,
            y_direction,
        }
    }
}

} // verus!

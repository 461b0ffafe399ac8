//! The glitch engine: a timed chain of enemy clones trailing in a line from
//! a template entity.

use vstd::prelude::*;
use crate::entities::EntityView;
use crate::geometry::{moved, Vec2i};

verus! {

/// Ticks between two clones of a chain.
pub const GLITCH_SPEED: u32 = 10;

/// Offset of each clone from the one before, per direction step.
pub const CLONE_OFFSET: i64 = 3_000;

/// Chance, in thousandths of a percent, that a scanned enemy starts a chain
/// at instability `level`.
pub open spec fn chance_spec(level: int) -> int {
    if level == 1 {
        10
    } else if level == 2 {
        50
    } else if level == 3 {
        70
    } else if level == 4 {
        100
    } else if level == 5 {
        1_000
    } else {
        0
    }
}

/// Chance, in thousandths of a percent, that a scanned enemy starts a chain.
pub fn chance(level: u32) -> (c: u32)
    ensures
        c == chance_spec(level as int),
{
    if level == 1 {
        10
    } else if level == 2 {
        50
    } else if level == 3 {
        70
    } else if level == 4 {
        100
    } else if level == 5 {
        1_000
    } else {
        0
    }
}

/// Length of a chain armed at instability `level`.
pub open spec fn countdown_for(level: int) -> int {
    GLITCH_SPEED * (level + 2)
}

/// An active chain: the id of the enemy copied next, the direction in which
/// the clones trail, and the ticks left.
#[derive(Clone, Copy, Debug, PartialEq, Eq, Structural)]
pub struct GlitchChain {
    pub reference: u64,
    pub x_direction: i64,
    pub y_direction: i64,
    pub countdown: u32,
}

/// Dormant, or running one chain.
#[derive(Clone, Copy, Debug, PartialEq, Eq, Structural)]
pub struct GlitchEngine {
    pub chain: Option<GlitchChain>,
}

/// The clone of `e`, with id `id`, one offset step along the direction.
pub open spec fn cloned_at(e: EntityView, dx: int, dy: int, id: u64) -> EntityView {
    EntityView {
        id,
        pos: moved(e.pos, Vec2i { x: (dx * CLONE_OFFSET) as i64, y: (dy * CLONE_OFFSET) as i64 }),
        is_clone: true,
        ..e
    }
}

/// Whether the chain hands out a clone on this tick: every tenth tick of
/// its countdown.
pub open spec fn clone_due(c: GlitchChain) -> bool {
    c.countdown % GLITCH_SPEED == 0
}

/// The chain after a tick in which its template was found, now following
/// `reference`: one tick shorter, or ended.
pub open spec fn next_chain(c: GlitchChain, reference: u64) -> Option<GlitchChain> {
    if c.countdown <= 1 {
        None
    } else {
        Some(GlitchChain { reference, countdown: (c.countdown - 1) as u32, ..c })
    }
}

/// The chain after `k` ticks in each of which its template was found.
pub open spec fn chain_after(c: GlitchChain, k: nat) -> Option<GlitchChain>
    decreases k,
{
    if k == 0 {
        Some(c)
    } else {
        match chain_after(c, (k - 1) as nat) {
            Some(d) => next_chain(d, d.reference),
            None => None,
        }
    }
}

/// How many clones the chain hands out over its first `k` such ticks.
pub open spec fn clones_in(c: GlitchChain, k: nat) -> nat
    decreases k,
{
    if k == 0 {
        0
    } else {
        clones_in(c, (k - 1) as nat) + match chain_after(c, (k - 1) as nat) {
            Some(d) => if clone_due(d) {
                1nat
            } else {
                0nat
            },
            None => 0nat,
        }
    }
}

proof fn lemma_chain_counts_down(c: GlitchChain, k: nat)
    requires
        k < c.countdown,
    ensures
        chain_after(c, k) == Some(GlitchChain { countdown: (c.countdown - k) as u32, ..c }),
    decreases k,
{
    if k > 0 {
        lemma_chain_counts_down(c, (k - 1) as nat);
    }
}

/// A chain armed at instability 3 runs 50 ticks while its template lives:
/// it hands out a clone on ticks 1, 11, 21, 31 and 41 of them (countdown
/// 50, 40, 30, 20, 10), five in all, and none on the others, and is dormant
/// after the fiftieth.
pub proof fn lemma_level_three_chain(c: GlitchChain)
    requires
        c.countdown == countdown_for(3),
    ensures
        forall|k: nat| k < 50 ==> (#[trigger] chain_after(c, k)) is Some
            && (clone_due(chain_after(c, k)->0) <==> k % 10 == 0),
        chain_after(c, 50) is None,
        clones_in(c, 50) == 5,
{
    assert forall|k: nat| k < 50 implies (#[trigger] chain_after(c, k)) is Some
        && (clone_due(chain_after(c, k)->0) <==> k % 10 == 0) by {
        lemma_chain_counts_down(c, k);
    }
    lemma_chain_counts_down(c, 49);
    lemma_clone_count(c, 50);
}

proof fn lemma_clone_count(c: GlitchChain, k: nat)
    requires
        c.countdown == 50,
        k <= 50,
    ensures
        clones_in(c, k) == (k + 9) / 10,
    decreases k,
{
    if k > 0 {
        lemma_clone_count(c, (k - 1) as nat);
        lemma_chain_counts_down(c, (k - 1) as nat);
    }
}

impl GlitchChain {
    pub open spec fn wf(self) -> bool {
        &&& -1 <= self.x_direction <= 1
        &&& -1 <= self.y_direction <= 1
        &&& 0 < self.countdown <= countdown_for(5)
    }
}

impl GlitchEngine {
    pub open spec fn wf(self) -> bool {
        match self.chain {
            Some(c) => c.wf(),
            None => true,
        }
    }

    pub open spec fn is_dormant(self) -> bool {
        self.chain is None
    }

    /// A dormant engine.
    pub fn new() -> (g: Self)
        ensures
            g.wf(),
            g.is_dormant(),
    {
        GlitchEngine { chain: None }
    }

    /// Whether no chain is running.
    pub fn dormant(&self) -> (r: bool)
        ensures
            r == self.is_dormant(),
    {
        self.chain.is_none()
    }

    /// Starts a chain from the enemy with id `reference` at instability
    /// `level`.
    pub fn arm(&mut self, reference: u64, x_direction: i64, y_direction: i64, level: u32)
        requires
            -1 <= x_direction <= 1,
            -1 <= y_direction <= 1,
            1 <= level <= 5,
        ensures
            final(self).wf(),
            final(self).chain == Some(
                GlitchChain {
                    reference,
                    x_direction,
                    y_direction,
                    countdown: countdown_for(level as int) as u32,
                },
            ),
    {
        self.chain = Some(
            GlitchChain { reference, x_direction, y_direction, countdown: GLITCH_SPEED * (level + 2) },
        );
    }

    /// Stops any chain.
    pub fn cancel(&mut self)
        ensures
            final(self).wf(),
            final(self).is_dormant(),
    {
        self.chain = None;
    }

    /// Counts down the running chain after its template was found; it now
    /// follows `reference`.
    pub fn advance(&mut self, reference: u64)
        requires
            old(self).wf(),
            old(self).chain is Some,
        ensures
            final(self).wf(),
            final(self).chain == next_chain(old(self).chain->0, reference),
    {
        match self.chain {
            Some(c) => {
                if c.countdown <= 1 {
                    self.chain = None;
                } else {
                    self.chain = Some(GlitchChain { reference, countdown: c.countdown - 1, ..c });
                }
            },
            None => {},
        }
    }
}

} // verus!

//! Three independent periodic timers that decide when enemies appear.

use vstd::prelude::*;

verus! {

pub const BULLET_SPAWN_TIME: u32 = 60;

pub const FOLLOWER_SPAWN_TIME: u32 = 200;

pub const PATH_SPAWN_TIME: u32 = 150;

/// Timer value after one tick: back to zero once past the period.
pub open spec fn timer_next(t: int, period: int) -> int {
    if t > period {
        0
    } else {
        t + 1
    }
}

/// Which kinds of enemy are due on a tick.
#[derive(Clone, Copy, Debug, PartialEq, Eq, Structural)]
pub struct SpawnDue {
    pub bullet: bool,
    pub follower: bool,
    pub pather: bool,
}

/// Tick counters of the three spawn kinds.
#[derive(Clone, Copy, Debug, PartialEq, Eq, Structural)]
pub struct SpawnScheduler {
    pub bullet_timer: u32,
    pub follower_timer: u32,
    pub pather_timer: u32,
}

fn step_timer(t: &mut u32, period: u32) -> (due: bool)
    requires
        *old(t) <= period + 1,
        period < 1000,
    ensures
        due == (*old(t) > period),
        *final(t) == timer_next(*old(t) as int, period as int),
        *final(t) <= period + 1,
{
    if *t > period {
        *t = 0;
        true
    } else {
        *t = *t + 1;
        false
    }
}

impl SpawnScheduler {
    pub open spec fn wf(self) -> bool {
        &&& self.bullet_timer <= BULLET_SPAWN_TIME + 1
        &&& self.follower_timer <= FOLLOWER_SPAWN_TIME + 1
        &&& self.pather_timer <= PATH_SPAWN_TIME + 1
    }

    /// Every timer one tick later.
    pub open spec fn ticked(self) -> SpawnScheduler {
        SpawnScheduler {
            bullet_timer: timer_next(self.bullet_timer as int, BULLET_SPAWN_TIME as int) as u32,
            follower_timer: timer_next(self.follower_timer as int, FOLLOWER_SPAWN_TIME as int) as u32,
            pather_timer: timer_next(self.pather_timer as int, PATH_SPAWN_TIME as int) as u32,
        }
    }

    /// Which kinds are due on the next tick.
    pub open spec fn due(self) -> SpawnDue {
        SpawnDue {
            bullet: self.bullet_timer > BULLET_SPAWN_TIME,
            follower: self.follower_timer > FOLLOWER_SPAWN_TIME,
            pather: self.pather_timer > PATH_SPAWN_TIME,
        }
    }

    pub open spec fn is_reset(self) -> bool {
        self.bullet_timer == 0 && self.follower_timer == 0 && self.pather_timer == 0
    }

    /// All timers at zero.
    pub fn new() -> (s: Self)
        ensures
            s.wf(),
            s.is_reset(),
    {
        SpawnScheduler { bullet_timer: 0, follower_timer: 0, pather_timer: 0 }
    }

    /// Advances every timer by one tick and says which kinds are due.
    pub fn tick(&mut self) -> (due: SpawnDue)
        requires
            old(self).wf(),
        ensures
            final(self).wf(),
            *final(self) == old(self).ticked(),
            due.bullet == (old(self).bullet_timer > BULLET_SPAWN_TIME),
            due.follower == (old(self).follower_timer > FOLLOWER_SPAWN_TIME),
            due.pather == (old(self).pather_timer > PATH_SPAWN_TIME),
            final(self).bullet_timer == timer_next(
                old(self).bullet_timer as int,
                BULLET_SPAWN_TIME as int,
            ),
            final(self).follower_timer == timer_next(
                old(self).follower_timer as int,
                FOLLOWER_SPAWN_TIME as int,
            ),
            final(self).pather_timer == timer_next(
                old(self).pather_timer as int,
                PATH_SPAWN_TIME as int,
            ),
    {
        let bullet = step_timer(&mut self.bullet_timer, BULLET_SPAWN_TIME);
        let follower = step_timer(&mut self.follower_timer, FOLLOWER_SPAWN_TIME);
        let pather = step_timer(&mut self.pather_timer, PATH_SPAWN_TIME);
        SpawnDue { bullet, follower, pather }
    }

    /// Sets every timer back to zero.
    pub fn reset(&mut self)
        ensures
            final(self).wf(),
            final(self).is_reset(),
    {
        self.bullet_timer = 0;
        self.follower_timer = 0;
        self.pather_timer = 0;
    }
}

} // verus!

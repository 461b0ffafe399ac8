//! The registry of the seven achievements and their one-way unlock flags.

use vstd::prelude::*;

verus! {

/// Index of "name_overflow": a player name longer than the field allows.
pub const NAME_OVERFLOW: usize = 0;

/// Index of "unstable": instability past its bound.
pub const UNSTABLE: usize = 1;

/// Index of "second_chance": hit points underflowed.
pub const SECOND_CHANCE: usize = 2;

/// Index of "over_healed": hit points wrapped around.
pub const OVER_HEALED: usize = 3;

/// Index of "unlimited_power": the ability used without the mana for it.
pub const UNLIMITED_POWER: usize = 4;

/// Index of "over_9000": mana wrapped around.
pub const OVER_9000: usize = 5;

/// Index of "up": the player left the map through its open top edge.
pub const UP: usize = 6;

/// Number of achievements.
pub const COUNT: usize = 7;

/// One achievement: a name, what it is for, and whether it is unlocked.
#[derive(Debug)]
pub struct Achievement {
    pub name: &'static str,
    pub desc: &'static str,
    pub unlocked: bool,
}

impl Achievement {
    /// A locked achievement.
    pub fn new(name: &'static str, desc: &'static str) -> (a: Self)
        ensures
            a.name == name,
            a.desc == desc,
            !a.unlocked,
    {
        Achievement { name, desc, unlocked: false }
    }

    /// Marks the achievement as unlocked.
    pub fn unlock(&mut self)
        ensures
            final(self).unlocked,
            final(self).name == old(self).name,
            final(self).desc == old(self).desc,
    {
        self.unlocked = true;
    }
}

/// The seven achievements, in their fixed order.
#[derive(Debug)]
pub struct Achievements {
    pub achievements: Vec<Achievement>,
}

impl Achievements {
    pub open spec fn wf(self) -> bool {
        self.achievements@.len() == COUNT
    }

    /// The unlock flags, in order.
    pub open spec fn flags(self) -> Seq<bool> {
        self.achievements@.map_values(|a: Achievement| a.unlocked)
    }

    /// Whether `later` holds every unlock of `self`, and the same names.
    pub open spec fn grows_to(self, later: Self) -> bool {
        &&& later.achievements@.len() == self.achievements@.len()
        &&& forall|i: int|
            0 <= i < self.achievements@.len() ==> {
                &&& (#[trigger] self.achievements@[i]).unlocked
                    ==> later.achievements@[i].unlocked
                &&& later.achievements@[i].name == self.achievements@[i].name
                &&& later.achievements@[i].desc == self.achievements@[i].desc
            }
    }

    /// `later` is `self` with achievement `i` unlocked and nothing else changed.
    pub open spec fn with_unlocked(self, i: int, later: Self) -> bool {
        &&& later.achievements@.len() == self.achievements@.len()
        &&& later.achievements@[i].unlocked
        &&& later.achievements@[i].name == self.achievements@[i].name
        &&& later.achievements@[i].desc == self.achievements@[i].desc
        &&& forall|j: int|
            0 <= j < self.achievements@.len() && j != i ==> #[trigger] later.achievements@[j]
                == self.achievements@[j]
    }

    /// All seven achievements, locked.
    pub fn new() -> (r: Self)
        ensures
            r.wf(),
            forall|i: int| 0 <= i < COUNT ==> !(#[trigger] r.achievements@[i]).unlocked,
            r.achievements@[NAME_OVERFLOW as int].name@ == "name_overflow"@,
            r.achievements@[NAME_OVERFLOW as int].desc@ == "Crash the game by choosing a big name"@,
            r.achievements@[UNSTABLE as int].name@ == "unstable"@,
            r.achievements@[UNSTABLE as int].desc@ == "Crash the game by unstability"@,
            r.achievements@[SECOND_CHANCE as int].name@ == "second_chance"@,
            r.achievements@[SECOND_CHANCE as int].desc@ == "Regain full health by underflowing HP"@,
            r.achievements@[OVER_HEALED as int].name@ == "over_healed"@,
            r.achievements@[OVER_HEALED as int].desc@ == "Go back to zero health by regeneration"@,
            r.achievements@[UNLIMITED_POWER as int].name@ == "unlimited_power"@,
            r.achievements@[UNLIMITED_POWER as int].desc@ == "Use the special ability without having any energy for it"@,
            r.achievements@[OVER_9000 as int].name@ == "over_9000"@,
            r.achievements@[OVER_9000 as int].desc@ == "Overflow your energy back to zero by taking too much"@,
            r.achievements@[UP as int].name@ == "up"@,
            r.achievements@[UP as int].desc@ == "Leave the map"@,
    {
        let mut achievements: Vec<Achievement> = Vec::new();
        achievements.push(
            Achievement::new("name_overflow", "Crash the game by choosing a big name"),
        );
        achievements.push(Achievement::new("unstable", "Crash the game by unstability"));
        achievements.push(
            Achievement::new("second_chance", "Regain full health by underflowing HP"),
        );
        achievements.push(
            Achievement::new("over_healed", "Go back to zero health by regeneration"),
        );
        achievements.push(
            Achievement::new(
                "unlimited_power",
                "Use the special ability without having any energy for it",
            ),
        );
        achievements.push(
            Achievement::new("over_9000", "Overflow your energy back to zero by taking too much"),
        );
        achievements.push(Achievement::new("up", "Leave the map"));
        Achievements { achievements }
    }

    /// Whether achievement `i` is unlocked.
    pub fn is_unlocked(&self, i: usize) -> (r: bool)
        requires
            self.wf(),
            i < COUNT,
        ensures
            r == self.achievements@[i as int].unlocked,
    {
        self.achievements[i].unlocked
    }

    /// Unlocks achievement `i`; says whether it was locked before.
    pub fn unlock(&mut self, i: usize) -> (first: bool)
        requires
            old(self).wf(),
            i < COUNT,
        ensures
            final(self).wf(),
            first == !old(self).achievements@[i as int].unlocked,
            old(self).with_unlocked(i as int, *final(self)),
            old(self).grows_to(*final(self)),
    {
        let first = !self.achievements[i].unlocked;
        let a = Achievement {
            name: self.achievements[i].name,
            desc: self.achievements[i].desc,
            unlocked: true,
        };
        self.achievements.set(i, a);
        first
    }

    /// Whether every achievement is unlocked.
    pub fn all_unlocked(&self) -> (r: bool)
        ensures
            r == (forall|i: int|
                0 <= i < self.achievements@.len() ==> (#[trigger] self.achievements@[i]).unlocked),
    {
        let mut k: usize = 0;
        while k < self.achievements.len()
            invariant
                k <= self.achievements@.len(),
                forall|i: int| 0 <= i < k ==> (#[trigger] self.achievements@[i]).unlocked,
            decreases self.achievements@.len() - k,
        {
            if !self.achievements[k].unlocked {
                return false;
            }
            k = k + 1;
        }
        true
    }

    /// The name of achievement `i`.
    pub fn name(&self, i: usize) -> (r: &'static str)
        requires
            self.wf(),
            i < COUNT,
        ensures
            r == self.achievements@[i as int].name,
    {
        self.achievements[i].name
    }

    /// The description of achievement `i`.
    pub fn description(&self, i: usize) -> (r: &'static str)
        requires
            self.wf(),
            i < COUNT,
        ensures
            r == self.achievements@[i as int].desc,
    {
        self.achievements[i].desc
    }
}

} // verus!

//! The world: the player, enemies and items, the two meters, instability,
//! the spawn timers, the glitch engine and the achievements, and the tick
//! that advances them together.

use vstd::prelude::*;
use crate::achievements::{
    Achievements, COUNT, NAME_OVERFLOW, OVER_9000, OVER_HEALED, SECOND_CHANCE, UNLIMITED_POWER,
    UNSTABLE, UP,
};
use crate::entities::{
    bullet_view, follower_view, heal_item, mana_item, pather_view, Entity, EntityType, EntityView,
    Kind, PLAYER_RADIUS,
};
use crate::geometry::{
    accelerate, accelerated, center, center_spec, closer_than, dist_sq, shift, Vec2i,
};
use crate::glitch::{
    chance, chance_spec, clone_due, cloned_at, countdown_for, next_chain, GlitchEngine,
    CLONE_OFFSET, GLITCH_SPEED,
};
use crate::meter::{decrement_value, increment_value, ResourceMeter};
use crate::spawn::{SpawnDue, SpawnScheduler};

verus! {

/// Upper bound of the hit point meter.
pub const HEALTH_BOUND: u8 = 3;

/// Upper bound of the mana meter.
pub const MANA_BOUND: u8 = 3;

/// Mana taken by the special ability.
pub const ABILITY_COST: u8 = 2;

/// Reach of the special ability around the player.
pub const DESTROY_RANGE: i64 = 50_000;

/// Instability tolerated before the system crashes.
pub const MAX_UNSTABILITY: u32 = 5;

/// Longest player name that the name field holds.
pub const NAME_LIMIT: usize = 8;

/// Velocity gained by the player per tick in each direction of intent.
pub const PLAYER_SPEED: i64 = 500;

/// The player has left the map once above this line.
pub const ESCAPE_LINE: i64 = -20_000;

/// Ticks of the hit animation after the player is hit.
pub const HIT_ANIM_TICKS: u32 = 10;

/// Ticks of the explosion animation after the ability is used.
pub const POWER_UP_TICKS: u32 = 7;

/// Which screen the surrounding program shows.
#[derive(Clone, Copy, Debug, PartialEq, Eq, Structural)]
pub enum GameState {
    Desktop,
    Game,
    Achievements,
    BSOD,
}

/// Sounds to play for a tick.
#[derive(Clone, Copy, Debug, PartialEq, Eq, Structural)]
pub struct SoundCues {
    pub hit: bool,
    pub pickup: bool,
    pub explosion: bool,
    pub glitch: bool,
    pub bsod: bool,
    pub small_bug: bool,
}

/// What a tick reports to its caller.
#[derive(Clone, Copy, Debug, PartialEq, Eq, Structural)]
pub struct TickOutcome {
    /// The achievement whose description the crash screen shows.
    pub achievement: Option<usize>,
    /// Whether the system crashed and the world was reset.
    pub entered_bsod: bool,
    pub cues: SoundCues,
    /// Instability level at which the glitch engine scanned, zero for none.
    pub glitch_level: u32,
}

/// `b` sounds what `a` sounds, and perhaps the small bug too.
pub open spec fn cues_kept(a: SoundCues, b: SoundCues) -> bool {
    b == SoundCues { small_bug: b.small_bug, ..a }
}

/// The parts of the world that events change, as mathematical values.
pub ghost struct Status {
    pub hp: int,
    pub mana: int,
    pub instability: int,
    pub flags: Seq<bool>,
    pub pending: bool,
    pub event: Option<usize>,
    /// Whether the small-bug sound is due.
    pub bug: bool,
}

/// `v + 1`, held at `u32::MAX`.
pub open spec fn raised(v: int) -> int {
    if v < u32::MAX {
        v + 1
    } else {
        v
    }
}

/// Achievement `i` is unlocked if it was locked, which crashes the system at
/// the end of the tick; otherwise instability rises by one.
pub open spec fn dispatched(s: Status, i: usize) -> Status {
    if !s.flags[i as int] {
        Status { flags: s.flags.update(i as int, true), pending: true, event: Some(i), ..s }
    } else {
        Status { instability: raised(s.instability), bug: true, ..s }
    }
}

/// The player takes one hit; an underflow of hit points dispatches
/// "second_chance".
pub open spec fn hit_taken(s: Status) -> Status {
    let t = Status { hp: decrement_value(s.hp, 1, HEALTH_BOUND as int), ..s };
    if s.hp < 1 {
        dispatched(t, SECOND_CHANCE)
    } else {
        t
    }
}

/// The player takes `n` hits.
pub open spec fn hits_taken(s: Status, n: nat) -> Status
    decreases n,
{
    if n == 0 {
        s
    } else {
        hit_taken(hits_taken(s, (n - 1) as nat))
    }
}

/// A heart is collected; a wrap of hit points dispatches "over_healed".
pub open spec fn healed(s: Status) -> Status {
    let t = Status { hp: increment_value(s.hp, 1, HEALTH_BOUND as int), ..s };
    if s.hp + 1 > HEALTH_BOUND {
        dispatched(t, OVER_HEALED)
    } else {
        t
    }
}

/// A mana orb is collected; a wrap of mana dispatches "over_9000".
pub open spec fn recharged(s: Status) -> Status {
    let t = Status { mana: increment_value(s.mana, 1, MANA_BOUND as int), ..s };
    if s.mana + 1 > MANA_BOUND {
        dispatched(t, OVER_9000)
    } else {
        t
    }
}

/// A live entity `t` touches the player `p`.
pub open spec fn touches(t: EntityView, p: EntityView) -> bool {
    t.alive && dist_sq(t.pos, p.pos) < (p.radius + t.radius) * (p.radius + t.radius)
}

/// Enemy `e` after its own tick toward the player `p`: it dies where it
/// then touches the player.
pub open spec fn enemy_after(e: EntityView, p: EntityView) -> EntityView {
    let t = e.ticked(p.pos);
    EntityView { alive: t.alive && !touches(t, p), ..t }
}

/// How many of the first `k` enemies hit the player `p` on their tick.
pub open spec fn hits_in(enemies: Seq<Entity>, p: EntityView, k: int) -> nat
    decreases k,
{
    if k <= 0 {
        0
    } else {
        hits_in(enemies, p, k - 1) + if touches(enemies[k - 1]@.ticked(p.pos), p) {
            1nat
        } else {
            0nat
        }
    }
}

/// Item `i` after the player passes: gone where it touches the player.
pub open spec fn collected(i: EntityView, p: EntityView) -> EntityView {
    EntityView { alive: i.alive && !touches(i, p), ..i }
}

/// How many of the first `k` items touch the player `p`.
pub open spec fn touches_in(items: Seq<Entity>, p: EntityView, k: int) -> nat
    decreases k,
{
    if k <= 0 {
        0
    } else {
        touches_in(items, p, k - 1) + if touches(items[k - 1]@, p) {
            1nat
        } else {
            0nat
        }
    }
}

/// Status after the first `k` items are checked against the player `p`:
/// each one touched is collected in order.
pub open spec fn pickups(s: Status, items: Seq<Entity>, p: EntityView, k: int) -> Status
    decreases k,
{
    if k <= 0 {
        s
    } else {
        let before = pickups(s, items, p, k - 1);
        let i = items[k - 1]@;
        if touches(i, p) {
            if i.kind is HealItem {
                healed(before)
            } else {
                recharged(before)
            }
        } else {
            before
        }
    }
}

/// The items that a dead follower at index `i` leaves, by the roll for that
/// index; nothing where no roll is given.
pub open spec fn drops_for(e: Entity, i: int, rolls: Seq<DropRoll>) -> Seq<Entity> {
    if !e.alive && e.e_type is Follower && 0 <= i < rolls.len() {
        let r = rolls[i];
        let heal = if r.heal_roll < DROP_CHANCE {
            seq![heal_item(r.heal_pos)]
        } else {
            Seq::empty()
        };
        let mana = if r.mana_roll < DROP_CHANCE {
            seq![mana_item(r.mana_pos)]
        } else {
            Seq::empty()
        };
        heal + mana
    } else {
        Seq::empty()
    }
}

/// The items that the dead followers among `enemies` leave, in order.
pub open spec fn drops_from(enemies: Seq<Entity>, rolls: Seq<DropRoll>) -> Seq<Entity>
    decreases enemies.len(),
{
    if enemies.len() == 0 {
        Seq::empty()
    } else {
        drops_from(enemies.drop_last(), rolls) + drops_for(
            enemies.last(),
            enemies.len() - 1,
            rolls,
        )
    }
}

pub open spec fn is_alive(e: Entity) -> bool {
    e.alive
}

/// Status after the ability is triggered: the cost is paid where the mana
/// affords it; otherwise the meter recovers and "unlimited_power" is
/// dispatched.
pub open spec fn ability_used(s: Status) -> Status {
    let t = Status { mana: decrement_value(s.mana, ABILITY_COST as int, MANA_BOUND as int), ..s };
    if s.mana < ABILITY_COST {
        dispatched(t, UNLIMITED_POWER)
    } else {
        t
    }
}

/// Enemy `e` after the ability goes off at `at`: it dies if closer than
/// `DESTROY_RANGE`.
pub open spec fn blasted(e: EntityView, at: Vec2i) -> EntityView {
    EntityView { alive: e.alive && !(dist_sq(e.pos, at) < DESTROY_RANGE * DESTROY_RANGE), ..e }
}

/// The enemies that the due spawns add, in the order bullet, follower,
/// pather, with ids handed out from `n` on.
pub open spec fn spawned(due: SpawnDue, target: Vec2i, d: TickDraws, n: u64) -> Seq<EntityView> {
    let n1 = if due.bullet { fresh(n) } else { n };
    let n2 = if due.follower { fresh(n1) } else { n1 };
    (if due.bullet { seq![with_id(bullet_view(target, d.bullet_pos), n)] } else { Seq::empty() })
        + (if due.follower {
        seq![with_id(follower_view(target, d.follower_pos), n1)]
    } else {
        Seq::empty()
    }) + (if due.pather { seq![with_id(pather_view(d.pather_pos, d.pather_path@), n2)] } else { Seq::empty() })
}

/// The next free id after the due spawns took theirs from `n` on.
pub open spec fn ids_after(due: SpawnDue, n: u64) -> u64 {
    let n1 = if due.bullet { fresh(n) } else { n };
    let n2 = if due.follower { fresh(n1) } else { n1 };
    if due.pather { fresh(n2) } else { n2 }
}

/// The id handed out after `n`; the last id is handed out again.
pub open spec fn fresh(n: u64) -> u64 {
    if n < u64::MAX {
        (n + 1) as u64
    } else {
        n
    }
}

/// `v` carrying the id `id`.
pub open spec fn with_id(v: EntityView, id: u64) -> EntityView {
    EntityView { id, ..v }
}

/// `e` is a live enemy with the id `id`.
pub open spec fn live_with(e: Entity, id: u64) -> bool {
    e.alive && e.id == id
}

/// `i` is the first index of a live enemy with the id `id`.
pub open spec fn first_live(s: Seq<Entity>, id: u64, i: int) -> bool {
    &&& 0 <= i < s.len()
    &&& live_with(s[i], id)
    &&& forall|j: int| 0 <= j < i ==> !live_with(#[trigger] s[j], id)
}

/// The views of a sequence of entities.
pub open spec fn views(s: Seq<Entity>) -> Seq<EntityView> {
    s.map_values(|e: Entity| e@)
}

/// Enemy `e` is picked by the glitch scan at `level` with `roll`: it is
/// alive, no clone, and the roll is below the chance.
pub open spec fn scan_hit(e: EntityView, roll: int, level: int) -> bool {
    &&& e.alive
    &&& !e.is_clone
    &&& roll < chance_spec(level)
}

/// The enemy at index `i` is picked by the scan.
pub open spec fn hit_at(enemies: Seq<Entity>, rolls: Seq<u32>, level: int, i: int) -> bool {
    0 <= i < enemies.len() && i < rolls.len() && scan_hit(enemies[i]@, rolls[i] as int, level)
}

/// The random values that one tick consumes.
#[derive(Debug)]
pub struct TickDraws {
    /// Where a bullet appears, if one is due.
    pub bullet_pos: Vec2i,
    /// Where a follower appears, if one is due.
    pub follower_pos: Vec2i,
    /// Where a pather appears, if one is due.
    pub pather_pos: Vec2i,
    /// The waypoints of that pather.
    pub pather_path: Vec<Vec2i>,
    /// For the enemy at each index, what it drops should it die as a follower.
    pub drops: Vec<DropRoll>,
    /// For the enemy at each index, its roll in the glitch scan, in
    /// thousandths of a percent.
    pub glitch_rolls: Vec<u32>,
    pub x_direction: i64,
    pub y_direction: i64,
}

/// What a dying follower leaves behind: each item with its own chance, in
/// thousandths.
#[derive(Clone, Copy, Debug, PartialEq, Eq, Structural)]
pub struct DropRoll {
    pub heal_roll: u32,
    pub mana_roll: u32,
    pub heal_pos: Vec2i,
    pub mana_pos: Vec2i,
}

/// Chance, in thousandths, of each drop of a dying follower.
pub const DROP_CHANCE: u32 = 125;

impl TickOutcome {
    pub open spec fn new_spec() -> TickOutcome {
        TickOutcome {
            achievement: None,
            entered_bsod: false,
            cues: SoundCues {
                hit: false,
                pickup: false,
                explosion: false,
                glitch: false,
                bsod: false,
                small_bug: false,
            },
            glitch_level: 0,
        }
    }

    /// Nothing happened.
    pub fn new() -> (o: Self)
        ensures
            o == Self::new_spec(),
    {
        TickOutcome {
            achievement: None,
            entered_bsod: false,
            cues: SoundCues {
                hit: false,
                pickup: false,
                explosion: false,
                glitch: false,
                bsod: false,
                small_bug: false,
            },
            glitch_level: 0,
        }
    }
}

impl TickDraws {
    pub open spec fn wf(&self) -> bool {
        &&& self.bullet_pos.in_field()
        &&& self.follower_pos.in_field()
        &&& self.pather_pos.in_field()
        &&& forall|i: int|
            0 <= i < self.pather_path@.len() ==> (#[trigger] self.pather_path@[i]).in_field()
        &&& forall|i: int|
            0 <= i < self.drops@.len() ==> (#[trigger] self.drops@[i]).heal_pos.in_field()
                && self.drops@[i].mana_pos.in_field()
        &&& -1 <= self.x_direction <= 1
        &&& -1 <= self.y_direction <= 1
    }
}

/// The world of one game.
#[derive(Debug)]
pub struct World {
    pub player: Entity,
    pub enemies: Vec<Entity>,
    pub items: Vec<Entity>,
    pub hp: ResourceMeter,
    pub mana: ResourceMeter,
    pub spawner: SpawnScheduler,
    pub achievements: Achievements,
    pub instability: u32,
    pub glitch: GlitchEngine,
    /// The id that the next enemy to join receives.
    pub next_id: u64,
    pub has_game_started: bool,
    pub power_up_timer: u32,
    pub hit_anim: u32,
}

/// Velocity gained along an axis from an intent on it: its sign times
/// `PLAYER_SPEED`.
pub open spec fn intent(v: i64) -> i64 {
    if v > 0 {
        PLAYER_SPEED
    } else if v < 0 {
        (-PLAYER_SPEED) as i64
    } else {
        0
    }
}

fn intent_of(v: i64) -> (r: i64)
    ensures
        r == intent(v),
{
    if v > 0 {
        PLAYER_SPEED
    } else if v < 0 {
        -PLAYER_SPEED
    } else {
        0
    }
}

/// `a` with both animation timers one tick further down.
pub open spec fn cooled(a: World) -> World {
    World {
        power_up_timer: if a.power_up_timer > 0 { (a.power_up_timer - 1) as u32 } else { 0 },
        hit_anim: if a.hit_anim > 0 { (a.hit_anim - 1) as u32 } else { 0 },
        ..a
    }
}

/// The spawn phase takes `a` to `b`: timers advance, due enemies join.
pub open spec fn spawn_step(a: World, b: World, d: TickDraws) -> bool {
    &&& b == (World {
        enemies: b.enemies,
        spawner: a.spawner.ticked(),
        next_id: ids_after(a.spawner.due(), a.next_id),
        ..a
    })
    &&& views(b.enemies@) == views(a.enemies@) + spawned(a.spawner.due(), a.player.pos, d, a.next_id)
}

/// The ability goes off, before any crash it causes: `a`, `oa` to `b`,
/// `ob`.
pub open spec fn blast_step(a: World, oa: TickOutcome, b: World, ob: TickOutcome) -> bool {
    &&& b == (World {
        enemies: b.enemies,
        mana: b.mana,
        achievements: b.achievements,
        instability: b.instability,
        power_up_timer: POWER_UP_TICKS,
        ..a
    })
    &&& views(b.enemies@) == views(a.enemies@).map_values(
        |e: EntityView|
            if a.mana.value >= ABILITY_COST {
                blasted(e, a.player.pos)
            } else {
                e
            },
    )
    &&& b.status(ob) == ability_used(a.status(oa))
    &&& a.achievements.grows_to(b.achievements)
    &&& cues_kept(SoundCues { explosion: true, ..oa.cues }, ob.cues)
    &&& ob.glitch_level == oa.glitch_level
}

/// The ability goes off and any crash it causes happens at once: `a`, `oa`
/// to `b`, `ob`.
pub open spec fn ability_step(a: World, oa: TickOutcome, b: World, ob: TickOutcome) -> bool {
    exists|m: World, om: TickOutcome|
        #![trigger blast_step(a, oa, m, om)]
        blast_step(a, oa, m, om) && settle_step(m, om, b, ob)
}

/// The player steers by its intent and moves: `a` to `b`.
pub open spec fn steer_step(a: World, input_x: i64, input_y: i64, b: World) -> bool {
    &&& b == (World { player: b.player, ..a })
    &&& b.player@ == (EntityView {
        speed: accelerated(a.player.speed, Vec2i { x: intent(input_x), y: intent(input_y) }),
        ..a.player@
    }).ticked(Vec2i { x: 0, y: 0 })
}

/// The enemies move and hit the player: `a`, `oa` to `b`, `ob`.
pub open spec fn enemies_step(a: World, oa: TickOutcome, b: World, ob: TickOutcome) -> bool {
    let hits = hits_in(a.enemies@, a.player@, a.enemies@.len() as int);
    &&& views(b.enemies@) == views(a.enemies@).map_values(|e: EntityView| enemy_after(e, a.player@))
    &&& b.status(ob) == hits_taken(a.status(oa), hits)
    &&& b == (World {
        enemies: b.enemies,
        hp: b.hp,
        achievements: b.achievements,
        instability: b.instability,
        hit_anim: if hits > 0 { HIT_ANIM_TICKS } else { a.hit_anim },
        ..a
    })
    &&& a.achievements.grows_to(b.achievements)
    &&& cues_kept(SoundCues { hit: oa.cues.hit || hits > 0, ..oa.cues }, ob.cues)
    &&& ob.glitch_level == oa.glitch_level
}

/// Touched items are collected: `a`, `oa` to `b`, `ob`.
pub open spec fn items_step(a: World, oa: TickOutcome, b: World, ob: TickOutcome) -> bool {
    let touched = touches_in(a.items@, a.player@, a.items@.len() as int);
    &&& views(b.items@) == views(a.items@).map_values(|i: EntityView| collected(i, a.player@))
    &&& b.status(ob) == pickups(a.status(oa), a.items@, a.player@, a.items@.len() as int)
    &&& b == (World {
        items: b.items,
        hp: b.hp,
        mana: b.mana,
        achievements: b.achievements,
        instability: b.instability,
        ..a
    })
    &&& a.achievements.grows_to(b.achievements)
    &&& cues_kept(SoundCues { pickup: oa.cues.pickup || touched > 0, ..oa.cues }, ob.cues)
    &&& ob.glitch_level == oa.glitch_level
}

/// The escape through the top edge is checked: `a`, `oa` to `b`, `ob`.
pub open spec fn escape_step(a: World, oa: TickOutcome, b: World, ob: TickOutcome) -> bool {
    if a.player.pos.y < ESCAPE_LINE {
        &&& b.status(ob) == dispatched(a.status(oa), UP)
        &&& cues_kept(oa.cues, ob.cues)
        &&& ob.glitch_level == oa.glitch_level
        &&& a.achievements.grows_to(b.achievements)
        &&& b == (World {
            player: if a.achievements.flags()[UP as int] {
                Entity { pos: center_spec(), ..a.player }
            } else {
                a.player
            },
            achievements: b.achievements,
            instability: b.instability,
            ..a
        })
    } else {
        b == a && ob == oa
    }
}

/// Dead enemies and items go, and dead followers drop by `rolls`.
pub open spec fn purge_step(a: World, b: World, rolls: Seq<DropRoll>) -> bool {
    &&& b == (World { enemies: b.enemies, items: b.items, ..a })
    &&& b.enemies@ == a.enemies@.filter(|e: Entity| is_alive(e))
    &&& b.items@ == a.items@.filter(|e: Entity| is_alive(e)) + drops_from(a.enemies@, rolls)
}

/// The tick is settled: instability past its bound or a pending first
/// unlock crashes and resets; otherwise nothing changes.
pub open spec fn settle_step(a: World, oa: TickOutcome, b: World, ob: TickOutcome) -> bool {
    if a.instability > MAX_UNSTABILITY {
        &&& a.achievements.grows_to(b.achievements)
        &&& b.achievements.flags() == a.achievements.flags().update(UNSTABLE as int, true)
        &&& ob == (TickOutcome {
            achievement: Some(UNSTABLE),
            entered_bsod: true,
            cues: SoundCues { bsod: true, ..oa.cues },
            ..oa
        })
        &&& b.is_reset()
        &&& b == (World {
            glitch: GlitchEngine { chain: None },
            achievements: b.achievements,
            ..a.reset_spec(b.enemies, b.items)
        })
    } else if oa.entered_bsod {
        &&& ob == (TickOutcome { cues: SoundCues { bsod: true, ..oa.cues }, ..oa })
        &&& b.is_reset()
        &&& b == (World { glitch: GlitchEngine { chain: None }, ..a.reset_spec(b.enemies, b.items) })
    } else {
        b == a && ob == oa
    }
}

/// The glitch scan at the present instability takes `a` to `b`.
pub open spec fn scan_step(a: World, b: World, d: TickDraws) -> bool {
    &&& b == (World { glitch: b.glitch, ..a })
    &&& match b.glitch.chain {
        None => forall|i: int| !hit_at(a.enemies@, d.glitch_rolls@, a.instability as int, i),
        Some(c) => exists|i: int|
            #![trigger a.enemies@[i]]
            hit_at(a.enemies@, d.glitch_rolls@, a.instability as int, i)
            && (forall|j: int| 0 <= j < i ==> !hit_at(a.enemies@, d.glitch_rolls@, a.instability as int, j))
            && c.reference == a.enemies@[i].id
            && c.x_direction == d.x_direction && c.y_direction == d.y_direction
            && c.countdown == countdown_for(a.instability as int),
    }
}

/// A running chain takes its step: `a`, `oa` to `b`, `ob`. The chain
/// follows the first live enemy with its reference id and ends at once when
/// there is none. On every tenth tick of its countdown a clone of that enemy,
/// one offset further along the direction and with a fresh id, joins the
/// enemies and becomes the chain's reference.
pub open spec fn chain_step(a: World, oa: TickOutcome, b: World, ob: TickOutcome) -> bool {
    match a.glitch.chain {
        None => b == a && ob == oa,
        Some(c) => if forall|j: int| 0 <= j < a.enemies@.len() ==> !live_with(#[trigger] a.enemies@[j], c.reference) {
            b == (World { glitch: GlitchEngine { chain: None }, ..a }) && ob == oa
        } else {
            exists|i: int|
                #![trigger a.enemies@[i]]
                first_live(a.enemies@, c.reference, i) && if clone_due(c) {
                    &&& views(b.enemies@) == views(a.enemies@).push(
                        cloned_at(a.enemies@[i]@, c.x_direction as int, c.y_direction as int, a.next_id),
                    )
                    &&& b == (World {
                        enemies: b.enemies,
                        next_id: fresh(a.next_id),
                        glitch: GlitchEngine { chain: next_chain(c, a.next_id) },
                        ..a
                    })
                    &&& ob == (TickOutcome { cues: SoundCues { glitch: true, ..oa.cues }, ..oa })
                } else {
                    &&& b == (World { glitch: GlitchEngine { chain: next_chain(c, c.reference) }, ..a })
                    &&& ob == oa
                }
        },
    }
}

/// The glitch engine's turn: a dormant engine scans where instability is
/// positive; a running one steps its chain.
pub open spec fn glitch_phase(a: World, oa: TickOutcome, b: World, ob: TickOutcome, d: TickDraws) -> bool {
    if a.glitch.is_dormant() {
        if a.instability >= 1 {
            ob == (TickOutcome { glitch_level: a.instability, ..oa }) && scan_step(a, b, d)
        } else {
            b == a && ob == oa
        }
    } else {
        chain_step(a, oa, b, ob)
    }
}

/// Steering, enemies, items and the escape check take `w`, `o` to `b`, `ob`.
pub open spec fn contacts_step(w: World, o: TickOutcome, input_x: i64, input_y: i64, b: World, ob: TickOutcome) -> bool {
    exists|w4: World, w5: World, o5: TickOutcome, w6: World, o6: TickOutcome|
        #![trigger steer_step(w, input_x, input_y, w4), enemies_step(w4, o, w5, o5), items_step(w5, o5, w6, o6)]
        steer_step(w, input_x, input_y, w4) && enemies_step(w4, o, w5, o5) && items_step(w5, o5, w6, o6)
            && escape_step(w6, o6, b, ob)
}

/// Purge, settle and, without a crash, the glitch engine take `w`, `o` to
/// `z`, `out`.
pub open spec fn finish_step(w: World, o: TickOutcome, d: TickDraws, z: World, out: TickOutcome) -> bool {
    exists|w8: World, w9: World, o9: TickOutcome|
        #![trigger purge_step(w, w8, d.drops@), settle_step(w8, o, w9, o9)]
        purge_step(w, w8, d.drops@) && settle_step(w8, o, w9, o9) && if o9.entered_bsod {
            z == w9 && out == o9
        } else {
            glitch_phase(w9, o9, z, out, d)
        }
}

/// The whole tick takes `a` to `z` with outcome `out`, by the phases in
/// their order.
pub open spec fn tick_step(
    a: World,
    input_x: i64,
    input_y: i64,
    ability: bool,
    d: TickDraws,
    z: World,
    out: TickOutcome,
) -> bool {
    exists|w2: World|
        #![trigger spawn_step(cooled(a), w2, d)]
        spawn_step(cooled(a), w2, d) && if ability {
            exists|w3: World, o3: TickOutcome|
                #![trigger ability_step(w2, TickOutcome::new_spec(), w3, o3)]
                ability_step(w2, TickOutcome::new_spec(), w3, o3) && if o3.entered_bsod {
                    z == w3 && out == o3
                } else {
                    exists|w7: World, o7: TickOutcome|
                        #![trigger contacts_step(w3, o3, input_x, input_y, w7, o7)]
                        contacts_step(w3, o3, input_x, input_y, w7, o7) && finish_step(w7, o7, d, z, out)
                }
        } else {
            exists|w7: World, o7: TickOutcome|
                #![trigger contacts_step(w2, TickOutcome::new_spec(), input_x, input_y, w7, o7)]
                contacts_step(w2, TickOutcome::new_spec(), input_x, input_y, w7, o7) && finish_step(w7, o7, d, z, out)
        }
}

/// Instability past its bound crashes the system once, on the tick that
/// settles it: "unstable" is unlocked and named, and the world is reset to
/// no instability, no enemy or item, and full meters.
pub proof fn lemma_instability_crash_resets(a: World, oa: TickOutcome, b: World, ob: TickOutcome)
    requires
        a.wf(),
        a.instability > MAX_UNSTABILITY,
        settle_step(a, oa, b, ob),
    ensures
        ob.entered_bsod,
        ob.achievement == Some(UNSTABLE),
        b.achievements.flags()[UNSTABLE as int],
        b.instability == 0,
        b.enemies@.len() == 0,
        b.items@.len() == 0,
        b.hp.value == 3,
        b.mana.value == 3,
        b.glitch.is_dormant(),
{
}

/// The player after steering by `(input_x, input_y)` and moving, from `a`.
pub open spec fn steered(a: World, input_x: i64, input_y: i64) -> EntityView {
    (EntityView {
        speed: accelerated(a.player.speed, Vec2i { x: intent(input_x), y: intent(input_y) }),
        ..a.player@
    }).ticked(Vec2i { x: 0, y: 0 })
}

/// A tick in which nothing spawns, the ability is not used, no item lies
/// about, the player stays below the escape line, and the only enemy hits
/// the player: at full or partial health the player loses one point and
/// nothing else changes in the meters, the flags or instability; at zero
/// health a locked "second_chance" is unlocked and the system crashes; at
/// zero health with it unlocked and instability at its bound, "unstable"
/// is unlocked and the system crashes. A crash leaves full meters, no
/// instability and no enemy or item.
pub proof fn lemma_single_hit_tick(
    a: World,
    input_x: i64,
    input_y: i64,
    d: TickDraws,
    z: World,
    out: TickOutcome,
)
    requires
        a.wf(),
        a.settled(),
        a.glitch.is_dormant(),
        a.spawner.due() == (SpawnDue { bullet: false, follower: false, pather: false }),
        a.items@.len() == 0,
        a.enemies@.len() == 1,
        touches(a.enemies@[0]@.ticked(steered(a, input_x, input_y).pos), steered(a, input_x, input_y)),
        steered(a, input_x, input_y).pos.y >= ESCAPE_LINE,
        tick_step(a, input_x, input_y, false, d, z, out),
    ensures
        a.hp.value >= 1 ==> {
            &&& !out.entered_bsod
            &&& z.hp.value == a.hp.value - 1
            &&& z.mana.value == a.mana.value
            &&& z.instability == a.instability
            &&& z.achievements.flags() == a.achievements.flags()
            &&& z.enemies@.len() == 0
        },
        a.hp.value == 0 && !a.achievements.flags()[SECOND_CHANCE as int] ==> {
            &&& out.entered_bsod
            &&& out.achievement == Some(SECOND_CHANCE)
            &&& z.achievements.flags()[SECOND_CHANCE as int]
            &&& z.is_reset()
        },
        a.hp.value == 0 && a.achievements.flags()[SECOND_CHANCE as int] && a.instability == MAX_UNSTABILITY ==> {
            &&& out.entered_bsod
            &&& out.achievement == Some(UNSTABLE)
            &&& z.achievements.flags()[UNSTABLE as int]
            &&& z.is_reset()
        },
{
    let new = TickOutcome::new_spec();
    let w2 = choose|w2: World| spawn_step(cooled(a), w2, d) && exists|w7: World, o7: TickOutcome|
        #![trigger contacts_step(w2, TickOutcome::new_spec(), input_x, input_y, w7, o7)]
        contacts_step(w2, TickOutcome::new_spec(), input_x, input_y, w7, o7) && finish_step(w7, o7, d, z, out);
    let (w7, o7) = choose|w7: World, o7: TickOutcome|
        contacts_step(w2, new, input_x, input_y, w7, o7) && finish_step(w7, o7, d, z, out);
    let (w4, w5, o5, w6, o6) = choose|w4: World, w5: World, o5: TickOutcome, w6: World, o6: TickOutcome|
        steer_step(w2, input_x, input_y, w4) && enemies_step(w4, new, w5, o5) && items_step(w5, o5, w6, o6)
            && escape_step(w6, o6, w7, o7);
    let (w8, w9, o9) = choose|w8: World, w9: World, o9: TickOutcome|
        purge_step(w7, w8, d.drops@) && settle_step(w8, o7, w9, o9) && if o9.entered_bsod {
            z == w9 && out == o9
        } else {
            glitch_phase(w9, o9, z, out, d)
        };
    // spawning adds nothing, steering moves only the player
    assert(spawned(a.spawner.due(), a.player.pos, d, a.next_id) =~= Seq::<EntityView>::empty());
    assert(views(w2.enemies@) == views(a.enemies@));
    assert(w2.enemies@.len() == 1 && w2.enemies@[0]@ == a.enemies@[0]@) by {
        assert(views(w2.enemies@).len() == 1);
        assert(views(w2.enemies@)[0] == w2.enemies@[0]@);
        assert(views(a.enemies@)[0] == a.enemies@[0]@);
    }
    assert(w4.player@ == steered(a, input_x, input_y));
    // one hit
    let p = w4.player@;
    assert(hits_in(w4.enemies@, p, 1) == 1) by {
        reveal_with_fuel(hits_in, 2);
    }
    let s0 = w4.status(new);
    assert(s0 == a.status(new));
    assert(hits_taken(s0, 1) == hit_taken(s0)) by {
        reveal_with_fuel(hits_taken, 2);
    }
    assert(w4.enemies == w2.enemies);
    assert(views(w5.enemies@).len() == views(w4.enemies@).len());
    assert(views(w4.enemies@).len() == 1);
    assert(views(w5.enemies@)[0] == enemy_after(views(w4.enemies@)[0], p));
    assert(views(w4.enemies@)[0] == w4.enemies@[0]@);
    assert(views(w5.enemies@)[0] == w5.enemies@[0]@);
    assert(w5.enemies@.len() == 1);
    assert(!w5.enemies@[0].alive);
    // no item, no escape
    assert(w5.items@.len() == 0);
    assert(pickups(w5.status(o5), w5.items@, w5.player@, 0) == w5.status(o5));
    assert(w6.player == w4.player);
    assert(w7 == w6 && o7 == o6);
    assert(w6.enemies == w5.enemies);
    // the dead enemy is purged
    assert(w8.enemies@ == w7.enemies@.filter(|e: Entity| is_alive(e)));
    assert(w7.enemies@.len() == 1);
    assert(w8.enemies@.len() == 0) by {
        reveal_with_fuel(Seq::filter, 2);
        assert(w7.enemies@.drop_last().len() == 0);
    }
    assert(w8.status(o7) == hit_taken(a.status(new)));
    if a.hp.value >= 1 {
        assert(!o7.entered_bsod);
        assert(w8.instability == a.instability);
        assert(w9 == w8 && o9 == o7);
        assert(w9.glitch == a.glitch);
        assert(w9.glitch.is_dormant());
        assert(z == (World { glitch: z.glitch, ..w9 }));
    }
}

/// A tick in which nothing spawns, the ability is not used, no enemy is
/// about, the player stays below the escape line, and the only item is
/// collected. Below the bound its meter gains one. At the bound the meter
/// wraps to zero: the first wrap unlocks its achievement ("over_healed" for
/// a heart, "over_9000" for mana) and crashes the system; a later wrap
/// leaves the flags as they were and raises instability by exactly one, or,
/// at instability's bound, unlocks "unstable" and crashes. A crash leaves
/// full meters, no instability and no enemy or item.
pub proof fn lemma_single_pickup_tick(
    a: World,
    input_x: i64,
    input_y: i64,
    d: TickDraws,
    z: World,
    out: TickOutcome,
)
    requires
        a.wf(),
        a.settled(),
        a.glitch.is_dormant(),
        a.spawner.due() == (SpawnDue { bullet: false, follower: false, pather: false }),
        a.enemies@.len() == 0,
        a.items@.len() == 1,
        touches(a.items@[0]@, steered(a, input_x, input_y)),
        steered(a, input_x, input_y).pos.y >= ESCAPE_LINE,
        tick_step(a, input_x, input_y, false, d, z, out),
    ensures
        ({
            let heal = a.items@[0]@.kind is HealItem;
            let before = if heal { a.hp.value } else { a.mana.value };
            let after = if heal { z.hp.value } else { z.mana.value };
            let flag = if heal { OVER_HEALED } else { OVER_9000 };
            &&& before < 3 ==> {
                &&& !out.entered_bsod
                &&& after == before + 1
                &&& z.instability == a.instability
                &&& z.achievements.flags() == a.achievements.flags()
                &&& z.items@.len() == 0
            }
            &&& before == 3 && !a.achievements.flags()[flag as int] ==> {
                &&& out.entered_bsod
                &&& out.achievement == Some(flag)
                &&& z.achievements.flags()[flag as int]
                &&& z.is_reset()
            }
            &&& before == 3 && a.achievements.flags()[flag as int] && a.instability < MAX_UNSTABILITY ==> {
                &&& !out.entered_bsod
                &&& after == 0
                &&& z.instability == a.instability + 1
                &&& z.achievements.flags() == a.achievements.flags()
                &&& z.items@.len() == 0
            }
            &&& before == 3 && a.achievements.flags()[flag as int] && a.instability == MAX_UNSTABILITY ==> {
                &&& out.entered_bsod
                &&& out.achievement == Some(UNSTABLE)
                &&& z.achievements.flags()[UNSTABLE as int]
                &&& z.is_reset()
            }
        }),
{
    let new = TickOutcome::new_spec();
    let w2 = choose|w2: World| spawn_step(cooled(a), w2, d) && exists|w7: World, o7: TickOutcome|
        #![trigger contacts_step(w2, TickOutcome::new_spec(), input_x, input_y, w7, o7)]
        contacts_step(w2, TickOutcome::new_spec(), input_x, input_y, w7, o7) && finish_step(w7, o7, d, z, out);
    let (w7, o7) = choose|w7: World, o7: TickOutcome|
        contacts_step(w2, new, input_x, input_y, w7, o7) && finish_step(w7, o7, d, z, out);
    let (w4, w5, o5, w6, o6) = choose|w4: World, w5: World, o5: TickOutcome, w6: World, o6: TickOutcome|
        steer_step(w2, input_x, input_y, w4) && enemies_step(w4, new, w5, o5) && items_step(w5, o5, w6, o6)
            && escape_step(w6, o6, w7, o7);
    let (w8, w9, o9) = choose|w8: World, w9: World, o9: TickOutcome|
        purge_step(w7, w8, d.drops@) && settle_step(w8, o7, w9, o9) && if o9.entered_bsod {
            z == w9 && out == o9
        } else {
            glitch_phase(w9, o9, z, out, d)
        };
    let p = w4.player@;
    assert(spawned(a.spawner.due(), a.player.pos, d, a.next_id) =~= Seq::<EntityView>::empty());
    assert(views(w2.enemies@) == views(a.enemies@));
    assert(w2.enemies@.len() == 0);
    assert(p == steered(a, input_x, input_y));
    // no enemy
    assert(hits_in(w4.enemies@, p, 0) == 0);
    assert(w5.status(o5) == w4.status(new));
    assert(w4.status(new) == a.status(new));
    assert(w5.items == a.items);
    assert(w5.player == w4.player);
    // one pickup
    let it = a.items@[0]@;
    assert(pickups(w5.status(o5), w5.items@, p, 1) == if it.kind is HealItem {
        healed(a.status(new))
    } else {
        recharged(a.status(new))
    }) by {
        reveal_with_fuel(pickups, 2);
    }
    assert(views(w6.items@).len() == 1);
    assert(views(w6.items@)[0] == collected(views(w5.items@)[0], p));
    assert(views(w5.items@)[0] == w5.items@[0]@);
    assert(views(w6.items@)[0] == w6.items@[0]@);
    assert(!w6.items@[0].alive);
    // no escape
    assert(w6.player == w4.player);
    assert(w7 == w6 && o7 == o6);
    assert(w4.enemies == w2.enemies);
    assert(views(w5.enemies@).len() == views(w4.enemies@).len());
    assert(w5.enemies@.len() == 0);
    assert(w6.enemies == w5.enemies);
    assert(w7.enemies@.len() == 0);
    assert(w8.enemies@.len() == 0) by {
        reveal_with_fuel(Seq::filter, 1);
    }
    assert(w8.items@.len() == 0) by {
        reveal_with_fuel(Seq::filter, 2);
        assert(w7.items@.drop_last().len() == 0);
        assert(drops_from(w7.enemies@, d.drops@) =~= Seq::<Entity>::empty());
    }
    assert(it.kind is HealItem || it.kind is ManaItem);
    assert(w8.status(o7) == if it.kind is HealItem {
        healed(a.status(new))
    } else {
        recharged(a.status(new))
    });
    if !o7.entered_bsod && w8.instability <= MAX_UNSTABILITY {
        assert(w9 == w8 && o9 == o7);
        assert(w9.glitch == a.glitch);
        assert(z == (World { glitch: z.glitch, ..w9 }));
    }
}

/// A well-formed world holds both meters within `[0, 3]`; every tick keeps
/// the world well formed, so no sequence of ticks takes them out.
pub proof fn lemma_meters_in_range(w: World)
    requires
        w.wf(),
    ensures
        0 <= w.hp.value <= 3,
        0 <= w.mana.value <= 3,
{
}

/// A heart collected at full health wraps hit points to zero. The first
/// such wrap unlocks "over_healed" and crashes the system; once it is
/// unlocked, a wrap leaves it unlocked and raises instability by exactly one.
pub proof fn lemma_heal_wrap(s: Status)
    requires
        s.hp == HEALTH_BOUND,
        s.flags.len() == COUNT,
        s.instability < u32::MAX,
    ensures
        healed(s).hp == 0,
        !s.flags[OVER_HEALED as int] ==> {
            &&& healed(s).flags == s.flags.update(OVER_HEALED as int, true)
            &&& healed(s).pending
            &&& healed(s).event == Some(OVER_HEALED)
            &&& healed(s).instability == s.instability
        },
        s.flags[OVER_HEALED as int] ==> {
            &&& healed(s).flags == s.flags
            &&& healed(s).flags[OVER_HEALED as int]
            &&& healed(s).instability == s.instability + 1
            &&& healed(s).pending == s.pending
            &&& healed(s).event == s.event
        },
{
}

/// Within a tick, starting from the flags `f0`: a changed flag means a
/// crash is pending, a pending crash names its achievement, and the named
/// achievement is unlocked.
pub open spec fn consistent(s: Status, f0: Seq<bool>) -> bool {
    &&& s.flags.len() == COUNT
    &&& (s.flags != f0 ==> s.pending)
    &&& (s.pending ==> s.event is Some)
    &&& (s.event matches Some(i) ==> i < COUNT && s.flags[i as int])
}

proof fn lemma_dispatched_consistent(s: Status, i: usize, f0: Seq<bool>)
    requires
        consistent(s, f0),
        i < COUNT,
    ensures
        consistent(dispatched(s, i), f0),
        consistent(hit_taken(s), f0),
        consistent(healed(s), f0),
        consistent(recharged(s), f0),
        consistent(ability_used(s), f0),
{
    let d = dispatched(s, i);
    if !s.flags[i as int] {
        assert(d.flags[i as int]);
    }
    lemma_dispatched_one(Status { hp: decrement_value(s.hp, 1, HEALTH_BOUND as int), ..s }, SECOND_CHANCE, f0);
    lemma_dispatched_one(Status { hp: increment_value(s.hp, 1, HEALTH_BOUND as int), ..s }, OVER_HEALED, f0);
    lemma_dispatched_one(Status { mana: increment_value(s.mana, 1, MANA_BOUND as int), ..s }, OVER_9000, f0);
    lemma_dispatched_one(Status { mana: decrement_value(s.mana, ABILITY_COST as int, MANA_BOUND as int), ..s }, UNLIMITED_POWER, f0);
}

proof fn lemma_dispatched_one(s: Status, i: usize, f0: Seq<bool>)
    requires
        consistent(s, f0),
        i < COUNT,
    ensures
        consistent(dispatched(s, i), f0),
{
    let d = dispatched(s, i);
    if !s.flags[i as int] {
        assert(d.flags[i as int]);
    }
}

proof fn lemma_hits_consistent(s: Status, n: nat, f0: Seq<bool>)
    requires
        consistent(s, f0),
    ensures
        consistent(hits_taken(s, n), f0),
    decreases n,
{
    if n > 0 {
        lemma_hits_consistent(s, (n - 1) as nat, f0);
        lemma_dispatched_consistent(hits_taken(s, (n - 1) as nat), SECOND_CHANCE, f0);
    }
}

proof fn lemma_pickups_consistent(s: Status, items: Seq<Entity>, p: EntityView, k: int, f0: Seq<bool>)
    requires
        consistent(s, f0),
    ensures
        consistent(pickups(s, items, p, k), f0),
    decreases k,
{
    if k > 0 {
        lemma_pickups_consistent(s, items, p, k - 1, f0);
        lemma_dispatched_consistent(pickups(s, items, p, k - 1), OVER_HEALED, f0);
    }
}

proof fn lemma_grows_refl(a: Achievements)
    ensures
        a.grows_to(a),
{
}

proof fn lemma_grows_trans(a: Achievements, b: Achievements, c: Achievements)
    requires
        a.grows_to(b),
        b.grows_to(c),
    ensures
        a.grows_to(c),
{
    assert forall|i: int| 0 <= i < a.achievements@.len() implies {
        &&& (#[trigger] a.achievements@[i]).unlocked ==> c.achievements@[i].unlocked
        &&& c.achievements@[i].name == a.achievements@[i].name
        &&& c.achievements@[i].desc == a.achievements@[i].desc
    } by {
        let _ = b.achievements@[i];
    }
}

impl World {
    /// The invariant of the world.
    pub open spec fn wf(&self) -> bool {
        &&& self.player@.wf()
        &&& self.player@.kind == Kind::Player
        &&& self.player.radius == PLAYER_RADIUS
        &&& self.player.alive
        &&& forall|i: int|
            0 <= i < self.enemies@.len() ==> (#[trigger] self.enemies@[i])@.wf()
                && self.enemies@[i]@.kind.is_enemy()
        &&& forall|i: int|
            0 <= i < self.items@.len() ==> (#[trigger] self.items@[i])@.wf()
                && self.items@[i]@.kind.is_item()
        &&& self.hp.wf()
        &&& self.hp.bound == HEALTH_BOUND
        &&& self.mana.wf()
        &&& self.mana.bound == MANA_BOUND
        &&& self.achievements.wf()
        &&& self.spawner.wf()
        &&& self.glitch.wf()
    }

    /// Between ticks: instability within its bound, and no dead entity left.
    pub open spec fn settled(&self) -> bool {
        &&& self.instability <= MAX_UNSTABILITY
        &&& forall|i: int| 0 <= i < self.enemies@.len() ==> (#[trigger] self.enemies@[i]).alive
        &&& forall|i: int| 0 <= i < self.items@.len() ==> (#[trigger] self.items@[i]).alive
    }

    /// The state right after a reset.
    pub open spec fn is_reset(&self) -> bool {
        &&& self.player.pos == center_spec()
        &&& self.player.speed == (Vec2i { x: 0, y: 0 })
        &&& self.hp.value == HEALTH_BOUND
        &&& self.mana.value == MANA_BOUND
        &&& self.instability == 0
        &&& self.spawner.is_reset()
        &&& self.enemies@.len() == 0
        &&& self.items@.len() == 0
    }

    /// `self` after a reset, with the empty `enemies` and `items`: the
    /// player in the centre at rest, full meters, no instability, timers at
    /// zero, no hit animation.
    pub open spec fn reset_spec(&self, enemies: Vec<Entity>, items: Vec<Entity>) -> World {
        World {
            player: Entity { pos: center_spec(), speed: Vec2i { x: 0, y: 0 }, ..self.player },
            enemies,
            items,
            hp: ResourceMeter { value: HEALTH_BOUND, bound: HEALTH_BOUND },
            mana: ResourceMeter { value: MANA_BOUND, bound: MANA_BOUND },
            instability: 0,
            spawner: SpawnScheduler { bullet_timer: 0, follower_timer: 0, pather_timer: 0 },
            hit_anim: 0,
            ..*self
        }
    }

    pub open spec fn status(&self, out: TickOutcome) -> Status {
        Status {
            hp: self.hp.value as int,
            mana: self.mana.value as int,
            instability: self.instability as int,
            flags: self.achievements.flags(),
            pending: out.entered_bsod,
            event: out.achievement,
            bug: out.cues.small_bug,
        }
    }

    /// A fresh world: the player at rest in the centre, full meters, no
    /// enemy or item, every achievement locked.
    pub fn new() -> (w: Self)
        ensures
            w.wf(),
            w.settled(),
            w.is_reset(),
            w.glitch.is_dormant(),
            !w.has_game_started,
            forall|i: int| 0 <= i < COUNT ==> !(#[trigger] w.achievements.flags()[i]),
    {
        let w = World {
            player: Entity::new_player(),
            enemies: Vec::new(),
            items: Vec::new(),
            hp: ResourceMeter::new(HEALTH_BOUND),
            mana: ResourceMeter::new(MANA_BOUND),
            spawner: SpawnScheduler::new(),
            achievements: Achievements::new(),
            instability: 0,
            glitch: GlitchEngine::new(),
            next_id: 1,
            has_game_started: false,
            power_up_timer: 0,
            hit_anim: 0,
        };
        assert(forall|i: int| 0 <= i < COUNT ==> !(#[trigger] w.achievements.flags()[i]));
        w
    }

    /// Puts the player back in the centre at rest, refills both meters,
    /// clears instability, timers, enemies and items. Achievements stay.
    pub fn reset(&mut self)
        requires
            old(self).wf(),
        ensures
            final(self).wf(),
            final(self).settled(),
            final(self).is_reset(),
            *final(self) == old(self).reset_spec(final(self).enemies, final(self).items),
    {
        self.player.pos = center();
        self.player.speed = Vec2i { x: 0, y: 0 };
        self.hp.refill();
        self.mana.refill();
        self.instability = 0;
        self.spawner.reset();
        self.enemies.clear();
        self.items.clear();
        self.hit_anim = 0;
    }

    /// The crash: a full reset, with any glitch chain stopped.
    pub fn bsod(&mut self)
        requires
            old(self).wf(),
        ensures
            final(self).wf(),
            final(self).settled(),
            final(self).is_reset(),
            *final(self) == (World {
                glitch: GlitchEngine { chain: None },
                ..old(self).reset_spec(final(self).enemies, final(self).items)
            }),
    {
        self.reset();
        self.glitch.cancel();
    }

    /// Instability rises by one.
    pub fn raise_unstability(&mut self, out: &mut TickOutcome)
        ensures
            *final(self) == (World { instability: raised(old(self).instability as int) as u32, ..*old(self) }),
            *final(out) == (TickOutcome { cues: SoundCues { small_bug: true, ..old(out).cues }, ..*old(out) }),
    {
        if self.instability < u32::MAX {
            self.instability = self.instability + 1;
        }
        out.cues.small_bug = true;
    }

    /// Unlocks achievement `i` if it is locked, and marks the tick for a
    /// crash; otherwise raises instability. The crash and its reset are
    /// pending: `settle` carries them out.
    pub fn dispatch(&mut self, i: usize, out: &mut TickOutcome)
        requires
            old(self).wf(),
            i < COUNT,
        ensures
            final(self).wf(),
            final(self).status(*final(out)) == dispatched(old(self).status(*old(out)), i),
            *final(self) == (World {
                achievements: final(self).achievements,
                instability: final(self).instability,
                ..*old(self)
            }),
            cues_kept(old(out).cues, final(out).cues),
            final(out).glitch_level == old(out).glitch_level,
            old(self).achievements.grows_to(final(self).achievements),
    {
        proof {
            assert(old(self).achievements.flags()[i as int] == old(self).achievements.achievements@[i as int].unlocked);
        }
        if self.achievements.unlock(i) {
            out.achievement = Some(i);
            out.entered_bsod = true;
            proof {
                assert(self.achievements.flags() =~= old(self).achievements.flags().update(i as int, true));
            }
        } else {
            proof {
                assert(self.achievements.achievements@ =~= old(self).achievements.achievements@);
            }
            self.raise_unstability(out);
        }
    }

    /// The player takes one hit. A crash this causes is pending until
    /// `settle`.
    pub fn hit_player(&mut self, out: &mut TickOutcome)
        requires
            old(self).wf(),
        ensures
            final(self).wf(),
            final(self).status(*final(out)) == hit_taken(old(self).status(*old(out))),
            *final(self) == (World {
                hp: final(self).hp,
                achievements: final(self).achievements,
                instability: final(self).instability,
                hit_anim: HIT_ANIM_TICKS,
                ..*old(self)
            }),
            old(self).achievements.grows_to(final(self).achievements),
            cues_kept(SoundCues { hit: true, ..old(out).cues }, final(out).cues),
            final(out).glitch_level == old(out).glitch_level,
    {
        out.cues.hit = true;
        self.hit_anim = HIT_ANIM_TICKS;
        if self.hp.decrement(1) {
            self.dispatch(SECOND_CHANCE, out);
        }
        proof {
            assert(old(self).achievements.grows_to(self.achievements));
        }
    }

    /// Every enemy takes its own tick toward the player and dies where it
    /// then touches the player, who takes one hit from each.
    pub fn move_enemies(&mut self, out: &mut TickOutcome)
        requires
            old(self).wf(),
        ensures
            final(self).wf(),
            final(self).enemies@.len() == old(self).enemies@.len(),
            forall|i: int|
                0 <= i < old(self).enemies@.len() ==> (#[trigger] final(self).enemies@[i])@
                    == enemy_after(old(self).enemies@[i]@, old(self).player@),
            final(self).status(*final(out)) == hits_taken(
                old(self).status(*old(out)),
                hits_in(old(self).enemies@, old(self).player@, old(self).enemies@.len() as int),
            ),
            *final(self) == (World {
                enemies: final(self).enemies,
                hp: final(self).hp,
                achievements: final(self).achievements,
                instability: final(self).instability,
                hit_anim: if hits_in(old(self).enemies@, old(self).player@, old(self).enemies@.len() as int) > 0 {
                    HIT_ANIM_TICKS
                } else {
                    old(self).hit_anim
                },
                ..*old(self)
            }),
            old(self).achievements.grows_to(final(self).achievements),
            cues_kept(SoundCues {
                hit: old(out).cues.hit || hits_in(old(self).enemies@, old(self).player@, old(self).enemies@.len() as int) > 0,
                ..old(out).cues
            }, final(out).cues),
            final(out).glitch_level == old(out).glitch_level,
            enemies_step(*old(self), *old(out), *final(self), *final(out)),
    {
        let n = self.enemies.len();
        let mut i: usize = 0;
        while i < n
            invariant
                self.wf(),
                n == self.enemies@.len(),
                n == old(self).enemies@.len(),
                i <= n,
                forall|j: int| 0 <= j < i ==> (#[trigger] self.enemies@[j])@ == enemy_after(old(self).enemies@[j]@, old(self).player@),
                forall|j: int| i <= j < n ==> #[trigger] self.enemies@[j] == old(self).enemies@[j],
                self.status(*out) == hits_taken(old(self).status(*old(out)), hits_in(old(self).enemies@, old(self).player@, i as int)),
                *self == (World {
                    enemies: self.enemies,
                    hp: self.hp,
                    achievements: self.achievements,
                    instability: self.instability,
                    hit_anim: if hits_in(old(self).enemies@, old(self).player@, i as int) > 0 {
                        HIT_ANIM_TICKS
                    } else {
                        old(self).hit_anim
                    },
                    ..*old(self)
                }),
                old(self).achievements.grows_to(self.achievements),
                cues_kept(SoundCues {
                    hit: old(out).cues.hit || hits_in(old(self).enemies@, old(self).player@, i as int) > 0,
                    ..old(out).cues
                }, out.cues),
                out.glitch_level == old(out).glitch_level,
            decreases n - i,
        {
            let ghost before = self.achievements;
            let hit = self.meet_enemy(i, out);
            proof {
                lemma_grows_trans(old(self).achievements, before, self.achievements);
                assert(hits_in(old(self).enemies@, old(self).player@, i + 1) == hits_in(old(self).enemies@, old(self).player@, i as int) + if hit { 1nat } else { 0nat });
            }
            i = i + 1;
        }
        proof {
            assert(views(self.enemies@) =~= views(old(self).enemies@).map_values(
                |e: EntityView| enemy_after(e, old(self).player@),
            ));
        }
    }

    /// Enemy `i` takes its own tick toward the player and dies where it then
    /// touches the player, who takes a hit.
    fn meet_enemy(&mut self, i: usize, out: &mut TickOutcome) -> (hit: bool)
        requires
            old(self).wf(),
            i < old(self).enemies@.len(),
        ensures
            final(self).wf(),
            hit == touches(old(self).enemies@[i as int]@.ticked(old(self).player.pos), old(self).player@),
            final(self).enemies@ == old(self).enemies@.update(i as int, final(self).enemies@[i as int]),
            final(self).enemies@[i as int]@ == enemy_after(old(self).enemies@[i as int]@, old(self).player@),
            final(self).status(*final(out)) == if hit {
                hit_taken(old(self).status(*old(out)))
            } else {
                old(self).status(*old(out))
            },
            *final(self) == (World {
                enemies: final(self).enemies,
                hp: final(self).hp,
                achievements: final(self).achievements,
                instability: final(self).instability,
                hit_anim: if hit { HIT_ANIM_TICKS } else { old(self).hit_anim },
                ..*old(self)
            }),
            old(self).achievements.grows_to(final(self).achievements),
            cues_kept(SoundCues { hit: old(out).cues.hit || hit, ..old(out).cues }, final(out).cues),
            final(out).glitch_level == old(out).glitch_level,
    {
        let mut e = self.enemies[i].duplicate();
        let target = self.player.pos;
        e.tick(target);
        let hit = e.alive && closer_than(e.pos, target, self.player.radius + e.radius);
        if hit {
            e.alive = false;
        }
        self.enemies.set(i, e);
        if hit {
            self.hit_player(out);
        } else {
            proof {
                lemma_grows_refl(self.achievements);
            }
        }
        hit
    }

    /// Every item that touches the player is collected, in order, and dies.
    pub fn collect_items(&mut self, out: &mut TickOutcome)
        requires
            old(self).wf(),
        ensures
            final(self).wf(),
            final(self).items@.len() == old(self).items@.len(),
            forall|i: int|
                0 <= i < old(self).items@.len() ==> (#[trigger] final(self).items@[i])@
                    == collected(old(self).items@[i]@, old(self).player@),
            final(self).status(*final(out)) == pickups(
                old(self).status(*old(out)),
                old(self).items@,
                old(self).player@,
                old(self).items@.len() as int,
            ),
            *final(self) == (World {
                items: final(self).items,
                hp: final(self).hp,
                mana: final(self).mana,
                achievements: final(self).achievements,
                instability: final(self).instability,
                ..*old(self)
            }),
            old(self).achievements.grows_to(final(self).achievements),
            cues_kept(SoundCues {
                pickup: old(out).cues.pickup || touches_in(old(self).items@, old(self).player@, old(self).items@.len() as int) > 0,
                ..old(out).cues
            }, final(out).cues),
            final(out).glitch_level == old(out).glitch_level,
            items_step(*old(self), *old(out), *final(self), *final(out)),
    {
        let n = self.items.len();
        let mut i: usize = 0;
        while i < n
            invariant
                self.wf(),
                n == self.items@.len(),
                n == old(self).items@.len(),
                i <= n,
                forall|j: int| 0 <= j < i ==> (#[trigger] self.items@[j])@ == collected(old(self).items@[j]@, old(self).player@),
                forall|j: int| i <= j < n ==> #[trigger] self.items@[j] == old(self).items@[j],
                self.status(*out) == pickups(old(self).status(*old(out)), old(self).items@, old(self).player@, i as int),
                *self == (World {
                    items: self.items,
                    hp: self.hp,
                    mana: self.mana,
                    achievements: self.achievements,
                    instability: self.instability,
                    ..*old(self)
                }),
                old(self).achievements.grows_to(self.achievements),
                cues_kept(SoundCues {
                    pickup: old(out).cues.pickup || touches_in(old(self).items@, old(self).player@, i as int) > 0,
                    ..old(out).cues
                }, out.cues),
                out.glitch_level == old(out).glitch_level,
            decreases n - i,
        {
            let ghost before = self.achievements;
            let touched = self.meet_item(i, out);
            proof {
                lemma_grows_trans(old(self).achievements, before, self.achievements);
                assert(touches_in(old(self).items@, old(self).player@, i + 1) == touches_in(old(self).items@, old(self).player@, i as int) + if touched { 1nat } else { 0nat });
            }
            i = i + 1;
        }
        proof {
            assert(views(self.items@) =~= views(old(self).items@).map_values(
                |i: EntityView| collected(i, old(self).player@),
            ));
        }
    }

    /// Item `i` is collected, and dies, where it touches the player.
    fn meet_item(&mut self, i: usize, out: &mut TickOutcome) -> (touched: bool)
        requires
            old(self).wf(),
            i < old(self).items@.len(),
        ensures
            final(self).wf(),
            touched == touches(old(self).items@[i as int]@, old(self).player@),
            final(self).items@ == old(self).items@.update(i as int, final(self).items@[i as int]),
            final(self).items@[i as int]@ == collected(old(self).items@[i as int]@, old(self).player@),
            final(self).status(*final(out)) == if !touched {
                old(self).status(*old(out))
            } else if old(self).items@[i as int]@.kind is HealItem {
                healed(old(self).status(*old(out)))
            } else {
                recharged(old(self).status(*old(out)))
            },
            *final(self) == (World {
                items: final(self).items,
                hp: final(self).hp,
                mana: final(self).mana,
                achievements: final(self).achievements,
                instability: final(self).instability,
                ..*old(self)
            }),
            old(self).achievements.grows_to(final(self).achievements),
            cues_kept(SoundCues { pickup: old(out).cues.pickup || touched, ..old(out).cues }, final(out).cues),
            final(out).glitch_level == old(out).glitch_level,
    {
        let mut e = self.items[i].duplicate();
        let touched = e.alive && closer_than(e.pos, self.player.pos, self.player.radius + e.radius);
        let heal = match e.e_type {
            EntityType::HealItem => true,
            _ => false,
        };
        if touched {
            e.alive = false;
        }
        self.items.set(i, e);
        if touched {
            self.pick_up(heal, out);
        } else {
            proof {
                lemma_grows_refl(self.achievements);
            }
        }
        touched
    }

    /// Removes the dead enemies and items, keeping the order of the rest;
    /// then adds what the dead followers drop, by `rolls`.
    pub fn purge(&mut self, rolls: &Vec<DropRoll>)
        requires
            old(self).wf(),
            forall|i: int|
                0 <= i < rolls@.len() ==> (#[trigger] rolls@[i]).heal_pos.in_field()
                    && rolls@[i].mana_pos.in_field(),
        ensures
            final(self).wf(),
            final(self).enemies@ == old(self).enemies@.filter(|e: Entity| is_alive(e)),
            final(self).items@ == old(self).items@.filter(|e: Entity| is_alive(e)) + drops_from(
                old(self).enemies@,
                rolls@,
            ),
            forall|i: int| 0 <= i < final(self).enemies@.len() ==> (#[trigger] final(self).enemies@[i]).alive,
            forall|i: int| 0 <= i < final(self).items@.len() ==> (#[trigger] final(self).items@[i]).alive,
            *final(self) == (World { enemies: final(self).enemies, items: final(self).items, ..*old(self) }),
            purge_step(*old(self), *final(self), rolls@),
    {
        let ghost all = old(self).enemies@;
        let mut rest: Vec<Entity> = Vec::new();
        std::mem::swap(&mut rest, &mut self.enemies);
        let mut dropped: Vec<Entity> = Vec::new();
        let n = rest.len();
        let mut k: usize = 0;
        while k < n
            invariant
                n == all.len(),
                k <= n,
                rest@ == all.subrange(k as int, n as int),
                self.enemies@ == all.subrange(0, k as int).filter(|e: Entity| is_alive(e)),
                dropped@ == drops_from(all.subrange(0, k as int), rolls@),
                forall|i: int| 0 <= i < all.len() ==> (#[trigger] all[i])@.wf() && all[i]@.kind.is_enemy(),
                forall|i: int| 0 <= i < self.enemies@.len() ==> (#[trigger] self.enemies@[i])@.wf()
                    && self.enemies@[i]@.kind.is_enemy() && self.enemies@[i].alive,
                forall|i: int| 0 <= i < dropped@.len() ==> (#[trigger] dropped@[i])@.wf()
                    && dropped@[i]@.kind.is_item() && dropped@[i].alive,
                forall|i: int|
                    0 <= i < rolls@.len() ==> (#[trigger] rolls@[i]).heal_pos.in_field()
                        && rolls@[i].mana_pos.in_field(),
                *self == (World { enemies: self.enemies, ..*old(self) }),
            decreases n - k,
        {
            let e = rest.remove(0);
            proof {
                let pre = all.subrange(0, k as int);
                let post = all.subrange(0, k + 1);
                assert(e == all[k as int]);
                assert(post.drop_last() == pre);
                assert(post.last() == e);
                reveal(Seq::filter);
                assert(rest@ == all.subrange(k + 1, n as int));
            }
            let ghost before = dropped@;
            if !e.alive {
                let follower = match e.e_type {
                    EntityType::Follower => true,
                    _ => false,
                };
                if follower && k < rolls.len() {
                    let r = rolls[k];
                    if r.heal_roll < DROP_CHANCE {
                        dropped.push(Entity::new_heal_item(r.heal_pos));
                    }
                    if r.mana_roll < DROP_CHANCE {
                        dropped.push(Entity::new_mana_item(r.mana_pos));
                    }
                }
                proof {
                    assert(dropped@ =~= before + drops_for(e, k as int, rolls@));
                }
            } else {
                proof {
                    assert(dropped@ =~= before + drops_for(e, k as int, rolls@));
                }
                self.enemies.push(e);
            }
            k = k + 1;
        }
        proof {
            assert(all.subrange(0, n as int) == all);
        }
        let ghost items0 = self.items@;
        let mut rest_items: Vec<Entity> = Vec::new();
        std::mem::swap(&mut rest_items, &mut self.items);
        let m = rest_items.len();
        let mut k: usize = 0;
        while k < m
            invariant
                m == items0.len(),
                k <= m,
                rest_items@ == items0.subrange(k as int, m as int),
                self.items@ == items0.subrange(0, k as int).filter(|e: Entity| is_alive(e)),
                forall|i: int| 0 <= i < items0.len() ==> (#[trigger] items0[i])@.wf() && items0[i]@.kind.is_item(),
                forall|i: int| 0 <= i < self.items@.len() ==> (#[trigger] self.items@[i])@.wf()
                    && self.items@[i]@.kind.is_item() && self.items@[i].alive,
                self.enemies@ == all.filter(|e: Entity| is_alive(e)),
                forall|i: int| 0 <= i < self.enemies@.len() ==> (#[trigger] self.enemies@[i])@.wf()
                    && self.enemies@[i]@.kind.is_enemy() && self.enemies@[i].alive,
                forall|i: int| 0 <= i < dropped@.len() ==> (#[trigger] dropped@[i])@.wf()
                    && dropped@[i]@.kind.is_item() && dropped@[i].alive,
                dropped@ == drops_from(all, rolls@),
                all == old(self).enemies@,
                items0 == old(self).items@,
                *self == (World { enemies: self.enemies, items: self.items, ..*old(self) }),
            decreases m - k,
        {
            let e = rest_items.remove(0);
            proof {
                let post = items0.subrange(0, k + 1);
                assert(e == items0[k as int]);
                assert(post.drop_last() == items0.subrange(0, k as int));
                assert(post.last() == e);
                reveal(Seq::filter);
                assert(rest_items@ == items0.subrange(k + 1, m as int));
            }
            if e.alive {
                self.items.push(e);
            }
            k = k + 1;
        }
        proof {
            assert(items0.subrange(0, m as int) == items0);
        }
        let ghost kept = self.items@;
        let ghost dropped_before = dropped@;
        self.items.append(&mut dropped);
        proof {
            assert forall|i: int| 0 <= i < self.items@.len() implies (#[trigger] self.items@[i])@.wf()
                && self.items@[i]@.kind.is_item() && self.items@[i].alive by {
                if i >= kept.len() {
                    assert(self.items@[i] == dropped_before[i - kept.len()]);
                }
            }
        }
    }

    /// Ends the tick's event handling: instability past its bound unlocks
    /// "unstable" and crashes; so does a pending first unlock. A crash resets
    /// the world; nothing else changes.
    pub fn settle(&mut self, out: &mut TickOutcome)
        requires
            old(self).wf(),
        ensures
            final(self).wf(),
            final(self).settled() || !(old(self).instability > MAX_UNSTABILITY || old(out).entered_bsod),
            final(out).glitch_level == old(out).glitch_level,
            old(self).achievements.grows_to(final(self).achievements),
            final(self).has_game_started == old(self).has_game_started,
            if old(self).instability > MAX_UNSTABILITY {
                &&& final(self).achievements.flags() == old(self).achievements.flags().update(UNSTABLE as int, true)
                &&& *final(out) == (TickOutcome {
                    achievement: Some(UNSTABLE),
                    entered_bsod: true,
                    cues: SoundCues { bsod: true, ..old(out).cues },
                    ..*old(out)
                })
                &&& final(self).is_reset()
                &&& *final(self) == (World {
                    glitch: GlitchEngine { chain: None },
                    achievements: final(self).achievements,
                    ..old(self).reset_spec(final(self).enemies, final(self).items)
                })
            } else if old(out).entered_bsod {
                &&& *final(out) == (TickOutcome { cues: SoundCues { bsod: true, ..old(out).cues }, ..*old(out) })
                &&& final(self).is_reset()
                &&& *final(self) == (World {
                    glitch: GlitchEngine { chain: None },
                    ..old(self).reset_spec(final(self).enemies, final(self).items)
                })
            } else {
                &&& *final(self) == *old(self)
                &&& *final(out) == *old(out)
            },
            settle_step(*old(self), *old(out), *final(self), *final(out)),
    {
        if self.instability > MAX_UNSTABILITY {
            self.achievements.unlock(UNSTABLE);
            proof {
                assert(self.achievements.flags() =~= old(self).achievements.flags().update(UNSTABLE as int, true));
            }
            out.achievement = Some(UNSTABLE);
            out.entered_bsod = true;
        }
        if out.entered_bsod {
            out.cues.bsod = true;
            self.bsod();
        }
    }

    /// The player above the open top edge has left the map: "up" is
    /// dispatched, and where it was already unlocked the player is put back
    /// in the centre. A crash this causes is pending until `settle`.
    pub fn check_escape(&mut self, out: &mut TickOutcome)
        requires
            old(self).wf(),
        ensures
            final(self).wf(),
            old(self).achievements.grows_to(final(self).achievements),
            final(out).glitch_level == old(out).glitch_level,
            if old(self).player.pos.y < ESCAPE_LINE {
                &&& final(self).status(*final(out)) == dispatched(old(self).status(*old(out)), UP)
                &&& cues_kept(old(out).cues, final(out).cues)
                &&& *final(self) == (World {
                    player: if old(self).achievements.flags()[UP as int] {
                        Entity { pos: center_spec(), ..old(self).player }
                    } else {
                        old(self).player
                    },
                    achievements: final(self).achievements,
                    instability: final(self).instability,
                    ..*old(self)
                })
            } else {
                &&& *final(self) == *old(self)
                &&& *final(out) == *old(out)
            },
            escape_step(*old(self), *old(out), *final(self), *final(out)),
    {
        if self.player.pos.y < ESCAPE_LINE {
            let was_unlocked = self.achievements.is_unlocked(UP);
            self.dispatch(UP, out);
            if was_unlocked {
                self.player.pos = center();
            }
        }
    }

    /// The special ability: where the mana affords its cost, it is paid and
    /// every enemy closer to the player than `DESTROY_RANGE` dies; otherwise
    /// the meter recovers from the underflow and "unlimited_power" is
    /// dispatched. A crash that this causes, or one already pending, happens
    /// here: the world is reset before the call returns.
    pub fn power_destroy(&mut self, out: &mut TickOutcome)
        requires
            old(self).wf(),
        ensures
            final(self).wf(),
            ability_step(*old(self), *old(out), *final(self), *final(out)),
            final(out).entered_bsod ==> final(self).settled() && final(self).is_reset()
                && final(self).glitch.is_dormant() && final(out).cues.bsod,
            (old(out).entered_bsod ==> old(out).achievement is Some) ==> (final(out).entered_bsod
                ==> final(out).achievement is Some),
            !final(out).entered_bsod ==> final(self).status(*final(out)) == ability_used(
                old(self).status(*old(out)),
            ),
            (old(out).achievement matches Some(i) ==> i < COUNT && old(self).achievements.flags()[i as int])
                ==> (final(out).achievement matches Some(i) ==> i < COUNT
                && final(self).achievements.flags()[i as int]),
            old(self).mana.value < ABILITY_COST && !old(self).achievements.flags()[UNLIMITED_POWER as int]
                && old(self).instability <= MAX_UNSTABILITY ==> {
                &&& final(out).entered_bsod
                &&& final(out).achievement == Some(UNLIMITED_POWER)
                &&& final(self).achievements.flags()[UNLIMITED_POWER as int]
                &&& final(self).is_reset()
                &&& final(self).mana.value == MANA_BOUND
            },
            old(self).mana.value < ABILITY_COST && old(self).achievements.flags()[UNLIMITED_POWER as int]
                && old(self).instability < MAX_UNSTABILITY && !old(out).entered_bsod ==> {
                &&& !final(out).entered_bsod
                &&& final(self).mana.value == decrement_value(
                    old(self).mana.value as int,
                    ABILITY_COST as int,
                    MANA_BOUND as int,
                )
                &&& final(self).instability == old(self).instability + 1
                &&& final(self).achievements.flags() == old(self).achievements.flags()
            },
            old(self).achievements.grows_to(final(self).achievements),
            final(out).cues.explosion,
            final(out).glitch_level == old(out).glitch_level,
            final(self).has_game_started == old(self).has_game_started,
    {
        self.fire_ability(out);
        let ghost m = *self;
        let ghost om = *out;
        let ghost a1 = self.achievements;
        self.settle(out);
        proof {
            lemma_grows_trans(old(self).achievements, a1, self.achievements);
            assert(blast_step(*old(self), *old(out), m, om));
            if old(self).mana.value < ABILITY_COST && !old(self).achievements.flags()[UNLIMITED_POWER as int] {
                assert(om.entered_bsod);
                assert(m.achievements.flags()[UNLIMITED_POWER as int]);
            }
        }
    }

    /// The ability goes off: where the mana affords its cost, it is paid and
    /// every enemy closer to the player than `DESTROY_RANGE` dies; otherwise
    /// the meter recovers and "unlimited_power" is dispatched, its crash
    /// pending.
    fn fire_ability(&mut self, out: &mut TickOutcome)
        requires
            old(self).wf(),
        ensures
            final(self).wf(),
            final(self).status(*final(out)) == ability_used(old(self).status(*old(out))),
            final(self).enemies@.len() == old(self).enemies@.len(),
            forall|i: int|
                0 <= i < old(self).enemies@.len() ==> (#[trigger] final(self).enemies@[i])@ == if old(self).mana.value >= ABILITY_COST {
                    blasted(old(self).enemies@[i]@, old(self).player.pos)
                } else {
                    old(self).enemies@[i]@
                },
            *final(self) == (World {
                enemies: final(self).enemies,
                mana: final(self).mana,
                achievements: final(self).achievements,
                instability: final(self).instability,
                power_up_timer: POWER_UP_TICKS,
                ..*old(self)
            }),
            old(self).achievements.grows_to(final(self).achievements),
            cues_kept(SoundCues { explosion: true, ..old(out).cues }, final(out).cues),
            final(out).glitch_level == old(out).glitch_level,
            blast_step(*old(self), *old(out), *final(self), *final(out)),
    {
        self.power_up_timer = POWER_UP_TICKS;
        out.cues.explosion = true;
        if self.mana.value >= ABILITY_COST {
            let n = self.enemies.len();
            let mut i: usize = 0;
            while i < n
                invariant
                    self.wf(),
                    n == self.enemies@.len(),
                    n == old(self).enemies@.len(),
                    i <= n,
                    old(self).mana.value >= ABILITY_COST,
                    forall|j: int| 0 <= j < i ==> (#[trigger] self.enemies@[j])@ == blasted(old(self).enemies@[j]@, old(self).player.pos),
                    forall|j: int| i <= j < n ==> #[trigger] self.enemies@[j] == old(self).enemies@[j],
                    *self == (World { enemies: self.enemies, power_up_timer: POWER_UP_TICKS, ..*old(self) }),
                    *out == (TickOutcome { cues: SoundCues { explosion: true, ..old(out).cues }, ..*old(out) }),
                decreases n - i,
            {
                if closer_than(self.enemies[i].pos, self.player.pos, DESTROY_RANGE) {
                    let mut e = self.enemies[i].duplicate();
                    e.alive = false;
                    self.enemies.set(i, e);
                }
                i = i + 1;
            }
            self.mana.decrement(ABILITY_COST);
        } else {
            self.mana.decrement(ABILITY_COST);
            self.dispatch(UNLIMITED_POWER, out);
        }
        proof {
            assert(views(self.enemies@) =~= views(old(self).enemies@).map_values(
                |e: EntityView|
                    if old(self).mana.value >= ABILITY_COST {
                        blasted(e, old(self).player.pos)
                    } else {
                        e
                    },
            ));
        }
    }

    /// Adds the player's intent to its velocity, one step per direction of
    /// each axis, then moves the player by its own rule.
    pub fn steer_player(&mut self, input_x: i64, input_y: i64)
        requires
            old(self).wf(),
        ensures
            final(self).wf(),
            final(self).player@ == (EntityView {
                speed: accelerated(old(self).player.speed, Vec2i { x: intent(input_x), y: intent(input_y) }),
                ..old(self).player@
            }).ticked(Vec2i { x: 0, y: 0 }),
            *final(self) == (World { player: final(self).player, ..*old(self) }),
            steer_step(*old(self), input_x, input_y, *final(self)),
    {
        let push = Vec2i { x: intent_of(input_x), y: intent_of(input_y) };
        self.player.speed = accelerate(self.player.speed, push);
        self.player.tick(Vec2i { x: 0, y: 0 });
    }

    /// Advances the spawn timers and adds, after the present enemies, each
    /// enemy that is due, aimed at the player.
    pub fn spawn(&mut self, draws: &TickDraws) -> (due: SpawnDue)
        requires
            old(self).wf(),
            draws.wf(),
        ensures
            final(self).wf(),
            due.bullet == (old(self).spawner.bullet_timer > crate::spawn::BULLET_SPAWN_TIME),
            due.follower == (old(self).spawner.follower_timer > crate::spawn::FOLLOWER_SPAWN_TIME),
            due.pather == (old(self).spawner.pather_timer > crate::spawn::PATH_SPAWN_TIME),
            views(final(self).enemies@) == views(old(self).enemies@) + spawned(due, old(self).player.pos, *draws, old(self).next_id),
            *final(self) == (World {
                enemies: final(self).enemies,
                spawner: old(self).spawner.ticked(),
                next_id: ids_after(due, old(self).next_id),
                ..*old(self)
            }),
            spawn_step(*old(self), *final(self), *draws),
    {
        let ghost before = views(self.enemies@);
        let due = self.spawner.tick();
        let target = self.player.pos;
        let ghost n = self.next_id;
        if due.bullet {
            let mut e = Entity::new_random_bullet(target, draws.bullet_pos);
            e.id = self.fresh_id();
            self.enemies.push(e);
        }
        if due.follower {
            let mut e = Entity::new_random_follower(target, draws.follower_pos);
            e.id = self.fresh_id();
            self.enemies.push(e);
        }
        if due.pather {
            let mut e = Entity::new_random_pather(draws.pather_pos, &draws.pather_path);
            e.id = self.fresh_id();
            self.enemies.push(e);
        }
        proof {
            assert(views(self.enemies@) =~= before + spawned(due, target, *draws, n));
        }
        due
    }

    /// Scans the enemies in order at the present instability; the first one
    /// picked starts a glitch chain in the given direction.
    pub fn initialize_glitch(&mut self, rolls: &Vec<u32>, x_direction: i64, y_direction: i64)
        requires
            old(self).wf(),
            old(self).glitch.is_dormant(),
            1 <= old(self).instability <= MAX_UNSTABILITY,
            -1 <= x_direction <= 1,
            -1 <= y_direction <= 1,
        ensures
            final(self).wf(),
            match final(self).glitch.chain {
                None => forall|i: int| !hit_at(old(self).enemies@, rolls@, old(self).instability as int, i),
                Some(c) => exists|i: int|
                    #![trigger old(self).enemies@[i]]
                    hit_at(old(self).enemies@, rolls@, old(self).instability as int, i)
                    && (forall|j: int| 0 <= j < i ==> !hit_at(old(self).enemies@, rolls@, old(self).instability as int, j))
                    && c.reference == old(self).enemies@[i].id
                    && c.x_direction == x_direction && c.y_direction == y_direction
                    && c.countdown == countdown_for(old(self).instability as int),
            },
            *final(self) == (World { glitch: final(self).glitch, ..*old(self) }),
    {
        let level = self.instability;
        let threshold = chance(level);
        proof {
            assert(self.wf());
        }
        let n = self.enemies.len();
        let mut i: usize = 0;
        while i < n
            invariant
                self == old(self),
                self.wf(),
                self.glitch.is_dormant(),
                -1 <= x_direction <= 1,
                -1 <= y_direction <= 1,
                1 <= level <= MAX_UNSTABILITY,
                n == self.enemies@.len(),
                i <= n,
                threshold == chance_spec(level as int),
                level == self.instability,
                forall|j: int| 0 <= j < i ==> !hit_at(self.enemies@, rolls@, level as int, j),
            decreases n - i,
        {
            let e = &self.enemies[i];
            if i < rolls.len() && e.alive && !e.is_clone && rolls[i] < threshold {
                self.glitch.arm(e.id, x_direction, y_direction, level);
                proof {
                    assert(hit_at(old(self).enemies@, rolls@, level as int, i as int));
                }
                return;
            }
            i = i + 1;
        }
    }

    /// Runs the glitch chain for one tick: see `chain_step`.
    pub fn glitch(&mut self, out: &mut TickOutcome)
        requires
            old(self).wf(),
        ensures
            final(self).wf(),
            chain_step(*old(self), *old(out), *final(self), *final(out)),
            forall|i: int| old(self).enemies@.len() <= i < final(self).enemies@.len() ==> (#[trigger] final(self).enemies@[i]).alive,
            forall|i: int| 0 <= i < old(self).enemies@.len() ==> final(self).enemies@[i] == #[trigger] old(self).enemies@[i],
            final(self).enemies@.len() >= old(self).enemies@.len(),
            old(self).glitch.is_dormant() ==> final(self).glitch.is_dormant(),
    {
        let chain = self.glitch.chain;
        match chain {
            None => {},
            Some(c) => {
                match self.locate(c.reference) {
                    None => {
                        self.glitch.cancel();
                    },
                    Some(i) => {
                        if c.countdown % GLITCH_SPEED == 0 {
                            let ghost before = views(self.enemies@);
                            let ghost n = self.next_id;
                            let mut e = self.enemies[i].duplicate();
                            let offset = Vec2i { x: c.x_direction * CLONE_OFFSET, y: c.y_direction * CLONE_OFFSET };
                            proof {
                                assert(self.enemies@[i as int]@.wf());
                            }
                            e.pos = shift(e.pos, offset);
                            e.is_clone = true;
                            let id = self.fresh_id();
                            e.id = id;
                            self.enemies.push(e);
                            self.glitch.advance(id);
                            out.cues.glitch = true;
                            proof {
                                assert(views(self.enemies@) =~= before.push(
                                    cloned_at(old(self).enemies@[i as int]@, c.x_direction as int, c.y_direction as int, n),
                                ));
                            }
                        } else {
                            self.glitch.advance(c.reference);
                        }
                        proof {
                            assert(first_live(old(self).enemies@, c.reference, i as int));
                        }
                    },
                }
            },
        }
    }

    /// The first live enemy with the id `id`, if any.
    pub fn locate(&self, id: u64) -> (r: Option<usize>)
        ensures
            match r {
                Some(i) => first_live(self.enemies@, id, i as int),
                None => forall|j: int| 0 <= j < self.enemies@.len() ==> !live_with(#[trigger] self.enemies@[j], id),
            },
    {
        let mut i: usize = 0;
        while i < self.enemies.len()
            invariant
                i <= self.enemies@.len(),
                forall|j: int| 0 <= j < i ==> !live_with(#[trigger] self.enemies@[j], id),
            decreases self.enemies@.len() - i,
        {
            if self.enemies[i].alive && self.enemies[i].id == id {
                return Some(i);
            }
            i = i + 1;
        }
        None
    }

    /// Hands out the next id.
    fn fresh_id(&mut self) -> (id: u64)
        ensures
            id == old(self).next_id,
            *final(self) == (World { next_id: fresh(old(self).next_id), ..*old(self) }),
    {
        let id = self.next_id;
        if self.next_id < u64::MAX {
            self.next_id = self.next_id + 1;
        }
        id
    }

    /// Advances the world by one tick, with `draws` as its random values.
    ///
    /// In order: the spawn timers add the enemies that are due; the ability,
    /// if triggered, goes off (a crash there ends the tick); the player moves
    /// by its intent; every enemy moves and hits the player where it touches
    /// it; touched items are collected; the player's escape through the top
    /// edge is checked; dead enemies and items are removed and dead followers
    /// drop what their rolls give; instability past its bound or a first
    /// unlock crashes and resets the world; otherwise the glitch engine scans
    /// or runs its chain.
    pub fn tick_with(&mut self, input_x: i64, input_y: i64, ability: bool, draws: &TickDraws) -> (out: TickOutcome)
        requires
            old(self).wf(),
            old(self).settled(),
            draws.wf(),
        ensures
            final(self).wf(),
            final(self).settled(),
            final(self).has_game_started == old(self).has_game_started,
            old(self).achievements.grows_to(final(self).achievements),
            out.entered_bsod ==> final(self).is_reset() && final(self).glitch.is_dormant()
                && out.achievement is Some && out.cues.bsod,
            !out.entered_bsod ==> final(self).achievements.flags() == old(self).achievements.flags(),
            out.achievement matches Some(i) ==> i < COUNT && final(self).achievements.flags()[i as int],
            out.cues.explosion == ability,
            tick_step(*old(self), input_x, input_y, ability, *draws, *final(self), out),
    {
        let mut out = TickOutcome::new();
        let ghost f0 = self.achievements.flags();
        let ghost a0 = self.achievements;
        proof {
            lemma_grows_refl(a0);
            assert(consistent(self.status(out), f0));
        }
        if self.power_up_timer > 0 {
            self.power_up_timer = self.power_up_timer - 1;
        }
        if self.hit_anim > 0 {
            self.hit_anim = self.hit_anim - 1;
        }
        assert(*self == cooled(*old(self)));
        self.spawn(draws);
        let ghost w2 = *self;
        let ghost w3 = *self;
        let ghost o3 = out;
        if ability {
            self.power_destroy(&mut out);
            proof {
                w3 = *self;
                o3 = out;
                lemma_dispatched_consistent(old(self).status(TickOutcome::new_spec()), UNLIMITED_POWER, f0);
            }
            if out.entered_bsod {
                proof {
                    lemma_grows_trans(a0, w2.achievements, self.achievements);
                    assert(spawn_step(cooled(*old(self)), w2, *draws));
                    assert(ability_step(w2, TickOutcome::new_spec(), w3, o3));
                }
                return out;
            }
        }
        let ghost a1 = self.achievements;
        self.resolve_contacts(input_x, input_y, &mut out, Ghost(f0));
        let ghost w7 = *self;
        let ghost o7 = out;
        let ghost a2 = self.achievements;
        self.finish(draws, &mut out, Ghost(f0));
        proof {
            lemma_grows_trans(a0, a1, a2);
            lemma_grows_trans(a0, a2, self.achievements);
            assert(spawn_step(cooled(*old(self)), w2, *draws));
            assert(contacts_step(w3, o3, input_x, input_y, w7, o7));
            assert(finish_step(w7, o7, *draws, *self, out));
            if ability {
                assert(ability_step(w2, TickOutcome::new_spec(), w3, o3));
            }
        }
        out
    }

    /// The player moves, then enemies and items meet the player, then the
    /// escape is checked.
    fn resolve_contacts(&mut self, input_x: i64, input_y: i64, out: &mut TickOutcome, Ghost(f0): Ghost<Seq<bool>>)
        requires
            old(self).wf(),
            consistent(old(self).status(*old(out)), f0),
        ensures
            final(self).wf(),
            consistent(final(self).status(*final(out)), f0),
            old(self).achievements.grows_to(final(self).achievements),
            final(self).has_game_started == old(self).has_game_started,
            final(out).cues.explosion == old(out).cues.explosion,
            final(out).glitch_level == old(out).glitch_level,
            contacts_step(*old(self), *old(out), input_x, input_y, *final(self), *final(out)),
    {
        let ghost a0 = self.achievements;
        self.steer_player(input_x, input_y);
        let ghost w4 = *self;
        let ghost s1 = self.status(*out);
        let ghost p1 = self.player@;
        let ghost e1 = self.enemies@;
        self.move_enemies(out);
        let ghost w5 = *self;
        let ghost o5 = *out;
        proof {
            lemma_hits_consistent(s1, hits_in(e1, p1, e1.len() as int), f0);
        }
        let ghost a2 = self.achievements;
        let ghost s2 = self.status(*out);
        let ghost i2 = self.items@;
        self.collect_items(out);
        let ghost w6 = *self;
        let ghost o6 = *out;
        proof {
            lemma_pickups_consistent(s2, i2, p1, i2.len() as int, f0);
        }
        let ghost a3 = self.achievements;
        let ghost s3 = self.status(*out);
        self.check_escape(out);
        proof {
            lemma_grows_trans(a0, a2, a3);
            lemma_dispatched_one(s3, UP, f0);
            lemma_grows_trans(a0, a3, self.achievements);
            assert(steer_step(*old(self), input_x, input_y, w4));
            assert(enemies_step(w4, *old(out), w5, o5));
            assert(items_step(w5, o5, w6, o6));
            assert(escape_step(w6, o6, *self, *out));
        }
    }

    /// Removes the dead, settles the tick, and runs the glitch engine where
    /// the system did not crash.
    fn finish(&mut self, draws: &TickDraws, out: &mut TickOutcome, Ghost(f0): Ghost<Seq<bool>>)
        requires
            old(self).wf(),
            draws.wf(),
            consistent(old(self).status(*old(out)), f0),
        ensures
            final(self).wf(),
            final(self).settled(),
            old(self).achievements.grows_to(final(self).achievements),
            final(self).has_game_started == old(self).has_game_started,
            final(out).cues.explosion == old(out).cues.explosion,
            final(out).entered_bsod ==> final(self).is_reset() && final(self).glitch.is_dormant()
                && final(out).achievement is Some && final(out).cues.bsod,
            !final(out).entered_bsod ==> final(self).achievements.flags() == f0,
            final(out).achievement matches Some(i) ==> i < COUNT && final(self).achievements.flags()[i as int],
            finish_step(*old(self), *old(out), *draws, *final(self), *final(out)),
    {
        self.purge(&draws.drops);
        let ghost w8 = *self;
        let ghost a4 = self.achievements;
        self.settle(out);
        let ghost w9 = *self;
        let ghost o9 = *out;
        proof {
            if old(self).instability > MAX_UNSTABILITY {
                assert(self.achievements.flags()[UNSTABLE as int]);
            }
        }
        if !out.entered_bsod {
            let dormant = self.glitch.dormant();
            if dormant {
                if self.instability >= 1 {
                    out.glitch_level = self.instability;
                    self.initialize_glitch(&draws.glitch_rolls, draws.x_direction, draws.y_direction);
                }
            } else {
                let ghost before = self.enemies@;
                self.glitch(out);
                proof {
                    assert forall|i: int| 0 <= i < self.enemies@.len() implies (#[trigger] self.enemies@[i]).alive by {
                        if i < before.len() {
                            assert(self.enemies@[i] == before[i]);
                        }
                    }
                }
            }
            proof {
                assert(glitch_phase(w9, o9, *self, *out, *draws));
            }
        }
        proof {
            assert(purge_step(*old(self), w8, draws.drops@));
            assert(settle_step(w8, *old(out), w9, o9));
        }
    }

    /// Advances the world by one tick with fresh random values; see
    /// `tick_with`.
    pub fn tick(&mut self, input_x: i64, input_y: i64, ability: bool) -> (out: TickOutcome)
        requires
            old(self).wf(),
            old(self).settled(),
        ensures
            final(self).wf(),
            final(self).settled(),
            final(self).has_game_started == old(self).has_game_started,
            old(self).achievements.grows_to(final(self).achievements),
            out.entered_bsod ==> final(self).is_reset() && final(self).glitch.is_dormant()
                && out.achievement is Some && out.cues.bsod,
            !out.entered_bsod ==> final(self).achievements.flags() == old(self).achievements.flags(),
            out.achievement matches Some(i) ==> i < COUNT && final(self).achievements.flags()[i as int],
            out.cues.explosion == ability,
            exists|d: TickDraws| #[trigger] tick_step(*old(self), input_x, input_y, ability, d, *final(self), out) && d.sampled(),
    {
        let count = if self.enemies.len() < usize::MAX - 3 {
            self.enemies.len() + 3
        } else {
            usize::MAX
        };
        let draws = TickDraws::draw(count);
        let out = self.tick_with(input_x, input_y, ability, &draws);
        proof {
            assert(tick_step(*old(self), input_x, input_y, ability, draws, *self, out) && draws.sampled());
        }
        out
    }

    /// Starts the game once the player has entered a name of `name_len`
    /// characters: a name longer than `NAME_LIMIT` dispatches
    /// "name_overflow", and a first unlock crashes the system.
    pub fn start_game(&mut self, name_len: usize) -> (out: TickOutcome)
        requires
            old(self).wf(),
            old(self).settled(),
        ensures
            final(self).wf(),
            final(self).settled(),
            final(self).has_game_started,
            old(self).achievements.grows_to(final(self).achievements),
            name_len <= NAME_LIMIT ==> out == TickOutcome::new_spec()
                && *final(self) == (World { has_game_started: true, ..*old(self) }),
            name_len > NAME_LIMIT && !old(self).achievements.flags()[NAME_OVERFLOW as int] ==> {
                &&& out.achievement == Some(NAME_OVERFLOW)
                &&& out.entered_bsod
                &&& final(self).achievements.flags()[NAME_OVERFLOW as int]
                &&& final(self).is_reset()
            },
            name_len > NAME_LIMIT && old(self).achievements.flags()[NAME_OVERFLOW as int]
                && old(self).instability < MAX_UNSTABILITY ==> {
                &&& out == (TickOutcome {
                    cues: SoundCues { small_bug: true, ..TickOutcome::new_spec().cues },
                    ..TickOutcome::new_spec()
                })
                &&& final(self).achievements.flags() == old(self).achievements.flags()
                &&& *final(self) == (World {
                    has_game_started: true,
                    instability: (old(self).instability + 1) as u32,
                    achievements: final(self).achievements,
                    ..*old(self)
                })
            },
            name_len > NAME_LIMIT && old(self).achievements.flags()[NAME_OVERFLOW as int]
                && old(self).instability == MAX_UNSTABILITY ==> {
                &&& out.achievement == Some(UNSTABLE)
                &&& out.entered_bsod
                &&& final(self).is_reset()
            },
    {
        self.has_game_started = true;
        let mut out = TickOutcome::new();
        if name_len > NAME_LIMIT {
            let ghost before = self.achievements;
            self.dispatch(NAME_OVERFLOW, &mut out);
            let ghost a1 = self.achievements;
            self.settle(&mut out);
            proof {
                lemma_grows_trans(old(self).achievements, a1, self.achievements);
            }
        } else {
            proof {
                lemma_grows_refl(self.achievements);
            }
        }
        out
    }

    /// Hit points.
    pub fn hp(&self) -> (r: u8)
        ensures
            r == self.hp.value,
    {
        self.hp.value
    }

    /// Mana.
    pub fn mana(&self) -> (r: u8)
        ensures
            r == self.mana.value,
    {
        self.mana.value
    }

    /// Instability.
    pub fn instability(&self) -> (r: u32)
        ensures
            r == self.instability,
    {
        self.instability
    }

    /// Whether achievement `i` is unlocked.
    pub fn is_unlocked(&self, i: usize) -> (r: bool)
        requires
            self.wf(),
            i < COUNT,
        ensures
            r == self.achievements.flags()[i as int],
    {
        self.achievements.is_unlocked(i)
    }

    /// A heart or a mana orb is collected. A crash this causes is pending
    /// until `settle`.
    pub fn pick_up(&mut self, heal: bool, out: &mut TickOutcome)
        requires
            old(self).wf(),
        ensures
            final(self).wf(),
            final(self).status(*final(out)) == if heal {
                healed(old(self).status(*old(out)))
            } else {
                recharged(old(self).status(*old(out)))
            },
            *final(self) == (World {
                hp: final(self).hp,
                mana: final(self).mana,
                achievements: final(self).achievements,
                instability: final(self).instability,
                ..*old(self)
            }),
            old(self).achievements.grows_to(final(self).achievements),
            cues_kept(SoundCues { pickup: true, ..old(out).cues }, final(out).cues),
            final(out).glitch_level == old(out).glitch_level,
    {
        out.cues.pickup = true;
        if heal {
            if self.hp.increment(1) {
                self.dispatch(OVER_HEALED, out);
            }
        } else {
            if self.mana.increment(1) {
                self.dispatch(OVER_9000, out);
            }
        }
        proof {
            assert(old(self).achievements.grows_to(self.achievements));
        }
    }
}

} // verus!

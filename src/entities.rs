//! Entities of the play field and the per-kind rule that advances each of
//! them by one tick.

use vstd::prelude::*;
use std::collections::VecDeque;
use crate::geometry::{
    accelerate, accelerated, center, center_spec, closer_than, dist_sq, distance_sq,
    isqrt, moved, root, scale, scaled, toward, toward_spec, shift,
    zero, Vec2i, CENTER_X, CENTER_Y, SCALE, WORLD_HEIGHT, WORLD_WIDTH,
};

verus! {

/// Distance from the centre of the ring on which enemies appear.
pub const SPAWN_DIST: i64 = 420_000;

/// Distance from the centre past which a bullet is gone.
pub const BULLET_RANGE: i64 = 430_000;

pub const BULLET_SPEED: i64 = 2_500;

pub const FOLLOWER_ACCELERATION: i64 = 100;

pub const PATHER_SPEED: i64 = 2_500;

/// Radius lost by a follower on each tick.
pub const FOLLOWER_SHRINK: i64 = 10;

/// A follower smaller than this is gone.
pub const FOLLOWER_MIN_RADIUS: i64 = 1_000;

/// Rotation gained by a pather on each tick, in milliradians.
pub const PATHER_SPIN: i64 = 40;

/// A full turn, in milliradians.
pub const FULL_TURN: i64 = 6_283;

/// A quarter turn, in milliradians.
pub const QUARTER_TURN: i64 = 1_571;

/// Largest radius an entity can have.
pub const RADIUS_LIMIT: i64 = 100_000;

pub const PLAYER_RADIUS: i64 = 5_000;

/// What an entity is, with the waypoints still ahead of a pather.
#[derive(Debug)]
pub enum EntityType {
    Bullet,
    Follower,
    Pather(VecDeque<Vec2i>),
    Player,
    HealItem,
    ManaItem,
}

/// One body on the play field. `rotation` is in milliradians and only spins
/// pathers; renderers face players and followers along their velocity.
/// `id` is the handle by which the world tracks an enemy; constructors leave
/// it at zero.
#[derive(Debug)]
pub struct Entity {
    pub id: u64,
    pub pos: Vec2i,
    pub speed: Vec2i,
    pub e_type: EntityType,
    pub radius: i64,
    pub alive: bool,
    pub rotation: i64,
    pub is_clone: bool,
}

/// The kind of an entity, as a mathematical value.
pub ghost enum Kind {
    Bullet,
    Follower,
    Pather(Seq<Vec2i>),
    Player,
    HealItem,
    ManaItem,
}

/// An entity as a mathematical value.
pub ghost struct EntityView {
    pub id: u64,
    pub pos: Vec2i,
    pub speed: Vec2i,
    pub kind: Kind,
    pub radius: int,
    pub alive: bool,
    pub rotation: int,
    pub is_clone: bool,
}

impl View for EntityType {
    type V = Kind;

    open spec fn view(&self) -> Kind {
        match self {
            EntityType::Bullet => Kind::Bullet,
            EntityType::Follower => Kind::Follower,
            EntityType::Pather(path) => Kind::Pather(path@),
            EntityType::Player => Kind::Player,
            EntityType::HealItem => Kind::HealItem,
            EntityType::ManaItem => Kind::ManaItem,
        }
    }
}

impl View for Entity {
    type V = EntityView;

    open spec fn view(&self) -> EntityView {
        EntityView {
            id: self.id,
            pos: self.pos,
            speed: self.speed,
            kind: self.e_type@,
            radius: self.radius as int,
            alive: self.alive,
            rotation: self.rotation as int,
            is_clone: self.is_clone,
        }
    }
}

impl Kind {
    pub open spec fn is_enemy(self) -> bool {
        self is Bullet || self is Follower || self is Pather
    }

    pub open spec fn is_item(self) -> bool {
        self is HealItem || self is ManaItem
    }
}

impl EntityView {
    /// The invariant of every entity.
    pub open spec fn wf(self) -> bool {
        &&& self.pos.in_field()
        &&& self.speed.slow()
        &&& 0 <= self.radius <= RADIUS_LIMIT
        &&& (self.alive ==> self.radius > 0)
        &&& 0 <= self.rotation < FULL_TURN
        &&& match self.kind {
            Kind::Pather(path) => forall|i: int|
                0 <= i < path.len() ==> (#[trigger] path[i]).in_field(),
            _ => true,
        }
    }

    /// The entity one tick later, steering toward `target` where its kind
    /// steers.
    pub open spec fn ticked(self, target: Vec2i) -> EntityView {
        match self.kind {
            Kind::Bullet => self.bullet_ticked(),
            Kind::Follower => self.follower_ticked(target),
            Kind::Pather(path) => self.pather_ticked(path),
            Kind::Player => self.player_ticked(),
            _ => self,
        }
    }

    /// A bullet flies straight on and is gone once it lies farther than
    /// `BULLET_RANGE` from the centre.
    pub open spec fn bullet_ticked(self) -> EntityView {
        let pos = moved(self.pos, self.speed);
        EntityView {
            pos,
            alive: self.alive && dist_sq(pos, center_spec()) <= BULLET_RANGE * BULLET_RANGE,
            ..self
        }
    }

    /// A follower accelerates toward the target, slows by a twentieth, moves,
    /// and shrinks; it is gone once smaller than `FOLLOWER_MIN_RADIUS`.
    pub open spec fn follower_ticked(self, target: Vec2i) -> EntityView {
        let steered = accelerated(self.speed, toward_spec(self.pos, target, FOLLOWER_ACCELERATION as int));
        let speed = scaled(steered, 19, 20);
        let radius = if self.radius >= FOLLOWER_SHRINK { self.radius - FOLLOWER_SHRINK } else { 0 };
        EntityView {
            pos: moved(self.pos, speed),
            speed,
            radius,
            alive: self.alive && radius >= FOLLOWER_MIN_RADIUS,
            ..self
        }
    }

    /// A pather heads for its first waypoint and drops it once closer than
    /// its radius plus one unit; it is gone once no waypoint is left.
    pub open spec fn pather_ticked(self, path: Seq<Vec2i>) -> EntityView {
        let rotation = (self.rotation + PATHER_SPIN) % (FULL_TURN as int);
        if path.len() == 0 {
            EntityView { pos: moved(self.pos, self.speed), alive: false, rotation, ..self }
        } else {
            let speed = toward_spec(self.pos, path[0], PATHER_SPEED as int);
            let reached = dist_sq(self.pos, path[0]) < (self.radius + SCALE) * (self.radius + SCALE);
            let rest = if reached { path.drop_first() } else { path };
            EntityView {
                pos: moved(self.pos, speed),
                speed,
                kind: Kind::Pather(rest),
                alive: self.alive && rest.len() > 0,
                rotation,
                ..self
            }
        }
    }

    /// The player moves, slows by a tenth, and is held inside the left,
    /// right and bottom edges; the top edge is open.
    pub open spec fn player_ticked(self) -> EntityView {
        let p = moved(self.pos, self.speed);
        let x = if p.x - self.radius < 0 {
            self.radius
        } else if p.x + self.radius > WORLD_WIDTH {
            WORLD_WIDTH - self.radius
        } else {
            p.x as int
        };
        let y = if p.y + self.radius > WORLD_HEIGHT { WORLD_HEIGHT - self.radius } else { p.y as int };
        EntityView {
            pos: Vec2i { x: x as i64, y: y as i64 },
            speed: scaled(self.speed, 9, 10),
            ..self
        }
    }
}

/// The heart that `new_heal_item` makes at `pos`.
pub open spec fn heal_item(pos: Vec2i) -> Entity {
    Entity {
        id: 0,
        pos,
        speed: Vec2i { x: 0, y: 0 },
        e_type: EntityType::HealItem,
        radius: 5_000,
        alive: true,
        rotation: QUARTER_TURN,
        is_clone: false,
    }
}

/// The mana orb that `new_mana_item` makes at `pos`.
pub open spec fn mana_item(pos: Vec2i) -> Entity {
    Entity {
        id: 0,
        pos,
        speed: Vec2i { x: 0, y: 0 },
        e_type: EntityType::ManaItem,
        radius: 5_000,
        alive: true,
        rotation: QUARTER_TURN,
        is_clone: false,
    }
}

/// A fresh enemy of kind `kind` at `pos` with velocity `speed`.
pub open spec fn fresh_enemy(kind: Kind, pos: Vec2i, speed: Vec2i, radius: int) -> EntityView {
    EntityView { id: 0, pos, speed, kind, radius, alive: true, rotation: 0, is_clone: false }
}

/// The bullet that `new_random_bullet` makes.
pub open spec fn bullet_view(target: Vec2i, pos: Vec2i) -> EntityView {
    fresh_enemy(Kind::Bullet, pos, toward_spec(pos, target, BULLET_SPEED as int), 2_500)
}

/// The follower that `new_random_follower` makes.
pub open spec fn follower_view(target: Vec2i, pos: Vec2i) -> EntityView {
    fresh_enemy(Kind::Follower, pos, toward_spec(pos, target, BULLET_SPEED as int), 5_000)
}

/// The pather that `new_random_pather` makes.
pub open spec fn pather_view(pos: Vec2i, path: Seq<Vec2i>) -> EntityView {
    fresh_enemy(Kind::Pather(path), pos, Vec2i { x: PATHER_SPEED, y: PATHER_SPEED }, 2_500)
}

/// A point on the spawn ring, `offset` steps right of its leftmost point,
/// on the upper or the lower half.
pub open spec fn ring_point(offset: int, upper: bool) -> Vec2i {
    let dx = offset - SPAWN_DIST;
    let dy = root(SPAWN_DIST * SPAWN_DIST - dx * dx);
    Vec2i { x: (CENTER_X + dx) as i64, y: (if upper { CENTER_Y - dy } else { CENTER_Y + dy }) as i64 }
}

/// `p` lies on the spawn ring: its distance from the centre rounds down to
/// `SPAWN_DIST`, within one step.
pub open spec fn on_ring(p: Vec2i) -> bool {
    (SPAWN_DIST - 1) * (SPAWN_DIST - 1) <= dist_sq(p, center_spec()) <= SPAWN_DIST * SPAWN_DIST
}

/// `p` lies in the play area.
pub open spec fn in_area(p: Vec2i) -> bool {
    0 <= p.x < WORLD_WIDTH && 0 <= p.y < WORLD_HEIGHT
}

/// A point on the spawn ring around the centre, outside the play area.
pub fn random_outside_pos(offset: u32, upper: bool) -> (p: Vec2i)
    requires
        offset <= 2 * SPAWN_DIST,
    ensures
        p == ring_point(offset as int, upper),
        p.in_field(),
        on_ring(p),
{
    let dx: i64 = offset as i64 - SPAWN_DIST;
    assert(0 <= SPAWN_DIST * SPAWN_DIST - dx * dx <= SPAWN_DIST * SPAWN_DIST) by (nonlinear_arith)
        requires
            -SPAWN_DIST <= dx <= SPAWN_DIST,
    ;
    let dy = isqrt((SPAWN_DIST * SPAWN_DIST - dx * dx) as u64);
    proof {
        let n = SPAWN_DIST * SPAWN_DIST - dx * dx;
        assert(dy <= SPAWN_DIST) by (nonlinear_arith)
            requires
                dy * dy <= n,
                n <= SPAWN_DIST * SPAWN_DIST,
                0 <= dy,
        ;
        assert((SPAWN_DIST - 1) * (SPAWN_DIST - 1) <= dx * dx + dy * dy) by (nonlinear_arith)
            requires
                n < (dy + 1) * (dy + 1),
                n == SPAWN_DIST * SPAWN_DIST - dx * dx,
                0 <= dy <= SPAWN_DIST,
        ;
    }
    let y: i64 = if upper { CENTER_Y - dy as i64 } else { CENTER_Y + dy as i64 };
    let p = Vec2i { x: CENTER_X + dx, y };
    assert(dist_sq(p, center_spec()) == dx * dx + dy * dy) by (nonlinear_arith)
        requires
            p.x - CENTER_X == dx,
            p.y - CENTER_Y == dy || p.y - CENTER_Y == -dy,
            dist_sq(p, center_spec()) == (p.x - CENTER_X) * (p.x - CENTER_X) + (p.y - CENTER_Y) * (p.y - CENTER_Y),
    ;
    p
}

/// A point of the play area.
pub fn random_inside_pos(x: u32, y: u32) -> (p: Vec2i)
    requires
        x < WORLD_WIDTH,
        y < WORLD_HEIGHT,
    ensures
        p == (Vec2i { x: x as i64, y: y as i64 }),
        p.in_field(),
        in_area(p),
{
    Vec2i { x: x as i64, y: y as i64 }
}

/// A live bullet stays alive exactly while its distance from the centre
/// does not exceed `BULLET_RANGE`: it is gone on the tick on which it
/// first lies farther out, and not before.
pub proof fn lemma_bullet_expires_past_range(e: EntityView, target: Vec2i)
    requires
        e.kind is Bullet,
        e.alive,
    ensures
        e.ticked(target).alive <==> dist_sq(e.ticked(target).pos, center_spec())
            <= BULLET_RANGE * BULLET_RANGE,
        e.ticked(target).kind is Bullet,
{
}

/// Each tick a pather drops at most its first waypoint, and it stays alive
/// exactly while waypoints remain: one with `n` waypoints is gone right
/// after the `n`-th is dropped, and not before.
pub proof fn lemma_pather_lives_until_last_waypoint(e: EntityView, target: Vec2i)
    requires
        e.kind is Pather,
        e.kind->Pather_0.len() > 0,
        e.alive,
    ensures
        e.ticked(target).kind is Pather,
        e.ticked(target).kind->Pather_0 == e.kind->Pather_0
            || e.ticked(target).kind->Pather_0 == e.kind->Pather_0.drop_first(),
        e.ticked(target).alive <==> e.ticked(target).kind->Pather_0.len() > 0,
{
}

proof fn lemma_waypoints_in_field(e: EntityView)
    requires
        e.wf(),
        e.kind is Pather,
    ensures
        forall|i: int|
            0 <= i < e.kind->Pather_0.len() ==> (#[trigger] e.kind->Pather_0[i]).in_field(),
{
}

impl Entity {
    pub open spec fn wf(&self) -> bool {
        self@.wf()
    }

    fn make(pos: Vec2i, speed: Vec2i, e_type: EntityType, radius: i64, rotation: i64) -> (e: Self)
        ensures
            e.pos == pos,
            e.speed == speed,
            e.e_type == e_type,
            e.radius == radius,
            e.rotation == rotation,
            e.id == 0,
            e.alive,
            !e.is_clone,
    {
        Entity { id: 0, pos, speed, e_type, radius, alive: true, rotation, is_clone: false }
    }

    /// The player, at rest in the centre.
    pub fn new_player() -> (e: Self)
        ensures
            e.wf(),
            e@.kind == Kind::Player,
            e.pos == center_spec(),
            e.speed == (Vec2i { x: 0, y: 0 }),
            e.radius == PLAYER_RADIUS,
            e.alive,
            !e.is_clone,
    {
        Self::make(center(), zero(), EntityType::Player, PLAYER_RADIUS, QUARTER_TURN)
    }

    /// A bullet at `pos`, aimed at `target_pos`.
    pub fn new_random_bullet(target_pos: Vec2i, pos: Vec2i) -> (e: Self)
        requires
            target_pos.in_field(),
            pos.in_field(),
        ensures
            e@ == bullet_view(target_pos, pos),
            e.wf(),
            e@.kind == Kind::Bullet,
            e.pos == pos,
            e.speed == toward_spec(pos, target_pos, BULLET_SPEED as int),
            e.radius == 2_500,
            e.alive,
            !e.is_clone,
    {
        let speed = toward(pos, target_pos, BULLET_SPEED);
        Self::make(pos, speed, EntityType::Bullet, 2_500, 0)
    }

    /// A follower at `pos`, first heading for `target_pos`.
    pub fn new_random_follower(target_pos: Vec2i, pos: Vec2i) -> (e: Self)
        requires
            target_pos.in_field(),
            pos.in_field(),
        ensures
            e@ == follower_view(target_pos, pos),
            e.wf(),
            e@.kind == Kind::Follower,
            e.pos == pos,
            e.speed == toward_spec(pos, target_pos, BULLET_SPEED as int),
            e.radius == 5_000,
            e.alive,
            !e.is_clone,
    {
        let speed = toward(pos, target_pos, BULLET_SPEED);
        Self::make(pos, speed, EntityType::Follower, 5_000, 0)
    }

    /// A pather at `pos` that will visit `path` in order.
    pub fn new_random_pather(pos: Vec2i, path: &Vec<Vec2i>) -> (e: Self)
        requires
            pos.in_field(),
            forall|i: int| 0 <= i < path@.len() ==> (#[trigger] path@[i]).in_field(),
        ensures
            e@ == pather_view(pos, path@),
            e.wf(),
            e@.kind == Kind::Pather(path@),
            e.pos == pos,
            e.speed == (Vec2i { x: PATHER_SPEED, y: PATHER_SPEED }),
            e.radius == 2_500,
            e.alive,
            !e.is_clone,
    {
        let mut queue: VecDeque<Vec2i> = VecDeque::new();
        let mut i: usize = 0;
        while i < path.len()
            invariant
                i <= path@.len(),
                queue@ == path@.subrange(0, i as int),
            decreases path@.len() - i,
        {
            queue.push_back(path[i]);
            i = i + 1;
        }
        assert(queue@ == path@);
        Self::make(
            pos,
            Vec2i { x: PATHER_SPEED, y: PATHER_SPEED },
            EntityType::Pather(queue),
            2_500,
            0,
        )
    }

    /// A heart at `pos`.
    pub fn new_heal_item(pos: Vec2i) -> (e: Self)
        requires
            pos.in_field(),
        ensures
            e == heal_item(pos),
            e.wf(),
            e@.kind == Kind::HealItem,
            e.pos == pos,
            e.radius == 5_000,
            e.alive,
            !e.is_clone,
    {
        Self::make(pos, zero(), EntityType::HealItem, 5_000, QUARTER_TURN)
    }

    /// A mana orb at `pos`.
    pub fn new_mana_item(pos: Vec2i) -> (e: Self)
        requires
            pos.in_field(),
        ensures
            e == mana_item(pos),
            e.wf(),
            e@.kind == Kind::ManaItem,
            e.pos == pos,
            e.radius == 5_000,
            e.alive,
            !e.is_clone,
    {
        Self::make(pos, zero(), EntityType::ManaItem, 5_000, QUARTER_TURN)
    }

    /// A copy of this entity.
    pub fn duplicate(&self) -> (e: Self)
        ensures
            e@ == self@,
    {
        let e_type = match &self.e_type {
            EntityType::Bullet => EntityType::Bullet,
            EntityType::Follower => EntityType::Follower,
            EntityType::Pather(path) => {
                let mut queue: VecDeque<Vec2i> = VecDeque::new();
                let mut i: usize = 0;
                while i < path.len()
                    invariant
                        i <= path@.len(),
                        queue@ == path@.subrange(0, i as int),
                    decreases path@.len() - i,
                {
                    queue.push_back(path[i]);
                    i = i + 1;
                }
                assert(queue@ == path@);
                EntityType::Pather(queue)
            },
            EntityType::Player => EntityType::Player,
            EntityType::HealItem => EntityType::HealItem,
            EntityType::ManaItem => EntityType::ManaItem,
        };
        Entity {
            id: self.id,
            pos: self.pos,
            speed: self.speed,
            e_type,
            radius: self.radius,
            alive: self.alive,
            rotation: self.rotation,
            is_clone: self.is_clone,
        }
    }

    /// Advances the entity by one tick by the rule of its kind.
    pub fn tick(&mut self, target_pos: Vec2i)
        requires
            old(self).wf(),
            target_pos.in_field(),
        ensures
            final(self).wf(),
            final(self)@ == old(self)@.ticked(target_pos),
    {
        match &self.e_type {
            EntityType::Bullet => self.bullet_tick(),
            EntityType::Follower => self.follower_tick(target_pos),
            EntityType::Pather(_) => self.pather_tick(),
            EntityType::Player => self.player_tick(),
            EntityType::HealItem => {},
            EntityType::ManaItem => {},
        }
    }

    fn player_tick(&mut self)
        requires
            old(self).wf(),
            old(self).e_type is Player,
        ensures
            final(self).wf(),
            final(self)@ == old(self)@.player_ticked(),
    {
        let p = shift(self.pos, self.speed);
        self.speed = scale(self.speed, 9, 10);
        let mut x = p.x;
        let mut y = p.y;
        if x - self.radius < 0 {
            x = self.radius;
        } else if x + self.radius > WORLD_WIDTH {
            x = WORLD_WIDTH - self.radius;
        }
        if y + self.radius > WORLD_HEIGHT {
            y = WORLD_HEIGHT - self.radius;
        }
        self.pos = Vec2i { x, y };
    }

    fn bullet_tick(&mut self)
        requires
            old(self).wf(),
            old(self).e_type is Bullet,
        ensures
            final(self).wf(),
            final(self)@ == old(self)@.bullet_ticked(),
    {
        self.pos = shift(self.pos, self.speed);
        if distance_sq(self.pos, center()) > (BULLET_RANGE * BULLET_RANGE) as u64 {
            self.alive = false;
        }
    }

    fn follower_tick(&mut self, target_pos: Vec2i)
        requires
            old(self).wf(),
            old(self).e_type is Follower,
            target_pos.in_field(),
        ensures
            final(self).wf(),
            final(self)@ == old(self)@.follower_ticked(target_pos),
    {
        let pull = toward(self.pos, target_pos, FOLLOWER_ACCELERATION);
        self.speed = scale(accelerate(self.speed, pull), 19, 20);
        if self.radius >= FOLLOWER_SHRINK {
            self.radius = self.radius - FOLLOWER_SHRINK;
        } else {
            self.radius = 0;
        }
        if self.radius < FOLLOWER_MIN_RADIUS {
            self.alive = false;
        }
        self.pos = shift(self.pos, self.speed);
    }

    fn pather_tick(&mut self)
        requires
            old(self).wf(),
            old(self).e_type is Pather,
        ensures
            final(self).wf(),
            final(self)@ == old(self)@.pather_ticked(old(self).e_type->Pather_0@),
    {
        self.rotation = (self.rotation + PATHER_SPIN) % FULL_TURN;
        let pos = self.pos;
        let radius = self.radius;
        let mut speed = self.speed;
        let mut gone = false;
        let ghost path0 = self.e_type->Pather_0@;
        proof {
            assert(old(self)@.kind == Kind::Pather(path0));
            lemma_waypoints_in_field(old(self)@);
            if path0.len() > 0 {
                assert(path0[0].in_field());
            }
        }
        match &mut self.e_type {
            EntityType::Pather(path) => {
                if path.len() > 0 {
                    let point = path[0];
                    speed = toward(pos, point, PATHER_SPEED);
                    if closer_than(pos, point, radius + SCALE) {
                        path.pop_front();
                    }
                }
                if path.len() == 0 {
                    gone = true;
                }
            },
            _ => {},
        }
        self.speed = speed;
        if gone {
            self.alive = false;
        }
        self.pos = shift(self.pos, self.speed);
        proof {
            if path0.len() > 0 {
                assert(path0.drop_first() == path0.subrange(1, path0.len() as int));
            }
            let rest = self.e_type->Pather_0@;
            assert(forall|i: int| 0 <= i < rest.len() ==> (#[trigger] rest[i]).in_field()) by {
                assert forall|i: int| 0 <= i < rest.len() implies (#[trigger] rest[i]).in_field() by {
                    if rest.len() < path0.len() {
                        assert(rest[i] == path0[i + 1]);
                    } else {
                        assert(rest[i] == path0[i]);
                    }
                }
            }
        }
    }
}

} // verus!

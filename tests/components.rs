use std::collections::VecDeque;

use unglitched::achievements::{Achievements, OVER_HEALED, SECOND_CHANCE, UP};
use unglitched::entities::{
    random_inside_pos, random_outside_pos, Entity, EntityType, BULLET_RANGE, SPAWN_DIST,
};
use unglitched::geometry::{
    center, closer_than, distance_sq, isqrt, scale, shift, toward, Vec2i, CENTER_X, CENTER_Y,
    FIELD_LIMIT,
};
use unglitched::glitch::{chance, GlitchEngine};
use unglitched::meter::ResourceMeter;
use unglitched::spawn::SpawnScheduler;

#[test]
fn increment_at_bound_wraps_to_zero_once() {
    let mut m = ResourceMeter::new(3);
    assert!(m.increment(1));
    assert_eq!(m.value, 0);
    assert!(!m.increment(1));
    assert_eq!(m.value, 1);
}

#[test]
fn increment_below_bound_adds() {
    let mut m = ResourceMeter { value: 1, bound: 3 };
    assert!(!m.increment(2));
    assert_eq!(m.value, 3);
}

#[test]
fn decrement_deficit_of_one_recovers_to_bound() {
    let mut m = ResourceMeter { value: 0, bound: 3 };
    assert!(m.decrement(1));
    assert_eq!(m.value, 3);
    let mut m = ResourceMeter { value: 1, bound: 3 };
    assert!(m.decrement(2));
    assert_eq!(m.value, 3);
}

#[test]
fn decrement_deficit_of_two_recovers_below_bound() {
    let mut m = ResourceMeter { value: 0, bound: 3 };
    assert!(m.decrement(2));
    assert_eq!(m.value, 2);
}

#[test]
fn decrement_within_range_subtracts() {
    let mut m = ResourceMeter { value: 3, bound: 3 };
    assert!(!m.decrement(2));
    assert_eq!(m.value, 1);
}

#[test]
fn integer_square_roots() {
    assert_eq!(isqrt(0), 0);
    assert_eq!(isqrt(1), 1);
    assert_eq!(isqrt(15), 3);
    assert_eq!(isqrt(16), 4);
    assert_eq!(isqrt(17), 4);
    assert_eq!(isqrt(1_000_000_000_000), 1_000_000);
}

#[test]
fn toward_has_the_requested_length() {
    let v = toward(Vec2i { x: 0, y: 0 }, Vec2i { x: 30, y: 40 }, 2_500);
    assert_eq!(v, Vec2i { x: 1_500, y: 2_000 });
    let v = toward(Vec2i { x: 0, y: 0 }, Vec2i { x: -300, y: 0 }, 100);
    assert_eq!(v, Vec2i { x: -100, y: 0 });
    let v = toward(Vec2i { x: 5, y: 5 }, Vec2i { x: 5, y: 5 }, 100);
    assert_eq!(v, Vec2i { x: 0, y: 0 });
}

#[test]
fn scaling_rounds_toward_zero() {
    assert_eq!(scale(Vec2i { x: 19, y: -19 }, 9, 10), Vec2i { x: 17, y: -17 });
}

#[test]
fn ring_points_lie_on_the_ring() {
    let left = random_outside_pos(0, true);
    assert_eq!(left, Vec2i { x: CENTER_X - SPAWN_DIST, y: CENTER_Y });
    let top = random_outside_pos(SPAWN_DIST as u32, true);
    assert_eq!(top, Vec2i { x: CENTER_X, y: CENTER_Y - SPAWN_DIST });
    let bottom = random_outside_pos(SPAWN_DIST as u32, false);
    assert_eq!(bottom, Vec2i { x: CENTER_X, y: CENTER_Y + SPAWN_DIST });
    let p = random_outside_pos(123_456, false);
    let dx = (p.x - CENTER_X) as i128;
    let dy = (p.y - CENTER_Y) as i128;
    let d = dx * dx + dy * dy;
    let r = SPAWN_DIST as i128;
    assert!(d <= r * r && d >= (r - 1) * (r - 1));
    assert_eq!(random_inside_pos(7, 9), Vec2i { x: 7, y: 9 });
}

#[test]
fn bullet_dies_on_the_tick_it_passes_its_range() {
    let start = Vec2i { x: CENTER_X + BULLET_RANGE - 5_000, y: CENTER_Y };
    let mut b = Entity::new_random_bullet(Vec2i { x: CENTER_X + 1_000_000, y: CENTER_Y }, start);
    assert_eq!(b.speed, Vec2i { x: 2_500, y: 0 });
    b.tick(center());
    assert!(b.alive);
    b.tick(center());
    assert_eq!(b.pos.x, CENTER_X + BULLET_RANGE);
    assert!(b.alive);
    b.tick(center());
    assert!(!b.alive);
}

#[test]
fn pather_dies_right_after_its_last_waypoint() {
    let pos = Vec2i { x: 0, y: 0 };
    let path = vec![Vec2i { x: 0, y: 0 }, Vec2i { x: 0, y: 1_000 }, Vec2i { x: 0, y: 2_000 }];
    let mut p = Entity::new_random_pather(pos, &path);
    let remaining = |e: &Entity| match &e.e_type {
        EntityType::Pather(q) => q.len(),
        _ => usize::MAX,
    };
    p.tick(center());
    assert_eq!(remaining(&p), 2);
    assert!(p.alive);
    p.tick(center());
    assert_eq!(remaining(&p), 1);
    assert!(p.alive);
    p.tick(center());
    assert_eq!(remaining(&p), 0);
    assert!(!p.alive);
}

#[test]
fn pather_with_far_waypoint_keeps_it() {
    let path = vec![Vec2i { x: 100_000, y: 0 }];
    let mut p = Entity::new_random_pather(Vec2i { x: 0, y: 0 }, &path);
    p.tick(center());
    assert!(p.alive);
    assert_eq!(p.speed, Vec2i { x: 2_500, y: 0 });
    assert_eq!(p.pos, Vec2i { x: 2_500, y: 0 });
    assert_eq!(p.rotation, 40);
    if let EntityType::Pather(q) = &p.e_type {
        assert_eq!(q, &VecDeque::from(vec![Vec2i { x: 100_000, y: 0 }]));
    }
}

#[test]
fn follower_shrinks_until_gone() {
    let mut f = Entity::new_random_follower(center(), center());
    let mut ticks = 0;
    while f.alive {
        f.tick(center());
        ticks += 1;
    }
    assert_eq!(ticks, 401);
    assert_eq!(f.radius, 990);
}

#[test]
fn player_is_held_at_the_sides_but_not_the_top() {
    let mut p = Entity::new_player();
    p.pos = Vec2i { x: 6_000, y: 294_000 };
    p.speed = Vec2i { x: -3_000, y: 3_000 };
    p.tick(Vec2i { x: 0, y: 0 });
    assert_eq!(p.pos, Vec2i { x: 5_000, y: 295_000 });
    assert_eq!(p.speed, Vec2i { x: -2_700, y: 2_700 });
    p.pos = Vec2i { x: 100_000, y: 1_000 };
    p.speed = Vec2i { x: 0, y: -3_000 };
    p.tick(Vec2i { x: 0, y: 0 });
    assert_eq!(p.pos, Vec2i { x: 100_000, y: -2_000 });
}

#[test]
fn achievements_unlock_once() {
    let mut a = Achievements::new();
    assert_eq!(a.name(OVER_HEALED), "over_healed");
    assert_eq!(a.name(UP), "up");
    assert_eq!(a.description(UP), "Leave the map");
    assert!(!a.is_unlocked(SECOND_CHANCE));
    assert!(a.unlock(SECOND_CHANCE));
    assert!(a.is_unlocked(SECOND_CHANCE));
    assert!(!a.unlock(SECOND_CHANCE));
    assert!(a.is_unlocked(SECOND_CHANCE));
    assert!(!a.all_unlocked());
    for i in 0..7 {
        a.unlock(i);
    }
    assert!(a.all_unlocked());
}

#[test]
fn spawn_timers_fire_after_their_periods() {
    let mut s = SpawnScheduler::new();
    let mut bullets = Vec::new();
    let mut pathers = Vec::new();
    for t in 0..400 {
        let due = s.tick();
        if due.bullet {
            bullets.push(t);
        }
        if due.pather {
            pathers.push(t);
        }
    }
    assert_eq!(&bullets[..3], &[61, 123, 185]);
    assert_eq!(&pathers[..2], &[151, 303]);
}

#[test]
fn glitch_chances_grow_with_level() {
    assert_eq!(chance(0), 0);
    assert_eq!(chance(1), 10);
    assert_eq!(chance(2), 50);
    assert_eq!(chance(3), 70);
    assert_eq!(chance(4), 100);
    assert_eq!(chance(5), 1_000);
    assert_eq!(chance(6), 0);
}

#[test]
fn glitch_chain_arms_with_its_length() {
    let mut g = GlitchEngine::new();
    assert!(g.dormant());
    g.arm(7, 1, 0, 3);
    assert_eq!(g.chain.map(|c| (c.reference, c.countdown)), Some((7, 50)));
    g.advance(9);
    assert_eq!(g.chain.map(|c| (c.reference, c.countdown)), Some((9, 49)));
    g.arm(7, 1, 0, 5);
    assert_eq!(g.chain.map(|c| c.countdown), Some(70));
    g.cancel();
    assert!(g.dormant());
}

#[test]
fn positions_stay_inside_the_field() {
    let edge = Vec2i { x: FIELD_LIMIT - 10, y: -FIELD_LIMIT + 10 };
    let p = shift(edge, Vec2i { x: 1_000, y: -1_000 });
    assert_eq!(p, Vec2i { x: FIELD_LIMIT, y: -FIELD_LIMIT });
    assert_eq!(shift(Vec2i { x: 5, y: 6 }, Vec2i { x: -2, y: 3 }), Vec2i { x: 3, y: 9 });
}

#[test]
fn distances_are_exact() {
    let a = Vec2i { x: 0, y: 0 };
    let b = Vec2i { x: 3, y: 4 };
    assert_eq!(distance_sq(a, b), 25);
    assert!(closer_than(a, b, 6));
    assert!(!closer_than(a, b, 5));
    let far = Vec2i { x: FIELD_LIMIT, y: FIELD_LIMIT };
    let near = Vec2i { x: -FIELD_LIMIT, y: -FIELD_LIMIT };
    assert_eq!(distance_sq(far, near), 8 * (FIELD_LIMIT as u64) * (FIELD_LIMIT as u64));
}

#[test]
fn achievements_come_in_their_order() {
    let a = Achievements::new();
    let names: Vec<&str> = a.achievements.iter().map(|x| x.name).collect();
    assert_eq!(
        names,
        vec!["name_overflow", "unstable", "second_chance", "over_healed", "unlimited_power", "over_9000", "up"]
    );
    assert!(a.achievements.iter().all(|x| !x.unlocked));
}

use unglitched::achievements::{
    NAME_OVERFLOW, OVER_9000, OVER_HEALED, SECOND_CHANCE, UNLIMITED_POWER, UNSTABLE, UP,
};
use unglitched::entities::Entity;
use unglitched::geometry::{center, Vec2i, CENTER_X, CENTER_Y};
use unglitched::random::{DROP_ROLL_RANGE, GLITCH_ROLL_RANGE};
use unglitched::world::{DropRoll, TickDraws, TickOutcome, World};

fn quiet() -> TickDraws {
    TickDraws {
        bullet_pos: Vec2i { x: 0, y: 0 },
        follower_pos: Vec2i { x: 0, y: 0 },
        pather_pos: Vec2i { x: 0, y: 0 },
        pather_path: Vec::new(),
        drops: Vec::new(),
        glitch_rolls: Vec::new(),
        x_direction: 0,
        y_direction: 0,
    }
}

fn still_bullet_at(pos: Vec2i) -> Entity {
    Entity::new_random_bullet(pos, pos)
}

fn touching_bullet() -> Entity {
    still_bullet_at(center())
}

#[test]
fn one_hit_at_full_health_costs_one_point() {
    let mut w = World::new();
    w.enemies.push(touching_bullet());
    let out = w.tick_with(0, 0, false, &quiet());
    assert_eq!(w.hp.value, 2);
    assert_eq!(out.achievement, None);
    assert!(!out.entered_bsod);
    assert!(out.cues.hit);
    assert_eq!(w.instability, 0);
    assert!(w.enemies.is_empty());
    assert_eq!(w.hit_anim, 10);
}

#[test]
fn hit_at_zero_health_gives_second_chance_and_crashes() {
    let mut w = World::new();
    w.hp.value = 0;
    w.enemies.push(touching_bullet());
    let out = w.tick_with(0, 0, false, &quiet());
    assert_eq!(out.achievement, Some(SECOND_CHANCE));
    assert!(out.entered_bsod);
    assert!(out.cues.bsod);
    assert!(w.achievements.is_unlocked(SECOND_CHANCE));
    assert_eq!(w.hp.value, 3);
    assert_eq!(w.mana.value, 3);
    assert_eq!(w.instability, 0);
    assert!(w.enemies.is_empty());
    assert!(w.items.is_empty());
    assert_eq!(w.player.pos, center());
}

#[test]
fn instability_past_bound_unlocks_unstable_and_resets() {
    let mut w = World::new();
    w.achievements.unlock(SECOND_CHANCE);
    w.instability = 5;
    w.hp.value = 0;
    w.mana.value = 1;
    w.enemies.push(touching_bullet());
    w.items.push(Entity::new_mana_item(Vec2i { x: 10_000, y: 10_000 }));
    let out = w.tick_with(0, 0, false, &quiet());
    assert_eq!(out.achievement, Some(UNSTABLE));
    assert!(out.entered_bsod);
    assert!(out.cues.small_bug);
    assert!(w.achievements.is_unlocked(UNSTABLE));
    assert_eq!(w.hp.value, 3);
    assert_eq!(w.mana.value, 3);
    assert_eq!(w.instability, 0);
    assert!(w.enemies.is_empty());
    assert!(w.items.is_empty());
    assert!(w.glitch.dormant());
}

#[test]
fn unstable_already_unlocked_still_crashes_once() {
    let mut w = World::new();
    w.achievements.unlock(SECOND_CHANCE);
    w.achievements.unlock(UNSTABLE);
    w.instability = 5;
    w.hp.value = 0;
    w.enemies.push(touching_bullet());
    let out = w.tick_with(0, 0, false, &quiet());
    assert!(out.entered_bsod);
    assert_eq!(out.achievement, Some(UNSTABLE));
    assert_eq!(w.instability, 0);
    let out = w.tick_with(0, 0, false, &quiet());
    assert!(!out.entered_bsod);
}

#[test]
fn first_heal_wrap_unlocks_over_healed_then_raises_instability() {
    let mut w = World::new();
    w.items.push(Entity::new_heal_item(center()));
    let out = w.tick_with(0, 0, false, &quiet());
    assert_eq!(out.achievement, Some(OVER_HEALED));
    assert!(out.entered_bsod);
    assert!(w.achievements.is_unlocked(OVER_HEALED));
    assert_eq!(w.instability, 0);

    w.items.push(Entity::new_heal_item(center()));
    let out = w.tick_with(0, 0, false, &quiet());
    assert_eq!(out.achievement, None);
    assert!(!out.entered_bsod);
    assert!(out.cues.pickup);
    assert!(out.cues.small_bug);
    assert!(w.achievements.is_unlocked(OVER_HEALED));
    assert_eq!(w.hp.value, 0);
    assert_eq!(w.instability, 1);
    assert!(w.items.is_empty());
}

#[test]
fn heal_below_bound_adds_a_point() {
    let mut w = World::new();
    w.hp.value = 1;
    w.items.push(Entity::new_heal_item(center()));
    let out = w.tick_with(0, 0, false, &quiet());
    assert_eq!(w.hp.value, 2);
    assert!(!out.entered_bsod);
    assert!(w.items.is_empty());
}

#[test]
fn mana_wrap_unlocks_over_9000() {
    let mut w = World::new();
    w.items.push(Entity::new_mana_item(center()));
    let out = w.tick_with(0, 0, false, &quiet());
    assert_eq!(out.achievement, Some(OVER_9000));
    assert!(w.achievements.is_unlocked(OVER_9000));
}

#[test]
fn far_item_stays() {
    let mut w = World::new();
    w.items.push(Entity::new_heal_item(Vec2i { x: 10_000, y: 10_000 }));
    w.tick_with(0, 0, false, &quiet());
    assert_eq!(w.items.len(), 1);
    assert_eq!(w.hp.value, 3);
}

#[test]
fn affordable_ability_clears_nearby_enemies() {
    let mut w = World::new();
    w.enemies.push(still_bullet_at(Vec2i { x: CENTER_X + 40_000, y: CENTER_Y }));
    w.enemies.push(still_bullet_at(Vec2i { x: CENTER_X + 60_000, y: CENTER_Y }));
    let out = w.tick_with(0, 0, true, &quiet());
    assert!(out.cues.explosion);
    assert!(!out.entered_bsod);
    assert_eq!(w.mana.value, 1);
    assert_eq!(w.power_up_timer, 7);
    assert_eq!(w.enemies.len(), 1);
    assert_eq!(w.enemies[0].pos.x, CENTER_X + 60_000);
}

#[test]
fn ability_without_mana_unlocks_unlimited_power() {
    let mut w = World::new();
    w.mana.value = 1;
    w.enemies.push(still_bullet_at(Vec2i { x: CENTER_X + 40_000, y: CENTER_Y }));
    let out = w.tick_with(0, 0, true, &quiet());
    assert_eq!(out.achievement, Some(UNLIMITED_POWER));
    assert!(out.entered_bsod);
    assert_eq!(w.mana.value, 3);
    assert!(w.enemies.is_empty());

    w.mana.value = 0;
    w.enemies.push(still_bullet_at(Vec2i { x: CENTER_X + 40_000, y: CENTER_Y }));
    let out = w.tick_with(0, 0, true, &quiet());
    assert!(!out.entered_bsod);
    assert_eq!(w.mana.value, 2);
    assert_eq!(w.instability, 1);
    assert_eq!(w.enemies.len(), 1);
}

#[test]
fn leaving_through_the_top_unlocks_up_then_teleports() {
    let mut w = World::new();
    w.player.pos = Vec2i { x: CENTER_X, y: -25_000 };
    let out = w.tick_with(0, 0, false, &quiet());
    assert_eq!(out.achievement, Some(UP));
    assert!(out.entered_bsod);
    assert_eq!(w.player.pos, center());

    w.player.pos = Vec2i { x: CENTER_X, y: -25_000 };
    let out = w.tick_with(0, 0, false, &quiet());
    assert!(!out.entered_bsod);
    assert_eq!(w.instability, 1);
    assert_eq!(w.player.pos, center());
}

#[test]
fn player_steers_by_intent() {
    let mut w = World::new();
    w.tick_with(1, -7, false, &quiet());
    assert_eq!(w.player.speed, Vec2i { x: 450, y: -450 });
    assert_eq!(w.player.pos, Vec2i { x: CENTER_X + 500, y: CENTER_Y - 500 });
}

#[test]
fn dying_follower_drops_by_its_rolls() {
    let mut w = World::new();
    let mut f = Entity::new_random_follower(center(), Vec2i { x: 10_000, y: 10_000 });
    f.radius = 1_005;
    w.enemies.push(f);
    let mut d = quiet();
    d.drops.push(DropRoll {
        heal_roll: 124,
        mana_roll: 125,
        heal_pos: Vec2i { x: 1_000, y: 2_000 },
        mana_pos: Vec2i { x: 3_000, y: 4_000 },
    });
    let out = w.tick_with(0, 0, false, &d);
    assert!(!out.entered_bsod);
    assert!(w.enemies.is_empty());
    assert_eq!(w.items.len(), 1);
    assert_eq!(w.items[0].pos, Vec2i { x: 1_000, y: 2_000 });
}

#[test]
fn dying_follower_can_drop_both_items() {
    let mut w = World::new();
    let mut f = Entity::new_random_follower(center(), Vec2i { x: 10_000, y: 10_000 });
    f.radius = 1_005;
    w.enemies.push(f);
    let mut d = quiet();
    d.drops.push(DropRoll {
        heal_roll: 0,
        mana_roll: 0,
        heal_pos: Vec2i { x: 1_000, y: 2_000 },
        mana_pos: Vec2i { x: 3_000, y: 4_000 },
    });
    w.tick_with(0, 0, false, &d);
    assert_eq!(w.items.len(), 2);
    assert_eq!(w.items[1].pos, Vec2i { x: 3_000, y: 4_000 });
}

#[test]
fn glitch_scan_arms_a_chain_on_a_low_roll() {
    let mut w = World::new();
    w.instability = 3;
    let mut first = still_bullet_at(Vec2i { x: 100_000, y: 100_000 });
    first.id = 11;
    let mut second = still_bullet_at(Vec2i { x: 300_000, y: 100_000 });
    second.id = 12;
    w.enemies.push(first);
    w.enemies.push(second);
    let mut d = quiet();
    d.glitch_rolls = vec![70, 69];
    d.x_direction = -1;
    d.y_direction = 1;
    let out = w.tick_with(0, 0, false, &d);
    assert_eq!(out.glitch_level, 3);
    let chain = w.glitch.chain.expect("armed");
    assert_eq!(chain.countdown, 50);
    assert_eq!(chain.reference, 12);
    assert_eq!((chain.x_direction, chain.y_direction), (-1, 1));

    let out = w.tick_with(0, 0, false, &quiet());
    assert!(out.cues.glitch);
    assert_eq!(w.enemies.len(), 3);
    assert!(w.enemies[2].is_clone);
    assert_eq!(w.enemies[2].pos, Vec2i { x: 297_000, y: 103_000 });
}

#[test]
fn glitch_scan_skips_clones_and_high_rolls() {
    let mut w = World::new();
    w.instability = 5;
    let mut c = still_bullet_at(Vec2i { x: 100_000, y: 100_000 });
    c.is_clone = true;
    w.enemies.push(c);
    w.enemies.push(still_bullet_at(Vec2i { x: 300_000, y: 100_000 }));
    let mut d = quiet();
    d.glitch_rolls = vec![0, 1_000];
    w.tick_with(0, 0, false, &d);
    assert!(w.glitch.dormant());
}

#[test]
fn calm_world_does_not_scan() {
    let mut w = World::new();
    w.enemies.push(still_bullet_at(Vec2i { x: 100_000, y: 100_000 }));
    let mut d = quiet();
    d.glitch_rolls = vec![0];
    let out = w.tick_with(0, 0, false, &d);
    assert_eq!(out.glitch_level, 0);
    assert!(w.glitch.dormant());
}

#[test]
fn spawns_arrive_on_schedule() {
    let mut w = World::new();
    let mut d = quiet();
    d.bullet_pos = Vec2i { x: CENTER_X - 420_000, y: CENTER_Y };
    for _ in 0..61 {
        w.tick_with(0, 0, false, &d);
    }
    assert!(w.enemies.is_empty());
    w.tick_with(0, 0, false, &d);
    assert_eq!(w.enemies.len(), 1);
    assert_eq!(w.enemies[0].speed, Vec2i { x: 2_500, y: 0 });
}

#[test]
fn meters_stay_in_range_over_random_ticks() {
    let mut w = World::new();
    for t in 0..3_000i64 {
        let out = w.tick(t % 3 - 1, (t / 7) % 3 - 1, t % 97 == 0);
        assert!(w.hp.value <= 3);
        assert!(w.mana.value <= 3);
        assert!(w.instability <= 5);
        assert!(w.enemies.iter().all(|e| e.alive));
        assert!(w.items.iter().all(|e| e.alive));
        if out.entered_bsod {
            assert!(w.enemies.is_empty());
            assert_eq!(w.hp.value, 3);
        }
    }
}

#[test]
fn draws_fall_in_their_ranges() {
    for _ in 0..50 {
        let d = TickDraws::draw(20);
        assert_eq!(d.drops.len(), 20);
        assert_eq!(d.glitch_rolls.len(), 20);
        assert_eq!(d.pather_path.len(), 5);
        assert!(d.glitch_rolls.iter().all(|r| *r < GLITCH_ROLL_RANGE));
        assert!(d.drops.iter().all(|r| r.heal_roll < DROP_ROLL_RANGE && r.mana_roll < DROP_ROLL_RANGE));
        assert!((-1..=1).contains(&d.x_direction));
        let inside = d.pather_path[1];
        assert!(inside.x >= 0 && inside.x < 400_000 && inside.y >= 0 && inside.y < 300_000);
    }
}

#[test]
fn long_name_unlocks_name_overflow() {
    let mut w = World::new();
    let out = w.start_game(5);
    assert!(w.has_game_started);
    assert_eq!(out, TickOutcome::new());
    let out = w.start_game(9);
    assert_eq!(out.achievement, Some(NAME_OVERFLOW));
    assert!(out.entered_bsod);
    let out = w.start_game(12);
    assert!(!out.entered_bsod);
    assert_eq!(w.instability, 1);
}

#[test]
fn reset_keeps_achievements() {
    let mut w = World::new();
    w.achievements.unlock(UP);
    w.instability = 4;
    w.hp.value = 1;
    w.spawner.bullet_timer = 30;
    w.enemies.push(touching_bullet());
    w.reset();
    assert!(w.achievements.is_unlocked(UP));
    assert_eq!(w.instability, 0);
    assert_eq!(w.hp.value, 3);
    assert_eq!(w.spawner.bullet_timer, 0);
    assert!(w.enemies.is_empty());
}

#[test]
fn accessors_read_the_meters() {
    let mut w = World::new();
    w.hp.value = 1;
    w.instability = 2;
    assert_eq!(w.hp(), 1);
    assert_eq!(w.mana(), 3);
    assert_eq!(w.instability(), 2);
    assert!(!w.is_unlocked(UP));
    w.achievements.unlock(UP);
    assert!(w.is_unlocked(UP));
}

#[test]
fn underfunded_ability_crashes_and_resets_at_once() {
    let mut w = World::new();
    w.mana.value = 0;
    w.instability = 2;
    w.enemies.push(touching_bullet());
    w.items.push(Entity::new_heal_item(Vec2i { x: 10_000, y: 10_000 }));
    let mut out = TickOutcome::new();
    w.power_destroy(&mut out);
    assert!(out.entered_bsod);
    assert!(out.cues.bsod);
    assert_eq!(out.achievement, Some(UNLIMITED_POWER));
    assert!(w.is_unlocked(UNLIMITED_POWER));
    assert_eq!(w.mana.value, 3);
    assert_eq!(w.instability, 0);
    assert!(w.enemies.is_empty());
    assert!(w.items.is_empty());
}

#[test]
fn affordable_ability_does_not_crash() {
    let mut w = World::new();
    let mut out = TickOutcome::new();
    w.power_destroy(&mut out);
    assert!(!out.entered_bsod);
    assert!(out.cues.explosion);
    assert_eq!(w.mana.value, 1);
}

#[test]
fn glitch_scan_also_picks_enemies_outside_the_play_area() {
    let mut w = World::new();
    w.instability = 5;
    let mut e = still_bullet_at(Vec2i { x: -50_000, y: 150_000 });
    e.id = 4;
    w.enemies.push(e);
    let mut d = quiet();
    d.glitch_rolls = vec![0];
    w.tick_with(0, 0, false, &d);
    assert_eq!(w.glitch.chain.map(|c| c.reference), Some(4));
}

#[test]
fn glitch_chain_at_level_three_spawns_five_clones() {
    let mut w = World::new();
    let mut e = still_bullet_at(Vec2i { x: 100_000, y: 100_000 });
    e.id = w.next_id;
    w.next_id += 1;
    w.enemies.push(e);
    w.glitch.arm(w.enemies[0].id, 1, 0, 3);
    let mut clone_ticks = Vec::new();
    for t in 1..=50 {
        assert!(!w.glitch.dormant());
        let before = w.enemies.len();
        let out = w.tick_with(0, 0, false, &quiet());
        assert!(!out.entered_bsod);
        if w.enemies.len() > before {
            assert!(out.cues.glitch);
            clone_ticks.push(t);
        }
    }
    assert_eq!(clone_ticks, vec![1, 11, 21, 31, 41]);
    assert!(w.glitch.dormant());
    assert_eq!(w.enemies.len(), 6);
    for k in 1..6 {
        assert!(w.enemies[k].is_clone);
        assert_eq!(w.enemies[k].pos, Vec2i { x: 100_000 + 3_000 * k as i64, y: 100_000 });
    }
    let ids: Vec<u64> = w.enemies.iter().map(|e| e.id).collect();
    assert_eq!(ids, vec![1, 2, 3, 4, 5, 6]);
    w.tick_with(0, 0, false, &quiet());
    assert_eq!(w.enemies.len(), 6);
}

#[test]
fn glitch_chain_stops_when_its_template_is_gone() {
    let mut w = World::new();
    let mut e = touching_bullet();
    e.id = 3;
    w.enemies.push(e);
    w.glitch.arm(3, 1, 0, 2);
    let out = w.tick_with(0, 0, false, &quiet());
    assert!(!out.cues.glitch);
    assert!(w.glitch.dormant());
    assert!(w.enemies.is_empty());
}

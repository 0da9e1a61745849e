use chain_reaction::breakable::{Breakable, BreakableEvent};
use chain_reaction::chain::{
    detect_chain_explosions, first_hit_depth, grow_explosions, max_chain_value, react_breakables,
};
use chain_reaction::clock::Clock;
use chain_reaction::explosion::{Explosion, BOMB_RADIUS, EXPLOSION_DURATION, EXPLOSION_RADIUS};
use chain_reaction::geometry::{get_collision, Point};
use chain_reaction::world::{chains_label, Input, World};

const HALF: u64 = (EXPLOSION_DURATION / 2) as u64;

fn full_size(position: Point, chain_value: u32) -> Explosion {
    Explosion::new(position, chain_value).grow(HALF).unwrap()
}

#[test]
fn distance_squared_is_exact() {
    assert_eq!(Point::new(1, 2).distance_squared(&Point::new(4, 6)), 25);
    let far = Point::new(i32::MIN, i32::MIN).distance_squared(&Point::new(i32::MAX, i32::MAX));
    assert_eq!(far, 2 * (u32::MAX as u128) * (u32::MAX as u128));
}

#[test]
fn touching_circles_do_not_collide() {
    let a = Point::new(0, 0);
    assert!(!get_collision(&a, 2, &Point::new(5, 0), 3, 1));
    assert!(!get_collision(&a, 2, &Point::new(3, 4), 3, 1));
    assert!(get_collision(&a, 2, &Point::new(4, 0), 3, 1));
    assert!(!get_collision(&a, 0, &Point::new(0, 0), 0, 1));
}

#[test]
fn collision_radii_are_scaled() {
    let a = Point::new(0, 0);
    // Radii 2.5 and 2.5 in units of a half.
    assert!(get_collision(&a, 5, &Point::new(4, 0), 5, 2));
    assert!(!get_collision(&a, 5, &Point::new(5, 0), 5, 2));
    assert!(!get_collision(&a, 5, &Point::new(3, 4), 5, 2));
}

#[test]
fn clock_ticks_and_pauses() {
    let mut c = Clock::new();
    c.tick(16_000);
    assert_eq!((c.elapsed(), c.delta(), c.is_paused()), (16_000, 16_000, false));
    c.pause();
    c.tick(20_000);
    assert_eq!((c.elapsed(), c.delta(), c.is_paused()), (16_000, 0, true));
    c.resume();
    c.tick(5);
    assert_eq!((c.elapsed(), c.delta()), (16_005, 5));
}

#[test]
fn growth_is_a_triangular_wave() {
    let e = Explosion::new(Point::new(3, 4), 0);
    assert_eq!(e.progress, 0);
    assert_eq!(e.remaining, EXPLOSION_DURATION);
    let quarter = e.grow(300_000).unwrap();
    assert_eq!(quarter.progress, 600_000);
    let mid = e.grow(HALF).unwrap();
    assert_eq!(mid.progress, EXPLOSION_DURATION);
    assert_eq!(mid.radius(), EXPLOSION_DURATION * EXPLOSION_RADIUS);
    let late = mid.grow(300_000).unwrap();
    assert_eq!(late.progress, 600_000);
    let last = e.grow(EXPLOSION_DURATION as u64 - 1).unwrap();
    assert_eq!((last.remaining, last.progress), (1, 2));
    assert!(last.grow(1).is_none());
    assert!(e.grow(EXPLOSION_DURATION as u64).is_none());
    assert!(e.grow(u64::MAX).is_none());
    assert_eq!(mid.position, Point::new(3, 4));
}

#[test]
fn explosion_reach_excludes_the_boundary() {
    let centre = Point::new(0, 0);
    let full = full_size(centre, 0);
    let reach = (EXPLOSION_RADIUS + BOMB_RADIUS) as i32;
    assert!(full.reaches(&Point::new(reach - 1, 0)));
    assert!(!full.reaches(&Point::new(reach, 0)));
    let fresh = Explosion::new(centre, 0);
    assert!(fresh.reaches(&Point::new(BOMB_RADIUS as i32 - 1, 0)));
    assert!(!fresh.reaches(&Point::new(BOMB_RADIUS as i32, 0)));
}

#[test]
fn first_matching_explosion_wins() {
    let target = Point::new(10, 10);
    let es = vec![
        full_size(Point::new(500, 500), 9),
        full_size(Point::new(20, 10), 5),
        full_size(Point::new(10, 10), 2),
    ];
    assert_eq!(first_hit_depth(&es, &target), Some(5));
    assert_eq!(first_hit_depth(&es, &Point::new(-300, 0)), None);
    assert_eq!(first_hit_depth(&Vec::new(), &target), None);
}

#[test]
fn detector_marks_only_reached_breakables() {
    let es = vec![full_size(Point::new(0, 0), 3)];
    let mut bs = vec![Breakable::new(Point::new(10, 0)), Breakable::new(Point::new(100, 0))];
    detect_chain_explosions(&es, &mut bs);
    assert_eq!(bs[0].incoming, BreakableEvent::Damaged(3));
    assert_eq!(bs[1].incoming, BreakableEvent::Intact);
    assert_eq!(bs[1], Breakable::new(Point::new(100, 0)));
}

#[test]
fn damaged_breakable_spawns_one_level_deeper() {
    let mut bs = vec![
        Breakable { incoming: BreakableEvent::Damaged(4), ..Breakable::new(Point::new(1, 2)) },
        Breakable::new(Point::new(3, 4)),
        Breakable {
            position: Point::new(5, 6),
            will_explode: false,
            incoming: BreakableEvent::Damaged(7),
        },
        Breakable { incoming: BreakableEvent::Damaged(0), ..Breakable::new(Point::new(7, 8)) },
    ];
    let mut es = vec![full_size(Point::new(0, 0), 4)];
    react_breakables(&mut bs, &mut es);
    assert_eq!(bs, vec![Breakable::new(Point::new(3, 4))]);
    assert_eq!(es.len(), 3);
    assert_eq!(es[1], Explosion::new(Point::new(1, 2), 5));
    assert_eq!(es[2], Explosion::new(Point::new(7, 8), 1));
}

#[test]
fn growth_pass_removes_expired_explosions() {
    let young = Explosion::new(Point::new(0, 0), 1);
    let old = young.grow(1_000_000).unwrap();
    let mut es = vec![old, young];
    grow_explosions(&mut es, 300_000);
    assert_eq!(es.len(), 1);
    assert_eq!(es[0].chain_value, 1);
    assert_eq!(es[0].remaining, 900_000);
    assert_eq!(es[0].progress, 600_000);
}

#[test]
fn aggregator_is_zero_without_explosions() {
    assert_eq!(max_chain_value(&Vec::new()), 0);
}

#[test]
fn aggregator_takes_the_deepest_chain() {
    let p = Point::new(0, 0);
    let es = vec![Explosion::new(p, 3), Explosion::new(p, 7), Explosion::new(p, 2)];
    assert_eq!(max_chain_value(&es), 7);
}

#[test]
fn chains_label_is_blank_at_zero() {
    assert_eq!(chains_label(0), "");
    assert_eq!(chains_label(7), "7 Chain(s)");
    assert_eq!(chains_label(120), "120 Chain(s)");
    assert_eq!(chains_label(u32::MAX), "4294967295 Chain(s)");
}

#[test]
fn full_size_explosion_detonates_bomb_underneath() {
    let p = Point::new(100, 100);
    let mut w = World::new();
    w.spawn_explosion(p);
    w.frame(HALF);
    assert_eq!(w.explosions[0].progress, EXPLOSION_DURATION);
    w.spawn_bomb(p);
    w.frame(0);
    assert!(w.breakables.is_empty());
    assert_eq!(w.explosions.len(), 2);
    assert_eq!(w.explosions[1], Explosion::new(p, 1));
    assert_eq!(w.chains(), 1);
}

#[test]
fn pending_damage_never_outlives_its_frame() {
    let mut w = World::new();
    w.spawn_bomb(Point::new(0, 0));
    w.spawn_bomb(Point::new(200, 0));
    w.spawn_explosion(Point::new(0, 0));
    w.frame(16_000);
    assert_eq!(w.breakables, vec![Breakable::new(Point::new(200, 0))]);
    assert!(w.breakables.iter().all(|b| b.incoming == BreakableEvent::Intact));
    assert_eq!(w.chains(), 1);
}

#[test]
fn chain_travels_from_bomb_to_bomb() {
    let mut w = World::new();
    w.spawn_explosion(Point::new(0, 0));
    w.spawn_bomb(Point::new(0, 0));
    w.spawn_bomb(Point::new(30, 0));
    w.spawn_bomb(Point::new(60, 0));
    w.frame(0);
    assert_eq!(w.breakables.len(), 2);
    assert_eq!(w.chains(), 1);
    let mut frames = 0;
    while !w.breakables.is_empty() && frames < 200 {
        w.frame(16_000);
        frames += 1;
    }
    assert!(w.breakables.is_empty());
    // The middle bomb is caught by the first explosion (depth 0), and the
    // last bomb only by the explosion of the middle one (depth 1).
    assert_eq!(w.chains(), 2);
}

#[test]
fn explosions_expire_and_chains_fall_to_zero() {
    let mut w = World::new();
    w.spawn_explosion(Point::new(0, 0));
    w.frame(EXPLOSION_DURATION as u64 - 1);
    assert_eq!(w.explosions.len(), 1);
    assert_eq!(w.chains(), 0);
    w.frame(1);
    assert!(w.explosions.is_empty());
    assert_eq!(w.chains(), 0);
}

#[test]
fn paused_world_does_not_age() {
    let mut w = World::new();
    w.spawn_explosion(Point::new(0, 0));
    w.handle_input(Input::TogglePause);
    assert!(w.clock.is_paused());
    w.frame(EXPLOSION_DURATION as u64);
    assert_eq!(w.explosions.len(), 1);
    assert_eq!(w.clock.elapsed(), 0);
    w.handle_input(Input::TogglePause);
    w.frame(EXPLOSION_DURATION as u64);
    assert!(w.explosions.is_empty());
    assert_eq!(w.clock.elapsed(), EXPLOSION_DURATION as u64);
}

#[test]
fn input_spawns_entities() {
    let mut w = World::new();
    w.handle_input(Input::SpawnExplosion(Point::new(1, 1)));
    w.handle_input(Input::SpawnBomb(Point::new(2, 2)));
    assert_eq!(w.explosions, vec![Explosion::new(Point::new(1, 1), 0)]);
    assert_eq!(w.breakables, vec![Breakable::new(Point::new(2, 2))]);
}

#[test]
fn try_frame_refuses_overflowing_depth() {
    let mut w = World::new();
    w.explosions.push(Explosion::new(Point::new(0, 0), u32::MAX));
    assert!(!w.try_frame(10));
    assert_eq!(w.clock.elapsed(), 0);
    let mut v = World::new();
    v.clock.elapsed = u64::MAX - 5;
    assert!(!v.try_frame(6));
    assert!(v.try_frame(5));
    assert_eq!(v.clock.elapsed(), u64::MAX);
}

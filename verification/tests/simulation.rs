use ring_bounce::ball::make_ball;
use ring_bounce::config::{reference_config, CollisionGroups, Layer};
use ring_bounce::cooldown::Cooldown;
use ring_bounce::reactor::{CollisionEvent, World};
use ring_bounce::ring::build_ring;
use ring_bounce::DEFAULT_COOLDOWN_MS;

fn start_event(a: u64, b: u64) -> CollisionEvent {
    CollisionEvent { first: a, second: b, started: true }
}

#[test]
fn reference_config_values() {
    let cfg = reference_config();
    assert_eq!(cfg.ring_radius, 250);
    assert_eq!(cfg.num_segments, 36);
    assert_eq!(cfg.cooldown_ms, DEFAULT_COOLDOWN_MS);
    assert_eq!(DEFAULT_COOLDOWN_MS, 200);
}

#[test]
fn ring_reference_geometry() {
    let cfg = reference_config();
    let segments = build_ring(&cfg);
    assert_eq!(segments.len(), 36);
    for (i, seg) in segments.iter().enumerate() {
        assert_eq!(seg.radius, 250);
        assert_eq!(seg.angle_index, i as u32);
        assert_eq!(seg.num_segments, 36);
        assert_eq!(seg.half_thickness, 10);
        assert_eq!(seg.restitution_milli, 1500);
        assert_eq!(seg.groups.memberships, Layer::Ring);
        assert_eq!(seg.groups.filters, Layer::Ball);
    }
    for i in 1..segments.len() {
        assert_eq!(segments[i].angle_index, segments[i - 1].angle_index + 1);
    }
    // ceil(2 * 250 * 3142 / (1000 * 36)) = ceil(1571000 / 36000) = 44
    assert_eq!(segments[0].half_length, 44);
    // total tangential span covers the circumference with room to spare
    assert!(36 * 1000 * segments[0].half_length >= 2 * cfg.ring_radius * 3142);
}

#[test]
fn ring_smallest_closed_ring() {
    let mut cfg = reference_config();
    cfg.num_segments = 3;
    let segments = build_ring(&cfg);
    assert_eq!(segments.len(), 3);
    assert_eq!(segments[2].angle_index, 2);
}

#[test]
fn ring_builder_idempotent() {
    let cfg = reference_config();
    let a = build_ring(&cfg);
    let b = build_ring(&cfg);
    assert_eq!(a, b);
}

#[test]
fn cooldown_three_advances_not_ready() {
    let mut c = Cooldown::new(200);
    c.advance(50);
    c.advance(50);
    c.advance(50);
    assert!(!c.is_ready());
}

#[test]
fn cooldown_four_advances_ready() {
    let mut c = Cooldown::new(200);
    c.advance(50);
    c.advance(50);
    c.advance(50);
    c.advance(50);
    assert!(c.is_ready());
}

#[test]
fn cooldown_saturates_at_duration() {
    let mut c = Cooldown::new(200);
    c.advance(10_000);
    assert_eq!(c.elapsed_ms, 200);
    assert!(c.is_ready());
    c.advance(u64::MAX);
    assert_eq!(c.elapsed_ms, 200);
}

#[test]
fn cooldown_reset_goes_back_to_pending() {
    let mut c = Cooldown::new(200);
    c.advance(500);
    assert!(c.is_ready());
    c.reset();
    assert!(!c.is_ready());
    assert_eq!(c.elapsed_ms, 0);
    assert_eq!(c.duration_ms, 200);
}

#[test]
fn ball_factory_fresh_pending_ball() {
    let cfg = reference_config();
    let b = make_ball(7, 3, 4, &cfg);
    assert_eq!(b.id, 7);
    assert_eq!(b.x, 3);
    assert_eq!(b.y, 4);
    assert_eq!(b.radius, 10);
    assert_eq!(b.restitution_milli, 1000);
    assert_eq!(b.gravity_scale_milli, 1000);
    assert_eq!(b.groups.memberships, Layer::Ball);
    assert_eq!(b.groups.filters, Layer::Ring);
    assert_eq!(b.cooldown.elapsed_ms, 0);
    assert_eq!(b.cooldown.duration_ms, 200);
    assert!(!b.cooldown.is_ready());
}

#[test]
fn collision_layers_partition() {
    let ring = CollisionGroups { memberships: Layer::Ring, filters: Layer::Ball };
    let ball = CollisionGroups { memberships: Layer::Ball, filters: Layer::Ring };
    assert!(ring.evaluates_with(&ball));
    assert!(ball.evaluates_with(&ring));
    assert!(!ring.evaluates_with(&ring));
    assert!(!ball.evaluates_with(&ball));
}

#[test]
fn ring_segment_and_ball_groups_collide() {
    let cfg = reference_config();
    let segments = build_ring(&cfg);
    let b = make_ball(0, 0, 0, &cfg);
    assert!(segments[0].groups.evaluates_with(&b.groups));
    assert!(!segments[0].groups.evaluates_with(&segments[1].groups));
    let b2 = make_ball(1, 1, 1, &cfg);
    assert!(!b.groups.evaluates_with(&b2.groups));
}

#[test]
fn ready_ball_collision_spawns_one_and_resets() {
    let cfg = reference_config();
    let mut w = World::new();
    let id = w.spawn_ball(0, 100, &cfg);
    assert_eq!(id, 0);
    w.advance_cooldowns(200, &cfg);
    assert!(w.balls[0].cooldown.is_ready());
    let spawned = w.react_event(&start_event(0, 500), 17, 23, &cfg);
    assert!(spawned);
    assert_eq!(w.balls.len(), 2);
    assert_eq!(w.balls[0].cooldown.elapsed_ms, 0);
    assert!(!w.balls[0].cooldown.is_ready());
    assert_eq!(w.balls[1].id, 1);
    assert_eq!(w.balls[1].x, 17);
    assert_eq!(w.balls[1].y, 23);
    assert_eq!(w.balls[1].cooldown.elapsed_ms, 0);
    assert_eq!(w.next_id, 2);
}

#[test]
fn pending_ball_collision_spawns_nothing() {
    let cfg = reference_config();
    let mut w = World::new();
    w.spawn_ball(0, 100, &cfg);
    w.advance_cooldowns(100, &cfg);
    assert!(!w.balls[0].cooldown.is_ready());
    let spawned = w.react_event(&start_event(0, 500), 17, 23, &cfg);
    assert!(!spawned);
    assert_eq!(w.balls.len(), 1);
    assert_eq!(w.balls[0].cooldown.elapsed_ms, 100);
    assert_eq!(w.next_id, 1);
}

#[test]
fn unknown_entities_event_is_dropped_silently() {
    let cfg = reference_config();
    let mut w = World::new();
    w.spawn_ball(0, 100, &cfg);
    w.advance_cooldowns(200, &cfg);
    let spawned = w.react_event(&start_event(400, 500), 17, 23, &cfg);
    assert!(!spawned);
    assert_eq!(w.balls.len(), 1);
    assert!(w.balls[0].cooldown.is_ready());
}

#[test]
fn non_start_event_is_ignored() {
    let cfg = reference_config();
    let mut w = World::new();
    w.spawn_ball(0, 100, &cfg);
    w.advance_cooldowns(200, &cfg);
    let ev = CollisionEvent { first: 0, second: 500, started: false };
    let spawned = w.react_event(&ev, 17, 23, &cfg);
    assert!(!spawned);
    assert_eq!(w.balls.len(), 1);
    assert!(w.balls[0].cooldown.is_ready());
}

#[test]
fn at_most_one_spawn_per_event() {
    let cfg = reference_config();
    let mut w = World::new();
    w.spawn_ball(0, 100, &cfg);
    w.spawn_ball(50, 100, &cfg);
    w.advance_cooldowns(200, &cfg);
    // both balls are ready and both are named by the same event
    let spawned = w.react_event(&start_event(0, 1), 17, 23, &cfg);
    assert!(spawned);
    assert_eq!(w.balls.len(), 3);
    // the first match in iteration order wins; the other cooldown is untouched
    assert_eq!(w.balls[0].cooldown.elapsed_ms, 0);
    assert_eq!(w.balls[1].cooldown.elapsed_ms, 200);
}

#[test]
fn two_simultaneous_events_two_spawns() {
    let cfg = reference_config();
    let mut w = World::new();
    w.spawn_ball(0, 100, &cfg);
    w.spawn_ball(50, 100, &cfg);
    w.advance_cooldowns(200, &cfg);
    let events = vec![start_event(0, 600), start_event(1, 601)];
    let points = vec![(10i64, 20i64), (30i64, 40i64)];
    w.react_to_events(&events, &points, &cfg);
    assert_eq!(w.balls.len(), 4);
    // each triggering ball's cooldown was reset
    assert_eq!(w.balls[0].cooldown.elapsed_ms, 0);
    assert_eq!(w.balls[1].cooldown.elapsed_ms, 0);
    // each event produced one ball at its own spawn point
    assert_eq!(w.balls[2].id, 2);
    assert_eq!((w.balls[2].x, w.balls[2].y), (10, 20));
    assert_eq!(w.balls[3].id, 3);
    assert_eq!((w.balls[3].x, w.balls[3].y), (30, 40));
    assert_eq!(w.next_id, 4);
}

#[test]
fn random_spawns_stay_in_envelope() {
    let cfg = reference_config();
    let mut w = World::new();
    w.spawn_ball(0, 100, &cfg);
    for trial in 0..100u64 {
        w.advance_cooldowns(200, &cfg);
        assert!(w.balls[0].cooldown.is_ready());
        let before = w.balls.len();
        let events = vec![start_event(0, 1000 + trial)];
        let points = w.react_to_events_random(&events, &cfg);
        assert_eq!(points.len(), 1);
        assert_eq!(w.balls.len(), before + 1);
        let (x, y) = points[0];
        assert!((-100..100).contains(&x));
        assert!((0..100).contains(&y));
        let newest = &w.balls[before];
        assert_eq!((newest.x, newest.y), (x, y));
    }
}

#[test]
fn tick_reacts_before_advancing() {
    let cfg = reference_config();
    let mut w = World::new();
    w.spawn_ball(0, 100, &cfg);
    // the ball is pending when the tick's events are processed, so the
    // collision spawns nothing, even though the same tick's advance makes
    // the cooldown ready afterwards
    let events = vec![start_event(0, 700)];
    w.tick(200, &events, &cfg);
    assert_eq!(w.balls.len(), 1);
    assert!(w.balls[0].cooldown.is_ready());
    // on the next tick the same collision does spawn
    w.tick(0, &events, &cfg);
    assert_eq!(w.balls.len(), 2);
    assert_eq!(w.balls[0].cooldown.elapsed_ms, 0);
}

#[test]
fn empty_event_list_changes_nothing() {
    let cfg = reference_config();
    let mut w = World::new();
    w.spawn_ball(0, 100, &cfg);
    w.advance_cooldowns(200, &cfg);
    let events: Vec<CollisionEvent> = Vec::new();
    let points = w.react_to_events_random(&events, &cfg);
    assert!(points.is_empty());
    assert_eq!(w.balls.len(), 1);
    assert!(w.balls[0].cooldown.is_ready());
}

use vstd::prelude::*;

verus! {

/// Collision layer a collider is a member of. Ring segments live on the ring
/// layer, balls on the ball layer; the two layers partition all colliders the
/// core creates.
#[derive(Clone, Copy, PartialEq, Eq, Structural, Debug)]
pub enum Layer {
    Ring,
    Ball,
}

/// Membership/filter pair controlling which collider pairs the physics solver
/// evaluates: a pair is evaluated only when each side's membership layer is
/// the other side's filter layer.
#[derive(Clone, Copy, PartialEq, Eq, Structural, Debug)]
pub struct CollisionGroups {
    pub memberships: Layer,
    pub filters: Layer,
}

/// The group assignment of every ring segment: member of the ring layer,
/// colliding with balls only.
pub open spec fn ring_groups() -> CollisionGroups {
    CollisionGroups { memberships: Layer::Ring, filters: Layer::Ball }
}

/// The group assignment of every ball: member of the ball layer, colliding
/// with ring segments only.
pub open spec fn ball_groups() -> CollisionGroups {
    CollisionGroups { memberships: Layer::Ball, filters: Layer::Ring }
}

/// Whether the solver evaluates collisions between colliders carrying the two
/// group assignments: each membership must pass the other side's filter.
pub open spec fn groups_collide(a: CollisionGroups, b: CollisionGroups) -> bool {
    a.memberships == b.filters && b.memberships == a.filters
}

impl CollisionGroups {
    /// Whether the solver evaluates collisions between colliders carrying
    /// these two group assignments.
    pub fn evaluates_with(&self, other: &CollisionGroups) -> (r: bool)
        ensures
            r == groups_collide(*self, *other),
    {
        self.memberships == other.filters && other.memberships == self.filters
    }
}

/// A ring/ball pair is evaluated; ring/ring and ball/ball pairs never are.
/// This keeps the event volume proportional to balls times segments.
pub proof fn lemma_layer_partition()
    ensures
        groups_collide(ring_groups(), ball_groups()),
        groups_collide(ball_groups(), ring_groups()),
        !groups_collide(ring_groups(), ring_groups()),
        !groups_collide(ball_groups(), ball_groups()),
{
}

/// Simulation configuration: ring geometry, ball parameters, the spawn
/// envelope, and the cooldown duration. Lengths are in world units, times in
/// milliseconds, and dimensionless coefficients (restitution, gravity scale)
/// in thousandths.
#[derive(Clone, Copy, PartialEq, Eq, Structural, Debug)]
pub struct SimConfig {
    /// Radius of the circle the segment centers lie on.
    pub ring_radius: u64,
    /// Half-extent of a segment across the ring boundary.
    pub ring_half_thickness: u64,
    /// Number of segments approximating the circle.
    pub num_segments: u32,
    /// Restitution of every ring segment, in thousandths.
    pub ring_restitution_milli: u64,
    /// Radius of every ball's circular collider.
    pub ball_radius: u64,
    /// Restitution of every ball, in thousandths.
    pub ball_restitution_milli: u64,
    /// Gravity scale of every ball, in thousandths.
    pub gravity_scale_milli: u64,
    /// Milliseconds a fresh or reset cooldown takes to become ready.
    pub cooldown_ms: u64,
    /// Spawn envelope: new balls appear with x in [spawn_x_min, spawn_x_max).
    pub spawn_x_min: i64,
    pub spawn_x_max: i64,
    /// Spawn envelope: new balls appear with y in [spawn_y_min, spawn_y_max).
    pub spawn_y_min: i64,
    pub spawn_y_max: i64,
}

impl SimConfig {
    /// A usable configuration: a ring needs at least three segments to close,
    /// the spawn envelope must be non-empty, and the geometry must be small
    /// enough for the segment-length computation to stay within `u64`.
    pub open spec fn wf(self) -> bool {
        &&& 3 <= self.num_segments
        &&& self.ring_radius <= 0x1000_0000
        &&& self.spawn_x_min < self.spawn_x_max
        &&& self.spawn_y_min < self.spawn_y_max
    }
}

/// The reference configuration: a ring of radius 250 built from 36 segments,
/// balls of radius 10 with a 200 ms spawn cooldown, and the spawn envelope
/// x in [-100, 100), y in [0, 100).
pub fn reference_config() -> (cfg: SimConfig)
    ensures
        cfg.wf(),
        cfg.ring_radius == 250,
        cfg.ring_half_thickness == 10,
        cfg.num_segments == 36,
        cfg.ring_restitution_milli == 1500,
        cfg.ball_radius == 10,
        cfg.ball_restitution_milli == 1000,
        cfg.gravity_scale_milli == 1000,
        cfg.cooldown_ms == crate::DEFAULT_COOLDOWN_MS,
        cfg.spawn_x_min == -100 && cfg.spawn_x_max == 100,
        cfg.spawn_y_min == 0 && cfg.spawn_y_max == 100,
{
    SimConfig {
        ring_radius: 250,
        ring_half_thickness: 10,
        num_segments: 36,
        ring_restitution_milli: 1500,
        ball_radius: 10,
        ball_restitution_milli: 1000,
        gravity_scale_milli: 1000,
        cooldown_ms: crate::DEFAULT_COOLDOWN_MS,
        spawn_x_min: -100,
        spawn_x_max: 100,
        spawn_y_min: 0,
        spawn_y_max: 100,
    }
}

} // verus!

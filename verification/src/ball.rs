use vstd::prelude::*;

use crate::config::{ball_groups, CollisionGroups, Layer, SimConfig};
use crate::cooldown::Cooldown;

verus! {

/// One dynamic, bouncy, gravity-affected ball.
///
/// The physics solver owns the ball's motion; the core keeps the identifier
/// under which the solver reports the ball in collision events, the position
/// the ball was created at, the collider parameters handed to the solver, and
/// the one spawn cooldown the ball owns. Coordinates are in world units,
/// dimensionless coefficients in thousandths.
#[derive(Clone, Copy, PartialEq, Eq, Structural, Debug)]
pub struct Ball {
    pub id: u64,
    pub x: i64,
    pub y: i64,
    pub radius: u64,
    pub restitution_milli: u64,
    pub gravity_scale_milli: u64,
    pub groups: CollisionGroups,
    pub cooldown: Cooldown,
}

/// The one ball the factory creates for an identifier, a position and a
/// configuration.
pub open spec fn ball_model(id: u64, x: i64, y: i64, cfg: SimConfig) -> Ball {
    Ball {
        id,
        x,
        y,
        radius: cfg.ball_radius,
        restitution_milli: cfg.ball_restitution_milli,
        gravity_scale_milli: cfg.gravity_scale_milli,
        groups: ball_groups(),
        cooldown: Cooldown::fresh_spec(cfg.cooldown_ms),
    }
}

impl Ball {
    /// Every ball the core creates is a member of the ball collision layer
    /// filtering ring segments only, and carries a saturating cooldown.
    pub open spec fn wf(self) -> bool {
        &&& self.cooldown.wf()
        &&& self.groups == ball_groups()
    }
}

/// Create one ball at the given position: ball collision layer with the ring
/// layer as its only filter, collider parameters from the configuration, and
/// a freshly initialized cooldown in `Pending` state with zero accumulated
/// time. Nothing else is consulted or mutated.
pub fn make_ball(id: u64, x: i64, y: i64, cfg: &SimConfig) -> (b: Ball)
    ensures
        b == ball_model(id, x, y, *cfg),
        b.wf(),
        b.cooldown.elapsed_ms == 0,
        cfg.cooldown_ms > 0 ==> !b.cooldown.is_ready_spec(),
{
    Ball {
        id,
        x,
        y,
        radius: cfg.ball_radius,
        restitution_milli: cfg.ball_restitution_milli,
        gravity_scale_milli: cfg.gravity_scale_milli,
        groups: CollisionGroups { memberships: Layer::Ball, filters: Layer::Ring },
        cooldown: Cooldown::new(cfg.cooldown_ms),
    }
}

} // verus!

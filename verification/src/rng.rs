use vstd::prelude::*;

use rand::Rng;

use crate::config::SimConfig;

verus! {

/// Whether a point lies inside the configured spawn envelope (both bounds
/// half-open, matching the uniform draw).
pub open spec fn in_envelope(x: i64, y: i64, cfg: SimConfig) -> bool {
    &&& cfg.spawn_x_min <= x < cfg.spawn_x_max
    &&& cfg.spawn_y_min <= y < cfg.spawn_y_max
}

/// Relies on rand's `Rng::gen_range` on the half-open range `lo..hi`: it
/// panics on an empty range and otherwise samples a value of the range. The
/// result depends on the thread's generator, so nothing beyond the bounds is
/// assumed of it.
#[verifier::external_body]
fn random_in_range(lo: i64, hi: i64) -> (r: i64)
    requires
        lo < hi,
    ensures
        lo <= r < hi,
{
    rand::thread_rng().gen_range(lo..hi)
}

/// Draw a spawn position uniformly at random from the configured envelope.
pub fn random_spawn_point(cfg: &SimConfig) -> (p: (i64, i64))
    requires
        cfg.spawn_x_min < cfg.spawn_x_max,
        cfg.spawn_y_min < cfg.spawn_y_max,
    ensures
        in_envelope(p.0, p.1, *cfg),
{
    let x = random_in_range(cfg.spawn_x_min, cfg.spawn_x_max);
    let y = random_in_range(cfg.spawn_y_min, cfg.spawn_y_max);
    (x, y)
}

} // verus!

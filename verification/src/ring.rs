use vstd::prelude::*;

use crate::config::{ring_groups, CollisionGroups, Layer, SimConfig};

verus! {

/// Upper bound on pi in thousandths: 1000 * pi <= 3142.
pub const PI_MILLI_UP: u64 = 3142;

/// One fixed rigid collider forming a piece of the circular boundary.
///
/// Its center lies on the circle of radius `radius` around the origin, at the
/// angle `angle_index / num_segments` of a full turn, and the segment is
/// rotated by that same angle so its long axis is tangent to the circle
/// there. `half_thickness` is the half-extent across the boundary,
/// `half_length` the half-extent along the tangent.
#[derive(Clone, Copy, PartialEq, Eq, Structural, Debug)]
pub struct RingSegment {
    pub angle_index: u32,
    pub num_segments: u32,
    pub radius: u64,
    pub half_thickness: u64,
    pub half_length: u64,
    pub restitution_milli: u64,
    pub groups: CollisionGroups,
}

/// Tangential half-extent given to every segment: the arc length per segment,
/// `2 * pi * radius / num_segments`, rounded up with pi over-approximated, so
/// the segments' spans can never leave a gap in the ring.
pub open spec fn segment_half_length_spec(cfg: SimConfig) -> int
    recommends
        cfg.num_segments > 0,
{
    (2 * cfg.ring_radius * PI_MILLI_UP + (1000 * cfg.num_segments - 1)) / (
    1000 * cfg.num_segments)
}

/// The one segment the builder places at `angle_index` `i`.
pub open spec fn segment_model(i: int, cfg: SimConfig) -> RingSegment {
    RingSegment {
        angle_index: i as u32,
        num_segments: cfg.num_segments,
        radius: cfg.ring_radius,
        half_thickness: cfg.ring_half_thickness,
        half_length: segment_half_length_spec(cfg) as u64,
        restitution_milli: cfg.ring_restitution_milli,
        groups: ring_groups(),
    }
}

/// Build the closed ring: `num_segments` fixed colliders, segment `i` centered
/// on the circle of radius `ring_radius` at angle `i / num_segments` of a full
/// turn and rotated to be tangent there, each a member of the ring collision
/// layer filtering balls only. Consecutive centers therefore subtend exactly
/// one angular step of `1 / num_segments` of a turn. The builder is
/// deterministic, so two calls with the same configuration produce identical
/// rings.
pub fn build_ring(cfg: &SimConfig) -> (segments: Vec<RingSegment>)
    requires
        cfg.wf(),
    ensures
        segments@.len() == cfg.num_segments,
        forall|i: int|
            0 <= i < cfg.num_segments ==> (#[trigger] segments@[i]) == segment_model(i, *cfg),
        forall|i: int|
            0 <= i < cfg.num_segments ==> (#[trigger] segments@[i]).radius == cfg.ring_radius,
        forall|i: int| 0 <= i < cfg.num_segments ==> (#[trigger] segments@[i]).angle_index == i,
        forall|i: int|
            0 < i < cfg.num_segments ==> (#[trigger] segments@[i]).angle_index == segments@[
                i - 1
            ].angle_index + 1,
{
    let half_length = segment_half_length(cfg);
    let n = cfg.num_segments;
    let mut segments: Vec<RingSegment> = Vec::new();
    let mut i: u32 = 0;
    while i < n
        invariant
            i <= n,
            n == cfg.num_segments,
            cfg.wf(),
            half_length == segment_half_length_spec(*cfg),
            segments@.len() == i,
            forall|k: int| 0 <= k < i ==> (#[trigger] segments@[k]) == segment_model(k, *cfg),
        decreases n - i,
    {
        segments.push(
            RingSegment {
                angle_index: i,
                num_segments: cfg.num_segments,
                radius: cfg.ring_radius,
                half_thickness: cfg.ring_half_thickness,
                half_length,
                restitution_milli: cfg.ring_restitution_milli,
                groups: CollisionGroups { memberships: Layer::Ring, filters: Layer::Ball },
            },
        );
        i = i + 1;
    }
    segments
}

/// Compute the tangential half-extent of a segment: ceiling of
/// `2 * pi * ring_radius / num_segments` with pi over-approximated in
/// thousandths.
fn segment_half_length(cfg: &SimConfig) -> (half_length: u64)
    requires
        cfg.wf(),
    ensures
        half_length == segment_half_length_spec(*cfg),
{
    let denom: u64 = 1000 * (cfg.num_segments as u64);
    (2 * cfg.ring_radius * PI_MILLI_UP + (denom - 1)) / denom
}

/// No gap a ball can exit through: the segments' tangential spans, summed over
/// the ring, cover the full circumference. Each segment spans
/// `2 * half_length`, so the total span is at least twice the circumference
/// (`2 * pi * radius`), stated here with pi bounded above by 3142/1000.
pub proof fn lemma_segments_cover_circle(cfg: SimConfig)
    requires
        cfg.wf(),
    ensures
        1000 * cfg.num_segments * segment_half_length_spec(cfg) >= 2 * cfg.ring_radius
            * PI_MILLI_UP,
{
    let a = 2 * cfg.ring_radius * PI_MILLI_UP;
    let d = 1000 * cfg.num_segments;
    let q = segment_half_length_spec(cfg);
    vstd::arithmetic::div_mod::lemma_fundamental_div_mod(a + d - 1, d);
    assert((a + d - 1) % d < d && (a + d - 1) % d >= 0) by {
        vstd::arithmetic::div_mod::lemma_mod_bound(a + d - 1, d);
    }
    assert(d * q >= a);
}

/// The exact contract of the builder leaves no freedom: any two segment
/// sequences that satisfy it are equal. Building the ring twice with the same
/// configuration therefore yields identical geometry.
pub proof fn lemma_ring_builder_deterministic(
    s1: Seq<RingSegment>,
    s2: Seq<RingSegment>,
    cfg: SimConfig,
)
    requires
        s1.len() == cfg.num_segments,
        s2.len() == cfg.num_segments,
        forall|i: int| 0 <= i < cfg.num_segments ==> s1[i] == segment_model(i, cfg),
        forall|i: int| 0 <= i < cfg.num_segments ==> s2[i] == segment_model(i, cfg),
    ensures
        s1 == s2,
{
    assert(s1 =~= s2);
}

} // verus!

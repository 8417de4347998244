use vstd::prelude::*;

use crate::ball::{ball_model, make_ball, Ball};
use crate::config::SimConfig;
use crate::cooldown::Cooldown;
use crate::rng::{in_envelope, random_spawn_point};

verus! {

/// Notification from the physics solver that the colliders of two entities
/// began (`started` true) or stopped (`started` false) touching during the
/// current tick. The pair is unordered; only start events trigger spawns.
#[derive(Clone, Copy, PartialEq, Eq, Structural, Debug)]
pub struct CollisionEvent {
    pub first: u64,
    pub second: u64,
    pub started: bool,
}

/// Whether a ball is one of the two entities an event names.
pub open spec fn event_involves(b: Ball, ev: CollisionEvent) -> bool {
    b.id == ev.first || b.id == ev.second
}

/// Whether a ball qualifies to trigger a spawn for an event: it is involved
/// and its cooldown is ready.
pub open spec fn qualifies(b: Ball, ev: CollisionEvent) -> bool {
    event_involves(b, ev) && b.cooldown.is_ready_spec()
}

/// Index of the first ball, in iteration order, that qualifies for the event;
/// `None` when no tracked ball qualifies (all candidates pending, or the
/// colliding pair involves no tracked ball).
pub open spec fn first_ready_index(balls: Seq<Ball>, ev: CollisionEvent) -> Option<int>
    decreases balls.len(),
{
    if balls.len() == 0 {
        None
    } else if qualifies(balls[0], ev) {
        Some(0 as int)
    } else {
        match first_ready_index(balls.drop_first(), ev) {
            Some(i) => Some(i + 1),
            None => None,
        }
    }
}

/// What `first_ready_index` returns is a qualifying index preceded by no
/// other, and it returns `None` exactly when no ball qualifies.
pub proof fn lemma_first_ready_characterization(balls: Seq<Ball>, ev: CollisionEvent)
    ensures
        match first_ready_index(balls, ev) {
            Some(i) => 0 <= i < balls.len() && qualifies(balls[i], ev) && (forall|j: int|
                0 <= j < i ==> !qualifies(#[trigger] balls[j], ev)),
            None => forall|j: int| 0 <= j < balls.len() ==> !qualifies(#[trigger] balls[j], ev),
        },
    decreases balls.len(),
{
    if balls.len() > 0 && !qualifies(balls[0], ev) {
        lemma_first_ready_characterization(balls.drop_first(), ev);
        match first_ready_index(balls.drop_first(), ev) {
            Some(i) => {
                assert forall|j: int| 0 <= j < i + 1 implies !qualifies(
                    #[trigger] balls[j],
                    ev,
                ) by {
                    if j > 0 {
                        assert(balls.drop_first()[j - 1] == balls[j]);
                    }
                }
            },
            None => {
                assert forall|j: int| 0 <= j < balls.len() implies !qualifies(
                    #[trigger] balls[j],
                    ev,
                ) by {
                    if j > 0 {
                        assert(balls.drop_first()[j - 1] == balls[j]);
                    }
                }
            },
        }
    }
}

/// Conversely, a qualifying index preceded by no qualifying index is what
/// `first_ready_index` returns.
pub proof fn lemma_first_ready_from_witness(balls: Seq<Ball>, ev: CollisionEvent, i: int)
    requires
        0 <= i < balls.len(),
        qualifies(balls[i], ev),
        forall|j: int| 0 <= j < i ==> !qualifies(#[trigger] balls[j], ev),
    ensures
        first_ready_index(balls, ev) == Some(i),
    decreases balls.len(),
{
    if i > 0 {
        assert forall|j: int| 0 <= j < i - 1 implies !qualifies(
            #[trigger] balls.drop_first()[j],
            ev,
        ) by {
            assert(balls.drop_first()[j] == balls[j + 1]);
        }
        assert(balls.drop_first()[i - 1] == balls[i]);
        lemma_first_ready_from_witness(balls.drop_first(), ev, i - 1);
    }
}

/// `first_ready_index` returns `None` when no ball qualifies.
pub proof fn lemma_first_ready_none(balls: Seq<Ball>, ev: CollisionEvent)
    requires
        forall|j: int| 0 <= j < balls.len() ==> !qualifies(#[trigger] balls[j], ev),
    ensures
        first_ready_index(balls, ev) is None,
    decreases balls.len(),
{
    if balls.len() > 0 {
        assert forall|j: int| 0 <= j < balls.len() - 1 implies !qualifies(
            #[trigger] balls.drop_first()[j],
            ev,
        ) by {
            assert(balls.drop_first()[j] == balls[j + 1]);
        }
        lemma_first_ready_none(balls.drop_first(), ev);
    }
}

/// A ball whose spawn cooldown was just reset: back to `Pending` with zero
/// accumulated time, everything else unchanged.
pub open spec fn reset_ball(b: Ball) -> Ball {
    Ball { cooldown: Cooldown::fresh_spec(b.cooldown.duration_ms), ..b }
}

/// Effect of one collision event on the ball store and the next fresh
/// identifier: on a start event whose first qualifying ball is at index `i`,
/// that ball's cooldown is reset and one new ball is appended at the given
/// position under the fresh identifier; otherwise nothing changes.
pub open spec fn react_step(
    balls: Seq<Ball>,
    next_id: u64,
    ev: CollisionEvent,
    pos_x: i64,
    pos_y: i64,
    cfg: SimConfig,
) -> (Seq<Ball>, u64)
    recommends
        next_id < u64::MAX,
{
    if ev.started {
        match first_ready_index(balls, ev) {
            Some(i) => (
                balls.update(i, reset_ball(balls[i])).push(
                    ball_model(next_id, pos_x, pos_y, cfg),
                ),
                (next_id + 1) as u64,
            ),
            None => (balls, next_id),
        }
    } else {
        (balls, next_id)
    }
}

/// Effect of a whole tick's event sequence, processed in order, the spawn of
/// event `k` (if any) placed at `positions[k]`.
pub open spec fn react_all(
    balls: Seq<Ball>,
    next_id: u64,
    events: Seq<CollisionEvent>,
    positions: Seq<(i64, i64)>,
    cfg: SimConfig,
) -> (Seq<Ball>, u64)
    recommends
        positions.len() == events.len(),
    decreases events.len(),
{
    if events.len() == 0 {
        (balls, next_id)
    } else {
        let stepped = react_step(balls, next_id, events[0], positions[0].0, positions[0].1, cfg);
        react_all(stepped.0, stepped.1, events.drop_first(), positions.drop_first(), cfg)
    }
}

/// Processing one more event at the end of a tick's sequence is one more
/// `react_step` after the sequence so far.
pub proof fn lemma_react_all_snoc(
    balls: Seq<Ball>,
    next_id: u64,
    events: Seq<CollisionEvent>,
    positions: Seq<(i64, i64)>,
    ev: CollisionEvent,
    pos: (i64, i64),
    cfg: SimConfig,
)
    requires
        positions.len() == events.len(),
    ensures
        react_all(balls, next_id, events.push(ev), positions.push(pos), cfg) == react_step(
            react_all(balls, next_id, events, positions, cfg).0,
            react_all(balls, next_id, events, positions, cfg).1,
            ev,
            pos.0,
            pos.1,
            cfg,
        ),
    decreases events.len(),
{
    if events.len() == 0 {
        let stepped = react_step(balls, next_id, ev, pos.0, pos.1, cfg);
        assert(events.push(ev)[0] == ev);
        assert(positions.push(pos)[0] == pos);
        assert(events.push(ev).drop_first() =~= Seq::<CollisionEvent>::empty());
        assert(positions.push(pos).drop_first() =~= Seq::<(i64, i64)>::empty());
        assert(react_all(balls, next_id, events.push(ev), positions.push(pos), cfg)
            == react_all(stepped.0, stepped.1, Seq::<CollisionEvent>::empty(), Seq::<(i64, i64)>::empty(), cfg));
        assert(react_all(balls, next_id, events, positions, cfg) == (balls, next_id));
        assert(react_all(stepped.0, stepped.1, Seq::<CollisionEvent>::empty(), Seq::<(i64, i64)>::empty(), cfg)
            == (stepped.0, stepped.1));
        assert(stepped == (stepped.0, stepped.1));
    } else {
        let stepped = react_step(balls, next_id, events[0], positions[0].0, positions[0].1, cfg);
        assert(events.push(ev)[0] == events[0]);
        assert(positions.push(pos)[0] == positions[0]);
        assert(events.push(ev).drop_first() =~= events.drop_first().push(ev));
        assert(positions.push(pos).drop_first() =~= positions.drop_first().push(pos));
        lemma_react_all_snoc(
            stepped.0,
            stepped.1,
            events.drop_first(),
            positions.drop_first(),
            ev,
            pos,
            cfg,
        );
    }
}

/// A collision-start event whose only involved tracked ball is ready makes
/// the reactor reset exactly that ball's cooldown to `Pending` (zero
/// accumulated time) and append exactly one new ball under the fresh
/// identifier; no other ball changes.
pub proof fn lemma_ready_collision_spawns(
    balls: Seq<Ball>,
    next_id: u64,
    ev: CollisionEvent,
    pos_x: i64,
    pos_y: i64,
    cfg: SimConfig,
    i: int,
)
    requires
        ev.started,
        0 <= i < balls.len(),
        event_involves(balls[i], ev),
        balls[i].cooldown.is_ready_spec(),
        forall|j: int|
            0 <= j < balls.len() && j != i ==> !event_involves(#[trigger] balls[j], ev),
        next_id < u64::MAX,
    ensures
        react_step(balls, next_id, ev, pos_x, pos_y, cfg).0.len() == balls.len() + 1,
        react_step(balls, next_id, ev, pos_x, pos_y, cfg).0[i] == reset_ball(balls[i]),
        react_step(balls, next_id, ev, pos_x, pos_y, cfg).0[i].cooldown.elapsed_ms == 0,
        forall|j: int|
            0 <= j < balls.len() && j != i ==> #[trigger] react_step(
                balls,
                next_id,
                ev,
                pos_x,
                pos_y,
                cfg,
            ).0[j] == balls[j],
        react_step(balls, next_id, ev, pos_x, pos_y, cfg).0[balls.len() as int] == ball_model(
            next_id,
            pos_x,
            pos_y,
            cfg,
        ),
        react_step(balls, next_id, ev, pos_x, pos_y, cfg).1 == next_id + 1,
{
    lemma_first_ready_from_witness(balls, ev, i);
}

/// A collision event none of whose involved tracked balls is ready — all
/// candidates pending, or the colliding pair involving no tracked ball at
/// all — spawns nothing and leaves every ball, and every cooldown, unchanged.
pub proof fn lemma_no_ready_candidate_no_spawn(
    balls: Seq<Ball>,
    next_id: u64,
    ev: CollisionEvent,
    pos_x: i64,
    pos_y: i64,
    cfg: SimConfig,
)
    requires
        forall|j: int|
            0 <= j < balls.len() && event_involves(#[trigger] balls[j], ev) ==> !balls[
                j
            ].cooldown.is_ready_spec(),
    ensures
        react_step(balls, next_id, ev, pos_x, pos_y, cfg).0 == balls,
        react_step(balls, next_id, ev, pos_x, pos_y, cfg).1 == next_id,
{
    if ev.started {
        assert forall|j: int| 0 <= j < balls.len() implies !qualifies(
            #[trigger] balls[j],
            ev,
        ) by {
            assert(event_involves(balls[j], ev) ==> !balls[j].cooldown.is_ready_spec());
        }
        lemma_first_ready_none(balls, ev);
    }
}

/// Two simultaneous collision-start events, matched first by two distinct
/// ready balls with positive cooldown durations, produce two new balls, one
/// per event at that event's spawn point, and each triggering ball's cooldown
/// is reset exactly once.
pub proof fn lemma_two_events_two_spawns(
    balls: Seq<Ball>,
    next_id: u64,
    ev1: CollisionEvent,
    ev2: CollisionEvent,
    p1: (i64, i64),
    p2: (i64, i64),
    cfg: SimConfig,
    i1: int,
    i2: int,
)
    requires
        ev1.started,
        ev2.started,
        first_ready_index(balls, ev1) == Some(i1),
        first_ready_index(balls, ev2) == Some(i2),
        i1 != i2,
        balls[i1].cooldown.duration_ms > 0,
        next_id + 2 <= u64::MAX,
    ensures
        react_all(balls, next_id, seq![ev1, ev2], seq![p1, p2], cfg).0.len() == balls.len() + 2,
        react_all(balls, next_id, seq![ev1, ev2], seq![p1, p2], cfg).0[i1] == reset_ball(
            balls[i1],
        ),
        react_all(balls, next_id, seq![ev1, ev2], seq![p1, p2], cfg).0[i2] == reset_ball(
            balls[i2],
        ),
        react_all(balls, next_id, seq![ev1, ev2], seq![p1, p2], cfg).0[balls.len() as int]
            == ball_model(next_id, p1.0, p1.1, cfg),
        react_all(balls, next_id, seq![ev1, ev2], seq![p1, p2], cfg).0[balls.len() as int + 1]
            == ball_model((next_id + 1) as u64, p2.0, p2.1, cfg),
        react_all(balls, next_id, seq![ev1, ev2], seq![p1, p2], cfg).1 == next_id + 2,
{
    lemma_first_ready_characterization(balls, ev1);
    lemma_first_ready_characterization(balls, ev2);
    let evs = seq![ev1, ev2];
    let ps = seq![p1, p2];
    let balls1 = balls.update(i1, reset_ball(balls[i1])).push(
        ball_model(next_id, p1.0, p1.1, cfg),
    );
    let id1 = (next_id + 1) as u64;
    assert(react_step(balls, next_id, ev1, p1.0, p1.1, cfg) == (balls1, id1));

    assert(balls1[i2] == balls[i2]);
    assert(qualifies(balls1[i2], ev2));
    assert forall|j: int| 0 <= j < i2 implies !qualifies(#[trigger] balls1[j], ev2) by {
        if j == i1 {
            assert(balls1[j] == reset_ball(balls[i1]));
            assert(balls1[j].cooldown.elapsed_ms == 0);
            assert(balls1[j].cooldown.duration_ms > 0);
        } else {
            assert(balls1[j] == balls[j]);
        }
    }
    lemma_first_ready_from_witness(balls1, ev2, i2);

    let balls2 = balls1.update(i2, reset_ball(balls1[i2])).push(ball_model(id1, p2.0, p2.1, cfg));
    let id2 = (id1 + 1) as u64;
    assert(react_step(balls1, id1, ev2, p2.0, p2.1, cfg) == (balls2, id2));

    assert(evs[0] == ev1 && ps[0] == p1);
    assert(evs.drop_first() =~= seq![ev2]);
    assert(ps.drop_first() =~= seq![p2]);
    assert(seq![ev2][0] == ev2 && seq![p2][0] == p2);
    assert(seq![ev2].drop_first() =~= Seq::<CollisionEvent>::empty());
    assert(seq![p2].drop_first() =~= Seq::<(i64, i64)>::empty());
    assert(react_all(balls, next_id, evs, ps, cfg) == react_all(
        balls1,
        id1,
        seq![ev2],
        seq![p2],
        cfg,
    ));
    assert(react_all(balls1, id1, seq![ev2], seq![p2], cfg) == react_all(
        balls2,
        id2,
        Seq::<CollisionEvent>::empty(),
        Seq::<(i64, i64)>::empty(),
        cfg,
    ));
    assert(react_all(balls, next_id, evs, ps, cfg) == (balls2, id2));

    assert(balls2[i1] == balls1[i1]);
    assert(balls2[i2] == reset_ball(balls1[i2]));
    assert(balls2[balls.len() as int] == balls1[balls.len() as int]);
}

/// The reactor never destroys a ball: every ball tracked before a tick's
/// events is still there afterwards, under the same index and identifier,
/// unchanged except that its cooldown may have been reset.
pub proof fn lemma_no_ball_destroyed(
    balls: Seq<Ball>,
    next_id: u64,
    events: Seq<CollisionEvent>,
    positions: Seq<(i64, i64)>,
    cfg: SimConfig,
)
    requires
        positions.len() == events.len(),
    ensures
        react_all(balls, next_id, events, positions, cfg).0.len() >= balls.len(),
        forall|j: int|
            0 <= j < balls.len() ==> #[trigger] react_all(
                balls,
                next_id,
                events,
                positions,
                cfg,
            ).0[j] == balls[j] || react_all(balls, next_id, events, positions, cfg).0[j]
                == reset_ball(balls[j]),
    decreases events.len(),
{
    if events.len() > 0 {
        let stepped = react_step(balls, next_id, events[0], positions[0].0, positions[0].1, cfg);
        lemma_first_ready_characterization(balls, events[0]);
        assert(stepped.0.len() >= balls.len());
        lemma_no_ball_destroyed(
            stepped.0,
            stepped.1,
            events.drop_first(),
            positions.drop_first(),
            cfg,
        );
        let fin = react_all(balls, next_id, events, positions, cfg);
        assert(fin == react_all(
            stepped.0,
            stepped.1,
            events.drop_first(),
            positions.drop_first(),
            cfg,
        ));
        assert forall|j: int|
            0 <= j < balls.len() implies #[trigger] fin.0[j] == balls[j] || fin.0[j] == reset_ball(
            balls[j],
        ) by {
            assert(stepped.0[j] == balls[j] || stepped.0[j] == reset_ball(balls[j]));
            assert(fin.0[j] == stepped.0[j] || fin.0[j] == reset_ball(stepped.0[j]));
            assert(reset_ball(reset_ball(balls[j])) == reset_ball(balls[j]));
        }
    }
}

/// A ball after one tick's cooldown advance.
pub open spec fn ball_advanced(b: Ball, delta_ms: u64) -> Ball {
    Ball { cooldown: b.cooldown.advanced_spec(delta_ms), ..b }
}

/// The ball store: every live ball with its cooldown, keyed by the stable
/// identifier under which the physics solver reports it, together with the
/// next identifier to hand out.
pub struct World {
    pub balls: Vec<Ball>,
    pub next_id: u64,
}

impl World {
    /// Every tracked ball is well formed, carries the configured cooldown
    /// duration, and has an identifier below `next_id`; identifiers are
    /// unique.
    pub open spec fn wf(self, cfg: SimConfig) -> bool {
        &&& forall|i: int| 0 <= i < self.balls@.len() ==> (#[trigger] self.balls@[i]).wf()
        &&& forall|i: int|
            0 <= i < self.balls@.len() ==> (#[trigger] self.balls@[i]).id < self.next_id
        &&& forall|i: int|
            0 <= i < self.balls@.len() ==> (#[trigger] self.balls@[i]).cooldown.duration_ms
                == cfg.cooldown_ms
        &&& forall|i: int, j: int|
            0 <= i < j < self.balls@.len() ==> (#[trigger] self.balls@[i]).id != (
            #[trigger] self.balls@[j]).id
    }

    /// An empty world: no balls yet, identifiers start at zero.
    pub fn new() -> (w: World)
        ensures
            w.balls@ == Seq::<Ball>::empty(),
            w.next_id == 0,
            forall|cfg: SimConfig| #[trigger] w.wf(cfg),
    {
        World { balls: Vec::new(), next_id: 0 }
    }

    /// Register one new ball created at the given position: it gets the next
    /// fresh identifier and a cooldown in `Pending` state with zero
    /// accumulated time.
    pub fn spawn_ball(&mut self, x: i64, y: i64, cfg: &SimConfig) -> (id: u64)
        requires
            old(self).wf(*cfg),
            old(self).next_id < u64::MAX,
        ensures
            final(self).wf(*cfg),
            id == old(self).next_id,
            final(self).balls@ == old(self).balls@.push(ball_model(id, x, y, *cfg)),
            final(self).next_id == old(self).next_id + 1,
    {
        let id = self.next_id;
        let b = make_ball(id, x, y, cfg);
        self.balls.push(b);
        self.next_id = self.next_id + 1;
        id
    }

    /// Scan the tracked balls in iteration order for the first one that is
    /// involved in the event and whose cooldown is ready.
    pub fn find_ready_match(&self, ev: &CollisionEvent) -> (r: Option<usize>)
        ensures
            match r {
                Some(i) => first_ready_index(self.balls@, *ev) == Some(i as int),
                None => first_ready_index(self.balls@, *ev) is None,
            },
    {
        let n = self.balls.len();
        let mut k: usize = 0;
        while k < n
            invariant
                k <= n,
                n == self.balls@.len(),
                forall|j: int| 0 <= j < k ==> !qualifies(#[trigger] self.balls@[j], *ev),
            decreases n - k,
        {
            let b = self.balls[k];
            if (b.id == ev.first || b.id == ev.second) && b.cooldown.is_ready() {
                proof {
                    lemma_first_ready_from_witness(self.balls@, *ev, k as int);
                }
                return Some(k);
            }
            k = k + 1;
        }
        proof {
            lemma_first_ready_none(self.balls@, *ev);
        }
        None
    }

    /// React to one collision event: on a start event, the first ball in
    /// iteration order that is involved and ready has its cooldown reset, and
    /// then (never before the reset) exactly one new ball is created at the
    /// given position; any other event leaves the world unchanged, silently.
    pub fn react_event(
        &mut self,
        ev: &CollisionEvent,
        pos_x: i64,
        pos_y: i64,
        cfg: &SimConfig,
    ) -> (spawned: bool)
        requires
            old(self).wf(*cfg),
            old(self).next_id < u64::MAX,
        ensures
            final(self).wf(*cfg),
            final(self).balls@ == react_step(
                old(self).balls@,
                old(self).next_id,
                *ev,
                pos_x,
                pos_y,
                *cfg,
            ).0,
            final(self).next_id == react_step(
                old(self).balls@,
                old(self).next_id,
                *ev,
                pos_x,
                pos_y,
                *cfg,
            ).1,
            spawned == (ev.started && first_ready_index(old(self).balls@, *ev) is Some),
            !spawned ==> final(self).balls@ == old(self).balls@ && final(self).next_id == old(
                self,
            ).next_id,
    {
        if !ev.started {
            return false;
        }
        match self.find_ready_match(ev) {
            None => false,
            Some(i) => {
                let ghost pre = self.balls@;
                proof {
                    lemma_first_ready_characterization(pre, *ev);
                }
                let mut b = self.balls[i];
                b.cooldown.reset();
                self.balls[i] = b;
                let nb = make_ball(self.next_id, pos_x, pos_y, cfg);
                self.balls.push(nb);
                self.next_id = self.next_id + 1;
                proof {
                    let s2 = self.balls@;
                    assert(s2 == pre.update(i as int, reset_ball(pre[i as int])).push(
                        ball_model(old(self).next_id, pos_x, pos_y, *cfg),
                    ));
                    assert forall|p: int| 0 <= p < s2.len() implies (#[trigger] s2[p]).wf()
                        && s2[p].id < self.next_id && s2[p].cooldown.duration_ms
                        == cfg.cooldown_ms by {
                        if p < pre.len() {
                            assert(pre[p].wf());
                            if p == i as int {
                                assert(s2[p] == reset_ball(pre[p]));
                            } else {
                                assert(s2[p] == pre[p]);
                            }
                        }
                    }
                    assert forall|p: int, q: int| 0 <= p < q < s2.len() implies (
                    #[trigger] s2[p]).id != (#[trigger] s2[q]).id by {
                        if q < pre.len() {
                            assert(s2[p].id == pre[p].id && s2[q].id == pre[q].id);
                        } else {
                            assert(s2[p].id == pre[p].id && pre[p].id < old(self).next_id);
                            assert(s2[q].id == old(self).next_id);
                        }
                    }
                }
                true
            },
        }
    }

    /// React to a whole tick's collision events in order, the spawn of event
    /// `k` (if any) placed at `spawn_points[k]`. At most one ball is spawned
    /// per event, so at most one per element of `spawn_points`; simultaneous
    /// events are processed independently and may each spawn.
    pub fn react_to_events(
        &mut self,
        events: &Vec<CollisionEvent>,
        spawn_points: &Vec<(i64, i64)>,
        cfg: &SimConfig,
    )
        requires
            old(self).wf(*cfg),
            spawn_points@.len() == events@.len(),
            old(self).next_id + events@.len() <= u64::MAX,
        ensures
            final(self).wf(*cfg),
            final(self).balls@ == react_all(
                old(self).balls@,
                old(self).next_id,
                events@,
                spawn_points@,
                *cfg,
            ).0,
            final(self).next_id == react_all(
                old(self).balls@,
                old(self).next_id,
                events@,
                spawn_points@,
                *cfg,
            ).1,
            old(self).balls@.len() <= final(self).balls@.len() <= old(self).balls@.len()
                + events@.len(),
    {
        let n = events.len();
        let mut k: usize = 0;
        while k < n
            invariant
                k <= n,
                n == events@.len(),
                spawn_points@.len() == events@.len(),
                self.wf(*cfg),
                self.balls@ == react_all(
                    old(self).balls@,
                    old(self).next_id,
                    events@.take(k as int),
                    spawn_points@.take(k as int),
                    *cfg,
                ).0,
                self.next_id == react_all(
                    old(self).balls@,
                    old(self).next_id,
                    events@.take(k as int),
                    spawn_points@.take(k as int),
                    *cfg,
                ).1,
                self.next_id + (n - k) <= u64::MAX,
                old(self).balls@.len() <= self.balls@.len() <= old(self).balls@.len() + k,
            decreases n - k,
        {
            let ev = events[k];
            let p = spawn_points[k];
            let ghost pre_balls = self.balls@;
            self.react_event(&ev, p.0, p.1, cfg);
            proof {
                lemma_first_ready_characterization(pre_balls, ev);
                lemma_react_all_snoc(
                    old(self).balls@,
                    old(self).next_id,
                    events@.take(k as int),
                    spawn_points@.take(k as int),
                    ev,
                    p,
                    *cfg,
                );
                assert(events@.take(k as int).push(ev) =~= events@.take(k as int + 1));
                assert(spawn_points@.take(k as int).push(p) =~= spawn_points@.take(k as int + 1));
            }
            k = k + 1;
        }
        proof {
            assert(events@.take(n as int) =~= events@);
            assert(spawn_points@.take(n as int) =~= spawn_points@);
        }
    }

    /// React to a whole tick's collision events, drawing the position of each
    /// potential spawn uniformly at random from the configured envelope. The
    /// drawn points are returned, one per event.
    pub fn react_to_events_random(
        &mut self,
        events: &Vec<CollisionEvent>,
        cfg: &SimConfig,
    ) -> (points: Vec<(i64, i64)>)
        requires
            old(self).wf(*cfg),
            cfg.spawn_x_min < cfg.spawn_x_max,
            cfg.spawn_y_min < cfg.spawn_y_max,
            old(self).next_id + events@.len() <= u64::MAX,
        ensures
            final(self).wf(*cfg),
            points@.len() == events@.len(),
            forall|j: int|
                0 <= j < points@.len() ==> in_envelope(
                    (#[trigger] points@[j]).0,
                    points@[j].1,
                    *cfg,
                ),
            final(self).balls@ == react_all(
                old(self).balls@,
                old(self).next_id,
                events@,
                points@,
                *cfg,
            ).0,
            final(self).next_id == react_all(
                old(self).balls@,
                old(self).next_id,
                events@,
                points@,
                *cfg,
            ).1,
            old(self).balls@.len() <= final(self).balls@.len() <= old(self).balls@.len()
                + events@.len(),
    {
        let n = events.len();
        let mut points: Vec<(i64, i64)> = Vec::new();
        let mut k: usize = 0;
        while k < n
            invariant
                k <= n,
                points@.len() == k,
                cfg.spawn_x_min < cfg.spawn_x_max,
                cfg.spawn_y_min < cfg.spawn_y_max,
                forall|j: int|
                    0 <= j < k ==> in_envelope((#[trigger] points@[j]).0, points@[j].1, *cfg),
            decreases n - k,
        {
            let p = random_spawn_point(cfg);
            points.push(p);
            k = k + 1;
        }
        self.react_to_events(events, &points, cfg);
        points
    }

    /// Advance every ball's cooldown by this tick's elapsed time. Called once
    /// per tick; the order of the per-ball advances is irrelevant, and no
    /// ball's cooldown is advanced more than once.
    pub fn advance_cooldowns(&mut self, delta_ms: u64, cfg: &SimConfig)
        requires
            old(self).wf(*cfg),
        ensures
            final(self).wf(*cfg),
            final(self).next_id == old(self).next_id,
            final(self).balls@.len() == old(self).balls@.len(),
            forall|i: int|
                0 <= i < old(self).balls@.len() ==> final(self).balls@[i] == ball_advanced(
                    #[trigger] old(self).balls@[i],
                    delta_ms,
                ),
    {
        let n = self.balls.len();
        let mut k: usize = 0;
        while k < n
            invariant
                k <= n,
                n == self.balls@.len(),
                self.balls@.len() == old(self).balls@.len(),
                self.next_id == old(self).next_id,
                old(self).wf(*cfg),
                forall|i: int|
                    0 <= i < k ==> self.balls@[i] == ball_advanced(
                        #[trigger] old(self).balls@[i],
                        delta_ms,
                    ),
                forall|i: int| k <= i < n ==> #[trigger] self.balls@[i] == old(self).balls@[i],
            decreases n - k,
        {
            let mut b = self.balls[k];
            proof {
                assert(old(self).balls@[k as int].wf());
            }
            b.cooldown.advance(delta_ms);
            self.balls[k] = b;
            k = k + 1;
        }
        proof {
            assert forall|i: int| 0 <= i < self.balls@.len() implies (#[trigger] self.balls@[i]).wf()
                && self.balls@[i].id < self.next_id && self.balls@[i].cooldown.duration_ms
                == cfg.cooldown_ms by {
                assert(self.balls@[i] == ball_advanced(old(self).balls@[i], delta_ms));
                assert(old(self).balls@[i].wf());
            }
            assert forall|i: int, j: int| 0 <= i < j < self.balls@.len() implies (
            #[trigger] self.balls@[i]).id != (#[trigger] self.balls@[j]).id by {
                assert(self.balls@[i] == ball_advanced(old(self).balls@[i], delta_ms));
                assert(self.balls@[j] == ball_advanced(old(self).balls@[j], delta_ms));
            }
        }
    }

    /// Per-tick entry point for the host scheduler: consume this tick's
    /// collision-start events, spawning at most one ball per qualifying event
    /// at a freshly drawn random position, then advance every ball's cooldown
    /// by this tick's elapsed time. Returns the drawn spawn points, one per
    /// event.
    pub fn tick(
        &mut self,
        delta_ms: u64,
        events: &Vec<CollisionEvent>,
        cfg: &SimConfig,
    ) -> (points: Vec<(i64, i64)>)
        requires
            old(self).wf(*cfg),
            cfg.spawn_x_min < cfg.spawn_x_max,
            cfg.spawn_y_min < cfg.spawn_y_max,
            old(self).next_id + events@.len() <= u64::MAX,
        ensures
            final(self).wf(*cfg),
            points@.len() == events@.len(),
            forall|j: int|
                0 <= j < points@.len() ==> in_envelope(
                    (#[trigger] points@[j]).0,
                    points@[j].1,
                    *cfg,
                ),
            final(self).next_id == react_all(
                old(self).balls@,
                old(self).next_id,
                events@,
                points@,
                *cfg,
            ).1,
            final(self).balls@.len() == react_all(
                old(self).balls@,
                old(self).next_id,
                events@,
                points@,
                *cfg,
            ).0.len(),
            forall|i: int|
                0 <= i < final(self).balls@.len() ==> final(self).balls@[i] == ball_advanced(
                    #[trigger] react_all(
                        old(self).balls@,
                        old(self).next_id,
                        events@,
                        points@,
                        *cfg,
                    ).0[i],
                    delta_ms,
                ),
    {
        let points = self.react_to_events_random(events, cfg);
        self.advance_cooldowns(delta_ms, cfg);
        points
    }
}

} // verus!

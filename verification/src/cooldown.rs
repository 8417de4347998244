use vstd::prelude::*;

verus! {

/// One-shot countdown gating how often a ball may trigger a spawn.
///
/// The cooldown accumulates elapsed simulation time, saturating at its
/// duration; it is `Ready` once the full duration has accumulated and stays
/// so until it is reset. Times are in milliseconds.
#[derive(Clone, Copy, PartialEq, Eq, Structural, Debug)]
pub struct Cooldown {
    pub duration_ms: u64,
    pub elapsed_ms: u64,
}

impl Cooldown {
    /// Advances saturate, so the accumulated time never exceeds the duration.
    pub open spec fn wf(self) -> bool {
        self.elapsed_ms <= self.duration_ms
    }

    /// `Ready` exactly when the full duration has accumulated; otherwise the
    /// cooldown is `Pending`.
    pub open spec fn is_ready_spec(self) -> bool {
        self.elapsed_ms >= self.duration_ms
    }

    /// A freshly created (or just reset) cooldown: nothing accumulated yet.
    pub open spec fn fresh_spec(duration_ms: u64) -> Cooldown {
        Cooldown { duration_ms, elapsed_ms: 0 }
    }

    /// Value after one advance by `delta_ms`: accumulate, saturating at the
    /// duration.
    pub open spec fn advanced_spec(self, delta_ms: u64) -> Cooldown {
        Cooldown {
            duration_ms: self.duration_ms,
            elapsed_ms: if self.elapsed_ms + delta_ms >= self.duration_ms {
                self.duration_ms
            } else {
                (self.elapsed_ms + delta_ms) as u64
            },
        }
    }

    /// Value after a whole sequence of advances, first delta first.
    pub open spec fn advanced_all_spec(self, deltas: Seq<u64>) -> Cooldown
        decreases deltas.len(),
    {
        if deltas.len() == 0 {
            self
        } else {
            self.advanced_spec(deltas[0]).advanced_all_spec(deltas.drop_first())
        }
    }

    /// Create a cooldown that has to run for `duration_ms` before it is ready.
    pub fn new(duration_ms: u64) -> (c: Cooldown)
        ensures
            c == Cooldown::fresh_spec(duration_ms),
            c.wf(),
            duration_ms > 0 ==> !c.is_ready_spec(),
    {
        Cooldown { duration_ms, elapsed_ms: 0 }
    }

    /// Accumulate `delta_ms` of elapsed simulation time, saturating at the
    /// duration. Called once per simulation tick with that tick's delta.
    pub fn advance(&mut self, delta_ms: u64)
        requires
            old(self).wf(),
        ensures
            *final(self) == old(self).advanced_spec(delta_ms),
            final(self).wf(),
    {
        if delta_ms >= self.duration_ms - self.elapsed_ms {
            self.elapsed_ms = self.duration_ms;
        } else {
            self.elapsed_ms = self.elapsed_ms + delta_ms;
        }
    }

    /// Whether the full duration has accumulated since creation or the last
    /// reset.
    pub fn is_ready(&self) -> (r: bool)
        ensures
            r == self.is_ready_spec(),
    {
        self.elapsed_ms >= self.duration_ms
    }

    /// Start the countdown over: back to `Pending` with nothing accumulated.
    pub fn reset(&mut self)
        ensures
            *final(self) == Cooldown::fresh_spec(old(self).duration_ms),
            final(self).wf(),
    {
        self.elapsed_ms = 0;
    }
}

/// Total of a sequence of advance deltas, as an unbounded integer.
pub open spec fn sum_deltas(deltas: Seq<u64>) -> int
    decreases deltas.len(),
{
    if deltas.len() == 0 {
        0
    } else {
        deltas[0] + sum_deltas(deltas.drop_first())
    }
}

/// After any sequence of advances, the accumulated time is the sum of the
/// deltas, capped at the duration; the duration itself never changes.
pub proof fn lemma_advanced_all_elapsed(c: Cooldown, deltas: Seq<u64>)
    requires
        c.wf(),
    ensures
        c.advanced_all_spec(deltas).duration_ms == c.duration_ms,
        c.advanced_all_spec(deltas).wf(),
        c.advanced_all_spec(deltas).elapsed_ms == if c.elapsed_ms + sum_deltas(deltas)
            >= c.duration_ms {
            c.duration_ms as int
        } else {
            c.elapsed_ms + sum_deltas(deltas)
        },
    decreases deltas.len(),
{
    if deltas.len() > 0 {
        lemma_sum_deltas_nonneg(deltas.drop_first());
        lemma_advanced_all_elapsed(c.advanced_spec(deltas[0]), deltas.drop_first());
    }
}

/// Every delta is a `u64`, so a sum of deltas is never negative.
pub proof fn lemma_sum_deltas_nonneg(deltas: Seq<u64>)
    ensures
        sum_deltas(deltas) >= 0,
    decreases deltas.len(),
{
    if deltas.len() > 0 {
        lemma_sum_deltas_nonneg(deltas.drop_first());
    }
}

/// A cooldown created fresh (or just reset) and then advanced by a sequence
/// of deltas is `Ready` exactly when the deltas sum to at least the duration.
pub proof fn lemma_ready_iff_accumulated(duration_ms: u64, deltas: Seq<u64>)
    ensures
        Cooldown::fresh_spec(duration_ms).advanced_all_spec(deltas).is_ready_spec()
            <==> sum_deltas(deltas) >= duration_ms,
{
    lemma_advanced_all_elapsed(Cooldown::fresh_spec(duration_ms), deltas);
}

} // verus!

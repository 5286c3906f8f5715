//! The most recent metrics that the webhook receiver has been sent, at most
//! [`HISTORY_CAPACITY`] of them.

use vstd::prelude::*;

verus! {

/// How many metrics the history keeps.
pub const HISTORY_CAPACITY: usize = 20;

/// The last `HISTORY_CAPACITY` items of `s`, or all of `s` if it is shorter.
pub open spec fn latest_of<T>(s: Seq<T>) -> Seq<T> {
    if s.len() > HISTORY_CAPACITY {
        s.subrange(s.len() - HISTORY_CAPACITY, s.len() as int)
    } else {
        s
    }
}

/// The metrics received, oldest first, the oldest dropped once there are
/// more than [`HISTORY_CAPACITY`].
pub struct MetricHistory<T> {
    metrics: Vec<T>,
}

impl<T> View for MetricHistory<T> {
    type V = Seq<T>;

    closed spec fn view(&self) -> Seq<T> {
        self.metrics@
    }
}

impl<T> MetricHistory<T> {
    #[verifier::type_invariant]
    spec fn within_capacity(self) -> bool {
        self.metrics@.len() <= HISTORY_CAPACITY
    }

    /// An empty history.
    pub fn new() -> (r: Self)
        ensures
            r@ == Seq::<T>::empty(),
    {
        MetricHistory { metrics: Vec::new() }
    }

    /// Records a metric: once the history is full, the oldest one leaves.
    pub fn add_metric(&mut self, metric: T)
        ensures
            final(self)@ == latest_of(old(self)@.push(metric)),
    {
        proof {
            use_type_invariant(&*self);
        }
        let mut metrics = Vec::new();
        std::mem::swap(&mut metrics, &mut self.metrics);
        if metrics.len() >= HISTORY_CAPACITY {
            metrics.remove(0);
        }
        metrics.push(metric);
        proof {
            let s = old(self)@.push(metric);
            if s.len() > HISTORY_CAPACITY {
                assert(metrics@ =~= s.subrange(s.len() - HISTORY_CAPACITY, s.len() as int));
            }
        }
        self.metrics = metrics;
    }

    /// The most recently recorded metric, if any.
    pub fn latest(&self) -> (r: Option<&T>)
        ensures
            self@.len() == 0 ==> r is None,
            self@.len() > 0 ==> r == Some(&self@.last()),
    {
        let n = self.metrics.len();
        if n == 0 {
            None
        } else {
            Some(&self.metrics[n - 1])
        }
    }

    /// All recorded metrics, oldest first.
    pub fn metrics(&self) -> (r: &[T])
        ensures
            r@ == self@,
    {
        self.metrics.as_slice()
    }

    /// How many metrics are recorded.
    pub fn len(&self) -> (r: usize)
        ensures
            r == self@.len(),
            r <= HISTORY_CAPACITY,
    {
        proof {
            use_type_invariant(self);
        }
        self.metrics.len()
    }
}

/// The history after the metrics `xs` are recorded in order, starting from
/// the history `s`.
pub open spec fn metrics_recorded<T>(s: Seq<T>, xs: Seq<T>) -> Seq<T>
    decreases xs.len(),
{
    if xs.len() == 0 {
        s
    } else {
        latest_of(metrics_recorded(s, xs.drop_last()).push(xs.last()))
    }
}

/// Dropping the oldest items before recording one more gives what recording
/// it and then dropping gives.
proof fn lemma_latest_of_push<T>(s: Seq<T>, x: T)
    ensures
        latest_of(latest_of(s).push(x)) == latest_of(s.push(x)),
{
    let t = s.push(x);
    if s.len() > HISTORY_CAPACITY {
        let l = latest_of(s).push(x);
        assert(latest_of(l) =~= latest_of(t));
    }
}

/// Whatever metrics are recorded, the history holds the most recent
/// [`HISTORY_CAPACITY`] of all that it held and was sent, in the order they
/// came, and never more than that many.
pub proof fn lemma_history_holds_latest<T>(s: Seq<T>, xs: Seq<T>)
    requires
        s.len() <= HISTORY_CAPACITY,
    ensures
        metrics_recorded(s, xs) == latest_of(s + xs),
        metrics_recorded(s, xs).len() <= HISTORY_CAPACITY,
    decreases xs.len(),
{
    if xs.len() == 0 {
        assert(s + xs =~= s);
    } else {
        lemma_history_holds_latest(s, xs.drop_last());
        lemma_latest_of_push(s + xs.drop_last(), xs.last());
        assert((s + xs.drop_last()).push(xs.last()) =~= s + xs);
    }
}

} // verus!

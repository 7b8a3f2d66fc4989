//! Observations on their way from the scans of an execution to its end.

use vstd::prelude::*;

use crate::contracts::{StatisticsObservation, StatisticsObservationView};

verus! {

/// The observations of one execution, in the order in which they were made.
#[derive(Debug)]
pub struct StatisticsObservationSink {
    inner: Vec<StatisticsObservation>,
}

impl View for StatisticsObservationSink {
    type V = Seq<StatisticsObservationView>;

    closed spec fn view(&self) -> Seq<StatisticsObservationView> {
        crate::contracts::observations(self.inner@)
    }
}

impl Default for StatisticsObservationSink {
    /// A sink without observations.
    fn default() -> (sink: Self)
        ensures
            sink@ == Seq::<StatisticsObservationView>::empty(),
    {
        let sink = StatisticsObservationSink { inner: Vec::new() };
        assert(sink@ =~= Seq::<StatisticsObservationView>::empty());
        sink
    }
}

impl StatisticsObservationSink {
    /// Adds an observation.
    pub fn observe(&mut self, observation: StatisticsObservation)
        ensures
            final(self)@ == old(self)@.push(observation@),
    {
        self.inner.push(observation);
        assert(self@ =~= old(self)@.push(observation@));
    }

    /// Takes all observations out.
    pub fn drain(&mut self) -> (drained: Vec<StatisticsObservation>)
        ensures
            crate::contracts::observations(drained@) == old(self)@,
            final(self)@ == Seq::<StatisticsObservationView>::empty(),
    {
        let mut drained: Vec<StatisticsObservation> = Vec::new();
        std::mem::swap(&mut drained, &mut self.inner);
        assert(self@ =~= Seq::<StatisticsObservationView>::empty());
        drained
    }
}

/// What a sink holds after observations, one by one.
pub open spec fn after_observing(
    before: Seq<StatisticsObservationView>,
    observed: Seq<StatisticsObservationView>,
) -> Seq<StatisticsObservationView>
    decreases observed.len(),
{
    if observed.len() == 0 {
        before
    } else {
        after_observing(before, observed.drop_last()).push(observed.last())
    }
}

/// What was observed since a sink was made or drained comes out once, all of it, in order.
pub proof fn observations_come_out_in_order(
    before: Seq<StatisticsObservationView>,
    observed: Seq<StatisticsObservationView>,
)
    ensures
        after_observing(before, observed) == before + observed,
        after_observing(Seq::empty(), observed) == observed,
    decreases observed.len(),
{
    if observed.len() > 0 {
        observations_come_out_in_order(before, observed.drop_last());
        assert(observed =~= observed.drop_last().push(observed.last()));
    }
    assert(after_observing(before, observed) =~= before + observed);
    assert(after_observing(Seq::empty(), observed) =~= observed);
}

/// Adds an observation to a sink that is shared behind a lock. Where the lock could not be taken the
/// observation is discarded. Says whether it was kept.
pub fn observe_locked(
    lock: Option<&mut StatisticsObservationSink>,
    observation: StatisticsObservation,
) -> (kept: bool)
    ensures
        match lock {
            Some(sink) => kept && final(sink)@ == sink@.push(observation@),
            None => !kept,
        },
{
    match lock {
        Some(sink) => {
            sink.observe(observation);
            true
        },
        None => false,
    }
}

/// Takes all observations out of a sink that is shared behind a lock. Where the lock could not be
/// taken there are none.
pub fn drain_locked(lock: Option<&mut StatisticsObservationSink>) -> (drained: Vec<
    StatisticsObservation,
>)
    ensures
        match lock {
            Some(sink) => {
                &&& crate::contracts::observations(drained@) == sink@
                &&& final(sink)@ == Seq::<StatisticsObservationView>::empty()
            },
            None => drained@.len() == 0,
        },
{
    match lock {
        Some(sink) => sink.drain(),
        None => Vec::new(),
    }
}

/// What the scans of an execution share.
#[derive(Debug)]
pub struct RuntimeStatisticsContext {
    pub sink: StatisticsObservationSink,
}

impl Default for RuntimeStatisticsContext {
    /// A context with a sink of its own.
    fn default() -> (context: Self)
        ensures
            context.sink@ == Seq::<StatisticsObservationView>::empty(),
    {
        RuntimeStatisticsContext { sink: StatisticsObservationSink::default() }
    }
}

impl RuntimeStatisticsContext {
    /// A context whose scans report to a sink.
    pub fn new(sink: StatisticsObservationSink) -> (context: RuntimeStatisticsContext)
        ensures
            context.sink == sink,
    {
        RuntimeStatisticsContext { sink }
    }
}

} // verus!

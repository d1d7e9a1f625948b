//! What is known of one diagnostic: what the host reports of it on an update,
//! and the bounded history that the visualizer keeps of it.

use crate::filter::DiagnosticId;
use crate::format::Formatter;
use crate::sample::Sample;
use std::collections::VecDeque;
use vstd::prelude::*;

verus! {

broadcast use vstd::std_specs::vecdeque::group_vec_dequeue_axioms;

/// Largest number of measurements kept for one diagnostic.
pub const HISTORY_CAPACITY: usize = 100;

/// What the host reports of one diagnostic on an update.
#[derive(Debug, PartialEq, Eq)]
pub struct Diagnostic {
    /// The identifier of the diagnostic.
    pub id: DiagnosticId,
    /// The name under which the diagnostic is shown.
    pub name: String,
    /// Whether the diagnostic is switched on.
    pub is_enabled: bool,
    /// The current measurement, where the diagnostic has one.
    pub average: Option<Sample>,
}

impl Clone for Diagnostic {
    fn clone(&self) -> (copy: Diagnostic)
        ensures
            copy == *self,
    {
        Diagnostic {
            id: self.id,
            name: self.name.clone(),
            is_enabled: self.is_enabled,
            average: self.average,
        }
    }
}

/// The most recent measurements of a sequence: all of them where they are at
/// most [`HISTORY_CAPACITY`], and else the last [`HISTORY_CAPACITY`] in their
/// order.
pub open spec fn recent(samples: Seq<Sample>) -> Seq<Sample> {
    if samples.len() <= HISTORY_CAPACITY {
        samples
    } else {
        samples.subrange(samples.len() - HISTORY_CAPACITY, samples.len() as int)
    }
}

/// A history after one more measurement was taken.
pub open spec fn appended(history: Seq<Sample>, sample: Sample) -> Seq<Sample> {
    recent(history.push(sample))
}

/// A history after the measurements `samples` were taken, one by one.
pub open spec fn appended_all(history: Seq<Sample>, samples: Seq<Sample>) -> Seq<Sample>
    decreases samples.len(),
{
    if samples.len() == 0 {
        history
    } else {
        appended(appended_all(history, samples.drop_last()), samples.last())
    }
}

/// The most recent measurements are never more than [`HISTORY_CAPACITY`].
pub proof fn lemma_recent_bounded(samples: Seq<Sample>)
    ensures
        recent(samples).len() <= HISTORY_CAPACITY,
        recent(samples).len() == if samples.len() <= HISTORY_CAPACITY {
            samples.len()
        } else {
            HISTORY_CAPACITY as nat
        },
{
}

/// One more measurement on a full history drops the oldest one and keeps the
/// others in their order; on a history that is not full it drops nothing.
pub proof fn lemma_appended_evicts_oldest(history: Seq<Sample>, sample: Sample)
    requires
        history.len() <= HISTORY_CAPACITY,
    ensures
        appended(history, sample).len() <= HISTORY_CAPACITY,
        history.len() < HISTORY_CAPACITY ==> appended(history, sample) == history.push(sample),
        history.len() == HISTORY_CAPACITY ==> appended(history, sample) == history.subrange(
            1,
            history.len() as int,
        ).push(sample),
{
    if history.len() == HISTORY_CAPACITY {
        assert(appended(history, sample) =~= history.subrange(1, history.len() as int).push(sample));
    }
}

/// Whatever measurements are taken, starting from nothing, the history holds
/// the most recent of them in their order, and never more than
/// [`HISTORY_CAPACITY`].
pub proof fn lemma_appended_all_is_recent(samples: Seq<Sample>)
    ensures
        appended_all(Seq::empty(), samples) == recent(samples),
        appended_all(Seq::empty(), samples).len() <= HISTORY_CAPACITY,
    decreases samples.len(),
{
    if samples.len() == 0 {
        assert(recent(samples) =~= Seq::<Sample>::empty());
    } else {
        let before = samples.drop_last();
        lemma_appended_all_is_recent(before);
        assert(before.push(samples.last()) =~= samples);
        assert(recent(recent(before).push(samples.last())) =~= recent(samples));
    }
}

/// The mathematical content of the state kept of one diagnostic.
pub ghost struct Series {
    /// The name under which the diagnostic is shown.
    pub name: String,
    /// The text form of its measurements.
    pub formatter: Formatter,
    /// Its history, oldest measurement first.
    pub history: Seq<Sample>,
}

impl Series {
    /// Whether the history respects the bound.
    pub open spec fn wf(self) -> bool {
        self.history.len() <= HISTORY_CAPACITY
    }

    /// The series after an update on which the diagnostic reported `average`:
    /// a measurement is taken where there is one.
    pub open spec fn observe(self, average: Option<Sample>) -> Series {
        match average {
            Some(sample) => Series { history: appended(self.history, sample), ..self },
            None => self,
        }
    }
}

/// The state kept of one diagnostic: its name, the text form of its
/// measurements and its history, which holds at most [`HISTORY_CAPACITY`]
/// measurements, oldest first.
#[derive(Debug)]
pub struct DiagnosticState {
    name: String,
    formatter: Formatter,
    measurements: VecDeque<Sample>,
}

impl View for DiagnosticState {
    type V = Series;

    closed spec fn view(&self) -> Series {
        Series { name: self.name, formatter: self.formatter, history: self.measurements@ }
    }
}

impl DiagnosticState {
    #[verifier::type_invariant]
    spec fn well_formed(self) -> bool {
        self.measurements@.len() <= HISTORY_CAPACITY
    }

    /// The state of a diagnostic that is seen for the first time: it takes
    /// the diagnostic's name and the given text form, and its history is
    /// empty.
    pub fn new(diagnostic: &Diagnostic, formatter: Formatter) -> (state: DiagnosticState)
        ensures
            state@ == (Series { name: diagnostic.name, formatter, history: Seq::empty() }),
            state@.wf(),
    {
        DiagnosticState {
            name: diagnostic.name.clone(),
            formatter,
            measurements: VecDeque::new(),
        }
    }

    /// The name under which the diagnostic is shown.
    pub fn name(&self) -> (name: &String)
        ensures
            *name == self@.name,
    {
        &self.name
    }

    /// The text form of the measurements.
    pub fn formatter(&self) -> (formatter: &Formatter)
        ensures
            *formatter == self@.formatter,
    {
        &self.formatter
    }

    /// The number of measurements in the history.
    pub fn len(&self) -> (len: usize)
        ensures
            len == self@.history.len(),
            len <= HISTORY_CAPACITY,
    {
        proof {
            use_type_invariant(self);
        }
        self.measurements.len()
    }

    /// The history, oldest measurement first.
    pub fn measurements(&self) -> (values: Vec<Sample>)
        ensures
            values@ == self@.history,
            self@.wf(),
    {
        proof {
            use_type_invariant(self);
        }
        let mut values: Vec<Sample> = Vec::new();
        let mut i: usize = 0;
        while i < self.measurements.len()
            invariant
                0 <= i <= self.measurements@.len(),
                values@ == self.measurements@.subrange(0, i as int),
            decreases self.measurements@.len() - i,
        {
            values.push(self.measurements[i]);
            assert(values@ =~= self.measurements@.subrange(0, i + 1));
            i += 1;
        }
        assert(values@ =~= self.measurements@);
        values
    }
}

/// Takes the diagnostic's current measurement into the history, where it has
/// one, and drops the oldest measurement where the history would grow beyond
/// [`HISTORY_CAPACITY`].
pub fn track_diagnostic(diagnostic: &Diagnostic, state: &mut DiagnosticState)
    ensures
        final(state)@ == old(state)@.observe(diagnostic.average),
        final(state)@.wf(),
{
    proof {
        use_type_invariant(&*state);
    }
    if let Some(last) = diagnostic.average {
        // The history is taken out while it changes: what the state holds
        // respects the bound at every step.
        let mut measurements: VecDeque<Sample> = VecDeque::new();
        std::mem::swap(&mut state.measurements, &mut measurements);
        measurements.push_back(last);
        if measurements.len() > HISTORY_CAPACITY {
            measurements.pop_front();
        }
        assert(measurements@ =~= appended(old(state).measurements@, last));
        state.measurements = measurements;
    }
}

} // verus!

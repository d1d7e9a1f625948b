//! The sampling store: the state of the visualizer and what an update of the
//! host does to it.

use crate::filter::{DiagnosticId, DiagnosticIds, Filter};
use crate::format::{resolve_formatter, resolved, FormatRule, Formatter};
use crate::state::{track_diagnostic, Diagnostic, DiagnosticState, Series};
use crate::style::Style;
use crate::timer::{carried_over, comes_due, TickTimer};
use std::collections::HashMap;
use vstd::prelude::*;
use vstd::std_specs::iter::IteratorSpec;

verus! {

broadcast use vstd::std_specs::hash::group_hash_axioms;

/// Whether one of the first `n` reports is of the diagnostic `id` and says
/// that it is switched on.
pub open spec fn reported_within(diagnostics: Seq<Diagnostic>, n: int, id: u128) -> bool {
    exists|i: int|
        0 <= i < n && i < diagnostics.len() && (#[trigger] diagnostics[i]).id.0 == id
            && diagnostics[i].is_enabled
}

/// Whether the diagnostic `id` is to be tracked: the host reports it as
/// switched on, and it passes the filter.
pub open spec fn eligible(filter: Filter, diagnostics: Seq<Diagnostic>, id: u128) -> bool {
    filter.admits(id) && reported_within(diagnostics, diagnostics.len() as int, id)
}

/// What is left of the tracked series once those are dropped whose diagnostic
/// the host no longer reports, has switched off, or the filter rules out.
pub open spec fn retained(
    filter: Filter,
    series: Map<u128, Series>,
    diagnostics: Seq<Diagnostic>,
) -> Map<u128, Series> {
    series.restrict(Set::new(|id: u128| eligible(filter, diagnostics, id)))
}

/// The series with which a diagnostic starts: its name, the text form that
/// the rules give it, and an empty history.
pub open spec fn fresh(rules: Seq<FormatRule>, fallback: Formatter, diagnostic: Diagnostic) -> Series {
    Series {
        name: diagnostic.name,
        formatter: resolved(rules, fallback, diagnostic.id.0),
        history: Seq::empty(),
    }
}

/// The tracked series after one report was sampled. A report of a diagnostic
/// that is switched off or that the filter rules out changes nothing. Any
/// other report makes sure that its diagnostic is tracked, and adds the
/// measurement to its history where the report holds one.
pub open spec fn sampled_one(
    filter: Filter,
    rules: Seq<FormatRule>,
    fallback: Formatter,
    series: Map<u128, Series>,
    diagnostic: Diagnostic,
) -> Map<u128, Series> {
    let id = diagnostic.id.0;
    if diagnostic.is_enabled && filter.admits(id) {
        let before = if series.contains_key(id) {
            series[id]
        } else {
            fresh(rules, fallback, diagnostic)
        };
        series.insert(id, before.observe(diagnostic.average))
    } else {
        series
    }
}

/// The tracked series after the reports were sampled, one by one in their
/// order.
pub open spec fn sampled(
    filter: Filter,
    rules: Seq<FormatRule>,
    fallback: Formatter,
    series: Map<u128, Series>,
    diagnostics: Seq<Diagnostic>,
) -> Map<u128, Series>
    decreases diagnostics.len(),
{
    if diagnostics.len() == 0 {
        series
    } else {
        sampled_one(
            filter,
            rules,
            fallback,
            sampled(filter, rules, fallback, series, diagnostics.drop_last()),
            diagnostics.last(),
        )
    }
}

/// Whether every series respects the bound on its history.
pub open spec fn all_wf(series: Map<u128, Series>) -> bool {
    forall|id: u128| #[trigger] series.contains_key(id) ==> series[id].wf()
}

/// The mathematical content of the state of the visualizer.
pub ghost struct Visualizer {
    /// The sampling interval, in nanoseconds.
    pub interval: nat,
    /// The time since the last sampling, in nanoseconds.
    pub elapsed: nat,
    /// The filter.
    pub filter: Filter,
    /// The rules that give diagnostics their text form, first match first.
    pub rules: Seq<FormatRule>,
    /// The text form of the diagnostics of which no rule speaks.
    pub fallback: Formatter,
    /// The tracked series, by the identifier of their diagnostic.
    pub series: Map<u128, Series>,
    /// Whether the window that shows the charts is open.
    pub is_open: bool,
    /// The look of the charts.
    pub style: Style,
}

impl Visualizer {
    /// Whether the state is valid: the time since the last sampling is below
    /// the interval (or both are zero), and every history respects its bound.
    pub open spec fn wf(self) -> bool {
        &&& if self.interval == 0 {
            self.elapsed == 0
        } else {
            self.elapsed < self.interval
        }
        &&& all_wf(self.series)
    }

    /// Whether an update after `delta` nanoseconds samples.
    pub open spec fn samples_on(self, delta: nat) -> bool {
        comes_due(self.interval, self.elapsed, delta)
    }

    /// The state after an update of the host: `delta` nanoseconds have
    /// passed, and `diagnostics` is what the host reports.
    ///
    /// Series that are not to be tracked any more are dropped on every
    /// update. The reports are sampled only when the interval has elapsed
    /// since the last sampling.
    pub open spec fn update(self, delta: nat, diagnostics: Seq<Diagnostic>) -> Visualizer {
        let kept = retained(self.filter, self.series, diagnostics);
        Visualizer {
            elapsed: carried_over(self.interval, self.elapsed, delta),
            series: if self.samples_on(delta) {
                sampled(self.filter, self.rules, self.fallback, kept, diagnostics)
            } else {
                kept
            },
            ..self
        }
    }
}

/// Sampling one report keeps every history within its bound.
pub proof fn lemma_sampled_one_wf(
    filter: Filter,
    rules: Seq<FormatRule>,
    fallback: Formatter,
    series: Map<u128, Series>,
    diagnostic: Diagnostic,
)
    requires
        all_wf(series),
    ensures
        all_wf(sampled_one(filter, rules, fallback, series, diagnostic)),
{
    let id = diagnostic.id.0;
    if diagnostic.is_enabled && filter.admits(id) {
        let before = if series.contains_key(id) {
            series[id]
        } else {
            fresh(rules, fallback, diagnostic)
        };
        assert(before.wf());
        assert(before.observe(diagnostic.average).wf());
    }
}

/// Sampling touches only what the reports speak of: afterwards a diagnostic
/// is tracked exactly if it was tracked before or is eligible, and the series
/// of a diagnostic that is not eligible is what it was.
pub proof fn lemma_sampled_domain(
    filter: Filter,
    rules: Seq<FormatRule>,
    fallback: Formatter,
    series: Map<u128, Series>,
    diagnostics: Seq<Diagnostic>,
    id: u128,
)
    ensures
        sampled(filter, rules, fallback, series, diagnostics).contains_key(id) <==> (
        series.contains_key(id) || eligible(filter, diagnostics, id)),
        !eligible(filter, diagnostics, id) && series.contains_key(id) ==> sampled(
            filter,
            rules,
            fallback,
            series,
            diagnostics,
        )[id] == series[id],
    decreases diagnostics.len(),
{
    if diagnostics.len() > 0 {
        let before = diagnostics.drop_last();
        let last = diagnostics.last();
        lemma_sampled_domain(filter, rules, fallback, series, before, id);
        if eligible(filter, before, id) {
            let i = choose|i: int|
                0 <= i < before.len() && i < before.len() && (#[trigger] before[i]).id.0 == id
                    && before[i].is_enabled;
            assert(diagnostics[i] == before[i]);
        }
        if last.id.0 == id && last.is_enabled && filter.admits(id) {
            assert(diagnostics[diagnostics.len() - 1] == last);
        }
        if eligible(filter, diagnostics, id) {
            let i = choose|i: int|
                0 <= i < diagnostics.len() && i < diagnostics.len() && (
                #[trigger] diagnostics[i]).id.0 == id && diagnostics[i].is_enabled;
            if i < before.len() {
                assert(before[i] == diagnostics[i]);
            }
        }
    }
}

/// Sampling all reports keeps every history within its bound.
pub proof fn lemma_sampled_wf(
    filter: Filter,
    rules: Seq<FormatRule>,
    fallback: Formatter,
    series: Map<u128, Series>,
    diagnostics: Seq<Diagnostic>,
)
    requires
        all_wf(series),
    ensures
        all_wf(sampled(filter, rules, fallback, series, diagnostics)),
    decreases diagnostics.len(),
{
    if diagnostics.len() > 0 {
        lemma_sampled_wf(filter, rules, fallback, series, diagnostics.drop_last());
        lemma_sampled_one_wf(
            filter,
            rules,
            fallback,
            sampled(filter, rules, fallback, series, diagnostics.drop_last()),
            diagnostics.last(),
        );
    }
}

/// An update leaves a valid state valid: in particular no history ever holds
/// more than its bound.
pub proof fn lemma_update_wf(state: Visualizer, delta: nat, diagnostics: Seq<Diagnostic>)
    requires
        state.wf(),
    ensures
        state.update(delta, diagnostics).wf(),
{
    crate::timer::lemma_tick_cases(state.interval, state.elapsed, delta);
    let kept = retained(state.filter, state.series, diagnostics);
    assert(all_wf(kept));
    lemma_sampled_wf(state.filter, state.rules, state.fallback, kept, diagnostics);
}

/// An update before the interval has elapsed samples nothing: no series
/// appears, and the series that stay are what they were, history included.
/// So a history changes, and a series appears, only on an update at which the
/// time since the last sampling has reached the interval.
pub proof fn lemma_update_below_interval(
    state: Visualizer,
    delta: nat,
    diagnostics: Seq<Diagnostic>,
)
    requires
        state.elapsed + delta < state.interval,
    ensures
        !state.samples_on(delta),
        state.update(delta, diagnostics).elapsed == state.elapsed + delta,
        state.update(delta, diagnostics).series == retained(
            state.filter,
            state.series,
            diagnostics,
        ),
        forall|id: u128| #[trigger]
            state.update(delta, diagnostics).series.contains_key(id) ==> state.series.contains_key(
                id,
            ) && state.update(delta, diagnostics).series[id] == state.series[id],
{
    assert((state.elapsed + delta) % state.interval == state.elapsed + delta) by (nonlinear_arith)
        requires
            0 <= state.elapsed + delta < state.interval,
    ;
}

/// After any update, a diagnostic is tracked only if the host reports it as
/// switched on and the filter passes it. One that the host stopped reporting,
/// that was switched off, or that the filter rules out is gone after the very
/// next update, whether that update samples or not.
pub proof fn lemma_update_drops_stale(
    state: Visualizer,
    delta: nat,
    diagnostics: Seq<Diagnostic>,
    id: u128,
)
    requires
        !eligible(state.filter, diagnostics, id),
    ensures
        !state.update(delta, diagnostics).series.contains_key(id),
{
    let kept = retained(state.filter, state.series, diagnostics);
    lemma_sampled_domain(state.filter, state.rules, state.fallback, kept, diagnostics, id);
}

/// After an update that samples, the tracked diagnostics are exactly the
/// eligible ones; after one that does not, they are the eligible ones among
/// those tracked before.
pub proof fn lemma_update_tracks(
    state: Visualizer,
    delta: nat,
    diagnostics: Seq<Diagnostic>,
    id: u128,
)
    ensures
        state.samples_on(delta) ==> (state.update(delta, diagnostics).series.contains_key(id)
            <==> eligible(state.filter, diagnostics, id)),
        !state.samples_on(delta) ==> (state.update(delta, diagnostics).series.contains_key(id)
            <==> eligible(state.filter, diagnostics, id) && state.series.contains_key(id)),
{
    let kept = retained(state.filter, state.series, diagnostics);
    lemma_sampled_domain(state.filter, state.rules, state.fallback, kept, diagnostics, id);
}

/// The series that a map of diagnostic states stands for.
pub open spec fn series_of(states: Map<u128, DiagnosticState>) -> Map<u128, Series> {
    states.map_values(|state: DiagnosticState| state@)
}

/// The state of the visualizer: the timer that paces the sampling, the
/// filter, the rules for the text forms, the state of every tracked
/// diagnostic, whether the window is open, and the look of the charts.
pub struct DiagnosticVisualizerState {
    timer: TickTimer,
    filter: DiagnosticIds,
    rules: Vec<FormatRule>,
    fallback: Formatter,
    diagnostic_states: HashMap<u128, DiagnosticState>,
    is_open: bool,
    style: Style,
}

impl View for DiagnosticVisualizerState {
    type V = Visualizer;

    closed spec fn view(&self) -> Visualizer {
        Visualizer {
            interval: self.timer.interval(),
            elapsed: self.timer.elapsed(),
            filter: self.filter@,
            rules: self.rules@,
            fallback: self.fallback,
            series: series_of(self.diagnostic_states@),
            is_open: self.is_open,
            style: self.style,
        }
    }
}

/// Moves over, from `previous`, the states of the diagnostics that are still
/// to be tracked, and drops the others.
fn retain_reported(
    previous: HashMap<u128, DiagnosticState>,
    filter: &DiagnosticIds,
    diagnostics: &Vec<Diagnostic>,
) -> (kept: HashMap<u128, DiagnosticState>)
    requires
        all_wf(series_of(previous@)),
    ensures
        series_of(kept@) == retained(filter@, series_of(previous@), diagnostics@),
        all_wf(series_of(kept@)),
{
    let ghost before = previous@;
    let mut rest = previous;
    let mut kept: HashMap<u128, DiagnosticState> = HashMap::new();
    let mut i: usize = 0;
    while i < diagnostics.len()
        invariant
            0 <= i <= diagnostics.len(),
            forall|id: u128| #[trigger]
                kept@.contains_key(id) <==> before.contains_key(id) && filter@.admits(id)
                    && reported_within(diagnostics@, i as int, id),
            forall|id: u128| #[trigger] kept@.contains_key(id) ==> kept@[id] == before[id],
            forall|id: u128| #[trigger]
                rest@.contains_key(id) <==> before.contains_key(id) && !kept@.contains_key(id),
            forall|id: u128| #[trigger] rest@.contains_key(id) ==> rest@[id] == before[id],
        decreases diagnostics.len() - i,
    {
        let diagnostic = &diagnostics[i];
        let key: u128 = diagnostic.id.0;
        let ghost kept_before = kept@;
        let ghost rest_before = rest@;
        let wanted = diagnostic.is_enabled && filter.should_include(&diagnostic.id);
        if wanted {
            match rest.remove(&key) {
                Some(state) => {
                    kept.insert(key, state);
                },
                None => {},
            }
        }
        proof {
            let moved = wanted && rest_before.contains_key(key);
            assert(kept@ == if moved {
                kept_before.insert(key, before[key])
            } else {
                kept_before
            });
            assert(rest@ == if moved {
                rest_before.remove(key)
            } else {
                rest_before
            }) by {
                if wanted && !moved {
                    assert(rest_before.remove(key) =~= rest_before);
                }
            }
            assert forall|id: u128|
                reported_within(diagnostics@, i + 1, id) <==> reported_within(
                    diagnostics@,
                    i as int,
                    id,
                ) || (id == key && diagnostic.is_enabled) by {
                if reported_within(diagnostics@, i + 1, id) {
                    let j = choose|j: int|
                        0 <= j < i + 1 && j < diagnostics@.len() && (#[trigger] diagnostics@[j]).id.0
                            == id && diagnostics@[j].is_enabled;
                    if j < i {
                        assert(reported_within(diagnostics@, i as int, id));
                    }
                }
                if reported_within(diagnostics@, i as int, id) {
                    let j = choose|j: int|
                        0 <= j < i && j < diagnostics@.len() && (#[trigger] diagnostics@[j]).id.0
                            == id && diagnostics@[j].is_enabled;
                    assert(0 <= j < i + 1 && diagnostics@[j].is_enabled);
                }
                if id == key && diagnostic.is_enabled {
                    assert(diagnostics@[i as int].id.0 == id && diagnostics@[i as int].is_enabled);
                }
            }
            assert forall|id: u128| #[trigger]
                kept@.contains_key(id) <==> before.contains_key(id) && filter@.admits(id)
                    && reported_within(diagnostics@, i + 1, id) by {
                assert(kept_before.contains_key(id) <==> before.contains_key(id) && filter@.admits(
                    id,
                ) && reported_within(diagnostics@, i as int, id));
                assert(rest_before.contains_key(id) <==> before.contains_key(id)
                    && !kept_before.contains_key(id));
            }
            assert forall|id: u128| #[trigger]
                rest@.contains_key(id) <==> before.contains_key(id) && !kept@.contains_key(id) by {
                assert(rest_before.contains_key(id) <==> before.contains_key(id)
                    && !kept_before.contains_key(id));
            }
        }
        i += 1;
    }
    proof {
        let wanted = retained(filter@, series_of(before), diagnostics@);
        assert forall|id: u128| #[trigger]
            series_of(kept@).contains_key(id) implies series_of(kept@)[id] == wanted[id] by {
            assert(kept@.contains_key(id));
        }
        assert(series_of(kept@) =~= wanted);
    }
    kept
}

/// Samples the reports, one by one in their order.
fn sample_reported(
    kept: HashMap<u128, DiagnosticState>,
    filter: &DiagnosticIds,
    rules: &Vec<FormatRule>,
    fallback: &Formatter,
    diagnostics: &Vec<Diagnostic>,
) -> (states: HashMap<u128, DiagnosticState>)
    requires
        all_wf(series_of(kept@)),
    ensures
        series_of(states@) == sampled(
            filter@,
            rules@,
            *fallback,
            series_of(kept@),
            diagnostics@,
        ),
        all_wf(series_of(states@)),
{
    let ghost before = series_of(kept@);
    let mut states = kept;
    let mut i: usize = 0;
    assert(diagnostics@.take(0) =~= Seq::<Diagnostic>::empty());
    while i < diagnostics.len()
        invariant
            0 <= i <= diagnostics.len(),
            series_of(states@) == sampled(
                filter@,
                rules@,
                *fallback,
                before,
                diagnostics@.take(i as int),
            ),
            all_wf(series_of(states@)),
        decreases diagnostics.len() - i,
    {
        let diagnostic = &diagnostics[i];
        let ghost series_before = series_of(states@);
        proof {
            assert(diagnostics@.take(i + 1).drop_last() =~= diagnostics@.take(i as int));
            assert(diagnostics@.take(i + 1).last() == diagnostics@[i as int]);
            lemma_sampled_one_wf(filter@, rules@, *fallback, series_before, *diagnostic);
        }
        if diagnostic.is_enabled && filter.should_include(&diagnostic.id) {
            let key: u128 = diagnostic.id.0;
            let mut state = match states.remove(&key) {
                Some(state) => state,
                None => DiagnosticState::new(
                    diagnostic,
                    resolve_formatter(rules, fallback, &diagnostic.id),
                ),
            };
            track_diagnostic(diagnostic, &mut state);
            states.insert(key, state);
            assert(series_of(states@) =~= sampled_one(
                filter@,
                rules@,
                *fallback,
                series_before,
                *diagnostic,
            ));
        }
        i += 1;
    }
    assert(diagnostics@.take(diagnostics@.len() as int) =~= diagnostics@);
    states
}

impl DiagnosticVisualizerState {
    #[verifier::type_invariant]
    spec fn well_formed(self) -> bool {
        &&& self.timer.wf()
        &&& all_wf(series_of(self.diagnostic_states@))
    }

    /// The state with which the visualizer starts: nothing is tracked, no
    /// time has passed, and the window is open.
    pub fn new(
        wait_duration: u64,
        filter: DiagnosticIds,
        rules: Vec<FormatRule>,
        fallback: Formatter,
        style: Style,
    ) -> (state: DiagnosticVisualizerState)
        ensures
            state@ == (Visualizer {
                interval: wait_duration as nat,
                elapsed: 0,
                filter: filter@,
                rules: rules@,
                fallback,
                series: Map::empty(),
                is_open: true,
                style,
            }),
            state@.wf(),
    {
        let state = DiagnosticVisualizerState {
            timer: TickTimer::new(wait_duration),
            filter,
            rules,
            fallback,
            diagnostic_states: HashMap::new(),
            is_open: true,
            style,
        };
        assert(series_of(state.diagnostic_states@) =~= Map::<u128, Series>::empty());
        state
    }

    /// The sampling interval, in nanoseconds.
    pub fn wait_duration(&self) -> (nanos: u64)
        ensures
            nanos == self@.interval,
    {
        self.timer.interval_nanos()
    }

    /// The time since the last sampling, in nanoseconds.
    pub fn elapsed(&self) -> (nanos: u64)
        ensures
            nanos == self@.elapsed,
            self@.wf(),
    {
        proof {
            use_type_invariant(self);
        }
        self.timer.elapsed_nanos()
    }

    /// Whether the window that shows the charts is open.
    pub fn is_open(&self) -> (open: bool)
        ensures
            open == self@.is_open,
    {
        self.is_open
    }

    /// Opens or closes the window that shows the charts.
    pub fn set_open(&mut self, open: bool)
        ensures
            final(self)@ == (Visualizer { is_open: open, ..old(self)@ }),
    {
        proof {
            use_type_invariant(&*self);
        }
        self.is_open = open;
    }

    /// The look of the charts.
    pub fn style(&self) -> (style: Style)
        ensures
            style == self@.style,
    {
        self.style
    }

    /// Whether the diagnostic passes the filter.
    pub fn should_include(&self, diagnostic_id: &DiagnosticId) -> (included: bool)
        ensures
            included == self@.filter.admits(diagnostic_id.0),
    {
        self.filter.should_include(diagnostic_id)
    }

    /// Asks for a diagnostic: see [`Filter::include_id`]. What is tracked
    /// changes with the next update.
    pub fn include_id(&mut self, diagnostic_id: DiagnosticId)
        ensures
            final(self)@ == (Visualizer {
                filter: old(self)@.filter.include_id(diagnostic_id.0),
                ..old(self)@
            }),
    {
        proof {
            use_type_invariant(&*self);
        }
        let mut filter = DiagnosticIds::All;
        std::mem::swap(&mut self.filter, &mut filter);
        self.filter = filter.include_id(diagnostic_id);
    }

    /// Rules a diagnostic out: see [`Filter::exclude`]. What is tracked
    /// changes with the next update.
    pub fn exclude(&mut self, diagnostic_id: DiagnosticId)
        ensures
            final(self)@ == (Visualizer {
                filter: old(self)@.filter.exclude(diagnostic_id.0),
                ..old(self)@
            }),
    {
        proof {
            use_type_invariant(&*self);
        }
        let mut filter = DiagnosticIds::All;
        std::mem::swap(&mut self.filter, &mut filter);
        self.filter = filter.exclude(diagnostic_id);
    }

    /// The number of tracked diagnostics.
    pub fn len(&self) -> (len: usize)
        ensures
            len == self@.series.len(),
    {
        assert(series_of(self.diagnostic_states@).dom() =~= self.diagnostic_states@.dom());
        self.diagnostic_states.len()
    }

    /// The state of a diagnostic, where it is tracked.
    pub fn get(&self, diagnostic_id: &DiagnosticId) -> (state: Option<&DiagnosticState>)
        ensures
            state is Some <==> self@.series.contains_key(diagnostic_id.0),
            state matches Some(found) ==> found@ == self@.series[diagnostic_id.0] && found@.wf(),
    {
        proof {
            use_type_invariant(self);
        }
        let state = self.diagnostic_states.get(&diagnostic_id.0);
        proof {
            if self.diagnostic_states@.contains_key(diagnostic_id.0) {
                assert(series_of(self.diagnostic_states@).contains_key(diagnostic_id.0));
                assert(series_of(self.diagnostic_states@)[diagnostic_id.0].wf());
            }
        }
        state
    }

    /// The identifiers of the tracked diagnostics, each once, in no
    /// particular order.
    pub fn ids(&self) -> (ids: Vec<DiagnosticId>)
        ensures
            ids@.no_duplicates(),
            ids@.len() == self@.series.len(),
            forall|i: int| 0 <= i < ids@.len() ==> self@.series.contains_key((#[trigger] ids@[i]).0),
            forall|id: u128| #[trigger]
                self@.series.contains_key(id) ==> ids@.contains(DiagnosticId(id)),
    {
        let ghost keys = self.diagnostic_states.keys().remaining();
        let mut ids: Vec<DiagnosticId> = Vec::new();
        for key in it: self.diagnostic_states.keys()
            invariant
                it.seq() == keys,
                ids@.len() == it.index(),
                forall|j: int| 0 <= j < ids@.len() ==> (#[trigger] ids@[j]).0 == *keys[j],
        {
            ids.push(DiagnosticId(*key));
        }
        proof {
            assert(series_of(self.diagnostic_states@).dom() =~= self.diagnostic_states@.dom());
            assert(ids@.len() == keys.len());
            assert forall|i: int, j: int| 0 <= i < ids@.len() && 0 <= j < ids@.len() && i != j
                implies ids@[i] != ids@[j] by {
                assert(keys[i] != keys[j]);
            }
            assert forall|i: int| 0 <= i < ids@.len() implies self@.series.contains_key(
                (#[trigger] ids@[i]).0,
            ) by {
                assert(keys.unref()[i] == *keys[i]);
                assert(keys.unref().to_set().contains(keys.unref()[i]));
            }
            assert forall|id: u128| #[trigger] self@.series.contains_key(id) implies ids@.contains(
                DiagnosticId(id),
            ) by {
                assert(keys.unref().to_set().contains(id));
                let j = choose|j: int| 0 <= j < keys.unref().len() && keys.unref()[j] == id;
                assert(ids@[j] == DiagnosticId(id));
            }
        }
        ids
    }

    /// The tracked diagnostics with their state, each once, in no particular
    /// order.
    pub fn series(&self) -> (series: Vec<(DiagnosticId, &DiagnosticState)>)
        ensures
            series@.len() == self@.series.len(),
            forall|i: int|
                0 <= i < series@.len() ==> self@.series.contains_key((#[trigger] series@[i]).0.0)
                    && series@[i].1@ == self@.series[series@[i].0.0],
            forall|i: int, j: int|
                0 <= i < series@.len() && 0 <= j < series@.len() && i != j ==> (
                #[trigger] series@[i]).0 != (#[trigger] series@[j]).0,
            forall|id: u128| #[trigger]
                self@.series.contains_key(id) ==> exists|i: int|
                    0 <= i < series@.len() && (#[trigger] series@[i]).0.0 == id,
    {
        let ids = self.ids();
        let mut series: Vec<(DiagnosticId, &DiagnosticState)> = Vec::new();
        let mut i: usize = 0;
        while i < ids.len()
            invariant
                0 <= i <= ids.len(),
                series@.len() == i,
                forall|j: int|
                    0 <= j < ids@.len() ==> self@.series.contains_key((#[trigger] ids@[j]).0),
                forall|j: int|
                    0 <= j < i ==> (#[trigger] series@[j]).0 == ids@[j] && series@[j].1@
                        == self@.series[ids@[j].0],
            decreases ids.len() - i,
        {
            let diagnostic_id = ids[i];
            let found = self.get(&diagnostic_id);
            assert(found is Some) by {
                assert(self@.series.contains_key(ids@[i as int].0));
            }
            if let Some(state) = found {
                series.push((diagnostic_id, state));
            }
            i += 1;
        }
        proof {
            assert forall|id: u128| #[trigger] self@.series.contains_key(id) implies exists|i: int|
                0 <= i < series@.len() && (#[trigger] series@[i]).0.0 == id by {
                assert(ids@.contains(DiagnosticId(id)));
                let j = choose|j: int| 0 <= j < ids@.len() && ids@[j] == DiagnosticId(id);
                assert(series@[j].0.0 == id);
            }
        }
        series
    }

    /// Takes in an update of the host: see [`Visualizer::update`].
    pub fn update(&mut self, delta: u64, diagnostics: &Vec<Diagnostic>)
        ensures
            final(self)@ == old(self)@.update(delta as nat, diagnostics@),
            final(self)@.wf(),
    {
        proof {
            use_type_invariant(&*self);
        }
        let mut timer = self.timer;
        let due = timer.tick(delta);
        self.timer = timer;
        let mut previous: HashMap<u128, DiagnosticState> = HashMap::new();
        proof {
            assert(series_of(previous@) =~= Map::<u128, Series>::empty());
        }
        std::mem::swap(&mut self.diagnostic_states, &mut previous);
        let kept = retain_reported(previous, &self.filter, diagnostics);
        let states = if due {
            sample_reported(kept, &self.filter, &self.rules, &self.fallback, diagnostics)
        } else {
            kept
        };
        self.diagnostic_states = states;
    }
}

/// Takes in an update of the host: `delta` nanoseconds have passed since the
/// last one, and `diagnostics` is what the host reports now.
pub fn update_diagnostic_visualizer_state_system(
    state: &mut DiagnosticVisualizerState,
    delta: u64,
    diagnostics: &Vec<Diagnostic>,
)
    ensures
        final(state)@ == old(state)@.update(delta as nat, diagnostics@),
        final(state)@.wf(),
{
    state.update(delta, diagnostics);
}

} // verus!

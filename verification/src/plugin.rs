//! The configuration of the visualizer, set up step by step before the
//! visualizer starts.

use crate::filter::{DiagnosticId, DiagnosticIds, Filter};
use crate::format::{copy_of_rules, FormatRule, Formatter, Matcher};
use crate::style::Style;
use crate::visualizer::{DiagnosticVisualizerState, Visualizer};
use vstd::prelude::*;

verus! {

/// The sampling interval that is used where none was asked for: 20
/// milliseconds, in nanoseconds.
pub const DEFAULT_WAIT_DURATION: u64 = 20_000_000;

/// The mathematical content of a configuration.
pub ghost struct Setup {
    /// The sampling interval, in nanoseconds.
    pub wait_duration: nat,
    /// The filter.
    pub filter: Filter,
    /// The rules that give diagnostics their text form, first match first.
    pub rules: Seq<FormatRule>,
    /// The text form of the diagnostics of which no rule speaks.
    pub fallback: Formatter,
    /// The look of the charts.
    pub style: Style,
}

impl Setup {
    /// Whether this is the configuration that is used where nothing was asked
    /// for: sampling every 20 milliseconds, every diagnostic tracked, no
    /// rules, measurements written as plain numbers, the default look.
    pub open spec fn is_default(self) -> bool {
        &&& self.wait_duration == DEFAULT_WAIT_DURATION
        &&& self.filter == Filter::All
        &&& self.rules == Seq::<FormatRule>::empty()
        &&& self.fallback.is_plain()
        &&& self.style == Style::spec_default()
    }

    /// The state with which a visualizer of this configuration starts:
    /// nothing is tracked, no time has passed, and the window is open.
    pub open spec fn initial(self) -> Visualizer {
        Visualizer {
            interval: self.wait_duration,
            elapsed: 0,
            filter: self.filter,
            rules: self.rules,
            fallback: self.fallback,
            series: Map::empty(),
            is_open: true,
            style: self.style,
        }
    }
}

/// The configuration of the visualizer.
#[derive(Debug)]
pub struct DiagnosticVisualizerPlugin {
    wait_duration: u64,
    filter: DiagnosticIds,
    rules: Vec<FormatRule>,
    fallback: Formatter,
    style: Style,
}

impl View for DiagnosticVisualizerPlugin {
    type V = Setup;

    closed spec fn view(&self) -> Setup {
        Setup {
            wait_duration: self.wait_duration as nat,
            filter: self.filter@,
            rules: self.rules@,
            fallback: self.fallback,
            style: self.style,
        }
    }
}

impl Clone for DiagnosticVisualizerPlugin {
    fn clone(&self) -> (copy: DiagnosticVisualizerPlugin)
        ensures
            copy@ == self@,
    {
        DiagnosticVisualizerPlugin {
            wait_duration: self.wait_duration,
            filter: self.filter.clone(),
            rules: copy_of_rules(&self.rules),
            fallback: self.fallback.clone(),
            style: self.style,
        }
    }
}

impl Default for DiagnosticVisualizerPlugin {
    fn default() -> (plugin: DiagnosticVisualizerPlugin)
        ensures
            plugin@.is_default(),
    {
        DiagnosticVisualizerPlugin {
            wait_duration: DEFAULT_WAIT_DURATION,
            filter: DiagnosticIds::All,
            rules: Vec::new(),
            fallback: Formatter::plain(),
            style: Style::default(),
        }
    }
}

impl DiagnosticVisualizerPlugin {
    /// How often measurements are taken: every `wait_duration` nanoseconds.
    #[must_use]
    pub fn wait_duration(self, wait_duration: u64) -> (plugin: DiagnosticVisualizerPlugin)
        ensures
            plugin@ == (Setup { wait_duration: wait_duration as nat, ..self@ }),
    {
        let mut plugin = self;
        plugin.wait_duration = wait_duration;
        plugin
    }

    /// Asks for a diagnostic: see [`Filter::include_id`].
    #[must_use]
    pub fn include_id(self, diagnostic_id: DiagnosticId) -> (plugin: DiagnosticVisualizerPlugin)
        ensures
            plugin@ == (Setup { filter: self@.filter.include_id(diagnostic_id.0), ..self@ }),
    {
        DiagnosticVisualizerPlugin {
            wait_duration: self.wait_duration,
            filter: self.filter.include_id(diagnostic_id),
            rules: self.rules,
            fallback: self.fallback,
            style: self.style,
        }
    }

    /// Rules a diagnostic out: see [`Filter::exclude`].
    #[must_use]
    pub fn exclude(self, diagnostic_id: DiagnosticId) -> (plugin: DiagnosticVisualizerPlugin)
        ensures
            plugin@ == (Setup { filter: self@.filter.exclude(diagnostic_id.0), ..self@ }),
    {
        DiagnosticVisualizerPlugin {
            wait_duration: self.wait_duration,
            filter: self.filter.exclude(diagnostic_id),
            rules: self.rules,
            fallback: self.fallback,
            style: self.style,
        }
    }

    /// Adds a rule behind those given so far: the diagnostics that `matcher`
    /// speaks of, and of which no earlier rule speaks, get the text form
    /// `formatter`.
    #[must_use]
    pub fn formatter(self, matcher: Matcher, formatter: Formatter) -> (plugin:
        DiagnosticVisualizerPlugin)
        ensures
            plugin@ == (Setup {
                rules: self@.rules.push(FormatRule { matcher, formatter }),
                ..self@
            }),
    {
        let mut plugin = self;
        plugin.rules.push(FormatRule { matcher, formatter });
        plugin
    }

    /// Sets the text form of the diagnostics of which no rule speaks.
    #[must_use]
    pub fn fallback_formatter(self, formatter: Formatter) -> (plugin: DiagnosticVisualizerPlugin)
        ensures
            plugin@ == (Setup { fallback: formatter, ..self@ }),
    {
        let mut plugin = self;
        plugin.fallback = formatter;
        plugin
    }

    /// Sets the look of the charts.
    #[must_use]
    pub fn style(self, style: Style) -> (plugin: DiagnosticVisualizerPlugin)
        ensures
            plugin@ == (Setup { style, ..self@ }),
    {
        let mut plugin = self;
        plugin.style = style;
        plugin
    }

    /// The state with which the visualizer starts.
    pub fn build(&self) -> (state: DiagnosticVisualizerState)
        ensures
            state@ == self@.initial(),
            state@.wf(),
    {
        DiagnosticVisualizerState::new(
            self.wait_duration,
            self.filter.clone(),
            copy_of_rules(&self.rules),
            self.fallback.clone(),
            self.style,
        )
    }
}

} // verus!

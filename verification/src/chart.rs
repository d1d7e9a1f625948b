//! The chart renderer: what is drawn for a history.
//!
//! The renderer decides which shapes make up a chart and which measurements
//! they show. It leaves the pixel arithmetic to the drawing surface: a path
//! carries its measurements and the scale on which they are to be laid out.
//!
//! The vertical scale of a chart runs from zero, on the lower edge of the
//! plot box, to the greatest measurement of the history, on the upper edge.

use crate::filter::DiagnosticId;
use crate::format::Formatter;
use crate::sample::Sample;
use crate::state::{DiagnosticState, Series};
use crate::style::{Color, Stroke, Style};
use crate::visualizer::DiagnosticVisualizerState;
use vstd::prelude::*;

verus! {

/// Whether the measurement at `i` is the greatest of the history, and the
/// first of those that are.
pub open spec fn is_greatest_at(history: Seq<Sample>, i: int) -> bool {
    &&& 0 <= i < history.len()
    &&& forall|j: int| 0 <= j < history.len() ==> (#[trigger] history[j]).key() <= history[i].key()
    &&& forall|j: int| 0 <= j < i ==> (#[trigger] history[j]).key() < history[i].key()
}

/// Whether the measurement at `i` is the least of the history, and the first
/// of those that are.
pub open spec fn is_least_at(history: Seq<Sample>, i: int) -> bool {
    &&& 0 <= i < history.len()
    &&& forall|j: int| 0 <= j < history.len() ==> (#[trigger] history[j]).key() >= history[i].key()
    &&& forall|j: int| 0 <= j < i ==> (#[trigger] history[j]).key() > history[i].key()
}

/// The greatest measurement of a history that is not empty.
pub open spec fn greatest(history: Seq<Sample>) -> Sample {
    history[choose|i: int| is_greatest_at(history, i)]
}

/// The least measurement of a history that is not empty.
pub open spec fn least(history: Seq<Sample>) -> Sample {
    history[choose|i: int| is_least_at(history, i)]
}

/// At most one position holds the first greatest measurement, and at most one
/// the first least.
pub proof fn lemma_extremes_unique(history: Seq<Sample>, i: int, j: int)
    ensures
        is_greatest_at(history, i) && is_greatest_at(history, j) ==> i == j,
        is_least_at(history, i) && is_least_at(history, j) ==> i == j,
{
    if is_greatest_at(history, i) && is_greatest_at(history, j) {
        if i < j {
            assert(history[i].key() < history[j].key());
            assert(history[j].key() <= history[i].key());
        } else if j < i {
            assert(history[j].key() < history[i].key());
            assert(history[i].key() <= history[j].key());
        }
    }
    if is_least_at(history, i) && is_least_at(history, j) {
        if i < j {
            assert(history[i].key() > history[j].key());
            assert(history[j].key() >= history[i].key());
        } else if j < i {
            assert(history[j].key() > history[i].key());
            assert(history[i].key() >= history[j].key());
        }
    }
}

/// The measurement at the position that holds the first greatest one is the
/// greatest, and likewise for the least.
pub proof fn lemma_extremes_at(history: Seq<Sample>, i: int)
    ensures
        is_greatest_at(history, i) ==> greatest(history) == history[i],
        is_least_at(history, i) ==> least(history) == history[i],
{
    if is_greatest_at(history, i) {
        let chosen = choose|k: int| is_greatest_at(history, k);
        lemma_extremes_unique(history, i, chosen);
    }
    if is_least_at(history, i) {
        let chosen = choose|k: int| is_least_at(history, k);
        lemma_extremes_unique(history, i, chosen);
    }
}

/// A history that is not empty has a first greatest and a first least
/// measurement.
pub proof fn lemma_extremes_exist(history: Seq<Sample>)
    requires
        history.len() > 0,
    ensures
        exists|i: int| is_greatest_at(history, i),
        exists|i: int| is_least_at(history, i),
    decreases history.len(),
{
    if history.len() == 1 {
        assert(is_greatest_at(history, 0));
        assert(is_least_at(history, 0));
    } else {
        let before = history.drop_last();
        let last = history.len() - 1;
        lemma_extremes_exist(before);
        let g = choose|i: int| is_greatest_at(before, i);
        let l = choose|i: int| is_least_at(before, i);
        assert forall|j: int| 0 <= j < before.len() implies before[j] == history[j] by {}
        if history[g].key() < history[last].key() {
            assert forall|j: int| 0 <= j < last implies (#[trigger] history[j]).key()
                < history[last].key() by {
                assert(before[j].key() <= before[g].key());
            }
            assert(is_greatest_at(history, last));
        } else {
            assert forall|j: int| 0 <= j < history.len() implies (#[trigger] history[j]).key()
                <= history[g].key() by {
                if j < last {
                    assert(before[j].key() <= before[g].key());
                }
            }
            assert forall|j: int| 0 <= j < g implies (#[trigger] history[j]).key()
                < history[g].key() by {
                assert(before[j].key() < before[g].key());
            }
            assert(is_greatest_at(history, g));
        }
        if history[last].key() < history[l].key() {
            assert forall|j: int| 0 <= j < last implies (#[trigger] history[j]).key()
                > history[last].key() by {
                assert(before[j].key() >= before[l].key());
            }
            assert(is_least_at(history, last));
        } else {
            assert forall|j: int| 0 <= j < history.len() implies (#[trigger] history[j]).key()
                >= history[l].key() by {
                if j < last {
                    assert(before[j].key() >= before[l].key());
                }
            }
            assert forall|j: int| 0 <= j < l implies (#[trigger] history[j]).key()
                > history[l].key() by {
                assert(before[j].key() > before[l].key());
            }
            assert(is_least_at(history, l));
        }
    }
}

/// The greatest measurement of a history that is not empty is one of its
/// measurements, and none is ordered after it; the least is one of them, and
/// none is ordered before it.
pub proof fn lemma_extremes_bound(history: Seq<Sample>)
    requires
        history.len() > 0,
    ensures
        history.contains(greatest(history)),
        history.contains(least(history)),
        forall|j: int|
            0 <= j < history.len() ==> least(history).key() <= (#[trigger] history[j]).key()
                <= greatest(history).key(),
{
    lemma_extremes_exist(history);
    let g = choose|i: int| is_greatest_at(history, i);
    let l = choose|i: int| is_least_at(history, i);
    assert(history[g] == greatest(history));
    assert(history[l] == least(history));
}

/// The vertical scale of a path.
#[derive(Clone, Copy, Debug, PartialEq, Eq, Structural)]
pub enum Scale {
    /// Every point lies on the lower edge of the plot box.
    Flat,
    /// Zero lies on the lower edge of the plot box and the given measurement,
    /// which is not zero, on the upper edge; the others in proportion.
    UpTo(Sample),
}

/// The vertical scale for a history that is not empty: up to its greatest
/// measurement, and flat where that is zero, so that laying out a point never
/// divides by zero.
pub open spec fn scale_of(history: Seq<Sample>) -> Scale {
    if greatest(history).key() == 0 {
        Scale::Flat
    } else {
        Scale::UpTo(greatest(history))
    }
}

/// What a label shows, and where it stands.
#[derive(Clone, Copy, Debug, PartialEq, Eq, Structural)]
pub enum Label {
    /// The most recent measurement: to the right of the plot box, centred
    /// vertically.
    Last,
    /// The greatest measurement: in the upper left corner of the plot box.
    Max,
    /// The least measurement: in the lower left corner of the plot box.
    Min,
}

impl Label {
    /// The text that stands before the measurement on the label.
    pub open spec fn spec_prefix(self) -> Seq<char> {
        match self {
            Label::Last => ""@,
            Label::Max => "max: "@,
            Label::Min => "min: "@,
        }
    }

    /// The text that stands before the measurement on the label.
    pub fn prefix(&self) -> (prefix: &'static str)
        ensures
            prefix@ == self.spec_prefix(),
    {
        match self {
            Label::Last => "",
            Label::Max => "max: ",
            Label::Min => "min: ",
        }
    }
}

/// The mathematical content of a shape.
pub ghost enum Drawn {
    /// A label that shows a measurement.
    Text { label: Label, value: Sample, color: Color },
    /// The border of the plot box, not filled.
    Rect { width: u32, height: u32, stroke: Stroke },
    /// The line through the measurements. The point of the measurement at
    /// position `i` of `n` lies at `i / n` of the width of the plot box.
    Path { values: Seq<Sample>, scale: Scale, stroke: Stroke },
}

/// One shape of a chart.
#[derive(Clone, Debug, PartialEq, Eq)]
pub enum Shape {
    /// A label that shows a measurement.
    Text {
        /// What the label shows, and where it stands.
        label: Label,
        /// The measurement that it shows.
        value: Sample,
        /// The colour of the text.
        color: Color,
    },
    /// The border of the plot box, not filled.
    Rect {
        /// The width of the box, in pixels.
        width: u32,
        /// The height of the box, in pixels.
        height: u32,
        /// The stroke of the border.
        stroke: Stroke,
    },
    /// The line through the measurements. The point of the measurement at
    /// position `i` of `n` lies at `i / n` of the width of the plot box.
    Path {
        /// The measurements, oldest first: one point each.
        values: Vec<Sample>,
        /// The vertical scale.
        scale: Scale,
        /// The stroke of the line.
        stroke: Stroke,
    },
}

impl View for Shape {
    type V = Drawn;

    open spec fn view(&self) -> Drawn {
        match self {
            Shape::Text { label, value, color } => Drawn::Text {
                label: *label,
                value: *value,
                color: *color,
            },
            Shape::Rect { width, height, stroke } => Drawn::Rect {
                width: *width,
                height: *height,
                stroke: *stroke,
            },
            Shape::Path { values, scale, stroke } => Drawn::Path {
                values: values@,
                scale: *scale,
                stroke: *stroke,
            },
        }
    }
}

/// The shapes of the chart of a history, in the order in which they are
/// drawn. An empty history has none. Any other history has five: the label of
/// the most recent measurement, the border of the plot box, the line with one
/// point for each measurement, and the labels of the greatest and of the
/// least measurement.
pub open spec fn graph(style: Style, history: Seq<Sample>) -> Seq<Drawn> {
    if history.len() == 0 {
        Seq::empty()
    } else {
        seq![
            Drawn::Text { label: Label::Last, value: history.last(), color: style.text_color },
            Drawn::Rect { width: style.width, height: style.height, stroke: style.rectangle_stroke },
            Drawn::Path { values: history, scale: scale_of(history), stroke: style.line_stroke },
            Drawn::Text { label: Label::Max, value: greatest(history), color: style.text_color },
            Drawn::Text { label: Label::Min, value: least(history), color: style.text_color },
        ]
    }
}

/// Nothing is drawn for an empty history.
pub proof fn lemma_empty_history_draws_nothing(style: Style)
    ensures
        graph(style, Seq::empty()).len() == 0,
{
}

/// A path has at least one point, and a scale that is not flat runs up to a
/// measurement that is not zero: neither the horizontal nor the vertical
/// layout of a point divides by zero.
pub proof fn lemma_layout_never_divides_by_zero(style: Style, history: Seq<Sample>, i: int)
    requires
        0 <= i < graph(style, history).len(),
    ensures
        graph(style, history)[i] matches Drawn::Path { values, scale, .. } ==> values.len() > 0 && (
        scale matches Scale::UpTo(upper) ==> upper.key() != 0),
{
}

/// The chart of a history of one measurement: its line has one point, and
/// all three labels show that measurement.
pub proof fn lemma_single_measurement(style: Style, sample: Sample)
    ensures
        graph(style, seq![sample]) == seq![
            Drawn::Text { label: Label::Last, value: sample, color: style.text_color },
            Drawn::Rect { width: style.width, height: style.height, stroke: style.rectangle_stroke },
            Drawn::Path {
                values: seq![sample],
                scale: if sample.key() == 0 {
                    Scale::Flat
                } else {
                    Scale::UpTo(sample)
                },
                stroke: style.line_stroke,
            },
            Drawn::Text { label: Label::Max, value: sample, color: style.text_color },
            Drawn::Text { label: Label::Min, value: sample, color: style.text_color },
        ],
{
    let history = seq![sample];
    assert(is_greatest_at(history, 0));
    assert(is_least_at(history, 0));
    lemma_extremes_at(history, 0);
    assert(history.last() == sample);
}

/// The positions of the first least and of the first greatest measurement, or
/// `None` where there is no measurement.
pub fn extremes(values: &Vec<Sample>) -> (positions: Option<(usize, usize)>)
    ensures
        positions is None <==> values@.len() == 0,
        positions matches Some((least, greatest)) ==> is_least_at(values@, least as int)
            && is_greatest_at(values@, greatest as int),
{
    if values.len() == 0 {
        return None;
    }
    let mut least: usize = 0;
    let mut greatest: usize = 0;
    let mut i: usize = 1;
    while i < values.len()
        invariant
            1 <= i <= values.len(),
            is_least_at(values@.subrange(0, i as int), least as int),
            is_greatest_at(values@.subrange(0, i as int), greatest as int),
        decreases values.len() - i,
    {
        let ghost seen = values@.subrange(0, i as int);
        let ghost next = values@.subrange(0, i + 1);
        let ghost least_before = least;
        let ghost greatest_before = greatest;
        if values[i].less_than(&values[least]) {
            least = i;
        }
        if values[greatest].less_than(&values[i]) {
            greatest = i;
        }
        proof {
            assert forall|j: int| 0 <= j < next.len() implies (#[trigger] next[j]).key()
                >= next[least as int].key() by {
                if j < i {
                    assert(seen[j].key() >= seen[least_before as int].key());
                }
            }
            assert forall|j: int| 0 <= j < least implies (#[trigger] next[j]).key()
                > next[least as int].key() by {
                if least == i {
                    assert(seen[j].key() >= seen[least_before as int].key());
                } else {
                    assert(seen[j].key() > seen[least_before as int].key());
                }
            }
            assert forall|j: int| 0 <= j < next.len() implies (#[trigger] next[j]).key()
                <= next[greatest as int].key() by {
                if j < i {
                    assert(seen[j].key() <= seen[greatest_before as int].key());
                }
            }
            assert forall|j: int| 0 <= j < greatest implies (#[trigger] next[j]).key()
                < next[greatest as int].key() by {
                if greatest == i {
                    assert(seen[j].key() <= seen[greatest_before as int].key());
                } else {
                    assert(seen[j].key() < seen[greatest_before as int].key());
                }
            }
        }
        i += 1;
    }
    assert(values@.subrange(0, values@.len() as int) =~= values@);
    Some((least, greatest))
}

/// The views of a list of shapes.
pub open spec fn drawn(shapes: Seq<Shape>) -> Seq<Drawn> {
    shapes.map_values(|shape: Shape| shape@)
}

/// The shapes of the chart of a diagnostic: see [`graph`].
pub fn show_graph(style: &Style, state: &DiagnosticState) -> (shapes: Vec<Shape>)
    ensures
        drawn(shapes@) == graph(*style, state@.history),
        state@.history.len() == 0 ==> shapes@.len() == 0,
{
    let values = state.measurements();
    let mut shapes: Vec<Shape> = Vec::new();
    match extremes(&values) {
        None => {
            assert(drawn(shapes@) =~= graph(*style, state@.history));
        },
        Some((least, greatest)) => {
            let last_value = values[values.len() - 1];
            let min = values[least];
            let max = values[greatest];
            proof {
                lemma_extremes_at(values@, least as int);
                lemma_extremes_at(values@, greatest as int);
            }
            let scale = if max.is_zero() {
                Scale::Flat
            } else {
                Scale::UpTo(max)
            };
            shapes.push(
                Shape::Text { label: Label::Last, value: last_value, color: style.text_color },
            );
            shapes.push(
                Shape::Rect {
                    width: style.width,
                    height: style.height,
                    stroke: style.rectangle_stroke,
                },
            );
            shapes.push(Shape::Path { values, scale, stroke: style.line_stroke });
            shapes.push(Shape::Text { label: Label::Max, value: max, color: style.text_color });
            shapes.push(Shape::Text { label: Label::Min, value: min, color: style.text_color });
            assert(drawn(shapes@) =~= graph(*style, state@.history));
        },
    }
    shapes
}

/// The mathematical content of the chart of one diagnostic.
pub ghost struct Plotted {
    /// The identifier of the diagnostic.
    pub id: u128,
    /// The title of the section that holds the chart.
    pub title: String,
    /// The text form of the measurements on the labels.
    pub formatter: Formatter,
    /// The shapes of the chart, in the order in which they are drawn.
    pub shapes: Seq<Drawn>,
}

/// The chart of a tracked diagnostic: its section is titled with the name of
/// the diagnostic, and its labels use the text form of the diagnostic.
pub open spec fn plotted(style: Style, id: u128, series: Series) -> Plotted {
    Plotted {
        id,
        title: series.name,
        formatter: series.formatter,
        shapes: graph(style, series.history),
    }
}

/// The chart of one diagnostic: a section that can be folded, open at first,
/// with the shapes of the chart in it.
#[derive(Clone, Debug, PartialEq, Eq)]
pub struct Plot {
    /// The identifier of the diagnostic.
    pub id: DiagnosticId,
    /// The title of the section.
    pub title: String,
    /// The text form of the measurements on the labels.
    pub formatter: Formatter,
    /// The shapes of the chart, in the order in which they are drawn.
    pub shapes: Vec<Shape>,
}

impl View for Plot {
    type V = Plotted;

    open spec fn view(&self) -> Plotted {
        Plotted {
            id: self.id.0,
            title: self.title,
            formatter: self.formatter,
            shapes: drawn(self.shapes@),
        }
    }
}

/// Whether `plots` is what the window shows of the visualizer. A closed
/// window shows nothing. An open one shows the chart of every tracked
/// diagnostic once, in any order.
pub open spec fn shows(
    plots: Seq<Plot>,
    series: Map<u128, Series>,
    is_open: bool,
    style: Style,
) -> bool {
    if is_open {
        &&& plots.len() == series.len()
        &&& forall|i: int|
            0 <= i < plots.len() ==> series.contains_key((#[trigger] plots[i]).id.0) && plots[i]@
                == plotted(style, plots[i].id.0, series[plots[i].id.0])
        &&& forall|i: int, j: int|
            0 <= i < plots.len() && 0 <= j < plots.len() && i != j ==> (#[trigger] plots[i]).id != (
            #[trigger] plots[j]).id
        &&& forall|id: u128| #[trigger]
            series.contains_key(id) ==> exists|i: int|
                0 <= i < plots.len() && (#[trigger] plots[i]).id.0 == id
    } else {
        plots.len() == 0
    }
}

/// What the section of a chart takes in height beyond its plot box, in
/// pixels: the line of its title and the spacing around it.
pub const SECTION_ALLOWANCE: u32 = 40;

/// The height with which the window opens when it shows `count` charts: the
/// same allowance for each of them, the plot box and [`SECTION_ALLOWANCE`].
pub open spec fn window_height(style: Style, count: nat) -> nat {
    count * (style.height + SECTION_ALLOWANCE) as nat
}

/// The height with which the window opens when it shows `count` charts, in
/// pixels: see [`window_height`].
pub fn default_window_height(style: &Style, count: usize) -> (height: u128)
    ensures
        height == window_height(*style, count as nat),
{
    let each: u128 = style.height as u128 + SECTION_ALLOWANCE as u128;
    assert(count as u128 * each <= 0xffff_ffff_ffff_ffff * 0x1_ffff_ffff) by (nonlinear_arith)
        requires
            count as u128 <= 0xffff_ffff_ffff_ffff,
            each <= 0x1_ffff_ffff,
    ;
    count as u128 * each
}

/// The chart of one tracked diagnostic.
pub fn plot_diagnostic(
    diagnostic_id: DiagnosticId,
    diagnostic_state: &DiagnosticState,
    style: &Style,
) -> (plot: Plot)
    ensures
        plot@ == plotted(*style, diagnostic_id.0, diagnostic_state@),
{
    Plot {
        id: diagnostic_id,
        title: diagnostic_state.name().clone(),
        formatter: diagnostic_state.formatter().clone(),
        shapes: show_graph(style, diagnostic_state),
    }
}

/// The window that shows the charts. It scrolls vertically, and the user can
/// close it.
#[derive(Clone, Debug, PartialEq, Eq)]
pub struct Panel {
    /// The title of the window.
    pub title: &'static str,
    /// The height with which the window opens, in pixels.
    pub default_height: u128,
    /// The charts that the window shows, in the order in which it shows them.
    pub plots: Vec<Plot>,
}

/// The window of the visualizer. It is titled "Diagnostics", opens with a
/// height in proportion to the number of tracked diagnostics (see
/// [`window_height`]), and shows what [`shows`] says.
pub fn plot_diagnostics_system(state: &DiagnosticVisualizerState) -> (panel: Panel)
    ensures
        panel.title@ == "Diagnostics"@,
        panel.default_height == window_height(state@.style, state@.series.len()),
        shows(panel.plots@, state@.series, state@.is_open, state@.style),
{
    let style = state.style();
    let default_height = default_window_height(&style, state.len());
    let mut plots: Vec<Plot> = Vec::new();
    if !state.is_open() {
        return Panel { title: "Diagnostics", default_height, plots };
    }
    let series = state.series();
    let mut i: usize = 0;
    while i < series.len()
        invariant
            0 <= i <= series.len(),
            style == state@.style,
            plots@.len() == i,
            forall|j: int|
                0 <= j < series@.len() ==> state@.series.contains_key((#[trigger] series@[j]).0.0)
                    && series@[j].1@ == state@.series[series@[j].0.0],
            forall|j: int|
                0 <= j < i ==> (#[trigger] plots@[j]).id == series@[j].0 && plots@[j]@ == plotted(
                    style,
                    series@[j].0.0,
                    state@.series[series@[j].0.0],
                ),
        decreases series.len() - i,
    {
        let (diagnostic_id, diagnostic_state) = series[i];
        plots.push(plot_diagnostic(diagnostic_id, diagnostic_state, &style));
        i += 1;
    }
    proof {
        assert forall|id: u128| #[trigger] state@.series.contains_key(id) implies exists|i: int|
            0 <= i < plots@.len() && (#[trigger] plots@[i]).id.0 == id by {
            let j = choose|j: int| 0 <= j < series@.len() && (#[trigger] series@[j]).0.0 == id;
            assert(plots@[j].id.0 == id);
        }
    }
    Panel { title: "Diagnostics", default_height, plots }
}

/// The chart renderer of the visualizer.
#[derive(Clone, Copy, Debug, PartialEq, Eq, Structural)]
pub struct DiagnosticVisualizerEguiPlugin;

impl DiagnosticVisualizerEguiPlugin {
    /// The window of the visualizer: see [`plot_diagnostics_system`].
    pub fn plot(&self, state: &DiagnosticVisualizerState) -> (panel: Panel)
        ensures
            panel.title@ == "Diagnostics"@,
            panel.default_height == window_height(state@.style, state@.series.len()),
            shows(panel.plots@, state@.series, state@.is_open, state@.style),
    {
        plot_diagnostics_system(state)
    }
}

} // verus!

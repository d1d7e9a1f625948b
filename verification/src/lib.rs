//! Rolling-window charts of numeric diagnostics.
//!
//! The crate is split in two layers. The sampling store keeps, for every
//! tracked diagnostic, a bounded history of measurements and decides once per
//! sampling interval whether a new measurement is taken. The chart renderer
//! turns each history into a short list of shapes for a drawing surface.
//!
//! Measurements are binary64 numbers. The library holds each of them by its
//! bit pattern and orders them through an integer key, so that every rule of
//! the store and of the renderer is stated over integers and sequences.

pub mod chart;
pub mod filter;
pub mod format;
pub mod plugin;
pub mod sample;
pub mod state;
pub mod style;
pub mod timer;
pub mod visualizer;

pub use chart::{
    default_window_height, plot_diagnostic, plot_diagnostics_system, show_graph,
    DiagnosticVisualizerEguiPlugin, Label, Panel, Plot, Scale, Shape,
};
pub use filter::{DiagnosticId, DiagnosticIds};
pub use format::{FormatRule, Formatter, Matcher};
pub use plugin::{DiagnosticVisualizerPlugin, DEFAULT_WAIT_DURATION};
pub use sample::Sample;
pub use state::{track_diagnostic, Diagnostic, DiagnosticState, HISTORY_CAPACITY};
pub use style::{Color, Stroke, Style};
pub use timer::TickTimer;
pub use visualizer::{update_diagnostic_visualizer_state_system, DiagnosticVisualizerState};

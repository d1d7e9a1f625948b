use bevy_diagnostic_visualizer::chart::extremes;
use bevy_diagnostic_visualizer::{
    default_window_height, plot_diagnostic, plot_diagnostics_system, show_graph, track_diagnostic, Color, Diagnostic,
    DiagnosticId, DiagnosticState, DiagnosticVisualizerEguiPlugin, DiagnosticVisualizerPlugin,
    Formatter, Label, Matcher, Plot, Sample, Scale, Shape, Stroke, Style,
};

const A: DiagnosticId = DiagnosticId(1);
const B: DiagnosticId = DiagnosticId(2);

fn sample(value: f64) -> Sample {
    Sample::from_bits(value.to_bits()).unwrap()
}

fn report(id: DiagnosticId, name: &str, value: f64) -> Diagnostic {
    Diagnostic { id, name: String::from(name), is_enabled: true, average: Some(sample(value)) }
}

fn state_of(values: &[f64]) -> DiagnosticState {
    let mut state = DiagnosticState::new(&report(A, "a", 0.0), Formatter::plain());
    for value in values {
        track_diagnostic(&report(A, "a", *value), &mut state);
    }
    state
}

fn chart_of(style: &Style, values: &[f64], scale: Scale, last: f64, max: f64, min: f64) -> Vec<Shape> {
    vec![
        Shape::Text { label: Label::Last, value: sample(last), color: style.text_color },
        Shape::Rect { width: style.width, height: style.height, stroke: style.rectangle_stroke },
        Shape::Path {
            values: values.iter().map(|value| sample(*value)).collect(),
            scale,
            stroke: style.line_stroke,
        },
        Shape::Text { label: Label::Max, value: sample(max), color: style.text_color },
        Shape::Text { label: Label::Min, value: sample(min), color: style.text_color },
    ]
}

#[test]
fn default_style() {
    let white = Color { r: 255, g: 255, b: 255, a: 255 };
    assert_eq!(Color::white(), white);
    let style = Style::default();
    assert_eq!(style.text_color, white);
    assert_eq!(style.rectangle_stroke, Stroke { width: 1, color: white });
    assert_eq!(style.line_stroke, Stroke { width: 1, color: white });
    assert_eq!(style.width, 200);
    assert_eq!(style.height, 100);
}

#[test]
fn empty_history_draws_nothing() {
    let shapes = show_graph(&Style::default(), &state_of(&[]));
    assert_eq!(shapes.len(), 0);
    assert!(shapes.is_empty());
}

#[test]
fn single_measurement_gives_a_path_of_one_point() {
    let style = Style::default();
    let shapes = show_graph(&style, &state_of(&[42.5]));
    assert_eq!(shapes, chart_of(&style, &[42.5], Scale::UpTo(sample(42.5)), 42.5, 42.5, 42.5));
    assert!(matches!(&shapes[2], Shape::Path { values, .. } if values.len() == 1));
}

#[test]
fn single_zero_measurement_lies_on_the_baseline() {
    let style = Style::default();
    let shapes = show_graph(&style, &state_of(&[0.0]));
    assert_eq!(shapes, chart_of(&style, &[0.0], Scale::Flat, 0.0, 0.0, 0.0));
    let shapes = show_graph(&style, &state_of(&[-0.0]));
    assert!(matches!(&shapes[2], Shape::Path { scale: Scale::Flat, .. }));
}

#[test]
fn chart_shows_last_greatest_and_least() {
    let style = Style::default();
    let values = [3.0, 7.5, -2.0, 0.0167, 5.0];
    let shapes = show_graph(&style, &state_of(&values));
    assert_eq!(shapes.len(), 5);
    assert_eq!(shapes, chart_of(&style, &values, Scale::UpTo(sample(7.5)), 5.0, 7.5, -2.0));
}

#[test]
fn chart_uses_the_given_style() {
    let red = Color { r: 255, g: 0, b: 0, a: 255 };
    let blue = Color { r: 0, g: 0, b: 255, a: 128 };
    let style = Style {
        text_color: red,
        rectangle_stroke: Stroke { width: 2, color: blue },
        line_stroke: Stroke { width: 3, color: red },
        width: 640,
        height: 48,
    };
    let shapes = show_graph(&style, &state_of(&[1.0, 2.0]));
    assert_eq!(shapes[0], Shape::Text { label: Label::Last, value: sample(2.0), color: red });
    assert_eq!(
        shapes[1],
        Shape::Rect { width: 640, height: 48, stroke: Stroke { width: 2, color: blue } }
    );
    assert!(matches!(&shapes[2], Shape::Path { stroke, .. } if *stroke == Stroke { width: 3, color: red }));
    assert_eq!(shapes[3], Shape::Text { label: Label::Max, value: sample(2.0), color: red });
    assert_eq!(shapes[4], Shape::Text { label: Label::Min, value: sample(1.0), color: red });
}

#[test]
fn flat_series_of_zeros_lies_on_the_baseline() {
    let style = Style::default();
    let shapes = show_graph(&style, &state_of(&[0.0, 0.0, 0.0]));
    assert_eq!(shapes, chart_of(&style, &[0.0, 0.0, 0.0], Scale::Flat, 0.0, 0.0, 0.0));
}

#[test]
fn series_that_peaks_at_zero_lies_on_the_baseline() {
    let style = Style::default();
    let shapes = show_graph(&style, &state_of(&[-3.0, 0.0, -1.0]));
    assert_eq!(shapes, chart_of(&style, &[-3.0, 0.0, -1.0], Scale::Flat, -1.0, 0.0, -3.0));
}

#[test]
fn flat_series_above_zero_is_scaled_to_its_value() {
    let style = Style::default();
    let shapes = show_graph(&style, &state_of(&[2.0, 2.0]));
    assert_eq!(shapes, chart_of(&style, &[2.0, 2.0], Scale::UpTo(sample(2.0)), 2.0, 2.0, 2.0));
}

#[test]
fn negative_series_is_scaled_to_its_greatest() {
    let style = Style::default();
    let shapes = show_graph(&style, &state_of(&[-4.0, -2.0, -8.0]));
    assert_eq!(
        shapes,
        chart_of(&style, &[-4.0, -2.0, -8.0], Scale::UpTo(sample(-2.0)), -8.0, -2.0, -8.0)
    );
}

#[test]
fn scale_is_never_up_to_zero() {
    let histories: [&[f64]; 6] =
        [&[0.0], &[-0.0, 0.0], &[1.0, 0.0], &[-1.0, -0.0], &[5.0e-324], &[-5.0e-324, -1.0]];
    for values in histories {
        let shapes = show_graph(&Style::default(), &state_of(values));
        match &shapes[2] {
            Shape::Path { values: points, scale, .. } => {
                assert_eq!(points.len(), values.len());
                if let Scale::UpTo(upper) = scale {
                    assert_ne!(f64::from_bits(upper.to_bits()), 0.0);
                }
            }
            _ => panic!("the third shape is the path"),
        }
    }
}

#[test]
fn extremes_are_the_first_of_their_kind() {
    let values: Vec<Sample> = [2.0, 9.0, -1.0, 9.0, -1.0, 3.0].iter().map(|v| sample(*v)).collect();
    assert_eq!(extremes(&values), Some((2, 1)));
    assert_eq!(extremes(&vec![sample(1.0)]), Some((0, 0)));
    assert_eq!(extremes(&vec![sample(1.0), sample(1.0)]), Some((0, 0)));
    assert_eq!(extremes(&vec![sample(0.0), sample(-0.0)]), Some((0, 0)));
    assert_eq!(extremes(&vec![sample(3.0), sample(2.0), sample(1.0)]), Some((2, 0)));
    assert_eq!(extremes(&vec![sample(1.0), sample(2.0), sample(3.0)]), Some((0, 2)));
    assert_eq!(extremes(&Vec::new()), None);
}

#[test]
fn full_history_is_drawn_point_by_point() {
    let values: Vec<f64> = (0..150).map(|i| (i % 17) as f64 - 3.0).collect();
    let state = state_of(&values);
    let shapes = show_graph(&Style::default(), &state);
    match &shapes[2] {
        Shape::Path { values: points, scale, .. } => {
            assert_eq!(points.len(), 100);
            assert_eq!(points, &state.measurements());
            assert_eq!(*scale, Scale::UpTo(sample(13.0)));
        }
        _ => panic!("the third shape is the path"),
    }
    assert!(matches!(shapes[4], Shape::Text { label: Label::Min, value, .. } if value == sample(-3.0)));
}

#[test]
fn plot_takes_title_and_formatter_from_the_series() {
    let formatter = Formatter::new(sample(1000.0), 1, String::from(" ms"));
    let mut state = DiagnosticState::new(&report(B, "frame_time", 0.0), formatter.clone());
    track_diagnostic(&report(B, "frame_time", 0.0167), &mut state);
    let style = Style::default();
    let plot = plot_diagnostic(B, &state, &style);
    assert_eq!(
        plot,
        Plot {
            id: B,
            title: String::from("frame_time"),
            formatter,
            shapes: chart_of(&style, &[0.0167], Scale::UpTo(sample(0.0167)), 0.0167, 0.0167, 0.0167),
        }
    );
}

#[test]
fn open_window_shows_every_series_once() {
    let mut state = DiagnosticVisualizerPlugin::default()
        .wait_duration(0)
        .formatter(Matcher::Id(B), Formatter::new(sample(1.0), 2, String::new()))
        .build();
    state.update(0, &vec![report(A, "a", 1.0), report(B, "b", 2.0)]);
    state.update(0, &vec![report(A, "a", 3.0), report(B, "b", -2.0)]);
    let panel = plot_diagnostics_system(&state);
    assert_eq!(panel.title, "Diagnostics");
    assert_eq!(panel.default_height, 280);
    let mut plots = panel.plots;
    plots.sort_by_key(|plot| plot.id.0);
    assert_eq!(plots.len(), 2);
    let style = Style::default();
    assert_eq!(plots[0].id, A);
    assert_eq!(plots[0].title, "a");
    assert_eq!(plots[0].formatter, Formatter::plain());
    assert_eq!(plots[0].shapes, chart_of(&style, &[1.0, 3.0], Scale::UpTo(sample(3.0)), 3.0, 3.0, 1.0));
    assert_eq!(plots[1].id, B);
    assert_eq!(plots[1].title, "b");
    assert_eq!(plots[1].formatter, Formatter::new(sample(1.0), 2, String::new()));
    assert_eq!(plots[1].shapes, chart_of(&style, &[2.0, -2.0], Scale::UpTo(sample(2.0)), -2.0, 2.0, -2.0));
}

#[test]
fn closed_window_shows_nothing() {
    let mut state = DiagnosticVisualizerPlugin::default().wait_duration(0).build();
    state.update(0, &vec![report(A, "a", 1.0), report(B, "b", 2.0)]);
    state.set_open(false);
    let panel = plot_diagnostics_system(&state);
    assert!(panel.plots.is_empty());
    assert_eq!(panel.title, "Diagnostics");
    state.set_open(true);
    assert_eq!(plot_diagnostics_system(&state).plots.len(), 2);
}

#[test]
fn series_without_measurement_has_an_empty_plot() {
    let mut state = DiagnosticVisualizerPlugin::default().wait_duration(0).build();
    state.update(
        0,
        &vec![Diagnostic { id: A, name: String::from("a"), is_enabled: true, average: None }],
    );
    let plots = plot_diagnostics_system(&state).plots;
    assert_eq!(plots.len(), 1);
    assert_eq!(plots[0].title, "a");
    assert!(plots[0].shapes.is_empty());
}

#[test]
fn renderer_plots_what_the_system_plots() {
    let mut state = DiagnosticVisualizerPlugin::default().wait_duration(0).style(Style {
        width: 10,
        height: 20,
        ..Style::default()
    }).build();
    state.update(0, &vec![report(A, "a", 1.0)]);
    let panel = DiagnosticVisualizerEguiPlugin.plot(&state);
    assert_eq!(panel, plot_diagnostics_system(&state));
    assert_eq!(panel.default_height, 60);
    assert_eq!(panel.plots.len(), 1);
    assert!(matches!(panel.plots[0].shapes[1], Shape::Rect { width: 10, height: 20, .. }));
}

#[test]
fn window_height_grows_with_the_number_of_charts() {
    let style = Style::default();
    assert_eq!(default_window_height(&style, 0), 0);
    assert_eq!(default_window_height(&style, 1), 140);
    assert_eq!(default_window_height(&style, 2), 280);
    assert_eq!(default_window_height(&style, 7), 980);
    let tall = Style { height: u32::MAX, ..Style::default() };
    assert_eq!(
        default_window_height(&tall, usize::MAX),
        (usize::MAX as u128) * (u32::MAX as u128 + 40)
    );
    let mut state = DiagnosticVisualizerPlugin::default().wait_duration(0).build();
    assert_eq!(plot_diagnostics_system(&state).default_height, 0);
    state.update(0, &vec![report(A, "a", 1.0), report(B, "b", 2.0), report(DiagnosticId(3), "c", 3.0)]);
    assert_eq!(plot_diagnostics_system(&state).default_height, 420);
}

#[test]
fn labels_have_their_prefix() {
    assert_eq!(Label::Last.prefix(), "");
    assert_eq!(Label::Max.prefix(), "max: ");
    assert_eq!(Label::Min.prefix(), "min: ");
}

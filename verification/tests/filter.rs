use bevy_diagnostic_visualizer::{DiagnosticId, DiagnosticIds, DiagnosticVisualizerPlugin};

const A: DiagnosticId = DiagnosticId(0xa);
const B: DiagnosticId = DiagnosticId(0xb);
const C: DiagnosticId = DiagnosticId(0xc);

#[test]
fn identifier_round_trip() {
    let id = DiagnosticId::from_u128(54021991829115352065418785002088010277);
    assert_eq!(id.as_u128(), 54021991829115352065418785002088010277);
    assert_eq!(id, DiagnosticId(54021991829115352065418785002088010277));
    assert_ne!(A, B);
}

#[test]
fn every_diagnostic_passes_by_default() {
    let filter = DiagnosticIds::all();
    assert!(filter.should_include(&A));
    assert!(filter.should_include(&B));
    assert!(filter.should_include(&DiagnosticId(u128::MAX)));
    let state = DiagnosticVisualizerPlugin::default().build();
    assert!(state.should_include(&A));
    assert!(state.should_include(&DiagnosticId(0)));
}

#[test]
fn exclude_one_passes_every_other() {
    let filter = DiagnosticIds::all().exclude(A);
    assert!(!filter.should_include(&A));
    assert!(filter.should_include(&B));
    assert!(filter.should_include(&C));
    assert!(matches!(filter, DiagnosticIds::Exclude(ref ids) if ids.len() == 1));
}

#[test]
fn include_one_passes_only_that_one() {
    let filter = DiagnosticIds::all().include_id(A);
    assert!(filter.should_include(&A));
    assert!(!filter.should_include(&B));
    assert!(!filter.should_include(&C));
    assert!(matches!(filter, DiagnosticIds::Include(ref ids) if ids.len() == 1));
}

#[test]
fn same_kind_adds_up() {
    let filter = DiagnosticIds::all().include_id(A).include_id(B).include_id(A);
    assert!(filter.should_include(&A));
    assert!(filter.should_include(&B));
    assert!(!filter.should_include(&C));
    assert!(matches!(filter, DiagnosticIds::Include(ref ids) if ids.len() == 2));

    let filter = DiagnosticIds::all().exclude(A).exclude(B);
    assert!(!filter.should_include(&A));
    assert!(!filter.should_include(&B));
    assert!(filter.should_include(&C));
    assert!(matches!(filter, DiagnosticIds::Exclude(ref ids) if ids.len() == 2));
}

#[test]
fn switching_kind_discards_the_other_set() {
    let filter = DiagnosticIds::all().include_id(A).include_id(B).exclude(C);
    assert!(filter.should_include(&A));
    assert!(filter.should_include(&B));
    assert!(!filter.should_include(&C));
    assert!(matches!(filter, DiagnosticIds::Exclude(ref ids) if ids.len() == 1 && ids.contains(&0xc)));

    let filter = DiagnosticIds::all().exclude(A).exclude(B).include_id(C);
    assert!(!filter.should_include(&A));
    assert!(!filter.should_include(&B));
    assert!(filter.should_include(&C));
    assert!(matches!(filter, DiagnosticIds::Include(ref ids) if ids.len() == 1 && ids.contains(&0xc)));
}

#[test]
fn plugin_filter_follows_the_same_rules() {
    let state = DiagnosticVisualizerPlugin::default().include_id(A).exclude(B).build();
    assert!(state.should_include(&A));
    assert!(!state.should_include(&B));
    assert!(state.should_include(&C));

    let state = DiagnosticVisualizerPlugin::default().exclude(B).include_id(A).build();
    assert!(state.should_include(&A));
    assert!(!state.should_include(&B));
    assert!(!state.should_include(&C));
}

#[test]
fn state_filter_can_change_while_running() {
    let mut state = DiagnosticVisualizerPlugin::default().build();
    state.exclude(A);
    assert!(!state.should_include(&A));
    assert!(state.should_include(&B));
    state.exclude(B);
    assert!(!state.should_include(&A));
    assert!(!state.should_include(&B));
    state.include_id(C);
    assert!(!state.should_include(&A));
    assert!(!state.should_include(&B));
    assert!(state.should_include(&C));
}

#[test]
fn clone_of_a_filter_passes_the_same() {
    let filter = DiagnosticIds::all().include_id(A).include_id(B);
    let copy = filter.clone();
    for id in [A, B, C] {
        assert_eq!(copy.should_include(&id), filter.should_include(&id));
    }
    assert!(matches!(copy, DiagnosticIds::Include(ref ids) if ids.len() == 2));
    let copy = DiagnosticIds::all().exclude(C).clone();
    assert!(matches!(copy, DiagnosticIds::Exclude(ref ids) if ids.len() == 1 && ids.contains(&0xc)));
    assert!(matches!(DiagnosticIds::all().clone(), DiagnosticIds::All));
}

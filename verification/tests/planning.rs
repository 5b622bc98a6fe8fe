use recomposition_orchestrator::planning::build_job_if_dirty;
use recomposition_orchestrator::triggers::TriggerSet;
use recomposition_orchestrator::types::HypothesisState;

fn state() -> HypothesisState {
    HypothesisState {
        hypothesis_id: "hyp_001".to_owned(),
        state_key: "hypothesis-state/state.json".to_owned(),
        updated_at_ms: 1_000,
        latest_screening_event_id: "screen_001".to_owned(),
        harness_queue_hint: "derivatives_delta_persistence".to_owned(),
        lineage_refs: vec!["packet_001".to_owned()],
        dirty_triggers: vec!["market_feature_delta_updated".to_owned()],
    }
}

fn set(values: &[&str]) -> TriggerSet {
    TriggerSet::from_values(&values.iter().map(|v| v.to_string()).collect())
}

#[test]
fn planning_selects_state_when_trigger_matches() {
    let changed = set(&["market_feature_delta_updated"]);
    let job = build_job_if_dirty(&state(), &changed, 7_200_000).expect("job selected");
    assert_eq!(job.priority, "p1_market_retest");
    assert_eq!(job.requested_harness_type, "derivatives_delta_persistence");
}

#[test]
fn planning_skips_state_when_trigger_does_not_match() {
    let changed = set(&["source_registry_version_changed"]);
    assert!(build_job_if_dirty(&state(), &changed, 7_200_000).is_none());
}

#[test]
fn planning_job_id_includes_state_revision_identity() {
    let changed = set(&["market_feature_delta_updated"]);
    let mut first = state();
    let mut second = state();
    second.state_key = "hypothesis-state/next-state.json".to_owned();
    second.updated_at_ms = 2_000;

    let first_job = build_job_if_dirty(&first, &changed, 7_200_000).expect("job selected");
    let second_job = build_job_if_dirty(&second, &changed, 7_200_000).expect("job selected");

    assert_ne!(first_job.harness_job_id, second_job.harness_job_id);

    first.state_key = second.state_key;
    first.updated_at_ms = second.updated_at_ms;
    let repeated_job = build_job_if_dirty(&first, &changed, 7_200_000).expect("job selected");
    assert_eq!(second_job.harness_job_id, repeated_job.harness_job_id);
}

#[test]
fn tests_selects_state_when_trigger_matches() {
    let changed = set(&["market_feature_delta_updated"]);
    let job = build_job_if_dirty(&state(), &changed, 7_200_000).expect("job selected");
    assert_eq!(job.priority, "p1_market_retest");
    assert_eq!(job.requested_harness_type, "derivatives_delta_persistence");
}

#[test]
fn tests_skips_state_when_trigger_does_not_match() {
    let changed = set(&["source_registry_version_changed"]);
    assert!(build_job_if_dirty(&state(), &changed, 7_200_000).is_none());
}

#[test]
fn tests_job_id_includes_state_revision_identity() {
    let changed = set(&["market_feature_delta_updated"]);
    let mut first = state();
    let mut second = state();
    second.state_key = "hypothesis-state/next-state.json".to_owned();
    second.updated_at_ms = 2_000;

    let first_job = build_job_if_dirty(&first, &changed, 7_200_000).expect("job selected");
    let second_job = build_job_if_dirty(&second, &changed, 7_200_000).expect("job selected");

    assert_ne!(first_job.harness_job_id, second_job.harness_job_id);

    first.state_key = second.state_key;
    first.updated_at_ms = second.updated_at_ms;
    let repeated_job = build_job_if_dirty(&first, &changed, 7_200_000).expect("job selected");
    assert_eq!(second_job.harness_job_id, repeated_job.harness_job_id);
}

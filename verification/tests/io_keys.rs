use recomposition_orchestrator::keys::{
    harness_job_key, orchestrator_report_key, output_file_path, s3_output_keys, safe_prefixed_key,
    validate_key_component, validate_output_key,
};

#[test]
fn local_output_rejects_traversal_report_id() {
    let error = validate_key_component("../escape", "orchestrator report id")
        .unwrap_err()
        .to_string();

    assert!(error.contains("orchestrator report id"));
}

#[test]
fn local_output_requires_absolute_output_dir() {
    let key = harness_job_key(7_200_000, "recomp_report_001");
    let error = output_file_path("relative-output", &key)
        .unwrap_err()
        .to_string();

    assert!(error.contains("absolute path"));
}

#[test]
fn local_output_rejects_ambiguous_absolute_output_dir() {
    let key = orchestrator_report_key(7_200_000, "recomp_report_001");
    let error = output_file_path("/tmp/../recomposition-output", &key)
        .unwrap_err()
        .to_string();

    assert!(error.contains("relative path components"));
}

#[test]
fn output_key_validation_rejects_escape_shapes() {
    for key in [
        "/tmp/out.json",
        "hypothesis-harness-job/../report.json",
        "hypothesis-harness-job/./report.json",
        "hypothesis-harness-job\\report.json",
        "hypothesis-harness-job/\n/report.json",
    ] {
        let error = validate_output_key(key).unwrap_err().to_string();
        assert!(
            error.contains("output key"),
            "expected output key error for {key:?}, got {error}"
        );
    }
}

#[test]
fn s3_prefix_rejects_traversal() {
    let error = safe_prefixed_key("../escape", "schema=v1/report.json")
        .unwrap_err()
        .to_string();

    assert!(error.contains("output key"));
}

#[test]
fn s3_prefix_preserves_normal_contract() {
    assert_eq!(
        safe_prefixed_key(
            "/recomposition/",
            "hypothesis-harness-job/schema=hypothesis_harness_job_v1/part-000001.jsonl",
        )
        .unwrap(),
        "recomposition/hypothesis-harness-job/schema=hypothesis_harness_job_v1/part-000001.jsonl"
    );
}

#[test]
fn run_s3_keys_stand_under_the_prefix() {
    let (job_key, report_key) = s3_output_keys("recomposition/", 7_200_000, "recomp_report_001")
        .expect("accepted prefix");
    assert_eq!(
        job_key,
        "recomposition/hypothesis-harness-job/schema=hypothesis_harness_job_v1/dt=1970-01-01/hour=02/orchestrator_report_id=recomp_report_001/part-000001.jsonl"
    );
    assert_eq!(
        report_key,
        "recomposition/recomposition-orchestrator-report/schema=recomposition_orchestrator_report_v1/dt=1970-01-01/hour=02/orchestrator_report_id=recomp_report_001/report.json"
    );
    let (job_key, _) = s3_output_keys("", 7_200_000, "recomp_report_001").expect("empty prefix");
    assert!(job_key.starts_with("hypothesis-harness-job/"));
    let error = s3_output_keys("a/../b", 7_200_000, "recomp_report_001").expect_err("traversal");
    assert!(error.to_string().contains("period-only"));
    let long_id = "x".repeat(1100);
    let error = s3_output_keys("recomposition", 7_200_000, &long_id).expect_err("too long");
    assert!(error.to_string().contains("at most 1024 bytes"));
}

use recomposition_orchestrator::args::parse::parse_args;

fn words(values: &[&str]) -> Vec<String> {
    values.iter().map(|v| v.to_string()).collect()
}

#[test]
fn s3_profile_and_pairing_aws_profile_applies_to_input_and_output_s3() {
    let args = parse_args(words(&[
        "--input-s3-bucket",
        "candidate-bucket",
        "--input-s3-prefix",
        "hypothesis-state/",
        "--output-s3-bucket",
        "research-bucket",
        "--output-s3-prefix",
        "recomposition/",
        "--changed-trigger",
        "market_feature_delta_updated",
        "--aws-profile",
        "dev-profile",
    ]))
    .unwrap();

    assert_eq!(
        args.input_s3.and_then(|s3| s3.profile),
        Some("dev-profile".to_owned())
    );
    assert_eq!(
        args.output_s3.and_then(|s3| s3.profile),
        Some("dev-profile".to_owned())
    );
}

#[test]
fn tests_aws_profile_applies_to_input_and_output_s3() {
    let args = parse_args(words(&[
        "--input-s3-bucket",
        "candidate-bucket",
        "--input-s3-prefix",
        "hypothesis-state/",
        "--output-s3-bucket",
        "research-bucket",
        "--output-s3-prefix",
        "recomposition/",
        "--changed-trigger",
        "market_feature_delta_updated",
        "--aws-profile",
        "dev-profile",
    ]))
    .unwrap();

    assert_eq!(
        args.input_s3.and_then(|s3| s3.profile),
        Some("dev-profile".to_owned())
    );
    assert_eq!(
        args.output_s3.and_then(|s3| s3.profile),
        Some("dev-profile".to_owned())
    );
}

#[test]
fn rejects_local_paths_with_relative_components() {
    for (flag, value) in [
        ("--hypothesis-state-file", "/tmp/../state.json"),
        ("--output-dir", "/tmp/./recomposition-out"),
    ] {
        let err = parse_args(words(&[
            "--hypothesis-state-file",
            "/tmp/state.json",
            "--output-dir",
            "/tmp/out",
            flag,
            value,
        ]))
        .unwrap_err()
        .to_string();

        assert!(err.contains(flag), "expected {flag} in {err}");
        assert!(err.contains("relative path components"));
    }
}

#[test]
fn rejects_s3_bucket_without_matching_prefix() {
    let err = parse_args(words(&[
        "--input-s3-bucket",
        "candidate-bucket",
        "--output-dir",
        "/tmp/out",
    ]))
    .unwrap_err()
    .to_string();

    assert!(err.contains("--input-s3-prefix"));
}

#[test]
fn rejects_s3_prefix_without_matching_bucket() {
    let err = parse_args(words(&[
        "--input-s3-prefix",
        "hypothesis-state/",
        "--output-dir",
        "/tmp/out",
    ]))
    .unwrap_err()
    .to_string();

    assert!(err.contains("--input-s3-prefix"));
    assert!(err.contains("--input-s3-bucket"));
}

#[test]
fn rejects_unsafe_s3_prefixes() {
    for (flag, value) in [
        (
            "--input-s3-prefix",
            "s3://candidate-bucket/hypothesis-state/",
        ),
        ("--output-s3-prefix", "/recomposition/"),
        ("--output-s3-prefix", "recomposition/../jobs/"),
        ("--output-s3-prefix", "recomposition jobs/"),
    ] {
        let err = parse_args(words(&[
            "--input-s3-bucket",
            "candidate-bucket",
            "--input-s3-prefix",
            "hypothesis-state/",
            "--output-s3-bucket",
            "research-bucket",
            "--output-s3-prefix",
            "recomposition/",
            flag,
            value,
        ]))
        .unwrap_err()
        .to_string();
        assert!(err.contains(flag), "expected {flag} in {err}");
    }
}

#[test]
fn rejects_s3_uri_as_bucket_name() {
    let err = parse_args(words(&[
        "--hypothesis-state-file",
        "/tmp/state.json",
        "--output-s3-bucket",
        "s3://research-bucket",
        "--output-s3-prefix",
        "recomposition/",
    ]))
    .unwrap_err()
    .to_string();

    assert!(err.contains("--output-s3-bucket"));
    assert!(err.contains("S3 URI"));
}

#[test]
fn rejects_unsafe_s3_bucket_names() {
    for value in [
        " research-bucket",
        "research bucket",
        "research/bucket",
        "nangman-crypto-dev-research-<account-suffix>",
    ] {
        let err = parse_args(words(&[
            "--hypothesis-state-file",
            "/tmp/state.json",
            "--output-s3-bucket",
            value,
            "--output-s3-prefix",
            "recomposition/",
        ]))
        .unwrap_err()
        .to_string();

        assert!(
            err.contains("--output-s3-bucket"),
            "bucket={value} err={err}"
        );
    }
}

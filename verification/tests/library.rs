use recomposition_orchestrator::args::help::help_text;
use recomposition_orchestrator::args::parse::parse_args;
use recomposition_orchestrator::args::payload::is_json_payload_key;
use recomposition_orchestrator::args::scalar::{parse_i64, parse_usize};
use recomposition_orchestrator::error::ErrorKind;
use recomposition_orchestrator::frame::{frame_json_payload, line_error, PayloadFrame};
use recomposition_orchestrator::ids::{millis_to_time, partition, prefixed_key, sha256_hex_of, stable_id};
use recomposition_orchestrator::json::{job_json_text, jsonl_text, report_json_text, report_pretty_text};
use recomposition_orchestrator::keys::{
    harness_job_key, orchestrator_report_key, output_file_path, s3_uri, safe_prefixed_key,
    validate_key_component, validate_output_key,
};
use recomposition_orchestrator::planning::{
    build_job_if_dirty, build_report, created_at_from, plan_run, plan_run_at, resolve_created_at,
};
use recomposition_orchestrator::triggers::{changed_trigger_set, TriggerSet};
use recomposition_orchestrator::types::{HarnessJob, HypothesisState};
use sha2::{Digest, Sha256};

fn words(values: &[&str]) -> Vec<String> {
    values.iter().map(|v| v.to_string()).collect()
}

fn strings(values: &[&str]) -> Vec<String> {
    words(values)
}

fn hex(bytes: &[u8]) -> String {
    bytes.iter().map(|b| format!("{b:02x}")).collect()
}

fn state(dirty: &[&str]) -> HypothesisState {
    HypothesisState {
        hypothesis_id: "hyp_001".to_owned(),
        state_key: "hypothesis-state/state.json".to_owned(),
        updated_at_ms: 1_000,
        latest_screening_event_id: "screen_001".to_owned(),
        harness_queue_hint: "derivatives_delta_persistence".to_owned(),
        lineage_refs: vec!["packet_001".to_owned()],
        dirty_triggers: strings(dirty),
    }
}

#[test]
fn help_flag_answers_with_the_usage_text() {
    let err = parse_args(words(&["--help"])).unwrap_err();
    assert_eq!(err.kind, ErrorKind::Config);
    assert_eq!(err.to_string(), help_text());
    assert!(help_text().starts_with("recomposition-orchestrator-app\nUsage:\n"));
    assert!(help_text().contains("  recomposition-orchestrator-app \\\n"));
}

#[test]
fn unknown_argument_names_it_before_the_usage_text() {
    let err = parse_args(words(&["--bogus"])).unwrap_err().to_string();
    assert_eq!(err, format!("unknown argument: --bogus\n\n{}", help_text()));
}

#[test]
fn missing_values_report_the_flag_message() {
    let err = parse_args(words(&["--changed-trigger"])).unwrap_err().to_string();
    assert_eq!(err, "--changed-trigger requires a value");
    let err = parse_args(words(&["--changed-trigger", "   "])).unwrap_err().to_string();
    assert_eq!(err, "--changed-trigger requires a value");
    let err = parse_args(words(&["--output-dir"])).unwrap_err().to_string();
    assert_eq!(err, "--output-dir requires an absolute path");
    let err = parse_args(words(&["--input-s3-max-keys", "0"])).unwrap_err().to_string();
    assert_eq!(err, "--input-s3-max-keys must be greater than zero");
}

#[test]
fn relative_output_dir_is_refused_with_its_flag() {
    let err = parse_args(words(&["--output-dir", "out"])).unwrap_err().to_string();
    assert_eq!(
        err,
        "--output-dir requires an absolute path; --output-dir must be an absolute path"
    );
}

#[test]
fn input_and_output_are_required() {
    let err = parse_args(words(&["--output-dir", "/tmp/out"])).unwrap_err().to_string();
    assert_eq!(
        err,
        "--hypothesis-state-file or --input-s3-bucket/--input-s3-prefix is required"
    );
    let err = parse_args(words(&["--hypothesis-state-file", "/tmp/state.json"]))
        .unwrap_err()
        .to_string();
    assert_eq!(
        err,
        "at least one output target is required: --output-dir or --output-s3-bucket"
    );
}

#[test]
fn parsed_arguments_keep_values_and_defaults() {
    let args = parse_args(words(&[
        "--hypothesis-state-file",
        "/tmp/state.json",
        "--input-s3-bucket",
        "candidate-bucket",
        "--input-s3-prefix",
        "hypothesis-state/",
        "--input-s3-max-keys",
        "25",
        "--output-dir",
        "/tmp/out",
        "--changed-trigger",
        "market_feature_delta_updated",
        "--changed-trigger",
        "derivatives_rollup_updated",
        "--now-ms",
        "7200000",
    ]))
    .unwrap();
    assert_eq!(args.hypothesis_state_file.as_deref(), Some("/tmp/state.json"));
    assert_eq!(args.output_dir.as_deref(), Some("/tmp/out"));
    assert_eq!(args.now_ms, Some(7_200_000));
    assert_eq!(args.changed_trigger.len(), 2);
    let input = args.input_s3.expect("input s3 kept");
    assert_eq!(input.bucket, "candidate-bucket");
    assert_eq!(input.prefix, "hypothesis-state/");
    assert_eq!(input.region, "ap-northeast-2");
    assert_eq!(input.max_keys, 25);
    assert_eq!(input.profile, None);
    assert!(args.output_s3.is_none());
}

#[test]
fn s3_prefix_rules_each_have_their_message() {
    let cases = [
        ("recomposition//jobs/", "--output-s3-prefix must not contain empty path segments"),
        ("recomposition/./jobs", "--output-s3-prefix must not contain period-only path segments"),
        ("recomposition?x", "--output-s3-prefix must not include query or fragment markers"),
        (
            "recomposition\\jobs",
            "--output-s3-prefix must not contain control characters, whitespace, or backslashes",
        ),
        ("/", "--output-s3-prefix must be an object prefix, not a URI or absolute path"),
        ("S3://bucket/x", "--output-s3-prefix must be an object prefix, not a URI or absolute path"),
    ];
    for (prefix, expected) in cases {
        let err = parse_args(words(&[
            "--hypothesis-state-file",
            "/tmp/state.json",
            "--output-s3-bucket",
            "research-bucket",
            "--output-s3-prefix",
            prefix,
        ]))
        .unwrap_err()
        .to_string();
        assert_eq!(err, expected, "prefix {prefix:?}");
    }
    let long = "a".repeat(1025);
    let err = parse_args(words(&[
        "--hypothesis-state-file",
        "/tmp/state.json",
        "--output-s3-bucket",
        "research-bucket",
        "--output-s3-prefix",
        &long,
    ]))
    .unwrap_err()
    .to_string();
    assert_eq!(err, "--output-s3-prefix must be at most 1024 bytes");
    let err = parse_args(words(&[
        "--hypothesis-state-file",
        "/tmp/state.json",
        "--output-s3-bucket",
        "research-bucket",
    ]))
    .unwrap_err()
    .to_string();
    assert_eq!(err, "--output-s3-prefix is required");
}

#[test]
fn integer_parsing_follows_std() {
    assert_eq!(parse_i64("+5"), Some(5));
    assert_eq!(parse_i64("-9223372036854775808"), Some(i64::MIN));
    assert_eq!(parse_i64("9223372036854775807"), Some(i64::MAX));
    assert_eq!(parse_i64("9223372036854775808"), None);
    assert_eq!(parse_i64("-"), None);
    assert_eq!(parse_i64(""), None);
    assert_eq!(parse_i64(" 1"), None);
    assert_eq!(parse_usize("+7"), Some(7));
    assert_eq!(parse_usize("-7"), None);
    assert_eq!(parse_usize("007"), Some(7));
    for text in ["0", "+12", "-12", "99999999999999999999", "1_0", "x"] {
        assert_eq!(parse_i64(text), text.parse::<i64>().ok(), "{text}");
        assert_eq!(parse_usize(text), text.parse::<usize>().ok(), "{text}");
    }
}

#[test]
fn json_payload_keys() {
    assert!(is_json_payload_key("a/b.json"));
    assert!(is_json_payload_key("a/b.jsonl"));
    assert!(!is_json_payload_key("a/b.json.gz"));
    assert!(!is_json_payload_key("json"));
}

#[test]
fn partition_and_keys_of_a_time() {
    let p = partition(7_200_000);
    assert_eq!(p.date, "1970-01-01");
    assert_eq!(p.hour, 2);
    let p = partition(947_638_923_004);
    assert_eq!(p.date, "2000-01-12");
    assert_eq!(p.hour, 1);
    let p = partition(-1);
    assert_eq!(p.date, "1969-12-31");
    assert_eq!(p.hour, 23);
    let p = partition(i64::MIN);
    assert_eq!(p.date, "1970-01-01");
    assert_eq!(p.hour, 0);
    assert_eq!(
        harness_job_key(7_200_000, "recomp_report_001"),
        "hypothesis-harness-job/schema=hypothesis_harness_job_v1/dt=1970-01-01/hour=02/orchestrator_report_id=recomp_report_001/part-000001.jsonl"
    );
    assert_eq!(
        orchestrator_report_key(7_200_000, "recomp_report_001"),
        "recomposition-orchestrator-report/schema=recomposition_orchestrator_report_v1/dt=1970-01-01/hour=02/orchestrator_report_id=recomp_report_001/report.json"
    );
}

#[test]
fn stable_id_is_a_prefix_and_24_hex_digits_of_sha256() {
    let id = stable_id("recomp_report", &strings(&["7200000", "3"]));
    let digest = Sha256::digest(b"7200000\x003\x00");
    assert_eq!(id, format!("recomp_report_{}", &hex(&digest)[..24]));
    assert_eq!(id, stable_id("recomp_report", &strings(&["7200000", "3"])));
    assert_ne!(id, stable_id("recomp_report", &strings(&["7200000", "4"])));
    assert_eq!(id.len(), "recomp_report".len() + 25);
    assert!(id["recomp_report_".len()..].chars().all(|c| c.is_ascii_hexdigit() && !c.is_ascii_uppercase()));
    let h = sha256_hex_of(b"abc");
    assert_eq!(h, "ba7816bf8f01cfea414140de5dae2223b00361a396177a9cb410ff61f20015ad");
    assert_eq!(h.len(), 64);
}

#[test]
fn prefixed_keys_drop_outer_slashes() {
    assert_eq!(prefixed_key("//a/b//", "k"), "a/b/k");
    assert_eq!(prefixed_key("///", "k"), "k");
    assert_eq!(prefixed_key("", "k"), "k");
    assert_eq!(s3_uri("bucket", "a/k"), "s3://bucket/a/k");
    assert_eq!(safe_prefixed_key("", "k.json").unwrap(), "k.json");
    assert!(safe_prefixed_key("a", "").is_ok());
    assert!(safe_prefixed_key("a/../b", "k").is_err());
}

#[test]
fn key_components_and_output_keys() {
    assert_eq!(
        validate_key_component("", "orchestrator report id").unwrap_err().to_string(),
        "orchestrator report id is required"
    );
    assert_eq!(
        validate_key_component("..", "orchestrator report id").unwrap_err().to_string(),
        "orchestrator report id must not be a period-only path segment"
    );
    assert_eq!(
        validate_key_component("a/b", "orchestrator report id").unwrap_err().to_string(),
        "orchestrator report id must not contain path separators or control characters"
    );
    assert!(validate_key_component(".hidden", "orchestrator report id").is_ok());
    assert_eq!(validate_output_key("").unwrap_err().to_string(), "output key is required");
    assert_eq!(
        validate_output_key(&"k".repeat(1025)).unwrap_err().to_string(),
        "output key must be at most 1024 bytes"
    );
    assert!(validate_output_key("a/b..c/d.json").is_ok());
    assert_eq!(
        output_file_path("/tmp/out", "a/b.json").unwrap(),
        "/tmp/out/a/b.json"
    );
    assert_eq!(output_file_path("/tmp/out/", "a.json").unwrap(), "/tmp/out/a.json");
}

#[test]
fn changed_triggers_are_trimmed_sorted_and_unique() {
    let set = changed_trigger_set(&strings(&[" b ", "a", "", "  ", "b", "c\t"]));
    assert_eq!(set.to_vec(), strings(&["a", "b", "c"]));
    assert_eq!(set.len(), 3);
    assert!(set.contains("b"));
    assert!(!set.contains(" b "));
    let set = TriggerSet::from_values(&strings(&["é", "z", "a", "Z"]));
    assert_eq!(set.to_vec(), strings(&["Z", "a", "z", "é"]));
}

#[test]
fn priority_follows_the_matched_triggers() {
    let changed = TriggerSet::from_values(&strings(&[
        "market_context_updated",
        "scoring_policy_version_changed",
        "market_feature_delta_updated",
    ]));
    let job = build_job_if_dirty(&state(&["market_context_updated"]), &changed, 0).unwrap();
    assert_eq!(job.priority, "p2_observe_refresh");
    let job = build_job_if_dirty(
        &state(&["market_feature_delta_updated", "scoring_policy_version_changed", "other"]),
        &changed,
        0,
    )
    .unwrap();
    assert_eq!(job.priority, "p0_recompute");
    assert_eq!(
        job.matched_dirty_triggers,
        strings(&["market_feature_delta_updated", "scoring_policy_version_changed"])
    );
    assert_eq!(
        job.changed_triggers,
        strings(&[
            "market_context_updated",
            "market_feature_delta_updated",
            "scoring_policy_version_changed",
        ])
    );
}

#[test]
fn job_fields_identifiers_and_checksum() {
    let changed = TriggerSet::from_values(&strings(&["market_feature_delta_updated"]));
    let job = build_job_if_dirty(&state(&["market_feature_delta_updated"]), &changed, 7_200_000)
        .unwrap();
    let id = stable_id(
        "harness_job",
        &strings(&[
            "hyp_001",
            "hypothesis-state/state.json",
            "1000",
            "7200000",
            "market_feature_delta_updated",
        ]),
    );
    assert_eq!(job.harness_job_id, id);
    assert_eq!(
        job.idempotency_key,
        stable_id("harness_job_idem", &strings(&["hyp_001", "1000"]))
    );
    assert_eq!(job.schema_version, "hypothesis_harness_job_v1");
    assert_eq!(job.producer_app, "recomposition-orchestrator-app");
    assert_eq!(job.producer_version, "0.1.0");
    assert_eq!(job.input_refs, strings(&["packet_001"]));
    let mut unsealed = clone_job(&job);
    unsealed.checksum = String::new();
    let digest = Sha256::digest(job_json_text(&unsealed).as_bytes());
    assert_eq!(job.checksum, hex(&digest));
    assert_eq!(job.checksum.len(), 64);
    let later = build_job_if_dirty(&state(&["market_feature_delta_updated"]), &changed, 9_000_000)
        .unwrap();
    assert_eq!(later.idempotency_key, job.idempotency_key);
    assert_ne!(later.harness_job_id, job.harness_job_id);
}

fn clone_job(j: &HarnessJob) -> HarnessJob {
    HarnessJob {
        harness_job_id: j.harness_job_id.clone(),
        schema_version: j.schema_version.clone(),
        producer_app: j.producer_app.clone(),
        producer_version: j.producer_version.clone(),
        created_at_ms: j.created_at_ms,
        hypothesis_id: j.hypothesis_id.clone(),
        hypothesis_state_key: j.hypothesis_state_key.clone(),
        latest_screening_event_id: j.latest_screening_event_id.clone(),
        requested_harness_type: j.requested_harness_type.clone(),
        changed_triggers: j.changed_triggers.clone(),
        matched_dirty_triggers: j.matched_dirty_triggers.clone(),
        input_refs: j.input_refs.clone(),
        priority: j.priority.clone(),
        idempotency_key: j.idempotency_key.clone(),
        checksum: j.checksum.clone(),
    }
}

#[test]
fn job_json_is_compact_serde_json() {
    let job = HarnessJob {
        harness_job_id: "id".to_owned(),
        schema_version: "s".to_owned(),
        producer_app: "p".to_owned(),
        producer_version: "v".to_owned(),
        created_at_ms: -5,
        hypothesis_id: "h\"q\\\n\u{1}é".to_owned(),
        hypothesis_state_key: "k".to_owned(),
        latest_screening_event_id: "e".to_owned(),
        requested_harness_type: "t".to_owned(),
        changed_triggers: strings(&["a", "b"]),
        matched_dirty_triggers: strings(&["a"]),
        input_refs: Vec::new(),
        priority: "p2".to_owned(),
        idempotency_key: "i".to_owned(),
        checksum: String::new(),
    };
    let expected = "{\"harness_job_id\":\"id\",\"schema_version\":\"s\",\"producer_app\":\"p\",\"producer_version\":\"v\",\"created_at_ms\":-5,\"hypothesis_id\":\"h\\\"q\\\\\\n\\u0001é\",\"hypothesis_state_key\":\"k\",\"latest_screening_event_id\":\"e\",\"requested_harness_type\":\"t\",\"changed_triggers\":[\"a\",\"b\"],\"matched_dirty_triggers\":[\"a\"],\"input_refs\":[],\"priority\":\"p2\",\"idempotency_key\":\"i\",\"checksum\":\"\"}";
    assert_eq!(job_json_text(&job), expected);
    let parsed: serde_json::Value = serde_json::from_str(&job_json_text(&job)).unwrap();
    assert_eq!(parsed["hypothesis_id"], "h\"q\\\n\u{1}é");
    assert_eq!(jsonl_text(&vec![clone_job(&job), job]), format!("{expected}\n{expected}\n"));
    assert_eq!(jsonl_text(&Vec::new()), "");
}

#[test]
fn report_counts_ids_and_texts() {
    let changed = TriggerSet::from_values(&strings(&["market_feature_delta_updated"]));
    let jobs = vec![
        build_job_if_dirty(&state(&["market_feature_delta_updated"]), &changed, 7_200_000).unwrap(),
    ];
    let report = build_report(7_200_000, 3, 2, &jobs, &changed);
    assert_eq!(report.orchestrator_report_id, stable_id("recomp_report", &strings(&["7200000", "3"])));
    assert_eq!(report.selected_job_count, 1);
    assert_eq!(report.skipped_count, 2);
    assert_eq!(report.input_hypothesis_count, 3);
    assert_eq!(report.input_s3_keys_read, 2);
    assert_eq!(
        report.output_job_key,
        harness_job_key(7_200_000, &report.orchestrator_report_id)
    );
    let short = build_report(7_200_000, 0, 0, &jobs, &changed);
    assert_eq!(short.skipped_count, 0);

    let text = report_json_text(&report);
    let mut blank = report_json_text(&report);
    blank = blank.replace(&format!("\"checksum\":\"{}\"", report.checksum), "\"checksum\":\"\"");
    assert_eq!(report.checksum, hex(&Sha256::digest(blank.as_bytes())));
    let parsed: serde_json::Value = serde_json::from_str(&text).unwrap();
    assert_eq!(parsed["skipped_count"], 2);

    let pretty = report_pretty_text(&report);
    let expected = format!(
        "{{\n  \"orchestrator_report_id\": \"{}\",\n  \"schema_version\": \"recomposition_orchestrator_report_v1\",\n  \"producer_app\": \"recomposition-orchestrator-app\",\n  \"producer_version\": \"0.1.0\",\n  \"created_at_ms\": 7200000,\n  \"input_hypothesis_count\": 3,\n  \"input_s3_keys_read\": 2,\n  \"selected_job_count\": 1,\n  \"skipped_count\": 2,\n  \"changed_triggers\": [\n    \"market_feature_delta_updated\"\n  ],\n  \"output_job_key\": \"{}\",\n  \"checksum\": \"{}\"\n}}",
        report.orchestrator_report_id, report.output_job_key, report.checksum
    );
    assert_eq!(pretty, expected);
}

#[test]
fn run_plan_selects_dirty_states_in_order() {
    let states = vec![
        state(&["market_feature_delta_updated"]),
        state(&["source_registry_version_changed"]),
        state(&["derivatives_rollup_updated"]),
    ];
    let plan = plan_run(
        &states,
        0,
        &strings(&[" market_feature_delta_updated ", "derivatives_rollup_updated"]),
        7_200_000,
    )
    .unwrap();
    assert_eq!(plan.jobs.len(), 2);
    assert_eq!(plan.jobs[1].matched_dirty_triggers, strings(&["derivatives_rollup_updated"]));
    assert_eq!(plan.report.selected_job_count, 2);
    assert_eq!(plan.report.skipped_count, 1);
    let err = plan_run(&states, 0, &strings(&["  ", ""]), 7_200_000).unwrap_err();
    assert_eq!(err.to_string(), "--changed-trigger is required");
    assert_eq!(resolve_created_at(Some(42)).unwrap(), 42);
}

#[test]
fn payload_framing() {
    match frame_json_payload("f", b"  [1, 2]\n").unwrap() {
        PayloadFrame::Array(text) => assert_eq!(text, "[1, 2]"),
        _ => panic!("array expected"),
    }
    match frame_json_payload("f", b"{\"a\":1}\n\n  {\"a\":2}\r\n").unwrap() {
        PayloadFrame::Object(text, lines) => {
            assert_eq!(text, "{\"a\":1}\n\n  {\"a\":2}");
            assert_eq!(lines.len(), 2);
            assert_eq!((lines[0].number, lines[0].text.as_str()), (1, "{\"a\":1}"));
            assert_eq!((lines[1].number, lines[1].text.as_str()), (3, "{\"a\":2}"));
        }
        _ => panic!("object expected"),
    }
    match frame_json_payload("f", b"x\n y \n").unwrap() {
        PayloadFrame::Lines(lines) => {
            assert_eq!(lines.len(), 2);
            assert_eq!((lines[1].number, lines[1].text.as_str()), (2, "y"));
        }
        _ => panic!("lines expected"),
    }
    let err = frame_json_payload("f", b" \n\t").unwrap_err();
    assert_eq!(err.kind, ErrorKind::Validation);
    assert_eq!(err.to_string(), "f must not be empty");
    let err = frame_json_payload("f", &[0xff, 0xfe]).unwrap_err();
    assert_eq!(err.kind, ErrorKind::Json);
    assert!(err.to_string().starts_with("f: invalid utf-8"));
    assert_eq!(
        line_error("s3://b/k", 12, "bad").to_string(),
        "s3://b/k line 12 is not valid JSON: bad"
    );
}

#[test]
fn run_time_is_given_or_read_from_the_clock() {
    assert_eq!(resolve_created_at(Some(-5)).unwrap(), -5);
    let t = resolve_created_at(None).unwrap();
    assert!(t > 1_600_000_000_000);
}

#[test]
fn job_lines_frame_back_into_the_jobs() {
    let states = vec![
        state(&["market_feature_delta_updated"]),
        state(&["derivatives_rollup_updated"]),
    ];
    let plan = plan_run(
        &states,
        0,
        &strings(&["market_feature_delta_updated", "derivatives_rollup_updated"]),
        7_200_000,
    )
    .unwrap();
    let text = jsonl_text(&plan.jobs);
    match frame_json_payload("jobs", text.as_bytes()).unwrap() {
        PayloadFrame::Object(whole, lines) => {
            assert_eq!(whole, text.trim_end());
            assert_eq!(lines.len(), 2);
            for (i, line) in lines.iter().enumerate() {
                assert_eq!(line.number, i + 1);
                assert_eq!(line.text, job_json_text(&plan.jobs[i]));
            }
        }
        _ => panic!("object expected"),
    }
}

fn gregorian(days: i64) -> (i64, i64, i64) {
    let z = days + 719_468;
    let era = z.div_euclid(146_097);
    let doe = z - era * 146_097;
    let yoe = (doe - doe / 1460 + doe / 36_524 - doe / 146_096) / 365;
    let doy = doe - (365 * yoe + yoe / 4 - yoe / 100);
    let mp = (5 * doy + 2) / 153;
    let d = doy - (153 * mp + 2) / 5 + 1;
    let m = if mp < 10 { mp + 3 } else { mp - 9 };
    (yoe + era * 400 + if m <= 2 { 1 } else { 0 }, m, d)
}

#[test]
fn partition_dates_follow_the_gregorian_calendar() {
    let mut days: i64 = -800_000;
    while days < 3_000_000 {
        let ms = days * 86_400_000 + 3_600_000 * 5 + 17;
        let (y, m, d) = gregorian(days);
        let p = partition(ms);
        assert_eq!(p.date, format!("{y:04}-{m:02}-{d:02}"), "day {days}");
        assert_eq!(p.hour, 5);
        days += 997;
    }
    assert_eq!(partition(951_782_400_000).date, "2000-02-29");
    assert_eq!(partition(-62_135_596_800_000).date, "0001-01-01");
    assert_eq!(partition(-62_135_596_800_001).date, "0000-12-31");
}

#[test]
fn clock_readings_become_run_times() {
    assert_eq!(millis_to_time(Some(1_700_000_000_123)), Some(1_700_000_000_123));
    assert_eq!(millis_to_time(Some(i64::MAX as u128)), Some(i64::MAX));
    assert_eq!(millis_to_time(Some(i64::MAX as u128 + 1)), None);
    assert_eq!(millis_to_time(None), None);
    assert_eq!(created_at_from(Some(7), Some(9)).unwrap(), 7);
    assert_eq!(created_at_from(None, Some(9)).unwrap(), 9);
    let err = created_at_from(None, None).unwrap_err();
    assert_eq!(err.kind, ErrorKind::Io);
    assert_eq!(err.to_string(), "system time before Unix epoch or out of range");
}

#[test]
fn run_at_checks_triggers_before_the_time() {
    let states = vec![state(&["market_feature_delta_updated"])];
    let err = plan_run_at(&states, 0, &strings(&[" "]), None).unwrap_err();
    assert_eq!(err.kind, ErrorKind::Config);
    assert_eq!(err.to_string(), "--changed-trigger is required");
    let plan = plan_run_at(&states, 0, &strings(&["market_feature_delta_updated"]), Some(7_200_000)).unwrap();
    assert_eq!(plan.report.created_at_ms, 7_200_000);
    assert_eq!(plan.jobs.len(), 1);
    let plan = plan_run_at(&states, 0, &strings(&["market_feature_delta_updated"]), None).unwrap();
    assert!(plan.report.created_at_ms > 1_600_000_000_000);
    assert_eq!(plan.jobs[0].created_at_ms, plan.report.created_at_ms);
}

fn days_from_civil(y: i64, m: i64, d: i64) -> i64 {
    let y = if m <= 2 { y - 1 } else { y };
    let era = y.div_euclid(400);
    let yoe = y - era * 400;
    let mp = if m > 2 { m - 3 } else { m + 9 };
    let doy = (153 * mp + 2) / 5 + d - 1;
    let doe = yoe * 365 + yoe / 4 - yoe / 100 + doy;
    era * 146_097 + doe - 719_468
}

#[test]
fn partition_falls_back_outside_chrono_years() {
    let last = days_from_civil(262_142, 12, 31) * 86_400_000;
    assert_eq!(partition(last + 3_600_000).date, "262142-12-31");
    assert_eq!(partition(last + 3_600_000).hour, 1);
    let after = partition(last + 86_400_000 + 3_600_000);
    assert_eq!((after.date.as_str(), after.hour), ("1970-01-01", 0));
    let first = days_from_civil(-262_143, 1, 1) * 86_400_000;
    assert_eq!(partition(first).date, "-262143-01-01");
    let before = partition(first - 1);
    assert_eq!((before.date.as_str(), before.hour), ("1970-01-01", 0));
    assert_eq!(partition(i64::MAX).date, "1970-01-01");
}

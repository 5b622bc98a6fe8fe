//! The run's arguments, with their mathematical views.
use vstd::prelude::*;

verus! {

/// Where hypothesis states are listed and read from in S3.
#[derive(Debug)]
pub struct S3InputArgs {
    pub bucket: String,
    pub region: String,
    pub prefix: String,
    pub profile: Option<String>,
    pub max_keys: usize,
}

/// Where jobs and the report are written in S3.
#[derive(Debug)]
pub struct S3OutputArgs {
    pub bucket: String,
    pub region: String,
    pub prefix: String,
    pub profile: Option<String>,
}

/// The arguments of one run. Local paths are held as text.
#[derive(Debug)]
pub struct Args {
    pub hypothesis_state_file: Option<String>,
    pub input_s3: Option<S3InputArgs>,
    pub changed_trigger: Vec<String>,
    pub output_dir: Option<String>,
    pub output_s3: Option<S3OutputArgs>,
    pub now_ms: Option<i64>,
}

pub struct S3InputView {
    pub bucket: Seq<char>,
    pub region: Seq<char>,
    pub prefix: Seq<char>,
    pub profile: Option<Seq<char>>,
    pub max_keys: usize,
}

pub struct S3OutputView {
    pub bucket: Seq<char>,
    pub region: Seq<char>,
    pub prefix: Seq<char>,
    pub profile: Option<Seq<char>>,
}

pub struct ArgsView {
    pub hypothesis_state_file: Option<Seq<char>>,
    pub input_s3: Option<S3InputView>,
    pub changed_trigger: Seq<Seq<char>>,
    pub output_dir: Option<Seq<char>>,
    pub output_s3: Option<S3OutputView>,
    pub now_ms: Option<i64>,
}

/// An optional string, taken by its characters.
pub open spec fn opt_str(o: Option<String>) -> Option<Seq<char>> {
    match o {
        Some(s) => Some(s@),
        None => None,
    }
}

/// A list of strings, each taken by its characters.
pub open spec fn strs(v: Seq<String>) -> Seq<Seq<char>> {
    v.map_values(|s: String| s@)
}

impl View for S3InputArgs {
    type V = S3InputView;

    open spec fn view(&self) -> S3InputView {
        S3InputView {
            bucket: self.bucket@,
            region: self.region@,
            prefix: self.prefix@,
            profile: opt_str(self.profile),
            max_keys: self.max_keys,
        }
    }
}

impl View for S3OutputArgs {
    type V = S3OutputView;

    open spec fn view(&self) -> S3OutputView {
        S3OutputView {
            bucket: self.bucket@,
            region: self.region@,
            prefix: self.prefix@,
            profile: opt_str(self.profile),
        }
    }
}

impl View for Args {
    type V = ArgsView;

    open spec fn view(&self) -> ArgsView {
        ArgsView {
            hypothesis_state_file: opt_str(self.hypothesis_state_file),
            input_s3: match self.input_s3 {
                Some(s) => Some(s@),
                None => None,
            },
            changed_trigger: strs(self.changed_trigger@),
            output_dir: opt_str(self.output_dir),
            output_s3: match self.output_s3 {
                Some(s) => Some(s@),
                None => None,
            },
            now_ms: self.now_ms,
        }
    }
}


/// The fields of a stored hypothesis state that the selection reads.
#[derive(Debug)]
pub struct HypothesisState {
    pub hypothesis_id: String,
    pub state_key: String,
    pub updated_at_ms: i64,
    pub latest_screening_event_id: String,
    pub harness_queue_hint: String,
    pub lineage_refs: Vec<String>,
    pub dirty_triggers: Vec<String>,
}

pub struct HypothesisStateView {
    pub hypothesis_id: Seq<char>,
    pub state_key: Seq<char>,
    pub updated_at_ms: i64,
    pub latest_screening_event_id: Seq<char>,
    pub harness_queue_hint: Seq<char>,
    pub lineage_refs: Seq<Seq<char>>,
    pub dirty_triggers: Seq<Seq<char>>,
}

impl View for HypothesisState {
    type V = HypothesisStateView;

    open spec fn view(&self) -> HypothesisStateView {
        HypothesisStateView {
            hypothesis_id: self.hypothesis_id@,
            state_key: self.state_key@,
            updated_at_ms: self.updated_at_ms,
            latest_screening_event_id: self.latest_screening_event_id@,
            harness_queue_hint: self.harness_queue_hint@,
            lineage_refs: strs(self.lineage_refs@),
            dirty_triggers: strs(self.dirty_triggers@),
        }
    }
}

/// One unit of work for the hypothesis harness.
#[derive(Debug)]
pub struct HarnessJob {
    pub harness_job_id: String,
    pub schema_version: String,
    pub producer_app: String,
    pub producer_version: String,
    pub created_at_ms: i64,
    pub hypothesis_id: String,
    pub hypothesis_state_key: String,
    pub latest_screening_event_id: String,
    pub requested_harness_type: String,
    pub changed_triggers: Vec<String>,
    pub matched_dirty_triggers: Vec<String>,
    pub input_refs: Vec<String>,
    pub priority: String,
    pub idempotency_key: String,
    pub checksum: String,
}

pub struct HarnessJobView {
    pub harness_job_id: Seq<char>,
    pub schema_version: Seq<char>,
    pub producer_app: Seq<char>,
    pub producer_version: Seq<char>,
    pub created_at_ms: i64,
    pub hypothesis_id: Seq<char>,
    pub hypothesis_state_key: Seq<char>,
    pub latest_screening_event_id: Seq<char>,
    pub requested_harness_type: Seq<char>,
    pub changed_triggers: Seq<Seq<char>>,
    pub matched_dirty_triggers: Seq<Seq<char>>,
    pub input_refs: Seq<Seq<char>>,
    pub priority: Seq<char>,
    pub idempotency_key: Seq<char>,
    pub checksum: Seq<char>,
}

impl View for HarnessJob {
    type V = HarnessJobView;

    open spec fn view(&self) -> HarnessJobView {
        HarnessJobView {
            harness_job_id: self.harness_job_id@,
            schema_version: self.schema_version@,
            producer_app: self.producer_app@,
            producer_version: self.producer_version@,
            created_at_ms: self.created_at_ms,
            hypothesis_id: self.hypothesis_id@,
            hypothesis_state_key: self.hypothesis_state_key@,
            latest_screening_event_id: self.latest_screening_event_id@,
            requested_harness_type: self.requested_harness_type@,
            changed_triggers: strs(self.changed_triggers@),
            matched_dirty_triggers: strs(self.matched_dirty_triggers@),
            input_refs: strs(self.input_refs@),
            priority: self.priority@,
            idempotency_key: self.idempotency_key@,
            checksum: self.checksum@,
        }
    }
}

/// The record of one run: what was read, selected and skipped.
#[derive(Debug)]
pub struct OrchestratorReport {
    pub orchestrator_report_id: String,
    pub schema_version: String,
    pub producer_app: String,
    pub producer_version: String,
    pub created_at_ms: i64,
    pub input_hypothesis_count: usize,
    pub input_s3_keys_read: usize,
    pub selected_job_count: usize,
    pub skipped_count: usize,
    pub changed_triggers: Vec<String>,
    pub output_job_key: String,
    pub checksum: String,
}

pub struct OrchestratorReportView {
    pub orchestrator_report_id: Seq<char>,
    pub schema_version: Seq<char>,
    pub producer_app: Seq<char>,
    pub producer_version: Seq<char>,
    pub created_at_ms: i64,
    pub input_hypothesis_count: usize,
    pub input_s3_keys_read: usize,
    pub selected_job_count: usize,
    pub skipped_count: usize,
    pub changed_triggers: Seq<Seq<char>>,
    pub output_job_key: Seq<char>,
    pub checksum: Seq<char>,
}

impl View for OrchestratorReport {
    type V = OrchestratorReportView;

    open spec fn view(&self) -> OrchestratorReportView {
        OrchestratorReportView {
            orchestrator_report_id: self.orchestrator_report_id@,
            schema_version: self.schema_version@,
            producer_app: self.producer_app@,
            producer_version: self.producer_version@,
            created_at_ms: self.created_at_ms,
            input_hypothesis_count: self.input_hypothesis_count,
            input_s3_keys_read: self.input_s3_keys_read,
            selected_job_count: self.selected_job_count,
            skipped_count: self.skipped_count,
            changed_triggers: strs(self.changed_triggers@),
            output_job_key: self.output_job_key@,
            checksum: self.checksum@,
        }
    }
}

} // verus!

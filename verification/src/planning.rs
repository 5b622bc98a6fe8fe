//! Which hypothesis states a trigger change makes dirty, the harness job for
//! each, and the report of the run.
use crate::error::{config_error, result_is, AppError, ErrorKind, ErrorView};
use crate::ids::{now_ms, sha256_hex, sha256_hex_of, stable_id, stable_id_spec};
use crate::json::{job_json, job_json_text, report_json, report_json_text};
use crate::keys::{
    harness_job_key, harness_job_key_spec, JOB_SCHEMA_VERSION, PRODUCER_APP, PRODUCER_VERSION,
    REPORT_SCHEMA_VERSION,
};
use crate::text::{append_str, dec_chars, eq_str, int_chars, push_char, push_decimal, push_int};
use crate::triggers::{changed_seq, changed_trigger_set, TriggerSet};
use crate::types::{
    strs, HarnessJob, HarnessJobView, HypothesisState, HypothesisStateView, OrchestratorReport,
    OrchestratorReportView,
};
use vstd::prelude::*;
use vstd::utf8::encode_utf8;

verus! {

/// The dirty triggers of a state that the change names, in the state's
/// order.
pub open spec fn matched_triggers(dirty: Seq<Seq<char>>, changed: Seq<Seq<char>>) -> Seq<Seq<char>>
    decreases dirty.len(),
{
    if dirty.len() == 0 {
        Seq::empty()
    } else {
        let rest = matched_triggers(dirty.drop_last(), changed);
        let t = dirty[dirty.len() - 1];
        if changed.contains(t) {
            rest.push(t)
        } else {
            rest
        }
    }
}

/// A version change of the candidate app or the scoring policy asks for a
/// recompute; a market or derivatives update for a market retest; anything
/// else for an observation refresh.
pub open spec fn priority_of(matched: Seq<Seq<char>>) -> Seq<char> {
    if matched.contains("candidate_app_version_changed"@) || matched.contains(
        "scoring_policy_version_changed"@,
    ) {
        "p0_recompute"@
    } else if matched.contains("market_feature_delta_updated"@) || matched.contains(
        "derivatives_rollup_updated"@,
    ) {
        "p1_market_retest"@
    } else {
        "p2_observe_refresh"@
    }
}

/// The strings joined by `,` (`join(",")`).
pub open spec fn join_commas(v: Seq<Seq<char>>) -> Seq<char>
    decreases v.len(),
{
    if v.len() == 0 {
        Seq::empty()
    } else if v.len() == 1 {
        v[0]
    } else {
        join_commas(v.drop_last()) + seq![','] + v[v.len() - 1]
    }
}

/// What a job's identifier is derived from: the state's identity and
/// revision, the run's time and the matched triggers.
pub open spec fn job_id_parts(s: HypothesisStateView, created_at_ms: i64, matched: Seq<Seq<char>>) -> Seq<Seq<char>> {
    seq![
        s.hypothesis_id,
        s.state_key,
        int_chars(s.updated_at_ms as int),
        int_chars(created_at_ms as int),
        join_commas(matched),
    ]
}

/// A job before its checksum is set (the checksum is empty).
pub open spec fn unsealed_job(
    s: HypothesisStateView,
    changed: Seq<Seq<char>>,
    created_at_ms: i64,
    matched: Seq<Seq<char>>,
) -> HarnessJobView {
    HarnessJobView {
        harness_job_id: stable_id_spec("harness_job"@, job_id_parts(s, created_at_ms, matched)),
        schema_version: JOB_SCHEMA_VERSION@,
        producer_app: PRODUCER_APP@,
        producer_version: PRODUCER_VERSION@,
        created_at_ms,
        hypothesis_id: s.hypothesis_id,
        hypothesis_state_key: s.state_key,
        latest_screening_event_id: s.latest_screening_event_id,
        requested_harness_type: s.harness_queue_hint,
        changed_triggers: changed,
        matched_dirty_triggers: matched,
        input_refs: s.lineage_refs,
        priority: priority_of(matched),
        idempotency_key: stable_id_spec(
            "harness_job_idem"@,
            seq![s.hypothesis_id, int_chars(s.updated_at_ms as int)],
        ),
        checksum: Seq::empty(),
    }
}

/// A job with its checksum: the SHA-256 of its compact JSON with an empty
/// checksum.
pub open spec fn sealed_job(j: HarnessJobView) -> HarnessJobView {
    HarnessJobView { checksum: sha256_hex(encode_utf8(job_json(j))), ..j }
}

/// The job for a state, if the change names one of its dirty triggers.
pub open spec fn job_for(s: HypothesisStateView, changed: Seq<Seq<char>>, created_at_ms: i64) -> Option<
    HarnessJobView,
> {
    let matched = matched_triggers(s.dirty_triggers, changed);
    if matched.len() == 0 {
        None
    } else {
        Some(sealed_job(unsealed_job(s, changed, created_at_ms, matched)))
    }
}

pub open spec fn job_option_is(r: Option<HarnessJob>, v: Option<HarnessJobView>) -> bool {
    match (r, v) {
        (None, None) => true,
        (Some(j), Some(w)) => j@ == w,
        _ => false,
    }
}

fn int_string(x: i64) -> (s: String)
    ensures
        s@ == int_chars(x as int),
{
    let mut s = String::new();
    push_int(&mut s, x);
    assert(s@ =~= int_chars(x as int));
    s
}

fn join_with_commas(v: &Vec<String>) -> (s: String)
    ensures
        s@ == join_commas(strs(v@)),
{
    let ghost sv = strs(v@);
    let mut s = String::new();
    let mut i: usize = 0;
    while i < v.len()
        invariant
            i <= v@.len(),
            sv == strs(v@),
            s@ == join_commas(sv.take(i as int)),
        decreases v@.len() - i,
    {
        if i > 0 {
            push_char(&mut s, ',');
        }
        append_str(&mut s, v[i].as_str());
        proof {
            let t = sv.take(i + 1);
            assert(t.drop_last() =~= sv.take(i as int));
            assert(t[i as int] == v@[i as int]@);
            assert(s@ =~= join_commas(t));
        }
        i = i + 1;
    }
    assert(sv.take(v@.len() as int) =~= sv);
    s
}

fn contains_literal(v: &Vec<String>, lit: &str) -> (b: bool)
    ensures
        b == strs(v@).contains(lit@),
{
    let mut i: usize = 0;
    while i < v.len()
        invariant
            i <= v@.len(),
            forall|k: int| 0 <= k < i ==> strs(v@)[k] != lit@,
        decreases v@.len() - i,
    {
        if eq_str(v[i].as_str(), lit) {
            assert(strs(v@)[i as int] == lit@);
            return true;
        }
        i = i + 1;
    }
    false
}

fn priority(matched: &Vec<String>) -> (p: String)
    ensures
        p@ == priority_of(strs(matched@)),
{
    if contains_literal(matched, "candidate_app_version_changed") || contains_literal(
        matched,
        "scoring_policy_version_changed",
    ) {
        "p0_recompute".to_owned()
    } else if contains_literal(matched, "market_feature_delta_updated") || contains_literal(
        matched,
        "derivatives_rollup_updated",
    ) {
        "p1_market_retest".to_owned()
    } else {
        "p2_observe_refresh".to_owned()
    }
}

fn clone_strings(v: &Vec<String>) -> (c: Vec<String>)
    ensures
        c@ == v@,
{
    let mut c: Vec<String> = Vec::new();
    let mut i: usize = 0;
    while i < v.len()
        invariant
            i <= v@.len(),
            c@ == v@.take(i as int),
        decreases v@.len() - i,
    {
        c.push(v[i].clone());
        i = i + 1;
        assert(c@ =~= v@.take(i as int));
    }
    assert(c@ =~= v@);
    c
}

/// The harness job for a state, or nothing where the change names none of
/// the state's dirty triggers.
pub fn build_job_if_dirty(state: &HypothesisState, changed: &TriggerSet, created_at_ms: i64) -> (r:
    Option<HarnessJob>)
    ensures
        job_option_is(r, job_for(state@, changed@, created_at_ms)),
{
    let ghost dirty = strs(state.dirty_triggers@);
    let mut matched: Vec<String> = Vec::new();
    let mut i: usize = 0;
    while i < state.dirty_triggers.len()
        invariant
            i <= state.dirty_triggers@.len(),
            dirty == strs(state.dirty_triggers@),
            strs(matched@) == matched_triggers(dirty.take(i as int), changed@),
        decreases state.dirty_triggers@.len() - i,
    {
        let t = &state.dirty_triggers[i];
        let hit = changed.contains(t.as_str());
        proof {
            assert(dirty.take(i + 1).drop_last() =~= dirty.take(i as int));
            assert(dirty.take(i + 1)[i as int] == t@);
        }
        if hit {
            matched.push(t.clone());
            assert(strs(matched@) =~= matched_triggers(dirty.take(i + 1), changed@));
        }
        i = i + 1;
    }
    assert(dirty.take(state.dirty_triggers@.len() as int) =~= dirty);
    if matched.len() == 0 {
        return None;
    }
    let ghost mv = strs(matched@);
    let mut parts: Vec<String> = Vec::new();
    parts.push(state.hypothesis_id.clone());
    parts.push(state.state_key.clone());
    parts.push(int_string(state.updated_at_ms));
    parts.push(int_string(created_at_ms));
    parts.push(join_with_commas(&matched));
    assert(parts@.map_values(|s: String| s@) =~= job_id_parts(state@, created_at_ms, mv));
    let harness_job_id = stable_id("harness_job", &parts);
    let mut idem_parts: Vec<String> = Vec::new();
    idem_parts.push(state.hypothesis_id.clone());
    idem_parts.push(int_string(state.updated_at_ms));
    assert(idem_parts@.map_values(|s: String| s@) =~= seq![
        state@.hypothesis_id,
        int_chars(state.updated_at_ms as int),
    ]);
    let idempotency_key = stable_id("harness_job_idem", &idem_parts);
    let prio = priority(&matched);
    let mut job = HarnessJob {
        harness_job_id,
        schema_version: JOB_SCHEMA_VERSION.to_owned(),
        producer_app: PRODUCER_APP.to_owned(),
        producer_version: PRODUCER_VERSION.to_owned(),
        created_at_ms,
        hypothesis_id: state.hypothesis_id.clone(),
        hypothesis_state_key: state.state_key.clone(),
        latest_screening_event_id: state.latest_screening_event_id.clone(),
        requested_harness_type: state.harness_queue_hint.clone(),
        changed_triggers: changed.to_vec(),
        matched_dirty_triggers: matched,
        input_refs: clone_strings(&state.lineage_refs),
        priority: prio,
        idempotency_key,
        checksum: String::new(),
    };
    assert(job@ == unsealed_job(state@, changed@, created_at_ms, mv));
    let text = job_json_text(&job);
    job.checksum = sha256_hex_of(text.as_str().as_bytes());
    assert(job@ == sealed_job(unsealed_job(state@, changed@, created_at_ms, mv)));
    Some(job)
}

/// The report before its checksum is set (the checksum is empty).
pub open spec fn unsealed_report(
    created_at_ms: i64,
    input_count: usize,
    input_s3_keys_read: usize,
    job_count: nat,
    changed: Seq<Seq<char>>,
) -> OrchestratorReportView {
    let id = stable_id_spec(
        "recomp_report"@,
        seq![int_chars(created_at_ms as int), dec_chars(input_count as nat)],
    );
    OrchestratorReportView {
        orchestrator_report_id: id,
        schema_version: REPORT_SCHEMA_VERSION@,
        producer_app: PRODUCER_APP@,
        producer_version: PRODUCER_VERSION@,
        created_at_ms,
        input_hypothesis_count: input_count,
        input_s3_keys_read,
        selected_job_count: job_count as usize,
        skipped_count: if input_count >= job_count {
            (input_count - job_count) as usize
        } else {
            0
        },
        changed_triggers: changed,
        output_job_key: harness_job_key_spec(created_at_ms, id),
        checksum: Seq::empty(),
    }
}

/// The report of a run, with its checksum: the SHA-256 of its compact JSON
/// with an empty checksum.
pub open spec fn report_for(
    created_at_ms: i64,
    input_count: usize,
    input_s3_keys_read: usize,
    job_count: nat,
    changed: Seq<Seq<char>>,
) -> OrchestratorReportView {
    let r = unsealed_report(created_at_ms, input_count, input_s3_keys_read, job_count, changed);
    OrchestratorReportView { checksum: sha256_hex(encode_utf8(report_json(r))), ..r }
}

fn usize_string(n: usize) -> (s: String)
    ensures
        s@ == dec_chars(n as nat),
{
    let mut s = String::new();
    push_decimal(&mut s, n as u64);
    assert(s@ =~= dec_chars(n as nat));
    s
}

/// The report of a run over `input_count` states that selected `jobs`.
pub fn build_report(
    created_at_ms: i64,
    input_count: usize,
    input_s3_keys_read: usize,
    jobs: &Vec<HarnessJob>,
    changed: &TriggerSet,
) -> (r: OrchestratorReport)
    ensures
        r@ == report_for(
            created_at_ms,
            input_count,
            input_s3_keys_read,
            jobs@.len(),
            changed@,
        ),
{
    let mut parts: Vec<String> = Vec::new();
    parts.push(int_string(created_at_ms));
    parts.push(usize_string(input_count));
    assert(parts@.map_values(|s: String| s@) =~= seq![
        int_chars(created_at_ms as int),
        dec_chars(input_count as nat),
    ]);
    let report_id = stable_id("recomp_report", &parts);
    let skipped = if input_count >= jobs.len() {
        input_count - jobs.len()
    } else {
        0
    };
    let output_job_key = harness_job_key(created_at_ms, report_id.as_str());
    let mut report = OrchestratorReport {
        orchestrator_report_id: report_id,
        schema_version: REPORT_SCHEMA_VERSION.to_owned(),
        producer_app: PRODUCER_APP.to_owned(),
        producer_version: PRODUCER_VERSION.to_owned(),
        created_at_ms,
        input_hypothesis_count: input_count,
        input_s3_keys_read,
        selected_job_count: jobs.len(),
        skipped_count: skipped,
        changed_triggers: changed.to_vec(),
        output_job_key,
        checksum: String::new(),
    };
    assert(report@ == unsealed_report(
        created_at_ms,
        input_count,
        input_s3_keys_read,
        jobs@.len(),
        changed@,
    ));
    let text = report_json_text(&report);
    report.checksum = sha256_hex_of(text.as_str().as_bytes());
    report
}


/// The jobs for the states, in the states' order, one for each dirty state.
pub open spec fn jobs_for(states: Seq<HypothesisStateView>, changed: Seq<Seq<char>>, created_at_ms: i64) -> Seq<
    HarnessJobView,
>
    decreases states.len(),
{
    if states.len() == 0 {
        Seq::empty()
    } else {
        let rest = jobs_for(states.drop_last(), changed, created_at_ms);
        match job_for(states[states.len() - 1], changed, created_at_ms) {
            Some(j) => rest.push(j),
            None => rest,
        }
    }
}

/// The jobs and the report of one run.
#[derive(Debug)]
pub struct RunPlan {
    pub jobs: Vec<HarnessJob>,
    pub report: OrchestratorReport,
}

/// What `plan_run` answers: an error where no changed trigger is left after
/// trimming; otherwise the jobs of the dirty states and the report.
pub open spec fn run_plan_verdict(
    states: Seq<HypothesisStateView>,
    input_s3_keys_read: usize,
    raw: Seq<Seq<char>>,
    created_at_ms: i64,
) -> Result<(Seq<HarnessJobView>, OrchestratorReportView), ErrorView> {
    let changed = changed_seq(raw);
    if changed.len() == 0 {
        Err(config_error("--changed-trigger is required"@))
    } else {
        let jobs = jobs_for(states, changed, created_at_ms);
        Ok(
            (
                jobs,
                report_for(created_at_ms, states.len() as usize, input_s3_keys_read, jobs.len(), changed),
            ),
        )
    }
}

pub open spec fn plan_is(
    r: Result<RunPlan, AppError>,
    v: Result<(Seq<HarnessJobView>, OrchestratorReportView), ErrorView>,
) -> bool {
    match (r, v) {
        (Ok(p), Ok(w)) => p.jobs@.map_values(|j: HarnessJob| j@) == w.0 && p.report@ == w.1,
        (Err(e), Err(w)) => e@ == w,
        _ => false,
    }
}

/// The decisions of one run, once the states are read: the changed
/// triggers, a job for each dirty state, and the report.
pub fn plan_run(
    states: &Vec<HypothesisState>,
    input_s3_keys_read: usize,
    changed_trigger: &Vec<String>,
    created_at_ms: i64,
) -> (r: Result<RunPlan, AppError>)
    ensures
        plan_is(
            r,
            run_plan_verdict(
                states@.map_values(|s: HypothesisState| s@),
                input_s3_keys_read,
                strs(changed_trigger@),
                created_at_ms,
            ),
        ),
{
    let ghost sv = states@.map_values(|s: HypothesisState| s@);
    let changed = changed_trigger_set(changed_trigger);
    if changed.is_empty() {
        return Err(AppError::config("--changed-trigger is required".to_owned()));
    }
    let mut jobs: Vec<HarnessJob> = Vec::new();
    let mut i: usize = 0;
    while i < states.len()
        invariant
            i <= states@.len(),
            sv == states@.map_values(|s: HypothesisState| s@),
            jobs@.map_values(|j: HarnessJob| j@) == jobs_for(sv.take(i as int), changed@, created_at_ms),
        decreases states@.len() - i,
    {
        let ghost before = jobs@.map_values(|j: HarnessJob| j@);
        let r = build_job_if_dirty(&states[i], &changed, created_at_ms);
        proof {
            assert(sv.take(i + 1).drop_last() =~= sv.take(i as int));
            assert(sv.take(i + 1)[i as int] == states@[i as int]@);
        }
        match r {
            Some(job) => {
                jobs.push(job);
                assert(jobs@.map_values(|j: HarnessJob| j@) =~= before.push(job@));
            },
            None => {},
        }
        i = i + 1;
    }
    assert(sv.take(states@.len() as int) =~= sv);
    let report = build_report(created_at_ms, states.len(), input_s3_keys_read, &jobs, &changed);
    Ok(RunPlan { jobs, report })
}

/// The error of a run whose time is left to a clock that reads before the
/// Unix epoch, or later than an `i64` of milliseconds can hold.
pub open spec fn clock_error() -> ErrorView {
    ErrorView { kind: ErrorKind::Io, message: "system time before Unix epoch or out of range"@ }
}

/// The time of a run: the one given, or the clock's, which must read at or
/// after the Unix epoch.
/// What the time of a run is: the one given, else the clock's reading,
/// else the clock error.
pub open spec fn created_at_verdict(given: Option<i64>, clock: Option<i64>) -> Result<i64, ErrorView> {
    match given {
        Some(g) => Ok(g),
        None => match clock {
            Some(t) => Ok(t),
            None => Err(clock_error()),
        },
    }
}

/// The time of a run from the time given and the clock's reading.
pub fn created_at_from(given: Option<i64>, clock: Option<i64>) -> (r: Result<i64, AppError>)
    ensures
        result_is(r, created_at_verdict(given, clock)),
{
    match given {
        Some(g) => Ok(g),
        None => match clock {
            Some(t) => Ok(t),
            None => Err(AppError::io("system time before Unix epoch or out of range".to_owned())),
        },
    }
}

/// The time of a run: the one given, or else the clock's, which is read
/// only then (`created_at_from` of its reading).
pub fn resolve_created_at(given: Option<i64>) -> (r: Result<i64, AppError>)
    ensures
        given matches Some(g) ==> r matches Ok(t) && t == g,
        given is None ==> match r {
            Ok(t) => t >= 0,
            Err(e) => e@ == clock_error(),
        },
{
    match given {
        Some(g) => Ok(g),
        None => created_at_from(None, now_ms()),
    }
}

/// The decisions of one run whose time may be left to the clock: the
/// changed triggers are checked first, and the clock is read only when they
/// are there and no time is given.
pub fn plan_run_at(
    states: &Vec<HypothesisState>,
    input_s3_keys_read: usize,
    changed_trigger: &Vec<String>,
    given: Option<i64>,
) -> (r: Result<RunPlan, AppError>)
    ensures
        ({
            let sv = states@.map_values(|s: HypothesisState| s@);
            let raw = strs(changed_trigger@);
            &&& changed_seq(raw).len() == 0 ==> (r matches Err(e) && e@ == config_error(
                "--changed-trigger is required"@,
            ))
            &&& given matches Some(g) ==> plan_is(r, run_plan_verdict(sv, input_s3_keys_read, raw, g))
            &&& (given is None && changed_seq(raw).len() > 0) ==> match r {
                Ok(p) => p.report.created_at_ms >= 0 && plan_is(
                    r,
                    run_plan_verdict(sv, input_s3_keys_read, raw, p.report.created_at_ms),
                ),
                Err(e) => e@ == clock_error(),
            }
        }),
{
    let changed = changed_trigger_set(changed_trigger);
    if changed.is_empty() {
        return Err(AppError::config("--changed-trigger is required".to_owned()));
    }
    let created_at_ms = match resolve_created_at(given) {
        Ok(t) => t,
        Err(e) => return Err(e),
    };
    plan_run(states, input_s3_keys_read, changed_trigger, created_at_ms)
}


proof fn lemma_matched_members(dirty: Seq<Seq<char>>, changed: Seq<Seq<char>>)
    ensures
        forall|t: Seq<char>|
            #[trigger] matched_triggers(dirty, changed).contains(t) <==> (dirty.contains(t)
                && changed.contains(t)),
    decreases dirty.len(),
{
    if dirty.len() > 0 {
        let d0 = dirty.drop_last();
        lemma_matched_members(d0, changed);
        let last = dirty[dirty.len() - 1];
        let m0 = matched_triggers(d0, changed);
        let m = matched_triggers(dirty, changed);
        assert forall|t: Seq<char>| #[trigger] m.contains(t) <==> (dirty.contains(t) && changed.contains(t)) by {
            if m.contains(t) {
                let k = choose|k: int| 0 <= k < m.len() && m[k] == t;
                if k < m0.len() {
                    assert(m0[k] == t);
                    assert(m0.contains(t));
                    let a = choose|a: int| 0 <= a < d0.len() && d0[a] == t;
                    assert(dirty[a] == t);
                } else {
                    assert(t == last);
                    assert(dirty[dirty.len() - 1] == t);
                }
            }
            if dirty.contains(t) && changed.contains(t) {
                let a = choose|a: int| 0 <= a < dirty.len() && dirty[a] == t;
                if a < dirty.len() - 1 {
                    assert(d0[a] == t);
                    assert(m0.contains(t));
                    let k = choose|k: int| 0 <= k < m0.len() && m0[k] == t;
                    assert(m[k] == t);
                } else {
                    assert(t == last);
                    assert(m[m.len() - 1] == t);
                }
            }
        }
    }
}

/// A state gets a job exactly when the change names one of its dirty
/// triggers, and the job's matched triggers are exactly those.
pub proof fn lemma_job_iff_dirty_trigger_changed(
    s: HypothesisStateView,
    changed: Seq<Seq<char>>,
    created_at_ms: i64,
)
    ensures
        job_for(s, changed, created_at_ms) is Some <==> exists|t: Seq<char>|
            s.dirty_triggers.contains(t) && #[trigger] changed.contains(t),
        job_for(s, changed, created_at_ms) matches Some(j) ==> forall|t: Seq<char>|
            #[trigger] j.matched_dirty_triggers.contains(t) <==> (s.dirty_triggers.contains(t)
                && changed.contains(t)),
{
    lemma_matched_members(s.dirty_triggers, changed);
    let m = matched_triggers(s.dirty_triggers, changed);
    if m.len() > 0 {
        assert(m.contains(m[0]));
    }
    if exists|t: Seq<char>| s.dirty_triggers.contains(t) && #[trigger] changed.contains(t) {
        let t = choose|t: Seq<char>| s.dirty_triggers.contains(t) && #[trigger] changed.contains(t);
        assert(m.contains(t));
    }
}

/// A job's idempotency key depends on the hypothesis and the state's
/// revision time alone: runs at other times, or over other triggers, give
/// the same key.
pub proof fn lemma_idempotency_key_per_revision(
    s1: HypothesisStateView,
    s2: HypothesisStateView,
    changed1: Seq<Seq<char>>,
    changed2: Seq<Seq<char>>,
    created1: i64,
    created2: i64,
)
    requires
        s1.hypothesis_id == s2.hypothesis_id,
        s1.updated_at_ms == s2.updated_at_ms,
        job_for(s1, changed1, created1) is Some,
        job_for(s2, changed2, created2) is Some,
    ensures
        job_for(s1, changed1, created1)->0.idempotency_key == job_for(
            s2,
            changed2,
            created2,
        )->0.idempotency_key,
{
}

/// A job's identifier depends on the hypothesis, the state's key and
/// revision time, the run's time and the matched triggers alone.
pub proof fn lemma_job_id_determined(
    s1: HypothesisStateView,
    s2: HypothesisStateView,
    changed1: Seq<Seq<char>>,
    changed2: Seq<Seq<char>>,
    created_at_ms: i64,
)
    requires
        s1.hypothesis_id == s2.hypothesis_id,
        s1.state_key == s2.state_key,
        s1.updated_at_ms == s2.updated_at_ms,
        matched_triggers(s1.dirty_triggers, changed1) == matched_triggers(
            s2.dirty_triggers,
            changed2,
        ),
        job_for(s1, changed1, created_at_ms) is Some,
    ensures
        job_for(s2, changed2, created_at_ms) is Some,
        job_for(s1, changed1, created_at_ms)->0.harness_job_id == job_for(
            s2,
            changed2,
            created_at_ms,
        )->0.harness_job_id,
{
}

/// A job's checksum is the SHA-256 of its own compact JSON with the
/// checksum left empty, so a reader can recompute it.
pub proof fn lemma_job_checksum_recomputes(s: HypothesisStateView, changed: Seq<Seq<char>>, created_at_ms: i64)
    requires
        job_for(s, changed, created_at_ms) is Some,
    ensures
        ({
            let j = job_for(s, changed, created_at_ms)->0;
            j.checksum == sha256_hex(encode_utf8(job_json(HarnessJobView { checksum: Seq::empty(), ..j })))
        }),
{
    let m = matched_triggers(s.dirty_triggers, changed);
    let u = unsealed_job(s, changed, created_at_ms, m);
    let j = job_for(s, changed, created_at_ms)->0;
    assert(HarnessJobView { checksum: Seq::empty(), ..j } == u);
}

/// A report's checksum is the SHA-256 of its own compact JSON with the
/// checksum left empty, and its job key is the job file's key for its own
/// identifier.
pub proof fn lemma_report_checksum_and_key(
    created_at_ms: i64,
    input_count: usize,
    input_s3_keys_read: usize,
    job_count: nat,
    changed: Seq<Seq<char>>,
)
    ensures
        ({
            let r = report_for(created_at_ms, input_count, input_s3_keys_read, job_count, changed);
            &&& r.checksum == sha256_hex(
                encode_utf8(report_json(OrchestratorReportView { checksum: Seq::empty(), ..r })),
            )
            &&& r.output_job_key == harness_job_key_spec(created_at_ms, r.orchestrator_report_id)
        }),
{
    let u = unsealed_report(created_at_ms, input_count, input_s3_keys_read, job_count, changed);
    let r = report_for(created_at_ms, input_count, input_s3_keys_read, job_count, changed);
    assert(OrchestratorReportView { checksum: Seq::empty(), ..r } == u);
}

pub proof fn lemma_jobs_for_len(states: Seq<HypothesisStateView>, changed: Seq<Seq<char>>, created_at_ms: i64)
    ensures
        jobs_for(states, changed, created_at_ms).len() <= states.len(),
    decreases states.len(),
{
    if states.len() > 0 {
        lemma_jobs_for_len(states.drop_last(), changed, created_at_ms);
    }
}

/// Every state read is either selected or skipped, and the report counts
/// the jobs it comes with.
pub proof fn lemma_run_counts(
    states: Seq<HypothesisStateView>,
    input_s3_keys_read: usize,
    raw: Seq<Seq<char>>,
    created_at_ms: i64,
)
    requires
        states.len() <= usize::MAX,
        run_plan_verdict(states, input_s3_keys_read, raw, created_at_ms) is Ok,
    ensures
        ({
            let (jobs, r) = run_plan_verdict(states, input_s3_keys_read, raw, created_at_ms)->Ok_0;
            &&& r.input_hypothesis_count == states.len()
            &&& r.selected_job_count == jobs.len()
            &&& r.selected_job_count + r.skipped_count == states.len()
        }),
{
    lemma_jobs_for_len(states, changed_seq(raw), created_at_ms);
}


/// The priority of a job follows the triggers that the state and the change
/// both name: a version change of the candidate app or the scoring policy
/// asks for a recompute; otherwise a market feature or derivatives update
/// for a market retest; anything else for an observation refresh.
pub proof fn lemma_job_priority(s: HypothesisStateView, changed: Seq<Seq<char>>, created_at_ms: i64)
    requires
        job_for(s, changed, created_at_ms) is Some,
    ensures
        ({
            let j = job_for(s, changed, created_at_ms)->0;
            let both = |t: Seq<char>| s.dirty_triggers.contains(t) && changed.contains(t);
            let recompute = both("candidate_app_version_changed"@) || both(
                "scoring_policy_version_changed"@,
            );
            let retest = both("market_feature_delta_updated"@) || both("derivatives_rollup_updated"@);
            &&& recompute ==> j.priority == "p0_recompute"@
            &&& (!recompute && retest) ==> j.priority == "p1_market_retest"@
            &&& (!recompute && !retest) ==> j.priority == "p2_observe_refresh"@
        }),
{
    lemma_matched_members(s.dirty_triggers, changed);
    let m = matched_triggers(s.dirty_triggers, changed);
    assert(m.contains("candidate_app_version_changed"@) == (s.dirty_triggers.contains(
        "candidate_app_version_changed"@,
    ) && changed.contains("candidate_app_version_changed"@)));
    assert(m.contains("scoring_policy_version_changed"@) == (s.dirty_triggers.contains(
        "scoring_policy_version_changed"@,
    ) && changed.contains("scoring_policy_version_changed"@)));
    assert(m.contains("market_feature_delta_updated"@) == (s.dirty_triggers.contains(
        "market_feature_delta_updated"@,
    ) && changed.contains("market_feature_delta_updated"@)));
    assert(m.contains("derivatives_rollup_updated"@) == (s.dirty_triggers.contains(
        "derivatives_rollup_updated"@,
    ) && changed.contains("derivatives_rollup_updated"@)));
}

/// How many of the states the change makes dirty.
pub open spec fn dirty_count(states: Seq<HypothesisStateView>, changed: Seq<Seq<char>>, created_at_ms: i64) -> nat
    decreases states.len(),
{
    if states.len() == 0 {
        0
    } else {
        dirty_count(states.drop_last(), changed, created_at_ms) + if job_for(
            states[states.len() - 1],
            changed,
            created_at_ms,
        ) is Some {
            1nat
        } else {
            0nat
        }
    }
}

proof fn lemma_dirty_count_prefix(states: Seq<HypothesisStateView>, changed: Seq<Seq<char>>, t: i64, i: int)
    requires
        0 <= i < states.len(),
    ensures
        dirty_count(states.take(i), changed, t) + (if job_for(states[i], changed, t) is Some {
            1int
        } else {
            0int
        }) <= dirty_count(states, changed, t),
    decreases states.len(),
{
    let d = states.drop_last();
    if i == states.len() - 1 {
        assert(states.take(i) =~= d);
    } else {
        lemma_dirty_count_prefix(d, changed, t, i);
        assert(states.take(i) =~= d.take(i));
        assert(d[i] == states[i]);
    }
}

/// Each dirty state gets its own job, independently of the other states:
/// the jobs are, in the states' order, exactly the job of every state that
/// the change makes dirty.
pub proof fn lemma_one_job_per_dirty_state(states: Seq<HypothesisStateView>, changed: Seq<Seq<char>>, t: i64)
    ensures
        jobs_for(states, changed, t).len() == dirty_count(states, changed, t),
        forall|i: int|
            0 <= i < states.len() && #[trigger] job_for(states[i], changed, t) is Some ==> jobs_for(
                states,
                changed,
                t,
            )[dirty_count(states.take(i), changed, t) as int] == job_for(states[i], changed, t)->0,
    decreases states.len(),
{
    if states.len() > 0 {
        let d = states.drop_last();
        lemma_one_job_per_dirty_state(d, changed, t);
        let jd = jobs_for(d, changed, t);
        let js = jobs_for(states, changed, t);
        assert forall|i: int|
            0 <= i < states.len() && #[trigger] job_for(states[i], changed, t) is Some implies js[dirty_count(
                states.take(i),
                changed,
                t,
            ) as int] == job_for(states[i], changed, t)->0 by {
            if i < states.len() - 1 {
                assert(states.take(i) =~= d.take(i));
                assert(d[i] == states[i]);
                lemma_dirty_count_prefix(d, changed, t, i);
                assert(js[dirty_count(d.take(i), changed, t) as int] == jd[dirty_count(d.take(i), changed, t) as int]);
            } else {
                assert(states.take(i) =~= d);
            }
        }
    }
}

/// A run selects every dirty state once and skips every other: its jobs are
/// one per dirty state, in order, and its report counts them.
pub proof fn lemma_run_selects_every_dirty_state(
    states: Seq<HypothesisStateView>,
    input_s3_keys_read: usize,
    raw: Seq<Seq<char>>,
    created_at_ms: i64,
)
    requires
        states.len() <= usize::MAX,
        run_plan_verdict(states, input_s3_keys_read, raw, created_at_ms) is Ok,
    ensures
        ({
            let changed = changed_seq(raw);
            let (jobs, r) = run_plan_verdict(states, input_s3_keys_read, raw, created_at_ms)->Ok_0;
            &&& jobs.len() == dirty_count(states, changed, created_at_ms)
            &&& forall|i: int|
                0 <= i < states.len() && #[trigger] job_for(states[i], changed, created_at_ms) is Some
                    ==> jobs[dirty_count(states.take(i), changed, created_at_ms) as int] == job_for(
                    states[i],
                    changed,
                    created_at_ms,
                )->0
            &&& r.selected_job_count == dirty_count(states, changed, created_at_ms)
            &&& r.skipped_count == states.len() - dirty_count(states, changed, created_at_ms)
        }),
{
    lemma_one_job_per_dirty_state(states, changed_seq(raw), created_at_ms);
    lemma_jobs_for_len(states, changed_seq(raw), created_at_ms);
}

/// A job carries its state's identity, revision, screening event, requested
/// harness and lineage as they are, the run's time and changed triggers,
/// and the job schema and producer.
pub proof fn lemma_job_carries_its_state(s: HypothesisStateView, changed: Seq<Seq<char>>, created_at_ms: i64)
    requires
        job_for(s, changed, created_at_ms) is Some,
    ensures
        ({
            let j = job_for(s, changed, created_at_ms)->0;
            &&& j.hypothesis_id == s.hypothesis_id
            &&& j.hypothesis_state_key == s.state_key
            &&& j.latest_screening_event_id == s.latest_screening_event_id
            &&& j.requested_harness_type == s.harness_queue_hint
            &&& j.input_refs == s.lineage_refs
            &&& j.changed_triggers == changed
            &&& j.created_at_ms == created_at_ms
            &&& j.schema_version == "hypothesis_harness_job_v1"@
            &&& j.producer_app == "recomposition-orchestrator-app"@
            &&& j.producer_version == "0.1.0"@
        }),
{
}

/// The report of a run records the run's time, the changed triggers and how
/// many states and objects were read.
pub proof fn lemma_report_records_the_run(
    states: Seq<HypothesisStateView>,
    input_s3_keys_read: usize,
    raw: Seq<Seq<char>>,
    created_at_ms: i64,
)
    requires
        run_plan_verdict(states, input_s3_keys_read, raw, created_at_ms) is Ok,
    ensures
        ({
            let r = run_plan_verdict(states, input_s3_keys_read, raw, created_at_ms)->Ok_0.1;
            &&& r.created_at_ms == created_at_ms
            &&& r.changed_triggers == changed_seq(raw)
            &&& r.input_hypothesis_count == states.len() as usize
            &&& r.input_s3_keys_read == input_s3_keys_read
            &&& r.schema_version == "recomposition_orchestrator_report_v1"@
            &&& r.producer_app == "recomposition-orchestrator-app"@
        }),
{
}

} // verus!

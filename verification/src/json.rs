//! The JSON text of jobs and reports, byte for byte as `serde_json` writes
//! these records: compact for job lines and checksums, pretty for the
//! report file.
use crate::text::{
    append_str, chars_of, dec_chars, hex_digit, int_chars, lemma_dec_chars_digits, push_char,
    push_decimal, push_int,
};
use crate::types::{strs, HarnessJob, HarnessJobView, OrchestratorReport, OrchestratorReportView};
use vstd::prelude::*;

verus! {

/// How one character stands in a JSON string: `"` and `\` escaped, the
/// control characters below U+0020 by their short escape or `\u00XX`.
pub open spec fn json_escape_char(c: char) -> Seq<char> {
    let u = c as u32;
    if c == '"' {
        seq!['\\', '"']
    } else if c == '\\' {
        seq!['\\', '\\']
    } else if u == 0x08 {
        seq!['\\', 'b']
    } else if u == 0x0C {
        seq!['\\', 'f']
    } else if u == 0x0A {
        seq!['\\', 'n']
    } else if u == 0x0D {
        seq!['\\', 'r']
    } else if u == 0x09 {
        seq!['\\', 't']
    } else if u < 0x20 {
        seq!['\\', 'u', '0', '0', hex_digit((u / 16) as int), hex_digit((u % 16) as int)]
    } else {
        seq![c]
    }
}

pub open spec fn json_escape(s: Seq<char>) -> Seq<char>
    decreases s.len(),
{
    if s.len() == 0 {
        Seq::empty()
    } else {
        json_escape(s.drop_last()) + json_escape_char(s[s.len() - 1])
    }
}

/// A JSON string literal.
pub open spec fn json_str(s: Seq<char>) -> Seq<char> {
    seq!['"'] + json_escape(s) + seq!['"']
}

/// The elements of a compact array of strings, separated by `,`.
pub open spec fn json_items(v: Seq<Seq<char>>) -> Seq<char>
    decreases v.len(),
{
    if v.len() == 0 {
        Seq::empty()
    } else if v.len() == 1 {
        json_str(v[0])
    } else {
        json_items(v.drop_last()) + seq![','] + json_str(v[v.len() - 1])
    }
}

/// A compact JSON array of strings.
pub open spec fn json_array(v: Seq<Seq<char>>) -> Seq<char> {
    seq!['['] + json_items(v) + seq![']']
}

/// The elements of a pretty array of strings nested one level in an object:
/// each on its own line, indented by four spaces.
pub open spec fn pretty_items(v: Seq<Seq<char>>) -> Seq<char>
    decreases v.len(),
{
    if v.len() == 0 {
        Seq::empty()
    } else if v.len() == 1 {
        "    "@ + json_str(v[0])
    } else {
        pretty_items(v.drop_last()) + ",\n    "@ + json_str(v[v.len() - 1])
    }
}

/// A pretty JSON array of strings nested one level in an object.
pub open spec fn pretty_array(v: Seq<Seq<char>>) -> Seq<char> {
    if v.len() == 0 {
        "[]"@
    } else {
        "[\n"@ + pretty_items(v) + "\n  ]"@
    }
}

/// The first fields of a job's compact JSON, up to its requested harness
/// type, after the opening brace.
pub open spec fn job_json_head(j: HarnessJobView) -> Seq<char> {
    "\"harness_job_id\":"@ + json_str(j.harness_job_id) + ",\"schema_version\":"@ + json_str(
        j.schema_version,
    ) + ",\"producer_app\":"@ + json_str(j.producer_app) + ",\"producer_version\":"@ + json_str(
        j.producer_version,
    ) + ",\"created_at_ms\":"@ + int_chars(j.created_at_ms as int) + ",\"hypothesis_id\":"@
        + json_str(j.hypothesis_id) + ",\"hypothesis_state_key\":"@ + json_str(
        j.hypothesis_state_key,
    ) + ",\"latest_screening_event_id\":"@ + json_str(j.latest_screening_event_id)
        + ",\"requested_harness_type\":"@ + json_str(j.requested_harness_type)
}

/// The remaining fields of a job's compact JSON, before the closing brace.
pub open spec fn job_json_tail(j: HarnessJobView) -> Seq<char> {
    ",\"changed_triggers\":"@ + json_array(j.changed_triggers) + ",\"matched_dirty_triggers\":"@
        + json_array(j.matched_dirty_triggers) + ",\"input_refs\":"@ + json_array(j.input_refs)
        + ",\"priority\":"@ + json_str(j.priority) + ",\"idempotency_key\":"@ + json_str(
        j.idempotency_key,
    ) + ",\"checksum\":"@ + json_str(j.checksum)
}

/// `serde_json::to_vec` of a job, as text.
pub open spec fn job_json(j: HarnessJobView) -> Seq<char> {
    seq!['{'] + job_json_head(j) + job_json_tail(j) + seq!['}']
}

/// `serde_json::to_vec` of a report, as text.
pub open spec fn report_json(r: OrchestratorReportView) -> Seq<char> {
    "{\"orchestrator_report_id\":"@ + json_str(r.orchestrator_report_id) + ",\"schema_version\":"@
        + json_str(r.schema_version) + ",\"producer_app\":"@ + json_str(r.producer_app)
        + ",\"producer_version\":"@ + json_str(r.producer_version) + ",\"created_at_ms\":"@
        + int_chars(r.created_at_ms as int) + ",\"input_hypothesis_count\":"@ + dec_chars(
        r.input_hypothesis_count as nat,
    ) + ",\"input_s3_keys_read\":"@ + dec_chars(r.input_s3_keys_read as nat)
        + ",\"selected_job_count\":"@ + dec_chars(r.selected_job_count as nat)
        + ",\"skipped_count\":"@ + dec_chars(r.skipped_count as nat) + ",\"changed_triggers\":"@
        + json_array(r.changed_triggers) + ",\"output_job_key\":"@ + json_str(r.output_job_key)
        + ",\"checksum\":"@ + json_str(r.checksum) + "}"@
}

/// `serde_json::to_vec_pretty` of a report, as text.
pub open spec fn report_pretty_json(r: OrchestratorReportView) -> Seq<char> {
    "{\n  \"orchestrator_report_id\": "@ + json_str(r.orchestrator_report_id)
        + ",\n  \"schema_version\": "@ + json_str(r.schema_version) + ",\n  \"producer_app\": "@
        + json_str(r.producer_app) + ",\n  \"producer_version\": "@ + json_str(r.producer_version)
        + ",\n  \"created_at_ms\": "@ + int_chars(r.created_at_ms as int)
        + ",\n  \"input_hypothesis_count\": "@ + dec_chars(r.input_hypothesis_count as nat)
        + ",\n  \"input_s3_keys_read\": "@ + dec_chars(r.input_s3_keys_read as nat)
        + ",\n  \"selected_job_count\": "@ + dec_chars(r.selected_job_count as nat)
        + ",\n  \"skipped_count\": "@ + dec_chars(r.skipped_count as nat)
        + ",\n  \"changed_triggers\": "@ + pretty_array(r.changed_triggers)
        + ",\n  \"output_job_key\": "@ + json_str(r.output_job_key) + ",\n  \"checksum\": "@
        + json_str(r.checksum) + "\n}"@
}

/// One compact JSON line per job, each ended by a newline.
pub open spec fn jobs_jsonl(jobs: Seq<HarnessJobView>) -> Seq<char>
    decreases jobs.len(),
{
    if jobs.len() == 0 {
        Seq::empty()
    } else {
        jobs_jsonl(jobs.drop_last()) + job_json(jobs[jobs.len() - 1]) + seq!['\n']
    }
}

fn hex_digit_char(d: u32) -> (c: char)
    requires
        d < 16,
    ensures
        c == hex_digit(d as int),
{
    let b = d as u8;
    if b < 10 {
        (b + 48u8) as char
    } else {
        (b + 87u8) as char
    }
}

fn push_escaped_char(out: &mut String, c: char)
    ensures
        final(out)@ == old(out)@ + json_escape_char(c),
{
    let u = c as u32;
    let ghost o = out@;
    if c == '"' {
        push_char(out, '\\');
        push_char(out, '"');
    } else if c == '\\' {
        push_char(out, '\\');
        push_char(out, '\\');
    } else if u == 0x08 {
        push_char(out, '\\');
        push_char(out, 'b');
    } else if u == 0x0C {
        push_char(out, '\\');
        push_char(out, 'f');
    } else if u == 0x0A {
        push_char(out, '\\');
        push_char(out, 'n');
    } else if u == 0x0D {
        push_char(out, '\\');
        push_char(out, 'r');
    } else if u == 0x09 {
        push_char(out, '\\');
        push_char(out, 't');
    } else if u < 0x20 {
        push_char(out, '\\');
        push_char(out, 'u');
        push_char(out, '0');
        push_char(out, '0');
        push_char(out, hex_digit_char(u / 16));
        push_char(out, hex_digit_char(u % 16));
    } else {
        push_char(out, c);
    }
    assert(out@ =~= o + json_escape_char(c));
}

/// Appends a JSON string literal.
pub fn push_json_str(out: &mut String, s: &str)
    ensures
        final(out)@ == old(out)@ + json_str(s@),
{
    let v = chars_of(s);
    let ghost o = out@;
    push_char(out, '"');
    let mut i: usize = 0;
    while i < v.len()
        invariant
            i <= v@.len(),
            out@ == o + seq!['"'] + json_escape(v@.take(i as int)),
        decreases v@.len() - i,
    {
        push_escaped_char(out, v[i]);
        i = i + 1;
        assert(v@.take(i as int).drop_last() =~= v@.take(i - 1));
        assert(out@ =~= o + seq!['"'] + json_escape(v@.take(i as int)));
    }
    push_char(out, '"');
    assert(v@.take(v@.len() as int) =~= v@);
    assert(out@ =~= o + json_str(s@));
}

/// Appends a compact JSON array of strings.
pub fn push_json_array(out: &mut String, v: &Vec<String>)
    ensures
        final(out)@ == old(out)@ + json_array(strs(v@)),
{
    let ghost o = out@;
    let ghost sv = strs(v@);
    push_char(out, '[');
    let mut i: usize = 0;
    while i < v.len()
        invariant
            i <= v@.len(),
            sv == strs(v@),
            out@ == o + seq!['['] + json_items(sv.take(i as int)),
        decreases v@.len() - i,
    {
        let ghost before = out@;
        if i > 0 {
            push_char(out, ',');
        }
        push_json_str(out, v[i].as_str());
        proof {
            let t = sv.take(i + 1);
            assert(t.drop_last() =~= sv.take(i as int));
            assert(t[i as int] == v@[i as int]@);
            assert(out@ =~= o + seq!['['] + json_items(t));
        }
        i = i + 1;
    }
    push_char(out, ']');
    assert(sv.take(v@.len() as int) =~= sv);
    assert(out@ =~= o + json_array(sv));
}

/// Appends a pretty JSON array of strings nested one level in an object.
pub fn push_pretty_array(out: &mut String, v: &Vec<String>)
    ensures
        final(out)@ == old(out)@ + pretty_array(strs(v@)),
{
    let ghost o = out@;
    let ghost sv = strs(v@);
    if v.len() == 0 {
        append_str(out, "[]");
        return;
    }
    append_str(out, "[\n");
    let mut i: usize = 0;
    while i < v.len()
        invariant
            i <= v@.len(),
            sv == strs(v@),
            out@ == o + "[\n"@ + pretty_items(sv.take(i as int)),
        decreases v@.len() - i,
    {
        if i > 0 {
            append_str(out, ",\n    ");
        } else {
            append_str(out, "    ");
        }
        push_json_str(out, v[i].as_str());
        proof {
            let t = sv.take(i + 1);
            assert(t.drop_last() =~= sv.take(i as int));
            assert(t[i as int] == v@[i as int]@);
            if i == 0 {
                assert(sv.take(0) =~= Seq::<Seq<char>>::empty());
            }
            assert(out@ =~= o + "[\n"@ + pretty_items(t));
        }
        i = i + 1;
    }
    append_str(out, "\n  ]");
    assert(sv.take(v@.len() as int) =~= sv);
    assert(out@ =~= o + pretty_array(sv));
}

fn push_usize(out: &mut String, n: usize)
    ensures
        final(out)@ == old(out)@ + dec_chars(n as nat),
{
    push_decimal(out, n as u64);
}

fn push_job_head(out: &mut String, j: &HarnessJob)
    ensures
        final(out)@ == old(out)@ + job_json_head(j@),
{
    let ghost o = out@;
    append_str(out, "\"harness_job_id\":");
    push_json_str(out, j.harness_job_id.as_str());
    append_str(out, ",\"schema_version\":");
    push_json_str(out, j.schema_version.as_str());
    append_str(out, ",\"producer_app\":");
    push_json_str(out, j.producer_app.as_str());
    append_str(out, ",\"producer_version\":");
    push_json_str(out, j.producer_version.as_str());
    append_str(out, ",\"created_at_ms\":");
    push_int(out, j.created_at_ms);
    append_str(out, ",\"hypothesis_id\":");
    push_json_str(out, j.hypothesis_id.as_str());
    append_str(out, ",\"hypothesis_state_key\":");
    push_json_str(out, j.hypothesis_state_key.as_str());
    append_str(out, ",\"latest_screening_event_id\":");
    push_json_str(out, j.latest_screening_event_id.as_str());
    append_str(out, ",\"requested_harness_type\":");
    push_json_str(out, j.requested_harness_type.as_str());
    assert(out@ =~= o + job_json_head(j@));
}

fn push_job_tail(out: &mut String, j: &HarnessJob)
    ensures
        final(out)@ == old(out)@ + job_json_tail(j@),
{
    let ghost o = out@;
    append_str(out, ",\"changed_triggers\":");
    push_json_array(out, &j.changed_triggers);
    append_str(out, ",\"matched_dirty_triggers\":");
    push_json_array(out, &j.matched_dirty_triggers);
    append_str(out, ",\"input_refs\":");
    push_json_array(out, &j.input_refs);
    append_str(out, ",\"priority\":");
    push_json_str(out, j.priority.as_str());
    append_str(out, ",\"idempotency_key\":");
    push_json_str(out, j.idempotency_key.as_str());
    append_str(out, ",\"checksum\":");
    push_json_str(out, j.checksum.as_str());
    assert(out@ =~= o + job_json_tail(j@));
}

/// Appends the compact JSON of a job.
pub fn push_job_json(out: &mut String, j: &HarnessJob)
    ensures
        final(out)@ == old(out)@ + job_json(j@),
{
    let ghost o = out@;
    push_char(out, '{');
    push_job_head(out, j);
    push_job_tail(out, j);
    push_char(out, '}');
    assert(out@ =~= o + job_json(j@));
}

/// The compact JSON of a job.
pub fn job_json_text(j: &HarnessJob) -> (s: String)
    ensures
        s@ == job_json(j@),
{
    let mut s = String::new();
    push_job_json(&mut s, j);
    assert(s@ =~= job_json(j@));
    s
}

/// The compact JSON of a report.
pub fn report_json_text(r: &OrchestratorReport) -> (s: String)
    ensures
        s@ == report_json(r@),
{
    let mut s = String::new();
    append_str(&mut s, "{\"orchestrator_report_id\":");
    push_json_str(&mut s, r.orchestrator_report_id.as_str());
    append_str(&mut s, ",\"schema_version\":");
    push_json_str(&mut s, r.schema_version.as_str());
    append_str(&mut s, ",\"producer_app\":");
    push_json_str(&mut s, r.producer_app.as_str());
    append_str(&mut s, ",\"producer_version\":");
    push_json_str(&mut s, r.producer_version.as_str());
    append_str(&mut s, ",\"created_at_ms\":");
    push_int(&mut s, r.created_at_ms);
    append_str(&mut s, ",\"input_hypothesis_count\":");
    push_usize(&mut s, r.input_hypothesis_count);
    append_str(&mut s, ",\"input_s3_keys_read\":");
    push_usize(&mut s, r.input_s3_keys_read);
    append_str(&mut s, ",\"selected_job_count\":");
    push_usize(&mut s, r.selected_job_count);
    append_str(&mut s, ",\"skipped_count\":");
    push_usize(&mut s, r.skipped_count);
    append_str(&mut s, ",\"changed_triggers\":");
    push_json_array(&mut s, &r.changed_triggers);
    append_str(&mut s, ",\"output_job_key\":");
    push_json_str(&mut s, r.output_job_key.as_str());
    append_str(&mut s, ",\"checksum\":");
    push_json_str(&mut s, r.checksum.as_str());
    append_str(&mut s, "}");
    assert(s@ =~= report_json(r@));
    s
}

/// The pretty JSON of a report, as it is written to its file.
pub fn report_pretty_text(r: &OrchestratorReport) -> (s: String)
    ensures
        s@ == report_pretty_json(r@),
{
    let mut s = String::new();
    append_str(&mut s, "{\n  \"orchestrator_report_id\": ");
    push_json_str(&mut s, r.orchestrator_report_id.as_str());
    append_str(&mut s, ",\n  \"schema_version\": ");
    push_json_str(&mut s, r.schema_version.as_str());
    append_str(&mut s, ",\n  \"producer_app\": ");
    push_json_str(&mut s, r.producer_app.as_str());
    append_str(&mut s, ",\n  \"producer_version\": ");
    push_json_str(&mut s, r.producer_version.as_str());
    append_str(&mut s, ",\n  \"created_at_ms\": ");
    push_int(&mut s, r.created_at_ms);
    append_str(&mut s, ",\n  \"input_hypothesis_count\": ");
    push_usize(&mut s, r.input_hypothesis_count);
    append_str(&mut s, ",\n  \"input_s3_keys_read\": ");
    push_usize(&mut s, r.input_s3_keys_read);
    append_str(&mut s, ",\n  \"selected_job_count\": ");
    push_usize(&mut s, r.selected_job_count);
    append_str(&mut s, ",\n  \"skipped_count\": ");
    push_usize(&mut s, r.skipped_count);
    append_str(&mut s, ",\n  \"changed_triggers\": ");
    push_pretty_array(&mut s, &r.changed_triggers);
    append_str(&mut s, ",\n  \"output_job_key\": ");
    push_json_str(&mut s, r.output_job_key.as_str());
    append_str(&mut s, ",\n  \"checksum\": ");
    push_json_str(&mut s, r.checksum.as_str());
    append_str(&mut s, "\n}");
    assert(s@ =~= report_pretty_json(r@));
    s
}

/// The JSON Lines text of the jobs: each job's compact JSON, then a
/// newline.
pub fn jsonl_text(jobs: &Vec<HarnessJob>) -> (s: String)
    ensures
        s@ == jobs_jsonl(jobs@.map_values(|j: HarnessJob| j@)),
{
    let ghost jv = jobs@.map_values(|j: HarnessJob| j@);
    let mut s = String::new();
    let mut i: usize = 0;
    while i < jobs.len()
        invariant
            i <= jobs@.len(),
            jv == jobs@.map_values(|j: HarnessJob| j@),
            s@ == jobs_jsonl(jv.take(i as int)),
        decreases jobs@.len() - i,
    {
        push_job_json(&mut s, &jobs[i]);
        push_char(&mut s, '\n');
        proof {
            let t = jv.take(i + 1);
            assert(t.drop_last() =~= jv.take(i as int));
            assert(t[i as int] == jobs@[i as int]@);
            assert(s@ =~= jobs_jsonl(t));
        }
        i = i + 1;
    }
    assert(jv.take(jobs@.len() as int) =~= jv);
    s
}

/// No character is a line feed.
pub open spec fn no_newline(s: Seq<char>) -> bool {
    forall|k: int| 0 <= k < s.len() ==> #[trigger] s[k] != '\n'
}

proof fn lemma_concat_no_newline()
    ensures
        forall|a: Seq<char>, b: Seq<char>|
            no_newline(a) && no_newline(b) ==> #[trigger] no_newline(a + b),
{
    assert forall|a: Seq<char>, b: Seq<char>| no_newline(a) && no_newline(b) implies #[trigger] no_newline(
        a + b,
    ) by {
        assert forall|k: int| 0 <= k < (a + b).len() implies #[trigger] (a + b)[k] != '\n' by {
            if k < a.len() {
                assert((a + b)[k] == a[k]);
            } else {
                assert((a + b)[k] == b[k - a.len()]);
            }
        }
    }
}

proof fn lemma_escape_no_newline(s: Seq<char>)
    ensures
        no_newline(json_escape(s)),
    decreases s.len(),
{
    if s.len() > 0 {
        lemma_escape_no_newline(s.drop_last());
        lemma_concat_no_newline();
        let c = s[s.len() - 1];
        let e = json_escape_char(c);
        let u = c as u32;
        if u < 0x20 && c != '"' && c != '\\' && u != 0x08 && u != 0x0C && u != 0x0A && u != 0x0D && u
            != 0x09 {
            assert(e[4] == hex_digit((u / 16) as int));
            assert(e[5] == hex_digit((u % 16) as int));
            assert((((u / 16) + 48) as char) as u32 == (u / 16) + 48);
            assert((((u % 16) + 48) as char) as u32 == (u % 16) + 48);
            assert((((u % 16) + 87) as char) as u32 == (u % 16) + 87);
        }
        assert(no_newline(e));
    }
}

proof fn lemma_json_str_no_newline()
    ensures
        forall|s: Seq<char>| #[trigger] no_newline(json_str(s)),
{
    lemma_concat_no_newline();
    assert forall|s: Seq<char>| #[trigger] no_newline(json_str(s)) by {
        lemma_escape_no_newline(s);
        assert(no_newline(seq!['"']));
    }
}

proof fn lemma_items_no_newline(v: Seq<Seq<char>>)
    ensures
        no_newline(json_items(v)),
    decreases v.len(),
{
    lemma_json_str_no_newline();
    lemma_concat_no_newline();
    if v.len() > 1 {
        lemma_items_no_newline(v.drop_last());
        assert(no_newline(seq![',']));
    }
}

proof fn lemma_json_array_no_newline()
    ensures
        forall|v: Seq<Seq<char>>| #[trigger] no_newline(json_array(v)),
{
    lemma_concat_no_newline();
    assert forall|v: Seq<Seq<char>>| #[trigger] no_newline(json_array(v)) by {
        lemma_items_no_newline(v);
        assert(no_newline(seq!['[']));
        assert(no_newline(seq![']']));
    }
}

proof fn lemma_int_chars_no_newline(x: int)
    ensures
        no_newline(int_chars(x)),
{
    lemma_concat_no_newline();
    let n: nat = if x < 0 { (-x) as nat } else { x as nat };
    lemma_dec_chars_digits(n);
    let d = dec_chars(n);
    assert forall|k: int| 0 <= k < d.len() implies #[trigger] d[k] != '\n' by {
        assert('0' <= d[k] <= '9');
    }
    assert(no_newline(seq!['-']));
}

/// A job's compact JSON is one line: it holds no line feed, and it opens
/// with `{` and closes with `}`.
pub proof fn lemma_job_json_one_line(j: HarnessJobView)
    ensures
        no_newline(job_json(j)),
        job_json(j).len() >= 2,
        job_json(j)[0] == '{',
        job_json(j)[job_json(j).len() - 1] == '}',
{
    reveal_strlit("\"harness_job_id\":");
    reveal_strlit(",\"schema_version\":");
    reveal_strlit(",\"producer_app\":");
    reveal_strlit(",\"producer_version\":");
    reveal_strlit(",\"created_at_ms\":");
    reveal_strlit(",\"hypothesis_id\":");
    reveal_strlit(",\"hypothesis_state_key\":");
    reveal_strlit(",\"latest_screening_event_id\":");
    reveal_strlit(",\"requested_harness_type\":");
    reveal_strlit(",\"changed_triggers\":");
    reveal_strlit(",\"matched_dirty_triggers\":");
    reveal_strlit(",\"input_refs\":");
    reveal_strlit(",\"priority\":");
    reveal_strlit(",\"idempotency_key\":");
    reveal_strlit(",\"checksum\":");
    lemma_concat_no_newline();
    lemma_json_str_no_newline();
    lemma_json_array_no_newline();
    lemma_int_chars_no_newline(j.created_at_ms as int);
    assert(no_newline("\"harness_job_id\":"@));
    assert(no_newline(",\"schema_version\":"@));
    assert(no_newline(",\"producer_app\":"@));
    assert(no_newline(",\"producer_version\":"@));
    assert(no_newline(",\"created_at_ms\":"@));
    assert(no_newline(",\"hypothesis_id\":"@));
    assert(no_newline(",\"hypothesis_state_key\":"@));
    assert(no_newline(",\"latest_screening_event_id\":"@));
    assert(no_newline(",\"requested_harness_type\":"@));
    assert(no_newline(",\"changed_triggers\":"@));
    assert(no_newline(",\"matched_dirty_triggers\":"@));
    assert(no_newline(",\"input_refs\":"@));
    assert(no_newline(",\"priority\":"@));
    assert(no_newline(",\"idempotency_key\":"@));
    assert(no_newline(",\"checksum\":"@));
    assert(no_newline(job_json_head(j)));
    assert(no_newline(job_json_tail(j)));
    assert(no_newline(seq!['{']));
    assert(no_newline(seq!['}']));
    assert(no_newline(job_json(j)));
}

/// A JSON text with the layout between tokens taken out: the spaces and
/// line feeds outside string literals are dropped, everything else is kept.
/// `mode` is where the text starts: 0 outside a string literal, 1 inside
/// one, 2 inside one just after a backslash.
pub open spec fn unlayout(s: Seq<char>, mode: int) -> Seq<char>
    decreases s.len(),
{
    if s.len() == 0 {
        Seq::empty()
    } else {
        let c = s[0];
        let rest = s.drop_first();
        if mode == 0 {
            if c == ' ' || c == '\n' {
                unlayout(rest, 0)
            } else if c == '"' {
                seq![c] + unlayout(rest, 1)
            } else {
                seq![c] + unlayout(rest, 0)
            }
        } else if mode == 2 {
            seq![c] + unlayout(rest, 1)
        } else if c == '\\' {
            seq![c] + unlayout(rest, 2)
        } else if c == '"' {
            seq![c] + unlayout(rest, 0)
        } else {
            seq![c] + unlayout(rest, 1)
        }
    }
}

/// Where a JSON text that starts in `mode` ends (see `unlayout`).
pub open spec fn mode_after(s: Seq<char>, mode: int) -> int
    decreases s.len(),
{
    if s.len() == 0 {
        mode
    } else {
        let c = s[0];
        let rest = s.drop_first();
        if mode == 0 {
            if c == '"' {
                mode_after(rest, 1)
            } else {
                mode_after(rest, 0)
            }
        } else if mode == 2 {
            mode_after(rest, 1)
        } else if c == '\\' {
            mode_after(rest, 2)
        } else if c == '"' {
            mode_after(rest, 0)
        } else {
            mode_after(rest, 1)
        }
    }
}

proof fn lemma_unlayout_concat(a: Seq<char>, b: Seq<char>, mode: int)
    ensures
        unlayout(a + b, mode) == unlayout(a, mode) + unlayout(b, mode_after(a, mode)),
        mode_after(a + b, mode) == mode_after(b, mode_after(a, mode)),
    decreases a.len(),
{
    if a.len() == 0 {
        assert(a + b =~= b);
        assert(unlayout(a, mode) + unlayout(b, mode) =~= unlayout(b, mode));
    } else {
        assert((a + b)[0] == a[0]);
        assert((a + b).drop_first() =~= a.drop_first() + b);
        let c = a[0];
        let m2 = if mode == 0 {
            if c == '"' { 1int } else { 0int }
        } else if mode == 2 {
            1int
        } else if c == '\\' {
            2int
        } else if c == '"' {
            0int
        } else {
            1int
        };
        lemma_unlayout_concat(a.drop_first(), b, m2);
        if mode == 0 && (c == ' ' || c == '\n') {
        } else {
            assert(seq![c] + unlayout(a.drop_first(), m2) + unlayout(b, mode_after(a.drop_first(), m2))
                =~= seq![c] + (unlayout(a.drop_first(), m2) + unlayout(b, mode_after(a.drop_first(), m2))));
        }
    }
}

proof fn lemma_unlayout_escape_char(c: char)
    ensures
        unlayout(json_escape_char(c), 1) == json_escape_char(c),
        mode_after(json_escape_char(c), 1) == 1,
{
    reveal_with_fuel(unlayout, 7);
    reveal_with_fuel(mode_after, 7);
    let e = json_escape_char(c);
    let u = c as u32;
    if u < 0x20 && c != '"' && c != '\\' && u != 0x08 && u != 0x0C && u != 0x0A && u != 0x0D && u != 0x09 {
        assert((((u / 16) + 48) as char) as u32 == (u / 16) + 48);
        assert((((u % 16) + 48) as char) as u32 == (u % 16) + 48);
        assert((((u % 16) + 87) as char) as u32 == (u % 16) + 87);
        assert(e.drop_first() =~= seq!['u', '0', '0', e[4], e[5]]);
        assert(e.drop_first().drop_first() =~= seq!['0', '0', e[4], e[5]]);
        assert(e.drop_first().drop_first().drop_first() =~= seq!['0', e[4], e[5]]);
        assert(e.drop_first().drop_first().drop_first().drop_first() =~= seq![e[4], e[5]]);
        assert(seq![e[4], e[5]].drop_first() =~= seq![e[5]]);
        assert(seq![e[5]].drop_first() =~= Seq::<char>::empty());
        assert(unlayout(e, 1) =~= e);
    } else if e.len() == 2 {
        assert(e.drop_first() =~= seq![e[1]]);
        assert(seq![e[1]].drop_first() =~= Seq::<char>::empty());
        assert(unlayout(e, 1) =~= e);
    } else {
        assert(e =~= seq![c]);
        assert(seq![c].drop_first() =~= Seq::<char>::empty());
        assert(unlayout(e, 1) =~= e);
    }
}

proof fn lemma_unlayout_escape(s: Seq<char>)
    ensures
        unlayout(json_escape(s), 1) == json_escape(s),
        mode_after(json_escape(s), 1) == 1,
    decreases s.len(),
{
    if s.len() > 0 {
        let d = s.drop_last();
        lemma_unlayout_escape(d);
        lemma_unlayout_escape_char(s[s.len() - 1]);
        lemma_unlayout_concat(json_escape(d), json_escape_char(s[s.len() - 1]), 1);
    }
}

proof fn lemma_unlayout_one(c: char, mode: int)
    requires
        0 <= mode <= 2,
    ensures
        unlayout(seq![c], mode) == if mode == 0 && (c == ' ' || c == '\n') {
            Seq::<char>::empty()
        } else {
            seq![c]
        },
        mode_after(seq![c], mode) == if mode == 0 {
            if c == '"' { 1int } else { 0int }
        } else if mode == 2 {
            1int
        } else if c == '\\' {
            2int
        } else if c == '"' {
            0int
        } else {
            1int
        },
{
    reveal_with_fuel(unlayout, 2);
    reveal_with_fuel(mode_after, 2);
    assert(seq![c][0] == c);
    assert(seq![c].drop_first() =~= Seq::<char>::empty());
    assert(seq![c] + Seq::<char>::empty() =~= seq![c]);
}

proof fn lemma_unlayout_json_str(x: Seq<char>)
    ensures
        unlayout(json_str(x), 0) == json_str(x),
        mode_after(json_str(x), 0) == 0,
{
    let q = seq!['"'];
    assert(q.drop_first() =~= Seq::<char>::empty());
    lemma_unlayout_one('"', 0);
    lemma_unlayout_one('"', 1);
    lemma_unlayout_escape(x);
    lemma_unlayout_concat(q, json_escape(x), 0);
    lemma_unlayout_concat(q + json_escape(x), q, 0);
}

proof fn lemma_unlayout_items(v: Seq<Seq<char>>)
    ensures
        unlayout(json_items(v), 0) == json_items(v),
        mode_after(json_items(v), 0) == 0,
    decreases v.len(),
{
    if v.len() == 1 {
        lemma_unlayout_json_str(v[0]);
    } else if v.len() > 1 {
        let d = v.drop_last();
        lemma_unlayout_items(d);
        lemma_unlayout_json_str(v[v.len() - 1]);
        lemma_unlayout_one(',', 0);
        assert(seq![','].drop_first() =~= Seq::<char>::empty());
        lemma_unlayout_concat(json_items(d), seq![','], 0);
        lemma_unlayout_concat(json_items(d) + seq![','], json_str(v[v.len() - 1]), 0);
    }
}

proof fn lemma_unlayout_blank(s: Seq<char>)
    requires
        forall|k: int| 0 <= k < s.len() ==> #[trigger] s[k] == ' ' || s[k] == '\n',
    ensures
        unlayout(s, 0) == Seq::<char>::empty(),
        mode_after(s, 0) == 0,
    decreases s.len(),
{
    if s.len() > 0 {
        let r = s.drop_first();
        assert forall|k: int| 0 <= k < r.len() implies #[trigger] r[k] == ' ' || r[k] == '\n' by {
            assert(r[k] == s[k + 1]);
        }
        lemma_unlayout_blank(r);
    }
}

proof fn lemma_unlayout_pretty_items(v: Seq<Seq<char>>)
    requires
        v.len() > 0,
    ensures
        unlayout(pretty_items(v), 0) == json_items(v),
        mode_after(pretty_items(v), 0) == 0,
    decreases v.len(),
{
    reveal_strlit("    ");
    reveal_strlit(",\n    ");
    let pad = "    "@;
    lemma_unlayout_blank(pad);
    lemma_unlayout_json_str(v[v.len() - 1]);
    if v.len() == 1 {
        lemma_unlayout_concat(pad, json_str(v[0]), 0);
    } else {
        let d = v.drop_last();
        lemma_unlayout_pretty_items(d);
        let sep = ",\n    "@;
        assert(sep =~= seq![','] + "\n    "@) by {
            reveal_strlit("\n    ");
        }
        reveal_strlit("\n    ");
        lemma_unlayout_blank("\n    "@);
        lemma_unlayout_one(',', 0);
        assert(seq![','].drop_first() =~= Seq::<char>::empty());
        lemma_unlayout_concat(seq![','], "\n    "@, 0);
        lemma_unlayout_concat(pretty_items(d), sep, 0);
        lemma_unlayout_concat(pretty_items(d) + sep, json_str(v[v.len() - 1]), 0);
    }
}

/// A pretty array of strings is the compact array laid out: taking out the
/// spaces and line feeds between its tokens gives back exactly the compact
/// array, elements and separating commas included.
pub proof fn lemma_pretty_array_is_compact(v: Seq<Seq<char>>)
    ensures
        unlayout(pretty_array(v), 0) == json_array(v),
        mode_after(pretty_array(v), 0) == 0,
{
    reveal_strlit("[]");
    reveal_strlit("[\n");
    reveal_strlit("\n  ]");
    let open = seq!['['];
    let close = seq![']'];
    lemma_unlayout_one('[', 0);
    lemma_unlayout_one(']', 0);
    assert(open.drop_first() =~= Seq::<char>::empty());
    assert(close.drop_first() =~= Seq::<char>::empty());
    if v.len() == 0 {
        assert("[]"@ =~= open + close);
        lemma_unlayout_concat(open, close, 0);
        assert(json_array(v) =~= open + close);
    } else {
        assert("[\n"@ =~= open + seq!['\n']);
        assert("\n  ]"@ =~= seq!['\n', ' ', ' '] + close);
        lemma_unlayout_blank(seq!['\n']);
        lemma_unlayout_blank(seq!['\n', ' ', ' ']);
        lemma_unlayout_concat(open, seq!['\n'], 0);
        lemma_unlayout_concat(seq!['\n', ' ', ' '], close, 0);
        lemma_unlayout_pretty_items(v);
        lemma_unlayout_concat("[\n"@, pretty_items(v), 0);
        lemma_unlayout_concat("[\n"@ + pretty_items(v), "\n  ]"@, 0);
        assert(unlayout(pretty_array(v), 0) =~= open + json_items(v) + close);
    }
}

proof fn lemma_unlayout_plain(s: Seq<char>)
    requires
        forall|k: int|
            0 <= k < s.len() ==> #[trigger] s[k] != ' ' && s[k] != '\n' && s[k] != '"' && s[k] != '\\',
    ensures
        unlayout(s, 0) == s,
        mode_after(s, 0) == 0,
    decreases s.len(),
{
    if s.len() > 0 {
        let r = s.drop_first();
        assert forall|k: int| 0 <= k < r.len() implies #[trigger] r[k] != ' ' && r[k] != '\n' && r[k]
            != '"' && r[k] != '\\' by {
            assert(r[k] == s[k + 1]);
        }
        lemma_unlayout_plain(r);
        assert(seq![s[0]] + r =~= s);
    }
}

proof fn lemma_unlayout_int(x: int)
    ensures
        unlayout(int_chars(x), 0) == int_chars(x),
        mode_after(int_chars(x), 0) == 0,
{
    let n: nat = if x < 0 { (-x) as nat } else { x as nat };
    lemma_dec_chars_digits(n);
    let s = int_chars(x);
    let d = dec_chars(n);
    assert forall|k: int| 0 <= k < s.len() implies #[trigger] s[k] != ' ' && s[k] != '\n' && s[k]
        != '"' && s[k] != '\\' by {
        if x < 0 {
            if k > 0 {
                assert(s[k] == d[k - 1]);
                assert('0' <= d[k - 1] <= '9');
            }
        } else {
            assert('0' <= d[k] <= '9');
        }
    }
    lemma_unlayout_plain(s);
}

proof fn lemma_unlayout_dec(n: nat)
    ensures
        unlayout(dec_chars(n), 0) == dec_chars(n),
        mode_after(dec_chars(n), 0) == 0,
{
    lemma_unlayout_int(n as int);
}

proof fn lemma_unlayout_report_key_0()
    ensures
        unlayout("{\n  \"orchestrator_report_id\": "@, 0) == "{\"orchestrator_report_id\":"@,
        mode_after("{\n  \"orchestrator_report_id\": "@, 0) == 0,
{
    reveal_strlit("{\n  \"orchestrator_report_id\": ");
    reveal_strlit("{\"orchestrator_report_id\":");
    reveal_with_fuel(unlayout, 32);
    reveal_with_fuel(mode_after, 32);
}

proof fn lemma_unlayout_report_key_1()
    ensures
        unlayout(",\n  \"schema_version\": "@, 0) == ",\"schema_version\":"@,
        mode_after(",\n  \"schema_version\": "@, 0) == 0,
{
    reveal_strlit(",\n  \"schema_version\": ");
    reveal_strlit(",\"schema_version\":");
    reveal_with_fuel(unlayout, 24);
    reveal_with_fuel(mode_after, 24);
}

proof fn lemma_unlayout_report_key_2()
    ensures
        unlayout(",\n  \"producer_app\": "@, 0) == ",\"producer_app\":"@,
        mode_after(",\n  \"producer_app\": "@, 0) == 0,
{
    reveal_strlit(",\n  \"producer_app\": ");
    reveal_strlit(",\"producer_app\":");
    reveal_with_fuel(unlayout, 22);
    reveal_with_fuel(mode_after, 22);
}

proof fn lemma_unlayout_report_key_3()
    ensures
        unlayout(",\n  \"producer_version\": "@, 0) == ",\"producer_version\":"@,
        mode_after(",\n  \"producer_version\": "@, 0) == 0,
{
    reveal_strlit(",\n  \"producer_version\": ");
    reveal_strlit(",\"producer_version\":");
    reveal_with_fuel(unlayout, 26);
    reveal_with_fuel(mode_after, 26);
}

proof fn lemma_unlayout_report_key_4()
    ensures
        unlayout(",\n  \"created_at_ms\": "@, 0) == ",\"created_at_ms\":"@,
        mode_after(",\n  \"created_at_ms\": "@, 0) == 0,
{
    reveal_strlit(",\n  \"created_at_ms\": ");
    reveal_strlit(",\"created_at_ms\":");
    reveal_with_fuel(unlayout, 23);
    reveal_with_fuel(mode_after, 23);
}

proof fn lemma_unlayout_report_key_5()
    ensures
        unlayout(",\n  \"input_hypothesis_count\": "@, 0) == ",\"input_hypothesis_count\":"@,
        mode_after(",\n  \"input_hypothesis_count\": "@, 0) == 0,
{
    reveal_strlit(",\n  \"input_hypothesis_count\": ");
    reveal_strlit(",\"input_hypothesis_count\":");
    reveal_with_fuel(unlayout, 32);
    reveal_with_fuel(mode_after, 32);
}

proof fn lemma_unlayout_report_key_6()
    ensures
        unlayout(",\n  \"input_s3_keys_read\": "@, 0) == ",\"input_s3_keys_read\":"@,
        mode_after(",\n  \"input_s3_keys_read\": "@, 0) == 0,
{
    reveal_strlit(",\n  \"input_s3_keys_read\": ");
    reveal_strlit(",\"input_s3_keys_read\":");
    reveal_with_fuel(unlayout, 28);
    reveal_with_fuel(mode_after, 28);
}

proof fn lemma_unlayout_report_key_7()
    ensures
        unlayout(",\n  \"selected_job_count\": "@, 0) == ",\"selected_job_count\":"@,
        mode_after(",\n  \"selected_job_count\": "@, 0) == 0,
{
    reveal_strlit(",\n  \"selected_job_count\": ");
    reveal_strlit(",\"selected_job_count\":");
    reveal_with_fuel(unlayout, 28);
    reveal_with_fuel(mode_after, 28);
}

proof fn lemma_unlayout_report_key_8()
    ensures
        unlayout(",\n  \"skipped_count\": "@, 0) == ",\"skipped_count\":"@,
        mode_after(",\n  \"skipped_count\": "@, 0) == 0,
{
    reveal_strlit(",\n  \"skipped_count\": ");
    reveal_strlit(",\"skipped_count\":");
    reveal_with_fuel(unlayout, 23);
    reveal_with_fuel(mode_after, 23);
}

proof fn lemma_unlayout_report_key_9()
    ensures
        unlayout(",\n  \"changed_triggers\": "@, 0) == ",\"changed_triggers\":"@,
        mode_after(",\n  \"changed_triggers\": "@, 0) == 0,
{
    reveal_strlit(",\n  \"changed_triggers\": ");
    reveal_strlit(",\"changed_triggers\":");
    reveal_with_fuel(unlayout, 26);
    reveal_with_fuel(mode_after, 26);
}

proof fn lemma_unlayout_report_key_10()
    ensures
        unlayout(",\n  \"output_job_key\": "@, 0) == ",\"output_job_key\":"@,
        mode_after(",\n  \"output_job_key\": "@, 0) == 0,
{
    reveal_strlit(",\n  \"output_job_key\": ");
    reveal_strlit(",\"output_job_key\":");
    reveal_with_fuel(unlayout, 24);
    reveal_with_fuel(mode_after, 24);
}

proof fn lemma_unlayout_report_key_11()
    ensures
        unlayout(",\n  \"checksum\": "@, 0) == ",\"checksum\":"@,
        mode_after(",\n  \"checksum\": "@, 0) == 0,
{
    reveal_strlit(",\n  \"checksum\": ");
    reveal_strlit(",\"checksum\":");
    reveal_with_fuel(unlayout, 18);
    reveal_with_fuel(mode_after, 18);
}

proof fn lemma_unlayout_report_key_12()
    ensures
        unlayout("\n}"@, 0) == "}"@,
        mode_after("\n}"@, 0) == 0,
{
    reveal_strlit("\n}");
    reveal_strlit("}");
    reveal_with_fuel(unlayout, 4);
    reveal_with_fuel(mode_after, 4);
}

/// The pretty report is the compact report laid out: taking out the spaces
/// and line feeds between its tokens gives back exactly the compact JSON of
/// the report, whose SHA-256 is the report's checksum.
#[verifier::rlimit(100)]
pub proof fn lemma_pretty_report_is_compact(r: OrchestratorReportView)
    ensures
        unlayout(report_pretty_json(r), 0) == report_json(r),
{
    lemma_pretty_array_is_compact(r.changed_triggers);
    lemma_unlayout_json_str(r.orchestrator_report_id);
    lemma_unlayout_json_str(r.schema_version);
    lemma_unlayout_json_str(r.producer_app);
    lemma_unlayout_json_str(r.producer_version);
    lemma_unlayout_int(r.created_at_ms as int);
    lemma_unlayout_dec(r.input_hypothesis_count as nat);
    lemma_unlayout_dec(r.input_s3_keys_read as nat);
    lemma_unlayout_dec(r.selected_job_count as nat);
    lemma_unlayout_dec(r.skipped_count as nat);
    lemma_unlayout_json_str(r.output_job_key);
    lemma_unlayout_json_str(r.checksum);
    lemma_unlayout_report_key_0();
    lemma_unlayout_report_key_1();
    lemma_unlayout_report_key_2();
    lemma_unlayout_report_key_3();
    lemma_unlayout_report_key_4();
    lemma_unlayout_report_key_5();
    lemma_unlayout_report_key_6();
    lemma_unlayout_report_key_7();
    lemma_unlayout_report_key_8();
    lemma_unlayout_report_key_9();
    lemma_unlayout_report_key_10();
    lemma_unlayout_report_key_11();
    lemma_unlayout_report_key_12();
    lemma_unlayout_concat("{\n  \"orchestrator_report_id\": "@, json_str(r.orchestrator_report_id), 0);
    lemma_unlayout_concat("{\n  \"orchestrator_report_id\": "@ + json_str(r.orchestrator_report_id), ",\n  \"schema_version\": "@, 0);
    lemma_unlayout_concat("{\n  \"orchestrator_report_id\": "@ + json_str(r.orchestrator_report_id) + ",\n  \"schema_version\": "@, json_str(r.schema_version), 0);
    lemma_unlayout_concat("{\n  \"orchestrator_report_id\": "@ + json_str(r.orchestrator_report_id) + ",\n  \"schema_version\": "@ + json_str(r.schema_version), ",\n  \"producer_app\": "@, 0);
    lemma_unlayout_concat("{\n  \"orchestrator_report_id\": "@ + json_str(r.orchestrator_report_id) + ",\n  \"schema_version\": "@ + json_str(r.schema_version) + ",\n  \"producer_app\": "@, json_str(r.producer_app), 0);
    lemma_unlayout_concat("{\n  \"orchestrator_report_id\": "@ + json_str(r.orchestrator_report_id) + ",\n  \"schema_version\": "@ + json_str(r.schema_version) + ",\n  \"producer_app\": "@ + json_str(r.producer_app), ",\n  \"producer_version\": "@, 0);
    lemma_unlayout_concat("{\n  \"orchestrator_report_id\": "@ + json_str(r.orchestrator_report_id) + ",\n  \"schema_version\": "@ + json_str(r.schema_version) + ",\n  \"producer_app\": "@ + json_str(r.producer_app) + ",\n  \"producer_version\": "@, json_str(r.producer_version), 0);
    lemma_unlayout_concat("{\n  \"orchestrator_report_id\": "@ + json_str(r.orchestrator_report_id) + ",\n  \"schema_version\": "@ + json_str(r.schema_version) + ",\n  \"producer_app\": "@ + json_str(r.producer_app) + ",\n  \"producer_version\": "@ + json_str(r.producer_version), ",\n  \"created_at_ms\": "@, 0);
    lemma_unlayout_concat("{\n  \"orchestrator_report_id\": "@ + json_str(r.orchestrator_report_id) + ",\n  \"schema_version\": "@ + json_str(r.schema_version) + ",\n  \"producer_app\": "@ + json_str(r.producer_app) + ",\n  \"producer_version\": "@ + json_str(r.producer_version) + ",\n  \"created_at_ms\": "@, int_chars(r.created_at_ms as int), 0);
    lemma_unlayout_concat("{\n  \"orchestrator_report_id\": "@ + json_str(r.orchestrator_report_id) + ",\n  \"schema_version\": "@ + json_str(r.schema_version) + ",\n  \"producer_app\": "@ + json_str(r.producer_app) + ",\n  \"producer_version\": "@ + json_str(r.producer_version) + ",\n  \"created_at_ms\": "@ + int_chars(r.created_at_ms as int), ",\n  \"input_hypothesis_count\": "@, 0);
    lemma_unlayout_concat("{\n  \"orchestrator_report_id\": "@ + json_str(r.orchestrator_report_id) + ",\n  \"schema_version\": "@ + json_str(r.schema_version) + ",\n  \"producer_app\": "@ + json_str(r.producer_app) + ",\n  \"producer_version\": "@ + json_str(r.producer_version) + ",\n  \"created_at_ms\": "@ + int_chars(r.created_at_ms as int) + ",\n  \"input_hypothesis_count\": "@, dec_chars(r.input_hypothesis_count as nat), 0);
    lemma_unlayout_concat("{\n  \"orchestrator_report_id\": "@ + json_str(r.orchestrator_report_id) + ",\n  \"schema_version\": "@ + json_str(r.schema_version) + ",\n  \"producer_app\": "@ + json_str(r.producer_app) + ",\n  \"producer_version\": "@ + json_str(r.producer_version) + ",\n  \"created_at_ms\": "@ + int_chars(r.created_at_ms as int) + ",\n  \"input_hypothesis_count\": "@ + dec_chars(r.input_hypothesis_count as nat), ",\n  \"input_s3_keys_read\": "@, 0);
    lemma_unlayout_concat("{\n  \"orchestrator_report_id\": "@ + json_str(r.orchestrator_report_id) + ",\n  \"schema_version\": "@ + json_str(r.schema_version) + ",\n  \"producer_app\": "@ + json_str(r.producer_app) + ",\n  \"producer_version\": "@ + json_str(r.producer_version) + ",\n  \"created_at_ms\": "@ + int_chars(r.created_at_ms as int) + ",\n  \"input_hypothesis_count\": "@ + dec_chars(r.input_hypothesis_count as nat) + ",\n  \"input_s3_keys_read\": "@, dec_chars(r.input_s3_keys_read as nat), 0);
    lemma_unlayout_concat("{\n  \"orchestrator_report_id\": "@ + json_str(r.orchestrator_report_id) + ",\n  \"schema_version\": "@ + json_str(r.schema_version) + ",\n  \"producer_app\": "@ + json_str(r.producer_app) + ",\n  \"producer_version\": "@ + json_str(r.producer_version) + ",\n  \"created_at_ms\": "@ + int_chars(r.created_at_ms as int) + ",\n  \"input_hypothesis_count\": "@ + dec_chars(r.input_hypothesis_count as nat) + ",\n  \"input_s3_keys_read\": "@ + dec_chars(r.input_s3_keys_read as nat), ",\n  \"selected_job_count\": "@, 0);
    lemma_unlayout_concat("{\n  \"orchestrator_report_id\": "@ + json_str(r.orchestrator_report_id) + ",\n  \"schema_version\": "@ + json_str(r.schema_version) + ",\n  \"producer_app\": "@ + json_str(r.producer_app) + ",\n  \"producer_version\": "@ + json_str(r.producer_version) + ",\n  \"created_at_ms\": "@ + int_chars(r.created_at_ms as int) + ",\n  \"input_hypothesis_count\": "@ + dec_chars(r.input_hypothesis_count as nat) + ",\n  \"input_s3_keys_read\": "@ + dec_chars(r.input_s3_keys_read as nat) + ",\n  \"selected_job_count\": "@, dec_chars(r.selected_job_count as nat), 0);
    lemma_unlayout_concat("{\n  \"orchestrator_report_id\": "@ + json_str(r.orchestrator_report_id) + ",\n  \"schema_version\": "@ + json_str(r.schema_version) + ",\n  \"producer_app\": "@ + json_str(r.producer_app) + ",\n  \"producer_version\": "@ + json_str(r.producer_version) + ",\n  \"created_at_ms\": "@ + int_chars(r.created_at_ms as int) + ",\n  \"input_hypothesis_count\": "@ + dec_chars(r.input_hypothesis_count as nat) + ",\n  \"input_s3_keys_read\": "@ + dec_chars(r.input_s3_keys_read as nat) + ",\n  \"selected_job_count\": "@ + dec_chars(r.selected_job_count as nat), ",\n  \"skipped_count\": "@, 0);
    lemma_unlayout_concat("{\n  \"orchestrator_report_id\": "@ + json_str(r.orchestrator_report_id) + ",\n  \"schema_version\": "@ + json_str(r.schema_version) + ",\n  \"producer_app\": "@ + json_str(r.producer_app) + ",\n  \"producer_version\": "@ + json_str(r.producer_version) + ",\n  \"created_at_ms\": "@ + int_chars(r.created_at_ms as int) + ",\n  \"input_hypothesis_count\": "@ + dec_chars(r.input_hypothesis_count as nat) + ",\n  \"input_s3_keys_read\": "@ + dec_chars(r.input_s3_keys_read as nat) + ",\n  \"selected_job_count\": "@ + dec_chars(r.selected_job_count as nat) + ",\n  \"skipped_count\": "@, dec_chars(r.skipped_count as nat), 0);
    lemma_unlayout_concat("{\n  \"orchestrator_report_id\": "@ + json_str(r.orchestrator_report_id) + ",\n  \"schema_version\": "@ + json_str(r.schema_version) + ",\n  \"producer_app\": "@ + json_str(r.producer_app) + ",\n  \"producer_version\": "@ + json_str(r.producer_version) + ",\n  \"created_at_ms\": "@ + int_chars(r.created_at_ms as int) + ",\n  \"input_hypothesis_count\": "@ + dec_chars(r.input_hypothesis_count as nat) + ",\n  \"input_s3_keys_read\": "@ + dec_chars(r.input_s3_keys_read as nat) + ",\n  \"selected_job_count\": "@ + dec_chars(r.selected_job_count as nat) + ",\n  \"skipped_count\": "@ + dec_chars(r.skipped_count as nat), ",\n  \"changed_triggers\": "@, 0);
    lemma_unlayout_concat("{\n  \"orchestrator_report_id\": "@ + json_str(r.orchestrator_report_id) + ",\n  \"schema_version\": "@ + json_str(r.schema_version) + ",\n  \"producer_app\": "@ + json_str(r.producer_app) + ",\n  \"producer_version\": "@ + json_str(r.producer_version) + ",\n  \"created_at_ms\": "@ + int_chars(r.created_at_ms as int) + ",\n  \"input_hypothesis_count\": "@ + dec_chars(r.input_hypothesis_count as nat) + ",\n  \"input_s3_keys_read\": "@ + dec_chars(r.input_s3_keys_read as nat) + ",\n  \"selected_job_count\": "@ + dec_chars(r.selected_job_count as nat) + ",\n  \"skipped_count\": "@ + dec_chars(r.skipped_count as nat) + ",\n  \"changed_triggers\": "@, pretty_array(r.changed_triggers), 0);
    lemma_unlayout_concat("{\n  \"orchestrator_report_id\": "@ + json_str(r.orchestrator_report_id) + ",\n  \"schema_version\": "@ + json_str(r.schema_version) + ",\n  \"producer_app\": "@ + json_str(r.producer_app) + ",\n  \"producer_version\": "@ + json_str(r.producer_version) + ",\n  \"created_at_ms\": "@ + int_chars(r.created_at_ms as int) + ",\n  \"input_hypothesis_count\": "@ + dec_chars(r.input_hypothesis_count as nat) + ",\n  \"input_s3_keys_read\": "@ + dec_chars(r.input_s3_keys_read as nat) + ",\n  \"selected_job_count\": "@ + dec_chars(r.selected_job_count as nat) + ",\n  \"skipped_count\": "@ + dec_chars(r.skipped_count as nat) + ",\n  \"changed_triggers\": "@ + pretty_array(r.changed_triggers), ",\n  \"output_job_key\": "@, 0);
    lemma_unlayout_concat("{\n  \"orchestrator_report_id\": "@ + json_str(r.orchestrator_report_id) + ",\n  \"schema_version\": "@ + json_str(r.schema_version) + ",\n  \"producer_app\": "@ + json_str(r.producer_app) + ",\n  \"producer_version\": "@ + json_str(r.producer_version) + ",\n  \"created_at_ms\": "@ + int_chars(r.created_at_ms as int) + ",\n  \"input_hypothesis_count\": "@ + dec_chars(r.input_hypothesis_count as nat) + ",\n  \"input_s3_keys_read\": "@ + dec_chars(r.input_s3_keys_read as nat) + ",\n  \"selected_job_count\": "@ + dec_chars(r.selected_job_count as nat) + ",\n  \"skipped_count\": "@ + dec_chars(r.skipped_count as nat) + ",\n  \"changed_triggers\": "@ + pretty_array(r.changed_triggers) + ",\n  \"output_job_key\": "@, json_str(r.output_job_key), 0);
    lemma_unlayout_concat("{\n  \"orchestrator_report_id\": "@ + json_str(r.orchestrator_report_id) + ",\n  \"schema_version\": "@ + json_str(r.schema_version) + ",\n  \"producer_app\": "@ + json_str(r.producer_app) + ",\n  \"producer_version\": "@ + json_str(r.producer_version) + ",\n  \"created_at_ms\": "@ + int_chars(r.created_at_ms as int) + ",\n  \"input_hypothesis_count\": "@ + dec_chars(r.input_hypothesis_count as nat) + ",\n  \"input_s3_keys_read\": "@ + dec_chars(r.input_s3_keys_read as nat) + ",\n  \"selected_job_count\": "@ + dec_chars(r.selected_job_count as nat) + ",\n  \"skipped_count\": "@ + dec_chars(r.skipped_count as nat) + ",\n  \"changed_triggers\": "@ + pretty_array(r.changed_triggers) + ",\n  \"output_job_key\": "@ + json_str(r.output_job_key), ",\n  \"checksum\": "@, 0);
    lemma_unlayout_concat("{\n  \"orchestrator_report_id\": "@ + json_str(r.orchestrator_report_id) + ",\n  \"schema_version\": "@ + json_str(r.schema_version) + ",\n  \"producer_app\": "@ + json_str(r.producer_app) + ",\n  \"producer_version\": "@ + json_str(r.producer_version) + ",\n  \"created_at_ms\": "@ + int_chars(r.created_at_ms as int) + ",\n  \"input_hypothesis_count\": "@ + dec_chars(r.input_hypothesis_count as nat) + ",\n  \"input_s3_keys_read\": "@ + dec_chars(r.input_s3_keys_read as nat) + ",\n  \"selected_job_count\": "@ + dec_chars(r.selected_job_count as nat) + ",\n  \"skipped_count\": "@ + dec_chars(r.skipped_count as nat) + ",\n  \"changed_triggers\": "@ + pretty_array(r.changed_triggers) + ",\n  \"output_job_key\": "@ + json_str(r.output_job_key) + ",\n  \"checksum\": "@, json_str(r.checksum), 0);
    lemma_unlayout_concat("{\n  \"orchestrator_report_id\": "@ + json_str(r.orchestrator_report_id) + ",\n  \"schema_version\": "@ + json_str(r.schema_version) + ",\n  \"producer_app\": "@ + json_str(r.producer_app) + ",\n  \"producer_version\": "@ + json_str(r.producer_version) + ",\n  \"created_at_ms\": "@ + int_chars(r.created_at_ms as int) + ",\n  \"input_hypothesis_count\": "@ + dec_chars(r.input_hypothesis_count as nat) + ",\n  \"input_s3_keys_read\": "@ + dec_chars(r.input_s3_keys_read as nat) + ",\n  \"selected_job_count\": "@ + dec_chars(r.selected_job_count as nat) + ",\n  \"skipped_count\": "@ + dec_chars(r.skipped_count as nat) + ",\n  \"changed_triggers\": "@ + pretty_array(r.changed_triggers) + ",\n  \"output_job_key\": "@ + json_str(r.output_job_key) + ",\n  \"checksum\": "@ + json_str(r.checksum), "\n}"@, 0);
}

} // verus!

//! Object keys of a run's outputs, and the rules an output key obeys.
use crate::error::{result_is, str_result_is, validation_error, AppError, ErrorView};
use crate::ids::{
    civil_date, partition, partition_date, partition_hour, prefixed_key, prefixed_key_spec, utc_civil,
};
use crate::path_validation::{path_verdict, validate_unambiguous_absolute_path};
use crate::args::s3::{prefix_verdict, strip_slash};
use crate::text::{
    lemma_period_segment_concat_sep, clean, lemma_clean_concat, lemma_clean_no_period_segment, lemma_encode_utf8_concat,
    lemma_encode_utf8_len_bound, lemma_slashless_clean, lemma_zero_pad_len, lemma_zero_pad_plain,
    has_empty_segment, is_ws, lemma_encode_utf8_push, lemma_trailing_sep_empty_segment,
    seq_trim_end_by, seq_trim_start_by, any_char, append_str, chars_of, has_period_segment, is_control_char, is_ctrl, push_zero_padded,
    scan_segments, seq_trim_slashes, string_of, trim_bounds, utf8_len, zero_pad,
};
use vstd::prelude::*;
use vstd::utf8::encode_utf8;

verus! {

/// Schema of the harness jobs.
pub const JOB_SCHEMA_VERSION: &'static str = "hypothesis_harness_job_v1";

/// Schema of the run report.
pub const REPORT_SCHEMA_VERSION: &'static str = "recomposition_orchestrator_report_v1";

/// The name under which jobs and reports are produced.
pub const PRODUCER_APP: &'static str = "recomposition-orchestrator-app";

/// The version under which jobs and reports are produced.
pub const PRODUCER_VERSION: &'static str = "0.1.0";

/// The key of a run's job file.
pub open spec fn harness_job_key_spec(created_at_ms: i64, report_id: Seq<char>) -> Seq<char> {
    "hypothesis-harness-job/schema="@ + JOB_SCHEMA_VERSION@ + "/dt="@ + partition_date(created_at_ms)
        + "/hour="@ + zero_pad(partition_hour(created_at_ms) as int, 2)
        + "/orchestrator_report_id="@ + report_id + "/part-000001.jsonl"@
}

/// The key of a run's report file.
pub open spec fn report_key_spec(created_at_ms: i64, report_id: Seq<char>) -> Seq<char> {
    "recomposition-orchestrator-report/schema="@ + REPORT_SCHEMA_VERSION@ + "/dt="@
        + partition_date(created_at_ms) + "/hour="@ + zero_pad(
        partition_hour(created_at_ms) as int,
        2,
    ) + "/orchestrator_report_id="@ + report_id + "/report.json"@
}

pub fn harness_job_key(created_at_ms: i64, report_id: &str) -> (k: String)
    ensures
        k@ == harness_job_key_spec(created_at_ms, report_id@),
{
    let part = partition(created_at_ms);
    let mut k = "hypothesis-harness-job/schema=".to_owned();
    append_str(&mut k, JOB_SCHEMA_VERSION);
    append_str(&mut k, "/dt=");
    append_str(&mut k, part.date.as_str());
    append_str(&mut k, "/hour=");
    push_zero_padded(&mut k, part.hour as i64, 2);
    append_str(&mut k, "/orchestrator_report_id=");
    append_str(&mut k, report_id);
    append_str(&mut k, "/part-000001.jsonl");
    k
}

pub fn orchestrator_report_key(created_at_ms: i64, report_id: &str) -> (k: String)
    ensures
        k@ == report_key_spec(created_at_ms, report_id@),
{
    let part = partition(created_at_ms);
    let mut k = "recomposition-orchestrator-report/schema=".to_owned();
    append_str(&mut k, REPORT_SCHEMA_VERSION);
    append_str(&mut k, "/dt=");
    append_str(&mut k, part.date.as_str());
    append_str(&mut k, "/hour=");
    push_zero_padded(&mut k, part.hour as i64, 2);
    append_str(&mut k, "/orchestrator_report_id=");
    append_str(&mut k, report_id);
    append_str(&mut k, "/report.json");
    k
}

/// What `validate_key_component` answers: a non-empty single path piece,
/// not `.` or `..`, with no separator or control character.
pub open spec fn component_verdict(value: Seq<char>, label: Seq<char>) -> Result<(), ErrorView> {
    if value.len() == 0 {
        Err(validation_error(label + " is required"@))
    } else if value == seq!['.'] || value == seq!['.', '.'] {
        Err(validation_error(label + " must not be a period-only path segment"@))
    } else if any_char(value, |c: char| is_ctrl(c) || c == '/' || c == '\\') {
        Err(validation_error(label + " must not contain path separators or control characters"@))
    } else {
        Ok(())
    }
}

/// One piece of a key, such as a report id.
pub fn validate_key_component(value: &str, label: &str) -> (r: Result<(), AppError>)
    ensures
        result_is(r, component_verdict(value@, label@)),
{
    let v = chars_of(value);
    if v.len() == 0 {
        let mut m = label.to_owned();
        append_str(&mut m, " is required");
        return Err(AppError::validation(m));
    }
    let one = v.len() == 1 && v[0] == '.';
    let two = v.len() == 2 && v[0] == '.' && v[1] == '.';
    proof {
        let a = seq!['.'];
        let b = seq!['.', '.'];
        assert(a.len() == 1 && a[0] == '.');
        assert(b.len() == 2 && b[0] == '.' && b[1] == '.');
        if one {
            assert(v@ =~= a);
        }
        if two {
            assert(v@ =~= b);
        }
        if v@ == a {
            assert(v@[0] == '.');
        }
        if v@ == b {
            assert(v@[0] == '.' && v@[1] == '.');
        }
    }
    if one || two {
        let mut m = label.to_owned();
        append_str(&mut m, " must not be a period-only path segment");
        return Err(AppError::validation(m));
    }
    let mut i: usize = 0;
    while i < v.len()
        invariant
            i <= v@.len(),
            v@ == value@,
            v@.len() > 0,
            v@ != seq!['.'],
            v@ != seq!['.', '.'],
            forall|k: int| 0 <= k < i ==> !(is_ctrl(#[trigger] v@[k]) || v@[k] == '/' || v@[k] == '\\'),
        decreases v@.len() - i,
    {
        let c = v[i];
        if is_control_char(c) || c == '/' || c == '\\' {
            assert((|c: char| is_ctrl(c) || c == '/' || c == '\\')(v@[i as int]));
            let mut m = label.to_owned();
            append_str(&mut m, " must not contain path separators or control characters");
            return Err(AppError::validation(m));
        }
        i = i + 1;
    }
    Ok(())
}

/// What `validate_relative_key` answers: a relative object key (on Unix, a
/// path whose pieces are all plain names), at most 1024 bytes, with no
/// control character, backslash, or `.`/`..` piece.
pub open spec fn relative_key_verdict(value: Seq<char>, allow_empty: bool) -> Result<(), ErrorView> {
    if value.len() == 0 {
        if allow_empty {
            Ok(())
        } else {
            Err(validation_error("output key is required"@))
        }
    } else if encode_utf8(value).len() > 1024 {
        Err(validation_error("output key must be at most 1024 bytes"@))
    } else if any_char(value, |c: char| is_ctrl(c) || c == '\\') {
        Err(validation_error("output key must not contain control characters or backslashes"@))
    } else if has_period_segment(value, false) {
        Err(validation_error("output key must not contain period-only path segments"@))
    } else if value[0] == '/' {
        Err(validation_error("output key must be a relative object key without path traversal"@))
    } else {
        Ok(())
    }
}

fn validate_relative_key(value: &str, allow_empty: bool) -> (r: Result<(), AppError>)
    ensures
        result_is(r, relative_key_verdict(value@, allow_empty)),
{
    let v = chars_of(value);
    if v.len() == 0 {
        if allow_empty {
            return Ok(());
        }
        return Err(AppError::validation("output key is required".to_owned()));
    }
    if utf8_len(&v) > 1024 {
        return Err(AppError::validation("output key must be at most 1024 bytes".to_owned()));
    }
    let mut i: usize = 0;
    while i < v.len()
        invariant
            i <= v@.len(),
            v@ == value@,
            v@.len() > 0,
            encode_utf8(v@).len() <= 1024,
            forall|k: int| 0 <= k < i ==> !(is_ctrl(#[trigger] v@[k]) || v@[k] == '\\'),
        decreases v@.len() - i,
    {
        let c = v[i];
        if is_control_char(c) || c == '\\' {
            assert((|c: char| is_ctrl(c) || c == '\\')(v@[i as int]));
            return Err(
                AppError::validation(
                    "output key must not contain control characters or backslashes".to_owned(),
                ),
            );
        }
        i = i + 1;
    }
    let (_, period) = scan_segments(&v, false);
    if period {
        return Err(
            AppError::validation("output key must not contain period-only path segments".to_owned()),
        );
    }
    if v[0] == '/' {
        return Err(
            AppError::validation(
                "output key must be a relative object key without path traversal".to_owned(),
            ),
        );
    }
    Ok(())
}

/// A key under which an output may be stored.
pub fn validate_output_key(key: &str) -> (r: Result<(), AppError>)
    ensures
        result_is(r, relative_key_verdict(key@, false)),
{
    validate_relative_key(key, false)
}

/// What `safe_prefixed_key` answers: the prefix without its outer `/` must
/// be empty or a valid key, and the joined key must be a valid key.
pub open spec fn safe_prefixed_verdict(prefix: Seq<char>, key: Seq<char>) -> Result<Seq<char>, ErrorView> {
    let p = seq_trim_slashes(prefix);
    match relative_key_verdict(p, true) {
        Err(e) => Err(e),
        Ok(_) => {
            let k = prefixed_key_spec(p, key);
            match relative_key_verdict(k, false) {
                Err(e) => Err(e),
                Ok(_) => Ok(k),
            }
        },
    }
}

/// Joins an output prefix and a key, and checks both.
pub fn safe_prefixed_key(prefix: &str, key: &str) -> (r: Result<String, AppError>)
    ensures
        str_result_is(r, safe_prefixed_verdict(prefix@, key@)),
{
    let v = chars_of(prefix);
    let (a, b) = trim_bounds(&v, true);
    let p = string_of(&v, a, b);
    match validate_relative_key(p.as_str(), true) {
        Err(e) => return Err(e),
        Ok(()) => {},
    }
    let k = prefixed_key(p.as_str(), key);
    match validate_output_key(k.as_str()) {
        Err(e) => Err(e),
        Ok(()) => Ok(k),
    }
}

/// `Path::join` on Unix of an absolute directory and a relative key, as text.
pub open spec fn join_path(dir: Seq<char>, key: Seq<char>) -> Seq<char> {
    if dir.len() > 0 && dir[dir.len() - 1] == '/' {
        dir + key
    } else {
        dir + seq!['/'] + key
    }
}

/// What `output_file_path` answers: the directory must be an unambiguous
/// absolute path and the key a valid output key.
pub open spec fn output_path_verdict(dir: Seq<char>, key: Seq<char>) -> Result<Seq<char>, ErrorView> {
    match path_verdict(dir, "output dir"@) {
        Err(m) => Err(validation_error(m)),
        Ok(_) => match relative_key_verdict(key, false) {
            Err(e) => Err(e),
            Ok(_) => Ok(join_path(dir, key)),
        },
    }
}

/// The local file that an output key names under an output directory.
pub fn output_file_path(output_dir: &str, key: &str) -> (r: Result<String, AppError>)
    ensures
        str_result_is(r, output_path_verdict(output_dir@, key@)),
{
    match validate_unambiguous_absolute_path(output_dir, "output dir") {
        Err(m) => return Err(AppError::validation(m)),
        Ok(()) => {},
    }
    match validate_output_key(key) {
        Err(e) => return Err(e),
        Ok(()) => {},
    }
    let d = chars_of(output_dir);
    let mut p = output_dir.to_owned();
    if !(d.len() > 0 && d[d.len() - 1] == '/') {
        crate::text::push_char(&mut p, '/');
    }
    append_str(&mut p, key);
    assert(p@ =~= join_path(output_dir@, key@));
    Ok(p)
}

/// What `s3_output_keys` answers: the job file's key and then the report's,
/// each joined to the prefix by `safe_prefixed_key`; the first refusal wins.
pub open spec fn s3_output_keys_verdict(prefix: Seq<char>, created_at_ms: i64, report_id: Seq<char>) -> Result<
    (Seq<char>, Seq<char>),
    ErrorView,
> {
    match safe_prefixed_verdict(prefix, harness_job_key_spec(created_at_ms, report_id)) {
        Err(e) => Err(e),
        Ok(j) => match safe_prefixed_verdict(prefix, report_key_spec(created_at_ms, report_id)) {
            Err(e) => Err(e),
            Ok(r) => Ok((j, r)),
        },
    }
}

/// `r` is the verdict `v`, a pair of strings taken by their characters.
pub open spec fn key_pair_is(
    r: Result<(String, String), AppError>,
    v: Result<(Seq<char>, Seq<char>), ErrorView>,
) -> bool {
    match (r, v) {
        (Ok((a, b)), Ok((x, y))) => a@ == x && b@ == y,
        (Err(e), Err(w)) => e@ == w,
        _ => false,
    }
}

/// The S3 keys of a run's job file and report under an output prefix.
pub fn s3_output_keys(prefix: &str, created_at_ms: i64, report_id: &str) -> (r: Result<
    (String, String),
    AppError,
>)
    ensures
        key_pair_is(r, s3_output_keys_verdict(prefix@, created_at_ms, report_id@)),
{
    let job_key = match safe_prefixed_key(prefix, harness_job_key(created_at_ms, report_id).as_str()) {
        Err(e) => return Err(e),
        Ok(k) => k,
    };
    let report_key = match safe_prefixed_key(
        prefix,
        orchestrator_report_key(created_at_ms, report_id).as_str(),
    ) {
        Err(e) => return Err(e),
        Ok(k) => k,
    };
    Ok((job_key, report_key))
}

/// `s3://bucket/key`.
pub open spec fn s3_uri_spec(bucket: Seq<char>, key: Seq<char>) -> Seq<char> {
    "s3://"@ + bucket + "/"@ + key
}

pub fn s3_uri(bucket: &str, key: &str) -> (u: String)
    ensures
        u@ == s3_uri_spec(bucket@, key@),
{
    let mut u = "s3://".to_owned();
    append_str(&mut u, bucket);
    append_str(&mut u, "/");
    append_str(&mut u, key);
    u
}


/// An output prefix that the command line accepts is one that output keys
/// can stand under: without its outer `/` it is the prefix less its one
/// trailing `/`, and a valid key prefix for `safe_prefixed_key`.
pub proof fn lemma_accepted_prefix_is_key_prefix(p: Seq<char>, flag: Seq<char>)
    requires
        prefix_verdict(p, flag) is Ok,
    ensures
        seq_trim_slashes(p) == strip_slash(p),
        relative_key_verdict(seq_trim_slashes(p), true) is Ok,
{
    let n = strip_slash(p);
    assert(p.len() > 0 && p[0] != '/');
    assert(seq_trim_start_by(p, true) == p);
    assert(n.len() > 0 && !has_empty_segment(n, false));
    if n[n.len() - 1] == '/' {
        lemma_trailing_sep_empty_segment(n, false);
    }
    if p[p.len() - 1] == '/' {
        assert(p.drop_last() == n);
        assert(seq_trim_end_by(n, true) == n);
        assert(seq_trim_end_by(p, true) == seq_trim_end_by(n, true));
    } else {
        assert(n == p);
        assert(seq_trim_end_by(p, true) == p);
    }
    assert(seq_trim_slashes(p) == n);
    if p[p.len() - 1] == '/' {
        assert(p =~= n.push('/'));
        lemma_encode_utf8_push(n, '/');
    }
    assert(encode_utf8(n).len() <= encode_utf8(p).len());
    if any_char(n, |c: char| is_ctrl(c) || c == '\\') {
        let k = choose|k: int| 0 <= k < n.len() && (|c: char| is_ctrl(c) || c == '\\')(#[trigger] n[k]);
        assert(p[k] == n[k]);
        assert((|c: char| is_ctrl(c) || is_ws(c) || c == '\\')(p[k]));
    }
    assert(n[0] == p[0]);
}


/// Digits and `-` only.
spec fn plain(s: Seq<char>) -> bool {
    forall|k: int| 0 <= k < s.len() ==> #[trigger] s[k] == '-' || '0' <= s[k] <= '9'
}

proof fn lemma_plain_concat(a: Seq<char>, b: Seq<char>)
    requires
        plain(a),
        plain(b),
    ensures
        plain(a + b),
{
    assert forall|k: int| 0 <= k < (a + b).len() implies #[trigger] (a + b)[k] == '-' || '0' <= (a
        + b)[k] <= '9' by {
        if k < a.len() {
            assert((a + b)[k] == a[k]);
        } else {
            assert((a + b)[k] == b[k - a.len()]);
        }
    }
}

proof fn lemma_plain_piece(s: Seq<char>)
    requires
        plain(s),
    ensures
        clean(s),
        s.len() > 0 ==> s[0] != '.' && s[0] != '/',
{
    assert forall|k: int| 0 <= k < s.len() implies #[trigger] s[k] != '/' && !is_ctrl(s[k]) && s[k]
        != '\\' by {
        assert(s[k] == '-' || '0' <= s[k] <= '9');
    }
    lemma_slashless_clean(s);
}

proof fn lemma_date_plain(y: int, m: int, d: int)
    requires
        -10_000_000_000 < y < 10_000_000_000,
        0 <= m < 10_000_000_000,
        0 <= d < 10_000_000_000,
    ensures
        plain(civil_date(y, m, d)),
        civil_date(y, m, d).len() <= 35,
{
    reveal_strlit("-");
    lemma_zero_pad_plain(y, 4);
    lemma_zero_pad_plain(m, 2);
    lemma_zero_pad_plain(d, 2);
    lemma_zero_pad_len(y, 4);
    lemma_zero_pad_len(m, 2);
    lemma_zero_pad_len(d, 2);
    let dash = "-"@;
    assert(plain(dash));
    lemma_plain_concat(zero_pad(y, 4), dash);
    lemma_plain_concat(zero_pad(y, 4) + dash, zero_pad(m, 2));
    lemma_plain_concat(zero_pad(y, 4) + dash + zero_pad(m, 2), dash);
    lemma_plain_concat(zero_pad(y, 4) + dash + zero_pad(m, 2) + dash, zero_pad(d, 2));
}

proof fn lemma_partition_pieces(ms: i64)
    ensures
        plain(partition_date(ms)),
        partition_date(ms).len() <= 35,
        plain(zero_pad(partition_hour(ms) as int, 2)),
        zero_pad(partition_hour(ms) as int, 2).len() <= 11,
{
    match utc_civil(ms) {
        Some(t) => lemma_date_plain(t.0 as int, t.1 as int, t.2 as int),
        None => lemma_date_plain(1970, 1, 1),
    }
    lemma_zero_pad_plain(partition_hour(ms) as int, 2);
    lemma_zero_pad_len(partition_hour(ms) as int, 2);
}

/// A key laid out as the run's keys are: a head, a schema, the date and
/// hour, the report id and a tail.
spec fn laid_out(head: Seq<char>, schema: Seq<char>, d: Seq<char>, h: Seq<char>, id: Seq<char>, tail: Seq<char>) -> Seq<char> {
    head + schema + "/dt="@ + d + "/hour="@ + h + "/orchestrator_report_id="@ + id + tail
}

proof fn lemma_laid_out_valid(
    head: Seq<char>,
    schema: Seq<char>,
    d: Seq<char>,
    h: Seq<char>,
    id: Seq<char>,
    tail: Seq<char>,
)
    requires
        clean(head),
        clean(schema),
        clean(tail),
        head.len() > 0 && head[0] != '.' && head[0] != '/',
        schema.len() > 0 ==> schema[0] != '.',
        tail.len() > 0 ==> tail[0] != '.',
        plain(d),
        plain(h),
        forall|k: int| 0 <= k < id.len() ==> #[trigger] id[k] != '/' && !is_ctrl(id[k]) && id[k] != '\\',
        4 * (head.len() + schema.len() + d.len() + h.len() + tail.len() + 34) + encode_utf8(id).len()
            <= 1024,
    ensures
        relative_key_verdict(laid_out(head, schema, d, h, id, tail), false) is Ok,
{
    reveal_strlit("/dt=");
    reveal_strlit("/hour=");
    reveal_strlit("/orchestrator_report_id=");
    let dt = "/dt="@;
    let hr = "/hour="@;
    let ri = "/orchestrator_report_id="@;
    assert(clean(dt) && clean(hr) && clean(ri));
    lemma_plain_piece(d);
    lemma_plain_piece(h);
    lemma_slashless_clean(id);
    let p1 = head + schema;
    lemma_clean_concat(head, schema);
    let p2 = p1 + dt;
    lemma_clean_concat(p1, dt);
    let p3 = p2 + d;
    lemma_clean_concat(p2, d);
    let p4 = p3 + hr;
    lemma_clean_concat(p3, hr);
    let p5 = p4 + h;
    lemma_clean_concat(p4, h);
    let p6 = p5 + ri;
    lemma_clean_concat(p5, ri);
    assert(p6[p6.len() - 1] == ri[ri.len() - 1]);
    let p7 = p6 + id;
    lemma_clean_concat(p6, id);
    let key = p7 + tail;
    lemma_clean_concat(p7, tail);
    assert(key == laid_out(head, schema, d, h, id, tail));
    assert(key[0] == head[0]);
    lemma_clean_no_period_segment(key);
    assert(!any_char(key, |c: char| is_ctrl(c) || c == '\\')) by {
        if any_char(key, |c: char| is_ctrl(c) || c == '\\') {
            let k = choose|k: int| 0 <= k < key.len() && (|c: char| is_ctrl(c) || c == '\\')(#[trigger] key[k]);
            assert(!is_ctrl(key[k]) && key[k] != '\\');
        }
    }
    let fixed = p6;
    lemma_encode_utf8_concat(p6, id);
    lemma_encode_utf8_concat(p7, tail);
    lemma_encode_utf8_len_bound(p6);
    lemma_encode_utf8_len_bound(tail);
    assert(p6.len() == head.len() + schema.len() + 4 + d.len() + 6 + h.len() + 24);
}

/// The keys of a run's outputs are valid output keys, for any report id
/// that is a valid key piece of at most 300 bytes.
pub proof fn lemma_run_keys_are_valid(created_at_ms: i64, report_id: Seq<char>, label: Seq<char>)
    requires
        component_verdict(report_id, label) is Ok,
        encode_utf8(report_id).len() <= 300,
    ensures
        relative_key_verdict(harness_job_key_spec(created_at_ms, report_id), false) is Ok,
        relative_key_verdict(report_key_spec(created_at_ms, report_id), false) is Ok,
{
    reveal_strlit("hypothesis-harness-job/schema=");
    reveal_strlit("hypothesis_harness_job_v1");
    reveal_strlit("/part-000001.jsonl");
    reveal_strlit("recomposition-orchestrator-report/schema=");
    reveal_strlit("recomposition_orchestrator_report_v1");
    reveal_strlit("/report.json");
    lemma_partition_pieces(created_at_ms);
    assert forall|k: int| 0 <= k < report_id.len() implies #[trigger] report_id[k] != '/' && !is_ctrl(
        report_id[k],
    ) && report_id[k] != '\\' by {
        if report_id[k] == '/' || is_ctrl(report_id[k]) || report_id[k] == '\\' {
            assert((|c: char| is_ctrl(c) || c == '/' || c == '\\')(report_id[k]));
        }
    }
    let d = partition_date(created_at_ms);
    let h = zero_pad(partition_hour(created_at_ms) as int, 2);
    let jh = "hypothesis-harness-job/schema="@;
    let js = JOB_SCHEMA_VERSION@;
    let jt = "/part-000001.jsonl"@;
    assert(clean(jh) && clean(js) && clean(jt));
    lemma_laid_out_valid(jh, js, d, h, report_id, jt);
    assert(harness_job_key_spec(created_at_ms, report_id) == laid_out(jh, js, d, h, report_id, jt));
    let rh = "recomposition-orchestrator-report/schema="@;
    let rs = REPORT_SCHEMA_VERSION@;
    let rt = "/report.json"@;
    assert(clean(rh) && clean(rs) && clean(rt));
    lemma_laid_out_valid(rh, rs, d, h, report_id, rt);
    assert(report_key_spec(created_at_ms, report_id) == laid_out(rh, rs, d, h, report_id, rt));
}


/// Under an output prefix that the command line accepts, every valid output
/// key gives a valid S3 key (the prefix less its trailing `/`, then `/`,
/// then the key), as long as the whole fits in 1024 bytes.
pub proof fn lemma_accepted_prefix_keeps_keys_valid(p: Seq<char>, flag: Seq<char>, key: Seq<char>)
    requires
        prefix_verdict(p, flag) is Ok,
        relative_key_verdict(key, false) is Ok,
        encode_utf8(strip_slash(p)).len() + 1 + encode_utf8(key).len() <= 1024,
    ensures
        safe_prefixed_verdict(p, key) == Ok::<Seq<char>, ErrorView>(strip_slash(p) + seq!['/'] + key),
{
    reveal_strlit("/");
    lemma_accepted_prefix_is_key_prefix(p, flag);
    let n = strip_slash(p);
    assert(n.len() > 0 && n[0] == p[0] && n[0] != '/');
    if n[n.len() - 1] == '/' {
        lemma_trailing_sep_empty_segment(n, false);
    }
    assert(seq_trim_start_by(n, true) == n);
    assert(seq_trim_end_by(n, true) == n);
    assert(seq_trim_slashes(n) == n);
    let k2 = n + seq!['/'] + key;
    assert("/"@ == seq!['/']);
    assert(prefixed_key_spec(n, key) == k2);
    lemma_period_segment_concat_sep(n, key);
    lemma_encode_utf8_concat(n, seq!['/']);
    lemma_encode_utf8_concat(n + seq!['/'], key);
    assert(encode_utf8(seq!['/']).len() == 1) by {
        assert(seq!['/'].drop_first() =~= Seq::<char>::empty());
        assert(encode_utf8(Seq::<char>::empty()) =~= Seq::<u8>::empty());
    }
    assert(!any_char(k2, |c: char| is_ctrl(c) || c == '\\')) by {
        if any_char(k2, |c: char| is_ctrl(c) || c == '\\') {
            let i = choose|i: int| 0 <= i < k2.len() && (|c: char| is_ctrl(c) || c == '\\')(#[trigger] k2[i]);
            if i < n.len() {
                assert(k2[i] == n[i]);
                assert(any_char(n, |c: char| is_ctrl(c) || c == '\\'));
            } else if i == n.len() {
                assert(k2[i] == '/');
            } else {
                assert(k2[i] == key[i - n.len() - 1]);
                assert(any_char(key, |c: char| is_ctrl(c) || c == '\\'));
            }
        }
    }
    assert(k2[0] == n[0]);
}

/// Under an output prefix that the command line accepts, and for a report
/// id that is a valid key piece of at most 300 bytes, a run's objects are
/// stored at the prefix less its trailing `/`, then `/`, then the job and
/// report keys, as long as each whole key fits in 1024 bytes.
pub proof fn lemma_run_s3_keys(p: Seq<char>, flag: Seq<char>, created_at_ms: i64, report_id: Seq<char>, label: Seq<char>)
    requires
        prefix_verdict(p, flag) is Ok,
        component_verdict(report_id, label) is Ok,
        encode_utf8(report_id).len() <= 300,
        encode_utf8(strip_slash(p)).len() + 1 + encode_utf8(harness_job_key_spec(created_at_ms, report_id)).len()
            <= 1024,
        encode_utf8(strip_slash(p)).len() + 1 + encode_utf8(report_key_spec(created_at_ms, report_id)).len()
            <= 1024,
    ensures
        s3_output_keys_verdict(p, created_at_ms, report_id) == Ok::<(Seq<char>, Seq<char>), ErrorView>(
            (
                strip_slash(p) + seq!['/'] + harness_job_key_spec(created_at_ms, report_id),
                strip_slash(p) + seq!['/'] + report_key_spec(created_at_ms, report_id),
            ),
        ),
{
    lemma_run_keys_are_valid(created_at_ms, report_id, label);
    lemma_accepted_prefix_keeps_keys_valid(p, flag, harness_job_key_spec(created_at_ms, report_id));
    lemma_accepted_prefix_keeps_keys_valid(p, flag, report_key_spec(created_at_ms, report_id));
}

} // verus!

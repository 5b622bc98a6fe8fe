//! How the bytes of a state file or object are framed into JSON texts: one
//! array, one object, or one value per line. Turning each text into values
//! is left to the caller.
use crate::error::{json_error, validation_error, AppError, ErrorView};
use crate::json::{job_json, jobs_jsonl, lemma_job_json_one_line, no_newline};
use crate::text::{
    append_str, chars_of, dec_chars, is_ws, push_decimal, seq_trim, seq_trim_end_by,
    seq_trim_start_by, string_of, trim_bounds,
};
use crate::types::HarnessJobView;
use vstd::prelude::*;
use vstd::utf8::{decode_utf8, encode_utf8, valid_utf8};

verus! {

/// The text that `std::str::Utf8Error` displays for invalid bytes.
pub uninterp spec fn utf8_error_text(bytes: Seq<u8>) -> Seq<char>;

/// Calls `std::str::from_utf8`. The contract claims that it succeeds
/// exactly on valid UTF-8 and then yields the decoded characters, and that
/// its error displays as `utf8_error_text(bytes)`.
#[verifier::external_body]
fn utf8_text(bytes: &[u8]) -> (r: Result<String, String>)
    ensures
        match r {
            Ok(s) => valid_utf8(bytes@) && s@ == decode_utf8(bytes@),
            Err(e) => !valid_utf8(bytes@) && e@ == utf8_error_text(bytes@),
        },
{
    match std::str::from_utf8(bytes) {
        Ok(s) => Ok(s.to_owned()),
        Err(e) => Err(e.to_string()),
    }
}

/// The lines of a text: the pieces between `\n` characters.
pub open spec fn split_lines(s: Seq<char>) -> Seq<Seq<char>>
    decreases s.len(),
{
    if s.len() == 0 {
        seq![Seq::<char>::empty()]
    } else {
        let rest = split_lines(s.drop_last());
        let c = s[s.len() - 1];
        if c == '\n' {
            rest.push(Seq::<char>::empty())
        } else {
            rest.update(rest.len() - 1, rest[rest.len() - 1].push(c))
        }
    }
}

pub proof fn lemma_split_lines_nonempty(s: Seq<char>)
    ensures
        split_lines(s).len() >= 1,
    decreases s.len(),
{
    if s.len() > 0 {
        lemma_split_lines_nonempty(s.drop_last());
    }
}

/// The non-blank lines, trimmed, each with its line number (counted from 1
/// over all lines).
pub open spec fn kept_lines(lines: Seq<Seq<char>>) -> Seq<(int, Seq<char>)>
    decreases lines.len(),
{
    if lines.len() == 0 {
        Seq::empty()
    } else {
        let rest = kept_lines(lines.drop_last());
        let t = seq_trim(lines[lines.len() - 1]);
        if t.len() > 0 {
            rest.push((lines.len() as int, t))
        } else {
            rest
        }
    }
}

/// One non-blank line of a payload.
#[derive(Debug)]
pub struct PayloadLine {
    pub number: usize,
    pub text: String,
}

/// The framing of a payload.
#[derive(Debug)]
pub enum PayloadFrame {
    /// The whole trimmed text, which starts with `[`: one JSON array.
    Array(String),
    /// The whole trimmed text, which starts with `{`: one JSON object; where
    /// it is not one, its lines are read as in `Lines`.
    Object(String, Vec<PayloadLine>),
    /// One JSON value per non-blank line.
    Lines(Vec<PayloadLine>),
}

pub enum FrameView {
    Array(Seq<char>),
    Object(Seq<char>, Seq<(int, Seq<char>)>),
    Lines(Seq<(int, Seq<char>)>),
}

pub open spec fn lines_view(v: Seq<PayloadLine>) -> Seq<(int, Seq<char>)> {
    v.map_values(|l: PayloadLine| (l.number as int, l.text@))
}

impl View for PayloadFrame {
    type V = FrameView;

    open spec fn view(&self) -> FrameView {
        match self {
            PayloadFrame::Array(t) => FrameView::Array(t@),
            PayloadFrame::Object(t, l) => FrameView::Object(t@, lines_view(l@)),
            PayloadFrame::Lines(l) => FrameView::Lines(lines_view(l@)),
        }
    }
}

/// What `frame_json_payload` answers for the bytes of a payload.
pub open spec fn frame_verdict(label: Seq<char>, bytes: Seq<u8>) -> Result<FrameView, ErrorView> {
    if !valid_utf8(bytes) {
        Err(json_error(label + ": "@ + utf8_error_text(bytes)))
    } else {
        let t = seq_trim(decode_utf8(bytes));
        if t.len() == 0 {
            Err(validation_error(label + " must not be empty"@))
        } else if t[0] == '[' {
            Ok(FrameView::Array(t))
        } else if t[0] == '{' {
            Ok(FrameView::Object(t, kept_lines(split_lines(t))))
        } else {
            Ok(FrameView::Lines(kept_lines(split_lines(t))))
        }
    }
}

pub open spec fn frame_is(r: Result<PayloadFrame, AppError>, v: Result<FrameView, ErrorView>) -> bool {
    match (r, v) {
        (Ok(f), Ok(w)) => f@ == w,
        (Err(e), Err(w)) => e@ == w,
        _ => false,
    }
}

fn lines_of(v: &Vec<char>) -> (r: Vec<PayloadLine>)
    ensures
        lines_view(r@) == kept_lines(split_lines(v@)),
{
    let n = v.len();
    let mut out: Vec<PayloadLine> = Vec::new();
    let mut start: usize = 0;
    let mut i: usize = 0;
    let mut index: usize = 0;
    while i < n
        invariant
            n == v@.len(),
            start <= i <= n,
            split_lines(v@.take(i as int)).len() >= 1,
            index + 1 == split_lines(v@.take(i as int)).len(),
            index <= start,
            ({
                let ls = split_lines(v@.take(i as int));
                &&& ls[ls.len() - 1] == v@.subrange(start as int, i as int)
                &&& lines_view(out@) == kept_lines(ls.drop_last())
            }),
        decreases n - i,
    {
        let ghost old_ls = split_lines(v@.take(i as int));
        assert(v@.take(i + 1).drop_last() =~= v@.take(i as int));
        assert(v@.take(i + 1)[i as int] == v@[i as int]);
        if v[i] == '\n' {
            let piece = string_of(v, start, i);
            let pc = chars_of(piece.as_str());
            let (a, b) = trim_bounds(&pc, false);
            if a < b {
                out.push(PayloadLine { number: index + 1, text: string_of(&pc, a, b) });
            }
            proof {
                let ls = split_lines(v@.take(i + 1));
                assert(ls == old_ls.push(Seq::<char>::empty()));
                assert(ls.drop_last() =~= old_ls);
                assert(lines_view(out@) =~= kept_lines(old_ls));
                assert(v@.subrange(i + 1, i + 1) =~= Seq::<char>::empty());
            }
            start = i + 1;
            index = index + 1;
        } else {
            proof {
                let ls = split_lines(v@.take(i + 1));
                assert(ls.len() == old_ls.len());
                assert(ls.drop_last() =~= old_ls.drop_last());
                assert(v@.subrange(start as int, i + 1) =~= v@.subrange(start as int, i as int).push(
                    v@[i as int],
                ));
            }
        }
        i = i + 1;
    }
    assert(v@.take(n as int) =~= v@);
    let piece = string_of(v, start, n);
    let pc = chars_of(piece.as_str());
    let (a, b) = trim_bounds(&pc, false);
    if a < b {
        out.push(PayloadLine { number: index + 1, text: string_of(&pc, a, b) });
    }
    proof {
        let ls = split_lines(v@);
        assert(ls =~= ls.drop_last().push(ls[ls.len() - 1]));
        assert(lines_view(out@) =~= kept_lines(ls));
    }
    out
}

/// Frames the bytes of a payload named `label` into the JSON texts to
/// parse: the text must be UTF-8 and not blank.
pub fn frame_json_payload(label: &str, bytes: &[u8]) -> (r: Result<PayloadFrame, AppError>)
    ensures
        frame_is(r, frame_verdict(label@, bytes@)),
{
    let text = match utf8_text(bytes) {
        Ok(t) => t,
        Err(e) => {
            let mut m = label.to_owned();
            append_str(&mut m, ": ");
            append_str(&mut m, e.as_str());
            return Err(AppError::json(m));
        },
    };
    let all = chars_of(text.as_str());
    let (a, b) = trim_bounds(&all, false);
    if a == b {
        let mut m = label.to_owned();
        append_str(&mut m, " must not be empty");
        return Err(AppError::validation(m));
    }
    let trimmed = string_of(&all, a, b);
    let v = chars_of(trimmed.as_str());
    if v[0] == '[' {
        return Ok(PayloadFrame::Array(trimmed));
    }
    let lines = lines_of(&v);
    if v[0] == '{' {
        Ok(PayloadFrame::Object(trimmed, lines))
    } else {
        Ok(PayloadFrame::Lines(lines))
    }
}

/// The error for a line of a payload that is not valid JSON; `detail` is
/// what the JSON parser said.
pub fn line_error(label: &str, number: usize, detail: &str) -> (e: AppError)
    ensures
        e@ == json_error(
            label@ + " line "@ + dec_chars(number as nat) + " is not valid JSON: "@ + detail@,
        ),
{
    let mut m = label.to_owned();
    append_str(&mut m, " line ");
    push_decimal(&mut m, number as u64);
    append_str(&mut m, " is not valid JSON: ");
    append_str(&mut m, detail);
    AppError::json(m)
}

proof fn lemma_split_one_line(b: Seq<char>)
    requires
        no_newline(b),
    ensures
        split_lines(b) == seq![b],
    decreases b.len(),
{
    if b.len() == 0 {
        assert(b =~= Seq::<char>::empty());
    } else {
        let d = b.drop_last();
        assert(no_newline(d)) by {
            assert forall|k: int| 0 <= k < d.len() implies #[trigger] d[k] != '\n' by {
                assert(d[k] == b[k]);
            }
        }
        lemma_split_one_line(d);
        assert(b[b.len() - 1] != '\n');
        assert(d.push(b[b.len() - 1]) =~= b);
        assert(split_lines(b) =~= seq![b]);
    }
}

proof fn lemma_split_after_newline(a: Seq<char>, b: Seq<char>)
    requires
        no_newline(b),
    ensures
        split_lines(a + seq!['\n'] + b) == split_lines(a).push(b),
    decreases b.len(),
{
    let x = a + seq!['\n'] + b;
    if b.len() == 0 {
        assert(b =~= Seq::<char>::empty());
        assert(x[x.len() - 1] == '\n');
        assert(x.drop_last() =~= a);
    } else {
        let d = b.drop_last();
        assert(no_newline(d)) by {
            assert forall|k: int| 0 <= k < d.len() implies #[trigger] d[k] != '\n' by {
                assert(d[k] == b[k]);
            }
        }
        lemma_split_after_newline(a, d);
        assert(x.drop_last() =~= a + seq!['\n'] + d);
        assert(x[x.len() - 1] == b[b.len() - 1]);
        assert(b[b.len() - 1] != '\n');
        assert(d.push(b[b.len() - 1]) =~= b);
        assert(split_lines(x) =~= split_lines(a).push(b));
    }
}

/// The compact JSON of each job, in order.
pub open spec fn job_lines(jobs: Seq<HarnessJobView>) -> Seq<Seq<char>> {
    jobs.map_values(|j: HarnessJobView| job_json(j))
}

/// Each job's compact JSON with its line number, counted from 1.
pub open spec fn numbered_jobs(jobs: Seq<HarnessJobView>) -> Seq<(int, Seq<char>)> {
    Seq::new(jobs.len(), |i: int| (i + 1, job_json(jobs[i])))
}

proof fn lemma_jsonl_shape(jobs: Seq<HarnessJobView>)
    requires
        jobs.len() > 0,
    ensures
        jobs_jsonl(jobs).len() >= 3,
        jobs_jsonl(jobs)[0] == '{',
        jobs_jsonl(jobs)[jobs_jsonl(jobs).len() - 1] == '\n',
        jobs_jsonl(jobs)[jobs_jsonl(jobs).len() - 2] == '}',
        split_lines(jobs_jsonl(jobs).drop_last()) == job_lines(jobs),
    decreases jobs.len(),
{
    let d = jobs.drop_last();
    let j = jobs[jobs.len() - 1];
    let x = jobs_jsonl(jobs);
    let jj = job_json(j);
    lemma_job_json_one_line(j);
    assert(x == jobs_jsonl(d) + jj + seq!['\n']);
    assert(x.drop_last() =~= jobs_jsonl(d) + jj);
    if d.len() == 0 {
        assert(jobs_jsonl(d) =~= Seq::<char>::empty());
        assert(x.drop_last() =~= jj);
        lemma_split_one_line(jj);
        assert(job_lines(jobs) =~= seq![jj]);
        assert(x[0] == jj[0]);
    } else {
        lemma_jsonl_shape(d);
        let y = jobs_jsonl(d);
        assert(y =~= y.drop_last() + seq!['\n']);
        assert(x.drop_last() =~= y.drop_last() + seq!['\n'] + jj);
        lemma_split_after_newline(y.drop_last(), jj);
        assert(job_lines(jobs) =~= job_lines(d).push(jj));
        assert(x[0] == y[0]);
    }
    assert(x[x.len() - 2] == jj[jj.len() - 1]);
}

proof fn lemma_kept_job_lines(jobs: Seq<HarnessJobView>)
    ensures
        kept_lines(job_lines(jobs)) == numbered_jobs(jobs),
    decreases jobs.len(),
{
    if jobs.len() > 0 {
        let d = jobs.drop_last();
        let j = jobs[jobs.len() - 1];
        let jj = job_json(j);
        lemma_kept_job_lines(d);
        lemma_job_json_one_line(j);
        assert(job_lines(jobs).drop_last() =~= job_lines(d));
        assert(!is_ws(jj[0]));
        assert(!is_ws(jj[jj.len() - 1]));
        assert(seq_trim_start_by(jj, false) == jj);
        assert(seq_trim_end_by(jj, false) == jj);
        assert(numbered_jobs(jobs) =~= numbered_jobs(d).push((jobs.len() as int, jj)));
    }
}

/// What the JSON Lines text of jobs frames back into: one object (the text
/// opens with `{`) whose lines are the jobs' compact JSON texts, in order
/// and numbered from 1, so that each line parses back into its job.
pub proof fn lemma_jsonl_frames_back(label: Seq<char>, jobs: Seq<HarnessJobView>)
    requires
        jobs.len() > 0,
    ensures
        frame_verdict(label, encode_utf8(jobs_jsonl(jobs))) == Ok::<FrameView, ErrorView>(
            FrameView::Object(jobs_jsonl(jobs).drop_last(), numbered_jobs(jobs)),
        ),
{
    let x = jobs_jsonl(jobs);
    vstd::utf8::encode_utf8_valid_utf8(x);
    vstd::utf8::encode_utf8_decode_utf8(x);
    lemma_jsonl_shape(jobs);
    lemma_kept_job_lines(jobs);
    let t = x.drop_last();
    assert(!is_ws(x[0]));
    assert(seq_trim_start_by(x, false) == x);
    assert(is_ws(x[x.len() - 1]));
    assert(t[t.len() - 1] == '}');
    assert(!is_ws(t[t.len() - 1]));
    assert(seq_trim_end_by(t, false) == t);
    assert(seq_trim_end_by(x, false) == t);
    assert(seq_trim(decode_utf8(encode_utf8(x))) == t);
    assert(t[0] == '{');
}

} // verus!

//! Local paths that name one place unambiguously.
use crate::text::{
    any_char, append_str, chars_of, has_period_segment, is_control_char, is_ctrl,
    lemma_period_segment_is_dot_piece, period_piece_at, scan_segments,
};
use vstd::prelude::*;

verus! {

/// `Path::is_absolute` on Unix: the path starts at the root.
pub open spec fn is_absolute_path(p: Seq<char>) -> bool {
    p.len() > 0 && p[0] == '/'
}

/// What `validate_unambiguous_absolute_path` answers for `path` and `label`:
/// the first rule that the path breaks, in this order, or success.
pub open spec fn path_verdict(path: Seq<char>, label: Seq<char>) -> Result<(), Seq<char>> {
    if !is_absolute_path(path) {
        Err(label + " must be an absolute path"@)
    } else if has_period_segment(path, true) {
        Err(label + " must not contain relative path components"@)
    } else if any_char(path, |c: char| is_ctrl(c)) {
        Err(label + " must not contain control characters"@)
    } else {
        Ok(())
    }
}

/// `r` is the verdict `v`, the error message taken by its characters.
pub open spec fn unit_result_is(r: Result<(), String>, v: Result<(), Seq<char>>) -> bool {
    match (r, v) {
        (Ok(_), Ok(_)) => true,
        (Err(m), Err(w)) => m@ == w,
        _ => false,
    }
}

pub fn any_control(v: &Vec<char>) -> (r: bool)
    ensures
        r == any_char(v@, |c: char| is_ctrl(c)),
{
    let mut i: usize = 0;
    while i < v.len()
        invariant
            i <= v@.len(),
            forall|k: int| 0 <= k < i ==> !is_ctrl(#[trigger] v@[k]),
        decreases v@.len() - i,
    {
        if is_control_char(v[i]) {
            assert((|c: char| is_ctrl(c))(v@[i as int]));
            return true;
        }
        i = i + 1;
    }
    false
}

fn labelled(label: &str, text: &str) -> (s: String)
    ensures
        s@ == label@ + text@,
{
    let mut s = label.to_owned();
    append_str(&mut s, text);
    s
}

/// Accepts an absolute path with no `.` or `..` piece (between `/` or `\`)
/// and no control character; otherwise says which rule it breaks, naming
/// it by `label`.
pub fn validate_unambiguous_absolute_path(path: &str, label: &str) -> (r: Result<(), String>)
    ensures
        unit_result_is(r, path_verdict(path@, label@)),
{
    let v = chars_of(path);
    if !(v.len() > 0 && v[0] == '/') {
        return Err(labelled(label, " must be an absolute path"));
    }
    let (_, period) = scan_segments(&v, true);
    if period {
        return Err(labelled(label, " must not contain relative path components"));
    }
    if any_control(&v) {
        return Err(labelled(label, " must not contain control characters"));
    }
    Ok(())
}

/// A path is accepted exactly when it starts at the root, has no `.` or
/// `..` piece between its separators (`/` or `\`), and holds no control
/// character; whatever else it holds (letters, digits, `-`, `_`, spaces,
/// other punctuation) does not matter. A refusal names the label first.
pub proof fn lemma_path_accepted_exactly_when_unambiguous(p: Seq<char>, label: Seq<char>)
    ensures
        path_verdict(p, label) is Ok <==> (p.len() > 0 && p[0] == '/' && !(exists|a: int, b: int|
            #[trigger] period_piece_at(p, a, b, true)) && forall|k: int|
            0 <= k < p.len() ==> !is_ctrl(#[trigger] p[k])),
        path_verdict(p, label) matches Err(m) ==> m.take(label.len() as int) == label,
{
    lemma_period_segment_is_dot_piece(p, true);
    if any_char(p, |c: char| is_ctrl(c)) {
        let k = choose|k: int| 0 <= k < p.len() && (|c: char| is_ctrl(c))(#[trigger] p[k]);
        assert(is_ctrl(p[k]));
    }
    if !any_char(p, |c: char| is_ctrl(c)) {
        assert forall|k: int| 0 <= k < p.len() implies !is_ctrl(#[trigger] p[k]) by {
            if is_ctrl(p[k]) {
                assert((|c: char| is_ctrl(c))(p[k]));
            }
        }
    }
    match path_verdict(p, label) {
        Err(m) => {
            assert(m.take(label.len() as int) =~= label);
        },
        Ok(_) => {},
    }
}

} // verus!

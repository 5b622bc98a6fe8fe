//! Rules for an S3 bucket and object prefix given on the command line.
use crate::error::{config_error, result_is, AppError, ErrorView};
use crate::text::{
    all_whitespace, all_ws, any_char, append_str, chars_of, contains_char, has_empty_segment,
    has_outer_whitespace, has_outer_ws, has_period_segment, is_control_char, is_ctrl,
    is_whitespace_char, is_ws, scan_segments, starts_with_s3_scheme, starts_with_s3_scheme_chars, utf8_len,
};
use crate::types::{S3InputArgs, S3OutputArgs};
use vstd::prelude::*;
use vstd::utf8::encode_utf8;

verus! {

/// The longest S3 object key, in bytes.
pub const MAX_S3_OBJECT_KEY_BYTES: usize = 1024;

/// What `validate_bucket` answers: the first rule that the bucket breaks.
pub open spec fn bucket_verdict(b: Seq<char>, flag: Seq<char>) -> Result<(), ErrorView> {
    if has_outer_ws(b) {
        Err(config_error(flag + " must not include leading or trailing whitespace"@))
    } else if b.contains('<') || b.contains('>') {
        Err(config_error(flag + " must be a real bucket name, not a public-doc placeholder"@))
    } else if starts_with_s3_scheme(b) || b.contains('/') {
        Err(config_error(flag + " must be a bucket name, not an S3 URI"@))
    } else if any_char(b, |c: char| is_ctrl(c) || is_ws(c)) {
        Err(config_error(flag + " must not contain whitespace or control characters"@))
    } else {
        Ok(())
    }
}

/// The prefix without one trailing `/` (`strip_suffix('/')`).
pub open spec fn strip_slash(p: Seq<char>) -> Seq<char> {
    if p.len() > 0 && p[p.len() - 1] == '/' {
        p.drop_last()
    } else {
        p
    }
}

/// What `validate_prefix` answers: the first rule that the prefix breaks.
pub open spec fn prefix_verdict(p: Seq<char>, flag: Seq<char>) -> Result<(), ErrorView> {
    if p.len() == 0 {
        Err(config_error(flag + " is required"@))
    } else if has_outer_ws(p) {
        Err(config_error(flag + " must not include leading or trailing whitespace"@))
    } else if encode_utf8(p).len() > MAX_S3_OBJECT_KEY_BYTES {
        Err(config_error(flag + " must be at most 1024 bytes"@))
    } else if p[0] == '/' || starts_with_s3_scheme(p) {
        Err(config_error(flag + " must be an object prefix, not a URI or absolute path"@))
    } else if p.contains('?') || p.contains('#') {
        Err(config_error(flag + " must not include query or fragment markers"@))
    } else if any_char(p, |c: char| is_ctrl(c) || is_ws(c) || c == '\\') {
        Err(
            config_error(
                flag + " must not contain control characters, whitespace, or backslashes"@,
            ),
        )
    } else if strip_slash(p).len() == 0 || has_empty_segment(strip_slash(p), false) {
        Err(config_error(flag + " must not contain empty path segments"@))
    } else if has_period_segment(strip_slash(p), false) {
        Err(config_error(flag + " must not contain period-only path segments"@))
    } else {
        Ok(())
    }
}

/// What `validate_bucket_prefix_pair` answers: no bucket needs no prefix;
/// a bucket needs a valid bucket name and a valid prefix.
pub open spec fn pair_verdict(
    bucket: Seq<char>,
    prefix: Seq<char>,
    bucket_flag: Seq<char>,
    prefix_flag: Seq<char>,
) -> Result<(), ErrorView> {
    if all_ws(bucket) {
        if !all_ws(prefix) {
            Err(config_error(prefix_flag + " requires "@ + bucket_flag))
        } else {
            Ok(())
        }
    } else {
        match bucket_verdict(bucket, bucket_flag) {
            Err(e) => Err(e),
            Ok(_) => prefix_verdict(prefix, prefix_flag),
        }
    }
}

fn flagged(flag: &str, text: &str) -> (s: String)
    ensures
        s@ == flag@ + text@,
{
    let mut s = flag.to_owned();
    append_str(&mut s, text);
    s
}

fn any_control_or_space(v: &Vec<char>, backslash: bool) -> (r: bool)
    ensures
        !backslash ==> r == any_char(v@, |c: char| is_ctrl(c) || is_ws(c)),
        backslash ==> r == any_char(v@, |c: char| is_ctrl(c) || is_ws(c) || c == '\\'),
{
    let mut i: usize = 0;
    while i < v.len()
        invariant
            i <= v@.len(),
            forall|k: int|
                0 <= k < i ==> !(is_ctrl(#[trigger] v@[k]) || is_ws(v@[k]) || (backslash && v@[k]
                    == '\\')),
        decreases v@.len() - i,
    {
        let c = v[i];
        if is_control_char(c) || is_whitespace_char(c) || (backslash && c == '\\') {
            assert((|c: char| is_ctrl(c) || is_ws(c))(v@[i as int]) || backslash);
            assert(backslash ==> (|c: char| is_ctrl(c) || is_ws(c) || c == '\\')(v@[i as int]));
            return true;
        }
        i = i + 1;
    }
    false
}

/// A bucket name, not an S3 URI, a placeholder or a padded string.
pub fn validate_bucket(bucket: &str, bucket_flag: &str) -> (r: Result<(), AppError>)
    ensures
        result_is(r, bucket_verdict(bucket@, bucket_flag@)),
{
    let v = chars_of(bucket);
    if has_outer_whitespace(&v) {
        return Err(
            AppError::config(
                flagged(bucket_flag, " must not include leading or trailing whitespace"),
            ),
        );
    }
    if contains_char(&v, '<') || contains_char(&v, '>') {
        return Err(
            AppError::config(
                flagged(bucket_flag, " must be a real bucket name, not a public-doc placeholder"),
            ),
        );
    }
    if starts_with_s3_scheme_chars(&v) || contains_char(&v, '/') {
        return Err(
            AppError::config(flagged(bucket_flag, " must be a bucket name, not an S3 URI")),
        );
    }
    if any_control_or_space(&v, false) {
        return Err(
            AppError::config(
                flagged(bucket_flag, " must not contain whitespace or control characters"),
            ),
        );
    }
    Ok(())
}

/// An object prefix: relative, bounded, with no empty or period-only piece.
pub fn validate_prefix(prefix: &str, prefix_flag: &str) -> (r: Result<(), AppError>)
    ensures
        result_is(r, prefix_verdict(prefix@, prefix_flag@)),
{
    let v = chars_of(prefix);
    if v.len() == 0 {
        return Err(AppError::config(flagged(prefix_flag, " is required")));
    }
    if has_outer_whitespace(&v) {
        return Err(
            AppError::config(
                flagged(prefix_flag, " must not include leading or trailing whitespace"),
            ),
        );
    }
    if utf8_len(&v) > 1024 {
        return Err(AppError::config(flagged(prefix_flag, " must be at most 1024 bytes")));
    }
    if v[0] == '/' || starts_with_s3_scheme_chars(&v) {
        return Err(
            AppError::config(
                flagged(prefix_flag, " must be an object prefix, not a URI or absolute path"),
            ),
        );
    }
    if contains_char(&v, '?') || contains_char(&v, '#') {
        return Err(
            AppError::config(flagged(prefix_flag, " must not include query or fragment markers")),
        );
    }
    if any_control_or_space(&v, true) {
        return Err(
            AppError::config(
                flagged(
                    prefix_flag,
                    " must not contain control characters, whitespace, or backslashes",
                ),
            ),
        );
    }
    let mut normalized = v;
    if normalized.len() > 0 && normalized[normalized.len() - 1] == '/' {
        normalized.pop();
    }
    assert(normalized@ == crate::args::s3::strip_slash(prefix@));
    let (empty, period) = scan_segments(&normalized, false);
    if normalized.len() == 0 || empty {
        return Err(AppError::config(flagged(prefix_flag, " must not contain empty path segments")));
    }
    if period {
        return Err(
            AppError::config(flagged(prefix_flag, " must not contain period-only path segments")),
        );
    }
    Ok(())
}

/// A bucket and prefix given together, or neither.
pub fn validate_bucket_prefix_pair(
    bucket: &str,
    prefix: &str,
    bucket_flag: &str,
    prefix_flag: &str,
) -> (r: Result<(), AppError>)
    ensures
        result_is(r, pair_verdict(bucket@, prefix@, bucket_flag@, prefix_flag@)),
{
    let b = chars_of(bucket);
    if all_whitespace(&b) {
        let p = chars_of(prefix);
        if !all_whitespace(&p) {
            let mut m = prefix_flag.to_owned();
            append_str(&mut m, " requires ");
            append_str(&mut m, bucket_flag);
            return Err(AppError::config(m));
        }
        return Ok(());
    }
    match validate_bucket(bucket, bucket_flag) {
        Err(e) => Err(e),
        Ok(()) => validate_prefix(prefix, prefix_flag),
    }
}

pub fn validate_s3_input_arg(s3: &S3InputArgs, bucket_flag: &str, prefix_flag: &str) -> (r: Result<
    (),
    AppError,
>)
    ensures
        result_is(r, pair_verdict(s3.bucket@, s3.prefix@, bucket_flag@, prefix_flag@)),
{
    validate_bucket_prefix_pair(s3.bucket.as_str(), s3.prefix.as_str(), bucket_flag, prefix_flag)
}

pub fn validate_s3_output_arg(s3: &S3OutputArgs, bucket_flag: &str, prefix_flag: &str) -> (r: Result<
    (),
    AppError,
>)
    ensures
        result_is(r, pair_verdict(s3.bucket@, s3.prefix@, bucket_flag@, prefix_flag@)),
{
    validate_bucket_prefix_pair(s3.bucket.as_str(), s3.prefix.as_str(), bucket_flag, prefix_flag)
}

} // verus!

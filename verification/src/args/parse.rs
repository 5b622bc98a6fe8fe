//! From the words of the command line to the run's arguments.
use crate::args::help::{help_text, HELP_TEXT};
use crate::args::s3::{
    bucket_verdict, pair_verdict, prefix_verdict, validate_s3_input_arg, validate_s3_output_arg,
};
use crate::args::scalar::{
    absolute_path_arg, absolute_path_verdict, next_string, non_negative_i64, non_negative_verdict,
    positive_usize, positive_verdict, string_verdict,
};
use crate::error::{config_error, AppError, ErrorView};
use crate::path_validation::is_absolute_path;
use crate::text::{
    all_whitespace, all_ws, any_char, append_str, chars_of, eq_str, has_period_segment, is_ctrl,
};
use crate::types::{strs, Args, ArgsView, S3InputArgs, S3InputView, S3OutputArgs, S3OutputView};
use vstd::prelude::*;

verus! {

/// The region used where none is given.
pub const DEFAULT_AWS_REGION: &'static str = "ap-northeast-2";

/// What has been read so far: the arguments and the two S3 settings.
pub struct ParseState {
    pub args: ArgsView,
    pub input: S3InputView,
    pub output: S3OutputView,
}

pub open spec fn default_args_view() -> ArgsView {
    ArgsView {
        hypothesis_state_file: None,
        input_s3: None,
        changed_trigger: Seq::empty(),
        output_dir: None,
        output_s3: None,
        now_ms: None,
    }
}

pub open spec fn default_input_view() -> S3InputView {
    S3InputView {
        bucket: Seq::empty(),
        region: DEFAULT_AWS_REGION@,
        prefix: Seq::empty(),
        profile: None,
        max_keys: 1000,
    }
}

pub open spec fn default_output_view() -> S3OutputView {
    S3OutputView {
        bucket: Seq::empty(),
        region: DEFAULT_AWS_REGION@,
        prefix: Seq::empty(),
        profile: None,
    }
}

pub open spec fn initial_state() -> ParseState {
    ParseState { args: default_args_view(), input: default_input_view(), output: default_output_view() }
}

/// The word after position `i`, if there is one.
pub open spec fn next_value(vals: Seq<Seq<char>>, i: int) -> Option<Seq<char>> {
    if 0 <= i + 1 < vals.len() {
        Some(vals[i + 1])
    } else {
        None
    }
}

/// Reads the words from position `i` on, each flag with its value, and
/// stops at the first error: a missing or invalid value, `-h`/`--help`, or
/// an unknown word.
pub open spec fn parse_from(vals: Seq<Seq<char>>, i: int, st: ParseState) -> Result<
    ParseState,
    ErrorView,
>
    decreases vals.len() - i,
{
    if i < 0 || i >= vals.len() {
        Ok(st)
    } else {
        let a = vals[i];
        let v = next_value(vals, i);
        if a == "--hypothesis-state-file"@ {
            match absolute_path_verdict(v, "--hypothesis-state-file requires an absolute path"@) {
                Err(e) => Err(e),
                Ok(p) => parse_from(
                    vals,
                    i + 2,
                    ParseState { args: ArgsView { hypothesis_state_file: Some(p), ..st.args }, ..st },
                ),
            }
        } else if a == "--changed-trigger"@ {
            match string_verdict(v, "--changed-trigger requires a value"@) {
                Err(e) => Err(e),
                Ok(t) => parse_from(
                    vals,
                    i + 2,
                    ParseState {
                        args: ArgsView {
                            changed_trigger: st.args.changed_trigger.push(t),
                            ..st.args
                        },
                        ..st
                    },
                ),
            }
        } else if a == "--output-dir"@ {
            match absolute_path_verdict(v, "--output-dir requires an absolute path"@) {
                Err(e) => Err(e),
                Ok(p) => parse_from(
                    vals,
                    i + 2,
                    ParseState { args: ArgsView { output_dir: Some(p), ..st.args }, ..st },
                ),
            }
        } else if a == "--input-s3-bucket"@ {
            match string_verdict(v, "--input-s3-bucket requires a bucket"@) {
                Err(e) => Err(e),
                Ok(b) => parse_from(
                    vals,
                    i + 2,
                    ParseState { input: S3InputView { bucket: b, ..st.input }, ..st },
                ),
            }
        } else if a == "--input-s3-region"@ {
            match string_verdict(v, "--input-s3-region requires a region"@) {
                Err(e) => Err(e),
                Ok(r) => parse_from(
                    vals,
                    i + 2,
                    ParseState { input: S3InputView { region: r, ..st.input }, ..st },
                ),
            }
        } else if a == "--input-s3-prefix"@ {
            match string_verdict(v, "--input-s3-prefix requires a prefix"@) {
                Err(e) => Err(e),
                Ok(p) => parse_from(
                    vals,
                    i + 2,
                    ParseState { input: S3InputView { prefix: p, ..st.input }, ..st },
                ),
            }
        } else if a == "--input-s3-max-keys"@ {
            match positive_verdict(v, "--input-s3-max-keys"@) {
                Err(e) => Err(e),
                Ok(k) => parse_from(
                    vals,
                    i + 2,
                    ParseState { input: S3InputView { max_keys: k, ..st.input }, ..st },
                ),
            }
        } else if a == "--output-s3-bucket"@ {
            match string_verdict(v, "--output-s3-bucket requires a bucket"@) {
                Err(e) => Err(e),
                Ok(b) => parse_from(
                    vals,
                    i + 2,
                    ParseState { output: S3OutputView { bucket: b, ..st.output }, ..st },
                ),
            }
        } else if a == "--output-s3-region"@ {
            match string_verdict(v, "--output-s3-region requires a region"@) {
                Err(e) => Err(e),
                Ok(r) => parse_from(
                    vals,
                    i + 2,
                    ParseState { output: S3OutputView { region: r, ..st.output }, ..st },
                ),
            }
        } else if a == "--output-s3-prefix"@ {
            match string_verdict(v, "--output-s3-prefix requires a prefix"@) {
                Err(e) => Err(e),
                Ok(p) => parse_from(
                    vals,
                    i + 2,
                    ParseState { output: S3OutputView { prefix: p, ..st.output }, ..st },
                ),
            }
        } else if a == "--aws-profile"@ {
            match string_verdict(v, "--aws-profile requires a profile"@) {
                Err(e) => Err(e),
                Ok(p) => parse_from(
                    vals,
                    i + 2,
                    ParseState {
                        input: S3InputView { profile: Some(p), ..st.input },
                        output: S3OutputView { profile: Some(p), ..st.output },
                        ..st
                    },
                ),
            }
        } else if a == "--now-ms"@ {
            match non_negative_verdict(v, "--now-ms"@) {
                Err(e) => Err(e),
                Ok(t) => parse_from(
                    vals,
                    i + 2,
                    ParseState { args: ArgsView { now_ms: Some(t), ..st.args }, ..st },
                ),
            }
        } else if a == "-h"@ || a == "--help"@ {
            Err(config_error(HELP_TEXT@))
        } else {
            Err(config_error("unknown argument: "@ + a + "\n\n"@ + HELP_TEXT@))
        }
    }
}

/// What `finalize_args` answers: both S3 pairs must be valid, an input and
/// an output must be given, and an S3 setting counts once its bucket is
/// not blank.
pub open spec fn finalize_verdict(st: ParseState) -> Result<ArgsView, ErrorView> {
    match pair_verdict(st.input.bucket, st.input.prefix, "--input-s3-bucket"@, "--input-s3-prefix"@) {
        Err(e) => Err(e),
        Ok(_) => match pair_verdict(
            st.output.bucket,
            st.output.prefix,
            "--output-s3-bucket"@,
            "--output-s3-prefix"@,
        ) {
            Err(e) => Err(e),
            Ok(_) => {
                let args = if !all_ws(st.input.bucket) {
                    ArgsView { input_s3: Some(st.input), ..st.args }
                } else {
                    st.args
                };
                if args.hypothesis_state_file is None && args.input_s3 is None {
                    Err(
                        config_error(
                            "--hypothesis-state-file or --input-s3-bucket/--input-s3-prefix is required"@,
                        ),
                    )
                } else if args.output_dir is None && all_ws(st.output.bucket) {
                    Err(
                        config_error(
                            "at least one output target is required: --output-dir or --output-s3-bucket"@,
                        ),
                    )
                } else if !all_ws(st.output.bucket) {
                    Ok(ArgsView { output_s3: Some(st.output), ..args })
                } else {
                    Ok(args)
                }
            },
        },
    }
}

/// What `parse_args` answers for the words of the command line.
pub open spec fn parse_verdict(vals: Seq<Seq<char>>) -> Result<ArgsView, ErrorView> {
    match parse_from(vals, 0, initial_state()) {
        Err(e) => Err(e),
        Ok(st) => finalize_verdict(st),
    }
}

/// `r` is the verdict `v`: arguments with the same view, or the same error.
pub open spec fn args_result_is(r: Result<Args, AppError>, v: Result<ArgsView, ErrorView>) -> bool {
    match (r, v) {
        (Ok(a), Ok(b)) => a@ == b,
        (Err(e), Err(w)) => e@ == w,
        _ => false,
    }
}

pub fn default_args() -> (a: Args)
    ensures
        a@ == default_args_view(),
{
    let a = Args {
        hypothesis_state_file: None,
        input_s3: None,
        changed_trigger: Vec::new(),
        output_dir: None,
        output_s3: None,
        now_ms: None,
    };
    assert(a@.changed_trigger =~= Seq::<Seq<char>>::empty());
    a
}

pub fn default_input_s3() -> (s: S3InputArgs)
    ensures
        s@ == default_input_view(),
{
    S3InputArgs {
        bucket: String::new(),
        region: DEFAULT_AWS_REGION.to_owned(),
        prefix: String::new(),
        profile: None,
        max_keys: 1000,
    }
}

pub fn default_output_s3() -> (s: S3OutputArgs)
    ensures
        s@ == default_output_view(),
{
    S3OutputArgs {
        bucket: String::new(),
        region: DEFAULT_AWS_REGION.to_owned(),
        prefix: String::new(),
        profile: None,
    }
}

/// Checks the S3 settings and that the run has an input and an output.
pub fn finalize_args(args: Args, input_s3: S3InputArgs, output_s3: S3OutputArgs) -> (r: Result<
    Args,
    AppError,
>)
    ensures
        args_result_is(
            r,
            finalize_verdict(ParseState { args: args@, input: input_s3@, output: output_s3@ }),
        ),
{
    let mut args = args;
    match validate_s3_input_arg(&input_s3, "--input-s3-bucket", "--input-s3-prefix") {
        Err(e) => return Err(e),
        Ok(()) => {},
    }
    match validate_s3_output_arg(&output_s3, "--output-s3-bucket", "--output-s3-prefix") {
        Err(e) => return Err(e),
        Ok(()) => {},
    }
    let ib = chars_of(input_s3.bucket.as_str());
    let ob = chars_of(output_s3.bucket.as_str());
    if !all_whitespace(&ib) {
        args.input_s3 = Some(input_s3);
    }
    if args.hypothesis_state_file.is_none() && args.input_s3.is_none() {
        return Err(
            AppError::config(
                "--hypothesis-state-file or --input-s3-bucket/--input-s3-prefix is required".to_owned(),
            ),
        );
    }
    if args.output_dir.is_none() && all_whitespace(&ob) {
        return Err(
            AppError::config(
                "at least one output target is required: --output-dir or --output-s3-bucket".to_owned(),
            ),
        );
    }
    if !all_whitespace(&ob) {
        args.output_s3 = Some(output_s3);
    }
    Ok(args)
}

/// Reads the command line (the words after the program's name) into the
/// run's arguments; the first error ends the reading.
pub fn parse_args(values: Vec<String>) -> (r: Result<Args, AppError>)
    ensures
        args_result_is(r, parse_verdict(strs(values@))),
{
    let ghost vals = strs(values@);
    let mut args = default_args();
    let mut input_s3 = default_input_s3();
    let mut s3 = default_output_s3();
    let n = values.len();
    let mut i: usize = 0;
    while i < n
        invariant
            n == values@.len(),
            vals == strs(values@),
            i <= n,
            parse_from(vals, 0, initial_state()) == parse_from(
                vals,
                i as int,
                ParseState { args: args@, input: input_s3@, output: s3@ },
            ),
        decreases n - i,
    {
        let ghost st = ParseState { args: args@, input: input_s3@, output: s3@ };
        let arg = values[i].as_str();
        assert(vals[i as int] == values@[i as int]@);
        let next: Option<String> = if i + 1 < n {
            assert(vals[i + 1] == values@[i + 1]@);
            Some(values[i + 1].clone())
        } else {
            None
        };
        assert(crate::args::scalar::opt_view(next) == next_value(vals, i as int));
        if eq_str(arg, "--hypothesis-state-file") {
            match absolute_path_arg(next, "--hypothesis-state-file requires an absolute path") {
                Err(e) => return Err(e),
                Ok(p) => {
                    args.hypothesis_state_file = Some(p);
                },
            }
        } else if eq_str(arg, "--changed-trigger") {
            match next_string(next, "--changed-trigger requires a value") {
                Err(e) => return Err(e),
                Ok(t) => {
                    args.changed_trigger.push(t);
                    assert(args@.changed_trigger =~= st.args.changed_trigger.push(t@));
                },
            }
        } else if eq_str(arg, "--output-dir") {
            match absolute_path_arg(next, "--output-dir requires an absolute path") {
                Err(e) => return Err(e),
                Ok(p) => {
                    args.output_dir = Some(p);
                },
            }
        } else if eq_str(arg, "--input-s3-bucket") {
            match next_string(next, "--input-s3-bucket requires a bucket") {
                Err(e) => return Err(e),
                Ok(b) => {
                    input_s3.bucket = b;
                },
            }
        } else if eq_str(arg, "--input-s3-region") {
            match next_string(next, "--input-s3-region requires a region") {
                Err(e) => return Err(e),
                Ok(b) => {
                    input_s3.region = b;
                },
            }
        } else if eq_str(arg, "--input-s3-prefix") {
            match next_string(next, "--input-s3-prefix requires a prefix") {
                Err(e) => return Err(e),
                Ok(b) => {
                    input_s3.prefix = b;
                },
            }
        } else if eq_str(arg, "--input-s3-max-keys") {
            match positive_usize(next, "--input-s3-max-keys") {
                Err(e) => return Err(e),
                Ok(k) => {
                    input_s3.max_keys = k;
                },
            }
        } else if eq_str(arg, "--output-s3-bucket") {
            match next_string(next, "--output-s3-bucket requires a bucket") {
                Err(e) => return Err(e),
                Ok(b) => {
                    s3.bucket = b;
                },
            }
        } else if eq_str(arg, "--output-s3-region") {
            match next_string(next, "--output-s3-region requires a region") {
                Err(e) => return Err(e),
                Ok(b) => {
                    s3.region = b;
                },
            }
        } else if eq_str(arg, "--output-s3-prefix") {
            match next_string(next, "--output-s3-prefix requires a prefix") {
                Err(e) => return Err(e),
                Ok(b) => {
                    s3.prefix = b;
                },
            }
        } else if eq_str(arg, "--aws-profile") {
            match next_string(next, "--aws-profile requires a profile") {
                Err(e) => return Err(e),
                Ok(p) => {
                    let q = p.clone();
                    input_s3.profile = Some(p);
                    s3.profile = Some(q);
                },
            }
        } else if eq_str(arg, "--now-ms") {
            match non_negative_i64(next, "--now-ms") {
                Err(e) => return Err(e),
                Ok(t) => {
                    args.now_ms = Some(t);
                },
            }
        } else if eq_str(arg, "-h") || eq_str(arg, "--help") {
            return Err(AppError::config(help_text().to_owned()));
        } else {
            let mut m = "unknown argument: ".to_owned();
            append_str(&mut m, arg);
            append_str(&mut m, "\n\n");
            append_str(&mut m, help_text());
            return Err(AppError::config(m));
        }
        i = i + 2;
    }
    finalize_args(args, input_s3, s3)
}


/// An absolute path with no `.` or `..` piece and no control character:
/// what `validate_unambiguous_absolute_path` accepts, whatever the label.
pub open spec fn unambiguous_absolute(p: Seq<char>) -> bool {
    is_absolute_path(p) && !has_period_segment(p, true) && !any_char(p, |c: char| is_ctrl(c))
}

/// What every state of the reading keeps: one profile for both S3 sides,
/// unambiguous absolute local paths, a positive key limit, a non-negative
/// time, non-blank triggers, and no S3 setting chosen yet.
pub open spec fn parse_state_ok(st: ParseState) -> bool {
    &&& st.input.profile == st.output.profile
    &&& st.args.hypothesis_state_file matches Some(p) ==> unambiguous_absolute(p)
    &&& st.args.output_dir matches Some(p) ==> unambiguous_absolute(p)
    &&& st.input.max_keys > 0
    &&& st.args.now_ms matches Some(t) ==> t >= 0
    &&& forall|i: int|
        0 <= i < st.args.changed_trigger.len() ==> !all_ws(#[trigger] st.args.changed_trigger[i])
    &&& st.args.input_s3 is None
    &&& st.args.output_s3 is None
}

proof fn lemma_parse_from_keeps(vals: Seq<Seq<char>>, i: int, st: ParseState)
    requires
        parse_state_ok(st),
        parse_from(vals, i, st) is Ok,
    ensures
        parse_state_ok(parse_from(vals, i, st)->Ok_0),
    decreases vals.len() - i,
{
    if 0 <= i < vals.len() {
        let a = vals[i];
        let v = next_value(vals, i);
        if a == "--hypothesis-state-file"@ {
            let p = absolute_path_verdict(v, "--hypothesis-state-file requires an absolute path"@)->Ok_0;
            let st2 = ParseState { args: ArgsView { hypothesis_state_file: Some(p), ..st.args }, ..st };
            lemma_parse_from_keeps(vals, i + 2, st2);
        } else if a == "--changed-trigger"@ {
            let t = string_verdict(v, "--changed-trigger requires a value"@)->Ok_0;
            let st2 = ParseState {
                args: ArgsView { changed_trigger: st.args.changed_trigger.push(t), ..st.args },
                ..st
            };
            assert forall|k: int| 0 <= k < st2.args.changed_trigger.len() implies !all_ws(
                #[trigger] st2.args.changed_trigger[k],
            ) by {
                if k < st.args.changed_trigger.len() {
                    assert(st2.args.changed_trigger[k] == st.args.changed_trigger[k]);
                }
            }
            lemma_parse_from_keeps(vals, i + 2, st2);
        } else if a == "--output-dir"@ {
            let p = absolute_path_verdict(v, "--output-dir requires an absolute path"@)->Ok_0;
            let st2 = ParseState { args: ArgsView { output_dir: Some(p), ..st.args }, ..st };
            lemma_parse_from_keeps(vals, i + 2, st2);
        } else if a == "--input-s3-bucket"@ {
            let b = string_verdict(v, "--input-s3-bucket requires a bucket"@)->Ok_0;
            lemma_parse_from_keeps(vals, i + 2, ParseState { input: S3InputView { bucket: b, ..st.input }, ..st });
        } else if a == "--input-s3-region"@ {
            let r = string_verdict(v, "--input-s3-region requires a region"@)->Ok_0;
            lemma_parse_from_keeps(vals, i + 2, ParseState { input: S3InputView { region: r, ..st.input }, ..st });
        } else if a == "--input-s3-prefix"@ {
            let p = string_verdict(v, "--input-s3-prefix requires a prefix"@)->Ok_0;
            lemma_parse_from_keeps(vals, i + 2, ParseState { input: S3InputView { prefix: p, ..st.input }, ..st });
        } else if a == "--input-s3-max-keys"@ {
            let k = positive_verdict(v, "--input-s3-max-keys"@)->Ok_0;
            lemma_parse_from_keeps(vals, i + 2, ParseState { input: S3InputView { max_keys: k, ..st.input }, ..st });
        } else if a == "--output-s3-bucket"@ {
            let b = string_verdict(v, "--output-s3-bucket requires a bucket"@)->Ok_0;
            lemma_parse_from_keeps(vals, i + 2, ParseState { output: S3OutputView { bucket: b, ..st.output }, ..st });
        } else if a == "--output-s3-region"@ {
            let r = string_verdict(v, "--output-s3-region requires a region"@)->Ok_0;
            lemma_parse_from_keeps(vals, i + 2, ParseState { output: S3OutputView { region: r, ..st.output }, ..st });
        } else if a == "--output-s3-prefix"@ {
            let p = string_verdict(v, "--output-s3-prefix requires a prefix"@)->Ok_0;
            lemma_parse_from_keeps(vals, i + 2, ParseState { output: S3OutputView { prefix: p, ..st.output }, ..st });
        } else if a == "--aws-profile"@ {
            let p = string_verdict(v, "--aws-profile requires a profile"@)->Ok_0;
            lemma_parse_from_keeps(
                vals,
                i + 2,
                ParseState {
                    input: S3InputView { profile: Some(p), ..st.input },
                    output: S3OutputView { profile: Some(p), ..st.output },
                    ..st
                },
            );
        } else if a == "--now-ms"@ {
            let t = non_negative_verdict(v, "--now-ms"@)->Ok_0;
            lemma_parse_from_keeps(vals, i + 2, ParseState { args: ArgsView { now_ms: Some(t), ..st.args }, ..st });
        }
    }
}

/// What a successful reading of the command line guarantees: an input and
/// an output are given; local paths are absolute and unambiguous; an S3
/// setting is kept only with a valid bucket and prefix; both S3 sides use
/// one profile; the key limit is positive, the time non-negative, and no
/// trigger is blank.
pub proof fn lemma_parsed_args_are_safe(vals: Seq<Seq<char>>)
    requires
        parse_verdict(vals) is Ok,
    ensures
        ({
            let a = parse_verdict(vals)->Ok_0;
            &&& a.hypothesis_state_file is Some || a.input_s3 is Some
            &&& a.output_dir is Some || a.output_s3 is Some
            &&& a.hypothesis_state_file matches Some(p) ==> unambiguous_absolute(p)
            &&& a.output_dir matches Some(p) ==> unambiguous_absolute(p)
            &&& a.input_s3 matches Some(s) ==> {
                &&& bucket_verdict(s.bucket, "--input-s3-bucket"@) is Ok
                &&& prefix_verdict(s.prefix, "--input-s3-prefix"@) is Ok
                &&& s.max_keys > 0
            }
            &&& a.output_s3 matches Some(s) ==> {
                &&& bucket_verdict(s.bucket, "--output-s3-bucket"@) is Ok
                &&& prefix_verdict(s.prefix, "--output-s3-prefix"@) is Ok
            }
            &&& (a.input_s3 is Some && a.output_s3 is Some) ==> a.input_s3->0.profile
                == a.output_s3->0.profile
            &&& a.now_ms matches Some(t) ==> t >= 0
            &&& forall|i: int|
                0 <= i < a.changed_trigger.len() ==> !all_ws(#[trigger] a.changed_trigger[i])
        }),
{
    let st0 = initial_state();
    assert(parse_state_ok(st0));
    lemma_parse_from_keeps(vals, 0, st0);
}

} // verus!

//! Which value each command-line flag ends up with.
use crate::args::parse::{
    initial_state, next_value, parse_from, parse_verdict, ParseState, DEFAULT_AWS_REGION,
};
use crate::args::scalar::{parse_i64_spec, parse_usize_spec};
use crate::text::all_ws;
use crate::types::{ArgsView, S3InputView, S3OutputView};
use vstd::prelude::*;

verus! {
/// The value after the last word that reads `flag` at one of the positions
/// `i`, `i + 2`, ... (the positions where a flag is read, each flag being
/// followed by its value); nothing where there is none.
pub open spec fn last_flag_value(vals: Seq<Seq<char>>, i: int, flag: Seq<char>) -> Option<Seq<char>>
    decreases vals.len() + 2 - i,
{
    if i < 0 || i >= vals.len() {
        None
    } else {
        match last_flag_value(vals, i + 2, flag) {
            Some(v) => Some(v),
            None => if vals[i] == flag && i + 1 < vals.len() {
                Some(vals[i + 1])
            } else {
                None
            },
        }
    }
}

/// The values after every word that reads `flag` at the positions `i`,
/// `i + 2`, ..., in order.
pub open spec fn all_flag_values(vals: Seq<Seq<char>>, i: int, flag: Seq<char>) -> Seq<Seq<char>>
    decreases vals.len() + 2 - i,
{
    if i < 0 || i >= vals.len() {
        Seq::empty()
    } else {
        (if vals[i] == flag && i + 1 < vals.len() {
            seq![vals[i + 1]]
        } else {
            Seq::empty()
        }) + all_flag_values(vals, i + 2, flag)
    }
}

/// A flag's value, or `d` where the flag is not given.
pub open spec fn value_or(o: Option<Seq<char>>, d: Seq<char>) -> Seq<char> {
    match o {
        Some(v) => v,
        None => d,
    }
}

/// What reading the words from `i` on leaves in each setting.
pub open spec fn read_settings(vals: Seq<Seq<char>>, i: int, st: ParseState, r: ParseState) -> bool {
    &&& r.args.hypothesis_state_file == match last_flag_value(vals, i, "--hypothesis-state-file"@) {
        Some(v) => Some(v),
        None => st.args.hypothesis_state_file,
    }
    &&& r.args.output_dir == match last_flag_value(vals, i, "--output-dir"@) {
        Some(v) => Some(v),
        None => st.args.output_dir,
    }
    &&& r.args.now_ms == match last_flag_value(vals, i, "--now-ms"@) {
        Some(v) => parse_i64_spec(v),
        None => st.args.now_ms,
    }
    &&& r.args.changed_trigger == st.args.changed_trigger + all_flag_values(vals, i, "--changed-trigger"@)
    &&& r.args.input_s3 == st.args.input_s3
    &&& r.args.output_s3 == st.args.output_s3
    &&& r.input.bucket == value_or(last_flag_value(vals, i, "--input-s3-bucket"@), st.input.bucket)
    &&& r.input.region == value_or(last_flag_value(vals, i, "--input-s3-region"@), st.input.region)
    &&& r.input.prefix == value_or(last_flag_value(vals, i, "--input-s3-prefix"@), st.input.prefix)
    &&& r.input.max_keys == match last_flag_value(vals, i, "--input-s3-max-keys"@) {
        Some(v) => parse_usize_spec(v)->0,
        None => st.input.max_keys,
    }
    &&& r.input.profile == match last_flag_value(vals, i, "--aws-profile"@) {
        Some(v) => Some(v),
        None => st.input.profile,
    }
    &&& r.output.bucket == value_or(last_flag_value(vals, i, "--output-s3-bucket"@), st.output.bucket)
    &&& r.output.region == value_or(last_flag_value(vals, i, "--output-s3-region"@), st.output.region)
    &&& r.output.prefix == value_or(last_flag_value(vals, i, "--output-s3-prefix"@), st.output.prefix)
    &&& r.output.profile == match last_flag_value(vals, i, "--aws-profile"@) {
        Some(v) => Some(v),
        None => st.output.profile,
    }
}

/// The flags are distinct words.
proof fn lemma_flags_distinct()
    ensures
        "--hypothesis-state-file"@ != "--changed-trigger"@,
        "--hypothesis-state-file"@ != "--output-dir"@,
        "--hypothesis-state-file"@ != "--input-s3-bucket"@,
        "--hypothesis-state-file"@ != "--input-s3-region"@,
        "--hypothesis-state-file"@ != "--input-s3-prefix"@,
        "--hypothesis-state-file"@ != "--input-s3-max-keys"@,
        "--hypothesis-state-file"@ != "--output-s3-bucket"@,
        "--hypothesis-state-file"@ != "--output-s3-region"@,
        "--hypothesis-state-file"@ != "--output-s3-prefix"@,
        "--hypothesis-state-file"@ != "--aws-profile"@,
        "--hypothesis-state-file"@ != "--now-ms"@,
        "--changed-trigger"@ != "--output-dir"@,
        "--changed-trigger"@ != "--input-s3-bucket"@,
        "--changed-trigger"@ != "--input-s3-region"@,
        "--changed-trigger"@ != "--input-s3-prefix"@,
        "--changed-trigger"@ != "--input-s3-max-keys"@,
        "--changed-trigger"@ != "--output-s3-bucket"@,
        "--changed-trigger"@ != "--output-s3-region"@,
        "--changed-trigger"@ != "--output-s3-prefix"@,
        "--changed-trigger"@ != "--aws-profile"@,
        "--changed-trigger"@ != "--now-ms"@,
        "--output-dir"@ != "--input-s3-bucket"@,
        "--output-dir"@ != "--input-s3-region"@,
        "--output-dir"@ != "--input-s3-prefix"@,
        "--output-dir"@ != "--input-s3-max-keys"@,
        "--output-dir"@ != "--output-s3-bucket"@,
        "--output-dir"@ != "--output-s3-region"@,
        "--output-dir"@ != "--output-s3-prefix"@,
        "--output-dir"@ != "--aws-profile"@,
        "--output-dir"@ != "--now-ms"@,
        "--input-s3-bucket"@ != "--input-s3-region"@,
        "--input-s3-bucket"@ != "--input-s3-prefix"@,
        "--input-s3-bucket"@ != "--input-s3-max-keys"@,
        "--input-s3-bucket"@ != "--output-s3-bucket"@,
        "--input-s3-bucket"@ != "--output-s3-region"@,
        "--input-s3-bucket"@ != "--output-s3-prefix"@,
        "--input-s3-bucket"@ != "--aws-profile"@,
        "--input-s3-bucket"@ != "--now-ms"@,
        "--input-s3-region"@ != "--input-s3-prefix"@,
        "--input-s3-region"@ != "--input-s3-max-keys"@,
        "--input-s3-region"@ != "--output-s3-bucket"@,
        "--input-s3-region"@ != "--output-s3-region"@,
        "--input-s3-region"@ != "--output-s3-prefix"@,
        "--input-s3-region"@ != "--aws-profile"@,
        "--input-s3-region"@ != "--now-ms"@,
        "--input-s3-prefix"@ != "--input-s3-max-keys"@,
        "--input-s3-prefix"@ != "--output-s3-bucket"@,
        "--input-s3-prefix"@ != "--output-s3-region"@,
        "--input-s3-prefix"@ != "--output-s3-prefix"@,
        "--input-s3-prefix"@ != "--aws-profile"@,
        "--input-s3-prefix"@ != "--now-ms"@,
        "--input-s3-max-keys"@ != "--output-s3-bucket"@,
        "--input-s3-max-keys"@ != "--output-s3-region"@,
        "--input-s3-max-keys"@ != "--output-s3-prefix"@,
        "--input-s3-max-keys"@ != "--aws-profile"@,
        "--input-s3-max-keys"@ != "--now-ms"@,
        "--output-s3-bucket"@ != "--output-s3-region"@,
        "--output-s3-bucket"@ != "--output-s3-prefix"@,
        "--output-s3-bucket"@ != "--aws-profile"@,
        "--output-s3-bucket"@ != "--now-ms"@,
        "--output-s3-region"@ != "--output-s3-prefix"@,
        "--output-s3-region"@ != "--aws-profile"@,
        "--output-s3-region"@ != "--now-ms"@,
        "--output-s3-prefix"@ != "--aws-profile"@,
        "--output-s3-prefix"@ != "--now-ms"@,
        "--aws-profile"@ != "--now-ms"@,
{
    reveal_strlit("--hypothesis-state-file");
    reveal_strlit("--changed-trigger");
    reveal_strlit("--output-dir");
    reveal_strlit("--input-s3-bucket");
    reveal_strlit("--input-s3-region");
    reveal_strlit("--input-s3-prefix");
    reveal_strlit("--input-s3-max-keys");
    reveal_strlit("--output-s3-bucket");
    reveal_strlit("--output-s3-region");
    reveal_strlit("--output-s3-prefix");
    reveal_strlit("--aws-profile");
    reveal_strlit("--now-ms");
    assert("--hypothesis-state-file"@.len() != "--changed-trigger"@.len());
    assert("--hypothesis-state-file"@.len() != "--output-dir"@.len());
    assert("--hypothesis-state-file"@.len() != "--input-s3-bucket"@.len());
    assert("--hypothesis-state-file"@.len() != "--input-s3-region"@.len());
    assert("--hypothesis-state-file"@.len() != "--input-s3-prefix"@.len());
    assert("--hypothesis-state-file"@.len() != "--input-s3-max-keys"@.len());
    assert("--hypothesis-state-file"@.len() != "--output-s3-bucket"@.len());
    assert("--hypothesis-state-file"@.len() != "--output-s3-region"@.len());
    assert("--hypothesis-state-file"@.len() != "--output-s3-prefix"@.len());
    assert("--hypothesis-state-file"@.len() != "--aws-profile"@.len());
    assert("--hypothesis-state-file"@.len() != "--now-ms"@.len());
    assert("--changed-trigger"@.len() != "--output-dir"@.len());
    assert("--changed-trigger"@[2] != "--input-s3-bucket"@[2]);
    assert("--changed-trigger"@[2] != "--input-s3-region"@[2]);
    assert("--changed-trigger"@[2] != "--input-s3-prefix"@[2]);
    assert("--changed-trigger"@.len() != "--input-s3-max-keys"@.len());
    assert("--changed-trigger"@.len() != "--output-s3-bucket"@.len());
    assert("--changed-trigger"@.len() != "--output-s3-region"@.len());
    assert("--changed-trigger"@.len() != "--output-s3-prefix"@.len());
    assert("--changed-trigger"@.len() != "--aws-profile"@.len());
    assert("--changed-trigger"@.len() != "--now-ms"@.len());
    assert("--output-dir"@.len() != "--input-s3-bucket"@.len());
    assert("--output-dir"@.len() != "--input-s3-region"@.len());
    assert("--output-dir"@.len() != "--input-s3-prefix"@.len());
    assert("--output-dir"@.len() != "--input-s3-max-keys"@.len());
    assert("--output-dir"@.len() != "--output-s3-bucket"@.len());
    assert("--output-dir"@.len() != "--output-s3-region"@.len());
    assert("--output-dir"@.len() != "--output-s3-prefix"@.len());
    assert("--output-dir"@.len() != "--aws-profile"@.len());
    assert("--output-dir"@.len() != "--now-ms"@.len());
    assert("--input-s3-bucket"@[11] != "--input-s3-region"@[11]);
    assert("--input-s3-bucket"@[11] != "--input-s3-prefix"@[11]);
    assert("--input-s3-bucket"@.len() != "--input-s3-max-keys"@.len());
    assert("--input-s3-bucket"@.len() != "--output-s3-bucket"@.len());
    assert("--input-s3-bucket"@.len() != "--output-s3-region"@.len());
    assert("--input-s3-bucket"@.len() != "--output-s3-prefix"@.len());
    assert("--input-s3-bucket"@.len() != "--aws-profile"@.len());
    assert("--input-s3-bucket"@.len() != "--now-ms"@.len());
    assert("--input-s3-region"@[11] != "--input-s3-prefix"@[11]);
    assert("--input-s3-region"@.len() != "--input-s3-max-keys"@.len());
    assert("--input-s3-region"@.len() != "--output-s3-bucket"@.len());
    assert("--input-s3-region"@.len() != "--output-s3-region"@.len());
    assert("--input-s3-region"@.len() != "--output-s3-prefix"@.len());
    assert("--input-s3-region"@.len() != "--aws-profile"@.len());
    assert("--input-s3-region"@.len() != "--now-ms"@.len());
    assert("--input-s3-prefix"@.len() != "--input-s3-max-keys"@.len());
    assert("--input-s3-prefix"@.len() != "--output-s3-bucket"@.len());
    assert("--input-s3-prefix"@.len() != "--output-s3-region"@.len());
    assert("--input-s3-prefix"@.len() != "--output-s3-prefix"@.len());
    assert("--input-s3-prefix"@.len() != "--aws-profile"@.len());
    assert("--input-s3-prefix"@.len() != "--now-ms"@.len());
    assert("--input-s3-max-keys"@.len() != "--output-s3-bucket"@.len());
    assert("--input-s3-max-keys"@.len() != "--output-s3-region"@.len());
    assert("--input-s3-max-keys"@.len() != "--output-s3-prefix"@.len());
    assert("--input-s3-max-keys"@.len() != "--aws-profile"@.len());
    assert("--input-s3-max-keys"@.len() != "--now-ms"@.len());
    assert("--output-s3-bucket"@[12] != "--output-s3-region"@[12]);
    assert("--output-s3-bucket"@[12] != "--output-s3-prefix"@[12]);
    assert("--output-s3-bucket"@.len() != "--aws-profile"@.len());
    assert("--output-s3-bucket"@.len() != "--now-ms"@.len());
    assert("--output-s3-region"@[12] != "--output-s3-prefix"@[12]);
    assert("--output-s3-region"@.len() != "--aws-profile"@.len());
    assert("--output-s3-region"@.len() != "--now-ms"@.len());
    assert("--output-s3-prefix"@.len() != "--aws-profile"@.len());
    assert("--output-s3-prefix"@.len() != "--now-ms"@.len());
    assert("--aws-profile"@.len() != "--now-ms"@.len());
}

/// The settings after reading the flag at position `i` and its value.
spec fn step(vals: Seq<Seq<char>>, i: int, st: ParseState) -> ParseState {
    let a = vals[i];
    let v = next_value(vals, i);
    if a == "--hypothesis-state-file"@ {
        ParseState { args: ArgsView { hypothesis_state_file: v, ..st.args }, ..st }
    } else if a == "--changed-trigger"@ {
        ParseState { args: ArgsView { changed_trigger: st.args.changed_trigger.push(v->0), ..st.args }, ..st }
    } else if a == "--output-dir"@ {
        ParseState { args: ArgsView { output_dir: v, ..st.args }, ..st }
    } else if a == "--input-s3-bucket"@ {
        ParseState { input: S3InputView { bucket: v->0, ..st.input }, ..st }
    } else if a == "--input-s3-region"@ {
        ParseState { input: S3InputView { region: v->0, ..st.input }, ..st }
    } else if a == "--input-s3-prefix"@ {
        ParseState { input: S3InputView { prefix: v->0, ..st.input }, ..st }
    } else if a == "--input-s3-max-keys"@ {
        ParseState { input: S3InputView { max_keys: parse_usize_spec(v->0)->0, ..st.input }, ..st }
    } else if a == "--output-s3-bucket"@ {
        ParseState { output: S3OutputView { bucket: v->0, ..st.output }, ..st }
    } else if a == "--output-s3-region"@ {
        ParseState { output: S3OutputView { region: v->0, ..st.output }, ..st }
    } else if a == "--output-s3-prefix"@ {
        ParseState { output: S3OutputView { prefix: v->0, ..st.output }, ..st }
    } else if a == "--aws-profile"@ {
        ParseState {
            input: S3InputView { profile: v, ..st.input },
            output: S3OutputView { profile: v, ..st.output },
            ..st
        }
    } else {
        ParseState { args: ArgsView { now_ms: parse_i64_spec(v->0), ..st.args }, ..st }
    }
}

proof fn lemma_step(vals: Seq<Seq<char>>, i: int, st: ParseState)
    requires
        0 <= i < vals.len(),
        parse_from(vals, i, st) is Ok,
    ensures
        parse_from(vals, i, st) == parse_from(vals, i + 2, step(vals, i, st)),
        i + 1 < vals.len(),
        vals[i] == "--hypothesis-state-file"@ || vals[i] == "--changed-trigger"@ || vals[i] == "--output-dir"@
            || vals[i] == "--input-s3-bucket"@ || vals[i] == "--input-s3-region"@ || vals[i]
            == "--input-s3-prefix"@ || vals[i] == "--input-s3-max-keys"@ || vals[i] == "--output-s3-bucket"@
            || vals[i] == "--output-s3-region"@ || vals[i] == "--output-s3-prefix"@ || vals[i]
            == "--aws-profile"@ || vals[i] == "--now-ms"@,
{
    reveal_strlit("--hypothesis-state-file");
    reveal_strlit("--changed-trigger");
    reveal_strlit("--output-dir");
    reveal_strlit("--input-s3-bucket");
    reveal_strlit("--input-s3-region");
    reveal_strlit("--input-s3-prefix");
    reveal_strlit("--input-s3-max-keys");
    reveal_strlit("--output-s3-bucket");
    reveal_strlit("--output-s3-region");
    reveal_strlit("--output-s3-prefix");
    reveal_strlit("--aws-profile");
    reveal_strlit("--now-ms");
    reveal_strlit("-h");
    reveal_strlit("--help");
}

proof fn lemma_setting_hypothesis_state_file(vals: Seq<Seq<char>>, i: int, st: ParseState)
    requires
        0 <= i,
        parse_from(vals, i, st) is Ok,
    ensures
        parse_from(vals, i, st)->Ok_0.args.hypothesis_state_file == (match last_flag_value(vals, i, "--hypothesis-state-file"@) { Some(v) => Some(v), None => st.args.hypothesis_state_file }),
    decreases vals.len() - i,
{
    if i < vals.len() {
        lemma_flags_distinct();
        lemma_step(vals, i, st);
        lemma_setting_hypothesis_state_file(vals, i + 2, step(vals, i, st));
    }
}

proof fn lemma_setting_output_dir(vals: Seq<Seq<char>>, i: int, st: ParseState)
    requires
        0 <= i,
        parse_from(vals, i, st) is Ok,
    ensures
        parse_from(vals, i, st)->Ok_0.args.output_dir == (match last_flag_value(vals, i, "--output-dir"@) { Some(v) => Some(v), None => st.args.output_dir }),
    decreases vals.len() - i,
{
    if i < vals.len() {
        lemma_flags_distinct();
        lemma_step(vals, i, st);
        lemma_setting_output_dir(vals, i + 2, step(vals, i, st));
    }
}

proof fn lemma_setting_now_ms(vals: Seq<Seq<char>>, i: int, st: ParseState)
    requires
        0 <= i,
        parse_from(vals, i, st) is Ok,
    ensures
        parse_from(vals, i, st)->Ok_0.args.now_ms == (match last_flag_value(vals, i, "--now-ms"@) { Some(v) => parse_i64_spec(v), None => st.args.now_ms }),
    decreases vals.len() - i,
{
    if i < vals.len() {
        lemma_flags_distinct();
        lemma_step(vals, i, st);
        lemma_setting_now_ms(vals, i + 2, step(vals, i, st));
    }
}

proof fn lemma_setting_input_bucket(vals: Seq<Seq<char>>, i: int, st: ParseState)
    requires
        0 <= i,
        parse_from(vals, i, st) is Ok,
    ensures
        parse_from(vals, i, st)->Ok_0.input.bucket == (value_or(last_flag_value(vals, i, "--input-s3-bucket"@), st.input.bucket)),
    decreases vals.len() - i,
{
    if i < vals.len() {
        lemma_flags_distinct();
        lemma_step(vals, i, st);
        let st2 = step(vals, i, st);
        lemma_setting_input_bucket(vals, i + 2, st2);
        let r2 = last_flag_value(vals, i + 2, "--input-s3-bucket"@);
        if vals[i] == "--input-s3-bucket"@ {
            assert(st2.input.bucket == vals[i + 1]);
        } else {
            assert(st2.input.bucket == st.input.bucket);
        }
        if r2 is None && vals[i] == "--input-s3-bucket"@ {
            assert(last_flag_value(vals, i, "--input-s3-bucket"@) == Some(vals[i + 1]));
        } else {
            assert(last_flag_value(vals, i, "--input-s3-bucket"@) == r2 || vals[i] != "--input-s3-bucket"@);
        }
    }
}

proof fn lemma_setting_input_region(vals: Seq<Seq<char>>, i: int, st: ParseState)
    requires
        0 <= i,
        parse_from(vals, i, st) is Ok,
    ensures
        parse_from(vals, i, st)->Ok_0.input.region == (value_or(last_flag_value(vals, i, "--input-s3-region"@), st.input.region)),
    decreases vals.len() - i,
{
    if i < vals.len() {
        lemma_flags_distinct();
        lemma_step(vals, i, st);
        let st2 = step(vals, i, st);
        lemma_setting_input_region(vals, i + 2, st2);
        let r2 = last_flag_value(vals, i + 2, "--input-s3-region"@);
        if vals[i] == "--input-s3-region"@ {
            assert(st2.input.region == vals[i + 1]);
        } else {
            assert(st2.input.region == st.input.region);
        }
        if r2 is None && vals[i] == "--input-s3-region"@ {
            assert(last_flag_value(vals, i, "--input-s3-region"@) == Some(vals[i + 1]));
        } else {
            assert(last_flag_value(vals, i, "--input-s3-region"@) == r2 || vals[i] != "--input-s3-region"@);
        }
    }
}

proof fn lemma_setting_input_prefix(vals: Seq<Seq<char>>, i: int, st: ParseState)
    requires
        0 <= i,
        parse_from(vals, i, st) is Ok,
    ensures
        parse_from(vals, i, st)->Ok_0.input.prefix == (value_or(last_flag_value(vals, i, "--input-s3-prefix"@), st.input.prefix)),
    decreases vals.len() - i,
{
    if i < vals.len() {
        lemma_flags_distinct();
        lemma_step(vals, i, st);
        let st2 = step(vals, i, st);
        lemma_setting_input_prefix(vals, i + 2, st2);
        let r2 = last_flag_value(vals, i + 2, "--input-s3-prefix"@);
        if vals[i] == "--input-s3-prefix"@ {
            assert(st2.input.prefix == vals[i + 1]);
        } else {
            assert(st2.input.prefix == st.input.prefix);
        }
        if r2 is None && vals[i] == "--input-s3-prefix"@ {
            assert(last_flag_value(vals, i, "--input-s3-prefix"@) == Some(vals[i + 1]));
        } else {
            assert(last_flag_value(vals, i, "--input-s3-prefix"@) == r2 || vals[i] != "--input-s3-prefix"@);
        }
    }
}

proof fn lemma_setting_input_max_keys(vals: Seq<Seq<char>>, i: int, st: ParseState)
    requires
        0 <= i,
        parse_from(vals, i, st) is Ok,
    ensures
        parse_from(vals, i, st)->Ok_0.input.max_keys == (match last_flag_value(vals, i, "--input-s3-max-keys"@) { Some(v) => parse_usize_spec(v)->0, None => st.input.max_keys }),
    decreases vals.len() - i,
{
    if i < vals.len() {
        lemma_flags_distinct();
        lemma_step(vals, i, st);
        lemma_setting_input_max_keys(vals, i + 2, step(vals, i, st));
    }
}

proof fn lemma_setting_input_profile(vals: Seq<Seq<char>>, i: int, st: ParseState)
    requires
        0 <= i,
        parse_from(vals, i, st) is Ok,
    ensures
        parse_from(vals, i, st)->Ok_0.input.profile == (match last_flag_value(vals, i, "--aws-profile"@) { Some(v) => Some(v), None => st.input.profile }),
    decreases vals.len() - i,
{
    if i < vals.len() {
        lemma_flags_distinct();
        lemma_step(vals, i, st);
        lemma_setting_input_profile(vals, i + 2, step(vals, i, st));
    }
}

proof fn lemma_setting_output_bucket(vals: Seq<Seq<char>>, i: int, st: ParseState)
    requires
        0 <= i,
        parse_from(vals, i, st) is Ok,
    ensures
        parse_from(vals, i, st)->Ok_0.output.bucket == (value_or(last_flag_value(vals, i, "--output-s3-bucket"@), st.output.bucket)),
    decreases vals.len() - i,
{
    if i < vals.len() {
        lemma_flags_distinct();
        lemma_step(vals, i, st);
        let st2 = step(vals, i, st);
        lemma_setting_output_bucket(vals, i + 2, st2);
        let r2 = last_flag_value(vals, i + 2, "--output-s3-bucket"@);
        if vals[i] == "--output-s3-bucket"@ {
            assert(st2.output.bucket == vals[i + 1]);
        } else {
            assert(st2.output.bucket == st.output.bucket);
        }
        if r2 is None && vals[i] == "--output-s3-bucket"@ {
            assert(last_flag_value(vals, i, "--output-s3-bucket"@) == Some(vals[i + 1]));
        } else {
            assert(last_flag_value(vals, i, "--output-s3-bucket"@) == r2 || vals[i] != "--output-s3-bucket"@);
        }
    }
}

proof fn lemma_setting_output_region(vals: Seq<Seq<char>>, i: int, st: ParseState)
    requires
        0 <= i,
        parse_from(vals, i, st) is Ok,
    ensures
        parse_from(vals, i, st)->Ok_0.output.region == (value_or(last_flag_value(vals, i, "--output-s3-region"@), st.output.region)),
    decreases vals.len() - i,
{
    if i < vals.len() {
        lemma_flags_distinct();
        lemma_step(vals, i, st);
        let st2 = step(vals, i, st);
        lemma_setting_output_region(vals, i + 2, st2);
        let r2 = last_flag_value(vals, i + 2, "--output-s3-region"@);
        if vals[i] == "--output-s3-region"@ {
            assert(st2.output.region == vals[i + 1]);
        } else {
            assert(st2.output.region == st.output.region);
        }
        if r2 is None && vals[i] == "--output-s3-region"@ {
            assert(last_flag_value(vals, i, "--output-s3-region"@) == Some(vals[i + 1]));
        } else {
            assert(last_flag_value(vals, i, "--output-s3-region"@) == r2 || vals[i] != "--output-s3-region"@);
        }
    }
}

proof fn lemma_setting_output_prefix(vals: Seq<Seq<char>>, i: int, st: ParseState)
    requires
        0 <= i,
        parse_from(vals, i, st) is Ok,
    ensures
        parse_from(vals, i, st)->Ok_0.output.prefix == (value_or(last_flag_value(vals, i, "--output-s3-prefix"@), st.output.prefix)),
    decreases vals.len() - i,
{
    if i < vals.len() {
        lemma_flags_distinct();
        lemma_step(vals, i, st);
        let st2 = step(vals, i, st);
        lemma_setting_output_prefix(vals, i + 2, st2);
        let r2 = last_flag_value(vals, i + 2, "--output-s3-prefix"@);
        if vals[i] == "--output-s3-prefix"@ {
            assert(st2.output.prefix == vals[i + 1]);
        } else {
            assert(st2.output.prefix == st.output.prefix);
        }
        if r2 is None && vals[i] == "--output-s3-prefix"@ {
            assert(last_flag_value(vals, i, "--output-s3-prefix"@) == Some(vals[i + 1]));
        } else {
            assert(last_flag_value(vals, i, "--output-s3-prefix"@) == r2 || vals[i] != "--output-s3-prefix"@);
        }
    }
}

proof fn lemma_setting_output_profile(vals: Seq<Seq<char>>, i: int, st: ParseState)
    requires
        0 <= i,
        parse_from(vals, i, st) is Ok,
    ensures
        parse_from(vals, i, st)->Ok_0.output.profile == (match last_flag_value(vals, i, "--aws-profile"@) { Some(v) => Some(v), None => st.output.profile }),
    decreases vals.len() - i,
{
    if i < vals.len() {
        lemma_flags_distinct();
        lemma_step(vals, i, st);
        lemma_setting_output_profile(vals, i + 2, step(vals, i, st));
    }
}

proof fn lemma_setting_triggers(vals: Seq<Seq<char>>, i: int, st: ParseState)
    requires
        0 <= i,
        parse_from(vals, i, st) is Ok,
    ensures
        parse_from(vals, i, st)->Ok_0.args.changed_trigger == st.args.changed_trigger + all_flag_values(
            vals,
            i,
            "--changed-trigger"@,
        ),
        parse_from(vals, i, st)->Ok_0.args.input_s3 == st.args.input_s3,
        parse_from(vals, i, st)->Ok_0.args.output_s3 == st.args.output_s3,
    decreases vals.len() - i,
{
    if i < vals.len() {
        lemma_flags_distinct();
        lemma_step(vals, i, st);
        let st2 = step(vals, i, st);
        lemma_setting_triggers(vals, i + 2, st2);
        if vals[i] == "--changed-trigger"@ {
            assert(st2.args.changed_trigger + all_flag_values(vals, i + 2, "--changed-trigger"@)
                =~= st.args.changed_trigger + all_flag_values(vals, i, "--changed-trigger"@));
        } else {
            assert(all_flag_values(vals, i, "--changed-trigger"@) =~= all_flag_values(
                vals,
                i + 2,
                "--changed-trigger"@,
            ));
        }
    } else {
        assert(all_flag_values(vals, i, "--changed-trigger"@) =~= Seq::<Seq<char>>::empty());
        assert(st.args.changed_trigger + Seq::<Seq<char>>::empty() =~= st.args.changed_trigger);
    }
}

proof fn lemma_parse_from_settings(vals: Seq<Seq<char>>, i: int, st: ParseState)
    requires
        0 <= i,
        parse_from(vals, i, st) is Ok,
    ensures
        read_settings(vals, i, st, parse_from(vals, i, st)->Ok_0),
{
    lemma_setting_hypothesis_state_file(vals, i, st);
    lemma_setting_output_dir(vals, i, st);
    lemma_setting_now_ms(vals, i, st);
    lemma_setting_input_bucket(vals, i, st);
    lemma_setting_input_region(vals, i, st);
    lemma_setting_input_prefix(vals, i, st);
    lemma_setting_input_max_keys(vals, i, st);
    lemma_setting_input_profile(vals, i, st);
    lemma_setting_output_bucket(vals, i, st);
    lemma_setting_output_region(vals, i, st);
    lemma_setting_output_prefix(vals, i, st);
    lemma_setting_output_profile(vals, i, st);
    lemma_setting_triggers(vals, i, st);
}

/// After a successful reading, every setting holds the value of the last
/// occurrence of its flag, or its default where the flag is not given;
/// `--changed-trigger` gathers the values of all its occurrences in order;
/// `--aws-profile` applies to both S3 sides; and an S3 side is kept exactly
/// when its bucket is given and not blank.
pub proof fn lemma_flags_take_their_last_values(vals: Seq<Seq<char>>)
    requires
        parse_verdict(vals) is Ok,
    ensures
        ({
            let a = parse_verdict(vals)->Ok_0;
            let last = |f: Seq<char>| last_flag_value(vals, 0, f);
            &&& a.hypothesis_state_file == last("--hypothesis-state-file"@)
            &&& a.output_dir == last("--output-dir"@)
            &&& a.now_ms == match last("--now-ms"@) {
                Some(v) => parse_i64_spec(v),
                None => None,
            }
            &&& a.changed_trigger == all_flag_values(vals, 0, "--changed-trigger"@)
            &&& a.input_s3 is Some <==> !all_ws(value_or(last("--input-s3-bucket"@), Seq::empty()))
            &&& a.input_s3 matches Some(s) ==> {
                &&& s.bucket == value_or(last("--input-s3-bucket"@), Seq::empty())
                &&& s.region == value_or(last("--input-s3-region"@), DEFAULT_AWS_REGION@)
                &&& s.prefix == value_or(last("--input-s3-prefix"@), Seq::empty())
                &&& s.max_keys == match last("--input-s3-max-keys"@) {
                    Some(v) => parse_usize_spec(v)->0,
                    None => 1000,
                }
                &&& s.profile == last("--aws-profile"@)
            }
            &&& a.output_s3 is Some <==> !all_ws(value_or(last("--output-s3-bucket"@), Seq::empty()))
            &&& a.output_s3 matches Some(s) ==> {
                &&& s.bucket == value_or(last("--output-s3-bucket"@), Seq::empty())
                &&& s.region == value_or(last("--output-s3-region"@), DEFAULT_AWS_REGION@)
                &&& s.prefix == value_or(last("--output-s3-prefix"@), Seq::empty())
                &&& s.profile == last("--aws-profile"@)
            }
        }),
{
    let st0 = initial_state();
    lemma_parse_from_settings(vals, 0, st0);
    assert(st0.args.changed_trigger + all_flag_values(vals, 0, "--changed-trigger"@) =~= all_flag_values(
        vals,
        0,
        "--changed-trigger"@,
    ));
}

} // verus!

//! Which listed object keys hold JSON payloads.
use crate::text::{chars_of, ends_with_chars, seq_ends_with};
use vstd::prelude::*;

verus! {

/// The key ends with `.json` or `.jsonl`.
pub fn is_json_payload_key(key: &str) -> (r: bool)
    ensures
        r == (seq_ends_with(key@, ".json"@) || seq_ends_with(key@, ".jsonl"@)),
{
    let k = chars_of(key);
    let a = chars_of(".json");
    let b = chars_of(".jsonl");
    ends_with_chars(&k, &a) || ends_with_chars(&k, &b)
}

} // verus!

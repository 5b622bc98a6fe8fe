//! Values that follow a flag: strings, absolute paths and numbers.
use crate::error::{config_error, result_is, str_result_is, AppError, ErrorView};
use crate::path_validation::{path_verdict, validate_unambiguous_absolute_path};
use crate::text::{all_whitespace, all_ws, append_str, chars_of, string_of};
use vstd::prelude::*;

verus! {

pub open spec fn is_digit(c: char) -> bool {
    '0' <= c <= '9'
}

pub open spec fn all_digits(d: Seq<char>) -> bool {
    forall|i: int| 0 <= i < d.len() ==> is_digit(#[trigger] d[i])
}

/// The number that a string of decimal digits denotes.
pub open spec fn digits_value(d: Seq<char>) -> nat
    decreases d.len(),
{
    if d.len() == 0 {
        0
    } else {
        digits_value(d.drop_last()) * 10 + ((d[d.len() - 1] as int) - 48) as nat
    }
}

/// `str::parse::<i64>`: an optional `+` or `-`, then one or more decimal
/// digits, denoting a value in range.
pub open spec fn parse_i64_spec(s: Seq<char>) -> Option<i64> {
    let neg = s.len() > 0 && s[0] == '-';
    let plus = s.len() > 0 && s[0] == '+';
    let d = if neg || plus { s.drop_first() } else { s };
    if d.len() == 0 || !all_digits(d) {
        None
    } else {
        let v: int = if neg { -(digits_value(d) as int) } else { digits_value(d) as int };
        if i64::MIN <= v <= i64::MAX {
            Some(v as i64)
        } else {
            None
        }
    }
}

/// `str::parse::<usize>`: an optional `+`, then one or more decimal digits,
/// denoting a value in range.
pub open spec fn parse_usize_spec(s: Seq<char>) -> Option<usize> {
    let d = if s.len() > 0 && s[0] == '+' { s.drop_first() } else { s };
    if d.len() == 0 || !all_digits(d) {
        None
    } else if digits_value(d) <= usize::MAX {
        Some(digits_value(d) as usize)
    } else {
        None
    }
}

proof fn lemma_digits_value_prefix(d: Seq<char>, k: int)
    requires
        all_digits(d),
        0 <= k <= d.len(),
    ensures
        digits_value(d.take(k)) <= digits_value(d),
    decreases d.len(),
{
    if k < d.len() {
        let e = d.drop_last();
        assert(all_digits(e));
        lemma_digits_value_prefix(e, k);
        assert(e.take(k) =~= d.take(k));
    } else {
        assert(d.take(k) =~= d);
    }
}

/// The digits `v[from..]` and the value they denote, if they are one or more
/// decimal digits whose value is at most `bound`.
fn parse_digits(v: &Vec<char>, from: usize, bound: u64) -> (r: Option<u64>)
    requires
        from <= v@.len(),
    ensures
        ({
            let d = v@.subrange(from as int, v@.len() as int);
            match r {
                Some(x) => d.len() > 0 && all_digits(d) && x == digits_value(d) && x <= bound,
                None => d.len() == 0 || !all_digits(d) || digits_value(d) > bound,
            }
        }),
{
    let ghost d = v@.subrange(from as int, v@.len() as int);
    if from == v.len() {
        return None;
    }
    let mut acc: u64 = 0;
    let mut i = from;
    while i < v.len()
        invariant
            from <= i <= v@.len(),
            d == v@.subrange(from as int, v@.len() as int),
            all_digits(d.take(i - from)),
            acc == digits_value(d.take(i - from)),
            acc <= bound,
        decreases v@.len() - i,
    {
        let c = v[i];
        assert(d[i - from] == c);
        if !('0' <= c && c <= '9') {
            return None;
        }
        let dig = (c as u64) - 48;
        assert(d.take(i + 1 - from).drop_last() =~= d.take(i - from));
        if dig > bound || acc > (bound - dig) / 10 {
            proof {
                if dig <= bound {
                    assert(acc * 10 + dig > bound) by (nonlinear_arith)
                        requires acc > (bound - dig) / 10, dig <= bound;
                }
                let t = d.take(i + 1 - from);
                assert(all_digits(t));
                if all_digits(d) {
                    lemma_digits_value_prefix(d, i + 1 - from);
                }
            }
            return None;
        }
        proof {
            assert(acc * 10 + dig <= bound) by (nonlinear_arith)
                requires acc <= (bound - dig) / 10, dig <= bound;
        }
        acc = acc * 10 + dig;
        i = i + 1;
    }
    assert(d.take(i - from) =~= d);
    Some(acc)
}

/// What `non_negative_i64` answers for a flag `name` and its value.
pub open spec fn non_negative_verdict(value: Option<Seq<char>>, name: Seq<char>) -> Result<i64, ErrorView> {
    match value {
        None => Err(config_error(name + " requires a number"@)),
        Some(s) => match parse_i64_spec(s) {
            None => Err(config_error(name + " must be an integer"@)),
            Some(x) => if x < 0 {
                Err(config_error(name + " must be non-negative"@))
            } else {
                Ok(x)
            },
        },
    }
}

/// What `positive_usize` answers for a flag `name` and its value.
pub open spec fn positive_verdict(value: Option<Seq<char>>, name: Seq<char>) -> Result<usize, ErrorView> {
    match value {
        None => Err(config_error(name + " requires a number"@)),
        Some(s) => match parse_usize_spec(s) {
            None => Err(config_error(name + " must be a positive integer"@)),
            Some(x) => if x == 0 {
                Err(config_error(name + " must be greater than zero"@))
            } else {
                Ok(x)
            },
        },
    }
}

pub open spec fn opt_view(o: Option<String>) -> Option<Seq<char>> {
    match o {
        Some(s) => Some(s@),
        None => None,
    }
}

fn named(name: &str, text: &str) -> (s: String)
    ensures
        s@ == name@ + text@,
{
    let mut s = name.to_owned();
    append_str(&mut s, text);
    s
}

/// `str::parse::<i64>`.
pub fn parse_i64(s: &str) -> (r: Option<i64>)
    ensures
        r == parse_i64_spec(s@),
{
    let v = chars_of(s);
    let neg = v.len() > 0 && v[0] == '-';
    let plus = v.len() > 0 && v[0] == '+';
    let from: usize = if neg || plus { 1 } else { 0 };
    let bound: u64 = if neg { 0x8000_0000_0000_0000 } else { 0x7fff_ffff_ffff_ffff };
    assert(v@.subrange(from as int, v@.len() as int) =~= (if neg || plus { v@.drop_first() } else { v@ }));
    match parse_digits(&v, from, bound) {
        None => None,
        Some(m) => {
            if neg {
                if m == 0x8000_0000_0000_0000 {
                    Some(i64::MIN)
                } else {
                    Some(-(m as i64))
                }
            } else {
                Some(m as i64)
            }
        },
    }
}

/// `str::parse::<usize>`.
pub fn parse_usize(s: &str) -> (r: Option<usize>)
    ensures
        r == parse_usize_spec(s@),
{
    let v = chars_of(s);
    let from: usize = if v.len() > 0 && v[0] == '+' { 1 } else { 0 };
    assert(v@.subrange(from as int, v@.len() as int) =~= (if v@.len() > 0 && v@[0] == '+' { v@.drop_first() } else { v@ }));
    match parse_digits(&v, from, usize::MAX as u64) {
        None => None,
        Some(m) => Some(m as usize),
    }
}

/// A non-negative integer value of the flag `name`.
pub fn non_negative_i64(value: Option<String>, name: &str) -> (r: Result<i64, AppError>)
    ensures
        result_is(r, non_negative_verdict(opt_view(value), name@)),
{
    match value {
        None => Err(AppError::config(named(name, " requires a number"))),
        Some(raw) => match parse_i64(raw.as_str()) {
            None => Err(AppError::config(named(name, " must be an integer"))),
            Some(x) => if x < 0 {
                Err(AppError::config(named(name, " must be non-negative")))
            } else {
                Ok(x)
            },
        },
    }
}

/// A positive integer value of the flag `name`.
pub fn positive_usize(value: Option<String>, name: &str) -> (r: Result<usize, AppError>)
    ensures
        result_is(r, positive_verdict(opt_view(value), name@)),
{
    match value {
        None => Err(AppError::config(named(name, " requires a number"))),
        Some(raw) => match parse_usize(raw.as_str()) {
            None => Err(AppError::config(named(name, " must be a positive integer"))),
            Some(x) => if x == 0 {
                Err(AppError::config(named(name, " must be greater than zero")))
            } else {
                Ok(x)
            },
        },
    }
}

/// What `next_string` answers: the value, unless it is missing or blank.
pub open spec fn string_verdict(value: Option<Seq<char>>, message: Seq<char>) -> Result<Seq<char>, ErrorView> {
    match value {
        None => Err(config_error(message)),
        Some(s) => if all_ws(s) {
            Err(config_error(message))
        } else {
            Ok(s)
        },
    }
}

/// The value of a flag, which must not be missing or blank.
pub fn next_string(value: Option<String>, message: &str) -> (r: Result<String, AppError>)
    ensures
        str_result_is(r, string_verdict(opt_view(value), message@)),
{
    match value {
        None => Err(AppError::config(message.to_owned())),
        Some(s) => {
            let v = chars_of(s.as_str());
            if all_whitespace(&v) {
                Err(AppError::config(message.to_owned()))
            } else {
                Ok(s)
            }
        },
    }
}

/// `p` occurs in `s` at index `i`.
pub open spec fn occurs_at(s: Seq<char>, p: Seq<char>, i: int) -> bool {
    0 <= i && i + p.len() <= s.len() && s.subrange(i, i + p.len()) == p
}

/// `p` occurs at `i` and nowhere before.
pub open spec fn first_occurrence(s: Seq<char>, p: Seq<char>, i: int) -> bool {
    occurs_at(s, p, i) && forall|j: int| 0 <= j < i ==> !occurs_at(s, p, j)
}

/// The flag named in a message: what precedes its first `" requires"`, or
/// the whole message (`split_once(" requires")`).
pub open spec fn label_of(m: Seq<char>) -> Seq<char> {
    if exists|i: int| occurs_at(m, " requires"@, i) {
        m.take(choose|i: int| first_occurrence(m, " requires"@, i))
    } else {
        m
    }
}

fn matches_at(v: &Vec<char>, p: &Vec<char>, i: usize) -> (r: bool)
    ensures
        r == occurs_at(v@, p@, i as int),
{
    if i > v.len() || p.len() > v.len() - i {
        return false;
    }
    let mut k: usize = 0;
    while k < p.len()
        invariant
            i + p@.len() <= v@.len(),
            v@.len() <= usize::MAX,
            k <= p@.len(),
            forall|j: int| 0 <= j < k ==> v@[i + j] == p@[j],
        decreases p@.len() - k,
    {
        if v[i + k] != p[k] {
            assert(v@.subrange(i as int, i + p@.len())[k as int] != p@[k as int]);
            return false;
        }
        k = k + 1;
    }
    assert(v@.subrange(i as int, i + p@.len()) =~= p@);
    true
}

fn label_from(message: &str) -> (l: String)
    ensures
        l@ == label_of(message@),
{
    let m = chars_of(message);
    let p = chars_of(" requires");
    let mut i: usize = 0;
    while i < m.len()
        invariant
            m@ == message@,
            p@ == " requires"@,
            i <= m@.len(),
            forall|j: int| 0 <= j < i ==> !occurs_at(m@, p@, j),
        decreases m@.len() - i,
    {
        if matches_at(&m, &p, i) {
            proof {
                assert(first_occurrence(m@, p@, i as int));
                let w = choose|w: int| first_occurrence(m@, p@, w);
                assert(w == i) by {
                    if w < i {
                        assert(!occurs_at(m@, p@, w));
                    } else if w > i {
                        assert(occurs_at(m@, p@, i as int));
                    }
                }
            }
            return string_of(&m, 0, i);
        }
        i = i + 1;
    }
    assert forall|j: int| !occurs_at(m@, p@, j) by {
        if j >= m@.len() && occurs_at(m@, p@, j) {
            reveal_strlit(" requires");
            assert(p@.len() > 0);
        }
    }
    string_of(&m, 0, m.len())
}

/// What `absolute_path_arg` answers: the path, unless it is missing or is
/// not an unambiguous absolute path.
pub open spec fn absolute_path_verdict(value: Option<Seq<char>>, message: Seq<char>) -> Result<Seq<char>, ErrorView> {
    match value {
        None => Err(config_error(message)),
        Some(p) => match path_verdict(p, label_of(message)) {
            Ok(_) => Ok(p),
            Err(e) => Err(config_error(message + "; "@ + e)),
        },
    }
}

/// The value of a flag that names a local path.
pub fn absolute_path_arg(value: Option<String>, message: &str) -> (r: Result<String, AppError>)
    ensures
        str_result_is(r, absolute_path_verdict(opt_view(value), message@)),
{
    match value {
        None => Err(AppError::config(message.to_owned())),
        Some(path) => {
            let label = label_from(message);
            match validate_unambiguous_absolute_path(path.as_str(), label.as_str()) {
                Ok(()) => Ok(path),
                Err(e) => {
                    let mut m = message.to_owned();
                    append_str(&mut m, "; ");
                    append_str(&mut m, e.as_str());
                    Err(AppError::config(m))
                },
            }
        },
    }
}

} // verus!

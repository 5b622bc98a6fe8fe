//! Character classes and small string operations, each with the meaning
//! that Rust's `str` and `char` methods of the same name document.
use vstd::prelude::*;

verus! {

/// Unicode `White_Space` (PropList.txt): what `char::is_whitespace` tests
/// and what `str::trim` removes.
pub open spec fn is_ws(c: char) -> bool {
    let u = c as u32;
    ||| 0x09 <= u <= 0x0D
    ||| u == 0x20
    ||| u == 0x85
    ||| u == 0xA0
    ||| u == 0x1680
    ||| 0x2000 <= u <= 0x200A
    ||| u == 0x2028
    ||| u == 0x2029
    ||| u == 0x202F
    ||| u == 0x205F
    ||| u == 0x3000
}

/// General category `Cc`: what `char::is_control` tests.
pub open spec fn is_ctrl(c: char) -> bool {
    let u = c as u32;
    u <= 0x1F || (0x7F <= u <= 0x9F)
}

pub fn is_whitespace_char(c: char) -> (r: bool)
    ensures
        r == is_ws(c),
{
    let u = c as u32;
    (0x09 <= u && u <= 0x0D) || u == 0x20 || u == 0x85 || u == 0xA0 || u == 0x1680 || (0x2000
        <= u && u <= 0x200A) || u == 0x2028 || u == 0x2029 || u == 0x202F || u == 0x205F || u
        == 0x3000
}

pub fn is_control_char(c: char) -> (r: bool)
    ensures
        r == is_ctrl(c),
{
    let u = c as u32;
    u <= 0x1F || (0x7F <= u && u <= 0x9F)
}

/// Every character is whitespace: `s.trim().is_empty()`.
pub open spec fn all_ws(s: Seq<char>) -> bool {
    forall|i: int| 0 <= i < s.len() ==> is_ws(#[trigger] s[i])
}

/// Leading or trailing whitespace: `s.trim() != s`.
pub open spec fn has_outer_ws(s: Seq<char>) -> bool {
    s.len() > 0 && (is_ws(s[0]) || is_ws(s[s.len() - 1]))
}

/// Some character satisfies `p`.
pub open spec fn any_char(s: Seq<char>, p: spec_fn(char) -> bool) -> bool {
    exists|i: int| 0 <= i < s.len() && p(#[trigger] s[i])
}

/// The characters that a trim removes: `/` for `trim_matches('/')`,
/// whitespace for `trim`.
pub open spec fn trimmable(c: char, slash: bool) -> bool {
    if slash {
        c == '/'
    } else {
        is_ws(c)
    }
}

pub open spec fn seq_trim_start_by(s: Seq<char>, slash: bool) -> Seq<char>
    decreases s.len(),
{
    if s.len() > 0 && trimmable(s[0], slash) {
        seq_trim_start_by(s.drop_first(), slash)
    } else {
        s
    }
}

pub open spec fn seq_trim_end_by(s: Seq<char>, slash: bool) -> Seq<char>
    decreases s.len(),
{
    if s.len() > 0 && trimmable(s[s.len() - 1], slash) {
        seq_trim_end_by(s.drop_last(), slash)
    } else {
        s
    }
}

/// `str::trim`: leading and trailing whitespace removed.
pub open spec fn seq_trim(s: Seq<char>) -> Seq<char> {
    seq_trim_end_by(seq_trim_start_by(s, false), false)
}

/// `str::trim_matches('/')`: leading and trailing `/` removed.
pub open spec fn seq_trim_slashes(s: Seq<char>) -> Seq<char> {
    seq_trim_end_by(seq_trim_start_by(s, true), true)
}

pub open spec fn seq_ends_with(s: Seq<char>, p: Seq<char>) -> bool {
    p.len() <= s.len() && s.subrange(s.len() - p.len(), s.len() as int) == p
}

/// `s.to_ascii_lowercase().starts_with("s3://")`.
pub open spec fn starts_with_s3_scheme(s: Seq<char>) -> bool {
    &&& s.len() >= 5
    &&& (s[0] == 's' || s[0] == 'S')
    &&& s[1] == '3'
    &&& s[2] == ':'
    &&& s[3] == '/'
    &&& s[4] == '/'
}

pub fn chars_of(s: &str) -> (v: Vec<char>)
    ensures
        v@ == s@,
{
    let mut v: Vec<char> = Vec::new();
    for c in it: s.chars()
        invariant
            v@ == it.seq().take(it.index() as int),
            it.seq() == s@,
    {
        v.push(c);
    }
    v
}

/// Appends one character (`String::push`).
#[verifier::external_body]
pub(crate) fn push_char(s: &mut String, c: char)
    ensures
        final(s)@ == old(s)@.push(c),
{
    s.push(c);
}

/// Appends the characters `v[from..to]`.
pub fn push_chars(s: &mut String, v: &Vec<char>, from: usize, to: usize)
    requires
        from <= to <= v@.len(),
    ensures
        final(s)@ == old(s)@ + v@.subrange(from as int, to as int),
{
    let mut i = from;
    while i < to
        invariant
            from <= i <= to <= v@.len(),
            s@ == old(s)@ + v@.subrange(from as int, i as int),
        decreases to - i,
    {
        push_char(s, v[i]);
        i = i + 1;
        assert(v@.subrange(from as int, i as int) == v@.subrange(from as int, i - 1).push(
            v@[i - 1],
        ));
    }
}

pub fn string_of(v: &Vec<char>, from: usize, to: usize) -> (s: String)
    requires
        from <= to <= v@.len(),
    ensures
        s@ == v@.subrange(from as int, to as int),
{
    let mut s = String::new();
    push_chars(&mut s, v, from, to);
    s
}

pub fn append_str(s: &mut String, t: &str)
    ensures
        final(s)@ == old(s)@ + t@,
{
    s.append(t);
}

pub fn eq_str(a: &str, b: &str) -> (r: bool)
    ensures
        r == (a@ == b@),
{
    let va = chars_of(a);
    let vb = chars_of(b);
    if va.len() != vb.len() {
        return false;
    }
    let mut i: usize = 0;
    while i < va.len()
        invariant
            va@ == a@,
            vb@ == b@,
            va@.len() == vb@.len(),
            i <= va@.len(),
            forall|k: int| 0 <= k < i ==> va@[k] == vb@[k],
        decreases va@.len() - i,
    {
        if va[i] != vb[i] {
            return false;
        }
        i = i + 1;
    }
    assert(va@ =~= vb@);
    true
}

pub fn all_whitespace(v: &Vec<char>) -> (r: bool)
    ensures
        r == all_ws(v@),
{
    let mut i: usize = 0;
    while i < v.len()
        invariant
            i <= v@.len(),
            forall|k: int| 0 <= k < i ==> is_ws(v@[k]),
        decreases v@.len() - i,
    {
        if !is_whitespace_char(v[i]) {
            return false;
        }
        i = i + 1;
    }
    true
}

pub fn has_outer_whitespace(v: &Vec<char>) -> (r: bool)
    ensures
        r == has_outer_ws(v@),
{
    v.len() > 0 && (is_whitespace_char(v[0]) || is_whitespace_char(v[v.len() - 1]))
}

pub fn contains_char(v: &Vec<char>, c: char) -> (r: bool)
    ensures
        r == v@.contains(c),
{
    let mut i: usize = 0;
    while i < v.len()
        invariant
            i <= v@.len(),
            forall|k: int| 0 <= k < i ==> v@[k] != c,
        decreases v@.len() - i,
    {
        if v[i] == c {
            return true;
        }
        i = i + 1;
    }
    false
}

pub fn ends_with_chars(v: &Vec<char>, p: &Vec<char>) -> (r: bool)
    ensures
        r == seq_ends_with(v@, p@),
{
    if p.len() > v.len() {
        return false;
    }
    let off = v.len() - p.len();
    let mut i: usize = 0;
    while i < p.len()
        invariant
            off + p@.len() == v@.len(),
            v@.len() <= usize::MAX,
            i <= p@.len(),
            forall|k: int| 0 <= k < i ==> v@[off + k] == p@[k],
        decreases p@.len() - i,
    {
        if v[off + i] != p[i] {
            assert(v@.subrange(off as int, v@.len() as int)[i as int] != p@[i as int]);
            return false;
        }
        i = i + 1;
    }
    assert(v@.subrange(off as int, v@.len() as int) =~= p@);
    true
}

pub fn starts_with_s3_scheme_chars(v: &Vec<char>) -> (r: bool)
    ensures
        r == starts_with_s3_scheme(v@),
{
    v.len() >= 5 && (v[0] == 's' || v[0] == 'S') && v[1] == '3' && v[2] == ':' && v[3] == '/'
        && v[4] == '/'
}


proof fn lemma_trim_start_skip(s: Seq<char>, k: int, slash: bool)
    requires
        0 <= k <= s.len(),
        forall|j: int| 0 <= j < k ==> trimmable(#[trigger] s[j], slash),
    ensures
        seq_trim_start_by(s, slash) == seq_trim_start_by(s.subrange(k, s.len() as int), slash),
    decreases k,
{
    if k > 0 {
        assert(trimmable(s[0], slash));
        let t = s.drop_first();
        assert forall|j: int| 0 <= j < k - 1 implies trimmable(#[trigger] t[j], slash) by {
            assert(t[j] == s[j + 1]);
        }
        lemma_trim_start_skip(t, k - 1, slash);
        assert(t.subrange(k - 1, t.len() as int) =~= s.subrange(k, s.len() as int));
    } else {
        assert(s.subrange(0, s.len() as int) =~= s);
    }
}

proof fn lemma_trim_end_cut(s: Seq<char>, k: int, slash: bool)
    requires
        0 <= k <= s.len(),
        forall|j: int| k <= j < s.len() ==> trimmable(#[trigger] s[j], slash),
    ensures
        seq_trim_end_by(s, slash) == seq_trim_end_by(s.subrange(0, k), slash),
    decreases s.len() - k,
{
    if k < s.len() {
        assert(trimmable(s[s.len() - 1], slash));
        let t = s.drop_last();
        assert forall|j: int| k <= j < t.len() implies trimmable(#[trigger] t[j], slash) by {
            assert(t[j] == s[j]);
        }
        lemma_trim_end_cut(t, k, slash);
        assert(t.subrange(0, k) =~= s.subrange(0, k));
    } else {
        assert(s.subrange(0, k) =~= s);
    }
}

fn is_trimmable(c: char, slash: bool) -> (r: bool)
    ensures
        r == trimmable(c, slash),
{
    if slash {
        c == '/'
    } else {
        is_whitespace_char(c)
    }
}

/// The bounds `(a, b)` of the trimmed part of `v`: whitespace trimmed, or
/// `/` where `slash` is set.
pub fn trim_bounds(v: &Vec<char>, slash: bool) -> (r: (usize, usize))
    ensures
        r.0 <= r.1 <= v@.len(),
        v@.subrange(r.0 as int, r.1 as int) == seq_trim_end_by(seq_trim_start_by(v@, slash), slash),
{
    let n = v.len();
    let mut a: usize = 0;
    while a < n && is_trimmable(v[a], slash)
        invariant
            n == v@.len(),
            a <= n,
            forall|j: int| 0 <= j < a ==> trimmable(#[trigger] v@[j], slash),
        decreases n - a,
    {
        a = a + 1;
    }
    proof {
        lemma_trim_start_skip(v@, a as int, slash);
        let t = v@.subrange(a as int, n as int);
        if t.len() > 0 {
            assert(t[0] == v@[a as int]);
        }
        assert(seq_trim_start_by(t, slash) == t);
    }
    let mut b: usize = n;
    while b > a && is_trimmable(v[b - 1], slash)
        invariant
            n == v@.len(),
            a <= b <= n,
            forall|j: int| b <= j < n ==> trimmable(#[trigger] v@[j], slash),
        decreases b - a,
    {
        b = b - 1;
    }
    proof {
        let t = v@.subrange(a as int, n as int);
        assert forall|j: int| b - a <= j < t.len() implies trimmable(#[trigger] t[j], slash) by {
            assert(t[j] == v@[a + j]);
        }
        lemma_trim_end_cut(t, b - a, slash);
        let u = t.subrange(0, b - a);
        assert(u =~= v@.subrange(a as int, b as int));
        if u.len() > 0 {
            assert(u[u.len() - 1] == v@[b - 1]);
        }
        assert(seq_trim_end_by(u, slash) == u);
    }
    (a, b)
}

/// `s.trim().to_owned()`.
pub fn trim_owned(s: &str) -> (r: String)
    ensures
        r@ == seq_trim(s@),
{
    let v = chars_of(s);
    let (a, b) = trim_bounds(&v, false);
    string_of(&v, a, b)
}

/// Separators for `split`: `/` always, and `\` where `backslash` is set.
pub open spec fn is_sep(c: char, backslash: bool) -> bool {
    c == '/' || (backslash && c == '\\')
}

/// The pieces that `split` yields for the separators of `is_sep`.
pub open spec fn split_segments(s: Seq<char>, backslash: bool) -> Seq<Seq<char>>
    decreases s.len(),
{
    if s.len() == 0 {
        seq![Seq::<char>::empty()]
    } else {
        let rest = split_segments(s.drop_last(), backslash);
        let c = s[s.len() - 1];
        if is_sep(c, backslash) {
            rest.push(Seq::<char>::empty())
        } else {
            rest.update(rest.len() - 1, rest[rest.len() - 1].push(c))
        }
    }
}

/// `"."` or `".."`.
pub open spec fn is_period_segment(seg: Seq<char>) -> bool {
    seg == seq!['.'] || seg == seq!['.', '.']
}

pub open spec fn has_empty_segment(s: Seq<char>, backslash: bool) -> bool {
    exists|k: int|
        0 <= k < split_segments(s, backslash).len() && (#[trigger] split_segments(
            s,
            backslash,
        )[k]).len() == 0
}

pub open spec fn has_period_segment(s: Seq<char>, backslash: bool) -> bool {
    exists|k: int|
        0 <= k < split_segments(s, backslash).len() && is_period_segment(
            #[trigger] split_segments(s, backslash)[k],
        )
}

pub proof fn lemma_split_nonempty(s: Seq<char>, backslash: bool)
    ensures
        split_segments(s, backslash).len() >= 1,
    decreases s.len(),
{
    if s.len() > 0 {
        lemma_split_nonempty(s.drop_last(), backslash);
    }
}

fn is_sep_exec(c: char, backslash: bool) -> (r: bool)
    ensures
        r == is_sep(c, backslash),
{
    c == '/' || (backslash && c == '\\')
}

fn period_piece(v: &Vec<char>, a: usize, b: usize) -> (r: bool)
    requires
        a <= b <= v@.len(),
    ensures
        r == is_period_segment(v@.subrange(a as int, b as int)),
{
    let len = b - a;
    let r = (len == 1 && v[a] == '.') || (len == 2 && v[a] == '.' && v[a + 1] == '.');
    proof {
        let seg = v@.subrange(a as int, b as int);
        if len == 1 && v@[a as int] == '.' {
            assert(seg =~= seq!['.']);
        }
        if len == 2 && v@[a as int] == '.' && v@[a + 1] == '.' {
            assert(seg =~= seq!['.', '.']);
        }
        let one = seq!['.'];
        let two = seq!['.', '.'];
        assert(one.len() == 1 && one[0] == '.');
        assert(two.len() == 2 && two[0] == '.' && two[1] == '.');
        if seg == one {
            assert(seg[0] == v@[a as int]);
        }
        if seg == two {
            assert(seg[0] == v@[a as int]);
            assert(seg[1] == v@[a + 1]);
        }
    }
    r
}

/// Scans the pieces of `split`: whether one is empty, and whether one is
/// `"."` or `".."`.
pub fn scan_segments(v: &Vec<char>, backslash: bool) -> (r: (bool, bool))
    ensures
        r.0 == has_empty_segment(v@, backslash),
        r.1 == has_period_segment(v@, backslash),
{
    let n = v.len();
    let mut start: usize = 0;
    let mut i: usize = 0;
    let mut empty = false;
    let mut period = false;
    while i < n
        invariant
            n == v@.len(),
            start <= i <= n,
            split_segments(v@.take(i as int), backslash).len() >= 1,
            ({
                let segs = split_segments(v@.take(i as int), backslash);
                &&& segs[segs.len() - 1] == v@.subrange(start as int, i as int)
                &&& empty == exists|k: int| 0 <= k < segs.len() - 1 && (#[trigger] segs[k]).len() == 0
                &&& period == exists|k: int|
                    0 <= k < segs.len() - 1 && is_period_segment(#[trigger] segs[k])
            }),
        decreases n - i,
    {
        let ghost old_segs = split_segments(v@.take(i as int), backslash);
        let c = v[i];
        assert(v@.take(i + 1).drop_last() =~= v@.take(i as int));
        assert(v@.take(i + 1)[i as int] == c);
        if is_sep_exec(c, backslash) {
            let e = start == i;
            let p = period_piece(v, start, i);
            proof {
                let segs = split_segments(v@.take(i + 1), backslash);
                assert(segs == old_segs.push(Seq::<char>::empty()));
                assert(forall|k: int| 0 <= k < old_segs.len() ==> segs[k] == old_segs[k]);
                if e {
                    assert(segs[old_segs.len() - 1].len() == 0);
                }
                if p {
                    assert(is_period_segment(segs[old_segs.len() - 1]));
                }
                if empty {
                    let k = choose|k: int| 0 <= k < old_segs.len() - 1 && (#[trigger] old_segs[k]).len() == 0;
                    assert(segs[k].len() == 0);
                }
                if period {
                    let k = choose|k: int|
                        0 <= k < old_segs.len() - 1 && is_period_segment(#[trigger] old_segs[k]);
                    assert(is_period_segment(segs[k]));
                }
                assert(v@.subrange(i + 1, i + 1) =~= Seq::<char>::empty());
            }
            empty = empty || e;
            period = period || p;
            start = i + 1;
        } else {
            proof {
                let segs = split_segments(v@.take(i + 1), backslash);
                assert(segs.len() == old_segs.len());
                assert(forall|k: int| 0 <= k < old_segs.len() - 1 ==> segs[k] == old_segs[k]);
                assert(v@.subrange(start as int, i + 1) =~= v@.subrange(start as int, i as int).push(c));
                if empty {
                    let k = choose|k: int| 0 <= k < old_segs.len() - 1 && (#[trigger] old_segs[k]).len() == 0;
                    assert(segs[k].len() == 0);
                }
                if period {
                    let k = choose|k: int|
                        0 <= k < old_segs.len() - 1 && is_period_segment(#[trigger] old_segs[k]);
                    assert(is_period_segment(segs[k]));
                }
            }
        }
        i = i + 1;
    }
    let e = start == n;
    let p = period_piece(v, start, n);
    proof {
        assert(v@.take(n as int) =~= v@);
        let segs = split_segments(v@, backslash);
        if e {
            assert(segs[segs.len() - 1].len() == 0);
        }
        if p {
            assert(is_period_segment(segs[segs.len() - 1]));
        }
        if has_empty_segment(v@, backslash) && !empty {
            let k = choose|k: int| 0 <= k < segs.len() && (#[trigger] segs[k]).len() == 0;
            assert(k == segs.len() - 1);
        }
        if has_period_segment(v@, backslash) && !period {
            let k = choose|k: int| 0 <= k < segs.len() && is_period_segment(#[trigger] segs[k]);
            assert(k == segs.len() - 1);
        }
    }
    (empty || e, period || p)
}


/// The ASCII digit for `0 <= d < 10`.
pub open spec fn digit_char(d: int) -> char {
    (d + 48) as char
}

/// Decimal digits of `n`, as `{}` prints an unsigned integer.
pub open spec fn dec_chars(n: nat) -> Seq<char>
    decreases n,
{
    if n < 10 {
        seq![digit_char(n as int)]
    } else {
        dec_chars(n / 10).push(digit_char((n % 10) as int))
    }
}

/// `{}` of a signed integer.
pub open spec fn int_chars(x: int) -> Seq<char> {
    if x < 0 {
        seq!['-'] + dec_chars((-x) as nat)
    } else {
        dec_chars(x as nat)
    }
}

pub open spec fn zeros(k: int) -> Seq<char> {
    Seq::new(if k > 0 { k as nat } else { 0 }, |i: int| '0')
}

/// `{:0w}` of a signed integer: the sign first, then zeros up to width `w`.
pub open spec fn zero_pad(x: int, w: int) -> Seq<char> {
    let sign: Seq<char> = if x < 0 { seq!['-'] } else { Seq::empty() };
    let digits = dec_chars(if x < 0 { (-x) as nat } else { x as nat });
    sign + zeros(w - sign.len() - digits.len()) + digits
}

fn digit_of(d: u64) -> (c: char)
    requires
        d < 10,
    ensures
        c == digit_char(d as int),
{
    let b: u8 = (d as u8) + 48u8;
    b as char
}

pub fn push_decimal(s: &mut String, n: u64)
    ensures
        final(s)@ == old(s)@ + dec_chars(n as nat),
    decreases n,
{
    if n >= 10 {
        push_decimal(s, n / 10);
    }
    push_char(s, digit_of(n % 10));
    proof {
        if n >= 10 {
            assert(final(s)@ =~= old(s)@ + dec_chars(n as nat));
        } else {
            assert(final(s)@ =~= old(s)@ + dec_chars(n as nat));
        }
    }
}

pub fn decimal_len(n: u64) -> (r: usize)
    ensures
        r == dec_chars(n as nat).len(),
        1 <= r <= 20,
    decreases n,
{
    if n >= 10 {
        let r = decimal_len(n / 10);
        assert(n / 10 < 0x199999999999999a);
        if r >= 20 {
            proof { lemma_dec_len_bound((n / 10) as nat); }
        }
        r + 1
    } else {
        1
    }
}

proof fn lemma_dec_len_bound(n: nat)
    requires
        n < 0x199999999999999a,
    ensures
        dec_chars(n).len() <= 19,
    decreases n,
{
    if n >= 10 {
        lemma_dec_len_small((n / 10) as nat);
    }
}

proof fn lemma_dec_len_small(n: nat)
    requires
        n < 0x28f5c28f5c28f5d,
    ensures
        dec_chars(n).len() <= 18,
{
    lemma_dec_len_pow(n, 18);
}

spec fn pow10(k: nat) -> nat
    decreases k,
{
    if k == 0 {
        1
    } else {
        10 * pow10((k - 1) as nat)
    }
}

proof fn lemma_dec_len_pow(n: nat, k: nat)
    requires
        n < pow10(k) || (k == 18 && n < 0x28f5c28f5c28f5d),
    ensures
        dec_chars(n).len() <= if k == 0 { 1 } else { k },
    decreases k,
{
    reveal_with_fuel(pow10, 19);
    if n >= 10 && k > 0 {
        lemma_dec_len_pow(n / 10, (k - 1) as nat);
    }
}

/// Magnitude of a signed integer as an unsigned one.
pub fn magnitude(x: i64) -> (m: u64)
    ensures
        m == (if x < 0 { -x } else { x as int }),
{
    if x < 0 {
        ((-(x + 1)) as u64) + 1
    } else {
        x as u64
    }
}

pub fn push_int(s: &mut String, x: i64)
    ensures
        final(s)@ == old(s)@ + int_chars(x as int),
{
    if x < 0 {
        push_char(s, '-');
    }
    push_decimal(s, magnitude(x));
    proof {
        assert(final(s)@ =~= old(s)@ + int_chars(x as int));
    }
}

pub fn push_zero_padded(s: &mut String, x: i64, w: usize)
    ensures
        final(s)@ == old(s)@ + zero_pad(x as int, w as int),
{
    let m = magnitude(x);
    let len = decimal_len(m);
    let sign_len: usize = if x < 0 { 1 } else { 0 };
    let ghost s0 = s@;
    if x < 0 {
        push_char(s, '-');
    }
    let mut k: usize = 0;
    let pad: usize = if w > sign_len + len { w - sign_len - len } else { 0 };
    while k < pad
        invariant
            s@ == s0 + (if x < 0 { seq!['-'] } else { Seq::<char>::empty() }) + Seq::new(k as nat, |i: int| '0'),
            k <= pad,
        decreases pad - k,
    {
        push_char(s, '0');
        k = k + 1;
        assert(Seq::new(k as nat, |i: int| '0') =~= Seq::new((k - 1) as nat, |i: int| '0').push('0'));
    }
    push_decimal(s, m);
    proof {
        assert(zeros(w - (if x < 0 { 1int } else { 0int }) - dec_chars(m as nat).len()) =~= Seq::new(pad as nat, |i: int| '0'));
        assert(final(s)@ =~= old(s)@ + zero_pad(x as int, w as int));
    }
}

/// Lower-case hexadecimal digit for `0 <= d < 16`.
pub open spec fn hex_digit(d: int) -> char {
    if d < 10 {
        digit_char(d)
    } else {
        (d + 87) as char
    }
}

/// `{:x}` of a byte string: two lower-case digits per byte.
pub open spec fn hex_lower(b: Seq<u8>) -> Seq<char>
    decreases b.len(),
{
    if b.len() == 0 {
        Seq::empty()
    } else {
        let last = b[b.len() - 1];
        hex_lower(b.drop_last()) + seq![hex_digit((last / 16) as int), hex_digit((last % 16) as int)]
    }
}

/// A lower-case hexadecimal digit: `0`-`9` or `a`-`f`.
pub open spec fn is_lower_hex(c: char) -> bool {
    let u = c as u32;
    (48 <= u && u <= 57) || (97 <= u && u <= 102)
}

/// `{:x}` of a byte string has two digits per byte, each a lower-case
/// hexadecimal digit.
pub proof fn lemma_hex_lower_shape(b: Seq<u8>)
    ensures
        hex_lower(b).len() == 2 * b.len(),
        forall|k: int| 0 <= k < hex_lower(b).len() ==> is_lower_hex(#[trigger] hex_lower(b)[k]),
    decreases b.len(),
{
    if b.len() > 0 {
        lemma_hex_lower_shape(b.drop_last());
        let last = b[b.len() - 1];
        let r = hex_lower(b.drop_last());
        let h = hex_lower(b);
        let hi = (last / 16) as int;
        let lo = (last % 16) as int;
        assert(is_lower_hex(hex_digit(hi)));
        assert(is_lower_hex(hex_digit(lo)));
        assert forall|k: int| 0 <= k < h.len() implies is_lower_hex(#[trigger] h[k]) by {
            if k < r.len() {
                assert(h[k] == r[k]);
            } else if k == r.len() {
                assert(h[k] == hex_digit(hi));
            } else {
                assert(h[k] == hex_digit(lo));
            }
        }
    }
}

fn hex_digit_of(d: u8) -> (c: char)
    requires
        d < 16,
    ensures
        c == hex_digit(d as int),
{
    if d < 10 {
        (d + 48u8) as char
    } else {
        (d + 87u8) as char
    }
}

/// Appends `{:x}` of `b[0..n]`.
pub fn push_hex(s: &mut String, b: &[u8], n: usize)
    requires
        n <= b@.len(),
    ensures
        final(s)@ == old(s)@ + hex_lower(b@.take(n as int)),
{
    let mut i: usize = 0;
    while i < n
        invariant
            i <= n <= b@.len(),
            s@ == old(s)@ + hex_lower(b@.take(i as int)),
        decreases n - i,
    {
        let x = b[i];
        push_char(s, hex_digit_of(x / 16));
        push_char(s, hex_digit_of(x % 16));
        i = i + 1;
        assert(b@.take(i as int).drop_last() =~= b@.take(i - 1));
        assert(s@ =~= old(s)@ + hex_lower(b@.take(i as int)));
    }
}


fn utf8_width(c: char) -> (w: u128)
    ensures
        w == vstd::utf8::encode_scalar(c as u32).len(),
        1 <= w <= 4,
{
    proof {
        vstd::utf8::char_is_scalar(c);
    }
    let u = c as u32;
    if u <= 0x7F {
        1
    } else if u <= 0x7FF {
        2
    } else if u <= 0xFFFF {
        3
    } else {
        4
    }
}

/// The length in bytes of the UTF-8 encoding of `v` (`str::len`).
pub fn utf8_len(v: &Vec<char>) -> (n: u128)
    ensures
        n == vstd::utf8::encode_utf8(v@).len(),
{
    let mut i: usize = v.len();
    let mut acc: u128 = 0;
    assert(v@.skip(i as int) =~= Seq::<char>::empty());
    while i > 0
        invariant
            i <= v@.len(),
            acc == vstd::utf8::encode_utf8(v@.skip(i as int)).len(),
            acc <= 4 * (v@.len() - i),
            v@.len() <= usize::MAX,
        decreases i,
    {
        let w = utf8_width(v[i - 1]);
        assert(v@.skip(i - 1).drop_first() =~= v@.skip(i as int));
        assert(v@.skip(i - 1)[0] == v@[i - 1]);
        acc = acc + w;
        i = i - 1;
    }
    assert(v@.skip(0) =~= v@);
    acc
}


/// The UTF-8 encoding of a string with one more character is the old
/// encoding followed by the character's.
pub proof fn lemma_encode_utf8_push(s: Seq<char>, c: char)
    ensures
        vstd::utf8::encode_utf8(s.push(c)) == vstd::utf8::encode_utf8(s) + vstd::utf8::encode_scalar(
            c as u32,
        ),
    decreases s.len(),
{
    if s.len() == 0 {
        assert(s.push(c).drop_first() =~= Seq::<char>::empty());
        assert(s.push(c)[0] == c);
        assert(vstd::utf8::encode_utf8(Seq::<char>::empty()) =~= Seq::<u8>::empty());
        assert(vstd::utf8::encode_utf8(s) =~= Seq::<u8>::empty());
        assert(vstd::utf8::encode_utf8(s.push(c)) =~= vstd::utf8::encode_scalar(c as u32)
            + vstd::utf8::encode_utf8(Seq::<char>::empty()));
    } else {
        lemma_encode_utf8_push(s.drop_first(), c);
        assert(s.push(c).drop_first() =~= s.drop_first().push(c));
        assert(s.push(c)[0] == s[0]);
        assert(vstd::utf8::encode_utf8(s.push(c)) =~= vstd::utf8::encode_utf8(s)
            + vstd::utf8::encode_scalar(c as u32));
    }
}

/// A string that ends with a separator has an empty last piece.
pub proof fn lemma_trailing_sep_empty_segment(s: Seq<char>, backslash: bool)
    requires
        s.len() > 0,
        is_sep(s[s.len() - 1], backslash),
    ensures
        has_empty_segment(s, backslash),
{
    let segs = split_segments(s, backslash);
    assert(segs == split_segments(s.drop_last(), backslash).push(Seq::<char>::empty()));
    assert(segs[segs.len() - 1].len() == 0);
}


/// No control character and no backslash.
pub open spec fn key_chars_ok(s: Seq<char>) -> bool {
    forall|k: int| 0 <= k < s.len() ==> !is_ctrl(#[trigger] s[k]) && s[k] != '\\'
}

/// No `.` right after a `/`.
pub open spec fn dot_safe(s: Seq<char>) -> bool {
    forall|k: int| 1 <= k < s.len() && #[trigger] s[k] == '.' ==> s[k - 1] != '/'
}

/// The characters of a key piece that cannot make a bad key: see
/// `lemma_clean_no_period_segment`.
pub open spec fn clean(s: Seq<char>) -> bool {
    key_chars_ok(s) && dot_safe(s)
}

pub proof fn lemma_clean_concat(a: Seq<char>, b: Seq<char>)
    requires
        clean(a),
        clean(b),
        b.len() > 0 && b[0] == '.' ==> a.len() > 0 && a[a.len() - 1] != '/',
    ensures
        clean(a + b),
{
    let c = a + b;
    assert forall|k: int| 0 <= k < c.len() implies !is_ctrl(#[trigger] c[k]) && c[k] != '\\' by {
        if k < a.len() {
            assert(c[k] == a[k]);
        } else {
            assert(c[k] == b[k - a.len()]);
        }
    }
    assert forall|k: int| 1 <= k < c.len() && #[trigger] c[k] == '.' implies c[k - 1] != '/' by {
        if k < a.len() {
            assert(c[k] == a[k] && c[k - 1] == a[k - 1]);
        } else if k == a.len() {
            assert(c[k] == b[0]);
            assert(c[k - 1] == a[a.len() - 1]);
        } else {
            assert(c[k] == b[k - a.len()] && c[k - 1] == b[k - 1 - a.len()]);
        }
    }
}

/// A piece with no `/`, control character or backslash is clean.
pub proof fn lemma_slashless_clean(s: Seq<char>)
    requires
        forall|k: int| 0 <= k < s.len() ==> #[trigger] s[k] != '/' && !is_ctrl(s[k]) && s[k] != '\\',
    ensures
        clean(s),
{
    assert forall|k: int| 1 <= k < s.len() && #[trigger] s[k] == '.' implies s[k - 1] != '/' by {
        assert(s[k - 1] != '/');
    }
}

proof fn lemma_split_heads(s: Seq<char>)
    requires
        s.len() > 0 ==> s[0] != '.',
        dot_safe(s),
    ensures
        split_segments(s, false).len() >= 1,
        forall|k: int|
            0 <= k < split_segments(s, false).len() && (#[trigger] split_segments(s, false)[k]).len()
                > 0 ==> split_segments(s, false)[k][0] != '.',
        ({
            let segs = split_segments(s, false);
            segs[segs.len() - 1].len() == 0 ==> (s.len() == 0 || s[s.len() - 1] == '/')
        }),
    decreases s.len(),
{
    lemma_split_nonempty(s, false);
    if s.len() > 0 {
        let t = s.drop_last();
        assert forall|k: int| 1 <= k < t.len() && #[trigger] t[k] == '.' implies t[k - 1] != '/' by {
            assert(t[k] == s[k] && t[k - 1] == s[k - 1]);
        }
        if t.len() > 0 {
            assert(t[0] == s[0]);
        }
        lemma_split_heads(t);
        let st = split_segments(t, false);
        let ss = split_segments(s, false);
        let c = s[s.len() - 1];
        if c == '/' {
            assert(ss == st.push(Seq::<char>::empty()));
            assert forall|k: int| 0 <= k < ss.len() && (#[trigger] ss[k]).len() > 0 implies ss[k][0] != '.' by {
                assert(ss[k] == st[k]);
            }
        } else {
            let last = st[st.len() - 1];
            assert(ss == st.update(st.len() - 1, last.push(c)));
            if last.len() == 0 {
                if t.len() == 0 {
                    assert(c == s[0]);
                } else {
                    assert(s[s.len() - 2] == t[t.len() - 1]);
                    if c == '.' {
                        assert(s[s.len() - 1] == '.');
                    }
                }
            }
            assert forall|k: int| 0 <= k < ss.len() && (#[trigger] ss[k]).len() > 0 implies ss[k][0] != '.' by {
                if k < st.len() - 1 {
                    assert(ss[k] == st[k]);
                } else {
                    assert(ss[k] == last.push(c));
                    if last.len() > 0 {
                        assert(last.push(c)[0] == last[0]);
                    } else {
                        assert(last.push(c)[0] == c);
                    }
                }
            }
        }
    }
}

/// A clean string that does not start with `.` has no `.` or `..` piece.
pub proof fn lemma_clean_no_period_segment(s: Seq<char>)
    requires
        clean(s),
        s.len() > 0 ==> s[0] != '.',
    ensures
        !has_period_segment(s, false),
{
    lemma_split_heads(s);
    let segs = split_segments(s, false);
    if has_period_segment(s, false) {
        let k = choose|k: int| 0 <= k < segs.len() && is_period_segment(#[trigger] segs[k]);
        let one = seq!['.'];
        let two = seq!['.', '.'];
        assert(one.len() == 1 && one[0] == '.');
        assert(two.len() == 2 && two[0] == '.');
        assert(segs[k].len() > 0);
    }
}

/// UTF-8 encoding of a concatenation.
pub proof fn lemma_encode_utf8_concat(a: Seq<char>, b: Seq<char>)
    ensures
        vstd::utf8::encode_utf8(a + b) == vstd::utf8::encode_utf8(a) + vstd::utf8::encode_utf8(b),
    decreases b.len(),
{
    if b.len() == 0 {
        assert(a + b =~= a);
        assert(vstd::utf8::encode_utf8(b) =~= Seq::<u8>::empty());
        assert(vstd::utf8::encode_utf8(a) + vstd::utf8::encode_utf8(b) =~= vstd::utf8::encode_utf8(a));
    } else {
        let b0 = b.drop_last();
        let c = b[b.len() - 1];
        lemma_encode_utf8_concat(a, b0);
        assert(a + b =~= (a + b0).push(c));
        assert(b =~= b0.push(c));
        lemma_encode_utf8_push(a + b0, c);
        lemma_encode_utf8_push(b0, c);
        assert(vstd::utf8::encode_utf8(a + b) =~= vstd::utf8::encode_utf8(a) + vstd::utf8::encode_utf8(b));
    }
}

/// A character takes at most four bytes in UTF-8.
pub proof fn lemma_encode_utf8_len_bound(s: Seq<char>)
    ensures
        vstd::utf8::encode_utf8(s).len() <= 4 * s.len(),
    decreases s.len(),
{
    if s.len() > 0 {
        lemma_encode_utf8_len_bound(s.drop_first());
        let u = s[0] as u32;
        assert(vstd::utf8::encode_scalar(u).len() <= 4);
    }
}

/// The decimal digits of a number are digits.
pub proof fn lemma_dec_chars_digits(n: nat)
    ensures
        forall|k: int| 0 <= k < dec_chars(n).len() ==> '0' <= #[trigger] dec_chars(n)[k] <= '9',
    decreases n,
{
    if n >= 10 {
        lemma_dec_chars_digits(n / 10);
        let d = dec_chars(n);
        let r = dec_chars(n / 10);
        assert forall|k: int| 0 <= k < d.len() implies '0' <= #[trigger] d[k] <= '9' by {
            if k < r.len() {
                assert(d[k] == r[k]);
            }
        }
    }
}

/// The decimal digits of a number below ten billion are at most ten.
pub proof fn lemma_dec_chars_len_10(n: nat)
    requires
        n < 10_000_000_000,
    ensures
        dec_chars(n).len() <= 10,
{
    reveal_with_fuel(pow10, 11);
    assert(pow10(10) == 10_000_000_000);
    lemma_dec_len_pow(n, 10);
}

/// A zero-padded integer is digits after an optional sign.
pub proof fn lemma_zero_pad_plain(x: int, w: int)
    ensures
        forall|k: int|
            0 <= k < zero_pad(x, w).len() ==> #[trigger] zero_pad(x, w)[k] == '-' || '0' <= zero_pad(
                x,
                w,
            )[k] <= '9',
{
    let m: nat = if x < 0 { (-x) as nat } else { x as nat };
    lemma_dec_chars_digits(m);
    let z = zero_pad(x, w);
    let sign: Seq<char> = if x < 0 { seq!['-'] } else { Seq::empty() };
    let pad = zeros(w - sign.len() - dec_chars(m).len());
    assert(z == sign + pad + dec_chars(m));
    assert forall|k: int| 0 <= k < z.len() implies #[trigger] z[k] == '-' || '0' <= z[k] <= '9' by {
        if k < sign.len() {
            assert(z[k] == sign[k]);
        } else if k < sign.len() + pad.len() {
            assert(z[k] == pad[k - sign.len()]);
        } else {
            assert(z[k] == dec_chars(m)[k - sign.len() - pad.len()]);
        }
    }
}

/// The length of a zero-padded integer whose magnitude is below ten billion.
pub proof fn lemma_zero_pad_len(x: int, w: int)
    requires
        -10_000_000_000 < x < 10_000_000_000,
        0 <= w <= 11,
    ensures
        zero_pad(x, w).len() <= 11,
{
    let m: nat = if x < 0 { (-x) as nat } else { x as nat };
    lemma_dec_chars_len_10(m);
}


/// Splitting `a/b` gives the pieces of `a` followed by those of `b`.
pub proof fn lemma_split_concat_sep(a: Seq<char>, b: Seq<char>)
    ensures
        split_segments(a + seq!['/'] + b, false) == split_segments(a, false) + split_segments(b, false),
    decreases b.len(),
{
    let ab = a + seq!['/'] + b;
    if b.len() == 0 {
        assert(ab =~= a.push('/'));
        assert(ab.drop_last() =~= a);
        assert(split_segments(b, false) =~= seq![Seq::<char>::empty()]);
        assert(split_segments(ab, false) =~= split_segments(a, false) + split_segments(b, false));
    } else {
        let b0 = b.drop_last();
        let c = b[b.len() - 1];
        lemma_split_concat_sep(a, b0);
        lemma_split_nonempty(b0, false);
        assert(ab.drop_last() =~= a + seq!['/'] + b0);
        assert(ab[ab.len() - 1] == c);
        let sa = split_segments(a, false);
        let sb0 = split_segments(b0, false);
        if is_sep(c, false) {
            assert(split_segments(ab, false) =~= sa + sb0.push(Seq::<char>::empty()));
        } else {
            let sab0 = sa + sb0;
            assert(sab0[sab0.len() - 1] == sb0[sb0.len() - 1]);
            assert(split_segments(ab, false) =~= sa + sb0.update(
                sb0.len() - 1,
                sb0[sb0.len() - 1].push(c),
            ));
        }
    }
}

/// `a/b` has a `.` or `..` piece exactly when `a` or `b` has.
pub proof fn lemma_period_segment_concat_sep(a: Seq<char>, b: Seq<char>)
    ensures
        has_period_segment(a + seq!['/'] + b, false) <==> (has_period_segment(a, false)
            || has_period_segment(b, false)),
{
    lemma_split_concat_sep(a, b);
    let sa = split_segments(a, false);
    let sb = split_segments(b, false);
    let s = split_segments(a + seq!['/'] + b, false);
    if has_period_segment(a + seq!['/'] + b, false) {
        let k = choose|k: int| 0 <= k < s.len() && is_period_segment(#[trigger] s[k]);
        if k < sa.len() {
            assert(s[k] == sa[k]);
        } else {
            assert(s[k] == sb[k - sa.len()]);
        }
    }
    if has_period_segment(a, false) {
        let k = choose|k: int| 0 <= k < sa.len() && is_period_segment(#[trigger] sa[k]);
        assert(s[k] == sa[k]);
    }
    if has_period_segment(b, false) {
        let k = choose|k: int| 0 <= k < sb.len() && is_period_segment(#[trigger] sb[k]);
        assert(s[k + sa.len()] == sb[k]);
    }
}

/// `s[a..b]` is a `.` or `..` piece: it lies between two separators (or an
/// end of `s`) and is one or two dots.
pub open spec fn period_piece_at(s: Seq<char>, a: int, b: int, backslash: bool) -> bool {
    &&& 0 <= a && b <= s.len()
    &&& a == 0 || is_sep(s[a - 1], backslash)
    &&& b == s.len() || is_sep(s[b], backslash)
    &&& (b == a + 1 && s[a] == '.') || (b == a + 2 && s[a] == '.' && s[a + 1] == '.')
}

/// Where the last piece of `s` starts: just after its last separator.
pub open spec fn last_start(s: Seq<char>, backslash: bool) -> int
    decreases s.len(),
{
    if s.len() == 0 {
        0
    } else if is_sep(s[s.len() - 1], backslash) {
        s.len() as int
    } else {
        last_start(s.drop_last(), backslash)
    }
}

proof fn lemma_last_piece(s: Seq<char>, backslash: bool)
    ensures
        split_segments(s, backslash).len() >= 1,
        0 <= last_start(s, backslash) <= s.len(),
        last_start(s, backslash) == 0 || is_sep(s[last_start(s, backslash) - 1], backslash),
        forall|k: int| last_start(s, backslash) <= k < s.len() ==> !is_sep(#[trigger] s[k], backslash),
        split_segments(s, backslash)[split_segments(s, backslash).len() - 1] == s.subrange(
            last_start(s, backslash),
            s.len() as int,
        ),
    decreases s.len(),
{
    lemma_split_nonempty(s, backslash);
    if s.len() == 0 {
        assert(s.subrange(0, 0) =~= Seq::<char>::empty());
    } else {
        let t = s.drop_last();
        lemma_last_piece(t, backslash);
        let c = s[s.len() - 1];
        let ls = last_start(s, backslash);
        if is_sep(c, backslash) {
            assert(s.subrange(ls, s.len() as int) =~= Seq::<char>::empty());
        } else {
            assert forall|k: int| ls <= k < s.len() implies !is_sep(#[trigger] s[k], backslash) by {
                if k < t.len() {
                    assert(s[k] == t[k]);
                }
            }
            if ls > 0 {
                assert(s[ls - 1] == t[ls - 1]);
            }
            assert(s.subrange(ls, s.len() as int) =~= t.subrange(ls, t.len() as int).push(c));
        }
    }
}

/// The pieces of `s` before its last one (those followed by a separator)
/// include a `.` or `..` piece exactly when one ends before the end of `s`.
proof fn lemma_inner_period_pieces(s: Seq<char>, backslash: bool)
    ensures
        (exists|k: int|
            0 <= k < split_segments(s, backslash).len() - 1 && is_period_segment(
                #[trigger] split_segments(s, backslash)[k],
            )) <==> (exists|a: int, b: int| b < s.len() && #[trigger] period_piece_at(s, a, b, backslash)),
    decreases s.len(),
{
    lemma_split_nonempty(s, backslash);
    if s.len() > 0 {
        let t = s.drop_last();
        let c = s[s.len() - 1];
        lemma_inner_period_pieces(t, backslash);
        lemma_last_piece(t, backslash);
        let st = split_segments(t, backslash);
        let ss = split_segments(s, backslash);
        let ls = last_start(t, backslash);
        assert forall|a: int, b: int| b < t.len() implies (period_piece_at(s, a, b, backslash)
            <==> period_piece_at(t, a, b, backslash)) by {
            if 0 <= a && a <= b && b < t.len() {
                assert(s[b] == t[b]);
                assert(s[a] == t[a]);
                if a > 0 {
                    assert(s[a - 1] == t[a - 1]);
                }
                if a + 1 < t.len() {
                    assert(s[a + 1] == t[a + 1]);
                }
            }
        }
        if is_sep(c, backslash) {
            assert(ss == st.push(Seq::<char>::empty()));
            // the new complete piece is the last piece of t
            let lastp = st[st.len() - 1];
            assert(lastp == t.subrange(ls, t.len() as int));
            if is_period_segment(lastp) {
                let b = t.len() as int;
                assert(lastp.len() == t.len() - ls);
                if ls > 0 {
                    assert(s[ls - 1] == t[ls - 1]);
                }
                assert(s[b] == c);
                if lastp == seq!['.'] {
                    assert(lastp.len() == 1);
                    assert(t[ls] == lastp[0]);
                    assert(s[ls] == t[ls]);
                    assert(period_piece_at(s, ls, b, backslash));
                } else {
                    assert(lastp =~= seq!['.', '.']);
                    assert(lastp.len() == 2);
                    assert(t[ls] == lastp[0] && t[ls + 1] == lastp[1]);
                    assert(s[ls] == t[ls] && s[ls + 1] == t[ls + 1]);
                    assert(period_piece_at(s, ls, b, backslash));
                }
                assert(ss[st.len() - 1] == lastp);
            }
            if exists|a: int, b: int| b < s.len() && #[trigger] period_piece_at(s, a, b, backslash) {
                let (a, b) = choose|a: int, b: int| b < s.len() && #[trigger] period_piece_at(s, a, b, backslash);
                if b < t.len() {
                    assert(period_piece_at(t, a, b, backslash));
                } else {
                    assert(b == t.len());
                    if a < ls {
                        assert(t[ls - 1] == s[ls - 1]);
                        assert(s[ls - 1] == '.');
                    } else if a > ls {
                        assert(t[a - 1] == s[a - 1]);
                        assert(!is_sep(t[a - 1], backslash));
                    }
                    assert(a == ls);
                    if b == a + 1 {
                        assert(t.subrange(ls, t.len() as int) =~= seq!['.']);
                    } else {
                        assert(t.subrange(ls, t.len() as int) =~= seq!['.', '.']);
                    }
                    assert(is_period_segment(ss[st.len() - 1]));
                }
            }
            if exists|k: int| 0 <= k < st.len() - 1 && is_period_segment(#[trigger] st[k]) {
                let k = choose|k: int| 0 <= k < st.len() - 1 && is_period_segment(#[trigger] st[k]);
                assert(ss[k] == st[k]);
            }
            if exists|k: int| 0 <= k < ss.len() - 1 && is_period_segment(#[trigger] ss[k]) {
                let k = choose|k: int| 0 <= k < ss.len() - 1 && is_period_segment(#[trigger] ss[k]);
                assert(ss[k] == st[k]);
                if k < st.len() - 1 {
                    assert(exists|k: int| 0 <= k < st.len() - 1 && is_period_segment(#[trigger] st[k]));
                }
            }
            if exists|a: int, b: int| b < t.len() && #[trigger] period_piece_at(t, a, b, backslash) {
                let (a, b) = choose|a: int, b: int| b < t.len() && #[trigger] period_piece_at(t, a, b, backslash);
                assert(period_piece_at(s, a, b, backslash));
            }
        } else {
            let lastp = st[st.len() - 1];
            assert(ss == st.update(st.len() - 1, lastp.push(c)));
            if exists|k: int| 0 <= k < ss.len() - 1 && is_period_segment(#[trigger] ss[k]) {
                let k = choose|k: int| 0 <= k < ss.len() - 1 && is_period_segment(#[trigger] ss[k]);
                assert(ss[k] == st[k]);
            }
            if exists|k: int| 0 <= k < st.len() - 1 && is_period_segment(#[trigger] st[k]) {
                let k = choose|k: int| 0 <= k < st.len() - 1 && is_period_segment(#[trigger] st[k]);
                assert(ss[k] == st[k]);
            }
            if exists|a: int, b: int| b < s.len() && #[trigger] period_piece_at(s, a, b, backslash) {
                let (a, b) = choose|a: int, b: int| b < s.len() && #[trigger] period_piece_at(s, a, b, backslash);
                if b == t.len() {
                    assert(s[b] == c);
                }
                assert(b < t.len());
                assert(period_piece_at(t, a, b, backslash));
            }
            if exists|a: int, b: int| b < t.len() && #[trigger] period_piece_at(t, a, b, backslash) {
                let (a, b) = choose|a: int, b: int| b < t.len() && #[trigger] period_piece_at(t, a, b, backslash);
                assert(period_piece_at(s, a, b, backslash));
            }
        }
    }
}

/// `s` has a `.` or `..` piece, in the sense of `split`, exactly when some
/// `s[a..b]` between two separators (or the ends of `s`) is `.` or `..`.
pub proof fn lemma_period_segment_is_dot_piece(s: Seq<char>, backslash: bool)
    ensures
        has_period_segment(s, backslash) <==> exists|a: int, b: int| #[trigger] period_piece_at(
            s,
            a,
            b,
            backslash,
        ),
{
    lemma_inner_period_pieces(s, backslash);
    lemma_last_piece(s, backslash);
    let ss = split_segments(s, backslash);
    let ls = last_start(s, backslash);
    let lastp = ss[ss.len() - 1];
    if has_period_segment(s, backslash) {
        let k = choose|k: int| 0 <= k < ss.len() && is_period_segment(#[trigger] ss[k]);
        if k == ss.len() - 1 {
            let b = s.len() as int;
            assert(lastp.len() == s.len() - ls);
            if lastp == seq!['.'] {
                assert(lastp.len() == 1);
                assert(s[ls] == lastp[0]);
            } else {
                assert(lastp =~= seq!['.', '.']);
                assert(lastp.len() == 2);
                assert(s[ls] == lastp[0] && s[ls + 1] == lastp[1]);
            }
            assert(period_piece_at(s, ls, b, backslash));
        }
    }
    if exists|a: int, b: int| #[trigger] period_piece_at(s, a, b, backslash) {
        let (a, b) = choose|a: int, b: int| #[trigger] period_piece_at(s, a, b, backslash);
        if b == s.len() {
            if a < ls {
                assert(s[ls - 1] == '.');
            } else if a > ls {
                assert(!is_sep(s[a - 1], backslash));
            }
            assert(a == ls);
            if b == a + 1 {
                assert(s.subrange(ls, s.len() as int) =~= seq!['.']);
            } else {
                assert(s.subrange(ls, s.len() as int) =~= seq!['.', '.']);
            }
            assert(is_period_segment(ss[ss.len() - 1]));
        } else {
            assert(b < s.len() && period_piece_at(s, a, b, backslash));
            let k = choose|k: int| 0 <= k < ss.len() - 1 && is_period_segment(#[trigger] ss[k]);
            assert(is_period_segment(ss[k]));
        }
    }
}

} // verus!

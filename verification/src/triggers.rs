//! The set of changed triggers of a run, kept in the order of `BTreeSet<String>`.
use crate::text::{chars_of, seq_trim, trim_owned};
use crate::types::strs;
use vstd::prelude::*;

verus! {

/// Lexicographic order by code point: the order of `String` (UTF-8 keeps
/// the order of code points byte for byte).
pub open spec fn lex_lt(a: Seq<char>, b: Seq<char>) -> bool
    decreases a.len(),
{
    if a.len() == 0 {
        b.len() > 0
    } else if b.len() == 0 {
        false
    } else if a[0] != b[0] {
        a[0] < b[0]
    } else {
        lex_lt(a.drop_first(), b.drop_first())
    }
}

/// Strictly ascending: sorted, with no element twice.
pub open spec fn sorted_strict(s: Seq<Seq<char>>) -> bool {
    forall|i: int, j: int| 0 <= i < j < s.len() ==> lex_lt(#[trigger] s[i], #[trigger] s[j])
}

pub proof fn lemma_lex_irreflexive(a: Seq<char>)
    ensures
        !lex_lt(a, a),
    decreases a.len(),
{
    if a.len() > 0 {
        lemma_lex_irreflexive(a.drop_first());
    }
}

pub proof fn lemma_lex_transitive(a: Seq<char>, b: Seq<char>, c: Seq<char>)
    requires
        lex_lt(a, b),
        lex_lt(b, c),
    ensures
        lex_lt(a, c),
    decreases a.len(),
{
    if a.len() > 0 && b.len() > 0 && c.len() > 0 && a[0] == b[0] && b[0] == c[0] {
        lemma_lex_transitive(a.drop_first(), b.drop_first(), c.drop_first());
    }
}

pub proof fn lemma_lex_total(a: Seq<char>, b: Seq<char>)
    requires
        a != b,
    ensures
        lex_lt(a, b) || lex_lt(b, a),
    decreases a.len(),
{
    if a.len() > 0 && b.len() > 0 {
        if a[0] == b[0] {
            if a.drop_first() == b.drop_first() {
                assert(a =~= seq![a[0]] + a.drop_first());
                assert(b =~= seq![b[0]] + b.drop_first());
            }
            lemma_lex_total(a.drop_first(), b.drop_first());
        }
    } else if a.len() == 0 && b.len() == 0 {
        assert(a =~= b);
    }
}

pub proof fn lemma_lex_asymmetric(a: Seq<char>, b: Seq<char>)
    requires
        lex_lt(a, b),
    ensures
        !lex_lt(b, a),
{
    if lex_lt(b, a) {
        lemma_lex_transitive(a, b, a);
        lemma_lex_irreflexive(a);
    }
}

/// `a < b` in the order of `String`.
pub fn lex_less(a: &Vec<char>, b: &Vec<char>) -> (r: bool)
    ensures
        r == lex_lt(a@, b@),
{
    let mut i: usize = 0;
    assert(a@.skip(0) =~= a@);
    assert(b@.skip(0) =~= b@);
    while i < a.len() && i < b.len() && a[i] == b[i]
        invariant
            i <= a@.len(),
            i <= b@.len(),
            lex_lt(a@, b@) == lex_lt(a@.skip(i as int), b@.skip(i as int)),
        decreases a@.len() - i,
    {
        proof {
            let x = a@.skip(i as int);
            let y = b@.skip(i as int);
            assert(x[0] == y[0]);
            assert(x.drop_first() =~= a@.skip(i + 1));
            assert(y.drop_first() =~= b@.skip(i + 1));
        }
        i = i + 1;
    }
    let ghost x = a@.skip(i as int);
    let ghost y = b@.skip(i as int);
    if i == a.len() {
        assert(x.len() == 0);
        i < b.len()
    } else if i == b.len() {
        assert(y.len() == 0);
        false
    } else {
        assert(x[0] == a@[i as int] && y[0] == b@[i as int]);
        a[i] < b[i]
    }
}

fn chars_eq(a: &Vec<char>, b: &Vec<char>) -> (r: bool)
    ensures
        r == (a@ == b@),
{
    if a.len() != b.len() {
        return false;
    }
    let mut i: usize = 0;
    while i < a.len()
        invariant
            a@.len() == b@.len(),
            i <= a@.len(),
            forall|k: int| 0 <= k < i ==> a@[k] == b@[k],
        decreases a@.len() - i,
    {
        if a[i] != b[i] {
            return false;
        }
        i = i + 1;
    }
    assert(a@ =~= b@);
    true
}

proof fn lemma_sorted_tail_contains(s: Seq<Seq<char>>, x: Seq<char>)
    requires
        sorted_strict(s),
        s.len() > 0,
    ensures
        s.drop_first().contains(x) <==> (s.contains(x) && x != s[0]),
{
    let t = s.drop_first();
    if t.contains(x) {
        let k = choose|k: int| 0 <= k < t.len() && t[k] == x;
        assert(s[k + 1] == x);
        assert(lex_lt(s[0], s[k + 1]));
        lemma_lex_irreflexive(x);
    }
    if s.contains(x) && x != s[0] {
        let k = choose|k: int| 0 <= k < s.len() && s[k] == x;
        assert(k > 0);
        assert(t[k - 1] == x);
    }
}

/// Two strictly ascending sequences with the same elements are equal: a set
/// of triggers has one order.
pub proof fn lemma_sorted_set_unique(s1: Seq<Seq<char>>, s2: Seq<Seq<char>>)
    requires
        sorted_strict(s1),
        sorted_strict(s2),
        forall|x: Seq<char>| s1.contains(x) <==> s2.contains(x),
    ensures
        s1 == s2,
    decreases s1.len(),
{
    if s1.len() == 0 {
        if s2.len() > 0 {
            assert(s2.contains(s2[0]));
        }
        assert(s1 =~= s2);
    } else {
        assert(s1.contains(s1[0]));
        assert(s2.contains(s1[0]));
        let k = choose|k: int| 0 <= k < s2.len() && s2[k] == s1[0];
        assert(s2.contains(s2[0]));
        assert(s1.contains(s2[0]));
        let j = choose|j: int| 0 <= j < s1.len() && s1[j] == s2[0];
        if k > 0 {
            assert(lex_lt(s2[0], s2[k]));
            if j > 0 {
                assert(lex_lt(s1[0], s1[j]));
                lemma_lex_asymmetric(s1[0], s1[j]);
            } else {
                lemma_lex_irreflexive(s1[0]);
            }
        }
        assert(s2[0] == s1[0]);
        let t1 = s1.drop_first();
        let t2 = s2.drop_first();
        assert forall|x: Seq<char>| t1.contains(x) <==> t2.contains(x) by {
            lemma_sorted_tail_contains(s1, x);
            lemma_sorted_tail_contains(s2, x);
        }
        assert(sorted_strict(t1)) by {
            assert forall|a: int, b: int| 0 <= a < b < t1.len() implies lex_lt(
                #[trigger] t1[a],
                #[trigger] t1[b],
            ) by {
                assert(t1[a] == s1[a + 1] && t1[b] == s1[b + 1]);
            }
        }
        assert(sorted_strict(t2)) by {
            assert forall|a: int, b: int| 0 <= a < b < t2.len() implies lex_lt(
                #[trigger] t2[a],
                #[trigger] t2[b],
            ) by {
                assert(t2[a] == s2[a + 1] && t2[b] == s2[b + 1]);
            }
        }
        lemma_sorted_set_unique(t1, t2);
        assert(s1 =~= seq![s1[0]] + t1);
        assert(s2 =~= seq![s2[0]] + t2);
    }
}

/// The changed triggers of a run as a set iterates them: ascending, each
/// once.
pub open spec fn changed_seq(raw: Seq<Seq<char>>) -> Seq<Seq<char>> {
    choose|s: Seq<Seq<char>>|
        sorted_strict(s) && forall|x: Seq<char>| s.contains(x) <==> is_changed_trigger(raw, x)
}

/// A set of triggers, ascending with no duplicates, as a `BTreeSet<String>`
/// holds and iterates them. It is kept as a sorted vector: vstd's
/// `BTreeSet` specifications hold only for keys whose order obeys
/// `obeys_cmp`, which vstd does not establish for `String`, and they leave
/// the order of iteration unspecified.
#[derive(Debug)]
pub struct TriggerSet {
    items: Vec<String>,
}

impl View for TriggerSet {
    type V = Seq<Seq<char>>;

    closed spec fn view(&self) -> Seq<Seq<char>> {
        strs(self.items@)
    }
}

pub open spec fn keys_view(keys: Seq<Vec<char>>) -> Seq<Seq<char>> {
    keys.map_values(|k: Vec<char>| k@)
}

impl TriggerSet {
    /// The triggers are held ascending, each once.
    #[verifier::type_invariant]
    spec fn well_formed(self) -> bool {
        sorted_strict(strs(self.items@))
    }

    /// The set of the values (`BTreeSet::from_iter`).
    pub fn from_values(values: &Vec<String>) -> (t: TriggerSet)
        ensures
            sorted_strict(t@),
            forall|x: Seq<char>| t@.contains(x) <==> strs(values@).contains(x),
    {
        let ghost vs = strs(values@);
        let mut keys: Vec<Vec<char>> = Vec::new();
        let mut items: Vec<String> = Vec::new();
        let mut i: usize = 0;
        while i < values.len()
            invariant
                i <= values@.len(),
                vs == strs(values@),
                keys_view(keys@) == strs(items@),
                sorted_strict(strs(items@)),
                forall|x: Seq<char>| strs(items@).contains(x) <==> vs.take(i as int).contains(x),
            decreases values@.len() - i,
        {
            let ghost kv = strs(items@);
            let v = chars_of(values[i].as_str());
            assert(vs[i as int] == v@);
            let mut p: usize = 0;
            while p < keys.len() && lex_less(&keys[p], &v)
                invariant
                    p <= keys@.len(),
                    keys_view(keys@) == kv,
                    forall|j: int| 0 <= j < p ==> lex_lt(#[trigger] kv[j], v@),
                decreases keys@.len() - p,
            {
                assert(kv[p as int] == keys@[p as int]@);
                p = p + 1;
            }
            let dup = p < keys.len() && chars_eq(&keys[p], &v);
            if !dup {
                proof {
                    if p < keys@.len() {
                        assert(kv[p as int] == keys@[p as int]@);
                        assert(!lex_lt(kv[p as int], v@));
                        lemma_lex_total(kv[p as int], v@);
                    }
                }
                let s = values[i].clone();
                assert(keys@.len() == keys_view(keys@).len());
                keys.insert(p, v);
                items.insert(p, s);
                proof {
                    let nv = strs(items@);
                    assert(nv =~= kv.insert(p as int, v@));
                    assert(keys_view(keys@) =~= nv);
                    assert forall|a: int, b: int| 0 <= a < b < nv.len() implies lex_lt(
                        #[trigger] nv[a],
                        #[trigger] nv[b],
                    ) by {
                        if b < p {
                            assert(nv[a] == kv[a] && nv[b] == kv[b]);
                        } else if b == p {
                            assert(nv[a] == kv[a]);
                        } else if a == p {
                            assert(nv[b] == kv[b - 1]);
                            if b - 1 > p {
                                lemma_lex_transitive(v@, kv[p as int], kv[b - 1]);
                            }
                        } else if a < p {
                            assert(nv[a] == kv[a] && nv[b] == kv[b - 1]);
                            if b - 1 > p {
                                lemma_lex_transitive(v@, kv[p as int], kv[b - 1]);
                            }
                            lemma_lex_transitive(kv[a], v@, kv[b - 1]);
                        } else {
                            assert(nv[a] == kv[a - 1] && nv[b] == kv[b - 1]);
                        }
                    }
                    let t1 = vs.take(i + 1);
                    let t0 = vs.take(i as int);
                    assert(t1 =~= t0.push(v@));
                    assert forall|x: Seq<char>| nv.contains(x) <==> t1.contains(x) by {
                        if nv.contains(x) {
                            let a = choose|a: int| 0 <= a < nv.len() && #[trigger] nv[a] == x;
                            if a == p {
                                assert(t1[i as int] == x);
                            } else {
                                let a0 = if a < p { a } else { a - 1 };
                                assert(kv[a0] == x);
                                assert(kv.contains(x));
                                assert(t0.contains(x));
                                let b = choose|b: int| 0 <= b < t0.len() && #[trigger] t0[b] == x;
                                assert(t1[b] == x);
                            }
                        }
                        if t1.contains(x) {
                            let b = choose|b: int| 0 <= b < t1.len() && #[trigger] t1[b] == x;
                            if b < i {
                                assert(t0[b] == x);
                                assert(t0.contains(x));
                                assert(kv.contains(x));
                                let a = choose|a: int| 0 <= a < kv.len() && #[trigger] kv[a] == x;
                                if a < p {
                                    assert(nv[a] == x);
                                } else {
                                    assert(nv[a + 1] == x);
                                }
                            } else {
                                assert(nv[p as int] == x);
                            }
                        }
                    }
                }
            } else {
                proof {
                    assert(kv[p as int] == keys@[p as int]@);
                    assert forall|x: Seq<char>| kv.contains(x) <==> vs.take(i + 1).contains(x) by {
                        assert(vs.take(i + 1) =~= vs.take(i as int).push(v@));
                        let t1 = vs.take(i + 1);
                        let t0 = vs.take(i as int);
                        if t1.contains(x) {
                            let a = choose|a: int| 0 <= a < t1.len() && #[trigger] t1[a] == x;
                            if a < i {
                                assert(t0[a] == x);
                            }
                        }
                        if t0.contains(x) {
                            let a = choose|a: int| 0 <= a < t0.len() && #[trigger] t0[a] == x;
                            assert(t1[a] == x);
                        }
                    }
                }
            }
            i = i + 1;
        }
        assert(vs.take(values@.len() as int) =~= vs);
        TriggerSet { items }
    }

    /// The triggers, ascending (`iter().cloned().collect()`).
    pub fn to_vec(&self) -> (v: Vec<String>)
        ensures
            strs(v@) == self@,
            sorted_strict(strs(v@)),
    {
        proof {
            use_type_invariant(self);
        }
        let mut v: Vec<String> = Vec::new();
        let mut i: usize = 0;
        while i < self.items.len()
            invariant
                i <= self.items@.len(),
                v@ == self.items@.take(i as int),
            decreases self.items@.len() - i,
        {
            v.push(self.items[i].clone());
            i = i + 1;
            assert(v@ =~= self.items@.take(i as int));
        }
        assert(v@ =~= self.items@);
        v
    }

    pub fn len(&self) -> (n: usize)
        ensures
            n == self@.len(),
            sorted_strict(self@),
    {
        proof {
            use_type_invariant(self);
        }
        self.items.len()
    }

    pub fn is_empty(&self) -> (b: bool)
        ensures
            b == (self@.len() == 0),
            sorted_strict(self@),
    {
        proof {
            use_type_invariant(self);
        }
        self.items.len() == 0
    }

    /// Whether the set holds `t`.
    pub fn contains(&self, t: &str) -> (b: bool)
        ensures
            b == self@.contains(t@),
            sorted_strict(self@),
    {
        proof {
            use_type_invariant(self);
        }
        let mut i: usize = 0;
        while i < self.items.len()
            invariant
                i <= self.items@.len(),
                forall|k: int| 0 <= k < i ==> strs(self.items@)[k] != t@,
                sorted_strict(strs(self.items@)),
            decreases self.items@.len() - i,
        {
            if crate::text::eq_str(self.items[i].as_str(), t) {
                assert(strs(self.items@)[i as int] == t@);
                return true;
            }
            i = i + 1;
        }
        false
    }
}

/// The triggers of a run: each given trigger without outer whitespace,
/// those left empty dropped.
pub open spec fn is_changed_trigger(raw: Seq<Seq<char>>, x: Seq<char>) -> bool {
    x.len() > 0 && exists|i: int| 0 <= i < raw.len() && seq_trim(#[trigger] raw[i]) == x
}

/// The set of changed triggers: trimmed, non-empty, ascending, each once.
pub fn changed_trigger_set(raw: &Vec<String>) -> (t: TriggerSet)
    ensures
        sorted_strict(t@),
        forall|x: Seq<char>| t@.contains(x) <==> is_changed_trigger(strs(raw@), x),
        t@ == changed_seq(strs(raw@)),
{
    let ghost rv = strs(raw@);
    let mut trimmed: Vec<String> = Vec::new();
    let mut i: usize = 0;
    while i < raw.len()
        invariant
            i <= raw@.len(),
            rv == strs(raw@),
            forall|x: Seq<char>|
                strs(trimmed@).contains(x) <==> is_changed_trigger(rv.take(i as int), x),
        decreases raw@.len() - i,
    {
        let ghost before = strs(trimmed@);
        let t = trim_owned(raw[i].as_str());
        assert(rv[i as int] == raw@[i as int]@);
        let keep = chars_of(t.as_str()).len() > 0;
        if keep {
            trimmed.push(t);
        }
        proof {
            let after = strs(trimmed@);
            if keep {
                assert(after =~= before.push(t@));
            } else {
                assert(after =~= before);
            }
            assert forall|x: Seq<char>| after.contains(x) <==> is_changed_trigger(rv.take(i + 1), x) by {
                let r1 = rv.take(i + 1);
                let r0 = rv.take(i as int);
                assert(r1[i as int] == rv[i as int]);
                if is_changed_trigger(r0, x) {
                    let k = choose|k: int| 0 <= k < r0.len() && seq_trim(#[trigger] r0[k]) == x;
                    assert(r1[k] == r0[k]);
                }
                if is_changed_trigger(r1, x) {
                    let k = choose|k: int| 0 <= k < r1.len() && seq_trim(#[trigger] r1[k]) == x;
                    if k < i {
                        assert(r0[k] == r1[k]);
                    }
                }
                if after.contains(x) && !before.contains(x) {
                    assert(keep);
                    assert(after[after.len() - 1] == x) by {
                        let a = choose|a: int| 0 <= a < after.len() && after[a] == x;
                        if a < after.len() - 1 {
                            assert(before[a] == x);
                        }
                    }
                }
                if before.contains(x) {
                    let a = choose|a: int| 0 <= a < before.len() && before[a] == x;
                    assert(after[a] == x);
                }
                if keep && x == t@ {
                    assert(after[after.len() - 1] == x);
                }
            }
        }
        i = i + 1;
    }
    assert(rv.take(raw@.len() as int) =~= rv);
    let t = TriggerSet::from_values(&trimmed);
    proof {
        let c = changed_seq(rv);
        assert(sorted_strict(t@) && forall|x: Seq<char>| t@.contains(x) <==> is_changed_trigger(rv, x));
        lemma_sorted_set_unique(t@, c);
    }
    t
}

} // verus!

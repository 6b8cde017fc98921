//! Byte-slice primitives shared by every parser: split at a delimiter,
//! trim a set of bytes, and their compositions.

use vstd::prelude::*;
use vstd::slice::slice_subrange;

verus! {

/// True when `e` occurs in `s` starting at index `i`.
pub open spec fn occurs_at(s: Seq<u8>, e: Seq<u8>, i: int) -> bool {
    0 <= i && i + e.len() <= s.len() && s.subrange(i, i + e.len()) == e
}

/// The first index at or after `i` where `e` occurs in `s`.
pub open spec fn first_occurrence_from(s: Seq<u8>, e: Seq<u8>, i: int) -> Option<int>
    decreases s.len() + 1 - i,
{
    if i < 0 || i + e.len() > s.len() {
        None
    } else if occurs_at(s, e, i) {
        Some(i)
    } else {
        first_occurrence_from(s, e, i + 1)
    }
}

/// `separate(S, E)`: the parts before and after the first occurrence of `E`;
/// nothing when `|S| <= |E|` or `E` does not occur.
pub open spec fn separate_spec(s: Seq<u8>, e: Seq<u8>) -> Option<(Seq<u8>, Seq<u8>)> {
    if s.len() <= e.len() {
        None
    } else {
        match first_occurrence_from(s, e, 0) {
            Some(i) => Some((s.subrange(0, i), s.subrange(i + e.len(), s.len() as int))),
            None => None,
        }
    }
}

/// `s` without its leading bytes that are members of `t`.
pub open spec fn trim_start_spec(s: Seq<u8>, t: Seq<u8>) -> Seq<u8>
    decreases s.len(),
{
    if s.len() > 0 && t.contains(s[0]) {
        trim_start_spec(s.drop_first(), t)
    } else {
        s
    }
}

/// `s` without its trailing bytes that are members of `t`.
pub open spec fn trim_end_spec(s: Seq<u8>, t: Seq<u8>) -> Seq<u8>
    decreases s.len(),
{
    if s.len() > 0 && t.contains(s.last()) {
        trim_end_spec(s.drop_last(), t)
    } else {
        s
    }
}

/// `trim(S, E)`: `S` without the leading and trailing bytes that are members of `E`.
pub open spec fn trim_spec(s: Seq<u8>, t: Seq<u8>) -> Seq<u8> {
    trim_end_spec(trim_start_spec(s, t), t)
}

/// `separate_trimmed(S, E, T)`: `separate` followed by trimming both parts.
pub open spec fn separate_trimmed_spec(s: Seq<u8>, e: Seq<u8>, t: Seq<u8>) -> Option<(Seq<u8>, Seq<u8>)> {
    match separate_spec(s, e) {
        Some((l, r)) => Some((trim_spec(l, t), trim_spec(r, t))),
        None => None,
    }
}

/// `while_separate(S, E)`: like `separate`, but a non-empty `S` in which `E`
/// does not split yields `(S, [])`; an empty `S` yields nothing.
pub open spec fn while_separate_spec(s: Seq<u8>, e: Seq<u8>) -> Option<(Seq<u8>, Seq<u8>)> {
    if s.len() == 0 {
        None
    } else {
        match separate_spec(s, e) {
            Some(p) => Some(p),
            None => Some((s, Seq::<u8>::empty())),
        }
    }
}

/// `while_separate_trimmed(S, E, T)`: `while_separate` followed by trimming both parts.
pub open spec fn while_separate_trimmed_spec(s: Seq<u8>, e: Seq<u8>, t: Seq<u8>) -> Option<(Seq<u8>, Seq<u8>)> {
    match while_separate_spec(s, e) {
        Some((l, r)) => Some((trim_spec(l, t), trim_spec(r, t))),
        None => None,
    }
}

/// True when `s` begins with `p`.
pub open spec fn starts_with_spec(s: Seq<u8>, p: Seq<u8>) -> bool {
    p.len() <= s.len() && s.subrange(0, p.len() as int) == p
}

/// Whether `e` occurs in `s` at index `i`, compared byte by byte.
fn matches_at(s: &[u8], e: &[u8], i: usize) -> (r: bool)
    requires
        i + e@.len() <= s@.len(),
    ensures
        r == occurs_at(s@, e@, i as int),
{
    let n = s.len();
    let mut k: usize = 0;
    while k < e.len()
        invariant
            n == s@.len(),
            i + e@.len() <= n,
            k <= e@.len(),
            forall|j: int| 0 <= j < k ==> s@[i + j] == e@[j],
        decreases e@.len() - k,
    {
        if s[i + k] != e[k] {
            assert(s@.subrange(i as int, i + e@.len())[k as int] != e@[k as int]);
            return false;
        }
        k = k + 1;
    }
    assert(s@.subrange(i as int, i + e@.len()) =~= e@);
    true
}

/// True when `s` begins with `p`.
pub fn starts_with(s: &[u8], p: &[u8]) -> (r: bool)
    ensures
        r == starts_with_spec(s@, p@),
{
    if p.len() > s.len() {
        return false;
    }
    let r = matches_at(s, p, 0);
    r
}

/// True when `s` and `p` hold the same bytes.
pub fn bytes_equal(s: &[u8], p: &[u8]) -> (r: bool)
    ensures
        r == (s@ == p@),
{
    if s.len() != p.len() {
        return false;
    }
    let r = matches_at(s, p, 0);
    assert(s@.subrange(0, p@.len() as int) =~= s@);
    r
}

/// Whether the byte `b` is one of `t`.
pub fn contains_byte(t: &[u8], b: u8) -> (r: bool)
    ensures
        r == t@.contains(b),
{
    let mut k: usize = 0;
    while k < t.len()
        invariant
            k <= t@.len(),
            forall|j: int| 0 <= j < k ==> t@[j] != b,
        decreases t@.len() - k,
    {
        if t[k] == b {
            assert(t@[k as int] == b);
            return true;
        }
        k = k + 1;
    }
    false
}

/// Splits `s` at the first occurrence of `e`, which is dropped.
pub fn separate<'a>(s: &'a [u8], e: &[u8]) -> (r: Option<(&'a [u8], &'a [u8])>)
    ensures
        match r {
            Some((a, b)) => separate_spec(s@, e@) == Some((a@, b@)),
            None => separate_spec(s@, e@) is None,
        },
{
    let n = s.len();
    let w = e.len();
    if n <= w {
        return None;
    }
    if w == 0 {
        assert(occurs_at(s@, e@, 0)) by {
            assert(s@.subrange(0, 0) =~= e@);
        }
        let a = slice_subrange(s, 0, 0);
        return Some((a, s));
    }
    let mut i: usize = 0;
    while i < n
        invariant
            n == s@.len(),
            w == e@.len(),
            0 < w < n,
            i <= n,
            first_occurrence_from(s@, e@, 0) == first_occurrence_from(s@, e@, i as int),
        decreases n - i,
    {
        if w > n - i {
            return None;
        }
        if matches_at(s, e, i) {
            let a = slice_subrange(s, 0, i);
            let b = slice_subrange(s, i + w, n);
            return Some((a, b));
        }
        i = i + 1;
    }
    None
}

/// Removes from both ends of `s` the bytes that are members of `t`.
pub fn trim<'a>(s: &'a [u8], t: &[u8]) -> (r: &'a [u8])
    ensures
        r@ == trim_spec(s@, t@),
{
    let n = s.len();
    let mut start: usize = 0;
    assert(s@.subrange(0, n as int) =~= s@);
    while start < n && contains_byte(t, s[start])
        invariant
            n == s@.len(),
            start <= n,
            trim_start_spec(s@, t@) == trim_start_spec(s@.subrange(start as int, n as int), t@),
        decreases n - start,
    {
        assert(s@.subrange(start as int, n as int).drop_first() =~= s@.subrange(start + 1, n as int));
        start = start + 1;
    }
    let ghost rest = s@.subrange(start as int, n as int);
    let mut end: usize = n;
    while end > start && contains_byte(t, s[end - 1])
        invariant
            n == s@.len(),
            start <= end <= n,
            rest == s@.subrange(start as int, n as int),
            trim_end_spec(rest, t@) == trim_end_spec(s@.subrange(start as int, end as int), t@),
        decreases end,
    {
        assert(s@.subrange(start as int, end as int).drop_last() =~= s@.subrange(start as int, end - 1));
        end = end - 1;
    }
    slice_subrange(s, start, end)
}

/// `separate` followed by trimming both parts with `t`.
pub fn separate_trimmed<'a>(s: &'a [u8], e: &[u8], t: &[u8]) -> (r: Option<(&'a [u8], &'a [u8])>)
    ensures
        match r {
            Some((a, b)) => separate_trimmed_spec(s@, e@, t@) == Some((a@, b@)),
            None => separate_trimmed_spec(s@, e@, t@) is None,
        },
{
    match separate(s, e) {
        Some((a, b)) => Some((trim(a, t), trim(b, t))),
        None => None,
    }
}

/// Like `separate`, but a non-empty `s` in which `e` does not split yields
/// `(s, [])`, so that a loop over it also consumes the last token.
pub fn while_separate<'a>(s: &'a [u8], e: &[u8]) -> (r: Option<(&'a [u8], &'a [u8])>)
    ensures
        match r {
            Some((a, b)) => while_separate_spec(s@, e@) == Some((a@, b@)),
            None => while_separate_spec(s@, e@) is None,
        },
{
    if s.len() == 0 {
        return None;
    }
    match separate(s, e) {
        Some(p) => Some(p),
        None => {
            let empty = slice_subrange(s, s.len(), s.len());
            assert(empty@ =~= Seq::<u8>::empty());
            Some((s, empty))
        },
    }
}

/// `while_separate` followed by trimming both parts with `t`.
pub fn while_separate_trimmed<'a>(s: &'a [u8], e: &[u8], t: &[u8]) -> (r: Option<(&'a [u8], &'a [u8])>)
    ensures
        match r {
            Some((a, b)) => while_separate_trimmed_spec(s@, e@, t@) == Some((a@, b@)),
            None => while_separate_trimmed_spec(s@, e@, t@) is None,
        },
{
    match while_separate(s, e) {
        Some((a, b)) => Some((trim(a, t), trim(b, t))),
        None => None,
    }
}

/// The parts before and after the first occurrence of the single byte `x`.
pub open spec fn separate_byte_spec(s: Seq<u8>, x: u8) -> Option<(Seq<u8>, Seq<u8>)> {
    match first_occurrence_from(s, seq![x], 0) {
        Some(i) => Some((s.subrange(0, i), s.subrange(i + 1, s.len() as int))),
        None => None,
    }
}

/// Splits `s` at the first occurrence of the byte `elem`, which is dropped.
pub fn separate_value<'a>(s: &'a [u8], elem: u8) -> (r: Option<(&'a [u8], &'a [u8])>)
    ensures
        match r {
            Some((a, b)) => separate_byte_spec(s@, elem) == Some((a@, b@)),
            None => separate_byte_spec(s@, elem) is None,
        },
{
    let n = s.len();
    let mut i: usize = 0;
    while i < n
        invariant
            n == s@.len(),
            i <= n,
            first_occurrence_from(s@, seq![elem], 0) == first_occurrence_from(s@, seq![elem], i as int),
        decreases n - i,
    {
        if s[i] == elem {
            assert(s@.subrange(i as int, i + 1) =~= seq![elem]);
            return Some((slice_subrange(s, 0, i), slice_subrange(s, i + 1, n)));
        }
        assert(s@.subrange(i as int, i + 1)[0] != seq![elem][0]);
        i = i + 1;
    }
    None
}

/// Removes from both ends of `s` every byte equal to `value`.
pub fn trim_value<'a>(s: &'a [u8], value: u8) -> (r: &'a [u8])
    ensures
        r@ == trim_spec(s@, seq![value]),
{
    let t: [u8; 1] = [value];
    let r = trim(s, t.as_slice());
    assert(t@ =~= seq![value]);
    r
}

/// `separate_value` followed by removing `value` from both ends of both parts.
pub fn separate_trimmed_value<'a>(s: &'a [u8], elem: u8, value: u8) -> (r: Option<(&'a [u8], &'a [u8])>)
    ensures
        match r {
            Some((a, b)) => match separate_byte_spec(s@, elem) {
                Some((l, rr)) => a@ == trim_spec(l, seq![value]) && b@ == trim_spec(rr, seq![value]),
                None => false,
            },
            None => separate_byte_spec(s@, elem) is None,
        },
{
    match separate_value(s, elem) {
        Some((a, b)) => Some((trim_value(a, value), trim_value(b, value))),
        None => None,
    }
}

proof fn lemma_trim_start_shape(s: Seq<u8>, t: Seq<u8>)
    ensures
        trim_start_spec(s, t).len() == 0 || !t.contains(trim_start_spec(s, t)[0]),
    decreases s.len(),
{
    if s.len() > 0 && t.contains(s[0]) {
        lemma_trim_start_shape(s.drop_first(), t);
    }
}

proof fn lemma_trim_end_shape(s: Seq<u8>, t: Seq<u8>)
    ensures
        trim_end_spec(s, t).len() <= s.len(),
        trim_end_spec(s, t) == s.subrange(0, trim_end_spec(s, t).len() as int),
        trim_end_spec(s, t).len() == 0 || !t.contains(trim_end_spec(s, t).last()),
    decreases s.len(),
{
    if s.len() > 0 && t.contains(s.last()) {
        lemma_trim_end_shape(s.drop_last(), t);
        assert(s.drop_last().subrange(0, trim_end_spec(s, t).len() as int)
            =~= s.subrange(0, trim_end_spec(s, t).len() as int));
    } else {
        assert(s.subrange(0, s.len() as int) =~= s);
    }
}

/// Trimming is idempotent: trimming an already trimmed slice with the same
/// set of bytes changes nothing.
pub proof fn lemma_trim_idempotent(s: Seq<u8>, t: Seq<u8>)
    ensures
        trim_spec(trim_spec(s, t), t) == trim_spec(s, t),
{
    let a = trim_start_spec(s, t);
    let r = trim_spec(s, t);
    lemma_trim_start_shape(s, t);
    lemma_trim_end_shape(a, t);
    if r.len() > 0 {
        assert(r[0] == a[0]);
    }
    assert(trim_start_spec(r, t) == r);
    assert(trim_end_spec(r, t) == r);
}

proof fn lemma_first_occurrence_is_first(s: Seq<u8>, e: Seq<u8>, i: int)
    requires
        0 <= i,
    ensures
        match first_occurrence_from(s, e, i) {
            Some(k) => i <= k && occurs_at(s, e, k) && forall|j: int| i <= j < k ==> !occurs_at(s, e, j),
            None => forall|j: int| i <= j ==> !occurs_at(s, e, j),
        },
    decreases s.len() + 1 - i,
{
    if i + e.len() > s.len() {
    } else if occurs_at(s, e, i) {
    } else {
        lemma_first_occurrence_is_first(s, e, i + 1);
    }
}

/// `separate` is left-biased: it splits at the first occurrence of the
/// delimiter, no earlier occurrence exists, and the input is the left part,
/// the delimiter and the right part in order.
pub proof fn lemma_separate_first_match(s: Seq<u8>, e: Seq<u8>)
    ensures
        match separate_spec(s, e) {
            Some((l, r)) => {
                &&& s == l + e + r
                &&& occurs_at(s, e, l.len() as int)
                &&& forall|j: int| 0 <= j < l.len() ==> !occurs_at(s, e, j)
            },
            None => s.len() <= e.len() || forall|j: int| 0 <= j ==> !occurs_at(s, e, j),
        },
{
    lemma_first_occurrence_is_first(s, e, 0);
    if let Some((l, r)) = separate_spec(s, e) {
        let k = l.len() as int;
        assert(s.subrange(k, k + e.len()) == e);
        assert(s =~= l + e + r);
    }
}

/// The index of the first occurrence of `e` in `s`.
pub fn find(s: &[u8], e: &[u8]) -> (r: Option<usize>)
    ensures
        match r {
            Some(i) => first_occurrence_from(s@, e@, 0) == Some(i as int),
            None => first_occurrence_from(s@, e@, 0) is None,
        },
{
    let n = s.len();
    let w = e.len();
    let mut i: usize = 0;
    while i <= n
        invariant
            n == s@.len(),
            w == e@.len(),
            i <= n + 1,
            first_occurrence_from(s@, e@, 0) == first_occurrence_from(s@, e@, i as int),
        decreases n + 1 - i,
    {
        if w > n - i {
            return None;
        }
        proof {
            if w == 0 {
                assert(s@.subrange(i as int, i as int) =~= e@);
            }
        }
        if matches_at(s, e, i) {
            return Some(i);
        }
        if i == n {
            return None;
        }
        i = i + 1;
    }
    None
}

/// The remainder after a split is shorter than the input.
pub proof fn lemma_separate_byte_shrinks(s: Seq<u8>, x: u8)
    ensures
        separate_byte_spec(s, x) matches Some((a, b)) ==> a.len() < s.len() && b.len() < s.len(),
{
    lemma_first_occurrence_is_first(s, seq![x], 0);
}

/// An occurrence found from `i` on lies within `s`.
pub proof fn lemma_first_occurrence_bounds(s: Seq<u8>, e: Seq<u8>, i: int)
    requires
        0 <= i,
    ensures
        first_occurrence_from(s, e, i) matches Some(k) ==> i <= k && k + e.len() <= s.len(),
{
    lemma_first_occurrence_is_first(s, e, i);
}

proof fn lemma_trim_start_len(s: Seq<u8>, t: Seq<u8>)
    ensures
        trim_start_spec(s, t).len() <= s.len(),
    decreases s.len(),
{
    if s.len() > 0 && t.contains(s[0]) {
        lemma_trim_start_len(s.drop_first(), t);
    }
}

/// Trimming never lengthens.
pub proof fn lemma_trim_len(s: Seq<u8>, t: Seq<u8>)
    ensures
        trim_spec(s, t).len() <= s.len(),
{
    lemma_trim_start_len(s, t);
    lemma_trim_end_shape(trim_start_spec(s, t), t);
}

/// With a non-empty delimiter, what is left after `while_separate_trimmed`
/// is shorter than the input, so a loop over it ends.
pub proof fn lemma_while_separate_trimmed_shrinks(s: Seq<u8>, e: Seq<u8>, t: Seq<u8>)
    requires
        e.len() > 0,
    ensures
        while_separate_trimmed_spec(s, e, t) matches Some((a, b)) ==> b.len() < s.len() && a.len() <= s.len(),
{
    lemma_first_occurrence_is_first(s, e, 0);
    if let Some((l, r)) = while_separate_spec(s, e) {
        lemma_trim_len(l, t);
        lemma_trim_len(r, t);
    }
}

/// The tokens of `s` between occurrences of `e`, each trimmed with `t`; a
/// non-empty tail without `e` is the last token.
pub open spec fn tokens_of(s: Seq<u8>, e: Seq<u8>, t: Seq<u8>) -> Seq<Seq<u8>>
    decreases s.len(),
{
    match while_separate_trimmed_spec(s, e, t) {
        None => Seq::<Seq<u8>>::empty(),
        Some((l, r)) => if r.len() < s.len() {
            seq![l] + tokens_of(r, e, t)
        } else {
            seq![l]
        },
    }
}

} // verus!

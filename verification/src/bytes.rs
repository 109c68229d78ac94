//! Byte-level scanning primitives shared by request parsing and response
//! framing: whitespace classes, case folding, substring search, trimming.
use vstd::prelude::*;

verus! {

/// ASCII whitespace, the byte-level image of `char::is_whitespace` on ASCII.
pub open spec fn is_ws_b(b: u8) -> bool {
    b == 32 || (9 <= b <= 13)
}

/// ASCII lower-casing of a single byte.
pub open spec fn lower(b: u8) -> u8 {
    if 65 <= b <= 90 {
        (b + 32) as u8
    } else {
        b
    }
}

pub fn is_ws(b: u8) -> (r: bool)
    ensures
        r == is_ws_b(b),
{
    b == 32 || (9 <= b && b <= 13)
}

pub fn to_lower(b: u8) -> (r: u8)
    ensures
        r == lower(b),
{
    if 65 <= b && b <= 90 {
        b + 32
    } else {
        b
    }
}

/// Position of the first occurrence of byte `c` in `s` at or after `i`.
pub open spec fn find_byte_at(s: Seq<u8>, c: u8, i: int) -> Option<int>
    decreases s.len() - i
        when 0 <= i <= s.len()
{
    if i >= s.len() {
        None
    } else if s[i] == c {
        Some(i)
    } else {
        find_byte_at(s, c, i + 1)
    }
}

pub fn find_byte_from(s: &Vec<u8>, c: u8, i: usize) -> (r: Option<usize>)
    requires
        i <= s.len(),
    ensures
        match r {
            Some(j) => find_byte_at(s@, c, i as int) == Some(j as int) && i <= j < s.len(),
            None => find_byte_at(s@, c, i as int) is None,
        },
    decreases s.len() - i,
{
    if i >= s.len() {
        None
    } else if s[i] == c {
        Some(i)
    } else {
        find_byte_from(s, c, i + 1)
    }
}

/// `find_byte_at` yields the position of the first occurrence, within bounds.
pub proof fn lemma_find_byte_range(s: Seq<u8>, c: u8, i: int)
    requires
        0 <= i <= s.len(),
    ensures
        match find_byte_at(s, c, i) {
            Some(j) => i <= j < s.len() && s[j] == c && (forall|t: int| i <= t < j ==> s[t] != c),
            None => forall|t: int| i <= t < s.len() ==> s[t] != c,
        },
    decreases s.len() - i,
{
    if i < s.len() && s[i] != c {
        lemma_find_byte_range(s, c, i + 1);
    }
}

/// `pat` occurs in `s` starting at position `i`.
pub open spec fn is_match(s: Seq<u8>, pat: Seq<u8>, i: int) -> bool {
    0 <= i && i + pat.len() <= s.len() && (forall|k: int|
        0 <= k < pat.len() ==> s[i + k] == pat[k])
}

/// Position of the first occurrence of `pat` in `s` at or after `i`.
pub open spec fn find_sub_at(s: Seq<u8>, pat: Seq<u8>, i: int) -> Option<int>
    decreases s.len() - i
        when 0 <= i <= s.len()
{
    if i + pat.len() > s.len() {
        None
    } else if is_match(s, pat, i) {
        Some(i)
    } else {
        find_sub_at(s, pat, i + 1)
    }
}

/// `find_sub_at` yields the position of the first match, within bounds.
pub proof fn lemma_find_sub_range(s: Seq<u8>, pat: Seq<u8>, i: int)
    requires
        0 <= i <= s.len(),
    ensures
        match find_sub_at(s, pat, i) {
            Some(j) => i <= j && j + pat.len() <= s.len() && is_match(s, pat, j) && (forall|t: int|
                i <= t < j ==> !(#[trigger] is_match(s, pat, t))),
            None => forall|t: int| i <= t < s.len() ==> !(#[trigger] is_match(s, pat, t)),
        },
    decreases s.len() - i,
{
    if i + pat.len() <= s.len() && !is_match(s, pat, i) {
        lemma_find_sub_range(s, pat, i + 1);
    }
}

/// `skip_ws_at` stays within bounds and lands on the first non-blank byte.
pub proof fn lemma_skip_ws_range(s: Seq<u8>, i: int)
    requires
        0 <= i <= s.len(),
    ensures
        i <= skip_ws_at(s, i) <= s.len(),
        skip_ws_at(s, i) < s.len() ==> !is_ws_b(s[skip_ws_at(s, i)]),
        forall|t: int| i <= t < skip_ws_at(s, i) ==> is_ws_b(s[t]),
    decreases s.len() - i,
{
    if i < s.len() && is_ws_b(s[i]) {
        lemma_skip_ws_range(s, i + 1);
    }
}

/// `tok_end_at` stays within bounds and lands on the first blank byte.
pub proof fn lemma_tok_end_range(s: Seq<u8>, i: int)
    requires
        0 <= i <= s.len(),
    ensures
        i <= tok_end_at(s, i) <= s.len(),
        tok_end_at(s, i) < s.len() ==> is_ws_b(s[tok_end_at(s, i)]),
        forall|t: int| i <= t < tok_end_at(s, i) ==> !is_ws_b(s[t]),
    decreases s.len() - i,
{
    if i < s.len() && !is_ws_b(s[i]) {
        lemma_tok_end_range(s, i + 1);
    }
}

/// Pins `find_byte_at` to `j` when `j` holds `c` and no earlier position does.
pub proof fn lemma_find_byte_value(s: Seq<u8>, c: u8, i: int, j: int)
    requires
        0 <= i <= j < s.len(),
        s[j] == c,
        forall|t: int| i <= t < j ==> s[t] != c,
    ensures
        find_byte_at(s, c, i) == Some(j),
{
    lemma_find_byte_range(s, c, i);
    match find_byte_at(s, c, i) {
        None => {
            assert(s[j] == c);
        },
        Some(jj) => {
            if jj < j {
                assert(s[jj] != c);
            }
            if jj > j {
                assert(s[j] != c);
            }
        },
    }
}

/// Pins `find_byte_at` to none when no position at or after `i` holds `c`.
pub proof fn lemma_find_byte_none(s: Seq<u8>, c: u8, i: int)
    requires
        0 <= i <= s.len(),
        forall|t: int| i <= t < s.len() ==> s[t] != c,
    ensures
        find_byte_at(s, c, i) is None,
{
    lemma_find_byte_range(s, c, i);
    if let Some(j) = find_byte_at(s, c, i) {
        assert(s[j] != c);
    }
}

/// Pins `skip_ws_at` to `j` when `[i, j)` is all whitespace and `j` is not.
pub proof fn lemma_skip_ws_value(s: Seq<u8>, i: int, j: int)
    requires
        0 <= i <= j <= s.len(),
        forall|t: int| i <= t < j ==> is_ws_b(s[t]),
        j == s.len() || !is_ws_b(s[j]),
    ensures
        skip_ws_at(s, i) == j,
{
    lemma_skip_ws_range(s, i);
    let v = skip_ws_at(s, i);
    if v < j {
        assert(is_ws_b(s[v]));
    }
    if v > j {
        assert(is_ws_b(s[j]));
    }
}

/// Pins `tok_end_at` to `j` when `[i, j)` has no whitespace and `j` does.
pub proof fn lemma_tok_end_value(s: Seq<u8>, i: int, j: int)
    requires
        0 <= i <= j <= s.len(),
        forall|t: int| i <= t < j ==> !is_ws_b(s[t]),
        j == s.len() || is_ws_b(s[j]),
    ensures
        tok_end_at(s, i) == j,
{
    lemma_tok_end_range(s, i);
    let v = tok_end_at(s, i);
    if v < j {
        assert(!is_ws_b(s[v]));
    }
    if v > j {
        assert(!is_ws_b(s[j]));
    }
}

/// Pins `find_sub_at` to `j` when `j` matches and no earlier position does.
pub proof fn lemma_find_sub_value(s: Seq<u8>, pat: Seq<u8>, i: int, j: int)
    requires
        0 <= i <= j,
        is_match(s, pat, j),
        forall|t: int| i <= t < j ==> !is_match(s, pat, t),
    ensures
        find_sub_at(s, pat, i) == Some(j),
{
    lemma_find_sub_range(s, pat, i);
    match find_sub_at(s, pat, i) {
        None => {
            assert(is_match(s, pat, j));
        },
        Some(jj) => {
            if jj < j {
                assert(!is_match(s, pat, jj));
            }
            if jj > j {
                assert(!is_match(s, pat, j));
            }
        },
    }
}

fn match_tail(s: &Vec<u8>, pat: &Vec<u8>, i: usize, k: usize) -> (r: bool)
    requires
        k <= pat.len(),
        i + pat.len() <= s.len(),
    ensures
        r == (forall|t: int| k <= t < pat@.len() ==> s@[i + t] == pat@[t]),
    decreases pat.len() - k,
{
    if k >= pat.len() {
        true
    } else if s[i + k] == pat[k] {
        match_tail(s, pat, i, k + 1)
    } else {
        false
    }
}

pub fn matches_at(s: &Vec<u8>, pat: &Vec<u8>, i: usize) -> (r: bool)
    requires
        i + pat.len() <= s.len(),
    ensures
        r == is_match(s@, pat@, i as int),
{
    match_tail(s, pat, i, 0)
}

pub fn find_sub_from(s: &Vec<u8>, pat: &Vec<u8>, i: usize) -> (r: Option<usize>)
    requires
        i <= s.len(),
    ensures
        match r {
            Some(j) => find_sub_at(s@, pat@, i as int) == Some(j as int) && i <= j && j
                + pat.len() <= s.len(),
            None => find_sub_at(s@, pat@, i as int) is None,
        },
    decreases s.len() - i,
{
    if pat.len() > s.len() - i {
        None
    } else if matches_at(s, pat, i) {
        Some(i)
    } else {
        find_sub_from(s, pat, i + 1)
    }
}

/// `s` begins with `p`.
pub open spec fn has_prefix(s: Seq<u8>, p: Seq<u8>) -> bool {
    p.len() <= s.len() && (forall|k: int| 0 <= k < p.len() ==> s[k] == p[k])
}

/// `s` begins with `p` up to ASCII case of `s`.
pub open spec fn ci_has_prefix(s: Seq<u8>, p: Seq<u8>) -> bool {
    p.len() <= s.len() && (forall|k: int| 0 <= k < p.len() ==> lower(s[k]) == p[k])
}

fn prefix_tail(s: &Vec<u8>, p: &Vec<u8>, k: usize, ci: bool) -> (r: bool)
    requires
        p.len() <= s.len(),
        k <= p.len(),
    ensures
        ci ==> r == (forall|t: int| k <= t < p@.len() ==> lower(s@[t]) == p@[t]),
        !ci ==> r == (forall|t: int| k <= t < p@.len() ==> s@[t] == p@[t]),
    decreases p.len() - k,
{
    if k >= p.len() {
        true
    } else {
        let a = if ci {
            to_lower(s[k])
        } else {
            s[k]
        };
        if a == p[k] {
            prefix_tail(s, p, k + 1, ci)
        } else {
            false
        }
    }
}

pub fn starts_with(s: &Vec<u8>, p: &Vec<u8>) -> (r: bool)
    ensures
        r == has_prefix(s@, p@),
{
    if p.len() > s.len() {
        false
    } else {
        prefix_tail(s, p, 0, false)
    }
}

pub fn starts_with_ci(s: &Vec<u8>, p: &Vec<u8>) -> (r: bool)
    ensures
        r == ci_has_prefix(s@, p@),
{
    if p.len() > s.len() {
        false
    } else {
        prefix_tail(s, p, 0, true)
    }
}

pub fn vec_eq(a: &Vec<u8>, b: &Vec<u8>) -> (r: bool)
    ensures
        r == (a@ == b@),
{
    if a.len() != b.len() {
        assert(a@ != b@) by {
            assert(a@.len() != b@.len());
        }
        false
    } else {
        let r = prefix_tail(a, b, 0, false);
        proof {
            if r {
                assert(a@ =~= b@);
            }
        }
        r
    }
}

/// First index at or after `i` holding a non-whitespace byte (or the length).
pub open spec fn skip_ws_at(s: Seq<u8>, i: int) -> int
    decreases s.len() - i
        when 0 <= i <= s.len()
{
    if i >= s.len() {
        i
    } else if !is_ws_b(s[i]) {
        i
    } else {
        skip_ws_at(s, i + 1)
    }
}

pub fn skip_ws_from(s: &Vec<u8>, i: usize) -> (r: usize)
    requires
        i <= s.len(),
    ensures
        r == skip_ws_at(s@, i as int),
        i <= r <= s.len(),
    decreases s.len() - i,
{
    if i >= s.len() {
        i
    } else if !is_ws(s[i]) {
        i
    } else {
        skip_ws_from(s, i + 1)
    }
}

/// First index at or after `i` holding a whitespace byte (or the length).
pub open spec fn tok_end_at(s: Seq<u8>, i: int) -> int
    decreases s.len() - i
        when 0 <= i <= s.len()
{
    if i >= s.len() {
        i
    } else if is_ws_b(s[i]) {
        i
    } else {
        tok_end_at(s, i + 1)
    }
}

pub fn tok_end_from(s: &Vec<u8>, i: usize) -> (r: usize)
    requires
        i <= s.len(),
    ensures
        r == tok_end_at(s@, i as int),
        i <= r <= s.len(),
    decreases s.len() - i,
{
    if i >= s.len() {
        i
    } else if is_ws(s[i]) {
        i
    } else {
        tok_end_from(s, i + 1)
    }
}

/// Largest index at most `j` such that the byte before it is non-whitespace
/// (or zero).
pub open spec fn rskip_ws_at(s: Seq<u8>, j: int) -> int
    decreases j
        when 0 <= j <= s.len()
{
    if j <= 0 {
        0
    } else if !is_ws_b(s[j - 1]) {
        j
    } else {
        rskip_ws_at(s, j - 1)
    }
}

pub fn rskip_ws_from(s: &Vec<u8>, j: usize) -> (r: usize)
    requires
        j <= s.len(),
    ensures
        r == rskip_ws_at(s@, j as int),
        r <= j,
    decreases j,
{
    if j == 0 {
        0
    } else if !is_ws(s[j - 1]) {
        j
    } else {
        rskip_ws_from(s, j - 1)
    }
}

/// `s` with leading and trailing ASCII whitespace removed.
pub open spec fn trim_of(s: Seq<u8>) -> Seq<u8> {
    let a = skip_ws_at(s, 0);
    let b = rskip_ws_at(s, s.len() as int);
    if a < b {
        s.subrange(a, b)
    } else {
        Seq::empty()
    }
}

pub fn trim(s: &Vec<u8>) -> (r: Vec<u8>)
    ensures
        r@ == trim_of(s@),
{
    let a = skip_ws_from(s, 0);
    let b = rskip_ws_from(s, s.len());
    if a < b {
        copy_range(s, a, b)
    } else {
        let v: Vec<u8> = Vec::new();
        proof {
            assert(v@ =~= trim_of(s@));
        }
        v
    }
}

/// Copies `s[a..b]` into a fresh vector.
pub fn copy_range(s: &Vec<u8>, a: usize, b: usize) -> (r: Vec<u8>)
    requires
        a <= b <= s.len(),
    ensures
        r@ == s@.subrange(a as int, b as int),
{
    let mut v: Vec<u8> = Vec::new();
    let mut i = a;
    while i < b
        invariant
            a <= i <= b <= s.len(),
            v@ =~= s@.subrange(a as int, i as int),
        decreases b - i,
    {
        v.push(s[i]);
        assert(v@ =~= s@.subrange(a as int, i + 1 as int));
        i = i + 1;
    }
    v
}

/// Appends all of `s` to `out`.
pub fn append_bytes(out: &mut Vec<u8>, s: &Vec<u8>)
    ensures
        final(out)@ == old(out)@ + s@,
{
    let mut i: usize = 0;
    while i < s.len()
        invariant
            i <= s.len(),
            out@ =~= old(out)@ + s@.subrange(0, i as int),
        decreases s.len() - i,
    {
        out.push(s[i]);
        assert(out@ =~= old(out)@ + s@.subrange(0, i + 1 as int));
        i = i + 1;
    }
    assert(out@ =~= old(out)@ + s@);
}

} // verus!

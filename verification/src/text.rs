//! Character-level text processing with mathematical specifications.
//!
//! The parsers of this crate read line-oriented kernel files. Their contracts
//! are stated over the specifications below, which say what splitting into
//! lines, trimming, tokenising and decimal parsing mean on a sequence of
//! characters.

use vstd::prelude::*;

verus! {

// ---------------------------------------------------------------------------
// Specifications
// ---------------------------------------------------------------------------

/// Unicode `White_Space`, the set `char::is_whitespace` tests.
pub open spec fn is_whitespace(c: char) -> bool {
    let u = c as u32;
    ||| u == 0x20
    ||| 0x09 <= u <= 0x0d
    ||| u == 0x85
    ||| u == 0xa0
    ||| u == 0x1680
    ||| 0x2000 <= u <= 0x200a
    ||| u == 0x2028
    ||| u == 0x2029
    ||| u == 0x202f
    ||| u == 0x205f
    ||| u == 0x3000
}

/// `s` without its leading whitespace.
pub open spec fn trim_start(s: Seq<char>) -> Seq<char>
    decreases s.len(),
{
    if s.len() > 0 && is_whitespace(s[0]) {
        trim_start(s.drop_first())
    } else {
        s
    }
}

/// `s` without its trailing whitespace.
pub open spec fn trim_end(s: Seq<char>) -> Seq<char>
    decreases s.len(),
{
    if s.len() > 0 && is_whitespace(s.last()) {
        trim_end(s.drop_last())
    } else {
        s
    }
}

/// `s` without leading and trailing whitespace.
pub open spec fn trim(s: Seq<char>) -> Seq<char> {
    trim_end(trim_start(s))
}

/// Index of the first occurrence of `c` in `s`, or `s.len()` if there is none.
pub open spec fn find_char(s: Seq<char>, c: char) -> nat
    decreases s.len(),
{
    if s.len() == 0 {
        0
    } else if s[0] == c {
        0
    } else {
        1 + find_char(s.drop_first(), c)
    }
}

/// Index of the first whitespace character in `s`, or `s.len()`.
pub open spec fn find_whitespace(s: Seq<char>) -> nat
    decreases s.len(),
{
    if s.len() == 0 {
        0
    } else if is_whitespace(s[0]) {
        0
    } else {
        1 + find_whitespace(s.drop_first())
    }
}

/// The first maximal run of non-whitespace characters in `s`, if any.
pub open spec fn first_token(s: Seq<char>) -> Option<Seq<char>> {
    let t = trim_start(s);
    if t.len() == 0 {
        None
    } else {
        Some(t.take(find_whitespace(t) as int))
    }
}

/// `line` without one trailing carriage return.
pub open spec fn strip_cr(line: Seq<char>) -> Seq<char> {
    if line.len() > 0 && line.last() == '\r' {
        line.drop_last()
    } else {
        line
    }
}

/// The lines of `s`: pieces separated by `\n`, each without a `\r` that
/// directly precedes its `\n`; a final `\n` opens no further line.
pub open spec fn lines(s: Seq<char>) -> Seq<Seq<char>>
    decreases s.len(),
{
    if s.len() == 0 {
        Seq::empty()
    } else {
        let e = find_char(s, '\n') as int;
        if e < s.len() {
            seq![strip_cr(s.take(e))] + lines(s.skip(e + 1))
        } else {
            seq![s]
        }
    }
}

/// Whether `p` is a prefix of `s`.
pub open spec fn starts_with(s: Seq<char>, p: Seq<char>) -> bool {
    p.len() <= s.len() && s.take(p.len() as int) == p
}

/// Whether `c` is an ASCII decimal digit.
pub open spec fn is_digit(c: char) -> bool {
    0x30 <= (c as u32) <= 0x39
}

/// Whether every character of `s` is an ASCII decimal digit.
pub open spec fn all_digits(s: Seq<char>) -> bool {
    forall|i: int| 0 <= i < s.len() ==> is_digit(#[trigger] s[i])
}

/// The value of the decimal numeral `s`.
pub open spec fn digits_value(s: Seq<char>) -> nat
    decreases s.len(),
{
    if s.len() == 0 {
        0
    } else {
        digits_value(s.drop_last()) * 10 + ((s.last() as u32) - 0x30) as nat
    }
}

/// What `str::parse::<u64>` yields on `s`: an optional `+` followed by at
/// least one ASCII digit, with a value that fits in a `u64`.
pub open spec fn parse_u64(s: Seq<char>) -> Option<u64> {
    let d = if s.len() > 0 && s[0] == '+' {
        s.drop_first()
    } else {
        s
    };
    if d.len() > 0 && all_digits(d) && digits_value(d) <= u64::MAX {
        Some(digits_value(d) as u64)
    } else {
        None
    }
}

// ---------------------------------------------------------------------------
// Lemmas
// ---------------------------------------------------------------------------

proof fn lemma_find_char_bound(s: Seq<char>, c: char)
    ensures
        find_char(s, c) <= s.len(),
        find_char(s, c) < s.len() ==> s[find_char(s, c) as int] == c,
        forall|i: int| 0 <= i < find_char(s, c) ==> s[i] != c,
    decreases s.len(),
{
    if s.len() > 0 && s[0] != c {
        lemma_find_char_bound(s.drop_first(), c);
        assert forall|i: int| 0 <= i < find_char(s, c) implies s[i] != c by {
            if i > 0 {
                assert(s[i] == s.drop_first()[i - 1]);
            }
        }
    }
}

proof fn lemma_find_whitespace_bound(s: Seq<char>)
    ensures
        find_whitespace(s) <= s.len(),
        find_whitespace(s) < s.len() ==> is_whitespace(s[find_whitespace(s) as int]),
        forall|i: int| 0 <= i < find_whitespace(s) ==> !is_whitespace(#[trigger] s[i]),
    decreases s.len(),
{
    if s.len() > 0 && !is_whitespace(s[0]) {
        lemma_find_whitespace_bound(s.drop_first());
        assert forall|i: int| 0 <= i < find_whitespace(s) implies !is_whitespace(
            #[trigger] s[i],
        ) by {
            if i > 0 {
                assert(s[i] == s.drop_first()[i - 1]);
            }
        }
    }
}

proof fn lemma_digits_prefix_monotone(s: Seq<char>, k: int)
    requires
        0 <= k <= s.len(),
    ensures
        digits_value(s.take(k)) <= digits_value(s),
    decreases s.len(),
{
    if k < s.len() {
        lemma_digits_prefix_monotone(s.drop_last(), k);
        assert(s.drop_last().take(k) =~= s.take(k));
    } else {
        assert(s.take(k) =~= s);
    }
}

// ---------------------------------------------------------------------------
// Executable operations on character ranges
// ---------------------------------------------------------------------------

/// The characters of `s`, in order.
pub fn chars_of(s: &str) -> (v: Vec<char>)
    ensures
        v@ == s@,
{
    let mut v: Vec<char> = Vec::new();
    for c in it: s.chars()
        invariant
            v@ == it.seq().take(it.index() as int),
    {
        v.push(c);
    }
    v
}

/// Whether `c` is whitespace.
pub fn char_is_whitespace(c: char) -> (b: bool)
    ensures
        b == is_whitespace(c),
{
    let u = c as u32;
    u == 0x20 || (0x09 <= u && u <= 0x0d) || u == 0x85 || u == 0xa0 || u == 0x1680 || (0x2000
        <= u && u <= 0x200a) || u == 0x2028 || u == 0x2029 || u == 0x202f || u == 0x205f || u
        == 0x3000
}

/// Start of `trim_start` of the range `[lo, hi)` of `v`.
pub fn trim_start_bound(v: &Vec<char>, lo: usize, hi: usize) -> (a: usize)
    requires
        lo <= hi <= v@.len(),
    ensures
        lo <= a <= hi,
        v@.subrange(a as int, hi as int) == trim_start(v@.subrange(lo as int, hi as int)),
{
    let mut i = lo;
    while i < hi && char_is_whitespace(v[i])
        invariant
            lo <= i <= hi <= v@.len(),
            trim_start(v@.subrange(lo as int, hi as int)) == trim_start(
                v@.subrange(i as int, hi as int),
            ),
        decreases hi - i,
    {
        assert(v@.subrange(i as int, hi as int).drop_first() =~= v@.subrange(
            i + 1,
            hi as int,
        ));
        i = i + 1;
    }
    i
}

/// End of `trim_end` of the range `[lo, hi)` of `v`.
pub fn trim_end_bound(v: &Vec<char>, lo: usize, hi: usize) -> (b: usize)
    requires
        lo <= hi <= v@.len(),
    ensures
        lo <= b <= hi,
        v@.subrange(lo as int, b as int) == trim_end(v@.subrange(lo as int, hi as int)),
{
    let mut j = hi;
    while j > lo && char_is_whitespace(v[j - 1])
        invariant
            lo <= j <= hi <= v@.len(),
            trim_end(v@.subrange(lo as int, hi as int)) == trim_end(
                v@.subrange(lo as int, j as int),
            ),
        decreases j - lo,
    {
        assert(v@.subrange(lo as int, j as int).drop_last() =~= v@.subrange(
            lo as int,
            j - 1,
        ));
        j = j - 1;
    }
    j
}

/// Bounds of `trim` of the range `[lo, hi)` of `v`.
pub fn trim_bounds(v: &Vec<char>, lo: usize, hi: usize) -> (r: (usize, usize))
    requires
        lo <= hi <= v@.len(),
    ensures
        lo <= r.0 <= r.1 <= hi,
        v@.subrange(r.0 as int, r.1 as int) == trim(v@.subrange(lo as int, hi as int)),
{
    let a = trim_start_bound(v, lo, hi);
    let b = trim_end_bound(v, a, hi);
    (a, b)
}

/// Index of the first `c` in `[lo, hi)`, or `hi`.
pub fn find_char_in(v: &Vec<char>, lo: usize, hi: usize, c: char) -> (r: usize)
    requires
        lo <= hi <= v@.len(),
    ensures
        lo <= r <= hi,
        r - lo == find_char(v@.subrange(lo as int, hi as int), c),
{
    let mut i = lo;
    while i < hi && v[i] != c
        invariant
            lo <= i <= hi <= v@.len(),
            find_char(v@.subrange(lo as int, hi as int), c) == (i - lo) + find_char(
                v@.subrange(i as int, hi as int),
                c,
            ),
        decreases hi - i,
    {
        assert(v@.subrange(i as int, hi as int).drop_first() =~= v@.subrange(
            i + 1,
            hi as int,
        ));
        i = i + 1;
    }
    i
}

/// Index of the first whitespace character in `[lo, hi)`, or `hi`.
pub fn find_whitespace_in(v: &Vec<char>, lo: usize, hi: usize) -> (r: usize)
    requires
        lo <= hi <= v@.len(),
    ensures
        lo <= r <= hi,
        r - lo == find_whitespace(v@.subrange(lo as int, hi as int)),
{
    let mut i = lo;
    while i < hi && !char_is_whitespace(v[i])
        invariant
            lo <= i <= hi <= v@.len(),
            find_whitespace(v@.subrange(lo as int, hi as int)) == (i - lo) + find_whitespace(
                v@.subrange(i as int, hi as int),
            ),
        decreases hi - i,
    {
        assert(v@.subrange(i as int, hi as int).drop_first() =~= v@.subrange(
            i + 1,
            hi as int,
        ));
        i = i + 1;
    }
    i
}

/// Bounds of the first token of `[lo, hi)`.
pub fn first_token_bounds(v: &Vec<char>, lo: usize, hi: usize) -> (r: Option<(usize, usize)>)
    requires
        lo <= hi <= v@.len(),
    ensures
        match r {
            None => first_token(v@.subrange(lo as int, hi as int)) is None,
            Some((a, b)) => lo <= a <= b <= hi && first_token(
                v@.subrange(lo as int, hi as int),
            ) == Some(v@.subrange(a as int, b as int)),
        },
{
    let a = trim_start_bound(v, lo, hi);
    if a == hi {
        return None;
    }
    let b = find_whitespace_in(v, a, hi);
    proof {
        let t = v@.subrange(a as int, hi as int);
        lemma_find_whitespace_bound(t);
        assert(t.take(find_whitespace(t) as int) =~= v@.subrange(a as int, b as int));
    }
    Some((a, b))
}

/// Whether the range `[lo, hi)` of `v` equals `w`.
pub fn range_equals(v: &Vec<char>, lo: usize, hi: usize, w: &Vec<char>) -> (b: bool)
    requires
        lo <= hi <= v@.len(),
    ensures
        b == (v@.subrange(lo as int, hi as int) == w@),
{
    if hi - lo != w.len() {
        return false;
    }
    let mut i: usize = 0;
    while i < w.len()
        invariant
            lo <= hi <= v@.len(),
            hi - lo == w@.len(),
            i <= w@.len(),
            forall|k: int| 0 <= k < i ==> v@[lo + k] == w@[k],
        decreases w@.len() - i,
    {
        if v[lo + i] != w[i] {
            assert(v@.subrange(lo as int, hi as int)[i as int] != w@[i as int]);
            return false;
        }
        i = i + 1;
    }
    assert(v@.subrange(lo as int, hi as int) =~= w@);
    true
}

/// Whether the range `[lo, hi)` of `v` starts with `p`.
pub fn range_starts_with(v: &Vec<char>, lo: usize, hi: usize, p: &Vec<char>) -> (b: bool)
    requires
        lo <= hi <= v@.len(),
    ensures
        b == starts_with(v@.subrange(lo as int, hi as int), p@),
{
    if p.len() > hi - lo {
        return false;
    }
    let r = range_equals(v, lo, lo + p.len(), p);
    assert(v@.subrange(lo as int, hi as int).take(p@.len() as int) =~= v@.subrange(
        lo as int,
        lo + p@.len(),
    ));
    r
}

/// The decimal value of the range `[lo, hi)` of `v`, as `str::parse::<u64>`
/// reads it.
pub fn parse_u64_in(v: &Vec<char>, lo: usize, hi: usize) -> (r: Option<u64>)
    requires
        lo <= hi <= v@.len(),
    ensures
        r == parse_u64(v@.subrange(lo as int, hi as int)),
{
    let ghost s = v@.subrange(lo as int, hi as int);
    let mut a = lo;
    if lo < hi && v[lo] == '+' {
        a = lo + 1;
    }
    let ghost d = v@.subrange(a as int, hi as int);
    assert(d =~= (if s.len() > 0 && s[0] == '+' {
        s.drop_first()
    } else {
        s
    }));
    if a == hi {
        return None;
    }
    let mut value: u64 = 0;
    let mut i = a;
    while i < hi
        invariant
            lo <= a <= i <= hi <= v@.len(),
            d == v@.subrange(a as int, hi as int),
            s == v@.subrange(lo as int, hi as int),
            d == (if s.len() > 0 && s[0] == '+' {
                s.drop_first()
            } else {
                s
            }),
            all_digits(v@.subrange(a as int, i as int)),
            value == digits_value(v@.subrange(a as int, i as int)),
        decreases hi - i,
    {
        let c = v[i];
        let cu = c as u32;
        if !(0x30 <= cu && cu <= 0x39) {
            assert(d[i - a] == c);
            return None;
        }
        let digit = (cu - 0x30) as u64;
        proof {
            let p = v@.subrange(a as int, i + 1);
            assert(p.drop_last() =~= v@.subrange(a as int, i as int));
            assert(p.last() == c);
            assert(all_digits(p)) by {
                assert forall|k: int| 0 <= k < p.len() implies is_digit(#[trigger] p[k]) by {
                    if k < p.len() - 1 {
                        assert(p[k] == v@.subrange(a as int, i as int)[k]);
                    }
                }
            }
        }
        match value.checked_mul(10) {
            None => {
                proof {
                    let p = v@.subrange(a as int, i + 1);
                    assert(d.take(i + 1 - a) =~= p);
                    lemma_digits_prefix_monotone(d, i + 1 - a);
                }
                return None;
            },
            Some(m) => match m.checked_add(digit) {
                None => {
                    proof {
                        let p = v@.subrange(a as int, i + 1);
                        assert(d.take(i + 1 - a) =~= p);
                        lemma_digits_prefix_monotone(d, i + 1 - a);
                    }
                    return None;
                },
                Some(n) => {
                    value = n;
                },
            },
        }
        i = i + 1;
    }
    assert(v@.subrange(a as int, i as int) =~= d);
    Some(value)
}

/// Where the line starting at `pos` ends and where the next one starts.
///
/// Returns `(a, b, next)`: the line is `[a, b)` and the rest of the text
/// starts at `next`.
pub fn next_line(v: &Vec<char>, pos: usize) -> (r: (usize, usize, usize))
    requires
        pos < v@.len(),
    ensures
        pos == r.0 <= r.1 <= v@.len(),
        pos < r.2 <= v@.len(),
        lines(v@.skip(pos as int)) == seq![v@.subrange(r.0 as int, r.1 as int)] + lines(
            v@.skip(r.2 as int),
        ),
{
    let n = v.len();
    let e = find_char_in(v, pos, n, '\n');
    let ghost t = v@.skip(pos as int);
    assert(t =~= v@.subrange(pos as int, n as int));
    proof {
        lemma_find_char_bound(t, '\n');
    }
    if e < n {
        let mut b = e;
        if e > pos && v[e - 1] == '\r' {
            b = e - 1;
        }
        proof {
            assert(t.skip(e - pos + 1) =~= v@.skip(e + 1));
            assert(strip_cr(t.take(e - pos)) =~= v@.subrange(pos as int, b as int));
        }
        (pos, b, e + 1)
    } else {
        proof {
            assert(v@.skip(n as int) =~= Seq::<char>::empty());
            assert(t =~= v@.subrange(pos as int, n as int));
        }
        (pos, n, n)
    }
}

} // verus!

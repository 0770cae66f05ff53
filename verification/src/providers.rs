//! Parsing of kernel memory accounting files, and the memory statistics the
//! built-in providers derive from what they read.
//!
//! Reading the files is left to the caller; everything that turns their text
//! (or the numbers `sysinfo` reports) into [`MemoryStats`] is here.

use vstd::prelude::*;

use crate::provider::{MemoryStats, ProviderError};
use crate::text::{
    chars_of, find_char, find_char_in, first_token, first_token_bounds, lines, next_line,
    parse_u64, parse_u64_in, range_equals, range_starts_with, starts_with, trim, trim_bounds,
};

verus! {

// ---------------------------------------------------------------------------
// Specifications
// ---------------------------------------------------------------------------

/// The value of a `/proc/meminfo` line for `key`: the line is `name: rest`
/// (split at its first colon), the trimmed name is `key`, and the first
/// whitespace-separated token of `rest` is a `u64`.
pub open spec fn meminfo_line_value(line: Seq<char>, key: Seq<char>) -> Option<u64> {
    let c = find_char(line, ':') as int;
    if c < line.len() && trim(line.take(c)) == key {
        match first_token(line.skip(c + 1)) {
            Some(tok) => parse_u64(tok),
            None => None,
        }
    } else {
        None
    }
}

/// `a` if it holds a value, else `b`.
pub open spec fn or_else(a: Option<u64>, b: Option<u64>) -> Option<u64> {
    if a is Some {
        a
    } else {
        b
    }
}

/// The value for `key` given by the last line of `ls` that gives one.
pub open spec fn last_meminfo_value(ls: Seq<Seq<char>>, key: Seq<char>) -> Option<u64>
    decreases ls.len(),
{
    if ls.len() == 0 {
        None
    } else {
        or_else(last_meminfo_value(ls.drop_first(), key), meminfo_line_value(ls[0], key))
    }
}

/// The value for `key` given by the first line of `ls` that gives one.
pub open spec fn first_meminfo_value(ls: Seq<Seq<char>>, key: Seq<char>) -> Option<u64>
    decreases ls.len(),
{
    if ls.len() == 0 {
        None
    } else {
        or_else(meminfo_line_value(ls[0], key), first_meminfo_value(ls.drop_first(), key))
    }
}

/// `x * 1024`, saturating at `u64::MAX`.
pub open spec fn kib_to_bytes(x: u64) -> u64 {
    if x * 1024 <= u64::MAX {
        (x * 1024) as u64
    } else {
        u64::MAX
    }
}

/// `a + b`, saturating at `u64::MAX`.
pub open spec fn sat_add(a: u64, b: u64) -> u64 {
    if a + b <= u64::MAX {
        (a + b) as u64
    } else {
        u64::MAX
    }
}

/// `a - b`, saturating at zero.
pub open spec fn sat_sub(a: u64, b: u64) -> u64 {
    if a >= b {
        (a - b) as u64
    } else {
        0
    }
}

/// What `/proc/meminfo` with text `s` reports: the statistics, or the
/// message of the error.
pub open spec fn proc_meminfo_outcome(s: Seq<char>) -> Result<MemoryStats, Seq<char>> {
    let ls = lines(s);
    let total = last_meminfo_value(ls, "MemTotal"@);
    let available = last_meminfo_value(ls, "MemAvailable"@);
    let buffers = match last_meminfo_value(ls, "Buffers"@) {
        Some(v) => v,
        None => 0,
    };
    let cached = match last_meminfo_value(ls, "Cached"@) {
        Some(v) => v,
        None => 0,
    };
    if total is None {
        Err("MemTotal not found"@)
    } else if available is None {
        Err("MemAvailable not found"@)
    } else if total->0 == 0 {
        Err("MemTotal must be > 0"@)
    } else if available->0 > total->0 {
        Err("MemAvailable cannot exceed MemTotal"@)
    } else {
        Ok(
            MemoryStats {
                total_bytes: kib_to_bytes(total->0),
                available_bytes: kib_to_bytes(available->0),
                page_cache_bytes: kib_to_bytes(sat_add(buffers, cached)),
            },
        )
    }
}

/// Whether `r` is the outcome `o`: equal statistics, or a `Source` error
/// with the message of `o`.
pub open spec fn is_outcome(
    r: Result<MemoryStats, ProviderError>,
    o: Result<MemoryStats, Seq<char>>,
) -> bool {
    match (r, o) {
        (Ok(a), Ok(b)) => a == b,
        (Err(ProviderError::Source(m)), Err(msg)) => m@ == msg,
        _ => false,
    }
}

/// The `file` figure of a cgroup `memory.stat` line: the line starts with
/// `file ` and the trimmed rest is a `u64`.
pub open spec fn file_cache_line_value(line: Seq<char>) -> Option<u64> {
    if starts_with(line, "file "@) {
        parse_u64(trim(line.skip("file "@.len() as int)))
    } else {
        None
    }
}

/// The `file` figure given by the first line of `ls` that gives one.
pub open spec fn first_file_cache_value(ls: Seq<Seq<char>>) -> Option<u64>
    decreases ls.len(),
{
    if ls.len() == 0 {
        None
    } else {
        or_else(file_cache_line_value(ls[0]), first_file_cache_value(ls.drop_first()))
    }
}

/// `s` without its leading `c` characters.
pub open spec fn trim_start_char(s: Seq<char>, c: char) -> Seq<char>
    decreases s.len(),
{
    if s.len() > 0 && s[0] == c {
        trim_start_char(s.drop_first(), c)
    } else {
        s
    }
}

/// The path of a cgroup-v2 line of `/proc/self/cgroup` (`0::<path>`).
pub open spec fn cgroup_line_path(line: Seq<char>) -> Option<Seq<char>> {
    if starts_with(line, "0::"@) {
        Some(line.skip("0::"@.len() as int))
    } else {
        None
    }
}

/// The path of the first cgroup-v2 line of `ls`.
pub open spec fn first_cgroup_path(ls: Seq<Seq<char>>) -> Option<Seq<char>>
    decreases ls.len(),
{
    if ls.len() == 0 {
        None
    } else {
        match cgroup_line_path(ls[0]) {
            Some(p) => Some(p),
            None => first_cgroup_path(ls.drop_first()),
        }
    }
}

/// The value of a cgroup limit file: none when it reads `max` or is blank.
pub open spec fn cgroup_limit_value(raw: Seq<char>) -> Option<u64> {
    let t = trim(raw);
    if t == "max"@ || t.len() == 0 {
        None
    } else {
        parse_u64(t)
    }
}

/// The total a cgroup provider budgets with: `memory.high`, else
/// `memory.max`, when that limit is positive; else the host total.
pub open spec fn cgroup_total(high: Option<u64>, max: Option<u64>, fallback_total: u64) -> u64 {
    let limit = match high {
        Some(h) => Some(h),
        None => max,
    };
    match limit {
        Some(t) => if t > 0 {
            t
        } else {
            fallback_total
        },
        None => fallback_total,
    }
}

/// What a cgroup-v2 provider reports from the figures it read.
pub open spec fn cgroup_outcome(
    current: Option<u64>,
    high: Option<u64>,
    max: Option<u64>,
    fallback_total: u64,
    file_cache: u64,
) -> Result<MemoryStats, Seq<char>> {
    let total = cgroup_total(high, max, fallback_total);
    if current is None {
        Err("cgroup memory.current unreadable"@)
    } else if total == 0 {
        Err("no usable cgroup memory limit and no host fallback total"@)
    } else {
        Ok(
            MemoryStats {
                total_bytes: total,
                available_bytes: sat_sub(total, current->0),
                page_cache_bytes: file_cache,
            },
        )
    }
}

/// What the `sysinfo` provider reports from the totals the system reports.
pub open spec fn sysinfo_outcome(total: u64, available: u64) -> Result<MemoryStats, Seq<char>> {
    if total == 0 {
        Err("sysinfo reports total_memory = 0"@)
    } else {
        Ok(
            MemoryStats {
                total_bytes: total,
                available_bytes: if available <= total {
                    available
                } else {
                    total
                },
                page_cache_bytes: 0,
            },
        )
    }
}

// ---------------------------------------------------------------------------
// Lemmas
// ---------------------------------------------------------------------------

proof fn lemma_last_value_cons(l: Seq<char>, rest: Seq<Seq<char>>, key: Seq<char>)
    ensures
        last_meminfo_value(seq![l] + rest, key) == or_else(
            last_meminfo_value(rest, key),
            meminfo_line_value(l, key),
        ),
{
    let ls = seq![l] + rest;
    assert(ls.drop_first() =~= rest);
    assert(ls[0] == l);
}

proof fn lemma_first_value_cons(l: Seq<char>, rest: Seq<Seq<char>>, key: Seq<char>)
    ensures
        first_meminfo_value(seq![l] + rest, key) == or_else(
            meminfo_line_value(l, key),
            first_meminfo_value(rest, key),
        ),
{
    let ls = seq![l] + rest;
    assert(ls.drop_first() =~= rest);
    assert(ls[0] == l);
}

proof fn lemma_first_file_cache_cons(l: Seq<char>, rest: Seq<Seq<char>>)
    ensures
        first_file_cache_value(seq![l] + rest) == or_else(
            file_cache_line_value(l),
            first_file_cache_value(rest),
        ),
{
    let ls = seq![l] + rest;
    assert(ls.drop_first() =~= rest);
    assert(ls[0] == l);
}

proof fn lemma_first_cgroup_path_cons(l: Seq<char>, rest: Seq<Seq<char>>)
    ensures
        first_cgroup_path(seq![l] + rest) == match cgroup_line_path(l) {
            Some(p) => Some(p),
            None => first_cgroup_path(rest),
        },
{
    let ls = seq![l] + rest;
    assert(ls.drop_first() =~= rest);
    assert(ls[0] == l);
}

proof fn lemma_lines_end(v: Seq<char>)
    ensures
        lines(v.skip(v.len() as int)) == Seq::<Seq<char>>::empty(),
{
    assert(v.skip(v.len() as int) =~= Seq::<char>::empty());
}

// ---------------------------------------------------------------------------
// Executable parsers
// ---------------------------------------------------------------------------

/// `x * 1024`, saturating.
fn kib_to_bytes_exec(x: u64) -> (r: u64)
    ensures
        r == kib_to_bytes(x),
{
    match x.checked_mul(1024) {
        Some(b) => b,
        None => u64::MAX,
    }
}

/// The meminfo value of the line `[lo, hi)` of `v` for `key`.
fn meminfo_line_value_in(v: &Vec<char>, lo: usize, hi: usize, key: &Vec<char>) -> (r: Option<u64>)
    requires
        lo <= hi <= v@.len(),
    ensures
        r == meminfo_line_value(v@.subrange(lo as int, hi as int), key@),
{
    let ghost line = v@.subrange(lo as int, hi as int);
    let c = find_char_in(v, lo, hi, ':');
    if c == hi {
        return None;
    }
    let (a, b) = trim_bounds(v, lo, c);
    assert(line.take(c - lo) =~= v@.subrange(lo as int, c as int));
    if !range_equals(v, a, b, key) {
        return None;
    }
    assert(line.skip(c - lo + 1) =~= v@.subrange(c + 1, hi as int));
    match first_token_bounds(v, c + 1, hi) {
        None => None,
        Some((ta, tb)) => parse_u64_in(v, ta, tb),
    }
}

/// Parse one `/proc/meminfo` line (`Key:   value kB`) for `key`.
pub fn parse_meminfo_line(line: &str, key: &str) -> (r: Option<u64>)
    ensures
        r == meminfo_line_value(line@, key@),
{
    let v = chars_of(line);
    let k = chars_of(key);
    assert(v@.subrange(0, v@.len() as int) =~= v@);
    meminfo_line_value_in(&v, 0, v.len(), &k)
}

/// Parse the text of `/proc/meminfo` into absolute memory statistics.
///
/// The last `MemTotal`, `MemAvailable`, `Buffers` and `Cached` lines count;
/// figures are in KiB and reported in bytes (saturating).
pub fn parse_proc_meminfo_stats(contents: &str) -> (r: Result<MemoryStats, ProviderError>)
    ensures
        is_outcome(r, proc_meminfo_outcome(contents@)),
        r is Ok ==> r->Ok_0.available_bytes <= r->Ok_0.total_bytes,
{
    let v = chars_of(contents);
    let k_total = chars_of("MemTotal");
    let k_avail = chars_of("MemAvailable");
    let k_buffers = chars_of("Buffers");
    let k_cached = chars_of("Cached");
    let ghost ls = lines(v@);
    let mut total_kib: Option<u64> = None;
    let mut available_kib: Option<u64> = None;
    let mut buffers_kib: Option<u64> = None;
    let mut cached_kib: Option<u64> = None;
    let mut pos: usize = 0;
    assert(v@.skip(0) =~= v@);
    while pos < v.len()
        invariant
            pos <= v@.len(),
            ls == lines(v@),
            last_meminfo_value(ls, k_total@) == or_else(
                last_meminfo_value(lines(v@.skip(pos as int)), k_total@),
                total_kib,
            ),
            last_meminfo_value(ls, k_avail@) == or_else(
                last_meminfo_value(lines(v@.skip(pos as int)), k_avail@),
                available_kib,
            ),
            last_meminfo_value(ls, k_buffers@) == or_else(
                last_meminfo_value(lines(v@.skip(pos as int)), k_buffers@),
                buffers_kib,
            ),
            last_meminfo_value(ls, k_cached@) == or_else(
                last_meminfo_value(lines(v@.skip(pos as int)), k_cached@),
                cached_kib,
            ),
        decreases v@.len() - pos,
    {
        let (a, b, next) = next_line(&v, pos);
        let ghost l = v@.subrange(a as int, b as int);
        let ghost rest = lines(v@.skip(next as int));
        proof {
            lemma_last_value_cons(l, rest, k_total@);
            lemma_last_value_cons(l, rest, k_avail@);
            lemma_last_value_cons(l, rest, k_buffers@);
            lemma_last_value_cons(l, rest, k_cached@);
        }
        let t = meminfo_line_value_in(&v, a, b, &k_total);
        if t.is_some() {
            total_kib = t;
        }
        let t = meminfo_line_value_in(&v, a, b, &k_avail);
        if t.is_some() {
            available_kib = t;
        }
        let t = meminfo_line_value_in(&v, a, b, &k_buffers);
        if t.is_some() {
            buffers_kib = t;
        }
        let t = meminfo_line_value_in(&v, a, b, &k_cached);
        if t.is_some() {
            cached_kib = t;
        }
        pos = next;
    }
    proof {
        lemma_lines_end(v@);
    }
    let total = match total_kib {
        Some(t) => t,
        None => {
            return Err(ProviderError::new("MemTotal not found".to_owned()));
        },
    };
    let available = match available_kib {
        Some(a) => a,
        None => {
            return Err(ProviderError::new("MemAvailable not found".to_owned()));
        },
    };
    if total == 0 {
        return Err(ProviderError::new("MemTotal must be > 0".to_owned()));
    }
    if available > total {
        return Err(ProviderError::new("MemAvailable cannot exceed MemTotal".to_owned()));
    }
    let buffers = match buffers_kib {
        Some(b) => b,
        None => 0,
    };
    let cached = match cached_kib {
        Some(c) => c,
        None => 0,
    };
    Ok(
        MemoryStats {
            total_bytes: kib_to_bytes_exec(total),
            available_bytes: kib_to_bytes_exec(available),
            page_cache_bytes: kib_to_bytes_exec(buffers.saturating_add(cached)),
        },
    )
}

/// The first `MemTotal` figure (KiB) of a `/proc/meminfo` text.
pub fn parse_memtotal_kib(contents: &str) -> (r: Option<u64>)
    ensures
        r == first_meminfo_value(lines(contents@), "MemTotal"@),
{
    let v = chars_of(contents);
    let k_total = chars_of("MemTotal");
    let mut pos: usize = 0;
    assert(v@.skip(0) =~= v@);
    while pos < v.len()
        invariant
            pos <= v@.len(),
            k_total@ == "MemTotal"@,
            first_meminfo_value(lines(contents@), k_total@) == first_meminfo_value(
                lines(v@.skip(pos as int)),
                k_total@,
            ),
            v@ == contents@,
        decreases v@.len() - pos,
    {
        let (a, b, next) = next_line(&v, pos);
        proof {
            lemma_first_value_cons(
                v@.subrange(a as int, b as int),
                lines(v@.skip(next as int)),
                k_total@,
            );
        }
        let t = meminfo_line_value_in(&v, a, b, &k_total);
        if t.is_some() {
            return t;
        }
        pos = next;
    }
    proof {
        lemma_lines_end(v@);
    }
    None
}

/// The `file` figure (bytes of page cache) of a cgroup `memory.stat` text,
/// or zero when no line gives one.
pub fn parse_cgroup_file_cache_bytes(contents: &str) -> (r: u64)
    ensures
        r == match first_file_cache_value(lines(contents@)) {
            Some(v) => v,
            None => 0,
        },
{
    let v = chars_of(contents);
    let prefix = chars_of("file ");
    let mut pos: usize = 0;
    assert(v@.skip(0) =~= v@);
    while pos < v.len()
        invariant
            pos <= v@.len(),
            prefix@ == "file "@,
            v@ == contents@,
            first_file_cache_value(lines(contents@)) == first_file_cache_value(
                lines(v@.skip(pos as int)),
            ),
        decreases v@.len() - pos,
    {
        let (a, b, next) = next_line(&v, pos);
        let ghost l = v@.subrange(a as int, b as int);
        proof {
            lemma_first_file_cache_cons(l, lines(v@.skip(next as int)));
        }
        if range_starts_with(&v, a, b, &prefix) {
            let (ta, tb) = trim_bounds(&v, a + prefix.len(), b);
            assert(l.skip(prefix@.len() as int) =~= v@.subrange(
                a + prefix@.len(),
                b as int,
            ));
            let t = parse_u64_in(&v, ta, tb);
            if let Some(x) = t {
                return x;
            }
        }
        pos = next;
    }
    proof {
        lemma_lines_end(v@);
    }
    0
}

/// Append `c` to `s` (`String::push`, which the documentation describes as
/// appending the given char to the end of the string).
#[verifier::external_body]
fn string_push(s: &mut String, c: char)
    ensures
        final(s)@ == old(s)@.push(c),
{
    s.push(c);
}

/// The cgroup-v2 path named by the text of `/proc/self/cgroup`: the rest of
/// the first line that starts with `0::`, without leading slashes.
pub fn cgroup_v2_relative_path(contents: &str) -> (r: Option<String>)
    ensures
        match first_cgroup_path(lines(contents@)) {
            None => r is None,
            Some(p) => r is Some && r->0@ == trim_start_char(p, '/'),
        },
{
    let v = chars_of(contents);
    let prefix = chars_of("0::");
    let mut pos: usize = 0;
    assert(v@.skip(0) =~= v@);
    while pos < v.len()
        invariant
            pos <= v@.len(),
            prefix@ == "0::"@,
            v@ == contents@,
            first_cgroup_path(lines(contents@)) == first_cgroup_path(lines(v@.skip(pos as int))),
        decreases v@.len() - pos,
    {
        let (a, b, next) = next_line(&v, pos);
        let ghost l = v@.subrange(a as int, b as int);
        proof {
            lemma_first_cgroup_path_cons(l, lines(v@.skip(next as int)));
        }
        if range_starts_with(&v, a, b, &prefix) {
            let mut i = a + prefix.len();
            assert(l.skip(prefix@.len() as int) =~= v@.subrange(i as int, b as int));
            while i < b && v[i] == '/'
                invariant
                    a + prefix@.len() <= i <= b <= v@.len(),
                    trim_start_char(l.skip(prefix@.len() as int), '/') == trim_start_char(
                        v@.subrange(i as int, b as int),
                        '/',
                    ),
                decreases b - i,
            {
                assert(v@.subrange(i as int, b as int).drop_first() =~= v@.subrange(
                    i + 1,
                    b as int,
                ));
                i = i + 1;
            }
            let mut out = String::new();
            let start = i;
            while i < b
                invariant
                    start <= i <= b <= v@.len(),
                    out@ == v@.subrange(start as int, i as int),
                decreases b - i,
            {
                string_push(&mut out, v[i]);
                assert(v@.subrange(start as int, i + 1) =~= v@.subrange(start as int, i as int).push(
                    v@[i as int],
                ));
                i = i + 1;
            }
            return Some(out);
        }
        pos = next;
    }
    proof {
        lemma_lines_end(v@);
    }
    None
}

/// The value of a cgroup limit file (`memory.high`, `memory.max`): none when
/// the trimmed text is `max` or empty, else its decimal value.
pub fn parse_cgroup_limit(raw: &str) -> (r: Option<u64>)
    ensures
        r == cgroup_limit_value(raw@),
{
    let v = chars_of(raw);
    let max_word = chars_of("max");
    let (a, b) = trim_bounds(&v, 0, v.len());
    assert(v@.subrange(0, v@.len() as int) =~= v@);
    if range_equals(&v, a, b, &max_word) || a == b {
        return None;
    }
    parse_u64_in(&v, a, b)
}

/// The value of a cgroup `memory.current` file: its trimmed decimal value.
pub fn parse_cgroup_current(raw: &str) -> (r: Option<u64>)
    ensures
        r == parse_u64(trim(raw@)),
{
    let v = chars_of(raw);
    let (a, b) = trim_bounds(&v, 0, v.len());
    assert(v@.subrange(0, v@.len() as int) =~= v@);
    parse_u64_in(&v, a, b)
}

/// Reads `/proc/meminfo` on Linux and reports `1 - MemAvailable/MemTotal`.
///
/// The text of the file is turned into statistics by
/// [`parse_proc_meminfo_stats`].
pub struct ProcMeminfoProvider;

impl ProcMeminfoProvider {
    /// Path read by this provider.
    pub const PATH: &'static str = "/proc/meminfo";
}

/// `std::path::PathBuf`, carried through as an opaque value.
#[verifier::external_type_specification]
#[verifier::external_body]
pub struct ExPathBuf(std::path::PathBuf);

/// Reads cgroup-v2 memory accounting for the calling process.
///
/// `total_bytes` is the cgroup's `memory.high` (else `memory.max`, else the
/// host total), `available_bytes` is that total less `memory.current`
/// (clamped to zero), and `page_cache_bytes` is `memory.stat`'s `file`.
pub struct CgroupV2Provider {
    base_dir: std::path::PathBuf,
    fallback_total: u64,
}

impl CgroupV2Provider {
    /// The host total (bytes) used when no cgroup limit is set.
    pub closed spec fn spec_fallback_total(&self) -> u64 {
        self.fallback_total
    }

    /// The cgroup directory this provider reads.
    pub closed spec fn spec_base_dir(&self) -> std::path::PathBuf {
        self.base_dir
    }

    /// The host total a provider falls back to, from the text of
    /// `/proc/meminfo` if it could be read: its first `MemTotal` in bytes
    /// (saturating), or zero.
    pub open spec fn fallback_total_of(meminfo: Option<Seq<char>>) -> u64 {
        match meminfo {
            Some(s) => match first_meminfo_value(lines(s), "MemTotal"@) {
                Some(kib) => kib_to_bytes(kib),
                None => 0,
            },
            None => 0,
        }
    }

    /// A provider for the cgroup directory `base_dir`, given the text of the
    /// host's `/proc/meminfo` if it could be read.
    pub fn from_parts(base_dir: std::path::PathBuf, host_meminfo: Option<&str>) -> (p: Self)
        ensures
            p.spec_base_dir() == base_dir,
            p.spec_fallback_total() == Self::fallback_total_of(
                match host_meminfo {
                    Some(s) => Some(s@),
                    None => None,
                },
            ),
    {
        let fallback_total = match host_meminfo {
            Some(s) => match parse_memtotal_kib(s) {
                Some(kib) => kib_to_bytes_exec(kib),
                None => 0,
            },
            None => 0,
        };
        CgroupV2Provider { base_dir, fallback_total }
    }

    /// The cgroup directory this provider reads.
    pub fn base_dir(&self) -> (d: &std::path::PathBuf)
        ensures
            *d == self.spec_base_dir(),
    {
        &self.base_dir
    }

    /// The host total (bytes) used when no cgroup limit is set.
    pub fn fallback_total(&self) -> (t: u64)
        ensures
            t == self.spec_fallback_total(),
    {
        self.fallback_total
    }

    /// The statistics of the cgroup, from what was read of `memory.current`,
    /// `memory.high`, `memory.max` and `memory.stat`'s `file` figure.
    pub fn stats_from(
        &self,
        current: Option<u64>,
        high: Option<u64>,
        max: Option<u64>,
        file_cache: u64,
    ) -> (r: Result<MemoryStats, ProviderError>)
        ensures
            is_outcome(
                r,
                cgroup_outcome(current, high, max, self.spec_fallback_total(), file_cache),
            ),
            r is Ok ==> r->Ok_0.total_bytes > 0 && r->Ok_0.available_bytes
                <= r->Ok_0.total_bytes,
    {
        let current = match current {
            Some(c) => c,
            None => {
                return Err(ProviderError::new("cgroup memory.current unreadable".to_owned()));
            },
        };
        let limit = match high {
            Some(h) => Some(h),
            None => max,
        };
        let total = match limit {
            Some(t) => if t > 0 {
                t
            } else {
                self.fallback_total
            },
            None => self.fallback_total,
        };
        if total == 0 {
            return Err(
                ProviderError::new(
                    "no usable cgroup memory limit and no host fallback total".to_owned(),
                ),
            );
        }
        let available = total.saturating_sub(current);
        Ok(MemoryStats { total_bytes: total, available_bytes: available, page_cache_bytes: file_cache })
    }
}

/// `sysinfo::System`, read through the wrappers below as an opaque value.
#[verifier::external_type_specification]
#[verifier::external_body]
pub struct ExSystem(sysinfo::System);

/// `sysinfo::System::total_memory`: the total RAM (bytes) as of the system's
/// last memory refresh. Nothing is stated of the figure: it is the machine's.
#[verifier::external_body]
fn system_total_memory(system: &sysinfo::System) -> u64 {
    system.total_memory()
}

/// `sysinfo::System::available_memory`: the available RAM (bytes) as of the
/// system's last memory refresh. Nothing is stated of the figure: it is the
/// machine's.
#[verifier::external_body]
fn system_available_memory(system: &sysinfo::System) -> u64 {
    system.available_memory()
}

/// The statistics the `sysinfo` provider reports from the totals a system
/// reports: an error when the total is zero, else the available figure
/// clamped to the total and no page-cache figure.
pub fn sysinfo_stats_from(total: u64, available: u64) -> (r: Result<MemoryStats, ProviderError>)
    ensures
        is_outcome(r, sysinfo_outcome(total, available)),
{
    if total == 0 {
        return Err(ProviderError::new("sysinfo reports total_memory = 0".to_owned()));
    }
    let available = if available <= total {
        available
    } else {
        total
    };
    Ok(MemoryStats { total_bytes: total, available_bytes: available, page_cache_bytes: 0 })
}

/// The statistics of a refreshed `sysinfo` system.
pub fn sysinfo_stats(system: &sysinfo::System) -> (r: Result<MemoryStats, ProviderError>)
    ensures
        r is Ok ==> r->Ok_0.total_bytes > 0 && r->Ok_0.available_bytes <= r->Ok_0.total_bytes
            && r->Ok_0.page_cache_bytes == 0,
        exists|total: u64, available: u64|
            #[trigger] is_outcome(r, sysinfo_outcome(total, available)),
{
    let total = system_total_memory(system);
    let available = system_available_memory(system);
    let r = sysinfo_stats_from(total, available);
    assert(is_outcome(r, sysinfo_outcome(total, available)));
    r
}

// ---------------------------------------------------------------------------
// Laws
// ---------------------------------------------------------------------------

/// A `/proc/meminfo` line gives a value for one key at most: the name before
/// its first colon must trim to the key exactly, so a line such as
/// `SwapCached:` never counts for `Cached`.
pub proof fn law_meminfo_line_names_one_key(line: Seq<char>, k1: Seq<char>, k2: Seq<char>)
    requires
        meminfo_line_value(line, k1) is Some,
        meminfo_line_value(line, k2) is Some,
    ensures
        k1 == k2,
{
}

/// A `/proc/meminfo` line gives a value for `key` only when, for the first
/// colon of the line at some index `i`, the text before it trims to `key`.
pub proof fn law_meminfo_value_needs_exact_name(line: Seq<char>, key: Seq<char>)
    requires
        meminfo_line_value(line, key) is Some,
    ensures
        exists|i: int|
            0 <= i < line.len() && line[i] == ':' && (forall|j: int| 0 <= j < i ==> line[j] != ':')
                && #[trigger] trim(line.take(i)) == key,
{
    lemma_find_char_facts(line, ':');
    let i = find_char(line, ':') as int;
    assert(trim(line.take(i)) == key);
}

proof fn lemma_find_char_facts(s: Seq<char>, c: char)
    ensures
        find_char(s, c) <= s.len(),
        find_char(s, c) < s.len() ==> s[find_char(s, c) as int] == c,
        forall|j: int| 0 <= j < find_char(s, c) ==> s[j] != c,
    decreases s.len(),
{
    if s.len() > 0 && s[0] != c {
        lemma_find_char_facts(s.drop_first(), c);
        assert forall|j: int| 0 <= j < find_char(s, c) implies s[j] != c by {
            if j > 0 {
                assert(s[j] == s.drop_first()[j - 1]);
            }
        }
    }
}

/// `memory.high`, when it reads a positive figure `h`, is the total a
/// cgroup provider budgets with, whatever `memory.max` reads.
pub proof fn law_memory_high_preferred(
    current: u64,
    h: u64,
    max: Option<u64>,
    fallback_total: u64,
    file_cache: u64,
)
    requires
        h > 0,
    ensures
        cgroup_outcome(Some(current), Some(h), max, fallback_total, file_cache) == Ok::<
            MemoryStats,
            Seq<char>,
        >(
            MemoryStats {
                total_bytes: h,
                available_bytes: sat_sub(h, current),
                page_cache_bytes: file_cache,
            },
        ),
{
}

/// Without `memory.high`, a positive `memory.max` figure `m` is the total.
pub proof fn law_memory_max_without_high(
    current: u64,
    m: u64,
    fallback_total: u64,
    file_cache: u64,
)
    requires
        m > 0,
    ensures
        cgroup_outcome(Some(current), None, Some(m), fallback_total, file_cache) == Ok::<
            MemoryStats,
            Seq<char>,
        >(
            MemoryStats {
                total_bytes: m,
                available_bytes: sat_sub(m, current),
                page_cache_bytes: file_cache,
            },
        ),
{
}

/// With no positive limit to prefer (`memory.high` unset and `memory.max`
/// unset or zero, or `memory.high` zero), the host total is the total.
pub proof fn law_host_total_without_limit(high: Option<u64>, max: Option<u64>, fallback_total: u64)
    requires
        (high is None && (max is None || max == Some(0u64))) || high == Some(0u64),
    ensures
        cgroup_total(high, max, fallback_total) == fallback_total,
{
}

} // verus!

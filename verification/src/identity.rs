//! The identity of the machine under test: the processor's name (from the
//! CPUID brand string, `/proc/cpuinfo` or the environment), the selection of
//! CPUs to test, and the run's identity and configuration records.
use vstd::prelude::*;
use crate::args::Config;
use crate::cpu_list::{fields, first_index_of, lemma_fields_prefix, lemma_fields_push};
use crate::text::{
    chars_equal, chars_of, lemma_strip_leading_index, lemma_strip_trailing_index, string_from,
    string_of, strip_both, strip_leading, strip_trailing, trim, trim_bounds, is_white,
    lemma_trim_edges,
};

verus! {

// ---------------------------------------------------------------------------
// Processor name
// ---------------------------------------------------------------------------
/// What `String::from_utf8_lossy` makes of a byte string.
pub uninterp spec fn utf8_lossy(bytes: Seq<u8>) -> Seq<char>;

/// `String::from_utf8_lossy(bytes)`, owned. Its result is named
/// `utf8_lossy(bytes)`; of it only the documented case of ASCII input is
/// stated: such bytes are valid UTF-8 and come back as the same characters.
/// Where the replacement character goes for invalid sequences is left unsaid.
#[verifier::external_body]
fn decode_utf8_lossy(bytes: &[u8]) -> (s: String)
    ensures
        s@ == utf8_lossy(bytes@),
        (forall|i: int| 0 <= i < bytes@.len() ==> bytes@[i] < 0x80) ==> s@ == bytes@.map_values(
            |b: u8| b as char,
        ),
{
    String::from_utf8_lossy(bytes).into_owned()
}

/// The brand string with padding NULs and then white space trimmed from
/// both ends; `None` when nothing is left.
pub open spec fn brand_name_spec(s: Seq<char>) -> Option<Seq<char>> {
    let t = trim(strip_both(s, |c: char| c == '\0'));
    if t.len() == 0 {
        None
    } else {
        Some(t)
    }
}

/// Where `v[lo..hi]` starts once its leading NULs are stripped.
fn nul_start(v: &Vec<char>, lo: usize, hi: usize) -> (a: usize)
    requires
        lo <= hi <= v.len(),
    ensures
        lo <= a <= hi,
        v@.subrange(a as int, hi as int) == strip_leading(
            v@.subrange(lo as int, hi as int),
            |c: char| c == '\0',
        ),
{
    let ghost s = v@.subrange(lo as int, hi as int);
    let ghost p = |c: char| c == '\0';
    let mut a = lo;
    while a < hi && v[a] == '\0'
        invariant
            lo <= a <= hi <= v.len(),
            forall|i: int| lo <= i < a ==> v@[i] == '\0',
        decreases hi - a,
    {
        a += 1;
    }
    proof {
        assert forall|i: int| 0 <= i < a - lo implies p(#[trigger] s[i]) by {
            assert(s[i] == v@[lo + i]);
        }
        if a < hi {
            assert(s[a - lo] == v@[a as int]);
        }
        lemma_strip_leading_index(s, p, a - lo);
        assert(s.skip(a - lo) == v@.subrange(a as int, hi as int));
    }
    a
}

/// Where `v[a..hi]` ends once its trailing NULs are stripped.
fn nul_end(v: &Vec<char>, a: usize, hi: usize) -> (b: usize)
    requires
        a <= hi <= v.len(),
    ensures
        a <= b <= hi,
        v@.subrange(a as int, b as int) == strip_trailing(
            v@.subrange(a as int, hi as int),
            |c: char| c == '\0',
        ),
{
    let ghost t = v@.subrange(a as int, hi as int);
    let ghost p = |c: char| c == '\0';
    let mut b = hi;
    while b > a && v[b - 1] == '\0'
        invariant
            a <= b <= hi <= v.len(),
            forall|i: int| b <= i < hi ==> v@[i] == '\0',
        decreases b - a,
    {
        b -= 1;
    }
    proof {
        assert forall|i: int| b - a <= i < t.len() implies p(#[trigger] t[i]) by {
            assert(t[i] == v@[a + i]);
        }
        if b > a {
            assert(t[b - a - 1] == v@[b - 1]);
        }
        lemma_strip_trailing_index(t, p, b - a);
        assert(t.take(b - a) == v@.subrange(a as int, b as int));
    }
    b
}

/// The bounds of `v[lo..hi]` with NULs stripped from both ends.
fn nul_bounds(v: &Vec<char>, lo: usize, hi: usize) -> (r: (usize, usize))
    requires
        lo <= hi <= v.len(),
    ensures
        lo <= r.0 <= r.1 <= hi,
        v@.subrange(r.0 as int, r.1 as int) == strip_both(
            v@.subrange(lo as int, hi as int),
            |c: char| c == '\0',
        ),
{
    let a = nul_start(v, lo, hi);
    let b = nul_end(v, a, hi);
    (a, b)
}

/// A name without white space at either end.
pub open spec fn edge_trimmed(n: Seq<char>) -> bool {
    n.len() > 0 ==> !is_white(n[0]) && !is_white(n.last())
}

/// The processor name in a decoded CPUID brand string.
pub fn brand_name(decoded: &str) -> (r: Option<String>)
    ensures
        match brand_name_spec(decoded@) {
            Some(t) => r is Some && r->Some_0@ == t,
            None => r is None,
        },
        r matches Some(n) ==> n@.len() > 0 && edge_trimmed(n@),
{
    proof {
        lemma_trim_edges(strip_both(decoded@, |c: char| c == '\0'));
    }
    let v = chars_of(decoded);
    assert(v@.subrange(0, v@.len() as int) == v@);
    let (a, b) = nul_bounds(&v, 0, v.len());
    let (c, d) = trim_bounds(&v, a, b);
    if c == d {
        None
    } else {
        Some(string_of(&v, c, d))
    }
}

/// The processor name in the 48 bytes of the CPUID brand-string leaves.
pub fn cpu_name_from_brand(bytes: &[u8]) -> (r: Option<String>)
    ensures
        match brand_name_spec(utf8_lossy(bytes@)) {
            Some(t) => r is Some && r->Some_0@ == t,
            None => r is None,
        },
{
    let decoded = decode_utf8_lossy(bytes);
    brand_name(decoded.as_str())
}

/// A line without the `\r` of a CRLF ending (as `str::lines` yields it).
pub open spec fn strip_cr(l: Seq<char>) -> Seq<char> {
    if l.len() > 0 && l.last() == '\r' {
        l.drop_last()
    } else {
        l
    }
}

/// The value of a `model name : ...` or `Hardware : ...` line (key and
/// value trimmed; the line split at its first colon).
pub open spec fn line_cpu_name(line: Seq<char>) -> Option<Seq<char>> {
    let l = strip_cr(line);
    let k = first_index_of(l, ':');
    if k < 0 {
        None
    } else {
        let key = trim(l.take(k));
        if key == "model name"@ || key == "Hardware"@ {
            Some(trim(l.skip(k + 1)))
        } else {
            None
        }
    }
}

/// The name on the first line that has one.
pub open spec fn first_cpu_name(lines: Seq<Seq<char>>) -> Option<Seq<char>>
    decreases lines.len(),
{
    if lines.len() == 0 {
        None
    } else {
        match first_cpu_name(lines.drop_last()) {
            Some(n) => Some(n),
            None => line_cpu_name(lines.last()),
        }
    }
}

/// The processor name that the text of `/proc/cpuinfo` gives.
pub open spec fn cpuinfo_name_spec(info: Seq<char>) -> Option<Seq<char>> {
    first_cpu_name(fields(info, '\n'))
}

proof fn lemma_first_name_extend(pre: Seq<Seq<char>>, all: Seq<Seq<char>>)
    requires
        pre.len() <= all.len(),
        pre == all.take(pre.len() as int),
        first_cpu_name(pre) is Some,
    ensures
        first_cpu_name(all) == first_cpu_name(pre),
    decreases all.len(),
{
    if pre.len() < all.len() {
        assert(all.drop_last().take(pre.len() as int) == pre);
        lemma_first_name_extend(pre, all.drop_last());
    } else {
        assert(all == pre);
    }
}

/// The name on the line `v[lo..hi]`, if it is a name line.
fn line_name(v: &Vec<char>, lo: usize, hi: usize) -> (r: Option<String>)
    requires
        lo <= hi <= v.len(),
    ensures
        match line_cpu_name(v@.subrange(lo as int, hi as int)) {
            Some(t) => r is Some && r->Some_0@ == t,
            None => r is None,
        },
{
    let ghost line = v@.subrange(lo as int, hi as int);
    let end = if hi > lo && v[hi - 1] == '\r' {
        hi - 1
    } else {
        hi
    };
    let ghost l = v@.subrange(lo as int, end as int);
    assert(l == strip_cr(line));
    let mut k = lo;
    while k < end && v[k] != ':'
        invariant
            lo <= k <= end <= v.len(),
            forall|i: int| lo <= i < k ==> v@[i] != ':',
        decreases end - k,
    {
        k += 1;
    }
    proof {
        assert forall|i: int| 0 <= i < k - lo implies l[i] != ':' by {
            assert(l[i] == v@[lo + i]);
        }
        if k < end {
            assert(l[k - lo] == v@[k as int]);
        }
        crate::cpu_list::lemma_first_index(l, ':', k - lo);
    }
    if k == end {
        return None;
    }
    assert(l.take(k - lo) == v@.subrange(lo as int, k as int));
    assert(l.skip(k - lo + 1) == v@.subrange(k + 1, end as int));
    let (a, b) = trim_bounds(v, lo, k);
    if chars_equal(v, a, b, "model name") || chars_equal(v, a, b, "Hardware") {
        let (c, d) = trim_bounds(v, k + 1, end);
        Some(string_of(v, c, d))
    } else {
        None
    }
}

proof fn lemma_first_name_trimmed(lines: Seq<Seq<char>>)
    ensures
        first_cpu_name(lines) matches Some(n) ==> edge_trimmed(n),
    decreases lines.len(),
{
    if lines.len() > 0 {
        lemma_first_name_trimmed(lines.drop_last());
        let l = strip_cr(lines.last());
        let k = first_index_of(l, ':');
        lemma_trim_edges(l.skip(k + 1));
    }
}

/// The processor name in the text of `/proc/cpuinfo`: the trimmed value of
/// the first `model name` or `Hardware` line.
pub fn cpu_name_from_cpuinfo(info: &str) -> (r: Option<String>)
    ensures
        match cpuinfo_name_spec(info@) {
            Some(t) => r is Some && r->Some_0@ == t,
            None => r is None,
        },
        r matches Some(n) ==> edge_trimmed(n@),
{
    proof {
        lemma_first_name_trimmed(fields(info@, '\n'));
    }
    let v = chars_of(info);
    let mut start: usize = 0;
    let mut j: usize = 0;
    proof {
        assert(v@.take(0) =~= Seq::<char>::empty());
        assert(fields(Seq::<char>::empty(), '\n') == seq![Seq::<char>::empty()]);
        assert(fields(v@.take(0), '\n').drop_last() =~= Seq::<Seq<char>>::empty());
    }
    while j < v.len()
        invariant
            v@ == info@,
            start <= j <= v.len(),
            fields(v@.take(j as int), '\n').len() >= 1,
            fields(v@.take(j as int), '\n').last() == v@.subrange(start as int, j as int),
            first_cpu_name(fields(v@.take(j as int), '\n').drop_last()) is None,
        decreases v.len() - j,
    {
        let ghost f = fields(v@.take(j as int), '\n');
        proof {
            assert(v@.take(j + 1) == v@.take(j as int).push(v@[j as int]));
            lemma_fields_push(v@.take(j as int), v@[j as int], '\n');
        }
        if v[j] == '\n' {
            let ghost g = fields(v@.take(j + 1), '\n');
            assert(g.drop_last() == f);
            assert(f.drop_last().push(f.last()) == f);
            let found = line_name(&v, start, j);
            if found.is_some() {
                proof {
                    lemma_fields_prefix(v@, j + 1, '\n');
                    lemma_first_name_extend(f, fields(v@, '\n'));
                    lemma_first_name_trimmed(f);
                }
                return found;
            }
            start = j + 1;
            assert(g.last() =~= v@.subrange(start as int, j + 1));
        } else {
            let ghost g = fields(v@.take(j + 1), '\n');
            assert(g.drop_last() =~= f.drop_last());
            assert(g.last() =~= v@.subrange(start as int, j + 1));
        }
        j += 1;
    }
    assert(v@.take(v.len() as int) == v@);
    let ghost f = fields(v@, '\n');
    assert(f.drop_last().push(f.last()) == f);
    line_name(&v, start, j)
}

/// The processor name: the CPUID brand string when there is one, else the
/// `/proc/cpuinfo` name, else the system's processor identifier, else the
/// architecture name.
pub fn pick_cpu_name(
    brand: Option<String>,
    cpuinfo: Option<String>,
    identifier: Option<String>,
    arch: &str,
) -> (name: String)
    ensures
        name@ == match brand {
            Some(b) => b@,
            None => match cpuinfo {
                Some(c) => c@,
                None => match identifier {
                    Some(i) => i@,
                    None => arch@,
                },
            },
        },
{
    match brand {
        Some(b) => b,
        None => match cpuinfo {
            Some(c) => c,
            None => match identifier {
                Some(i) => i,
                None => string_from(arch),
            },
        },
    }
}

// ---------------------------------------------------------------------------
// Run records
// ---------------------------------------------------------------------------
/// The CPUs to test: the `--cores` selection, or every logical CPU.
pub fn selected_cpus(cores: &Option<Vec<usize>>, total: usize) -> (v: Vec<usize>)
    ensures
        match cores {
            Some(c) => v@ == c@,
            None => v@ == Seq::new(total as nat, |i: int| i as usize),
        },
{
    match cores {
        Some(c) => {
            let mut v: Vec<usize> = Vec::new();
            let mut i: usize = 0;
            while i < c.len()
                invariant
                    i <= c.len(),
                    v@ == c@.take(i as int),
                decreases c.len() - i,
            {
                v.push(c[i]);
                assert(c@.take(i + 1) == c@.take(i as int).push(c@[i as int]));
                i += 1;
            }
            assert(c@.take(c.len() as int) == c@);
            v
        },
        None => {
            let mut v: Vec<usize> = Vec::new();
            let mut i: usize = 0;
            while i < total
                invariant
                    i <= total,
                    v@ == Seq::new(i as nat, |k: int| k as usize),
                decreases total - i,
            {
                v.push(i);
                assert(v@ =~= Seq::new((i + 1) as nat, |k: int| k as usize));
                i += 1;
            }
            v
        },
    }
}

/// Who was tested: processor name, architecture, CPU counts, feature
/// inventories and operating system.
pub struct CpuIdentity {
    pub name: String,
    pub architecture: String,
    pub logical_cpus: usize,
    pub selected_cpus: usize,
    pub features: Vec<String>,
    pub benchmarked_features: Vec<String>,
    pub os: String,
}

impl CpuIdentity {
    /// The identity record; `os` reads "{os} {arch}".
    pub fn new(
        name: String,
        arch: &str,
        os: &str,
        logical_cpus: usize,
        selected_cpus: usize,
        features: Vec<String>,
        benchmarked_features: Vec<String>,
    ) -> (id: CpuIdentity)
        ensures
            id.name == name,
            id.architecture@ == arch@,
            id.logical_cpus == logical_cpus,
            id.selected_cpus == selected_cpus,
            id.features == features,
            id.benchmarked_features == benchmarked_features,
            id.os@ == os@ + " "@ + arch@,
    {
        let mut label = string_from(os);
        label.append(" ");
        label.append(arch);
        CpuIdentity {
            name,
            architecture: string_from(arch),
            logical_cpus,
            selected_cpus,
            features,
            benchmarked_features,
            os: label,
        }
    }
}

/// How the run was configured, as recorded in the results.
pub struct RunConfig {
    pub duration_ms: u64,
    pub acceleration_duration_ms: u64,
    pub isolated_sequential_run: bool,
}

impl RunConfig {
    /// The record of the settings `cfg`; CPUs are always tested one at a
    /// time.
    pub fn from_config(cfg: &Config) -> (r: RunConfig)
        ensures
            r.duration_ms == cfg.duration_ms,
            r.acceleration_duration_ms == cfg.accel_duration_ms,
            r.isolated_sequential_run,
    {
        RunConfig {
            duration_ms: cfg.duration_ms,
            acceleration_duration_ms: cfg.accel_duration_ms,
            isolated_sequential_run: true,
        }
    }
}

} // verus!

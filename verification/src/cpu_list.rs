//! The `--cores` list: comma-separated CPU numbers and inclusive ranges such as
//! `0,2-5,8`, turned into the sorted set of selected logical CPUs.
use vstd::prelude::*;
use crate::text::{
    all_digits, chars_of, decimal, digit_char, digit_value, digits_value, is_digit,
    lemma_digits_push, parse_usize_chars, parse_usize_spec, push_chars, push_decimal, string_from,
};

verus! {

// ---------------------------------------------------------------------------
// Splitting
// ---------------------------------------------------------------------------
/// Index of the last `c` in `s`, or -1.
pub open spec fn last_index_of(s: Seq<char>, c: char) -> int
    decreases s.len(),
{
    if s.len() == 0 {
        -1
    } else if s.last() == c {
        s.len() - 1
    } else {
        last_index_of(s.drop_last(), c)
    }
}

/// Index of the first `c` in `s`, or -1.
pub open spec fn first_index_of(s: Seq<char>, c: char) -> int
    decreases s.len(),
{
    if s.len() == 0 {
        -1
    } else if s[0] == c {
        0
    } else if first_index_of(s.skip(1), c) < 0 {
        -1
    } else {
        first_index_of(s.skip(1), c) + 1
    }
}

/// `str::split(sep)`: the pieces between separators, empty ones included.
pub open spec fn fields(s: Seq<char>, sep: char) -> Seq<Seq<char>>
    decreases s.len(),
{
    let i = last_index_of(s, sep);
    if 0 <= i < s.len() {
        fields(s.take(i), sep).push(s.skip(i + 1))
    } else {
        seq![s]
    }
}

// ---------------------------------------------------------------------------
// Meaning of a list
// ---------------------------------------------------------------------------
pub open spec fn cpu_range(a: usize, b: usize) -> Set<usize> {
    Set::new(|x: usize| a <= x && x <= b)
}

/// What one comma-separated piece selects: nothing when empty, `a..=b` for
/// `a-b` (split at the first `-`), one CPU otherwise; or the error message.
pub open spec fn part_cpus(p: Seq<char>) -> Result<Set<usize>, Seq<char>> {
    let k = first_index_of(p, '-');
    if p.len() == 0 {
        Ok(Set::empty())
    } else if 0 <= k {
        let a = p.take(k);
        let b = p.skip(k + 1);
        match parse_usize_spec(a) {
            None => Err("invalid CPU: "@ + a),
            Some(start) => match parse_usize_spec(b) {
                None => Err("invalid CPU: "@ + b),
                Some(end) => if start > end {
                    Err("reversed CPU range: "@ + p)
                } else {
                    Ok(cpu_range(start as usize, end as usize))
                },
            },
        }
    } else {
        match parse_usize_spec(p) {
            None => Err("invalid CPU: "@ + p),
            Some(n) => Ok(set![n as usize]),
        }
    }
}

/// The union of what the pieces select, or the first piece's error.
pub open spec fn parts_cpus(parts: Seq<Seq<char>>) -> Result<Set<usize>, Seq<char>>
    decreases parts.len(),
{
    if parts.len() == 0 {
        Ok(Set::empty())
    } else {
        match parts_cpus(parts.drop_last()) {
            Err(m) => Err(m),
            Ok(s) => match part_cpus(parts.last()) {
                Err(m) => Err(m),
                Ok(t) => Ok(s.union(t)),
            },
        }
    }
}

/// The smallest selected CPU at or above `total`.
pub open spec fn least_outside(s: Set<usize>, total: usize) -> usize {
    choose|b: usize|
        s.contains(b) && b >= total && forall|y: usize| s.contains(y) && y >= total ==> b <= y
}

pub open spec fn outside_message(bad: usize, total: usize) -> Seq<char> {
    "CPU "@ + decimal(bad as nat) + " is outside 0.."@ + decimal(
        (if total > 0 {
            total - 1
        } else {
            0
        }) as nat,
    )
}

/// The CPUs that `value` selects among `total` logical CPUs, or the message
/// that rejects it.
pub open spec fn cpu_list_spec(value: Seq<char>, total: usize) -> Result<Set<usize>, Seq<char>> {
    match parts_cpus(fields(value, ',')) {
        Err(m) => Err(m),
        Ok(s) => if forall|x: usize| !s.contains(x) {
            Err("CPU list is empty"@)
        } else if exists|x: usize| s.contains(x) && x >= total {
            Err(outside_message(least_outside(s, total), total))
        } else {
            Ok(s)
        },
    }
}

pub open spec fn strictly_increasing(v: Seq<usize>) -> bool {
    forall|i: int, j: int| 0 <= i < j < v.len() ==> v[i] < v[j]
}

// ---------------------------------------------------------------------------
// Lemmas on splitting
// ---------------------------------------------------------------------------
pub proof fn lemma_last_index_bounds(s: Seq<char>, c: char)
    ensures
        -1 <= last_index_of(s, c) < s.len(),
        last_index_of(s, c) >= 0 ==> s[last_index_of(s, c)] == c,
    decreases s.len(),
{
    if s.len() > 0 && s.last() != c {
        lemma_last_index_bounds(s.drop_last(), c);
    }
}

pub proof fn lemma_fields_push(s: Seq<char>, c: char, sep: char)
    ensures
        fields(s, sep).len() >= 1,
        c != sep ==> fields(s.push(c), sep) == fields(s, sep).drop_last().push(
            fields(s, sep).last().push(c),
        ),
        c == sep ==> fields(s.push(c), sep) == fields(s, sep).push(Seq::<char>::empty()),
    decreases s.len(),
{
    let t = s.push(c);
    assert(t.drop_last() == s);
    lemma_last_index_bounds(s, sep);
    let i = last_index_of(s, sep);
    if i >= 0 {
        lemma_fields_push(s.take(i), sep, sep);
    }
    if c == sep {
        assert(last_index_of(t, sep) == s.len());
        assert(t.take(s.len() as int) == s);
        assert(t.skip(s.len() as int + 1) =~= Seq::<char>::empty());
    } else {
        assert(last_index_of(t, sep) == i);
        if i >= 0 {
            assert(t.take(i) == s.take(i));
            assert(t.skip(i + 1) == s.skip(i + 1).push(c));
        }
    }
}

pub proof fn lemma_first_index(s: Seq<char>, c: char, k: int)
    requires
        0 <= k <= s.len(),
        forall|i: int| 0 <= i < k ==> s[i] != c,
        k == s.len() || s[k] == c,
    ensures
        first_index_of(s, c) == (if k == s.len() {
            -1
        } else {
            k
        }),
    decreases k,
{
    if k > 0 {
        let t = s.skip(1);
        assert forall|i: int| 0 <= i < k - 1 implies t[i] != c by {
            assert(t[i] == s[i + 1]);
        }
        if k < s.len() {
            assert(t[k - 1] == s[k]);
        }
        lemma_first_index(t, c, k - 1);
    }
}

// ---------------------------------------------------------------------------
// Execution
// ---------------------------------------------------------------------------
/// What the piece `v[lo..hi]` selects: `Ok(None)` for an empty piece,
/// `Ok(Some((a, b)))` for the CPUs `a..=b`.
fn part_range(v: &Vec<char>, lo: usize, hi: usize) -> (r: Result<Option<(usize, usize)>, String>)
    requires
        lo <= hi <= v.len(),
    ensures
        ({
            let p = v@.subrange(lo as int, hi as int);
            match part_cpus(p) {
                Err(m) => r is Err && r->Err_0@ == m,
                Ok(t) => r is Ok && match r->Ok_0 {
                    None => t == Set::<usize>::empty() && p.len() == 0,
                    Some((a, b)) => a <= b && t == cpu_range(a, b),
                },
            }
        }),
{
    let ghost p = v@.subrange(lo as int, hi as int);
    if lo == hi {
        return Ok(None);
    }
    let mut k = lo;
    while k < hi && v[k] != '-'
        invariant
            lo <= k <= hi <= v.len(),
            forall|i: int| lo <= i < k ==> v@[i] != '-',
        decreases hi - k,
    {
        k += 1;
    }
    proof {
        assert forall|i: int| 0 <= i < k - lo implies p[i] != '-' by {
            assert(p[i] == v@[lo + i]);
        }
        if k < hi {
            assert(p[k - lo] == v@[k as int]);
        }
        lemma_first_index(p, '-', k - lo);
    }
    if k < hi {
        assert(p.take(k - lo) == v@.subrange(lo as int, k as int));
        assert(p.skip(k - lo + 1) == v@.subrange(k + 1, hi as int));
        let start = match parse_usize_chars(v, lo, k) {
            Some(n) => n,
            None => {
                let mut m = string_from("invalid CPU: ");
                push_chars(&mut m, v, lo, k);
                return Err(m);
            },
        };
        let end = match parse_usize_chars(v, k + 1, hi) {
            Some(n) => n,
            None => {
                let mut m = string_from("invalid CPU: ");
                push_chars(&mut m, v, k + 1, hi);
                return Err(m);
            },
        };
        if start > end {
            let mut m = string_from("reversed CPU range: ");
            push_chars(&mut m, v, lo, hi);
            return Err(m);
        }
        Ok(Some((start, end)))
    } else {
        match parse_usize_chars(v, lo, hi) {
            Some(n) => {
                assert(set![n] =~= cpu_range(n, n));
                Ok(Some((n, n)))
            },
            None => {
                let mut m = string_from("invalid CPU: ");
                push_chars(&mut m, v, lo, hi);
                Err(m)
            },
        }
    }
}

/// What has been selected so far: `marks[x]` for each CPU below `total`,
/// whether anything was selected, and the least selected CPU at or above
/// `total`.
pub open spec fn tracks(
    marks: Seq<bool>,
    any: bool,
    outside: Option<usize>,
    s: Set<usize>,
    total: usize,
) -> bool {
    &&& marks.len() == total
    &&& forall|x: int| 0 <= x < total ==> marks[x] == s.contains(x as usize)
    &&& any == exists|x: usize| s.contains(x)
    &&& match outside {
        Some(b) => s.contains(b) && b >= total && forall|y: usize|
            s.contains(y) && y >= total ==> b <= y,
        None => forall|y: usize| s.contains(y) ==> y < total,
    }
}

/// Adds the CPUs `a..=b` to the tracked selection.
fn select_range(
    marks: &mut Vec<bool>,
    any: &mut bool,
    outside: &mut Option<usize>,
    a: usize,
    b: usize,
    total: usize,
    Ghost(s): Ghost<Set<usize>>,
)
    requires
        a <= b,
        tracks(old(marks)@, *old(any), *old(outside), s, total),
    ensures
        tracks(final(marks)@, *final(any), *final(outside), s.union(cpu_range(a, b)), total),
{
    let ghost u = s.union(cpu_range(a, b));
    let ghost m0 = marks@;
    let mut x = a;
    while x < total && x <= b
        invariant
            a <= x,
            x <= b + 1,
            marks@.len() == total,
            forall|y: int| 0 <= y < total ==> marks@[y] == (m0[y] || (a <= y < x)),
        decreases total - x,
    {
        marks.set(x, true);
        x += 1;
    }
    assert forall|y: int| 0 <= y < total implies marks@[y] == u.contains(y as usize) by {
        assert(u.contains(y as usize) == (s.contains(y as usize) || (a <= y && y <= b)));
        assert(m0[y] == s.contains(y as usize));
    }
    assert(u.contains(a));
    *any = true;
    if b >= total {
        let cand = if a > total {
            a
        } else {
            total
        };
        assert(u.contains(cand));
        match *outside {
            Some(o) => {
                if cand < o {
                    *outside = Some(cand);
                }
            },
            None => {
                *outside = Some(cand);
            },
        }
    }
}

/// Adds what the piece `v[start..j]` selects to the tracked selection of the
/// pieces `done`.
fn absorb_part(
    v: &Vec<char>,
    start: usize,
    j: usize,
    total: usize,
    marks: &mut Vec<bool>,
    any: &mut bool,
    outside: &mut Option<usize>,
    Ghost(done): Ghost<Seq<Seq<char>>>,
) -> (r: Result<(), String>)
    requires
        start <= j <= v.len(),
        parts_cpus(done) is Ok,
        tracks(old(marks)@, *old(any), *old(outside), parts_cpus(done)->Ok_0, total),
    ensures
        match parts_cpus(done.push(v@.subrange(start as int, j as int))) {
            Err(m) => r is Err && r->Err_0@ == m,
            Ok(s) => r is Ok && tracks(final(marks)@, *final(any), *final(outside), s, total),
        },
{
    let ghost all = done.push(v@.subrange(start as int, j as int));
    assert(all.drop_last() == done);
    match part_range(v, start, j) {
        Err(m) => Err(m),
        Ok(None) => {
            assert(parts_cpus(done)->Ok_0.union(Set::<usize>::empty()) =~= parts_cpus(done)->Ok_0);
            Ok(())
        },
        Ok(Some((a, b))) => {
            select_range(marks, any, outside, a, b, total, Ghost(parts_cpus(done)->Ok_0));
            Ok(())
        },
    }
}

/// `--cores` value: the sorted, duplicate-free list of the CPUs that
/// `value` names, each below `total`; or the message that rejects it.
pub fn parse_core_list(value: &str, total: usize) -> (r: Result<Vec<usize>, String>)
    ensures
        match cpu_list_spec(value@, total) {
            Ok(s) => r is Ok && r->Ok_0@.to_set() == s && strictly_increasing(r->Ok_0@) && forall|
                i: int,
            | 0 <= i < r->Ok_0.len() ==> r->Ok_0@[i] < total,
            Err(m) => r is Err && r->Err_0@ == m,
        },
{
    let v = chars_of(value);
    let mut marks: Vec<bool> = Vec::new();
    while marks.len() < total
        invariant
            marks.len() <= total,
            forall|i: int| 0 <= i < marks.len() ==> !marks@[i],
        decreases total - marks.len(),
    {
        marks.push(false);
    }
    let mut any = false;
    let mut outside: Option<usize> = None;
    let mut start: usize = 0;
    let mut j: usize = 0;
    proof {
        assert(v@.take(0) =~= Seq::<char>::empty());
        assert(last_index_of(Seq::<char>::empty(), ',') == -1);
        assert(fields(Seq::<char>::empty(), ',') == seq![Seq::<char>::empty()]);
        assert(fields(v@.take(0), ',').drop_last() =~= Seq::<Seq<char>>::empty());
    }
    while j < v.len()
        invariant
            v@ == value@,
            start <= j <= v.len(),
            fields(v@.take(j as int), ',').len() >= 1,
            fields(v@.take(j as int), ',').last() == v@.subrange(start as int, j as int),
            parts_cpus(fields(v@.take(j as int), ',').drop_last()) is Ok,
            tracks(
                marks@,
                any,
                outside,
                parts_cpus(fields(v@.take(j as int), ',').drop_last())->Ok_0,
                total,
            ),
        decreases v.len() - j,
    {
        let ghost f = fields(v@.take(j as int), ',');
        proof {
            assert(v@.take(j + 1) == v@.take(j as int).push(v@[j as int]));
            lemma_fields_push(v@.take(j as int), v@[j as int], ',');
        }
        if v[j] == ',' {
            let ghost g = fields(v@.take(j + 1), ',');
            assert(g.drop_last() == f);
            assert(f =~= f.drop_last().push(v@.subrange(start as int, j as int)));
            let absorbed = absorb_part(
                &v,
                start,
                j,
                total,
                &mut marks,
                &mut any,
                &mut outside,
                Ghost(f.drop_last()),
            );
            if let Err(m) = absorbed {
                proof {
                    lemma_parts_err_prefix(g.drop_last(), fields(v@, ','), v@, j as int + 1);
                }
                return Err(m);
            }
            start = j + 1;
            assert(g.last() =~= v@.subrange(start as int, j + 1));
        } else {
            let ghost g = fields(v@.take(j + 1), ',');
            assert(g.drop_last() =~= f.drop_last());
            assert(g.last() =~= v@.subrange(start as int, j + 1));
        }
        j += 1;
    }
    assert(v@.take(v.len() as int) == v@);
    let ghost f = fields(v@, ',');
    assert(f == f.drop_last().push(f.last()));
    assert(f =~= f.drop_last().push(v@.subrange(start as int, j as int)));
    let absorbed = absorb_part(
        &v,
        start,
        j,
        total,
        &mut marks,
        &mut any,
        &mut outside,
        Ghost(f.drop_last()),
    );
    if let Err(m) = absorbed {
        return Err(m);
    }
    let ghost s = parts_cpus(f)->Ok_0;
    if !any {
        return Err(string_from("CPU list is empty"));
    }
    if let Some(bad) = outside {
        proof {
            let c = least_outside(s, total);
            assert(s.contains(bad) && bad >= total);
            assert(s.contains(c) && c >= total && forall|y: usize|
                s.contains(y) && y >= total ==> c <= y);
            assert(c == bad);
        }
        let mut m = string_from("CPU ");
        push_decimal(&mut m, bad as u64);
        m.append(" is outside 0..");
        push_decimal(&mut m, total.saturating_sub(1) as u64);
        return Err(m);
    }
    let mut out: Vec<usize> = Vec::new();
    let mut x: usize = 0;
    while x < total
        invariant
            x <= total,
            marks@.len() == total,
            tracks(marks@, any, outside, s, total),
            strictly_increasing(out@),
            forall|i: int| 0 <= i < out.len() ==> out@[i] < x,
            x <= total,
            forall|y: usize| (s.contains(y) && y < x) <==> out@.contains(y),
        decreases total - x,
    {
        let ghost old_out = out@;
        if marks[x] {
            out.push(x);
        }
        proof {
            assert forall|y: usize| (s.contains(y) && y < x + 1) implies out@.contains(y) by {
                if y == x {
                    assert(out@[out.len() - 1] == y);
                } else {
                    assert(old_out.contains(y));
                    let i = choose|i: int| 0 <= i < old_out.len() && old_out[i] == y;
                    assert(out@[i] == y);
                }
            }
            assert forall|y: usize| out@.contains(y) implies (s.contains(y) && y < x + 1) by {
                let i = choose|i: int| 0 <= i < out@.len() && out@[i] == y;
                if i < old_out.len() {
                    assert(old_out[i] == y);
                    assert(old_out.contains(y));
                }
            }
        }
        x += 1;
    }
    proof {
        assert forall|y: usize| s.contains(y) <==> out@.to_set().contains(y) by {
            if s.contains(y) {
                assert(y < total);
            }
        }
        assert(out@.to_set() =~= s);
    }
    Ok(out)
}

/// When the pieces of a prefix already fail, the whole list fails with the
/// same message.
proof fn lemma_parts_err_prefix(
    pre: Seq<Seq<char>>,
    all: Seq<Seq<char>>,
    v: Seq<char>,
    j: int,
)
    requires
        0 <= j <= v.len(),
        pre == fields(v.take(j), ',').drop_last(),
        all == fields(v, ','),
        parts_cpus(pre) is Err,
    ensures
        parts_cpus(all) == parts_cpus(pre),
    decreases v.len() - j,
{
    lemma_fields_prefix(v, j, ',');
    lemma_parts_err_extend(pre, all);
}

/// The completed pieces of a prefix are a prefix of the pieces of the whole.
pub proof fn lemma_fields_prefix(v: Seq<char>, j: int, sep: char)
    requires
        0 <= j <= v.len(),
    ensures
        fields(v.take(j), sep).len() >= 1,
        fields(v.take(j), sep).drop_last().len() <= fields(v, sep).len(),
        fields(v.take(j), sep).drop_last() == fields(v, sep).take(
            fields(v.take(j), sep).len() - 1,
        ),
    decreases v.len() - j,
{
    lemma_fields_push(v.take(j), sep, sep);
    if j == v.len() {
        assert(v.take(j) == v);
        let f = fields(v, sep);
        assert(f.drop_last() == f.take(f.len() - 1));
    } else {
        lemma_fields_prefix(v, j + 1, sep);
        assert(v.take(j + 1) == v.take(j).push(v[j]));
        lemma_fields_push(v.take(j), v[j], sep);
        let f = fields(v.take(j), sep);
        let g = fields(v.take(j + 1), sep);
        let all = fields(v, sep);
        if v[j] == sep {
            assert(g.drop_last() == f);
            assert(f.drop_last() == all.take(f.len() - 1)) by {
                assert(f == all.take(g.len() - 1));
                assert(f.drop_last() =~= all.take(g.len() - 1).take(f.len() - 1));
            }
        } else {
            assert(g.drop_last() == f.drop_last());
            assert(g.len() == f.len());
        }
    }
}

proof fn lemma_parts_err_extend(pre: Seq<Seq<char>>, all: Seq<Seq<char>>)
    requires
        pre.len() <= all.len(),
        pre == all.take(pre.len() as int),
        parts_cpus(pre) is Err,
    ensures
        parts_cpus(all) == parts_cpus(pre),
    decreases all.len(),
{
    if pre.len() < all.len() {
        assert(all.drop_last().take(pre.len() as int) == pre);
        lemma_parts_err_extend(pre, all.drop_last());
    } else {
        assert(all == pre);
    }
}

// ---------------------------------------------------------------------------
// Joining lists
// ---------------------------------------------------------------------------
proof fn lemma_last_index_concat(a: Seq<char>, b: Seq<char>, sep: char)
    ensures
        last_index_of(a + seq![sep] + b, sep) == if last_index_of(b, sep) >= 0 {
            a.len() + 1 + last_index_of(b, sep)
        } else {
            a.len() as int
        },
    decreases b.len(),
{
    let x = a + seq![sep] + b;
    if b.len() == 0 {
        assert(x == a.push(sep));
        assert(x.drop_last() == a);
    } else {
        assert(x.drop_last() == a + seq![sep] + b.drop_last());
        assert(x.last() == b.last());
        lemma_last_index_concat(a, b.drop_last(), sep);
    }
}

/// Splitting `a,b` gives the pieces of `a` followed by those of `b`.
pub proof fn lemma_fields_concat(a: Seq<char>, b: Seq<char>, sep: char)
    ensures
        fields(a + seq![sep] + b, sep) == fields(a, sep) + fields(b, sep),
    decreases b.len(),
{
    let x = a + seq![sep] + b;
    lemma_last_index_concat(a, b, sep);
    lemma_last_index_bounds(b, sep);
    let j = last_index_of(b, sep);
    if j >= 0 {
        let i = a.len() + 1 + j;
        assert(x.take(i) == a + seq![sep] + b.take(j));
        assert(x.skip(i + 1) == b.skip(j + 1));
        lemma_fields_concat(a, b.take(j), sep);
        assert(fields(x, sep) == fields(x.take(i), sep).push(x.skip(i + 1)));
        assert(fields(b, sep) == fields(b.take(j), sep).push(b.skip(j + 1)));
        assert(fields(a, sep) + fields(b.take(j), sep).push(b.skip(j + 1)) =~= (fields(a, sep)
            + fields(b.take(j), sep)).push(b.skip(j + 1)));
    } else {
        let i = a.len() as int;
        assert(x.take(i) == a);
        assert(x.skip(i + 1) == b);
        assert(fields(b, sep) == seq![b]);
        assert(fields(a, sep).push(b) =~= fields(a, sep) + seq![b]);
    }
}

proof fn lemma_parts_concat(p: Seq<Seq<char>>, q: Seq<Seq<char>>)
    requires
        parts_cpus(p) is Ok,
        parts_cpus(q) is Ok,
    ensures
        parts_cpus(p + q) == Ok::<Set<usize>, Seq<char>>(
            parts_cpus(p)->Ok_0.union(parts_cpus(q)->Ok_0),
        ),
    decreases q.len(),
{
    if q.len() == 0 {
        assert(p + q == p);
        assert(parts_cpus(p)->Ok_0.union(Set::<usize>::empty()) =~= parts_cpus(p)->Ok_0);
    } else {
        assert((p + q).drop_last() == p + q.drop_last());
        assert((p + q).last() == q.last());
        lemma_parts_concat(p, q.drop_last());
        let sp = parts_cpus(p)->Ok_0;
        let sq = parts_cpus(q.drop_last())->Ok_0;
        let t = part_cpus(q.last())->Ok_0;
        assert(sp.union(sq).union(t) =~= sp.union(sq.union(t)));
    }
}

/// Joining two accepted lists with a comma selects the union of their
/// selections; in particular the order of the pieces does not matter.
pub proof fn lemma_core_list_union(a: Seq<char>, b: Seq<char>, total: usize)
    requires
        cpu_list_spec(a, total) is Ok,
        cpu_list_spec(b, total) is Ok,
    ensures
        cpu_list_spec(a + seq![','] + b, total) == Ok::<Set<usize>, Seq<char>>(
            cpu_list_spec(a, total)->Ok_0.union(cpu_list_spec(b, total)->Ok_0),
        ),
{
    lemma_fields_concat(a, b, ',');
    lemma_parts_concat(fields(a, ','), fields(b, ','));
    let sa = cpu_list_spec(a, total)->Ok_0;
    let sb = cpu_list_spec(b, total)->Ok_0;
    let u = sa.union(sb);
    let x = choose|x: usize| sa.contains(x);
    assert(u.contains(x));
    assert(!exists|y: usize| u.contains(y) && y >= total);
}

// ---------------------------------------------------------------------------
// Normalised lists
// ---------------------------------------------------------------------------
/// The normalised text of a CPU list: the decimal numerals joined by commas.
pub open spec fn joined_list(v: Seq<usize>) -> Seq<char>
    decreases v.len(),
{
    if v.len() == 0 {
        Seq::empty()
    } else if v.len() == 1 {
        decimal(v[0] as nat)
    } else {
        joined_list(v.drop_last()) + seq![','] + decimal(v.last() as nat)
    }
}

proof fn lemma_decimal_digits(n: nat)
    ensures
        decimal(n).len() > 0,
        all_digits(decimal(n)),
        digits_value(decimal(n)) == n,
    decreases n,
{
    let d = n % 10;
    assert(digit_char(d) as int == d + 48);
    assert(digit_value(digit_char(d)) == d);
    if n < 10 {
        let s = decimal(n);
        assert(s == seq![digit_char(n)]);
        assert(s.drop_last() =~= Seq::<char>::empty());
        vstd::arithmetic::div_mod::lemma_small_mod(n, 10);
        assert(digits_value(s) == digits_value(s.drop_last()) * 10 + digit_value(s.last()));
        assert(is_digit(s[0]));
    } else {
        lemma_decimal_digits(n / 10);
        vstd::arithmetic::div_mod::lemma_fundamental_div_mod(n as int, 10);
        let p = decimal(n / 10);
        assert(decimal(n) == p.push(digit_char(d)));
        lemma_digits_push(p, digit_char(d));
        let s = p.push(digit_char(d));
        assert(forall|i: int| 0 <= i < s.len() ==> is_digit(#[trigger] s[i])) by {
            assert forall|i: int| 0 <= i < s.len() implies is_digit(#[trigger] s[i]) by {
                if i < p.len() {
                    assert(s[i] == p[i]);
                }
            }
        }
    }
}

/// The numeral of one CPU below `total` selects exactly that CPU.
proof fn lemma_single_cpu(n: usize, total: usize)
    requires
        n < total,
    ensures
        cpu_list_spec(decimal(n as nat), total) == Ok::<Set<usize>, Seq<char>>(set![n]),
{
    let s = decimal(n as nat);
    lemma_decimal_digits(n as nat);
    assert forall|i: int| 0 <= i < s.len() implies s[i] != ',' && s[i] != '-' && s[i] != '+' by {
        assert(is_digit(s[i]));
    }
    lemma_last_index_bounds(s, ',');
    assert(fields(s, ',') == seq![s]);
    lemma_first_index(s, '-', s.len() as int);
    assert(s[0] != '+');
    assert(parse_usize_spec(s) == Some(n as nat));
    assert(part_cpus(s) == Ok::<Set<usize>, Seq<char>>(set![n]));
    let parts = seq![s];
    assert(parts.drop_last() =~= Seq::<Seq<char>>::empty());
    assert(parts_cpus(parts.drop_last()) == Ok::<Set<usize>, Seq<char>>(Set::empty()));
    assert(parts.last() == s);
    assert(Set::<usize>::empty().union(set![n]) =~= set![n]);
    assert(parts_cpus(parts) == Ok::<Set<usize>, Seq<char>>(set![n]));
    assert(set![n].contains(n));
    assert(forall|x: usize| set![n].contains(x) ==> x < total);
}

/// Re-reading the normalised text of an accepted list selects the same CPUs;
/// so, the list being sorted and free of duplicates, parsing it again gives
/// it back unchanged.
pub proof fn lemma_normalized_list_reparses(v: Seq<usize>, total: usize)
    requires
        v.len() > 0,
        forall|i: int| 0 <= i < v.len() ==> v[i] < total,
    ensures
        cpu_list_spec(joined_list(v), total) == Ok::<Set<usize>, Seq<char>>(v.to_set()),
    decreases v.len(),
{
    if v.len() == 1 {
        lemma_single_cpu(v[0], total);
        assert(v.to_set() =~= set![v[0]]) by {
            assert forall|x: usize| v.to_set().contains(x) <==> x == v[0] by {
                if x == v[0] {
                    assert(v.contains(x));
                }
            }
        }
    } else {
        let p = v.drop_last();
        lemma_normalized_list_reparses(p, total);
        lemma_single_cpu(v.last(), total);
        lemma_core_list_union(joined_list(p), decimal(v.last() as nat), total);
        assert(v.to_set() =~= p.to_set().union(set![v.last()])) by {
            assert forall|x: usize| v.to_set().contains(x) <==> p.to_set().union(
                set![v.last()],
            ).contains(x) by {
                if v.contains(x) {
                    let i = choose|i: int| 0 <= i < v.len() && v[i] == x;
                    if i < p.len() {
                        assert(p[i] == x);
                    }
                }
                if p.contains(x) {
                    let i = choose|i: int| 0 <= i < p.len() && p[i] == x;
                    assert(v[i] == x);
                }
                if x == v.last() {
                    assert(v[v.len() - 1] == x);
                }
            }
        }
    }
}

/// Two sorted, duplicate-free lists of the same CPUs are the same list.
pub proof fn lemma_sorted_lists_equal(v: Seq<usize>, w: Seq<usize>)
    requires
        strictly_increasing(v),
        strictly_increasing(w),
        v.to_set() == w.to_set(),
    ensures
        v == w,
    decreases v.len() + w.len(),
{
    if v.len() == 0 || w.len() == 0 {
        if v.len() > 0 {
            assert(v.to_set().contains(v[0]));
            assert(w.to_set().contains(v[0]));
        }
        if w.len() > 0 {
            assert(w.to_set().contains(w[0]));
            assert(v.to_set().contains(w[0]));
        }
        assert(v =~= w);
    } else {
        let a = v.last();
        let b = w.last();
        assert(v.to_set().contains(a));
        assert(w.to_set().contains(b));
        let j = choose|j: int| 0 <= j < w.len() && w[j] == a;
        let i = choose|i: int| 0 <= i < v.len() && v[i] == b;
        assert(a == b);
        let pv = v.drop_last();
        let pw = w.drop_last();
        assert(pv.to_set() =~= pw.to_set()) by {
            assert forall|x: usize| pv.to_set().contains(x) <==> pw.to_set().contains(x) by {
                if pv.contains(x) {
                    let k = choose|k: int| 0 <= k < pv.len() && pv[k] == x;
                    assert(v[k] == x && x < a);
                    assert(w.to_set().contains(x));
                    let m = choose|m: int| 0 <= m < w.len() && w[m] == x;
                    assert(m < w.len() - 1);
                    assert(pw[m] == x);
                }
                if pw.contains(x) {
                    let k = choose|k: int| 0 <= k < pw.len() && pw[k] == x;
                    assert(w[k] == x && x < b);
                    assert(v.to_set().contains(x));
                    let m = choose|m: int| 0 <= m < v.len() && v[m] == x;
                    assert(m < v.len() - 1);
                    assert(pv[m] == x);
                }
            }
        }
        lemma_sorted_lists_equal(pv, pw);
        assert(v =~= pv.push(a));
        assert(w =~= pw.push(b));
    }
}

} // verus!

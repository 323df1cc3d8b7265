//! Decoding of the processor-core relation records that Windows returns from
//! `GetLogicalProcessorInformationEx(RelationProcessorCore)` into a topology
//! table.
//!
//! Each record starts with a 32-bit relationship (0 = processor core) and a
//! 32-bit size; at offset 30 a 16-bit count of `GROUP_AFFINITY` entries
//! follows, and the entries start at offset 32. An entry is an affinity mask
//! of `mask_bytes` bytes (the width of `usize`), a 16-bit group number and
//! three reserved 16-bit words. All numbers are little-endian.
use vstd::prelude::*;
use crate::affinity::{
    fallback_spec, fallback_topology, group_base, lemma_group_base_monotone, topology_view,
    CpuTopology, TopologySpec,
};

verus! {

// ---------------------------------------------------------------------------
// Little-endian numbers
// ---------------------------------------------------------------------------
/// The little-endian number held by `d[o..o + n]`.
pub open spec fn le(d: Seq<u8>, o: int, n: nat) -> nat
    decreases n,
{
    if n == 0 {
        0
    } else {
        d[o] as nat + 256 * le(d, o + 1, (n - 1) as nat)
    }
}

pub open spec fn pow256(n: nat) -> nat
    decreases n,
{
    if n == 0 {
        1
    } else {
        256 * pow256((n - 1) as nat)
    }
}

proof fn lemma_pow256_monotone(a: nat, b: nat)
    requires
        a <= b,
    ensures
        1 <= pow256(a) <= pow256(b),
    decreases b,
{
    if a < b {
        lemma_pow256_monotone(a, (b - 1) as nat);
    } else if a > 0 {
        lemma_pow256_monotone((a - 1) as nat, (a - 1) as nat);
    }
}

/// Reads the `n`-byte little-endian number at `d[o..]`.
fn read_le(d: &[u8], o: usize, n: usize) -> (v: u64)
    requires
        n <= 8,
        o + n <= d.len(),
    ensures
        v == le(d@, o as int, n as nat),
        v < pow256(n as nat),
{
    let mut v: u64 = 0;
    let mut k: usize = n;
    proof {
        reveal_with_fuel(pow256, 8);
        assert(pow256(7) == 0x100000000000000);
    }
    while k > 0
        invariant
            k <= n <= 8,
            o + n <= d.len(),
            v == le(d@, o + k, (n - k) as nat),
            v < pow256((n - k) as nat),
            pow256(7) == 0x100000000000000,
        decreases k,
    {
        k -= 1;
        proof {
            lemma_pow256_monotone((n - k - 1) as nat, 7);
        }
        let b = d[o + k];
        let ghost p = pow256((n - k - 1) as nat);
        assert(v * 256 + b < 256 * p) by (nonlinear_arith)
            requires
                v < p,
                b < 256,
        ;
        assert(v * 256 + b < 0x10000000000000000) by (nonlinear_arith)
            requires
                v < p,
                p <= 0x100000000000000,
                b < 256,
        ;
        v = v * 256 + b as u64;
    }
    v
}

// ---------------------------------------------------------------------------
// The CPUs of one record
// ---------------------------------------------------------------------------
/// The CPUs whose bits are set in mask `m`, reading bits `bit..width`, each
/// numbered `base + bit` and kept only when below `total`; in bit order.
pub open spec fn set_bits(m: nat, bit: nat, width: nat, base: nat, total: nat) -> Seq<usize>
    decreases width - bit,
{
    if bit >= width {
        Seq::empty()
    } else if m % 2 == 1 && base + bit < total {
        seq![(base + bit) as usize] + set_bits(m / 2, bit + 1, width, base, total)
    } else {
        set_bits(m / 2, bit + 1, width, base, total)
    }
}

/// The first CPU number of processor group `g`; 0 for an unknown group.
pub open spec fn base_of_group(counts: Seq<u32>, g: nat) -> nat {
    if g < counts.len() {
        group_base(counts, g)
    } else {
        0
    }
}

pub open spec fn entry_size(mask_bytes: nat) -> nat {
    mask_bytes + 8
}

/// The CPUs named by the affinity entries `index..count` of the record at
/// `offset` of `size` bytes, entry after entry; an entry that would run past
/// the record ends the list.
pub open spec fn entry_cpus(
    d: Seq<u8>,
    offset: nat,
    size: nat,
    index: nat,
    count: nat,
    mask_bytes: nat,
    counts: Seq<u32>,
    total: nat,
) -> Seq<usize>
    decreases count - index,
{
    if index >= count {
        Seq::empty()
    } else {
        let aoff = offset + 32 + index * entry_size(mask_bytes);
        if aoff + entry_size(mask_bytes) > offset + size {
            Seq::empty()
        } else {
            let mask = le(d, aoff as int, mask_bytes);
            let group = le(d, (aoff + mask_bytes) as int, 2);
            set_bits(mask, 0, mask_bytes * 8, base_of_group(counts, group), total) + entry_cpus(
                d,
                offset,
                size,
                index + 1,
                count,
                mask_bytes,
                counts,
                total,
            )
        }
    }
}

// ---------------------------------------------------------------------------
// Mask bits, read from the raw bytes
// ---------------------------------------------------------------------------
/// Binary digit `k` of `x` (digit 0 is the lowest).
pub open spec fn bit_of(x: nat, k: nat) -> bool
    decreases k,
{
    if k == 0 {
        x % 2 == 1
    } else {
        bit_of(x / 2, (k - 1) as nat)
    }
}

/// Bit `b` of the little-endian mask that starts at `d[o]`: bit `b % 8` of
/// byte `o + b / 8`.
pub open spec fn mask_bit_set(d: Seq<u8>, o: nat, b: nat) -> bool {
    bit_of(d[(o + b / 8) as int] as nat, b % 8)
}

/// The 16-bit group number of the affinity entry whose mask of `mask_bytes`
/// bytes starts at `d[o]`.
pub open spec fn entry_group(d: Seq<u8>, o: nat, mask_bytes: nat) -> nat {
    d[(o + mask_bytes) as int] as nat + 256 * d[(o + mask_bytes + 1) as int] as nat
}

spec fn two_pow(j: nat) -> nat
    decreases j,
{
    if j == 0 {
        1
    } else {
        2 * two_pow((j - 1) as nat)
    }
}

proof fn lemma_bit_split(x: nat, r: nat, j: nat, b: nat)
    requires
        x < two_pow(j),
    ensures
        b < j ==> bit_of(x + two_pow(j) * r, b) == bit_of(x, b),
        b >= j ==> bit_of(x + two_pow(j) * r, b) == bit_of(r, (b - j) as nat),
    decreases j,
{
    if j > 0 {
        let q = two_pow((j - 1) as nat) * r;
        assert(two_pow(j) * r == 2 * q) by (nonlinear_arith)
            requires
                two_pow(j) == 2 * two_pow((j - 1) as nat),
                q == two_pow((j - 1) as nat) * r,
        ;
        assert((x + 2 * q) / 2 == x / 2 + q);
        assert((x + 2 * q) % 2 == x % 2);
        if b > 0 {
            lemma_bit_split(x / 2, r, (j - 1) as nat, (b - 1) as nat);
        }
    }
}

proof fn lemma_le_bit(d: Seq<u8>, o: nat, n: nat, b: nat)
    requires
        o + n <= d.len(),
        b < 8 * n,
    ensures
        bit_of(le(d, o as int, n), b) == mask_bit_set(d, o, b),
    decreases n,
{
    let rest = le(d, o + 1int, (n - 1) as nat);
    assert(two_pow(8) == 256) by {
        reveal_with_fuel(two_pow, 9);
    }
    lemma_bit_split(d[o as int] as nat, rest, 8, b);
    if b >= 8 {
        lemma_le_bit(d, o + 1, (n - 1) as nat, (b - 8) as nat);
        assert(o + 1 + (b - 8) as nat / 8 == o + b / 8);
        assert((b - 8) as nat % 8 == b % 8);
    }
}

proof fn lemma_set_bits_has(m: nat, bit: nat, width: nat, base: nat, total: nat, b: nat)
    requires
        bit <= b < width,
        bit_of(m, (b - bit) as nat),
        base + b < total,
    ensures
        set_bits(m, bit, width, base, total).contains((base + b) as usize),
    decreases b - bit,
{
    let s = set_bits(m, bit, width, base, total);
    if b == bit {
        assert(s[0] == (base + b) as usize);
    } else {
        lemma_set_bits_has(m / 2, bit + 1, width, base, total, b);
        let t = set_bits(m / 2, bit + 1, width, base, total);
        let k = choose|k: int| 0 <= k < t.len() && t[k] == (base + b) as usize;
        if m % 2 == 1 && base + bit < total {
            assert(s[k + 1] == (base + b) as usize);
        } else {
            assert(s[k] == (base + b) as usize);
        }
    }
}

proof fn lemma_entry_cpus_has(
    d: Seq<u8>,
    offset: nat,
    size: nat,
    j: nat,
    index: nat,
    count: nat,
    mask_bytes: nat,
    counts: Seq<u32>,
    total: nat,
    b: nat,
)
    requires
        j <= index < count,
        offset + 32 + (index + 1) * entry_size(mask_bytes) <= offset + size,
        offset + size <= d.len(),
        b < 8 * mask_bytes,
        mask_bit_set(d, offset + 32 + index * entry_size(mask_bytes), b),
        base_of_group(
            counts,
            entry_group(d, offset + 32 + index * entry_size(mask_bytes), mask_bytes),
        ) + b < total,
    ensures
        entry_cpus(d, offset, size, j, count, mask_bytes, counts, total).contains(
            (base_of_group(
                counts,
                entry_group(d, offset + 32 + index * entry_size(mask_bytes), mask_bytes),
            ) + b) as usize,
        ),
    decreases index - j,
{
    let es = entry_size(mask_bytes);
    let aoff = offset + 32 + j * es;
    let x = (base_of_group(
        counts,
        entry_group(d, offset + 32 + index * es, mask_bytes),
    ) + b) as usize;
    assert(j * es + es <= (index + 1) * es) by (nonlinear_arith)
        requires
            j <= index,
    ;
    assert(aoff + es <= offset + size);
    let mask = le(d, aoff as int, mask_bytes);
    let group = le(d, (aoff + mask_bytes) as int, 2);
    let here = set_bits(mask, 0, mask_bytes * 8, base_of_group(counts, group), total);
    let rest = entry_cpus(d, offset, size, j + 1, count, mask_bytes, counts, total);
    assert(entry_cpus(d, offset, size, j, count, mask_bytes, counts, total) == here + rest);
    if j == index {
        assert(group == entry_group(d, aoff, mask_bytes)) by {
            reveal_with_fuel(le, 3);
        }
        lemma_le_bit(d, aoff, mask_bytes, b);
        lemma_set_bits_has(mask, 0, mask_bytes * 8, base_of_group(counts, group), total, b);
        let k = choose|k: int| 0 <= k < here.len() && here[k] == x;
        assert((here + rest)[k] == x);
    } else {
        lemma_entry_cpus_has(d, offset, size, j + 1, index, count, mask_bytes, counts, total, b);
        let k = choose|k: int| 0 <= k < rest.len() && rest[k] == x;
        assert((here + rest)[here.len() + k] == x);
    }
}

/// Every set bit of an affinity entry's whole mask names a CPU of the
/// record: for entry `index` of the record at `offset` (entries up to it
/// lying inside the record), each bit `b` below `8 * mask_bytes` that is set
/// in the mask's bytes, with the entry's group base `g` and `g + b < total`,
/// puts CPU `g + b` among the record's CPUs.
pub proof fn lemma_every_mask_bit_listed(
    d: Seq<u8>,
    offset: nat,
    size: nat,
    index: nat,
    count: nat,
    mask_bytes: nat,
    counts: Seq<u32>,
    total: nat,
    b: nat,
)
    requires
        index < count,
        offset + 32 + (index + 1) * entry_size(mask_bytes) <= offset + size,
        offset + size <= d.len(),
        b < 8 * mask_bytes,
        mask_bit_set(d, offset + 32 + index * entry_size(mask_bytes), b),
        base_of_group(
            counts,
            entry_group(d, offset + 32 + index * entry_size(mask_bytes), mask_bytes),
        ) + b < total,
    ensures
        entry_cpus(d, offset, size, 0, count, mask_bytes, counts, total).contains(
            (base_of_group(
                counts,
                entry_group(d, offset + 32 + index * entry_size(mask_bytes), mask_bytes),
            ) + b) as usize,
        ),
{
    lemma_entry_cpus_has(d, offset, size, 0, index, count, mask_bytes, counts, total, b);
}

// ---------------------------------------------------------------------------
// Sorting
// ---------------------------------------------------------------------------
/// How many leading entries of `s` are below `x`.
pub open spec fn leading_below(s: Seq<usize>, x: usize) -> nat
    decreases s.len(),
{
    if s.len() > 0 && s[0] < x {
        1 + leading_below(s.skip(1), x)
    } else {
        0
    }
}

/// `x` put into the sorted `s` before the first entry not below it.
pub open spec fn insert_sorted(s: Seq<usize>, x: usize) -> Seq<usize> {
    let k = leading_below(s, x) as int;
    s.take(k) + seq![x] + s.skip(k)
}

/// `s` in increasing order, duplicates kept.
pub open spec fn sort_seq(s: Seq<usize>) -> Seq<usize>
    decreases s.len(),
{
    if s.len() == 0 {
        Seq::empty()
    } else {
        insert_sorted(sort_seq(s.drop_last()), s.last())
    }
}

pub open spec fn nondecreasing(s: Seq<usize>) -> bool {
    forall|i: int, j: int| 0 <= i <= j < s.len() ==> s[i] <= s[j]
}

pub open spec fn all_below(s: Seq<usize>, total: nat) -> bool {
    forall|i: int| 0 <= i < s.len() ==> s[i] < total
}

proof fn lemma_leading_below(s: Seq<usize>, x: usize, k: int)
    requires
        0 <= k <= s.len(),
        forall|i: int| 0 <= i < k ==> s[i] < x,
        k == s.len() || s[k] >= x,
    ensures
        leading_below(s, x) == k,
    decreases k,
{
    if k > 0 {
        let t = s.skip(1);
        assert forall|i: int| 0 <= i < k - 1 implies t[i] < x by {
            assert(t[i] == s[i + 1]);
        }
        if k < s.len() {
            assert(t[k - 1] == s[k]);
        }
        lemma_leading_below(t, x, k - 1);
    }
}

proof fn lemma_leading_below_bound(s: Seq<usize>, x: usize)
    ensures
        leading_below(s, x) <= s.len(),
        forall|i: int| 0 <= i < leading_below(s, x) ==> s[i] < x,
        leading_below(s, x) < s.len() ==> s[leading_below(s, x) as int] >= x,
    decreases s.len(),
{
    if s.len() > 0 && s[0] < x {
        let t = s.skip(1);
        lemma_leading_below_bound(t, x);
        assert forall|i: int| 0 <= i < leading_below(s, x) implies s[i] < x by {
            if i > 0 {
                assert(s[i] == t[i - 1]);
            }
        }
        if leading_below(s, x) < s.len() {
            assert(s[leading_below(s, x) as int] == t[leading_below(t, x) as int]);
        }
    }
}

proof fn lemma_sort_props(s: Seq<usize>, total: nat)
    ensures
        nondecreasing(sort_seq(s)),
        sort_seq(s).len() == s.len(),
        all_below(s, total) ==> all_below(sort_seq(s), total),
    decreases s.len(),
{
    if s.len() > 0 {
        let p = s.drop_last();
        lemma_sort_props(p, total);
        let q = sort_seq(p);
        let x = s.last();
        lemma_leading_below_bound(q, x);
        let k = leading_below(q, x) as int;
        let r = insert_sorted(q, x);
        assert(r.len() == q.len() + 1);
        assert forall|i: int| 0 <= i < r.len() implies #[trigger] r[i] == (if i < k {
            q[i]
        } else if i == k {
            x
        } else {
            q[i - 1]
        }) by {}
        assert forall|i: int, j: int| 0 <= i <= j < r.len() implies r[i] <= r[j] by {
            if i < k && j > k {
                assert(q[i] < x);
                assert(q[k] >= x);
                assert(q[k] <= q[j - 1]);
            } else if i == k && j > k {
                assert(q[k] >= x);
                assert(q[k] <= q[j - 1]);
            } else if i < k && j == k {
                assert(q[i] < x);
            }
        }
        if all_below(s, total) {
            assert forall|i: int| 0 <= i < p.len() implies p[i] < total by {
                assert(p[i] == s[i]);
            }
            assert(x == s[s.len() - 1]);
        }
    }
}

/// The entries of `raw` in increasing order (duplicates kept).
fn sort_cpus(raw: &Vec<usize>) -> (r: Vec<usize>)
    ensures
        r@ == sort_seq(raw@),
        nondecreasing(r@),
{
    let mut out: Vec<usize> = Vec::new();
    let mut i: usize = 0;
    while i < raw.len()
        invariant
            i <= raw.len(),
            out@ == sort_seq(raw@.take(i as int)),
        decreases raw.len() - i,
    {
        let x = raw[i];
        let mut k: usize = 0;
        while k < out.len() && out[k] < x
            invariant
                k <= out.len(),
                forall|j: int| 0 <= j < k ==> out@[j] < x,
            decreases out.len() - k,
        {
            k += 1;
        }
        proof {
            lemma_leading_below(out@, x, k as int);
            lemma_sort_props(raw@.take(i as int), 0);
            assert(raw@.take(i + 1).drop_last() == raw@.take(i as int));
            assert(raw@.take(i + 1).last() == x);
        }
        let ghost before = out@;
        out.insert(k, x);
        assert(out@ =~= insert_sorted(before, x));
        i += 1;
    }
    assert(raw@.take(raw.len() as int) == raw@);
    proof {
        lemma_sort_props(raw@, 0);
    }
    out
}

// ---------------------------------------------------------------------------
// Records
// ---------------------------------------------------------------------------
/// The sorted CPU lists of the processor-core records from `offset` on;
/// decoding stops at a record shorter than 32 bytes or running past the
/// buffer.
pub open spec fn core_records(
    d: Seq<u8>,
    offset: nat,
    mask_bytes: nat,
    counts: Seq<u32>,
    total: nat,
) -> Seq<Seq<usize>>
    decreases d.len() - offset,
{
    if offset + 32 > d.len() {
        Seq::empty()
    } else {
        let size = le(d, offset + 4int, 4);
        if size < 32 || offset + size > d.len() {
            Seq::empty()
        } else {
            let rest = core_records(d, offset + size, mask_bytes, counts, total);
            if le(d, offset as int, 4) == 0 {
                let cpus = entry_cpus(
                    d,
                    offset,
                    size,
                    0,
                    le(d, offset + 30int, 2),
                    mask_bytes,
                    counts,
                    total,
                );
                seq![sort_seq(cpus)] + rest
            } else {
                rest
            }
        }
    }
}

/// The topology after the core records: record `k` makes every CPU it
/// lists a member of core `k` of package 0 with the record's CPUs as
/// siblings; a later record overrides an earlier one; CPUs in no record
/// keep the fallback entry.
pub open spec fn place_cores(records: Seq<Seq<usize>>, total: nat) -> Seq<TopologySpec>
    decreases records.len(),
{
    if records.len() == 0 {
        fallback_spec(total)
    } else {
        let prev = place_cores(records.drop_last(), total);
        let k = records.len() - 1;
        let l = records.last();
        Seq::new(
            total,
            |c: int|
                if l.contains(c as usize) {
                    TopologySpec { package: Some(0), core: Some(k as i32), siblings: l }
                } else {
                    prev[c]
                },
        )
    }
}

proof fn lemma_place_len(records: Seq<Seq<usize>>, total: nat)
    ensures
        place_cores(records, total).len() == total,
    decreases records.len(),
{
    if records.len() > 0 {
        lemma_place_len(records.drop_last(), total);
    }
}

proof fn lemma_set_bits_below(m: nat, bit: nat, width: nat, base: nat, total: nat)
    ensures
        all_below(set_bits(m, bit, width, base, total), total),
    decreases width - bit,
{
    if bit < width {
        lemma_set_bits_below(m / 2, bit + 1, width, base, total);
    }
}

/// Appends the CPUs set in `mask` (bits `0..width`, numbered from `base`).
fn push_set_bits(out: &mut Vec<usize>, mask: u64, width: usize, base: usize, total: usize)
    requires
        width <= 64,
    ensures
        final(out)@ == old(out)@ + set_bits(mask as nat, 0, width as nat, base as nat, total as nat),
{
    let mut m = mask;
    let mut bit: usize = 0;
    while bit < width
        invariant
            bit <= width <= 64,
            out@ + set_bits(m as nat, bit as nat, width as nat, base as nat, total as nat)
                == old(out)@ + set_bits(mask as nat, 0, width as nat, base as nat, total as nat),
        decreases width - bit,
    {
        let ghost before = out@;
        if m % 2 == 1 && bit < total && base < total - bit {
            out.push(base + bit);
            assert(before + set_bits(m as nat, bit as nat, width as nat, base as nat, total as nat)
                == out@ + set_bits(
                (m / 2) as nat,
                (bit + 1) as nat,
                width as nat,
                base as nat,
                total as nat,
            ));
        }
        m = m / 2;
        bit += 1;
    }
    assert(out@ + set_bits(m as nat, bit as nat, width as nat, base as nat, total as nat) == out@
        + Seq::<usize>::empty());
}

/// The sorted CPU list of the processor-core record at `offset` of `size`
/// bytes.
fn record_cpus(
    data: &[u8],
    offset: usize,
    size: usize,
    counts: &Vec<u32>,
    mask_bytes: usize,
    total: usize,
) -> (r: Vec<usize>)
    requires
        data.len() <= u32::MAX,
        32 <= size,
        offset + size <= data.len(),
        mask_bytes == 4 || mask_bytes == 8,
        group_base(counts@, counts.len() as nat) <= usize::MAX,
    ensures
        r@ == sort_seq(
            entry_cpus(
                data@,
                offset as nat,
                size as nat,
                0,
                le(data@, offset + 30, 2),
                mask_bytes as nat,
                counts@,
                total as nat,
            ),
        ),
        all_below(r@, total as nat),
{
    let count = read_le(data, offset + 30, 2);
    proof {
        reveal_with_fuel(pow256, 3);
    }
    let entry = mask_bytes + 8;
    let mut raw: Vec<usize> = Vec::new();
    let mut index: u64 = 0;
    let mut done = false;
    while index < count && !done
        invariant
            data.len() <= u32::MAX,
            32 <= size,
            offset + size <= data.len(),
            mask_bytes == 4 || mask_bytes == 8,
            entry == mask_bytes + 8,
            count < 0x1_0000,
            index <= count,
            group_base(counts@, counts.len() as nat) <= usize::MAX,
            raw@ + (if done {
                Seq::empty()
            } else {
                entry_cpus(data@, offset as nat, size as nat, index as nat, count as nat, mask_bytes as nat, counts@, total as nat)
            }) == entry_cpus(data@, offset as nat, size as nat, 0, count as nat, mask_bytes as nat, counts@, total as nat),
            all_below(raw@, total as nat),
        decreases count - index + (if done { 0int } else { 1int }),
    {
        assert(index * (entry as u64) <= 0x1_0000 * 16) by (nonlinear_arith)
            requires
                index < 0x1_0000,
                entry <= 16,
        ;
        let aoff: u64 = offset as u64 + 32 + index * entry as u64;
        assert(aoff == offset + 32 + index * entry_size(mask_bytes as nat));
        if aoff + entry as u64 > offset as u64 + size as u64 {
            assert(entry_cpus(data@, offset as nat, size as nat, index as nat, count as nat, mask_bytes as nat, counts@, total as nat) == Seq::<usize>::empty());
            assert(raw@ + Seq::<usize>::empty() == raw@);
            done = true;
        } else {
            let a = aoff as usize;
            let mask = read_le(data, a, mask_bytes);
            let group = read_le(data, a + mask_bytes, 2);
            let base: usize = if group < counts.len() as u64 {
                proof {
                    lemma_group_base_monotone(counts@, group as nat, counts.len() as nat);
                }
                let mut b: usize = 0;
                let mut g: usize = 0;
                while g < group as usize
                    invariant
                        group < counts.len(),
                        g <= group,
                        b == group_base(counts@, g as nat),
                        group_base(counts@, group as nat) <= usize::MAX,
                    decreases group - g,
                {
                    proof {
                        lemma_group_base_monotone(counts@, (g + 1) as nat, group as nat);
                    }
                    b = b + counts[g] as usize;
                    g += 1;
                }
                b
            } else {
                0
            };
            let ghost before = raw@;
            push_set_bits(&mut raw, mask, mask_bytes * 8, base, total);
            proof {
                lemma_set_bits_below(mask as nat, 0, (mask_bytes * 8) as nat, base as nat, total as nat);
                let sb = set_bits(mask as nat, 0, (mask_bytes * 8) as nat, base as nat, total as nat);
                let here = entry_cpus(
                    data@,
                    offset as nat,
                    size as nat,
                    index as nat,
                    count as nat,
                    mask_bytes as nat,
                    counts@,
                    total as nat,
                );
                let rest = entry_cpus(
                    data@,
                    offset as nat,
                    size as nat,
                    (index + 1) as nat,
                    count as nat,
                    mask_bytes as nat,
                    counts@,
                    total as nat,
                );
                assert(base == base_of_group(counts@, group as nat));
                assert(here == sb + rest);
                assert(raw@ == before + sb);
                assert((before + sb) + rest =~= before + (sb + rest));
                assert forall|i: int| 0 <= i < raw@.len() implies raw@[i] < total by {
                    if i >= before.len() {
                        assert(raw@[i] == set_bits(
                            mask as nat,
                            0,
                            (mask_bytes * 8) as nat,
                            base as nat,
                            total as nat,
                        )[i - before.len()]);
                    }
                }
            }
            index += 1;
        }
    }
    assert(raw@ == entry_cpus(data@, offset as nat, size as nat, 0, count as nat, mask_bytes as nat, counts@, total as nat));
    let r = sort_cpus(&raw);
    proof {
        lemma_sort_props(raw@, total as nat);
    }
    r
}

proof fn lemma_set_bits_only(m: nat, bit: nat, width: nat, base: nat, total: nat, k: int)
    requires
        0 <= k < set_bits(m, bit, width, base, total).len(),
    ensures
        exists|b: nat|
            #![trigger bit_of(m, (b - bit) as nat)]
            bit <= b < width && base + b < total && bit_of(m, (b - bit) as nat)
                && set_bits(m, bit, width, base, total)[k] == (base + b) as usize,
    decreases width - bit,
{
    let s = set_bits(m, bit, width, base, total);
    let t = set_bits(m / 2, bit + 1, width, base, total);
    if m % 2 == 1 && base + bit < total && k == 0 {
        assert(bit_of(m, (bit - bit) as nat));
    } else {
        let kk = if m % 2 == 1 && base + bit < total {
            k - 1
        } else {
            k
        };
        assert(t[kk] == s[k]);
        lemma_set_bits_only(m / 2, bit + 1, width, base, total, kk);
        let b = choose|b: nat|
            #![trigger bit_of(m / 2, (b - (bit + 1)) as nat)]
            bit + 1 <= b < width && base + b < total && bit_of(m / 2, (b - (bit + 1)) as nat)
                && t[kk] == (base + b) as usize;
        assert(bit_of(m, (b - bit) as nat));
    }
}

/// A CPU that entry `index` of a record names through its bit `b`.
pub open spec fn named_by_entry(
    d: Seq<u8>,
    offset: nat,
    size: nat,
    index: nat,
    mask_bytes: nat,
    counts: Seq<u32>,
    total: nat,
    b: nat,
    x: usize,
) -> bool {
    let aoff = offset + 32 + index * entry_size(mask_bytes);
    let g = base_of_group(counts, entry_group(d, aoff, mask_bytes));
    &&& aoff + entry_size(mask_bytes) <= offset + size
    &&& b < 8 * mask_bytes
    &&& mask_bit_set(d, aoff, b)
    &&& g + b < total
    &&& x == (g + b) as usize
}

proof fn lemma_entry_cpus_only(
    d: Seq<u8>,
    offset: nat,
    size: nat,
    j: nat,
    count: nat,
    mask_bytes: nat,
    counts: Seq<u32>,
    total: nat,
    k: int,
)
    requires
        offset + size <= d.len(),
        0 <= k < entry_cpus(d, offset, size, j, count, mask_bytes, counts, total).len(),
    ensures
        exists|index: nat, b: nat|
            #![trigger named_by_entry(d, offset, size, index, mask_bytes, counts, total, b, entry_cpus(d, offset, size, j, count, mask_bytes, counts, total)[k])]
            j <= index < count && named_by_entry(
                d,
                offset,
                size,
                index,
                mask_bytes,
                counts,
                total,
                b,
                entry_cpus(d, offset, size, j, count, mask_bytes, counts, total)[k],
            ),
    decreases count - j,
{
    let es = entry_size(mask_bytes);
    let aoff = offset + 32 + j * es;
    let mask = le(d, aoff as int, mask_bytes);
    let group = le(d, (aoff + mask_bytes) as int, 2);
    let here = set_bits(mask, 0, mask_bytes * 8, base_of_group(counts, group), total);
    let rest = entry_cpus(d, offset, size, j + 1, count, mask_bytes, counts, total);
    let all = entry_cpus(d, offset, size, j, count, mask_bytes, counts, total);
    assert(all == here + rest);
    if k < here.len() {
        lemma_set_bits_only(mask, 0, mask_bytes * 8, base_of_group(counts, group), total, k);
        let b = choose|b: nat|
            #![trigger bit_of(mask, (b - 0) as nat)]
            0 <= b < mask_bytes * 8 && base_of_group(counts, group) + b < total && bit_of(
                mask,
                (b - 0) as nat,
            ) && here[k] == (base_of_group(counts, group) + b) as usize;
        assert(group == entry_group(d, aoff, mask_bytes)) by {
            reveal_with_fuel(le, 3);
        }
        lemma_le_bit(d, aoff, mask_bytes, b);
        assert(all[k] == here[k]);
        assert(named_by_entry(d, offset, size, j, mask_bytes, counts, total, b, all[k]));
    } else {
        assert(all[k] == rest[k - here.len()]);
        lemma_entry_cpus_only(d, offset, size, j + 1, count, mask_bytes, counts, total, k - here.len());
        let (index, b) = choose|index: nat, b: nat|
            #![trigger named_by_entry(d, offset, size, index, mask_bytes, counts, total, b, rest[k - here.len()])]
            j + 1 <= index < count && named_by_entry(
                d,
                offset,
                size,
                index,
                mask_bytes,
                counts,
                total,
                b,
                rest[k - here.len()],
            );
        assert(named_by_entry(d, offset, size, index, mask_bytes, counts, total, b, all[k]));
    }
}

/// A record's CPUs are exactly the set mask bits of its entries: each CPU
/// that the entries of the record at `offset` list is `g + b` for some
/// entry inside the record, with group base `g`, and some set bit `b` of
/// its mask (below `8 * mask_bytes`, with `g + b < total`).
pub proof fn lemma_listed_cpu_is_mask_bit(
    d: Seq<u8>,
    offset: nat,
    size: nat,
    count: nat,
    mask_bytes: nat,
    counts: Seq<u32>,
    total: nat,
    x: usize,
)
    requires
        offset + size <= d.len(),
        entry_cpus(d, offset, size, 0, count, mask_bytes, counts, total).contains(x),
    ensures
        exists|index: nat, b: nat|
            index < count && #[trigger] named_by_entry(
                d,
                offset,
                size,
                index,
                mask_bytes,
                counts,
                total,
                b,
                x,
            ),
{
    let cpus = entry_cpus(d, offset, size, 0, count, mask_bytes, counts, total);
    let k = choose|k: int| 0 <= k < cpus.len() && cpus[k] == x;
    lemma_entry_cpus_only(d, offset, size, 0, count, mask_bytes, counts, total, k);
}

proof fn lemma_sort_keeps(s: Seq<usize>, x: usize)
    requires
        s.contains(x),
    ensures
        sort_seq(s).contains(x),
    decreases s.len(),
{
    let p = s.drop_last();
    let q = sort_seq(p);
    let y = s.last();
    lemma_leading_below_bound(q, y);
    let k = leading_below(q, y) as int;
    let r = insert_sorted(q, y);
    if y == x {
        assert(r[k] == x);
    } else {
        let i = choose|i: int| 0 <= i < s.len() && s[i] == x;
        assert(p[i] == x);
        lemma_sort_keeps(p, x);
        let m = choose|m: int| 0 <= m < q.len() && q[m] == x;
        if m < k {
            assert(r[m] == x);
        } else {
            assert(r[m + 1] == x);
        }
    }
}

/// The same for a whole processor-core record: its sorted CPU list, the
/// first of the lists decoded from `offset`, holds CPU `g + b` for every
/// set bit `b` of each of its affinity entries.
pub proof fn lemma_record_lists_mask_bit(
    d: Seq<u8>,
    offset: nat,
    index: nat,
    mask_bytes: nat,
    counts: Seq<u32>,
    total: nat,
    b: nat,
)
    requires
        offset + 32 <= d.len(),
        le(d, offset as int, 4) == 0,
        32 <= le(d, offset + 4int, 4),
        offset + le(d, offset + 4int, 4) <= d.len(),
        index < le(d, offset + 30int, 2),
        offset + 32 + (index + 1) * entry_size(mask_bytes) <= offset + le(d, offset + 4int, 4),
        b < 8 * mask_bytes,
        mask_bit_set(d, offset + 32 + index * entry_size(mask_bytes), b),
        base_of_group(
            counts,
            entry_group(d, offset + 32 + index * entry_size(mask_bytes), mask_bytes),
        ) + b < total,
    ensures
        core_records(d, offset, mask_bytes, counts, total).len() > 0,
        core_records(d, offset, mask_bytes, counts, total)[0].contains(
            (base_of_group(
                counts,
                entry_group(d, offset + 32 + index * entry_size(mask_bytes), mask_bytes),
            ) + b) as usize,
        ),
{
    let size = le(d, offset + 4int, 4);
    let count = le(d, offset + 30int, 2);
    lemma_every_mask_bit_listed(d, offset, size, index, count, mask_bytes, counts, total, b);
    let cpus = entry_cpus(d, offset, size, 0, count, mask_bytes, counts, total);
    lemma_sort_keeps(
        cpus,
        (base_of_group(
            counts,
            entry_group(d, offset + 32 + index * entry_size(mask_bytes), mask_bytes),
        ) + b) as usize,
    );
}

/// The topology that a buffer of processor-core records describes, for
/// `total` logical CPUs and processor groups of the sizes `counts`; CPUs
/// that no record names keep the fallback entry.
pub fn core_topology(data: &[u8], counts: &Vec<u32>, mask_bytes: usize, total: usize) -> (out: Vec<
    CpuTopology,
>)
    requires
        data.len() <= u32::MAX,
        mask_bytes == 4 || mask_bytes == 8,
        group_base(counts@, counts.len() as nat) <= usize::MAX,
    ensures
        topology_view(out@) == place_cores(
            core_records(data@, 0, mask_bytes as nat, counts@, total as nat),
            total as nat,
        ),
{
    let ghost all = core_records(data@, 0, mask_bytes as nat, counts@, total as nat);
    let mut out = fallback_topology(total);
    assert(out@.len() == topology_view(out@).len());
    let len = data.len() as u64;
    let mut offset: u64 = 0;
    let mut core_id: i32 = 0;
    let ghost mut records: Seq<Seq<usize>> = Seq::empty();
    let mut done = false;
    while offset + 32 <= len && !done
        invariant
            len == data.len() <= u32::MAX,
            mask_bytes == 4 || mask_bytes == 8,
            group_base(counts@, counts.len() as nat) <= usize::MAX,
            offset <= len,
            core_id == records.len(),
            records.len() * 32 <= offset,
            records + (if done {
                Seq::empty()
            } else {
                core_records(data@, offset as nat, mask_bytes as nat, counts@, total as nat)
            }) == all,
            topology_view(out@) == place_cores(records, total as nat),
            out.len() == total,
        decreases len - offset + (if done { 0int } else { 1int }),
    {
        let o = offset as usize;
        let rel = read_le(data, o, 4);
        let size = read_le(data, o + 4, 4);
        proof {
            reveal_with_fuel(pow256, 5);
        }
        if size < 32 || offset + size > len {
            done = true;
        } else {
            let ghost rest = core_records(
                data@,
                (offset + size) as nat,
                mask_bytes as nat,
                counts@,
                total as nat,
            );
            if rel == 0 {
                let cpus = record_cpus(data, o, size as usize, counts, mask_bytes, total);
                let ghost l = cpus@;
                let ghost prev = topology_view(out@);
                let mut t: usize = 0;
                while t < cpus.len()
                    invariant
                        cpus@ == l,
                        all_below(l, total as nat),
                        t <= cpus.len(),
                        out.len() == total,
                        prev.len() == total,
                        forall|c: int|
                            0 <= c < total ==> #[trigger] out@[c]@ == if l.take(t as int).contains(
                                c as usize,
                            ) {
                                TopologySpec {
                                    package: Some(0),
                                    core: Some(core_id),
                                    siblings: l,
                                }
                            } else {
                                prev[c]
                            },
                    decreases cpus.len() - t,
                {
                    let cpu = cpus[t];
                    let siblings = cpus.clone();
                    assert(siblings@ =~= l);
                    out.set(cpu, CpuTopology { package: Some(0), core: Some(core_id), siblings });
                    proof {
                        assert(l.take(t + 1) == l.take(t as int).push(cpu));
                        assert forall|c: int| 0 <= c < total implies #[trigger] out@[c]@ == if l.take(
                            t + 1,
                        ).contains(c as usize) {
                            TopologySpec { package: Some(0), core: Some(core_id), siblings: l }
                        } else {
                            prev[c]
                        } by {
                            let pre = l.take(t as int);
                            let post = l.take(t + 1);
                            if c == cpu {
                                assert(post[t as int] == cpu);
                            } else {
                                if post.contains(c as usize) {
                                    let i = choose|i: int| 0 <= i < post.len() && post[i] == c as usize;
                                    assert(pre[i] == c as usize);
                                }
                                if pre.contains(c as usize) {
                                    let i = choose|i: int| 0 <= i < pre.len() && pre[i] == c as usize;
                                    assert(post[i] == c as usize);
                                }
                            }
                        }
                    }
                    t += 1;
                }
                proof {
                    assert(l.take(l.len() as int) == l);
                    let nr = records.push(l);
                    assert(nr.drop_last() == records);
                    lemma_place_len(records, total as nat);
                    assert(topology_view(out@) =~= place_cores(nr, total as nat));
                    assert(records + core_records(
                        data@,
                        offset as nat,
                        mask_bytes as nat,
                        counts@,
                        total as nat,
                    ) == nr + rest);
                    records = nr;
                }
                core_id = core_id + 1;
            }
            offset = offset + size;
        }
    }
    assert(records == all);
    out
}

/// In the decoded topology every CPU is among its own siblings.
pub proof fn lemma_core_topology_self_sibling(records: Seq<Seq<usize>>, total: nat, c: int)
    requires
        0 <= c < total,
        total <= usize::MAX + 1,
    ensures
        place_cores(records, total)[c].siblings.contains(c as usize),
    decreases records.len(),
{
    lemma_place_len(records, total);
    if records.len() == 0 {
        assert(fallback_spec(total)[c].siblings[0] == c as usize);
    } else {
        lemma_core_topology_self_sibling(records.drop_last(), total, c);
    }
}

} // verus!

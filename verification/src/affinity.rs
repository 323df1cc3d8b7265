//! Logical-CPU inventory: how many CPUs there are, which package and
//! physical core each belongs to and which CPUs share that core, and where a
//! CPU sits among the processor groups that thread affinity addresses.
use vstd::prelude::*;
use crate::text::{chars_of, parse_i32_chars, parse_i32_spec, trim, trim_bounds};

verus! {

/// Package, physical core and SMT siblings of one logical CPU.
pub struct CpuTopology {
    pub package: Option<i32>,
    pub core: Option<i32>,
    pub siblings: Vec<usize>,
}

/// The mathematical content of a [`CpuTopology`].
pub struct TopologySpec {
    pub package: Option<i32>,
    pub core: Option<i32>,
    pub siblings: Seq<usize>,
}

impl View for CpuTopology {
    type V = TopologySpec;

    open spec fn view(&self) -> TopologySpec {
        TopologySpec { package: self.package, core: self.core, siblings: self.siblings@ }
    }
}

impl Default for CpuTopology {
    /// Nothing known: no package, no core, no siblings.
    fn default() -> (t: Self)
        ensures
            t@ == unknown_cpu(),
    {
        CpuTopology { package: None, core: None, siblings: Vec::new() }
    }
}

pub open spec fn unknown_cpu() -> TopologySpec {
    TopologySpec { package: None, core: None, siblings: Seq::empty() }
}

/// The view of every entry of a topology table.
pub open spec fn topology_view(v: Seq<CpuTopology>) -> Seq<TopologySpec> {
    v.map_values(|t: CpuTopology| t@)
}

/// The identity of a CPU's physical core: package id and core id, each
/// absent when it could not be read.
pub type CoreIds = (Option<i32>, Option<i32>);

/// The CPUs among the first `k` whose identity is `key`, in increasing order.
pub open spec fn cpus_with_ids(ids: Seq<CoreIds>, key: CoreIds, k: nat) -> Seq<usize>
    decreases k,
{
    if k == 0 {
        Seq::empty()
    } else if ids[k - 1] == key {
        cpus_with_ids(ids, key, (k - 1) as nat).push((k - 1) as usize)
    } else {
        cpus_with_ids(ids, key, (k - 1) as nat)
    }
}

/// Whether both the package id and the core id of a CPU could be read.
pub open spec fn ids_known(key: CoreIds) -> bool {
    key.0 is Some && key.1 is Some
}

/// The topology that the per-CPU core identities describe: each CPU keeps
/// its ids; a CPU whose ids are both known has as siblings all CPUs with the
/// same ids, and a CPU with an unknown id is its own only sibling (the
/// operating system did not say which core it shares).
pub open spec fn topology_spec(ids: Seq<CoreIds>) -> Seq<TopologySpec> {
    Seq::new(
        ids.len(),
        |c: int|
            TopologySpec {
                package: ids[c].0,
                core: ids[c].1,
                siblings: if ids_known(ids[c]) {
                    cpus_with_ids(ids, ids[c], ids.len())
                } else {
                    seq![c as usize]
                },
            },
    )
}

proof fn lemma_cpus_with_ids(ids: Seq<CoreIds>, key: CoreIds, k: nat, d: int)
    requires
        k <= ids.len(),
        ids.len() <= usize::MAX,
        0 <= d <= usize::MAX,
    ensures
        cpus_with_ids(ids, key, k).contains(d as usize) <==> (0 <= d < k && ids[d] == key),
        forall|i: int|
            0 <= i < cpus_with_ids(ids, key, k).len() ==> cpus_with_ids(ids, key, k)[i] < k,
    decreases k,
{
    if k > 0 {
        lemma_cpus_with_ids(ids, key, (k - 1) as nat, d);
        let prev = cpus_with_ids(ids, key, (k - 1) as nat);
        if ids[k - 1] == key {
            let cur = prev.push((k - 1) as usize);
            if cur.contains(d as usize) && d != k - 1 {
                let i = choose|i: int| 0 <= i < cur.len() && cur[i] == d as usize;
                assert(cur[cur.len() - 1] == (k - 1) as usize);
                assert(i < prev.len());
                assert(prev[i] == d as usize);
            }
            if prev.contains(d as usize) {
                let i = choose|i: int| 0 <= i < prev.len() && prev[i] == d as usize;
                assert(cur[i] == d as usize);
            }
            if d == k - 1 {
                assert(cur[cur.len() - 1] == d as usize);
            }
        }
    }
}

/// In a topology built from core ids, a CPU is among its own siblings, two
/// different CPUs are siblings exactly when both ids of each are known and
/// equal, and so the sibling relation is symmetric.
pub proof fn lemma_siblings_share_ids(ids: Seq<CoreIds>, c: int, d: int)
    requires
        0 <= c < ids.len(),
        0 <= d < ids.len(),
        ids.len() <= usize::MAX,
    ensures
        topology_spec(ids)[c].siblings.contains(c as usize),
        topology_spec(ids)[c].siblings.contains(d as usize) <==> (c == d || (ids_known(ids[c])
            && ids[c] == ids[d])),
        topology_spec(ids)[c].siblings.contains(d as usize) <==> topology_spec(
            ids,
        )[d].siblings.contains(c as usize),
{
    lemma_cpus_with_ids(ids, ids[c], ids.len(), c);
    lemma_cpus_with_ids(ids, ids[c], ids.len(), d);
    lemma_cpus_with_ids(ids, ids[d], ids.len(), c);
    let one_c = seq![c as usize];
    let one_d = seq![d as usize];
    assert(one_c[0] == c as usize);
    assert(one_d[0] == d as usize);
    if one_c.contains(d as usize) {
        assert(d as usize == c as usize);
    }
    if one_d.contains(c as usize) {
        assert(d as usize == c as usize);
    }
}

fn same_option(a: Option<i32>, b: Option<i32>) -> (r: bool)
    ensures
        r == (a == b),
{
    match (a, b) {
        (Some(x), Some(y)) => x == y,
        (None, None) => true,
        _ => false,
    }
}

/// Groups CPUs into physical cores by their (package id, core id), as read
/// for each CPU from the operating system.
pub fn topology(ids: &Vec<CoreIds>) -> (out: Vec<CpuTopology>)
    ensures
        topology_view(out@) == topology_spec(ids@),
{
    let n = ids.len();
    let mut out: Vec<CpuTopology> = Vec::new();
    let mut c: usize = 0;
    while c < n
        invariant
            n == ids.len(),
            c <= n,
            out.len() == c,
            forall|i: int| 0 <= i < c ==> #[trigger] out@[i]@ == topology_spec(ids@)[i],
        decreases n - c,
    {
        let key = ids[c];
        let mut siblings: Vec<usize> = Vec::new();
        if key.0.is_some() && key.1.is_some() {
            let mut j: usize = 0;
            while j < n
                invariant
                    n == ids.len(),
                    j <= n,
                    key == ids@[c as int],
                    siblings@ == cpus_with_ids(ids@, key, j as nat),
                decreases n - j,
            {
                if same_option(ids[j].0, key.0) && same_option(ids[j].1, key.1) {
                    siblings.push(j);
                }
                j += 1;
            }
        } else {
            siblings.push(c);
            assert(siblings@ == seq![c]);
        }
        out.push(CpuTopology { package: key.0, core: key.1, siblings });
        c += 1;
    }
    assert(topology_view(out@) =~= topology_spec(ids@));
    out
}

/// The table used when the operating system describes no cores: each CPU is
/// its own core, numbered like the CPU, with no package.
pub open spec fn fallback_spec(total: nat) -> Seq<TopologySpec> {
    Seq::new(
        total,
        |c: int| TopologySpec { package: None, core: Some(c as i32), siblings: seq![c as usize] },
    )
}

/// Each CPU on a core of its own, core id = CPU number, package unknown.
pub fn fallback_topology(total: usize) -> (out: Vec<CpuTopology>)
    ensures
        topology_view(out@) == fallback_spec(total as nat),
{
    let mut out: Vec<CpuTopology> = Vec::new();
    let mut c: usize = 0;
    while c < total
        invariant
            c <= total,
            out.len() == c,
            forall|i: int| 0 <= i < c ==> #[trigger] out@[i]@ == fallback_spec(total as nat)[i],
        decreases total - c,
    {
        let mut siblings = Vec::new();
        siblings.push(c);
        assert(siblings@ == seq![c]);
        out.push(CpuTopology { package: None, core: Some(c as i32), siblings });
        c += 1;
    }
    assert(topology_view(out@) =~= fallback_spec(total as nat));
    out
}

/// The table where no operating-system topology source exists: nothing
/// known for any of the `total` CPUs.
pub fn unknown_topology(total: usize) -> (out: Vec<CpuTopology>)
    ensures
        topology_view(out@) == Seq::new(total as nat, |c: int| unknown_cpu()),
{
    let mut out: Vec<CpuTopology> = Vec::new();
    let mut c: usize = 0;
    while c < total
        invariant
            c <= total,
            out.len() == c,
            forall|i: int| 0 <= i < c ==> #[trigger] out@[i]@ == unknown_cpu(),
        decreases total - c,
    {
        out.push(CpuTopology::default());
        c += 1;
    }
    assert(topology_view(out@) =~= Seq::new(total as nat, |c: int| unknown_cpu()));
    out
}

/// A package or core id as the kernel prints it: the trimmed text read as
/// an `i32`, or `None`.
pub fn parse_id(text: &str) -> (r: Option<i32>)
    ensures
        match parse_i32_spec(trim(text@)) {
            Some(n) => r == Some(n as i32),
            None => r is None,
        },
{
    let v = chars_of(text);
    assert(v@.subrange(0, v@.len() as int) == v@);
    let (a, b) = trim_bounds(&v, 0, v.len());
    parse_i32_chars(&v, a, b)
}

/// Number of online logical CPUs: the operating system's count when it is
/// positive, else the standard library's parallelism estimate (never zero),
/// else 1.
pub fn logical_cpu_count(online: i64, parallelism: Option<usize>) -> (n: usize)
    requires
        parallelism matches Some(p) ==> p >= 1,
    ensures
        online > 0 ==> n == online as usize,
        online <= 0 ==> n == match parallelism {
            Some(p) => p,
            None => 1,
        },
{
    if online > 0 {
        online as usize
    } else {
        match parallelism {
            Some(p) => p,
            None => 1,
        }
    }
}

// ---------------------------------------------------------------------------
// Processor groups
// ---------------------------------------------------------------------------
/// The sum of the first `g` group sizes: the number of the first CPU of
/// group `g`.
pub open spec fn group_base(counts: Seq<u32>, g: nat) -> nat
    decreases g,
{
    if g == 0 {
        0
    } else {
        group_base(counts, (g - 1) as nat) + counts[g - 1] as nat
    }
}

pub proof fn lemma_group_base_monotone(counts: Seq<u32>, a: nat, b: nat)
    requires
        a <= b,
    ensures
        group_base(counts, a) <= group_base(counts, b),
    decreases b,
{
    if a < b {
        lemma_group_base_monotone(counts, a, (b - 1) as nat);
    }
}

/// Total of the active processors of all groups, at least 1.
pub fn active_processor_total(counts: &Vec<u32>) -> (n: usize)
    requires
        group_base(counts@, counts.len() as nat) <= usize::MAX,
    ensures
        n == if group_base(counts@, counts.len() as nat) == 0 {
            1
        } else {
            group_base(counts@, counts.len() as nat)
        },
{
    let mut sum: usize = 0;
    let mut g: usize = 0;
    while g < counts.len()
        invariant
            g <= counts.len(),
            sum == group_base(counts@, g as nat),
            group_base(counts@, counts.len() as nat) <= usize::MAX,
        decreases counts.len() - g,
    {
        proof {
            lemma_group_base_monotone(counts@, (g + 1) as nat, counts.len() as nat);
        }
        sum = sum + counts[g] as usize;
        g += 1;
    }
    if sum == 0 {
        1
    } else {
        sum
    }
}

/// Where a CPU sits for thread affinity: its processor group and its bit in
/// that group's affinity mask.
pub struct GroupSlot {
    pub group: u16,
    pub bit: usize,
}

/// The group that holds `cpu`: the first whose CPUs (numbered from the sum
/// of the earlier groups' sizes) reach past it.
pub open spec fn holds_cpu(counts: Seq<u32>, g: nat, cpu: nat) -> bool {
    g < counts.len() && cpu < group_base(counts, g + 1) && forall|h: nat|
        h < g ==> cpu >= #[trigger] group_base(counts, h + 1)
}

/// Locates `cpu` among processor groups of the given sizes. Fails with
/// "CPU {cpu} is not active" past the last group, and when the bit would
/// not fit an affinity mask of `mask_bits` bits.
pub fn locate_processor(cpu: usize, counts: &Vec<u32>, mask_bits: usize) -> (r: Result<
    GroupSlot,
    String,
>)
    requires
        counts.len() <= 0x1_0000,
        group_base(counts@, counts.len() as nat) <= usize::MAX,
    ensures
        match r {
            Ok(slot) => holds_cpu(counts@, slot.group as nat, cpu as nat) && slot.bit == cpu
                - group_base(counts@, slot.group as nat) && slot.bit < mask_bits,
            Err(m) => (m@ == "processor group exceeds affinity mask"@ && exists|g: nat|
                holds_cpu(counts@, g, cpu as nat) && cpu - group_base(counts@, g) >= mask_bits)
                || (m@ == crate::text::decimal_message("CPU "@, cpu as nat, " is not active"@)
                && forall|g: nat| g < counts.len() ==> !holds_cpu(counts@, g, cpu as nat)),
        },
{
    let mut base: usize = 0;
    let mut g: usize = 0;
    while g < counts.len()
        invariant
            counts.len() <= 0x1_0000,
            g <= counts.len(),
            base == group_base(counts@, g as nat),
            cpu >= base,
            group_base(counts@, counts.len() as nat) <= usize::MAX,
            forall|h: nat| h < g ==> cpu >= #[trigger] group_base(counts@, h + 1),
        decreases counts.len() - g,
    {
        proof {
            lemma_group_base_monotone(counts@, (g + 1) as nat, counts.len() as nat);
        }
        let count = counts[g] as usize;
        if cpu < base + count {
            let bit = cpu - base;
            assert(holds_cpu(counts@, g as nat, cpu as nat));
            if bit >= mask_bits {
                return Err(crate::text::string_from("processor group exceeds affinity mask"));
            }
            return Ok(GroupSlot { group: g as u16, bit });
        }
        base = base + count;
        g += 1;
    }
    proof {
        assert forall|h: nat| h < counts.len() implies !holds_cpu(counts@, h, cpu as nat) by {
            assert(cpu >= group_base(counts@, h + 1));
        }
    }
    Err(crate::text::decimal_text("CPU ", cpu as u64, " is not active"))
}

} // verus!

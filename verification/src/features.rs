//! CPU capability inventory: the names of the detected instruction-set
//! features, the acceleration kernels that can run on them, and the core
//! type that the hybrid-information CPUID leaf reports.
use vstd::prelude::*;
use crate::text::{hex2, push_hex2, string_from};

verus! {

/// What runtime detection found on an x86 or x86-64 processor.
pub struct X86Features {
    pub sse: bool,
    pub sse2: bool,
    pub sse3: bool,
    pub ssse3: bool,
    pub sse4_1: bool,
    pub sse4_2: bool,
    pub avx: bool,
    pub avx2: bool,
    pub fma: bool,
    pub aes: bool,
    pub pclmulqdq: bool,
    pub popcnt: bool,
    pub bmi1: bool,
    pub bmi2: bool,
    pub adx: bool,
    pub sha: bool,
    pub rdrand: bool,
    pub rdseed: bool,
    pub avx512f: bool,
    pub avx512bw: bool,
    pub avx512cd: bool,
    pub avx512dq: bool,
    pub avx512vl: bool,
    pub gfni: bool,
    pub vaes: bool,
    pub vpclmulqdq: bool,
}

/// What runtime detection found on an AArch64 processor.
pub struct Aarch64Features {
    pub neon: bool,
    pub aes: bool,
    pub pmull: bool,
    pub sha2: bool,
    pub sha3: bool,
    pub crc: bool,
    pub dotprod: bool,
    pub fp16: bool,
    pub sve: bool,
}

/// The outcome of feature detection for the architecture the program runs on.
pub enum FeatureProbe {
    X86(X86Features),
    Aarch64(Aarch64Features),
    Other,
}

/// `[name]` when `b`, else nothing.
#[verifier::opaque]
pub open spec fn flagged(b: bool, name: Seq<char>) -> Seq<Seq<char>> {
    if b {
        seq![name]
    } else {
        Seq::empty()
    }
}

/// `pre` followed by the names of the SSE-era features that are present.
pub open spec fn x86_sse_names(pre: Seq<Seq<char>>, f: X86Features) -> Seq<Seq<char>> {
    pre + flagged(f.sse, "SSE"@) + flagged(f.sse2, "SSE2"@) + flagged(f.sse3, "SSE3"@) + flagged(
        f.ssse3,
        "SSSE3"@,
    ) + flagged(f.sse4_1, "SSE4.1"@) + flagged(f.sse4_2, "SSE4.2"@) + flagged(f.avx, "AVX"@)
}

/// `pre` followed by the names of the AVX2-era features that are present.
pub open spec fn x86_avx2_names(pre: Seq<Seq<char>>, f: X86Features) -> Seq<Seq<char>> {
    pre + flagged(f.avx2, "AVX2"@) + flagged(f.fma, "FMA"@) + flagged(f.aes, "AES"@) + flagged(
        f.pclmulqdq,
        "PCLMULQDQ"@,
    ) + flagged(f.popcnt, "POPCNT"@) + flagged(f.bmi1, "BMI1"@) + flagged(f.bmi2, "BMI2"@)
}

/// `pre` followed by the names of the later scalar features that are present.
pub open spec fn x86_scalar_names(pre: Seq<Seq<char>>, f: X86Features) -> Seq<Seq<char>> {
    pre + flagged(f.adx, "ADX"@) + flagged(f.sha, "SHA"@) + flagged(f.rdrand, "RDRAND"@) + flagged(
        f.rdseed,
        "RDSEED"@,
    )
}

/// `pre` followed by the names of the AVX-512-era features that are present.
pub open spec fn x86_avx512_names(pre: Seq<Seq<char>>, f: X86Features) -> Seq<Seq<char>> {
    pre + flagged(f.avx512f, "AVX512F"@) + flagged(f.avx512bw, "AVX512BW"@) + flagged(
        f.avx512cd,
        "AVX512CD"@,
    ) + flagged(f.avx512dq, "AVX512DQ"@) + flagged(f.avx512vl, "AVX512VL"@) + flagged(
        f.gfni,
        "GFNI"@,
    ) + flagged(f.vaes, "VAES"@) + flagged(f.vpclmulqdq, "VPCLMULQDQ"@)
}

/// The names of the present x86 features in inventory order.
pub open spec fn x86_feature_names(f: X86Features) -> Seq<Seq<char>> {
    x86_avx512_names(x86_scalar_names(x86_avx2_names(x86_sse_names(Seq::empty(), f), f), f), f)
}

pub open spec fn aarch64_feature_names(f: Aarch64Features) -> Seq<Seq<char>> {
    flagged(f.neon, "NEON"@) + flagged(f.aes, "AES"@) + flagged(f.pmull, "PMULL"@) + flagged(
        f.sha2,
        "SHA2"@,
    ) + flagged(f.sha3, "SHA3"@) + flagged(f.crc, "CRC"@) + flagged(f.dotprod, "DOTPROD"@)
        + flagged(f.fp16, "FP16"@) + flagged(f.sve, "SVE"@)
}

/// The detected features in inventory order; `["baseline"]` when none is.
pub open spec fn detected_spec(p: FeatureProbe) -> Seq<Seq<char>> {
    let l = match p {
        FeatureProbe::X86(f) => x86_feature_names(f),
        FeatureProbe::Aarch64(f) => aarch64_feature_names(f),
        FeatureProbe::Other => Seq::empty(),
    };
    if l.len() == 0 {
        seq!["baseline"@]
    } else {
        l
    }
}

/// The accelerated paths that are benchmarked: one per kernel that can run
/// (the FMA kernel needs AVX2 as well).
pub open spec fn benchmarked_spec(p: FeatureProbe) -> Seq<Seq<char>> {
    match p {
        FeatureProbe::X86(f) => flagged(f.sse2, "SSE2 FP"@) + flagged(f.avx2, "AVX2 integer"@)
            + flagged(f.avx2 && f.fma, "FMA"@) + flagged(f.aes, "AES-NI"@) + flagged(f.sse4_2, "SSE4.2 CRC"@)
            + flagged(f.popcnt, "POPCNT"@) + flagged(f.bmi2, "BMI2 PDEP"@) + flagged(
            f.bmi1,
            "BMI1 bit ops"@,
        ) + flagged(f.pclmulqdq, "PCLMULQDQ"@) + flagged(f.sha, "SHA-NI"@) + flagged(
            f.adx,
            "ADX carry"@,
        ) + flagged(f.rdrand, "RDRAND"@) + flagged(f.rdseed, "RDSEED"@),
        FeatureProbe::Aarch64(f) => flagged(f.neon, "NEON FP"@),
        FeatureProbe::Other => Seq::empty(),
    }
}

/// The detected feature that a benchmarked path exercises.
pub open spec fn base_feature(n: Seq<char>) -> Seq<char> {
    if n == "SSE2 FP"@ {
        "SSE2"@
    } else if n == "AVX2 integer"@ {
        "AVX2"@
    } else if n == "AES-NI"@ {
        "AES"@
    } else if n == "SSE4.2 CRC"@ {
        "SSE4.2"@
    } else if n == "BMI2 PDEP"@ {
        "BMI2"@
    } else if n == "BMI1 bit ops"@ {
        "BMI1"@
    } else if n == "SHA-NI"@ {
        "SHA"@
    } else if n == "ADX carry"@ {
        "ADX"@
    } else if n == "NEON FP"@ {
        "NEON"@
    } else {
        n
    }
}

broadcast proof fn lemma_contains_add<T>(a: Seq<T>, b: Seq<T>, x: T)
    ensures
        #[trigger] (a + b).contains(x) <==> a.contains(x) || b.contains(x),
{
    if (a + b).contains(x) {
        let i = choose|i: int| 0 <= i < (a + b).len() && (a + b)[i] == x;
        if i < a.len() {
            assert(a[i] == x);
        } else {
            assert(b[i - a.len()] == x);
        }
    }
    if a.contains(x) {
        let i = choose|i: int| 0 <= i < a.len() && a[i] == x;
        assert((a + b)[i] == x);
    }
    if b.contains(x) {
        let i = choose|i: int| 0 <= i < b.len() && b[i] == x;
        assert((a + b)[a.len() + i] == x);
    }
}

broadcast proof fn lemma_flagged_contains(b: bool, n: Seq<char>, x: Seq<char>)
    ensures
        #[trigger] flagged(b, n).contains(x) <==> (b && x == n),
{
    reveal(flagged);
    if b {
        assert(flagged(b, n)[0] == n);
    }
}

/// Lengths and some characters of the kernel names, which tell them apart.
proof fn lemma_kernel_name_facts()
    ensures
        "SSE2 FP"@.len() == 7 && "SSE2 FP"@[0] == 'S' && "SSE2 FP"@[2] == 'E',
        "AVX2 integer"@.len() == 12 && "AVX2 integer"@[0] == 'A' && "AVX2 integer"@[2] == 'X',
        "FMA"@.len() == 3 && "FMA"@[0] == 'F' && "FMA"@[2] == 'A',
        "AES-NI"@.len() == 6 && "AES-NI"@[0] == 'A' && "AES-NI"@[2] == 'S',
        "SSE4.2 CRC"@.len() == 10 && "SSE4.2 CRC"@[0] == 'S' && "SSE4.2 CRC"@[2] == 'E',
        "POPCNT"@.len() == 6 && "POPCNT"@[0] == 'P' && "POPCNT"@[2] == 'P',
        "BMI2 PDEP"@.len() == 9 && "BMI2 PDEP"@[0] == 'B' && "BMI2 PDEP"@[2] == 'I',
        "BMI1 bit ops"@.len() == 12 && "BMI1 bit ops"@[0] == 'B' && "BMI1 bit ops"@[2] == 'I',
        "PCLMULQDQ"@.len() == 9 && "PCLMULQDQ"@[0] == 'P' && "PCLMULQDQ"@[2] == 'L',
        "SHA-NI"@.len() == 6 && "SHA-NI"@[0] == 'S' && "SHA-NI"@[2] == 'A',
        "ADX carry"@.len() == 9 && "ADX carry"@[0] == 'A' && "ADX carry"@[2] == 'X',
        "RDRAND"@.len() == 6 && "RDRAND"@[0] == 'R' && "RDRAND"@[2] == 'R',
        "RDSEED"@.len() == 6 && "RDSEED"@[0] == 'R' && "RDSEED"@[2] == 'S',
        "NEON FP"@.len() == 7 && "NEON FP"@[0] == 'N' && "NEON FP"@[2] == 'O',
{
    reveal_strlit("ADX");
    reveal_strlit("ADX carry");
    reveal_strlit("AES");
    reveal_strlit("AES-NI");
    reveal_strlit("AVX2");
    reveal_strlit("AVX2 integer");
    reveal_strlit("BMI1");
    reveal_strlit("BMI1 bit ops");
    reveal_strlit("BMI2");
    reveal_strlit("BMI2 PDEP");
    reveal_strlit("FMA");
    reveal_strlit("NEON");
    reveal_strlit("NEON FP");
    reveal_strlit("PCLMULQDQ");
    reveal_strlit("POPCNT");
    reveal_strlit("RDRAND");
    reveal_strlit("RDSEED");
    reveal_strlit("SHA");
    reveal_strlit("SHA-NI");
    reveal_strlit("SSE2");
    reveal_strlit("SSE2 FP");
    reveal_strlit("SSE4.2");
    reveal_strlit("SSE4.2 CRC");
}

/// A benchmarked x86 path is one of the kernel names whose features are
/// present.
proof fn lemma_x86_benchmarked_cases(f: X86Features, x: Seq<char>)
    requires
        benchmarked_spec(FeatureProbe::X86(f)).contains(x),
    ensures
        ({
            ||| (f.sse2 && x == "SSE2 FP"@)
            ||| (f.avx2 && x == "AVX2 integer"@)
            ||| (f.avx2 && f.fma && x == "FMA"@)
            ||| (f.aes && x == "AES-NI"@)
            ||| (f.sse4_2 && x == "SSE4.2 CRC"@)
            ||| (f.popcnt && x == "POPCNT"@)
            ||| (f.bmi2 && x == "BMI2 PDEP"@)
            ||| (f.bmi1 && x == "BMI1 bit ops"@)
            ||| (f.pclmulqdq && x == "PCLMULQDQ"@)
            ||| (f.sha && x == "SHA-NI"@)
            ||| (f.adx && x == "ADX carry"@)
            ||| (f.rdrand && x == "RDRAND"@)
            ||| (f.rdseed && x == "RDSEED"@)
        }),
{
    broadcast use lemma_contains_add, lemma_flagged_contains;

    let t0 = flagged(f.sse2, "SSE2 FP"@);
    let t1 = t0 + flagged(f.avx2, "AVX2 integer"@);
    let t2 = t1 + flagged(f.avx2 && f.fma, "FMA"@);
    let t3 = t2 + flagged(f.aes, "AES-NI"@);
    let t4 = t3 + flagged(f.sse4_2, "SSE4.2 CRC"@);
    let t5 = t4 + flagged(f.popcnt, "POPCNT"@);
    let t6 = t5 + flagged(f.bmi2, "BMI2 PDEP"@);
    let t7 = t6 + flagged(f.bmi1, "BMI1 bit ops"@);
    let t8 = t7 + flagged(f.pclmulqdq, "PCLMULQDQ"@);
    let t9 = t8 + flagged(f.sha, "SHA-NI"@);
    let t10 = t9 + flagged(f.adx, "ADX carry"@);
    let t11 = t10 + flagged(f.rdrand, "RDRAND"@);
    let t12 = t11 + flagged(f.rdseed, "RDSEED"@);
    assert(t12 == benchmarked_spec(FeatureProbe::X86(f)));
    if !(f.rdseed && x == "RDSEED"@) {
        assert(t11.contains(x));
    if !(f.rdrand && x == "RDRAND"@) {
        assert(t10.contains(x));
    if !(f.adx && x == "ADX carry"@) {
        assert(t9.contains(x));
    if !(f.sha && x == "SHA-NI"@) {
        assert(t8.contains(x));
    if !(f.pclmulqdq && x == "PCLMULQDQ"@) {
        assert(t7.contains(x));
    if !(f.bmi1 && x == "BMI1 bit ops"@) {
        assert(t6.contains(x));
    if !(f.bmi2 && x == "BMI2 PDEP"@) {
        assert(t5.contains(x));
    if !(f.popcnt && x == "POPCNT"@) {
        assert(t4.contains(x));
    if !(f.sse4_2 && x == "SSE4.2 CRC"@) {
        assert(t3.contains(x));
    if !(f.aes && x == "AES-NI"@) {
        assert(t2.contains(x));
    if !(f.avx2 && f.fma && x == "FMA"@) {
        assert(t1.contains(x));
    if !(f.avx2 && x == "AVX2 integer"@) {
        assert(t0.contains(x));
    assert(true);
    }
    }
    }
    }
    }
    }
    }
    }
    }
    }
    }
    }
}
proof fn lemma_x86_benchmarked_detected(f: X86Features, x: Seq<char>)
    requires
        benchmarked_spec(FeatureProbe::X86(f)).contains(x),
    ensures
        x86_feature_names(f).contains(base_feature(x)),
{
    broadcast use lemma_contains_add, lemma_flagged_contains;

    lemma_x86_benchmarked_cases(f, x);
    lemma_kernel_name_facts();
    if x == "SSE2 FP"@ {
        assert(f.sse2);
        assert(base_feature(x) == "SSE2"@);
        assert(x86_feature_names(f).contains("SSE2"@));
    }     else if x == "AVX2 integer"@ {
        assert(f.avx2);
        assert(base_feature(x) == "AVX2"@);
        assert(x86_feature_names(f).contains("AVX2"@));
    }     else if x == "FMA"@ {
        assert(f.avx2 && f.fma);
        assert(base_feature(x) == "FMA"@);
        assert(x86_feature_names(f).contains("FMA"@));
    }     else if x == "AES-NI"@ {
        assert(f.aes);
        assert(base_feature(x) == "AES"@);
        assert(x86_feature_names(f).contains("AES"@));
    }     else if x == "SSE4.2 CRC"@ {
        assert(f.sse4_2);
        assert(base_feature(x) == "SSE4.2"@);
        assert(x86_feature_names(f).contains("SSE4.2"@));
    }     else if x == "POPCNT"@ {
        assert(f.popcnt);
        assert(base_feature(x) == "POPCNT"@);
        assert(x86_feature_names(f).contains("POPCNT"@));
    }     else if x == "BMI2 PDEP"@ {
        assert(f.bmi2);
        assert(base_feature(x) == "BMI2"@);
        assert(x86_feature_names(f).contains("BMI2"@));
    }     else if x == "BMI1 bit ops"@ {
        assert(f.bmi1);
        assert(base_feature(x) == "BMI1"@);
        assert(x86_feature_names(f).contains("BMI1"@));
    }     else if x == "PCLMULQDQ"@ {
        assert(f.pclmulqdq);
        assert(base_feature(x) == "PCLMULQDQ"@);
        assert(x86_feature_names(f).contains("PCLMULQDQ"@));
    }     else if x == "SHA-NI"@ {
        assert(f.sha);
        assert(base_feature(x) == "SHA"@);
        assert(x86_feature_names(f).contains("SHA"@));
    }     else if x == "ADX carry"@ {
        assert(f.adx);
        assert(base_feature(x) == "ADX"@);
        assert(x86_feature_names(f).contains("ADX"@));
    }     else if x == "RDRAND"@ {
        assert(f.rdrand);
        assert(base_feature(x) == "RDRAND"@);
        assert(x86_feature_names(f).contains("RDRAND"@));
    }     else if x == "RDSEED"@ {
        assert(f.rdseed);
        assert(base_feature(x) == "RDSEED"@);
        assert(x86_feature_names(f).contains("RDSEED"@));
    } else {
        assert(false);
    }
}

/// Every benchmarked path exercises a feature that the detected inventory
/// lists, so the report never claims a kernel for an undetected feature.
pub proof fn lemma_benchmarked_are_detected(p: FeatureProbe)
    ensures
        forall|i: int|
            0 <= i < benchmarked_spec(p).len() ==> detected_spec(p).contains(
                base_feature(#[trigger] benchmarked_spec(p)[i]),
            ),
{
    broadcast use lemma_contains_add, lemma_flagged_contains;

    lemma_kernel_name_facts();
    let b = benchmarked_spec(p);
    assert forall|i: int| 0 <= i < b.len() implies detected_spec(p).contains(
        base_feature(#[trigger] b[i]),
    ) by {
        assert(b.contains(b[i]));
        match p {
            FeatureProbe::X86(f) => {
                lemma_x86_benchmarked_detected(f, b[i]);
                assert(x86_feature_names(f).len() > 0);
            },
            FeatureProbe::Aarch64(f) => {
                assert(b[i] == "NEON FP"@);
                assert(aarch64_feature_names(f).contains("NEON"@));
            },
            FeatureProbe::Other => {},
        }
    }
}

/// Appends `name` when `b`.
fn add_if(out: &mut Vec<String>, b: bool, name: &str)
    ensures
        final(out).deep_view() == old(out).deep_view() + flagged(b, name@),
{
    reveal(flagged);
    if b {
        out.push(string_from(name));
        assert(out.deep_view() =~= old(out).deep_view() + flagged(b, name@));
    } else {
        assert(out.deep_view() =~= old(out).deep_view() + flagged(b, name@));
    }
}

fn add_x86_sse(f: &mut Vec<String>, x: &X86Features)
    ensures
        final(f).deep_view() == x86_sse_names(old(f).deep_view(), *x),
{
    add_if(f, x.sse, "SSE");
    add_if(f, x.sse2, "SSE2");
    add_if(f, x.sse3, "SSE3");
    add_if(f, x.ssse3, "SSSE3");
    add_if(f, x.sse4_1, "SSE4.1");
    add_if(f, x.sse4_2, "SSE4.2");
    add_if(f, x.avx, "AVX");
}

fn add_x86_avx2(f: &mut Vec<String>, x: &X86Features)
    ensures
        final(f).deep_view() == x86_avx2_names(old(f).deep_view(), *x),
{
    add_if(f, x.avx2, "AVX2");
    add_if(f, x.fma, "FMA");
    add_if(f, x.aes, "AES");
    add_if(f, x.pclmulqdq, "PCLMULQDQ");
    add_if(f, x.popcnt, "POPCNT");
    add_if(f, x.bmi1, "BMI1");
    add_if(f, x.bmi2, "BMI2");
}

fn add_x86_scalar(f: &mut Vec<String>, x: &X86Features)
    ensures
        final(f).deep_view() == x86_scalar_names(old(f).deep_view(), *x),
{
    add_if(f, x.adx, "ADX");
    add_if(f, x.sha, "SHA");
    add_if(f, x.rdrand, "RDRAND");
    add_if(f, x.rdseed, "RDSEED");
}

fn add_x86_avx512(f: &mut Vec<String>, x: &X86Features)
    ensures
        final(f).deep_view() == x86_avx512_names(old(f).deep_view(), *x),
{
    add_if(f, x.avx512f, "AVX512F");
    add_if(f, x.avx512bw, "AVX512BW");
    add_if(f, x.avx512cd, "AVX512CD");
    add_if(f, x.avx512dq, "AVX512DQ");
    add_if(f, x.avx512vl, "AVX512VL");
    add_if(f, x.gfni, "GFNI");
    add_if(f, x.vaes, "VAES");
    add_if(f, x.vpclmulqdq, "VPCLMULQDQ");
}

fn x86_names(x: &X86Features) -> (f: Vec<String>)
    ensures
        f.deep_view() == x86_feature_names(*x),
{
    let mut f: Vec<String> = Vec::new();
    assert(f.deep_view() =~= Seq::<Seq<char>>::empty());
    add_x86_sse(&mut f, x);
    add_x86_avx2(&mut f, x);
    add_x86_scalar(&mut f, x);
    add_x86_avx512(&mut f, x);
    f
}

fn aarch64_names(a: &Aarch64Features) -> (f: Vec<String>)
    ensures
        f.deep_view() == aarch64_feature_names(*a),
{
    let mut f: Vec<String> = Vec::new();
    assert(f.deep_view() =~= Seq::<Seq<char>>::empty());
    add_if(&mut f, a.neon, "NEON");
    assert(f.deep_view() == flagged(a.neon, "NEON"@));
    add_if(&mut f, a.aes, "AES");
    add_if(&mut f, a.pmull, "PMULL");
    add_if(&mut f, a.sha2, "SHA2");
    add_if(&mut f, a.sha3, "SHA3");
    add_if(&mut f, a.crc, "CRC");
    add_if(&mut f, a.dotprod, "DOTPROD");
    add_if(&mut f, a.fp16, "FP16");
    add_if(&mut f, a.sve, "SVE");
    f
}

/// Names of the detected CPU features in inventory order, or `baseline`
/// when nothing beyond it was detected.
pub fn detected_features(probe: &FeatureProbe) -> (names: Vec<String>)
    ensures
        names.deep_view() == detected_spec(*probe),
        names.len() >= 1,
{
    let mut f = match probe {
        FeatureProbe::X86(x) => x86_names(x),
        FeatureProbe::Aarch64(a) => aarch64_names(a),
        FeatureProbe::Other => {
            let v: Vec<String> = Vec::new();
            assert(v.deep_view() =~= Seq::<Seq<char>>::empty());
            v
        },
    };
    assert(f.deep_view().len() == f.len());
    if f.len() == 0 {
        f.push(string_from("baseline"));
        assert(f.deep_view() =~= seq!["baseline"@]);
    }
    f
}

/// Names of the features that have a dedicated benchmark kernel.
pub fn benchmarked_features(probe: &FeatureProbe) -> (names: Vec<String>)
    ensures
        names.deep_view() == benchmarked_spec(*probe),
{
    let mut f: Vec<String> = Vec::new();
    assert(f.deep_view() =~= Seq::<Seq<char>>::empty());
    match probe {
        FeatureProbe::X86(x) => {
            add_if(&mut f, x.sse2, "SSE2 FP");
            add_if(&mut f, x.avx2, "AVX2 integer");
            add_if(&mut f, x.avx2 && x.fma, "FMA");
            add_if(&mut f, x.aes, "AES-NI");
            add_if(&mut f, x.sse4_2, "SSE4.2 CRC");
            add_if(&mut f, x.popcnt, "POPCNT");
            add_if(&mut f, x.bmi2, "BMI2 PDEP");
            add_if(&mut f, x.bmi1, "BMI1 bit ops");
            add_if(&mut f, x.pclmulqdq, "PCLMULQDQ");
            add_if(&mut f, x.sha, "SHA-NI");
            add_if(&mut f, x.adx, "ADX carry");
            add_if(&mut f, x.rdrand, "RDRAND");
            add_if(&mut f, x.rdseed, "RDSEED");
            assert(Seq::<Seq<char>>::empty() + flagged(x.sse2, "SSE2 FP"@) == flagged(
                x.sse2,
                "SSE2 FP"@,
            ));
        },
        FeatureProbe::Aarch64(a) => {
            add_if(&mut f, a.neon, "NEON FP");
            assert(Seq::<Seq<char>>::empty() + flagged(a.neon, "NEON FP"@) == flagged(
                a.neon,
                "NEON FP"@,
            ));
        },
        FeatureProbe::Other => {},
    }
    f
}

// ---------------------------------------------------------------------------
// Acceleration kernels
// ---------------------------------------------------------------------------
/// A dedicated instruction-set benchmark kernel.
#[derive(PartialEq, Eq, Structural)]
pub enum AccelKernel {
    Sse2Fp,
    Avx2Integer,
    Fma,
    AesNi,
    Sse42Crc,
    Popcnt,
    Bmi2Pdep,
    Bmi1BitOps,
    Pclmulqdq,
    ShaNi,
    AdxCarry,
    Rdrand,
    Rdseed,
    NeonFp,
}

pub open spec fn kernel_if(b: bool, k: AccelKernel) -> Seq<AccelKernel> {
    if b {
        seq![k]
    } else {
        Seq::empty()
    }
}

/// The kernels that can run, in run order: each needs its feature, and the
/// FMA kernel needs AVX2 as well.
pub open spec fn acceleration_plan_spec(p: FeatureProbe) -> Seq<AccelKernel> {
    match p {
        FeatureProbe::X86(f) => kernel_if(f.sse2, AccelKernel::Sse2Fp) + kernel_if(
            f.avx2,
            AccelKernel::Avx2Integer,
        ) + kernel_if(f.avx2 && f.fma, AccelKernel::Fma) + kernel_if(f.aes, AccelKernel::AesNi)
            + kernel_if(f.sse4_2, AccelKernel::Sse42Crc) + kernel_if(f.popcnt, AccelKernel::Popcnt)
            + kernel_if(f.bmi2, AccelKernel::Bmi2Pdep) + kernel_if(f.bmi1, AccelKernel::Bmi1BitOps)
            + kernel_if(f.pclmulqdq, AccelKernel::Pclmulqdq) + kernel_if(f.sha, AccelKernel::ShaNi)
            + kernel_if(f.adx, AccelKernel::AdxCarry) + kernel_if(f.rdrand, AccelKernel::Rdrand)
            + kernel_if(f.rdseed, AccelKernel::Rdseed),
        FeatureProbe::Aarch64(f) => kernel_if(f.neon, AccelKernel::NeonFp),
        FeatureProbe::Other => Seq::empty(),
    }
}

/// Whether the detected features let kernel `k` run: its own feature, and
/// AVX2 as well for FMA.
pub open spec fn kernel_supported(k: AccelKernel, p: FeatureProbe) -> bool {
    match p {
        FeatureProbe::X86(f) => match k {
            AccelKernel::Sse2Fp => f.sse2,
            AccelKernel::Avx2Integer => f.avx2,
            AccelKernel::Fma => f.avx2 && f.fma,
            AccelKernel::AesNi => f.aes,
            AccelKernel::Sse42Crc => f.sse4_2,
            AccelKernel::Popcnt => f.popcnt,
            AccelKernel::Bmi2Pdep => f.bmi2,
            AccelKernel::Bmi1BitOps => f.bmi1,
            AccelKernel::Pclmulqdq => f.pclmulqdq,
            AccelKernel::ShaNi => f.sha,
            AccelKernel::AdxCarry => f.adx,
            AccelKernel::Rdrand => f.rdrand,
            AccelKernel::Rdseed => f.rdseed,
            AccelKernel::NeonFp => false,
        },
        FeatureProbe::Aarch64(f) => k == AccelKernel::NeonFp && f.neon,
        FeatureProbe::Other => false,
    }
}

pub open spec fn all_supported(plan: Seq<AccelKernel>, p: FeatureProbe) -> bool {
    forall|i: int| 0 <= i < plan.len() ==> kernel_supported(#[trigger] plan[i], p)
}

fn plan_if(out: &mut Vec<AccelKernel>, b: bool, k: AccelKernel, Ghost(p): Ghost<FeatureProbe>)
    requires
        all_supported(old(out)@, p),
        b ==> kernel_supported(k, p),
    ensures
        final(out)@ == old(out)@ + kernel_if(b, k),
        all_supported(final(out)@, p),
{
    if b {
        out.push(k);
    }
    assert(out@ =~= old(out)@ + kernel_if(b, k));
}

/// The acceleration kernels to run on this processor, in run order.
pub fn acceleration_plan(probe: &FeatureProbe) -> (plan: Vec<AccelKernel>)
    ensures
        plan@ == acceleration_plan_spec(*probe),
        // a kernel runs only where the features it executes were detected
        all_supported(plan@, *probe),
{
    let mut p: Vec<AccelKernel> = Vec::new();
    match probe {
        FeatureProbe::X86(f) => {
            plan_if(&mut p, f.sse2, AccelKernel::Sse2Fp, Ghost(*probe));
            plan_if(&mut p, f.avx2, AccelKernel::Avx2Integer, Ghost(*probe));
            plan_if(&mut p, f.avx2 && f.fma, AccelKernel::Fma, Ghost(*probe));
            plan_if(&mut p, f.aes, AccelKernel::AesNi, Ghost(*probe));
            plan_if(&mut p, f.sse4_2, AccelKernel::Sse42Crc, Ghost(*probe));
            plan_if(&mut p, f.popcnt, AccelKernel::Popcnt, Ghost(*probe));
            plan_if(&mut p, f.bmi2, AccelKernel::Bmi2Pdep, Ghost(*probe));
            plan_if(&mut p, f.bmi1, AccelKernel::Bmi1BitOps, Ghost(*probe));
            plan_if(&mut p, f.pclmulqdq, AccelKernel::Pclmulqdq, Ghost(*probe));
            plan_if(&mut p, f.sha, AccelKernel::ShaNi, Ghost(*probe));
            plan_if(&mut p, f.adx, AccelKernel::AdxCarry, Ghost(*probe));
            plan_if(&mut p, f.rdrand, AccelKernel::Rdrand, Ghost(*probe));
            plan_if(&mut p, f.rdseed, AccelKernel::Rdseed, Ghost(*probe));
            assert(Seq::<AccelKernel>::empty() + kernel_if(f.sse2, AccelKernel::Sse2Fp) == kernel_if(
                f.sse2,
                AccelKernel::Sse2Fp,
            ));
        },
        FeatureProbe::Aarch64(a) => {
            plan_if(&mut p, a.neon, AccelKernel::NeonFp, Ghost(*probe));
            assert(Seq::<AccelKernel>::empty() + kernel_if(a.neon, AccelKernel::NeonFp) == kernel_if(
                a.neon,
                AccelKernel::NeonFp,
            ));
        },
        FeatureProbe::Other => {},
    }
    p
}

pub open spec fn kernel_name_spec(k: AccelKernel) -> Seq<char> {
    match k {
        AccelKernel::Sse2Fp => "SSE2 FP"@,
        AccelKernel::Avx2Integer => "AVX2 integer"@,
        AccelKernel::Fma => "FMA"@,
        AccelKernel::AesNi => "AES-NI"@,
        AccelKernel::Sse42Crc => "SSE4.2 CRC"@,
        AccelKernel::Popcnt => "POPCNT"@,
        AccelKernel::Bmi2Pdep => "BMI2 PDEP"@,
        AccelKernel::Bmi1BitOps => "BMI1 bit ops"@,
        AccelKernel::Pclmulqdq => "PCLMULQDQ"@,
        AccelKernel::ShaNi => "SHA-NI"@,
        AccelKernel::AdxCarry => "ADX carry"@,
        AccelKernel::Rdrand => "RDRAND"@,
        AccelKernel::Rdseed => "RDSEED"@,
        AccelKernel::NeonFp => "NEON FP"@,
    }
}

pub open spec fn kernel_unit_spec(k: AccelKernel) -> Seq<char> {
    match k {
        AccelKernel::Sse2Fp | AccelKernel::Fma | AccelKernel::NeonFp => "GFLOP/s"@,
        AccelKernel::AesNi | AccelKernel::ShaNi => "G round/s"@,
        AccelKernel::Sse42Crc => "GB/s"@,
        AccelKernel::Rdrand | AccelKernel::Rdseed => "M sample/s"@,
        _ => "Gop/s"@,
    }
}

impl AccelKernel {
    /// The kernel's name in the results and the report.
    pub fn name(&self) -> (s: String)
        ensures
            s@ == kernel_name_spec(*self),
    {
        match self {
            AccelKernel::Sse2Fp => string_from("SSE2 FP"),
            AccelKernel::Avx2Integer => string_from("AVX2 integer"),
            AccelKernel::Fma => string_from("FMA"),
            AccelKernel::AesNi => string_from("AES-NI"),
            AccelKernel::Sse42Crc => string_from("SSE4.2 CRC"),
            AccelKernel::Popcnt => string_from("POPCNT"),
            AccelKernel::Bmi2Pdep => string_from("BMI2 PDEP"),
            AccelKernel::Bmi1BitOps => string_from("BMI1 bit ops"),
            AccelKernel::Pclmulqdq => string_from("PCLMULQDQ"),
            AccelKernel::ShaNi => string_from("SHA-NI"),
            AccelKernel::AdxCarry => string_from("ADX carry"),
            AccelKernel::Rdrand => string_from("RDRAND"),
            AccelKernel::Rdseed => string_from("RDSEED"),
            AccelKernel::NeonFp => string_from("NEON FP"),
        }
    }

    /// The unit of the kernel's throughput figure.
    pub fn unit(&self) -> (s: String)
        ensures
            s@ == kernel_unit_spec(*self),
    {
        match self {
            AccelKernel::Sse2Fp | AccelKernel::Fma | AccelKernel::NeonFp => string_from("GFLOP/s"),
            AccelKernel::AesNi | AccelKernel::ShaNi => string_from("G round/s"),
            AccelKernel::Sse42Crc => string_from("GB/s"),
            AccelKernel::Rdrand | AccelKernel::Rdseed => string_from("M sample/s"),
            _ => string_from("Gop/s"),
        }
    }
}

// ---------------------------------------------------------------------------
// Core type
// ---------------------------------------------------------------------------
/// Whether the highest basic CPUID leaf reaches the hybrid-information leaf
/// (0x1a).
pub fn has_hybrid_leaf(max_basic_leaf: u32) -> (b: bool)
    ensures
        b == (max_basic_leaf >= 0x1a),
{
    max_basic_leaf >= 0x1a
}

/// The core type that EAX of CPUID leaf 0x1a names in its top byte.
pub open spec fn core_kind_spec(hybrid_leaf_eax: Option<u32>) -> Seq<char> {
    match hybrid_leaf_eax {
        None => "Uniform/unknown"@,
        Some(eax) => {
            let kind = (eax >> 24u32) as nat;
            if kind == 0x20 {
                "Efficiency"@
            } else if kind == 0x40 {
                "Performance"@
            } else if kind == 0 {
                "Uniform/unknown"@
            } else {
                "Hybrid type 0x"@ + hex2(kind)
            }
        },
    }
}

/// The core type of the CPU the calling thread runs on, from EAX of CPUID
/// leaf 0x1a when the processor has that leaf (`None` otherwise).
pub fn core_kind(hybrid_leaf_eax: Option<u32>) -> (s: String)
    ensures
        s@ == core_kind_spec(hybrid_leaf_eax),
{
    match hybrid_leaf_eax {
        None => string_from("Uniform/unknown"),
        Some(eax) => {
            let kind = eax >> 24;
            assert(kind < 256) by (bit_vector)
                requires
                    kind == eax >> 24u32,
            ;
            if kind == 0x20 {
                string_from("Efficiency")
            } else if kind == 0x40 {
                string_from("Performance")
            } else if kind == 0 {
                string_from("Uniform/unknown")
            } else {
                let mut s = string_from("Hybrid type 0x");
                push_hex2(&mut s, kind);
                s
            }
        },
    }
}

/// The names of a sequence of kernels.
pub open spec fn names_of(plan: Seq<AccelKernel>) -> Seq<Seq<char>> {
    plan.map_values(|k: AccelKernel| kernel_name_spec(k))
}

proof fn lemma_names_of_add(a: Seq<AccelKernel>, b: Seq<AccelKernel>)
    ensures
        names_of(a + b) == names_of(a) + names_of(b),
{
    assert(names_of(a + b) =~= names_of(a) + names_of(b));
}

proof fn lemma_kernel_if_names(b: bool, k: AccelKernel)
    ensures
        names_of(kernel_if(b, k)) == flagged(b, kernel_name_spec(k)),
{
    reveal(flagged);
    assert(names_of(kernel_if(b, k)) =~= flagged(b, kernel_name_spec(k)));
}

/// The benchmarked paths that the report lists are exactly the names of the
/// kernels that run, in run order.
pub proof fn lemma_benchmarked_are_planned(p: FeatureProbe)
    ensures
        benchmarked_spec(p) == names_of(acceleration_plan_spec(p)),
{
    match p {
        FeatureProbe::X86(f) => {
            lemma_x86_benchmarked_are_planned(f);
        },
        FeatureProbe::Aarch64(f) => {
            lemma_kernel_if_names(f.neon, AccelKernel::NeonFp);
        },
        FeatureProbe::Other => {
            assert(names_of(Seq::<AccelKernel>::empty()) =~= Seq::<Seq<char>>::empty());
        },
    }
}

#[verifier::rlimit(40)]
proof fn lemma_x86_benchmarked_are_planned(f: X86Features)
    ensures
        benchmarked_spec(FeatureProbe::X86(f)) == names_of(
            acceleration_plan_spec(FeatureProbe::X86(f)),
        ),
{
    lemma_kernel_if_names(f.sse2, AccelKernel::Sse2Fp);
    let k0 = kernel_if(f.sse2, AccelKernel::Sse2Fp);
    let n0 = flagged(f.sse2, "SSE2 FP"@);
    assert(names_of(k0) == n0);
    lemma_kernel_if_names(f.avx2, AccelKernel::Avx2Integer);
    let k1 = k0 + kernel_if(f.avx2, AccelKernel::Avx2Integer);
    let n1 = n0 + flagged(f.avx2, "AVX2 integer"@);
    lemma_names_of_add(k0, kernel_if(f.avx2, AccelKernel::Avx2Integer));
    assert(names_of(k1) == n1);
    lemma_kernel_if_names(f.avx2 && f.fma, AccelKernel::Fma);
    let k2 = k1 + kernel_if(f.avx2 && f.fma, AccelKernel::Fma);
    let n2 = n1 + flagged(f.avx2 && f.fma, "FMA"@);
    lemma_names_of_add(k1, kernel_if(f.avx2 && f.fma, AccelKernel::Fma));
    assert(names_of(k2) == n2);
    lemma_kernel_if_names(f.aes, AccelKernel::AesNi);
    let k3 = k2 + kernel_if(f.aes, AccelKernel::AesNi);
    let n3 = n2 + flagged(f.aes, "AES-NI"@);
    lemma_names_of_add(k2, kernel_if(f.aes, AccelKernel::AesNi));
    assert(names_of(k3) == n3);
    lemma_kernel_if_names(f.sse4_2, AccelKernel::Sse42Crc);
    let k4 = k3 + kernel_if(f.sse4_2, AccelKernel::Sse42Crc);
    let n4 = n3 + flagged(f.sse4_2, "SSE4.2 CRC"@);
    lemma_names_of_add(k3, kernel_if(f.sse4_2, AccelKernel::Sse42Crc));
    assert(names_of(k4) == n4);
    lemma_kernel_if_names(f.popcnt, AccelKernel::Popcnt);
    let k5 = k4 + kernel_if(f.popcnt, AccelKernel::Popcnt);
    let n5 = n4 + flagged(f.popcnt, "POPCNT"@);
    lemma_names_of_add(k4, kernel_if(f.popcnt, AccelKernel::Popcnt));
    assert(names_of(k5) == n5);
    lemma_kernel_if_names(f.bmi2, AccelKernel::Bmi2Pdep);
    let k6 = k5 + kernel_if(f.bmi2, AccelKernel::Bmi2Pdep);
    let n6 = n5 + flagged(f.bmi2, "BMI2 PDEP"@);
    lemma_names_of_add(k5, kernel_if(f.bmi2, AccelKernel::Bmi2Pdep));
    assert(names_of(k6) == n6);
    lemma_kernel_if_names(f.bmi1, AccelKernel::Bmi1BitOps);
    let k7 = k6 + kernel_if(f.bmi1, AccelKernel::Bmi1BitOps);
    let n7 = n6 + flagged(f.bmi1, "BMI1 bit ops"@);
    lemma_names_of_add(k6, kernel_if(f.bmi1, AccelKernel::Bmi1BitOps));
    assert(names_of(k7) == n7);
    lemma_kernel_if_names(f.pclmulqdq, AccelKernel::Pclmulqdq);
    let k8 = k7 + kernel_if(f.pclmulqdq, AccelKernel::Pclmulqdq);
    let n8 = n7 + flagged(f.pclmulqdq, "PCLMULQDQ"@);
    lemma_names_of_add(k7, kernel_if(f.pclmulqdq, AccelKernel::Pclmulqdq));
    assert(names_of(k8) == n8);
    lemma_kernel_if_names(f.sha, AccelKernel::ShaNi);
    let k9 = k8 + kernel_if(f.sha, AccelKernel::ShaNi);
    let n9 = n8 + flagged(f.sha, "SHA-NI"@);
    lemma_names_of_add(k8, kernel_if(f.sha, AccelKernel::ShaNi));
    assert(names_of(k9) == n9);
    lemma_kernel_if_names(f.adx, AccelKernel::AdxCarry);
    let k10 = k9 + kernel_if(f.adx, AccelKernel::AdxCarry);
    let n10 = n9 + flagged(f.adx, "ADX carry"@);
    lemma_names_of_add(k9, kernel_if(f.adx, AccelKernel::AdxCarry));
    assert(names_of(k10) == n10);
    lemma_kernel_if_names(f.rdrand, AccelKernel::Rdrand);
    let k11 = k10 + kernel_if(f.rdrand, AccelKernel::Rdrand);
    let n11 = n10 + flagged(f.rdrand, "RDRAND"@);
    lemma_names_of_add(k10, kernel_if(f.rdrand, AccelKernel::Rdrand));
    assert(names_of(k11) == n11);
    lemma_kernel_if_names(f.rdseed, AccelKernel::Rdseed);
    let k12 = k11 + kernel_if(f.rdseed, AccelKernel::Rdseed);
    let n12 = n11 + flagged(f.rdseed, "RDSEED"@);
    lemma_names_of_add(k11, kernel_if(f.rdseed, AccelKernel::Rdseed));
    assert(names_of(k12) == n12);
    assert(k12 == acceleration_plan_spec(FeatureProbe::X86(f)));
    assert(n12 == benchmarked_spec(FeatureProbe::X86(f)));
}

proof fn lemma_x86_lists_flags_0(f: X86Features)
    ensures
        f.sse ==> x86_feature_names(f).contains("SSE"@),
        f.sse2 ==> x86_feature_names(f).contains("SSE2"@),
        f.sse3 ==> x86_feature_names(f).contains("SSE3"@),
        f.ssse3 ==> x86_feature_names(f).contains("SSSE3"@),
        f.sse4_1 ==> x86_feature_names(f).contains("SSE4.1"@),
        f.sse4_2 ==> x86_feature_names(f).contains("SSE4.2"@),
        f.avx ==> x86_feature_names(f).contains("AVX"@),
{
    broadcast use lemma_contains_add, lemma_flagged_contains;

}

proof fn lemma_x86_lists_flags_1(f: X86Features)
    ensures
        f.avx2 ==> x86_feature_names(f).contains("AVX2"@),
        f.fma ==> x86_feature_names(f).contains("FMA"@),
        f.aes ==> x86_feature_names(f).contains("AES"@),
        f.pclmulqdq ==> x86_feature_names(f).contains("PCLMULQDQ"@),
        f.popcnt ==> x86_feature_names(f).contains("POPCNT"@),
        f.bmi1 ==> x86_feature_names(f).contains("BMI1"@),
        f.bmi2 ==> x86_feature_names(f).contains("BMI2"@),
{
    broadcast use lemma_contains_add, lemma_flagged_contains;

}

proof fn lemma_x86_lists_flags_2(f: X86Features)
    ensures
        f.adx ==> x86_feature_names(f).contains("ADX"@),
        f.sha ==> x86_feature_names(f).contains("SHA"@),
        f.rdrand ==> x86_feature_names(f).contains("RDRAND"@),
        f.rdseed ==> x86_feature_names(f).contains("RDSEED"@),
        f.avx512f ==> x86_feature_names(f).contains("AVX512F"@),
        f.avx512bw ==> x86_feature_names(f).contains("AVX512BW"@),
{
    broadcast use lemma_contains_add, lemma_flagged_contains;

}

proof fn lemma_x86_lists_flags_3(f: X86Features)
    ensures
        f.avx512cd ==> x86_feature_names(f).contains("AVX512CD"@),
        f.avx512dq ==> x86_feature_names(f).contains("AVX512DQ"@),
        f.avx512vl ==> x86_feature_names(f).contains("AVX512VL"@),
        f.gfni ==> x86_feature_names(f).contains("GFNI"@),
        f.vaes ==> x86_feature_names(f).contains("VAES"@),
        f.vpclmulqdq ==> x86_feature_names(f).contains("VPCLMULQDQ"@),
{
    broadcast use lemma_contains_add, lemma_flagged_contains;

}

/// Every detected feature is in the inventory: each x86 flag that is set
/// puts its feature's name in the list.
pub proof fn lemma_detected_lists_every_x86_flag(f: X86Features)
    ensures
        f.sse ==> detected_spec(FeatureProbe::X86(f)).contains("SSE"@),
        f.sse2 ==> detected_spec(FeatureProbe::X86(f)).contains("SSE2"@),
        f.sse3 ==> detected_spec(FeatureProbe::X86(f)).contains("SSE3"@),
        f.ssse3 ==> detected_spec(FeatureProbe::X86(f)).contains("SSSE3"@),
        f.sse4_1 ==> detected_spec(FeatureProbe::X86(f)).contains("SSE4.1"@),
        f.sse4_2 ==> detected_spec(FeatureProbe::X86(f)).contains("SSE4.2"@),
        f.avx ==> detected_spec(FeatureProbe::X86(f)).contains("AVX"@),
        f.avx2 ==> detected_spec(FeatureProbe::X86(f)).contains("AVX2"@),
        f.fma ==> detected_spec(FeatureProbe::X86(f)).contains("FMA"@),
        f.aes ==> detected_spec(FeatureProbe::X86(f)).contains("AES"@),
        f.pclmulqdq ==> detected_spec(FeatureProbe::X86(f)).contains("PCLMULQDQ"@),
        f.popcnt ==> detected_spec(FeatureProbe::X86(f)).contains("POPCNT"@),
        f.bmi1 ==> detected_spec(FeatureProbe::X86(f)).contains("BMI1"@),
        f.bmi2 ==> detected_spec(FeatureProbe::X86(f)).contains("BMI2"@),
        f.adx ==> detected_spec(FeatureProbe::X86(f)).contains("ADX"@),
        f.sha ==> detected_spec(FeatureProbe::X86(f)).contains("SHA"@),
        f.rdrand ==> detected_spec(FeatureProbe::X86(f)).contains("RDRAND"@),
        f.rdseed ==> detected_spec(FeatureProbe::X86(f)).contains("RDSEED"@),
        f.avx512f ==> detected_spec(FeatureProbe::X86(f)).contains("AVX512F"@),
        f.avx512bw ==> detected_spec(FeatureProbe::X86(f)).contains("AVX512BW"@),
        f.avx512cd ==> detected_spec(FeatureProbe::X86(f)).contains("AVX512CD"@),
        f.avx512dq ==> detected_spec(FeatureProbe::X86(f)).contains("AVX512DQ"@),
        f.avx512vl ==> detected_spec(FeatureProbe::X86(f)).contains("AVX512VL"@),
        f.gfni ==> detected_spec(FeatureProbe::X86(f)).contains("GFNI"@),
        f.vaes ==> detected_spec(FeatureProbe::X86(f)).contains("VAES"@),
        f.vpclmulqdq ==> detected_spec(FeatureProbe::X86(f)).contains("VPCLMULQDQ"@),
{
    lemma_x86_lists_flags_0(f);
    lemma_x86_lists_flags_1(f);
    lemma_x86_lists_flags_2(f);
    lemma_x86_lists_flags_3(f);
    if x86_feature_names(f).len() == 0 {
        assert(!x86_feature_names(f).contains("SSE"@));
        assert(!x86_feature_names(f).contains("SSE2"@));
        assert(!x86_feature_names(f).contains("SSE3"@));
        assert(!x86_feature_names(f).contains("SSSE3"@));
        assert(!x86_feature_names(f).contains("SSE4.1"@));
        assert(!x86_feature_names(f).contains("SSE4.2"@));
        assert(!x86_feature_names(f).contains("AVX"@));
        assert(!x86_feature_names(f).contains("AVX2"@));
        assert(!x86_feature_names(f).contains("FMA"@));
        assert(!x86_feature_names(f).contains("AES"@));
        assert(!x86_feature_names(f).contains("PCLMULQDQ"@));
        assert(!x86_feature_names(f).contains("POPCNT"@));
        assert(!x86_feature_names(f).contains("BMI1"@));
        assert(!x86_feature_names(f).contains("BMI2"@));
        assert(!x86_feature_names(f).contains("ADX"@));
        assert(!x86_feature_names(f).contains("SHA"@));
        assert(!x86_feature_names(f).contains("RDRAND"@));
        assert(!x86_feature_names(f).contains("RDSEED"@));
        assert(!x86_feature_names(f).contains("AVX512F"@));
        assert(!x86_feature_names(f).contains("AVX512BW"@));
        assert(!x86_feature_names(f).contains("AVX512CD"@));
        assert(!x86_feature_names(f).contains("AVX512DQ"@));
        assert(!x86_feature_names(f).contains("AVX512VL"@));
        assert(!x86_feature_names(f).contains("GFNI"@));
        assert(!x86_feature_names(f).contains("VAES"@));
        assert(!x86_feature_names(f).contains("VPCLMULQDQ"@));
    }
}

/// Every detected AArch64 feature is in the inventory.
pub proof fn lemma_detected_lists_every_aarch64_flag(f: Aarch64Features)
    ensures
        f.neon ==> detected_spec(FeatureProbe::Aarch64(f)).contains("NEON"@),
        f.aes ==> detected_spec(FeatureProbe::Aarch64(f)).contains("AES"@),
        f.pmull ==> detected_spec(FeatureProbe::Aarch64(f)).contains("PMULL"@),
        f.sha2 ==> detected_spec(FeatureProbe::Aarch64(f)).contains("SHA2"@),
        f.sha3 ==> detected_spec(FeatureProbe::Aarch64(f)).contains("SHA3"@),
        f.crc ==> detected_spec(FeatureProbe::Aarch64(f)).contains("CRC"@),
        f.dotprod ==> detected_spec(FeatureProbe::Aarch64(f)).contains("DOTPROD"@),
        f.fp16 ==> detected_spec(FeatureProbe::Aarch64(f)).contains("FP16"@),
        f.sve ==> detected_spec(FeatureProbe::Aarch64(f)).contains("SVE"@),
{
    broadcast use lemma_contains_add, lemma_flagged_contains;

    if aarch64_feature_names(f).len() == 0 {
        assert(!aarch64_feature_names(f).contains("NEON"@));
        assert(!aarch64_feature_names(f).contains("AES"@));
        assert(!aarch64_feature_names(f).contains("PMULL"@));
        assert(!aarch64_feature_names(f).contains("SHA2"@));
        assert(!aarch64_feature_names(f).contains("SHA3"@));
        assert(!aarch64_feature_names(f).contains("CRC"@));
        assert(!aarch64_feature_names(f).contains("DOTPROD"@));
        assert(!aarch64_feature_names(f).contains("FP16"@));
        assert(!aarch64_feature_names(f).contains("SVE"@));
    }
}

/// `name` is the inventory name of an x86 feature that `f` has.
pub open spec fn x86_has_named(f: X86Features, name: Seq<char>) -> bool {
    ||| name == "SSE"@ && f.sse
    ||| name == "SSE2"@ && f.sse2
    ||| name == "SSE3"@ && f.sse3
    ||| name == "SSSE3"@ && f.ssse3
    ||| name == "SSE4.1"@ && f.sse4_1
    ||| name == "SSE4.2"@ && f.sse4_2
    ||| name == "AVX"@ && f.avx
    ||| name == "AVX2"@ && f.avx2
    ||| name == "FMA"@ && f.fma
    ||| name == "AES"@ && f.aes
    ||| name == "PCLMULQDQ"@ && f.pclmulqdq
    ||| name == "POPCNT"@ && f.popcnt
    ||| name == "BMI1"@ && f.bmi1
    ||| name == "BMI2"@ && f.bmi2
    ||| name == "ADX"@ && f.adx
    ||| name == "SHA"@ && f.sha
    ||| name == "RDRAND"@ && f.rdrand
    ||| name == "RDSEED"@ && f.rdseed
    ||| name == "AVX512F"@ && f.avx512f
    ||| name == "AVX512BW"@ && f.avx512bw
    ||| name == "AVX512CD"@ && f.avx512cd
    ||| name == "AVX512DQ"@ && f.avx512dq
    ||| name == "AVX512VL"@ && f.avx512vl
    ||| name == "GFNI"@ && f.gfni
    ||| name == "VAES"@ && f.vaes
    ||| name == "VPCLMULQDQ"@ && f.vpclmulqdq
}

/// `f` has at least one x86 feature.
pub open spec fn x86_has_any(f: X86Features) -> bool {
    ||| f.sse
    ||| f.sse2
    ||| f.sse3
    ||| f.ssse3
    ||| f.sse4_1
    ||| f.sse4_2
    ||| f.avx
    ||| f.avx2
    ||| f.fma
    ||| f.aes
    ||| f.pclmulqdq
    ||| f.popcnt
    ||| f.bmi1
    ||| f.bmi2
    ||| f.adx
    ||| f.sha
    ||| f.rdrand
    ||| f.rdseed
    ||| f.avx512f
    ||| f.avx512bw
    ||| f.avx512cd
    ||| f.avx512dq
    ||| f.avx512vl
    ||| f.gfni
    ||| f.vaes
    ||| f.vpclmulqdq
}

/// `name` is the inventory name of an AArch64 feature that `f` has.
pub open spec fn aarch64_has_named(f: Aarch64Features, name: Seq<char>) -> bool {
    ||| name == "NEON"@ && f.neon
    ||| name == "AES"@ && f.aes
    ||| name == "PMULL"@ && f.pmull
    ||| name == "SHA2"@ && f.sha2
    ||| name == "SHA3"@ && f.sha3
    ||| name == "CRC"@ && f.crc
    ||| name == "DOTPROD"@ && f.dotprod
    ||| name == "FP16"@ && f.fp16
    ||| name == "SVE"@ && f.sve
}

/// `f` has at least one AArch64 feature.
pub open spec fn aarch64_has_any(f: Aarch64Features) -> bool {
    ||| f.neon
    ||| f.aes
    ||| f.pmull
    ||| f.sha2
    ||| f.sha3
    ||| f.crc
    ||| f.dotprod
    ||| f.fp16
    ||| f.sve
}

/// Nothing undetected is in the inventory: every name listed for an x86
/// probe is that of a feature whose flag is set, or the list is
/// `["baseline"]` and no flag is set.
pub proof fn lemma_x86_inventory_only_detected(f: X86Features)
    ensures
        forall|name: Seq<char>|
            #[trigger] detected_spec(FeatureProbe::X86(f)).contains(name) ==> x86_has_named(f, name)
                || (name == "baseline"@ && !x86_has_any(f)),
{
    let l = x86_feature_names(f);
    assert forall|name: Seq<char>| #[trigger] l.contains(name) implies x86_has_named(f, name) by {
        broadcast use lemma_contains_add, lemma_flagged_contains;

    }
    lemma_detected_lists_every_x86_flag(f);
    assert forall|name: Seq<char>|
        #[trigger] detected_spec(FeatureProbe::X86(f)).contains(name) implies x86_has_named(f, name)
            || (name == "baseline"@ && !x86_has_any(f)) by {
        if l.len() == 0 {
            let d = detected_spec(FeatureProbe::X86(f));
            let i = choose|i: int| 0 <= i < d.len() && d[i] == name;
            assert(d[0] == "baseline"@);
            assert(!l.contains("SSE"@));
        }
    }
}

/// Nothing undetected is in the inventory of an AArch64 probe either.
pub proof fn lemma_aarch64_inventory_only_detected(f: Aarch64Features)
    ensures
        forall|name: Seq<char>|
            #[trigger] detected_spec(FeatureProbe::Aarch64(f)).contains(name) ==> aarch64_has_named(
                f,
                name,
            ) || (name == "baseline"@ && !aarch64_has_any(f)),
{
    let l = aarch64_feature_names(f);
    assert forall|name: Seq<char>| #[trigger] l.contains(name) implies aarch64_has_named(f, name) by {
        broadcast use lemma_contains_add, lemma_flagged_contains;

    }
    lemma_detected_lists_every_aarch64_flag(f);
    assert forall|name: Seq<char>|
        #[trigger] detected_spec(FeatureProbe::Aarch64(f)).contains(name) implies aarch64_has_named(
            f,
            name,
        ) || (name == "baseline"@ && !aarch64_has_any(f)) by {
        if l.len() == 0 {
            let d = detected_spec(FeatureProbe::Aarch64(f));
            let i = choose|i: int| 0 <= i < d.len() && d[i] == name;
            assert(d[0] == "baseline"@);
        }
    }
}

proof fn lemma_kernel_if_contains(b: bool, k: AccelKernel, x: AccelKernel)
    ensures
        #[trigger] kernel_if(b, k).contains(x) <==> (b && x == k),
{
    if b {
        assert(kernel_if(b, k)[0] == k);
    }
}

proof fn lemma_supported_kernel_in_plan(p: FeatureProbe, k: AccelKernel)
    requires
        kernel_supported(k, p),
    ensures
        acceleration_plan_spec(p).contains(k),
{
    broadcast use lemma_contains_add;

    lemma_kernel_if_contains(kernel_supported(k, p), k, k);
    match p {
        FeatureProbe::X86(f) => {
            match k {
                AccelKernel::Sse2Fp => lemma_kernel_if_contains(f.sse2, k, k),
                AccelKernel::Avx2Integer => lemma_kernel_if_contains(f.avx2, k, k),
                AccelKernel::Fma => lemma_kernel_if_contains(f.avx2 && f.fma, k, k),
                AccelKernel::AesNi => lemma_kernel_if_contains(f.aes, k, k),
                AccelKernel::Sse42Crc => lemma_kernel_if_contains(f.sse4_2, k, k),
                AccelKernel::Popcnt => lemma_kernel_if_contains(f.popcnt, k, k),
                AccelKernel::Bmi2Pdep => lemma_kernel_if_contains(f.bmi2, k, k),
                AccelKernel::Bmi1BitOps => lemma_kernel_if_contains(f.bmi1, k, k),
                AccelKernel::Pclmulqdq => lemma_kernel_if_contains(f.pclmulqdq, k, k),
                AccelKernel::ShaNi => lemma_kernel_if_contains(f.sha, k, k),
                AccelKernel::AdxCarry => lemma_kernel_if_contains(f.adx, k, k),
                AccelKernel::Rdrand => lemma_kernel_if_contains(f.rdrand, k, k),
                AccelKernel::Rdseed => lemma_kernel_if_contains(f.rdseed, k, k),
                AccelKernel::NeonFp => {},
            }
        },
        FeatureProbe::Aarch64(f) => {
            lemma_kernel_if_contains(f.neon, AccelKernel::NeonFp, k);
        },
        FeatureProbe::Other => {},
    }
}

/// Every kernel whose features were detected is planned (and so runs), and
/// its name is listed among the benchmarked paths.
pub proof fn lemma_supported_kernels_planned(p: FeatureProbe, k: AccelKernel)
    requires
        kernel_supported(k, p),
    ensures
        acceleration_plan_spec(p).contains(k),
        benchmarked_spec(p).contains(kernel_name_spec(k)),
{
    lemma_supported_kernel_in_plan(p, k);
    lemma_benchmarked_are_planned(p);
    let plan = acceleration_plan_spec(p);
    let i = choose|i: int| 0 <= i < plan.len() && plan[i] == k;
    assert(names_of(plan).len() == plan.len());
    assert(names_of(plan)[i] == kernel_name_spec(k));
    assert(names_of(plan).contains(kernel_name_spec(k)));
}

} // verus!

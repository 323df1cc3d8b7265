use coretester::features::{
    acceleration_plan, benchmarked_features, core_kind, detected_features, has_hybrid_leaf,
    AccelKernel, Aarch64Features, FeatureProbe, X86Features,
};

fn x86(f: impl Fn(&mut X86Features)) -> FeatureProbe {
    let mut x = X86Features {
        sse: false, sse2: false, sse3: false, ssse3: false, sse4_1: false, sse4_2: false,
        avx: false, avx2: false, fma: false, aes: false, pclmulqdq: false, popcnt: false,
        bmi1: false, bmi2: false, adx: false, sha: false, rdrand: false, rdseed: false,
        avx512f: false, avx512bw: false, avx512cd: false, avx512dq: false, avx512vl: false,
        gfni: false, vaes: false, vpclmulqdq: false,
    };
    f(&mut x);
    FeatureProbe::X86(x)
}

#[test]
fn nothing_detected_is_baseline() {
    assert_eq!(detected_features(&FeatureProbe::Other), vec!["baseline"]);
    assert_eq!(detected_features(&x86(|_| {})), vec!["baseline"]);
    assert!(benchmarked_features(&FeatureProbe::Other).is_empty());
}

#[test]
fn x86_inventory_in_order() {
    let p = x86(|x| {
        x.sse2 = true;
        x.avx2 = true;
        x.sse4_2 = true;
        x.vpclmulqdq = true;
        x.rdseed = true;
    });
    assert_eq!(detected_features(&p), vec!["SSE2", "SSE4.2", "AVX2", "RDSEED", "VPCLMULQDQ"]);
    assert_eq!(benchmarked_features(&p), vec!["SSE2 FP", "AVX2 integer", "SSE4.2 CRC", "RDSEED"]);
}

#[test]
fn aarch64_inventory() {
    let p = FeatureProbe::Aarch64(Aarch64Features {
        neon: true, aes: false, pmull: true, sha2: false, sha3: false, crc: true,
        dotprod: false, fp16: false, sve: true,
    });
    assert_eq!(detected_features(&p), vec!["NEON", "PMULL", "CRC", "SVE"]);
    assert_eq!(benchmarked_features(&p), vec!["NEON FP"]);
    let names: Vec<String> = acceleration_plan(&p).iter().map(|k| k.name()).collect();
    assert_eq!(names, vec!["NEON FP"]);
}

#[test]
fn fma_kernel_needs_avx2() {
    let p = x86(|x| x.fma = true);
    assert!(acceleration_plan(&p).is_empty());
    assert!(benchmarked_features(&p).is_empty());
    assert_eq!(detected_features(&p), vec!["FMA"]);
    let p = x86(|x| {
        x.fma = true;
        x.avx2 = true;
        x.aes = true;
        x.rdrand = true;
    });
    let plan = acceleration_plan(&p);
    assert!(plan == vec![AccelKernel::Avx2Integer, AccelKernel::Fma, AccelKernel::AesNi, AccelKernel::Rdrand]);
    let units: Vec<String> = plan.iter().map(|k| k.unit()).collect();
    assert_eq!(units, vec!["Gop/s", "GFLOP/s", "G round/s", "M sample/s"]);
}

#[test]
fn core_types() {
    assert_eq!(core_kind(None), "Uniform/unknown");
    assert_eq!(core_kind(Some(0x2000_0001)), "Efficiency");
    assert_eq!(core_kind(Some(0x4012_3456)), "Performance");
    assert_eq!(core_kind(Some(0x00ff_ffff)), "Uniform/unknown");
    assert_eq!(core_kind(Some(0x1200_0000)), "Hybrid type 0x12");
    assert_eq!(core_kind(Some(0x0a00_0000)), "Hybrid type 0x0a");
    assert_eq!(core_kind(Some(0xff00_0000)), "Hybrid type 0xff");
    assert!(has_hybrid_leaf(0x1a));
    assert!(!has_hybrid_leaf(0x19));
}

#[test]
fn benchmarked_paths_are_detected_features() {
    let base = |n: &str| match n {
        "SSE2 FP" => "SSE2",
        "AVX2 integer" => "AVX2",
        "AES-NI" => "AES",
        "SSE4.2 CRC" => "SSE4.2",
        "BMI2 PDEP" => "BMI2",
        "BMI1 bit ops" => "BMI1",
        "SHA-NI" => "SHA",
        "ADX carry" => "ADX",
        "NEON FP" => "NEON",
        other => other,
    }
    .to_string();
    let p = x86(|x| {
        x.sse2 = true;
        x.avx2 = true;
        x.fma = true;
        x.sha = true;
        x.adx = true;
        x.bmi1 = true;
    });
    let detected = detected_features(&p);
    let benchmarked = benchmarked_features(&p);
    assert_eq!(benchmarked, vec!["SSE2 FP", "AVX2 integer", "FMA", "BMI1 bit ops", "SHA-NI", "ADX carry"]);
    assert!(benchmarked.iter().all(|n| detected.contains(&base(n))));
    let planned: Vec<String> = acceleration_plan(&p).iter().map(|k| k.name()).collect();
    assert_eq!(planned, benchmarked);
}

#[test]
fn listed_paths_are_the_planned_kernels() {
    let names = |p: &FeatureProbe| acceleration_plan(p).iter().map(|k| k.name()).collect::<Vec<String>>();
    let p = x86(|x| {
        x.sse2 = true;
        x.fma = true;
        x.popcnt = true;
        x.pclmulqdq = true;
        x.rdseed = true;
    });
    assert_eq!(benchmarked_features(&p), names(&p));
    assert_eq!(benchmarked_features(&FeatureProbe::Other), names(&FeatureProbe::Other));
    let arm = FeatureProbe::Aarch64(Aarch64Features {
        neon: false, aes: true, pmull: false, sha2: false, sha3: false, crc: false,
        dotprod: false, fp16: false, sve: false,
    });
    assert!(benchmarked_features(&arm).is_empty() && names(&arm).is_empty());
}

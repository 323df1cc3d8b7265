use coretester::args::parse_args;
use coretester::identity::{
    brand_name, cpu_name_from_brand, cpu_name_from_cpuinfo, pick_cpu_name, selected_cpus,
    CpuIdentity, RunConfig,
};

#[test]
fn brand_string_is_trimmed() {
    assert_eq!(brand_name("\0  Intel(R) Core(TM) i7 CPU  \0\0").as_deref(), Some("Intel(R) Core(TM) i7 CPU"));
    assert_eq!(brand_name("\0\0\0"), None);
    assert_eq!(brand_name("   "), None);
    // a NUL exposed by trimming white space stays
    assert_eq!(brand_name(" \0x").as_deref(), Some("\0x"));
}

#[test]
fn brand_bytes_are_decoded() {
    let mut bytes = b"  AMD Ryzen 7 5800X 8-Core Processor".to_vec();
    bytes.resize(48, 0);
    assert_eq!(cpu_name_from_brand(&bytes).as_deref(), Some("AMD Ryzen 7 5800X 8-Core Processor"));
    assert_eq!(cpu_name_from_brand(&[0u8; 48]), None);
    assert_eq!(cpu_name_from_brand(&[b'A', 0xff, b'B']).as_deref(), Some("A\u{fffd}B"));
}

#[test]
fn cpuinfo_names() {
    let info = "processor\t: 0\nvendor_id\t: GenuineIntel\nmodel name\t: Intel(R) Xeon(R) CPU\nmodel name\t: other\n";
    assert_eq!(cpu_name_from_cpuinfo(info).as_deref(), Some("Intel(R) Xeon(R) CPU"));
    assert_eq!(cpu_name_from_cpuinfo("Hardware : BCM2835\r\n").as_deref(), Some("BCM2835"));
    assert_eq!(cpu_name_from_cpuinfo("model name: a: b").as_deref(), Some("a: b"));
    assert_eq!(cpu_name_from_cpuinfo("model names: x\nprocessor: 1"), None);
    assert_eq!(cpu_name_from_cpuinfo(""), None);
    assert_eq!(cpu_name_from_cpuinfo("model name:\n").as_deref(), Some(""));
}

#[test]
fn name_sources_in_order() {
    let s = |v: &str| Some(v.to_string());
    assert_eq!(pick_cpu_name(s("brand"), s("info"), s("id"), "x86_64"), "brand");
    assert_eq!(pick_cpu_name(None, s("info"), s("id"), "x86_64"), "info");
    assert_eq!(pick_cpu_name(None, None, s("id"), "x86_64"), "id");
    assert_eq!(pick_cpu_name(None, None, None, "x86_64"), "x86_64");
}

#[test]
fn selection_and_records() {
    assert_eq!(selected_cpus(&None, 3), vec![0, 1, 2]);
    assert_eq!(selected_cpus(&Some(vec![2, 5]), 8), vec![2, 5]);
    let id = CpuIdentity::new("cpu".to_string(), "x86_64", "linux", 8, 2, vec!["SSE".to_string()], vec![]);
    assert_eq!(id.os, "linux x86_64");
    assert_eq!(id.architecture, "x86_64");
    assert_eq!((id.logical_cpus, id.selected_cpus), (8, 2));
    let cfg = parse_args(&vec!["--duration-ms".to_string(), "90".to_string()], 4).unwrap().unwrap();
    let rc = RunConfig::from_config(&cfg);
    assert_eq!((rc.duration_ms, rc.acceleration_duration_ms, rc.isolated_sequential_run), (90, 30, true));
}

use coretester::args::{parse_args, Config};

fn args(list: &[&str]) -> Vec<String> {
    list.iter().map(|s| s.to_string()).collect()
}

fn ok(list: &[&str]) -> Config {
    parse_args(&args(list), 8).unwrap().unwrap()
}

#[test]
fn defaults_without_options() {
    let c = ok(&[]);
    assert_eq!(c.duration_ms, 180);
    assert_eq!(c.accel_duration_ms, 60);
    assert!(c.cores.is_none());
    assert_eq!(c.output, "coretester-report.html");
    assert_eq!(c.json, "coretester-results.json");
    assert!(c.open);
    assert!(!c.quick);
}

#[test]
fn quick_run_and_later_duration_override() {
    let c = ok(&["--quick"]);
    assert!(c.quick);
    assert_eq!((c.duration_ms, c.accel_duration_ms), (35, 15));
    let c = ok(&["--quick", "--duration-ms", "300"]);
    assert_eq!((c.duration_ms, c.accel_duration_ms), (300, 100));
    let c = ok(&["--duration-ms", "300", "--quick"]);
    assert_eq!((c.duration_ms, c.accel_duration_ms), (35, 15));
}

#[test]
fn acceleration_time_is_a_third_but_at_least_ten() {
    assert_eq!(ok(&["--duration-ms", "10"]).accel_duration_ms, 10);
    assert_eq!(ok(&["--duration-ms", "31"]).accel_duration_ms, 10);
    assert_eq!(ok(&["--duration-ms", "33"]).accel_duration_ms, 11);
    assert_eq!(ok(&["--duration-ms", "10000"]).accel_duration_ms, 3333);
}

#[test]
fn paths_cores_and_no_open() {
    let c = ok(&["--no-open", "--output", "r/a.html", "--json", "b.json", "--cores", "3,1"]);
    assert!(!c.open);
    assert_eq!(c.output, "r/a.html");
    assert_eq!(c.json, "b.json");
    assert_eq!(c.cores, Some(vec![1, 3]));
}

#[test]
fn help_stops_reading() {
    assert!(parse_args(&args(&["-h", "--bogus"]), 8).unwrap().is_none());
    assert!(parse_args(&args(&["--quick", "--help"]), 8).unwrap().is_none());
}

#[test]
fn rejected_options() {
    let err = |l: &[&str]| parse_args(&args(l), 8).err().unwrap();
    assert_eq!(err(&["--duration-ms"]), "--duration-ms requires a value");
    assert_eq!(err(&["--cores"]), "--cores requires a value");
    assert_eq!(err(&["--duration-ms", "fast"]), "duration must be an integer");
    assert_eq!(err(&["--duration-ms", "9"]), "duration must be 10..10000 ms");
    assert_eq!(err(&["--duration-ms", "10001"]), "duration must be 10..10000 ms");
    assert_eq!(err(&["--turbo"]), "unknown option: --turbo");
    assert_eq!(err(&["--cores", "0,9"]), "CPU 9 is outside 0..7");
    assert_eq!(err(&["--help=1"]), "unknown option: --help=1");
}

#[test]
fn accepted_durations_stay_in_range() {
    for l in [&["--duration-ms", "10"][..], &["--quick"], &[], &["--duration-ms", "10000", "--no-open"]] {
        let c = ok(l);
        assert!(10 <= c.accel_duration_ms && c.accel_duration_ms <= c.duration_ms && c.duration_ms <= 10_000);
    }
}

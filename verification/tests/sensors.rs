use coretester::sensors::{
    counted_energy, description, is_temperature_input, max_temperature_millic, parse_reading,
    shallowest, SensorPlatform,
};

#[test]
fn readings_are_trimmed_numbers() {
    assert_eq!(parse_reading("45000\n"), Some(45000));
    assert_eq!(parse_reading(" 18446744073709551615 "), Some(u64::MAX));
    assert_eq!(parse_reading("18446744073709551616"), None);
    assert_eq!(parse_reading("-1"), None);
    assert_eq!(parse_reading(""), None);
}

#[test]
fn temperature_input_names() {
    assert!(is_temperature_input("temp1_input"));
    assert!(is_temperature_input("temp_input"));
    assert!(!is_temperature_input("temp1_max"));
    assert!(!is_temperature_input("in0_input"));
    assert!(!is_temperature_input("temp"));
}

#[test]
fn hottest_plausible_reading() {
    assert_eq!(max_temperature_millic(&vec![41000, 0, 250000, 52000, 199999]), Some(199999));
    assert_eq!(max_temperature_millic(&vec![200000, 0]), None);
    assert_eq!(max_temperature_millic(&vec![]), None);
}

#[test]
fn first_shallowest_path() {
    assert_eq!(shallowest(&vec![6, 5, 7, 5]), Some(1));
    assert_eq!(shallowest(&vec![]), None);
}

#[test]
fn energy_counter_deltas() {
    assert_eq!(counted_energy(Some(100), Some(350), None, true), Some(250));
    assert_eq!(counted_energy(Some(100), Some(350), None, false), None);
    assert_eq!(counted_energy(Some(100), Some(100), Some(1000), true), None);
    // wrapped at the counter's range
    assert_eq!(counted_energy(Some(900), Some(50), Some(1000), true), Some(150));
    assert_eq!(counted_energy(Some(900), Some(50), None, true), None);
    assert_eq!(counted_energy(Some(900), Some(50), Some(u64::MAX), true), Some(u64::MAX - 850));
    // a range below the earlier sample counts only from zero
    assert_eq!(counted_energy(Some(900), Some(50), Some(100), true), Some(50));
    assert_eq!(counted_energy(None, Some(50), Some(1000), true), None);
}

#[test]
fn sensor_descriptions() {
    assert_eq!(
        description(SensorPlatform::Linux, true, true),
        "Linux hwmon/thermal temperature and powercap package energy available; values are package-level samples"
    );
    assert_eq!(
        description(SensorPlatform::Linux, false, false),
        "OS hardware sensors unavailable or permission denied; no values were estimated"
    );
    assert!(description(SensorPlatform::Linux, true, false).starts_with("Linux temperature available"));
    assert!(description(SensorPlatform::Linux, false, true).starts_with("Linux powercap package energy available"));
    assert!(description(SensorPlatform::Windows, true, true).starts_with("Stock Windows"));
    assert_eq!(
        description(SensorPlatform::Other, false, false),
        "No sensor backend is implemented for this operating system"
    );
}

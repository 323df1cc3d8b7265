use coretester::cpu_list::parse_core_list;

#[test]
fn parses_and_deduplicates_cpu_ranges() {
    assert_eq!(parse_core_list("4,1-3,2", 8).unwrap(), vec![1, 2, 3, 4]);
}

#[test]
fn rejects_out_of_range_cpu() {
    assert!(parse_core_list("0,8", 8).unwrap_err().contains("outside"));
}

#[test]
fn out_of_range_message_names_the_smallest_offender() {
    assert_eq!(parse_core_list("9,0,12-14,8", 8).unwrap_err(), "CPU 8 is outside 0..7");
    assert_eq!(parse_core_list("3", 0).unwrap_err(), "CPU 3 is outside 0..0");
    assert_eq!(parse_core_list("5-20", 8).unwrap_err(), "CPU 8 is outside 0..7");
    assert_eq!(parse_core_list("0-18446744073709551615", 8).unwrap_err(), "CPU 8 is outside 0..7");
}

#[test]
fn invalid_numbers_are_named() {
    assert_eq!(parse_core_list("1,x", 8).unwrap_err(), "invalid CPU: x");
    assert_eq!(parse_core_list("-3", 8).unwrap_err(), "invalid CPU: ");
    assert_eq!(parse_core_list("1-2-3", 8).unwrap_err(), "invalid CPU: 2-3");
    assert_eq!(parse_core_list(" 1", 8).unwrap_err(), "invalid CPU:  1");
    assert_eq!(parse_core_list("1-a", 8).unwrap_err(), "invalid CPU: a");
    assert_eq!(parse_core_list("99999999999999999999", 8).unwrap_err(), "invalid CPU: 99999999999999999999");
}

#[test]
fn reversed_range_is_rejected_before_later_pieces() {
    assert_eq!(parse_core_list("5-3,x", 8).unwrap_err(), "reversed CPU range: 5-3");
}

#[test]
fn empty_list_is_rejected() {
    assert_eq!(parse_core_list("", 8).unwrap_err(), "CPU list is empty");
    assert_eq!(parse_core_list(",,", 8).unwrap_err(), "CPU list is empty");
}

#[test]
fn plus_sign_and_empty_pieces_are_accepted() {
    assert_eq!(parse_core_list("+3,,1-1,", 8).unwrap(), vec![1, 3]);
    assert_eq!(parse_core_list("0-7", 8).unwrap(), (0..8).collect::<Vec<usize>>());
}

#[test]
fn joining_lists_selects_the_union() {
    let a = parse_core_list("6,1-2", 8).unwrap();
    let b = parse_core_list("2,4", 8).unwrap();
    let ab = parse_core_list("6,1-2,2,4", 8).unwrap();
    let ba = parse_core_list("2,4,6,1-2", 8).unwrap();
    let mut union: Vec<usize> = a.iter().chain(b.iter()).copied().collect();
    union.sort();
    union.dedup();
    assert_eq!(ab, union);
    assert_eq!(ba, union);
}

#[test]
fn normalised_list_parses_back() {
    for (text, total) in [("4,1-3,2", 8), ("7,0", 8), ("3-6,+1,,", 10), ("0", 1)] {
        let v = parse_core_list(text, total).unwrap();
        let joined = v.iter().map(|c| c.to_string()).collect::<Vec<_>>().join(",");
        assert_eq!(parse_core_list(&joined, total).unwrap(), v);
    }
}

use coretester::affinity::{
    active_processor_total, fallback_topology, locate_processor, logical_cpu_count, parse_id,
    topology, unknown_topology, CpuTopology,
};
use coretester::core_relations::core_topology;

#[test]
fn cpus_with_equal_ids_are_siblings() {
    let ids = vec![
        (Some(0), Some(0)),
        (Some(0), Some(1)),
        (Some(0), Some(0)),
        (Some(0), Some(1)),
        (None, None),
    ];
    let t = topology(&ids);
    assert_eq!(t.len(), 5);
    assert_eq!(t[0].siblings, vec![0, 2]);
    assert_eq!(t[2].siblings, vec![0, 2]);
    assert_eq!(t[1].siblings, vec![1, 3]);
    assert_eq!(t[3].package, Some(0));
    assert_eq!(t[3].core, Some(1));
    assert_eq!(t[4].siblings, vec![4]);
    assert_eq!(t[4].core, None);
    assert!(topology(&vec![]).is_empty());
}

#[test]
fn cpus_with_unknown_ids_are_alone() {
    let t = topology(&vec![(None, None), (None, None), (None, None)]);
    for (cpu, entry) in t.iter().enumerate() {
        assert_eq!(entry.package, None);
        assert_eq!(entry.core, None);
        assert_eq!(entry.siblings, vec![cpu]);
    }
    let t = topology(&vec![(Some(0), None), (Some(0), None), (None, Some(1)), (Some(0), Some(1))]);
    assert_eq!(t[0].siblings, vec![0]);
    assert_eq!(t[1].siblings, vec![1]);
    assert_eq!(t[2].siblings, vec![2]);
    assert_eq!(t[3].siblings, vec![3]);
}

#[test]
fn fallback_puts_each_cpu_on_its_own_core() {
    let t = fallback_topology(3);
    for (cpu, entry) in t.iter().enumerate() {
        assert_eq!(entry.package, None);
        assert_eq!(entry.core, Some(cpu as i32));
        assert_eq!(entry.siblings, vec![cpu]);
    }
    let u = unknown_topology(2);
    assert_eq!(u.len(), 2);
    assert!(u.iter().all(|e| e.package.is_none() && e.core.is_none() && e.siblings.is_empty()));
    let d = CpuTopology::default();
    assert!(d.package.is_none() && d.core.is_none() && d.siblings.is_empty());
}

#[test]
fn kernel_ids_are_trimmed_integers() {
    assert_eq!(parse_id("3\n"), Some(3));
    assert_eq!(parse_id("  -1 "), Some(-1));
    assert_eq!(parse_id("+7"), Some(7));
    assert_eq!(parse_id("2147483647"), Some(i32::MAX));
    assert_eq!(parse_id("-2147483648"), Some(i32::MIN));
    assert_eq!(parse_id("2147483648"), None);
    assert_eq!(parse_id("x"), None);
    assert_eq!(parse_id(""), None);
    assert_eq!(parse_id("-"), None);
}

#[test]
fn logical_cpu_count_prefers_the_os_count() {
    assert_eq!(logical_cpu_count(12, Some(4)), 12);
    assert_eq!(logical_cpu_count(-1, Some(4)), 4);
    assert_eq!(logical_cpu_count(0, None), 1);
}

#[test]
fn processor_groups() {
    let counts = vec![4u32, 4];
    let slot = locate_processor(5, &counts, 64).unwrap();
    assert_eq!((slot.group, slot.bit), (1, 1));
    let slot = locate_processor(0, &counts, 64).unwrap();
    assert_eq!((slot.group, slot.bit), (0, 0));
    assert_eq!(locate_processor(8, &counts, 64).err().unwrap(), "CPU 8 is not active");
    let slot = locate_processor(63, &vec![70], 64).unwrap();
    assert_eq!((slot.group, slot.bit), (0, 63));
    assert_eq!(locate_processor(66, &vec![70], 64).err().unwrap(), "processor group exceeds affinity mask");
    assert_eq!(active_processor_total(&counts), 8);
    assert_eq!(active_processor_total(&vec![]), 1);
}

/// A processor-core record with the given affinity entries (mask, group).
fn core_record(entries: &[(u64, u16)]) -> Vec<u8> {
    let size = 32 + 16 * entries.len();
    let mut r = vec![0u8; size];
    r[0..4].copy_from_slice(&0u32.to_le_bytes());
    r[4..8].copy_from_slice(&(size as u32).to_le_bytes());
    r[30..32].copy_from_slice(&(entries.len() as u16).to_le_bytes());
    for (i, (mask, group)) in entries.iter().enumerate() {
        let o = 32 + 16 * i;
        r[o..o + 8].copy_from_slice(&mask.to_le_bytes());
        r[o + 8..o + 10].copy_from_slice(&group.to_le_bytes());
    }
    r
}

#[test]
fn core_records_become_cores() {
    let mut data = core_record(&[(0b0101, 0)]);
    // a record of another relationship is skipped
    let mut other = vec![0u8; 40];
    other[0..4].copy_from_slice(&2u32.to_le_bytes());
    other[4..8].copy_from_slice(&40u32.to_le_bytes());
    data.extend(other);
    data.extend(core_record(&[(0b1, 1), (0b1010, 0)]));
    let t = core_topology(&data, &vec![4, 4], 8, 6);
    assert_eq!(t.len(), 6);
    assert_eq!(t[0].siblings, vec![0, 2]);
    assert_eq!(t[0].core, Some(0));
    assert_eq!(t[0].package, Some(0));
    assert_eq!(t[2].core, Some(0));
    // group 1 starts at CPU 4
    assert_eq!(t[1].siblings, vec![1, 3, 4]);
    assert_eq!(t[4].core, Some(1));
    assert_eq!(t[3].siblings, vec![1, 3, 4]);
    // CPU 5 is in no record and keeps the fallback entry
    assert_eq!(t[5].core, Some(5));
    assert_eq!(t[5].package, None);
    assert_eq!(t[5].siblings, vec![5]);
}

#[test]
fn truncated_or_short_buffers_fall_back() {
    let t = core_topology(&[0u8; 10], &vec![2], 8, 2);
    assert_eq!(t[1].core, Some(1));
    let mut data = core_record(&[(0b11, 0)]);
    data[4..8].copy_from_slice(&1000u32.to_le_bytes());
    let t = core_topology(&data, &vec![2], 8, 2);
    assert_eq!(t[0].siblings, vec![0]);
    // an entry that runs past its record ends the record's list
    let mut data = core_record(&[(0b01, 0), (0b10, 0)]);
    data[4..8].copy_from_slice(&40u32.to_le_bytes());
    data.truncate(40);
    let t = core_topology(&data, &vec![2], 8, 2);
    assert_eq!(t[0].siblings, vec![0]);
    assert_eq!(t[1].siblings, vec![1]);
    assert_eq!(t[1].core, Some(1));
}

#[test]
fn masks_of_four_bytes_and_cpus_beyond_total() {
    // 32-bit layout: 4-byte mask, entry of 12 bytes
    let mut r = vec![0u8; 44];
    r[4..8].copy_from_slice(&44u32.to_le_bytes());
    r[30..32].copy_from_slice(&1u16.to_le_bytes());
    r[32..36].copy_from_slice(&0x8000_0003u32.to_le_bytes());
    let t = core_topology(&r, &vec![32], 4, 3);
    assert_eq!(t[0].siblings, vec![0, 1]);
    assert_eq!(t[2].siblings, vec![2]);
}

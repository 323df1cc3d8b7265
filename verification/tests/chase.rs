use coretester::chase::pointer_chase;

/// The visiting order built the way the latency kernel describes it.
fn reference_order(n: usize) -> Vec<usize> {
    let mut order: Vec<usize> = (0..n).collect();
    let mut rng = 0x243f6a8885a308d3u64;
    for i in (1..n).rev() {
        rng ^= rng << 13;
        rng ^= rng >> 7;
        rng ^= rng << 17;
        order.swap(i, rng as usize % (i + 1));
    }
    order
}

#[test]
fn links_follow_the_shuffled_order() {
    for n in [1usize, 2, 3, 16, 1000] {
        let order = reference_order(n);
        let (links, start) = pointer_chase(n);
        assert_eq!(links.len(), n);
        assert_eq!(start, order[0]);
        for i in 0..n {
            assert_eq!(links[order[i]], order[(i + 1) % n]);
        }
    }
}

#[test]
fn chasing_visits_every_slot_once_per_lap() {
    let n = 4096;
    let (links, start) = pointer_chase(n);
    let mut seen = vec![false; n];
    let mut cursor = start;
    for _ in 0..n {
        assert!(!seen[cursor]);
        seen[cursor] = true;
        cursor = links[cursor];
    }
    assert_eq!(cursor, start);
    assert!(seen.iter().all(|&s| s));
}

#[test]
fn shuffle_is_not_the_identity() {
    let (links, _) = pointer_chase(64);
    assert!((0..64).any(|i| links[i] != (i + 1) % 64));
}

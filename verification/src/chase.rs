//! The pointer-chasing ring behind the random-access latency kernel: a
//! pseudo-random visiting order of `n` slots (a xorshift-driven Fisher-Yates
//! shuffle) and the link table in which each slot names the next one.
use vstd::prelude::*;

verus! {

/// The shuffle's initial generator state.
pub const CHASE_SEED: u64 = 0x243f6a8885a308d3;

/// One step of the xorshift generator (13, 7, 17).
pub open spec fn xorshift(x: u64) -> u64 {
    let a = x ^ (x << 13u64);
    let b = a ^ (a >> 7u64);
    b ^ (b << 17u64)
}

pub open spec fn identity_order(n: nat) -> Seq<usize> {
    Seq::new(n, |k: int| k as usize)
}

pub open spec fn swap_at(o: Seq<usize>, i: int, j: int) -> Seq<usize> {
    o.update(i, o[j]).update(j, o[i])
}

/// The order and the generator after `k` steps of the shuffle of `n` slots;
/// step `k` handles slot `n - 1 - k`, swapping it with a slot chosen among
/// `0..=n - 1 - k`.
pub open spec fn shuffle_state(n: nat, k: nat) -> (Seq<usize>, u64)
    decreases k,
{
    if k == 0 {
        (identity_order(n), CHASE_SEED)
    } else {
        let (o, r) = shuffle_state(n, (k - 1) as nat);
        let i = n - k;
        let r2 = xorshift(r);
        let j = ((r2 as usize) as int) % (i + 1);
        (swap_at(o, i, j), r2)
    }
}

/// The visiting order: the shuffle run down to slot 1.
pub open spec fn chase_order(n: nat) -> Seq<usize> {
    shuffle_state(n, (n - 1) as nat).0
}

/// The generator state after `k` xorshift steps from the seed.
pub open spec fn xorshift_iter(k: nat) -> u64
    decreases k,
{
    if k == 0 {
        CHASE_SEED
    } else {
        xorshift(xorshift_iter((k - 1) as nat))
    }
}

/// The Fisher-Yates pass over slots `i` down to 1 of `o` (of `n` slots):
/// slot `i` is swapped with slot `xorshift_iter(n - i) % (i + 1)`, then the
/// pass goes on with slot `i - 1`.
pub open spec fn fisher_yates(o: Seq<usize>, n: nat, i: nat) -> Seq<usize>
    decreases i,
{
    if i == 0 {
        o
    } else {
        let j = ((xorshift_iter((n - i) as nat) as usize) as int) % (i + 1) as int;
        fisher_yates(swap_at(o, i as int, j), n, (i - 1) as nat)
    }
}

proof fn lemma_shuffle_generator(n: nat, k: nat)
    ensures
        shuffle_state(n, k).1 == xorshift_iter(k),
    decreases k,
{
    if k > 0 {
        lemma_shuffle_generator(n, (k - 1) as nat);
    }
}

proof fn lemma_shuffle_then_rest(n: nat, k: nat)
    requires
        k < n,
    ensures
        fisher_yates(shuffle_state(n, k).0, n, (n - 1 - k) as nat) == fisher_yates(
            identity_order(n),
            n,
            (n - 1) as nat,
        ),
    decreases k,
{
    if k > 0 {
        lemma_shuffle_then_rest(n, (k - 1) as nat);
        lemma_shuffle_generator(n, (k - 1) as nat);
        let i = (n - k) as nat;
        assert(i > 0);
        assert((n - i) as nat == k);
    }
}

/// The visiting order is the full Fisher-Yates shuffle of the `n` slots:
/// every slot from `n - 1` down to 1 is swapped with the slot that the next
/// generator output picks among those not after it, `n - 1` generator steps
/// in all.
pub proof fn lemma_chase_order_is_full_shuffle(n: nat)
    requires
        n >= 1,
    ensures
        chase_order(n) == fisher_yates(identity_order(n), n, (n - 1) as nat),
{
    lemma_shuffle_then_rest(n, (n - 1) as nat);
}

/// `v` is one of the entries of `o`.
pub open spec fn occurs(o: Seq<usize>, v: int) -> bool {
    exists|k: int| 0 <= k < o.len() && o[k] == v
}

/// Every slot below `n` occurs exactly once.
pub open spec fn is_permutation(o: Seq<usize>, n: nat) -> bool {
    &&& o.len() == n
    &&& forall|k: int| 0 <= k < n ==> o[k] < n
    &&& forall|a: int, b: int| 0 <= a < b < n ==> o[a] != o[b]
    &&& forall|v: int| 0 <= v < n ==> #[trigger] occurs(o, v)
}

/// The slot reached after `k` hops from `start`.
pub open spec fn follow(links: Seq<usize>, start: usize, k: nat) -> usize
    decreases k,
{
    if k == 0 {
        start
    } else {
        links[follow(links, start, (k - 1) as nat) as int]
    }
}

/// `v` is reached within the first `n` hops from `start`.
pub open spec fn reached(links: Seq<usize>, start: usize, n: nat, v: int) -> bool {
    exists|k: nat| k < n && follow(links, start, k) == v
}

/// Following `links` from `start` visits each of the `n` slots exactly once
/// in `n` hops and then is back at `start`.
pub open spec fn is_single_ring(links: Seq<usize>, start: usize, n: nat) -> bool {
    &&& forall|a: nat, b: nat| a < b < n ==> follow(links, start, a) != follow(links, start, b)
    &&& forall|v: int| 0 <= v < n ==> #[trigger] reached(links, start, n, v)
    &&& follow(links, start, n) == start
}

proof fn lemma_swap_keeps_permutation(o: Seq<usize>, n: nat, i: int, j: int)
    requires
        is_permutation(o, n),
        0 <= i < n,
        0 <= j < n,
    ensures
        is_permutation(swap_at(o, i, j), n),
{
    let p = swap_at(o, i, j);
    assert forall|a: int, b: int| 0 <= a < b < n implies p[a] != p[b] by {
        let oa = if a == j {
            i
        } else if a == i {
            j
        } else {
            a
        };
        let ob = if b == j {
            i
        } else if b == i {
            j
        } else {
            b
        };
        assert(p[a] == o[oa]);
        assert(p[b] == o[ob]);
        if oa < ob {
            assert(o[oa] != o[ob]);
        } else {
            assert(o[ob] != o[oa]);
        }
    }
    assert forall|v: int| 0 <= v < n implies #[trigger] occurs(p, v) by {
        assert(occurs(o, v));
        let k = choose|k: int| 0 <= k < n && o[k] == v;
        if k == i {
            assert(p[j] == v);
        } else if k == j {
            assert(p[i] == v);
        } else {
            assert(p[k] == v);
        }
    }
}

proof fn lemma_shuffle_is_permutation(n: nat, k: nat)
    requires
        k < n,
        n <= usize::MAX,
    ensures
        is_permutation(shuffle_state(n, k).0, n),
    decreases k,
{
    if k == 0 {
        let o = identity_order(n);
        assert forall|v: int| 0 <= v < n implies #[trigger] occurs(o, v) by {
            assert(o[v] == v);
        }
    } else {
        lemma_shuffle_is_permutation(n, (k - 1) as nat);
        let (o, r) = shuffle_state(n, (k - 1) as nat);
        let i = n - k;
        let r2 = xorshift(r);
        let j = ((r2 as usize) as int) % (i + 1);
        lemma_swap_keeps_permutation(o, n, i, j);
    }
}

proof fn lemma_follow_order(links: Seq<usize>, o: Seq<usize>, n: nat, k: nat)
    requires
        n >= 1,
        is_permutation(o, n),
        links.len() == n,
        forall|i: int| 0 <= i < n ==> links[o[i] as int] == o[(i + 1) % (n as int)],
    ensures
        follow(links, o[0], k) == o[(k % n) as int],
    decreases k,
{
    if k > 0 {
        lemma_follow_order(links, o, n, (k - 1) as nat);
        let m = (k - 1) as int % (n as int);
        vstd::arithmetic::div_mod::lemma_add_mod_noop_right(1, k - 1, n as int);
        assert((1 + m) % (n as int) == (k as int) % (n as int));
        assert(0 <= m < n);
        assert(links[o[m] as int] == o[(m + 1) % (n as int)]);
        assert(follow(links, o[0], k) == links[follow(links, o[0], (k - 1) as nat) as int]);
        assert(((((k - 1) as nat) % n) as int) == m);
        assert((k % n) as int == (k as int) % (n as int));
    } else {
        assert(0nat % n == 0) by (nonlinear_arith)
            requires
                n >= 1,
        ;
    }
}

/// Following the links of a permutation ring visits every slot once.
pub proof fn lemma_ring_from_order(links: Seq<usize>, o: Seq<usize>, n: nat)
    requires
        n >= 1,
        is_permutation(o, n),
        links.len() == n,
        forall|i: int| 0 <= i < n ==> links[o[i] as int] == o[(i + 1) % (n as int)],
    ensures
        is_single_ring(links, o[0], n),
{
    assert forall|a: nat, b: nat| a < b < n implies follow(links, o[0], a) != follow(
        links,
        o[0],
        b,
    ) by {
        lemma_follow_order(links, o, n, a);
        lemma_follow_order(links, o, n, b);
        vstd::arithmetic::div_mod::lemma_small_mod(a, n);
        vstd::arithmetic::div_mod::lemma_small_mod(b, n);
    }
    assert forall|v: int| 0 <= v < n implies #[trigger] reached(links, o[0], n, v) by {
        assert(occurs(o, v));
        let k = choose|k: int| 0 <= k < n && o[k] == v;
        lemma_follow_order(links, o, n, k as nat);
        vstd::arithmetic::div_mod::lemma_small_mod(k as nat, n);
    }
    lemma_follow_order(links, o, n, n);
    assert(n % n == 0) by (nonlinear_arith)
        requires
            n >= 1,
    ;
}

/// The ring of `n` slots for the latency kernel: the link table and the
/// starting slot. `links[order[i]] == order[(i + 1) % n]` for the shuffled
/// `order`, which starts at `start`; so chasing the links from `start`
/// visits every slot once per lap.
pub fn pointer_chase(n: usize) -> (r: (Vec<usize>, usize))
    requires
        n >= 1,
    ensures
        r.0.len() == n,
        r.1 == chase_order(n as nat)[0],
        r.1 == fisher_yates(identity_order(n as nat), n as nat, (n - 1) as nat)[0],
        forall|i: int|
            0 <= i < n ==> r.0@[chase_order(n as nat)[i] as int] == chase_order(n as nat)[(i + 1)
                % (n as int)],
        is_single_ring(r.0@, r.1, n as nat),
{
    let mut order: Vec<usize> = Vec::new();
    let mut k: usize = 0;
    while k < n
        invariant
            k <= n,
            order@ == identity_order(n as nat).take(k as int),
        decreases n - k,
    {
        order.push(k);
        assert(identity_order(n as nat).take(k + 1) == identity_order(n as nat).take(k as int).push(
            k,
        ));
        k += 1;
    }
    assert(order@ == identity_order(n as nat));
    let mut rng: u64 = CHASE_SEED;
    let mut i: usize = n - 1;
    let mut steps: usize = 0;
    while i >= 1
        invariant
            n >= 1,
            steps + i == n - 1,
            (order@, rng) == shuffle_state(n as nat, steps as nat),
            steps < n,
        decreases i,
    {
        proof {
            lemma_shuffle_is_permutation(n as nat, steps as nat);
        }
        rng ^= rng << 13;
        rng ^= rng >> 7;
        rng ^= rng << 17;
        let j = (rng as usize) % (i + 1);
        let a = order[i];
        let b = order[j];
        order.set(i, b);
        order.set(j, a);
        steps += 1;
        i -= 1;
    }
    let ghost o = order@;
    proof {
        lemma_shuffle_is_permutation(n as nat, steps as nat);
    }
    assert(o == chase_order(n as nat));
    let mut links: Vec<usize> = Vec::new();
    let mut k: usize = 0;
    while k < n
        invariant
            k <= n,
            links.len() == k,
        decreases n - k,
    {
        links.push(0);
        k += 1;
    }
    let mut p: usize = 0;
    while p < n
        invariant
            p <= n,
            order@ == o,
            is_permutation(o, n as nat),
            links.len() == n,
            forall|q: int| 0 <= q < p ==> links@[o[q] as int] == o[(q + 1) % (n as int)],
        decreases n - p,
    {
        let next = order[(p + 1) % n];
        links.set(order[p], next);
        assert forall|q: int| 0 <= q < p + 1 implies links@[o[q] as int] == o[(q + 1) % (
        n as int)] by {
            if q < p {
                assert(o[q] != o[p as int]);
            }
        }
        p += 1;
    }
    proof {
        lemma_ring_from_order(links@, o, n as nat);
        lemma_chase_order_is_full_shuffle(n as nat);
    }
    (links, order[0])
}

} // verus!

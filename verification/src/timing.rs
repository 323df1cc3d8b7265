//! The decisions of a timed kernel run: whether another chunk of work runs,
//! and how the work units are counted.
use vstd::prelude::*;

verus! {

/// Whether a timed run does another chunk: until the elapsed time reaches
/// the run's duration (both in nanoseconds).
pub fn keep_timing(elapsed_nanos: u128, duration_nanos: u128) -> (b: bool)
    ensures
        b == (elapsed_nanos < duration_nanos),
{
    elapsed_nanos < duration_nanos
}

/// The units counted after a chunk that did `chunk_units` more: the sum,
/// saturating at `u64::MAX`.
pub fn add_chunk(units: u64, chunk_units: u64) -> (total: u64)
    ensures
        total == if units + chunk_units > u64::MAX {
            u64::MAX as int
        } else {
            units + chunk_units
        },
        total >= units,
{
    units.saturating_add(chunk_units)
}

} // verus!

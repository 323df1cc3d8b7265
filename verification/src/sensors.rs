//! Package sensors: reading the kernel's number files, picking the package
//! temperature and energy counter, the energy counted between two samples
//! (with counter wrap-around), and the description of what is available.
use vstd::prelude::*;
use crate::text::{chars_equal, chars_of, parse_u64_chars, parse_u64_spec, string_from, trim, trim_bounds};

verus! {

/// A sensor file's content as a number: the trimmed text read as a `u64`.
pub fn parse_reading(text: &str) -> (r: Option<u64>)
    ensures
        match parse_u64_spec(trim(text@)) {
            Some(n) => r == Some(n as u64),
            None => r is None,
        },
{
    let v = chars_of(text);
    assert(v@.subrange(0, v@.len() as int) == v@);
    let (a, b) = trim_bounds(&v, 0, v.len());
    parse_u64_chars(&v, a, b)
}

/// Whether a hwmon file name is a temperature input (`temp*_input`).
pub fn is_temperature_input(name: &str) -> (r: bool)
    ensures
        r == (name@.len() >= 4 && name@.take(4) == "temp"@ && name@.len() >= 6 && name@.skip(
            name@.len() - 6,
        ) == "_input"@),
{
    let v = chars_of(name);
    let n = v.len();
    if n < 4 || n < 6 {
        return false;
    }
    assert(v@.subrange(0, 4) == name@.take(4));
    assert(v@.subrange(n - 6, n as int) == name@.skip(name@.len() - 6));
    chars_equal(&v, 0, 4, "temp") && chars_equal(&v, n - 6, n, "_input")
}

/// A temperature reading in millidegrees Celsius that counts: positive and
/// below 200 °C.
pub open spec fn plausible_millic(v: u64) -> bool {
    0 < v && v < 200_000
}

/// The hottest plausible reading, in millidegrees Celsius.
pub fn max_temperature_millic(readings: &Vec<u64>) -> (r: Option<u64>)
    ensures
        match r {
            Some(m) => plausible_millic(m) && readings@.contains(m) && forall|i: int|
                0 <= i < readings.len() && plausible_millic(#[trigger] readings@[i]) ==> readings@[i]
                    <= m,
            None => forall|i: int| 0 <= i < readings.len() ==> !plausible_millic(#[trigger] readings@[i]),
        },
{
    let mut best: Option<u64> = None;
    let mut i: usize = 0;
    while i < readings.len()
        invariant
            i <= readings.len(),
            match best {
                Some(m) => plausible_millic(m) && readings@.contains(m) && forall|j: int|
                    0 <= j < i && plausible_millic(#[trigger] readings@[j]) ==> readings@[j] <= m,
                None => forall|j: int| 0 <= j < i ==> !plausible_millic(#[trigger] readings@[j]),
            },
        decreases readings.len() - i,
    {
        let v = readings[i];
        if 0 < v && v < 200_000 {
            match best {
                Some(m) => {
                    if v > m {
                        best = Some(v);
                    }
                },
                None => {
                    best = Some(v);
                },
            }
        }
        i += 1;
    }
    best
}

/// The index of the first of the smallest depths.
pub fn shallowest(depths: &Vec<usize>) -> (r: Option<usize>)
    ensures
        match r {
            Some(k) => k < depths.len() && (forall|i: int| 0 <= i < depths.len() ==> depths@[k as int]
                <= #[trigger] depths@[i]) && (forall|i: int| 0 <= i < k ==> depths@[k as int]
                < #[trigger] depths@[i]),
            None => depths.len() == 0,
        },
{
    if depths.len() == 0 {
        return None;
    }
    let mut k: usize = 0;
    let mut i: usize = 1;
    while i < depths.len()
        invariant
            0 < i <= depths.len(),
            k < i,
            forall|j: int| 0 <= j < i ==> depths@[k as int] <= #[trigger] depths@[j],
            forall|j: int| 0 <= j < k ==> depths@[k as int] < #[trigger] depths@[j],
        decreases depths.len() - i,
    {
        if depths[i] < depths[k] {
            k = i;
        }
        i += 1;
    }
    Some(k)
}

/// The microjoules that an energy counter counted from `before` to
/// `after`, or `None` when power cannot be derived: a sample is missing, no
/// time elapsed, or nothing was counted. A counter that went backwards
/// wrapped at `max_range`: it counted up to the range and on from zero
/// (saturating); with the range unknown, nothing counts.
pub open spec fn counted_energy_spec(
    before: Option<u64>,
    after: Option<u64>,
    max_range: Option<u64>,
    elapsed_nonzero: bool,
) -> Option<u64> {
    match (before, after) {
        (Some(a), Some(b)) => if !elapsed_nonzero {
            None
        } else {
            let diff: u64 = if b >= a {
                (b - a) as u64
            } else {
                match max_range {
                    Some(m) => {
                        let up: u64 = if m >= a {
                            (m - a) as u64
                        } else {
                            0
                        };
                        if up + b > u64::MAX {
                            u64::MAX
                        } else {
                            (up + b) as u64
                        }
                    },
                    None => 0,
                }
            };
            if diff > 0 {
                Some(diff)
            } else {
                None
            }
        },
        _ => None,
    }
}

/// Energy counted between two samples of the package counter.
pub fn counted_energy(
    before: Option<u64>,
    after: Option<u64>,
    max_range: Option<u64>,
    elapsed_nonzero: bool,
) -> (r: Option<u64>)
    ensures
        r == counted_energy_spec(before, after, max_range, elapsed_nonzero),
        // a counter that only moved forward counted the difference
        before is Some && after is Some && elapsed_nonzero && before->0 < after->0 ==> r == Some(
            (after->0 - before->0) as u64,
        ),
        // a counter that wrapped counted to the end of its range and on from zero
        before is Some && after is Some && elapsed_nonzero && after->0 < before->0
            && max_range is Some && before->0 <= max_range->0 && 0 < max_range->0 - before->0
            + after->0 <= u64::MAX ==> r == Some((max_range->0 - before->0 + after->0) as u64),
        // a counter that did not move counted nothing
        before == after ==> r is None,
{
    match (before, after) {
        (Some(a), Some(b)) => {
            if !elapsed_nonzero {
                return None;
            }
            let diff = if b >= a {
                b - a
            } else {
                match max_range {
                    Some(m) => m.saturating_sub(a).saturating_add(b),
                    None => 0,
                }
            };
            if diff > 0 {
                Some(diff)
            } else {
                None
            }
        },
        _ => None,
    }
}

/// The operating system family, as far as sensor access is concerned.
pub enum SensorPlatform {
    Linux,
    Windows,
    Other,
}

pub open spec fn description_spec(
    platform: SensorPlatform,
    temperature: bool,
    energy: bool,
) -> Seq<char> {
    match platform {
        SensorPlatform::Linux => if temperature && energy {
            "Linux hwmon/thermal temperature and powercap package energy available; values are package-level samples"@
        } else if temperature {
            "Linux temperature available; powercap energy unavailable or permission denied; values are package-level samples"@
        } else if energy {
            "Linux powercap package energy available; temperature unavailable; values are package-level samples"@
        } else {
            "OS hardware sensors unavailable or permission denied; no values were estimated"@
        },
        SensorPlatform::Windows => "Stock Windows has no dependable unprivileged package temperature/energy API; sensor values are unavailable, not estimated"@,
        SensorPlatform::Other => "No sensor backend is implemented for this operating system"@,
    }
}

/// What the report says about sensor availability, given whether a
/// temperature and an energy counter could be read.
pub fn description(platform: SensorPlatform, temperature: bool, energy: bool) -> (s: String)
    ensures
        s@ == description_spec(platform, temperature, energy),
{
    match platform {
        SensorPlatform::Linux => if temperature && energy {
            string_from(
                "Linux hwmon/thermal temperature and powercap package energy available; values are package-level samples",
            )
        } else if temperature {
            string_from(
                "Linux temperature available; powercap energy unavailable or permission denied; values are package-level samples",
            )
        } else if energy {
            string_from(
                "Linux powercap package energy available; temperature unavailable; values are package-level samples",
            )
        } else {
            string_from(
                "OS hardware sensors unavailable or permission denied; no values were estimated",
            )
        },
        SensorPlatform::Windows => string_from(
            "Stock Windows has no dependable unprivileged package temperature/energy API; sensor values are unavailable, not estimated",
        ),
        SensorPlatform::Other => string_from(
            "No sensor backend is implemented for this operating system",
        ),
    }
}

} // verus!

use vstd::prelude::*;

verus! {

// A hit distance is carried as the IEEE-754 binary64 bit pattern of the
// floating-point value. The order of the real numbers that two such patterns
// denote is the sign-magnitude order of the patterns, with both zeros equal and
// every NaN unordered.

/// Bit pattern of positive infinity.
pub const INFINITY: u64 = 0x7FF0_0000_0000_0000;

/// Patterns at or above this one have the sign bit set.
pub const SIGN_BIT: u64 = 0x8000_0000_0000_0000;

/// The pattern without its sign bit.
pub open spec fn magnitude(b: u64) -> int {
    (b % SIGN_BIT) as int
}

/// Whether the pattern has its sign bit set.
pub open spec fn negative(b: u64) -> bool {
    b >= SIGN_BIT
}

/// A NaN has every exponent bit set and a non-zero fraction.
pub open spec fn is_nan(b: u64) -> bool {
    magnitude(b) > INFINITY as int
}

/// Position of a non-NaN pattern on the number line: monotone in the value it
/// denotes, and zero for both zeros.
pub open spec fn ordinal(b: u64) -> int {
    if negative(b) {
        -magnitude(b)
    } else {
        magnitude(b)
    }
}

/// The floating-point comparison `a < b`.
pub open spec fn less(a: u64, b: u64) -> bool {
    !is_nan(a) && !is_nan(b) && ordinal(a) < ordinal(b)
}

/// Bit pattern of positive zero.
pub const ZERO: u64 = 0;

/// Whether a hit counts for the search: it exists, lies at a distance that is not
/// below zero (either zero counts), and is nearer than infinity.
pub open spec fn candidate(h: Option<u64>) -> bool {
    match h {
        Some(d) => !less(d, ZERO) && less(d, INFINITY),
        None => false,
    }
}

/// The distance of a hit; only meaningful for an existing hit.
pub open spec fn dist_of(h: Option<u64>) -> u64 {
    match h {
        Some(d) => d,
        None => 0,
    }
}

/// `i` is the nearest candidate among `hits`, and the first of them when
/// several are equally near.
pub open spec fn is_first_nearest(hits: Seq<Option<u64>>, i: int) -> bool {
    &&& 0 <= i < hits.len()
    &&& candidate(hits[i])
    &&& forall|j: int|
        0 <= j < i && candidate(#[trigger] hits[j]) ==> less(dist_of(hits[i]), dist_of(hits[j]))
    &&& forall|j: int|
        i < j < hits.len() && candidate(#[trigger] hits[j]) ==> !less(
            dist_of(hits[j]),
            dist_of(hits[i]),
        )
}

/// Whether some candidate among `hits` is strictly nearer than `limit`.
pub open spec fn blocked_before(hits: Seq<Option<u64>>, limit: u64) -> bool {
    exists|j: int|
        0 <= j < hits.len() && candidate(#[trigger] hits[j]) && less(dist_of(hits[j]), limit)
}

/// The signed position of a pattern on the number line.
fn ordinal_of(b: u64) -> (r: i64)
    ensures
        r as int == ordinal(b),
{
    let m: u64 = b % SIGN_BIT;
    if b >= SIGN_BIT {
        -(m as i64)
    } else {
        m as i64
    }
}

/// Whether the pattern is a NaN.
pub fn is_nan_bits(b: u64) -> (r: bool)
    ensures
        r == is_nan(b),
{
    b % SIGN_BIT > INFINITY
}

/// The floating-point comparison `a < b` on bit patterns.
pub fn less_bits(a: u64, b: u64) -> (r: bool)
    ensures
        r == less(a, b),
{
    if is_nan_bits(a) || is_nan_bits(b) {
        false
    } else {
        ordinal_of(a) < ordinal_of(b)
    }
}

/// Index of the nearest hit, by a scan in order that keeps the first of equally
/// near hits. Hits at negative distances, NaN or infinitely far never count.
pub fn nearest_hit(hits: &Vec<Option<u64>>) -> (r: Option<usize>)
    ensures
        match r {
            Some(i) => is_first_nearest(hits@, i as int),
            None => forall|j: int| 0 <= j < hits.len() ==> !candidate(#[trigger] hits@[j]),
        },
{
    let mut best: Option<usize> = None;
    let mut closest: u64 = INFINITY;
    let mut k: usize = 0;
    while k < hits.len()
        invariant
            k <= hits.len(),
            match best {
                Some(b) => {
                    &&& b < k
                    &&& hits@[b as int] == Some(closest)
                    &&& candidate(hits@[b as int])
                    &&& forall|j: int|
                        0 <= j < b && candidate(#[trigger] hits@[j]) ==> less(
                            closest,
                            dist_of(hits@[j]),
                        )
                    &&& forall|j: int|
                        b < j < k && candidate(#[trigger] hits@[j]) ==> !less(
                            dist_of(hits@[j]),
                            closest,
                        )
                },
                None => closest == INFINITY && forall|j: int|
                    0 <= j < k ==> !candidate(#[trigger] hits@[j]),
            },
        decreases hits.len() - k,
    {
        if let Some(d) = hits[k] {
            if !less_bits(d, ZERO) && less_bits(d, closest) {
                best = Some(k);
                closest = d;
            }
        }
        k = k + 1;
    }
    best
}

/// Whether a hit lies strictly nearer than `limit`: the nearest hit, found as
/// by `nearest_hit`, is compared with it. Hits behind the start never block.
pub fn hit_before(hits: &Vec<Option<u64>>, limit: u64) -> (r: bool)
    ensures
        r == blocked_before(hits@, limit),
{
    match nearest_hit(hits) {
        Some(i) => {
            let d = hits[i].unwrap();
            let r = less_bits(d, limit);
            assert(r ==> blocked_before(hits@, limit));
            r
        },
        None => false,
    }
}

} // verus!

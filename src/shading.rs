use vstd::prelude::*;

verus! {

/// Depth at which a reflection is no longer traced.
pub const MAX_DEPTH: u32 = 5;

/// Depth of the reflected ray shaded at `depth`; `None` once the bound is
/// reached, where the flat grey of unresolved light stands instead.
pub open spec fn next_depth(depth: u32) -> Option<u32> {
    if depth >= MAX_DEPTH {
        None
    } else {
        Some((depth + 1) as u32)
    }
}

/// How many reflections are traced, one inside the other, below a hit shaded
/// at `depth`.
pub open spec fn nested_reflections(depth: u32) -> nat
    decreases MAX_DEPTH - depth,
{
    match next_depth(depth) {
        Some(d) => 1 + nested_reflections(d),
        None => 0,
    }
}

/// Decides whether the reflection at `depth` is traced, and at which depth.
pub fn reflection_depth(depth: u32) -> (r: Option<u32>)
    ensures
        r == next_depth(depth),
        r matches Some(d) ==> d <= MAX_DEPTH && MAX_DEPTH - d < MAX_DEPTH - depth,
{
    if depth >= MAX_DEPTH {
        None
    } else {
        Some(depth + 1)
    }
}

/// Shading ends: below a hit shaded at `depth`, exactly `MAX_DEPTH - depth`
/// reflections are traced one inside the other (none at or past the bound),
/// so a primary ray leads to at most `MAX_DEPTH` of them.
pub proof fn lemma_reflections_bounded(depth: u32)
    ensures
        nested_reflections(depth) == if depth >= MAX_DEPTH {
            0
        } else {
            (MAX_DEPTH - depth) as nat
        },
        nested_reflections(depth) <= MAX_DEPTH,
    decreases MAX_DEPTH - depth,
{
    if depth < MAX_DEPTH {
        lemma_reflections_bounded((depth + 1) as u32);
    }
}

} // verus!

//! Obstacle-density aggregation over sampled pixel colors.
//!
//! The fraction's denominator is the number of coordinates requested,
//! not the number of responses that survived parsing: dropped response
//! lines depress the detected fraction.  That is a deliberate
//! don't-over-trigger bias, not an accident.

use vstd::prelude::*;

verus! {

/// The color whose density along the lookahead ray counts as an
/// obstacle.
pub const TARGET_COLOR: u32 = 0x00ff0000;

/// The obstacle threshold as a rational: bounce when the fraction of
/// matching samples reaches `NUM / DEN` (0.99).
pub const OBSTACLE_THRESHOLD_NUM: u64 = 99;

pub const OBSTACLE_THRESHOLD_DEN: u64 = 100;

/// How many entries of `s` equal `c`.
pub open spec fn count_color(s: Seq<u32>, c: u32) -> nat
    decreases s.len(),
{
    if s.len() == 0 {
        0
    } else {
        count_color(s.drop_last(), c) + (if s.last() == c {
            1nat
        } else {
            0nat
        })
    }
}

/// No more entries match than there are.
pub proof fn lemma_count_color_le_len(s: Seq<u32>, c: u32)
    ensures
        count_color(s, c) <= s.len(),
    decreases s.len(),
{
    if s.len() > 0 {
        lemma_count_color_le_len(s.drop_last(), c);
    }
}

/// Counts the entries of `colors` equal to `color`.
pub fn count_matching(colors: &Vec<u32>, color: u32) -> (n: usize)
    ensures
        n == count_color(colors@, color),
{
    let mut n: usize = 0;
    let mut i: usize = 0;
    while i < colors.len()
        invariant
            i <= colors@.len(),
            n <= i,
            n == count_color(colors@.take(i as int), color),
        decreases colors@.len() - i,
    {
        proof {
            let t = colors@.take(i as int + 1);
            assert(t.drop_last() =~= colors@.take(i as int));
            assert(t.last() == colors@[i as int]);
        }
        if colors[i] == color {
            n += 1;
        }
        i += 1;
    }
    proof {
        assert(colors@.take(colors@.len() as int) =~= colors@);
    }
    n
}

/// The obstacle fraction as an exact rational: how many of the returned
/// colors match the obstacle color, over how many coordinates were
/// requested.  With K matching responses out of N requested coordinates
/// this is K/N, never K/K.
pub fn obstacle_fraction(colors: &Vec<u32>, requested: usize) -> (f: (usize, usize))
    ensures
        f.0 == count_color(colors@, TARGET_COLOR),
        f.1 == requested,
{
    (count_matching(colors, TARGET_COLOR), requested)
}

/// The sampled colors meet the obstacle threshold: at least `99/100` of
/// the requested coordinates came back as the obstacle color.  An empty
/// request detects nothing.
pub open spec fn spec_obstacle_detected(colors: Seq<u32>, requested: nat) -> bool {
    requested > 0 && count_color(colors, TARGET_COLOR) * OBSTACLE_THRESHOLD_DEN >= requested
        * OBSTACLE_THRESHOLD_NUM
}

/// Decides the obstacle response for one tick from the sampled colors
/// and the number of coordinates that were requested.
pub fn obstacle_detected(colors: &Vec<u32>, requested: usize) -> (b: bool)
    requires
        requested <= 0xFFFF,
        colors@.len() <= requested,
    ensures
        b == spec_obstacle_detected(colors@, requested as nat),
{
    if requested == 0 {
        return false;
    }
    let matches = count_matching(colors, TARGET_COLOR);
    proof {
        lemma_count_color_le_len(colors@, TARGET_COLOR);
    }
    (matches as u64) * OBSTACLE_THRESHOLD_DEN >= (requested as u64) * OBSTACLE_THRESHOLD_NUM
}

} // verus!

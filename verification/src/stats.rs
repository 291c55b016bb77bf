//! Running statistics of a grid: per-channel sums, medians taken from
//! 256-bucket histograms, and live/dead population counts.

use vstd::prelude::*;
use crate::cell::{spec_activity_value, Individual, LifeChannel};

verus! {

/// A snapshot of the statistics gathered during the latest tick.
///
/// Channel averages are the sums divided by the cell count; the division is
/// left to the caller so that the snapshot itself stays integral.
#[derive(Clone, Copy, Debug)]
pub struct UniverseStats {
    /// Sum of all cells' hue values.
    pub sum_hue: u64,
    /// Sum of all cells' saturation values.
    pub sum_saturation: u64,
    /// Sum of all cells' luminance values.
    pub sum_luminance: u64,
    /// Sum of all cells' alpha values.
    pub sum_alpha: u64,
    /// Median hue over all cells.
    pub median_hue: u8,
    /// Median saturation over all cells.
    pub median_saturation: u8,
    /// Median luminance over all cells.
    pub median_luminance: u8,
    /// Median alpha over all cells.
    pub median_alpha: u8,
    /// Number of cells with alpha > 0.
    pub alive_count: usize,
    /// Number of cells with alpha == 0.
    pub dead_count: usize,
}

/// The all-zero snapshot a fresh grid starts with.
pub open spec fn zero_stats() -> UniverseStats {
    UniverseStats {
        sum_hue: 0,
        sum_saturation: 0,
        sum_luminance: 0,
        sum_alpha: 0,
        median_hue: 0,
        median_saturation: 0,
        median_luminance: 0,
        median_alpha: 0,
        alive_count: 0,
        dead_count: 0,
    }
}

impl UniverseStats {
    /// Number of cells with alpha > 0.
    pub fn alive_count(&self) -> (r: usize)
        ensures
            r == self.alive_count,
    {
        self.alive_count
    }

    /// Number of cells with alpha == 0.
    pub fn dead_count(&self) -> (r: usize)
        ensures
            r == self.dead_count,
    {
        self.dead_count
    }

    /// Median hue over all cells.
    pub fn median_hue(&self) -> (r: u8)
        ensures
            r == self.median_hue,
    {
        self.median_hue
    }

    /// Median saturation over all cells.
    pub fn median_saturation(&self) -> (r: u8)
        ensures
            r == self.median_saturation,
    {
        self.median_saturation
    }

    /// Median luminance over all cells.
    pub fn median_luminance(&self) -> (r: u8)
        ensures
            r == self.median_luminance,
    {
        self.median_luminance
    }

    /// Median alpha over all cells.
    pub fn median_alpha(&self) -> (r: u8)
        ensures
            r == self.median_alpha,
    {
        self.median_alpha
    }
}

/// Sum of one channel over a cell buffer.
pub open spec fn sum_channel(s: Seq<Individual>, ch: LifeChannel) -> int
    decreases s.len(),
{
    if s.len() == 0 {
        0
    } else {
        sum_channel(s.drop_last(), ch) + spec_activity_value(s.last(), ch)
    }
}

/// Number of live cells (alpha > 0) in a cell buffer.
pub open spec fn count_alive(s: Seq<Individual>) -> int
    decreases s.len(),
{
    if s.len() == 0 {
        0int
    } else {
        count_alive(s.drop_last()) + if s.last().alpha > 0 {
            1int
        } else {
            0int
        }
    }
}

/// Number of cells whose `ch` channel equals `v`.
pub open spec fn count_channel_value(s: Seq<Individual>, ch: LifeChannel, v: int) -> int
    decreases s.len(),
{
    if s.len() == 0 {
        0int
    } else {
        count_channel_value(s.drop_last(), ch, v) + if spec_activity_value(s.last(), ch) == v {
            1int
        } else {
            0int
        }
    }
}

/// Number of cells whose `ch` channel is at most `v`.
pub open spec fn count_channel_le(s: Seq<Individual>, ch: LifeChannel, v: int) -> int
    decreases s.len(),
{
    if s.len() == 0 {
        0int
    } else {
        count_channel_le(s.drop_last(), ch, v) + if spec_activity_value(s.last(), ch) <= v {
            1int
        } else {
            0int
        }
    }
}

/// `m` is the median that [`median_from_histogram`] defines over the cells'
/// `ch` channel when half the population is `half`: the smallest channel
/// value reached by at least `half` cells counting from 0 up, or 0 when none
/// is.
pub open spec fn median_ok(s: Seq<Individual>, ch: LifeChannel, m: int, half: int) -> bool {
    &&& forall|v: int| 0 <= v < m ==> #[trigger] count_channel_le(s, ch, v) < half
    &&& (count_channel_le(s, ch, m) >= half || (m == 0 && forall|v: int|
        0 <= v < 256 ==> #[trigger] count_channel_le(s, ch, v) < half))
}

/// Appending a cell adds its channel value to the channel sum.
pub proof fn lemma_sum_channel_push(s: Seq<Individual>, ch: LifeChannel, c: Individual)
    ensures
        sum_channel(s.push(c), ch) == sum_channel(s, ch) + spec_activity_value(c, ch),
{
    assert(s.push(c).drop_last() =~= s);
    assert(s.push(c).last() == c);
}

/// Appending a cell counts it as alive exactly when its alpha is positive.
pub proof fn lemma_count_alive_push(s: Seq<Individual>, c: Individual)
    ensures
        count_alive(s.push(c)) == count_alive(s) + if c.alpha > 0 {
            1int
        } else {
            0int
        },
{
    assert(s.push(c).drop_last() =~= s);
    assert(s.push(c).last() == c);
}

/// Appending a cell raises exactly its own bucket of the histogram.
pub proof fn lemma_count_value_push(s: Seq<Individual>, ch: LifeChannel, v: int, c: Individual)
    ensures
        count_channel_value(s.push(c), ch, v) == count_channel_value(s, ch, v) + if spec_activity_value(c, ch) == v {
            1int
        } else {
            0int
        },
{
    assert(s.push(c).drop_last() =~= s);
    assert(s.push(c).last() == c);
}

/// A channel sum is at most 255 per cell.
pub proof fn lemma_sum_channel_le(s: Seq<Individual>, ch: LifeChannel)
    ensures
        0 <= sum_channel(s, ch) <= 255 * s.len(),
    decreases s.len(),
{
    if s.len() > 0 {
        lemma_sum_channel_le(s.drop_last(), ch);
    }
}

/// No count exceeds the number of cells.
pub proof fn lemma_counts_le(s: Seq<Individual>, ch: LifeChannel, v: int)
    ensures
        0 <= count_alive(s) <= s.len(),
        0 <= count_channel_value(s, ch, v) <= s.len(),
        0 <= count_channel_le(s, ch, v) <= s.len(),
    decreases s.len(),
{
    if s.len() > 0 {
        lemma_counts_le(s.drop_last(), ch, v);
    }
}

/// Cells counted up to value `v` are those counted up to `v - 1` plus the
/// bucket at `v`.
pub proof fn lemma_count_le_split(s: Seq<Individual>, ch: LifeChannel, v: int)
    ensures
        count_channel_le(s, ch, v) == count_channel_le(s, ch, v - 1) + count_channel_value(
            s,
            ch,
            v,
        ),
    decreases s.len(),
{
    if s.len() > 0 {
        lemma_count_le_split(s.drop_last(), ch, v);
    }
}

/// No channel value is below zero, so nothing is counted up to -1.
pub proof fn lemma_count_le_neg(s: Seq<Individual>, ch: LifeChannel)
    ensures
        count_channel_le(s, ch, -1) == 0,
    decreases s.len(),
{
    if s.len() > 0 {
        lemma_count_le_neg(s.drop_last(), ch);
    }
}

/// A histogram whose buckets hold the per-value counts of a cell buffer has
/// the buffer's cumulative counts.
pub proof fn lemma_cumulative_counts(s: Seq<Individual>, ch: LifeChannel, hist: Seq<usize>, v: int)
    requires
        hist.len() == 256,
        -1 <= v < 256,
        forall|u: int| 0 <= u < 256 ==> hist[u] == count_channel_value(s, ch, u),
    ensures
        cumulative(hist, v) == count_channel_le(s, ch, v),
    decreases v + 1,
{
    if v < 0 {
        lemma_count_le_neg(s, ch);
    } else {
        lemma_cumulative_counts(s, ch, hist, v - 1);
        lemma_count_le_split(s, ch, v);
    }
}

/// Carries the result of [`median_from_histogram`] over to the cell buffer
/// the histogram was taken from.
pub proof fn lemma_median_transfer(
    cells: Seq<Individual>,
    ch: LifeChannel,
    hist: Seq<usize>,
    m: int,
    half: int,
)
    requires
        hist.len() == 256,
        forall|u: int| 0 <= u < 256 ==> hist[u] == count_channel_value(cells, ch, u),
        0 <= m < 256,
        forall|v: int| 0 <= v < m ==> cumulative(hist, v) < half,
        cumulative(hist, m) >= half || (m == 0 && forall|v: int|
            0 <= v < 256 ==> cumulative(hist, v) < half),
    ensures
        median_ok(cells, ch, m, half),
{
    assert forall|v: int| 0 <= v < m implies #[trigger] count_channel_le(cells, ch, v) < half by {
        lemma_cumulative_counts(cells, ch, hist, v);
    }
    lemma_cumulative_counts(cells, ch, hist, m);
    if cumulative(hist, m) < half {
        assert forall|v: int| 0 <= v < 256 implies #[trigger] count_channel_le(cells, ch, v)
            < half by {
            lemma_cumulative_counts(cells, ch, hist, v);
        }
    }
}

/// Sum of the bucket counts `hist[0..=v]`.
pub open spec fn cumulative(hist: Seq<usize>, v: int) -> int
    decreases v + 1,
{
    if v < 0 {
        0
    } else {
        cumulative(hist, v - 1) + hist[v]
    }
}

/// The median of a 256-bucket histogram holding `total` samples: the smallest
/// bucket value whose cumulative count reaches half the total, or 0 when no
/// bucket does (in particular when `total` is 0).
///
/// Returns the bucket value, which for channel histograms is the channel
/// value itself.
pub fn median_from_histogram(hist: &[usize; 256], total: usize) -> (r: u8)
    requires
        cumulative(hist@, 255) <= usize::MAX,
    ensures
        forall|v: int| 0 <= v < r ==> cumulative(hist@, v) < total / 2,
        cumulative(hist@, r as int) >= total / 2
            || (r == 0 && forall|v: int| 0 <= v < 256 ==> cumulative(hist@, v) < total / 2),
{
    let mut count: usize = 0;
    let mut val: usize = 0;
    while val < 256
        invariant
            val <= 256,
            count == cumulative(hist@, val - 1),
            cumulative(hist@, 255) <= usize::MAX,
            forall|v: int| 0 <= v < val ==> cumulative(hist@, v) < total / 2,
        decreases 256 - val,
    {
        proof {
            lemma_cumulative_monotonic(hist@, val as int, 255);
        }
        count = count + hist[val];
        if count >= total / 2 {
            return val as u8;
        }
        val = val + 1;
    }
    0
}

/// The cumulative count never decreases as the bucket value grows.
proof fn lemma_cumulative_monotonic(hist: Seq<usize>, a: int, b: int)
    requires
        a <= b < hist.len(),
    ensures
        cumulative(hist, a) <= cumulative(hist, b),
    decreases b - a,
{
    if a < b {
        lemma_cumulative_monotonic(hist, a, b - 1);
    }
}

} // verus!

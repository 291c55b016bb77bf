//! One generation step: per-cell neighbor counting on the activity channel,
//! the 18-bit birth/survival rule, the color decay/recovery/ghosting model,
//! and the statistics gathered in the same pass. Pinned cells are carried
//! through unchanged and unpinned.

use vstd::prelude::*;
use vstd::arithmetic::div_mod::{
    lemma_fundamental_div_mod, lemma_mod_bound,
};
use crate::angle::{
    atan2_turn, cos_q15, hue_turn, sin_q15, spec_atan2_turn, spec_cos_q15, spec_hue_turn,
    spec_sin_q15,
};
use crate::cell::{spec_activity_value, Individual, LifeChannel};
use crate::fixed::{
    e_decayed, ghosted, neighbor_avg, recovered, spec_e_decayed, spec_ghosted, spec_neighbor_avg,
    spec_recovered,
};
use crate::rng::random_u32;
use crate::stats::{
    count_alive, count_channel_value, lemma_count_alive_push,
    lemma_count_value_push, lemma_counts_le, lemma_cumulative_counts, lemma_median_transfer,
    lemma_sum_channel_le,
    lemma_sum_channel_push, median_from_histogram, median_ok, sum_channel, UniverseStats,
};
use crate::universe::{spec_neighbour_index, Universe};

verus! {

/// The eight Moore neighbors of `(row, col)` in `u`, in the fixed scan order.
pub open spec fn nbr_seq(u: Universe, row: int, col: int) -> Seq<Individual> {
    Seq::new(
        8,
        |k: int|
            u.cells@[spec_neighbour_index(u.width as int, u.height as int, row, col, k)],
    )
}

/// Number of the first `k` neighbors whose activity channel is nonzero.
pub open spec fn live_upto(s: Seq<Individual>, ch: LifeChannel, k: int) -> int
    decreases k,
{
    if k <= 0 {
        0int
    } else {
        live_upto(s, ch, k - 1) + if spec_activity_value(s[k - 1], ch) > 0 {
            1int
        } else {
            0int
        }
    }
}

/// Saturation sum of the active ones among the first `k` neighbors.
pub open spec fn satsum_upto(s: Seq<Individual>, ch: LifeChannel, k: int) -> int
    decreases k,
{
    if k <= 0 {
        0int
    } else {
        satsum_upto(s, ch, k - 1) + if spec_activity_value(s[k - 1], ch) > 0 {
            s[k - 1].saturation as int
        } else {
            0int
        }
    }
}

/// Luminance sum of the active ones among the first `k` neighbors.
pub open spec fn lumsum_upto(s: Seq<Individual>, ch: LifeChannel, k: int) -> int
    decreases k,
{
    if k <= 0 {
        0int
    } else {
        lumsum_upto(s, ch, k - 1) + if spec_activity_value(s[k - 1], ch) > 0 {
            s[k - 1].luminance as int
        } else {
            0int
        }
    }
}

/// The running (luminance, hue) maximum over the first `k` neighbors: the
/// hue of the strictly brightest neighbor seen so far, (0, 0) before any.
pub open spec fn strongest_upto(s: Seq<Individual>, k: int) -> (u8, u8)
    decreases k,
{
    if k <= 0 {
        (0u8, 0u8)
    } else {
        let prev = strongest_upto(s, k - 1);
        if s[k - 1].luminance > prev.0 {
            (s[k - 1].luminance, s[k - 1].hue)
        } else {
            prev
        }
    }
}

/// Sine sum of the hues of the live (alpha > 0) ones among the first `k`
/// neighbors, scaled by 32768.
pub open spec fn sinsum_upto(s: Seq<Individual>, k: int) -> int
    decreases k,
{
    if k <= 0 {
        0int
    } else {
        sinsum_upto(s, k - 1) + if s[k - 1].alpha > 0 {
            spec_sin_q15(spec_hue_turn(s[k - 1].hue))
        } else {
            0int
        }
    }
}

/// Cosine sum of the hues of the live ones among the first `k` neighbors,
/// scaled by 32768.
pub open spec fn cossum_upto(s: Seq<Individual>, k: int) -> int
    decreases k,
{
    if k <= 0 {
        0int
    } else {
        cossum_upto(s, k - 1) + if s[k - 1].alpha > 0 {
            spec_cos_q15(spec_hue_turn(s[k - 1].hue))
        } else {
            0int
        }
    }
}

/// The rule lookup: bit `live` of the mask for a currently inactive center,
/// bit `live + 9` for an active one.
pub open spec fn spec_next_alive(rule: u32, live: int, active: bool) -> bool {
    (rule >> ((live + if active {
        9int
    } else {
        0int
    }) as u32)) & 1 == 1
}

/// The blend of the circular-mean neighbor hue with the strongest neighbor's
/// hue: `(1 - f) * mean + f * strongest` with `f` in thousandths, truncated
/// toward zero as the host arithmetic does.
pub open spec fn spec_mixed_turn(mean: int, strongest: int, lerp_f: u32) -> int {
    let num = (1000 - lerp_f) * mean + lerp_f * strongest;
    if num >= 0 {
        num / 1000
    } else {
        -((-num) / 1000)
    }
}

/// The random hue perturbation: `rnd` spread uniformly over
/// `[-strength, strength)` thousandths of a radian, in 1/65536ths of a turn.
/// The divisor is 2^32 times one turn in thousandths of a radian.
pub open spec fn spec_drift(strength: u32, rnd: u32) -> int {
    let num = (2 * rnd - 4294967296) * strength * 65536;
    if num >= 0 {
        num / 26985279520768
    } else {
        -((-num) / 26985279520768)
    }
}

/// Wraps an angle into [0, 65536).
pub open spec fn spec_wrap_turn(m: int) -> int {
    let w = if m >= 0 {
        m % 65536
    } else {
        -((-m) % 65536)
    };
    if w < 0 {
        w + 65536
    } else {
        w
    }
}

/// The hue of a newborn cell: the circular mean of the live neighbors' hues
/// (0 if none), blended toward the strongest neighbor's hue, perturbed by
/// the random draw `rnd`, wrapped into one turn and mapped back to a byte.
pub open spec fn spec_birth_hue(
    sin_sum: int,
    cos_sum: int,
    strongest_hue: u8,
    lerp_f: u32,
    drift_strength: u32,
    rnd: u32,
) -> int {
    let mean = if sin_sum == 0 && cos_sum == 0 {
        0int
    } else {
        spec_atan2_turn(sin_sum, cos_sum)
    };
    let mixed = spec_mixed_turn(mean, spec_hue_turn(strongest_hue), lerp_f);
    let wrapped = spec_wrap_turn(mixed + spec_drift(drift_strength, rnd));
    (wrapped * 510 + 65536) / 131072
}

/// The hue of a newborn cell, from the neighbors' sine and cosine sums, the
/// strongest neighbor's hue and the random draw `rnd`.
fn birth_hue(
    sin_sum: i64,
    cos_sum: i64,
    strongest_hue: u8,
    lerp_f: u32,
    drift_strength: u32,
    rnd: u32,
) -> (r: u8)
    requires
        -262144 <= sin_sum <= 262144,
        -262144 <= cos_sum <= 262144,
    ensures
        r == spec_birth_hue(sin_sum as int, cos_sum as int, strongest_hue, lerp_f, drift_strength, rnd),
{
    let mean: i64 = if sin_sum == 0 && cos_sum == 0 {
        0
    } else {
        atan2_turn(sin_sum, cos_sum)
    };
    let strongest: i64 = hue_turn(strongest_hue) as i64;
    proof {
        let lf = lerp_f as int;
        let m = mean as int;
        let st = strongest as int;
        assert(-150000000000000 <= (1000 - lf) * m && (1000 - lf) * m <= 150000000000000)
            by (nonlinear_arith)
            requires
                -4294967296 <= 1000 - lf <= 1000,
                -32768 <= m <= 32768,
        ;
        assert(0 <= lf * st && lf * st <= 300000000000000) by (nonlinear_arith)
            requires
                0 <= lf <= 4294967295,
                0 <= st <= 65536,
        ;
    }
    let mix_num: i128 = (1000 - lerp_f as i128) * mean as i128 + lerp_f as i128
        * strongest as i128;
    let mixed: i128 = mix_num / 1000;
    proof {
        let rr = 2 * (rnd as int) - 4294967296;
        let ds = drift_strength as int;
        assert(-18446744073709551616 <= rr * ds && rr * ds <= 18446744073709551616)
            by (nonlinear_arith)
            requires
                -4294967296 <= rr <= 4294967296,
                0 <= ds <= 4294967295,
        ;
    }
    let drift_num: i128 = (2 * rnd as i128 - 4294967296) * drift_strength as i128 * 65536;
    let drift: i128 = drift_num / 26985279520768;
    let drifted: i128 = mixed + drift;
    let w0: i128 = drifted % 65536;
    let wrapped: i128 = if w0 < 0 {
        w0 + 65536
    } else {
        w0
    };
    ((wrapped * 510 + 65536) / 131072) as u8
}

/// The next value of the non-pinned cell at `(row, col)` of `u`, for the
/// random draw `rnd` (which only a birth's hue uses). Survival recovers
/// saturation; death decays saturation, luminance and alpha; birth averages
/// the live neighbors' colors and blends their hues; a cell that stays dead
/// ghost-fades. Two quirks are deliberate and part of the visual character:
/// the death-decay luminance term reads the previous saturation, and the
/// ghost fade's new alpha reads the previous luminance.
pub open spec fn spec_next_cell(u: Universe, row: int, col: int, rnd: u32) -> Individual {
    let cell = u.cells@[row * u.width + col];
    let s = nbr_seq(u, row, col);
    let ch = u.params.life_channel;
    let live = live_upto(s, ch, 8);
    let active = spec_activity_value(cell, ch) > 0;
    let next_alive = spec_next_alive(u.params.rule, live, active);
    if cell.alpha > 0 {
        if next_alive {
            Individual {
                saturation: spec_recovered(
                    cell.saturation,
                    u.params.recovery_step,
                    u.params.sat_recovery_factor,
                ) as u8,
                ..cell
            }
        } else {
            Individual {
                hue: cell.hue,
                saturation: spec_e_decayed(
                    cell.saturation,
                    u.params.decay_step,
                    u.params.sat_decay_factor,
                ) as u8,
                luminance: spec_e_decayed(
                    cell.saturation,
                    u.params.decay_step,
                    u.params.lum_decay_factor,
                ) as u8,
                alpha: spec_e_decayed(
                    cell.alpha,
                    u.params.decay_step,
                    u.params.life_decay_factor,
                ) as u8,
            }
        }
    } else {
        if next_alive {
            let la = spec_neighbor_avg(lumsum_upto(s, ch, 8) as u32, live as u8);
            Individual {
                hue: spec_birth_hue(
                    sinsum_upto(s, 8),
                    cossum_upto(s, 8),
                    strongest_upto(s, 8).1,
                    u.params.hue_lerp_factor,
                    u.params.hue_drift_strength,
                    rnd,
                ) as u8,
                saturation: spec_neighbor_avg(satsum_upto(s, ch, 8) as u32, live as u8) as u8,
                luminance: (if la + 1 > 255 {
                    255int
                } else {
                    la + 1
                }) as u8,
                alpha: 255,
            }
        } else {
            Individual {
                hue: cell.hue,
                saturation: spec_ghosted(cell.saturation, u.params.sat_ghost_factor) as u8,
                luminance: spec_ghosted(cell.luminance, u.params.lum_decay_factor) as u8,
                alpha: spec_ghosted(cell.luminance, u.params.life_decay_factor) as u8,
            }
        }
    }
}

/// The state of cell `j` after a tick over `old_u`: a pinned cell is carried
/// through unchanged; any other holds the rule's next value for some random
/// draw (only a newborn cell's hue depends on the draw).
pub open spec fn tick_cell_done(old_u: Universe, new_cells: Seq<Individual>, j: int) -> bool {
    if old_u.draw_buffer@[j] {
        new_cells[j] == old_u.cells@[j]
    } else {
        exists|rnd: u32|
            new_cells[j] == #[trigger] spec_next_cell(
                old_u,
                j / old_u.width as int,
                j % old_u.width as int,
                rnd,
            )
    }
}

/// The statistics of a cell buffer of `n` cells: exact channel sums, exact
/// live and dead counts, and the four histogram medians.
pub open spec fn tick_stats_ok(cells: Seq<Individual>, st: UniverseStats, n: int) -> bool {
    &&& st.sum_hue == sum_channel(cells, LifeChannel::Hue)
    &&& st.sum_saturation == sum_channel(cells, LifeChannel::Saturation)
    &&& st.sum_luminance == sum_channel(cells, LifeChannel::Luminance)
    &&& st.sum_alpha == sum_channel(cells, LifeChannel::Alpha)
    &&& st.alive_count == count_alive(cells)
    &&& st.dead_count == n - count_alive(cells)
    &&& median_ok(cells, LifeChannel::Hue, st.median_hue as int, n / 2)
    &&& median_ok(cells, LifeChannel::Saturation, st.median_saturation as int, n / 2)
    &&& median_ok(cells, LifeChannel::Luminance, st.median_luminance as int, n / 2)
    &&& median_ok(cells, LifeChannel::Alpha, st.median_alpha as int, n / 2)
}

/// What one tick leaves behind: every cell stepped (or carried through, if
/// pinned), every pin cleared, the scratch buffer holding the previous
/// generation, and the statistics recomputed over the new one.
pub open spec fn tick_applied(old_u: Universe, new_u: Universe) -> bool {
    let n = old_u.width * old_u.height;
    &&& new_u.cells@.len() == n
    &&& forall|j: int| 0 <= j < n ==> #[trigger] tick_cell_done(old_u, new_u.cells@, j)
    &&& new_u.next@ == old_u.cells@
    &&& new_u.draw_buffer@.len() == n
    &&& forall|j: int| 0 <= j < n ==> !(#[trigger] new_u.draw_buffer@[j])
    &&& tick_stats_ok(new_u.cells@, new_u.stats, n as int)
    &&& new_u.stats.alive_count + new_u.stats.dead_count == n
    &&& new_u.stats.alive_count <= n
}

impl Universe {
    /// Advances the automaton by one generation; a no-op on a zero-sized
    /// grid.
    ///
    /// Every non-pinned cell is stepped by the birth/survival rule and the
    /// color dynamics; pinned cells are carried through unchanged and
    /// unpinned. The statistics are recomputed over the resulting
    /// generation in the same pass, and the generation buffers are swapped
    /// at the end, so `cells` holds the new generation and `next` the old.
    #[verifier::rlimit(60)]
    pub fn tick(&mut self)
        requires
            old(self).wf(),
        ensures
            final(self).wf(),
            old(self).width == 0 || old(self).height == 0 ==> *final(self) == *old(self),
            old(self).width > 0 && old(self).height > 0 ==> {
                &&& *final(self) == (Universe {
                    cells: final(self).cells,
                    next: final(self).next,
                    draw_buffer: final(self).draw_buffer,
                    stats: final(self).stats,
                    ..*old(self)
                })
                &&& tick_applied(*old(self), *final(self))
            },
    {
        if self.width == 0 || self.height == 0 {
            return ;
        }
        let ghost old_u = *self;
        let w: u32 = self.width;
        let h: u32 = self.height;
        let params = self.params;
        let n: usize = self.cells.len();
        let mut sum_hue: u64 = 0;
        let mut sum_sat: u64 = 0;
        let mut sum_lum: u64 = 0;
        let mut sum_alpha: u64 = 0;
        let mut alive: usize = 0;
        let mut hist_hue: [usize; 256] = [0; 256];
        let mut hist_sat: [usize; 256] = [0; 256];
        let mut hist_lum: [usize; 256] = [0; 256];
        let mut hist_alpha: [usize; 256] = [0; 256];
        let mut idx: usize = 0;
        while idx < n
            invariant
                idx <= n,
                old_u.wf(),
                w == old_u.width,
                h == old_u.height,
                w > 0,
                h > 0,
                params == old_u.params,
                n == old_u.cells@.len(),
                n == old_u.width * old_u.height,
                self.width == old_u.width,
                self.height == old_u.height,
                self.cells == old_u.cells,
                self.params == old_u.params,
                self.stats == old_u.stats,
                self.brush_state == old_u.brush_state,
                self.next@.len() == n,
                self.draw_buffer@.len() == n,
                forall|j: int| 0 <= j < idx ==> #[trigger] tick_cell_done(old_u, self.next@, j),
                forall|j: int| 0 <= j < idx ==> !(#[trigger] self.draw_buffer@[j]),
                forall|j: int|
                    idx <= j < n ==> #[trigger] self.draw_buffer@[j] == old_u.draw_buffer@[j],
                sum_hue == sum_channel(self.next@.subrange(0, idx as int), LifeChannel::Hue),
                sum_sat == sum_channel(self.next@.subrange(0, idx as int), LifeChannel::Saturation),
                sum_lum == sum_channel(self.next@.subrange(0, idx as int), LifeChannel::Luminance),
                sum_alpha == sum_channel(self.next@.subrange(0, idx as int), LifeChannel::Alpha),
                alive == count_alive(self.next@.subrange(0, idx as int)),
                alive <= idx,
                hist_hue@.len() == 256,
                hist_sat@.len() == 256,
                hist_lum@.len() == 256,
                hist_alpha@.len() == 256,
                forall|v: int|
                    0 <= v < 256 ==> hist_hue@[v] == count_channel_value(
                        self.next@.subrange(0, idx as int),
                        LifeChannel::Hue,
                        v,
                    ),
                forall|v: int|
                    0 <= v < 256 ==> hist_sat@[v] == count_channel_value(
                        self.next@.subrange(0, idx as int),
                        LifeChannel::Saturation,
                        v,
                    ),
                forall|v: int|
                    0 <= v < 256 ==> hist_lum@[v] == count_channel_value(
                        self.next@.subrange(0, idx as int),
                        LifeChannel::Luminance,
                        v,
                    ),
                forall|v: int|
                    0 <= v < 256 ==> hist_alpha@[v] == count_channel_value(
                        self.next@.subrange(0, idx as int),
                        LifeChannel::Alpha,
                        v,
                    ),
            decreases n - idx,
        {
            proof {
                lemma_fundamental_div_mod(idx as int, w as int);
                lemma_mod_bound(idx as int, w as int);
                assert((idx as int / w as int) < h as int) by (nonlinear_arith)
                    requires
                        w as int * (idx as int / w as int) <= idx as int,
                        (idx as int) < (w as int) * (h as int),
                        w as int >= 1,
                        idx as int / w as int >= 0,
                ;
            }
            let row: u32 = (idx as u64 / w as u64) as u32;
            let col: u32 = (idx as u64 % w as u64) as u32;
            let ghost rowi = row as int;
            let ghost coli = col as int;
            let next_cell: Individual;
            let ghost mut rnd_w: u32 = 0u32;
            if self.draw_buffer[idx] {
                next_cell = self.cells[idx];
            } else {
                let cell = self.cells[idx];
                let mut nbrs: [usize; 8] = [0; 8];
                self.get_neighbour_indices(row, col, &mut nbrs);
                let ghost s = nbr_seq(old_u, rowi, coli);
                let ch = params.life_channel;
                let mut live: u8 = 0;
                let mut sat_sum: u32 = 0;
                let mut lum_sum: u32 = 0;
                let mut max_lum: u8 = 0;
                let mut strongest_hue: u8 = 0;
                let mut sin_sum: i64 = 0;
                let mut cos_sum: i64 = 0;
                let mut k: usize = 0;
                while k < 8
                    invariant
                        k <= 8,
                        old_u.wf(),
                        self.cells == old_u.cells,
                        self.width == old_u.width,
                        self.height == old_u.height,
                        row < old_u.height,
                        col < old_u.width,
                        ch == old_u.params.life_channel,
                        rowi == row as int,
                        coli == col as int,
                        s == nbr_seq(old_u, rowi, coli),
                        forall|j: int|
                            0 <= j < 8 ==> nbrs@[j] == spec_neighbour_index(
                                old_u.width as int,
                                old_u.height as int,
                                rowi,
                                coli,
                                j,
                            ),
                        forall|j: int| 0 <= j < 8 ==> nbrs@[j] < old_u.cells@.len(),
                        live as int == live_upto(s, ch, k as int),
                        live <= k,
                        sat_sum as int == satsum_upto(s, ch, k as int),
                        sat_sum <= 255 * live,
                        lum_sum as int == lumsum_upto(s, ch, k as int),
                        lum_sum <= 255 * live,
                        max_lum == strongest_upto(s, k as int).0,
                        strongest_hue == strongest_upto(s, k as int).1,
                        sin_sum as int == sinsum_upto(s, k as int),
                        -32768 * (k as int) <= sin_sum as int <= 32768 * (k as int),
                        cos_sum as int == cossum_upto(s, k as int),
                        -32768 * (k as int) <= cos_sum as int <= 32768 * (k as int),
                    decreases 8 - k,
                {
                    let nc = self.cells[nbrs[k]];
                    proof {
                        assert(nc == s[k as int]);
                    }
                    if nc.activity_value(ch) > 0 {
                        live = live + 1;
                        sat_sum = sat_sum + nc.saturation as u32;
                        lum_sum = lum_sum + nc.luminance as u32;
                    }
                    if nc.luminance > max_lum {
                        max_lum = nc.luminance;
                        strongest_hue = nc.hue;
                    }
                    if nc.alpha > 0 {
                        let turn = hue_turn(nc.hue);
                        sin_sum = sin_sum + sin_q15(turn) as i64;
                        cos_sum = cos_sum + cos_q15(turn) as i64;
                    }
                    k = k + 1;
                }
                let active = cell.activity_value(ch) > 0;
                let bit: u32 = live as u32 + (if active { 9 } else { 0 });
                let next_alive: bool = ((params.rule >> bit) & 1) == 1;
                if cell.alpha > 0 {
                    if next_alive {
                        let ns = recovered(
                            cell.saturation,
                            params.recovery_step,
                            params.sat_recovery_factor,
                        );
                        next_cell = Individual { saturation: ns, ..cell };
                    } else {
                        next_cell = Individual {
                            hue: cell.hue,
                            saturation: e_decayed(
                                cell.saturation,
                                params.decay_step,
                                params.sat_decay_factor,
                            ),
                            luminance: e_decayed(
                                cell.saturation,
                                params.decay_step,
                                params.lum_decay_factor,
                            ),
                            alpha: e_decayed(
                                cell.alpha,
                                params.decay_step,
                                params.life_decay_factor,
                            ),
                        };
                    }
                } else {
                    if next_alive {
                        let rnd = random_u32();
                        proof {
                            rnd_w = rnd;
                        }
                        let bh = birth_hue(
                            sin_sum,
                            cos_sum,
                            strongest_hue,
                            params.hue_lerp_factor,
                            params.hue_drift_strength,
                            rnd,
                        );
                        let ns = neighbor_avg(sat_sum, live);
                        let la = neighbor_avg(lum_sum, live);
                        let nl: u8 = if la == 255 { 255 } else { la + 1 };
                        next_cell = Individual {
                            hue: bh,
                            saturation: ns,
                            luminance: nl,
                            alpha: 255,
                        };
                    } else {
                        next_cell = Individual {
                            hue: cell.hue,
                            saturation: ghosted(cell.saturation, params.sat_ghost_factor),
                            luminance: ghosted(cell.luminance, params.lum_decay_factor),
                            alpha: ghosted(cell.luminance, params.life_decay_factor),
                        };
                    }
                }
                proof {
                    assert(cell == old_u.cells@[rowi * old_u.width + coli]);
                    assert(next_cell == spec_next_cell(old_u, rowi, coli, rnd_w));
                }
            }
            let ghost prev_next = self.next@;
            let ghost prev_draw = self.draw_buffer@;
            self.next[idx] = next_cell;
            self.draw_buffer[idx] = false;
            // Gather the statistics of the resulting cell.
            proof {
                lemma_counts_le(
                    self.next@.subrange(0, idx as int),
                    LifeChannel::Hue,
                    next_cell.hue as int,
                );
                lemma_counts_le(
                    self.next@.subrange(0, idx as int),
                    LifeChannel::Saturation,
                    next_cell.saturation as int,
                );
                lemma_counts_le(
                    self.next@.subrange(0, idx as int),
                    LifeChannel::Luminance,
                    next_cell.luminance as int,
                );
                lemma_counts_le(
                    self.next@.subrange(0, idx as int),
                    LifeChannel::Alpha,
                    next_cell.alpha as int,
                );
                lemma_sum_channel_le(self.next@.subrange(0, idx as int), LifeChannel::Hue);
                lemma_sum_channel_le(self.next@.subrange(0, idx as int), LifeChannel::Saturation);
                lemma_sum_channel_le(self.next@.subrange(0, idx as int), LifeChannel::Luminance);
                lemma_sum_channel_le(self.next@.subrange(0, idx as int), LifeChannel::Alpha);
                assert(self.next@.subrange(0, idx as int) =~= prev_next.subrange(0, idx as int));
                assert(255 * (idx as int) <= 255 * (n as int));
            }
            sum_hue = sum_hue + next_cell.hue as u64;
            sum_sat = sum_sat + next_cell.saturation as u64;
            sum_lum = sum_lum + next_cell.luminance as u64;
            sum_alpha = sum_alpha + next_cell.alpha as u64;
            let cur_hue: usize = hist_hue[next_cell.hue as usize];
            hist_hue[next_cell.hue as usize] = cur_hue + 1;
            let cur_sat: usize = hist_sat[next_cell.saturation as usize];
            hist_sat[next_cell.saturation as usize] = cur_sat + 1;
            let cur_lum: usize = hist_lum[next_cell.luminance as usize];
            hist_lum[next_cell.luminance as usize] = cur_lum + 1;
            let cur_alpha: usize = hist_alpha[next_cell.alpha as usize];
            hist_alpha[next_cell.alpha as usize] = cur_alpha + 1;
            if next_cell.alpha > 0 {
                alive = alive + 1;
            }
            proof {
                let prefix = prev_next.subrange(0, idx as int);
                assert(self.next@.subrange(0, idx as int + 1) =~= prefix.push(next_cell));
                lemma_sum_channel_push(prefix, LifeChannel::Hue, next_cell);
                lemma_sum_channel_push(prefix, LifeChannel::Saturation, next_cell);
                lemma_sum_channel_push(prefix, LifeChannel::Luminance, next_cell);
                lemma_sum_channel_push(prefix, LifeChannel::Alpha, next_cell);
                lemma_count_alive_push(prefix, next_cell);
                assert forall|v: int| 0 <= v < 256 implies hist_hue@[v] == count_channel_value(
                    self.next@.subrange(0, idx as int + 1),
                    LifeChannel::Hue,
                    v,
                ) && hist_sat@[v] == count_channel_value(
                    self.next@.subrange(0, idx as int + 1),
                    LifeChannel::Saturation,
                    v,
                ) && hist_lum@[v] == count_channel_value(
                    self.next@.subrange(0, idx as int + 1),
                    LifeChannel::Luminance,
                    v,
                ) && hist_alpha@[v] == count_channel_value(
                    self.next@.subrange(0, idx as int + 1),
                    LifeChannel::Alpha,
                    v,
                ) by {
                    lemma_count_value_push(prefix, LifeChannel::Hue, v, next_cell);
                    lemma_count_value_push(prefix, LifeChannel::Saturation, v, next_cell);
                    lemma_count_value_push(prefix, LifeChannel::Luminance, v, next_cell);
                    lemma_count_value_push(prefix, LifeChannel::Alpha, v, next_cell);
                }
                assert forall|j: int| 0 <= j < idx as int + 1 implies #[trigger] tick_cell_done(
                    old_u,
                    self.next@,
                    j,
                ) by {
                    if j < idx as int {
                        assert(tick_cell_done(old_u, prev_next, j));
                        assert(self.next@[j] == prev_next[j]);
                    } else {
                        if old_u.draw_buffer@[j] {
                            assert(self.next@[j] == old_u.cells@[j]);
                        } else {
                            assert(self.next@[j] == spec_next_cell(old_u, rowi, coli, rnd_w));
                        }
                    }
                }
            }
            idx = idx + 1;
        }
        proof {
            assert(self.next@.subrange(0, n as int) =~= self.next@);
            lemma_cumulative_counts(self.next@, LifeChannel::Hue, hist_hue@, 255);
            lemma_cumulative_counts(self.next@, LifeChannel::Saturation, hist_sat@, 255);
            lemma_cumulative_counts(self.next@, LifeChannel::Luminance, hist_lum@, 255);
            lemma_cumulative_counts(self.next@, LifeChannel::Alpha, hist_alpha@, 255);
            lemma_counts_le(self.next@, LifeChannel::Hue, 255);
            lemma_counts_le(self.next@, LifeChannel::Saturation, 255);
            lemma_counts_le(self.next@, LifeChannel::Luminance, 255);
            lemma_counts_le(self.next@, LifeChannel::Alpha, 255);
        }
        let med_hue = median_from_histogram(&hist_hue, n);
        let med_sat = median_from_histogram(&hist_sat, n);
        let med_lum = median_from_histogram(&hist_lum, n);
        let med_alpha = median_from_histogram(&hist_alpha, n);
        proof {
            lemma_median_transfer(
                self.next@,
                LifeChannel::Hue,
                hist_hue@,
                med_hue as int,
                n as int / 2,
            );
            lemma_median_transfer(
                self.next@,
                LifeChannel::Saturation,
                hist_sat@,
                med_sat as int,
                n as int / 2,
            );
            lemma_median_transfer(
                self.next@,
                LifeChannel::Luminance,
                hist_lum@,
                med_lum as int,
                n as int / 2,
            );
            lemma_median_transfer(
                self.next@,
                LifeChannel::Alpha,
                hist_alpha@,
                med_alpha as int,
                n as int / 2,
            );
        }
        self.stats = UniverseStats {
            sum_hue,
            sum_saturation: sum_sat,
            sum_luminance: sum_lum,
            sum_alpha,
            median_hue: med_hue,
            median_saturation: med_sat,
            median_luminance: med_lum,
            median_alpha: med_alpha,
            alive_count: alive,
            dead_count: n - alive,
        };
        let ghost done_cells = self.next@;
        core::mem::swap(&mut self.cells, &mut self.next);
        proof {
            assert(self.cells@ == done_cells);
            assert forall|j: int| 0 <= j < n implies #[trigger] tick_cell_done(
                old_u,
                self.cells@,
                j,
            ) by {
                assert(tick_cell_done(old_u, done_cells, j));
            }
            assert(median_ok(self.cells@, LifeChannel::Hue, med_hue as int, n as int / 2));
            assert(median_ok(
                self.cells@,
                LifeChannel::Saturation,
                med_sat as int,
                n as int / 2,
            ));
            assert(median_ok(self.cells@, LifeChannel::Luminance, med_lum as int, n as int / 2));
            assert(median_ok(self.cells@, LifeChannel::Alpha, med_alpha as int, n as int / 2));
            assert(tick_stats_ok(self.cells@, self.stats, n as int));
            assert(tick_applied(old_u, *self));
        }
    }
}

} // verus!

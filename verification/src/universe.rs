//! The simulation universe: a toroidal grid of cells, double-buffered across
//! generations, with a per-cell "pinned" mask set by paint operations.

use vstd::prelude::*;
use vstd::arithmetic::div_mod::{lemma_fundamental_div_mod_converse, lemma_mod_bound};
use vstd::arithmetic::mul::lemma_mul_inequality;
use crate::cell::{empty_cell, Individual, LifeChannel};
use crate::params::{default_params, LifeParams};
use crate::stats::{zero_stats, UniverseStats};

verus! {

/// The most recent brush stroke: its caller-supplied id and up to 6 most
/// recent sample points. A sample with a different id discards the history.
pub struct BrushState {
    /// Id of the stroke the stored points belong to.
    pub last_id: Option<u64>,
    /// The most recent sample points of that stroke, oldest first.
    pub points: Vec<(u32, u32)>,
}

impl Default for BrushState {
    /// No stroke seen yet.
    fn default() -> (r: Self)
        ensures
            r.last_id is None,
            r.points@.len() == 0,
    {
        BrushState { last_id: None, points: Vec::new() }
    }
}

/// The simulation universe. `cells` is the current generation, `next` the
/// scratch buffer the tick writes into before the two are swapped, and
/// `draw_buffer` the pinned mask: a pinned cell is carried through the next
/// tick unchanged.
pub struct Universe {
    pub width: u32,
    pub height: u32,
    pub cells: Vec<Individual>,
    pub next: Vec<Individual>,
    pub draw_buffer: Vec<bool>,
    pub params: LifeParams,
    pub stats: UniverseStats,
    pub brush_state: BrushState,
}

/// Flat index of the eight Moore neighbors of `(row, col)`, row and column
/// each wrapped modulo the grid size (toroidal topology). `k` walks them in
/// the order NW, N, NE, W, E, SW, S, SE.
pub open spec fn spec_neighbour_index(w: int, h: int, row: int, col: int, k: int) -> int {
    let north = (row + h - 1) % h;
    let south = (row + 1) % h;
    let west = (col + w - 1) % w;
    let east = (col + 1) % w;
    if k == 0 {
        north * w + west
    } else if k == 1 {
        north * w + col
    } else if k == 2 {
        north * w + east
    } else if k == 3 {
        row * w + west
    } else if k == 4 {
        row * w + east
    } else if k == 5 {
        south * w + west
    } else if k == 6 {
        south * w + col
    } else {
        south * w + east
    }
}

/// The cell at row-major position `(r, c)` of a buffer with row length `w`.
pub open spec fn cell_at(s: Seq<Individual>, w: int, r: int, c: int) -> Individual {
    s[r * w + c]
}

/// The flag at row-major position `(r, c)` of a mask with row length `w`.
pub open spec fn flag_at(s: Seq<bool>, w: int, r: int, c: int) -> bool {
    s[r * w + c]
}

/// Distinct in-range grid positions have distinct flat indices.
pub proof fn lemma_position_unique(w: int, r1: int, c1: int, r2: int, c2: int)
    requires
        0 <= r1,
        0 <= c1 < w,
        0 <= r2,
        0 <= c2 < w,
        r1 * w + c1 == r2 * w + c2,
    ensures
        r1 == r2,
        c1 == c2,
{
    lemma_fundamental_div_mod_converse(r1 * w + c1, w, r1, c1);
    lemma_fundamental_div_mod_converse(r2 * w + c2, w, r2, c2);
}

/// The flat index of an in-range grid position is in range.
pub proof fn lemma_grid_bounds(w: int, h: int, r: int, c: int)
    requires
        0 <= r < h,
        0 <= c < w,
    ensures
        0 <= r * w + c < w * h,
{
    lemma_mul_inequality(r, h - 1, w);
    assert(r * w >= 0) by (nonlinear_arith)
        requires
            r >= 0,
            w >= 0,
    ;
    assert((h - 1) * w + w == h * w) by (nonlinear_arith);
    assert(w * h == h * w) by (nonlinear_arith);
}

/// Every neighbor index of an in-range cell is itself in range.
pub proof fn lemma_neighbour_in_range(w: int, h: int, row: int, col: int, k: int)
    requires
        0 <= row < h,
        0 <= col < w,
        0 <= k < 8,
    ensures
        0 <= spec_neighbour_index(w, h, row, col, k) < w * h,
{
    lemma_mod_bound(row + h - 1, h);
    lemma_mod_bound(row + 1, h);
    lemma_mod_bound(col + w - 1, w);
    lemma_mod_bound(col + 1, w);
    let north = (row + h - 1) % h;
    let south = (row + 1) % h;
    let west = (col + w - 1) % w;
    let east = (col + 1) % w;
    lemma_grid_bounds(w, h, north, west);
    lemma_grid_bounds(w, h, north, col);
    lemma_grid_bounds(w, h, north, east);
    lemma_grid_bounds(w, h, row, west);
    lemma_grid_bounds(w, h, row, east);
    lemma_grid_bounds(w, h, south, west);
    lemma_grid_bounds(w, h, south, col);
    lemma_grid_bounds(w, h, south, east);
}

/// Builds a vector of `n` copies of `x`.
pub fn filled<T: Copy>(n: usize, x: T) -> (r: Vec<T>)
    ensures
        r@.len() == n,
        forall|i: int| 0 <= i < n ==> r@[i] == x,
{
    let mut r: Vec<T> = Vec::new();
    let mut i: usize = 0;
    while i < n
        invariant
            i <= n,
            r@.len() == i,
            forall|j: int| 0 <= j < i ==> r@[j] == x,
        decreases n - i,
    {
        r.push(x);
        i = i + 1;
    }
    r
}

impl Universe {
    /// The buffers hold exactly one entry per cell of the `width x height`
    /// grid, whose size fits in 32 bits.
    pub open spec fn wf(self) -> bool {
        &&& self.width * self.height <= u32::MAX
        &&& self.cells@.len() == self.width * self.height
        &&& self.next@.len() == self.width * self.height
        &&& self.draw_buffer@.len() == self.width * self.height
    }

    /// A zero-initialized grid with the default parameters.
    pub fn new(width: u32, height: u32) -> (r: Self)
        requires
            width * height <= u32::MAX,
        ensures
            r.wf(),
            r.width == width,
            r.height == height,
            forall|i: int| 0 <= i < r.cells@.len() ==> r.cells@[i] == empty_cell(),
            forall|i: int| 0 <= i < r.next@.len() ==> r.next@[i] == empty_cell(),
            forall|i: int| 0 <= i < r.draw_buffer@.len() ==> r.draw_buffer@[i] == false,
            r.params == default_params(),
            r.stats == zero_stats(),
            r.brush_state.last_id is None,
            r.brush_state.points@.len() == 0,
    {
        let size: usize = (width as u64 * height as u64) as usize;
        Universe {
            width,
            height,
            cells: filled(size, Individual::default()),
            next: filled(size, Individual::default()),
            draw_buffer: filled(size, false),
            params: LifeParams::default(),
            stats: UniverseStats {
                sum_hue: 0,
                sum_saturation: 0,
                sum_luminance: 0,
                sum_alpha: 0,
                median_hue: 0,
                median_saturation: 0,
                median_luminance: 0,
                median_alpha: 0,
                alive_count: 0,
                dead_count: 0,
            },
            brush_state: BrushState::default(),
        }
    }

    /// A zero-initialized grid with the given parameters.
    pub fn with_params(width: u32, height: u32, params: LifeParams) -> (r: Self)
        requires
            width * height <= u32::MAX,
        ensures
            r.wf(),
            r.width == width,
            r.height == height,
            forall|i: int| 0 <= i < r.cells@.len() ==> r.cells@[i] == empty_cell(),
            forall|i: int| 0 <= i < r.next@.len() ==> r.next@[i] == empty_cell(),
            forall|i: int| 0 <= i < r.draw_buffer@.len() ==> r.draw_buffer@[i] == false,
            r.params == params,
            r.stats == zero_stats(),
            r.brush_state.last_id is None,
            r.brush_state.points@.len() == 0,
    {
        let mut r = Universe::new(width, height);
        r.params = params;
        r
    }

    /// The statistics gathered during the latest tick.
    pub fn stats(&self) -> (r: UniverseStats)
        ensures
            r == self.stats,
    {
        self.stats
    }

    /// Replaces the whole parameter record; nothing else changes.
    pub fn set_params(
        &mut self,
        rule: u32,
        decay_step: u8,
        recovery_step: u8,
        sat_recovery_factor: u32,
        sat_decay_factor: u32,
        lum_decay_factor: u32,
        life_decay_factor: u32,
        sat_ghost_factor: u32,
        hue_drift_strength: u32,
        hue_lerp_factor: u32,
        life_channel: LifeChannel,
    )
        ensures
            *final(self) == (Universe {
                params: LifeParams {
                    rule,
                    decay_step,
                    recovery_step,
                    sat_recovery_factor,
                    sat_decay_factor,
                    lum_decay_factor,
                    life_decay_factor,
                    sat_ghost_factor,
                    hue_drift_strength,
                    hue_lerp_factor,
                    life_channel,
                },
                ..*old(self)
            }),
    {
        self.params = LifeParams::new(
            rule,
            decay_step,
            recovery_step,
            sat_recovery_factor,
            sat_decay_factor,
            lum_decay_factor,
            life_decay_factor,
            sat_ghost_factor,
            hue_drift_strength,
            hue_lerp_factor,
            life_channel,
        );
    }

    /// A read view of the cell buffer, row-major.
    pub fn cells(&self) -> (r: &Vec<Individual>)
        ensures
            r@ == self.cells@,
    {
        &self.cells
    }

    /// Length of the cell buffer in bytes: 4 bytes per cell, one per channel.
    pub fn cells_len(&self) -> (r: usize)
        requires
            4 * self.cells@.len() <= usize::MAX,
        ensures
            r == 4 * self.cells@.len(),
    {
        self.cells.len() * 4
    }

    /// Grid width in cells.
    pub fn width(&self) -> (r: u32)
        ensures
            r == self.width,
    {
        self.width
    }

    /// Grid height in cells.
    pub fn height(&self) -> (r: u32)
        ensures
            r == self.height,
    {
        self.height
    }

    /// Flat, row-major offset of `(row, col)`.
    pub fn index(&self, row: u32, col: u32) -> (r: usize)
        requires
            self.wf(),
            row < self.height,
            col < self.width,
        ensures
            r == row * self.width + col,
            r < self.cells@.len(),
    {
        proof {
            lemma_grid_bounds(self.width as int, self.height as int, row as int, col as int);
        }
        (row as u64 * self.width as u64 + col as u64) as usize
    }

    /// Writes the flat indices of the eight wrapped Moore neighbors of
    /// `(row, col)` into `out`, in the order NW, N, NE, W, E, SW, S, SE.
    pub fn get_neighbour_indices(&self, row: u32, col: u32, out: &mut [usize; 8])
        requires
            self.wf(),
            row < self.height,
            col < self.width,
        ensures
            forall|k: int|
                0 <= k < 8 ==> final(out)@[k] == spec_neighbour_index(
                    self.width as int,
                    self.height as int,
                    row as int,
                    col as int,
                    k,
                ),
            forall|k: int| 0 <= k < 8 ==> final(out)@[k] < self.cells@.len(),
    {
        let w: u64 = self.width as u64;
        let h: u64 = self.height as u64;
        let north: u64 = (row as u64 + h - 1) % h;
        let south: u64 = (row as u64 + 1) % h;
        let west: u64 = (col as u64 + w - 1) % w;
        let east: u64 = (col as u64 + 1) % w;
        proof {
            let wi = self.width as int;
            let hi = self.height as int;
            lemma_neighbour_in_range(wi, hi, row as int, col as int, 0);
            lemma_neighbour_in_range(wi, hi, row as int, col as int, 1);
            lemma_neighbour_in_range(wi, hi, row as int, col as int, 2);
            lemma_neighbour_in_range(wi, hi, row as int, col as int, 3);
            lemma_neighbour_in_range(wi, hi, row as int, col as int, 4);
            lemma_neighbour_in_range(wi, hi, row as int, col as int, 5);
            lemma_neighbour_in_range(wi, hi, row as int, col as int, 6);
            lemma_neighbour_in_range(wi, hi, row as int, col as int, 7);
        }
        let arr: [usize; 8] = [
            (north * w + west) as usize,
            (north * w + col as u64) as usize,
            (north * w + east) as usize,
            (row as u64 * w + west) as usize,
            (row as u64 * w + east) as usize,
            (south * w + west) as usize,
            (south * w + col as u64) as usize,
            (south * w + east) as usize,
        ];
        *out = arr;
    }

    /// Fills the grid at random: each cell independently becomes, with even
    /// chance, either a bright live cell (saturation and luminance at least
    /// 100, alpha 255) or the zeroed cell. The pinned mask is left alone.
    pub fn randomize(&mut self)
        requires
            old(self).wf(),
        ensures
            final(self).wf(),
            *final(self) == (Universe { cells: final(self).cells, ..*old(self) }),
            final(self).cells@.len() == old(self).cells@.len(),
            forall|i: int|
                0 <= i < final(self).cells@.len() ==> final(self).cells@[i] == empty_cell() || {
                    let c = final(self).cells@[i];
                    &&& c.alpha == 255
                    &&& 100 <= c.saturation <= 255
                    &&& 100 <= c.luminance <= 255
                },
    {
        let n: usize = self.cells.len();
        let mut i: usize = 0;
        while i < n
            invariant
                i <= n,
                n == old(self).cells@.len(),
                *self == (Universe { cells: self.cells, ..*old(self) }),
                self.cells@.len() == n,
                forall|j: int|
                    0 <= j < i ==> self.cells@[j] == empty_cell() || {
                        let c = self.cells@[j];
                        &&& c.alpha == 255
                        &&& 100 <= c.saturation <= 255
                        &&& 100 <= c.luminance <= 255
                    },
            decreases n - i,
        {
            if crate::rng::random_coin() {
                self.cells[i] = Individual {
                    hue: crate::rng::random_byte_between(0, 255),
                    saturation: crate::rng::random_byte_between(100, 255),
                    luminance: crate::rng::random_byte_between(100, 255),
                    alpha: 255,
                };
            } else {
                self.cells[i] = Individual::default();
            }
            i = i + 1;
        }
    }

    /// Fills every cell with the given channel values; the pinned mask is
    /// left alone.
    pub fn set_grid(&mut self, h: u8, s: u8, l: u8, t: u8)
        requires
            old(self).wf(),
        ensures
            final(self).wf(),
            *final(self) == (Universe { cells: final(self).cells, ..*old(self) }),
            final(self).cells@.len() == old(self).cells@.len(),
            forall|i: int|
                0 <= i < final(self).cells@.len() ==> final(self).cells@[i] == (Individual {
                    hue: h,
                    saturation: s,
                    luminance: l,
                    alpha: t,
                }),
    {
        let n: usize = self.cells.len();
        let mut i: usize = 0;
        while i < n
            invariant
                i <= n,
                n == old(self).cells@.len(),
                *self == (Universe { cells: self.cells, ..*old(self) }),
                self.cells@.len() == n,
                forall|j: int|
                    0 <= j < i ==> self.cells@[j] == (Individual {
                        hue: h,
                        saturation: s,
                        luminance: l,
                        alpha: t,
                    }),
            decreases n - i,
        {
            self.cells[i] = Individual { hue: h, saturation: s, luminance: l, alpha: t };
            i = i + 1;
        }
    }

    /// Zeroes every cell; the pinned mask is left alone.
    pub fn clear(&mut self)
        requires
            old(self).wf(),
        ensures
            final(self).wf(),
            *final(self) == (Universe { cells: final(self).cells, ..*old(self) }),
            final(self).cells@.len() == old(self).cells@.len(),
            forall|i: int|
                0 <= i < final(self).cells@.len() ==> final(self).cells@[i] == empty_cell(),
    {
        self.set_grid(0, 0, 0, 0);
    }

    /// Sets one cell to the given channel values and pins it, so that the
    /// next tick carries it through unchanged. Out-of-range coordinates are
    /// silently ignored.
    pub fn set_cell(&mut self, row: u32, col: u32, hue: u8, sat: u8, lum: u8, t: u8)
        requires
            old(self).wf(),
        ensures
            final(self).wf(),
            row < old(self).height && col < old(self).width ==> {
                let idx = row * old(self).width + col;
                &&& *final(self) == (Universe {
                    cells: final(self).cells,
                    draw_buffer: final(self).draw_buffer,
                    ..*old(self)
                })
                &&& final(self).cells@ == old(self).cells@.update(
                    idx as int,
                    Individual { hue, saturation: sat, luminance: lum, alpha: t },
                )
                &&& final(self).draw_buffer@ == old(self).draw_buffer@.update(idx as int, true)
            },
            !(row < old(self).height && col < old(self).width) ==> *final(self) == *old(self),
    {
        if self.width == 0 || self.height == 0 {
            return ;
        }
        if row < self.height && col < self.width {
            let idx = self.index(row, col);
            self.cells[idx] = Individual { hue, saturation: sat, luminance: lum, alpha: t };
            self.draw_buffer[idx] = true;
        }
    }

    /// Flips the luminance of one cell between 0 and 255. Out-of-range
    /// coordinates are silently ignored.
    pub fn toggle(&mut self, row: u32, col: u32)
        requires
            old(self).wf(),
        ensures
            final(self).wf(),
            row < old(self).height && col < old(self).width ==> {
                let idx = row * old(self).width + col;
                let c = old(self).cells@[idx as int];
                &&& *final(self) == (Universe { cells: final(self).cells, ..*old(self) })
                &&& final(self).cells@ == old(self).cells@.update(
                    idx as int,
                    Individual {
                        luminance: if c.luminance > 0 { 0u8 } else { 255u8 },
                        ..c
                    },
                )
            },
            !(row < old(self).height && col < old(self).width) ==> *final(self) == *old(self),
    {
        if row < self.height && col < self.width {
            let idx = self.index(row, col);
            let c = self.cells[idx];
            let lum: u8 = if c.luminance > 0 { 0 } else { 255 };
            self.cells[idx] = Individual { luminance: lum, ..c };
        }
    }

    /// Zero-sizes the grid, dropping every buffer.
    pub fn dispose(&mut self)
        ensures
            final(self).wf(),
            final(self).width == 0,
            final(self).height == 0,
            final(self).cells@.len() == 0,
            final(self).next@.len() == 0,
            final(self).draw_buffer@.len() == 0,
            final(self).params == old(self).params,
            final(self).stats == old(self).stats,
            final(self).brush_state == old(self).brush_state,
    {
        self.cells.clear();
        self.next.clear();
        self.draw_buffer.clear();
        self.width = 0;
        self.height = 0;
    }

    /// Reallocates the grid to `new_width x new_height`, keeping the
    /// overlapping origin-anchored region of all three buffers and
    /// zero-filling the rest.
    pub fn resize(&mut self, new_width: u32, new_height: u32)
        requires
            old(self).wf(),
            new_width * new_height <= u32::MAX,
        ensures
            final(self).wf(),
            final(self).width == new_width,
            final(self).height == new_height,
            final(self).params == old(self).params,
            final(self).stats == old(self).stats,
            final(self).brush_state == old(self).brush_state,
            resize_keeps(*old(self), *final(self)),
    {
        let new_size: usize = (new_width as u64 * new_height as u64) as usize;
        let mut new_cells: Vec<Individual> = filled(new_size, Individual::default());
        let mut new_next: Vec<Individual> = filled(new_size, Individual::default());
        let mut new_draw: Vec<bool> = filled(new_size, false);
        let min_width: u32 = if self.width < new_width { self.width } else { new_width };
        let min_height: u32 = if self.height < new_height { self.height } else { new_height };
        let ghost old_u = *self;
        proof {
            let wi = new_width as int;
            let hi = new_height as int;
            assert forall|r: int, c: int| 0 <= r < hi && 0 <= c < wi implies #[trigger] cell_at(
                new_cells@,
                wi,
                r,
                c,
            ) == empty_cell() && cell_at(new_next@, wi, r, c) == empty_cell() && flag_at(
                new_draw@,
                wi,
                r,
                c,
            ) == false by {
                lemma_grid_bounds(wi, hi, r, c);
            }
        }
        let mut row: u32 = 0;
        while row < min_height
            invariant
                row <= min_height,
                *self == old_u,
                old_u.wf(),
                min_width <= old_u.width,
                min_width <= new_width,
                min_height <= old_u.height,
                min_height <= new_height,
                new_width * new_height <= u32::MAX,
                new_size == new_width * new_height,
                new_cells@.len() == new_size,
                new_next@.len() == new_size,
                new_draw@.len() == new_size,
                resize_copied(
                    old_u,
                    new_cells@,
                    new_next@,
                    new_draw@,
                    new_width as int,
                    new_height as int,
                    min_width as int,
                    row as int,
                    0,
                ),
            decreases min_height - row,
        {
            let mut col: u32 = 0;
            while col < min_width
                invariant
                    row < min_height,
                    col <= min_width,
                    *self == old_u,
                    old_u.wf(),
                    min_width <= old_u.width,
                    min_width <= new_width,
                    min_height <= old_u.height,
                    min_height <= new_height,
                    new_width * new_height <= u32::MAX,
                    new_size == new_width * new_height,
                    new_cells@.len() == new_size,
                    new_next@.len() == new_size,
                    new_draw@.len() == new_size,
                    resize_copied(
                        old_u,
                        new_cells@,
                        new_next@,
                        new_draw@,
                        new_width as int,
                        new_height as int,
                        min_width as int,
                        row as int,
                        col as int,
                    ),
                decreases min_width - col,
            {
                let old_idx = self.index(row, col);
                proof {
                    lemma_grid_bounds(new_width as int, new_height as int, row as int, col as int);
                }
                let new_idx: usize = (row as u64 * new_width as u64 + col as u64) as usize;
                let ghost prev_cells = new_cells@;
                let ghost prev_next = new_next@;
                let ghost prev_draw = new_draw@;
                new_cells[new_idx] = self.cells[old_idx];
                new_next[new_idx] = self.next[old_idx];
                new_draw[new_idx] = self.draw_buffer[old_idx];
                proof {
                    let wi = new_width as int;
                    let hi = new_height as int;
                    let ri = row as int;
                    let ci = col as int;
                    assert forall|r: int, c: int| 0 <= r < hi && 0 <= c < wi implies {
                        let kept = (r < ri && c < min_width) || (r == ri && c < ci + 1);
                        &&& #[trigger] cell_at(new_cells@, wi, r, c) == (if kept {
                            cell_at(old_u.cells@, old_u.width as int, r, c)
                        } else {
                            empty_cell()
                        })
                        &&& cell_at(new_next@, wi, r, c) == (if kept {
                            cell_at(old_u.next@, old_u.width as int, r, c)
                        } else {
                            empty_cell()
                        })
                        &&& flag_at(new_draw@, wi, r, c) == (if kept {
                            flag_at(old_u.draw_buffer@, old_u.width as int, r, c)
                        } else {
                            false
                        })
                    } by {
                        lemma_grid_bounds(wi, hi, r, c);
                        if r * wi + c == new_idx as int {
                            lemma_position_unique(wi, r, c, ri, ci);
                        } else {
                            assert(cell_at(new_cells@, wi, r, c) == cell_at(prev_cells, wi, r, c));
                            assert(cell_at(new_next@, wi, r, c) == cell_at(prev_next, wi, r, c));
                            assert(flag_at(new_draw@, wi, r, c) == flag_at(prev_draw, wi, r, c));
                            assert(cell_at(prev_cells, wi, r, c) == (if (r < ri && c < min_width)
                                || (r == ri && c < ci) {
                                cell_at(old_u.cells@, old_u.width as int, r, c)
                            } else {
                                empty_cell()
                            }));
                        }
                    }
                }
                col = col + 1;
            }
            row = row + 1;
        }
        self.width = new_width;
        self.height = new_height;
        self.cells = new_cells;
        self.next = new_next;
        self.draw_buffer = new_draw;
        proof {
            assert forall|r: int, c: int|
                0 <= r < self.height && 0 <= c < self.width implies {
                let kept = r < old_u.height && c < old_u.width;
                &&& #[trigger] cell_at(self.cells@, self.width as int, r, c) == (if kept {
                    cell_at(old_u.cells@, old_u.width as int, r, c)
                } else {
                    empty_cell()
                })
                &&& cell_at(self.next@, self.width as int, r, c) == (if kept {
                    cell_at(old_u.next@, old_u.width as int, r, c)
                } else {
                    empty_cell()
                })
                &&& flag_at(self.draw_buffer@, self.width as int, r, c) == (if kept {
                    flag_at(old_u.draw_buffer@, old_u.width as int, r, c)
                } else {
                    false
                })
            } by {
                let wi = new_width as int;
                assert(cell_at(self.cells@, wi, r, c) == (if (r < min_height && c < min_width) {
                    cell_at(old_u.cells@, old_u.width as int, r, c)
                } else {
                    empty_cell()
                }));
                assert(cell_at(self.next@, wi, r, c) == (if (r < min_height && c < min_width) {
                    cell_at(old_u.next@, old_u.width as int, r, c)
                } else {
                    empty_cell()
                }));
                assert(flag_at(self.draw_buffer@, wi, r, c) == (if (r < min_height && c
                    < min_width) {
                    flag_at(old_u.draw_buffer@, old_u.width as int, r, c)
                } else {
                    false
                }));
            }
            assert(resize_keeps(old_u, *self));
        }
    }
}

/// What a resize leaves behind: within the new grid, every position that
/// also lay inside the old grid keeps the old buffers' values, and every
/// other position holds the zero fill.
pub open spec fn resize_keeps(old_u: Universe, new_u: Universe) -> bool {
    forall|r: int, c: int|
        0 <= r < new_u.height && 0 <= c < new_u.width ==> {
            let kept = r < old_u.height && c < old_u.width;
            &&& #[trigger] cell_at(new_u.cells@, new_u.width as int, r, c) == (if kept {
                cell_at(old_u.cells@, old_u.width as int, r, c)
            } else {
                empty_cell()
            })
            &&& cell_at(new_u.next@, new_u.width as int, r, c) == (if kept {
                cell_at(old_u.next@, old_u.width as int, r, c)
            } else {
                empty_cell()
            })
            &&& flag_at(new_u.draw_buffer@, new_u.width as int, r, c) == (if kept {
                flag_at(old_u.draw_buffer@, old_u.width as int, r, c)
            } else {
                false
            })
        }
}

/// The processed prefix of a resize pass: every position of the new grid
/// strictly before row `done_r`, or in row `done_r` before column `done_c`,
/// and inside the copied `min_w`-wide region, already holds the old buffers'
/// value; every other position still holds the zero fill.
pub open spec fn resize_copied(
    old_u: Universe,
    nc: Seq<Individual>,
    nn: Seq<Individual>,
    nd: Seq<bool>,
    new_w: int,
    new_h: int,
    min_w: int,
    done_r: int,
    done_c: int,
) -> bool {
    forall|r: int, c: int|
        0 <= r < new_h && 0 <= c < new_w ==> {
            let kept = (r < done_r && c < min_w) || (r == done_r && c < done_c);
            &&& #[trigger] cell_at(nc, new_w, r, c) == (if kept {
                cell_at(old_u.cells@, old_u.width as int, r, c)
            } else {
                empty_cell()
            })
            &&& cell_at(nn, new_w, r, c) == (if kept {
                cell_at(old_u.next@, old_u.width as int, r, c)
            } else {
                empty_cell()
            })
            &&& flag_at(nd, new_w, r, c) == (if kept {
                flag_at(old_u.draw_buffer@, old_u.width as int, r, c)
            } else {
                false
            })
        }
}

} // verus!

//! The stamp painter: alpha-blends an RGBA raster onto the grid, centered at
//! a target cell, converting each pixel to HSL on the way. Painted cells get
//! alpha 255 and are pinned; pixels landing outside the grid, and fully
//! transparent pixels, are skipped.

use vstd::prelude::*;
use crate::cell::Individual;
use crate::fixed::{lerp, spec_lerp};
use crate::hsl::{hsl_from_rgb, spec_hsl_h, spec_hsl_l, spec_hsl_s};
use crate::universe::{cell_at, flag_at, lemma_grid_bounds, lemma_position_unique, Universe};

verus! {

/// What a pixel with bytes `(pr, pg, pb, pa)` makes of the cell it lands on:
/// the pixel's HSL for an opaque pixel, an alpha-weighted blend toward it
/// otherwise; alpha is forced to 255 either way.
pub open spec fn spec_stamped_cell(old_cell: Individual, pr: u8, pg: u8, pb: u8, pa: u8) -> Individual {
    let th = spec_hsl_h(pr, pg, pb) as u8;
    let ts = spec_hsl_s(pr, pg, pb) as u8;
    let tl = spec_hsl_l(pr, pg, pb) as u8;
    if pa == 255 {
        Individual { hue: th, saturation: ts, luminance: tl, alpha: 255 }
    } else {
        Individual {
            hue: spec_lerp(old_cell.hue, th, pa) as u8,
            saturation: spec_lerp(old_cell.saturation, ts, pa) as u8,
            luminance: spec_lerp(old_cell.luminance, tl, pa) as u8,
            alpha: 255,
        }
    }
}

/// The raster row of grid row `r` for a stamp of height `sh` centered on
/// grid row `y`.
pub open spec fn stamp_row(y: int, sh: int, r: int) -> int {
    r - y + sh / 2
}

/// The raster column of grid column `c` for a stamp of width `sw` centered
/// on grid column `x`.
pub open spec fn stamp_col(x: int, sw: int, c: int) -> int {
    c - x + sw / 2
}

/// Whether the stamp paints grid cell `(r, c)`: its raster position exists
/// and that pixel is not fully transparent.
pub open spec fn stamp_paints(x: int, y: int, sw: int, sh: int, data: Seq<u8>, r: int, c: int) -> bool {
    let sy = stamp_row(y, sh, r);
    let sx = stamp_col(x, sw, c);
    &&& 0 <= sy < sh
    &&& 0 <= sx < sw
    &&& data[(sy * sw + sx) * 4 + 3] != 0
}

/// The value the stamp leaves in grid cell `(r, c)`, given the cell's prior
/// value.
pub open spec fn stamp_value(
    old_cell: Individual,
    x: int,
    y: int,
    sw: int,
    sh: int,
    data: Seq<u8>,
    r: int,
    c: int,
) -> Individual {
    let sy = stamp_row(y, sh, r);
    let sx = stamp_col(x, sw, c);
    let i = (sy * sw + sx) * 4;
    spec_stamped_cell(old_cell, data[i], data[i + 1], data[i + 2], data[i + 3])
}

/// The state of one grid cell while the stamp pass has handled the raster
/// positions before `(done_sy, done_sx)` in row-major order: if the cell's
/// pixel has acted, the cell holds the stamped value and is pinned; else the
/// cell and its pin flag are untouched.
pub open spec fn stamp_cell_done(
    old_u: Universe,
    cur_cells: Seq<Individual>,
    cur_draw: Seq<bool>,
    x: int,
    y: int,
    sw: int,
    sh: int,
    data: Seq<u8>,
    done_sy: int,
    done_sx: int,
    r: int,
    c: int,
) -> bool {
    let w = old_u.width as int;
    let sy = stamp_row(y, sh, r);
    let sx = stamp_col(x, sw, c);
    let processed = sy < done_sy || (sy == done_sy && sx < done_sx);
    if processed && stamp_paints(x, y, sw, sh, data, r, c) {
        &&& cell_at(cur_cells, w, r, c) == stamp_value(
            cell_at(old_u.cells@, w, r, c),
            x,
            y,
            sw,
            sh,
            data,
            r,
            c,
        )
        &&& flag_at(cur_draw, w, r, c)
    } else {
        &&& cell_at(cur_cells, w, r, c) == cell_at(old_u.cells@, w, r, c)
        &&& flag_at(cur_draw, w, r, c) == flag_at(old_u.draw_buffer@, w, r, c)
    }
}

/// [`stamp_cell_done`] for every grid cell.
pub open spec fn stamp_prefix(
    old_u: Universe,
    cur_cells: Seq<Individual>,
    cur_draw: Seq<bool>,
    x: int,
    y: int,
    sw: int,
    sh: int,
    data: Seq<u8>,
    done_sy: int,
    done_sx: int,
) -> bool {
    forall|r: int, c: int|
        0 <= r < old_u.height && 0 <= c < old_u.width ==> #[trigger] stamp_cell_done(
            old_u,
            cur_cells,
            cur_draw,
            x,
            y,
            sw,
            sh,
            data,
            done_sy,
            done_sx,
            r,
            c,
        )
}

/// What a finished stamp pass leaves behind: every painted cell holds the
/// stamped value and is pinned; every other cell, and its pin flag, is
/// untouched. This is the processed-prefix form with the whole raster done.
pub open spec fn stamp_applied(
    old_u: Universe,
    new_u: Universe,
    x: int,
    y: int,
    sw: int,
    sh: int,
    data: Seq<u8>,
) -> bool {
    stamp_prefix(old_u, new_u.cells@, new_u.draw_buffer@, x, y, sw, sh, data, sh, 0)
}

impl Universe {
    /// Alpha-blends the RGBA raster `data` (`stamp_w x stamp_h` pixels, 4
    /// bytes each, row-major) onto the grid, centered at `(x, y)` in
    /// (column, row) order. Fully transparent pixels and pixels landing
    /// outside the grid are skipped; painted cells are pinned.
    pub fn draw_stamp_at(&mut self, x: u32, y: u32, stamp_w: u32, stamp_h: u32, data: &Vec<u8>)
        requires
            old(self).wf(),
            data@.len() >= 4 * stamp_w * stamp_h,
            4 * stamp_w * stamp_h <= usize::MAX,
        ensures
            final(self).wf(),
            *final(self) == (Universe {
                cells: final(self).cells,
                draw_buffer: final(self).draw_buffer,
                ..*old(self)
            }),
            final(self).cells@.len() == old(self).cells@.len(),
            final(self).draw_buffer@.len() == old(self).draw_buffer@.len(),
            stamp_applied(
                *old(self),
                *final(self),
                x as int,
                y as int,
                stamp_w as int,
                stamp_h as int,
                data@,
            ),
    {
        let ghost old_u = *self;
        let ghost xi = x as int;
        let ghost yi = y as int;
        let ghost swi = stamp_w as int;
        let ghost shi = stamp_h as int;
        proof {
            assert forall|r: int, c: int|
                0 <= r < old_u.height && 0 <= c < old_u.width implies #[trigger] stamp_cell_done(
                old_u,
                self.cells@,
                self.draw_buffer@,
                xi,
                yi,
                swi,
                shi,
                data@,
                0,
                0,
                r,
                c,
            ) by {
                assert(!(stamp_row(yi, shi, r) < 0 || (stamp_row(yi, shi, r) == 0 && stamp_col(
                    xi,
                    swi,
                    c,
                ) < 0)) || !stamp_paints(xi, yi, swi, shi, data@, r, c));
            }
        }
        let mut sy: u32 = 0;
        while sy < stamp_h
            invariant
                sy <= stamp_h,
                xi == x as int,
                yi == y as int,
                swi == stamp_w as int,
                shi == stamp_h as int,
                4 * stamp_w * stamp_h <= usize::MAX,
                old_u.wf(),
                self.wf(),
                self.width == old_u.width,
                self.height == old_u.height,
                self.next == old_u.next,
                self.params == old_u.params,
                self.stats == old_u.stats,
                self.brush_state == old_u.brush_state,
                self.cells@.len() == old_u.cells@.len(),
                self.draw_buffer@.len() == old_u.draw_buffer@.len(),
                data@.len() >= 4 * stamp_w * stamp_h,
                stamp_prefix(
                    old_u,
                    self.cells@,
                    self.draw_buffer@,
                    xi,
                    yi,
                    swi,
                    shi,
                    data@,
                    sy as int,
                    0,
                ),
            decreases stamp_h - sy,
        {
            let mut sx: u32 = 0;
            while sx < stamp_w
                invariant
                    sy < stamp_h,
                    sx <= stamp_w,
                    xi == x as int,
                    yi == y as int,
                    swi == stamp_w as int,
                    shi == stamp_h as int,
                    4 * stamp_w * stamp_h <= usize::MAX,
                    old_u.wf(),
                    self.wf(),
                    self.width == old_u.width,
                    self.height == old_u.height,
                    self.next == old_u.next,
                    self.params == old_u.params,
                    self.stats == old_u.stats,
                    self.brush_state == old_u.brush_state,
                    self.cells@.len() == old_u.cells@.len(),
                    self.draw_buffer@.len() == old_u.draw_buffer@.len(),
                    data@.len() >= 4 * stamp_w * stamp_h,
                    stamp_prefix(
                        old_u,
                        self.cells@,
                        self.draw_buffer@,
                        xi,
                        yi,
                        swi,
                        shi,
                        data@,
                        sy as int,
                        sx as int,
                    ),
                decreases stamp_w - sx,
            {
                let ghost prev_cells = self.cells@;
                let ghost prev_draw = self.draw_buffer@;
                // The grid cell this pixel lands on, in exact arithmetic.
                let ur: i64 = y as i64 + sy as i64 - (stamp_h / 2) as i64;
                let uc: i64 = x as i64 + sx as i64 - (stamp_w / 2) as i64;
                proof {
                    lemma_grid_bounds(swi, shi, sy as int, sx as int);
                    assert((swi * shi) * 4 == 4 * swi * shi) by (nonlinear_arith);
                }
                let pix: usize = (((sy as u64 * stamp_w as u64) + sx as u64) * 4) as usize;
                let pa: u8 = data[pix + 3];
                let in_grid: bool = 0 <= ur && ur < self.height as i64 && 0 <= uc && uc
                    < self.width as i64;
                if pa != 0 && in_grid {
                    let row: u32 = ur as u32;
                    let col: u32 = uc as u32;
                    let idx = self.index(row, col);
                    let old_cell = self.cells[idx];
                    proof {
                        // The cell under this pixel has not been touched yet:
                        // its own raster position is exactly the current one.
                        assert(stamp_row(yi, shi, row as int) == sy as int);
                        assert(stamp_col(xi, swi, col as int) == sx as int);
                        assert(stamp_cell_done(
                            old_u,
                            self.cells@,
                            self.draw_buffer@,
                            xi,
                            yi,
                            swi,
                            shi,
                            data@,
                            sy as int,
                            sx as int,
                            row as int,
                            col as int,
                        ));
                        assert(old_cell == cell_at(
                            old_u.cells@,
                            old_u.width as int,
                            row as int,
                            col as int,
                        ));
                        lemma_grid_bounds(
                            old_u.width as int,
                            old_u.height as int,
                            row as int,
                            col as int,
                        );
                    }
                    let (th, ts, tl) = hsl_from_rgb(data[pix], data[pix + 1], data[pix + 2]);
                    let (nh, ns, nl) = if pa == 255 {
                        (th, ts, tl)
                    } else {
                        (
                            lerp(old_cell.hue, th, pa),
                            lerp(old_cell.saturation, ts, pa),
                            lerp(old_cell.luminance, tl, pa),
                        )
                    };
                    self.set_cell(row, col, nh, ns, nl, 255);
                }
                proof {
                    let w = old_u.width as int;
                    assert forall|r: int, c: int|
                        0 <= r < old_u.height && 0 <= c < old_u.width implies
                        #[trigger] stamp_cell_done(
                        old_u,
                        self.cells@,
                        self.draw_buffer@,
                        xi,
                        yi,
                        swi,
                        shi,
                        data@,
                        sy as int,
                        sx as int + 1,
                        r,
                        c,
                    ) by {
                        lemma_grid_bounds(w, old_u.height as int, r, c);
                        assert(stamp_cell_done(
                            old_u,
                            prev_cells,
                            prev_draw,
                            xi,
                            yi,
                            swi,
                            shi,
                            data@,
                            sy as int,
                            sx as int,
                            r,
                            c,
                        ));
                        let pr = stamp_row(yi, shi, r);
                        let pc = stamp_col(xi, swi, c);
                        if pr == sy as int && pc == sx as int {
                            // (r, c) is the cell under the current pixel.
                            assert(r == yi + sy - shi / 2 && c == xi + sx - swi / 2);
                        } else {
                            // Any other cell maps to another pixel; if the
                            // current pixel painted, it painted a different
                            // flat index.
                            if pa != 0 && 0 <= yi + sy - shi / 2 < old_u.height && 0 <= xi + sx
                                - swi / 2 < old_u.width {
                                let tr = yi + sy - shi / 2;
                                let tc = xi + sx - swi / 2;
                                if r * w + c == tr * w + tc {
                                    lemma_position_unique(w, r, c, tr, tc);
                                }
                            }
                            assert(cell_at(self.cells@, w, r, c) == cell_at(prev_cells, w, r, c));
                            assert(flag_at(self.draw_buffer@, w, r, c) == flag_at(
                                prev_draw,
                                w,
                                r,
                                c,
                            ));
                        }
                    }
                }
                sx = sx + 1;
            }
            proof {
                assert forall|r: int, c: int|
                    0 <= r < old_u.height && 0 <= c < old_u.width implies
                    #[trigger] stamp_cell_done(
                    old_u,
                    self.cells@,
                    self.draw_buffer@,
                    xi,
                    yi,
                    swi,
                    shi,
                    data@,
                    sy as int + 1,
                    0,
                    r,
                    c,
                ) by {
                    assert(stamp_cell_done(
                        old_u,
                        self.cells@,
                        self.draw_buffer@,
                        xi,
                        yi,
                        swi,
                        shi,
                        data@,
                        sy as int,
                        swi,
                        r,
                        c,
                    ));
                }
            }
            sy = sy + 1;
        }
    }
}

} // verus!

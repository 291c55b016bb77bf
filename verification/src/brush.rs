//! The freehand brush: pointer samples are buffered per stroke id (up to 6),
//! and once four are available, filled disks are stamped along every
//! consecutive 4-point Catmull-Rom window; with fewer samples a single disk
//! is stamped at the latest point. Painted cells are pinned.

use vstd::prelude::*;
use crate::cell::Individual;
use crate::universe::{cell_at, flag_at, lemma_grid_bounds, lemma_position_unique, BrushState, Universe};

verus! {

/// Whether `(r, c)` lies in the filled disk of the given radius around the
/// center `(cx, cy)` (in column, row order).
pub open spec fn in_disk(cx: int, cy: int, radius: int, r: int, c: int) -> bool {
    (r - cy) * (r - cy) + (c - cx) * (c - cx) <= radius * radius
}

/// One Catmull-Rom coordinate: the cubic Hermite blend of four control
/// values at parameter `i / 256`, computed in units of 1/2^24, rounded, and
/// clamped to the unsigned 32-bit range.
pub open spec fn spec_blend(a: u32, b: u32, c: u32, d: u32, i: int) -> int {
    let n = 2 * b * 16777216 + (c - a) * (i * 65536) + (2 * a - 5 * b + 4 * c - d) * (i * i * 256)
        + (3 * b - a - 3 * c + d) * (i * i * i);
    if n < 0 {
        0int
    } else {
        let v = (n + 16777216) / 33554432;
        if v > u32::MAX {
            u32::MAX as int
        } else {
            v
        }
    }
}

/// One Catmull-Rom coordinate at parameter `i / 256`.
fn blend_coord(a: u32, b: u32, c: u32, d: u32, i: u32) -> (r: u32)
    requires
        i <= 256,
    ensures
        r == spec_blend(a, b, c, d, i as int),
{
    let ii: i128 = i as i128;
    proof {
        let iv = i as int;
        assert(0 <= iv * iv <= 65536 && 0 <= iv * iv * iv <= 16777216 && iv * (iv * iv) == iv * iv
            * iv) by (nonlinear_arith)
            requires
                0 <= iv <= 256,
        ;
        let ca = c as int - a as int;
        assert(-72057594037927936 <= ca * (iv * 65536) <= 72057594037927936) by (nonlinear_arith)
            requires
                -4294967296 <= ca <= 4294967296,
                0 <= iv * 65536 <= 16777216,
        ;
        let k2 = 2 * (a as int) - 5 * (b as int) + 4 * (c as int) - d as int;
        assert(-432345564227567616 <= k2 * (iv * iv * 256) <= 432345564227567616)
            by (nonlinear_arith)
            requires
                -25769803776 <= k2 <= 25769803776,
                0 <= iv * iv * 256 <= 16777216,
        ;
        let k3 = 3 * (b as int) - a as int - 3 * (c as int) + d as int;
        assert(-432345564227567616 <= k3 * (iv * iv * iv) <= 432345564227567616)
            by (nonlinear_arith)
            requires
                -25769803776 <= k3 <= 25769803776,
                0 <= iv * iv * iv <= 16777216,
        ;
    }
    let t1: i128 = ii * 65536;
    let t2: i128 = ii * ii * 256;
    let t3: i128 = ii * ii * ii;
    let n: i128 = 2 * (b as i128) * 16777216 + (c as i128 - a as i128) * t1 + (2 * (a as i128) - 5
        * (b as i128) + 4 * (c as i128) - d as i128) * t2 + (3 * (b as i128) - a as i128 - 3
        * (c as i128) + d as i128) * t3;
    if n < 0 {
        0
    } else {
        let v: i128 = (n + 16777216) / 33554432;
        if v > u32::MAX as i128 {
            u32::MAX
        } else {
            v as u32
        }
    }
}

/// The cell value a brush stroke paints: the requested color in add mode,
/// black in erase mode, alpha 255 either way.
pub open spec fn spec_brush_paint(add_mode: bool, h: u8, s: u8, l: u8) -> Individual {
    if add_mode {
        Individual { hue: h, saturation: s, luminance: l, alpha: 255 }
    } else {
        Individual { hue: 0, saturation: 0, luminance: 0, alpha: 255 }
    }
}

/// The brush point history after one sample: appended to the stroke if the
/// id matches (dropping the oldest point beyond 6), else restarted at the
/// sample alone.
pub open spec fn spec_new_points(bs: BrushState, cx: u32, cy: u32, id: u64) -> Seq<(u32, u32)> {
    if bs.last_id == Some(id) {
        let p = bs.points@.push((cx, cy));
        if p.len() > 6 {
            p.remove(0)
        } else {
            p
        }
    } else {
        seq![(cx, cy)]
    }
}

/// The state of one grid cell while a disk stamp has handled the offsets
/// before `(done_dy, done_dx)` in row-major order: inside the handled part
/// of the disk the cell holds `paint` and is pinned, elsewhere it and its
/// pin flag are untouched.
pub open spec fn disk_cell_done(
    old_u: Universe,
    cur_cells: Seq<Individual>,
    cur_draw: Seq<bool>,
    cx: int,
    cy: int,
    radius: int,
    paint: Individual,
    done_dy: int,
    done_dx: int,
    r: int,
    c: int,
) -> bool {
    let w = old_u.width as int;
    let dy = r - cy;
    let dx = c - cx;
    let processed = dy < done_dy || (dy == done_dy && dx < done_dx);
    if processed && in_disk(cx, cy, radius, r, c) {
        &&& cell_at(cur_cells, w, r, c) == paint
        &&& flag_at(cur_draw, w, r, c)
    } else {
        &&& cell_at(cur_cells, w, r, c) == cell_at(old_u.cells@, w, r, c)
        &&& flag_at(cur_draw, w, r, c) == flag_at(old_u.draw_buffer@, w, r, c)
    }
}

/// [`disk_cell_done`] for every grid cell.
pub open spec fn disk_prefix(
    old_u: Universe,
    cur_cells: Seq<Individual>,
    cur_draw: Seq<bool>,
    cx: int,
    cy: int,
    radius: int,
    paint: Individual,
    done_dy: int,
    done_dx: int,
) -> bool {
    forall|r: int, c: int|
        0 <= r < old_u.height && 0 <= c < old_u.width ==> #[trigger] disk_cell_done(
            old_u,
            cur_cells,
            cur_draw,
            cx,
            cy,
            radius,
            paint,
            done_dy,
            done_dx,
            r,
            c,
        )
}

/// What a finished disk stamp leaves behind: every in-grid cell of the disk
/// holds `paint` and is pinned, every other cell is untouched.
pub open spec fn disk_applied(
    old_u: Universe,
    new_u: Universe,
    cx: int,
    cy: int,
    radius: int,
    paint: Individual,
) -> bool {
    disk_prefix(
        old_u,
        new_u.cells@,
        new_u.draw_buffer@,
        cx,
        cy,
        radius,
        paint,
        radius + 1,
        -radius,
    )
}

/// Whether one of the first `upto` interpolation steps along the Catmull-Rom
/// window `(p0, p1, p2, p3)` stamps a disk covering `(r, c)`.
pub open spec fn seg_covers(
    p0: (u32, u32),
    p1: (u32, u32),
    p2: (u32, u32),
    p3: (u32, u32),
    radius: int,
    upto: int,
    r: int,
    c: int,
) -> bool {
    exists|i: int|
        0 <= i < upto && #[trigger] in_disk(
            spec_blend(p0.0, p1.0, p2.0, p3.0, i),
            spec_blend(p0.1, p1.1, p2.1, p3.1, i),
            radius,
            r,
            c,
        )
}

/// The state of one grid cell while a spline segment has stamped its first
/// `upto` disks.
pub open spec fn seg_cell_done(
    old_u: Universe,
    cur_cells: Seq<Individual>,
    cur_draw: Seq<bool>,
    p0: (u32, u32),
    p1: (u32, u32),
    p2: (u32, u32),
    p3: (u32, u32),
    radius: int,
    paint: Individual,
    upto: int,
    r: int,
    c: int,
) -> bool {
    let w = old_u.width as int;
    if seg_covers(p0, p1, p2, p3, radius, upto, r, c) {
        &&& cell_at(cur_cells, w, r, c) == paint
        &&& flag_at(cur_draw, w, r, c)
    } else {
        &&& cell_at(cur_cells, w, r, c) == cell_at(old_u.cells@, w, r, c)
        &&& flag_at(cur_draw, w, r, c) == flag_at(old_u.draw_buffer@, w, r, c)
    }
}

/// [`seg_cell_done`] for every grid cell.
pub open spec fn seg_prefix(
    old_u: Universe,
    cur_cells: Seq<Individual>,
    cur_draw: Seq<bool>,
    p0: (u32, u32),
    p1: (u32, u32),
    p2: (u32, u32),
    p3: (u32, u32),
    radius: int,
    paint: Individual,
    upto: int,
) -> bool {
    forall|r: int, c: int|
        0 <= r < old_u.height && 0 <= c < old_u.width ==> #[trigger] seg_cell_done(
            old_u,
            cur_cells,
            cur_draw,
            p0,
            p1,
            p2,
            p3,
            radius,
            paint,
            upto,
            r,
            c,
        )
}

/// Whether one of the stroke's Catmull-Rom windows before window `done_wi`
/// covers `(r, c)`, i.e. some disk stamped for that window reaches the cell.
pub open spec fn windows_cover(
    pts: Seq<(u32, u32)>,
    radius: int,
    done_wi: int,
    r: int,
    c: int,
) -> bool {
    exists|wi: int|
        0 <= wi < done_wi && #[trigger] seg_covers(
            pts[wi],
            pts[wi + 1],
            pts[wi + 2],
            pts[wi + 3],
            radius,
            257,
            r,
            c,
        )
}

/// The state of one grid cell while a brush stroke has painted its first
/// `done_wi` spline windows.
pub open spec fn windows_cell_done(
    old_u: Universe,
    cur_cells: Seq<Individual>,
    cur_draw: Seq<bool>,
    pts: Seq<(u32, u32)>,
    radius: int,
    paint: Individual,
    done_wi: int,
    r: int,
    c: int,
) -> bool {
    let w = old_u.width as int;
    if windows_cover(pts, radius, done_wi, r, c) {
        &&& cell_at(cur_cells, w, r, c) == paint
        &&& flag_at(cur_draw, w, r, c)
    } else {
        &&& cell_at(cur_cells, w, r, c) == cell_at(old_u.cells@, w, r, c)
        &&& flag_at(cur_draw, w, r, c) == flag_at(old_u.draw_buffer@, w, r, c)
    }
}

/// Whether the stroke with point history `pts` paints `(r, c)`: through one
/// of its spline windows when four or more samples are buffered, through a
/// single disk at the latest sample otherwise.
pub open spec fn brush_covers(pts: Seq<(u32, u32)>, radius: int, r: int, c: int) -> bool {
    if pts.len() >= 4 {
        windows_cover(pts, radius, pts.len() - 3, r, c)
    } else {
        in_disk(pts[pts.len() - 1].0 as int, pts[pts.len() - 1].1 as int, radius, r, c)
    }
}

/// The state of one grid cell after a brush call with resulting point
/// history `pts`: covered cells hold `paint` and are pinned, all others and
/// their pin flags are untouched.
pub open spec fn brush_cell_done(
    old_u: Universe,
    cur_cells: Seq<Individual>,
    cur_draw: Seq<bool>,
    pts: Seq<(u32, u32)>,
    radius: int,
    paint: Individual,
    r: int,
    c: int,
) -> bool {
    let w = old_u.width as int;
    if brush_covers(pts, radius, r, c) {
        &&& cell_at(cur_cells, w, r, c) == paint
        &&& flag_at(cur_draw, w, r, c)
    } else {
        &&& cell_at(cur_cells, w, r, c) == cell_at(old_u.cells@, w, r, c)
        &&& flag_at(cur_draw, w, r, c) == flag_at(old_u.draw_buffer@, w, r, c)
    }
}

/// [`brush_cell_done`] for every grid cell.
pub open spec fn brush_applied(
    old_u: Universe,
    new_u: Universe,
    pts: Seq<(u32, u32)>,
    radius: int,
    paint: Individual,
) -> bool {
    forall|r: int, c: int|
        0 <= r < old_u.height && 0 <= c < old_u.width ==> #[trigger] brush_cell_done(
            old_u,
            new_u.cells@,
            new_u.draw_buffer@,
            pts,
            radius,
            paint,
            r,
            c,
        )
}

/// Copies a point list.
fn copy_points(v: &Vec<(u32, u32)>) -> (r: Vec<(u32, u32)>)
    ensures
        r@ == v@,
{
    let mut r: Vec<(u32, u32)> = Vec::new();
    let mut i: usize = 0;
    while i < v.len()
        invariant
            i <= v@.len(),
            r@ == v@.subrange(0, i as int),
        decreases v@.len() - i,
    {
        r.push(v[i]);
        proof {
            assert(v@.subrange(0, i as int).push(v@[i as int]) =~= v@.subrange(0, i as int + 1));
        }
        i = i + 1;
    }
    proof {
        assert(v@.subrange(0, v@.len() as int) =~= v@);
    }
    r
}

impl Universe {
    /// Fills the disk of the given radius around `(cx, cy)` (column, row)
    /// with `paint`, pinning every painted cell; parts of the disk outside
    /// the grid are skipped.
    fn stamp_disk(&mut self, cx: u32, cy: u32, radius: u32, paint: Individual)
        requires
            old(self).wf(),
        ensures
            final(self).wf(),
            *final(self) == (Universe {
                cells: final(self).cells,
                draw_buffer: final(self).draw_buffer,
                ..*old(self)
            }),
            final(self).cells@.len() == old(self).cells@.len(),
            final(self).draw_buffer@.len() == old(self).draw_buffer@.len(),
            disk_applied(*old(self), *final(self), cx as int, cy as int, radius as int, paint),
    {
        let ghost old_u = *self;
        let rad: i64 = radius as i64;
        proof {
            assert forall|r: int, c: int|
                0 <= r < old_u.height && 0 <= c < old_u.width implies #[trigger] disk_cell_done(
                old_u,
                self.cells@,
                self.draw_buffer@,
                cx as int,
                cy as int,
                radius as int,
                paint,
                -(radius as int),
                -(radius as int),
                r,
                c,
            ) by {
                let dy = r - cy as int;
                let dx = c - cx as int;
                if dy < -(radius as int) || (dy == -(radius as int) && dx < -(radius as int)) {
                    assert(!in_disk(cx as int, cy as int, radius as int, r, c))
                        by (nonlinear_arith)
                        requires
                            dy == r - cy as int,
                            dx == c - cx as int,
                            dy < -(radius as int) || (dy == -(radius as int) && dx < -(radius
                                as int)),
                            radius as int >= 0,
                    ;
                }
            }
        }
        let mut dy: i64 = -rad;
        while dy <= rad
            invariant
                -rad <= dy <= rad + 1,
                rad == radius as int,
                old_u.wf(),
                self.wf(),
                self.width == old_u.width,
                self.height == old_u.height,
                self.next == old_u.next,
                self.params == old_u.params,
                self.stats == old_u.stats,
                self.brush_state == old_u.brush_state,
                self.cells@.len() == old_u.cells@.len(),
                self.draw_buffer@.len() == old_u.draw_buffer@.len(),
                disk_prefix(
                    old_u,
                    self.cells@,
                    self.draw_buffer@,
                    cx as int,
                    cy as int,
                    radius as int,
                    paint,
                    dy as int,
                    -(radius as int),
                ),
            decreases rad + 1 - dy,
        {
            let mut dx: i64 = -rad;
            while dx <= rad
                invariant
                    -rad <= dy <= rad,
                    -rad <= dx <= rad + 1,
                    rad == radius as int,
                    old_u.wf(),
                    self.wf(),
                    self.width == old_u.width,
                    self.height == old_u.height,
                    self.next == old_u.next,
                    self.params == old_u.params,
                    self.stats == old_u.stats,
                    self.brush_state == old_u.brush_state,
                    self.cells@.len() == old_u.cells@.len(),
                    self.draw_buffer@.len() == old_u.draw_buffer@.len(),
                    disk_prefix(
                        old_u,
                        self.cells@,
                        self.draw_buffer@,
                        cx as int,
                        cy as int,
                        radius as int,
                        paint,
                        dy as int,
                        dx as int,
                    ),
                decreases rad + 1 - dx,
            {
                let ghost prev_cells = self.cells@;
                let ghost prev_draw = self.draw_buffer@;
                proof {
                    assert(0 <= dx as int * (dx as int) <= 18446744073709551616 && 0 <= dy as int
                        * (dy as int) <= 18446744073709551616 && 0 <= radius as int * (radius
                        as int) <= 18446744073709551616) by (nonlinear_arith)
                        requires
                            -4294967296 <= dx as int <= 4294967296,
                            -4294967296 <= dy as int <= 4294967296,
                            0 <= radius as int <= 4294967296,
                    ;
                }
                let inside: bool = (dx as i128 * dx as i128 + dy as i128 * dy as i128) <= radius
                    as i128 * radius as i128;
                let rr: i64 = cy as i64 + dy;
                let cc: i64 = cx as i64 + dx;
                if inside && 0 <= rr && rr < self.height as i64 && 0 <= cc && cc
                    < self.width as i64 {
                    let row: u32 = rr as u32;
                    let col: u32 = cc as u32;
                    self.set_cell(row, col, paint.hue, paint.saturation, paint.luminance, paint.alpha);
                }
                proof {
                    let w = old_u.width as int;
                    let cxi = cx as int;
                    let cyi = cy as int;
                    assert forall|r: int, c: int|
                        0 <= r < old_u.height && 0 <= c < old_u.width implies
                        #[trigger] disk_cell_done(
                        old_u,
                        self.cells@,
                        self.draw_buffer@,
                        cxi,
                        cyi,
                        radius as int,
                        paint,
                        dy as int,
                        dx as int + 1,
                        r,
                        c,
                    ) by {
                        lemma_grid_bounds(w, old_u.height as int, r, c);
                        assert(disk_cell_done(
                            old_u,
                            prev_cells,
                            prev_draw,
                            cxi,
                            cyi,
                            radius as int,
                            paint,
                            dy as int,
                            dx as int,
                            r,
                            c,
                        ));
                        if r - cyi == dy as int && c - cxi == dx as int {
                            assert(in_disk(cxi, cyi, radius as int, r, c) == inside);
                        } else {
                            if inside && 0 <= cyi + dy && cyi + dy < old_u.height as int && 0 <= cxi
                                + dx && cxi + dx < old_u.width as int {
                                lemma_grid_bounds(w, old_u.height as int, cyi + dy, cxi + dx);
                                if r * w + c == (cyi + dy) * w + (cxi + dx) {
                                    lemma_position_unique(w, r, c, cyi + dy, cxi + dx);
                                }
                            }
                            assert(cell_at(self.cells@, w, r, c) == cell_at(prev_cells, w, r, c));
                            assert(flag_at(self.draw_buffer@, w, r, c) == flag_at(
                                prev_draw,
                                w,
                                r,
                                c,
                            ));
                        }
                    }
                }
                dx = dx + 1;
            }
            proof {
                assert forall|r: int, c: int|
                    0 <= r < old_u.height && 0 <= c < old_u.width implies #[trigger] disk_cell_done(
                    old_u,
                    self.cells@,
                    self.draw_buffer@,
                    cx as int,
                    cy as int,
                    radius as int,
                    paint,
                    dy as int + 1,
                    -(radius as int),
                    r,
                    c,
                ) by {
                    assert(disk_cell_done(
                        old_u,
                        self.cells@,
                        self.draw_buffer@,
                        cx as int,
                        cy as int,
                        radius as int,
                        paint,
                        dy as int,
                        rad as int + 1,
                        r,
                        c,
                    ));
                    let dyr = r - cy as int;
                    let dxr = c - cx as int;
                    if dyr == dy as int && dxr >= rad as int + 1 {
                        assert(!in_disk(cx as int, cy as int, radius as int, r, c))
                            by (nonlinear_arith)
                            requires
                                dxr == c - cx as int,
                                dyr == r - cy as int,
                                dxr >= radius as int + 1,
                                radius as int >= 0,
                        ;
                    }
                    if dyr == dy as int + 1 && dxr < -(radius as int) {
                        assert(!in_disk(cx as int, cy as int, radius as int, r, c))
                            by (nonlinear_arith)
                            requires
                                dxr == c - cx as int,
                                dxr < -(radius as int),
                                radius as int >= 0,
                        ;
                    }
                }
            }
            dy = dy + 1;
        }
        proof {
            assert forall|r: int, c: int|
                0 <= r < old_u.height && 0 <= c < old_u.width implies #[trigger] disk_cell_done(
                old_u,
                self.cells@,
                self.draw_buffer@,
                cx as int,
                cy as int,
                radius as int,
                paint,
                radius as int + 1,
                -(radius as int),
                r,
                c,
            ) by {
                assert(disk_cell_done(
                    old_u,
                    self.cells@,
                    self.draw_buffer@,
                    cx as int,
                    cy as int,
                    radius as int,
                    paint,
                    rad as int + 1,
                    -(radius as int),
                    r,
                    c,
                ));
            }
        }
    }

    /// Stamps one disk per interpolation step along the Catmull-Rom window
    /// `(p0, p1, p2, p3)`: 257 overlapping disks approximating the smooth
    /// stroke through the four samples.
    fn draw_spline_segment(
        &mut self,
        p0: (u32, u32),
        p1: (u32, u32),
        p2: (u32, u32),
        p3: (u32, u32),
        radius: u32,
        paint: Individual,
    )
        requires
            old(self).wf(),
        ensures
            final(self).wf(),
            *final(self) == (Universe {
                cells: final(self).cells,
                draw_buffer: final(self).draw_buffer,
                ..*old(self)
            }),
            final(self).cells@.len() == old(self).cells@.len(),
            final(self).draw_buffer@.len() == old(self).draw_buffer@.len(),
            seg_prefix(
                *old(self),
                final(self).cells@,
                final(self).draw_buffer@,
                p0,
                p1,
                p2,
                p3,
                radius as int,
                paint,
                257,
            ),
    {
        let ghost old_u = *self;
        let mut i: u32 = 0;
        while i <= 256
            invariant
                i <= 257,
                old_u.wf(),
                self.wf(),
                self.width == old_u.width,
                self.height == old_u.height,
                self.next == old_u.next,
                self.params == old_u.params,
                self.stats == old_u.stats,
                self.brush_state == old_u.brush_state,
                self.cells@.len() == old_u.cells@.len(),
                self.draw_buffer@.len() == old_u.draw_buffer@.len(),
                seg_prefix(
                    old_u,
                    self.cells@,
                    self.draw_buffer@,
                    p0,
                    p1,
                    p2,
                    p3,
                    radius as int,
                    paint,
                    i as int,
                ),
            decreases 257 - i,
        {
            let ghost mid_u = *self;
            let bx: u32 = blend_coord(p0.0, p1.0, p2.0, p3.0, i);
            let by: u32 = blend_coord(p0.1, p1.1, p2.1, p3.1, i);
            self.stamp_disk(bx, by, radius, paint);
            proof {
                let w = old_u.width as int;
                assert forall|r: int, c: int|
                    0 <= r < old_u.height && 0 <= c < old_u.width implies #[trigger] seg_cell_done(
                    old_u,
                    self.cells@,
                    self.draw_buffer@,
                    p0,
                    p1,
                    p2,
                    p3,
                    radius as int,
                    paint,
                    i as int + 1,
                    r,
                    c,
                ) by {
                    assert(seg_cell_done(
                        old_u,
                        mid_u.cells@,
                        mid_u.draw_buffer@,
                        p0,
                        p1,
                        p2,
                        p3,
                        radius as int,
                        paint,
                        i as int,
                        r,
                        c,
                    ));
                    assert(disk_cell_done(
                        mid_u,
                        self.cells@,
                        self.draw_buffer@,
                        bx as int,
                        by as int,
                        radius as int,
                        paint,
                        radius as int + 1,
                        -(radius as int),
                        r,
                        c,
                    ));
                    if in_disk(bx as int, by as int, radius as int, r, c) {
                        // The current disk reaches the cell: it is painted
                        // now, and step i witnesses the coverage.
                        assert(r - (by as int) < (radius as int) + 1 && -(radius as int) <= c - (bx
                            as int)) by (nonlinear_arith)
                            requires
                                (r - by as int) * (r - by as int) + (c - bx as int) * (c - bx
                                    as int) <= (radius as int) * (radius as int),
                                radius as int >= 0,
                        ;
                        assert(in_disk(
                            spec_blend(p0.0, p1.0, p2.0, p3.0, i as int),
                            spec_blend(p0.1, p1.1, p2.1, p3.1, i as int),
                            radius as int,
                            r,
                            c,
                        ));
                        assert(seg_covers(p0, p1, p2, p3, radius as int, i as int + 1, r, c));
                    } else {
                        // The current disk misses the cell: any witness for
                        // coverage up to i + 1 already lay below i.
                        if seg_covers(p0, p1, p2, p3, radius as int, i as int + 1, r, c) {
                            let j = choose|j: int|
                                0 <= j < i as int + 1 && #[trigger] in_disk(
                                    spec_blend(p0.0, p1.0, p2.0, p3.0, j),
                                    spec_blend(p0.1, p1.1, p2.1, p3.1, j),
                                    radius as int,
                                    r,
                                    c,
                                );
                            assert(j < i as int);
                            assert(seg_covers(p0, p1, p2, p3, radius as int, i as int, r, c));
                        }
                    }
                }
            }
            i = i + 1;
        }
    }

    /// One brush sample: buffers the point under its stroke id, then paints
    /// either the Catmull-Rom spline through the recent samples (once four
    /// are buffered) or a single disk at the sample. In add mode the brush
    /// paints `(h, s, l)` with alpha 255, in erase mode black with alpha
    /// 255; painted cells are pinned.
    pub fn draw_brush(
        &mut self,
        cx: u32,
        cy: u32,
        radius: u32,
        add_mode: bool,
        h: u8,
        s: u8,
        l: u8,
        brush_id: u64,
    )
        requires
            old(self).wf(),
        ensures
            final(self).wf(),
            *final(self) == (Universe {
                cells: final(self).cells,
                draw_buffer: final(self).draw_buffer,
                brush_state: final(self).brush_state,
                ..*old(self)
            }),
            final(self).cells@.len() == old(self).cells@.len(),
            final(self).draw_buffer@.len() == old(self).draw_buffer@.len(),
            final(self).brush_state.last_id == Some(brush_id),
            final(self).brush_state.points@ == spec_new_points(
                old(self).brush_state,
                cx,
                cy,
                brush_id,
            ),
            brush_applied(
                *old(self),
                *final(self),
                spec_new_points(old(self).brush_state, cx, cy, brush_id),
                radius as int,
                spec_brush_paint(add_mode, h, s, l),
            ),
    {
        let ghost old_u = *self;
        let paint: Individual = if add_mode {
            Individual { hue: h, saturation: s, luminance: l, alpha: 255 }
        } else {
            Individual { hue: 0, saturation: 0, luminance: 0, alpha: 255 }
        };
        let same: bool = match self.brush_state.last_id {
            Some(id) => id == brush_id,
            None => false,
        };
        if same {
            self.brush_state.points.push((cx, cy));
            if self.brush_state.points.len() > 6 {
                self.brush_state.points.remove(0);
            }
        } else {
            self.brush_state.points.clear();
            self.brush_state.points.push((cx, cy));
            self.brush_state.last_id = Some(brush_id);
        }
        proof {
            assert(self.brush_state.points@ =~= spec_new_points(
                old_u.brush_state,
                cx,
                cy,
                brush_id,
            ));
        }
        let ghost pts_g = self.brush_state.points@;
        let ghost st_u = *self;
        if self.brush_state.points.len() >= 4 {
            let pts = copy_points(&self.brush_state.points);
            let plen: usize = pts.len();
            let end: usize = plen - 3;
            proof {
                assert forall|r: int, c: int|
                    0 <= r < old_u.height && 0 <= c < old_u.width implies
                    #[trigger] windows_cell_done(
                    old_u,
                    self.cells@,
                    self.draw_buffer@,
                    pts_g,
                    radius as int,
                    paint,
                    0,
                    r,
                    c,
                ) by {
                    assert(!windows_cover(pts_g, radius as int, 0, r, c));
                }
            }
            let mut wi: usize = 0;
            while wi < end
                invariant
                    wi <= end,
                    plen == pts@.len(),
                    end == plen - 3,
                    pts@.len() >= 4,
                    pts@ == pts_g,
                    old_u.wf(),
                    self.wf(),
                    self.width == old_u.width,
                    self.height == old_u.height,
                    self.next == old_u.next,
                    self.params == old_u.params,
                    self.stats == old_u.stats,
                    self.brush_state == st_u.brush_state,
                    self.brush_state.points@ == pts_g,
                    self.cells@.len() == old_u.cells@.len(),
                    self.draw_buffer@.len() == old_u.draw_buffer@.len(),
                    forall|r: int, c: int|
                        0 <= r < old_u.height && 0 <= c < old_u.width ==> #[trigger] windows_cell_done(
                            old_u,
                            self.cells@,
                            self.draw_buffer@,
                            pts_g,
                            radius as int,
                            paint,
                            wi as int,
                            r,
                            c,
                        ),
                decreases end - wi,
            {
                let ghost mid_u = *self;
                let q0 = pts[wi];
                let q1 = pts[wi + 1];
                let q2 = pts[wi + 2];
                let q3 = pts[wi + 3];
                self.draw_spline_segment(q0, q1, q2, q3, radius, paint);
                proof {
                    assert forall|r: int, c: int|
                        0 <= r < old_u.height && 0 <= c < old_u.width implies
                        #[trigger] windows_cell_done(
                        old_u,
                        self.cells@,
                        self.draw_buffer@,
                        pts_g,
                        radius as int,
                        paint,
                        wi as int + 1,
                        r,
                        c,
                    ) by {
                        assert(windows_cell_done(
                            old_u,
                            mid_u.cells@,
                            mid_u.draw_buffer@,
                            pts_g,
                            radius as int,
                            paint,
                            wi as int,
                            r,
                            c,
                        ));
                        assert(seg_cell_done(
                            mid_u,
                            self.cells@,
                            self.draw_buffer@,
                            q0,
                            q1,
                            q2,
                            q3,
                            radius as int,
                            paint,
                            257,
                            r,
                            c,
                        ));
                        if seg_covers(q0, q1, q2, q3, radius as int, 257, r, c) {
                            assert(windows_cover(pts_g, radius as int, wi as int + 1, r, c));
                        } else {
                            if windows_cover(pts_g, radius as int, wi as int + 1, r, c) {
                                let j = choose|j: int|
                                    0 <= j < wi as int + 1 && #[trigger] seg_covers(
                                        pts_g[j],
                                        pts_g[j + 1],
                                        pts_g[j + 2],
                                        pts_g[j + 3],
                                        radius as int,
                                        257,
                                        r,
                                        c,
                                    );
                                assert(j < wi as int);
                                assert(windows_cover(pts_g, radius as int, wi as int, r, c));
                            }
                        }
                    }
                }
                wi = wi + 1;
            }
            proof {
                assert forall|r: int, c: int|
                    0 <= r < old_u.height && 0 <= c < old_u.width implies #[trigger] brush_cell_done(
                    old_u,
                    self.cells@,
                    self.draw_buffer@,
                    pts_g,
                    radius as int,
                    paint,
                    r,
                    c,
                ) by {
                    assert(windows_cell_done(
                        old_u,
                        self.cells@,
                        self.draw_buffer@,
                        pts_g,
                        radius as int,
                        paint,
                        end as int,
                        r,
                        c,
                    ));
                    assert(brush_covers(pts_g, radius as int, r, c) == windows_cover(
                        pts_g,
                        radius as int,
                        end as int,
                        r,
                        c,
                    ));
                }
            }
        } else {
            let ghost mid_u = *self;
            self.stamp_disk(cx, cy, radius, paint);
            proof {
                let w = old_u.width as int;
                assert forall|r: int, c: int|
                    0 <= r < old_u.height && 0 <= c < old_u.width implies #[trigger] brush_cell_done(
                    old_u,
                    self.cells@,
                    self.draw_buffer@,
                    pts_g,
                    radius as int,
                    paint,
                    r,
                    c,
                ) by {
                    assert(disk_cell_done(
                        mid_u,
                        self.cells@,
                        self.draw_buffer@,
                        cx as int,
                        cy as int,
                        radius as int,
                        paint,
                        radius as int + 1,
                        -(radius as int),
                        r,
                        c,
                    ));
                    assert(pts_g[pts_g.len() - 1] == (cx, cy));
                    if in_disk(cx as int, cy as int, radius as int, r, c) {
                        assert(r - (cy as int) < (radius as int) + 1 && -(radius as int) <= c - (cx
                            as int)) by (nonlinear_arith)
                            requires
                                (r - cy as int) * (r - cy as int) + (c - cx as int) * (c - cx
                                    as int) <= (radius as int) * (radius as int),
                                radius as int >= 0,
                        ;
                    }
                }
            }
        }
    }
}

} // verus!

use rca::hsl::hsl_from_rgb;
use rca::{median_from_histogram, Universe};

#[test]
fn test_median_from_histogram() {
    let mut hist = [0usize; 256];
    hist[100] = 50;
    hist[150] = 50;

    let median = median_from_histogram(&hist, 100);
    assert_eq!(median, 100);

    // Test with odd total
    hist[200] = 1;
    let median = median_from_histogram(&hist, 101);
    assert_eq!(median, 100);

    // Test empty histogram
    let empty_hist = [0usize; 256];
    let median = median_from_histogram(&empty_hist, 0);
    assert_eq!(median, 0);
}

#[test]
fn test_life_channel_variants() {
    // Test all LifeChannel variants
    let individual = rca::Individual { hue: 10, saturation: 20, luminance: 30, alpha: 40 };

    assert_eq!(individual.activity_value(rca::LifeChannel::Hue), 10);
    assert_eq!(individual.activity_value(rca::LifeChannel::Saturation), 20);
    assert_eq!(individual.activity_value(rca::LifeChannel::Luminance), 30);
    assert_eq!(individual.activity_value(rca::LifeChannel::Alpha), 40);
}

#[test]
fn hsl_from_rgb_primaries() {
    // Black
    assert_eq!(hsl_from_rgb(0, 0, 0), (0, 0, 0));
    // White
    assert_eq!(hsl_from_rgb(255, 255, 255), (0, 0, 255));
    // Red: hue 0, full saturation, mid lightness
    assert_eq!(hsl_from_rgb(255, 0, 0), (0, 255, 128));
    // Green: a third of a turn
    assert_eq!(hsl_from_rgb(0, 255, 0), (85, 255, 128));
    // Blue: two thirds of a turn
    assert_eq!(hsl_from_rgb(0, 0, 255), (170, 255, 128));
}

#[test]
fn hsl_from_rgb_secondaries_and_gray() {
    // Gray: no saturation, no hue
    assert_eq!(hsl_from_rgb(128, 128, 128), (0, 0, 128));
    // Cyan: half a turn
    assert_eq!(hsl_from_rgb(0, 255, 255), (128, 255, 128));
    // Magenta: five sixths of a turn
    assert_eq!(hsl_from_rgb(255, 0, 255), (213, 255, 128));
    // Yellow: one sixth of a turn
    assert_eq!(hsl_from_rgb(255, 255, 0), (43, 255, 128));
}

#[test]
fn test_universe_draw_stamp_at() {
    let mut universe = Universe::new(10, 10);

    // Create a simple 2x2 stamp with RGBA data
    let stamp_data = vec![
        255, 0, 0, 255, // Red pixel
        0, 255, 0, 255, // Green pixel
        0, 0, 255, 255, // Blue pixel
        255, 255, 0, 255, // Yellow pixel
    ];

    universe.draw_stamp_at(5, 5, 2, 2, &stamp_data);

    // Check that cells were modified
    let cells = universe.cells();
    let mut modified_count = 0;
    for cell in cells {
        if cell.hue != 0 || cell.saturation != 0 || cell.luminance != 0 || cell.alpha != 0 {
            modified_count += 1;
        }
    }
    assert!(modified_count > 0, "Stamp should modify some cells");
}

#[test]
fn test_universe_draw_stamp_at_edge_cases() {
    let mut universe = Universe::new(5, 5);

    // Test with transparent pixels (alpha = 0)
    let transparent_data = vec![
        255, 0, 0, 0, // Transparent red - should be skipped
        0, 255, 0, 255, // Opaque green
    ];

    universe.draw_stamp_at(2, 2, 2, 1, &transparent_data);

    // Test drawing outside bounds
    let small_data = vec![255, 0, 0, 255];
    universe.draw_stamp_at(10, 10, 1, 1, &small_data); // Outside bounds

    // Should not crash
    assert!(true);
}

#[test]
fn opaque_stamp_writes_converted_hsl() {
    let mut universe = Universe::new(5, 5);
    // One opaque red pixel, centered at (2, 2): lands on row 2, column 2.
    let data = vec![255, 0, 0, 255];
    universe.draw_stamp_at(2, 2, 1, 1, &data);

    let idx = universe.index(2, 2);
    let cell = universe.cells()[idx];
    assert_eq!((cell.hue, cell.saturation, cell.luminance, cell.alpha), (0, 255, 128, 255));
    assert!(universe.draw_buffer[idx], "painted cells are pinned");

    // Everything else untouched
    for r in 0..5u32 {
        for c in 0..5u32 {
            if (r, c) != (2, 2) {
                assert_eq!(universe.cells()[universe.index(r, c)].alpha, 0);
            }
        }
    }
}

#[test]
fn translucent_stamp_blends_toward_the_target() {
    let mut universe = Universe::new(5, 5);
    // Half-transparent red over a black cell.
    let data = vec![255, 0, 0, 128];
    universe.draw_stamp_at(2, 2, 1, 1, &data);

    let cell = universe.cells()[universe.index(2, 2)];
    // hue: lerp(0, 0, 128/255) = 0; saturation: lerp(0, 255, 128/255) = 128;
    // lightness: lerp(0, 128, 128/255) = 64; alpha forced to 255.
    assert_eq!((cell.hue, cell.saturation, cell.luminance, cell.alpha), (0, 128, 64, 255));
}

#[test]
fn transparent_pixels_leave_cells_alone() {
    let mut universe = Universe::new(3, 3);
    universe.set_grid(11, 22, 33, 44);
    let data = vec![255, 255, 255, 0];
    universe.draw_stamp_at(1, 1, 1, 1, &data);
    for i in 0..9 {
        assert_eq!(universe.cells()[i].hue, 11);
        assert_eq!(universe.cells()[i].alpha, 44);
        assert!(!universe.draw_buffer[i]);
    }
}

#[test]
fn test_universe_draw_brush() {
    let mut universe = Universe::new(10, 10);

    // Test add mode
    universe.draw_brush(5, 5, 2, true, 100, 150, 200, 1);

    // Check that cells were modified
    let cells = universe.cells();
    let mut modified_count = 0;
    for cell in cells {
        if cell.alpha > 0 {
            modified_count += 1;
        }
    }
    assert!(modified_count > 0, "Brush should modify some cells");

    // Test remove mode
    universe.draw_brush(5, 5, 2, false, 100, 150, 200, 2);

    // Test with multiple points to trigger spline drawing
    universe.draw_brush(3, 3, 1, true, 50, 75, 100, 3);
    universe.draw_brush(4, 4, 1, true, 50, 75, 100, 3);
    universe.draw_brush(5, 5, 1, true, 50, 75, 100, 3);
    universe.draw_brush(6, 6, 1, true, 50, 75, 100, 3);
    universe.draw_brush(7, 7, 1, true, 50, 75, 100, 3); // Should trigger spline

    // Should not crash
    assert!(true);
}

#[test]
fn single_dab_paints_exactly_one_disk() {
    let mut universe = Universe::new(11, 11);
    universe.draw_brush(5, 5, 2, true, 100, 150, 200, 7);

    for r in 0..11i64 {
        for c in 0..11i64 {
            let idx = universe.index(r as u32, c as u32);
            let cell = universe.cells()[idx];
            let inside = (r - 5) * (r - 5) + (c - 5) * (c - 5) <= 4;
            if inside {
                assert_eq!(
                    (cell.hue, cell.saturation, cell.luminance, cell.alpha),
                    (100, 150, 200, 255)
                );
                assert!(universe.draw_buffer[idx]);
            } else {
                assert_eq!(cell.alpha, 0);
                assert!(!universe.draw_buffer[idx]);
            }
        }
    }
}

#[test]
fn erase_mode_paints_black() {
    let mut universe = Universe::new(7, 7);
    universe.set_grid(100, 100, 100, 100);
    universe.draw_brush(3, 3, 1, false, 9, 9, 9, 1);
    let center = universe.cells()[universe.index(3, 3)];
    assert_eq!((center.hue, center.saturation, center.luminance, center.alpha), (0, 0, 0, 255));
}

#[test]
fn brush_history_is_bounded_and_keyed_by_id() {
    let mut universe = Universe::new(20, 20);
    for i in 0..9u32 {
        universe.draw_brush(5 + i, 5, 1, true, 1, 2, 3, 42);
    }
    // At most 6 points are kept, the most recent ones.
    assert_eq!(universe.brush_state.last_id, Some(42));
    assert_eq!(universe.brush_state.points.len(), 6);
    assert_eq!(*universe.brush_state.points.last().unwrap(), (13, 5));
    assert_eq!(universe.brush_state.points[0], (8, 5));

    // A new id restarts the stroke.
    universe.draw_brush(1, 1, 1, true, 1, 2, 3, 43);
    assert_eq!(universe.brush_state.last_id, Some(43));
    assert_eq!(universe.brush_state.points.len(), 1);
    assert_eq!(universe.brush_state.points[0], (1, 1));
}

#[test]
fn spline_stroke_connects_the_samples() {
    let mut universe = Universe::new(30, 30);
    // Four samples along a horizontal line with the same stroke id.
    universe.draw_brush(5, 10, 1, true, 10, 20, 30, 9);
    universe.draw_brush(10, 10, 1, true, 10, 20, 30, 9);
    universe.draw_brush(15, 10, 1, true, 10, 20, 30, 9);
    universe.draw_brush(20, 10, 1, true, 10, 20, 30, 9);

    // The Catmull-Rom window through the middle samples passes through
    // them: the second and third samples lie on the stroke.
    assert_eq!(universe.cells()[universe.index(10, 10)].alpha, 255);
    assert_eq!(universe.cells()[universe.index(10, 15)].alpha, 255);
    // Cells between the middle samples are covered by interpolation.
    assert_eq!(universe.cells()[universe.index(10, 12)].alpha, 255);
}

#[test]
fn test_universe_randomize() {
    let mut universe = Universe::new(10, 10);

    // Initially all cells should be default (zeros)
    for cell in universe.cells() {
        assert_eq!(cell.hue, 0);
        assert_eq!(cell.saturation, 0);
        assert_eq!(cell.luminance, 0);
        assert_eq!(cell.alpha, 0);
    }

    // After randomize, some cells should be non-zero
    universe.randomize();

    let mut has_non_zero = false;
    for cell in universe.cells() {
        if cell.hue != 0 || cell.saturation != 0 || cell.luminance != 0 || cell.alpha != 0 {
            has_non_zero = true;
            break;
        }
    }
    assert!(has_non_zero, "Randomize should create some non-zero cells");
}

#[test]
fn randomize_only_makes_bright_or_empty_cells() {
    let mut universe = Universe::new(16, 16);
    universe.randomize();
    for cell in universe.cells() {
        let empty = cell.hue == 0 && cell.saturation == 0 && cell.luminance == 0 && cell.alpha == 0;
        let bright = cell.alpha == 255 && cell.saturation >= 100 && cell.luminance >= 100;
        assert!(empty || bright);
    }
}

#[test]
fn test_universe_stats_getters() {
    let mut universe = Universe::new(5, 5);
    universe.set_cell(2, 2, 100, 150, 200, 255);
    universe.tick();

    let stats = universe.stats();

    // Test the getter methods
    assert!(stats.sum_hue >= 0);
    assert!(stats.median_hue() as u32 <= 255);
    assert!(stats.median_saturation() as u32 <= 255);
    assert!(stats.median_luminance() as u32 <= 255);
    assert!(stats.median_alpha() as u32 <= 255);
    assert!(stats.alive_count() + stats.dead_count() == 25); // 5x5 grid
    assert!(stats.alive_count() <= 25);
}

#[test]
fn median_picks_the_halfway_bucket() {
    // Three live cells among 25: the alpha histogram has 22 cells at 0, so
    // the median alpha is 0; the median of an all-equal channel is that
    // value.
    let mut universe = Universe::new(5, 5);
    universe.set_params(1 << 9 | 1 << 10, 1, 0, 1000, 600, 950, 950, 900, 0, 100, rca::LifeChannel::Alpha);
    universe.set_grid(40, 0, 0, 0);
    universe.tick();
    let stats = universe.stats();
    assert_eq!(stats.median_hue(), 40);
    assert_eq!(stats.median_alpha(), 0);
}

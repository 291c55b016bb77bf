use rca::{LifeChannel, Universe};

// Builds a snapshot byte buffer (4 bytes per cell) for a w x h grid with the
// given cells set to (hue, sat, lum, alpha) and all others zero.
fn state_with_cells(w: u32, h: u32, live: &[(u32, u32)], hsla: (u8, u8, u8, u8)) -> Vec<u8> {
    let mut bytes = vec![0u8; (w * h * 4) as usize];
    for &(r, c) in live {
        let i = ((r * w + c) * 4) as usize;
        bytes[i] = hsla.0;
        bytes[i + 1] = hsla.1;
        bytes[i + 2] = hsla.2;
        bytes[i + 3] = hsla.3;
    }
    bytes
}

#[test]
fn test_universe_tick_basic() {
    // Conway's Game of Life with the classic B3/S23 mask.
    let mut universe = Universe::new(10, 10);
    universe.set_params(0x0408, 1, 60, 800, 600, 950, 950, 900, 10, 100, LifeChannel::Alpha);

    // Create a blinker pattern (horizontal line)
    universe.set_cell(4, 3, 100, 200, 200, 255);
    universe.set_cell(4, 4, 100, 200, 200, 255);
    universe.set_cell(4, 5, 100, 200, 200, 255);

    // First tick - should become vertical
    universe.tick();

    // Check if the pattern evolved correctly
    let cells = universe.cells();
    println!("After first tick:");
    for row in 3..6 {
        let mut line = String::new();
        for col in 3..6 {
            let idx = universe.index(row, col);
            line.push(if cells[idx].alpha > 0 { 'X' } else { '.' });
        }
        println!("{}", line);
    }

    // In Conway's Game of Life, a blinker should oscillate
    // The middle cell should survive, and cells above/below should be born
    assert_eq!(cells[universe.index(3, 4)].alpha, 255, "Cell (3,4) should be alive");
    assert_eq!(cells[universe.index(4, 4)].alpha, 255, "Cell (4,4) should be alive");
    assert_eq!(cells[universe.index(5, 4)].alpha, 255, "Cell (5,4) should be alive");
}

#[test]
fn test_universe_tick_empty() {
    // Empty universe should not crash
    let mut universe = Universe::new(0, 0);
    universe.tick();

    // Empty but initialized universe should not crash
    let mut universe = Universe::new(10, 10);
    universe.tick();
}

#[test]
fn test_universe_tick_stats() {
    let mut universe = Universe::new(10, 10);
    universe.set_params(0x0408, 1, 60, 800, 600, 950, 950, 900, 10, 100, LifeChannel::Alpha);

    // Create a blinker pattern
    universe.set_cell(4, 3, 100, 200, 200, 255);
    universe.set_cell(4, 4, 100, 200, 200, 255);
    universe.set_cell(4, 5, 100, 200, 200, 255);

    // Check stats before tick
    let stats_before = universe.stats();
    println!("Before tick - alive_count: {}", stats_before.alive_count());

    universe.tick();

    // Check that stats are updated
    let stats = universe.stats();
    println!("After tick - alive_count: {}, sum_alpha: {}", stats.alive_count(), stats.sum_alpha);

    // Count living cells manually
    let mut manual_count = 0;
    for cell in universe.cells() {
        if cell.alpha > 0 {
            manual_count += 1;
        }
    }
    println!("Manual count of living cells: {}", manual_count);

    assert!(stats.alive_count() > 0, "Should have living cells after tick");
    assert_eq!(stats.alive_count(), manual_count, "Stats must count the live cells exactly");
    assert!(stats.sum_alpha > 0, "Alpha sum should be > 0");
    assert!(stats.alive_count() <= 100, "Population can never exceed the cell count");
}

#[test]
fn test_universe_tick_different_life_channels() {
    // Test with Hue as life channel
    let mut universe = Universe::new(5, 5);
    universe.set_params(0x0408, 1, 60, 800, 600, 950, 950, 900, 10, 100, LifeChannel::Hue);

    universe.set_cell(2, 2, 255, 100, 100, 100); // High hue value
    universe.tick();

    // Test with Saturation as life channel
    universe.set_params(0x0408, 1, 60, 800, 600, 950, 950, 900, 10, 100, LifeChannel::Saturation);

    universe.set_cell(2, 2, 100, 255, 100, 100); // High saturation value
    universe.tick();

    // Test with Luminance as life channel
    universe.set_params(0x0408, 1, 60, 800, 600, 950, 950, 900, 10, 100, LifeChannel::Luminance);

    universe.set_cell(2, 2, 100, 100, 255, 100); // High luminance value
    universe.tick();

    // Should not crash and should process correctly
    assert!(true);
}

#[test]
fn test_universe_tick_complex_patterns() {
    let mut universe = Universe::new(10, 10);
    universe.set_params(0x0408, 1, 60, 800, 600, 950, 950, 900, 10, 100, LifeChannel::Alpha);

    // Create a simple stable pattern (block)
    universe.set_cell(4, 4, 100, 200, 200, 255);
    universe.set_cell(4, 5, 100, 200, 200, 255);
    universe.set_cell(5, 4, 100, 200, 200, 255);
    universe.set_cell(5, 5, 100, 200, 200, 255);

    // Run several generations
    for _ in 0..4 {
        universe.tick();
    }

    // Block should remain stable with 4 cells
    let stats = universe.stats();
    assert_eq!(stats.alive_count(), 4, "Block should maintain 4 cells");
}

#[test]
fn test_universe_tick_decay_parameters() {
    let mut universe = Universe::new(5, 5);
    universe.set_params(
        0, // No birth or survival rules - everything dies
        10,
        30,
        500,
        800,
        700,
        600,
        400,
        20,
        300,
        LifeChannel::Alpha,
    );

    // Create a cell with high values
    universe.set_cell(2, 2, 200, 200, 200, 200);

    let before_alpha = universe.cells()[universe.index(2, 2)].alpha;
    universe.tick();
    let after_alpha = universe.cells()[universe.index(2, 2)].alpha;

    // With no survival rules, the cell should either die or decay
    assert!(after_alpha <= before_alpha, "Cell should not increase when no survival rule applies");

    // Test that the tick function runs without crashing
    universe.tick();
    assert!(true, "Tick should complete without crashing");
}

#[test]
fn blinker_oscillates_without_pinning() {
    // A 3-cell horizontal blinker loaded directly into the cell buffer (no
    // pins) becomes a 3-cell vertical blinker after one tick, centered on
    // the same column. The luminance and alpha decay factors are set high
    // enough (95.0) that a dying cell's alpha and luminance reach 0 in one
    // tick; with gentler factors dying cells fade gradually and stay
    // nominally alive for many generations. The mask 0x1808 sets B3, S2 and
    // S3: Conway's rule in this encoding.
    let mut universe = Universe::new(10, 10);
    universe.set_params(0x1808, 1, 60, 800, 600, 95000, 95000, 900, 10, 100, LifeChannel::Alpha);
    let state = state_with_cells(10, 10, &[(4, 3), (4, 4), (4, 5)], (100, 200, 200, 255));
    assert!(universe.load_state(&state));

    universe.tick();

    for r in 0..10u32 {
        for c in 0..10u32 {
            let alive = universe.cells()[universe.index(r, c)].alpha > 0;
            let expected = c == 4 && (r == 3 || r == 4 || r == 5);
            assert_eq!(alive, expected, "wrong liveness at ({}, {})", r, c);
        }
    }
    assert_eq!(universe.stats().alive_count(), 3);

    // A second tick brings the horizontal blinker back.
    universe.tick();
    for r in 0..10u32 {
        for c in 0..10u32 {
            let alive = universe.cells()[universe.index(r, c)].alpha > 0;
            let expected = r == 4 && (c == 3 || c == 4 || c == 5);
            assert_eq!(alive, expected, "wrong liveness at ({}, {})", r, c);
        }
    }
}

#[test]
fn block_is_a_still_life() {
    // A 2x2 block keeps exactly 4 live cells over many generations: each of
    // its cells has three live neighbors, and S3 (bit 12 of mask 0x1808)
    // keeps it alive.
    let mut universe = Universe::new(8, 8);
    universe.set_params(0x1808, 1, 60, 800, 600, 95000, 95000, 900, 10, 100, LifeChannel::Alpha);
    let state = state_with_cells(8, 8, &[(3, 3), (3, 4), (4, 3), (4, 4)], (10, 150, 150, 255));
    assert!(universe.load_state(&state));

    for _ in 0..10 {
        universe.tick();
        assert_eq!(universe.stats().alive_count(), 4);
        for &(r, c) in &[(3u32, 3u32), (3, 4), (4, 3), (4, 4)] {
            assert!(universe.cells()[universe.index(r, c)].alpha > 0);
        }
    }
}

#[test]
fn population_counts_partition_the_grid() {
    // After any tick, alive and dead cells partition the grid.
    let mut universe = Universe::new(12, 7);
    universe.randomize();
    for _ in 0..3 {
        universe.tick();
        let stats = universe.stats();
        assert_eq!(stats.alive_count() + stats.dead_count(), 12 * 7);
        assert!(stats.alive_count() <= 12 * 7);
    }
}

#[test]
fn death_decay_follows_the_fixed_point_formula() {
    // A lone live cell with no survival rule decays: each channel loses
    // decay_step * e * factor, truncated, with the luminance term reading
    // the previous saturation.
    let mut universe = Universe::new(5, 5);
    universe.set_params(0, 1, 60, 800, 600, 950, 950, 900, 10, 100, LifeChannel::Alpha);
    let state = state_with_cells(5, 5, &[(2, 2)], (100, 200, 150, 200));
    assert!(universe.load_state(&state));

    universe.tick();

    let cell = universe.cells()[universe.index(2, 2)];
    // saturation: 200 - 1 * e * 0.6 = 198.369... -> 198
    assert_eq!(cell.saturation, 198);
    // luminance reads the previous saturation: 200 - 1 * e * 0.95 = 197.417... -> 197
    assert_eq!(cell.luminance, 197);
    // alpha: 200 - 1 * e * 0.95 -> 197
    assert_eq!(cell.alpha, 197);
    // hue is untouched by death
    assert_eq!(cell.hue, 100);
}

#[test]
fn ghost_fade_follows_the_fixed_point_formula() {
    // A dead cell fades multiplicatively; its new alpha reads the previous
    // luminance.
    let mut universe = Universe::new(5, 5);
    universe.set_params(0, 1, 60, 800, 600, 950, 950, 900, 10, 100, LifeChannel::Alpha);
    let state = state_with_cells(5, 5, &[(2, 2)], (30, 100, 50, 0));
    assert!(universe.load_state(&state));

    universe.tick();

    let cell = universe.cells()[universe.index(2, 2)];
    // saturation: 100 * 0.9 = 90
    assert_eq!(cell.saturation, 90);
    // luminance: 50 * 0.95 = 47.5 -> 47
    assert_eq!(cell.luminance, 47);
    // alpha reads the previous luminance: 50 * 0.95 -> 47
    assert_eq!(cell.alpha, 47);
    assert_eq!(cell.hue, 30);
}

#[test]
fn survival_recovers_saturation() {
    // A lone live cell under a rule whose S0 bit is set survives and gains
    // recovery_step * factor saturation, clamped to 255.
    let mut universe = Universe::new(5, 5);
    universe.set_params(1 << 9, 1, 60, 800, 600, 950, 950, 900, 10, 100, LifeChannel::Alpha);
    let state = state_with_cells(5, 5, &[(2, 2)], (77, 200, 130, 255));
    assert!(universe.load_state(&state));

    universe.tick();

    let cell = universe.cells()[universe.index(2, 2)];
    // saturation: 200 + 60 * 0.8 = 248
    assert_eq!(cell.saturation, 248);
    assert_eq!(cell.luminance, 130);
    assert_eq!(cell.alpha, 255);
    assert_eq!(cell.hue, 77);

    universe.tick();
    // 248 + 48 clamps at 255.
    assert_eq!(universe.cells()[universe.index(2, 2)].saturation, 255);
}

#[test]
fn birth_averages_the_live_neighbors() {
    // A dead cell with exactly three live neighbors under B3 is born: its
    // saturation is the rounded mean of theirs, its luminance that mean
    // plus one, its alpha 255.
    let mut universe = Universe::new(10, 10);
    universe.set_params(0x0408, 1, 60, 800, 600, 950, 950, 900, 10, 100, LifeChannel::Alpha);
    let state = state_with_cells(10, 10, &[(4, 3), (4, 4), (4, 5)], (100, 201, 160, 255));
    assert!(universe.load_state(&state));

    universe.tick();

    let born = universe.cells()[universe.index(3, 4)];
    assert_eq!(born.alpha, 255);
    // saturation: mean of 201, 201, 201 = 201
    assert_eq!(born.saturation, 201);
    // luminance: mean 160 + 1
    assert_eq!(born.luminance, 161);
}

#[test]
fn pinned_cells_survive_one_tick_unchanged() {
    // set_cell pins its cell: the next tick carries it through even when
    // the rule would kill it, and clears the pin so the following tick
    // applies the rule again.
    let mut universe = Universe::new(5, 5);
    universe.set_params(0, 1, 60, 800, 600, 950, 950, 900, 10, 100, LifeChannel::Alpha);
    universe.set_cell(2, 2, 9, 8, 7, 6);

    universe.tick();
    let carried = universe.cells()[universe.index(2, 2)];
    assert_eq!((carried.hue, carried.saturation, carried.luminance, carried.alpha), (9, 8, 7, 6));
    assert!(!universe.draw_buffer[universe.index(2, 2)]);

    universe.tick();
    let decayed = universe.cells()[universe.index(2, 2)];
    assert!(decayed.alpha < 6);
}

#[test]
fn tick_swaps_the_generation_buffers() {
    let mut universe = Universe::new(4, 4);
    universe.set_grid(1, 2, 3, 4);
    let before = universe.cells.clone();
    universe.tick();
    // The scratch buffer now holds the previous generation.
    for i in 0..universe.next.len() {
        assert_eq!(universe.next[i], before[i]);
    }
}

#[test]
fn birth_hue_blends_equal_neighbor_hues() {
    // With hue drift switched off, a cell born among neighbors that all
    // share one hue takes (up to the fixed-point trigonometry) that hue:
    // the circular mean of equal angles is the angle, and blending it with
    // the strongest neighbor's identical hue changes nothing.
    let mut universe = Universe::new(10, 10);
    universe.set_params(0x1808, 1, 60, 800, 600, 95000, 95000, 900, 0, 100, LifeChannel::Alpha);
    let state = state_with_cells(10, 10, &[(4, 3), (4, 4), (4, 5)], (85, 201, 160, 255));
    assert!(universe.load_state(&state));

    universe.tick();

    let born = universe.cells()[universe.index(3, 4)];
    assert_eq!(born.alpha, 255);
    assert_eq!(born.hue, 85);
}

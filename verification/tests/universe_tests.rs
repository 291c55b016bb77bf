use rca::{Individual, LifeChannel, LifeParams, Universe};

#[test]
fn test_life_params_new() {
    let params = LifeParams::new(770, 1, 60, 800, 600, 950, 950, 900, 10, 100, LifeChannel::Alpha);

    assert_eq!(params.rule, 770);
    assert_eq!(params.decay_step, 1);
    assert_eq!(params.recovery_step, 60);
    assert_eq!(params.sat_recovery_factor, 800);
    assert_eq!(params.sat_decay_factor, 600);
    assert_eq!(params.lum_decay_factor, 950);
    assert_eq!(params.life_decay_factor, 950);
    assert_eq!(params.sat_ghost_factor, 900);
    assert_eq!(params.hue_drift_strength, 10);
    assert_eq!(params.hue_lerp_factor, 100);
    assert_eq!(params.life_channel, LifeChannel::Alpha);
}

#[test]
fn test_life_params_default() {
    let params = LifeParams::default();

    assert_eq!(params.rule, 770);
    assert_eq!(params.decay_step, 1);
    assert_eq!(params.recovery_step, 60);
    assert_eq!(params.sat_recovery_factor, 800);
    assert_eq!(params.sat_decay_factor, 600);
    assert_eq!(params.lum_decay_factor, 950);
    assert_eq!(params.life_decay_factor, 950);
    assert_eq!(params.sat_ghost_factor, 900);
    assert_eq!(params.hue_drift_strength, 10);
    assert_eq!(params.hue_lerp_factor, 100);
    assert_eq!(params.life_channel, LifeChannel::Alpha);
}

#[test]
fn test_individual_activity_value() {
    let ind = Individual { hue: 100, saturation: 150, luminance: 200, alpha: 250 };

    assert_eq!(ind.activity_value(LifeChannel::Hue), 100);
    assert_eq!(ind.activity_value(LifeChannel::Saturation), 150);
    assert_eq!(ind.activity_value(LifeChannel::Luminance), 200);
    assert_eq!(ind.activity_value(LifeChannel::Alpha), 250);
}

#[test]
fn test_universe_new() {
    let universe = Universe::new(10, 20);

    assert_eq!(universe.width(), 10);
    assert_eq!(universe.height(), 20);
    assert_eq!(universe.cells.len(), 200);
    assert_eq!(universe.next.len(), 200);
    assert_eq!(universe.draw_buffer.len(), 200);

    // Check default values
    assert_eq!(universe.params.rule, 770);
    assert_eq!(universe.stats.sum_hue, 0);
    assert_eq!(universe.stats.alive_count, 0);
}

#[test]
fn test_universe_with_params() {
    let params = LifeParams::new(123, 2, 30, 700, 500, 900, 900, 800, 20, 200, LifeChannel::Hue);
    let universe = Universe::with_params(10, 20, params);

    assert_eq!(universe.width(), 10);
    assert_eq!(universe.height(), 20);
    assert_eq!(universe.params.rule, 123);
    assert_eq!(universe.params.decay_step, 2);
    assert_eq!(universe.params.life_channel, LifeChannel::Hue);
}

#[test]
fn test_universe_set_params() {
    let mut universe = Universe::new(10, 20);
    universe.set_params(123, 2, 30, 700, 500, 900, 900, 800, 20, 200, LifeChannel::Hue);

    assert_eq!(universe.params.rule, 123);
    assert_eq!(universe.params.decay_step, 2);
    assert_eq!(universe.params.recovery_step, 30);
    assert_eq!(universe.params.sat_recovery_factor, 700);
    assert_eq!(universe.params.sat_decay_factor, 500);
    assert_eq!(universe.params.lum_decay_factor, 900);
    assert_eq!(universe.params.life_decay_factor, 900);
    assert_eq!(universe.params.sat_ghost_factor, 800);
    assert_eq!(universe.params.hue_drift_strength, 20);
    assert_eq!(universe.params.hue_lerp_factor, 200);
    assert_eq!(universe.params.life_channel, LifeChannel::Hue);
}

#[test]
fn test_universe_index() {
    let universe = Universe::new(10, 20);

    assert_eq!(universe.index(0, 0), 0);
    assert_eq!(universe.index(0, 5), 5);
    assert_eq!(universe.index(1, 0), 10);
    assert_eq!(universe.index(5, 5), 55);
}

#[test]
fn test_universe_get_neighbour_indices() {
    let universe = Universe::new(10, 20);
    let mut neighbors = [0; 8];

    // Test middle cell
    universe.get_neighbour_indices(5, 5, &mut neighbors);
    assert_eq!(neighbors[0], universe.index(4, 4)); // NW
    assert_eq!(neighbors[1], universe.index(4, 5)); // N
    assert_eq!(neighbors[2], universe.index(4, 6)); // NE
    assert_eq!(neighbors[3], universe.index(5, 4)); // W
    assert_eq!(neighbors[4], universe.index(5, 6)); // E
    assert_eq!(neighbors[5], universe.index(6, 4)); // SW
    assert_eq!(neighbors[6], universe.index(6, 5)); // S
    assert_eq!(neighbors[7], universe.index(6, 6)); // SE

    // Test edge wrapping
    universe.get_neighbour_indices(0, 0, &mut neighbors);
    assert_eq!(neighbors[0], universe.index(19, 9)); // NW wraps
    assert_eq!(neighbors[1], universe.index(19, 0)); // N wraps
    assert_eq!(neighbors[2], universe.index(19, 1)); // NE wraps
    assert_eq!(neighbors[3], universe.index(0, 9)); // W wraps
    assert_eq!(neighbors[4], universe.index(0, 1)); // E
    assert_eq!(neighbors[5], universe.index(1, 9)); // SW wraps
    assert_eq!(neighbors[6], universe.index(1, 0)); // S
    assert_eq!(neighbors[7], universe.index(1, 1)); // SE
}

#[test]
fn test_universe_set_grid() {
    let mut universe = Universe::new(10, 20);
    universe.set_grid(100, 150, 200, 250);

    for i in 0..(10 * 20) {
        assert_eq!(universe.cells[i].hue, 100);
        assert_eq!(universe.cells[i].saturation, 150);
        assert_eq!(universe.cells[i].luminance, 200);
        assert_eq!(universe.cells[i].alpha, 250);
    }
}

#[test]
fn test_universe_clear() {
    let mut universe = Universe::new(10, 20);
    universe.set_grid(100, 150, 200, 250);
    universe.clear();

    for i in 0..(10 * 20) {
        assert_eq!(universe.cells[i].hue, 0);
        assert_eq!(universe.cells[i].saturation, 0);
        assert_eq!(universe.cells[i].luminance, 0);
        assert_eq!(universe.cells[i].alpha, 0);
    }
}

#[test]
fn test_universe_set_cell() {
    let mut universe = Universe::new(10, 20);

    // Valid cell
    universe.set_cell(5, 5, 100, 150, 200, 250);
    let idx = universe.index(5, 5);
    assert_eq!(universe.cells[idx].hue, 100);
    assert_eq!(universe.cells[idx].saturation, 150);
    assert_eq!(universe.cells[idx].luminance, 200);
    assert_eq!(universe.cells[idx].alpha, 250);
    assert!(universe.draw_buffer[idx]);

    // Out of bounds - should not crash
    universe.set_cell(100, 100, 100, 150, 200, 250);

    // Empty universe - should not crash
    let mut empty_universe = Universe::new(0, 0);
    empty_universe.set_cell(0, 0, 100, 150, 200, 250);
}

#[test]
fn test_universe_toggle() {
    let mut universe = Universe::new(10, 20);

    // Start with 0
    let idx = universe.index(5, 5);
    assert_eq!(universe.cells[idx].luminance, 0);

    // Toggle to 255
    universe.toggle(5, 5);
    assert_eq!(universe.cells[idx].luminance, 255);

    // Toggle back to 0
    universe.toggle(5, 5);
    assert_eq!(universe.cells[idx].luminance, 0);
}

#[test]
fn test_universe_resize() {
    let mut universe = Universe::new(10, 20);
    universe.set_cell(5, 5, 100, 150, 200, 250);

    // Resize larger
    universe.resize(20, 30);
    assert_eq!(universe.width(), 20);
    assert_eq!(universe.height(), 30);
    assert_eq!(universe.cells.len(), 20 * 30);

    // Original data should be preserved
    let idx = universe.index(5, 5);
    assert_eq!(universe.cells[idx].hue, 100);
    assert_eq!(universe.cells[idx].saturation, 150);
    assert_eq!(universe.cells[idx].luminance, 200);
    assert_eq!(universe.cells[idx].alpha, 250);

    // Resize smaller
    universe.resize(5, 10);
    assert_eq!(universe.width(), 5);
    assert_eq!(universe.height(), 10);
    assert_eq!(universe.cells.len(), 5 * 10);

    // Data within bounds should be preserved
    let idx = universe.index(4, 4);
    assert_eq!(universe.cells[idx].hue, universe.cells[idx].hue);
}

#[test]
fn test_universe_dispose() {
    let mut universe = Universe::new(10, 20);
    universe.dispose();

    assert_eq!(universe.width(), 0);
    assert_eq!(universe.height(), 0);
    assert_eq!(universe.cells.len(), 0);
    assert_eq!(universe.next.len(), 0);
    assert_eq!(universe.draw_buffer.len(), 0);
}

#[test]
fn test_universe_save_load_state() {
    let mut universe = Universe::new(10, 20);
    universe.set_grid(100, 150, 200, 250);

    // Save state
    let state = universe.save_state();
    assert_eq!(state.len(), universe.cells_len());

    // Clear and verify it's cleared
    universe.clear();
    assert_eq!(universe.cells[0].hue, 0);

    // Load state and verify it's restored
    let success = universe.load_state(&state);
    assert!(success);
    assert_eq!(universe.cells[0].hue, 100);
    assert_eq!(universe.cells[0].saturation, 150);
    assert_eq!(universe.cells[0].luminance, 200);
    assert_eq!(universe.cells[0].alpha, 250);

    // Try loading wrong size state
    let wrong_size = vec![0; 10];
    let success = universe.load_state(&wrong_size);
    assert!(!success);
}

#[test]
fn test_brush_state() {
    let brush_state = rca::BrushState::default();
    assert_eq!(brush_state.last_id, None);
    assert_eq!(brush_state.points.len(), 0);

    let brush_state2 = rca::BrushState { last_id: Some(42), points: vec![(1, 2), (3, 4)] };
    assert_eq!(brush_state2.last_id, Some(42));
    assert_eq!(brush_state2.points.len(), 2);
}

#[test]
fn test_individual_default() {
    let individual = Individual::default();
    assert_eq!(individual.hue, 0);
    assert_eq!(individual.saturation, 0);
    assert_eq!(individual.luminance, 0);
    assert_eq!(individual.alpha, 0);
}

#[test]
fn test_universe_cells_ptr_and_len() {
    let universe = Universe::new(5, 5);

    // The raw-pointer export lives with the host shell; the byte length of
    // the view is what the library answers for.
    let len = universe.cells_len();
    assert_eq!(len, 5 * 5 * 4);
    assert_eq!(universe.cells().len(), 25);
}

#[test]
fn test_state_roundtrip_after_edits() {
    let mut universe = Universe::new(8, 8);
    universe.set_cell(1, 2, 10, 20, 30, 40);
    universe.set_cell(7, 7, 50, 60, 70, 80);
    let saved = universe.save_state();
    let before = universe.cells.clone();
    universe.set_grid(9, 9, 9, 9);
    assert!(universe.load_state(&saved));
    for i in 0..universe.cells.len() {
        assert_eq!(universe.cells[i], before[i]);
    }
}

#[test]
fn test_load_state_wrong_length_changes_nothing() {
    let mut universe = Universe::new(4, 4);
    universe.set_grid(1, 2, 3, 4);
    let bad = vec![7u8; 4 * 4 * 4 + 1];
    assert!(!universe.load_state(&bad));
    for i in 0..universe.cells.len() {
        assert_eq!(universe.cells[i], Individual { hue: 1, saturation: 2, luminance: 3, alpha: 4 });
    }
}

#[test]
fn test_resize_fills_new_cells_with_zero() {
    let mut universe = Universe::new(3, 3);
    universe.set_grid(5, 6, 7, 8);
    universe.resize(5, 4);
    for r in 0..4u32 {
        for c in 0..5u32 {
            let idx = universe.index(r, c);
            if r < 3 && c < 3 {
                assert_eq!(universe.cells[idx].hue, 5);
                assert_eq!(universe.cells[idx].alpha, 8);
            } else {
                assert_eq!(universe.cells[idx], Individual::default());
            }
        }
    }
}

use torus_life::control::{loop_step, should_quit, KeyPress, StepOutcome};
use torus_life::engine::{cell_next_state, next_generation, pos, pos_wrap};
use torus_life::render::render_content;
use torus_life::seeding::random_grid;

fn grid_from(live: &[(usize, usize)], width: usize, height: usize) -> Vec<bool> {
    let mut g = vec![false; width * height];
    for &(r, c) in live {
        g[r * width + c] = true;
    }
    g
}

fn advance_n(mut g: Vec<bool>, width: usize, height: usize, n: usize) -> Vec<bool> {
    for _ in 0..n {
        g = next_generation(&g, width, height);
    }
    g
}

#[test]
fn pos_is_row_major() {
    assert_eq!(pos(0, 0, 10), 0);
    assert_eq!(pos(2, 3, 10), 23);
    assert_eq!(pos(1, 0, 7), 7);
}

#[test]
fn pos_wrap_in_range_matches_pos() {
    assert_eq!(pos_wrap(2, 3, 10, 4), pos(2, 3, 10));
    assert_eq!(pos_wrap(0, 0, 5, 5), 0);
}

#[test]
fn pos_wrap_negative_wraps_to_far_edge() {
    // -1 mod height must be height - 1, not a truncating remainder.
    assert_eq!(pos_wrap(-1, -1, 5, 4), pos(3, 4, 5));
    assert_eq!(pos_wrap(-1, 0, 5, 4), pos(3, 0, 5));
    assert_eq!(pos_wrap(0, -1, 5, 4), pos(0, 4, 5));
    assert_eq!(pos_wrap(-5, -11, 5, 4), pos(3, 4, 5));
}

#[test]
fn pos_wrap_overflowing_wraps_back() {
    assert_eq!(pos_wrap(4, 5, 5, 4), pos(0, 0, 5));
    assert_eq!(pos_wrap(9, 12, 5, 4), pos(1, 2, 5));
}

#[test]
fn pos_wrap_full_period_translation_is_noop() {
    let width = 7;
    let height = 5;
    for r in -6..6_isize {
        for c in -8..8_isize {
            assert_eq!(
                pos_wrap(r + height as isize, c + width as isize, width, height),
                pos_wrap(r, c, width, height)
            );
        }
    }
}

#[test]
fn birth_on_exactly_three_neighbors() {
    // Dead center cell of a 5x5 with exactly 3 live neighbors is born.
    let g = grid_from(&[(1, 1), (1, 2), (1, 3)], 5, 5);
    assert!(!g[pos(2, 2, 5)]);
    assert!(cell_next_state(&g, 2, 2, 5, 5));
    // A live cell with exactly 3 neighbors also lives.
    let g2 = grid_from(&[(1, 1), (1, 2), (1, 3), (2, 2)], 5, 5);
    assert!(cell_next_state(&g2, 2, 2, 5, 5));
}

#[test]
fn survival_on_two_neighbors_only_when_alive() {
    let live = grid_from(&[(1, 1), (1, 2), (2, 2)], 5, 5);
    assert!(cell_next_state(&live, 2, 2, 5, 5));
    let dead = grid_from(&[(1, 1), (1, 2)], 5, 5);
    assert!(!cell_next_state(&dead, 2, 2, 5, 5));
}

#[test]
fn death_by_isolation_and_overcrowding() {
    // 0 or 1 neighbors: dies.
    let lonely = grid_from(&[(2, 2)], 5, 5);
    assert!(!cell_next_state(&lonely, 2, 2, 5, 5));
    let pair = grid_from(&[(2, 2), (2, 3)], 5, 5);
    assert!(!cell_next_state(&pair, 2, 2, 5, 5));
    // 4 through 8 neighbors: dies.
    let crowded4 = grid_from(&[(2, 2), (1, 1), (1, 2), (1, 3), (2, 1)], 5, 5);
    assert!(!cell_next_state(&crowded4, 2, 2, 5, 5));
    let crowded8 = grid_from(
        &[
            (2, 2),
            (1, 1),
            (1, 2),
            (1, 3),
            (2, 1),
            (2, 3),
            (3, 1),
            (3, 2),
            (3, 3),
        ],
        5,
        5,
    );
    assert!(!cell_next_state(&crowded8, 2, 2, 5, 5));
}

#[test]
fn neighbor_count_wraps_around_edges() {
    // A corner cell of a 4x4 sees live cells on the opposite edges.
    let g = grid_from(&[(0, 0), (3, 3), (3, 0), (0, 3)], 4, 4);
    // (0,0)'s wrapped neighbors include (3,3), (3,0) and (0,3): 3 live.
    assert!(cell_next_state(&g, 0, 0, 4, 4));
}

#[test]
fn next_generation_has_width_times_height_entries() {
    let g = grid_from(&[(0, 1), (2, 0)], 3, 7);
    assert_eq!(next_generation(&g, 3, 7).len(), 21);
    let empty = vec![false; 8];
    assert_eq!(next_generation(&empty, 4, 2).len(), 8);
    let one = vec![true];
    assert_eq!(next_generation(&one, 1, 1).len(), 1);
}

#[test]
fn blinker_oscillates() {
    let horizontal = grid_from(&[(2, 1), (2, 2), (2, 3)], 5, 5);
    let vertical = grid_from(&[(1, 2), (2, 2), (3, 2)], 5, 5);
    assert_eq!(next_generation(&horizontal, 5, 5), vertical);
    assert_eq!(next_generation(&vertical, 5, 5), horizontal);
}

#[test]
fn dead_grid_stays_dead() {
    let g = vec![false; 24];
    let after = advance_n(g.clone(), 6, 4, 10);
    assert_eq!(after, g);
}

#[test]
fn all_alive_3x3_dies_of_overcrowding() {
    // On a 3x3 torus every cell's 8 wrapped neighbors are the other 8
    // cells, so every cell sees 8 live neighbors and dies.
    let g = vec![true; 9];
    let next = next_generation(&g, 3, 3);
    assert_eq!(next, vec![false; 9]);
}

#[test]
fn glider_returns_shifted_after_four_generations() {
    let width = 8;
    let height = 8;
    let start = grid_from(&[(0, 1), (1, 2), (2, 0), (2, 1), (2, 2)], width, height);
    let after = advance_n(start, width, height, 4);
    let shifted = grid_from(&[(1, 2), (2, 3), (3, 1), (3, 2), (3, 3)], width, height);
    assert_eq!(after, shifted);
}

#[test]
fn quit_keys_are_q_and_escape() {
    assert!(should_quit(&KeyPress::Character('q')));
    assert!(should_quit(&KeyPress::Escape));
    assert!(!should_quit(&KeyPress::Character('Q')));
    assert!(!should_quit(&KeyPress::Character('x')));
    assert!(!should_quit(&KeyPress::Other));
}

#[test]
fn quit_key_stops_loop_without_advancing() {
    let g = grid_from(&[(2, 1), (2, 2), (2, 3)], 5, 5);
    match loop_step(&g, 5, 5, Some(KeyPress::Character('q'))) {
        StepOutcome::Stopped => {}
        StepOutcome::Running(_) => panic!("loop advanced past a quit key"),
    }
    match loop_step(&g, 5, 5, Some(KeyPress::Escape)) {
        StepOutcome::Stopped => {}
        StepOutcome::Running(_) => panic!("loop advanced past the escape key"),
    }
}

#[test]
fn other_events_advance_one_generation() {
    let horizontal = grid_from(&[(2, 1), (2, 2), (2, 3)], 5, 5);
    let vertical = grid_from(&[(1, 2), (2, 2), (3, 2)], 5, 5);
    match loop_step(&horizontal, 5, 5, None) {
        StepOutcome::Stopped => panic!("loop stopped without a quit key"),
        StepOutcome::Running(g) => assert_eq!(g, vertical),
    }
    match loop_step(&horizontal, 5, 5, Some(KeyPress::Character('x'))) {
        StepOutcome::Stopped => panic!("loop stopped on an ignored key"),
        StepOutcome::Running(g) => assert_eq!(g, vertical),
    }
    match loop_step(&horizontal, 5, 5, Some(KeyPress::Other)) {
        StepOutcome::Stopped => panic!("loop stopped on an ignored event"),
        StepOutcome::Running(g) => assert_eq!(g, vertical),
    }
}

#[test]
fn render_draws_blocks_and_blanks() {
    let g = grid_from(&[(0, 0), (1, 1)], 2, 2);
    let s = render_content(&g, 2, 2, 2, 2);
    assert_eq!(s, "\u{2588} \n \u{2588}");
}

#[test]
fn render_pads_area_beyond_grid_with_blanks() {
    let g = grid_from(&[(0, 0), (1, 1)], 2, 2);
    let s = render_content(&g, 2, 2, 3, 3);
    assert_eq!(s, "\u{2588}  \n \u{2588} \n   ");
}

#[test]
fn render_clips_to_a_smaller_area() {
    let g = grid_from(&[(0, 0), (1, 1)], 2, 2);
    assert_eq!(render_content(&g, 2, 2, 1, 1), "\u{2588}");
    assert_eq!(render_content(&g, 2, 2, 0, 0), "");
}

#[test]
fn random_grid_has_requested_size() {
    assert_eq!(random_grid(10, 5).len(), 50);
    assert_eq!(random_grid(1, 1).len(), 1);
    assert_eq!(random_grid(3, 0).len(), 0);
}

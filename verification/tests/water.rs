use ripples::num::UNIT;
use ripples::water::{Particle, ParticleType, Water, NEUTRAL};

/// One thousandth of a displacement unit: the settling tolerance.
const MILLI: i64 = UNIT / 1000;

fn effective(w: &Water, x: i32, y: i32) -> (i64, i64) {
    let p = w.get_big(x, y);
    (p.pos, p.vel)
}

/// All-pinned invariance: with every cell pinned, repeated advancing
/// changes nothing observable.
#[test]
fn all_pinned_stays_put() {
    let mut w = Water::new(3, 3);
    for y in 0..3 {
        for x in 0..3 {
            w.big_fix(x, y);
        }
    }
    let before: Vec<(i64, i64)> = (0..9).map(|i| effective(&w, i % 3, i / 3)).collect();
    for _ in 0..50 {
        w.advance();
    }
    let after: Vec<(i64, i64)> = (0..9).map(|i| effective(&w, i % 3, i / 3)).collect();
    assert_eq!(before, after);
    for i in 0..9 {
        assert_eq!(after[i as usize], (NEUTRAL, 0));
    }
}

/// Equilibrium convergence: a lone normal cell walled in by pinned
/// cells settles back to the neutral, unmoving state.
#[test]
fn lone_cell_settles() {
    let mut w = Water::new(3, 3);
    for y in 0..3 {
        for x in 0..3 {
            if !(x == 1 && y == 1) {
                w.big_fix(x as u32, y as u32);
            }
        }
    }
    w.perturb(1, 1);
    assert_eq!(effective(&w, 1, 1).0, UNIT);
    for _ in 0..7000 {
        w.advance();
    }
    let (pos, vel) = effective(&w, 1, 1);
    assert!((pos - NEUTRAL).abs() <= MILLI, "pos {} off neutral", pos);
    assert!(vel.abs() <= MILLI, "vel {} not settled", vel);
}

/// Perturb-then-settle: after a perturbation on open water, a bounded
/// number of substeps brings the block back near neutral.
#[test]
fn perturbed_block_settles() {
    let mut w = Water::new(4, 4);
    w.perturb(1, 1);
    for _ in 0..7000 {
        w.advance();
    }
    let (pos, _) = effective(&w, 1, 1);
    assert!((pos - NEUTRAL).abs() <= MILLI, "pos {} off neutral", pos);
}

/// The concrete four-by-four scenario: a perturbation is immediately
/// visible only in its own cell, and after one substep exactly the four
/// logical neighbors pick up velocity.
#[test]
fn perturbation_spreads_to_neighbors() {
    let mut w = Water::new(4, 4);
    w.perturb(1, 1);
    for y in 0..4 {
        for x in 0..4 {
            let (pos, vel) = effective(&w, x, y);
            if x == 1 && y == 1 {
                assert_eq!(pos, UNIT);
            } else {
                assert_eq!(pos, NEUTRAL);
            }
            assert_eq!(vel, 0);
        }
    }
    w.advance();
    for (x, y) in [(0, 1), (2, 1), (1, 0), (1, 2)] {
        assert!(effective(&w, x, y).1 != 0, "neighbor ({},{}) still still", x, y);
    }
    for (x, y) in [(0, 0), (2, 2), (3, 1), (1, 3), (3, 3), (0, 3)] {
        assert_eq!(effective(&w, x, y).1, 0, "distant ({},{}) moved", x, y);
    }
}

/// The concrete three-by-three scenario: all pinned but the center;
/// after a thousand ticks of seven substeps the center has settled to
/// within a thousandth of neutral.
#[test]
fn pinned_ring_center_settles() {
    let mut w = Water::new(3, 3);
    for y in 0..3 {
        for x in 0..3 {
            if !(x == 1 && y == 1) {
                w.big_fix(x as u32, y as u32);
            }
        }
    }
    w.perturb(1, 1);
    for _ in 0..1000 {
        w.tick();
    }
    let (pos, _) = effective(&w, 1, 1);
    assert!((pos - NEUTRAL).abs() <= MILLI, "pos {} off neutral", pos);
}

/// A perturbation outside the logical grid is a no-op.
#[test]
fn perturb_out_of_range_is_noop() {
    let mut w = Water::new(2, 2);
    let before: Vec<ParticleType> = w.grid.clone();
    w.perturb(-1, 0);
    w.perturb(0, -1);
    w.perturb(2, 0);
    w.perturb(0, 2);
    assert_eq!(before.len(), w.grid.len());
    for (a, b) in before.iter().zip(w.grid.iter()) {
        assert_eq!(a, b);
    }
}

/// Pinned cells ignore perturbation and always read neutral.
#[test]
fn pinned_cell_ignores_perturb() {
    let mut w = Water::new(2, 2);
    w.big_fix(0, 0);
    w.perturb(0, 0);
    assert_eq!(effective(&w, 0, 0), (NEUTRAL, 0));
}

/// Reads clamp their coordinates to the grid.
#[test]
fn reads_clamp_to_grid() {
    let mut w = Water::new(2, 2);
    w.perturb(0, 0);
    assert_eq!(w.get_big(-5, -7).pos, w.get_big(0, 0).pos);
    assert_eq!(w.get_big(9, 9).pos, w.get_big(1, 1).pos);
    let edge = w.get_particle(-3, 0);
    let origin = w.get_particle(0, 0);
    assert_eq!(edge.pos, origin.pos);
}

/// One tick is exactly seven substeps.
#[test]
fn tick_is_seven_substeps() {
    let mut a = Water::new(3, 2);
    let mut b = Water::new(3, 2);
    a.perturb(1, 0);
    b.perturb(1, 0);
    a.tick();
    for _ in 0..7 {
        b.advance();
    }
    for (pa, pb) in a.grid.iter().zip(b.grid.iter()) {
        assert_eq!(pa, pb);
    }
}

/// Wetness: on the logical grid, one-based, and only over water that
/// is not pinned.
#[test]
fn wetness_follows_pinning() {
    let mut w = Water::new(3, 3);
    assert!(w.is_wet((1, 1)));
    assert!(w.is_wet((3, 3)));
    assert!(!w.is_wet((0, 0)));
    assert!(!w.is_wet((4, 1)));
    w.big_fix(0, 0);
    assert!(!w.is_wet((1, 1)));
    assert!(w.is_wet((2, 1)));
}

/// The glyph classifier: the rule table, cell by cell for a sample of
/// the sixteen patterns, and the two colors.
#[test]
fn classifier_table_and_colors() {
    let flat = Particle { pos: NEUTRAL, vel: 0 };
    let high = Particle { pos: NEUTRAL + UNIT / 10, vel: 0 };
    let own = Particle { pos: NEUTRAL, vel: 0 };

    // Order of neighbors: left, up, right, down.
    let shape = |l: Particle, u: Particle, r: Particle, d: Particle| own.shape((l, u, r, d));

    assert_eq!(shape(flat, flat, flat, flat).item(), '.');
    assert_eq!(shape(high, high, high, high).item(), '.');
    assert_eq!(shape(high, flat, flat, flat).item(), '-');
    assert_eq!(shape(flat, high, flat, flat).item(), '\'');
    assert_eq!(shape(flat, flat, high, flat).item(), '-');
    assert_eq!(shape(flat, flat, flat, high).item(), '.');
    assert_eq!(shape(flat, high, flat, high).item(), '|');
    assert_eq!(shape(high, flat, high, flat).item(), '-');
    assert_eq!(shape(high, high, flat, flat).item(), '/');
    assert_eq!(shape(flat, flat, high, high).item(), '/');
    assert_eq!(shape(high, flat, flat, high).item(), '\\');
    assert_eq!(shape(flat, high, high, flat).item(), '\\');
    assert_eq!(shape(flat, high, high, high).item(), '|');
    assert_eq!(shape(high, flat, high, high).item(), '-');
    assert_eq!(shape(high, high, flat, high).item(), '|');
    assert_eq!(shape(high, high, high, flat).item(), '-');

    let below = own.shape((flat, flat, flat, flat));
    assert_eq!(below.fg_color, Some(33));
    let above_own = Particle { pos: NEUTRAL + UNIT / 10, vel: 0 };
    let above = above_own.shape((flat, flat, flat, flat));
    assert_eq!(above.fg_color, Some(254));
}

/// The water's frame of tiles: one tile per logical cell, in place.
#[test]
fn water_tiles_cover_grid() {
    let mut w = Water::new(4, 3);
    w.perturb(2, 1);
    let tiles = w.tiles();
    assert_eq!(tiles.len(), 12);
    for (k, (tile, (x, y))) in tiles.iter().enumerate() {
        assert_eq!((*x, *y), ((k % 4) as i32, (k / 4) as i32));
        assert_eq!(tile.z_idx(), 1);
    }
}

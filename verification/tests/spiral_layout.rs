use spiral_tiles::spiral::{generate, iteration_count, radius_at_iteration, Params, Tile};
use spiral_tiles::trig::{cos_shift, sin_shift};

fn showdown() -> Params {
    Params { width: 960_000_000, height: 720_000_000, tile_size: 10_000_000 }
}

#[test]
fn showdown_layout_nonempty_and_centered() {
    let tiles = generate(showdown());
    assert!(!tiles.is_empty());
    assert_eq!(tiles[0], Tile { x: 480_000_000, y: 360_000_000 });
}

#[test]
fn showdown_iteration_count_exact() {
    // Radius limit: 360 units = 360_000_000_000 nano-units; growth per step:
    // 10 units * 0.015 = 150_000_000 nano-units; 2400 steps exactly.
    assert_eq!(iteration_count(showdown()), 2400);
    let tiles = generate(showdown());
    assert!(tiles.len() <= 2400);
}

#[test]
fn showdown_layout_deterministic() {
    let first = generate(showdown());
    let second = generate(showdown());
    assert_eq!(first, second);
}

#[test]
fn rerun_after_first_run_is_identical() {
    let first = generate(showdown());
    let len = first.len();
    let again = generate(showdown());
    assert_eq!(again.len(), len);
    assert_eq!(first, again);
}

#[test]
fn every_tile_lies_inside_the_rectangle() {
    let p = showdown();
    for t in generate(p) {
        assert!(t.x + p.tile_size <= p.width);
        assert!(t.y + p.tile_size <= p.height);
    }
}

#[test]
fn every_tile_inside_a_tall_rectangle() {
    let p = Params { width: 300_000_000, height: 900_000_000, tile_size: 7_000_000 };
    let tiles = generate(p);
    assert!(!tiles.is_empty());
    for t in &tiles {
        assert!(t.x + p.tile_size <= p.width);
        assert!(t.y + p.tile_size <= p.height);
    }
}

#[test]
fn oversized_tile_gives_empty_layout() {
    // Tile edge beyond the smaller extent: nothing can fit.
    let p = Params { width: 20_000_000, height: 20_000_000, tile_size: 25_000_000 };
    assert!(generate(p).is_empty());
    let q = Params { width: 50_000_000, height: 8_000_000, tile_size: 9_000_000 };
    assert!(generate(q).is_empty());
}

#[test]
fn half_extent_tile_still_starts_at_center() {
    // The tile edge equals half the smaller extent; the very first sample,
    // taken at radius zero, still fits exactly.
    let p = Params { width: 20_000_000, height: 20_000_000, tile_size: 10_000_000 };
    let tiles = generate(p);
    assert!(!tiles.is_empty());
    assert_eq!(tiles[0], Tile { x: 10_000_000, y: 10_000_000 });
}

#[test]
fn boundary_square_with_almost_half_tile() {
    // A 20 x 20 square with tile edge 9.9: the radius limit is 10 units and
    // the first sample sits at the centre (10, 10), inside the clip bounds.
    let p = Params { width: 20_000_000, height: 20_000_000, tile_size: 9_900_000 };
    let tiles = generate(p);
    assert!(!tiles.is_empty());
    assert_eq!(tiles[0], Tile { x: 10_000_000, y: 10_000_000 });
    // Growth per step: 9.9 * 0.015 = 148_500_000 nano-units; the limit of
    // 10_000_000_000 nano-units is first reached after 68 steps.
    assert_eq!(iteration_count(p), 68);
}

#[test]
fn sampling_radius_is_nondecreasing() {
    let p = Params { width: 20_000_000, height: 20_000_000, tile_size: 9_900_000 };
    let steps = iteration_count(p);
    let mut previous: u64 = 0;
    let mut i: u64 = 0;
    while i <= steps {
        let r = radius_at_iteration(p, i);
        assert!(r >= previous);
        previous = r;
        i += 1;
    }
}

#[test]
fn sampling_radius_formula() {
    let p = Params { width: 20_000_000, height: 20_000_000, tile_size: 9_900_000 };
    assert_eq!(radius_at_iteration(p, 0), 0);
    assert_eq!(radius_at_iteration(p, 1), 148_500_000);
    assert_eq!(radius_at_iteration(p, 10), 1_485_000_000);
}

#[test]
fn shifted_trig_values_at_zero() {
    // cos(0) = 1 and sin(0) = 0, in the shifted fixed-point encoding.
    assert_eq!(cos_shift(0), 2_000_000);
    assert_eq!(sin_shift(0), 1_000_000);
}

#[test]
fn shifted_trig_values_at_half_turn() {
    // sin(pi) is 0 again in the folded encoding.
    assert_eq!(sin_shift(3_141_592), 1_000_000);
    // sin(pi / 2) = 1: the polynomial kernel saturates at the scale.
    assert_eq!(sin_shift(1_570_796), 2_000_000);
}

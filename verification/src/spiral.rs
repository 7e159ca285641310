//! The spiral tile layout generator.
//!
//! Given a bounding rectangle and a square tile edge, the generator samples
//! points along an expanding spiral centred in the rectangle and keeps, in
//! sampling order, every point whose tile lies fully inside the rectangle.
//!
//! All lengths are fixed-point integers in micro-units (one millionth of a
//! unit).  The sampling radius is tracked in nano-units so that the radial
//! growth of 1.5 percent of the tile edge per step is exact, and the sampling
//! angle in micro-radians, advancing by 0.2 radians per step.

use crate::trig;
use crate::trig::{spec_cos_shift, spec_sin_shift, SCALE};
use vstd::arithmetic::div_mod::{
    lemma_div_is_ordered, lemma_div_is_ordered_by_denominator, lemma_div_of0,
    lemma_div_pos_is_pos, lemma_fundamental_div_mod,
};
use vstd::arithmetic::mul::lemma_mul_inequality;
use vstd::prelude::*;

verus! {

/// Upper bound, in micro-units, on the extents and the tile edge (two
/// thousand units): keeps every intermediate product inside `u64`.
pub const MAX_DIMENSION: u64 = 2_000_000_000;

/// Angle added per sampling step: 0.2 radians, in micro-radians.
pub const ANGULAR_STEP: u64 = 200_000;

/// Immutable inputs of one generation run, in micro-units.
#[derive(Clone, Copy, Debug, PartialEq, Eq, Structural)]
pub struct Params {
    /// Horizontal extent of the bounding rectangle.
    pub width: u64,
    /// Vertical extent of the bounding rectangle.
    pub height: u64,
    /// Edge length of each square tile.
    pub tile_size: u64,
}

/// Top-left corner of one emitted tile, in micro-units.
#[derive(Clone, Copy, Debug, PartialEq, Eq, Structural)]
pub struct Tile {
    /// Horizontal offset from the rectangle's left edge.
    pub x: u64,
    /// Vertical offset from the rectangle's top edge.
    pub y: u64,
}

impl Params {
    /// Well-formed parameters: positive and within the supported range.
    pub open spec fn wf(self) -> bool {
        &&& 1 <= self.width <= MAX_DIMENSION
        &&& 1 <= self.height <= MAX_DIMENSION
        &&& 1 <= self.tile_size <= MAX_DIMENSION
    }

    /// The smaller of the two extents, in micro-units.
    pub open spec fn min_extent(self) -> int {
        if self.width <= self.height {
            self.width as int
        } else {
            self.height as int
        }
    }

    /// Radius gained per sampling step: 1.5 percent of the tile edge, held
    /// exactly as `15` nano-units per micro-unit of tile edge.
    pub open spec fn growth(self) -> int {
        self.tile_size * 15
    }

    /// The radius bound at which sampling stops: half the smaller extent,
    /// in nano-units.
    pub open spec fn radius_limit(self) -> int {
        self.min_extent() * 500
    }

    /// Number of sampling steps: the least `n` with
    /// `n * growth >= radius_limit`, i.e. the radial bound divided by the
    /// growth per step, rounded up.
    pub open spec fn iter_count(self) -> int
        recommends
            self.wf(),
    {
        (self.radius_limit() - 1) / self.growth() + 1
    }
}

/// Sampling angle before step `i`: `i` steps of 0.2 radians, in
/// micro-radians.
pub open spec fn angle_at(i: int) -> int {
    i * 200_000
}

/// Sampling radius before step `i`, in nano-units.
pub open spec fn radius_at(p: Params, i: int) -> int {
    i * p.growth()
}

/// Sampling radius of step `i` rounded down to micro-units.
pub open spec fn sample_radius(p: Params, i: int) -> int {
    radius_at(p, i) / 1_000
}

/// Horizontal sample position of step `i`, shifted right by the sampling
/// radius: `width / 2 + (1 + cos(angle)) * radius`.  The shift keeps the
/// value non-negative; the actual position is this minus the radius.
pub open spec fn sample_x_shift(p: Params, i: int) -> int {
    p.width as int / 2 + spec_cos_shift(angle_at(i)) * sample_radius(p, i) / (SCALE as int)
}

/// Vertical sample position of step `i`, shifted down by the sampling
/// radius.
pub open spec fn sample_y_shift(p: Params, i: int) -> int {
    p.height as int / 2 + spec_sin_shift(angle_at(i)) * sample_radius(p, i) / (SCALE as int)
}

/// Whether the sample of step `i` is kept: the tile must lie fully inside
/// the rectangle, i.e. `0 <= x` and `x + tile_size <= width` (stated on the
/// shifted position to stay within non-negative arithmetic), and likewise
/// vertically.
pub open spec fn sample_emitted(p: Params, i: int) -> bool {
    let r = sample_radius(p, i);
    &&& sample_x_shift(p, i) >= r
    &&& sample_x_shift(p, i) + p.tile_size <= p.width + r
    &&& sample_y_shift(p, i) >= r
    &&& sample_y_shift(p, i) + p.tile_size <= p.height + r
}

/// The tile emitted by step `i`, assuming the sample is kept.
pub open spec fn sample_tile(p: Params, i: int) -> Tile {
    Tile {
        x: (sample_x_shift(p, i) - sample_radius(p, i)) as u64,
        y: (sample_y_shift(p, i) - sample_radius(p, i)) as u64,
    }
}

/// The tiles emitted by the first `n` sampling steps, in sampling order.
pub open spec fn layout_prefix(p: Params, n: int) -> Seq<Tile>
    decreases n,
{
    if n <= 0 {
        Seq::empty()
    } else if sample_emitted(p, n - 1) {
        layout_prefix(p, n - 1).push(sample_tile(p, n - 1))
    } else {
        layout_prefix(p, n - 1)
    }
}

/// The full layout: the tiles of every sampling step up to the radius
/// bound, in sampling order.
pub open spec fn spec_layout(p: Params) -> Seq<Tile> {
    layout_prefix(p, p.iter_count())
}

/// A tile that lies fully inside the rectangle: `x + tile_size <= width`
/// and `y + tile_size <= height` (the coordinates are unsigned, so the
/// lower bounds hold by type).
pub open spec fn tile_in_bounds(p: Params, t: Tile) -> bool {
    &&& t.x + p.tile_size <= p.width
    &&& t.y + p.tile_size <= p.height
}

/// Every tile of the sequence lies fully inside the rectangle.
pub open spec fn all_tiles_in_bounds(p: Params, s: Seq<Tile>) -> bool {
    forall|k: int| 0 <= k < s.len() ==> tile_in_bounds(p, #[trigger] s[k])
}

/// Appending an in-bounds tile keeps a sequence of in-bounds tiles
/// in bounds.
proof fn lemma_push_in_bounds(p: Params, s: Seq<Tile>, t: Tile)
    requires
        all_tiles_in_bounds(p, s),
        tile_in_bounds(p, t),
    ensures
        all_tiles_in_bounds(p, s.push(t)),
{
    assert forall|k: int| 0 <= k < s.push(t).len() implies tile_in_bounds(
        p,
        #[trigger] s.push(t)[k],
    ) by {
        if k < s.len() {
            assert(s.push(t)[k] == s[k]);
        } else {
            assert(s.push(t)[k] == t);
        }
    }
}

/// The sampling radius never decreases from one step to a later one.
pub proof fn lemma_radius_nondecreasing(p: Params, i: int, j: int)
    requires
        p.wf(),
        0 <= i <= j,
    ensures
        0 <= radius_at(p, i) <= radius_at(p, j),
{
    lemma_mul_inequality(0, i, p.growth());
    lemma_mul_inequality(i, j, p.growth());
}

/// The sampling loop runs for exactly `iter_count` steps: at least one step
/// happens, every step before `iter_count` starts below the radius limit,
/// and step `iter_count` would start at or beyond it.
pub proof fn lemma_iter_count_exact(p: Params)
    requires
        p.wf(),
    ensures
        p.iter_count() >= 1,
        radius_at(p, p.iter_count()) >= p.radius_limit(),
        forall|j: int| 0 <= j < p.iter_count() ==> radius_at(p, j) < p.radius_limit(),
{
    let g = p.growth();
    let limit = p.radius_limit();
    let q = (limit - 1) / g;
    lemma_div_pos_is_pos(limit - 1, g);
    lemma_fundamental_div_mod(limit - 1, g);
    vstd::arithmetic::div_mod::lemma_mod_bound(limit - 1, g);
    assert((q + 1) * g == q * g + g) by (nonlinear_arith);
    assert(q * g == g * q) by (nonlinear_arith);
    assert(radius_at(p, q + 1) >= limit);
    assert forall|j: int| 0 <= j < p.iter_count() implies radius_at(p, j) < limit by {
        lemma_mul_inequality(j, q, g);
        assert(q * g == g * q) by (nonlinear_arith);
    }
}

/// A kept sample yields a tile that lies fully inside the rectangle.
pub proof fn lemma_emitted_tile_in_bounds(p: Params, i: int)
    requires
        p.wf(),
        0 <= i,
        sample_emitted(p, i),
    ensures
        tile_in_bounds(p, sample_tile(p, i)),
{
    lemma_radius_nondecreasing(p, 0, i);
    lemma_div_pos_is_pos(radius_at(p, i), 1_000);
}

/// Every tile of a layout prefix lies fully inside the rectangle.
proof fn lemma_prefix_within_bounds(p: Params, n: int)
    requires
        p.wf(),
    ensures
        all_tiles_in_bounds(p, layout_prefix(p, n)),
    decreases n,
{
    if n <= 0 {
        assert(layout_prefix(p, n) == Seq::<Tile>::empty());
    } else {
        lemma_prefix_within_bounds(p, n - 1);
        if sample_emitted(p, n - 1) {
            lemma_emitted_tile_in_bounds(p, n - 1);
            lemma_push_in_bounds(p, layout_prefix(p, n - 1), sample_tile(p, n - 1));
        }
    }
}

/// Clipping: every tile of the layout lies fully inside the rectangle.
pub proof fn lemma_layout_within_bounds(p: Params)
    requires
        p.wf(),
    ensures
        all_tiles_in_bounds(p, spec_layout(p)),
{
    lemma_prefix_within_bounds(p, p.iter_count());
}

/// No sample at all is kept once the tile edge exceeds both extents'
/// minimum: a kept tile needs `tile_size <= width` and `tile_size <=
/// height`.
proof fn lemma_prefix_empty_when_tile_exceeds(p: Params, n: int)
    requires
        p.wf(),
        p.tile_size > p.min_extent(),
    ensures
        layout_prefix(p, n).len() == 0,
    decreases n,
{
    if n > 0 {
        lemma_prefix_empty_when_tile_exceeds(p, n - 1);
    }
}

/// Degenerate clipping: when the tile edge exceeds the smaller extent, the
/// layout is empty.
pub proof fn lemma_layout_empty_when_tile_exceeds(p: Params)
    requires
        p.wf(),
        p.tile_size > p.min_extent(),
    ensures
        spec_layout(p).len() == 0,
{
    lemma_prefix_empty_when_tile_exceeds(p, p.iter_count());
}

/// Once the tile edge grows past half the smaller extent (by more than the
/// half-unit rounding margin), the very first sample — the one at the
/// rectangle's centre — no longer fits and is dropped.
pub proof fn lemma_first_sample_rejected(p: Params)
    requires
        p.wf(),
        2 * p.tile_size > p.min_extent() + 1,
    ensures
        !sample_emitted(p, 0),
{
    assert(radius_at(p, 0) == 0);
    lemma_div_of0(1_000);
    lemma_div_of0(SCALE as int);
    assert(sample_radius(p, 0) == 0);
    assert(sample_x_shift(p, 0) == p.width as int / 2);
    assert(sample_y_shift(p, 0) == p.height as int / 2);
    lemma_fundamental_div_mod(p.width as int, 2);
    lemma_fundamental_div_mod(p.height as int, 2);
    vstd::arithmetic::div_mod::lemma_mod_bound(p.width as int, 2);
    vstd::arithmetic::div_mod::lemma_mod_bound(p.height as int, 2);
}

/// The first element of every non-trivial prefix is the tile of step 0,
/// provided that sample is kept.
proof fn lemma_prefix_first(p: Params, n: int)
    requires
        sample_emitted(p, 0),
        n >= 1,
    ensures
        layout_prefix(p, n).len() >= 1,
        layout_prefix(p, n)[0] == sample_tile(p, 0),
    decreases n,
{
    if n > 1 {
        lemma_prefix_first(p, n - 1);
    } else {
        assert(layout_prefix(p, 0) == Seq::<Tile>::empty());
        assert(layout_prefix(p, 1) == Seq::<Tile>::empty().push(sample_tile(p, 0)));
    }
}

/// Centre start: while the tile edge is at most half the smaller extent,
/// the layout is non-empty and starts with the tile at the rectangle's
/// centre (the very first sample, taken at radius zero).
pub proof fn lemma_layout_starts_at_center(p: Params)
    requires
        p.wf(),
        2 * p.tile_size <= p.min_extent(),
    ensures
        spec_layout(p).len() >= 1,
        spec_layout(p)[0] == (Tile { x: p.width / 2, y: p.height / 2 }),
{
    lemma_iter_count_exact(p);
    assert(radius_at(p, 0) == 0);
    lemma_div_of0(1_000);
    lemma_div_of0(SCALE as int);
    assert(sample_radius(p, 0) == 0);
    assert(sample_x_shift(p, 0) == p.width as int / 2);
    assert(sample_y_shift(p, 0) == p.height as int / 2);
    lemma_fundamental_div_mod(p.width as int, 2);
    lemma_fundamental_div_mod(p.height as int, 2);
    vstd::arithmetic::div_mod::lemma_mod_bound(p.width as int, 2);
    vstd::arithmetic::div_mod::lemma_mod_bound(p.height as int, 2);
    assert(sample_emitted(p, 0));
    lemma_prefix_first(p, p.iter_count());
}

/// The layout never holds more tiles than there are sampling steps.
proof fn lemma_prefix_len(p: Params, n: int)
    requires
        n >= 0,
    ensures
        layout_prefix(p, n).len() <= n,
    decreases n,
{
    if n > 0 {
        lemma_prefix_len(p, n - 1);
    }
}

/// Termination bound: the layout holds at most `iter_count` tiles, one per
/// sampling step.
pub proof fn lemma_layout_len_bounded(p: Params)
    requires
        p.wf(),
    ensures
        spec_layout(p).len() <= p.iter_count(),
{
    lemma_iter_count_exact(p);
    lemma_prefix_len(p, p.iter_count());
}

/// Determinism: the layout is a pure function of the parameters; equal
/// parameters give equal tile sequences, in equal order.  The generator's
/// contract ties its output to this function alone, so two runs with the
/// same inputs — in particular a re-run after a first one — return the same
/// sequence.
pub proof fn lemma_layout_deterministic(p: Params, q: Params)
    requires
        p == q,
    ensures
        spec_layout(p) == spec_layout(q),
{
}

/// Number of sampling steps the generator performs for these parameters.
pub fn iteration_count(p: Params) -> (n: u64)
    requires
        p.wf(),
    ensures
        n == p.iter_count(),
{
    let least: u64 = if p.width <= p.height {
        p.width
    } else {
        p.height
    };
    let limit: u64 = least * 500;
    let growth: u64 = p.tile_size * 15;
    (limit - 1) / growth + 1
}

/// Sampling radius before step `i`, in nano-units.
pub fn radius_at_iteration(p: Params, i: u64) -> (r: u64)
    requires
        p.wf(),
        i <= p.iter_count(),
    ensures
        r == radius_at(p, i as int),
{
    proof {
        let g = p.growth();
        let limit = p.radius_limit();
        let q = (limit - 1) / g;
        lemma_div_pos_is_pos(limit - 1, g);
        lemma_fundamental_div_mod(limit - 1, g);
        vstd::arithmetic::div_mod::lemma_mod_bound(limit - 1, g);
        lemma_mul_inequality(i as int, q + 1, g);
        assert((q + 1) * g == q * g + g) by (nonlinear_arith);
        assert(q * g == g * q) by (nonlinear_arith);
        lemma_mul_inequality(0, i as int, g);
    }
    i * (p.tile_size * 15)
}

/// Generate the spiral tile layout for well-formed parameters.
///
/// The returned vector is exactly [`spec_layout`]: the samples of an
/// expanding spiral, clipped to the tiles that lie fully inside the
/// rectangle, in sampling order and without deduplication.
#[verifier::rlimit(50)]
pub fn generate(p: Params) -> (tiles: Vec<Tile>)
    requires
        p.wf(),
    ensures
        tiles@ == spec_layout(p),
        all_tiles_in_bounds(p, tiles@),
{
    let least: u64 = if p.width <= p.height {
        p.width
    } else {
        p.height
    };
    let limit: u64 = least * 500;
    let growth: u64 = p.tile_size * 15;
    let mut tiles: Vec<Tile> = Vec::new();
    let mut angle: u64 = 0;
    let mut radius: u64 = 0;
    let mut i: u64 = 0;
    proof {
        lemma_iter_count_exact(p);
        assert(radius_at(p, 0) == 0);
        assert(angle_at(0) == 0);
        assert(tiles@ == layout_prefix(p, 0));
    }
    while radius < limit
        invariant
            p.wf(),
            growth == p.growth(),
            limit == p.radius_limit(),
            i <= p.iter_count(),
            radius == radius_at(p, i as int),
            angle == angle_at(i as int),
            tiles@ == layout_prefix(p, i as int),
            p.iter_count() >= 1,
            radius_at(p, p.iter_count()) >= p.radius_limit(),
            forall|j: int| 0 <= j < p.iter_count() ==> radius_at(p, j) < p.radius_limit(),
        decreases p.iter_count() - i,
    {
        proof {
            if i as int >= p.iter_count() {
                lemma_radius_nondecreasing(p, p.iter_count(), i as int);
            }
            assert(i < p.iter_count());
            // The angle stays far below `MAX_ANGLE`: there are at most
            // `ceil((10^12 - 1) / 15) + 1` steps of 200_000 micro-radians.
            lemma_div_is_ordered(limit - 1, 1_000_000_000_000 - 1, growth as int);
            lemma_div_is_ordered_by_denominator(1_000_000_000_000 - 1, 15, growth as int);
            assert(p.iter_count() <= 66_666_666_667);
            lemma_mul_inequality(i as int, 66_666_666_667, ANGULAR_STEP as int);
            // The sampling radius in micro-units stays below 10^9.
            lemma_div_pos_is_pos(radius as int, 1_000);
            lemma_div_is_ordered(radius as int, 1_000_000_000_000 - 1, 1_000);
        }
        let r: u64 = radius / 1_000;
        let c: u64 = trig::cos_shift(angle);
        let s: u64 = trig::sin_shift(angle);
        proof {
            vstd::arithmetic::mul::lemma_mul_upper_bound(c as int, 2_000_000, r as int, 999_999_999);
            vstd::arithmetic::mul::lemma_mul_upper_bound(s as int, 2_000_000, r as int, 999_999_999);
            lemma_div_pos_is_pos(c as int * r as int, SCALE as int);
            lemma_div_is_ordered(c as int * r as int, (2_000_000 as int) * 999_999_999, SCALE as int);
            lemma_div_pos_is_pos(s as int * r as int, SCALE as int);
            lemma_div_is_ordered(s as int * r as int, (2_000_000 as int) * 999_999_999, SCALE as int);
        }
        let xs: u64 = p.width / 2 + (c * r) / SCALE;
        let ys: u64 = p.height / 2 + (s * r) / SCALE;
        proof {
            assert(xs == sample_x_shift(p, i as int));
            assert(ys == sample_y_shift(p, i as int));
        }
        if xs >= r && xs + p.tile_size <= p.width + r && ys >= r && ys + p.tile_size <= p.height + r {
            tiles.push(Tile { x: xs - r, y: ys - r });
            proof {
                assert(sample_emitted(p, i as int));
                assert(tiles@ == layout_prefix(p, i as int + 1));
            }
        } else {
            proof {
                assert(!sample_emitted(p, i as int));
                assert(tiles@ == layout_prefix(p, i as int + 1));
            }
        }
        proof {
            let gi = i as int;
            let g = p.growth();
            assert((gi + 1) * g == gi * g + g) by (nonlinear_arith);
            assert(radius_at(p, gi + 1) == radius_at(p, gi) + growth);
            assert(angle_at(gi + 1) == angle_at(gi) + 200_000);
        }
        angle = angle + ANGULAR_STEP;
        radius = radius + growth;
        i = i + 1;
    }
    proof {
        assert(i == p.iter_count());
        lemma_layout_within_bounds(p);
    }
    tiles
}

} // verus!

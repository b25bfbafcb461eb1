//! The focus system searches for interesting spots based on variance.
//!
//! A pixel's score is the variance of the iteration counts in the square
//! window around it, times a bias towards the grid's center.  Both factors are
//! rationals with fixed denominators, so a score is held as the integer
//! `variance * SAMPLE_SIZE^2 * bias * 2 * MAX_DIST_SQ`: the real score is that
//! integer divided by [`SCORE_UNIT`].

use crate::math::{
    get_iteration_field, iteration_field, lemma_offset_within_radius, lemma_pixel_offset_bound,
    offset_to_plane, pixel_step, pixel_x, pixel_y, viewport_ok, ComplexNumber, COORD_LIMIT,
    MAX_ITER, PLANE_LIMIT,
};
use crate::parallel::par_map_range;
use crate::{FIELD_LEN, WINDOW_HEIGHT, WINDOW_WIDTH};
use itertools::Itertools;
use vstd::prelude::*;

verus! {

/// The window used for the variance has a side of `2 * WINDOW_STEP + 1` pixels.
pub const WINDOW_STEP: i64 = 5;

/// The number of samples in a window.
pub const SAMPLE_SIZE: i64 = 121;

/// The squared distance from the grid's center to a corner.
pub const MAX_DIST_SQ: i64 = 539200;

/// The integer that stands for a score of one: `SAMPLE_SIZE^2 * 2 * MAX_DIST_SQ`.
pub const SCORE_UNIT: i64 = 15788854400;

/// The highest score a pixel can reach: variance 10000 at the grid's center.
pub const MAX_SCORE: i64 = 157888544000000;

/// Whether `f` is an iteration field: one count in `[0, MAX_ITER]` per pixel.
pub open spec fn is_field(f: Seq<u16>) -> bool {
    f.len() == FIELD_LEN && forall|i: int| 0 <= i < f.len() ==> #[trigger] f[i] <= MAX_ITER
}

/// Horizontal offset of the `j`-th sample of a window from its center.
pub open spec fn offset_dx(j: int) -> int {
    j / (2 * WINDOW_STEP + 1) - WINDOW_STEP
}

/// Vertical offset of the `j`-th sample of a window from its center.
pub open spec fn offset_dy(j: int) -> int {
    j % (2 * WINDOW_STEP + 1) - WINDOW_STEP
}

/// Whether pixel `idx` lies within `WINDOW_STEP` of a border of the grid.
pub open spec fn on_border(idx: int) -> bool {
    let x = idx % (WINDOW_WIDTH as int);
    let y = idx / (WINDOW_WIDTH as int);
    x < WINDOW_STEP || y < WINDOW_STEP || x >= WINDOW_WIDTH - WINDOW_STEP || y >= WINDOW_HEIGHT
        - WINDOW_STEP
}

/// The `j`-th sample of the window around pixel `idx`.
pub open spec fn window_value(f: Seq<u16>, idx: int, j: int) -> int {
    let x = idx % (WINDOW_WIDTH as int);
    let y = idx / (WINDOW_WIDTH as int);
    f[(y + offset_dy(j)) * WINDOW_WIDTH + x + offset_dx(j)] as int
}

/// Sum of the first `n` samples of the window around pixel `idx`.
pub open spec fn window_sum(f: Seq<u16>, idx: int, n: nat) -> int
    decreases n,
{
    if n == 0 {
        0
    } else {
        window_sum(f, idx, (n - 1) as nat) + window_value(f, idx, n - 1)
    }
}

/// Sum of the squares of the first `n` samples of the window around pixel `idx`.
pub open spec fn window_sq_sum(f: Seq<u16>, idx: int, n: nat) -> int
    decreases n,
{
    if n == 0 {
        0
    } else {
        window_sq_sum(f, idx, (n - 1) as nat) + window_value(f, idx, n - 1) * window_value(
            f,
            idx,
            n - 1,
        )
    }
}

/// The center bias `1 - 0.5 * dist_sq / MAX_DIST_SQ` of pixel `idx`, times `2 * MAX_DIST_SQ`.
pub open spec fn center_bias(idx: int) -> int {
    2 * MAX_DIST_SQ - (pixel_x(idx) * pixel_x(idx) + pixel_y(idx) * pixel_y(idx))
}

/// The window's variance times `SAMPLE_SIZE^2`.
pub open spec fn window_variance(f: Seq<u16>, idx: int) -> int {
    SAMPLE_SIZE * window_sq_sum(f, idx, SAMPLE_SIZE as nat) - window_sum(f, idx, SAMPLE_SIZE as nat)
        * window_sum(f, idx, SAMPLE_SIZE as nat)
}

/// The score of pixel `idx`, in units of `1 / SCORE_UNIT`; zero on the border.
pub open spec fn pixel_score(f: Seq<u16>, idx: int) -> int {
    if on_border(idx) {
        0
    } else {
        window_variance(f, idx) * center_bias(idx)
    }
}

/// The first pixel of the first `n` with the highest score.
pub open spec fn best_index(f: Seq<u16>, n: nat) -> int
    decreases n,
{
    if n <= 1 {
        0
    } else {
        let b = best_index(f, (n - 1) as nat);
        if pixel_score(f, n - 1) > pixel_score(f, b) {
            n - 1
        } else {
            b
        }
    }
}

/// The pixel that the focus settles on: the first one with the highest score.
pub open spec fn focus_index(f: Seq<u16>) -> int {
    best_index(f, FIELD_LEN as nat)
}

/// Relies on itertools' `cartesian_product`: all pairs of the two ranges, in
/// order, the first component varying slowest.
#[verifier::external_body]
fn window_offsets(k: i64) -> (r: Vec<(i64, i64)>)
    requires
        0 <= k <= 1000,
    ensures
        r@.len() == (2 * k + 1) * (2 * k + 1),
        forall|j: int|
            0 <= j < r@.len() ==> (#[trigger] r@[j]).0 == j / (2 * k + 1) - k && r@[j].1 == j % (
            2 * k + 1) - k,
{
    (-k..=k).cartesian_product(-k..=k).collect()
}

/// The score of pixel `idx` of the field, given the window's offsets.
fn score_pixel(in_field: &Vec<u16>, offsets: &Vec<(i64, i64)>, idx: usize) -> (r: i64)
    requires
        is_field(in_field@),
        offsets@.len() == SAMPLE_SIZE,
        forall|j: int|
            0 <= j < SAMPLE_SIZE ==> (#[trigger] offsets@[j]).0 == offset_dx(j) && offsets@[j].1
                == offset_dy(j),
        idx < FIELD_LEN,
    ensures
        r == pixel_score(in_field@, idx as int),
        r <= MAX_SCORE,
{
    let x = (idx % WINDOW_WIDTH) as i64;
    let y = (idx / WINDOW_WIDTH) as i64;
    if x < WINDOW_STEP || y < WINDOW_STEP || x >= WINDOW_WIDTH as i64 - WINDOW_STEP || y
        >= WINDOW_HEIGHT as i64 - WINDOW_STEP {
        return 0;
    }
    let mut sum: i64 = 0;
    let mut sq_sum: i64 = 0;
    let mut j: usize = 0;
    while j < offsets.len()
        invariant
            is_field(in_field@),
            offsets@.len() == SAMPLE_SIZE,
            forall|j: int|
                0 <= j < SAMPLE_SIZE ==> (#[trigger] offsets@[j]).0 == offset_dx(j)
                    && offsets@[j].1 == offset_dy(j),
            idx < FIELD_LEN,
            x == idx % WINDOW_WIDTH,
            y == idx / WINDOW_WIDTH,
            WINDOW_STEP <= x < WINDOW_WIDTH - WINDOW_STEP,
            WINDOW_STEP <= y < WINDOW_HEIGHT - WINDOW_STEP,
            j <= SAMPLE_SIZE,
            sum == window_sum(in_field@, idx as int, j as nat),
            sq_sum == window_sq_sum(in_field@, idx as int, j as nat),
            0 <= sum <= 100 * j,
            0 <= sq_sum <= 10000 * j,
        decreases SAMPLE_SIZE - j,
    {
        let dx = offsets[j].0;
        let dy = offsets[j].1;
        proof {
            lemma_window_offset_range(j as int);
            assert(dx == offset_dx(j as int) && dy == offset_dy(j as int));
        }
        let pos = ((y + dy) * (WINDOW_WIDTH as i64) + x + dx) as usize;
        assert(0 <= y + dy < WINDOW_HEIGHT);
        assert(0 <= x + dx < WINDOW_WIDTH);
        assert(pos == (y + dy) * WINDOW_WIDTH + x + dx);
        assert(pos < FIELD_LEN);
        let v = in_field[pos] as i64;
        proof {
            assert(0 <= v * v <= 10000) by (nonlinear_arith)
                requires
                    0 <= v <= 100,
            ;
        }
        sum = sum + v;
        sq_sum = sq_sum + v * v;
        j = j + 1;
    }
    let dxc = x - (WINDOW_WIDTH / 2) as i64;
    let dyc = y - (WINDOW_HEIGHT / 2) as i64;
    proof {
        lemma_score_bounds(sum as int, sq_sum as int, dxc as int, dyc as int);
    }
    let variance = SAMPLE_SIZE * sq_sum - sum * sum;
    let bias = 2 * MAX_DIST_SQ - (dxc * dxc + dyc * dyc);
    variance * bias
}

proof fn lemma_window_offset_range(j: int)
    requires
        0 <= j < SAMPLE_SIZE,
    ensures
        -WINDOW_STEP <= offset_dx(j) <= WINDOW_STEP,
        -WINDOW_STEP <= offset_dy(j) <= WINDOW_STEP,
{
    assert(0 <= j / 11 <= 10 && 0 <= j % 11 <= 10) by (nonlinear_arith)
        requires
            0 <= j < 121,
    ;
}

proof fn lemma_score_bounds(sum: int, sq_sum: int, dxc: int, dyc: int)
    requires
        0 <= sum <= 12100,
        0 <= sq_sum <= 1210000,
        -640 <= dxc <= 640,
        -360 <= dyc <= 360,
    ensures
        0 <= sum * sum <= 146410000,
        0 <= dxc * dxc <= 409600,
        0 <= dyc * dyc <= 129600,
        -146410000 <= SAMPLE_SIZE * sq_sum - sum * sum <= 146410000,
        -MAX_SCORE <= (SAMPLE_SIZE * sq_sum - sum * sum) * (2 * MAX_DIST_SQ - (dxc * dxc + dyc
            * dyc)) <= MAX_SCORE,
{
    assert(0 <= sum * sum <= 146410000) by (nonlinear_arith)
        requires
            0 <= sum <= 12100,
    ;
    assert(0 <= dxc * dxc <= 409600) by (nonlinear_arith)
        requires
            -640 <= dxc <= 640,
    ;
    assert(0 <= dyc * dyc <= 129600) by (nonlinear_arith)
        requires
            -360 <= dyc <= 360,
    ;
    let v = SAMPLE_SIZE * sq_sum - sum * sum;
    let b = 2 * MAX_DIST_SQ - (dxc * dxc + dyc * dyc);
    assert(-MAX_SCORE <= v * b <= MAX_SCORE) by (nonlinear_arith)
        requires
            -146410000 <= v <= 146410000,
            0 <= b <= 1078400,
    ;
}

/// Index of the first pixel with the highest score, given all scores.
fn arg_max(in_field: &Vec<u16>, scores: &Vec<i64>) -> (r: usize)
    requires
        scores@.len() == FIELD_LEN,
        forall|i: int| 0 <= i < FIELD_LEN ==> #[trigger] scores@[i] == pixel_score(in_field@, i),
    ensures
        r == focus_index(in_field@),
        r < FIELD_LEN,
{
    let mut best: usize = 0;
    let mut i: usize = 1;
    while i < scores.len()
        invariant
            scores@.len() == FIELD_LEN,
            forall|i: int| 0 <= i < FIELD_LEN ==> #[trigger] scores@[i] == pixel_score(in_field@, i),
            1 <= i <= FIELD_LEN,
            best < i,
            best == best_index(in_field@, i as nat),
        decreases FIELD_LEN - i,
    {
        if scores[i] > scores[best] {
            best = i;
        }
        i = i + 1;
    }
    best
}

/// The first pixel with the highest score has the highest score of all, and
/// every pixel before it scores less.
pub proof fn lemma_best_index(f: Seq<u16>, n: nat)
    requires
        n >= 1,
    ensures
        0 <= best_index(f, n) < n,
        forall|j: int| 0 <= j < n ==> #[trigger] pixel_score(f, j) <= pixel_score(f, best_index(f, n)),
        forall|j: int|
            0 <= j < best_index(f, n) ==> #[trigger] pixel_score(f, j) < pixel_score(f, best_index(f, n)),
    decreases n,
{
    if n > 1 {
        lemma_best_index(f, (n - 1) as nat);
    }
}

/// A field whose counts are all equal scores zero at every pixel, so its
/// focus scores zero.
pub proof fn lemma_flat_field_scores_zero(f: Seq<u16>, v: u16)
    requires
        is_field(f),
        forall|i: int| 0 <= i < f.len() ==> #[trigger] f[i] == v,
    ensures
        forall|idx: int| 0 <= idx < FIELD_LEN ==> #[trigger] pixel_score(f, idx) == 0,
        pixel_score(f, focus_index(f)) == 0,
{
    assert forall|idx: int| 0 <= idx < FIELD_LEN implies #[trigger] pixel_score(f, idx) == 0 by {
        if !on_border(idx) {
            lemma_flat_window(f, v, idx, SAMPLE_SIZE as nat);
            let s = window_sum(f, idx, SAMPLE_SIZE as nat);
            let q = window_sq_sum(f, idx, SAMPLE_SIZE as nat);
            assert(SAMPLE_SIZE * q - s * s == 0) by (nonlinear_arith)
                requires
                    s == 121 * v,
                    q == 121 * (v * v),
            ;
            assert(window_variance(f, idx) == 0);
            let b = center_bias(idx);
            assert(0 * b == 0) by (nonlinear_arith);
        }
    }
    lemma_best_index(f, FIELD_LEN as nat);
}

proof fn lemma_flat_window(f: Seq<u16>, v: u16, idx: int, n: nat)
    requires
        is_field(f),
        forall|i: int| 0 <= i < f.len() ==> #[trigger] f[i] == v,
        0 <= idx < FIELD_LEN,
        !on_border(idx),
        n <= SAMPLE_SIZE,
    ensures
        window_sum(f, idx, n) == n * v,
        window_sq_sum(f, idx, n) == n * (v * v),
    decreases n,
{
    if n > 0 {
        lemma_flat_window(f, v, idx, (n - 1) as nat);
        lemma_window_offset_range(n - 1);
        assert(window_value(f, idx, n - 1) == v);
        assert(n * v == (n - 1) * v + v) by (nonlinear_arith);
        assert(n * (v * v) == (n - 1) * (v * v) + v * v) by (nonlinear_arith);
    }
}

/// Where some pixel scores above zero, the focus does not lie within
/// `WINDOW_STEP` of a border.
pub proof fn lemma_focus_avoids_border(f: Seq<u16>, i: int)
    requires
        0 <= i < FIELD_LEN,
        pixel_score(f, i) > 0,
    ensures
        !on_border(focus_index(f)),
        WINDOW_STEP <= focus_index(f) % (WINDOW_WIDTH as int) < WINDOW_WIDTH - WINDOW_STEP,
        WINDOW_STEP <= focus_index(f) / (WINDOW_WIDTH as int) < WINDOW_HEIGHT - WINDOW_STEP,
{
    lemma_best_index(f, FIELD_LEN as nat);
    assert(pixel_score(f, i) <= pixel_score(f, focus_index(f)));
}

/// Converting a pixel offset into a plane position and back, for the same
/// viewport, gives the offset again.
pub proof fn lemma_offset_round_trip(center: (int, int), radius: int, x_pos: int, y_pos: int)
    requires
        pixel_step(radius) > 0,
    ensures
        (offset_to_plane(center, radius, x_pos, y_pos).0 - center.0) / pixel_step(radius) == x_pos,
        (offset_to_plane(center, radius, x_pos, y_pos).1 - center.1) / pixel_step(radius) == y_pos,
{
    let s = pixel_step(radius);
    assert((x_pos * s) / s == x_pos) by (nonlinear_arith)
        requires
            s > 0,
    ;
    assert((y_pos * s) / s == y_pos) by (nonlinear_arith)
        requires
            s > 0,
    ;
}

/// Contains a point to focus on with an evaluation.
#[derive(Clone, Copy, Debug, PartialEq, Eq)]
pub struct FocusPointWithScore {
    /// Horizontal offset of the focus from the grid's center, in pixels.
    pub x_pos: i64,
    /// Vertical offset of the focus from the grid's center, in pixels.
    pub y_pos: i64,
    /// The score of the point, in units of `1 / SCORE_UNIT`.
    pub score: i64,
}

impl FocusPointWithScore {
    /// Gets the focus point (and its score) of the iteration field handed over:
    /// the first pixel, in row order, with the highest score.
    pub fn new(in_field: &Vec<u16>) -> (r: FocusPointWithScore)
        requires
            is_field(in_field@),
        ensures
            r.x_pos == pixel_x(focus_index(in_field@)),
            r.y_pos == pixel_y(focus_index(in_field@)),
            r.score == pixel_score(in_field@, focus_index(in_field@)),
            0 <= focus_index(in_field@) < FIELD_LEN,
            forall|j: int| 0 <= j < FIELD_LEN ==> #[trigger] pixel_score(in_field@, j) <= r.score,
            forall|j: int|
                0 <= j < focus_index(in_field@) ==> #[trigger] pixel_score(in_field@, j) < r.score,
            r.score <= MAX_SCORE,
    {
        let offsets = window_offsets(WINDOW_STEP);
        assert((2 * WINDOW_STEP + 1) * (2 * WINDOW_STEP + 1) == SAMPLE_SIZE) by (nonlinear_arith);
        let offs = &offsets;
        let f = |i: usize| -> (s: i64)
            requires
                i < FIELD_LEN,
            ensures
                s == pixel_score(in_field@, i as int),
                s <= MAX_SCORE,
            { score_pixel(in_field, offs, i) };
        let scores = par_map_range(FIELD_LEN, f);
        let best = arg_max(in_field, &scores);
        proof {
            lemma_best_index(in_field@, FIELD_LEN as nat);
        }
        FocusPointWithScore {
            x_pos: (best % WINDOW_WIDTH) as i64 - (WINDOW_WIDTH / 2) as i64,
            y_pos: (best / WINDOW_WIDTH) as i64 - (WINDOW_HEIGHT / 2) as i64,
            score: scores[best],
        }
    }

    /// Given the center and radius of the viewport that the field shows, the
    /// focus gets converted into a position in the complex number plane.
    pub fn get_absolute_focus_in_complex_number_pane(&self, center: &ComplexNumber, radius: i64) -> (r:
        ComplexNumber)
        requires
            viewport_ok(center@, radius as int),
            -640 <= self.x_pos <= 640,
            -360 <= self.y_pos <= 360,
        ensures
            r@ == offset_to_plane(center@, radius as int, self.x_pos as int, self.y_pos as int),
            r.within(COORD_LIMIT as int),
            -2 * radius <= r.real - center.real <= 2 * radius,
            -2 * radius <= r.imag - center.imag <= 2 * radius,
    {
        let step = radius / (WINDOW_HEIGHT as i64 / 2);
        proof {
            lemma_offset_within_radius(self.x_pos as int, radius as int);
            lemma_offset_within_radius(self.y_pos as int, radius as int);
            lemma_pixel_offset_bound(self.x_pos as int, step as int);
            lemma_pixel_offset_bound(self.y_pos as int, step as int);
        }
        ComplexNumber::new(center.real + self.x_pos * step, center.imag + self.y_pos * step)
    }

    /// The score of the point, in units of `1 / SCORE_UNIT`.
    pub fn score(&self) -> (r: i64)
        ensures
            r == self.score,
    {
        self.score
    }
}

/// The score that a candidate of the search must beat (50.0).
pub const ITER_MINIMUM_SCORE: i64 = 789442720000;

/// The number of random samples that the search scores.
pub const NUM_OF_SAMPLES_FOR_FOCUS: u8 = 10;

/// The radius of the viewports that the search samples (0.1).
pub const START_FOCUS_RADIUS: i64 = 7205759403792793;

/// Random coordinates are drawn on a grid of `2^-40`; this scales a grid
/// coordinate into the fixed-point format.
pub const GRID_SCALE: i64 = 65536;

/// Bounds, on the `2^-40` grid, of the rectangle that the search samples:
/// real part in `[-2, 1]`, imaginary part in `[-1, 1]`.
pub const SEARCH_RE_MIN: i64 = -2199023255552;

pub const SEARCH_RE_MAX: i64 = 1099511627776;

pub const SEARCH_IM_MIN: i64 = -1099511627776;

pub const SEARCH_IM_MAX: i64 = 1099511627776;

/// Bounds, on the `2^-40` grid, of the rectangle that a reset picks its
/// fallback point from: real part in `[-2, -1]`, imaginary part in `[-0.1, 0.1]`.
pub const FALLBACK_RE_MIN: i64 = -2199023255552;

pub const FALLBACK_RE_MAX: i64 = -1099511627776;

pub const FALLBACK_IM_MIN: i64 = -109951162777;

pub const FALLBACK_IM_MAX: i64 = 109951162777;

/// Whether `p` lies in the rectangle with the given bounds on the `2^-40` grid.
pub open spec fn in_grid_rect(p: ComplexNumber, re_min: int, re_max: int, im_min: int, im_max: int) -> bool {
    re_min * GRID_SCALE <= p.real <= re_max * GRID_SCALE && im_min * GRID_SCALE <= p.imag <= im_max
        * GRID_SCALE
}

/// Whether `p` lies in the rectangle that the search samples.
pub open spec fn in_search_rect(p: ComplexNumber) -> bool {
    in_grid_rect(p, SEARCH_RE_MIN as int, SEARCH_RE_MAX as int, SEARCH_IM_MIN as int, SEARCH_IM_MAX as int)
}

/// Whether `p` lies in the rectangle of fallback points.
pub open spec fn in_fallback_rect(p: ComplexNumber) -> bool {
    in_grid_rect(
        p,
        FALLBACK_RE_MIN as int,
        FALLBACK_RE_MAX as int,
        FALLBACK_IM_MIN as int,
        FALLBACK_IM_MAX as int,
    )
}

/// Relies on macroquad's `rand::gen_range` for `i64`, which computes
/// `low + (high - low) * u` in double precision, for a `u` in `[0, 1)`, and
/// truncates it: with both bounds within `2^52` of zero every value is exact,
/// so the result lies in `[low, high]`.
#[verifier::external_body]
fn random_in_range(low: i64, high: i64) -> (r: i64)
    requires
        -0x10000000000000 <= low <= high <= 0x10000000000000,
    ensures
        low <= r <= high,
{
    macroquad::rand::gen_range(low, high)
}

/// A random point of the rectangle with the given bounds on the `2^-40` grid.
fn random_point(re_min: i64, re_max: i64, im_min: i64, im_max: i64) -> (r: ComplexNumber)
    requires
        -0x80000000000 <= re_min <= re_max <= 0x80000000000,
        -0x80000000000 <= im_min <= im_max <= 0x80000000000,
    ensures
        in_grid_rect(r, re_min as int, re_max as int, im_min as int, im_max as int),
        r.real % GRID_SCALE == 0,
        r.imag % GRID_SCALE == 0,
{
    let re = random_in_range(re_min, re_max);
    let im = random_in_range(im_min, im_max);
    ComplexNumber::new(re * GRID_SCALE, im * GRID_SCALE)
}

/// The score that [`find_interesting_start`] asks of a start point (600.0).
pub const START_SCORE: i64 = 9473312640000;

/// The point that [`find_interesting_start`] falls back to: the Feigenbaum
/// point, -1.4 on the real axis.
pub const FEIGENBAUM_REAL: i64 = -100880631653099110;

/// Bounds, on the `2^-40` grid, of the rectangle that [`find_interesting_start`]
/// samples: real part in `[-2, -1]`, imaginary part in `[-1, 1]`.
pub const START_RE_MIN: i64 = -2199023255552;

pub const START_RE_MAX: i64 = -1099511627776;

pub const START_IM_MIN: i64 = -1099511627776;

pub const START_IM_MAX: i64 = 1099511627776;

/// The score of the focus of the field that the search computes around `center`.
pub open spec fn start_score(center: ComplexNumber) -> int {
    let f = iteration_field(center@, START_FOCUS_RADIUS as int);
    pixel_score(f, focus_index(f))
}

/// Searches for a start point at once: samples up to `attempts` random points
/// and returns the first whose field's focus scores above `min_score`, or the
/// Feigenbaum point where none does.
pub fn find_interesting_start(attempts: u32, min_score: i64) -> (r: ComplexNumber)
    ensures
        r == (ComplexNumber { real: FEIGENBAUM_REAL, imag: 0 }) || (in_grid_rect(
            r,
            START_RE_MIN as int,
            START_RE_MAX as int,
            START_IM_MIN as int,
            START_IM_MAX as int,
        ) && start_score(r) > min_score),
        attempts == 0 || min_score >= MAX_SCORE ==> r == (ComplexNumber {
            real: FEIGENBAUM_REAL,
            imag: 0,
        }),
        attempts > 0 && min_score < 0 ==> r != (ComplexNumber { real: FEIGENBAUM_REAL, imag: 0 })
            && in_grid_rect(
            r,
            START_RE_MIN as int,
            START_RE_MAX as int,
            START_IM_MIN as int,
            START_IM_MAX as int,
        ) && start_score(r) > min_score,
        r.within(PLANE_LIMIT as int),
{
    assert(FEIGENBAUM_REAL % GRID_SCALE != 0);
    let mut i: u32 = 0;
    while i < attempts
        invariant
            i <= attempts,
            min_score < 0 ==> i == 0,
        decreases attempts - i,
    {
        let test = random_point(START_RE_MIN, START_RE_MAX, START_IM_MIN, START_IM_MAX);
        let num_array = get_iteration_field(&test, START_FOCUS_RADIUS);
        let focus = FocusPointWithScore::new(&num_array);
        proof {
            // Pixel 0 lies on the border and scores zero, so no focus scores below zero.
            assert(on_border(0));
            assert(pixel_score(num_array@, 0) == 0);
            assert(pixel_score(num_array@, 0) <= focus.score);
        }
        if focus.score() > min_score {
            return test;
        }
        i = i + 1;
    }
    ComplexNumber::new(FEIGENBAUM_REAL, 0)
}

/// Whether the search's best point and score come from the focus of the
/// field sampled around `t`.
pub open spec fn adopted_from(s: StartPointForZoom, t: ComplexNumber) -> bool {
    let f = iteration_field(t@, START_FOCUS_RADIUS as int);
    let i = focus_index(f);
    &&& in_search_rect(t)
    &&& s.score == pixel_score(f, i)
    &&& s.starting_point@ == offset_to_plane(t@, START_FOCUS_RADIUS as int, pixel_x(i), pixel_y(i))
}

/// This is a helper struct to generate an interesting start point for zoom.
///
/// The search alternates between two phases: sampling a random viewport and
/// computing its field, then scoring that field and keeping its focus where
/// it beats the best score so far.
pub struct StartPointForZoom {
    /// The best point found so far, or the fallback point.
    pub starting_point: ComplexNumber,
    /// The score of the best point, in units of `1 / SCORE_UNIT`.
    pub score: i64,
    /// The number of samples that are left to score.
    pub remaining_iteration: u8,
    /// A sampled field that waits to be scored, with the center it was computed at.
    pub precomputed_field: Option<(Vec<u16>, ComplexNumber)>,
}

/// How one phase of the search changes it (see [`StartPointForZoom::try_improve`]).
pub open spec fn improve_step(o: StartPointForZoom, n: StartPointForZoom) -> bool {
    &&& o.remaining_iteration == 0 ==> n == o
    &&& o.remaining_iteration > 0 ==> match o.precomputed_field {
        Some((f, t)) => {
            let i = focus_index(f@);
            let s = pixel_score(f@, i);
            &&& n.remaining_iteration == o.remaining_iteration - 1
            &&& n.precomputed_field is None
            &&& s > o.score ==> n.score == s && n.starting_point@ == offset_to_plane(
                t@,
                START_FOCUS_RADIUS as int,
                pixel_x(i),
                pixel_y(i),
            )
            &&& s <= o.score ==> n.score == o.score && n.starting_point == o.starting_point
        },
        None => {
            &&& n.remaining_iteration == o.remaining_iteration
            &&& n.score == o.score
            &&& n.starting_point == o.starting_point
            &&& n.precomputed_field is Some
        },
    }
}

impl StartPointForZoom {
    /// The search's state is consistent: the best point can serve as a viewport
    /// center and a pending field is the field of a sample of the search rectangle.
    pub open spec fn wf(&self) -> bool {
        &&& self.starting_point.within(PLANE_LIMIT as int)
        &&& match self.precomputed_field {
            Some((f, t)) => in_search_rect(t) && f@ == iteration_field(t@, START_FOCUS_RADIUS as int)
                && is_field(f@),
            None => true,
        }
    }

    /// Extracts the current starting point.
    pub fn starting_point(&self) -> (r: &ComplexNumber)
        ensures
            *r == self.starting_point,
    {
        &self.starting_point
    }

    /// Does one phase of the search.  With no samples left it does nothing.
    /// Otherwise, where no field waits, it samples a random point of the search
    /// rectangle and computes its field; where one waits, it scores it, adopts
    /// its focus where that beats the best score, and drops the field.
    pub fn try_improve(&mut self)
        requires
            old(self).wf(),
        ensures
            final(self).wf(),
            improve_step(*old(self), *final(self)),
    {
        if self.remaining_iteration == 0 {
            return;
        }
        match self.precomputed_field.take() {
            Some((num_array, test)) => {
                self.remaining_iteration = self.remaining_iteration - 1;
                let focus = FocusPointWithScore::new(&num_array);
                if focus.score() > self.score {
                    self.score = focus.score();
                    self.starting_point = focus.get_absolute_focus_in_complex_number_pane(
                        &test,
                        START_FOCUS_RADIUS,
                    );
                }
            },
            None => {
                let test = random_point(SEARCH_RE_MIN, SEARCH_RE_MAX, SEARCH_IM_MIN, SEARCH_IM_MAX);
                let num_array = get_iteration_field(&test, START_FOCUS_RADIUS);
                self.precomputed_field = Some((num_array, test));
            },
        }
    }

    /// Resets the search: it picks a random fallback point right away, so
    /// that there is a destination even if no sample beats the minimum score.
    pub fn reset_iteration(&mut self)
        ensures
            final(self).wf(),
            final(self).remaining_iteration == NUM_OF_SAMPLES_FOR_FOCUS,
            final(self).score == ITER_MINIMUM_SCORE,
            in_fallback_rect(final(self).starting_point),
            final(self).precomputed_field is None,
    {
        self.remaining_iteration = NUM_OF_SAMPLES_FOR_FOCUS;
        self.score = ITER_MINIMUM_SCORE;
        self.starting_point = random_point(
            FALLBACK_RE_MIN,
            FALLBACK_RE_MAX,
            FALLBACK_IM_MIN,
            FALLBACK_IM_MAX,
        );
        self.precomputed_field = None;
    }

    /// Runs the whole search at once, both phases of every sample.  This
    /// stalls for all the samples' fields, so it is meant for the start only.
    pub fn prepare_start() -> (r: StartPointForZoom)
        ensures
            r.wf(),
            r.remaining_iteration == 0,
            r.precomputed_field is None,
            r.score >= ITER_MINIMUM_SCORE,
            r.score == ITER_MINIMUM_SCORE ==> in_fallback_rect(r.starting_point),
            r.score > ITER_MINIMUM_SCORE ==> exists|t: ComplexNumber| #[trigger] adopted_from(r, t),
    {
        let mut result = StartPointForZoom::default();
        result.reset_iteration();
        let mut i: u8 = 0;
        while i < NUM_OF_SAMPLES_FOR_FOCUS * 2
            invariant
                result.wf(),
                i <= NUM_OF_SAMPLES_FOR_FOCUS * 2,
                result.remaining_iteration == NUM_OF_SAMPLES_FOR_FOCUS - i / 2,
                result.precomputed_field is Some <==> i % 2 == 1,
                result.score >= ITER_MINIMUM_SCORE,
                result.score == ITER_MINIMUM_SCORE ==> in_fallback_rect(result.starting_point),
                result.score > ITER_MINIMUM_SCORE ==> exists|t: ComplexNumber|
                    #[trigger] adopted_from(result, t),
            decreases NUM_OF_SAMPLES_FOR_FOCUS * 2 - i,
        {
            let ghost before = result;
            result.try_improve();
            proof {
                if result.score > ITER_MINIMUM_SCORE {
                    if result.score == before.score && result.starting_point == before.starting_point {
                        let t = choose|t: ComplexNumber| #[trigger] adopted_from(before, t);
                        assert(adopted_from(result, t));
                    } else {
                        match before.precomputed_field {
                            Some((f, t)) => {
                                assert(adopted_from(result, t));
                            },
                            None => {},
                        }
                    }
                }
            }
            i = i + 1;
        }
        result
    }
}

impl Default for StartPointForZoom {
    fn default() -> (r: StartPointForZoom)
        ensures
            r.wf(),
            r.starting_point.real == 0 && r.starting_point.imag == 0,
            r.score == 0,
            r.remaining_iteration == 0,
            r.precomputed_field is None,
    {
        StartPointForZoom {
            starting_point: ComplexNumber { real: 0, imag: 0 },
            score: 0,
            remaining_iteration: 0,
            precomputed_field: None,
        }
    }
}

} // verus!

//! Fixed-point complex arithmetic, the escape-time count and the iteration
//! field of a viewport.

use crate::focus_system::{focus_index, is_field, FocusPointWithScore};
use crate::parallel::par_map_range;
use crate::{FIELD_LEN, WINDOW_HEIGHT, WINDOW_WIDTH};
use vstd::prelude::*;

verus! {

/// The largest iteration count; a point that reaches it counts as inside the set.
pub const MAX_ITER: u16 = 100;

/// The fixed-point value of one: coordinates are held times `2^56`.
pub const ONE: i64 = 72057594037927936;

/// Bound on the coordinates that the escape-time count accepts (64.0).
pub const COORD_LIMIT: i64 = 4611686018427387904;

/// Bound on viewport centers and radii (16.0).
pub const PLANE_LIMIT: i64 = 1152921504606846976;

/// Division that rounds towards zero, as integer division does in Rust.
pub open spec fn trunc_div(n: int, d: int) -> int {
    if n >= 0 {
        n / d
    } else {
        -((-n) / d)
    }
}

/// Product of two fixed-point numbers, rounded towards zero.
pub open spec fn fx_mul(a: int, b: int) -> int {
    trunc_div(a * b, ONE as int)
}

/// Whether a point of the orbit lies outside the circle of radius 2.
pub open spec fn too_large(z: (int, int)) -> bool {
    z.0 * z.0 + z.1 * z.1 > 4 * (ONE as int) * (ONE as int)
}

/// One step `z * z + c` of the orbit.
pub open spec fn orbit_step(z: (int, int), c: (int, int)) -> (int, int) {
    (fx_mul(z.0, z.0) - fx_mul(z.1, z.1) + c.0, fx_mul(2 * z.0, z.1) + c.1)
}

/// The orbit of `c` after `n` steps from zero.
pub open spec fn orbit(c: (int, int), n: nat) -> (int, int)
    decreases n,
{
    if n == 0 {
        (0, 0)
    } else {
        orbit_step(orbit(c, (n - 1) as nat), c)
    }
}

/// The first step count from `n` on at which the orbit is too large, or `MAX_ITER`.
pub open spec fn escape_from(c: (int, int), n: nat) -> nat
    decreases MAX_ITER - n,
{
    if n >= MAX_ITER || too_large(orbit(c, n)) {
        n
    } else {
        escape_from(c, n + 1)
    }
}

/// The escape-time count of `c`.
pub open spec fn escape_time(c: (int, int)) -> nat {
    escape_from(c, 0)
}

/// Distance between neighbouring pixels for a viewport of the given radius.
pub open spec fn pixel_step(radius: int) -> int {
    radius / (WINDOW_HEIGHT as int / 2)
}

/// Horizontal pixel offset of pixel `i` from the grid's center.
pub open spec fn pixel_x(i: int) -> int {
    i % (WINDOW_WIDTH as int) - WINDOW_WIDTH as int / 2
}

/// Vertical pixel offset of pixel `i` from the grid's center.
pub open spec fn pixel_y(i: int) -> int {
    i / (WINDOW_WIDTH as int) - WINDOW_HEIGHT as int / 2
}

/// The plane position that lies the given pixel offsets away from `center`.
pub open spec fn offset_to_plane(center: (int, int), radius: int, x_pos: int, y_pos: int) -> (
    int,
    int,
) {
    (center.0 + x_pos * pixel_step(radius), center.1 + y_pos * pixel_step(radius))
}

/// The plane coordinate that pixel `i` shows.
pub open spec fn pixel_coordinate(center: (int, int), radius: int, i: int) -> (int, int) {
    offset_to_plane(center, radius, pixel_x(i), pixel_y(i))
}

/// The iteration field of a viewport: one escape-time count per pixel, row by row.
pub open spec fn iteration_field(center: (int, int), radius: int) -> Seq<u16> {
    Seq::new(FIELD_LEN as nat, |i: int| escape_time(pixel_coordinate(center, radius, i)) as u16)
}

/// Whether a viewport with this center and radius lies within the plane's bounds.
pub open spec fn viewport_ok(center: (int, int), radius: int) -> bool {
    -PLANE_LIMIT <= center.0 <= PLANE_LIMIT && -PLANE_LIMIT <= center.1 <= PLANE_LIMIT && 0
        <= radius <= PLANE_LIMIT
}

/// Complex number in fixed point.
#[derive(Clone, Copy, Debug, PartialEq, Eq)]
pub struct ComplexNumber {
    pub real: i64,
    pub imag: i64,
}

impl ComplexNumber {
    pub open spec fn view(&self) -> (int, int) {
        (self.real as int, self.imag as int)
    }

    /// Whether both coordinates are within `bound` of zero.
    pub open spec fn within(&self, bound: int) -> bool {
        -bound <= self.real <= bound && -bound <= self.imag <= bound
    }

    /// Constructor.
    pub fn new(re: i64, im: i64) -> (r: ComplexNumber)
        ensures
            r.real == re,
            r.imag == im,
    {
        ComplexNumber { real: re, imag: im }
    }

    /// Checks whether the point lies outside the circle of radius 2.
    pub(crate) fn is_too_large(&self) -> (r: bool)
        requires
            self.within(72 * ONE),
        ensures
            r == too_large(self@),
    {
        let re = self.real as i128;
        let im = self.imag as i128;
        let bound: i128 = 4 * (ONE as i128) * (ONE as i128);
        proof {
            lemma_square_bound(re as int, 72 * ONE);
            lemma_square_bound(im as int, 72 * ONE);
            assert((72 * ONE) * (72 * ONE) == 26916866914644546426302092970676977664) by (nonlinear_arith);
        }
        re * re + im * im > bound
    }

    /// Does one step `self = self * self + offset`.
    pub(crate) fn next_step(&mut self, offset: &ComplexNumber)
        requires
            !too_large(old(self)@),
            offset.within(COORD_LIMIT as int),
        ensures
            final(self)@ == orbit_step(old(self)@, offset@),
            final(self).within(72 * ONE),
    {
        let re = self.real;
        let im = self.imag;
        proof {
            lemma_small_of_not_too_large(re as int, im as int);
        }
        let rr = mul_fixed(re, re);
        let ii = mul_fixed(im, im);
        let ri = mul_fixed(2 * re, im);
        proof {
            lemma_trunc_div_bound(re * re, ONE as int, 4 * ONE);
            lemma_trunc_div_bound(im * im, ONE as int, 4 * ONE);
            lemma_trunc_div_bound(2 * re * im, ONE as int, 8 * ONE);
        }
        self.real = (rr - ii + offset.real as i128) as i64;
        self.imag = (ri + offset.imag as i128) as i64;
    }

    /// Gets the amount of iterations we need till divergence.
    pub fn get_iteration_till_termination(&self) -> (r: u16)
        requires
            self.within(COORD_LIMIT as int),
        ensures
            r == escape_time(self@),
            r <= MAX_ITER,
    {
        let mut iter: u16 = 0;
        let mut scan = ComplexNumber { real: 0, imag: 0 };
        while iter < MAX_ITER && !scan.is_too_large()
            invariant
                iter <= MAX_ITER,
                scan@ == orbit(self@, iter as nat),
                scan.within(72 * ONE),
                self.within(COORD_LIMIT as int),
                escape_from(self@, iter as nat) == escape_from(self@, 0),
            decreases MAX_ITER - iter,
        {
            scan.next_step(self);
            iter += 1;
        }
        iter
    }

    /// Adds `other` to this number.
    pub fn add_into(&mut self, other: &ComplexNumber)
        requires
            i64::MIN <= old(self).real + other.real <= i64::MAX,
            i64::MIN <= old(self).imag + other.imag <= i64::MAX,
        ensures
            final(self).real == old(self).real + other.real,
            final(self).imag == old(self).imag + other.imag,
    {
        self.real = self.real + other.real;
        self.imag = self.imag + other.imag;
    }
}

/// A point outside the circle of radius 2 escapes after its first step, well
/// before `MAX_ITER`.
pub proof fn lemma_escape_outside_disc(c: (int, int))
    requires
        too_large(c),
    ensures
        escape_time(c) == 1,
        escape_time(c) < MAX_ITER,
{
    assert(orbit(c, 0) == (0int, 0int));
    assert(fx_mul(0, 0) == 0) by (nonlinear_arith);
    assert(fx_mul(2 * 0int, 0) == 0) by (nonlinear_arith);
    assert(orbit(c, 1) == orbit_step((0, 0), c));
    assert(orbit(c, 1) == c);
    assert(escape_from(c, 1) == 1);
}

/// The origin never escapes: its count is `MAX_ITER`.
pub proof fn lemma_escape_origin()
    ensures
        escape_time((0, 0)) == MAX_ITER,
{
    lemma_origin_escape_from(0);
}

proof fn lemma_origin_orbit(n: nat)
    ensures
        orbit((0, 0), n) == (0int, 0int),
    decreases n,
{
    if n > 0 {
        lemma_origin_orbit((n - 1) as nat);
        assert(fx_mul(0, 0) == 0) by (nonlinear_arith);
        assert(fx_mul(2 * 0int, 0) == 0) by (nonlinear_arith);
    }
}

proof fn lemma_origin_escape_from(n: nat)
    requires
        n <= MAX_ITER,
    ensures
        escape_from((0, 0), n) == MAX_ITER,
    decreases MAX_ITER - n,
{
    lemma_origin_orbit(n);
    if n < MAX_ITER {
        lemma_origin_escape_from(n + 1);
    }
}

/// Escape-time count of pixel `idx` of the viewport with this center and radius.
pub fn pixel_iteration(center: &ComplexNumber, radius: i64, idx: usize) -> (r: u16)
    requires
        viewport_ok(center@, radius as int),
        idx < FIELD_LEN,
    ensures
        r == escape_time(pixel_coordinate(center@, radius as int, idx as int)),
        r <= MAX_ITER,
{
    let step = radius / (WINDOW_HEIGHT as i64 / 2);
    let x = (idx % WINDOW_WIDTH) as i64 - (WINDOW_WIDTH / 2) as i64;
    let y = (idx / WINDOW_WIDTH) as i64 - (WINDOW_HEIGHT / 2) as i64;
    proof {
        lemma_pixel_offset_bound(x as int, step as int);
        lemma_pixel_offset_bound(y as int, step as int);
    }
    let mut scan = ComplexNumber::new(x * step, y * step);
    scan.add_into(center);
    scan.get_iteration_till_termination()
}

/// The offset in the plane, from the viewport's center, of the focus point of
/// the field, for a viewport of the given radius.
pub fn get_focus_point(in_field: &Vec<u16>, extension: i64) -> (r: ComplexNumber)
    requires
        is_field(in_field@),
        0 <= extension <= PLANE_LIMIT,
    ensures
        r@ == offset_to_plane(
            (0, 0),
            extension as int,
            pixel_x(focus_index(in_field@)),
            pixel_y(focus_index(in_field@)),
        ),
{
    let focus = FocusPointWithScore::new(in_field);
    focus.get_absolute_focus_in_complex_number_pane(&ComplexNumber::new(0, 0), extension)
}

/// A pixel offset of at most 640 pixels spans at most twice the radius.
pub proof fn lemma_offset_within_radius(x: int, radius: int)
    requires
        -640 <= x <= 640,
        0 <= radius,
    ensures
        -2 * radius <= x * pixel_step(radius) <= 2 * radius,
{
    let s = pixel_step(radius);
    assert(0 <= s && 360 * s <= radius) by (nonlinear_arith)
        requires
            s == radius / 360,
            0 <= radius,
    ;
    assert(-640 * s <= x * s <= 640 * s) by (nonlinear_arith)
        requires
            -640 <= x <= 640,
            0 <= s,
    ;
}

pub proof fn lemma_pixel_offset_bound(x: int, step: int)
    requires
        -640 <= x <= 640,
        0 <= step <= PLANE_LIMIT / 360,
    ensures
        -48 * ONE <= x * step <= 48 * ONE,
{
    assert(-640 * step <= x * step <= 640 * step) by (nonlinear_arith)
        requires
            -640 <= x <= 640,
            0 <= step,
    ;
}

/// Generates the iteration field of the viewport with the given center and radius.
pub fn get_iteration_field(center: &ComplexNumber, extension: i64) -> (r: Vec<u16>)
    requires
        viewport_ok(center@, extension as int),
    ensures
        r@ == iteration_field(center@, extension as int),
        forall|i: int| 0 <= i < r@.len() ==> r@[i] <= MAX_ITER,
{
    let c = *center;
    let f = |i: usize| -> (v: u16)
        requires
            i < FIELD_LEN,
        ensures
            v == escape_time(pixel_coordinate(c@, extension as int, i as int)),
            v <= MAX_ITER,
        { pixel_iteration(&c, extension, i) };
    let r = par_map_range(FIELD_LEN, f);
    assert(r@ =~= iteration_field(center@, extension as int));
    r
}

/// Product of two fixed-point numbers, rounded towards zero.
fn mul_fixed(a: i64, b: i64) -> (r: i128)
    ensures
        r == fx_mul(a as int, b as int),
{
    proof {
        lemma_product_fits(a as int, b as int);
    }
    div_trunc((a as i128) * (b as i128), ONE as i128)
}

/// Division of an `i128` that rounds towards zero.
pub(crate) fn div_trunc(n: i128, d: i128) -> (r: i128)
    requires
        d > 0,
        n > i128::MIN,
    ensures
        r == trunc_div(n as int, d as int),
{
    if n >= 0 {
        n / d
    } else {
        -((-n) / d)
    }
}


proof fn lemma_product_fits(a: int, b: int)
    requires
        i64::MIN <= a <= i64::MAX,
        i64::MIN <= b <= i64::MAX,
    ensures
        -0x4000_0000_0000_0000_0000_0000_0000_0000 <= a * b
            <= 0x4000_0000_0000_0000_0000_0000_0000_0000,
{
    assert(-0x4000_0000_0000_0000_0000_0000_0000_0000 <= a * b
        <= 0x4000_0000_0000_0000_0000_0000_0000_0000) by (nonlinear_arith)
        requires
            -0x8000_0000_0000_0000 <= a <= 0x8000_0000_0000_0000,
            -0x8000_0000_0000_0000 <= b <= 0x8000_0000_0000_0000,
    ;
}

/// A number within `k` of zero has a square of at most `k * k`.
pub proof fn lemma_square_bound(x: int, k: int)
    requires
        -k <= x <= k,
    ensures
        0 <= x * x <= k * k,
{
    assert(0 <= x * x <= k * k) by (nonlinear_arith)
        requires
            -k <= x <= k,
    ;
}

/// A point of the orbit that is not too large has both coordinates within 2.
proof fn lemma_small_of_not_too_large(re: int, im: int)
    requires
        re * re + im * im <= 4 * (ONE as int) * (ONE as int),
    ensures
        -2 * ONE <= re <= 2 * ONE,
        -2 * ONE <= im <= 2 * ONE,
        0 <= re * re <= 4 * ONE * ONE,
        0 <= im * im <= 4 * ONE * ONE,
        -8 * ONE * ONE <= 2 * re * im <= 8 * ONE * ONE,
{
    let one = ONE as int;
    assert(0 <= re * re && 0 <= im * im) by (nonlinear_arith);
    assert(-2 * one <= re <= 2 * one) by (nonlinear_arith)
        requires
            re * re <= 4 * one * one,
            one > 0,
    ;
    assert(-2 * one <= im <= 2 * one) by (nonlinear_arith)
        requires
            im * im <= 4 * one * one,
            one > 0,
    ;
    assert(-8 * one * one <= 2 * re * im <= 8 * one * one) by (nonlinear_arith)
        requires
            -2 * one <= re <= 2 * one,
            -2 * one <= im <= 2 * one,
    ;
}

pub proof fn lemma_trunc_div_bound(n: int, d: int, k: int)
    requires
        d > 0,
        k >= 0,
        -k * d <= n <= k * d,
    ensures
        -k <= trunc_div(n, d) <= k,
{
    assert((-k) * d == -(k * d)) by (nonlinear_arith);
    if n >= 0 {
        assert(n / d <= k) by (nonlinear_arith)
            requires
                0 <= n <= k * d,
                d > 0,
        ;
        assert(n / d >= 0) by (nonlinear_arith)
            requires
                0 <= n,
                d > 0,
        ;
    } else {
        assert((-n) / d <= k) by (nonlinear_arith)
            requires
                0 <= -n <= k * d,
                d > 0,
        ;
        assert((-n) / d >= 0) by (nonlinear_arith)
            requires
                0 <= -n,
                d > 0,
        ;
    }
}

} // verus!

//! The state machine that decides, frame by frame, which viewport is shown.
//!
//! It zooms in while following the focus of the current field, zooms out
//! once the radius gets too small for the number format (searching for the
//! next destination meanwhile), pans there, and starts again.

use crate::focus_system::{
    focus_index, improve_step, in_fallback_rect, is_field, FocusPointWithScore, StartPointForZoom,
    ITER_MINIMUM_SCORE, NUM_OF_SAMPLES_FOR_FOCUS,
};
use crate::math::{
    lemma_square_bound, offset_to_plane, pixel_x, pixel_y, viewport_ok, ComplexNumber, ONE,
    PLANE_LIMIT,
};
use crate::spring::{smooth_damp, spring_step};
use vstd::prelude::*;

verus! {

/// The fixed-point value of a radius factor of one.
pub const FACTOR_ONE: u64 = 4294967296;

/// The phase of the zoom.
#[derive(Clone, Copy, Debug, PartialEq, Eq)]
pub enum ZoomState {
    /// Zooming in towards the center, without following the focus.
    StartZooming,
    /// Zooming in while the center follows the focus of the field.
    ZoomingInAndFollowing,
    /// Zooming out to the start radius while the next destination is searched.
    ZoomingOut,
    /// Moving the center to the next destination at the start radius.
    Panning { next_center: ComplexNumber },
}

/// The tunable constants of the zoom.
#[derive(Clone, Copy, Debug, PartialEq, Eq)]
pub struct ZoomConfig {
    /// The radius at which zooming starts, and to which zooming out returns.
    pub start_radius: i64,
    /// Below or at this radius the center starts following the focus.
    pub follow_radius: i64,
    /// Below this radius the zoom turns around.
    pub min_radius: i64,
    /// Smooth time of the focus following, in microseconds.
    pub focus_smooth_us: u64,
    /// Smooth time of the panning, in microseconds.
    pub pan_smooth_us: u64,
    /// A pan ends when the center is closer than this to its destination.
    pub pan_complete: i64,
}

/// The host's timing of one frame.  The radius factors are powers of the
/// zoom's scaling with the frame's duration as exponent, held times `2^32`.
#[derive(Clone, Copy, Debug, PartialEq, Eq)]
pub struct FrameStep {
    /// The frame's duration in microseconds.
    pub delta_us: u64,
    /// The factor by which the radius shrinks while zooming in.
    pub zoom_in: u64,
    /// The factor by which the radius grows while zooming out.
    pub zoom_out: u64,
}

/// `x` kept within the plane's bounds.
pub open spec fn clamp_plane(x: int) -> int {
    if x < -PLANE_LIMIT {
        -PLANE_LIMIT as int
    } else if x > PLANE_LIMIT {
        PLANE_LIMIT as int
    } else {
        x
    }
}

/// The radius scaled by a factor held times `2^32`, kept within `[1, PLANE_LIMIT]`.
pub open spec fn scaled_radius(radius: int, factor: int) -> int {
    let r = radius * factor / (FACTOR_ONE as int);
    if r < 1 {
        1
    } else if r > PLANE_LIMIT {
        PLANE_LIMIT as int
    } else {
        r
    }
}

/// The squared distance between two points.
pub open spec fn dist_sq(a: (int, int), b: (int, int)) -> int {
    (a.0 - b.0) * (a.0 - b.0) + (a.1 - b.1) * (a.1 - b.1)
}

impl ZoomConfig {
    pub open spec fn wf(&self) -> bool {
        &&& 1 <= self.min_radius
        &&& 1 <= self.start_radius <= PLANE_LIMIT
        &&& 0 <= self.pan_complete <= PLANE_LIMIT
    }

    /// The standard constants: zooming starts at radius 0.1, follows the focus
    /// from 0.05 on and turns around below 1e-13; both smooth times are half a
    /// second and a pan ends within 0.001 of its destination.
    pub fn standard() -> (r: ZoomConfig)
        ensures
            r.wf(),
            r.start_radius == ONE / 10,
            r.follow_radius == ONE / 20,
            r.min_radius == 7206,
            r.focus_smooth_us == 500000,
            r.pan_smooth_us == 500000,
            r.pan_complete == ONE / 1000,
    {
        ZoomConfig {
            start_radius: ONE / 10,
            follow_radius: ONE / 20,
            min_radius: 7206,
            focus_smooth_us: 500000,
            pan_smooth_us: 500000,
            pan_complete: ONE / 1000,
        }
    }
}

/// The viewport and the state of the zoom.
pub struct ZoomDirector {
    pub state: ZoomState,
    /// The viewport's center.
    pub center: ComplexNumber,
    /// The viewport's radius: half its vertical extent.
    pub radius: i64,
    /// The spring velocity of the center, per axis.
    pub velocity: (i64, i64),
    /// The search for the next destination.
    pub search: StartPointForZoom,
    pub config: ZoomConfig,
}

impl ZoomDirector {
    pub open spec fn wf(&self) -> bool {
        &&& self.config.wf()
        &&& viewport_ok(self.center@, self.radius as int)
        &&& 1 <= self.radius
        &&& self.search.wf()
        &&& match self.state {
            ZoomState::Panning { next_center } => next_center.within(PLANE_LIMIT as int),
            _ => true,
        }
    }

    /// A director that starts zooming in at `center`, at the start radius.
    pub fn new(config: ZoomConfig, center: ComplexNumber) -> (r: ZoomDirector)
        requires
            config.wf(),
            center.within(PLANE_LIMIT as int),
        ensures
            r.wf(),
            r.state == ZoomState::StartZooming,
            r.center == center,
            r.radius == config.start_radius,
            r.velocity == (0i64, 0i64),
            r.config == config,
            r.search.remaining_iteration == 0,
            r.search.precomputed_field is None,
    {
        ZoomDirector {
            state: ZoomState::StartZooming,
            center,
            radius: config.start_radius,
            velocity: (0, 0),
            search: StartPointForZoom::default(),
            config,
        }
    }

    /// Advances the zoom by one frame.  `field` is the iteration field of the
    /// current viewport; its focus steers the center while following.
    pub fn advance(&mut self, field: &Vec<u16>, step: FrameStep)
        requires
            old(self).wf(),
            is_field(field@),
        ensures
            final(self).wf(),
            final(self).config == old(self).config,
            Self::advanced(*old(self), *final(self), field@, step),
    {
        let cfg = self.config;
        match self.state {
            ZoomState::StartZooming => {
                self.radius = scale_radius(self.radius, step.zoom_in);
                if self.radius <= cfg.follow_radius {
                    self.state = ZoomState::ZoomingInAndFollowing;
                }
            },
            ZoomState::ZoomingInAndFollowing => {
                let focus = FocusPointWithScore::new(field);
                let target = focus.get_absolute_focus_in_complex_number_pane(
                    &self.center,
                    self.radius,
                );
                let smooth = cfg.focus_smooth_us;
                let mut vel = self.velocity;
                let re = smooth_damp(self.center.real, target.real, &mut vel.0, smooth, step.delta_us);
                let im = smooth_damp(self.center.imag, target.imag, &mut vel.1, smooth, step.delta_us);
                self.center = ComplexNumber::new(clamp_to_plane(re), clamp_to_plane(im));
                self.velocity = vel;
                self.radius = scale_radius(self.radius, step.zoom_in);
                if self.radius < cfg.min_radius {
                    self.velocity = (0, 0);
                    self.search.reset_iteration();
                    self.state = ZoomState::ZoomingOut;
                }
            },
            ZoomState::ZoomingOut => {
                self.search.try_improve();
                let grown = scale_radius(self.radius, step.zoom_out);
                if grown >= cfg.start_radius {
                    self.radius = cfg.start_radius;
                    self.state = ZoomState::Panning { next_center: self.search.starting_point };
                } else {
                    self.radius = grown;
                }
            },
            ZoomState::Panning { next_center } => {
                let smooth = cfg.pan_smooth_us;
                let mut vel = self.velocity;
                let re = smooth_damp(self.center.real, next_center.real, &mut vel.0, smooth, step.delta_us);
                let im = smooth_damp(self.center.imag, next_center.imag, &mut vel.1, smooth, step.delta_us);
                let re = clamp_to_plane(re);
                let im = clamp_to_plane(im);
                let dre = re as i128 - next_center.real as i128;
                let dim = im as i128 - next_center.imag as i128;
                let limit = cfg.pan_complete as i128;
                proof {
                    lemma_square_bound(dre as int, 2 * PLANE_LIMIT);
                    lemma_square_bound(dim as int, 2 * PLANE_LIMIT);
                    lemma_square_bound(limit as int, PLANE_LIMIT as int);
                }
                if dre * dre + dim * dim < limit * limit {
                    self.center = next_center;
                    self.velocity = (0, 0);
                    self.state = ZoomState::StartZooming;
                } else {
                    self.center = ComplexNumber::new(re, im);
                    self.velocity = vel;
                }
            },
        }
    }

    /// How one frame changes the director.
    pub open spec fn advanced(
        o: ZoomDirector,
        n: ZoomDirector,
        field: Seq<u16>,
        step: FrameStep,
    ) -> bool {
        let cfg = o.config;
        match o.state {
            ZoomState::StartZooming => {
                &&& n.center == o.center
                &&& n.velocity == o.velocity
                &&& n.search == o.search
                &&& n.radius == scaled_radius(o.radius as int, step.zoom_in as int)
                &&& n.state == if n.radius <= cfg.follow_radius {
                    ZoomState::ZoomingInAndFollowing
                } else {
                    ZoomState::StartZooming
                }
            },
            ZoomState::ZoomingInAndFollowing => {
                let i = focus_index(field);
                let t = offset_to_plane(o.center@, o.radius as int, pixel_x(i), pixel_y(i));
                let smooth = cfg.focus_smooth_us as int;
                let dt = step.delta_us as int;
                let sr = spring_step(o.center.real as int, t.0, o.velocity.0 as int, smooth, dt);
                let si = spring_step(o.center.imag as int, t.1, o.velocity.1 as int, smooth, dt);
                &&& n.center.real == clamp_plane(sr.0)
                &&& n.center.imag == clamp_plane(si.0)
                &&& n.radius == scaled_radius(o.radius as int, step.zoom_in as int)
                &&& if n.radius < cfg.min_radius {
                    &&& n.velocity == (0i64, 0i64)
                    &&& n.state == ZoomState::ZoomingOut
                    &&& n.search.remaining_iteration == NUM_OF_SAMPLES_FOR_FOCUS
                    &&& n.search.score == ITER_MINIMUM_SCORE
                    &&& in_fallback_rect(n.search.starting_point)
                    &&& n.search.precomputed_field is None
                } else {
                    &&& n.velocity.0 == sr.1
                    &&& n.velocity.1 == si.1
                    &&& n.state == ZoomState::ZoomingInAndFollowing
                    &&& n.search == o.search
                }
            },
            ZoomState::ZoomingOut => {
                let g = scaled_radius(o.radius as int, step.zoom_out as int);
                &&& n.center == o.center
                &&& n.velocity == o.velocity
                &&& improve_step(o.search, n.search)
                &&& if g >= cfg.start_radius {
                    &&& n.radius == cfg.start_radius
                    &&& n.state == (ZoomState::Panning { next_center: n.search.starting_point })
                } else {
                    n.radius == g && n.state == ZoomState::ZoomingOut
                }
            },
            ZoomState::Panning { next_center } => {
                let smooth = cfg.pan_smooth_us as int;
                let dt = step.delta_us as int;
                let next = next_center@;
                let sr = spring_step(o.center.real as int, next.0, o.velocity.0 as int, smooth, dt);
                let si = spring_step(o.center.imag as int, next.1, o.velocity.1 as int, smooth, dt);
                let p = (clamp_plane(sr.0), clamp_plane(si.0));
                &&& n.radius == o.radius
                &&& n.search == o.search
                &&& if dist_sq(p, next_center@) < cfg.pan_complete * cfg.pan_complete {
                    &&& n.center == next_center
                    &&& n.velocity == (0i64, 0i64)
                    &&& n.state == ZoomState::StartZooming
                } else {
                    &&& n.center@ == p
                    &&& n.velocity.0 == sr.1
                    &&& n.velocity.1 == si.1
                    &&& n.state == o.state
                }
            },
        }
    }
}

fn clamp_to_plane(x: i64) -> (r: i64)
    ensures
        r == clamp_plane(x as int),
{
    if x < -PLANE_LIMIT {
        -PLANE_LIMIT
    } else if x > PLANE_LIMIT {
        PLANE_LIMIT
    } else {
        x
    }
}

/// The radius scaled by a factor held times `2^32`, kept within `[1, PLANE_LIMIT]`.
fn scale_radius(radius: i64, factor: u64) -> (r: i64)
    requires
        0 <= radius <= PLANE_LIMIT,
    ensures
        r == scaled_radius(radius as int, factor as int),
        1 <= r <= PLANE_LIMIT,
{
    proof {
        assert(0 <= radius * factor <= PLANE_LIMIT * 0x10000000000000000) by (nonlinear_arith)
            requires
                0 <= radius <= PLANE_LIMIT,
                0 <= factor < 0x10000000000000000,
        ;
    }
    let r = (radius as u128) * (factor as u128) / (FACTOR_ONE as u128);
    if r < 1 {
        1
    } else if r > PLANE_LIMIT as u128 {
        PLANE_LIMIT
    } else {
        r as i64
    }
}

} // verus!

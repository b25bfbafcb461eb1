use mandel_zoom::focus_system::{
    find_interesting_start, StartPointForZoom, FEIGENBAUM_REAL, MAX_SCORE, START_IM_MAX,
    START_IM_MIN, START_RE_MAX, START_RE_MIN, FALLBACK_IM_MAX, FALLBACK_IM_MIN, FALLBACK_RE_MAX, FALLBACK_RE_MIN,
    GRID_SCALE, ITER_MINIMUM_SCORE, NUM_OF_SAMPLES_FOR_FOCUS,
};
use mandel_zoom::math::{ComplexNumber, ONE};
use mandel_zoom::zoom::{FrameStep, ZoomConfig, ZoomDirector, ZoomState, FACTOR_ONE};
use mandel_zoom::FIELD_LEN;

fn in_fallback(p: &ComplexNumber) -> bool {
    FALLBACK_RE_MIN * GRID_SCALE <= p.real
        && p.real <= FALLBACK_RE_MAX * GRID_SCALE
        && FALLBACK_IM_MIN * GRID_SCALE <= p.imag
        && p.imag <= FALLBACK_IM_MAX * GRID_SCALE
}

#[test]
fn reset_gives_a_fallback_point_at_once() {
    let mut search = StartPointForZoom::default();
    search.reset_iteration();
    assert!(in_fallback(search.starting_point()));
    assert_eq!(search.remaining_iteration, NUM_OF_SAMPLES_FOR_FOCUS);
    assert_eq!(search.score, ITER_MINIMUM_SCORE);
    assert!(search.precomputed_field.is_none());
}

#[test]
fn improve_without_budget_does_nothing() {
    let mut search = StartPointForZoom::default();
    search.try_improve();
    assert_eq!(search.remaining_iteration, 0);
    assert!(search.precomputed_field.is_none());
    assert_eq!(*search.starting_point(), ComplexNumber::new(0, 0));
}

#[test]
fn improve_alternates_sampling_and_scoring() {
    let mut search = StartPointForZoom::default();
    search.reset_iteration();
    let fallback = *search.starting_point();
    search.try_improve();
    let (field, test) = search.precomputed_field.as_ref().unwrap();
    assert_eq!(field.len(), FIELD_LEN);
    assert!(-2 * ONE <= test.real && test.real <= ONE && -ONE <= test.imag && test.imag <= ONE);
    assert_eq!(*search.starting_point(), fallback);
    search.try_improve();
    assert!(search.precomputed_field.is_none());
    assert_eq!(search.remaining_iteration, NUM_OF_SAMPLES_FOR_FOCUS - 1);
    assert!(search.score >= ITER_MINIMUM_SCORE);
    if search.score == ITER_MINIMUM_SCORE {
        assert_eq!(*search.starting_point(), fallback);
    }
}

fn config(start: i64, follow: i64) -> ZoomConfig {
    ZoomConfig {
        start_radius: start,
        follow_radius: follow,
        min_radius: 7206,
        focus_smooth_us: 500000,
        pan_smooth_us: 500000,
        pan_complete: ONE / 1000,
    }
}

#[test]
fn start_zooming_shrinks_geometrically() {
    let start = 3 * ONE / 2;
    let follow = 3 * ONE / 8;
    let mut director = ZoomDirector::new(config(start, follow), ComplexNumber::new(-ONE, 0));
    let field = vec![0u16; FIELD_LEN];
    let dt = 0.1f64;
    let step = FrameStep {
        delta_us: 100000,
        zoom_in: (0.5f64.powf(dt) * FACTOR_ONE as f64).round() as u64,
        zoom_out: FACTOR_ONE,
    };
    let mut frames = 0;
    while director.state == ZoomState::StartZooming {
        director.advance(&field, step);
        frames += 1;
        let t = frames as f64 * dt;
        let expected = 1.5 * 0.5f64.powf(t);
        let radius = director.radius as f64 / ONE as f64;
        assert!((radius - expected).abs() < 1e-6 * expected);
        assert!(frames < 100);
    }
    // 1.5 * 0.5^2 is the threshold: reached after two seconds, give or take rounding.
    assert!(frames == 20 || frames == 21);
    assert_eq!(director.state, ZoomState::ZoomingInAndFollowing);
    assert_eq!(director.center, ComplexNumber::new(-ONE, 0));
}

#[test]
fn following_turns_around_below_the_minimum() {
    let mut director = ZoomDirector::new(config(ONE / 10, ONE / 20), ComplexNumber::new(-ONE, 0));
    director.state = ZoomState::ZoomingInAndFollowing;
    director.radius = 8000;
    director.velocity = (5, -5);
    let step = FrameStep { delta_us: 16667, zoom_in: FACTOR_ONE / 2, zoom_out: FACTOR_ONE };
    director.advance(&vec![0u16; FIELD_LEN], step);
    assert_eq!(director.radius, 4000);
    assert_eq!(director.state, ZoomState::ZoomingOut);
    assert_eq!(director.velocity, (0, 0));
    assert_eq!(director.search.remaining_iteration, NUM_OF_SAMPLES_FOR_FOCUS);
    assert!(in_fallback(director.search.starting_point()));
}

#[test]
fn zooming_out_ends_in_a_pan() {
    let mut director = ZoomDirector::new(config(ONE / 10, ONE / 20), ComplexNumber::new(-ONE, 0));
    director.search.reset_iteration();
    director.state = ZoomState::ZoomingOut;
    director.radius = ONE / 20;
    let step = FrameStep { delta_us: 16667, zoom_in: FACTOR_ONE, zoom_out: 4 * FACTOR_ONE };
    director.advance(&vec![0u16; FIELD_LEN], step);
    assert_eq!(director.radius, ONE / 10);
    assert!(director.search.precomputed_field.is_some());
    assert_eq!(
        director.state,
        ZoomState::Panning { next_center: *director.search.starting_point() }
    );
}

#[test]
fn pan_snaps_when_close() {
    let mut director = ZoomDirector::new(config(ONE / 10, ONE / 20), ComplexNumber::new(-ONE, 0));
    let next_center = ComplexNumber::new(-ONE + ONE / 10000, 0);
    director.state = ZoomState::Panning { next_center };
    director.velocity = (7, 7);
    let step = FrameStep { delta_us: 16667, zoom_in: FACTOR_ONE, zoom_out: FACTOR_ONE };
    director.advance(&vec![0u16; FIELD_LEN], step);
    assert_eq!(director.center, next_center);
    assert_eq!(director.velocity, (0, 0));
    assert_eq!(director.state, ZoomState::StartZooming);
    assert_eq!(director.radius, ONE / 10);
}

#[test]
fn pan_moves_towards_a_far_destination() {
    let mut director = ZoomDirector::new(config(ONE / 10, ONE / 20), ComplexNumber::new(-ONE, 0));
    let next_center = ComplexNumber::new(ONE, ONE / 2);
    director.state = ZoomState::Panning { next_center };
    let step = FrameStep { delta_us: 16667, zoom_in: FACTOR_ONE, zoom_out: FACTOR_ONE };
    director.advance(&vec![0u16; FIELD_LEN], step);
    assert!(director.center.real > -ONE && director.center.real < ONE);
    assert!(director.center.imag > 0 && director.center.imag < ONE / 2);
    assert_eq!(director.state, ZoomState::Panning { next_center });
}

#[test]
fn standard_config_values() {
    let c = ZoomConfig::standard();
    assert_eq!(c.start_radius, ONE / 10);
    assert_eq!(c.min_radius, 7206);
    assert!((c.min_radius as f64 / ONE as f64 - 1e-13).abs() < 1e-16);
}

#[test]
fn start_search_without_attempts_falls_back() {
    assert_eq!(find_interesting_start(0, 0), ComplexNumber::new(FEIGENBAUM_REAL, 0));
    assert!((FEIGENBAUM_REAL as f64 / ONE as f64 + 1.4).abs() < 1e-15);
}

#[test]
fn start_search_with_unreachable_score_falls_back() {
    assert_eq!(find_interesting_start(1, MAX_SCORE), ComplexNumber::new(FEIGENBAUM_REAL, 0));
}

#[test]
fn start_search_accepts_a_sample_above_the_score() {
    // Every focus scores at least zero, so the first sample is always taken.
    let p = find_interesting_start(1, -1);
    assert_ne!(p, ComplexNumber::new(FEIGENBAUM_REAL, 0));
    assert_eq!(p.real % GRID_SCALE, 0);
    assert!(START_RE_MIN * GRID_SCALE <= p.real && p.real <= START_RE_MAX * GRID_SCALE);
    assert!(START_IM_MIN * GRID_SCALE <= p.imag && p.imag <= START_IM_MAX * GRID_SCALE);
}

use mandel_zoom::focus_system::{FocusPointWithScore, SCORE_UNIT, WINDOW_STEP};
use mandel_zoom::math::{get_focus_point, ComplexNumber, ONE};
use mandel_zoom::{FIELD_LEN, WINDOW_HEIGHT, WINDOW_WIDTH};

fn field_with_spot(x: usize, y: usize) -> Vec<u16> {
    let mut field = vec![0u16; FIELD_LEN];
    field[y * WINDOW_WIDTH + x] = 100;
    field
}

#[test]
fn flat_field_scores_zero() {
    let focus = FocusPointWithScore::new(&vec![50u16; FIELD_LEN]);
    assert_eq!(focus.score(), 0);
    // Every pixel ties at zero, so the first one wins.
    assert_eq!((focus.x_pos, focus.y_pos), (-640, -360));
}

#[test]
fn single_spot_exact_score() {
    let focus = FocusPointWithScore::new(&field_with_spot(700, 400));
    // Of the windows that hold the spot, the one centered nearest the grid's
    // center wins: at (695, 395).
    assert_eq!((focus.x_pos, focus.y_pos), (55, 35));
    // variance 100^2/121 - (100/121)^2, bias 1 - 0.5 * (55^2 + 35^2) / 539200
    assert_eq!(focus.score(), 1288980000000);
    let real = focus.score() as f64 / SCORE_UNIT as f64;
    let expected = (10000.0 / 121.0 - (100.0f64 / 121.0).powi(2)) * (1.0 - 0.5 * 4250.0 / 539200.0);
    assert!((real - expected).abs() < 1e-9);
}

#[test]
fn focus_keeps_away_from_the_border() {
    let focus = FocusPointWithScore::new(&field_with_spot(2, 1));
    let x = focus.x_pos + 640;
    let y = focus.y_pos + 360;
    assert!(focus.score() > 0);
    assert!(x >= WINDOW_STEP && y >= WINDOW_STEP);
    assert!(x < WINDOW_WIDTH as i64 - WINDOW_STEP && y < WINDOW_HEIGHT as i64 - WINDOW_STEP);
    assert_eq!((x, y), (7, 6));
}

#[test]
fn offset_round_trip() {
    let focus = FocusPointWithScore::new(&field_with_spot(700, 400));
    let center = ComplexNumber::new(-ONE, ONE / 3);
    let radius = 2 * ONE;
    let p = focus.get_absolute_focus_in_complex_number_pane(&center, radius);
    let step = radius / 360;
    assert_eq!(p, ComplexNumber::new(-ONE + 55 * step, ONE / 3 + 35 * step));
    assert_eq!((p.real - center.real) / step, focus.x_pos);
    assert_eq!((p.imag - center.imag) / step, focus.y_pos);
}

#[test]
fn focus_point_is_relative() {
    let offset = get_focus_point(&field_with_spot(700, 400), ONE);
    let step = ONE / 360;
    assert_eq!(offset, ComplexNumber::new(55 * step, 35 * step));
}

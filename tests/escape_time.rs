use mandel_zoom::math::{
    get_iteration_field, pixel_iteration, ComplexNumber, MAX_ITER, ONE,
};
use mandel_zoom::{FIELD_LEN, WINDOW_WIDTH};

#[test]
fn origin_never_escapes() {
    let c = ComplexNumber::new(0, 0);
    assert_eq!(c.get_iteration_till_termination(), MAX_ITER);
}

#[test]
fn points_outside_the_disc_escape_at_once() {
    for (re, im) in [(3 * ONE, 0), (-3 * ONE, 0), (0, 5 * ONE / 2), (-2 * ONE, ONE), (2 * ONE, 2 * ONE)] {
        let n = ComplexNumber::new(re, im).get_iteration_till_termination();
        assert_eq!(n, 1);
        assert!(n < MAX_ITER);
    }
}

#[test]
fn known_counts() {
    // 0, 1, 2, 5: the orbit of 1 leaves the disc at the third step.
    assert_eq!(ComplexNumber::new(ONE, 0).get_iteration_till_termination(), 3);
    // -1 cycles between -1 and 0.
    assert_eq!(ComplexNumber::new(-ONE, 0).get_iteration_till_termination(), MAX_ITER);
    // i cycles between -1 + i and -i.
    assert_eq!(ComplexNumber::new(0, ONE).get_iteration_till_termination(), MAX_ITER);
}

#[test]
fn add_into_adds_both_parts() {
    let mut a = ComplexNumber::new(5, -7);
    a.add_into(&ComplexNumber::new(-2, 10));
    assert_eq!(a, ComplexNumber::new(3, 3));
}

#[test]
fn field_has_one_count_per_pixel() {
    let field = get_iteration_field(&ComplexNumber::new(-ONE, 0), 2 * ONE);
    assert_eq!(field.len(), FIELD_LEN);
    assert!(field.iter().all(|&v| v <= MAX_ITER));
}

#[test]
fn classic_view_origin_pixel_is_inside() {
    let center = ComplexNumber::new(-ONE, 0);
    let field = get_iteration_field(&center, 2 * ONE);
    // One unit is 180 pixels at this radius: the origin is 180 pixels right of the center.
    let origin = 360 * WINDOW_WIDTH + 640 + 180;
    assert_eq!(field[origin], MAX_ITER);
    // The top left corner shows about -4.56 - 2i, far outside.
    assert_eq!(field[0], 1);
    assert_eq!(pixel_iteration(&center, 2 * ONE, origin), field[origin]);
    assert_eq!(pixel_iteration(&center, 2 * ONE, 0), 1);
}

#[test]
fn field_of_a_zero_radius_is_uniform() {
    let field = get_iteration_field(&ComplexNumber::new(-ONE, 0), 0);
    assert!(field.iter().all(|&v| v == MAX_ITER));
}

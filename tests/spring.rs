use mandel_zoom::math::ONE;
use mandel_zoom::spring::smooth_damp;

#[test]
fn rests_at_target() {
    let mut velocity = 0i64;
    for _ in 0..10 {
        assert_eq!(smooth_damp(ONE, ONE, &mut velocity, 500000, 16667), ONE);
        assert_eq!(velocity, 0);
    }
}

#[test]
fn first_step_exact() {
    let mut velocity = 0i64;
    let r = smooth_damp(0, ONE, &mut velocity, 500000, 16667);
    assert_eq!(r, 148518076005563);
    assert_eq!(velocity, 17977606063852820);
}

#[test]
fn never_overshoots_and_converges() {
    let mut velocity = 0i64;
    let mut current = 0i64;
    for _ in 0..180 {
        let next = smooth_damp(current, ONE, &mut velocity, 500000, 16667);
        assert!(next <= ONE);
        assert!(next >= current);
        current = next;
    }
    assert!(current as f64 / ONE as f64 > 0.999);
}

#[test]
fn never_overshoots_from_above_with_a_push() {
    let mut velocity = -50 * ONE;
    let mut current = ONE;
    for _ in 0..100 {
        current = smooth_damp(current, 0, &mut velocity, 200000, 33333);
        assert!(current >= 0);
    }
}

#[test]
fn tiny_smooth_time_and_huge_frame_are_safe() {
    let mut velocity = i64::MAX;
    let r = smooth_damp(-ONE, ONE, &mut velocity, 0, u64::MAX);
    assert!(r <= ONE);
    let mut v2 = 0i64;
    assert_eq!(smooth_damp(0, ONE, &mut v2, 1000, 0), 0);
}

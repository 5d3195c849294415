use mandelbrot::evaluate::evaluate;
use mandelbrot::fixed::FP_ONE;

#[test]
fn interior_point_reaches_the_cap() {
    // The plane origin is in the Mandelbrot set: z stays 0 forever.
    assert_eq!(evaluate(0, 0, 300), 300);
    assert_eq!(evaluate(0, 0, 7), 7);
}

#[test]
fn far_point_escapes_immediately() {
    // (3, 3) lies outside the |z| <= 2 disc, so the count is 0.
    assert_eq!(evaluate(3 * FP_ONE, 3 * FP_ONE, 300), 0);
}

#[test]
fn component_just_past_two_escapes_immediately() {
    assert_eq!(evaluate(2 * FP_ONE + 1, 0, 5), 0);
    assert_eq!(evaluate(0, -(2 * FP_ONE) - 1, 5), 0);
}

#[test]
fn point_one_takes_exactly_two_steps() {
    // c = 1: z runs 1 -> 2 -> 5; |2|^2 = 4 still passes the <= 4 test,
    // |5|^2 does not, so exactly two steps complete.
    assert_eq!(evaluate(FP_ONE, 0, 300), 2);
}

#[test]
fn cap_zero_counts_nothing() {
    assert_eq!(evaluate(0, 0, 0), 0);
}

#[test]
fn count_never_exceeds_the_cap() {
    assert_eq!(evaluate(0, 0, 1), 1);
    assert!(evaluate(-FP_ONE / 2, FP_ONE / 3, 25) <= 25);
}

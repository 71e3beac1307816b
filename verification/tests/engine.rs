//! The evaluation engine on concrete inputs: known points, symmetry,
//! coordinate mapping and the color encoding.

use mandelbrot::color::{color_of, Rgba};
use mandelbrot::coords::map_pixel;
use mandelbrot::escape::escape_time;
use mandelbrot::params::EvaluationParameters;

fn standard_params(scale: i128) -> EvaluationParameters {
    EvaluationParameters::standard(scale)
}

#[test]
fn color_of_zero_is_black_opaque() {
    assert_eq!(color_of(0), Rgba { r: 0, g: 0, b: 0, a: 255 });
}

#[test]
fn color_of_small_count() {
    assert_eq!(color_of(7), Rgba { r: 1, g: 3, b: 7, a: 255 });
}

#[test]
fn color_of_byte_boundary() {
    assert_eq!(color_of(255), Rgba { r: 63, g: 127, b: 255, a: 255 });
    assert_eq!(color_of(256), Rgba { r: 64, g: 128, b: 0, a: 255 });
}

#[test]
fn color_wraps_rather_than_clamps() {
    // 1024 / 4 = 256 and 1024 / 2 = 512 both wrap to 0, as does 1024 itself.
    assert_eq!(color_of(1024), Rgba { r: 0, g: 0, b: 0, a: 255 });
    // 600 gives r = 150, g = 300 mod 256 = 44, b = 600 mod 256 = 88.
    assert_eq!(color_of(600), Rgba { r: 150, g: 44, b: 88, a: 255 });
}

#[test]
fn origin_never_escapes() {
    let p = standard_params(1000);
    assert_eq!(escape_time(0, 0, &p), 400);
    let mut q = p;
    q.max_iterations = 17;
    assert_eq!(escape_time(0, 0, &q), 17);
}

#[test]
fn far_point_escapes_in_one_step() {
    // 2 + 2i under the default bailout radius of two: 4 + 4 = 8 > 4.
    let p = standard_params(1000);
    assert_eq!(escape_time(2000, 2000, &p), 1);
}

#[test]
fn unit_point_escapes_in_three_steps() {
    // c = 1: the orbit runs 0, 1, 2, 5; 25 exceeds the squared bailout 4.
    let p = standard_params(1000);
    assert_eq!(escape_time(1000, 0, &p), 3);
}

#[test]
fn interior_cycle_point_exhausts_budget() {
    // c = -1: the orbit alternates between -1 and 0 and never escapes.
    let p = standard_params(1000);
    assert_eq!(escape_time(-1000, 0, &p), 400);
}

#[test]
fn conjugate_points_have_equal_counts() {
    let p = standard_params(1000);
    for (cx, cy) in [(-750i128, 113i128), (250, 500), (-1200, 330), (0, 990)] {
        assert_eq!(escape_time(cx, cy, &p), escape_time(cx, -cy, &p));
    }
}

#[test]
fn unit_scaling_runs_the_textbook_iteration() {
    // With a scaling factor of one the formula reduces to the textbook
    // iteration over whole numbers: c = 1 runs 0, 1, 2, 5 as before, and
    // c = -1 alternates between -1 and 0 forever.
    let p = EvaluationParameters { max_iterations: 12, bailout: 2, scaling_factor: 1 };
    assert_eq!(escape_time(1, 0, &p), 3);
    assert_eq!(escape_time(-1, 0, &p), 12);
    assert_eq!(escape_time(0, 0, &p), 12);
}

#[test]
fn map_pixel_spans_the_viewport() {
    // Axis from -500 over 1000 units, 100 pixels wide.
    assert_eq!(map_pixel(0, 100, -500, 1000), -500);
    assert_eq!(map_pixel(50, 100, -500, 1000), 0);
    assert_eq!(map_pixel(99, 100, -500, 1000), 490);
}

#[test]
fn map_pixel_truncates_toward_zero() {
    // 1 * 100 / 3 = 33 remainder 1, truncated.
    assert_eq!(map_pixel(1, 3, 0, 100), 33);
    assert_eq!(map_pixel(2, 3, 0, 100), 66);
    // A negative start only shifts the result.
    assert_eq!(map_pixel(1, 3, -200, 100), -167);
}

//! The raster backend against the per-pixel shading backend, configuration
//! validation, and the diagnostics.

use mandelbrot::color::color_of;
use mandelbrot::coords::map_pixel;
use mandelbrot::escape::escape_time;
use mandelbrot::params::{ConfigError, EvaluationParameters, PixelGrid, Viewport, SCALE_LIMIT};
use mandelbrot::render::{
    colorize, divergence_field, mean_iterations, render, shade_pixel, validate,
};

fn square_viewport(scale: i128) -> Viewport {
    Viewport { x_min: -2 * scale, x_size: 4 * scale, y_min: -2 * scale, y_size: 4 * scale }
}

#[test]
fn viewport_new_rejects_empty_extent() {
    assert_eq!(Viewport::new(0, 0, 0, 5), Err(ConfigError::NonPositiveViewport));
    assert_eq!(Viewport::new(0, 5, 0, -1), Err(ConfigError::NonPositiveViewport));
    assert_eq!(
        Viewport::new(-1, 2, -3, 4),
        Ok(Viewport { x_min: -1, x_size: 2, y_min: -3, y_size: 4 })
    );
}

#[test]
fn parameters_new_checks_limits() {
    assert_eq!(
        EvaluationParameters::new(10, 2, 0),
        Err(ConfigError::NonPositiveScalingFactor)
    );
    assert_eq!(
        EvaluationParameters::new(10, 2, SCALE_LIMIT + 1),
        Err(ConfigError::ScalingFactorTooLarge)
    );
    assert_eq!(
        EvaluationParameters::new(10, 5000, 1000),
        Err(ConfigError::BailoutOutOfRange)
    );
    assert_eq!(
        EvaluationParameters::new(10, -1, 1000),
        Err(ConfigError::BailoutOutOfRange)
    );
    assert_eq!(
        EvaluationParameters::new(10, 2000, 1000),
        Ok(EvaluationParameters { max_iterations: 10, bailout: 2000, scaling_factor: 1000 })
    );
}

#[test]
fn default_parameters() {
    let p = EvaluationParameters::default();
    assert_eq!(
        p,
        EvaluationParameters { max_iterations: 400, bailout: 2, scaling_factor: 1 }
    );
}

#[test]
fn validate_reports_the_first_failure() {
    let v = square_viewport(1000);
    let p = EvaluationParameters::standard(1000);
    assert_eq!(validate(&v, &p), None);
    let flat = Viewport { x_size: 0, ..v };
    assert_eq!(validate(&flat, &p), Some(ConfigError::NonPositiveViewport));
    let mut q = p;
    q.scaling_factor = -5;
    assert_eq!(validate(&v, &q), Some(ConfigError::NonPositiveScalingFactor));
    let mut q = p;
    q.scaling_factor = SCALE_LIMIT + 1;
    assert_eq!(validate(&v, &q), Some(ConfigError::ScalingFactorTooLarge));
    let mut q = p;
    q.bailout = 4001;
    assert_eq!(validate(&v, &q), Some(ConfigError::BailoutOutOfRange));
    let far = Viewport { x_min: -9000, ..v };
    assert_eq!(validate(&far, &p), Some(ConfigError::ViewportOutOfRange));
}

#[test]
fn render_rejects_what_validate_rejects() {
    let v = square_viewport(1000);
    let mut p = EvaluationParameters::standard(1000);
    p.scaling_factor = 0;
    let g = PixelGrid { width: 2, height: 2 };
    assert_eq!(render(&v, &p, &g), Err(ConfigError::NonPositiveScalingFactor));
}

#[test]
fn render_buffer_has_four_bytes_per_pixel() {
    let v = square_viewport(1000);
    let p = EvaluationParameters::standard(1000);
    let g = PixelGrid { width: 5, height: 3 };
    let buf = render(&v, &p, &g).unwrap();
    assert_eq!(buf.len(), 5 * 3 * 4);
}

#[test]
fn render_of_empty_grid_is_empty() {
    let v = square_viewport(1000);
    let p = EvaluationParameters::standard(1000);
    let g = PixelGrid { width: 0, height: 0 };
    assert_eq!(render(&v, &p, &g).unwrap().len(), 0);
}

#[test]
fn rendering_twice_is_byte_identical() {
    let v = square_viewport(1000);
    let mut p = EvaluationParameters::standard(1000);
    p.max_iterations = 50;
    let g = PixelGrid { width: 8, height: 6 };
    let first = render(&v, &p, &g).unwrap();
    let second = render(&v, &p, &g).unwrap();
    assert_eq!(first, second);
}

#[test]
fn raster_and_shading_backends_agree() {
    let v = square_viewport(1000);
    let mut p = EvaluationParameters::standard(1000);
    p.max_iterations = 30;
    let g = PixelGrid { width: 7, height: 5 };
    let buf = render(&v, &p, &g).unwrap();
    for py in 0..g.height {
        for px in 0..g.width {
            let c = shade_pixel(px, py, &v, &p, &g);
            let base = 4 * (py as usize * g.width as usize + px as usize);
            assert_eq!(buf[base], c.r);
            assert_eq!(buf[base + 1], c.g);
            assert_eq!(buf[base + 2], c.b);
            assert_eq!(buf[base + 3], c.a);
        }
    }
}

#[test]
fn field_matches_the_component_chain() {
    let v = square_viewport(1000);
    let mut p = EvaluationParameters::standard(1000);
    p.max_iterations = 25;
    let g = PixelGrid { width: 4, height: 4 };
    let field = divergence_field(&v, &p, &g);
    assert_eq!(field.len(), 16);
    for py in 0..4u32 {
        for px in 0..4u32 {
            let cx = map_pixel(px, 4, v.x_min, v.x_size);
            let cy = map_pixel(py, 4, v.y_min, v.y_size);
            let n = escape_time(cx, cy, &p);
            assert!(n <= p.max_iterations);
            assert_eq!(field[(py * 4 + px) as usize], n);
        }
    }
}

#[test]
fn colorize_encodes_each_count() {
    let field = vec![0u32, 7, 256, 1024];
    let buf = colorize(&field);
    assert_eq!(buf.len(), 16);
    for (i, &n) in field.iter().enumerate() {
        let c = color_of(n);
        assert_eq!(&buf[4 * i..4 * i + 4], &[c.r, c.g, c.b, c.a]);
    }
}

#[test]
fn single_origin_pixel_exhausts_budget() {
    // Pixel (0, 0) maps to the viewport's lower corner; put that at the
    // origin, which never escapes.
    let v = Viewport { x_min: 0, x_size: 1000, y_min: 0, y_size: 1000 };
    let mut p = EvaluationParameters::standard(1000);
    p.max_iterations = 10;
    let g = PixelGrid { width: 1, height: 1 };
    let buf = render(&v, &p, &g).unwrap();
    let c = color_of(10);
    assert_eq!(buf, vec![c.r, c.g, c.b, c.a]);
}

#[test]
fn mean_iterations_truncates() {
    assert_eq!(mean_iterations(&vec![1, 2, 3, 4]), 2);
    assert_eq!(mean_iterations(&vec![5]), 5);
    assert_eq!(mean_iterations(&vec![0, 0, 7]), 2);
}

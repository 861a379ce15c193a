use fractal_core::error::FractalError;
use fractal_core::sampler::{
    orbit_step_verdict, pixel_coords, pixel_count, pixel_index, pixel_to_plane, FractalSpec,
    ModulusClass, Recurrence, StepVerdict,
};
use fractal_core::canvas::Canvas;
use fractal_core::viewport::Viewport;

#[test]
fn validate_accepts_sound_spec() {
    let spec = FractalSpec {
        viewport: Viewport::new(-75, 0, 175, 130).unwrap(),
        recurrence: Recurrence::Mandelbrot,
        max_iterations: 5000,
    };
    assert_eq!(spec.validate(), Ok(()));
}

#[test]
fn validate_rejects_bad_viewport() {
    let spec = FractalSpec {
        viewport: Viewport { center_x: 0, center_y: 0, half_x: 0, half_y: 1 },
        recurrence: Recurrence::Mandelbrot,
        max_iterations: 50,
    };
    assert_eq!(spec.validate(), Err(FractalError::InvalidViewport));
}

#[test]
fn validate_rejects_zero_budget() {
    let spec = FractalSpec {
        viewport: Viewport::new(0, 0, 1, 1).unwrap(),
        recurrence: Recurrence::Tricorn,
        max_iterations: 0,
    };
    assert_eq!(spec.validate(), Err(FractalError::InvalidIterationBudget));
}

#[test]
fn pixel_count_multiplies_sides() {
    assert_eq!(pixel_count(&Canvas { width: 1346, height: 1000 }), 1_346_000);
}

#[test]
fn pixel_indexing_round_trips() {
    // Flat slot x * height + y: pixel (2, 1) on a height-3 grid sits at 7.
    assert_eq!(pixel_index(2, 1, 3), 7);
    assert_eq!(pixel_coords(7, 3), (2, 1));
    for j in 0..12u64 {
        let (x, y) = pixel_coords(j, 3);
        assert_eq!(pixel_index(x, y, 3), j);
    }
}

#[test]
fn escaping_modulus_ends_orbit() {
    assert_eq!(
        orbit_step_verdict(4, 50, true, ModulusClass::Escaping),
        StepVerdict::Escaped { iterations: 4, anomalous: false }
    );
}

#[test]
fn non_finite_modulus_degrades_gracefully() {
    assert_eq!(
        orbit_step_verdict(9, 50, true, ModulusClass::NonFinite),
        StepVerdict::Escaped { iterations: 9, anomalous: true }
    );
    assert_eq!(
        orbit_step_verdict(9, 50, false, ModulusClass::NonFinite),
        StepVerdict::Interior
    );
}

#[test]
fn bounded_modulus_respects_budget() {
    assert_eq!(
        orbit_step_verdict(1, 50, true, ModulusClass::Bounded),
        StepVerdict::KeepIterating
    );
    assert_eq!(orbit_step_verdict(49, 50, true, ModulusClass::Bounded), StepVerdict::Interior);
}

#[test]
fn pixel_to_plane_walks_the_interval() {
    // rangeX = (-2, 1) in millionths over a 10-pixel-wide canvas.
    assert_eq!(pixel_to_plane(0, 10, -2_000_000, 3_000_000), -2_000_000);
    assert_eq!(pixel_to_plane(1, 10, -2_000_000, 3_000_000), -1_700_000);
    assert_eq!(pixel_to_plane(9, 10, -2_000_000, 3_000_000), 700_000);
}

#[test]
fn pixel_to_plane_rounds_down() {
    assert_eq!(pixel_to_plane(1, 3, 0, 7), 2);
    assert_eq!(pixel_to_plane(2, 3, 0, 7), 4);
}

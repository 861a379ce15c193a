//! Pixel indexing and per-orbit escape decisions of the sampler.
//!
//! Each pixel `(x, y)` of the canvas owns the flat slot `x * height + y`
//! of the escape field, and that convention must agree between the sampler
//! that fills the field, the equalizer that ranks it and the writer that
//! lays pixels out. The per-pixel orbit itself - applying the recurrence
//! and measuring `|z|` - is floating-point work done by the rendering
//! layer; it reports each modulus back as a [`ModulusClass`] and this
//! module decides, exactly and verifiably, how the orbit ends.

use vstd::prelude::*;

use crate::error::FractalError;
use crate::viewport::Viewport;

verus! {

/// The built-in complex recurrences a render can select.
#[derive(Clone, Copy, Debug, PartialEq, Eq, Structural)]
pub enum Recurrence {
    /// `z * z + c`.
    Mandelbrot,
    /// `conj(z) * conj(z) + c`.
    Tricorn,
}

/// Everything a render needs: the region sampled, the recurrence iterated
/// per pixel, and the orbit iteration budget. Immutable once sampling
/// starts.
#[derive(Clone, Copy, Debug, PartialEq, Eq, Structural)]
pub struct FractalSpec {
    pub viewport: Viewport,
    pub recurrence: Recurrence,
    pub max_iterations: u32,
}

impl FractalSpec {
    /// A sampleable specification: a sound viewport and a positive budget.
    pub open spec fn wf(self) -> bool {
        &&& self.viewport.wf()
        &&& 1 <= self.max_iterations
    }

    /// Rejects a malformed specification before any sampling work starts.
    pub fn validate(&self) -> (r: Result<(), FractalError>)
        ensures
            r is Ok <==> self.wf(),
            !self.viewport.wf() ==> r == Err::<(), FractalError>(FractalError::InvalidViewport),
            self.viewport.wf() && self.max_iterations == 0 ==> r == Err::<(), FractalError>(
                FractalError::InvalidIterationBudget,
            ),
    {
        if !self.viewport.is_well_formed() {
            Err(FractalError::InvalidViewport)
        } else if self.max_iterations == 0 {
            Err(FractalError::InvalidIterationBudget)
        } else {
            Ok(())
        }
    }
}

/// Number of pixels, and so of escape-field slots, of a canvas.
pub fn pixel_count(canvas: &crate::canvas::Canvas) -> (n: u64)
    ensures
        n == canvas.width * canvas.height,
{
    proof {
        vstd::arithmetic::mul::lemma_mul_upper_bound(
            canvas.width as int,
            u32::MAX as int,
            canvas.height as int,
            u32::MAX as int,
        );
    }
    (canvas.width as u64) * (canvas.height as u64)
}

/// Flat escape-field slot of the pixel `(x, y)`.
pub fn pixel_index(x: u32, y: u32, height: u32) -> (j: u64)
    requires
        y < height,
    ensures
        j == x * height + y,
{
    proof {
        vstd::arithmetic::mul::lemma_mul_upper_bound(
            x as int,
            u32::MAX as int,
            height as int,
            u32::MAX as int,
        );
    }
    (x as u64) * (height as u64) + (y as u64)
}

/// Pixel coordinates decoded from a flat escape-field slot: the inverse of
/// [`pixel_index`] on every slot of the grid.
pub fn pixel_coords(j: u64, height: u32) -> (xy: (u32, u32))
    requires
        1 <= height,
        j < 0x1_0000_0000 * height,
    ensures
        xy.0 * height + xy.1 == j,
        xy.1 < height,
{
    let x = j / (height as u64);
    let y = j % (height as u64);
    proof {
        vstd::arithmetic::div_mod::lemma_fundamental_div_mod(j as int, height as int);
        assert((j as int) / (height as int) < 0x1_0000_0000) by {
            vstd::arithmetic::div_mod::lemma_multiply_divide_lt(
                j as int,
                height as int,
                0x1_0000_0000,
            );
        }
        assert(0 <= (j as int) % (height as int) < height as int) by {
            vstd::arithmetic::div_mod::lemma_mod_bound(j as int, height as int);
        }
        assert(x < 0x1_0000_0000);
        assert((x as u32) as int == x as int);
        assert((y as u32) as int == y as int);
        assert((x as int) * (height as int) + (y as int) == j as int) by (nonlinear_arith)
            requires
                x as int == (j as int) / (height as int),
                y as int == (j as int) % (height as int),
                j as int == (height as int) * ((j as int) / (height as int)) + (j as int) % (
                height as int),
        ;
    }
    (x as u32, y as u32)
}

/// Fixed-point coordinate of a pixel along one axis: the axis interval's
/// lower endpoint plus the pixel's share `x * span / width` of the span,
/// rounded down to the fixed-point grid. Applied once with the real-axis
/// interval and a pixel's `x`, once with the imaginary-axis interval and
/// its `y`, it yields the complex coordinate `c` whose orbit the pixel
/// samples.
pub fn pixel_to_plane(x: u32, width: u32, lo: i64, span: i64) -> (c: i64)
    requires
        1 <= width,
        x < width,
        0 <= span,
        lo + span <= i64::MAX,
    ensures
        c == lo + x * span / (width as int),
        lo <= c <= lo + span,
{
    proof {
        vstd::arithmetic::mul::lemma_mul_inequality(x as int, width as int, span as int);
        vstd::arithmetic::div_mod::lemma_div_is_ordered(
            (x as int) * (span as int),
            (width as int) * (span as int),
            width as int,
        );
        vstd::arithmetic::div_mod::lemma_div_by_multiple(span as int, width as int);
        vstd::arithmetic::div_mod::lemma_div_is_ordered(0, (x as int) * (span as int), width as int);
        vstd::arithmetic::div_mod::lemma_div_of0(width as int);
        vstd::arithmetic::mul::lemma_mul_nonnegative(x as int, span as int);
        vstd::arithmetic::mul::lemma_mul_upper_bound(
            x as int,
            u32::MAX as int,
            span as int,
            i64::MAX as int,
        );
    }
    let step: i128 = (x as i128) * (span as i128) / (width as i128);
    lo + (step as i64)
}

/// Encoding and decoding a slot are mutually inverse: decoding `x * h + y`
/// gives back `(x, y)` whenever `y < h`.
pub proof fn lemma_pixel_round_trip(x: int, y: int, height: int)
    requires
        0 <= x,
        0 <= y < height,
    ensures
        (x * height + y) / height == x,
        (x * height + y) % height == y,
{
    vstd::arithmetic::div_mod::lemma_fundamental_div_mod_converse(
        x * height + y,
        height,
        x,
        y,
    );
}

/// What the rendering layer observed of `|z|` after one application of the
/// recurrence.
#[derive(Clone, Copy, Debug, PartialEq, Eq, Structural)]
pub enum ModulusClass {
    /// `|z|` overflowed to an infinity or a non-value: a numeric anomaly.
    NonFinite,
    /// `|z|` is finite and above the bailout radius: the orbit escaped.
    Escaping,
    /// `|z|` is finite and within the bailout radius.
    Bounded,
}

/// How an orbit ends, or that it has not yet.
#[derive(Clone, Copy, Debug, PartialEq, Eq, Structural)]
pub enum StepVerdict {
    /// The orbit stays within the bailout radius and budget remains.
    KeepIterating,
    /// The orbit escaped after `iterations` applications. An `anomalous`
    /// escape came from a non-finite modulus: its smooth escape value must
    /// be computed from the last finite modulus seen, never from the
    /// non-finite one.
    Escaped { iterations: u32, anomalous: bool },
    /// The pixel is interior: the orbit exhausted its budget inside the
    /// bailout radius, or hit a numeric anomaly with no finite modulus to
    /// fall back on.
    Interior,
}

/// The decision [`orbit_step_verdict`] takes, as a function of the orbit
/// state alone. An escaping modulus ends the orbit at the current count; a
/// non-finite modulus degrades to an anomalous escape, or to an interior
/// pixel when no finite modulus was ever seen; a bounded modulus continues
/// while the budget allows another application, and otherwise the pixel is
/// interior.
pub open spec fn step_verdict_spec(
    iterations_done: u32,
    max_iterations: u32,
    seen_finite: bool,
    class: ModulusClass,
) -> StepVerdict {
    match class {
        ModulusClass::Escaping => StepVerdict::Escaped { iterations: iterations_done, anomalous: false },
        ModulusClass::NonFinite => if seen_finite {
            StepVerdict::Escaped { iterations: iterations_done, anomalous: true }
        } else {
            StepVerdict::Interior
        },
        ModulusClass::Bounded => if iterations_done < max_iterations - 1 {
            StepVerdict::KeepIterating
        } else {
            StepVerdict::Interior
        },
    }
}

/// Decides an orbit's fate after its `iterations_done`-th application of
/// the recurrence, from the class of the freshly observed modulus and
/// whether any earlier modulus was finite. Deterministic in its arguments,
/// so a rerun of the same orbit ends the same way.
pub fn orbit_step_verdict(
    iterations_done: u32,
    max_iterations: u32,
    seen_finite: bool,
    class: ModulusClass,
) -> (v: StepVerdict)
    requires
        1 <= max_iterations,
        1 <= iterations_done <= max_iterations - 1,
    ensures
        v == step_verdict_spec(iterations_done, max_iterations, seen_finite, class),
{
    match class {
        ModulusClass::Escaping => StepVerdict::Escaped { iterations: iterations_done, anomalous: false },
        ModulusClass::NonFinite => if seen_finite {
            StepVerdict::Escaped { iterations: iterations_done, anomalous: true }
        } else {
            StepVerdict::Interior
        },
        ModulusClass::Bounded => if iterations_done < max_iterations - 1 {
            StepVerdict::KeepIterating
        } else {
            StepVerdict::Interior
        },
    }
}

} // verus!

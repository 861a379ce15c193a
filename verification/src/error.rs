//! The render-aborting error conditions of the pipeline.

use vstd::prelude::*;

verus! {

/// A structural fault that aborts a render before any output is produced.
#[derive(Clone, Copy, Debug, PartialEq, Eq, Structural)]
pub enum FractalError {
    /// A viewport interval is degenerate or out of the representable range.
    InvalidViewport,
    /// The iteration budget is zero, so no orbit can be evaluated.
    InvalidIterationBudget,
    /// Every pixel is interior, so the percentile normalizer is undefined.
    DegenerateHistogram,
}

impl FractalError {
    /// A short description for the rendering layer's diagnostics.
    pub fn message(&self) -> (m: &'static str) {
        match self {
            FractalError::InvalidViewport => "viewport has a degenerate or unrepresentable range",
            FractalError::InvalidIterationBudget => "maximum iteration count must be positive",
            FractalError::DegenerateHistogram => "every pixel is interior; cannot normalize",
        }
    }
}

} // verus!

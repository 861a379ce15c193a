//! Pixel-grid dimensions derived from the viewport's aspect ratio.

use vstd::prelude::*;

use crate::error::FractalError;
use crate::viewport::Viewport;

verus! {

/// Width and height of the output pixel grid, both positive.
#[derive(Clone, Copy, Debug, PartialEq, Eq, Structural)]
pub struct Canvas {
    pub width: u32,
    pub height: u32,
}

impl Canvas {
    /// A usable grid has at least one pixel on each side.
    pub open spec fn wf(self) -> bool {
        &&& 1 <= self.width
        &&& 1 <= self.height
    }
}

/// The side assigned to the axis with the larger span: the minimum side
/// scaled up by the span ratio, rounded down, and saturated at the largest
/// representable side.
pub open spec fn scaled_side(min_side: int, span_max: int, span_min: int) -> int {
    let raw = min_side * span_max / span_min;
    if raw <= u32::MAX {
        raw
    } else {
        u32::MAX as int
    }
}

/// The grid `make_canvas` produces for a well-formed viewport: the axis
/// with the strictly larger span gets the scaled side, the other axis gets
/// exactly `min_side`; a square viewport gets `min_side` on both axes.
pub open spec fn canvas_for(v: Viewport, min_side: int) -> Canvas {
    if v.span_x() > v.span_y() {
        Canvas {
            width: scaled_side(min_side, v.span_x(), v.span_y()) as u32,
            height: min_side as u32,
        }
    } else {
        Canvas {
            width: min_side as u32,
            height: scaled_side(min_side, v.span_y(), v.span_x()) as u32,
        }
    }
}

/// Derives the pixel grid that preserves the viewport's aspect ratio with
/// `min_side` pixels on the axis of smaller span. A degenerate viewport is
/// rejected before any dimension is computed.
pub fn make_canvas(v: &Viewport, min_side: u32) -> (r: Result<Canvas, FractalError>)
    requires
        1 <= min_side,
    ensures
        match r {
            Ok(c) => {
                &&& v.wf()
                &&& c == canvas_for(*v, min_side as int)
                &&& c.wf()
                &&& (v.span_x() > v.span_y() ==> c.height == min_side && c.width >= min_side)
                &&& (v.span_x() <= v.span_y() ==> c.width == min_side && c.height >= min_side)
            },
            Err(e) => {
                &&& !v.wf()
                &&& e == FractalError::InvalidViewport
            },
        },
{
    if !v.is_well_formed() {
        return Err(FractalError::InvalidViewport);
    }
    let span_x: i64 = 2 * v.half_x;
    let span_y: i64 = 2 * v.half_y;
    let x_is_long: bool = span_x > span_y;
    let (span_max, span_min): (i64, i64) = if x_is_long {
        (span_x, span_y)
    } else {
        (span_y, span_x)
    };
    proof {
        vstd::arithmetic::mul::lemma_mul_upper_bound(
            min_side as int,
            u32::MAX as int,
            span_max as int,
            2 * (crate::viewport::COORD_LIMIT as int),
        );
    }
    let product: u128 = (min_side as u128) * (span_max as u128);
    let quotient: u128 = product / (span_min as u128);
    let long_side: u32 = if quotient > u32::MAX as u128 {
        u32::MAX
    } else {
        quotient as u32
    };
    proof {
        lemma_scaled_side_at_least_min(min_side as int, span_max as int, span_min as int);
        assert(long_side == scaled_side(min_side as int, span_max as int, span_min as int));
    }
    if x_is_long {
        Ok(Canvas { width: long_side, height: min_side })
    } else {
        Ok(Canvas { width: min_side, height: long_side })
    }
}

/// The scaled side is never smaller than the minimum side: the span ratio
/// it is scaled by is at least one.
pub proof fn lemma_scaled_side_at_least_min(min_side: int, span_max: int, span_min: int)
    requires
        1 <= min_side <= u32::MAX,
        1 <= span_min <= span_max,
    ensures
        min_side <= scaled_side(min_side, span_max, span_min),
{
    assert(min_side * span_min <= min_side * span_max) by (nonlinear_arith)
        requires
            1 <= min_side,
            span_min <= span_max,
    ;
    vstd::arithmetic::div_mod::lemma_div_is_ordered(
        min_side * span_min,
        min_side * span_max,
        span_min,
    );
    vstd::arithmetic::div_mod::lemma_div_by_multiple(min_side, span_min);
}

} // verus!

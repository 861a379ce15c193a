//! The visible rectangle of the complex plane and its transforms.
//!
//! Coordinates are fixed-point: the caller picks a unit (one millionth of a
//! plane unit, say) and every coordinate here is a signed count of those
//! units. The rectangle is stored as a centre and two positive half-spans,
//! so `rangeX = [center_x - half_x, center_x + half_x]` and likewise for Y;
//! the interval invariant `x1 > x0` is exactly `half_x >= 1`.

use vstd::prelude::*;

use crate::error::FractalError;

verus! {

/// Largest magnitude a centre coordinate or half-span may take. Keeping
/// every stored value within this bound lets endpoints, spans and recenter
/// deltas be computed in `i64` without overflow.
pub const COORD_LIMIT: i64 = 2_305_843_009_213_693_952;

/// A rectangular region of the complex plane in fixed-point units.
#[derive(Clone, Copy, Debug, PartialEq, Eq, Structural)]
pub struct Viewport {
    /// Centre of the real-axis interval.
    pub center_x: i64,
    /// Centre of the imaginary-axis interval.
    pub center_y: i64,
    /// Half of the real-axis span; positive.
    pub half_x: i64,
    /// Half of the imaginary-axis span; positive.
    pub half_y: i64,
}

/// The shift `recenter` applies on one axis: the absolute difference
/// between the requested centre and the current one, always non-negative.
pub open spec fn delta_toward(center: int, target: int) -> int {
    if target >= center {
        target - center
    } else {
        center - target
    }
}

/// How a viewport after `recenter` relates to the one before it.
pub open spec fn is_recenter_of(post: Viewport, pre: Viewport, nx: int, ny: int) -> bool {
    &&& post.center_x == pre.center_x + delta_toward(pre.center_x as int, nx)
    &&& post.center_y == pre.center_y + delta_toward(pre.center_y as int, ny)
    &&& post.half_x == pre.half_x
    &&& post.half_y == pre.half_y
}

/// How a viewport after `zoom` by the factor `num / den` relates to the one
/// before it: the centre is untouched and each half-span is rescaled by
/// `den / num`, rounding down to the fixed-point grid.
pub open spec fn is_zoom_of(post: Viewport, pre: Viewport, num: int, den: int) -> bool {
    &&& post.center_x == pre.center_x
    &&& post.center_y == pre.center_y
    &&& post.half_x == pre.half_x * den / num
    &&& post.half_y == pre.half_y * den / num
}

impl Viewport {
    /// Both intervals are non-degenerate and every coordinate stays within
    /// the representable band.
    pub open spec fn wf(self) -> bool {
        &&& 1 <= self.half_x <= COORD_LIMIT
        &&& 1 <= self.half_y <= COORD_LIMIT
        &&& -COORD_LIMIT <= self.center_x <= COORD_LIMIT
        &&& -COORD_LIMIT <= self.center_y <= COORD_LIMIT
    }

    /// Lower endpoint of the real-axis interval.
    pub open spec fn x_lo_spec(self) -> int {
        self.center_x - self.half_x
    }

    /// Upper endpoint of the real-axis interval.
    pub open spec fn x_hi_spec(self) -> int {
        self.center_x + self.half_x
    }

    /// Lower endpoint of the imaginary-axis interval.
    pub open spec fn y_lo_spec(self) -> int {
        self.center_y - self.half_y
    }

    /// Upper endpoint of the imaginary-axis interval.
    pub open spec fn y_hi_spec(self) -> int {
        self.center_y + self.half_y
    }

    /// Width of the real-axis interval.
    pub open spec fn span_x(self) -> int {
        2 * self.half_x
    }

    /// Height of the imaginary-axis interval.
    pub open spec fn span_y(self) -> int {
        2 * self.half_y
    }

    /// Builds a viewport, rejecting degenerate or unrepresentable ranges.
    pub fn new(center_x: i64, center_y: i64, half_x: i64, half_y: i64) -> (r: Result<
        Viewport,
        FractalError,
    >)
        ensures
            ({
                let v = Viewport { center_x, center_y, half_x, half_y };
                if v.wf() {
                    r == Ok::<Viewport, FractalError>(v)
                } else {
                    r == Err::<Viewport, FractalError>(FractalError::InvalidViewport)
                }
            }),
    {
        let v = Viewport { center_x, center_y, half_x, half_y };
        if v.is_well_formed() {
            Ok(v)
        } else {
            Err(FractalError::InvalidViewport)
        }
    }

    /// Runtime check of the well-formedness invariant.
    pub fn is_well_formed(&self) -> (b: bool)
        ensures
            b == self.wf(),
    {
        1 <= self.half_x && self.half_x <= COORD_LIMIT && 1 <= self.half_y && self.half_y
            <= COORD_LIMIT && -COORD_LIMIT <= self.center_x && self.center_x <= COORD_LIMIT
            && -COORD_LIMIT <= self.center_y && self.center_y <= COORD_LIMIT
    }

    /// Lower endpoint of the real-axis interval.
    pub fn x_lo(&self) -> (r: i64)
        requires
            self.wf(),
        ensures
            r == self.x_lo_spec(),
    {
        self.center_x - self.half_x
    }

    /// Upper endpoint of the real-axis interval.
    pub fn x_hi(&self) -> (r: i64)
        requires
            self.wf(),
        ensures
            r == self.x_hi_spec(),
    {
        self.center_x + self.half_x
    }

    /// Lower endpoint of the imaginary-axis interval.
    pub fn y_lo(&self) -> (r: i64)
        requires
            self.wf(),
        ensures
            r == self.y_lo_spec(),
    {
        self.center_y - self.half_y
    }

    /// Upper endpoint of the imaginary-axis interval.
    pub fn y_hi(&self) -> (r: i64)
        requires
            self.wf(),
        ensures
            r == self.y_hi_spec(),
    {
        self.center_y + self.half_y
    }

    /// Shifts both intervals by the absolute per-axis distance between the
    /// requested centre and the current one. The shift is always applied in
    /// the positive direction, whatever the sign of the requested move;
    /// that asymmetry is deliberate and is pinned down by `is_recenter_of`.
    pub fn recenter(&mut self, new_center_x: i64, new_center_y: i64)
        requires
            old(self).wf(),
            -COORD_LIMIT <= new_center_x <= COORD_LIMIT,
            -COORD_LIMIT <= new_center_y <= COORD_LIMIT,
            old(self).center_x + delta_toward(old(self).center_x as int, new_center_x as int)
                <= COORD_LIMIT,
            old(self).center_y + delta_toward(old(self).center_y as int, new_center_y as int)
                <= COORD_LIMIT,
        ensures
            final(self).wf(),
            is_recenter_of(*final(self), *old(self), new_center_x as int, new_center_y as int),
    {
        let dx: i64 = if new_center_x >= self.center_x {
            new_center_x - self.center_x
        } else {
            self.center_x - new_center_x
        };
        let dy: i64 = if new_center_y >= self.center_y {
            new_center_y - self.center_y
        } else {
            self.center_y - new_center_y
        };
        self.center_x = self.center_x + dx;
        self.center_y = self.center_y + dy;
    }

    /// Rescales both half-spans by `den / num` around the unchanged centre,
    /// for a zoom factor of `num / den`: a factor above one narrows the
    /// view, a factor below one widens it. The rescaled half-spans round
    /// down to the fixed-point grid and must stay positive.
    pub fn zoom(&mut self, factor_num: i64, factor_den: i64)
        requires
            old(self).wf(),
            1 <= factor_num,
            1 <= factor_den,
            old(self).half_x * factor_den <= i64::MAX,
            old(self).half_y * factor_den <= i64::MAX,
            1 <= old(self).half_x * factor_den / (factor_num as int),
            old(self).half_y * factor_den / (factor_num as int) >= 1,
            old(self).half_x * factor_den / (factor_num as int) <= COORD_LIMIT,
            old(self).half_y * factor_den / (factor_num as int) <= COORD_LIMIT,
        ensures
            final(self).wf(),
            is_zoom_of(*final(self), *old(self), factor_num as int, factor_den as int),
    {
        self.half_x = (self.half_x * factor_den) / factor_num;
        self.half_y = (self.half_y * factor_den) / factor_num;
    }
}

/// Law: zooming leaves both midpoints exactly where they were.
pub proof fn lemma_zoom_preserves_midpoint(pre: Viewport, post: Viewport, num: int, den: int)
    requires
        is_zoom_of(post, pre, num, den),
    ensures
        (post.x_lo_spec() + post.x_hi_spec()) / 2 == (pre.x_lo_spec() + pre.x_hi_spec()) / 2,
        (post.y_lo_spec() + post.y_hi_spec()) / 2 == (pre.y_lo_spec() + pre.y_hi_spec()) / 2,
{
}

/// Law: when the rescaled half-spans land exactly on the fixed-point grid,
/// zooming by `num / den` divides each span by exactly that factor:
/// `span_after * num == span_before * den`.
pub proof fn lemma_zoom_scales_span(pre: Viewport, post: Viewport, num: int, den: int)
    requires
        is_zoom_of(post, pre, num, den),
        1 <= num,
        1 <= den,
        (pre.half_x * den) % num == 0,
        (pre.half_y * den) % num == 0,
    ensures
        post.span_x() * num == pre.span_x() * den,
        post.span_y() * num == pre.span_y() * den,
{
    let qx: int = pre.half_x * den / num;
    let qy: int = pre.half_y * den / num;
    vstd::arithmetic::div_mod::lemma_fundamental_div_mod(pre.half_x * den, num);
    vstd::arithmetic::div_mod::lemma_fundamental_div_mod(pre.half_y * den, num);
    assert((2 * post.half_x) * num == (2 * pre.half_x) * den) by (nonlinear_arith)
        requires
            post.half_x == qx,
            num * qx == pre.half_x * den,
    ;
    assert((2 * post.half_y) * num == (2 * pre.half_y) * den) by (nonlinear_arith)
        requires
            post.half_y == qy,
            num * qy == pre.half_y * den,
    ;
}

/// Law: recentering twice by the same per-axis delta reaches the same
/// viewport as recentering once by twice that delta.
pub proof fn lemma_recenter_twice(
    start: Viewport,
    mid: Viewport,
    twice: Viewport,
    once: Viewport,
    dx: int,
    dy: int,
)
    requires
        0 <= dx,
        0 <= dy,
        is_recenter_of(mid, start, start.center_x + dx, start.center_y + dy),
        is_recenter_of(twice, mid, mid.center_x + dx, mid.center_y + dy),
        is_recenter_of(once, start, start.center_x + 2 * dx, start.center_y + 2 * dy),
    ensures
        twice == once,
{
}

/// Law: the recenter shift never moves a centre coordinate downward,
/// whatever centre was requested - the documented one-sided behaviour.
pub proof fn lemma_recenter_never_decreases(post: Viewport, pre: Viewport, nx: int, ny: int)
    requires
        is_recenter_of(post, pre, nx, ny),
    ensures
        post.center_x >= pre.center_x,
        post.center_y >= pre.center_y,
{
}

} // verus!

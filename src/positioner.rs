use vstd::prelude::*;

use crate::geometry::{Point, Rect, Size, COORD_MAX};

verus! {

/// What a client asked of a popup's placement, in the units of the
/// `xdg_positioner` protocol object.
///
/// `anchor_edges` and `gravity` hold the protocol's enum values and
/// `constraint_adjustment` its bit set. The library keeps the positioner with
/// its popup; the routine that fits a popup into its target rectangle reads
/// it.
#[derive(Clone, Copy, Debug, PartialEq, Eq, Structural)]
pub struct Positioner {
    pub rect_size: Size,
    pub anchor_rect: Rect,
    pub anchor_edges: u32,
    pub gravity: u32,
    pub constraint_adjustment: u32,
    pub offset: Point,
}

/// A target rectangle whose corner may lie a few coordinate bounds away from
/// the origin, as one does after it is moved into a popup's coordinate space.
pub open spec fn target_ok(t: Rect) -> bool {
    &&& -4 * COORD_MAX <= t.x <= 4 * COORD_MAX
    &&& -4 * COORD_MAX <= t.y <= 4 * COORD_MAX
    &&& 0 <= t.w <= COORD_MAX
    &&& 0 <= t.h <= COORD_MAX
}

/// The region a popup may occupy, expressed relative to the popup's anchor:
/// the output's rectangle moved by minus the anchor's offset from the root
/// surface and minus the owning window's position on screen.
pub fn popup_target(output: Rect, anchor_offset: Point, window_loc: Point) -> (r: Rect)
    requires
        output.wf(),
        anchor_offset.wf(),
        window_loc.wf(),
    ensures
        r.x == output.x - anchor_offset.x - window_loc.x,
        r.y == output.y - anchor_offset.y - window_loc.y,
        r.w == output.w,
        r.h == output.h,
        target_ok(r),
{
    Rect {
        x: output.x - anchor_offset.x - window_loc.x,
        y: output.y - anchor_offset.y - window_loc.y,
        w: output.w,
        h: output.h,
    }
}

} // verus!

use vstd::prelude::*;

use crate::geometry::{Point, Rect};

verus! {

/// The keysym of the lower-case letter `t`.
pub const KEY_T: u32 = 0x74;

/// Fixed-point units per logical unit of scroll (the protocol's 24.8 format).
pub const FIXED_ONE: i64 = 256;

/// Units per logical unit of a normalized absolute position.
pub const NORMALIZED_ONE: i64 = 65536;

/// What the keyboard filter decided about a key event.
#[derive(Clone, Copy, Debug, PartialEq, Eq, Structural)]
pub enum FilterResult {
    /// Deliver the event to the focused client.
    Forward,
    /// Keep the event: the compositor starts a terminal.
    Intercept,
}

/// Where a scroll event came from.
#[derive(Clone, Copy, Debug, PartialEq, Eq, Structural)]
pub enum AxisSource {
    Wheel,
    Finger,
    Continuous,
    WheelTilt,
}

/// What a physical scroll event reported on one axis: a continuous amount in
/// fixed-point units, and a discrete amount in 120ths of a wheel step.
#[derive(Clone, Copy, Debug, PartialEq, Eq, Structural)]
pub struct AxisInput {
    pub amount: Option<i32>,
    pub v120: Option<i32>,
}

/// What a scroll frame carries for one axis.
#[derive(Clone, Copy, Debug, PartialEq, Eq, Structural)]
pub struct AxisOutput {
    /// The scroll distance in fixed-point units, when it is not zero.
    pub value: Option<i64>,
    /// The discrete steps, sent along with a value.
    pub v120: Option<i32>,
    /// The finger left the device: the scroll on this axis ended.
    pub stop: bool,
}

/// One scroll frame, sent with a single frame-end marker.
#[derive(Clone, Copy, Debug, PartialEq, Eq, Structural)]
pub struct AxisFrame {
    pub source: AxisSource,
    pub time: u32,
    pub horizontal: AxisOutput,
    pub vertical: AxisOutput,
}

/// The scroll distance of one axis: the continuous amount when there is one,
/// else the discrete amount at 15 logical units per wheel step.
pub open spec fn axis_amount(a: AxisInput) -> int {
    match a.amount {
        Some(v) => v as int,
        None => match a.v120 {
            Some(d) => d * 15 * (FIXED_ONE as int) / 120,
            None => 0,
        },
    }
}

/// What the frame says of one axis.
pub open spec fn axis_output_spec(a: AxisInput, source: AxisSource) -> AxisOutput {
    let v = axis_amount(a);
    AxisOutput {
        value: if v != 0 { Some(v as i64) } else { None },
        v120: if v != 0 { a.v120 } else { None },
        stop: source == AxisSource::Finger && a.amount == Some(0i32),
    }
}

/// Builds what the frame says of one axis.
pub fn axis_output(a: AxisInput, source: AxisSource) -> (r: AxisOutput)
    ensures
        r == axis_output_spec(a, source),
{
    let v: i64 = match a.amount {
        Some(v) => v as i64,
        None => match a.v120 {
            Some(d) => d as i64 * 15 * FIXED_ONE / 120,
            None => 0,
        },
    };
    AxisOutput {
        value: if v != 0 { Some(v) } else { None },
        v120: if v != 0 { a.v120 } else { None },
        stop: source == AxisSource::Finger && a.amount == Some(0i32),
    }
}

/// The scroll frame for one physical event: each axis with a non-zero
/// distance carries it, with its discrete steps if any, and a finger that
/// reports zero on an axis stops that axis.
pub fn axis_frame(source: AxisSource, time: u32, horizontal: AxisInput, vertical: AxisInput) -> (r:
    AxisFrame)
    ensures
        r == (AxisFrame {
            source,
            time,
            horizontal: axis_output_spec(horizontal, source),
            vertical: axis_output_spec(vertical, source),
        }),
{
    AxisFrame {
        source,
        time,
        horizontal: axis_output(horizontal, source),
        vertical: axis_output(vertical, source),
    }
}

/// The compositor keeps Ctrl+T pressed for itself and forwards every other
/// key event.
pub fn key_filter(keysym: u32, pressed: bool, ctrl: bool) -> (r: FilterResult)
    ensures
        r == (if keysym == KEY_T && pressed && ctrl {
            FilterResult::Intercept
        } else {
            FilterResult::Forward
        }),
{
    if keysym == KEY_T && pressed && ctrl {
        FilterResult::Intercept
    } else {
        FilterResult::Forward
    }
}

/// The point on screen for a normalized absolute position: `nx` and `ny`
/// run from 0 to `NORMALIZED_ONE` across the output.
pub open spec fn absolute_position_spec(output: Rect, nx: u32, ny: u32) -> Point {
    Point {
        x: (output.x + nx * output.w / (NORMALIZED_ONE as int)) as i32,
        y: (output.y + ny * output.h / (NORMALIZED_ONE as int)) as i32,
    }
}

/// Maps a normalized absolute position into the output's rectangle.
pub fn absolute_position(output: Rect, nx: u32, ny: u32) -> (r: Point)
    requires
        output.wf(),
        nx <= NORMALIZED_ONE,
        ny <= NORMALIZED_ONE,
    ensures
        r == absolute_position_spec(output, nx, ny),
        r.x == output.x + nx * output.w / (NORMALIZED_ONE as int),
        r.y == output.y + ny * output.h / (NORMALIZED_ONE as int),
        r.wf(),
{
    proof {
        lemma_scaled_le(nx as int, output.w as int);
        lemma_scaled_le(ny as int, output.h as int);
    }
    let dx = nx as i64 * output.w as i64 / NORMALIZED_ONE;
    let dy = ny as i64 * output.h as i64 / NORMALIZED_ONE;
    Point { x: (output.x as i64 + dx) as i32, y: (output.y as i64 + dy) as i32 }
}

proof fn lemma_scaled_le(n: int, w: int)
    requires
        0 <= n <= 65536,
        0 <= w <= 16777216,
    ensures
        0 <= n * w <= 65536 * 16777216,
        0 <= n * w / 65536 <= w,
{
    assert(0 <= n * w <= 65536 * w) by (nonlinear_arith)
        requires
            0 <= n <= 65536,
            0 <= w,
    ;
    assert(n * w / 65536 <= w) by (nonlinear_arith)
        requires
            0 <= n * w <= 65536 * w,
            0 <= w,
    ;
}

} // verus!

//! Scene management and input routing for a small stacking Wayland compositor.
//!
//! The library holds the window stack, the per-surface commit state, the
//! popup placement rules and the seat's focus rules as plain values, with
//! contracts that Verus proves. The event loop, the protocol objects and the
//! renderer live outside and feed the library events.

pub mod geometry;
pub mod positioner;
pub mod space;
pub mod surface;
pub mod seat;
pub mod compositor;

pub use geometry::{Point, Rect, Size, COORD_MAX};
pub use positioner::{popup_target, Positioner};
pub use space::{Element, LookupError, Space, SurfaceId, Window};
pub use surface::{BufferState, Role, Surface, SurfaceTable, MAX_SURFACES};
pub use seat::{absolute_position, axis_frame, key_filter, AxisFrame, AxisInput, AxisOutput, AxisSource, FilterResult, KEY_T};
pub use compositor::{
    ButtonOutcome, CommitOutcome, Compositor, CompositorError, KeyOutcome, MotionOutcome, Popup, Seat,
    SurfaceHit,
};

//! The data the heuristic reads: windows, monitors, and placement intent,
//! reduced to plain values in a shared virtual-screen coordinate space.

use vstd::prelude::*;

verus! {

/// A stable identifier for a window or monitor entity, as handed out by the
/// host's entity store.
pub type EntityId = u64;

/// A point in the shared virtual-screen coordinate space.
#[derive(Clone, Copy, Debug, PartialEq, Eq, Structural)]
pub struct Point {
    pub x: i32,
    pub y: i32,
}

/// A physical extent (width and height) in pixels.
#[derive(Clone, Copy, Debug, PartialEq, Eq, Structural)]
pub struct Extent {
    pub x: u32,
    pub y: u32,
}

/// Which monitor a centered window asks to be centered on.
#[derive(Clone, Copy, Debug, PartialEq, Eq, Structural)]
pub enum MonitorSelection {
    /// The monitor the window is currently on. Undeterminable from static
    /// state: the window's current monitor is exactly the fact being computed.
    Current,
    /// The monitor at this ordinal position in the host's enumeration. No
    /// stable ordinal-to-entity mapping is guaranteed, so guessing would be
    /// unsound.
    Index(usize),
    /// The monitor flagged as primary.
    Primary,
    /// The monitor with this entity id.
    Entity(EntityId),
}

/// A window's declared positioning intent.
#[derive(Clone, Copy, Debug, PartialEq, Eq, Structural)]
pub enum WindowPosition {
    /// The position has not yet been decided by the windowing subsystem.
    Automatic,
    /// An explicit top-left position in the shared coordinate space.
    At(Point),
    /// Centered on the monitor chosen by the selection.
    Centered(MonitorSelection),
}

/// One application window, reduced to the state the resolver reads.
pub struct Window {
    pub position: WindowPosition,
}

/// One physical display, as the windowing subsystem reports it.
pub struct Monitor {
    /// The monitor's stable identifying name.
    pub name: String,
    /// Top-left corner of the monitor, in the shared coordinate space.
    pub physical_position: Point,
    /// Physical size of the monitor.
    pub physical_size: Extent,
    /// Whether the windowing subsystem flags this monitor as primary.
    pub primary: bool,
    /// The entity id under which the host knows this monitor.
    pub entity: EntityId,
}

/// The monitor's axis-aligned bounding rectangle
/// `[physical_position, physical_position + physical_size]` contains `q`,
/// inclusive on both corners. Stated over unbounded integers, so the upper
/// corner needs no bounded sum.
pub open spec fn rect_contains(m: Monitor, q: Point) -> bool {
    &&& m.physical_position.x <= q.x
    &&& q.x as int <= m.physical_position.x + m.physical_size.x
    &&& m.physical_position.y <= q.y
    &&& q.y as int <= m.physical_position.y + m.physical_size.y
}

/// The monitor sits exactly at the coordinate-space origin `(0, 0)`, the
/// conventional anchor of a virtual-screen layout.
pub open spec fn at_origin(m: Monitor) -> bool {
    m.physical_position.x == 0 && m.physical_position.y == 0
}

} // verus!

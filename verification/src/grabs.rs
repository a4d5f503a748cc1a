//! Interactive resizing of a window by pointer or touch: the size a drag
//! asks for within the client's limits, where the window must then stand
//! so that the edges not dragged stay put, and the states a surface goes
//! through until the client has caught up with the end of the resize.
use crate::geometry::{Point, Size};
use crate::resize_state::Serial;
use vstd::prelude::*;

verus! {

/// The edge bits of a resize.
pub const NONE: u32 = 0;
pub const TOP: u32 = 1;
pub const BOTTOM: u32 = 2;
pub const LEFT: u32 = 4;
pub const TOP_LEFT: u32 = 5;
pub const BOTTOM_LEFT: u32 = 6;
pub const RIGHT: u32 = 8;
pub const TOP_RIGHT: u32 = 9;
pub const BOTTOM_RIGHT: u32 = 10;

/// The edges a resize drags, as a set of the bits above.
#[derive(Debug, Clone, Copy, PartialEq, Eq, Structural, Hash)]
pub struct ResizeEdge {
    pub bits: u32,
}

/// Whether the edges hold the bit `flag`.
pub open spec fn has_edge(e: ResizeEdge, flag: u32) -> bool {
    e.bits & flag != 0
}

impl ResizeEdge {
    /// Whether the edges share a bit with `mask`.
    pub fn intersects(&self, mask: u32) -> (b: bool)
        ensures
            b == (self.bits & mask != 0),
    {
        self.bits & mask != 0
    }

    /// The edges that `bits` names, where every bit is a known edge.
    pub fn from_bits(bits: u32) -> (r: Option<ResizeEdge>)
        ensures
            r == (if bits & !15u32 == 0 {
                Some(ResizeEdge { bits })
            } else {
                None
            }),
    {
        if bits & !15u32 == 0 {
            Some(ResizeEdge { bits })
        } else {
            None
        }
    }

    /// The edges of a protocol edge value; none where it has an unknown bit.
    pub fn from_protocol(value: u32) -> (r: ResizeEdge)
        ensures
            r.bits == (if value & !15u32 == 0 {
                value
            } else {
                0
            }),
    {
        match ResizeEdge::from_bits(value) {
            Some(e) => e,
            None => ResizeEdge { bits: NONE },
        }
    }
}

/// What a resize started from.
#[derive(Debug, Clone, Copy, PartialEq, Eq, Structural)]
pub struct ResizeData {
    /// The edges the surface is being resized with.
    pub edges: ResizeEdge,
    /// The initial window location.
    pub initial_window_location: Point,
    /// The initial window size (geometry width and height).
    pub initial_window_size: Size,
}

/// Where a surface is in a resize.
#[derive(Debug, Clone, Copy, PartialEq, Eq, Structural)]
pub enum ResizeState {
    /// The surface is not being resized.
    NotResizing,
    /// The surface is currently being resized.
    Resizing(ResizeData),
    /// The resize has finished, and the surface needs to ack the final configure.
    WaitingForFinalAck(ResizeData, Serial),
    /// The resize has finished, and the surface needs to commit its final state.
    WaitingForCommit(ResizeData),
}

impl Default for ResizeState {
    fn default() -> (s: ResizeState)
        ensures
            s == ResizeState::NotResizing,
    {
        ResizeState::NotResizing
    }
}

/// The larger of two integers.
pub open spec fn max_int(a: int, b: int) -> int {
    if a >= b {
        a
    } else {
        b
    }
}

/// The smaller of two integers.
pub open spec fn min_int(a: int, b: int) -> int {
    if a <= b {
        a
    } else {
        b
    }
}

/// One side of the size a drag gives: `requested` where the drag moves an
/// edge across that axis, else the size the resize started with; at least
/// the client's minimum (and at least 1), then at most its maximum (no
/// maximum where it is 0).
pub open spec fn resized_side(moved: bool, initial: i32, requested: i32, min: i32, max: i32) -> i32 {
    let side = if moved {
        requested
    } else {
        initial
    };
    let lo = max_int(min as int, 1);
    let hi = if max == 0 {
        i32::MAX as int
    } else {
        max as int
    };
    min_int(max_int(side as int, lo), hi) as i32
}

/// The size a drag of `edges` gives a window that started at `initial`,
/// where `requested` is the size the pointer's travel asks for on each
/// axis, within the client's limits `min` and `max`.
pub open spec fn spec_resized_size(edges: ResizeEdge, initial: Size, requested: Size, min: Size, max: Size) -> Size {
    Size {
        w: resized_side(has_edge(edges, LEFT) || has_edge(edges, RIGHT), initial.w, requested.w, min.w, max.w),
        h: resized_side(has_edge(edges, TOP) || has_edge(edges, BOTTOM), initial.h, requested.h, min.h, max.h),
    }
}

fn resized_side_exec(moved: bool, initial: i32, requested: i32, min: i32, max: i32) -> (r: i32)
    ensures
        r == resized_side(moved, initial, requested, min, max),
{
    let side = if moved {
        requested
    } else {
        initial
    };
    let lo = if min >= 1 {
        min
    } else {
        1
    };
    let hi = if max == 0 {
        i32::MAX
    } else {
        max
    };
    let at_least = if side >= lo {
        side
    } else {
        lo
    };
    if at_least <= hi {
        at_least
    } else {
        hi
    }
}

/// The size a drag of `edges` gives a window that started at `initial`
/// (see `spec_resized_size`).
pub fn resized_size(edges: ResizeEdge, initial: Size, requested: Size, min: Size, max: Size) -> (r: Size)
    ensures
        r == spec_resized_size(edges, initial, requested, min, max),
{
    let horizontal = edges.intersects(LEFT) || edges.intersects(RIGHT);
    let vertical = edges.intersects(TOP) || edges.intersects(BOTTOM);
    Size {
        w: resized_side_exec(horizontal, initial.w, requested.w, min.w, max.w),
        h: resized_side_exec(vertical, initial.h, requested.h, min.h, max.h),
    }
}

/// Where a window resized by `edges` from `initial_location` and
/// `initial_size` must stand now that its size is `size`, starting from
/// where it stands (`current`): a dragged left edge keeps the right edge
/// where it was, a dragged top edge the bottom edge.
pub open spec fn spec_resized_location(
    edges: ResizeEdge,
    initial_location: Point,
    initial_size: Size,
    size: Size,
    current: Point,
) -> Point {
    Point {
        x: if has_edge(edges, LEFT) {
            (initial_location.x + (initial_size.w - size.w)) as i32
        } else {
            current.x
        },
        y: if has_edge(edges, TOP) {
            (initial_location.y + (initial_size.h - size.h)) as i32
        } else {
            current.y
        },
    }
}

/// Whether the adjusted location fits in 32-bit coordinates.
pub open spec fn location_fits(edges: ResizeEdge, initial_location: Point, initial_size: Size, size: Size) -> bool {
    &&& has_edge(edges, LEFT) ==> i32::MIN <= initial_size.w - size.w <= i32::MAX && i32::MIN
        <= initial_location.x + (initial_size.w - size.w) <= i32::MAX
    &&& has_edge(edges, TOP) ==> i32::MIN <= initial_size.h - size.h <= i32::MAX && i32::MIN
        <= initial_location.y + (initial_size.h - size.h) <= i32::MAX
}

/// Where a resized window must stand (see `spec_resized_location`).
pub fn resized_location(edges: ResizeEdge, initial_location: Point, initial_size: Size, size: Size, current: Point) -> (r: Point)
    requires
        location_fits(edges, initial_location, initial_size, size),
    ensures
        r == spec_resized_location(edges, initial_location, initial_size, size, current),
{
    let x = if edges.intersects(LEFT) {
        initial_location.x + (initial_size.w - size.w)
    } else {
        current.x
    };
    let y = if edges.intersects(TOP) {
        initial_location.y + (initial_size.h - size.h)
    } else {
        current.y
    };
    Point { x, y }
}

/// The state after the drag was released: a surface that was resizing now
/// waits for the client to acknowledge the final configure (sent with
/// `serial`), or, for an X11 window, for its final commit; any other
/// state was wrong and goes back to not resizing.
pub open spec fn spec_released(s: ResizeState, serial: Serial, x11: bool) -> ResizeState {
    match s {
        ResizeState::Resizing(d) => if x11 {
            ResizeState::WaitingForCommit(d)
        } else {
            ResizeState::WaitingForFinalAck(d, serial)
        },
        _ => ResizeState::NotResizing,
    }
}

/// The state after the client acknowledged the final configure: it then
/// waits for the commit. Other states stay as they are.
pub open spec fn spec_acknowledged(s: ResizeState) -> ResizeState {
    match s {
        ResizeState::WaitingForFinalAck(d, _) => ResizeState::WaitingForCommit(d),
        _ => s,
    }
}

/// The state after the surface committed: a resize waiting for the commit
/// is over. Other states stay as they are.
pub open spec fn spec_committed(s: ResizeState) -> ResizeState {
    match s {
        ResizeState::WaitingForCommit(_) => ResizeState::NotResizing,
        _ => s,
    }
}

/// Where a surface that commits while it is being resized must stand:
/// moved where a dragged top or left edge asks it to (see
/// `spec_resized_location`); none where it is not being resized or
/// neither edge is dragged.
pub open spec fn spec_commit_location(s: ResizeState, size: Size, current: Point) -> Option<Point> {
    match s {
        ResizeState::Resizing(d) => if has_edge(d.edges, TOP) || has_edge(d.edges, LEFT) {
            Some(spec_resized_location(d.edges, d.initial_window_location, d.initial_window_size, size, current))
        } else {
            None
        },
        _ => None,
    }
}

impl ResizeState {
    /// The state after the drag was released (see `spec_released`).
    pub fn released(self, serial: Serial, x11: bool) -> (r: ResizeState)
        ensures
            r == spec_released(self, serial, x11),
    {
        match self {
            ResizeState::Resizing(d) => if x11 {
                ResizeState::WaitingForCommit(d)
            } else {
                ResizeState::WaitingForFinalAck(d, serial)
            },
            _ => ResizeState::NotResizing,
        }
    }

    /// The serial of the final configure the surface waits to see
    /// acknowledged.
    pub fn pending_ack(&self) -> (r: Option<Serial>)
        ensures
            r == (match *self {
                ResizeState::WaitingForFinalAck(_, s) => Some(s),
                _ => None,
            }),
    {
        match self {
            ResizeState::WaitingForFinalAck(_, s) => Some(*s),
            _ => None,
        }
    }

    /// The state after the client acknowledged the final configure.
    pub fn acknowledged(self) -> (r: ResizeState)
        ensures
            r == spec_acknowledged(self),
    {
        match self {
            ResizeState::WaitingForFinalAck(d, _) => ResizeState::WaitingForCommit(d),
            _ => self,
        }
    }

    /// The state after the surface committed.
    pub fn committed(self) -> (r: ResizeState)
        ensures
            r == spec_committed(self),
    {
        match self {
            ResizeState::WaitingForCommit(_) => ResizeState::NotResizing,
            _ => self,
        }
    }

    /// Where a surface that commits with size `size` while standing at
    /// `current` must stand (see `spec_commit_location`).
    pub fn commit_location(&self, size: Size, current: Point) -> (r: Option<Point>)
        requires
            match *self {
                ResizeState::Resizing(d) => location_fits(d.edges, d.initial_window_location, d.initial_window_size, size),
                _ => true,
            },
        ensures
            r == spec_commit_location(*self, size, current),
    {
        match self {
            ResizeState::Resizing(d) => if d.edges.intersects(TOP) || d.edges.intersects(LEFT) {
                Some(resized_location(d.edges, d.initial_window_location, d.initial_window_size, size, current))
            } else {
                None
            },
            _ => None,
        }
    }
}

/// Law: a resize that is released ends once the client has caught up: a
/// Wayland surface after it acknowledged the final configure and
/// committed, an X11 window after it committed. Until then the state
/// keeps the data the resize started from.
pub proof fn law_resize_ends(d: ResizeData, serial: Serial)
    ensures
        spec_released(ResizeState::Resizing(d), serial, false) == ResizeState::WaitingForFinalAck(d, serial),
        spec_acknowledged(spec_released(ResizeState::Resizing(d), serial, false)) == ResizeState::WaitingForCommit(d),
        spec_committed(spec_acknowledged(spec_released(ResizeState::Resizing(d), serial, false)))
            == ResizeState::NotResizing,
        spec_committed(spec_released(ResizeState::Resizing(d), serial, true)) == ResizeState::NotResizing,
        spec_committed(ResizeState::NotResizing) == ResizeState::NotResizing,
        spec_acknowledged(ResizeState::NotResizing) == ResizeState::NotResizing,
{
}

/// Law: the size a drag gives stays within the client's limits, where its
/// minimum (at least 1) is not above its maximum (no maximum where it is
/// 0); a side the drag does not move keeps its size within them.
pub proof fn law_resized_within_limits(edges: ResizeEdge, initial: Size, requested: Size, min: Size, max: Size)
    requires
        max.w == 0 || max_int(min.w as int, 1) <= max.w,
        max.h == 0 || max_int(min.h as int, 1) <= max.h,
    ensures
        ({
            let r = spec_resized_size(edges, initial, requested, min, max);
            &&& max_int(min.w as int, 1) <= r.w && (max.w == 0 || r.w <= max.w)
            &&& max_int(min.h as int, 1) <= r.h && (max.h == 0 || r.h <= max.h)
            &&& !(has_edge(edges, LEFT) || has_edge(edges, RIGHT)) && max_int(min.w as int, 1) <= initial.w && (
            max.w == 0 || initial.w <= max.w) ==> r.w == initial.w
            &&& !(has_edge(edges, TOP) || has_edge(edges, BOTTOM)) && max_int(min.h as int, 1) <= initial.h && (
            max.h == 0 || initial.h <= max.h) ==> r.h == initial.h
        }),
{
}

/// Law: a window resized by its left edge keeps its right edge where it
/// was, and one resized by its top edge keeps its bottom edge; an edge
/// not dragged leaves that coordinate as it stands.
pub proof fn law_far_edges_stay(edges: ResizeEdge, initial_location: Point, initial_size: Size, size: Size, current: Point)
    requires
        location_fits(edges, initial_location, initial_size, size),
    ensures
        ({
            let p = spec_resized_location(edges, initial_location, initial_size, size, current);
            &&& has_edge(edges, LEFT) ==> p.x + size.w == initial_location.x + initial_size.w
            &&& has_edge(edges, TOP) ==> p.y + size.h == initial_location.y + initial_size.h
            &&& !has_edge(edges, LEFT) ==> p.x == current.x
            &&& !has_edge(edges, TOP) ==> p.y == current.y
        }),
{
}

} // verus!

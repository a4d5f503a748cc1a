//! The resize state machine: a resize starts, changes size, finishes and
//! waits for the client to acknowledge and then commit, or is cancelled.
//! Each state is a type of its own, so that only valid transitions exist.
use crate::geometry::{Point, Size};
use vstd::prelude::*;

verus! {

/// A configure serial that the client acknowledges.
#[derive(Debug, Clone, Copy, PartialEq, Eq, Structural)]
pub struct Serial {
    pub value: u32,
}

/// Edges that can be resized
#[derive(Debug, Clone, Copy, PartialEq, Eq, Structural)]
pub enum ResizeEdge {
    /// Resize only the top edge
    Top,
    /// Resize only the bottom edge
    Bottom,
    /// Resize only the left edge
    Left,
    /// Resize only the right edge
    Right,
    /// Resize top-left corner
    TopLeft,
    /// Resize top-right corner
    TopRight,
    /// Resize bottom-left corner
    BottomLeft,
    /// Resize bottom-right corner
    BottomRight,
}

impl ResizeEdge {
    /// Check if the top edge is being resized
    pub fn has_top(&self) -> (b: bool)
        ensures
            b == (*self == ResizeEdge::Top || *self == ResizeEdge::TopLeft || *self
                == ResizeEdge::TopRight),
    {
        matches!(self, ResizeEdge::Top | ResizeEdge::TopLeft | ResizeEdge::TopRight)
    }

    /// Check if the bottom edge is being resized
    pub fn has_bottom(&self) -> (b: bool)
        ensures
            b == (*self == ResizeEdge::Bottom || *self == ResizeEdge::BottomLeft || *self
                == ResizeEdge::BottomRight),
    {
        matches!(self, ResizeEdge::Bottom | ResizeEdge::BottomLeft | ResizeEdge::BottomRight)
    }

    /// Check if the left edge is being resized
    pub fn has_left(&self) -> (b: bool)
        ensures
            b == (*self == ResizeEdge::Left || *self == ResizeEdge::TopLeft || *self
                == ResizeEdge::BottomLeft),
    {
        matches!(self, ResizeEdge::Left | ResizeEdge::TopLeft | ResizeEdge::BottomLeft)
    }

    /// Check if the right edge is being resized
    pub fn has_right(&self) -> (b: bool)
        ensures
            b == (*self == ResizeEdge::Right || *self == ResizeEdge::TopRight || *self
                == ResizeEdge::BottomRight),
    {
        matches!(self, ResizeEdge::Right | ResizeEdge::TopRight | ResizeEdge::BottomRight)
    }
}

/// Law: every edge resizes exactly one or two sides, never two opposite
/// ones, and exactly the corners resize two.
pub proof fn law_resize_edge_sides(e: ResizeEdge)
    ensures
        !(has_top_spec(e) && has_bottom_spec(e)),
        !(has_left_spec(e) && has_right_spec(e)),
        has_top_spec(e) || has_bottom_spec(e) || has_left_spec(e) || has_right_spec(e),
        (has_top_spec(e) || has_bottom_spec(e)) && (has_left_spec(e) || has_right_spec(e)) <==> (e
            == ResizeEdge::TopLeft || e == ResizeEdge::TopRight || e == ResizeEdge::BottomLeft || e
            == ResizeEdge::BottomRight),
{
}

pub open spec fn has_top_spec(e: ResizeEdge) -> bool {
    e == ResizeEdge::Top || e == ResizeEdge::TopLeft || e == ResizeEdge::TopRight
}

pub open spec fn has_bottom_spec(e: ResizeEdge) -> bool {
    e == ResizeEdge::Bottom || e == ResizeEdge::BottomLeft || e == ResizeEdge::BottomRight
}

pub open spec fn has_left_spec(e: ResizeEdge) -> bool {
    e == ResizeEdge::Left || e == ResizeEdge::TopLeft || e == ResizeEdge::BottomLeft
}

pub open spec fn has_right_spec(e: ResizeEdge) -> bool {
    e == ResizeEdge::Right || e == ResizeEdge::TopRight || e == ResizeEdge::BottomRight
}

/// Data associated with a resize operation
#[derive(Debug, Clone, Copy, PartialEq, Eq, Structural)]
pub struct ResizeData {
    /// The edges that are being resized
    pub edges: ResizeEdge,
    /// The initial window size before resize started
    pub initial_size: Size,
    /// The initial window location before resize started
    pub initial_location: Point,
    /// The current size during resize
    pub current_size: Size,
}

// Type states for the resize operation
pub struct NotResizing;

pub struct Resizing {
    pub data: ResizeData,
}

pub struct WaitingForAck {
    pub data: ResizeData,
    pub serial: Serial,
}

pub struct WaitingForCommit {
    pub data: ResizeData,
}

/// Type-safe resize state machine
pub enum ResizeState {
    Idle(NotResizing),
    Active(ActiveResize),
}

pub enum ActiveResize {
    Resizing(Resizing),
    WaitingForAck(WaitingForAck),
    WaitingForCommit(WaitingForCommit),
}

impl NotResizing {
    /// Start a resize operation
    pub fn start_resize(self, data: ResizeData) -> (r: Resizing)
        ensures
            r.data == data,
    {
        Resizing { data }
    }
}

impl Resizing {
    /// Update the current size during resize
    pub fn update_size(&mut self, new_size: Size)
        ensures
            final(self).data == (ResizeData { current_size: new_size, ..old(self).data }),
    {
        self.data.current_size = new_size;
    }

    /// Finish resizing and wait for acknowledgment
    pub fn finish(self, serial: Serial) -> (r: WaitingForAck)
        ensures
            r.data == self.data,
            r.serial == serial,
    {
        WaitingForAck { data: self.data, serial }
    }

    /// Cancel the resize operation
    pub fn cancel(self) -> (r: NotResizing) {
        NotResizing
    }
}

impl WaitingForAck {
    /// Acknowledgment received, wait for commit
    pub fn ack_received(self) -> (r: WaitingForCommit)
        ensures
            r.data == self.data,
    {
        WaitingForCommit { data: self.data }
    }

    /// Timeout or error, cancel the operation
    pub fn timeout(self) -> (r: NotResizing) {
        NotResizing
    }
}

impl WaitingForCommit {
    /// Commit received, resize complete
    pub fn commit_received(self) -> (r: NotResizing) {
        NotResizing
    }

    /// Timeout or error, cancel the operation
    pub fn timeout(self) -> (r: NotResizing) {
        NotResizing
    }
}

/// The data of a resize in progress, if one is.
pub open spec fn state_data(s: ResizeState) -> Option<ResizeData> {
    match s {
        ResizeState::Idle(_) => None,
        ResizeState::Active(active) => match active {
            ActiveResize::Resizing(r) => Some(r.data),
            ActiveResize::WaitingForAck(w) => Some(w.data),
            ActiveResize::WaitingForCommit(w) => Some(w.data),
        },
    }
}

impl ResizeState {
    pub fn new() -> (s: ResizeState)
        ensures
            s is Idle,
    {
        ResizeState::Idle(NotResizing)
    }

    pub fn is_resizing(&self) -> (b: bool)
        ensures
            b == (*self is Active),
    {
        matches!(self, ResizeState::Active(_))
    }

    pub fn get_data(&self) -> (r: Option<&ResizeData>)
        ensures
            match state_data(*self) {
                Some(d) => r matches Some(x) && *x == d,
                None => r is None,
            },
    {
        match self {
            ResizeState::Idle(_) => None,
            ResizeState::Active(active) => match active {
                ActiveResize::Resizing(r) => Some(&r.data),
                ActiveResize::WaitingForAck(w) => Some(&w.data),
                ActiveResize::WaitingForCommit(w) => Some(&w.data),
            },
        }
    }
}

impl Default for ResizeState {
    fn default() -> (s: ResizeState)
        ensures
            s is Idle,
    {
        ResizeState::new()
    }
}

/// Law: a state has resize data exactly while a resize is in progress.
pub proof fn law_data_while_resizing(s: ResizeState)
    ensures
        state_data(s) is Some <==> s is Active,
{
}

} // verus!

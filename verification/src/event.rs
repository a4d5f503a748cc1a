//! Events that the compositor reports about windows, workspaces, layouts
//! and IPC clients, each with the time it happened.
use crate::geometry::{Point, Rectangle};
use crate::ipc::WorkspaceInfo;
use crate::keybindings::FullscreenMode;
use crate::window::WindowId;
use crate::workspace::WorkspaceId;
pub use std::time::Instant;
use vstd::prelude::*;

verus! {

/// A moment of the monotonic clock (`std::time::Instant`), carried through
/// as it is.
#[verifier::external_type_specification]
#[verifier::external_body]
pub struct ExInstant(std::time::Instant);

/// `Instant::clone`: an `Instant` is `Copy`, so its clone is the same
/// moment.
pub assume_specification[ <std::time::Instant as core::clone::Clone>::clone ](
    i: &std::time::Instant,
) -> (r: std::time::Instant)
    ensures
        r == *i,
;

/// Window-related events
#[derive(Debug, Clone)]
pub enum WindowEvent {
    /// A new window was created
    Created { window_id: WindowId, workspace: WorkspaceId, initial_position: Point, timestamp: Instant },
    /// A window was destroyed
    Destroyed { window_id: WindowId, workspace: WorkspaceId, timestamp: Instant },
    /// A window was moved
    Moved { window_id: WindowId, old_position: Point, new_position: Point, timestamp: Instant },
    /// A window was resized
    Resized { window_id: WindowId, old_size: Rectangle, new_size: Rectangle, timestamp: Instant },
    /// A window gained focus
    Focused { window_id: WindowId, timestamp: Instant },
    /// A window lost focus
    Unfocused { window_id: WindowId, timestamp: Instant },
    /// A window changed workspace
    WorkspaceChanged {
        window_id: WindowId,
        old_workspace: WorkspaceId,
        new_workspace: WorkspaceId,
        timestamp: Instant,
    },
    /// A window entered fullscreen
    FullscreenEntered { window_id: WindowId, mode: FullscreenMode, timestamp: Instant },
    /// A window exited fullscreen
    FullscreenExited { window_id: WindowId, timestamp: Instant },
}

/// Workspace-related events
#[derive(Debug, Clone)]
pub enum WorkspaceEvent {
    /// Workspace was switched
    Switched {
        old_workspace: WorkspaceId,
        new_workspace: WorkspaceId,
        virtual_output: usize,
        timestamp: Instant,
    },
    /// Workspace layout changed
    LayoutChanged { workspace: WorkspaceId, timestamp: Instant },
}

/// An event that the window-management state raises, waiting to be handed
/// to whoever listens.
#[derive(Debug, Clone)]
pub enum Event {
    Window(WindowEvent),
    Workspace(WorkspaceEvent),
}

/// `e` with its moment left out: every timestamp is one fixed value, so
/// that two events are the same when they tell the same thing.
pub open spec fn unstamped(e: Event) -> Event {
    let t = vstd::pervasive::arbitrary::<Instant>();
    match e {
        Event::Window(w) => Event::Window(
            match w {
                WindowEvent::Created { window_id, workspace, initial_position, .. } =>
                    WindowEvent::Created { window_id, workspace, initial_position, timestamp: t },
                WindowEvent::Destroyed { window_id, workspace, .. } =>
                    WindowEvent::Destroyed { window_id, workspace, timestamp: t },
                WindowEvent::Moved { window_id, old_position, new_position, .. } =>
                    WindowEvent::Moved { window_id, old_position, new_position, timestamp: t },
                WindowEvent::Resized { window_id, old_size, new_size, .. } =>
                    WindowEvent::Resized { window_id, old_size, new_size, timestamp: t },
                WindowEvent::Focused { window_id, .. } => WindowEvent::Focused { window_id, timestamp: t },
                WindowEvent::Unfocused { window_id, .. } => WindowEvent::Unfocused { window_id, timestamp: t },
                WindowEvent::WorkspaceChanged { window_id, old_workspace, new_workspace, .. } =>
                    WindowEvent::WorkspaceChanged { window_id, old_workspace, new_workspace, timestamp: t },
                WindowEvent::FullscreenEntered { window_id, mode, .. } =>
                    WindowEvent::FullscreenEntered { window_id, mode, timestamp: t },
                WindowEvent::FullscreenExited { window_id, .. } =>
                    WindowEvent::FullscreenExited { window_id, timestamp: t },
            },
        ),
        Event::Workspace(w) => Event::Workspace(
            match w {
                WorkspaceEvent::Switched { old_workspace, new_workspace, virtual_output, .. } =>
                    WorkspaceEvent::Switched { old_workspace, new_workspace, virtual_output, timestamp: t },
                WorkspaceEvent::LayoutChanged { workspace, .. } =>
                    WorkspaceEvent::LayoutChanged { workspace, timestamp: t },
            },
        ),
    }
}

/// A window moved from one workspace to another, its moment left out.
pub open spec fn workspace_changed(window_id: WindowId, old_workspace: WorkspaceId, new_workspace: WorkspaceId) -> Event {
    unstamped(Event::Window(WindowEvent::WorkspaceChanged {
        window_id,
        old_workspace,
        new_workspace,
        timestamp: vstd::pervasive::arbitrary::<Instant>(),
    }))
}

/// An output switched from one workspace to another, its moment left out.
pub open spec fn workspace_switched(old_workspace: WorkspaceId, new_workspace: WorkspaceId, virtual_output: usize) -> Event {
    unstamped(Event::Workspace(WorkspaceEvent::Switched {
        old_workspace,
        new_workspace,
        virtual_output,
        timestamp: vstd::pervasive::arbitrary::<Instant>(),
    }))
}

/// A window was created in a workspace, at the origin, its moment left out.
pub open spec fn window_created(window_id: WindowId, workspace: WorkspaceId) -> Event {
    unstamped(Event::Window(WindowEvent::Created {
        window_id,
        workspace,
        initial_position: Point { x: 0, y: 0 },
        timestamp: vstd::pervasive::arbitrary::<Instant>(),
    }))
}

/// A window of a workspace was destroyed, its moment left out.
pub open spec fn window_destroyed(window_id: WindowId, workspace: WorkspaceId) -> Event {
    unstamped(Event::Window(WindowEvent::Destroyed {
        window_id,
        workspace,
        timestamp: vstd::pervasive::arbitrary::<Instant>(),
    }))
}

/// `std::time::Instant::now`: the present moment of the monotonic clock.
/// Nothing is stated of it, as it depends on the time of the call.
#[verifier::external_body]
pub(crate) fn now() -> Instant {
    Instant::now()
}

/// Layout-related events
#[derive(Debug, Clone)]
pub enum LayoutEvent {
    /// Layout recalculation requested
    RecalculationRequested { workspace: WorkspaceId, timestamp: Instant },
    /// Layout applied
    Applied { workspace: WorkspaceId, windows_affected: Vec<WindowId>, timestamp: Instant },
}

/// IPC-related events
#[derive(Debug, Clone)]
pub enum IpcEvent {
    /// IPC client connected
    ClientConnected { client_id: u64, timestamp: Instant },
    /// IPC client disconnected
    ClientDisconnected { client_id: u64, timestamp: Instant },
    /// IPC command received
    CommandReceived { client_id: u64, command: String, timestamp: Instant },
}

/// Event listener trait for specific event types
pub trait EventListener<E> {
    /// Called when an event occurs
    fn on_event(&mut self, event: &E);
}

/// State update event that carries the actual workspace state
#[derive(Debug, Clone)]
pub struct StateUpdateEvent {
    pub virtual_output: usize,
    pub workspaces: Vec<WorkspaceInfo>,
}

} // verus!

//! Windows coming and going: where a new toplevel window is placed, and
//! where focus goes when one is destroyed.
use crate::geometry::{Point, Rectangle, Size};
use crate::shell::view_center_pointer;
use crate::state::{pick_focus, view_focus, view_switch, StateView, StilchState};
use crate::virtual_output::{vo_at, vo_lookup, with_active};
use crate::window::{registry_get, registry_index, ContainerId, ManagedWindow, WindowId, WindowLayout};
use crate::workspace::{shown_on, with_window, without_window, ws_index, ws_lookup, ws_on_output, WorkspaceId};
use vstd::prelude::*;

verus! {

/// The number after `n`, wrapping round at the end of the range.
pub open spec fn next_number(n: u64) -> u64 {
    if n == u64::MAX {
        0
    } else {
        (n + 1) as u64
    }
}

/// A new window's registry entry: placed at the origin and tiled, with its
/// own size, in a new container numbered `container`.
pub open spec fn new_managed_window(id: WindowId, ws: WorkspaceId, size: Size, container: u64) -> ManagedWindow {
    ManagedWindow {
        id,
        workspace: ws,
        location: Some(Point { x: 0, y: 0 }),
        size,
        layout: WindowLayout::Tiled {
            container: ContainerId { id: container },
            geometry: Rectangle { loc: Point { x: 0, y: 0 }, size },
        },
    }
}

/// The state after window `id` of size `size` was added to the workspace
/// shown on output `vo` (workspace 1 is shown there first where none is),
/// and the identity it got; none where the identity is taken or the
/// workspace does not exist. Once the registry takes the window, its
/// creation is reported, also where the workspace then refuses it.
pub open spec fn view_add_window(c: StateView, id: WindowId, size: Size, vo: usize) -> (StateView, Option<WindowId>) {
    let w0 = WorkspaceId { id: 0 };
    let (c1, ws) = match ws_on_output(c.workspaces, vo) {
        Some(w) => (c, w),
        None => {
            let wv = if vo_lookup(c.outputs, vo) is Some && ws_lookup(c.workspaces, w0) is Some {
                shown_on(c.workspaces, w0, vo)
            } else {
                c.workspaces
            };
            (StateView { workspaces: wv, outputs: with_active(c.outputs, vo, 0), ..c }, w0)
        },
    };
    if registry_get(c1.registry, id) is Some {
        (c1, None)
    } else {
        let events = c1.events.push(crate::event::window_created(id, ws));
        match ws_index(c1.workspaces, ws) {
            Some(i) => (
                StateView {
                    registry: c1.registry.push(new_managed_window(id, ws, size, c1.containers)),
                    workspaces: c1.workspaces.update(i, with_window(c1.workspaces[i], id)),
                    containers: next_number(c1.containers),
                    events,
                    ..c1
                },
                Some(id),
            ),
            None => (StateView { events, ..c1 }, None),
        }
    }
}

/// The output a new window goes to: the one under the pointer, else the
/// first.
pub open spec fn new_window_output(c: StateView) -> Option<usize> {
    match vo_at(c.outputs, c.pointer) {
        Some(vo) => Some(vo),
        None => if c.outputs.len() > 0 {
            Some(c.outputs[0].id)
        } else {
            None
        },
    }
}

/// The state after a new toplevel window `id` of size `size` was mapped:
/// it joins the active workspace of the output under the pointer (that
/// output first switches to workspace 1 where it shows none), or of the
/// first output; it takes keyboard focus and the pointer moves to its
/// centre.
pub open spec fn view_new_toplevel(c: StateView, id: WindowId, size: Size) -> StateView {
    let c1 = match vo_at(c.outputs, c.pointer) {
        Some(vo) => match vo_lookup(c.outputs, vo) {
            Some(o) => if o.active_workspace is Some {
                view_add_window(c, id, size, vo).0
            } else {
                view_add_window(view_switch(c, vo, WorkspaceId { id: 0 }), id, size, vo).0
            },
            None => c,
        },
        None => if c.outputs.len() > 0 {
            view_add_window(c, id, size, c.outputs[0].id).0
        } else {
            c
        },
    };
    view_center_pointer(StateView { focus: Some(id), ..c1 }, id)
}

/// The state after window `id` was destroyed: it leaves its workspace and
/// the registry, and its destruction is reported; where its workspace is shown as an output's active one,
/// the window the workspace then keeps focused (else its first) takes
/// focus and the pointer, or no window keeps focus.
pub open spec fn view_toplevel_destroyed(c: StateView, id: WindowId) -> StateView {
    match registry_get(c.registry, id) {
        None => c,
        Some(mw) => {
            let ws = mw.workspace;
            let vo = match ws_lookup(c.workspaces, ws) {
                Some(w) => w.location,
                None => None,
            };
            let w1 = match ws_index(c.workspaces, ws) {
                Some(i) => c.workspaces.update(i, without_window(c.workspaces[i], id)),
                None => c.workspaces,
            };
            let next = match ws_lookup(w1, ws) {
                Some(w) => pick_focus(w),
                None => None,
            };
            let c2 = StateView {
                registry: c.registry.remove(registry_index(c.registry, id)->0),
                workspaces: w1,
                events: c.events.push(crate::event::window_destroyed(id, ws)),
                ..c
            };
            let shown = match vo {
                Some(v) => match vo_lookup(c.outputs, v) {
                    Some(o) => o.active_workspace == Some(ws.id as usize),
                    None => false,
                },
                None => false,
            };
            if shown {
                match next {
                    Some(n) => if registry_get(c2.registry, n) is Some {
                        view_center_pointer(view_focus(c2, n), n)
                    } else {
                        c2
                    },
                    None => StateView { focus: None, ..c2 },
                }
            } else {
                c2
            }
        },
    }
}

/// The first window of `s` other than `f`.
pub open spec fn first_other(s: Seq<WindowId>, f: WindowId) -> Option<WindowId>
    decreases s.len(),
{
    if s.len() == 0 {
        None
    } else if s[0] != f {
        Some(s[0])
    } else {
        first_other(s.drop_first(), f)
    }
}

/// The state after the focused window was asked to close, and the window
/// to ask: the first other window of its workspace takes focus and the
/// pointer at once; where there is none, no window keeps focus.
pub open spec fn view_close_focused(c: StateView) -> (StateView, Option<WindowId>) {
    match c.focus {
        None => (c, None),
        Some(f) => match registry_get(c.registry, f) {
            None => (c, Some(f)),
            Some(mw) => {
                let next = match ws_lookup(c.workspaces, mw.workspace) {
                    Some(w) => first_other(w.windows, f),
                    None => None,
                };
                match next {
                    Some(n) => if registry_get(c.registry, n) is Some {
                        (view_center_pointer(view_focus(c, n), n), Some(f))
                    } else {
                        (c, Some(f))
                    },
                    None => (StateView { focus: None, ..c }, Some(f)),
                }
            },
        },
    }
}

/// The first window of `windows` other than `f`.
fn first_other_exec(windows: &Vec<WindowId>, f: WindowId) -> (r: Option<WindowId>)
    ensures
        r == first_other(windows@, f),
{
    let mut i: usize = 0;
    assert(windows@.skip(0) =~= windows@);
    while i < windows.len()
        invariant
            i <= windows.len(),
            first_other(windows@, f) == first_other(windows@.skip(i as int), f),
        decreases windows.len() - i,
    {
        assert(windows@.skip(i as int)[0] == windows@[i as int]);
        if windows[i] != f {
            return Some(windows[i]);
        }
        assert(windows@.skip(i as int).drop_first() =~= windows@.skip(i + 1));
        i += 1;
    }
    None
}

impl StilchState {
    /// Adds window `id` to the workspace shown on output `vo`; the identity
    /// it got, or none where it could not be added.
    pub fn add_window(&mut self, id: WindowId, size: Size, vo: usize) -> (r: Option<WindowId>)
        requires
            old(self).wf(),
        ensures
            (final(self)@, r) == view_add_window(old(self)@, id, size, vo),
            final(self).config == old(self).config,
            final(self).wf(),
    {
        let ghost c = self@;
        let workspace_id = match self.workspace_manager.workspace_on_output(vo) {
            Some(ws) => ws,
            None => {
                let w0 = WorkspaceId::new(0);
                if self.virtual_output_manager.get(vo).is_some() {
                    self.workspace_manager.show_workspace_on_output(w0, vo);
                }
                self.virtual_output_manager.set_active_workspace(vo, 0);
                proof {
                    crate::state::lemma_outputs_fit_active(c.outputs, vo, 0);
                }
                w0
            },
        };
        let ghost c1 = self@;
        proof {
            crate::window::lemma_registry_index(c1.registry, id);
            crate::workspace::lemma_ws_index(c1.workspaces, workspace_id);
        }
        let container = self.next_container;
        let mw = ManagedWindow {
            id,
            workspace: workspace_id,
            location: Some(Point { x: 0, y: 0 }),
            size,
            layout: WindowLayout::Tiled {
                container: ContainerId { id: container },
                geometry: Rectangle { loc: Point { x: 0, y: 0 }, size },
            },
        };
        if !self.window_registry.insert(mw) {
            return None;
        }
        self.emit_event(
            crate::event::Event::Window(
                crate::event::WindowEvent::Created {
                    window_id: id,
                    workspace: workspace_id,
                    initial_position: Point { x: 0, y: 0 },
                    timestamp: crate::event::now(),
                },
            ),
        );
        if !self.workspace_manager.add_window_to_workspace(workspace_id, id) {
            let ghost pushed = self.window_registry.windows@;
            self.window_registry.remove(id);
            proof {
                crate::window::lemma_registry_index(pushed, id);
                assert(pushed == c1.registry.push(mw));
                assert(pushed[pushed.len() - 1].id == id);
                assert forall|j: int| 0 <= j < pushed.len() - 1 implies pushed[j].id != id by {
                    assert(pushed[j] == c1.registry[j]);
                }
                assert(registry_index(pushed, id) == Some((pushed.len() - 1) as int));
                assert(pushed.remove(pushed.len() - 1) =~= c1.registry);
            }
            return None;
        }
        self.next_container = container.wrapping_add(1);
        Some(id)
    }

    /// Maps a new toplevel window `id` of size `size`.
    pub fn new_toplevel(&mut self, id: WindowId, size: Size)
        requires
            old(self).wf(),
        ensures
            final(self)@ == view_new_toplevel(old(self)@, id, size),
            final(self).config == old(self).config,
            final(self).wf(),
    {
        match self.virtual_output_manager.virtual_output_at(self.pointer_location) {
            Some(vo) => {
                let active = match self.virtual_output_manager.get(vo) {
                    Some(o) => Some(o.active_workspace.is_some()),
                    None => None,
                };
                match active {
                    Some(true) => {
                        self.add_window(id, size, vo);
                    },
                    Some(false) => {
                        self.switch_workspace(vo, WorkspaceId::new(0));
                        self.add_window(id, size, vo);
                    },
                    None => {},
                }
            },
            None => {
                let outputs = self.virtual_output_manager.outputs();
                if outputs.len() > 0 {
                    let first = outputs[0].id;
                    assert(self@.outputs[0] == crate::virtual_output::output_view(outputs@[0]));
                    self.add_window(id, size, first);
                }
            },
        }
        self.focused_window = Some(id);
        self.center_pointer_on_window(id);
    }

    /// Forgets a destroyed window and hands its focus on.
    pub fn toplevel_destroyed(&mut self, id: WindowId)
        requires
            old(self).wf(),
        ensures
            final(self)@ == view_toplevel_destroyed(old(self)@, id),
            final(self).config == old(self).config,
            final(self).wf(),
    {
        let ghost c = self@;
        let mw = match self.window_registry.get(id) {
            Some(mw) => mw,
            None => {
                return ;
            },
        };
        let ws = mw.workspace;
        let vo = self.workspace_manager.find_workspace_location(ws);
        proof {
            crate::workspace::lemma_ws_index(c.workspaces, ws);
            crate::window::lemma_registry_index(c.registry, id);
        }
        self.workspace_manager.remove_window_from_workspace(ws, id);
        let next = match self.workspace_manager.get_workspace(ws) {
            Some(w) => match w.focused_window {
                Some(f) => Some(f),
                None => if w.windows.len() > 0 {
                    Some(w.windows[0])
                } else {
                    None
                },
            },
            None => None,
        };
        self.window_registry.remove(id);
        self.emit_event(
            crate::event::Event::Window(
                crate::event::WindowEvent::Destroyed {
                    window_id: id,
                    workspace: ws,
                    timestamp: crate::event::now(),
                },
            ),
        );
        let shown = match vo {
            Some(v) => match self.virtual_output_manager.get(v) {
                Some(o) => o.active_workspace == Some(ws.get() as usize),
                None => false,
            },
            None => false,
        };
        if shown {
            match next {
                Some(n) => {
                    if self.window_registry.get(n).is_some() {
                        self.focus_window(n);
                        self.center_pointer_on_window(n);
                    }
                },
                None => {
                    self.focused_window = None;
                },
            }
        }
    }
    /// Asks the focused window to close: the first other window of its
    /// workspace takes focus and the pointer at once, else no window keeps
    /// focus. The window to ask to close.
    pub fn close_focused_window(&mut self) -> (r: Option<WindowId>)
        requires
            old(self).wf(),
        ensures
            (final(self)@, r) == view_close_focused(old(self)@),
            final(self).config == old(self).config,
            final(self).wf(),
    {
        let f = match self.focused_window {
            Some(f) => f,
            None => {
                return None;
            },
        };
        let mw = match self.window_registry.get(f) {
            Some(mw) => mw,
            None => {
                return Some(f);
            },
        };
        let next = match self.workspace_manager.get_workspace(mw.workspace) {
            Some(w) => first_other_exec(&w.windows, f),
            None => None,
        };
        match next {
            Some(n) => {
                if self.window_registry.get(n).is_some() {
                    self.focus_window(n);
                    self.center_pointer_on_window(n);
                }
            },
            None => {
                self.focused_window = None;
            },
        }
        Some(f)
    }
}

} // verus!

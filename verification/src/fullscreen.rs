//! Fullscreen and floating windows: how a window's layout changes when it
//! enters or leaves fullscreen or starts or stops floating, and what the
//! window and the outputs must then be told.
use crate::geometry::{Rectangle, Size};
use crate::state::{StateView, StilchState};
use crate::virtual_output::{vo_lookup, OutputView};
use crate::window::{
    lemma_registry_index, lemma_registry_update, registry_get, registry_index, ContainerId, FullscreenMode,
    ManagedWindow, WindowId, WindowLayout,
};
use crate::workspace::{lemma_ws_index, lemma_ws_lookup_update, ws_index, ws_lookup, WorkspaceId, WorkspaceView};
use crate::xdg::next_number;
use vstd::prelude::*;

verus! {

/// What is left to tell the window and the outputs after a fullscreen
/// change.
#[derive(Debug, Clone, Copy, PartialEq, Eq, Structural)]
pub enum FullscreenEffect {
    /// Nothing needs telling
    Unchanged,
    /// Tell the window it is fullscreen with this size; lay the workspace
    /// out again where one is named
    Enter { window: WindowId, size: Size, relayout: Option<WorkspaceId> },
    /// Show the window over the whole of this physical output, above
    /// everything else
    EnterPhysical { window: WindowId, area: Rectangle },
    /// Tell the window it is no longer fullscreen; lay the workspace out
    /// again where one is named
    Exit { window: WindowId, relayout: Option<WorkspaceId> },
}

/// The region of the virtual output that workspace `ws` is shown on.
pub open spec fn ws_region(c: StateView, ws: WorkspaceId) -> Option<Rectangle> {
    match ws_lookup(c.workspaces, ws) {
        Some(w) => match w.location {
            Some(vo) => match vo_lookup(c.outputs, vo) {
                Some(o) => Some(o.region),
                None => None,
            },
            None => None,
        },
        None => None,
    }
}

/// Workspace `ws`, where it is the active workspace of the output it is
/// shown on (its layout is then on screen and must be applied again).
pub open spec fn relayout_target(c: StateView, ws: WorkspaceId) -> Option<WorkspaceId> {
    match ws_lookup(c.workspaces, ws) {
        Some(w) => match w.location {
            Some(vo) => match vo_lookup(c.outputs, vo) {
                Some(o) => if o.active_workspace == Some(ws.id as usize) {
                    Some(ws)
                } else {
                    None
                },
                None => None,
            },
            None => None,
        },
        None => None,
    }
}

/// The registry with window `id` given layout `l`.
pub open spec fn set_layout_in(reg: Seq<ManagedWindow>, id: WindowId, l: WindowLayout) -> Seq<ManagedWindow> {
    match registry_index(reg, id) {
        Some(i) => reg.update(i, ManagedWindow { layout: l, ..reg[i] }),
        None => reg,
    }
}

/// The workspaces with `f` recorded as the window covering workspace `ws`.
pub open spec fn set_fullscreen_in(wv: Seq<WorkspaceView>, ws: WorkspaceId, f: Option<WindowId>) -> Seq<
    WorkspaceView,
> {
    match ws_index(wv, ws) {
        Some(i) => wv.update(i, WorkspaceView { fullscreen_window: f, ..wv[i] }),
        None => wv,
    }
}

/// A fullscreen layout moved to cover `g`; any other layout as it is.
pub open spec fn with_fullscreen_area(l: WindowLayout, g: Rectangle) -> WindowLayout {
    match l {
        WindowLayout::Fullscreen { mode, previous, .. } => WindowLayout::Fullscreen { mode, geometry: g, previous },
        _ => l,
    }
}

/// The layout after a window was asked to be fullscreen (`enable`) or not.
/// Entering keeps the layout to come back to and covers `area` where one
/// is given, else the window's own area; a window that is fullscreen
/// already keeps its layout. Leaving restores the layout kept.
pub open spec fn toggled_layout(l: WindowLayout, enable: bool, mode: FullscreenMode, area: Option<Rectangle>) -> WindowLayout {
    if enable {
        match l.spec_as_non_fullscreen() {
            Some(p) => WindowLayout::Fullscreen {
                mode,
                geometry: match area {
                    Some(a) => a,
                    None => l.spec_geometry(),
                },
                previous: p,
            },
            None => l,
        }
    } else {
        match l {
            WindowLayout::Fullscreen { previous, .. } => previous.spec_into_layout(),
            _ => l,
        }
    }
}

/// The state after window `id` was asked to be fullscreen in `mode`
/// (`enable`) or to leave fullscreen, and what is left to tell;
/// `physical` is the area of the physical output the window is on.
///
/// Covering the workspace's area takes the workspace to be shown; covering
/// the virtual output takes it to be shown on one that exists; covering
/// the physical output takes that output's area. Where that is missing,
/// only the layout changes.
pub open spec fn view_set_fullscreen(
    c: StateView,
    id: WindowId,
    enable: bool,
    mode: FullscreenMode,
    physical: Option<Rectangle>,
) -> (StateView, FullscreenEffect) {
    match registry_get(c.registry, id) {
        None => (c, FullscreenEffect::Unchanged),
        Some(mw) => {
            let ws = mw.workspace;
            let area = if mode == FullscreenMode::Container {
                ws_region(c, ws)
            } else {
                None
            };
            let l1 = toggled_layout(mw.layout, enable, mode, area);
            let c1 = StateView { registry: set_layout_in(c.registry, id, l1), ..c };
            let covered = StateView { workspaces: set_fullscreen_in(c.workspaces, ws, Some(id)), ..c1 };
            let location = match ws_lookup(c.workspaces, ws) {
                Some(w) => w.location,
                None => None,
            };
            if enable {
                match mode {
                    FullscreenMode::Container => match location {
                        Some(_) => (
                            covered,
                            FullscreenEffect::Enter {
                                window: id,
                                size: match area {
                                    Some(a) => a.size,
                                    None => l1.spec_geometry().size,
                                },
                                relayout: relayout_target(c, ws),
                            },
                        ),
                        None => (c1, FullscreenEffect::Unchanged),
                    },
                    FullscreenMode::VirtualOutput => match ws_region(c, ws) {
                        Some(r) => (
                            StateView {
                                registry: set_layout_in(c.registry, id, with_fullscreen_area(l1, r)),
                                ..covered
                            },
                            FullscreenEffect::Enter { window: id, size: r.size, relayout: relayout_target(c, ws) },
                        ),
                        None => (c1, FullscreenEffect::Unchanged),
                    },
                    FullscreenMode::PhysicalOutput => match physical {
                        Some(g) => (
                            StateView {
                                registry: set_layout_in(c.registry, id, with_fullscreen_area(l1, g)),
                                ..covered
                            },
                            FullscreenEffect::EnterPhysical { window: id, area: g },
                        ),
                        None => (c1, FullscreenEffect::Unchanged),
                    },
                }
            } else {
                let cleared = match ws_lookup(c.workspaces, ws) {
                    Some(w) => if w.fullscreen_window == Some(id) {
                        set_fullscreen_in(c.workspaces, ws, None)
                    } else {
                        c.workspaces
                    },
                    None => c.workspaces,
                };
                (
                    StateView { workspaces: cleared, ..c1 },
                    FullscreenEffect::Exit { window: id, relayout: relayout_target(c, ws) },
                )
            }
        },
    }
}

/// Whether a layout is fullscreen in `mode`.
pub open spec fn in_mode(l: WindowLayout, mode: FullscreenMode) -> bool {
    l matches WindowLayout::Fullscreen { mode: m, .. } && m == mode
}

/// The state after the focused window was toggled in or out of fullscreen
/// in `mode`: out where it is fullscreen in that mode, else in.
pub open spec fn view_toggle_fullscreen(c: StateView, mode: FullscreenMode, physical: Option<Rectangle>) -> (
    StateView,
    FullscreenEffect,
) {
    match c.focus {
        Some(f) => match registry_get(c.registry, f) {
            Some(mw) => view_set_fullscreen(c, f, !in_mode(mw.layout, mode), mode, physical),
            None => (c, FullscreenEffect::Unchanged),
        },
        None => (c, FullscreenEffect::Unchanged),
    }
}

/// The window whose floating is toggled: the focused window of the active
/// workspace of the first output whose active workspace has one.
pub open spec fn floating_target(ws: Seq<WorkspaceView>, outs: Seq<OutputView>) -> Option<WindowId>
    decreases outs.len(),
{
    if outs.len() == 0 {
        None
    } else {
        let here = match outs[0].active_workspace {
            Some(a) => match ws_lookup(ws, WorkspaceId { id: a as u8 }) {
                Some(w) => w.focused_window,
                None => None,
            },
            None => None,
        };
        match here {
            Some(f) => Some(f),
            None => floating_target(ws, outs.drop_first()),
        }
    }
}

/// The state after the floating of the target window was toggled: a tiled
/// window floats where it is, a floating one goes back into a new tiling
/// container, and a fullscreen one stays as it is. With it, the workspace
/// to lay out again, where it is on screen.
pub open spec fn view_toggle_floating(c: StateView) -> (StateView, Option<WorkspaceId>) {
    match floating_target(c.workspaces, c.outputs) {
        Some(id) => match registry_get(c.registry, id) {
            Some(mw) => match mw.layout {
                WindowLayout::Tiled { geometry, .. } => (
                    StateView {
                        registry: set_layout_in(c.registry, id, WindowLayout::Floating { geometry }),
                        ..c
                    },
                    relayout_target(c, mw.workspace),
                ),
                WindowLayout::Floating { geometry } => (
                    StateView {
                        registry: set_layout_in(
                            c.registry,
                            id,
                            WindowLayout::Tiled { container: ContainerId { id: c.containers }, geometry },
                        ),
                        containers: next_number(c.containers),
                        ..c
                    },
                    relayout_target(c, mw.workspace),
                ),
                WindowLayout::Fullscreen { .. } => (c, None),
            },
            None => (c, None),
        },
        None => (c, None),
    }
}

/// The layout moved to cover `g` where it is fullscreen.
fn fullscreen_area(l: WindowLayout, g: Rectangle) -> (r: WindowLayout)
    ensures
        r == with_fullscreen_area(l, g),
{
    match l {
        WindowLayout::Fullscreen { mode, previous, .. } => WindowLayout::Fullscreen { mode, geometry: g, previous },
        _ => l,
    }
}

/// The layout after a request to enter (`enable`) or leave fullscreen.
fn toggle_layout(l: WindowLayout, enable: bool, mode: FullscreenMode, area: Option<Rectangle>) -> (r: WindowLayout)
    ensures
        r == toggled_layout(l, enable, mode, area),
{
    if enable {
        match l.as_non_fullscreen() {
            Some(p) => WindowLayout::Fullscreen {
                mode,
                geometry: match area {
                    Some(a) => a,
                    None => l.geometry(),
                },
                previous: p,
            },
            None => l,
        }
    } else {
        match l {
            WindowLayout::Fullscreen { previous, .. } => previous.into_layout(),
            _ => l,
        }
    }
}

impl StilchState {
    /// The region of the virtual output that workspace `ws` is shown on.
    pub fn workspace_region(&self, ws: WorkspaceId) -> (r: Option<Rectangle>)
        ensures
            r == ws_region(self@, ws),
    {
        match self.workspace_manager.find_workspace_location(ws) {
            Some(vo) => match self.virtual_output_manager.get(vo) {
                Some(o) => Some(o.logical_region()),
                None => None,
            },
            None => None,
        }
    }

    /// Workspace `ws`, where it is the active workspace of the output it is
    /// shown on.
    fn relayout_for(&self, ws: WorkspaceId) -> (r: Option<WorkspaceId>)
        ensures
            r == relayout_target(self@, ws),
    {
        match self.workspace_manager.find_workspace_location(ws) {
            Some(vo) => match self.virtual_output_manager.get(vo) {
                Some(o) => if o.active_workspace == Some(ws.get() as usize) {
                    Some(ws)
                } else {
                    None
                },
                None => None,
            },
            None => None,
        }
    }

    /// Sets a window's layout, keeping the state well formed.
    fn put_layout(&mut self, id: WindowId, l: WindowLayout)
        requires
            old(self).wf(),
        ensures
            final(self)@ == (StateView { registry: set_layout_in(old(self)@.registry, id, l), ..old(self)@ }),
            final(self).config == old(self).config,
            final(self).wf(),
    {
        proof {
            lemma_registry_index(self.window_registry.windows@, id);
        }
        self.window_registry.set_layout(id, l);
    }

    /// Records `f` as the window covering workspace `ws`.
    fn put_fullscreen(&mut self, ws: WorkspaceId, f: Option<WindowId>)
        requires
            old(self).wf(),
        ensures
            final(self)@ == (StateView {
                workspaces: set_fullscreen_in(old(self)@.workspaces, ws, f),
                ..old(self)@
            }),
            final(self).config == old(self).config,
            final(self).wf(),
    {
        self.workspace_manager.set_fullscreen_window(ws, f);
    }

    /// Puts window `id` into fullscreen in `mode` (`enable`) or takes it out,
    /// and says what is left to tell the window and the outputs; `physical`
    /// is the area of the physical output the window is on.
    pub fn set_window_fullscreen(
        &mut self,
        window_id: WindowId,
        enable: bool,
        mode: FullscreenMode,
        physical: Option<Rectangle>,
    ) -> (e: FullscreenEffect)
        requires
            old(self).wf(),
        ensures
            (final(self)@, e) == view_set_fullscreen(old(self)@, window_id, enable, mode, physical),
            final(self).config == old(self).config,
            final(self).wf(),
    {
        let ghost c = self@;
        let mw = match self.window_registry.get(window_id) {
            Some(mw) => mw,
            None => {
                return FullscreenEffect::Unchanged;
            },
        };
        let ws = mw.workspace;
        let area = if mode == FullscreenMode::Container {
            self.workspace_region(ws)
        } else {
            None
        };
        let l1 = toggle_layout(mw.layout, enable, mode, area);
        let relayout = self.relayout_for(ws);
        let location = self.workspace_manager.find_workspace_location(ws);
        let region = self.workspace_region(ws);
        if enable {
            match mode {
                FullscreenMode::Container => match location {
                    Some(_) => {
                        self.put_layout(window_id, l1);
                        self.put_fullscreen(ws, Some(window_id));
                        let size = match area {
                            Some(a) => a.size,
                            None => l1.geometry().size,
                        };
                        FullscreenEffect::Enter { window: window_id, size, relayout }
                    },
                    None => {
                        self.put_layout(window_id, l1);
                        FullscreenEffect::Unchanged
                    },
                },
                FullscreenMode::VirtualOutput => match region {
                    Some(r) => {
                        self.put_layout(window_id, fullscreen_area(l1, r));
                        self.put_fullscreen(ws, Some(window_id));
                        FullscreenEffect::Enter { window: window_id, size: r.size, relayout }
                    },
                    None => {
                        self.put_layout(window_id, l1);
                        FullscreenEffect::Unchanged
                    },
                },
                FullscreenMode::PhysicalOutput => match physical {
                    Some(g) => {
                        self.put_layout(window_id, fullscreen_area(l1, g));
                        self.put_fullscreen(ws, Some(window_id));
                        FullscreenEffect::EnterPhysical { window: window_id, area: g }
                    },
                    None => {
                        self.put_layout(window_id, l1);
                        FullscreenEffect::Unchanged
                    },
                },
            }
        } else {
            let covering = match self.workspace_manager.get_workspace(ws) {
                Some(w) => w.fullscreen_window == Some(window_id),
                None => false,
            };
            self.put_layout(window_id, l1);
            if covering {
                self.put_fullscreen(ws, None);
            }
            FullscreenEffect::Exit { window: window_id, relayout }
        }
    }

    /// Toggles the focused window in or out of fullscreen in `mode`: out
    /// where it is fullscreen in that mode, else in.
    pub fn toggle_fullscreen(&mut self, mode: FullscreenMode, physical: Option<Rectangle>) -> (e: FullscreenEffect)
        requires
            old(self).wf(),
        ensures
            (final(self)@, e) == view_toggle_fullscreen(old(self)@, mode, physical),
            final(self).config == old(self).config,
            final(self).wf(),
    {
        let f = match self.focused_window {
            Some(f) => f,
            None => {
                return FullscreenEffect::Unchanged;
            },
        };
        let mw = match self.window_registry.get(f) {
            Some(mw) => mw,
            None => {
                return FullscreenEffect::Unchanged;
            },
        };
        let is_in_mode = match mw.layout {
            WindowLayout::Fullscreen { mode: m, .. } => m == mode,
            _ => false,
        };
        self.set_window_fullscreen(f, !is_in_mode, mode, physical)
    }

    /// A client asked for window `id` to be fullscreen, on a particular
    /// output (`on_output`) or not: on one it covers that physical output
    /// (whose area is `physical`), else its virtual output.
    pub fn fullscreen_request(&mut self, id: WindowId, on_output: bool, physical: Option<Rectangle>) -> (e:
        FullscreenEffect)
        requires
            old(self).wf(),
        ensures
            (final(self)@, e) == view_set_fullscreen(
                old(self)@,
                id,
                true,
                if on_output {
                    FullscreenMode::PhysicalOutput
                } else {
                    FullscreenMode::VirtualOutput
                },
                physical,
            ),
            final(self).config == old(self).config,
            final(self).wf(),
    {
        let mode = if on_output {
            FullscreenMode::PhysicalOutput
        } else {
            FullscreenMode::VirtualOutput
        };
        self.set_window_fullscreen(id, true, mode, physical)
    }

    /// A client asked for window `id` to leave fullscreen.
    pub fn unfullscreen_request(&mut self, id: WindowId) -> (e: FullscreenEffect)
        requires
            old(self).wf(),
        ensures
            (final(self)@, e) == view_set_fullscreen(old(self)@, id, false, FullscreenMode::VirtualOutput, None),
            final(self).config == old(self).config,
            final(self).wf(),
    {
        self.set_window_fullscreen(id, false, FullscreenMode::VirtualOutput, None)
    }

    /// The window whose floating a key toggles.
    fn floating_window(&self) -> (r: Option<WindowId>)
        ensures
            r == floating_target(self@.workspaces, self@.outputs),
    {
        let ghost outs = self@.outputs;
        let mut i: usize = 0;
        assert(outs.skip(0) =~= outs);
        while i < self.virtual_output_manager.outputs.len()
            invariant
                i <= self.virtual_output_manager.outputs.len(),
                outs == self@.outputs,
                outs.len() == self.virtual_output_manager.outputs.len(),
                floating_target(self@.workspaces, outs) == floating_target(
                    self@.workspaces,
                    outs.skip(i as int),
                ),
            decreases self.virtual_output_manager.outputs.len() - i,
        {
            let o = &self.virtual_output_manager.outputs[i];
            assert(outs.skip(i as int)[0] == crate::virtual_output::output_view(
                self.virtual_output_manager.outputs@[i as int],
            ));
            let here = match o.active_workspace {
                Some(a) => match self.workspace_manager.get_workspace(WorkspaceId::new(a as u8)) {
                    Some(w) => w.focused_window,
                    None => None,
                },
                None => None,
            };
            if here.is_some() {
                return here;
            }
            assert(outs.skip(i as int).drop_first() =~= outs.skip(i + 1));
            i += 1;
        }
        None
    }

    /// Toggles the floating of the focused window of the first output whose
    /// active workspace has one; the workspace to lay out again, where it is
    /// on screen.
    pub fn toggle_floating(&mut self) -> (r: Option<WorkspaceId>)
        requires
            old(self).wf(),
        ensures
            (final(self)@, r) == view_toggle_floating(old(self)@),
            final(self).config == old(self).config,
            final(self).wf(),
    {
        let id = match self.floating_window() {
            Some(id) => id,
            None => {
                return None;
            },
        };
        let mw = match self.window_registry.get(id) {
            Some(mw) => mw,
            None => {
                return None;
            },
        };
        let relayout = self.relayout_for(mw.workspace);
        match mw.layout {
            WindowLayout::Tiled { geometry, .. } => {
                self.put_layout(id, WindowLayout::Floating { geometry });
                relayout
            },
            WindowLayout::Floating { geometry } => {
                let container = ContainerId { id: self.next_container };
                self.put_layout(id, WindowLayout::Tiled { container, geometry });
                self.next_container = self.next_container.wrapping_add(1);
                relayout
            },
            WindowLayout::Fullscreen { .. } => None,
        }
    }
}


/// Law: toggling the focused window's fullscreen twice in the same mode
/// gives back the state it started from, where the window was not
/// fullscreen and no window covered its workspace (whatever physical
/// output areas the two calls are given).
pub proof fn law_fullscreen_toggle_twice(
    c: StateView,
    mode: FullscreenMode,
    first: Option<Rectangle>,
    second: Option<Rectangle>,
)
    requires
        c.focus matches Some(f) && registry_get(c.registry, f) matches Some(mw) && !(mw.layout is Fullscreen)
            && match ws_lookup(c.workspaces, mw.workspace) {
            Some(w) => w.fullscreen_window is None,
            None => true,
        },
    ensures
        view_toggle_fullscreen(view_toggle_fullscreen(c, mode, first).0, mode, second).0 == c,
{
    let f = c.focus->0;
    let mw = registry_get(c.registry, f)->0;
    let ws = mw.workspace;
    lemma_registry_index(c.registry, f);
    lemma_ws_index(c.workspaces, ws);
    let i = registry_index(c.registry, f)->0;
    let c1 = view_toggle_fullscreen(c, mode, first).0;
    assert(!in_mode(mw.layout, mode));
    let area = if mode == FullscreenMode::Container {
        ws_region(c, ws)
    } else {
        None
    };
    let l1 = toggled_layout(mw.layout, true, mode, area);
    // the layout the window has after the first call
    let l2 = match mode {
        FullscreenMode::Container => l1,
        FullscreenMode::VirtualOutput => match ws_region(c, ws) {
            Some(r) => with_fullscreen_area(l1, r),
            None => l1,
        },
        FullscreenMode::PhysicalOutput => match first {
            Some(g) => with_fullscreen_area(l1, g),
            None => l1,
        },
    };
    assert(c1.registry == c.registry.update(i, ManagedWindow { layout: l2, ..mw }));
    lemma_registry_update(c.registry, i, ManagedWindow { layout: l2, ..mw }, f);
    assert(registry_get(c1.registry, f) == Some(ManagedWindow { layout: l2, ..mw }));
    assert(in_mode(l2, mode));
    assert(registry_index(c1.registry, f) == Some(i));
    assert(c1.focus == Some(f));
    let c2 = view_toggle_fullscreen(c1, mode, second).0;
    assert(toggled_layout(l2, false, mode, None) == mw.layout);
    assert(c2.registry =~= c.registry);
    match ws_index(c.workspaces, ws) {
        Some(k) => {
            let w = c.workspaces[k];
            if c1.workspaces == c.workspaces {
                assert(c2.workspaces == c.workspaces);
            } else {
                let w1 = WorkspaceView { fullscreen_window: Some(f), ..w };
                assert(c1.workspaces == c.workspaces.update(k, w1));
                lemma_ws_lookup_update(c.workspaces, k, w1, ws);
                assert(ws_lookup(c1.workspaces, ws) == Some(w1));
                assert(c2.workspaces == c1.workspaces.update(k, WorkspaceView { fullscreen_window: None, ..w1 }));
                assert(c2.workspaces =~= c.workspaces);
            }
        },
        None => {
            assert(c1.workspaces == c.workspaces);
        },
    }
}

/// Law: toggling floating twice leaves the window with the area it had
/// and tiled again if it was tiled (in a new container), floating again
/// if it was floating; the rest of the state, window placement included,
/// is as it was.
pub proof fn law_floating_toggle_twice(c: StateView)
    requires
        floating_target(c.workspaces, c.outputs) matches Some(id) && registry_get(c.registry, id) matches Some(mw)
            && !(mw.layout is Fullscreen),
    ensures
        ({
            let id = floating_target(c.workspaces, c.outputs)->0;
            let mw = registry_get(c.registry, id)->0;
            let c2 = view_toggle_floating(view_toggle_floating(c).0).0;
            &&& registry_get(c2.registry, id) matches Some(m2) && m2.layout.spec_geometry()
                == mw.layout.spec_geometry() && (m2.layout is Floating <==> mw.layout is Floating) && m2 == (
            ManagedWindow { layout: m2.layout, ..mw })
            &&& mw.layout is Floating ==> c2.registry == c.registry
            &&& c2 == (StateView { registry: c2.registry, containers: c2.containers, ..c })
            &&& forall|x: WindowId| x != id ==> registry_get(c2.registry, x) == registry_get(c.registry, x)
        }),
{
    let id = floating_target(c.workspaces, c.outputs)->0;
    let mw = registry_get(c.registry, id)->0;
    lemma_registry_index(c.registry, id);
    let i = registry_index(c.registry, id)->0;
    let c1 = view_toggle_floating(c).0;
    let l1 = match mw.layout {
        WindowLayout::Tiled { geometry, .. } => WindowLayout::Floating { geometry },
        WindowLayout::Floating { geometry } => WindowLayout::Tiled {
            container: ContainerId { id: c.containers },
            geometry,
        },
        WindowLayout::Fullscreen { .. } => mw.layout,
    };
    let m1 = ManagedWindow { layout: l1, ..mw };
    assert(c1.registry == c.registry.update(i, m1));
    assert forall|x: WindowId| #[trigger] registry_get(c1.registry, x) == (if x == id {
        Some(m1)
    } else {
        registry_get(c.registry, x)
    }) && registry_index(c1.registry, x) == registry_index(c.registry, x) by {
        lemma_registry_update(c.registry, i, m1, x);
        lemma_registry_index(c.registry, x);
    }
    assert(floating_target(c1.workspaces, c1.outputs) == Some(id));
    let c2 = view_toggle_floating(c1).0;
    let l2 = match l1 {
        WindowLayout::Tiled { geometry, .. } => WindowLayout::Floating { geometry },
        WindowLayout::Floating { geometry } => WindowLayout::Tiled {
            container: ContainerId { id: c1.containers },
            geometry,
        },
        WindowLayout::Fullscreen { .. } => l1,
    };
    let m2 = ManagedWindow { layout: l2, ..mw };
    assert(c2.registry == c1.registry.update(i, m2));
    assert(c2.registry == c.registry.update(i, m2));
    assert forall|x: WindowId| #[trigger] registry_get(c2.registry, x) == (if x == id {
        Some(m2)
    } else {
        registry_get(c.registry, x)
    }) by {
        lemma_registry_update(c.registry, i, m2, x);
        lemma_registry_index(c.registry, x);
    }
    if mw.layout is Floating {
        assert(m2 == mw);
        assert(c2.registry =~= c.registry);
    }
}

} // verus!

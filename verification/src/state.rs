//! The compositor's window-management state: the window registry, the
//! workspaces, the virtual outputs, keyboard focus and the pointer, and the
//! operations that move windows and workspaces between them.
use crate::config::Config;
use crate::geometry::{rect_fits, Point, Rectangle};
use crate::config::Direction;
use crate::geometry::rect_center;
use crate::virtual_output::{output_view, vo_at, vo_lookup, with_active, OutputView, VirtualOutputManager};
use crate::window::{lemma_registry_index, registry_get, ManagedWindow, WindowId, WindowRegistry};
use crate::workspace::{
    associated, hidden, lemma_ws_index, shown_on, with_window, without_window, ws_index, ws_lookup, ws_on_output,
    WorkspaceId, WorkspaceManager, WorkspaceView,
};
use vstd::prelude::*;

verus! {

/// The compositor state that window management reads and changes.
#[derive(Debug)]
pub struct StilchState {
    pub config: Config,
    pub window_registry: WindowRegistry,
    pub workspace_manager: WorkspaceManager,
    pub virtual_output_manager: VirtualOutputManager,
    /// The window that has keyboard focus
    pub focused_window: Option<WindowId>,
    /// Where the pointer is, in whole logical pixels
    pub pointer_location: Point,
    /// False once the compositor was asked to quit
    pub running: bool,
    pub show_window_preview: bool,
    /// Keys whose release is kept from clients
    pub input_manager: crate::input::InputManager,
    /// The number the next tiling container gets
    pub next_container: u64,
    /// Events raised and not yet handed to listeners, oldest first
    pub events: Vec<crate::event::Event>,
}

/// The mathematical model of the state (its configuration aside).
pub struct StateView {
    pub registry: Seq<ManagedWindow>,
    pub workspaces: Seq<WorkspaceView>,
    pub outputs: Seq<OutputView>,
    pub focus: Option<WindowId>,
    pub pointer: Point,
    pub running: bool,
    pub preview: bool,
    pub containers: u64,
    /// Keys whose release is kept from clients
    pub held: Seq<crate::config::Keysym>,
    /// Events waiting to be handed out, their moments left out
    pub events: Seq<crate::event::Event>,
}

impl View for StilchState {
    type V = StateView;

    open spec fn view(&self) -> StateView {
        StateView {
            registry: self.window_registry.windows@,
            workspaces: self.workspace_manager.spec_view(),
            outputs: self.virtual_output_manager.spec_view(),
            focus: self.focused_window,
            pointer: self.pointer_location,
            running: self.running,
            preview: self.show_window_preview,
            containers: self.next_container,
            held: self.input_manager.suppressed_keys@,
            events: self.events@.map_values(|e: crate::event::Event| crate::event::unstamped(e)),
        }
    }
}

/// The workspaces after window `id` took focus: the workspace the registry
/// places it on records it as focused.
pub open spec fn focus_ws(wv: Seq<WorkspaceView>, reg: Seq<ManagedWindow>, id: WindowId) -> Seq<WorkspaceView> {
    match registry_get(reg, id) {
        Some(w) => match ws_index(wv, w.workspace) {
            Some(i) => wv.update(i, WorkspaceView { focused_window: Some(id), ..wv[i] }),
            None => wv,
        },
        None => wv,
    }
}

/// The state after window `id` took keyboard focus.
pub open spec fn view_focus(c: StateView, id: WindowId) -> StateView {
    StateView { focus: Some(id), workspaces: focus_ws(c.workspaces, c.registry, id), ..c }
}

/// The window a workspace gives focus to when it is shown: the one it keeps
/// focused, else its first.
pub open spec fn pick_focus(w: WorkspaceView) -> Option<WindowId> {
    match w.focused_window {
        Some(f) => Some(f),
        None => if w.windows.len() > 0 {
            Some(w.windows[0])
        } else {
            None
        },
    }
}

/// The state after the workspace `ws` was shown on virtual output `vo`
/// (no association followed).
pub open spec fn view_show(c: StateView, vo: usize, ws: WorkspaceId) -> StateView {
    let c1 = StateView { outputs: with_active(c.outputs, vo, ws.id as usize), ..c };
    if vo_lookup(c.outputs, vo) is None || ws_on_output(c.workspaces, vo) == Some(ws) || ws_lookup(
        c.workspaces,
        ws,
    ) is None {
        c1
    } else {
        let c2 = StateView { workspaces: shown_on(c.workspaces, ws, vo), ..c1 };
        let c3 = match pick_focus(ws_lookup(c.workspaces, ws)->0) {
            Some(t) => if registry_get(c.registry, t) is Some {
                view_focus(c2, t)
            } else {
                c2
            },
            None => StateView { focus: None, ..c2 },
        };
        match ws_on_output(c.workspaces, vo) {
            Some(p) => StateView {
                events: c3.events.push(crate::event::workspace_switched(p, ws, vo)),
                ..c3
            },
            None => c3,
        }
    }
}

/// The centre of a rectangle as a point.
pub open spec fn center_point(r: Rectangle) -> Point {
    Point { x: (r.loc.x + r.size.w / 2) as i32, y: (r.loc.y + r.size.h / 2) as i32 }
}

/// The state after a switch of virtual output `vo` to workspace `ws`: where
/// the configuration binds `ws` to another output, that output switches,
/// the pointer moves to its centre and its first window takes focus.
pub open spec fn view_switch(c: StateView, vo: usize, ws: WorkspaceId) -> StateView {
    match ws_lookup(c.workspaces, ws) {
        Some(w) => match w.association {
            Some(a) => if a != vo {
                let c1 = view_show(c, a, ws);
                match vo_lookup(c1.outputs, a) {
                    Some(o) => {
                        let c2 = StateView { pointer: center_point(o.region), ..c1 };
                        let w2 = ws_lookup(c2.workspaces, ws)->0;
                        if w2.windows.len() > 0 {
                            if registry_get(c2.registry, w2.windows[0]) is Some {
                                view_focus(c2, w2.windows[0])
                            } else {
                                c2
                            }
                        } else {
                            StateView { focus: None, ..c2 }
                        }
                    },
                    None => c1,
                }
            } else {
                view_show(c, vo, ws)
            },
            None => view_show(c, vo, ws),
        },
        None => view_show(c, vo, ws),
    }
}

/// Whether the virtual output that shows workspace `ws` has it active.
pub open spec fn shown_and_active(c: StateView, ws: WorkspaceId) -> bool {
    match ws_lookup(c.workspaces, ws) {
        Some(w) => match w.location {
            Some(vo) => match vo_lookup(c.outputs, vo) {
                Some(o) => o.active_workspace == Some(ws.id as usize),
                None => false,
            },
            None => false,
        },
        None => false,
    }
}

/// The state after window `win` was moved to workspace `ws`.
pub open spec fn view_move_to_workspace(c: StateView, win: WindowId, ws: WorkspaceId) -> StateView {
    match registry_get(c.registry, win) {
        None => c,
        Some(mw) => {
            let src = mw.workspace;
            if src == ws {
                c
            } else {
                let was_focused = c.focus == Some(win);
                let w1 = match ws_index(c.workspaces, src) {
                    Some(i) => c.workspaces.update(i, without_window(c.workspaces[i], win)),
                    None => c.workspaces,
                };
                let i = crate::window::registry_index(c.registry, win)->0;
                let reg = c.registry.update(i, ManagedWindow { workspace: ws, ..mw });
                let w2 = match ws_index(w1, ws) {
                    Some(j) => w1.update(j, with_window(w1[j], win)),
                    None => w1,
                };
                let c2 = StateView { registry: reg, workspaces: w2, ..c };
                if was_focused && shown_and_active(c2, src) {
                    match pick_focus(ws_lookup(c2.workspaces, src)->0) {
                        Some(t) => if registry_get(c2.registry, t) is Some {
                            view_focus(c2, t)
                        } else {
                            c2
                        },
                        None => c2,
                    }
                } else {
                    c2
                }
            }
        },
    }
}

/// The squared distance from `cc` to the centre of output `o`, where `o`
/// lies in direction `d` from `cc` and overlaps it across that direction.
pub open spec fn output_candidate(o: OutputView, cc: (int, int), d: Direction) -> Option<int> {
    let c = rect_center(o.region);
    let dx = c.0 - cc.0;
    let dy = c.1 - cc.1;
    let ok = match d {
        Direction::Left => c.0 < cc.0 && crate::keybindings::abs(dy) < o.region.size.h,
        Direction::Right => c.0 > cc.0 && crate::keybindings::abs(dy) < o.region.size.h,
        Direction::Up => c.1 < cc.1 && crate::keybindings::abs(dx) < o.region.size.w,
        Direction::Down => c.1 > cc.1 && crate::keybindings::abs(dx) < o.region.size.w,
    };
    if ok {
        Some(dx * dx + dy * dy)
    } else {
        None
    }
}

/// The nearest output in direction `d` other than `cur`, with its squared
/// distance: the first of the nearest.
pub open spec fn nearest_output(outs: Seq<OutputView>, cur: usize, cc: (int, int), d: Direction) -> Option<(usize, int)>
    decreases outs.len(),
{
    if outs.len() == 0 {
        None
    } else {
        let b = nearest_output(outs.drop_last(), cur, cc, d);
        let o = outs.last();
        if o.id == cur {
            b
        } else {
            match output_candidate(o, cc, d) {
                Some(dist) => match b {
                    Some(bb) => if dist < bb.1 {
                        Some((o.id, dist))
                    } else {
                        b
                    },
                    None => Some((o.id, dist)),
                },
                None => b,
            }
        }
    }
}

/// Whether output `o`, other than `cur`, lies in direction `d` from the
/// point `cc`: its centre is strictly that way, and across `d` it is less
/// than its own height (or width) away.
pub open spec fn output_toward(o: OutputView, cur: usize, cc: (int, int), d: Direction) -> bool {
    let p = rect_center(o.region);
    o.id != cur && match d {
        Direction::Left => p.0 < cc.0 && crate::keybindings::abs(p.1 - cc.1) < o.region.size.h,
        Direction::Right => p.0 > cc.0 && crate::keybindings::abs(p.1 - cc.1) < o.region.size.h,
        Direction::Up => p.1 < cc.1 && crate::keybindings::abs(p.0 - cc.0) < o.region.size.w,
        Direction::Down => p.1 > cc.1 && crate::keybindings::abs(p.0 - cc.0) < o.region.size.w,
    }
}

/// The squared distance from `cc` to the centre of output `o`.
pub open spec fn centre_distance_sq(o: OutputView, cc: (int, int)) -> int {
    let p = rect_center(o.region);
    (p.0 - cc.0) * (p.0 - cc.0) + (p.1 - cc.1) * (p.1 - cc.1)
}

/// The output that `nearest_output` picks lies in the direction, and no
/// other output that way has a centre strictly nearer; it finds none only
/// where no output lies that way.
pub proof fn lemma_nearest_output(outs: Seq<OutputView>, cur: usize, cc: (int, int), d: Direction)
    ensures
        nearest_output(outs, cur, cc, d) matches Some(b) ==> exists|k: int|
            0 <= k < outs.len() && #[trigger] outs[k].id == b.0 && output_toward(outs[k], cur, cc, d) && b.1
                == centre_distance_sq(outs[k], cc) && (forall|j: int|
                0 <= j < outs.len() && output_toward(#[trigger] outs[j], cur, cc, d) ==> b.1
                    <= centre_distance_sq(outs[j], cc)) && (forall|j: int|
                0 <= j < k && output_toward(#[trigger] outs[j], cur, cc, d) ==> b.1 < centre_distance_sq(
                    outs[j],
                    cc,
                )),
        nearest_output(outs, cur, cc, d) is None ==> forall|j: int|
            0 <= j < outs.len() ==> !output_toward(#[trigger] outs[j], cur, cc, d),
    decreases outs.len(),
{
    if outs.len() > 0 {
        let init = outs.drop_last();
        lemma_nearest_output(init, cur, cc, d);
        assert forall|j: int| 0 <= j < init.len() implies init[j] == outs[j] by {}
        let o = outs.last();
        assert(outs[outs.len() - 1] == o);
        assert(output_candidate(o, cc, d) is Some <==> (output_toward(o, cur, cc, d) || (o.id == cur
            && output_candidate(o, cc, d) is Some)));
        assert(output_candidate(o, cc, d) matches Some(t) ==> t == centre_distance_sq(o, cc));
        if let Some(b) = nearest_output(init, cur, cc, d) {
            let k = choose|k: int|
                0 <= k < init.len() && #[trigger] init[k].id == b.0 && output_toward(init[k], cur, cc, d) && b.1
                    == centre_distance_sq(init[k], cc) && (forall|j: int|
                    0 <= j < init.len() && output_toward(#[trigger] init[j], cur, cc, d) ==> b.1
                        <= centre_distance_sq(init[j], cc)) && (forall|j: int|
                    0 <= j < k && output_toward(#[trigger] init[j], cur, cc, d) ==> b.1 < centre_distance_sq(
                        init[j],
                        cc,
                    ));
            assert(outs[k] == init[k]);
        }
    }
}

/// Law: where outputs lie in direction `d` from the output under the
/// pointer, the workspace shown there moves to one of them (or stays, where
/// that one shows it already): one whose centre is nearest to the centre of
/// the output it leaves, and the first such in the order of the outputs.
pub proof fn law_workspace_moves_to_nearest_output(c: StateView, d: Direction, cur: usize, ws: WorkspaceId, co: OutputView, i: int)
    requires
        vo_at(c.outputs, c.pointer) == Some(cur),
        ws_on_output(c.workspaces, cur) == Some(ws),
        vo_lookup(c.outputs, cur) == Some(co),
        0 <= i < c.outputs.len(),
        output_toward(c.outputs[i], cur, rect_center(co.region), d),
    ensures
        exists|k: int|
            0 <= k < c.outputs.len() && output_toward(#[trigger] c.outputs[k], cur, rect_center(co.region), d)
                && (forall|j: int|
                0 <= j < c.outputs.len() && output_toward(#[trigger] c.outputs[j], cur, rect_center(co.region), d)
                    ==> centre_distance_sq(c.outputs[k], rect_center(co.region)) <= centre_distance_sq(
                    c.outputs[j],
                    rect_center(co.region),
                )) && (forall|j: int|
                0 <= j < k && output_toward(#[trigger] c.outputs[j], cur, rect_center(co.region), d)
                    ==> centre_distance_sq(c.outputs[k], rect_center(co.region)) < centre_distance_sq(
                    c.outputs[j],
                    rect_center(co.region),
                )) && view_move_workspace(c, d) == (if ws_on_output(c.workspaces, c.outputs[k].id) == Some(ws) {
                c
            } else {
                view_move_workspace_to(c, cur, ws, c.outputs[k].id)
            }),
{
    lemma_nearest_output(c.outputs, cur, rect_center(co.region), d);
}

/// The first workspace, by number from `k`, other than `ws` that is shown
/// on no output.
pub open spec fn first_hidden(wv: Seq<WorkspaceView>, ws: WorkspaceId, k: nat) -> Option<WorkspaceId>
    decreases 10 - k,
{
    if k >= 10 {
        None
    } else {
        let id = WorkspaceId { id: k as u8 };
        let free = match ws_lookup(wv, id) {
            Some(w) => w.location is None,
            None => true,
        };
        if id != ws && free {
            Some(id)
        } else {
            first_hidden(wv, ws, k + 1)
        }
    }
}

/// The state after the workspace under the pointer moved to the nearest
/// output in direction `d`: it is bound to that output and shown there, the
/// output it left shows the first workspace shown nowhere, the pointer
/// moves to the new output's centre and the workspace's focused (else
/// first) window takes focus.
pub open spec fn view_move_workspace(c: StateView, d: Direction) -> StateView {
    match vo_at(c.outputs, c.pointer) {
        None => c,
        Some(cur) => match ws_on_output(c.workspaces, cur) {
            None => c,
            Some(ws) => match vo_lookup(c.outputs, cur) {
                None => c,
                Some(co) => match nearest_output(c.outputs, cur, rect_center(co.region), d) {
                    None => c,
                    Some(t) => {
                        let tid = t.0;
                        if ws_on_output(c.workspaces, tid) == Some(ws) {
                            c
                        } else {
                            view_move_workspace_to(c, cur, ws, tid)
                        }
                    },
                },
            },
        },
    }
}

/// The state after workspace `ws` moved from output `cur` to output `tid`.
pub open spec fn view_move_workspace_to(c: StateView, cur: usize, ws: WorkspaceId, tid: usize) -> StateView {
    let w1 = hidden(c.workspaces, ws);
    let w2 = match first_hidden(w1, ws, 0) {
        Some(rep) => if ws_lookup(w1, rep) is Some {
            shown_on(w1, rep, cur)
        } else {
            w1
        },
        None => w1,
    };
    let o2 = match first_hidden(w1, ws, 0) {
        Some(rep) => with_active(c.outputs, cur, rep.id as usize),
        None => c.outputs,
    };
    let w3 = associated(w2, ws, tid);
    if ws_lookup(w3, ws) is None {
        StateView { workspaces: w3, outputs: o2, ..c }
    } else {
        let w4 = shown_on(w3, ws, tid);
        let o3 = with_active(o2, tid, ws.id as usize);
        let c4 = StateView { workspaces: w4, outputs: o3, ..c };
        let c5 = match vo_lookup(o3, tid) {
            Some(to) => StateView { pointer: center_point(to.region), ..c4 },
            None => c4,
        };
        match pick_focus(ws_lookup(w4, ws)->0) {
            Some(f) => if registry_get(c.registry, f) is Some {
                view_focus(c5, f)
            } else {
                c5
            },
            None => c5,
        }
    }
}

impl StilchState {
    /// The state's invariant: registry and workspace identities are distinct
    /// and every virtual output's area lies in 32-bit coordinates.
    pub open spec fn wf(&self) -> bool {
        &&& self.window_registry.wf()
        &&& self.workspace_manager.wf()
        &&& outputs_fit(self.virtual_output_manager.spec_view())
    }

    /// A state with the given configuration: no windows, the ten
    /// workspaces, no outputs, the pointer at the origin and nothing focused.
    pub fn new(config: Config) -> (s: StilchState)
        ensures
            s.wf(),
            s.config == config,
            s@.registry.len() == 0,
            s@.outputs.len() == 0,
            s@.focus is None,
            s@.running,
            s@.events.len() == 0,
            s.workspace_manager.workspaces@.len() == crate::workspace::WORKSPACE_COUNT,
    {
        StilchState {
            config,
            window_registry: WindowRegistry::new(),
            workspace_manager: WorkspaceManager::new(),
            virtual_output_manager: VirtualOutputManager::new(),
            focused_window: None,
            pointer_location: Point { x: 0, y: 0 },
            running: true,
            show_window_preview: false,
            input_manager: crate::input::InputManager::new(),
            next_container: 0,
            events: Vec::new(),
        }
    }

    /// Appends `e` to the events raised.
    pub(crate) fn emit_event(&mut self, e: crate::event::Event)
        ensures
            final(self)@ == (StateView {
                events: old(self)@.events.push(crate::event::unstamped(e)),
                ..old(self)@
            }),
            final(self).config == old(self).config,
            final(self).window_registry == old(self).window_registry,
            final(self).workspace_manager == old(self).workspace_manager,
            final(self).virtual_output_manager == old(self).virtual_output_manager,
            final(self).input_manager == old(self).input_manager,
            final(self).focused_window == old(self).focused_window,
            final(self).pointer_location == old(self).pointer_location,
            final(self).running == old(self).running,
            final(self).show_window_preview == old(self).show_window_preview,
            final(self).next_container == old(self).next_container,
    {
        let ghost before = self.events@;
        let ghost ev = e;
        self.events.push(e);
        assert(self.events@.map_values(|x: crate::event::Event| crate::event::unstamped(x)) =~= before.map_values(
            |x: crate::event::Event| crate::event::unstamped(x),
        ).push(crate::event::unstamped(ev)));
    }

    /// Hands out the events raised so far, oldest first, and forgets them.
    pub fn take_events(&mut self) -> (r: Vec<crate::event::Event>)
        ensures
            r@ == old(self).events@,
            final(self)@ == (StateView { events: Seq::empty(), ..old(self)@ }),
            final(self).config == old(self).config,
            final(self).wf() == old(self).wf(),
    {
        let mut r: Vec<crate::event::Event> = Vec::new();
        std::mem::swap(&mut r, &mut self.events);
        assert(self.events@.map_values(|e: crate::event::Event| crate::event::unstamped(e)) =~= Seq::<
            crate::event::Event,
        >::empty());
        r
    }

    /// Adds a virtual output (see `VirtualOutputManager::add_output`).
    pub fn add_virtual_output(&mut self, name: String, region: Rectangle) -> (r: Option<usize>)
        requires
            old(self).wf(),
        ensures
            final(self).wf(),
            final(self).config == old(self).config,
            r is Some <==> rect_fits(region) && old(self)@.outputs.len() < usize::MAX,
            r matches Some(id) ==> id == old(self)@.outputs.len() && final(self)@ == (StateView {
                outputs: old(self)@.outputs.push(
                    crate::virtual_output::OutputView { id, name: name@, region, active_workspace: None },
                ),
                ..old(self)@
            }),
            r is None ==> final(self)@ == old(self)@,
    {
        let r = self.virtual_output_manager.add_output(name, region);
        proof {
            let v = self.virtual_output_manager.spec_view();
            assert forall|i: int| 0 <= i < v.len() implies rect_fits(#[trigger] v[i].region) by {
                if i < old(self)@.outputs.len() {
                    assert(v[i] == old(self)@.outputs[i]);
                }
            }
        }
        r
    }

    /// The window registry.
    pub fn window_registry(&self) -> (r: &WindowRegistry)
        ensures
            r.windows@ == self.window_registry.windows@,
    {
        &self.window_registry
    }

    /// A managed window by identity.
    pub fn get_window(&self, id: WindowId) -> (r: Option<ManagedWindow>)
        ensures
            r == registry_get(self@.registry, id),
    {
        self.window_registry.get(id)
    }

    /// The window that has keyboard focus.
    pub fn focused_window(&self) -> (r: Option<WindowId>)
        ensures
            r == self.focused_window,
    {
        self.focused_window
    }

    /// The workspace shown on a virtual output.
    pub fn current_workspace(&self, vo: usize) -> (r: Option<WorkspaceId>)
        ensures
            r == ws_on_output(self@.workspaces, vo),
    {
        self.workspace_manager.workspace_on_output(vo)
    }

    /// The pointer location in whole logical pixels.
    pub fn pointer_location(&self) -> (r: Point)
        ensures
            r == self.pointer_location,
    {
        self.pointer_location
    }

    /// The virtual output under the pointer.
    pub fn virtual_output_at_pointer(&self) -> (r: Option<usize>)
        ensures
            r == crate::virtual_output::vo_at(self@.outputs, self@.pointer),
    {
        self.virtual_output_manager.virtual_output_at(self.pointer_location)
    }

    /// Gives window `id` keyboard focus; the workspace it is on records it
    /// as focused.
    pub fn focus_window(&mut self, id: WindowId)
        ensures
            final(self)@ == view_focus(old(self)@, id),
            final(self).config == old(self).config,
            old(self).wf() ==> final(self).wf(),
    {
        self.focused_window = Some(id);
        match self.window_registry.get(id) {
            Some(w) => {
                self.workspace_manager.set_focused(w.workspace, id);
            },
            None => {},
        }
    }

    /// Moves window `window_id` to workspace `target`: out of the workspace
    /// it was on, into `target`, and recorded so in the registry. Where the
    /// window had focus and its old workspace is still shown, that
    /// workspace's focused (else first) window takes focus.
    pub fn move_window_to_workspace_by_id(&mut self, window_id: WindowId, target: WorkspaceId)
        requires
            old(self).wf(),
        ensures
            final(self)@ == view_move_to_workspace(old(self)@, window_id, target),
            final(self).config == old(self).config,
            final(self).wf(),
    {
        let ghost c = self@;
        let mw = match self.window_registry.get(window_id) {
            Some(mw) => mw,
            None => return ,
        };
        let source = mw.workspace;
        if source == target {
            return ;
        }
        let was_focused = self.focused_window == Some(window_id);
        proof {
            lemma_ws_index(c.workspaces, source);
            lemma_registry_index(c.registry, window_id);
        }
        self.workspace_manager.remove_window_from_workspace(source, window_id);
        let ghost w1 = self@.workspaces;
        proof {
            lemma_ws_index(w1, target);
        }
        self.window_registry.set_workspace(window_id, target);
        self.workspace_manager.add_window_to_workspace(target, window_id);
        if was_focused {
            if let Some(svo) = self.workspace_manager.find_workspace_location(source) {
                if let Some(so) = self.virtual_output_manager.get(svo) {
                    if so.active_workspace() == Some(source.get() as usize) {
                        if let Some(sw) = self.workspace_manager.get_workspace(source) {
                            let t = match sw.focused_window {
                                Some(f) => Some(f),
                                None => if sw.windows.len() > 0 {
                                    Some(sw.windows[0])
                                } else {
                                    None
                                },
                            };
                            if let Some(t) = t {
                                if self.window_registry.get(t).is_some() {
                                    self.focus_window(t);
                                }
                            }
                        }
                    }
                }
            }
        }
    }

    /// The nearest output in direction `d` from the centre `cc`, other than
    /// `cur`.
    fn nearest_output_exec(&self, cur: usize, cc: Point, d: Direction) -> (r: Option<usize>)
        requires
            outputs_fit(self@.outputs),
        ensures
            match nearest_output(self@.outputs, cur, (cc.x as int, cc.y as int), d) {
                Some(t) => r == Some(t.0),
                None => r is None,
            },
    {
        let ghost v = self@.outputs;
        let ghost ccv = (cc.x as int, cc.y as int);
        let outputs = self.virtual_output_manager.outputs();
        let mut best: Option<(usize, i128)> = None;
        let mut i: usize = 0;
        while i < outputs.len()
            invariant
                i <= outputs.len(),
                v == self@.outputs,
                v == crate::virtual_output::outputs_view(outputs@),
                outputs_fit(v),
                ccv == (cc.x as int, cc.y as int),
                match nearest_output(v.take(i as int), cur, ccv, d) {
                    Some(t) => best matches Some(x) && x.0 == t.0 && x.1 == t.1,
                    None => best is None,
                },
            decreases outputs.len() - i,
        {
            let o = &outputs[i];
            assert(v.take(i + 1).drop_last() =~= v.take(i as int));
            assert(v.take(i + 1).last() == output_view(*o));
            assert(v[i as int] == output_view(*o));
            assert(rect_fits(v[i as int].region));
            if o.id != cur {
                let center = o.region.center();
                let dx: i128 = center.x as i128 - cc.x as i128;
                let dy: i128 = center.y as i128 - cc.y as i128;
                let adx: i128 = if dx < 0 { -dx } else { dx };
                let ady: i128 = if dy < 0 { -dy } else { dy };
                let ok = match d {
                    Direction::Left => center.x < cc.x && ady < o.region.size.h as i128,
                    Direction::Right => center.x > cc.x && ady < o.region.size.h as i128,
                    Direction::Up => center.y < cc.y && adx < o.region.size.w as i128,
                    Direction::Down => center.y > cc.y && adx < o.region.size.w as i128,
                };
                if ok {
                    assert(dx * dx <= 0x1_0000_0000_0000_0000) by (nonlinear_arith)
                        requires
                            -0x1_0000_0000 <= dx <= 0x1_0000_0000,
                    ;
                    assert(dy * dy <= 0x1_0000_0000_0000_0000) by (nonlinear_arith)
                        requires
                            -0x1_0000_0000 <= dy <= 0x1_0000_0000,
                    ;
                    assert(dx * dx >= 0) by (nonlinear_arith);
                    assert(dy * dy >= 0) by (nonlinear_arith);
                    let dist = dx * dx + dy * dy;
                    match best {
                        Some(b) => {
                            if dist < b.1 {
                                best = Some((o.id, dist));
                            }
                        },
                        None => {
                            best = Some((o.id, dist));
                        },
                    }
                }
            }
            i += 1;
        }
        assert(v.take(outputs.len() as int) =~= v);
        match best {
            Some(b) => Some(b.0),
            None => None,
        }
    }

    /// The first workspace, by number, other than `ws` that is shown on no
    /// output.
    fn first_hidden_exec(&self, ws: WorkspaceId) -> (r: Option<WorkspaceId>)
        ensures
            r == first_hidden(self@.workspaces, ws, 0),
    {
        let mut k: u8 = 0;
        while k < 10
            invariant
                k <= 10,
                first_hidden(self@.workspaces, ws, 0) == first_hidden(self@.workspaces, ws, k as nat),
            decreases 10 - k,
        {
            let id = WorkspaceId::new(k);
            let free = match self.workspace_manager.get(id) {
                Some(w) => w.location.is_none(),
                None => true,
            };
            if id != ws && free {
                return Some(id);
            }
            k += 1;
        }
        None
    }

    /// Moves the workspace shown under the pointer to the nearest virtual
    /// output in `direction`; the output it leaves shows the first workspace
    /// that is shown nowhere.
    pub fn move_workspace_to_output(&mut self, direction: Direction)
        requires
            old(self).wf(),
        ensures
            final(self)@ == view_move_workspace(old(self)@, direction),
            final(self).config == old(self).config,
            final(self).wf(),
    {
        let ghost c = self@;
        let cur = match self.virtual_output_at_pointer() {
            Some(id) => id,
            None => {
                return ;
            },
        };
        let ws = match self.workspace_manager.workspace_on_output(cur) {
            Some(id) => id,
            None => {
                return ;
            },
        };
        let co = match self.virtual_output_manager.get(cur) {
            Some(o) => o,
            None => {
                return ;
            },
        };
        proof {
            lemma_outputs_fit_at(c.outputs, cur);
        }
        let cc = co.logical_region().center();
        let target = match self.nearest_output_exec(cur, cc, direction) {
            Some(t) => t,
            None => {
                return ;
            },
        };
        assert(nearest_output(c.outputs, cur, rect_center(vo_lookup(c.outputs, cur)->0.region), direction) matches Some(
            t,
        ) && t.0 == target);
        if self.workspace_manager.workspace_on_output(target) == Some(ws) {
            return ;
        }
        self.workspace_manager.hide_workspace(ws);
        let ghost w1 = hidden(c.workspaces, ws);
        assert(self@.workspaces == w1);
        let rep = self.first_hidden_exec(ws);
        if let Some(r) = rep {
            self.workspace_manager.show_workspace_on_output(r, cur);
            self.virtual_output_manager.set_active_workspace(cur, r.get() as usize);
            proof {
                lemma_outputs_fit_active(c.outputs, cur, r.id as usize);
            }
        }
        let ghost w2 = self@.workspaces;
        let ghost o2 = self@.outputs;
        assert(w2 == (match first_hidden(w1, ws, 0) {
            Some(rep) => if ws_lookup(w1, rep) is Some {
                shown_on(w1, rep, cur)
            } else {
                w1
            },
            None => w1,
        }));
        assert(o2 == (match first_hidden(w1, ws, 0) {
            Some(rep) => with_active(c.outputs, cur, rep.id as usize),
            None => c.outputs,
        }));
        self.workspace_manager.associate_workspace_with_output(ws, target);
        if !self.workspace_manager.show_workspace_on_output(ws, target) {
            return ;
        }
        self.virtual_output_manager.set_active_workspace(target, ws.get() as usize);
        proof {
            lemma_outputs_fit_active(o2, target, ws.id as usize);
            lemma_outputs_fit_at(self@.outputs, target);
        }
        if let Some(to) = self.virtual_output_manager.get(target) {
            self.pointer_location = to.logical_region().center();
        }
        let ghost c5 = self@;
        assert(c5.registry == c.registry);
        let ghost w3 = associated(w2, ws, target);
        let ghost w4 = shown_on(w3, ws, target);
        let ghost o3 = with_active(o2, target, ws.id as usize);
        assert(ws_lookup(w3, ws) is Some);
        proof {
            crate::workspace::lemma_shown_on_lookup(w3, ws, target, ws);
        }
        assert(c5.workspaces == w4);
        assert(c5.outputs == o3);
        assert(c5 == (match vo_lookup(o3, target) {
            Some(to) => StateView { pointer: center_point(to.region), workspaces: w4, outputs: o3, ..c },
            None => StateView { workspaces: w4, outputs: o3, ..c },
        }));
        let t = match self.workspace_manager.get(ws) {
            Some(w) => match w.focused_window {
                Some(f) => Some(f),
                None => if w.windows.len() > 0 {
                    Some(w.windows[0])
                } else {
                    None
                },
            },
            None => None,
        };
        if let Some(t) = t {
            if self.window_registry.get(t).is_some() {
                self.focus_window(t);
            }
        }
        assert(self@ == view_move_workspace_to(c, cur, ws, target));
    }

    /// Checks that the registry, the workspaces and the virtual outputs
    /// agree with each other.
    pub fn validate_consistency(&self) -> (r: Result<(), Vec<crate::validation::ValidationError>>)
        ensures
            crate::validation::result_of(crate::validation::state_errors(self@), r),
    {
        crate::validation::validate_full_state(self)
    }

    /// Shows workspace `ws` on virtual output `vo`, without following an
    /// association to another output.
    fn show_on_output(&mut self, vo: usize, ws: WorkspaceId)
        ensures
            final(self)@ == view_show(old(self)@, vo, ws),
            final(self).config == old(self).config,
            old(self).wf() ==> final(self).wf(),
    {
        let ghost c = self@;
        self.virtual_output_manager.set_active_workspace(vo, ws.get() as usize);
        proof {
            crate::virtual_output::lemma_with_active_lookup(c.outputs, vo, ws.id as usize, vo);
            if outputs_fit(c.outputs) {
                lemma_outputs_fit_active(c.outputs, vo, ws.id as usize);
            }
        }
        if self.virtual_output_manager.get(vo).is_none() {
            return;
        }
        let prev = self.workspace_manager.workspace_on_output(vo);
        if prev == Some(ws) {
            return;
        }
        if !self.workspace_manager.show_workspace_on_output(ws, vo) {
            return;
        }
        proof {
            crate::workspace::lemma_shown_on_lookup(c.workspaces, ws, vo, ws);
        }
        let target = match self.workspace_manager.get(ws) {
            Some(w) => match w.focused_window {
                Some(f) => Some(f),
                None => if w.windows.len() > 0 {
                    Some(w.windows[0])
                } else {
                    None
                },
            },
            None => None,
        };
        match target {
            Some(t) => {
                if self.window_registry.get(t).is_some() {
                    self.focus_window(t);
                }
            },
            None => {
                self.focused_window = None;
            },
        }
        if let Some(p) = prev {
            self.emit_event(
                crate::event::Event::Workspace(
                    crate::event::WorkspaceEvent::Switched {
                        old_workspace: p,
                        new_workspace: ws,
                        virtual_output: vo,
                        timestamp: crate::event::now(),
                    },
                ),
            );
        }
    }

    /// Switches virtual output `vo` to workspace `ws`. Where the
    /// configuration binds `ws` to another output, that output switches
    /// instead, the pointer moves to its centre and the first window of
    /// `ws` takes focus (no window: no focus).
    pub fn switch_workspace(&mut self, vo: usize, ws: WorkspaceId)
        requires
            old(self).wf(),
        ensures
            final(self)@ == view_switch(old(self)@, vo, ws),
            final(self).config == old(self).config,
            final(self).wf(),
    {
        let ghost c = self@;
        if let Some(a) = self.workspace_manager.workspace_association(ws) {
            if a != vo {
                self.show_on_output(a, ws);
                let ghost c1 = self@;
                match self.virtual_output_manager.get(a) {
                    Some(o) => {
                        proof {
                            lemma_outputs_fit_at(c1.outputs, a);
                        }
                        self.pointer_location = o.logical_region().center();
                        proof {
                            lemma_show_keeps(c, a, ws, ws);
                        }
                        let first = match self.workspace_manager.get(ws) {
                            Some(w) => if w.windows.len() > 0 {
                                Some(w.windows[0])
                            } else {
                                None
                            },
                            None => None,
                        };
                        match first {
                            Some(f) => {
                                if self.window_registry.get(f).is_some() {
                                    self.focus_window(f);
                                }
                            },
                            None => {
                                self.focused_window = None;
                            },
                        }
                    },
                    None => {},
                }
                return;
            }
        }
        self.show_on_output(vo, ws);
    }
}

/// Focusing a window changes which window workspaces keep focused, nothing
/// else.
pub proof fn lemma_focus_ws_lookup(wv: Seq<WorkspaceView>, reg: Seq<ManagedWindow>, id: WindowId, x: WorkspaceId)
    ensures
        ws_lookup(focus_ws(wv, reg, id), x) is Some <==> ws_lookup(wv, x) is Some,
        ws_lookup(focus_ws(wv, reg, id), x) matches Some(v) ==> v.windows == ws_lookup(wv, x)->0.windows
            && v.location == ws_lookup(wv, x)->0.location && v.association == ws_lookup(wv, x)->0.association,
        crate::workspace::ids_distinct(wv) ==> crate::workspace::ids_distinct(focus_ws(wv, reg, id)),
{
    match registry_get(reg, id) {
        Some(w) => {
            lemma_ws_index(wv, w.workspace);
            match ws_index(wv, w.workspace) {
                Some(i) => {
                    crate::workspace::lemma_ws_lookup_update(
                        wv,
                        i,
                        WorkspaceView { focused_window: Some(id), ..wv[i] },
                        x,
                    );
                    lemma_ws_index(wv, x);
                },
                None => {},
            }
        },
        None => {},
    }
}

/// Showing a workspace on an output keeps which workspaces exist and the
/// windows of each.
pub proof fn lemma_show_keeps(c: StateView, vo: usize, ws: WorkspaceId, x: WorkspaceId)
    ensures
        ws_lookup(view_show(c, vo, ws).workspaces, x) is Some <==> ws_lookup(c.workspaces, x) is Some,
        ws_lookup(view_show(c, vo, ws).workspaces, x) matches Some(v) ==> v.windows == ws_lookup(
            c.workspaces,
            x,
        )->0.windows && v.association == ws_lookup(c.workspaces, x)->0.association,
        view_show(c, vo, ws).registry == c.registry,
{
    crate::workspace::lemma_shown_on_lookup(c.workspaces, ws, vo, x);
    crate::workspace::lemma_shown_on_lookup(c.workspaces, ws, vo, ws);
    let s = shown_on(c.workspaces, ws, vo);
    if ws_lookup(c.workspaces, ws) is Some {
        match pick_focus(ws_lookup(c.workspaces, ws)->0) {
            Some(t) => {
                lemma_focus_ws_lookup(s, c.registry, t, x);
            },
            None => {},
        }
    }
}

/// Focusing a window keeps which workspace each output shows.
pub proof fn lemma_focus_on_output(wv: Seq<WorkspaceView>, reg: Seq<ManagedWindow>, id: WindowId, vo: usize)
    ensures
        ws_on_output(focus_ws(wv, reg, id), vo) == ws_on_output(wv, vo),
{
    match registry_get(reg, id) {
        Some(w) => {
            lemma_ws_index(wv, w.workspace);
            match ws_index(wv, w.workspace) {
                Some(i) => {
                    crate::workspace::lemma_on_output_update(
                        wv,
                        i,
                        WorkspaceView { focused_window: Some(id), ..wv[i] },
                        vo,
                    );
                },
                None => {},
            }
        },
        None => {},
    }
}

/// Where output `vo` exists, `ws` exists and another workspace is shown on
/// `vo`, showing `ws` there makes it the one `vo` shows and the one `vo`
/// has active.
pub proof fn lemma_show_effect(c: StateView, vo: usize, ws: WorkspaceId)
    requires
        vo_lookup(c.outputs, vo) is Some,
        ws_lookup(c.workspaces, ws) is Some,
        ws_on_output(c.workspaces, vo) != Some(ws),
    ensures
        ws_on_output(view_show(c, vo, ws).workspaces, vo) == Some(ws),
        vo_lookup(view_show(c, vo, ws).outputs, vo) matches Some(o) && o.active_workspace == Some(
            ws.id as usize,
        ),
{
    crate::workspace::lemma_on_output_after_show(c.workspaces, ws, vo);
    crate::workspace::lemma_shown_on_lookup(c.workspaces, ws, vo, ws);
    crate::virtual_output::lemma_with_active_lookup(c.outputs, vo, ws.id as usize, vo);
    let s = shown_on(c.workspaces, ws, vo);
    match pick_focus(ws_lookup(c.workspaces, ws)->0) {
        Some(t) => {
            lemma_focus_on_output(s, c.registry, t, vo);
        },
        None => {},
    }
}

/// Every output's area lies in 32-bit coordinates.
pub open spec fn outputs_fit(v: Seq<OutputView>) -> bool {
    forall|i: int| 0 <= i < v.len() ==> rect_fits(#[trigger] v[i].region)
}

pub proof fn lemma_outputs_fit_active(v: Seq<OutputView>, vo: usize, ws: usize)
    requires
        outputs_fit(v),
    ensures
        outputs_fit(with_active(v, vo, ws)),
{
    assert forall|i: int| 0 <= i < with_active(v, vo, ws).len() implies rect_fits(
        #[trigger] with_active(v, vo, ws)[i].region,
    ) by {
        assert(with_active(v, vo, ws)[i].region == v[i].region);
    }
}

pub proof fn lemma_outputs_fit_at(v: Seq<OutputView>, id: usize)
    requires
        outputs_fit(v),
    ensures
        vo_lookup(v, id) matches Some(o) ==> rect_fits(o.region),
    decreases v.len(),
{
    if v.len() > 0 {
        assert(rect_fits(v[0].region));
        assert forall|i: int| 0 <= i < v.drop_first().len() implies rect_fits(
            #[trigger] v.drop_first()[i].region,
        ) by {
            assert(v.drop_first()[i] == v[i + 1]);
        }
        lemma_outputs_fit_at(v.drop_first(), id);
    }
}

} // verus!

//! Window-management operations on the state that keybindings and clients
//! trigger: focusing outputs, switching workspaces by index, pointer warps,
//! and the usable area of a virtual output next to panels.
use crate::geometry::{rect_fits, Point, Rectangle, Size};
use crate::state::{center_point, outputs_fit, view_switch, StateView, StilchState};
use crate::virtual_output::{vo_at, vo_lookup};
use crate::window::{registry_get, ManagedWindow, WindowId};
use crate::workspace::{ws_index, ws_lookup, ws_on_output, SplitDirection, WorkspaceId, WorkspaceView};
use vstd::prelude::*;

verus! {

/// The window shown fullscreen, if any.
#[derive(Debug, Clone, Copy, Default)]
pub struct FullscreenSurface {
    pub window: Option<WindowId>,
}

impl FullscreenSurface {
    pub fn set(&mut self, window: WindowId)
        ensures
            final(self).window == Some(window),
    {
        self.window = Some(window);
    }

    /// The fullscreen window; one that is no longer alive (`alive` tells)
    /// is forgotten.
    pub fn get(&mut self, alive: bool) -> (r: Option<WindowId>)
        ensures
            final(self).window == (if old(self).window is Some && !alive {
                None
            } else {
                old(self).window
            }),
            r == final(self).window,
    {
        if self.window.is_some() && !alive {
            self.window = None;
        }
        self.window
    }

    /// Forgets the fullscreen window, giving it back.
    pub fn clear(&mut self) -> (r: Option<WindowId>)
        ensures
            r == old(self).window,
            final(self).window is None,
    {
        let r = self.window;
        self.window = None;
        r
    }
}

/// `n` limited to the 32-bit range (as a float coordinate converts).
pub open spec fn clamp_i32(n: int) -> i32 {
    if n < i32::MIN {
        i32::MIN
    } else if n > i32::MAX {
        i32::MAX
    } else {
        n as i32
    }
}

fn clamp_exec(n: i64) -> (r: i32)
    ensures
        r == clamp_i32(n as int),
{
    if n < i32::MIN as i64 {
        i32::MIN
    } else if n > i32::MAX as i64 {
        i32::MAX
    } else {
        n as i32
    }
}

/// The state after the pointer moved to the centre of window `id`, where it
/// is placed.
pub open spec fn view_center_pointer(c: StateView, id: WindowId) -> StateView {
    match registry_get(c.registry, id) {
        Some(w) => match w.location {
            Some(l) => StateView {
                pointer: Point {
                    x: clamp_i32(crate::keybindings::center_of(w).0),
                    y: clamp_i32(crate::keybindings::center_of(w).1),
                },
                ..c
            },
            None => c,
        },
        None => c,
    }
}

/// The state after output `vo` took focus: the pointer moves to its centre
/// and no window keeps keyboard focus.
pub open spec fn view_focus_output(c: StateView, vo: usize) -> StateView {
    match vo_lookup(c.outputs, vo) {
        Some(o) => StateView { pointer: center_point(o.region), focus: None, ..c },
        None => c,
    }
}

/// The registry after the first two windows of the workspace shown under
/// the pointer traded places.
pub open spec fn view_debug_swap(c: StateView) -> StateView {
    match vo_at(c.outputs, c.pointer) {
        Some(vo) => match vo_lookup(c.outputs, vo) {
            Some(o) => match o.active_workspace {
                Some(a) => match ws_lookup(c.workspaces, WorkspaceId { id: a as u8 }) {
                    Some(w) => if w.windows.len() >= 2 {
                        let (id1, id2) = (w.windows[0], w.windows[1]);
                        match (registry_get(c.registry, id1), registry_get(c.registry, id2)) {
                            (Some(m1), Some(m2)) => match (m1.location, m2.location) {
                                (Some(l1), Some(l2)) => StateView {
                                    registry: crate::command::moved_to(
                                        crate::command::moved_to(c.registry, id1, l2),
                                        id2,
                                        l1,
                                    ),
                                    ..c
                                },
                                _ => c,
                            },
                            _ => c,
                        }
                    } else {
                        c
                    },
                    None => c,
                },
                None => c,
            },
            None => c,
        },
        None => c,
    }
}

/// A rectangle that panels reserve space around: the physical output's
/// area and the part of it that panels leave free (relative to it).
pub struct PanelZone {
    pub physical: Rectangle,
    pub non_exclusive: Rectangle,
}

/// The area of `area` left after the panels of one physical output: an
/// edge of the virtual output that lies on an edge of the physical output
/// gives up what panels reserve there, where something is left.
pub open spec fn area_after_zone(vo: Rectangle, area: (int, int, int, int), z: PanelZone) -> (int, int, int, int) {
    let (x, y, w, h) = area;
    let pw = z.physical.size.w as int;
    let ph = z.physical.size.h as int;
    let top = z.non_exclusive.loc.y as int;
    let left = z.non_exclusive.loc.x as int;
    let bottom = ph - (z.non_exclusive.loc.y + z.non_exclusive.size.h);
    let right = pw - (z.non_exclusive.loc.x + z.non_exclusive.size.w);
    let (y1, h1) = if vo.loc.y == z.physical.loc.y && top > 0 && h - top > 0 {
        (y + top, h - top)
    } else {
        (y, h)
    };
    let (x1, w1) = if vo.loc.x == z.physical.loc.x && left > 0 && w - left > 0 {
        (x + left, w - left)
    } else {
        (x, w)
    };
    let h2 = if vo.loc.y + vo.size.h >= z.physical.loc.y + ph - 1 && bottom > 0 && h1 - bottom > 0 {
        h1 - bottom
    } else {
        h1
    };
    let w2 = if vo.loc.x + vo.size.w >= z.physical.loc.x + pw - 1 && right > 0 && w1 - right > 0 {
        w1 - right
    } else {
        w1
    };
    (x1, y1, w2, h2)
}

/// The usable area of virtual output area `vo` after the panels of each of
/// `zones`, in order.
pub open spec fn effective_area_spec(vo: Rectangle, zones: Seq<PanelZone>) -> (int, int, int, int)
    decreases zones.len(),
{
    if zones.len() == 0 {
        (vo.loc.x as int, vo.loc.y as int, vo.size.w as int, vo.size.h as int)
    } else {
        area_after_zone(vo, effective_area_spec(vo, zones.drop_last()), zones.last())
    }
}

/// Law: after the panels of `zones` and then those of `z`, each edge of
/// the usable area moves in by what the panels of `z` reserve on that edge
/// of their physical output, where the virtual output lies on that edge and
/// some width (or height) is left, and otherwise stays: where the virtual
/// output starts at the physical output's left edge and `L > 0` pixels are
/// reserved there, the area starts `L` further right and its right edge
/// does not move for it; where it reaches the right edge (to within a
/// pixel) and `R > 0` pixels are reserved there, its right edge moves `R`
/// left and its left edge does not move for it. Likewise top and bottom.
pub proof fn law_panel_edges(vo: Rectangle, zones: Seq<PanelZone>, z: PanelZone)
    ensures
        ({
            let a = effective_area_spec(vo, zones);
            let r = effective_area_spec(vo, zones.push(z));
            let pw = z.physical.size.w as int;
            let ph = z.physical.size.h as int;
            let left = z.non_exclusive.loc.x as int;
            let top = z.non_exclusive.loc.y as int;
            let right = pw - (z.non_exclusive.loc.x + z.non_exclusive.size.w);
            let bottom = ph - (z.non_exclusive.loc.y + z.non_exclusive.size.h);
            let cut_left = vo.loc.x == z.physical.loc.x && left > 0 && a.2 - left > 0;
            let cut_top = vo.loc.y == z.physical.loc.y && top > 0 && a.3 - top > 0;
            let w_left = if cut_left { a.2 - left } else { a.2 };
            let h_top = if cut_top { a.3 - top } else { a.3 };
            let cut_right = vo.loc.x + vo.size.w >= z.physical.loc.x + pw - 1 && right > 0 && w_left - right > 0;
            let cut_bottom = vo.loc.y + vo.size.h >= z.physical.loc.y + ph - 1 && bottom > 0 && h_top - bottom
                > 0;
            &&& r.0 == (if cut_left { a.0 + left } else { a.0 })
            &&& r.0 + r.2 == (if cut_right { a.0 + a.2 - right } else { a.0 + a.2 })
            &&& r.1 == (if cut_top { a.1 + top } else { a.1 })
            &&& r.1 + r.3 == (if cut_bottom { a.1 + a.3 - bottom } else { a.1 + a.3 })
        }),
{
    assert(zones.push(z).drop_last() =~= zones);
    assert(zones.push(z).last() == z);
}

/// The usable area of virtual output area `vo` next to the panels of the
/// physical outputs it lies on.
pub fn effective_area(vo: Rectangle, zones: &Vec<PanelZone>) -> (r: Rectangle)
    requires
        rect_fits(vo),
    ensures
        (r.loc.x as int, r.loc.y as int, r.size.w as int, r.size.h as int) == effective_area_spec(
            vo,
            zones@,
        ),
{
    let mut x: i64 = vo.loc.x as i64;
    let mut y: i64 = vo.loc.y as i64;
    let mut w: i64 = vo.size.w as i64;
    let mut h: i64 = vo.size.h as i64;
    let mut i: usize = 0;
    while i < zones.len()
        invariant
            i <= zones.len(),
            rect_fits(vo),
            (x as int, y as int, w as int, h as int) == effective_area_spec(vo, zones@.take(i as int)),
            vo.loc.x <= x,
            x + w <= vo.loc.x + vo.size.w,
            vo.loc.y <= y,
            y + h <= vo.loc.y + vo.size.h,
            0 <= w <= vo.size.w,
            0 <= h <= vo.size.h,
        decreases zones.len() - i,
    {
        let z = &zones[i];
        assert(zones@.take(i + 1).drop_last() =~= zones@.take(i as int));
        assert(zones@.take(i + 1).last() == *z);
        let pw = z.physical.size.w as i64;
        let ph = z.physical.size.h as i64;
        let top = z.non_exclusive.loc.y as i64;
        let left = z.non_exclusive.loc.x as i64;
        let bottom = ph - (z.non_exclusive.loc.y as i64 + z.non_exclusive.size.h as i64);
        let right = pw - (z.non_exclusive.loc.x as i64 + z.non_exclusive.size.w as i64);
        if vo.loc.y == z.physical.loc.y && top > 0 && h - top > 0 {
            y = y + top;
            h = h - top;
        }
        if vo.loc.x == z.physical.loc.x && left > 0 && w - left > 0 {
            x = x + left;
            w = w - left;
        }
        if vo.loc.y as i64 + vo.size.h as i64 >= z.physical.loc.y as i64 + ph - 1 && bottom > 0 && h
            - bottom > 0 {
            h = h - bottom;
        }
        if vo.loc.x as i64 + vo.size.w as i64 >= z.physical.loc.x as i64 + pw - 1 && right > 0 && w
            - right > 0 {
            w = w - right;
        }
        i += 1;
    }
    assert(zones@.take(zones.len() as int) =~= zones@);
    Rectangle { loc: Point { x: x as i32, y: y as i32 }, size: Size { w: w as i32, h: h as i32 } }
}


/// The workspaces with the next split of workspace `ws` set to `d`.
pub open spec fn set_split_in(wv: Seq<WorkspaceView>, ws: WorkspaceId, d: SplitDirection) -> Seq<WorkspaceView> {
    match ws_index(wv, ws) {
        Some(i) => wv.update(i, WorkspaceView { next_split: d, ..wv[i] }),
        None => wv,
    }
}

/// The state after the workspace shown on the output under the pointer
/// was set to split `d` next.
pub open spec fn view_set_split(c: StateView, d: SplitDirection) -> StateView {
    match vo_at(c.outputs, c.pointer) {
        Some(vo) => match ws_on_output(c.workspaces, vo) {
            Some(ws) => StateView { workspaces: set_split_in(c.workspaces, ws, d), ..c },
            None => c,
        },
        None => c,
    }
}

/// The split a workspace with area `r` takes when asked to choose: across
/// its longer side, horizontal where it is wider than tall.
pub open spec fn auto_split(r: Rectangle) -> SplitDirection {
    if r.size.w > r.size.h {
        SplitDirection::Horizontal
    } else {
        SplitDirection::Vertical
    }
}

/// The state after the workspace shown on the output under the pointer
/// chose its next split from its area (the area of that output).
pub open spec fn view_set_split_automatic(c: StateView) -> StateView {
    match vo_at(c.outputs, c.pointer) {
        Some(vo) => match (ws_on_output(c.workspaces, vo), vo_lookup(c.outputs, vo)) {
            (Some(ws), Some(o)) => StateView { workspaces: set_split_in(c.workspaces, ws, auto_split(o.region)), ..c },
            _ => c,
        },
        None => c,
    }
}

/// Whether none of the workspaces numbered 0 to 9 is shown on an output.
pub open spec fn all_hidden(wv: Seq<WorkspaceView>) -> bool {
    forall|i: int| 0 <= i < 10 ==> #[trigger] hidden_at(wv, i)
}

/// Whether the workspace numbered `i` is shown on no output.
pub open spec fn hidden_at(wv: Seq<WorkspaceView>, i: int) -> bool {
    match ws_lookup(wv, WorkspaceId { id: i as u8 }) {
        Some(w) => w.location is None,
        None => true,
    }
}

/// The state after virtual output `vo` came up: where it shows no
/// workspace and it is the only output, or no workspace is shown anywhere,
/// it switches to workspace 1.
pub open spec fn view_initialize_output(c: StateView, vo: usize) -> StateView {
    if ws_on_output(c.workspaces, vo) is None && (c.outputs.len() <= 1 || all_hidden(c.workspaces)) {
        view_switch(c, vo, WorkspaceId { id: 0 })
    } else {
        c
    }
}

/// The region of the first virtual output of `v` that contains `p`.
pub open spec fn region_at(v: Seq<crate::virtual_output::OutputView>, p: Point) -> Option<Rectangle>
    decreases v.len(),
{
    if v.len() == 0 {
        None
    } else if crate::geometry::rect_contains(v[0].region, p) {
        Some(v[0].region)
    } else {
        region_at(v.drop_first(), p)
    }
}

/// The region of the virtual output that the focused window stands in,
/// where the focused window is placed inside one.
pub open spec fn focus_area(c: StateView) -> Option<Rectangle> {
    match c.focus {
        None => None,
        Some(id) => match crate::window::registry_get(c.registry, id) {
            None => None,
            Some(w) => match w.location {
                None => None,
                Some(p) => region_at(c.outputs, p),
            },
        },
    }
}

/// How far the virtual outputs `v` reach right and down from the origin:
/// the largest right and bottom edges, and no less than zero.
pub open spec fn outputs_extent(v: Seq<crate::virtual_output::OutputView>) -> (int, int)
    decreases v.len(),
{
    if v.len() == 0 {
        (0, 0)
    } else {
        let (w, h) = outputs_extent(v.drop_last());
        let r = v.last().region;
        (
            if w >= r.loc.x + r.size.w { w } else { r.loc.x + r.size.w },
            if h >= r.loc.y + r.size.h { h } else { r.loc.y + r.size.h },
        )
    }
}

impl StilchState {
    /// How far the virtual outputs reach right and down from the origin.
    pub fn outputs_extent(&self) -> (r: (i32, i32))
        requires
            self.wf(),
        ensures
            (r.0 as int, r.1 as int) == outputs_extent(self@.outputs),
    {
        let outs = self.virtual_output_manager.outputs();
        let ghost v = self@.outputs;
        let mut w: i32 = 0;
        let mut h: i32 = 0;
        let mut i: usize = 0;
        while i < outs.len()
            invariant
                i <= outs.len(),
                v == self@.outputs,
                v == crate::virtual_output::outputs_view(outs@),
                v.len() == outs@.len(),
                outputs_fit(v),
                (w as int, h as int) == outputs_extent(v.take(i as int)),
            decreases outs.len() - i,
        {
            let r = outs[i].logical_region();
            assert(v[i as int].region == r);
            assert(rect_fits(v[i as int].region));
            let right = r.loc.x + r.size.w;
            let bottom = r.loc.y + r.size.h;
            assert(v.take(i + 1).drop_last() =~= v.take(i as int));
            assert(v.take(i + 1).last() == v[i as int]);
            if right > w {
                w = right;
            }
            if bottom > h {
                h = bottom;
            }
            i += 1;
        }
        assert(v.take(i as int) =~= v);
        (w, h)
    }

    /// The region of the virtual output that the focused window stands in
    /// (the area a fullscreen window takes there).
    pub fn output_area_of_focus(&self) -> (r: Option<Rectangle>)
        ensures
            r == focus_area(self@),
    {
        let id = match self.focused_window {
            Some(id) => id,
            None => {
                return None;
            },
        };
        let location = match self.window_registry.get(id) {
            Some(w) => match w.location {
                Some(p) => p,
                None => {
                    return None;
                },
            },
            None => {
                return None;
            },
        };
        let outs = self.virtual_output_manager.outputs();
        let ghost v = self@.outputs;
        let mut i: usize = 0;
        assert(v.skip(0) =~= v);
        assert(focus_area(self@) == region_at(v, location));
        while i < outs.len()
            invariant
                i <= outs.len(),
                v == self@.outputs,
                focus_area(self@) == region_at(v, location),
                v == crate::virtual_output::outputs_view(outs@),
                v.len() == outs@.len(),
                region_at(v, location) == region_at(v.skip(i as int), location),
            decreases outs.len() - i,
        {
            let r = outs[i].logical_region();
            let ghost rest = v.skip(i as int);
            assert(rest[0] == v[i as int]);
            assert(v[i as int].region == r);
            if r.contains(location) {
                return Some(r);
            }
            assert(rest.drop_first() =~= v.skip(i + 1));
            i += 1;
        }
        None
    }

    /// Moves the pointer to the centre of screen number `index`, counting
    /// the virtual outputs in the order they were added. Where there is no
    /// such screen nothing changes, and `false` says so.
    pub fn focus_screen(&mut self, index: usize) -> (ok: bool)
        requires
            old(self).wf(),
        ensures
            ok == (index < old(self)@.outputs.len()),
            ok ==> final(self)@ == (StateView {
                pointer: center_point(old(self)@.outputs[index as int].region),
                ..old(self)@
            }),
            !ok ==> final(self)@ == old(self)@,
            final(self).config == old(self).config,
            final(self).wf(),
    {
        let outs = self.virtual_output_manager.outputs();
        if index >= outs.len() {
            return false;
        }
        let r = outs[index].logical_region();
        assert(self@.outputs[index as int].region == r);
        assert(crate::geometry::rect_fits(r));
        let p = r.center();
        self.pointer_location = p;
        true
    }

    /// Moves the pointer to the centre of window `id`, where it is placed.
    pub fn center_pointer_on_window(&mut self, id: WindowId)
        ensures
            final(self)@ == view_center_pointer(old(self)@, id),
            final(self).config == old(self).config,
            old(self).wf() ==> final(self).wf(),
    {
        if let Some(w) = self.window_registry.get(id) {
            if w.location.is_some() {
                let l = w.location.unwrap();
                let cx = l.x as i64 + half_i32(w.size.w);
                let cy = l.y as i64 + half_i32(w.size.h);
                self.pointer_location = Point { x: clamp_exec(cx), y: clamp_exec(cy) };
            }
        }
    }

    /// Sets how the next split of the workspace shown on the output under
    /// the pointer goes.
    pub fn set_split_direction(&mut self, direction: SplitDirection)
        requires
            old(self).wf(),
        ensures
            final(self)@ == view_set_split(old(self)@, direction),
            final(self).config == old(self).config,
            final(self).wf(),
    {
        if let Some(vo) = self.virtual_output_manager.virtual_output_at(self.pointer_location) {
            if let Some(ws) = self.workspace_manager.workspace_on_output(vo) {
                self.workspace_manager.set_next_split(ws, direction);
            }
        }
    }

    /// Lets the workspace shown on the output under the pointer choose its
    /// next split from the shape of its area.
    pub fn set_split_direction_automatic(&mut self)
        requires
            old(self).wf(),
        ensures
            final(self)@ == view_set_split_automatic(old(self)@),
            final(self).config == old(self).config,
            final(self).wf(),
    {
        if let Some(vo) = self.virtual_output_manager.virtual_output_at(self.pointer_location) {
            let ws = self.workspace_manager.workspace_on_output(vo);
            let area = match self.virtual_output_manager.get(vo) {
                Some(o) => Some(o.logical_region()),
                None => None,
            };
            match (ws, area) {
                (Some(ws), Some(r)) => {
                    let direction = if r.size.w > r.size.h {
                        SplitDirection::Horizontal
                    } else {
                        SplitDirection::Vertical
                    };
                    self.workspace_manager.set_next_split(ws, direction);
                },
                _ => {},
            }
        }
    }

    /// Gives a virtual output that came up its first workspace: where it
    /// shows none and it is the only output, or no workspace is shown
    /// anywhere, it switches to workspace 1.
    pub fn initialize_virtual_output(&mut self, vo: usize)
        requires
            old(self).wf(),
        ensures
            final(self)@ == view_initialize_output(old(self)@, vo),
            final(self).config == old(self).config,
            final(self).wf(),
    {
        if self.workspace_manager.workspace_on_output(vo).is_some() {
            return ;
        }
        let mut hidden = true;
        let mut i: u8 = 0;
        while i < 10
            invariant
                i <= 10,
                hidden == forall|j: int| 0 <= j < i ==> #[trigger] hidden_at(self@.workspaces, j),
            decreases 10 - i,
        {
            let loc = self.workspace_manager.workspace_location(WorkspaceId::new(i));
            assert(hidden_at(self@.workspaces, i as int) == loc is None);
            if loc.is_some() {
                hidden = false;
            }
            i += 1;
        }
        if self.virtual_output_manager.outputs.len() <= 1 || hidden {
            self.switch_workspace(vo, WorkspaceId::new(0));
        }
    }

    /// Gives focus to virtual output `vo`: the pointer moves to its centre
    /// and keyboard focus is cleared.
    pub fn focus_virtual_output(&mut self, vo: usize)
        requires
            old(self).wf(),
        ensures
            final(self)@ == view_focus_output(old(self)@, vo),
            final(self).config == old(self).config,
            final(self).wf(),
    {
        proof {
            crate::state::lemma_outputs_fit_at(self@.outputs, vo);
        }
        if let Some(o) = self.virtual_output_manager.get(vo) {
            self.pointer_location = o.logical_region().center();
            self.focused_window = None;
        }
    }

    /// Switches virtual output `vo` to the workspace with index `idx`.
    pub fn switch_to_workspace(&mut self, vo: usize, idx: usize)
        requires
            old(self).wf(),
        ensures
            final(self)@ == view_switch(old(self)@, vo, WorkspaceId { id: idx as u8 }),
            final(self).config == old(self).config,
            final(self).wf(),
    {
        let ws = WorkspaceId::new(#[verifier::truncate] (idx as u8));
        self.switch_workspace(vo, ws);
    }

    /// Makes the first two windows of the workspace shown under the pointer
    /// trade places.
    pub fn debug_swap_windows(&mut self)
        requires
            old(self).wf(),
        ensures
            final(self)@ == view_debug_swap(old(self)@),
            final(self).config == old(self).config,
            final(self).wf(),
    {
        let vo = match self.virtual_output_manager.virtual_output_at(self.pointer_location) {
            Some(vo) => vo,
            None => {
                return ;
            },
        };
        let o = match self.virtual_output_manager.get(vo) {
            Some(o) => o,
            None => {
                return ;
            },
        };
        let a = match o.active_workspace {
            Some(a) => a,
            None => {
                return ;
            },
        };
        let w = match self.workspace_manager.get_workspace(WorkspaceId::new(#[verifier::truncate] (a as u8))) {
            Some(w) => w,
            None => {
                return ;
            },
        };
        if w.windows.len() < 2 {
            return ;
        }
        let id1 = w.windows[0];
        let id2 = w.windows[1];
        let (m1, m2) = match (self.window_registry.get(id1), self.window_registry.get(id2)) {
            (Some(m1), Some(m2)) => (m1, m2),
            _ => {
                return ;
            },
        };
        match (m1.location, m2.location) {
            (Some(l1), Some(l2)) => {
                proof {
                    crate::window::lemma_registry_index(self@.registry, id1);
                }
                self.window_registry.move_window(id1, l2);
                proof {
                    crate::window::lemma_registry_index(self@.registry, id2);
                }
                self.window_registry.move_window(id2, l1);
            },
            _ => {},
        }
    }
}

fn half_i32(n: i32) -> (r: i64)
    ensures
        r == crate::keybindings::half(n as int),
{
    if n >= 0 {
        (n / 2) as i64
    } else {
        let m: i64 = -(n as i64);
        -(m / 2)
    }
}

} // verus!

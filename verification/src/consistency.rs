//! The agreement between the window registry and the workspaces, and the
//! laws that the window-management operations keep it.
use crate::command::view_cmd_move;
use crate::state::{
    focus_ws, pick_focus, view_focus, view_move_to_workspace, view_show, view_switch, StateView,
};
use crate::xdg::{view_add_window, view_toplevel_destroyed};
use crate::fullscreen::ws_region;
use crate::window::{
    lemma_registry_index, lemma_registry_update, registry_get, registry_index, window_ids_distinct,
    ManagedWindow, WindowId,
};
use crate::workspace::{
    all_but, ids_distinct, lemma_ws_index, lemma_ws_lookup_update, shown_on, with_window, without_window,
    ws_index, ws_lookup, WorkspaceId, WorkspaceView,
};
use vstd::prelude::*;

verus! {

/// No window appears twice.
pub open spec fn no_dup(s: Seq<WindowId>) -> bool {
    forall|a: int, b: int| 0 <= a < b < s.len() ==> s[a] != s[b]
}

/// Whether workspace `ws` exists and lists window `x`.
pub open spec fn lists(wv: Seq<WorkspaceView>, ws: WorkspaceId, x: WindowId) -> bool {
    ws_lookup(wv, ws) matches Some(w) && w.windows.contains(x)
}

/// Whether the registry records window `x` as on workspace `ws`.
pub open spec fn claims(reg: Seq<ManagedWindow>, x: WindowId, ws: WorkspaceId) -> bool {
    registry_get(reg, x) matches Some(m) && m.workspace == ws
}

/// The registry and the workspaces agree: every registered window is
/// listed by the workspace it is registered on, every listed window is
/// registered on the workspace that lists it, and no workspace lists a
/// window twice.
pub open spec fn consistent(c: StateView) -> bool {
    &&& forall|i: int|
        0 <= i < c.registry.len() ==> lists(c.workspaces, #[trigger] c.registry[i].workspace, c.registry[i].id)
    &&& forall|k: int, x: WindowId|
        0 <= k < c.workspaces.len() && #[trigger] c.workspaces[k].windows.contains(x) ==> claims(
            c.registry,
            x,
            c.workspaces[k].id,
        )
    &&& forall|k: int| 0 <= k < c.workspaces.len() ==> no_dup(#[trigger] c.workspaces[k].windows)
}

/// The identities the state keeps distinct.
pub open spec fn distinct_ids(c: StateView) -> bool {
    window_ids_distinct(c.registry) && ids_distinct(c.workspaces)
}

/// Two sequences of workspaces that hold the same workspaces with the same
/// windows, position by position (focus and placement aside).
pub open spec fn same_members(a: Seq<WorkspaceView>, b: Seq<WorkspaceView>) -> bool {
    a.len() == b.len() && forall|i: int|
        #![trigger a[i]]
        #![trigger b[i]]
        0 <= i < a.len() ==> a[i].id == b[i].id && a[i].windows == b[i].windows
}

pub proof fn lemma_same_members_lookup(a: Seq<WorkspaceView>, b: Seq<WorkspaceView>, x: WorkspaceId)
    requires
        same_members(a, b),
    ensures
        ws_lookup(a, x) is Some <==> ws_lookup(b, x) is Some,
        ws_lookup(a, x) matches Some(w) ==> w.windows == ws_lookup(b, x)->0.windows,
    decreases a.len(),
{
    if a.len() > 0 {
        assert(a[0].id == b[0].id);
        assert(same_members(a.drop_first(), b.drop_first())) by {
            assert forall|i: int| 0 <= i < a.drop_first().len() implies a.drop_first()[i].id
                == b.drop_first()[i].id && a.drop_first()[i].windows == b.drop_first()[i].windows by {
                assert(a.drop_first()[i] == a[i + 1]);
                assert(b.drop_first()[i] == b[i + 1]);
            }
        }
        lemma_same_members_lookup(a.drop_first(), b.drop_first(), x);
    }
}

/// Consistency holds of a state whose workspaces hold the same windows as
/// those of a consistent state with the same registry.
pub proof fn lemma_consistent_same_members(c: StateView, d: StateView)
    requires
        consistent(c),
        same_members(c.workspaces, d.workspaces),
        d.registry == c.registry,
    ensures
        consistent(d),
{
    assert forall|i: int| 0 <= i < d.registry.len() implies lists(
        d.workspaces,
        #[trigger] d.registry[i].workspace,
        d.registry[i].id,
    ) by {
        assert(lists(c.workspaces, c.registry[i].workspace, c.registry[i].id));
        lemma_same_members_lookup(c.workspaces, d.workspaces, d.registry[i].workspace);
    }
    assert forall|k: int, x: WindowId|
        0 <= k < d.workspaces.len() && #[trigger] d.workspaces[k].windows.contains(x) implies claims(
        d.registry,
        x,
        d.workspaces[k].id,
    ) by {
        assert(c.workspaces[k].id == d.workspaces[k].id && c.workspaces[k].windows == d.workspaces[k].windows);
        assert(c.workspaces[k].windows.contains(x));
    }
    assert forall|k: int| 0 <= k < d.workspaces.len() implies no_dup(#[trigger] d.workspaces[k].windows) by {
        assert(c.workspaces[k].id == d.workspaces[k].id && c.workspaces[k].windows == d.workspaces[k].windows);
        assert(no_dup(c.workspaces[k].windows));
    }
}

pub proof fn lemma_same_members_refl(a: Seq<WorkspaceView>)
    ensures
        same_members(a, a),
{
}

pub proof fn lemma_same_members_trans(a: Seq<WorkspaceView>, b: Seq<WorkspaceView>, c: Seq<WorkspaceView>)
    requires
        same_members(a, b),
        same_members(b, c),
    ensures
        same_members(a, c),
{
    assert forall|i: int| 0 <= i < a.len() implies a[i].id == c[i].id && a[i].windows
        == c[i].windows by {
        assert(a[i].id == b[i].id && a[i].windows == b[i].windows);
        assert(b[i].id == c[i].id && b[i].windows == c[i].windows);
    }
}

pub proof fn lemma_shown_on_same(wv: Seq<WorkspaceView>, id: WorkspaceId, vo: usize)
    ensures
        same_members(wv, shown_on(wv, id, vo)),
        ids_distinct(wv) ==> ids_distinct(shown_on(wv, id, vo)),
{
    let s = shown_on(wv, id, vo);
    assert forall|i: int| 0 <= i < wv.len() implies wv[i].id == s[i].id && wv[i].windows
        == s[i].windows by {}
}

pub proof fn lemma_focus_ws_same(wv: Seq<WorkspaceView>, reg: Seq<ManagedWindow>, id: WindowId)
    ensures
        same_members(wv, focus_ws(wv, reg, id)),
{
    let f = focus_ws(wv, reg, id);
    match registry_get(reg, id) {
        Some(w) => {
            lemma_ws_index(wv, w.workspace);
            assert forall|i: int| 0 <= i < wv.len() implies wv[i].id == f[i].id && wv[i].windows
                == f[i].windows by {}
        },
        None => {},
    }
}

/// Showing a workspace on an output keeps which windows each workspace
/// holds, and the registry.
pub proof fn lemma_view_show_same(c: StateView, vo: usize, ws: WorkspaceId)
    ensures
        same_members(c.workspaces, view_show(c, vo, ws).workspaces),
        view_show(c, vo, ws).registry == c.registry,
{
    let s = shown_on(c.workspaces, ws, vo);
    lemma_shown_on_same(c.workspaces, ws, vo);
    if ws_lookup(c.workspaces, ws) is Some {
        match pick_focus(ws_lookup(c.workspaces, ws)->0) {
            Some(t) => {
                lemma_focus_ws_same(s, c.registry, t);
                lemma_same_members_trans(c.workspaces, s, focus_ws(s, c.registry, t));
            },
            None => {},
        }
    }
}

/// Law: switching an output's workspace keeps the registry and the
/// workspaces in agreement.
pub proof fn law_switch_keeps_consistent(c: StateView, vo: usize, ws: WorkspaceId)
    requires
        consistent(c),
    ensures
        consistent(view_switch(c, vo, ws)),
{
    match ws_lookup(c.workspaces, ws) {
        Some(w) => match w.association {
            Some(a) => if a != vo {
                let c1 = view_show(c, a, ws);
                lemma_view_show_same(c, a, ws);
                lemma_consistent_same_members(c, c1);
                match crate::virtual_output::vo_lookup(c1.outputs, a) {
                    Some(o) => {
                        let c2 = StateView { pointer: crate::state::center_point(o.region), ..c1 };
                        lemma_consistent_same_members(c1, c2);
                        let w2 = ws_lookup(c2.workspaces, ws)->0;
                        if w2.windows.len() > 0 {
                            lemma_focus_ws_same(c2.workspaces, c2.registry, w2.windows[0]);
                            lemma_consistent_same_members(c2, view_focus(c2, w2.windows[0]));
                        } else {
                            lemma_consistent_same_members(c2, StateView { focus: None, ..c2 });
                        }
                    },
                    None => {},
                }
            } else {
                lemma_view_show_same(c, vo, ws);
                lemma_consistent_same_members(c, view_show(c, vo, ws));
            },
            None => {
                lemma_view_show_same(c, vo, ws);
                lemma_consistent_same_members(c, view_show(c, vo, ws));
            },
        },
        None => {
            lemma_view_show_same(c, vo, ws);
            lemma_consistent_same_members(c, view_show(c, vo, ws));
        },
    }
}

pub proof fn lemma_all_but_contains(s: Seq<WindowId>, id: WindowId, x: WindowId)
    ensures
        all_but(s, id).contains(x) <==> (s.contains(x) && x != id),
    decreases s.len(),
{
    if s.len() > 0 {
        let d = s.drop_last();
        lemma_all_but_contains(d, id, x);
        let r = all_but(d, id);
        if s.contains(x) {
            let j = choose|j: int| 0 <= j < s.len() && s[j] == x;
            if j < s.len() - 1 {
                assert(d[j] == x);
            }
        }
        if d.contains(x) {
            let j = choose|j: int| 0 <= j < d.len() && d[j] == x;
            assert(s[j] == x);
        }
        assert(s[s.len() - 1] == s.last());
        if s.last() != id {
            let p = r.push(s.last());
            assert(p[r.len() as int] == s.last());
            if p.contains(x) {
                let j = choose|j: int| 0 <= j < p.len() && p[j] == x;
                if j < r.len() {
                    assert(r[j] == x);
                }
            }
            if r.contains(x) {
                let j = choose|j: int| 0 <= j < r.len() && r[j] == x;
                assert(p[j] == x);
            }
        }
    }
}

pub proof fn lemma_all_but_no_dup(s: Seq<WindowId>, id: WindowId)
    requires
        no_dup(s),
    ensures
        no_dup(all_but(s, id)),
    decreases s.len(),
{
    if s.len() > 0 {
        let d = s.drop_last();
        assert(no_dup(d)) by {
            assert forall|a: int, b: int| 0 <= a < b < d.len() implies d[a] != d[b] by {
                assert(d[a] == s[a] && d[b] == s[b]);
            }
        }
        lemma_all_but_no_dup(d, id);
        let r = all_but(d, id);
        if s.last() != id {
            lemma_all_but_contains(d, id, s.last());
            assert(!d.contains(s.last())) by {
                if d.contains(s.last()) {
                    let j = choose|j: int| 0 <= j < d.len() && d[j] == s.last();
                    assert(s[j] == s[s.len() - 1]);
                }
            }
            let p = r.push(s.last());
            assert forall|a: int, b: int| 0 <= a < b < p.len() implies p[a] != p[b] by {
                if b == r.len() {
                    assert(p[a] == r[a]);
                    assert(r.contains(r[a]));
                } else {
                    assert(p[a] == r[a] && p[b] == r[b]);
                }
            }
        }
    }
}

pub proof fn lemma_with_window_members(w: WorkspaceView, id: WindowId, x: WindowId)
    ensures
        with_window(w, id).windows.contains(x) <==> (w.windows.contains(x) || x == id),
        no_dup(w.windows) ==> no_dup(with_window(w, id).windows),
        with_window(w, id).id == w.id,
{
    if !w.windows.contains(id) {
        let p = w.windows.push(id);
        assert(p[w.windows.len() as int] == id);
        if p.contains(x) {
            let j = choose|j: int| 0 <= j < p.len() && p[j] == x;
            if j < w.windows.len() {
                assert(w.windows[j] == x);
            }
        }
        if w.windows.contains(x) {
            let j = choose|j: int| 0 <= j < w.windows.len() && w.windows[j] == x;
            assert(p[j] == x);
        }
        if no_dup(w.windows) {
            assert forall|a: int, b: int| 0 <= a < b < p.len() implies p[a] != p[b] by {
                if b == w.windows.len() {
                    assert(p[a] == w.windows[a]);
                    assert(w.windows.contains(w.windows[a]));
                } else {
                    assert(p[a] == w.windows[a] && p[b] == w.windows[b]);
                }
            }
        }
    }
}

/// In workspaces with distinct identities, the one found for an identity is
/// the one at the position that holds it.
pub proof fn lemma_lookup_at(wv: Seq<WorkspaceView>, k: int)
    requires
        ids_distinct(wv),
        0 <= k < wv.len(),
    ensures
        ws_lookup(wv, wv[k].id) == Some(wv[k]),
        ws_index(wv, wv[k].id) == Some(k),
{
    crate::workspace::lemma_ws_lookup_at(wv, k);
}

/// Moving window `win` from the workspace at `si` to the one at `ti` (and
/// recording the move at registry position `ri`) keeps agreement.
proof fn lemma_move_core(c: StateView, win: WindowId, si: int, ti: int, ri: int)
    requires
        consistent(c),
        distinct_ids(c),
        0 <= si < c.workspaces.len(),
        0 <= ti < c.workspaces.len(),
        si != ti,
        0 <= ri < c.registry.len(),
        c.registry[ri].id == win,
        c.registry[ri].workspace == c.workspaces[si].id,
    ensures
        ({
            let wv = c.workspaces;
            let w1 = wv.update(si, without_window(wv[si], win));
            let w2 = w1.update(ti, with_window(w1[ti], win));
            let reg2 = c.registry.update(ri, ManagedWindow { workspace: wv[ti].id, ..c.registry[ri] });
            &&& consistent(StateView { registry: reg2, workspaces: w2, ..c })
            &&& distinct_ids(StateView { registry: reg2, workspaces: w2, ..c })
        }),
{
    let wv = c.workspaces;
    let reg = c.registry;
    let w1 = wv.update(si, without_window(wv[si], win));
    let w2 = w1.update(ti, with_window(w1[ti], win));
    let mw = reg[ri];
    let target = wv[ti].id;
    let src = wv[si].id;
    let m2 = ManagedWindow { workspace: target, ..mw };
    let reg2 = reg.update(ri, m2);
    let c2 = StateView { registry: reg2, workspaces: w2, ..c };
    assert(w1[ti] == wv[ti]);
    assert(w2[si] == w1[si]);
    assert(w2[ti].windows == with_window(wv[ti], win).windows);
    assert(w2[si].windows == all_but(wv[si].windows, win));
    assert forall|k: int| 0 <= k < w2.len() && k != si && k != ti implies #[trigger] w2[k] == wv[k] by {}
    assert forall|k: int| 0 <= k < w2.len() implies #[trigger] w2[k].id == wv[k].id by {
        if k == ti {
            lemma_with_window_members(w1[ti], win, win);
        }
    }
    // identities stay distinct
    assert(ids_distinct(w2)) by {
        assert forall|a: int, b: int| 0 <= a < b < w2.len() implies w2[a].id != w2[b].id by {
            assert(w2[a].id == wv[a].id);
            assert(w2[b].id == wv[b].id);
        }
    }
    assert(window_ids_distinct(reg2)) by {
        assert forall|a: int, b: int| 0 <= a < b < reg2.len() implies reg2[a].id != reg2[b].id by {
            assert(reg2[a].id == reg[a].id);
            assert(reg2[b].id == reg[b].id);
        }
    }
    // win is not listed by the target before the move
    assert(!wv[ti].windows.contains(win)) by {
        if wv[ti].windows.contains(win) {
            assert(claims(reg, win, wv[ti].id));
            crate::window::lemma_registry_at(reg, ri);
        }
    }
    // registry lookups after the move
    assert forall|x: WindowId| #[trigger] registry_get(reg2, x) == (if x == win {
        Some(m2)
    } else {
        registry_get(reg, x)
    }) by {
        lemma_registry_update(reg, ri, m2, x);
        crate::window::lemma_registry_at(reg, ri);
        lemma_registry_index(reg, x);
    }
    // workspace lookups after the move
    assert forall|k: int| 0 <= k < w2.len() implies #[trigger] ws_lookup(w2, w2[k].id) == Some(w2[k]) by {
        lemma_lookup_at(w2, k);
    }
    // (A) every registered window is listed by its workspace
    assert forall|i: int| 0 <= i < reg2.len() implies lists(w2, #[trigger] reg2[i].workspace, reg2[i].id) by {
        if i == ri {
            lemma_with_window_members(w1[ti], win, win);
            assert(ws_lookup(w2, w2[ti].id) == Some(w2[ti]));
        } else {
            let r = reg[i];
            assert(reg2[i] == r);
            assert(r.id != win);
            assert(lists(wv, r.workspace, r.id));
            lemma_ws_index(wv, r.workspace);
            let k = ws_index(wv, r.workspace)->0;
            assert(wv[k].windows.contains(r.id));
            assert(ws_lookup(w2, w2[k].id) == Some(w2[k]));
            if k == ti {
                lemma_with_window_members(w1[ti], win, r.id);
            } else if k == si {
                lemma_all_but_contains(wv[si].windows, win, r.id);
            }
            assert(w2[k].windows.contains(r.id));
        }
    }
    // (B) every listed window is registered on the workspace listing it
    assert forall|k: int, x: WindowId|
        0 <= k < w2.len() && #[trigger] w2[k].windows.contains(x) implies claims(reg2, x, w2[k].id) by {
        assert(registry_get(reg2, x) == (if x == win { Some(m2) } else { registry_get(reg, x) }));
        if k == ti {
            lemma_with_window_members(w1[ti], win, x);
            if x != win {
                assert(wv[ti].windows.contains(x));
                assert(claims(reg, x, wv[ti].id));
            }
        } else if k == si {
            lemma_all_but_contains(wv[si].windows, win, x);
            assert(claims(reg, x, wv[si].id));
        } else {
            assert(w2[k] == wv[k]);
            assert(claims(reg, x, wv[k].id));
            if x == win {
                crate::window::lemma_registry_at(reg, ri);
                assert(wv[k].id == src);
            }
        }
    }
    // (C) no workspace lists a window twice
    assert forall|k: int| 0 <= k < w2.len() implies no_dup(#[trigger] w2[k].windows) by {
        assert(no_dup(wv[k].windows));
        if k == ti {
            lemma_with_window_members(w1[ti], win, win);
        } else if k == si {
            lemma_all_but_no_dup(wv[si].windows, win);
        } else {
            assert(w2[k] == wv[k]);
        }
    }
}

/// Law: moving a window to a workspace that exists keeps the registry and
/// the workspaces in agreement.
pub proof fn law_move_keeps_consistent(c: StateView, win: WindowId, target: WorkspaceId)
    requires
        consistent(c),
        distinct_ids(c),
        ws_lookup(c.workspaces, target) is Some,
    ensures
        consistent(view_move_to_workspace(c, win, target)),
{
    match registry_get(c.registry, win) {
        None => {},
        Some(mw) => {
            if mw.workspace != target {
                lemma_registry_index(c.registry, win);
                let ri = registry_index(c.registry, win)->0;
                assert(lists(c.workspaces, c.registry[ri].workspace, c.registry[ri].id));
                lemma_ws_index(c.workspaces, mw.workspace);
                lemma_ws_index(c.workspaces, target);
                let si = ws_index(c.workspaces, mw.workspace)->0;
                let ti = ws_index(c.workspaces, target)->0;
                lemma_move_core(c, win, si, ti, ri);
                let wv = c.workspaces;
                let w1 = wv.update(si, without_window(wv[si], win));
                crate::workspace::lemma_ws_lookup_update(wv, si, without_window(wv[si], win), target);
                assert(ws_index(w1, target) == Some(ti));
                let w2 = w1.update(ti, with_window(w1[ti], win));
                let reg2 = c.registry.update(ri, ManagedWindow { workspace: target, ..mw });
                let c2 = StateView { registry: reg2, workspaces: w2, ..c };
                assert(view_move_to_workspace(c, win, target) == (if c.focus == Some(win)
                    && crate::state::shown_and_active(c2, mw.workspace) {
                    match pick_focus(ws_lookup(c2.workspaces, mw.workspace)->0) {
                        Some(t) => if registry_get(c2.registry, t) is Some {
                            view_focus(c2, t)
                        } else {
                            c2
                        },
                        None => c2,
                    }
                } else {
                    c2
                }));
                if c.focus == Some(win) && crate::state::shown_and_active(c2, mw.workspace) {
                    match pick_focus(ws_lookup(c2.workspaces, mw.workspace)->0) {
                        Some(t) => {
                            lemma_focus_ws_same(c2.workspaces, c2.registry, t);
                            lemma_consistent_same_members(c2, view_focus(c2, t));
                        },
                        None => {},
                    }
                }
            }
        },
    }
}

/// Law: the move a command makes, to a workspace that exists, keeps the
/// registry and the workspaces in agreement.
pub proof fn law_command_move_keeps_consistent(c: StateView, win: WindowId, target: WorkspaceId)
    requires
        consistent(c),
        distinct_ids(c),
        ws_lookup(c.workspaces, target) is Some,
    ensures
        consistent(view_cmd_move(c, win, target)),
{
    match registry_get(c.registry, win) {
        None => {},
        Some(mw) => {
            if mw.workspace != target {
                lemma_registry_index(c.registry, win);
                let ri = registry_index(c.registry, win)->0;
                assert(lists(c.workspaces, c.registry[ri].workspace, c.registry[ri].id));
                lemma_ws_index(c.workspaces, mw.workspace);
                lemma_ws_index(c.workspaces, target);
                let si = ws_index(c.workspaces, mw.workspace)->0;
                let ti = ws_index(c.workspaces, target)->0;
                lemma_move_core(c, win, si, ti, ri);
                let wv = c.workspaces;
                crate::workspace::lemma_ws_lookup_update(wv, si, without_window(wv[si], win), target);
            }
        },
    }
}

/// A registry with one more window finds it, and every other window as
/// before.
pub proof fn lemma_registry_push(reg: Seq<ManagedWindow>, m: ManagedWindow, x: WindowId)
    requires
        registry_get(reg, m.id) is None,
    ensures
        registry_get(reg.push(m), x) == (if x == m.id {
            Some(m)
        } else {
            registry_get(reg, x)
        }),
    decreases reg.len(),
{
    if reg.len() == 0 {
        let p = reg.push(m);
        assert(p[0] == m);
        assert(p.drop_first() =~= Seq::<ManagedWindow>::empty());
        assert(registry_get(Seq::<ManagedWindow>::empty(), x) is None);
        assert(registry_get(reg, x) is None);
        if x != m.id {
            assert(registry_get(p, x) == registry_get(p.drop_first(), x));
        }
    } else {
        let p = reg.push(m);
        assert(p[0] == reg[0]);
        assert(p.drop_first() =~= reg.drop_first().push(m));
        assert(reg[0].id != m.id);
        assert(registry_get(reg.drop_first(), m.id) is None);
        lemma_registry_push(reg.drop_first(), m, x);
        if reg[0].id == x {
            assert(registry_get(p, x) == Some(reg[0]));
            assert(registry_get(reg, x) == Some(reg[0]));
        } else {
            assert(registry_get(p, x) == registry_get(p.drop_first(), x));
            assert(registry_get(reg, x) == registry_get(reg.drop_first(), x));
        }
    }
}

/// A registry without the window at `ri` no longer finds it, and finds
/// every other window as before.
pub proof fn lemma_registry_remove(reg: Seq<ManagedWindow>, ri: int, x: WindowId)
    requires
        window_ids_distinct(reg),
        0 <= ri < reg.len(),
    ensures
        registry_get(reg.remove(ri), x) == (if x == reg[ri].id {
            None
        } else {
            registry_get(reg, x)
        }),
        window_ids_distinct(reg.remove(ri)),
{
    let r = reg.remove(ri);
    assert forall|a: int, b: int| 0 <= a < b < r.len() implies r[a].id != r[b].id by {
        let a0 = if a < ri { a } else { a + 1 };
        let b0 = if b < ri { b } else { b + 1 };
        assert(r[a] == reg[a0]);
        assert(r[b] == reg[b0]);
    }
    lemma_registry_index(reg, x);
    lemma_registry_index(r, x);
    if x == reg[ri].id {
        if registry_get(r, x) is Some {
            let j = registry_index(r, x)->0;
            let j0 = if j < ri { j } else { j + 1 };
            assert(r[j] == reg[j0]);
        }
    } else {
        match registry_index(reg, x) {
            Some(k) => {
                let k1 = if k < ri { k } else { k - 1 };
                assert(r[k1] == reg[k]);
                assert forall|j: int| 0 <= j < k1 implies r[j].id != x by {
                    let j0 = if j < ri { j } else { j + 1 };
                    assert(r[j] == reg[j0]);
                }
                assert(registry_index(r, x) is Some);
                let q = registry_index(r, x)->0;
                assert(q == k1) by {
                    if q < k1 {
                    } else if q > k1 {
                    }
                }
            },
            None => {
                assert forall|j: int| 0 <= j < r.len() implies r[j].id != x by {
                    let j0 = if j < ri { j } else { j + 1 };
                    assert(r[j] == reg[j0]);
                }
            },
        }
    }
}

/// Law: adding a window keeps the registry and the workspaces in agreement.
pub proof fn law_add_keeps_consistent(c: StateView, id: WindowId, size: crate::geometry::Size, vo: usize)
    requires
        consistent(c),
        distinct_ids(c),
    ensures
        consistent(view_add_window(c, id, size, vo).0),
        distinct_ids(view_add_window(c, id, size, vo).0),
{
    let w0 = WorkspaceId { id: 0 };
    let c1 = match crate::workspace::ws_on_output(c.workspaces, vo) {
        Some(w) => c,
        None => {
            let wv = if crate::virtual_output::vo_lookup(c.outputs, vo) is Some && ws_lookup(c.workspaces, w0) is Some {
                shown_on(c.workspaces, w0, vo)
            } else {
                c.workspaces
            };
            StateView { workspaces: wv, outputs: crate::virtual_output::with_active(c.outputs, vo, 0), ..c }
        },
    };
    let ws = match crate::workspace::ws_on_output(c.workspaces, vo) {
        Some(w) => w,
        None => w0,
    };
    lemma_shown_on_same(c.workspaces, w0, vo);
    lemma_consistent_same_members(c, c1);
    assert(distinct_ids(c1));
    if registry_get(c1.registry, id) is None {
        lemma_ws_index(c1.workspaces, ws);
        match ws_index(c1.workspaces, ws) {
            Some(i) => {
                let wv = c1.workspaces;
                let reg = c1.registry;
                let m = crate::xdg::new_managed_window(id, ws, size, c1.containers);
                let reg2 = reg.push(m);
                let w2 = wv.update(i, with_window(wv[i], id));
                assert(view_add_window(c, id, size, vo).0 == StateView {
                    registry: reg2,
                    workspaces: w2,
                    containers: crate::xdg::next_number(c1.containers),
                    events: c1.events.push(crate::event::window_created(id, ws)),
                    ..c1
                });
                lemma_registry_index(reg, id);
                assert forall|x: WindowId| #[trigger] registry_get(reg2, x) == (if x == id {
                    Some(m)
                } else {
                    registry_get(reg, x)
                }) by {
                    lemma_registry_push(reg, m, x);
                }
                assert(!wv[i].windows.contains(id)) by {
                    if wv[i].windows.contains(id) {
                        assert(claims(reg, id, wv[i].id));
                    }
                }
                lemma_with_window_members(wv[i], id, id);
                assert forall|k: int| 0 <= k < w2.len() implies #[trigger] w2[k].id == wv[k].id by {}
                assert(ids_distinct(w2)) by {
                    assert forall|a: int, b: int| 0 <= a < b < w2.len() implies w2[a].id != w2[b].id by {
                        assert(w2[a].id == wv[a].id);
                        assert(w2[b].id == wv[b].id);
                    }
                }
                assert(window_ids_distinct(reg2)) by {
                    assert forall|a: int, b: int| 0 <= a < b < reg2.len() implies reg2[a].id != reg2[b].id by {
                        if b == reg.len() {
                            assert(reg2[a] == reg[a]);
                            crate::window::lemma_registry_at(reg, a);
                        } else {
                            assert(reg2[a] == reg[a] && reg2[b] == reg[b]);
                        }
                    }
                }
                assert forall|k: int| 0 <= k < w2.len() implies #[trigger] ws_lookup(w2, w2[k].id) == Some(w2[k]) by {
                    lemma_lookup_at(w2, k);
                }
                assert forall|j: int| 0 <= j < reg2.len() implies lists(w2, #[trigger] reg2[j].workspace, reg2[j].id) by {
                    if j == reg.len() {
                        assert(reg2[j] == m);
                        assert(ws_lookup(w2, w2[i].id) == Some(w2[i]));
                    } else {
                        let r = reg[j];
                        assert(reg2[j] == r);
                        assert(lists(wv, r.workspace, r.id));
                        lemma_ws_index(wv, r.workspace);
                        let k = ws_index(wv, r.workspace)->0;
                        assert(ws_lookup(w2, w2[k].id) == Some(w2[k]));
                        if k == i {
                            lemma_with_window_members(wv[i], id, r.id);
                        }
                        assert(w2[k].windows.contains(r.id));
                    }
                }
                assert forall|k: int, x: WindowId|
                    0 <= k < w2.len() && #[trigger] w2[k].windows.contains(x) implies claims(reg2, x, w2[k].id) by {
                    if k == i {
                        lemma_with_window_members(wv[i], id, x);
                        if x != id {
                            assert(claims(reg, x, wv[i].id));
                        }
                    } else {
                        assert(w2[k] == wv[k]);
                        assert(claims(reg, x, wv[k].id));
                    }
                }
                assert forall|k: int| 0 <= k < w2.len() implies no_dup(#[trigger] w2[k].windows) by {
                    assert(no_dup(wv[k].windows));
                    if k != i {
                        assert(w2[k] == wv[k]);
                    }
                }
            },
            None => {},
        }
    }
}

/// Law: forgetting a destroyed window keeps the registry and the workspaces
/// in agreement.
pub proof fn law_destroy_keeps_consistent(c: StateView, id: WindowId)
    requires
        consistent(c),
        distinct_ids(c),
    ensures
        consistent(view_toplevel_destroyed(c, id)),
{
    match registry_get(c.registry, id) {
        None => {},
        Some(mw) => {
            let ws = mw.workspace;
            lemma_registry_index(c.registry, id);
            let ri = registry_index(c.registry, id)->0;
            assert(lists(c.workspaces, c.registry[ri].workspace, c.registry[ri].id));
            lemma_ws_index(c.workspaces, ws);
            let si = ws_index(c.workspaces, ws)->0;
            let wv = c.workspaces;
            let reg = c.registry;
            let w1 = wv.update(si, without_window(wv[si], id));
            let reg2 = reg.remove(ri);
            let c2 = StateView { registry: reg2, workspaces: w1, ..c };
            assert forall|x: WindowId| #[trigger] registry_get(reg2, x) == (if x == id {
                None
            } else {
                registry_get(reg, x)
            }) by {
                lemma_registry_remove(reg, ri, x);
            }
            assert forall|k: int| 0 <= k < w1.len() implies #[trigger] w1[k].id == wv[k].id by {}
            assert(ids_distinct(w1)) by {
                assert forall|a: int, b: int| 0 <= a < b < w1.len() implies w1[a].id != w1[b].id by {
                    assert(w1[a].id == wv[a].id);
                    assert(w1[b].id == wv[b].id);
                }
            }
            assert forall|k: int| 0 <= k < w1.len() implies #[trigger] ws_lookup(w1, w1[k].id) == Some(w1[k]) by {
                lemma_lookup_at(w1, k);
            }
            assert forall|j: int| 0 <= j < reg2.len() implies lists(w1, #[trigger] reg2[j].workspace, reg2[j].id) by {
                let j0 = if j < ri { j } else { j + 1 };
                let r = reg[j0];
                assert(reg2[j] == r);
                assert(r.id != id);
                assert(lists(wv, r.workspace, r.id));
                lemma_ws_index(wv, r.workspace);
                let k = ws_index(wv, r.workspace)->0;
                assert(ws_lookup(w1, w1[k].id) == Some(w1[k]));
                if k == si {
                    lemma_all_but_contains(wv[si].windows, id, r.id);
                }
                assert(w1[k].windows.contains(r.id));
            }
            assert forall|k: int, x: WindowId|
                0 <= k < w1.len() && #[trigger] w1[k].windows.contains(x) implies claims(reg2, x, w1[k].id) by {
                if k == si {
                    lemma_all_but_contains(wv[si].windows, id, x);
                    assert(claims(reg, x, wv[si].id));
                } else {
                    assert(w1[k] == wv[k]);
                    assert(claims(reg, x, wv[k].id));
                    if x == id {
                        assert(wv[k].id == ws);
                    }
                }
            }
            assert forall|k: int| 0 <= k < w1.len() implies no_dup(#[trigger] w1[k].windows) by {
                assert(no_dup(wv[k].windows));
                if k == si {
                    lemma_all_but_no_dup(wv[si].windows, id);
                } else {
                    assert(w1[k] == wv[k]);
                }
            }
            assert(consistent(c2));
            let next = match ws_lookup(w1, ws) {
                Some(w) => pick_focus(w),
                None => None,
            };
            match next {
                Some(n) => {
                    if registry_get(c2.registry, n) is Some {
                        let f = view_focus(c2, n);
                        lemma_focus_ws_same(c2.workspaces, c2.registry, n);
                        lemma_consistent_same_members(c2, f);
                        lemma_consistent_same_members(f, crate::shell::view_center_pointer(f, n));
                    }
                },
                None => {
                    lemma_consistent_same_members(c2, StateView { focus: None, ..c2 });
                },
            }
        },
    }
}


/// Two registries that hold the same windows on the same workspaces,
/// position by position (layout and placement aside).
pub open spec fn same_claims(a: Seq<ManagedWindow>, b: Seq<ManagedWindow>) -> bool {
    a.len() == b.len() && forall|i: int|
        #![trigger a[i]]
        #![trigger b[i]]
        0 <= i < a.len() ==> a[i].id == b[i].id && a[i].workspace == b[i].workspace
}

/// Registries with the same claims find each window on the same workspace.
pub proof fn lemma_same_claims_get(a: Seq<ManagedWindow>, b: Seq<ManagedWindow>, x: WindowId)
    requires
        same_claims(a, b),
    ensures
        registry_get(a, x) is Some <==> registry_get(b, x) is Some,
        registry_get(a, x) matches Some(m) ==> m.workspace == registry_get(b, x)->0.workspace,
    decreases a.len(),
{
    if a.len() > 0 {
        assert(a[0].id == b[0].id);
        assert(same_claims(a.drop_first(), b.drop_first())) by {
            assert forall|i: int| 0 <= i < a.drop_first().len() implies a.drop_first()[i].id
                == b.drop_first()[i].id && a.drop_first()[i].workspace == b.drop_first()[i].workspace by {
                assert(a.drop_first()[i] == a[i + 1]);
                assert(b.drop_first()[i] == b[i + 1]);
            }
        }
        lemma_same_claims_get(a.drop_first(), b.drop_first(), x);
    }
}

/// Consistency holds of a state whose registry and workspaces hold the
/// same windows where those of a consistent state do.
pub proof fn lemma_consistent_same_claims(c: StateView, d: StateView)
    requires
        consistent(c),
        same_members(c.workspaces, d.workspaces),
        same_claims(c.registry, d.registry),
    ensures
        consistent(d),
{
    assert forall|i: int| 0 <= i < d.registry.len() implies lists(
        d.workspaces,
        #[trigger] d.registry[i].workspace,
        d.registry[i].id,
    ) by {
        assert(c.registry[i].id == d.registry[i].id && c.registry[i].workspace == d.registry[i].workspace);
        assert(lists(c.workspaces, c.registry[i].workspace, c.registry[i].id));
        lemma_same_members_lookup(c.workspaces, d.workspaces, d.registry[i].workspace);
    }
    assert forall|k: int, x: WindowId|
        0 <= k < d.workspaces.len() && #[trigger] d.workspaces[k].windows.contains(x) implies claims(
        d.registry,
        x,
        d.workspaces[k].id,
    ) by {
        assert(c.workspaces[k].id == d.workspaces[k].id && c.workspaces[k].windows == d.workspaces[k].windows);
        assert(c.workspaces[k].windows.contains(x));
        assert(claims(c.registry, x, c.workspaces[k].id));
        lemma_same_claims_get(c.registry, d.registry, x);
    }
    assert forall|k: int| 0 <= k < d.workspaces.len() implies no_dup(#[trigger] d.workspaces[k].windows) by {
        assert(c.workspaces[k].id == d.workspaces[k].id && c.workspaces[k].windows == d.workspaces[k].windows);
        assert(no_dup(c.workspaces[k].windows));
    }
}

/// Giving a window a new layout keeps every claim.
pub proof fn lemma_set_layout_same(reg: Seq<ManagedWindow>, id: WindowId, l: crate::window::WindowLayout)
    ensures
        same_claims(reg, crate::fullscreen::set_layout_in(reg, id, l)),
{
    lemma_registry_index(reg, id);
}

/// Recording a window covering a workspace keeps which windows each holds.
pub proof fn lemma_set_fullscreen_same(wv: Seq<WorkspaceView>, ws: WorkspaceId, f: Option<WindowId>)
    ensures
        same_members(wv, crate::fullscreen::set_fullscreen_in(wv, ws, f)),
{
    lemma_ws_index(wv, ws);
}

/// Setting a workspace's next split keeps which windows each holds.
pub proof fn lemma_set_split_same(wv: Seq<WorkspaceView>, ws: WorkspaceId, d: crate::workspace::SplitDirection)
    ensures
        same_members(wv, crate::shell::set_split_in(wv, ws, d)),
{
    lemma_ws_index(wv, ws);
}

/// Law: putting a window into fullscreen or taking it out keeps the
/// registry and the workspaces in agreement.
pub proof fn law_fullscreen_keeps_consistent(
    c: StateView,
    id: WindowId,
    enable: bool,
    mode: crate::window::FullscreenMode,
    physical: Option<crate::geometry::Rectangle>,
)
    requires
        consistent(c),
    ensures
        consistent(crate::fullscreen::view_set_fullscreen(c, id, enable, mode, physical).0),
{
    let d = crate::fullscreen::view_set_fullscreen(c, id, enable, mode, physical).0;
    match registry_get(c.registry, id) {
        None => {},
        Some(mw) => {
            let ws = mw.workspace;
            let area = if mode == crate::window::FullscreenMode::Container {
                crate::fullscreen::ws_region(c, ws)
            } else {
                None
            };
            let l1 = crate::fullscreen::toggled_layout(mw.layout, enable, mode, area);
            lemma_set_layout_same(c.registry, id, l1);
            lemma_set_fullscreen_same(c.workspaces, ws, Some(id));
            lemma_set_fullscreen_same(c.workspaces, ws, None);
            lemma_same_members_refl(c.workspaces);
            match ws_region(c, ws) {
                Some(r) => lemma_set_layout_same(c.registry, id, crate::fullscreen::with_fullscreen_area(l1, r)),
                None => {},
            }
            match physical {
                Some(g) => lemma_set_layout_same(c.registry, id, crate::fullscreen::with_fullscreen_area(l1, g)),
                None => {},
            }
            lemma_consistent_same_claims(c, d);
        },
    }
}

/// Law: toggling whether a window floats keeps the registry and the
/// workspaces in agreement.
pub proof fn law_floating_keeps_consistent(c: StateView)
    requires
        consistent(c),
    ensures
        consistent(crate::fullscreen::view_toggle_floating(c).0),
{
    let d = crate::fullscreen::view_toggle_floating(c).0;
    lemma_same_members_refl(c.workspaces);
    match crate::fullscreen::floating_target(c.workspaces, c.outputs) {
        Some(id) => match registry_get(c.registry, id) {
            Some(mw) => {
                match mw.layout {
                    crate::window::WindowLayout::Tiled { geometry, .. } => lemma_set_layout_same(
                        c.registry,
                        id,
                        crate::window::WindowLayout::Floating { geometry },
                    ),
                    crate::window::WindowLayout::Floating { geometry } => lemma_set_layout_same(
                        c.registry,
                        id,
                        crate::window::WindowLayout::Tiled {
                            container: crate::window::ContainerId { id: c.containers },
                            geometry,
                        },
                    ),
                    _ => {},
                }
                lemma_consistent_same_claims(c, d);
            },
            None => {},
        },
        None => {},
    }
}

/// Law: asking the focused window to close (focus moving on) keeps the
/// registry and the workspaces in agreement.
pub proof fn law_close_keeps_consistent(c: StateView)
    requires
        consistent(c),
    ensures
        consistent(crate::xdg::view_close_focused(c).0),
{
    let d = crate::xdg::view_close_focused(c).0;
    match c.focus {
        Some(f) => match registry_get(c.registry, f) {
            Some(mw) => {
                let next = match ws_lookup(c.workspaces, mw.workspace) {
                    Some(w) => crate::xdg::first_other(w.windows, f),
                    None => None,
                };
                match next {
                    Some(n) => {
                        lemma_focus_ws_same(c.workspaces, c.registry, n);
                        lemma_consistent_same_members(c, view_focus(c, n));
                        lemma_consistent_same_members(view_focus(c, n), d);
                    },
                    None => {
                        lemma_consistent_same_members(c, d);
                    },
                }
            },
            None => {},
        },
        None => {},
    }
}

/// Law: setting how a workspace splits next, by key or by layout command,
/// keeps the registry and the workspaces in agreement.
pub proof fn law_split_keeps_consistent(c: StateView, d: crate::workspace::SplitDirection, l: crate::config::LayoutCommand)
    requires
        consistent(c),
    ensures
        consistent(crate::shell::view_set_split(c, d)),
        consistent(crate::shell::view_set_split_automatic(c)),
        consistent(crate::keybindings::view_layout_command(c, l).0),
{
    assert forall|ws: WorkspaceId, e: crate::workspace::SplitDirection| #![auto] consistent(
        StateView { workspaces: crate::shell::set_split_in(c.workspaces, ws, e), ..c },
    ) by {
        lemma_set_split_same(c.workspaces, ws, e);
        lemma_consistent_same_members(c, StateView { workspaces: crate::shell::set_split_in(c.workspaces, ws, e), ..c });
    }
}


/// No two workspaces are shown on the same virtual output.
pub open spec fn one_per_output(wv: Seq<WorkspaceView>) -> bool {
    forall|i: int, j: int|
        0 <= i < j < wv.len() && (#[trigger] wv[i]).location is Some ==> wv[i].location != (#[trigger] wv[j]).location
}

/// Two sequences of workspaces shown where they are, position by position.
pub open spec fn same_locations(a: Seq<WorkspaceView>, b: Seq<WorkspaceView>) -> bool {
    a.len() == b.len() && forall|i: int|
        #![trigger a[i]]
        #![trigger b[i]]
        0 <= i < a.len() ==> a[i].location == b[i].location
}

pub proof fn lemma_one_per_output_same(a: Seq<WorkspaceView>, b: Seq<WorkspaceView>)
    requires
        one_per_output(a),
        same_locations(a, b),
    ensures
        one_per_output(b),
{
    assert forall|i: int, j: int| 0 <= i < j < b.len() && (#[trigger] b[i]).location is Some implies b[i].location
        != (#[trigger] b[j]).location by {
        assert(a[i].location == b[i].location && a[j].location == b[j].location);
    }
}

/// Showing a workspace on an output hides the one shown there, so every
/// output still shows at most one.
pub proof fn lemma_shown_on_one(wv: Seq<WorkspaceView>, id: WorkspaceId, vo: usize)
    requires
        one_per_output(wv),
        ids_distinct(wv),
    ensures
        one_per_output(shown_on(wv, id, vo)),
{
    let s = shown_on(wv, id, vo);
    assert forall|i: int, j: int| 0 <= i < j < s.len() && (#[trigger] s[i]).location is Some implies s[i].location
        != (#[trigger] s[j]).location by {
        assert(wv[i].id != wv[j].id);
        if wv[i].location is Some {
            assert(wv[i].location != wv[j].location);
        }
    }
}

pub proof fn lemma_focus_ws_locations(wv: Seq<WorkspaceView>, reg: Seq<ManagedWindow>, id: WindowId)
    ensures
        same_locations(wv, focus_ws(wv, reg, id)),
{
    match registry_get(reg, id) {
        Some(w) => lemma_ws_index(wv, w.workspace),
        None => {},
    }
}

pub proof fn lemma_view_show_one(c: StateView, vo: usize, ws: WorkspaceId)
    requires
        one_per_output(c.workspaces),
        ids_distinct(c.workspaces),
    ensures
        one_per_output(view_show(c, vo, ws).workspaces),
        ids_distinct(view_show(c, vo, ws).workspaces),
{
    let s = shown_on(c.workspaces, ws, vo);
    lemma_shown_on_one(c.workspaces, ws, vo);
    lemma_shown_on_same(c.workspaces, ws, vo);
    if ws_lookup(c.workspaces, ws) is Some {
        match pick_focus(ws_lookup(c.workspaces, ws)->0) {
            Some(t) => {
                lemma_focus_ws_locations(s, c.registry, t);
                lemma_one_per_output_same(s, focus_ws(s, c.registry, t));
                lemma_focus_ws_same(s, c.registry, t);
                let f = focus_ws(s, c.registry, t);
                assert forall|i: int, j: int| 0 <= i < j < f.len() implies f[i].id != f[j].id by {
                    assert(s[i].id == f[i].id && s[j].id == f[j].id);
                }
            },
            None => {},
        }
    }
}

/// Law: switching an output's workspace leaves every output showing at most
/// one workspace.
pub proof fn law_switch_one_per_output(c: StateView, vo: usize, ws: WorkspaceId)
    requires
        one_per_output(c.workspaces),
        ids_distinct(c.workspaces),
    ensures
        one_per_output(view_switch(c, vo, ws).workspaces),
{
    match ws_lookup(c.workspaces, ws) {
        Some(w) => match w.association {
            Some(a) => if a != vo {
                let c1 = view_show(c, a, ws);
                lemma_view_show_one(c, a, ws);
                match crate::virtual_output::vo_lookup(c1.outputs, a) {
                    Some(o) => {
                        let c2 = StateView { pointer: crate::state::center_point(o.region), ..c1 };
                        let w2 = ws_lookup(c2.workspaces, ws)->0;
                        if w2.windows.len() > 0 {
                            lemma_focus_ws_locations(c2.workspaces, c2.registry, w2.windows[0]);
                            lemma_one_per_output_same(c2.workspaces, view_focus(c2, w2.windows[0]).workspaces);
                        }
                    },
                    None => {},
                }
            } else {
                lemma_view_show_one(c, vo, ws);
            },
            None => lemma_view_show_one(c, vo, ws),
        },
        None => lemma_view_show_one(c, vo, ws),
    }
}


/// Hiding a workspace leaves every output showing at most one.
pub proof fn lemma_hidden_one(wv: Seq<WorkspaceView>, id: WorkspaceId)
    requires
        one_per_output(wv),
        ids_distinct(wv),
    ensures
        one_per_output(crate::workspace::hidden(wv, id)),
        ids_distinct(crate::workspace::hidden(wv, id)),
{
    let h = crate::workspace::hidden(wv, id);
    assert forall|i: int, j: int| 0 <= i < j < h.len() && (#[trigger] h[i]).location is Some implies h[i].location
        != (#[trigger] h[j]).location by {
        assert(wv[i].location != wv[j].location);
    }
    assert forall|i: int, j: int| 0 <= i < j < h.len() implies h[i].id != h[j].id by {
        assert(wv[i].id != wv[j].id);
    }
}

/// Binding a workspace to an output changes no workspace's place.
pub proof fn lemma_associated_one(wv: Seq<WorkspaceView>, id: WorkspaceId, vo: usize)
    requires
        one_per_output(wv),
        ids_distinct(wv),
    ensures
        one_per_output(crate::workspace::associated(wv, id, vo)),
        ids_distinct(crate::workspace::associated(wv, id, vo)),
{
    let h = crate::workspace::associated(wv, id, vo);
    assert forall|i: int, j: int| 0 <= i < j < h.len() && (#[trigger] h[i]).location is Some implies h[i].location
        != (#[trigger] h[j]).location by {
        assert(wv[i].location != wv[j].location);
    }
    assert forall|i: int, j: int| 0 <= i < j < h.len() implies h[i].id != h[j].id by {
        assert(wv[i].id != wv[j].id);
    }
}

/// Law: moving the workspace under the pointer to a neighbouring output
/// leaves every output showing at most one workspace.
pub proof fn law_move_workspace_one_per_output(c: StateView, d: crate::config::Direction)
    requires
        one_per_output(c.workspaces),
        ids_distinct(c.workspaces),
    ensures
        one_per_output(crate::state::view_move_workspace(c, d).workspaces),
{
    let r = crate::state::view_move_workspace(c, d);
    if r != c {
        let cur = crate::virtual_output::vo_at(c.outputs, c.pointer)->0;
        let ws = crate::workspace::ws_on_output(c.workspaces, cur)->0;
        let co = crate::virtual_output::vo_lookup(c.outputs, cur)->0;
        let t = crate::state::nearest_output(c.outputs, cur, crate::geometry::rect_center(co.region), d)->0;
        let tid = t.0;
        let w1 = crate::workspace::hidden(c.workspaces, ws);
        lemma_hidden_one(c.workspaces, ws);
        let w2 = match crate::state::first_hidden(w1, ws, 0) {
            Some(rep) => if ws_lookup(w1, rep) is Some {
                shown_on(w1, rep, cur)
            } else {
                w1
            },
            None => w1,
        };
        match crate::state::first_hidden(w1, ws, 0) {
            Some(rep) => {
                lemma_shown_on_one(w1, rep, cur);
                lemma_shown_on_same(w1, rep, cur);
                let sh = shown_on(w1, rep, cur);
                assert forall|i: int, j: int| 0 <= i < j < sh.len() implies sh[i].id != sh[j].id by {
                    assert(w1[i].id == sh[i].id && w1[j].id == sh[j].id);
                }
            },
            None => {},
        }
        lemma_associated_one(w2, ws, tid);
        let w3 = crate::workspace::associated(w2, ws, tid);
        if ws_lookup(w3, ws) is Some {
            lemma_shown_on_one(w3, ws, tid);
            let w4 = shown_on(w3, ws, tid);
            let o3 = crate::virtual_output::with_active(
                match crate::state::first_hidden(w1, ws, 0) {
                    Some(rep) => crate::virtual_output::with_active(c.outputs, cur, rep.id as usize),
                    None => c.outputs,
                },
                tid,
                ws.id as usize,
            );
            let c4 = StateView { workspaces: w4, outputs: o3, ..c };
            let c5 = match crate::virtual_output::vo_lookup(o3, tid) {
                Some(to) => StateView { pointer: crate::state::center_point(to.region), ..c4 },
                None => c4,
            };
            match pick_focus(ws_lookup(w4, ws)->0) {
                Some(f) => {
                    lemma_focus_ws_locations(c5.workspaces, c5.registry, f);
                    lemma_one_per_output_same(c5.workspaces, view_focus(c5, f).workspaces);
                },
                None => {},
            }
        }
    }
}


/// Taking out a window that a list does not hold leaves the list as it is.
pub proof fn lemma_all_but_absent(s: Seq<WindowId>, id: WindowId)
    requires
        !s.contains(id),
    ensures
        all_but(s, id) == s,
    decreases s.len(),
{
    if s.len() > 0 {
        let d = s.drop_last();
        assert(!d.contains(id)) by {
            if d.contains(id) {
                let j = choose|j: int| 0 <= j < d.len() && d[j] == id;
                assert(s[j] == id);
            }
        }
        lemma_all_but_absent(d, id);
        assert(s[s.len() - 1] != id);
        assert(d.push(s.last()) =~= s);
    }
}

/// Law: a window that was added and then destroyed leaves the registry as
/// it was, and every workspace with the windows it had (where the window
/// was new and the state consistent).
pub proof fn law_add_then_destroy(c: StateView, id: WindowId, size: crate::geometry::Size, vo: usize)
    requires
        consistent(c),
        distinct_ids(c),
        registry_get(c.registry, id) is None,
        view_add_window(c, id, size, vo).1 is Some,
    ensures
        view_toplevel_destroyed(view_add_window(c, id, size, vo).0, id).registry == c.registry,
        same_members(c.workspaces, view_toplevel_destroyed(view_add_window(c, id, size, vo).0, id).workspaces),
{
    let w0 = WorkspaceId { id: 0 };
    let c1 = match crate::workspace::ws_on_output(c.workspaces, vo) {
        Some(w) => c,
        None => {
            let wv = if crate::virtual_output::vo_lookup(c.outputs, vo) is Some && ws_lookup(c.workspaces, w0) is Some {
                shown_on(c.workspaces, w0, vo)
            } else {
                c.workspaces
            };
            StateView { workspaces: wv, outputs: crate::virtual_output::with_active(c.outputs, vo, 0), ..c }
        },
    };
    let ws = match crate::workspace::ws_on_output(c.workspaces, vo) {
        Some(w) => w,
        None => w0,
    };
    lemma_shown_on_same(c.workspaces, w0, vo);
    assert(same_members(c.workspaces, c1.workspaces));
    lemma_consistent_same_members(c, c1);
    lemma_ws_index(c1.workspaces, ws);
    let i = ws_index(c1.workspaces, ws)->0;
    let wv = c1.workspaces;
    let m = crate::xdg::new_managed_window(id, ws, size, c1.containers);
    let reg2 = c1.registry.push(m);
    let w2 = wv.update(i, with_window(wv[i], id));
    let a = view_add_window(c, id, size, vo).0;
    assert(a.registry == reg2 && a.workspaces == w2);
    // the new window was on no workspace
    assert(!wv[i].windows.contains(id)) by {
        if wv[i].windows.contains(id) {
            assert(claims(c1.registry, id, wv[i].id));
        }
    }
    // the destroyed window is the one added, at the end of the registry
    lemma_registry_index(c1.registry, id);
    assert forall|j: int| 0 <= j < reg2.len() - 1 implies reg2[j].id != id by {
        assert(reg2[j] == c1.registry[j]);
    }
    lemma_registry_index(reg2, id);
    assert(reg2[reg2.len() - 1] == m);
    assert(registry_index(reg2, id) == Some((reg2.len() - 1) as int));
    assert(registry_get(reg2, id) == Some(m));
    assert(reg2.remove(reg2.len() - 1) =~= c1.registry);
    // its workspace gets back the windows it had
    lemma_ws_lookup_update(wv, i, with_window(wv[i], id), ws);
    assert(ws_index(w2, ws) == Some(i));
    assert(w2[i] == with_window(wv[i], id));
    assert(w2[i].windows == wv[i].windows.push(id));
    let back = without_window(w2[i], id);
    assert(all_but(wv[i].windows.push(id), id) == all_but(wv[i].windows, id)) by {
        assert(wv[i].windows.push(id).drop_last() =~= wv[i].windows);
    }
    lemma_all_but_absent(wv[i].windows, id);
    assert(back.windows == wv[i].windows);
    let d = view_toplevel_destroyed(a, id);
    let w3 = w2.update(i, back);
    let next = match ws_lookup(w3, ws) {
        Some(w) => pick_focus(w),
        None => None,
    };
    let reg3 = reg2.remove(reg2.len() - 1);
    match next {
        Some(n) => lemma_focus_ws_same(w3, reg3, n),
        None => {},
    }
    lemma_same_members_refl(w3);
    assert(same_members(w3, d.workspaces));
    assert(same_members(wv, w3)) by {
        assert forall|k: int| 0 <= k < wv.len() implies wv[k].id == w3[k].id && wv[k].windows == w3[k].windows by {
            if k != i {
                assert(w3[k] == wv[k]);
            }
        }
    }
    lemma_same_members_trans(c.workspaces, wv, w3);
    lemma_same_members_trans(c.workspaces, w3, d.workspaces);
}

} // verus!

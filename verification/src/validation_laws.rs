//! What validation finds in a state whose registry and workspaces agree:
//! nothing.
use crate::consistency::{claims, consistent, distinct_ids, lists, no_dup};
use crate::state::StateView;
use crate::validation::{
    all_membership_errors, claim, duplicate_errors, homes, membership_errors, memberships, output_errors,
    registry_errors, state_errors, workspace_window_errors, ErrorView,
};
use crate::virtual_output::OutputView;
use crate::window::{lemma_registry_index, registry_get, registry_index, window_ids_distinct, ManagedWindow, WindowId};
use crate::workspace::{lemma_ws_index, ws_index, ws_lookup, WorkspaceId, WorkspaceView};
use vstd::prelude::*;

verus! {

/// The workspace that `claim` finds is that of some entry for the window,
/// and it finds none only where there is no entry.
pub proof fn lemma_claim_entry(reg: Seq<ManagedWindow>, x: WindowId)
    ensures
        claim(reg, x) matches Some(w) ==> exists|j: int| 0 <= j < reg.len() && reg[j].id == x && reg[j].workspace == w,
        claim(reg, x) is None ==> forall|j: int| 0 <= j < reg.len() ==> reg[j].id != x,
    decreases reg.len(),
{
    if reg.len() > 0 {
        lemma_claim_entry(reg.drop_last(), x);
        if reg.last().id == x {
            assert(reg[reg.len() - 1].id == x);
        } else {
            assert forall|j: int| 0 <= j < reg.drop_last().len() implies reg.drop_last()[j] == reg[j] by {}
            if claim(reg, x) is Some {
                let j = choose|j: int|
                    0 <= j < reg.drop_last().len() && reg.drop_last()[j].id == x && reg.drop_last()[j].workspace
                        == claim(reg, x)->0;
                assert(reg[j] == reg.drop_last()[j]);
            }
        }
    }
}

/// With distinct identities the claimed workspace is the registered one.
pub proof fn lemma_claim_is_registered(reg: Seq<ManagedWindow>, x: WindowId)
    requires
        window_ids_distinct(reg),
    ensures
        claim(reg, x) == (match registry_get(reg, x) {
            Some(m) => Some(m.workspace),
            None => None,
        }),
{
    lemma_claim_entry(reg, x);
    lemma_registry_index(reg, x);
    match claim(reg, x) {
        Some(w) => {
            let j = choose|j: int| 0 <= j < reg.len() && reg[j].id == x && reg[j].workspace == w;
            let i = registry_index(reg, x)->0;
            if i != j {
                if i < j {
                    assert(reg[i].id != reg[j].id);
                } else {
                    assert(reg[j].id != reg[i].id);
                }
            }
        },
        None => {},
    }
}

/// The memberships from workspace `k` on are those of workspaces numbered
/// `k` to 9 that exist, each pair once.
pub proof fn lemma_memberships(wm: Seq<WorkspaceView>, k: nat)
    ensures
        forall|j: int|
            0 <= j < memberships(wm, k).len() ==> k <= (#[trigger] memberships(wm, k)[j]).0.id < 10 && lists(
                wm,
                memberships(wm, k)[j].0,
                memberships(wm, k)[j].1,
            ),
        forall|ws: WorkspaceId, win: WindowId|
            k <= ws.id < 10 && #[trigger] lists(wm, ws, win) ==> exists|j: int|
                0 <= j < memberships(wm, k).len() && memberships(wm, k)[j] == (ws, win),
    decreases 10 - k,
{
    if k < 10 {
        lemma_memberships(wm, k + 1);
        let kid = WorkspaceId { id: k as u8 };
        let here = match ws_lookup(wm, kid) {
            Some(w) => w.windows.map_values(|win: WindowId| (kid, win)),
            None => Seq::<(WorkspaceId, WindowId)>::empty(),
        };
        let rest = memberships(wm, k + 1);
        let ms = memberships(wm, k);
        assert(ms == here + rest);
        assert forall|j: int| 0 <= j < ms.len() implies k <= (#[trigger] ms[j]).0.id < 10 && lists(
            wm,
            ms[j].0,
            ms[j].1,
        ) by {
            if j < here.len() {
                let w = ws_lookup(wm, kid)->0;
                assert(ms[j] == here[j]);
                assert(here[j] == (kid, w.windows[j]));
                assert(w.windows.contains(w.windows[j]));
            } else {
                assert(ms[j] == rest[j - here.len()]);
            }
        }
        assert forall|ws: WorkspaceId, win: WindowId| k <= ws.id < 10 && #[trigger] lists(wm, ws, win) implies exists|
            j: int,
        | 0 <= j < ms.len() && ms[j] == (ws, win) by {
            if ws.id == k {
                assert(ws == kid);
                let w = ws_lookup(wm, kid)->0;
                let p = choose|p: int| 0 <= p < w.windows.len() && w.windows[p] == win;
                assert(ms[p] == here[p]);
            } else {
                let q = choose|q: int| 0 <= q < rest.len() && rest[q] == (ws, win);
                assert(ms[here.len() + q] == rest[q]);
            }
        }
    }
}

/// No two memberships share a window, in a consistent state.
pub proof fn lemma_memberships_distinct(c: StateView, k: nat)
    requires
        consistent(c),
        distinct_ids(c),
    ensures
        forall|a: int, b: int|
            0 <= a < b < memberships(c.workspaces, k).len() ==> (#[trigger] memberships(c.workspaces, k)[a]).1
                != (#[trigger] memberships(c.workspaces, k)[b]).1,
    decreases 10 - k,
{
    let wm = c.workspaces;
    if k < 10 {
        lemma_memberships_distinct(c, k + 1);
        lemma_memberships(wm, k + 1);
        let kid = WorkspaceId { id: k as u8 };
        let here = match ws_lookup(wm, kid) {
            Some(w) => w.windows.map_values(|win: WindowId| (kid, win)),
            None => Seq::<(WorkspaceId, WindowId)>::empty(),
        };
        let rest = memberships(wm, k + 1);
        let ms = memberships(wm, k);
        assert(ms == here + rest);
        lemma_ws_index(wm, kid);
        assert forall|a: int, b: int| 0 <= a < b < ms.len() implies (#[trigger] ms[a]).1 != (#[trigger] ms[b]).1 by {
            if b < here.len() {
                let w = ws_lookup(wm, kid)->0;
                let i = ws_index(wm, kid)->0;
                assert(wm[i] == w);
                assert(no_dup(wm[i].windows));
                assert(ms[a] == here[a] && ms[b] == here[b]);
            } else if a < here.len() {
                let w = ws_lookup(wm, kid)->0;
                let i = ws_index(wm, kid)->0;
                assert(ms[a] == here[a]);
                assert(ms[b] == rest[b - here.len()]);
                let win = w.windows[a];
                if rest[b - here.len()].1 == win {
                    let other = rest[b - here.len()].0;
                    assert(lists(wm, other, win));
                    assert(wm[i].windows.contains(win));
                    assert(claims(c.registry, win, wm[i].id));
                    let oi = ws_index(wm, other)->0;
                    lemma_ws_index(wm, other);
                    assert(wm[oi].windows.contains(win));
                    assert(claims(c.registry, win, wm[oi].id));
                    assert(other.id > k);
                }
            } else {
                assert(ms[a] == rest[a - here.len()]);
                assert(ms[b] == rest[b - here.len()]);
            }
        }
    }
}

/// Where no two memberships share a window, each window has at most one
/// home.
pub proof fn lemma_homes_at_most_one(ms: Seq<(WorkspaceId, WindowId)>, win: WindowId)
    requires
        forall|a: int, b: int| 0 <= a < b < ms.len() ==> (#[trigger] ms[a]).1 != (#[trigger] ms[b]).1,
    ensures
        homes(ms, win).len() <= 1,
        homes(ms, win).len() == 1 ==> exists|j: int| 0 <= j < ms.len() && ms[j].1 == win,
    decreases ms.len(),
{
    if ms.len() > 0 {
        let d = ms.drop_last();
        assert forall|a: int, b: int| 0 <= a < b < d.len() implies (#[trigger] d[a]).1 != (#[trigger] d[b]).1 by {
            assert(d[a] == ms[a] && d[b] == ms[b]);
        }
        lemma_homes_at_most_one(d, win);
        if ms.last().1 == win && homes(d, win).len() == 1 {
            let j = choose|j: int| 0 <= j < d.len() && d[j].1 == win;
            assert(ms[j] == d[j]);
            assert(ms[j].1 != ms[ms.len() - 1].1);
        }
        if homes(ms, win).len() == 1 {
            if ms.last().1 == win {
                assert(ms[ms.len() - 1].1 == win);
            } else {
                let j = choose|j: int| 0 <= j < d.len() && d[j].1 == win;
                assert(ms[j] == d[j]);
            }
        }
    }
}

/// Without windows with several homes, the check for them finds nothing.
pub proof fn lemma_no_duplicate_errors(ms: Seq<(WorkspaceId, WindowId)>, i: int)
    requires
        forall|win: WindowId| #[trigger] homes(ms, win).len() <= 1,
    ensures
        duplicate_errors(ms, i).len() == 0,
    decreases i,
{
    if 0 < i <= ms.len() {
        lemma_no_duplicate_errors(ms, i - 1);
        assert(homes(ms, ms[i - 1].1).len() <= 1);
    }
}

/// Memberships that the registry claims as they are find no errors.
pub proof fn lemma_no_membership_errors(reg: Seq<ManagedWindow>, ms: Seq<(WorkspaceId, WindowId)>)
    requires
        forall|j: int| 0 <= j < ms.len() ==> claim(reg, (#[trigger] ms[j]).1) == Some(ms[j].0),
    ensures
        all_membership_errors(reg, ms).len() == 0,
    decreases ms.len(),
{
    if ms.len() > 0 {
        let d = ms.drop_last();
        assert forall|j: int| 0 <= j < d.len() implies claim(reg, (#[trigger] d[j]).1) == Some(d[j].0) by {
            assert(d[j] == ms[j]);
        }
        lemma_no_membership_errors(reg, d);
        assert(claim(reg, ms[ms.len() - 1].1) == Some(ms[ms.len() - 1].0));
        assert(membership_errors(reg, ms.last()).len() == 0);
    }
}

/// Registry entries that are members of workspaces that exist find no
/// errors.
pub proof fn lemma_no_registry_errors(wm: Seq<WorkspaceView>, ms: Seq<(WorkspaceId, WindowId)>, ws: Seq<ManagedWindow>)
    requires
        forall|i: int|
            0 <= i < ws.len() ==> (exists|j: int| 0 <= j < ms.len() && ms[j].1 == (#[trigger] ws[i]).id) && ws_lookup(
                wm,
                ws[i].workspace,
            ) is Some,
    ensures
        registry_errors(wm, ms, ws).len() == 0,
    decreases ws.len(),
{
    if ws.len() > 0 {
        let d = ws.drop_last();
        assert forall|i: int|
            0 <= i < d.len() implies (exists|j: int| 0 <= j < ms.len() && ms[j].1 == (#[trigger] d[i]).id)
                && ws_lookup(wm, d[i].workspace) is Some by {
            assert(d[i] == ws[i]);
        }
        lemma_no_registry_errors(wm, ms, d);
        let w = ws[ws.len() - 1];
        assert(exists|j: int| 0 <= j < ms.len() && ms[j].1 == w.id);
    }
}

/// Whether output `o` shows no workspace, or one that exists.
pub open spec fn shows_existing(wm: Seq<WorkspaceView>, o: OutputView) -> bool {
    match o.active_workspace {
        Some(a) => ws_lookup(wm, WorkspaceId { id: a as u8 }) is Some,
        None => true,
    }
}

/// Outputs that show workspaces that exist find no errors.
pub proof fn lemma_no_output_errors(wm: Seq<WorkspaceView>, outs: Seq<OutputView>)
    requires
        forall|i: int| 0 <= i < outs.len() ==> shows_existing(wm, #[trigger] outs[i]),
    ensures
        output_errors(wm, outs).len() == 0,
    decreases outs.len(),
{
    if outs.len() > 0 {
        let d = outs.drop_last();
        assert forall|i: int| 0 <= i < d.len() implies shows_existing(wm, #[trigger] d[i]) by {
            assert(d[i] == outs[i]);
        }
        lemma_no_output_errors(wm, d);
        assert(outs[outs.len() - 1] == outs.last());
    }
}

/// Law: validation finds nothing wrong in a state whose registry and
/// workspaces agree (with distinct identities, workspaces numbered 0 to 9)
/// and whose outputs show workspaces that exist.
pub proof fn law_consistent_state_validates(c: StateView)
    requires
        consistent(c),
        distinct_ids(c),
        forall|k: int| 0 <= k < c.workspaces.len() ==> (#[trigger] c.workspaces[k]).id.id < 10,
        forall|i: int| 0 <= i < c.outputs.len() ==> shows_existing(c.workspaces, #[trigger] c.outputs[i]),
    ensures
        workspace_window_errors(c.workspaces, c.registry).len() == 0,
        state_errors(c).len() == 0,
{
    let wm = c.workspaces;
    let reg = c.registry;
    let ms = memberships(wm, 0);
    lemma_memberships(wm, 0);
    lemma_memberships_distinct(c, 0);
    // every membership is claimed as it is
    assert forall|j: int| 0 <= j < ms.len() implies claim(reg, (#[trigger] ms[j]).1) == Some(ms[j].0) by {
        let (ws, win) = ms[j];
        assert(lists(wm, ws, win));
        lemma_ws_index(wm, ws);
        let i = ws_index(wm, ws)->0;
        assert(wm[i].windows.contains(win));
        assert(claims(reg, win, wm[i].id));
        lemma_claim_is_registered(reg, win);
    }
    lemma_no_membership_errors(reg, ms);
    assert forall|win: WindowId| #[trigger] homes(ms, win).len() <= 1 by {
        lemma_homes_at_most_one(ms, win);
    }
    lemma_no_duplicate_errors(ms, ms.len() as int);
    // every registry entry is a member of the workspace it names
    assert forall|i: int|
        0 <= i < reg.len() implies (exists|j: int| 0 <= j < ms.len() && ms[j].1 == (#[trigger] reg[i]).id)
            && ws_lookup(wm, reg[i].workspace) is Some by {
        let w = reg[i];
        assert(lists(wm, w.workspace, w.id));
        lemma_ws_index(wm, w.workspace);
        let k = ws_index(wm, w.workspace)->0;
        assert(wm[k].id.id < 10);
        let j = choose|j: int| 0 <= j < ms.len() && ms[j] == (w.workspace, w.id);
        assert(ms[j].1 == w.id);
    }
    lemma_no_registry_errors(wm, ms, reg);
    lemma_no_output_errors(wm, c.outputs);
}

} // verus!

//! State validation: checks that windows, workspaces and virtual outputs
//! refer to each other consistently.
//!
//! - Windows reference valid workspaces
//! - Workspaces contain only windows that reference them back
//! - Virtual outputs show valid workspaces
//! - No orphaned references exist
//!
//! The lookups by window go through the registry's sequence and the
//! workspaces' window lists rather than hash maps and sets keyed by
//! `WindowId`: the key is a struct of this library whose `Hash` and `Eq`
//! are derived, and Verus reads neither, so nothing could be proved of what
//! such a map holds.
use crate::virtual_output::{output_view, outputs_view, OutputView, VirtualOutput, VirtualOutputManager};
use crate::window::{ManagedWindow, WindowId};
use crate::workspace::{workspaces_view, ws_lookup, WorkspaceId, WorkspaceManager, WorkspaceView};
use crate::state::{StateView, StilchState};
use vstd::prelude::*;

verus! {

/// Errors that can occur during state validation
#[derive(Debug, Clone)]
pub enum ValidationError<L = Vec<WorkspaceId>> {
    /// Window references a workspace that doesn't exist
    WindowReferencesInvalidWorkspace { window: WindowId, workspace: WorkspaceId },
    /// Workspace contains a window that doesn't reference it back
    WorkspaceContainsOrphanWindow { workspace: WorkspaceId, window: WindowId },
    /// Window exists in workspace but not in registry
    WindowInWorkspaceButNotInRegistry { workspace: WorkspaceId, window: WindowId },
    /// Window exists in registry but not in any workspace
    WindowInRegistryButNotInWorkspace { window: WindowId, claimed_workspace: WorkspaceId },
    /// Virtual output shows a non-existent workspace
    VirtualOutputShowsInvalidWorkspace { output: usize, workspace: WorkspaceId },
    /// Multiple workspaces claim the same window
    WindowInMultipleWorkspaces { window: WindowId, workspaces: L },
}

pub type ErrorView = ValidationError<Seq<WorkspaceId>>;

impl View for ValidationError {
    type V = ErrorView;

    open spec fn view(&self) -> ErrorView {
        match self {
            ValidationError::WindowReferencesInvalidWorkspace { window, workspace } =>
                ValidationError::WindowReferencesInvalidWorkspace { window: *window, workspace: *workspace },
            ValidationError::WorkspaceContainsOrphanWindow { workspace, window } =>
                ValidationError::WorkspaceContainsOrphanWindow { workspace: *workspace, window: *window },
            ValidationError::WindowInWorkspaceButNotInRegistry { workspace, window } =>
                ValidationError::WindowInWorkspaceButNotInRegistry { workspace: *workspace, window: *window },
            ValidationError::WindowInRegistryButNotInWorkspace { window, claimed_workspace } =>
                ValidationError::WindowInRegistryButNotInWorkspace {
                    window: *window,
                    claimed_workspace: *claimed_workspace,
                },
            ValidationError::VirtualOutputShowsInvalidWorkspace { output, workspace } =>
                ValidationError::VirtualOutputShowsInvalidWorkspace { output: *output, workspace: *workspace },
            ValidationError::WindowInMultipleWorkspaces { window, workspaces } =>
                ValidationError::WindowInMultipleWorkspaces { window: *window, workspaces: workspaces@ },
        }
    }
}

pub open spec fn errors_view(v: Seq<ValidationError>) -> Seq<ErrorView> {
    v.map_values(|e: ValidationError| e@)
}

/// The result that a list of found errors gives.
pub open spec fn result_of(errors: Seq<ErrorView>, r: Result<(), Vec<ValidationError>>) -> bool {
    match r {
        Ok(()) => errors.len() == 0,
        Err(v) => errors.len() > 0 && errors_view(v@) == errors,
    }
}

/// The workspace that the registry claims for `id`: that of its last entry
/// (the registry read into a map, where later entries win).
pub open spec fn claim(windows: Seq<ManagedWindow>, id: WindowId) -> Option<WorkspaceId>
    decreases windows.len(),
{
    if windows.len() == 0 {
        None
    } else if windows.last().id == id {
        Some(windows.last().workspace)
    } else {
        claim(windows.drop_last(), id)
    }
}

/// The (workspace, window) memberships of workspaces `k..10`, workspace by
/// workspace and window by window.
pub open spec fn memberships(wm: Seq<WorkspaceView>, k: nat) -> Seq<(WorkspaceId, WindowId)>
    decreases 10 - k,
{
    if k >= 10 {
        Seq::empty()
    } else {
        let here = match ws_lookup(wm, WorkspaceId { id: k as u8 }) {
            Some(w) => w.windows.map_values(|win: WindowId| (WorkspaceId { id: k as u8 }, win)),
            None => Seq::empty(),
        };
        here + memberships(wm, k + 1)
    }
}

/// The error (if any) that one membership shows.
pub open spec fn membership_errors(windows: Seq<ManagedWindow>, m: (WorkspaceId, WindowId)) -> Seq<
    ErrorView,
> {
    match claim(windows, m.1) {
        Some(c) => if c != m.0 {
            seq![ValidationError::WorkspaceContainsOrphanWindow { workspace: m.0, window: m.1 }]
        } else {
            Seq::empty()
        },
        None => seq![ValidationError::WindowInWorkspaceButNotInRegistry { workspace: m.0, window: m.1 }],
    }
}

pub open spec fn all_membership_errors(windows: Seq<ManagedWindow>, ms: Seq<(WorkspaceId, WindowId)>) -> Seq<ErrorView>
    decreases ms.len(),
{
    if ms.len() == 0 {
        Seq::empty()
    } else {
        all_membership_errors(windows, ms.drop_last()) + membership_errors(windows, ms.last())
    }
}

/// The workspaces in which `win` is a member, in order.
pub open spec fn homes(ms: Seq<(WorkspaceId, WindowId)>, win: WindowId) -> Seq<WorkspaceId>
    decreases ms.len(),
{
    if ms.len() == 0 {
        Seq::empty()
    } else {
        let rest = homes(ms.drop_last(), win);
        if ms.last().1 == win {
            rest.push(ms.last().0)
        } else {
            rest
        }
    }
}

/// For each window at its first membership in `ms.take(i)`, the error for
/// being a member of several workspaces.
pub open spec fn duplicate_errors(ms: Seq<(WorkspaceId, WindowId)>, i: int) -> Seq<ErrorView>
    decreases i,
{
    if i <= 0 || i > ms.len() {
        Seq::empty()
    } else {
        let win = ms[i - 1].1;
        let first = forall|j: int| 0 <= j < i - 1 ==> ms[j].1 != win;
        let e = if first && homes(ms, win).len() > 1 {
            seq![ValidationError::WindowInMultipleWorkspaces { window: win, workspaces: homes(ms, win) }]
        } else {
            Seq::empty()
        };
        duplicate_errors(ms, i - 1) + e
    }
}

pub open spec fn registry_errors(wm: Seq<WorkspaceView>, ms: Seq<(WorkspaceId, WindowId)>, ws: Seq<ManagedWindow>) -> Seq<ErrorView>
    decreases ws.len(),
{
    if ws.len() == 0 {
        Seq::empty()
    } else {
        let w = ws.last();
        let missing = !(exists|j: int| 0 <= j < ms.len() && ms[j].1 == w.id);
        let e1 = if missing {
            seq![ValidationError::WindowInRegistryButNotInWorkspace { window: w.id, claimed_workspace: w.workspace }]
        } else {
            Seq::empty()
        };
        let e2 = if ws_lookup(wm, w.workspace) is None {
            seq![ValidationError::WindowReferencesInvalidWorkspace { window: w.id, workspace: w.workspace }]
        } else {
            Seq::empty()
        };
        registry_errors(wm, ms, ws.drop_last()) + e1 + e2
    }
}

/// All inconsistencies between workspaces and the window registry, in the
/// order the check meets them.
pub open spec fn workspace_window_errors(wm: Seq<WorkspaceView>, windows: Seq<ManagedWindow>) -> Seq<ErrorView> {
    let ms = memberships(wm, 0);
    all_membership_errors(windows, ms) + duplicate_errors(ms, ms.len() as int) + registry_errors(wm, ms, windows)
}

fn claim_exec(windows: &[ManagedWindow], id: WindowId) -> (r: Option<WorkspaceId>)
    ensures
        r == claim(windows@, id),
{
    let mut k: usize = windows.len();
    assert(windows@.take(k as int) =~= windows@);
    while k > 0
        invariant
            k <= windows.len(),
            claim(windows@, id) == claim(windows@.take(k as int), id),
        decreases k,
    {
        assert(windows@.take(k as int).last() == windows@[k - 1]);
        if windows[k - 1].id == id {
            return Some(windows[k - 1].workspace);
        }
        assert(windows@.take(k as int).drop_last() =~= windows@.take(k - 1));
        k -= 1;
    }
    None
}

fn push_error(errors: &mut Vec<ValidationError>, e: ValidationError)
    ensures
        errors_view(final(errors)@) == errors_view(old(errors)@).push(e@),
{
    errors.push(e);
    assert(errors_view(errors@) =~= errors_view(old(errors)@).push(e@));
}

fn memberships_exec(wm: &WorkspaceManager) -> (r: Vec<(WorkspaceId, WindowId)>)
    ensures
        r@ == memberships(workspaces_view(wm.workspaces@), 0),
{
    let ghost v = workspaces_view(wm.workspaces@);
    let mut r: Vec<(WorkspaceId, WindowId)> = Vec::new();
    let mut k: u8 = 0;
    while k < 10
        invariant
            k <= 10,
            v == workspaces_view(wm.workspaces@),
            memberships(v, 0) == r@ + memberships(v, k as nat),
        decreases 10 - k,
    {
        let ws_id = WorkspaceId::new(k);
        let ghost before = r@;
        match wm.get(ws_id) {
            Some(w) => {
                let mut j: usize = 0;
                while j < w.windows.len()
                    invariant
                        j <= w.windows.len(),
                        r@ == before + w.windows@.take(j as int).map_values(
                            |win: WindowId| (ws_id, win),
                        ),
                    decreases w.windows.len() - j,
                {
                    r.push((ws_id, w.windows[j]));
                    j += 1;
                    assert(r@ =~= before + w.windows@.take(j as int).map_values(
                        |win: WindowId| (ws_id, win),
                    ));
                }
                assert(w.windows@.take(j as int) =~= w.windows@);
            },
            None => {
                assert(r@ =~= before + Seq::<(WorkspaceId, WindowId)>::empty());
            },
        }
        assert(before + (r@.skip(before.len() as int) + memberships(v, (k + 1) as nat)) =~= r@
            + memberships(v, (k + 1) as nat));
        assert(r@.skip(before.len() as int) =~= r@.subrange(before.len() as int, r@.len() as int));
        k += 1;
    }
    r
}

fn contains_window(ms: &Vec<(WorkspaceId, WindowId)>, upto: usize, win: WindowId) -> (b: bool)
    requires
        upto <= ms.len(),
    ensures
        b == (exists|j: int| 0 <= j < upto && ms@[j].1 == win),
{
    let mut j: usize = 0;
    while j < upto
        invariant
            j <= upto <= ms.len(),
            forall|q: int| 0 <= q < j ==> ms@[q].1 != win,
        decreases upto - j,
    {
        if ms[j].1 == win {
            return true;
        }
        j += 1;
    }
    false
}

fn homes_exec(ms: &Vec<(WorkspaceId, WindowId)>, win: WindowId) -> (r: Vec<WorkspaceId>)
    ensures
        r@ == homes(ms@, win),
{
    let mut r: Vec<WorkspaceId> = Vec::new();
    let mut j: usize = 0;
    while j < ms.len()
        invariant
            j <= ms.len(),
            r@ == homes(ms@.take(j as int), win),
        decreases ms.len() - j,
    {
        assert(ms@.take(j + 1).drop_last() =~= ms@.take(j as int));
        assert(ms@.take(j + 1).last() == ms@[j as int]);
        if ms[j].1 == win {
            r.push(ms[j].0);
        }
        j += 1;
    }
    assert(ms@.take(j as int) =~= ms@);
    r
}

/// Appends the errors of each membership whose window the registry does not
/// claim for that workspace.
fn check_memberships(
    windows: &[ManagedWindow],
    ms: &Vec<(WorkspaceId, WindowId)>,
    errors: &mut Vec<ValidationError>,
)
    ensures
        errors_view(final(errors)@) == errors_view(old(errors)@) + all_membership_errors(windows@, ms@),
{
    let ghost e0 = errors_view(errors@);
    let mut i: usize = 0;
    assert(e0 =~= e0 + all_membership_errors(windows@, ms@.take(0)));
    while i < ms.len()
        invariant
            i <= ms.len(),
            errors_view(errors@) == e0 + all_membership_errors(windows@, ms@.take(i as int)),
        decreases ms.len() - i,
    {
        let (ws_id, win) = ms[i];
        assert(ms@.take(i + 1).drop_last() =~= ms@.take(i as int));
        assert(ms@.take(i + 1).last() == ms@[i as int]);
        match claim_exec(windows, win) {
            Some(c) => {
                if c != ws_id {
                    push_error(
                        errors,
                        ValidationError::WorkspaceContainsOrphanWindow { workspace: ws_id, window: win },
                    );
                }
            },
            None => {
                push_error(
                    errors,
                    ValidationError::WindowInWorkspaceButNotInRegistry { workspace: ws_id, window: win },
                );
            },
        }
        assert(errors_view(errors@) =~= e0 + all_membership_errors(windows@, ms@.take(i + 1)));
        i += 1;
    }
    assert(ms@.take(ms.len() as int) =~= ms@);
}

/// Appends, for each window that is a member of several workspaces, one
/// error naming them all.
fn check_duplicates(ms: &Vec<(WorkspaceId, WindowId)>, errors: &mut Vec<ValidationError>)
    ensures
        errors_view(final(errors)@) == errors_view(old(errors)@) + duplicate_errors(ms@, ms@.len() as int),
{
    let ghost e0 = errors_view(errors@);
    let mut i: usize = 0;
    assert(e0 =~= e0 + duplicate_errors(ms@, 0));
    while i < ms.len()
        invariant
            i <= ms.len(),
            errors_view(errors@) == e0 + duplicate_errors(ms@, i as int),
        decreases ms.len() - i,
    {
        let win = ms[i].1;
        let seen = contains_window(ms, i, win);
        if !seen {
            let hs = homes_exec(ms, win);
            if hs.len() > 1 {
                push_error(errors, ValidationError::WindowInMultipleWorkspaces { window: win, workspaces: hs });
            }
        }
        assert(errors_view(errors@) =~= e0 + duplicate_errors(ms@, i + 1));
        i += 1;
    }
}

/// Appends the errors of registry windows that are in no workspace, or
/// name a workspace that does not exist.
fn check_registry(
    workspace_manager: &WorkspaceManager,
    ms: &Vec<(WorkspaceId, WindowId)>,
    windows: &[ManagedWindow],
    errors: &mut Vec<ValidationError>,
)
    ensures
        errors_view(final(errors)@) == errors_view(old(errors)@) + registry_errors(
            workspaces_view(workspace_manager.workspaces@),
            ms@,
            windows@,
        ),
{
    let ghost wv = workspaces_view(workspace_manager.workspaces@);
    let ghost e0 = errors_view(errors@);
    let mut i: usize = 0;
    assert(windows@.take(0) =~= Seq::<ManagedWindow>::empty());
    assert(e0 =~= e0 + registry_errors(wv, ms@, windows@.take(0)));
    while i < windows.len()
        invariant
            i <= windows.len(),
            errors_view(errors@) == e0 + registry_errors(wv, ms@, windows@.take(i as int)),
            wv == workspaces_view(workspace_manager.workspaces@),
        decreases windows.len() - i,
    {
        let w = windows[i];
        assert(windows@.take(i + 1).drop_last() =~= windows@.take(i as int));
        assert(windows@.take(i + 1).last() == w);
        if !contains_window(ms, ms.len(), w.id) {
            push_error(
                errors,
                ValidationError::WindowInRegistryButNotInWorkspace { window: w.id, claimed_workspace: w.workspace },
            );
        }
        if workspace_manager.get(w.workspace).is_none() {
            push_error(
                errors,
                ValidationError::WindowReferencesInvalidWorkspace { window: w.id, workspace: w.workspace },
            );
        }
        assert(errors_view(errors@) =~= e0 + registry_errors(wv, ms@, windows@.take(i + 1)));
        i += 1;
    }
    assert(windows@.take(windows.len() as int) =~= windows@);
}

/// Validate workspace-window bidirectional consistency
pub fn validate_workspace_window_consistency(
    workspace_manager: &WorkspaceManager,
    windows: &[ManagedWindow],
) -> (r: Result<(), Vec<ValidationError>>)
    ensures
        result_of(workspace_window_errors(workspaces_view(workspace_manager.workspaces@), windows@), r),
{
    let ms = memberships_exec(workspace_manager);
    let mut errors: Vec<ValidationError> = Vec::new();
    assert(errors_view(errors@) =~= Seq::<ErrorView>::empty());
    check_memberships(windows, &ms, &mut errors);
    check_duplicates(&ms, &mut errors);
    check_registry(workspace_manager, &ms, windows, &mut errors);
    assert(errors_view(errors@) =~= workspace_window_errors(
        workspaces_view(workspace_manager.workspaces@),
        windows@,
    ));
    if errors.len() == 0 {
        Ok(())
    } else {
        Err(errors)
    }
}

/// Types that can check their own consistency.
pub trait ValidateConsistency {
    /// Validate internal consistency, returning errors if any invariants are violated
    fn validate_consistency(&self) -> Result<(), Vec<ValidationError>>;
}

/// All inconsistencies of a state: those between workspaces and the
/// registry, then those of virtual outputs.
pub open spec fn state_errors(c: StateView) -> Seq<ErrorView> {
    workspace_window_errors(c.workspaces, c.registry) + output_errors(c.workspaces, c.outputs)
}

/// Full state validation combining all consistency checks
pub fn validate_full_state(state: &StilchState) -> (r: Result<(), Vec<ValidationError>>)
    ensures
        result_of(state_errors(state@), r),
{
    let mut all_errors: Vec<ValidationError> = Vec::new();
    let windows = state.window_registry().windows();
    match validate_workspace_window_consistency(&state.workspace_manager, windows.as_slice()) {
        Ok(()) => {},
        Err(errors) => {
            let mut errors = errors;
            append_errors(&mut all_errors, &mut errors);
        },
    }
    match validate_virtual_output_consistency(&state.virtual_output_manager, &state.workspace_manager) {
        Ok(()) => {},
        Err(errors) => {
            let mut errors = errors;
            append_errors(&mut all_errors, &mut errors);
        },
    }
    assert(errors_view(all_errors@) =~= state_errors(state@));
    if all_errors.len() == 0 {
        Ok(())
    } else {
        Err(all_errors)
    }
}

fn append_errors(all: &mut Vec<ValidationError>, more: &mut Vec<ValidationError>)
    ensures
        errors_view(final(all)@) == errors_view(old(all)@) + errors_view(old(more)@),
{
    let ghost m = old(more)@;
    all.append(more);
    assert(final(all)@ =~= old(all)@ + m);
    assert(errors_view(final(all)@) =~= errors_view(old(all)@) + errors_view(m));
}

/// The inconsistencies of virtual outputs: each that shows a workspace that
/// does not exist.
pub open spec fn output_errors(wm: Seq<WorkspaceView>, outs: Seq<OutputView>) -> Seq<ErrorView>
    decreases outs.len(),
{
    if outs.len() == 0 {
        Seq::empty()
    } else {
        let o = outs.last();
        let e = match o.active_workspace {
            Some(idx) => {
                let ws = WorkspaceId { id: idx as u8 };
                if ws_lookup(wm, ws) is None {
                    seq![ValidationError::VirtualOutputShowsInvalidWorkspace { output: o.id, workspace: ws }]
                } else {
                    Seq::empty()
                }
            },
            None => Seq::empty(),
        };
        output_errors(wm, outs.drop_last()) + e
    }
}

/// Validate virtual output consistency
pub fn validate_virtual_output_consistency(
    virtual_output_manager: &VirtualOutputManager,
    workspace_manager: &WorkspaceManager,
) -> (r: Result<(), Vec<ValidationError>>)
    ensures
        result_of(output_errors(workspace_manager.spec_view(), virtual_output_manager.spec_view()), r),
{
    let mut errors: Vec<ValidationError> = Vec::new();
    assert(errors_view(errors@) =~= Seq::<ErrorView>::empty());
    check_outputs(virtual_output_manager.outputs(), workspace_manager, &mut errors);
    if errors.len() == 0 {
        Ok(())
    } else {
        Err(errors)
    }
}

/// Appends the errors of outputs that show a workspace that does not exist.
fn check_outputs(
    outputs: &Vec<VirtualOutput>,
    workspace_manager: &WorkspaceManager,
    errors: &mut Vec<ValidationError>,
)
    ensures
        errors_view(final(errors)@) == errors_view(old(errors)@) + output_errors(
            workspace_manager.spec_view(),
            outputs_view(outputs@),
        ),
{
    let ghost wv = workspace_manager.spec_view();
    let ghost ov = outputs_view(outputs@);
    let ghost e0 = errors_view(errors@);
    let mut i: usize = 0;
    assert(ov.take(0) =~= Seq::<OutputView>::empty());
    assert(e0 =~= e0 + output_errors(wv, ov.take(0)));
    while i < outputs.len()
        invariant
            i <= outputs.len(),
            ov == outputs_view(outputs@),
            wv == workspace_manager.spec_view(),
            errors_view(errors@) == e0 + output_errors(wv, ov.take(i as int)),
        decreases outputs.len() - i,
    {
        let o = &outputs[i];
        assert(ov.take(i + 1).drop_last() =~= ov.take(i as int));
        assert(ov.take(i + 1).last() == output_view(*o));
        if let Some(idx) = o.active_workspace {
            let ws = WorkspaceId::new(idx as u8);
            if workspace_manager.get(ws).is_none() {
                push_error(errors, ValidationError::VirtualOutputShowsInvalidWorkspace { output: o.id, workspace: ws });
            }
        }
        assert(errors_view(errors@) =~= e0 + output_errors(wv, ov.take(i + 1)));
        i += 1;
    }
    assert(ov.take(outputs.len() as int) =~= ov);
}

} // verus!

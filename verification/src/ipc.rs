//! The messages that IPC clients receive, and the workspace state they
//! report.
use crate::event::StateUpdateEvent;
use crate::state::{StateView, StilchState};
use crate::virtual_output::vo_lookup;
use crate::workspace::{ws_lookup, WorkspaceId};
use vstd::prelude::*;

verus! {

/// A message to or from an IPC client.
#[derive(Debug, Clone)]
pub enum IpcMessage {
    WorkspaceUpdate { virtual_output: usize, workspaces: Vec<WorkspaceInfo> },
    Subscribe { events: Vec<String> },
}

/// What a client learns of one workspace.
#[derive(Debug, Clone, Copy, PartialEq, Eq, Structural)]
pub struct WorkspaceInfo {
    pub id: usize,
    pub active: bool,
    pub windows: usize,
    pub urgent: bool,
}

/// What clients learn of the workspaces numbered `k` to 9 that exist: each
/// by its number from 1, whether an output shows it as its active one, and
/// how many windows it holds (no window is ever reported urgent).
pub open spec fn infos_from(c: StateView, k: nat) -> Seq<WorkspaceInfo>
    decreases 10 - k,
{
    if k >= 10 {
        Seq::empty()
    } else {
        let rest = infos_from(c, k + 1);
        match ws_lookup(c.workspaces, WorkspaceId { id: k as u8 }) {
            Some(w) => {
                let active = match w.location {
                    Some(loc) => match vo_lookup(c.outputs, loc) {
                        Some(o) => o.active_workspace == Some(k as usize),
                        None => false,
                    },
                    None => false,
                };
                seq![WorkspaceInfo { id: (k + 1) as usize, active, windows: w.windows.len() as usize, urgent: false }] + rest
            },
            None => rest,
        }
    }
}

impl StilchState {
    /// What clients learn of the workspaces: the update to send, for the
    /// first virtual output, where there is one.
    pub fn update_ipc_workspace_state(&self) -> (r: Option<StateUpdateEvent>)
        ensures
            match r {
                Some(e) => self@.outputs.len() > 0 && e.virtual_output == self@.outputs[0].id
                    && e.workspaces@ == infos_from(self@, 0),
                None => self@.outputs.len() == 0,
            },
    {
        let mut workspaces: Vec<WorkspaceInfo> = Vec::new();
        let mut idx: usize = 0;
        assert(infos_from(self@, 0) =~= workspaces@ + infos_from(self@, 0));
        while idx < 10
            invariant
                idx <= 10,
                infos_from(self@, 0) == workspaces@ + infos_from(self@, idx as nat),
            decreases 10 - idx,
        {
            let workspace_id = WorkspaceId::new(idx as u8);
            let ghost before = workspaces@;
            if let Some(workspace) = self.workspace_manager.get_workspace(workspace_id) {
                let location = self.workspace_manager.workspace_location(workspace_id);
                let is_active = match location {
                    Some(loc) => match self.virtual_output_manager.get(loc) {
                        Some(vo) => vo.active_workspace() == Some(idx),
                        None => false,
                    },
                    None => false,
                };
                workspaces.push(
                    WorkspaceInfo {
                        id: idx + 1,
                        active: is_active,
                        windows: workspace.windows.len(),
                        urgent: false,
                    },
                );
                assert(workspaces@ + infos_from(self@, (idx + 1) as nat) =~= before + infos_from(
                    self@,
                    idx as nat,
                ));
            }
            idx += 1;
        }
        let outputs = self.virtual_output_manager.outputs();
        if outputs.len() > 0 {
            assert(self@.outputs[0] == crate::virtual_output::output_view(outputs@[0]));
            Some(StateUpdateEvent { virtual_output: outputs[0].id, workspaces })
        } else {
            None
        }
    }
}

} // verus!

//! Commands that change the window-management state and can be undone, and
//! an executor that keeps their history for undo and redo.
use crate::event::{
    now, unstamped, workspace_changed, workspace_switched, Event, WindowEvent, WorkspaceEvent,
};
use crate::geometry::Point;
use crate::state::{view_switch, StateView, StilchState};
use crate::text::{concat_str, decimal, decimal_chars, signed_decimal, signed_decimal_chars};
use crate::window::{registry_get, registry_index, ManagedWindow, WindowId};
use crate::workspace::{
    lemma_ws_index, with_window, without_window, ws_index, ws_lookup, ws_on_output, WorkspaceId,
};
use vstd::prelude::*;

verus! {

/// Error that can occur during command execution
#[derive(Debug, Clone)]
pub enum CommandError {
    /// Window not found
    WindowNotFound(WindowId),
    /// Workspace not found
    WorkspaceNotFound(WorkspaceId),
    /// Virtual output not found
    VirtualOutputNotFound(usize),
    /// Invalid operation
    InvalidOperation(String),
    /// Other error
    Other(String),
}

/// The text of an error.
pub open spec fn error_text(e: CommandError) -> Seq<char> {
    match e {
        CommandError::WindowNotFound(id) => "Window "@ + decimal_chars(id.id as nat) + " not found"@,
        CommandError::WorkspaceNotFound(id) => "Workspace "@ + decimal_chars(id.id as nat) + " not found"@,
        CommandError::VirtualOutputNotFound(id) => "Virtual output "@ + decimal_chars(id as nat)
            + " not found"@,
        CommandError::InvalidOperation(msg) => "Invalid operation: "@ + msg@,
        CommandError::Other(msg) => "Error: "@ + msg@,
    }
}

impl CommandError {
    /// The error as text.
    pub fn to_string(&self) -> (s: String)
        ensures
            s@ == error_text(*self),
    {
        match self {
            CommandError::WindowNotFound(id) => concat_str(
                concat_str("Window ".to_owned(), decimal(id.get() as u64).as_str()),
                " not found",
            ),
            CommandError::WorkspaceNotFound(id) => concat_str(
                concat_str("Workspace ".to_owned(), decimal(id.get() as u64).as_str()),
                " not found",
            ),
            CommandError::VirtualOutputNotFound(id) => concat_str(
                concat_str("Virtual output ".to_owned(), decimal(*id as u64).as_str()),
                " not found",
            ),
            CommandError::InvalidOperation(msg) => concat_str(
                "Invalid operation: ".to_owned(),
                msg.as_str(),
            ),
            CommandError::Other(msg) => concat_str("Error: ".to_owned(), msg.as_str()),
        }
    }
}

/// An `InvalidOperation` error whose message is `msg`.
pub open spec fn invalid_op(r: Result<(), CommandError>, msg: Seq<char>) -> bool {
    r matches Err(CommandError::InvalidOperation(m)) && m@ == msg
}

fn invalid_operation(msg: &str) -> (r: Result<(), CommandError>)
    ensures
        invalid_op(r, msg@),
{
    Err(CommandError::InvalidOperation(msg.to_owned()))
}

/// Move window command
#[derive(Debug)]
pub struct MoveWindowCommand {
    pub window_id: WindowId,
    pub target_position: Point,
    pub previous_position: Option<Point>,
}

/// The registry after window `id` was placed at `p`.
pub open spec fn moved_to(reg: Seq<ManagedWindow>, id: WindowId, p: Point) -> Seq<ManagedWindow> {
    match registry_index(reg, id) {
        Some(i) => reg.update(i, ManagedWindow { location: Some(p), ..reg[i] }),
        None => reg,
    }
}

impl MoveWindowCommand {
    pub fn new(window_id: WindowId, target_position: Point) -> (c: MoveWindowCommand)
        ensures
            c.window_id == window_id,
            c.target_position == target_position,
            c.previous_position is None,
    {
        MoveWindowCommand { window_id, target_position, previous_position: None }
    }

    /// What the command does, in words.
    pub fn description(&self) -> (s: String)
        ensures
            s@ == "Move window "@ + decimal_chars(self.window_id.id as nat) + " to Point { x: "@
                + signed_decimal_chars(self.target_position.x as int) + ", y: "@
                + signed_decimal_chars(self.target_position.y as int) + " }"@,
    {
        let s = concat_str("Move window ".to_owned(), decimal(self.window_id.get() as u64).as_str());
        let s = concat_str(s, " to Point { x: ");
        let s = concat_str(s, signed_decimal(self.target_position.x).as_str());
        let s = concat_str(s, ", y: ");
        let s = concat_str(s, signed_decimal(self.target_position.y).as_str());
        concat_str(s, " }")
    }

    /// Places the window at the target position, remembering where it was.
    pub fn execute(&mut self, state: &mut StilchState) -> (r: Result<(), CommandError>)
        requires
            old(state).wf(),
        ensures
            *final(self) == (MoveWindowCommand {
                previous_position: match registry_get(old(state)@.registry, old(self).window_id) {
                    Some(w) => w.location,
                    None => None,
                },
                ..*old(self)
            }),
            final(self).previous_position is None ==> r == Err::<(), CommandError>(
                CommandError::WindowNotFound(old(self).window_id),
            ) && final(state)@ == old(state)@,
            final(self).previous_position is Some ==> r == Ok::<(), CommandError>(()) && final(state)@ == (StateView {
                registry: moved_to(old(state)@.registry, old(self).window_id, old(self).target_position),
                ..old(state)@
            }),
            final(state).config == old(state).config,
            final(state).wf(),
    {
        proof {
            crate::window::lemma_registry_index(state@.registry, self.window_id);
        }
        self.previous_position = state.window_registry.window_position(self.window_id);
        if self.previous_position.is_none() {
            return Err(CommandError::WindowNotFound(self.window_id));
        }
        state.window_registry.move_window(self.window_id, self.target_position);
        Ok(())
    }

    /// Puts the window back where it was before `execute`.
    pub fn undo(&mut self, state: &mut StilchState) -> (r: Result<(), CommandError>)
        requires
            old(state).wf(),
        ensures
            *final(self) == *old(self),
            match old(self).previous_position {
                Some(p) => r is Ok && final(state)@ == (StateView {
                    registry: moved_to(old(state)@.registry, old(self).window_id, p),
                    ..old(state)@
                }),
                None => invalid_op(r, "No previous position stored"@) && final(state)@ == old(
                    state,
                )@,
            },
            final(state).config == old(state).config,
            final(state).wf(),
    {
        proof {
            crate::window::lemma_registry_index(state@.registry, self.window_id);
        }
        match self.previous_position {
            Some(prev) => {
                state.window_registry.move_window(self.window_id, prev);
                Ok(())
            },
            None => invalid_operation("No previous position stored"),
        }
    }
}

/// The state after the command switched output `vo` to workspace `ws`: the
/// switch itself, reported as an event where the output showed a workspace
/// before.
pub open spec fn view_cmd_switch(c: StateView, vo: usize, ws: WorkspaceId) -> StateView {
    let c2 = view_switch(c, vo, ws);
    match ws_on_output(c.workspaces, vo) {
        Some(p) => StateView { events: c2.events.push(workspace_switched(p, ws, vo)), ..c2 },
        None => c2,
    }
}

/// The state after undoing a switch of output `vo` to `target`: back to
/// `prev`, reported as an event.
pub open spec fn view_cmd_switch_back(c: StateView, vo: usize, target: WorkspaceId, prev: WorkspaceId) -> StateView {
    let c2 = view_switch(c, vo, prev);
    StateView { events: c2.events.push(workspace_switched(target, prev, vo)), ..c2 }
}

/// Switch workspace command
#[derive(Debug)]
pub struct SwitchWorkspaceCommand {
    pub virtual_output: usize,
    pub target_workspace: WorkspaceId,
    pub previous_workspace: Option<WorkspaceId>,
}

impl SwitchWorkspaceCommand {
    pub fn new(virtual_output: usize, target_workspace: WorkspaceId) -> (c: SwitchWorkspaceCommand)
        ensures
            c.virtual_output == virtual_output,
            c.target_workspace == target_workspace,
            c.previous_workspace is None,
    {
        SwitchWorkspaceCommand { virtual_output, target_workspace, previous_workspace: None }
    }

    /// What the command does, in words.
    pub fn description(&self) -> (s: String)
        ensures
            s@ == "Switch output "@ + decimal_chars(self.virtual_output as nat) + " to workspace "@
                + decimal_chars(self.target_workspace.id as nat),
    {
        let s = concat_str("Switch output ".to_owned(), decimal(self.virtual_output as u64).as_str());
        let s = concat_str(s, " to workspace ");
        concat_str(s, decimal(self.target_workspace.get() as u64).as_str())
    }

    /// Switches the output to the target workspace, remembering the one it
    /// showed.
    pub fn execute(&mut self, state: &mut StilchState) -> (r: Result<(), CommandError>)
        requires
            old(state).wf(),
        ensures
            r == Ok::<(), CommandError>(()),
            final(self).virtual_output == old(self).virtual_output,
            final(self).target_workspace == old(self).target_workspace,
            final(self).previous_workspace == ws_on_output(old(state)@.workspaces, old(self).virtual_output),
            final(state)@ == view_cmd_switch(old(state)@, old(self).virtual_output, old(self).target_workspace),
            final(state).config == old(state).config,
            final(state).wf(),
    {
        self.previous_workspace = state.workspace_manager.workspace_on_output(self.virtual_output);
        state.switch_workspace(self.virtual_output, self.target_workspace);
        if let Some(prev) = self.previous_workspace {
            state.emit_event(
                Event::Workspace(
                    WorkspaceEvent::Switched {
                        old_workspace: prev,
                        new_workspace: self.target_workspace,
                        virtual_output: self.virtual_output,
                        timestamp: now(),
                    },
                ),
            );
        }
        Ok(())
    }

    /// Switches the output back to the workspace it showed before `execute`.
    pub fn undo(&mut self, state: &mut StilchState) -> (r: Result<(), CommandError>)
        requires
            old(state).wf(),
        ensures
            *final(self) == *old(self),
            match old(self).previous_workspace {
                Some(p) => r is Ok && final(state)@ == view_cmd_switch_back(
                    old(state)@,
                    old(self).virtual_output,
                    old(self).target_workspace,
                    p,
                ),
                None => invalid_op(r, "No previous workspace stored"@) && final(state)@ == old(
                    state,
                )@,
            },
            final(state).config == old(state).config,
            final(state).wf(),
    {
        match self.previous_workspace {
            Some(prev) => {
                state.switch_workspace(self.virtual_output, prev);
                state.emit_event(
                    Event::Workspace(
                        WorkspaceEvent::Switched {
                            old_workspace: self.target_workspace,
                            new_workspace: prev,
                            virtual_output: self.virtual_output,
                            timestamp: now(),
                        },
                    ),
                );
                Ok(())
            },
            None => invalid_operation("No previous workspace stored"),
        }
    }
}

/// Move window to workspace command
#[derive(Debug)]
pub struct MoveWindowToWorkspaceCommand {
    pub window_id: WindowId,
    pub target_workspace: WorkspaceId,
    pub previous_workspace: Option<WorkspaceId>,
}

/// The state after the command moved window `win` to workspace `ws`: out of
/// its workspace, into `ws`, and recorded so in the registry. Where `ws`
/// does not exist, the window has left its workspace all the same.
pub open spec fn view_cmd_move(c: StateView, win: WindowId, ws: WorkspaceId) -> StateView {
    match registry_get(c.registry, win) {
        None => c,
        Some(mw) => if mw.workspace == ws {
            c
        } else {
            let w1 = match ws_index(c.workspaces, mw.workspace) {
                Some(i) => c.workspaces.update(i, without_window(c.workspaces[i], win)),
                None => c.workspaces,
            };
            match ws_index(w1, ws) {
                Some(j) => StateView {
                    registry: c.registry.update(
                        registry_index(c.registry, win)->0,
                        ManagedWindow { workspace: ws, ..mw },
                    ),
                    workspaces: w1.update(j, with_window(w1[j], win)),
                    events: c.events.push(workspace_changed(win, mw.workspace, ws)),
                    ..c
                },
                None => StateView { workspaces: w1, ..c },
            }
        },
    }
}

/// What the command reports for moving window `win` to workspace `ws`.
pub open spec fn cmd_move_result(c: StateView, win: WindowId, ws: WorkspaceId) -> Result<(), CommandError> {
    match registry_get(c.registry, win) {
        None => Err(CommandError::WindowNotFound(win)),
        Some(mw) => if mw.workspace == ws {
            Ok(())
        } else if ws_lookup(c.workspaces, ws) is None {
            Err(CommandError::WorkspaceNotFound(ws))
        } else {
            Ok(())
        },
    }
}

impl MoveWindowToWorkspaceCommand {
    pub fn new(window_id: WindowId, target_workspace: WorkspaceId) -> (c: MoveWindowToWorkspaceCommand)
        ensures
            c.window_id == window_id,
            c.target_workspace == target_workspace,
            c.previous_workspace is None,
    {
        MoveWindowToWorkspaceCommand { window_id, target_workspace, previous_workspace: None }
    }

    /// What the command does, in words.
    pub fn description(&self) -> (s: String)
        ensures
            s@ == "Move window "@ + decimal_chars(self.window_id.id as nat) + " to workspace "@
                + decimal_chars(self.target_workspace.id as nat),
    {
        let s = concat_str("Move window ".to_owned(), decimal(self.window_id.get() as u64).as_str());
        let s = concat_str(s, " to workspace ");
        concat_str(s, decimal(self.target_workspace.get() as u64).as_str())
    }

    /// Moves the window to the target workspace, remembering the one it was
    /// on.
    pub fn execute(&mut self, state: &mut StilchState) -> (r: Result<(), CommandError>)
        requires
            old(state).wf(),
        ensures
            final(self).window_id == old(self).window_id,
            final(self).target_workspace == old(self).target_workspace,
            final(self).previous_workspace == (match registry_get(old(state)@.registry, old(self).window_id) {
                Some(w) => Some(w.workspace),
                None => old(self).previous_workspace,
            }),
            r == cmd_move_result(old(state)@, old(self).window_id, old(self).target_workspace),
            final(state)@ == view_cmd_move(old(state)@, old(self).window_id, old(self).target_workspace),
            final(state).config == old(state).config,
            final(state).wf(),
    {
        let ghost c = state@;
        let win = self.window_id;
        let target = self.target_workspace;
        let managed_window = match state.window_registry().get(win) {
            Some(w) => w,
            None => {
                return Err(CommandError::WindowNotFound(win));
            },
        };
        self.previous_workspace = Some(managed_window.workspace);
        if managed_window.workspace == target {
            return Ok(());
        }
        let old_workspace = managed_window.workspace;
        proof {
            lemma_ws_index(c.workspaces, old_workspace);
            crate::window::lemma_registry_index(c.registry, win);
        }
        state.workspace_manager.remove_window_from_workspace(old_workspace, win);
        proof {
            lemma_ws_index(state@.workspaces, target);
            lemma_ws_index(c.workspaces, target);
            lemma_ws_index_kept(c.workspaces, old_workspace, win, target);
        }
        if !state.workspace_manager.add_window_to_workspace(target, win) {
            return Err(CommandError::WorkspaceNotFound(target));
        }
        state.window_registry.set_workspace(win, target);
        state.emit_event(
            Event::Window(
                WindowEvent::WorkspaceChanged {
                    window_id: win,
                    old_workspace,
                    new_workspace: target,
                    timestamp: now(),
                },
            ),
        );
        Ok(())
    }

    /// Moves the window back to the workspace it was on before `execute`.
    pub fn undo(&mut self, state: &mut StilchState) -> (r: Result<(), CommandError>)
        requires
            old(state).wf(),
        ensures
            *final(self) == *old(self),
            match old(self).previous_workspace {
                Some(p) => r == cmd_move_result(old(state)@, old(self).window_id, p) && final(state)@
                    == view_cmd_move(old(state)@, old(self).window_id, p),
                None => invalid_op(r, "No previous workspace stored"@) && final(state)@ == old(
                    state,
                )@,
            },
            final(state).config == old(state).config,
            final(state).wf(),
    {
        match self.previous_workspace {
            Some(prev) => {
                let mut move_back = MoveWindowToWorkspaceCommand::new(self.window_id, prev);
                move_back.execute(state)
            },
            None => invalid_operation("No previous workspace stored"),
        }
    }
}

/// Taking a window out of one workspace keeps where every workspace stands.
pub proof fn lemma_ws_index_kept(
    wv: Seq<crate::workspace::WorkspaceView>,
    src: WorkspaceId,
    win: WindowId,
    x: WorkspaceId,
)
    ensures
        ws_index(
            match ws_index(wv, src) {
                Some(i) => wv.update(i, without_window(wv[i], win)),
                None => wv,
            },
            x,
        ) == ws_index(wv, x),
{
    lemma_ws_index(wv, src);
    match ws_index(wv, src) {
        Some(i) => {
            crate::workspace::lemma_ws_lookup_update(wv, i, without_window(wv[i], win), x);
        },
        None => {},
    }
}

/// Any of the commands, as the executor keeps them.
#[derive(Debug)]
pub enum AnyCommand {
    MoveWindow(MoveWindowCommand),
    SwitchWorkspace(SwitchWorkspaceCommand),
    MoveWindowToWorkspace(MoveWindowToWorkspaceCommand),
}

/// What executing a command gives: the command (with what it remembered
/// for undo), the state after it and its result.
pub open spec fn exec_spec(cmd: AnyCommand, c: StateView) -> (AnyCommand, StateView, Result<(), CommandError>) {
    match cmd {
        AnyCommand::MoveWindow(m) => {
            let prev = match registry_get(c.registry, m.window_id) {
                Some(w) => w.location,
                None => None,
            };
            let m2 = AnyCommand::MoveWindow(MoveWindowCommand { previous_position: prev, ..m });
            if prev is None {
                (m2, c, Err(CommandError::WindowNotFound(m.window_id)))
            } else {
                (
                    m2,
                    StateView { registry: moved_to(c.registry, m.window_id, m.target_position), ..c },
                    Ok(()),
                )
            }
        },
        AnyCommand::SwitchWorkspace(sw) => (
            AnyCommand::SwitchWorkspace(
                SwitchWorkspaceCommand {
                    previous_workspace: ws_on_output(c.workspaces, sw.virtual_output),
                    ..sw
                },
            ),
            view_cmd_switch(c, sw.virtual_output, sw.target_workspace),
            Ok(()),
        ),
        AnyCommand::MoveWindowToWorkspace(mv) => (
            AnyCommand::MoveWindowToWorkspace(
                MoveWindowToWorkspaceCommand {
                    previous_workspace: match registry_get(c.registry, mv.window_id) {
                        Some(w) => Some(w.workspace),
                        None => mv.previous_workspace,
                    },
                    ..mv
                },
            ),
            view_cmd_move(c, mv.window_id, mv.target_workspace),
            cmd_move_result(c, mv.window_id, mv.target_workspace),
        ),
    }
}

/// Whether `c2` and `r` are what undoing `cmd` in state `c` gives.
pub open spec fn undo_post(cmd: AnyCommand, c: StateView, c2: StateView, r: Result<(), CommandError>) -> bool {
    match cmd {
        AnyCommand::MoveWindow(m) => match m.previous_position {
            Some(p) => r is Ok && c2 == (StateView {
                registry: moved_to(c.registry, m.window_id, p),
                ..c
            }),
            None => invalid_op(r, "No previous position stored"@) && c2 == c,
        },
        AnyCommand::SwitchWorkspace(sw) => match sw.previous_workspace {
            Some(p) => r is Ok && c2 == view_cmd_switch_back(c, sw.virtual_output, sw.target_workspace, p),
            None => invalid_op(r, "No previous workspace stored"@) && c2 == c,
        },
        AnyCommand::MoveWindowToWorkspace(mv) => match mv.previous_workspace {
            Some(p) => r == cmd_move_result(c, mv.window_id, p) && c2 == view_cmd_move(c, mv.window_id, p),
            None => invalid_op(r, "No previous workspace stored"@) && c2 == c,
        },
    }
}

impl AnyCommand {
    /// Runs the command.
    pub fn execute(&mut self, state: &mut StilchState) -> (r: Result<(), CommandError>)
        requires
            old(state).wf(),
        ensures
            (*final(self), final(state)@, r) == exec_spec(*old(self), old(state)@),
            final(state).config == old(state).config,
            final(state).wf(),
    {
        match self {
            AnyCommand::MoveWindow(m) => m.execute(state),
            AnyCommand::SwitchWorkspace(sw) => sw.execute(state),
            AnyCommand::MoveWindowToWorkspace(mv) => mv.execute(state),
        }
    }

    /// Reverts what the command did.
    pub fn undo(&mut self, state: &mut StilchState) -> (r: Result<(), CommandError>)
        requires
            old(state).wf(),
        ensures
            *final(self) == *old(self),
            undo_post(*old(self), old(state)@, final(state)@, r),
            final(state).config == old(state).config,
            final(state).wf(),
    {
        match self {
            AnyCommand::MoveWindow(m) => m.undo(state),
            AnyCommand::SwitchWorkspace(sw) => sw.undo(state),
            AnyCommand::MoveWindowToWorkspace(mv) => mv.undo(state),
        }
    }

    /// Whether the command can be undone (every one of these can).
    pub fn can_undo(&self) -> (b: bool)
        ensures
            b,
    {
        true
    }

    /// What the command does, in words (as the command itself says it).
    pub fn description(&self) -> (s: String)
        ensures
            s@ == (match *self {
                AnyCommand::MoveWindow(m) => "Move window "@ + decimal_chars(m.window_id.id as nat)
                    + " to Point { x: "@ + signed_decimal_chars(m.target_position.x as int) + ", y: "@
                    + signed_decimal_chars(m.target_position.y as int) + " }"@,
                AnyCommand::SwitchWorkspace(sw) => "Switch output "@ + decimal_chars(sw.virtual_output as nat)
                    + " to workspace "@ + decimal_chars(sw.target_workspace.id as nat),
                AnyCommand::MoveWindowToWorkspace(mv) => "Move window "@ + decimal_chars(mv.window_id.id as nat)
                    + " to workspace "@ + decimal_chars(mv.target_workspace.id as nat),
            }),
    {
        match self {
            AnyCommand::MoveWindow(m) => m.description(),
            AnyCommand::SwitchWorkspace(sw) => sw.description(),
            AnyCommand::MoveWindowToWorkspace(mv) => mv.description(),
        }
    }
}

/// Command executor with undo/redo support
#[derive(Debug)]
pub struct CommandExecutor {
    /// History of executed commands
    pub history: Vec<AnyCommand>,
    /// Current position in history
    pub current: usize,
}

impl CommandExecutor {
    /// The executor's invariant: the position lies within the history.
    pub open spec fn wf(&self) -> bool {
        self.current <= self.history@.len()
    }

    pub fn new() -> (e: CommandExecutor)
        ensures
            e.wf(),
            e.history@.len() == 0,
            e.current == 0,
    {
        CommandExecutor { history: Vec::new(), current: 0 }
    }

    /// Execute a command: where it succeeds, it replaces whatever could be
    /// redone and can be undone next.
    pub fn execute(&mut self, command: AnyCommand, state: &mut StilchState) -> (r: Result<(), CommandError>)
        requires
            old(self).wf(),
            old(state).wf(),
        ensures
            final(self).wf(),
            final(state).wf(),
            final(state).config == old(state).config,
            r == exec_spec(command, old(state)@).2,
            final(state)@ == exec_spec(command, old(state)@).1,
            r is Ok ==> final(self).history@ == old(self).history@.take(old(self).current as int).push(
                exec_spec(command, old(state)@).0,
            ) && final(self).current == old(self).current + 1,
            r is Err ==> final(self).history@ == old(self).history@ && final(self).current == old(
                self,
            ).current,
    {
        let mut command = command;
        let res = command.execute(state);
        match res {
            Ok(()) => {},
            Err(e) => {
                return Err(e);
            },
        }
        self.history.truncate(self.current);
        self.history.push(command);
        self.current = self.history.len();
        Ok(())
    }

    /// Undo the last command
    pub fn undo(&mut self, state: &mut StilchState) -> (r: Result<(), CommandError>)
        requires
            old(self).wf(),
            old(state).wf(),
        ensures
            final(self).wf(),
            final(state).wf(),
            final(state).config == old(state).config,
            final(self).history@ == old(self).history@,
            old(self).current == 0 ==> invalid_op(r, "Nothing to undo"@) && final(state)@ == old(
                state,
            )@ && final(self).current == 0,
            old(self).current > 0 ==> final(self).current == old(self).current - 1 && undo_post(
                old(self).history@[old(self).current - 1],
                old(state)@,
                final(state)@,
                r,
            ),
    {
        if self.current == 0 {
            return invalid_operation("Nothing to undo");
        }
        self.current -= 1;
        let i = self.current;
        if !self.history[i].can_undo() {
            self.current += 1;
            return invalid_operation("Command cannot be undone");
        }
        let ghost h = self.history@;
        let r = self.history[i].undo(state);
        assert(self.history@ =~= h);
        r
    }

    /// Redo the next command
    pub fn redo(&mut self, state: &mut StilchState) -> (r: Result<(), CommandError>)
        requires
            old(self).wf(),
            old(state).wf(),
        ensures
            final(self).wf(),
            final(state).wf(),
            final(state).config == old(state).config,
            old(self).current >= old(self).history@.len() ==> invalid_op(r, "Nothing to redo"@)
                && final(state)@ == old(state)@ && final(self).history@ == old(self).history@
                && final(self).current == old(self).current,
            old(self).current < old(self).history@.len() ==> {
                let (cmd2, c2, res) = exec_spec(old(self).history@[old(self).current as int], old(state)@);
                &&& r == res
                &&& final(state)@ == c2
                &&& final(self).history@ == old(self).history@.update(old(self).current as int, cmd2)
                &&& final(self).current == (if res is Ok {
                    old(self).current + 1
                } else {
                    old(self).current as int
                })
            },
    {
        if self.current >= self.history.len() {
            return invalid_operation("Nothing to redo");
        }
        let i = self.current;
        let ghost h = self.history@;
        let res = self.history[i].execute(state);
        assert(self.history@.len() == h.len());
        match res {
            Ok(()) => {},
            Err(e) => {
                return Err(e);
            },
        }
        self.current = i + 1;
        Ok(())
    }

    /// Clear command history
    pub fn clear_history(&mut self)
        ensures
            final(self).wf(),
            final(self).history@.len() == 0,
            final(self).current == 0,
    {
        self.history.clear();
        self.current = 0;
    }

    /// Get the number of commands that can be undone
    pub fn undo_count(&self) -> (n: usize)
        requires
            self.wf(),
        ensures
            n == self.current,
    {
        self.current
    }

    /// Get the number of commands that can be redone
    pub fn redo_count(&self) -> (n: usize)
        requires
            self.wf(),
        ensures
            n == self.history@.len() - self.current,
    {
        self.history.len() - self.current
    }
}

impl Default for CommandExecutor {
    fn default() -> (e: CommandExecutor)
        ensures
            e.wf(),
            e.history@.len() == 0,
            e.current == 0,
    {
        CommandExecutor::new()
    }
}

/// Law: moving a window to a position and undoing the move gives back the
/// state as it was, wherever the window was placed before.
pub proof fn law_move_window_undo(c: StateView, id: WindowId, target: Point)
    requires
        registry_get(c.registry, id) matches Some(w) && w.location is Some,
    ensures
        ({
            let (cmd1, c1, r1) = exec_spec(AnyCommand::MoveWindow(MoveWindowCommand {
                window_id: id,
                target_position: target,
                previous_position: None,
            }), c);
            &&& r1 == Ok::<(), CommandError>(())
            &&& forall|c2: StateView, r2: Result<(), CommandError>|
                undo_post(cmd1, c1, c2, r2) ==> c2 == c && r2 is Ok
        }),
{
    crate::window::lemma_registry_index(c.registry, id);
    let i = registry_index(c.registry, id)->0;
    let w = c.registry[i];
    let p = w.location->0;
    let w1 = ManagedWindow { location: Some(target), ..w };
    let reg1 = c.registry.update(i, w1);
    crate::window::lemma_registry_update(c.registry, i, w1, id);
    assert(moved_to(c.registry, id, target) == reg1);
    assert(reg1[i] == w1);
    let reg2 = reg1.update(i, ManagedWindow { location: Some(p), ..w1 });
    assert(moved_to(reg1, id, p) == reg2);
    assert(reg2 =~= c.registry);
}

/// Law: moving a window to another workspace and undoing the move gives
/// back the registry as it was, and leaves the window in its old workspace
/// and not in the other one.
pub proof fn law_move_to_workspace_undo(c: StateView, win: WindowId, target: WorkspaceId)
    requires
        crate::workspace::ids_distinct(c.workspaces),
        registry_get(c.registry, win) matches Some(mw) && mw.workspace != target && ws_lookup(
            c.workspaces,
            mw.workspace,
        ) is Some,
        ws_lookup(c.workspaces, target) is Some,
    ensures
        ({
            let src = registry_get(c.registry, win)->0.workspace;
            let c1 = view_cmd_move(c, win, target);
            let c2 = view_cmd_move(c1, win, src);
            &&& cmd_move_result(c, win, target) == Ok::<(), CommandError>(())
            &&& cmd_move_result(c1, win, src) == Ok::<(), CommandError>(())
            &&& c2.registry == c.registry
            &&& ws_lookup(c2.workspaces, src)->0.windows.contains(win)
            &&& !ws_lookup(c2.workspaces, target)->0.windows.contains(win)
        }),
{
    let mw = registry_get(c.registry, win)->0;
    let src = mw.workspace;
    crate::window::lemma_registry_index(c.registry, win);
    let ri = registry_index(c.registry, win)->0;
    lemma_ws_index(c.workspaces, src);
    lemma_ws_index(c.workspaces, target);
    let si = ws_index(c.workspaces, src)->0;
    let ti = ws_index(c.workspaces, target)->0;
    assert(si != ti);
    // the move
    let w1 = c.workspaces.update(si, without_window(c.workspaces[si], win));
    crate::workspace::lemma_ws_lookup_update(c.workspaces, si, without_window(c.workspaces[si], win), target);
    crate::workspace::lemma_ws_lookup_update(c.workspaces, si, without_window(c.workspaces[si], win), src);
    assert(w1[ti] == c.workspaces[ti]);
    let w2 = w1.update(ti, with_window(w1[ti], win));
    crate::workspace::lemma_ws_lookup_update(w1, ti, with_window(w1[ti], win), target);
    crate::workspace::lemma_ws_lookup_update(w1, ti, with_window(w1[ti], win), src);
    let m1 = ManagedWindow { workspace: target, ..mw };
    let reg1 = c.registry.update(ri, m1);
    crate::window::lemma_registry_update(c.registry, ri, m1, win);
    let c1 = view_cmd_move(c, win, target);
    assert(c1.registry == reg1);
    assert(c1.workspaces == w2);
    // the move back
    assert(w2[ti] == with_window(c.workspaces[ti], win));
    let v1 = w2.update(ti, without_window(w2[ti], win));
    crate::workspace::lemma_ws_lookup_update(w2, ti, without_window(w2[ti], win), src);
    crate::workspace::lemma_ws_lookup_update(w2, ti, without_window(w2[ti], win), target);
    assert(v1[si] == w2[si]);
    let v2 = v1.update(si, with_window(v1[si], win));
    crate::workspace::lemma_ws_lookup_update(v1, si, with_window(v1[si], win), src);
    crate::workspace::lemma_ws_lookup_update(v1, si, with_window(v1[si], win), target);
    let reg2 = reg1.update(ri, ManagedWindow { workspace: src, ..m1 });
    assert(reg2 =~= c.registry);
    let c2 = view_cmd_move(c1, win, src);
    assert(c2.registry == reg2);
    assert(c2.workspaces == v2);
    lemma_all_but_excludes(w2[ti].windows, win);
    assert(v2[si].windows.contains(win)) by {
        let ws0 = v1[si].windows;
        if !ws0.contains(win) {
            assert(ws0.push(win)[ws0.len() as int] == win);
        }
    }
}

/// The windows other than `id` do not hold `id`.
pub proof fn lemma_all_but_excludes(s: Seq<WindowId>, id: WindowId)
    ensures
        !crate::workspace::all_but(s, id).contains(id),
    decreases s.len(),
{
    if s.len() > 0 {
        lemma_all_but_excludes(s.drop_last(), id);
        let r = crate::workspace::all_but(s.drop_last(), id);
        if s.last() != id {
            assert forall|k: int| 0 <= k < r.push(s.last()).len() implies r.push(s.last())[k] != id by {
                if k < r.len() {
                    assert(r.push(s.last())[k] == r[k]);
                }
            }
        }
    }
}

/// Law: switching an output to another workspace and undoing the switch
/// shows the workspace it showed before on that output again, and leaves
/// the registry as it was (where neither workspace is bound to another
/// output).
pub proof fn law_switch_undo(c: StateView, vo: usize, target: WorkspaceId)
    requires
        crate::virtual_output::vo_lookup(c.outputs, vo) is Some,
        ws_on_output(c.workspaces, vo) matches Some(p) && p != target && (ws_lookup(c.workspaces, p) matches Some(wp)
            && (wp.association is None || wp.association == Some(vo))),
        ws_lookup(c.workspaces, target) matches Some(w) && (w.association is None || w.association
            == Some(vo)),
    ensures
        ({
            let p = ws_on_output(c.workspaces, vo)->0;
            let c1 = view_switch(c, vo, target);
            let c2 = view_switch(c1, vo, p);
            &&& ws_on_output(c1.workspaces, vo) == Some(target)
            &&& ws_on_output(c2.workspaces, vo) == Some(p)
            &&& crate::virtual_output::vo_lookup(c2.outputs, vo) matches Some(o) && o.active_workspace == Some(
                p.id as usize,
            )
            &&& c2.registry == c.registry
        }),
{
    let p = ws_on_output(c.workspaces, vo)->0;
    crate::state::lemma_show_effect(c, vo, target);
    crate::state::lemma_show_keeps(c, vo, target, p);
    crate::state::lemma_show_keeps(c, vo, target, target);
    let c1 = crate::state::view_show(c, vo, target);
    assert(view_switch(c, vo, target) == c1);
    crate::virtual_output::lemma_with_active_lookup(c.outputs, vo, target.id as usize, vo);
    assert(crate::virtual_output::vo_lookup(c1.outputs, vo) is Some);
    crate::state::lemma_show_effect(c1, vo, p);
    crate::state::lemma_show_keeps(c1, vo, p, p);
    assert(view_switch(c1, vo, p) == crate::state::view_show(c1, vo, p));
}

} // verus!

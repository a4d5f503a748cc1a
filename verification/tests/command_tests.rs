use stilch::command::{
    AnyCommand, CommandError, CommandExecutor, MoveWindowCommand, MoveWindowToWorkspaceCommand,
    SwitchWorkspaceCommand,
};
use stilch::config::Config;
use stilch::geometry::{Point, Rectangle, Size};
use stilch::input::InputManager;
use stilch::state::StilchState;
use stilch::virtual_output::{VirtualOutput, VirtualOutputManager};
use stilch::window::{WindowId, WindowRegistry};
use stilch::workspace::{WorkspaceId, WorkspaceManager};
use stilch::event::{Event, WindowEvent, WorkspaceEvent};

fn state() -> StilchState {
    let mut wm = WorkspaceManager::new();
    assert!(wm.show_workspace_on_output(WorkspaceId::new(0), 0));
    let mut s = StilchState {
        config: Config::default(),
        window_registry: WindowRegistry::new(),
        workspace_manager: wm,
        virtual_output_manager: VirtualOutputManager {
            outputs: vec![VirtualOutput {
                id: 0,
                name: "main".to_string(),
                region: Rectangle { loc: Point { x: 0, y: 0 }, size: Size { w: 1920, h: 1080 } },
                active_workspace: Some(0),
            }],
        },
        focused_window: None,
        pointer_location: Point { x: 10, y: 10 },
        running: true,
        show_window_preview: false,
        next_container: 0,
        events: Vec::new(),
        input_manager: InputManager::new(),
    };
    assert_eq!(s.add_window(WindowId::new(1), Size { w: 100, h: 100 }, 0), Some(WindowId::new(1)));
    s
}

fn invalid_message(r: Result<(), CommandError>) -> String {
    match r {
        Err(CommandError::InvalidOperation(m)) => m,
        other => panic!("expected an invalid operation, got {:?}", other),
    }
}

#[test]
fn switch_command_execute_and_undo() {
    let mut s = state();
    let mut cmd = SwitchWorkspaceCommand::new(0, WorkspaceId::new(3));
    assert!(cmd.execute(&mut s).is_ok());
    assert_eq!(cmd.previous_workspace, Some(WorkspaceId::new(0)));
    assert_eq!(s.current_workspace(0), Some(WorkspaceId::new(3)));
    assert!(cmd.undo(&mut s).is_ok());
    assert_eq!(s.current_workspace(0), Some(WorkspaceId::new(0)));
    assert_eq!(s.virtual_output_manager.get(0).unwrap().active_workspace, Some(0));
}

#[test]
fn switch_command_undo_before_execute_fails() {
    let mut s = state();
    let mut cmd = SwitchWorkspaceCommand::new(0, WorkspaceId::new(3));
    assert_eq!(invalid_message(cmd.undo(&mut s)), "No previous workspace stored");
}

#[test]
fn move_to_workspace_command_round_trip() {
    let mut s = state();
    let before = s.window_registry.windows.clone();
    let mut cmd = MoveWindowToWorkspaceCommand::new(WindowId::new(1), WorkspaceId::new(4));
    assert!(cmd.execute(&mut s).is_ok());
    assert_eq!(s.get_window(WindowId::new(1)).unwrap().workspace, WorkspaceId::new(4));
    assert!(s.workspace_manager.get(WorkspaceId::new(0)).unwrap().windows.is_empty());
    assert!(cmd.undo(&mut s).is_ok());
    assert_eq!(s.window_registry.windows, before);
    assert_eq!(s.workspace_manager.get(WorkspaceId::new(0)).unwrap().windows, vec![WindowId::new(1)]);
    assert!(s.workspace_manager.get(WorkspaceId::new(4)).unwrap().windows.is_empty());
}

#[test]
fn move_to_workspace_command_errors() {
    let mut s = state();
    let mut cmd = MoveWindowToWorkspaceCommand::new(WindowId::new(9), WorkspaceId::new(4));
    assert!(matches!(cmd.execute(&mut s), Err(CommandError::WindowNotFound(w)) if w == WindowId::new(9)));
    let mut cmd = MoveWindowToWorkspaceCommand::new(WindowId::new(1), WorkspaceId::new(42));
    assert!(matches!(cmd.execute(&mut s), Err(CommandError::WorkspaceNotFound(w)) if w == WorkspaceId::new(42)));
    let mut cmd = MoveWindowToWorkspaceCommand::new(WindowId::new(1), WorkspaceId::new(2));
    assert_eq!(invalid_message(cmd.undo(&mut s)), "No previous workspace stored");
}

#[test]
fn move_window_command_round_trip() {
    let mut s = state();
    let mut cmd = MoveWindowCommand::new(WindowId::new(1), Point { x: 300, y: -20 });
    assert!(cmd.execute(&mut s).is_ok());
    assert_eq!(s.window_registry.window_position(WindowId::new(1)), Some(Point { x: 300, y: -20 }));
    assert!(cmd.undo(&mut s).is_ok());
    assert_eq!(s.window_registry.window_position(WindowId::new(1)), Some(Point { x: 0, y: 0 }));
    let mut missing = MoveWindowCommand::new(WindowId::new(5), Point { x: 0, y: 0 });
    assert!(matches!(missing.execute(&mut s), Err(CommandError::WindowNotFound(_))));
    assert_eq!(invalid_message(missing.undo(&mut s)), "No previous position stored");
}

#[test]
fn descriptions() {
    assert_eq!(MoveWindowCommand::new(WindowId::new(3), Point { x: -5, y: 40 }).description(), "Move window 3 to Point { x: -5, y: 40 }");
    assert_eq!(SwitchWorkspaceCommand::new(2, WorkspaceId::new(7)).description(), "Switch output 2 to workspace 7");
    assert_eq!(MoveWindowToWorkspaceCommand::new(WindowId::new(12), WorkspaceId::new(0)).description(), "Move window 12 to workspace 0");
}

#[test]
fn error_texts() {
    assert_eq!(CommandError::WindowNotFound(WindowId::new(4)).to_string(), "Window 4 not found");
    assert_eq!(CommandError::WorkspaceNotFound(WorkspaceId::new(9)).to_string(), "Workspace 9 not found");
    assert_eq!(CommandError::VirtualOutputNotFound(3).to_string(), "Virtual output 3 not found");
    assert_eq!(CommandError::InvalidOperation("x".to_string()).to_string(), "Invalid operation: x");
    assert_eq!(CommandError::Other("y".to_string()).to_string(), "Error: y");
}

#[test]
fn executor_undo_redo_counts() {
    let mut s = state();
    let mut ex = CommandExecutor::new();
    assert_eq!(invalid_message(ex.undo(&mut s)), "Nothing to undo");
    assert_eq!(invalid_message(ex.redo(&mut s)), "Nothing to redo");
    assert!(ex.execute(AnyCommand::SwitchWorkspace(SwitchWorkspaceCommand::new(0, WorkspaceId::new(5))), &mut s).is_ok());
    assert!(ex.execute(AnyCommand::MoveWindowToWorkspace(MoveWindowToWorkspaceCommand::new(WindowId::new(1), WorkspaceId::new(2))), &mut s).is_ok());
    assert_eq!((ex.undo_count(), ex.redo_count()), (2, 0));
    assert!(ex.undo(&mut s).is_ok());
    assert_eq!(s.get_window(WindowId::new(1)).unwrap().workspace, WorkspaceId::new(0));
    assert_eq!((ex.undo_count(), ex.redo_count()), (1, 1));
    assert!(ex.redo(&mut s).is_ok());
    assert_eq!(s.get_window(WindowId::new(1)).unwrap().workspace, WorkspaceId::new(2));
    assert_eq!((ex.undo_count(), ex.redo_count()), (2, 0));
    // a failed command leaves the history as it was
    assert!(ex.execute(AnyCommand::MoveWindow(MoveWindowCommand::new(WindowId::new(8), Point { x: 0, y: 0 })), &mut s).is_err());
    assert_eq!((ex.undo_count(), ex.redo_count()), (2, 0));
    // executing after an undo drops what could be redone
    assert!(ex.undo(&mut s).is_ok());
    assert!(ex.execute(AnyCommand::SwitchWorkspace(SwitchWorkspaceCommand::new(0, WorkspaceId::new(6))), &mut s).is_ok());
    assert_eq!((ex.undo_count(), ex.redo_count()), (2, 0));
    ex.clear_history();
    assert_eq!((ex.undo_count(), ex.redo_count()), (0, 0));
}

#[test]
fn moving_to_a_workspace_reports_the_change() {
    let mut s = state();
    // adding the window reported its creation
    let created = s.take_events();
    assert_eq!(created.len(), 1);
    match &created[0] {
        Event::Window(WindowEvent::Created { window_id, workspace, initial_position, .. }) => {
            assert_eq!(*window_id, WindowId::new(1));
            assert_eq!(*workspace, WorkspaceId::new(0));
            assert_eq!(*initial_position, Point { x: 0, y: 0 });
        }
        other => panic!("unexpected {:?}", other),
    }
    let mut cmd = MoveWindowToWorkspaceCommand::new(WindowId::new(1), WorkspaceId::new(4));
    assert!(cmd.execute(&mut s).is_ok());
    let events = s.take_events();
    assert_eq!(events.len(), 1);
    match &events[0] {
        Event::Window(WindowEvent::WorkspaceChanged { window_id, old_workspace, new_workspace, .. }) => {
            assert_eq!(*window_id, WindowId::new(1));
            assert_eq!(*old_workspace, WorkspaceId::new(0));
            assert_eq!(*new_workspace, WorkspaceId::new(4));
        }
        other => panic!("unexpected {:?}", other),
    }
    assert!(s.take_events().is_empty());
    // already there: nothing moves, nothing is reported
    let mut again = MoveWindowToWorkspaceCommand::new(WindowId::new(1), WorkspaceId::new(4));
    assert!(again.execute(&mut s).is_ok());
    assert!(s.take_events().is_empty());
    // a switch is reported by the state, and once more by the command
    let mut sw = SwitchWorkspaceCommand::new(0, WorkspaceId::new(2));
    assert!(sw.execute(&mut s).is_ok());
    let events = s.take_events();
    assert_eq!(events.len(), 2);
    for e in &events {
        match e {
            Event::Workspace(WorkspaceEvent::Switched { old_workspace, new_workspace, virtual_output, .. }) => {
                assert_eq!(*old_workspace, WorkspaceId::new(0));
                assert_eq!(*new_workspace, WorkspaceId::new(2));
                assert_eq!(*virtual_output, 0);
            }
            other => panic!("unexpected {:?}", other),
        }
    }
}

#[test]
fn state_switch_and_destroy_report_events() {
    let mut s = state();
    s.take_events();
    s.switch_workspace(0, WorkspaceId::new(1));
    s.switch_workspace(0, WorkspaceId::new(2));
    let events = s.take_events();
    assert_eq!(events.len(), 2);
    assert!(matches!(
        &events[1],
        Event::Workspace(WorkspaceEvent::Switched { old_workspace, new_workspace, .. })
            if *old_workspace == WorkspaceId::new(1) && *new_workspace == WorkspaceId::new(2)
    ));
    // showing the workspace already shown reports nothing
    s.switch_workspace(0, WorkspaceId::new(2));
    assert!(s.take_events().is_empty());
    s.toplevel_destroyed(WindowId::new(1));
    let events = s.take_events();
    assert_eq!(events.len(), 1);
    assert!(matches!(
        &events[0],
        Event::Window(WindowEvent::Destroyed { window_id, workspace, .. })
            if *window_id == WindowId::new(1) && *workspace == WorkspaceId::new(0)
    ));
}

#[test]
fn focus_screen_moves_the_pointer() {
    let mut s = state();
    assert!(s.focus_screen(0));
    assert_eq!(s.pointer_location, Point { x: 960, y: 540 });
    assert!(!s.focus_screen(1));
    assert_eq!(s.pointer_location, Point { x: 960, y: 540 });
}

#[test]
fn outputs_extent_of_one_output() {
    let s = state();
    assert_eq!(s.outputs_extent(), (1920, 1080));
}

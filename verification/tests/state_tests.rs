use stilch::config::{Config, Direction};
use stilch::geometry::{Point, Rectangle, Size};
use stilch::input::InputManager;
use stilch::keybindings::FocusTarget;
use stilch::state::StilchState;
use stilch::validation::{validate_full_state, validate_virtual_output_consistency, validate_workspace_window_consistency, ValidationError};
use stilch::virtual_output::{VirtualOutput, VirtualOutputManager};
use stilch::window::{ManagedWindow, WindowId, WindowLayout, WindowRegistry};
use stilch::workspace::{WorkspaceId, WorkspaceManager};

fn output(id: usize, name: &str, x: i32, y: i32, w: i32, h: i32, ws: Option<usize>) -> VirtualOutput {
    VirtualOutput {
        id,
        name: name.to_string(),
        region: Rectangle { loc: Point { x, y }, size: Size { w, h } },
        active_workspace: ws,
    }
}

/// Two outputs side by side, 1920x1080 each, showing workspaces 1 and 2.
fn two_outputs() -> StilchState {
    let mut wm = WorkspaceManager::new();
    assert!(wm.show_workspace_on_output(WorkspaceId::new(0), 0));
    assert!(wm.show_workspace_on_output(WorkspaceId::new(1), 1));
    StilchState {
        config: Config::default(),
        window_registry: WindowRegistry::new(),
        workspace_manager: wm,
        virtual_output_manager: VirtualOutputManager {
            outputs: vec![
                output(0, "left", 0, 0, 1920, 1080, Some(0)),
                output(1, "right", 1920, 0, 1920, 1080, Some(1)),
            ],
        },
        focused_window: None,
        pointer_location: Point { x: 100, y: 100 },
        running: true,
        show_window_preview: false,
        next_container: 0,
        events: Vec::new(),
        input_manager: InputManager::new(),
    }
}

fn add(state: &mut StilchState, id: u32, vo: usize, x: i32, y: i32) {
    assert_eq!(state.add_window(WindowId::new(id), Size { w: 800, h: 600 }, vo), Some(WindowId::new(id)));
    assert!(state.window_registry.move_window(WindowId::new(id), Point { x, y }));
}

#[test]
fn new_manager_has_ten_hidden_workspaces() {
    let wm = WorkspaceManager::new();
    assert_eq!(wm.workspaces.len(), 10);
    for (i, w) in wm.workspaces.iter().enumerate() {
        assert_eq!(w.id, WorkspaceId::new(i as u8));
        assert!(w.windows.is_empty());
        assert_eq!(w.location, None);
    }
}

#[test]
fn added_window_joins_the_shown_workspace_and_state_validates() {
    let mut state = two_outputs();
    add(&mut state, 7, 1, 2000, 10);
    let w = state.get_window(WindowId::new(7)).unwrap();
    assert_eq!(w.workspace, WorkspaceId::new(1));
    assert_eq!(state.workspace_manager.get(WorkspaceId::new(1)).unwrap().windows, vec![WindowId::new(7)]);
    assert!(validate_full_state(&state).is_ok());
    assert!(state.validate_consistency().is_ok());
}

#[test]
fn adding_a_taken_identity_fails() {
    let mut state = two_outputs();
    add(&mut state, 3, 0, 0, 0);
    assert_eq!(state.add_window(WindowId::new(3), Size { w: 10, h: 10 }, 1), None);
    assert_eq!(state.window_registry.len(), 1);
}

#[test]
fn switch_workspace_shows_it_on_the_output() {
    let mut state = two_outputs();
    state.switch_workspace(0, WorkspaceId::new(4));
    assert_eq!(state.current_workspace(0), Some(WorkspaceId::new(4)));
    assert_eq!(state.virtual_output_manager.get(0).unwrap().active_workspace, Some(4));
    // the workspace shown there before is hidden
    assert_eq!(state.workspace_manager.get(WorkspaceId::new(0)).unwrap().location, None);
    assert!(validate_full_state(&state).is_ok());
}

#[test]
fn switch_follows_the_association_of_a_bound_workspace() {
    let mut state = two_outputs();
    state.workspace_manager.workspaces[5].association = Some(1);
    state.switch_workspace(0, WorkspaceId::new(5));
    assert_eq!(state.current_workspace(1), Some(WorkspaceId::new(5)));
    assert_eq!(state.current_workspace(0), Some(WorkspaceId::new(0)));
    // the pointer moves to the centre of the bound output
    assert_eq!(state.pointer_location, Point { x: 1920 + 960, y: 540 });
}

#[test]
fn move_window_to_workspace_updates_registry_and_workspaces() {
    let mut state = two_outputs();
    add(&mut state, 1, 0, 0, 0);
    add(&mut state, 2, 0, 900, 0);
    state.focus_window(WindowId::new(2));
    state.move_window_to_workspace_by_id(WindowId::new(2), WorkspaceId::new(3));
    assert_eq!(state.get_window(WindowId::new(2)).unwrap().workspace, WorkspaceId::new(3));
    assert_eq!(state.workspace_manager.get(WorkspaceId::new(0)).unwrap().windows, vec![WindowId::new(1)]);
    assert_eq!(state.workspace_manager.get(WorkspaceId::new(3)).unwrap().windows, vec![WindowId::new(2)]);
    // focus passes to the window left on the shown workspace
    assert_eq!(state.focused_window(), Some(WindowId::new(1)));
    assert!(validate_full_state(&state).is_ok());
}

#[test]
fn move_workspace_to_output_on_the_right() {
    let mut state = two_outputs();
    add(&mut state, 1, 0, 0, 0);
    state.move_workspace_to_output(Direction::Right);
    assert_eq!(state.current_workspace(1), Some(WorkspaceId::new(0)));
    // the left output now shows the first workspace shown nowhere
    assert_eq!(state.current_workspace(0), Some(WorkspaceId::new(2)));
    assert_eq!(state.workspace_manager.get(WorkspaceId::new(0)).unwrap().association, Some(1));
    assert_eq!(state.pointer_location, Point { x: 2880, y: 540 });
    assert_eq!(state.focused_window(), Some(WindowId::new(1)));
}

#[test]
fn move_workspace_without_neighbour_changes_nothing() {
    let mut state = two_outputs();
    state.move_workspace_to_output(Direction::Left);
    assert_eq!(state.current_workspace(0), Some(WorkspaceId::new(0)));
    assert_eq!(state.current_workspace(1), Some(WorkspaceId::new(1)));
}

#[test]
fn focus_moves_to_the_nearest_window_in_direction() {
    let mut state = two_outputs();
    add(&mut state, 1, 0, 0, 0);
    add(&mut state, 2, 0, 1000, 0);
    add(&mut state, 3, 0, 1000, 500);
    state.focus_window(WindowId::new(1));
    // centre of window 1 is (400, 300); window 2 at (1400, 300), window 3 at (1400, 800)
    assert_eq!(state.find_focus_target_in_direction(Direction::Right), Some(FocusTarget::Window(WindowId::new(2))));
    assert_eq!(state.find_focus_target_in_direction(Direction::Left), None);
}

#[test]
fn focus_crosses_to_an_empty_neighbour_output() {
    let mut state = two_outputs();
    add(&mut state, 1, 0, 0, 0);
    state.focus_window(WindowId::new(1));
    assert_eq!(state.find_focus_target_in_direction(Direction::Right), Some(FocusTarget::EmptyVirtualOutput(1)));
}

#[test]
fn focus_crosses_to_the_focused_window_of_the_neighbour() {
    let mut state = two_outputs();
    add(&mut state, 1, 0, 0, 0);
    add(&mut state, 2, 1, 2000, 0);
    add(&mut state, 3, 1, 3000, 0);
    state.focus_window(WindowId::new(1));
    // the right workspace keeps window 3 focused (the last one added)
    assert_eq!(state.find_focus_target_in_direction(Direction::Right), Some(FocusTarget::Window(WindowId::new(3))));
}

#[test]
fn destroyed_window_hands_focus_on() {
    let mut state = two_outputs();
    add(&mut state, 1, 0, 0, 0);
    add(&mut state, 2, 0, 900, 0);
    state.focus_window(WindowId::new(2));
    state.toplevel_destroyed(WindowId::new(2));
    assert!(state.get_window(WindowId::new(2)).is_none());
    assert_eq!(state.focused_window(), Some(WindowId::new(1)));
    assert!(validate_full_state(&state).is_ok());
}

#[test]
fn new_toplevel_lands_under_the_pointer_and_takes_focus() {
    let mut state = two_outputs();
    state.pointer_location = Point { x: 2500, y: 10 };
    state.new_toplevel(WindowId::new(9), Size { w: 100, h: 50 });
    assert_eq!(state.get_window(WindowId::new(9)).unwrap().workspace, WorkspaceId::new(1));
    assert_eq!(state.focused_window(), Some(WindowId::new(9)));
    // the window sits at the origin until a layout places it; the pointer goes to its centre
    assert_eq!(state.pointer_location, Point { x: 50, y: 25 });
}

#[test]
fn validation_reports_each_inconsistency() {
    let mut state = two_outputs();
    add(&mut state, 1, 0, 0, 0);
    // a workspace lists a window the registry does not know
    state.workspace_manager.workspaces[2].windows.push(WindowId::new(40));
    // a registered window on a workspace that does not exist
    state.window_registry.windows.push(ManagedWindow {
        id: WindowId::new(50),
        workspace: WorkspaceId::new(20),
        location: None,
        size: Size { w: 1, h: 1 },
        layout: WindowLayout::Floating { geometry: Rectangle { loc: Point { x: 0, y: 0 }, size: Size { w: 1, h: 1 } } },
    });
    // an output showing a workspace that does not exist
    state.virtual_output_manager.outputs[1].active_workspace = Some(30);
    let errs = validate_full_state(&state).unwrap_err();
    let text: Vec<String> = errs.iter().map(|e| format!("{:?}", e)).collect();
    assert_eq!(errs.len(), 4, "{:?}", text);
    assert!(matches!(errs[0], ValidationError::WindowInWorkspaceButNotInRegistry { .. }));
    assert!(matches!(errs[1], ValidationError::WindowInRegistryButNotInWorkspace { .. }));
    assert!(matches!(errs[2], ValidationError::WindowReferencesInvalidWorkspace { .. }));
    assert!(matches!(errs[3], ValidationError::VirtualOutputShowsInvalidWorkspace { output: 1, .. }));
}

#[test]
fn validation_reports_orphans_and_doubles() {
    let mut state = two_outputs();
    add(&mut state, 1, 0, 0, 0);
    // window 1 is also listed by workspace 5, which the registry does not name
    state.workspace_manager.workspaces[5].windows.push(WindowId::new(1));
    let errs = validate_workspace_window_consistency(&state.workspace_manager, &state.window_registry.windows).unwrap_err();
    assert_eq!(errs.len(), 2);
    assert!(matches!(errs[0], ValidationError::WorkspaceContainsOrphanWindow { .. }));
    match &errs[1] {
        ValidationError::WindowInMultipleWorkspaces { window, workspaces } => {
            assert_eq!(*window, WindowId::new(1));
            assert_eq!(workspaces, &vec![WorkspaceId::new(0), WorkspaceId::new(5)]);
        }
        other => panic!("unexpected {:?}", other),
    }
    assert!(validate_virtual_output_consistency(&state.virtual_output_manager, &state.workspace_manager).is_ok());
}

#[test]
fn consistency_survives_a_sequence_of_operations() {
    let mut state = two_outputs();
    add(&mut state, 1, 0, 0, 0);
    add(&mut state, 2, 1, 2000, 0);
    state.move_window_to_workspace_by_id(WindowId::new(1), WorkspaceId::new(1));
    state.switch_workspace(0, WorkspaceId::new(6));
    state.toplevel_destroyed(WindowId::new(2));
    assert!(validate_full_state(&state).is_ok());
}


#[test]
fn a_new_output_gets_workspace_one_only_when_nothing_is_shown() {
    // both outputs already show a workspace: nothing changes
    let mut s = two_outputs();
    s.initialize_virtual_output(1);
    assert_eq!(s.current_workspace(1), Some(WorkspaceId::new(1)));
    // a third output while others show workspaces stays empty
    s.virtual_output_manager.outputs.push(output(2, "third", 3840, 0, 800, 600, None));
    s.initialize_virtual_output(2);
    assert_eq!(s.current_workspace(2), None);
    // with no workspace shown anywhere, it gets workspace 1
    let mut t = two_outputs();
    t.workspace_manager = WorkspaceManager::new();
    t.initialize_virtual_output(1);
    assert_eq!(t.current_workspace(1), Some(WorkspaceId::new(0)));
}

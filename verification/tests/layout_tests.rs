use stilch::ascii::{AsciiWindow, AsciiWindowStore};
use stilch::config::Config;
use stilch::fullscreen::FullscreenEffect;
use stilch::geometry::{Point, Rectangle, Size};
use stilch::input::InputManager;
use stilch::keybindings::{KeyAction, KeyEffect};
use stilch::state::StilchState;
use stilch::virtual_output::{VirtualOutput, VirtualOutputManager};
use stilch::window::{ContainerId, FullscreenMode, NonFullscreenLayout, WindowId, WindowLayout, WindowRegistry};
use stilch::config::LayoutCommand;
use stilch::workspace::{SplitDirection, WorkspaceId, WorkspaceManager};

fn rect(x: i32, y: i32, w: i32, h: i32) -> Rectangle {
    Rectangle { loc: Point { x, y }, size: Size { w, h } }
}

/// One 1920x1080 output showing workspace 1, with windows 1 and 2 on it.
fn two_windows() -> StilchState {
    let mut wm = WorkspaceManager::new();
    assert!(wm.show_workspace_on_output(WorkspaceId::new(0), 0));
    let mut s = StilchState {
        config: Config::default(),
        window_registry: WindowRegistry::new(),
        workspace_manager: wm,
        virtual_output_manager: VirtualOutputManager {
            outputs: vec![VirtualOutput {
                id: 0,
                name: "DP-1".to_string(),
                region: rect(0, 0, 1920, 1080),
                active_workspace: Some(0),
            }],
        },
        focused_window: None,
        pointer_location: Point { x: 10, y: 10 },
        running: true,
        show_window_preview: false,
        next_container: 0,
        events: Vec::new(),
        input_manager: InputManager::new(),
    };
    assert_eq!(s.add_window(WindowId::new(1), Size { w: 800, h: 600 }, 0), Some(WindowId::new(1)));
    assert_eq!(s.add_window(WindowId::new(2), Size { w: 400, h: 300 }, 0), Some(WindowId::new(2)));
    s
}

fn layout_of(s: &StilchState, id: u32) -> WindowLayout {
    s.get_window(WindowId::new(id)).unwrap().layout
}

#[test]
fn new_windows_are_tiled_in_new_containers() {
    let s = two_windows();
    assert_eq!(
        layout_of(&s, 1),
        WindowLayout::Tiled { container: ContainerId { id: 0 }, geometry: rect(0, 0, 800, 600) }
    );
    assert_eq!(
        layout_of(&s, 2),
        WindowLayout::Tiled { container: ContainerId { id: 1 }, geometry: rect(0, 0, 400, 300) }
    );
    assert_eq!(s.next_container, 2);
}

#[test]
fn virtual_output_fullscreen_covers_the_output_and_toggles_back() {
    let mut s = two_windows();
    s.focus_window(WindowId::new(1));
    let before = layout_of(&s, 1);
    let e = s.toggle_fullscreen(FullscreenMode::VirtualOutput, None);
    assert_eq!(
        e,
        FullscreenEffect::Enter {
            window: WindowId::new(1),
            size: Size { w: 1920, h: 1080 },
            relayout: Some(WorkspaceId::new(0)),
        }
    );
    assert_eq!(
        layout_of(&s, 1),
        WindowLayout::Fullscreen {
            mode: FullscreenMode::VirtualOutput,
            geometry: rect(0, 0, 1920, 1080),
            previous: NonFullscreenLayout::Tiled { container: ContainerId { id: 0 }, geometry: rect(0, 0, 800, 600) },
        }
    );
    assert_eq!(s.workspace_manager.get(WorkspaceId::new(0)).unwrap().fullscreen_window, Some(WindowId::new(1)));
    let e = s.toggle_fullscreen(FullscreenMode::VirtualOutput, None);
    assert_eq!(e, FullscreenEffect::Exit { window: WindowId::new(1), relayout: Some(WorkspaceId::new(0)) });
    assert_eq!(layout_of(&s, 1), before);
    assert_eq!(s.workspace_manager.get(WorkspaceId::new(0)).unwrap().fullscreen_window, None);
}

#[test]
fn physical_fullscreen_takes_the_output_area() {
    let mut s = two_windows();
    s.focus_window(WindowId::new(2));
    let e = s.toggle_fullscreen(FullscreenMode::PhysicalOutput, Some(rect(0, 0, 3840, 2160)));
    assert_eq!(e, FullscreenEffect::EnterPhysical { window: WindowId::new(2), area: rect(0, 0, 3840, 2160) });
    assert_eq!(layout_of(&s, 2).geometry(), rect(0, 0, 3840, 2160));
    // without the output's area only the layout changes
    let mut t = two_windows();
    t.focus_window(WindowId::new(2));
    assert_eq!(t.toggle_fullscreen(FullscreenMode::PhysicalOutput, None), FullscreenEffect::Unchanged);
    assert!(layout_of(&t, 2).is_fullscreen());
    assert_eq!(t.workspace_manager.get(WorkspaceId::new(0)).unwrap().fullscreen_window, None);
}

#[test]
fn container_fullscreen_covers_the_workspace_area() {
    let mut s = two_windows();
    s.focus_window(WindowId::new(2));
    match s.toggle_fullscreen(FullscreenMode::Container, None) {
        FullscreenEffect::Enter { window, size, relayout } => {
            assert_eq!(window, WindowId::new(2));
            assert_eq!(size, Size { w: 1920, h: 1080 });
            assert_eq!(relayout, Some(WorkspaceId::new(0)));
        }
        other => panic!("unexpected {:?}", other),
    }
    // a request in another mode keeps the mode it is in
    s.toggle_fullscreen(FullscreenMode::VirtualOutput, None);
    assert!(matches!(layout_of(&s, 2), WindowLayout::Fullscreen { mode: FullscreenMode::Container, .. }));
}

#[test]
fn without_focus_nothing_goes_fullscreen() {
    let mut s = two_windows();
    s.focused_window = None;
    assert_eq!(s.toggle_fullscreen(FullscreenMode::VirtualOutput, None), FullscreenEffect::Unchanged);
    assert_eq!(s.set_window_fullscreen(WindowId::new(9), true, FullscreenMode::Container, None), FullscreenEffect::Unchanged);
}

#[test]
fn floating_toggles_keep_the_area() {
    let mut s = two_windows();
    // the workspace keeps window 2 focused
    assert!(matches!(s.handle_key_action(KeyAction::FloatingToggle), KeyEffect::Relayout(w) if w == WorkspaceId::new(0)));
    assert_eq!(layout_of(&s, 2), WindowLayout::Floating { geometry: rect(0, 0, 400, 300) });
    assert_eq!(s.toggle_floating(), Some(WorkspaceId::new(0)));
    assert_eq!(
        layout_of(&s, 2),
        WindowLayout::Tiled { container: ContainerId { id: 2 }, geometry: rect(0, 0, 400, 300) }
    );
    assert_eq!(s.next_container, 3);
    // a fullscreen window does not float
    s.focus_window(WindowId::new(2));
    s.toggle_fullscreen(FullscreenMode::VirtualOutput, None);
    assert_eq!(s.toggle_floating(), None);
    assert!(layout_of(&s, 2).is_fullscreen());
}

#[test]
fn closing_hands_focus_to_the_first_other_window() {
    let mut s = two_windows();
    s.focus_window(WindowId::new(2));
    assert!(matches!(s.handle_key_action(KeyAction::Kill), KeyEffect::CloseWindow(w) if w == WindowId::new(2)));
    assert_eq!(s.focused_window, Some(WindowId::new(1)));
    // the pointer moves to the centre of window 1
    assert_eq!(s.pointer_location, Point { x: 400, y: 300 });
    // with the other window closing too, no window keeps focus
    let mut t = two_windows();
    t.toplevel_destroyed(WindowId::new(1));
    t.focus_window(WindowId::new(2));
    assert_eq!(t.close_focused_window(), Some(WindowId::new(2)));
    assert_eq!(t.focused_window, None);
    let mut u = two_windows();
    u.focused_window = None;
    assert!(matches!(u.handle_key_action(KeyAction::Kill), KeyEffect::Done));
}

#[test]
fn ascii_snapshot_shows_the_first_outputs_workspace() {
    let mut s = two_windows();
    s.focus_window(WindowId::new(1));
    s.toggle_fullscreen(FullscreenMode::VirtualOutput, None);
    let (windows, focus) = s.ascii_snapshot().unwrap();
    assert_eq!(focus, Some(WindowId::new(1)));
    assert_eq!(windows.len(), 2);
    assert_eq!(
        windows[0],
        AsciiWindow {
            id: WindowId::new(1),
            bounds: rect(0, 0, 1920, 1080),
            focused: true,
            floating: false,
            fullscreen: true,
            urgent: false,
            tab_info: None,
        }
    );
    assert!(!windows[1].focused && !windows[1].fullscreen);
    let mut store = AsciiWindowStore::new();
    store.update_window(windows[1]);
    store.sync(s.ascii_snapshot());
    assert_eq!(store.get_windows(), vec![(WindowId::new(1), rect(0, 0, 1920, 1080)), (WindowId::new(2), rect(0, 0, 400, 300))]);
    assert_eq!(store.focused_window, Some(WindowId::new(1)));
    // storing a record with a known identity replaces it
    let mut moved = windows[1];
    moved.bounds = rect(5, 5, 10, 10);
    store.update_window(moved);
    assert_eq!(store.windows.len(), 2);
    assert_eq!(store.get_windows()[1], (WindowId::new(2), rect(5, 5, 10, 10)));
    store.set_focus(Some(WindowId::new(2)));
    assert!(store.windows[1].focused && !store.windows[0].focused);
    store.remove_window(WindowId::new(1));
    assert_eq!(store.get_windows(), vec![(WindowId::new(2), rect(5, 5, 10, 10))]);
    // a state without outputs shows nothing
    let mut empty = two_windows();
    empty.virtual_output_manager.outputs.clear();
    assert!(empty.ascii_snapshot().is_none());
    store.sync(None);
    assert!(store.windows.is_empty());
}

#[test]
fn split_commands_set_the_next_split() {
    let mut s = two_windows();
    let ws = |s: &StilchState| s.workspace_manager.get(WorkspaceId::new(0)).unwrap().next_split;
    assert_eq!(ws(&s), SplitDirection::Horizontal);
    assert!(matches!(s.handle_key_action(KeyAction::SplitVertical), KeyEffect::Done));
    assert_eq!(ws(&s), SplitDirection::Vertical);
    // the output is wider than tall
    s.set_split_direction_automatic();
    assert_eq!(ws(&s), SplitDirection::Horizontal);
    s.virtual_output_manager.outputs[0].region = rect(0, 0, 1080, 1920);
    s.pointer_location = Point { x: 5, y: 5 };
    s.handle_key_action(KeyAction::SplitAutomatic);
    assert_eq!(ws(&s), SplitDirection::Vertical);
    // with the pointer off every output nothing changes
    s.pointer_location = Point { x: -5, y: -5 };
    s.set_split_direction(SplitDirection::Horizontal);
    assert_eq!(ws(&s), SplitDirection::Vertical);
    // layout commands go by the focused window's workspace
    s.focus_window(WindowId::new(1));
    assert_eq!(s.handle_layout_command(LayoutCommand::SplitH), Some(WorkspaceId::new(0)));
    assert_eq!(ws(&s), SplitDirection::Horizontal);
    assert!(matches!(
        s.handle_key_action(KeyAction::Layout(LayoutCommand::Tabbed)),
        KeyEffect::Layout(LayoutCommand::Tabbed, w) if w == WorkspaceId::new(0)
    ));
    s.focused_window = None;
    assert_eq!(s.handle_layout_command(LayoutCommand::SplitV), None);
    assert_eq!(ws(&s), SplitDirection::Horizontal);
}

#[test]
fn states_the_operations_build_validate() {
    let mut s = two_windows();
    s.focus_window(WindowId::new(1));
    s.toggle_fullscreen(FullscreenMode::Container, None);
    s.handle_key_action(KeyAction::FloatingToggle);
    s.move_window_to_workspace_by_id(WindowId::new(2), WorkspaceId::new(4));
    s.handle_key_action(KeyAction::Kill);
    s.toplevel_destroyed(WindowId::new(1));
    assert!(s.validate_consistency().is_ok());
    // a state built from nothing validates too
    let mut t = StilchState::new(Config::default());
    assert_eq!(t.add_virtual_output("A".to_string(), rect(0, 0, 100, 100)), Some(0));
    assert_eq!(t.add_virtual_output("B".to_string(), rect(0, 0, -1, 100)), None);
    t.initialize_virtual_output(0);
    assert_eq!(t.current_workspace(0), Some(WorkspaceId::new(0)));
    t.new_toplevel(WindowId::new(3), Size { w: 10, h: 10 });
    assert!(t.validate_consistency().is_ok());
}

#[test]
fn client_fullscreen_requests() {
    let mut s = two_windows();
    // without an output the window covers its virtual output
    assert!(matches!(s.fullscreen_request(WindowId::new(1), false, None), FullscreenEffect::Enter { .. }));
    assert!(matches!(layout_of(&s, 1), WindowLayout::Fullscreen { mode: FullscreenMode::VirtualOutput, .. }));
    assert!(matches!(s.unfullscreen_request(WindowId::new(1)), FullscreenEffect::Exit { .. }));
    assert!(!layout_of(&s, 1).is_fullscreen());
    // on an output it covers that physical output
    let e = s.fullscreen_request(WindowId::new(2), true, Some(rect(0, 0, 2560, 1440)));
    assert_eq!(e, FullscreenEffect::EnterPhysical { window: WindowId::new(2), area: rect(0, 0, 2560, 1440) });
}

#[test]
fn a_window_added_and_destroyed_leaves_no_trace() {
    let mut s = two_windows();
    let before = s.window_registry.windows.clone();
    let members: Vec<Vec<WindowId>> = s.workspace_manager.workspaces.iter().map(|w| w.windows.clone()).collect();
    assert_eq!(s.add_window(WindowId::new(9), Size { w: 5, h: 5 }, 0), Some(WindowId::new(9)));
    s.toplevel_destroyed(WindowId::new(9));
    assert_eq!(s.window_registry.windows, before);
    let after: Vec<Vec<WindowId>> = s.workspace_manager.workspaces.iter().map(|w| w.windows.clone()).collect();
    assert_eq!(after, members);
}

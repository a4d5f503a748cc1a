use stilch::config::parser::parse_config;
use stilch::config::{Command, Config, Direction, Keysym, LayoutCommand, ModifiersState, WorkspaceTarget};
use stilch::geometry::{Point, Rectangle, Size};
use stilch::input::InputManager;
use stilch::keybindings::{FilterResult, KeyAction, KeyEffect, KeyState, FullscreenMode};
use stilch::state::StilchState;
use stilch::virtual_output::{VirtualOutput, VirtualOutputManager};
use stilch::window::{WindowId, WindowRegistry};
use stilch::workspace::{WorkspaceId, WorkspaceManager};

fn mods(ctrl: bool, alt: bool, shift: bool, logo: bool) -> ModifiersState {
    ModifiersState {
        ctrl,
        alt,
        shift,
        caps_lock: false,
        logo,
        num_lock: false,
        iso_level3_shift: false,
        iso_level5_shift: false,
    }
}

fn state_with(config: Config) -> StilchState {
    let mut wm = WorkspaceManager::new();
    assert!(wm.show_workspace_on_output(WorkspaceId::new(0), 0));
    StilchState {
        config,
        window_registry: WindowRegistry::new(),
        workspace_manager: wm,
        virtual_output_manager: VirtualOutputManager {
            outputs: vec![VirtualOutput {
                id: 0,
                name: "DP-1".to_string(),
                region: Rectangle { loc: Point { x: 0, y: 0 }, size: Size { w: 1920, h: 1080 } },
                active_workspace: Some(0),
            }],
        },
        focused_window: None,
        pointer_location: Point { x: 10, y: 10 },
        running: true,
        show_window_preview: false,
        next_container: 0,
        events: Vec::new(),
        input_manager: InputManager::new(),
    }
}

fn configured() -> StilchState {
    let config = parse_config("set $mod Mod4\nbindsym $mod+Return exec alacritty\nbindsym $mod+2 workspace 2\nbindsym $mod+Shift+q kill\nbindsym $mod+p scratchpad show").unwrap();
    state_with(config)
}

const RETURN: u32 = 0xff0d;
const Q: u32 = 0x71;
const P: u32 = 0x70;

#[test]
fn binding_runs_on_press_with_matching_modifiers() {
    let s = configured();
    match s.process_keybinding(mods(false, false, false, true), Keysym::new(RETURN), None, KeyState::Pressed) {
        FilterResult::Intercept(KeyAction::Run(cmd)) => assert_eq!(cmd, "alacritty"),
        other => panic!("unexpected {:?}", other),
    }
    assert!(matches!(
        s.process_keybinding(mods(false, false, true, true), Keysym::new(Q), None, KeyState::Pressed),
        FilterResult::Intercept(KeyAction::Kill)
    ));
}

#[test]
fn binding_does_not_run_on_release_or_other_modifiers() {
    let s = configured();
    assert!(matches!(s.process_keybinding(mods(false, false, false, true), Keysym::new(RETURN), None, KeyState::Released), FilterResult::Forward));
    assert!(matches!(s.process_keybinding(mods(true, false, false, true), Keysym::new(RETURN), None, KeyState::Pressed), FilterResult::Forward));
    // a binding whose command is not implemented passes the key on
    assert!(matches!(s.process_keybinding(mods(false, false, false, true), Keysym::new(P), None, KeyState::Pressed), FilterResult::Forward));
}

#[test]
fn raw_keysym_is_matched_first() {
    let s = configured();
    // Shift turns '2' into '@'; the raw keysym still matches
    match s.process_keybinding(mods(false, false, false, true), Keysym::new(0x40), Some(Keysym::new(0x32)), KeyState::Pressed) {
        FilterResult::Intercept(KeyAction::Workspace(WorkspaceTarget::Number(2))) => {}
        other => panic!("unexpected {:?}", other),
    }
}

#[test]
fn builtin_quit_and_terminal_switch() {
    let s = state_with(Config::default());
    assert!(matches!(s.process_keybinding(mods(true, true, false, false), Keysym::new(0xff08), None, KeyState::Pressed), FilterResult::Intercept(KeyAction::Quit)));
    assert!(matches!(s.process_keybinding(mods(true, true, false, false), Keysym::new(0x1008fe03), None, KeyState::Pressed), FilterResult::Intercept(KeyAction::VtSwitch(3))));
}

#[test]
fn modifiers_match_ignores_locks() {
    let s = state_with(Config::default());
    let mut a = mods(true, false, false, true);
    a.caps_lock = true;
    a.num_lock = true;
    assert!(s.modifiers_match(a, mods(true, false, false, true)));
    assert!(!s.modifiers_match(a, mods(true, true, false, true)));
}

#[test]
fn commands_map_to_actions() {
    let s = state_with(Config::default());
    assert!(matches!(s.command_to_action(&Command::Exit), Some(KeyAction::Quit)));
    assert!(matches!(s.command_to_action(&Command::Focus(Direction::Up)), Some(KeyAction::Focus(Direction::Up))));
    assert!(matches!(s.command_to_action(&Command::Layout(LayoutCommand::Tabbed)), Some(KeyAction::Layout(LayoutCommand::Tabbed))));
    assert!(s.command_to_action(&Command::ResizeMode).is_none());
    assert!(s.command_to_action(&Command::Raw("x".to_string())).is_none());
}

#[test]
fn key_actions_change_state_or_hand_work_out() {
    let mut s = state_with(Config::default());
    assert!(matches!(s.handle_key_action(KeyAction::TogglePreview), KeyEffect::Done));
    assert!(s.show_window_preview);
    assert!(matches!(s.handle_key_action(KeyAction::Workspace(WorkspaceTarget::Number(4))), KeyEffect::Done));
    assert_eq!(s.current_workspace(0), Some(WorkspaceId::new(3)));
    assert!(matches!(s.handle_key_action(KeyAction::Workspace(WorkspaceTarget::Next)), KeyEffect::Done));
    assert_eq!(s.current_workspace(0), Some(WorkspaceId::new(4)));
    // numbers outside 1 to 10 name no workspace
    s.handle_key_action(KeyAction::Workspace(WorkspaceTarget::Number(11)));
    assert_eq!(s.current_workspace(0), Some(WorkspaceId::new(4)));
    assert!(matches!(s.handle_key_action(KeyAction::FullscreenContainer), KeyEffect::ToggleFullscreen(FullscreenMode::Container)));
    assert!(matches!(s.handle_key_action(KeyAction::Fullscreen), KeyEffect::ToggleFullscreen(FullscreenMode::VirtualOutput)));
    match s.handle_key_action(KeyAction::Run("foot".to_string())) {
        KeyEffect::Spawn { command, output } => {
            assert_eq!(command, "foot");
            let (name, area) = output.unwrap();
            assert_eq!(name, "DP-1");
            assert_eq!(area.size, Size { w: 1920, h: 1080 });
        }
        other => panic!("unexpected {:?}", other),
    }
    assert!(matches!(s.handle_key_action(KeyAction::Quit), KeyEffect::Done));
    assert!(!s.running);
}

#[test]
fn move_to_workspace_key_moves_the_focused_window() {
    let mut s = state_with(Config::default());
    assert!(s.add_window(WindowId::new(1), Size { w: 10, h: 10 }, 0).is_some());
    s.focus_window(WindowId::new(1));
    s.handle_key_action(KeyAction::MoveToWorkspace(WorkspaceTarget::Number(10)));
    assert_eq!(s.get_window(WindowId::new(1)).unwrap().workspace, WorkspaceId::new(9));
    // next names no workspace for a move
    s.handle_key_action(KeyAction::MoveToWorkspace(WorkspaceTarget::Next));
    assert_eq!(s.get_window(WindowId::new(1)).unwrap().workspace, WorkspaceId::new(9));
}

#[test]
fn pressed_binding_swallows_its_release() {
    let mut s = configured();
    let m = mods(false, false, false, true);
    assert!(matches!(s.filter_key(false, false, m, Keysym::new(RETURN), None, KeyState::Pressed), FilterResult::Intercept(KeyAction::Run(_))));
    assert!(s.input_manager.is_key_suppressed(Keysym::new(RETURN)));
    assert!(matches!(s.filter_key(false, false, m, Keysym::new(RETURN), None, KeyState::Released), FilterResult::Intercept(KeyAction::NoAction)));
    assert!(!s.input_manager.is_key_suppressed(Keysym::new(RETURN)));
    // an unbound key passes both ways
    assert!(matches!(s.filter_key(false, false, m, Keysym::new(0x61), None, KeyState::Pressed), FilterResult::Forward));
    assert!(matches!(s.filter_key(false, false, m, Keysym::new(0x61), None, KeyState::Released), FilterResult::Forward));
    // a grabbed keyboard gets every key, inhibited shortcuts run nothing
    assert!(matches!(s.filter_key(true, false, m, Keysym::new(RETURN), None, KeyState::Pressed), FilterResult::Forward));
    assert!(matches!(s.filter_key(false, true, m, Keysym::new(RETURN), None, KeyState::Pressed), FilterResult::Forward));
}

#[test]
fn suppressed_keys_are_kept_once() {
    let mut im = InputManager::new();
    im.suppress_key(Keysym::new(1));
    im.suppress_key(Keysym::new(1));
    im.suppress_key(Keysym::new(2));
    assert_eq!(im.suppressed_keys.len(), 2);
    im.unsuppress_key(Keysym::new(1));
    assert!(!im.is_key_suppressed(Keysym::new(1)));
    assert!(im.is_key_suppressed(Keysym::new(2)));
    im.clear_suppressed_keys();
    assert!(im.suppressed_keys.is_empty());
}

#[test]
fn release_swallowed_after_other_keys() {
    let mut s = configured();
    let m = mods(false, false, false, true);
    assert!(matches!(s.filter_key(false, false, m, Keysym::new(RETURN), None, KeyState::Pressed), FilterResult::Intercept(KeyAction::Run(_))));
    // other keys go down and up in between
    assert!(matches!(s.filter_key(false, false, m, Keysym::new(0x61), None, KeyState::Pressed), FilterResult::Forward));
    assert!(matches!(s.filter_key(false, false, m, Keysym::new(0x61), None, KeyState::Released), FilterResult::Forward));
    assert!(s.input_manager.is_key_suppressed(Keysym::new(RETURN)));
    assert!(matches!(s.filter_key(false, false, m, Keysym::new(RETURN), None, KeyState::Released), FilterResult::Intercept(KeyAction::NoAction)));
    assert!(!s.input_manager.is_key_suppressed(Keysym::new(RETURN)));
}

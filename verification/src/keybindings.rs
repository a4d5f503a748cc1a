//! Key bindings: which action a key press asks for, and what the actions do
//! to the window-management state.
use crate::config::{clone_string, Command, Direction, Keybinding, Keysym, LayoutCommand, ModifiersState, WorkspaceTarget};
use crate::geometry::Rectangle;
use crate::state::{StateView, StilchState};
use crate::virtual_output::{output_view, vo_at_xy, vo_lookup, OutputView, VirtualOutput};
use crate::window::{registry_get, ManagedWindow, WindowId};
pub use crate::window::FullscreenMode;
pub use crate::workspace::SplitDirection;
use crate::workspace::{ws_lookup, WorkspaceId, WorkspaceView};
use vstd::prelude::*;

verus! {

#[derive(Debug, Clone)]
pub enum KeyAction<S = String> {
    /// Quit the compositor
    Quit,
    /// Switch to a VT
    VtSwitch(i32),
    /// run a command
    Run(S),
    /// Switch to a workspace
    Workspace(WorkspaceTarget<S>),
    /// Move window to workspace
    MoveToWorkspace(WorkspaceTarget<S>),
    /// Focus window in direction
    Focus(Direction),
    /// Move window in direction
    Move(Direction),
    /// Kill focused window
    Kill,
    /// Toggle fullscreen (default: virtual output)
    Fullscreen,
    /// Toggle container fullscreen
    FullscreenContainer,
    /// Toggle virtual output fullscreen
    FullscreenVirtualOutput,
    /// Toggle physical output fullscreen
    FullscreenPhysicalOutput,
    /// Toggle floating
    FloatingToggle,
    /// Reload config
    Reload,
    /// Scale output up
    ScaleUp,
    /// Scale output down
    ScaleDown,
    /// Rotate output
    RotateOutput,
    /// Toggle window preview
    TogglePreview,
    /// Toggle decorations
    ToggleDecorations,
    /// Switch screen/output (udev specific)
    Screen(usize),
    /// Toggle tint
    ToggleTint,
    /// Do nothing
    NoAction,
    /// Debug command to swap first two windows
    DebugSwapWindows,
    /// Set horizontal split
    SplitHorizontal,
    /// Set vertical split
    SplitVertical,
    /// Set automatic (BSP) split
    SplitAutomatic,
    /// Move workspace to output in direction
    MoveWorkspaceToOutput(Direction),
    /// Layout commands (tabbed, stacking, etc)
    Layout(LayoutCommand),
}

impl View for KeyAction<String> {
    type V = KeyAction<Seq<char>>;

    open spec fn view(&self) -> KeyAction<Seq<char>> {
        match self {
            KeyAction::Quit => KeyAction::Quit,
            KeyAction::VtSwitch(n) => KeyAction::VtSwitch(*n),
            KeyAction::Run(s) => KeyAction::Run(s@),
            KeyAction::Workspace(t) => KeyAction::Workspace(t@),
            KeyAction::MoveToWorkspace(t) => KeyAction::MoveToWorkspace(t@),
            KeyAction::Focus(d) => KeyAction::Focus(*d),
            KeyAction::Move(d) => KeyAction::Move(*d),
            KeyAction::Kill => KeyAction::Kill,
            KeyAction::Fullscreen => KeyAction::Fullscreen,
            KeyAction::FullscreenContainer => KeyAction::FullscreenContainer,
            KeyAction::FullscreenVirtualOutput => KeyAction::FullscreenVirtualOutput,
            KeyAction::FullscreenPhysicalOutput => KeyAction::FullscreenPhysicalOutput,
            KeyAction::FloatingToggle => KeyAction::FloatingToggle,
            KeyAction::Reload => KeyAction::Reload,
            KeyAction::ScaleUp => KeyAction::ScaleUp,
            KeyAction::ScaleDown => KeyAction::ScaleDown,
            KeyAction::RotateOutput => KeyAction::RotateOutput,
            KeyAction::TogglePreview => KeyAction::TogglePreview,
            KeyAction::ToggleDecorations => KeyAction::ToggleDecorations,
            KeyAction::Screen(i) => KeyAction::Screen(*i),
            KeyAction::ToggleTint => KeyAction::ToggleTint,
            KeyAction::NoAction => KeyAction::NoAction,
            KeyAction::DebugSwapWindows => KeyAction::DebugSwapWindows,
            KeyAction::SplitHorizontal => KeyAction::SplitHorizontal,
            KeyAction::SplitVertical => KeyAction::SplitVertical,
            KeyAction::SplitAutomatic => KeyAction::SplitAutomatic,
            KeyAction::MoveWorkspaceToOutput(d) => KeyAction::MoveWorkspaceToOutput(*d),
            KeyAction::Layout(l) => KeyAction::Layout(*l),
        }
    }
}

/// What a keyboard filter decides for a key: pass it on to the client, or
/// keep it and act on it.
#[derive(Debug, Clone, Copy, PartialEq, Eq)]
pub enum FilterResult<T> {
    Forward,
    Intercept(T),
}

/// Whether a key went down or up.
#[derive(Debug, Clone, Copy, PartialEq, Eq, Structural)]
pub enum KeyState {
    Released,
    Pressed,
}

/// The keysym of the BackSpace key.
pub const KEY_BACKSPACE: u32 = 0xff08;

/// The keysym that Ctrl+Alt+F1 gives (XF86Switch_VT_1); those of the other
/// terminals follow it up to XF86Switch_VT_12.
pub const KEY_SWITCH_VT_1: u32 = 0x1008fe01;

pub const KEY_SWITCH_VT_12: u32 = 0x1008fe0c;

/// The action a configured command asks for; commands that the compositor
/// does not implement ask for none.
pub open spec fn action_of(c: Command<Seq<char>>) -> Option<KeyAction<Seq<char>>> {
    match c {
        Command::Exec(cmd) => Some(KeyAction::Run(cmd)),
        Command::Kill => Some(KeyAction::Kill),
        Command::Exit => Some(KeyAction::Quit),
        Command::Reload => Some(KeyAction::Reload),
        Command::DebugSwapWindows => Some(KeyAction::DebugSwapWindows),
        Command::SplitHorizontal => Some(KeyAction::SplitHorizontal),
        Command::SplitVertical => Some(KeyAction::SplitVertical),
        Command::SplitAutomatic => Some(KeyAction::SplitAutomatic),
        Command::Workspace(t) => Some(KeyAction::Workspace(t)),
        Command::MoveToWorkspace(t) => Some(KeyAction::MoveToWorkspace(t)),
        Command::Focus(d) => Some(KeyAction::Focus(d)),
        Command::Move(d) => Some(KeyAction::Move(d)),
        Command::Fullscreen => Some(KeyAction::Fullscreen),
        Command::FullscreenContainer => Some(KeyAction::FullscreenContainer),
        Command::FullscreenVirtualOutput => Some(KeyAction::FullscreenVirtualOutput),
        Command::FullscreenPhysicalOutput => Some(KeyAction::FullscreenPhysicalOutput),
        Command::FloatingToggle => Some(KeyAction::FloatingToggle),
        Command::MoveWorkspaceToOutput(d) => Some(KeyAction::MoveWorkspaceToOutput(d)),
        Command::Layout(l) => Some(KeyAction::Layout(l)),
        _ => None,
    }
}

pub open spec fn opt_action_view(a: Option<KeyAction>) -> Option<KeyAction<Seq<char>>> {
    match a {
        Some(x) => Some(x@),
        None => None,
    }
}

/// Whether the modifiers held match those a binding asks for: Ctrl, Alt,
/// Shift and Logo alike (the lock keys do not count).
pub open spec fn modifiers_agree(current: ModifiersState, required: ModifiersState) -> bool {
    current.ctrl == required.ctrl && current.alt == required.alt && current.shift == required.shift
        && current.logo == required.logo
}

/// The action of the first binding for `key` whose modifiers match and
/// whose command the compositor implements.
pub open spec fn binding_action(
    bs: Seq<Keybinding<Seq<char>>>,
    mods: ModifiersState,
    key: Keysym,
) -> Option<KeyAction<Seq<char>>>
    decreases bs.len(),
{
    if bs.len() == 0 {
        None
    } else if bs[0].key == key && modifiers_agree(mods, bs[0].modifiers) && action_of(
        bs[0].command,
    ) is Some {
        action_of(bs[0].command)
    } else {
        binding_action(bs.drop_first(), mods, key)
    }
}

/// Whether binding `b` is for key `key` with exactly the Ctrl, Alt, Shift
/// and Logo state `mods` holds, and runs something the compositor does.
pub open spec fn fires(b: Keybinding<Seq<char>>, mods: ModifiersState, key: Keysym) -> bool {
    &&& b.key == key
    &&& b.modifiers.ctrl == mods.ctrl
    &&& b.modifiers.alt == mods.alt
    &&& b.modifiers.shift == mods.shift
    &&& b.modifiers.logo == mods.logo
    &&& action_of(b.command) is Some
}

/// Law: a key press runs the first binding for its key whose Ctrl, Alt,
/// Shift and Logo each equal what is held; where none does, no binding
/// runs. In particular a binding never fires when the held Shift differs
/// from its own.
pub proof fn law_binding_fires_on_exact_modifiers(bs: Seq<Keybinding<Seq<char>>>, mods: ModifiersState, key: Keysym)
    ensures
        binding_action(bs, mods, key) matches Some(a) ==> exists|i: int|
            0 <= i < bs.len() && #[trigger] fires(bs[i], mods, key) && action_of(bs[i].command) == Some(a)
                && forall|j: int| 0 <= j < i ==> !fires(#[trigger] bs[j], mods, key),
        binding_action(bs, mods, key) is None ==> forall|i: int| 0 <= i < bs.len() ==> !fires(#[trigger] bs[i], mods, key),
    decreases bs.len(),
{
    if bs.len() > 0 {
        law_binding_fires_on_exact_modifiers(bs.drop_first(), mods, key);
        let t = bs.drop_first();
        if fires(bs[0], mods, key) {
            assert(binding_action(bs, mods, key) == action_of(bs[0].command));
        } else {
            assert(binding_action(bs, mods, key) == binding_action(t, mods, key));
            if binding_action(t, mods, key) is Some {
                let a = binding_action(t, mods, key)->0;
                let i = choose|i: int|
                    0 <= i < t.len() && #[trigger] fires(t[i], mods, key) && action_of(t[i].command) == Some(a)
                        && forall|j: int| 0 <= j < i ==> !fires(#[trigger] t[j], mods, key);
                assert(bs[i + 1] == t[i]);
                assert forall|j: int| 0 <= j < i + 1 implies !fires(#[trigger] bs[j], mods, key) by {
                    if j > 0 {
                        assert(bs[j] == t[j - 1]);
                    }
                }
            } else {
                assert forall|i: int| 0 <= i < bs.len() implies !fires(#[trigger] bs[i], mods, key) by {
                    if i > 0 {
                        assert(bs[i] == t[i - 1]);
                    }
                }
            }
        }
    }
}

/// What a key event gives: a released key passes on; a pressed one runs
/// the first matching binding (matched on the raw keysym where there is
/// one); else Ctrl+Alt+BackSpace quits and Ctrl+Alt+F1 to F12 switch
/// terminals; anything else passes on.
pub open spec fn key_filter(
    bs: Seq<Keybinding<Seq<char>>>,
    mods: ModifiersState,
    modified: Keysym,
    raw: Option<Keysym>,
    state: KeyState,
) -> FilterResult<KeyAction<Seq<char>>> {
    let key = match raw {
        Some(k) => k,
        None => modified,
    };
    if state != KeyState::Pressed {
        FilterResult::Forward
    } else {
        match binding_action(bs, mods, key) {
            Some(a) => FilterResult::Intercept(a),
            None => if mods.ctrl && mods.alt && key.raw == KEY_BACKSPACE {
                FilterResult::Intercept(KeyAction::Quit)
            } else if KEY_SWITCH_VT_1 <= modified.raw <= KEY_SWITCH_VT_12 {
                FilterResult::Intercept(KeyAction::VtSwitch((modified.raw - KEY_SWITCH_VT_1 + 1) as i32))
            } else {
                FilterResult::Forward
            },
        }
    }
}

pub open spec fn filter_view(r: FilterResult<KeyAction>) -> FilterResult<KeyAction<Seq<char>>> {
    match r {
        FilterResult::Forward => FilterResult::Forward,
        FilterResult::Intercept(a) => FilterResult::Intercept(a@),
    }
}

/// A copy of a workspace target.
pub fn clone_target(t: &WorkspaceTarget) -> (r: WorkspaceTarget)
    ensures
        r@ == t@,
{
    match t {
        WorkspaceTarget::Number(n) => WorkspaceTarget::Number(*n),
        WorkspaceTarget::Name(s) => WorkspaceTarget::Name(clone_string(s)),
        WorkspaceTarget::Previous => WorkspaceTarget::Previous,
        WorkspaceTarget::Next => WorkspaceTarget::Next,
    }
}

impl StilchState {
    /// Whether the held modifiers match those a binding asks for.
    pub fn modifiers_match(&self, current: ModifiersState, required: ModifiersState) -> (b: bool)
        ensures
            b == modifiers_agree(current, required),
    {
        current.ctrl == required.ctrl && current.alt == required.alt && current.shift
            == required.shift && current.logo == required.logo
    }

    /// The action a configured command asks for.
    pub fn command_to_action(&self, command: &Command) -> (r: Option<KeyAction>)
        ensures
            opt_action_view(r) == action_of(command@),
    {
        match command {
            Command::Exec(cmd) => Some(KeyAction::Run(clone_string(cmd))),
            Command::Kill => Some(KeyAction::Kill),
            Command::Exit => Some(KeyAction::Quit),
            Command::Reload => Some(KeyAction::Reload),
            Command::DebugSwapWindows => Some(KeyAction::DebugSwapWindows),
            Command::SplitHorizontal => Some(KeyAction::SplitHorizontal),
            Command::SplitVertical => Some(KeyAction::SplitVertical),
            Command::SplitAutomatic => Some(KeyAction::SplitAutomatic),
            Command::Workspace(target) => Some(KeyAction::Workspace(clone_target(target))),
            Command::MoveToWorkspace(target) => Some(KeyAction::MoveToWorkspace(clone_target(target))),
            Command::Focus(dir) => Some(KeyAction::Focus(*dir)),
            Command::Move(dir) => Some(KeyAction::Move(*dir)),
            Command::Fullscreen => Some(KeyAction::Fullscreen),
            Command::FullscreenContainer => Some(KeyAction::FullscreenContainer),
            Command::FullscreenVirtualOutput => Some(KeyAction::FullscreenVirtualOutput),
            Command::FullscreenPhysicalOutput => Some(KeyAction::FullscreenPhysicalOutput),
            Command::FloatingToggle => Some(KeyAction::FloatingToggle),
            Command::MoveWorkspaceToOutput(dir) => Some(KeyAction::MoveWorkspaceToOutput(*dir)),
            Command::Layout(layout_cmd) => Some(KeyAction::Layout(*layout_cmd)),
            _ => None,
        }
    }

    /// What to do with a key event: run a binding's action, or pass the key
    /// on to the client.
    pub fn process_keybinding(
        &self,
        modifiers: ModifiersState,
        modified_keysym: Keysym,
        raw_keysym: Option<Keysym>,
        state: KeyState,
    ) -> (r: FilterResult<KeyAction>)
        ensures
            filter_view(r) == key_filter(self.config@.keybindings, modifiers, modified_keysym, raw_keysym, state),
    {
        if state != KeyState::Pressed {
            return FilterResult::Forward;
        }
        let keysym_for_binding = match raw_keysym {
            Some(k) => k,
            None => modified_keysym,
        };
        let ghost bs = self.config@.keybindings;
        let mut i: usize = 0;
        assert(bs.skip(0) =~= bs);
        while i < self.config.keybindings.len()
            invariant
                i <= self.config.keybindings.len(),
                bs == self.config@.keybindings,
                state == KeyState::Pressed,
                keysym_for_binding == (match raw_keysym {
                    Some(k) => k,
                    None => modified_keysym,
                }),
                binding_action(bs, modifiers, keysym_for_binding) == binding_action(
                    bs.skip(i as int),
                    modifiers,
                    keysym_for_binding,
                ),
            decreases self.config.keybindings.len() - i,
        {
            let binding = &self.config.keybindings[i];
            assert(bs.skip(i as int)[0] == binding@);
            if binding.key == keysym_for_binding {
                if self.modifiers_match(modifiers, binding.modifiers) {
                    if let Some(action) = self.command_to_action(&binding.command) {
                        assert(bs.skip(i as int).len() > 0);
                        assert(binding_action(bs.skip(i as int), modifiers, keysym_for_binding) == Some(
                            action@,
                        ));
                        return FilterResult::Intercept(action);
                    }
                }
            }
            assert(bs.skip(i as int).drop_first() =~= bs.skip(i + 1));
            i += 1;
        }
        if modifiers.ctrl && modifiers.alt && keysym_for_binding.raw == KEY_BACKSPACE {
            return FilterResult::Intercept(KeyAction::Quit);
        }
        let raw = modified_keysym.raw();
        if KEY_SWITCH_VT_1 <= raw && raw <= KEY_SWITCH_VT_12 {
            let vt = (raw - KEY_SWITCH_VT_1 + 1) as i32;
            return FilterResult::Intercept(KeyAction::VtSwitch(vt));
        }
        FilterResult::Forward
    }
}

/// Where directional focus moves: to a window, or to a virtual output that
/// shows no window.
#[derive(Debug, Clone, Copy, PartialEq, Eq, Structural)]
pub enum FocusTarget {
    Window(WindowId),
    EmptyVirtualOutput(usize),
}

/// Half of `n`, rounded toward zero as integer division does.
pub open spec fn half(n: int) -> int {
    if n >= 0 {
        n / 2
    } else {
        -((-n) / 2)
    }
}

pub open spec fn abs(n: int) -> int {
    if n < 0 {
        -n
    } else {
        n
    }
}

/// The centre of a placed window.
pub open spec fn center_of(w: ManagedWindow) -> (int, int) {
    let l = w.location->0;
    (l.x + half(w.size.w as int), l.y + half(w.size.h as int))
}

/// Where directional focus starts: the centre of the focused window where
/// it is placed, else the pointer.
pub open spec fn focus_point(c: StateView) -> (int, int) {
    let pointer = (c.pointer.x as int, c.pointer.y as int);
    match c.focus {
        Some(id) => match registry_get(c.registry, id) {
            Some(w) => if w.location is Some {
                center_of(w)
            } else {
                pointer
            },
            None => pointer,
        },
        None => pointer,
    }
}

/// Whether point `p` lies strictly in direction `d` from `cur`.
pub open spec fn in_direction(d: Direction, p: (int, int), cur: (int, int)) -> bool {
    match d {
        Direction::Left => p.0 < cur.0,
        Direction::Right => p.0 > cur.0,
        Direction::Up => p.1 < cur.1,
        Direction::Down => p.1 > cur.1,
    }
}

/// The distance that ranks windows on the current output: the offset along
/// the direction plus twice the offset across it.
pub open spec fn near_distance(d: Direction, p: (int, int), cur: (int, int)) -> int {
    let dx = abs(p.0 - cur.0);
    let dy = abs(p.1 - cur.1);
    match d {
        Direction::Left | Direction::Right => dx + 2 * dy,
        Direction::Up | Direction::Down => dy + 2 * dx,
    }
}

/// Twice the distance that ranks windows on a neighbouring output: the
/// offset along the direction plus half the offset across it (doubled, so
/// that it stays whole).
pub open spec fn far_distance(d: Direction, p: (int, int), cur: (int, int)) -> int {
    let dx = abs(p.0 - cur.0);
    let dy = abs(p.1 - cur.1);
    match d {
        Direction::Left | Direction::Right => 2 * dx + dy,
        Direction::Up | Direction::Down => 2 * dy + dx,
    }
}

/// The rank of window `id` as a focus candidate, where it is one: it must
/// be registered and placed, and on the current output lie in the direction.
pub open spec fn candidate(
    reg: Seq<ManagedWindow>,
    id: WindowId,
    d: Direction,
    cur: (int, int),
    near: bool,
) -> Option<int> {
    match registry_get(reg, id) {
        Some(w) => if w.location is Some {
            if near {
                if in_direction(d, center_of(w), cur) {
                    Some(near_distance(d, center_of(w), cur))
                } else {
                    None
                }
            } else {
                Some(far_distance(d, center_of(w), cur))
            }
        } else {
            None
        },
        None => None,
    }
}

/// The best candidate among `ids`, with its rank: the first of those with
/// the least rank.
pub open spec fn best_in(
    reg: Seq<ManagedWindow>,
    ids: Seq<WindowId>,
    d: Direction,
    cur: (int, int),
    near: bool,
) -> Option<(WindowId, int)>
    decreases ids.len(),
{
    if ids.len() == 0 {
        None
    } else {
        let b = best_in(reg, ids.drop_last(), d, cur, near);
        match candidate(reg, ids.last(), d, cur, near) {
            Some(dist) => match b {
                Some(bb) => if dist < bb.1 {
                    Some((ids.last(), dist))
                } else {
                    b
                },
                None => Some((ids.last(), dist)),
            },
            None => b,
        }
    }
}

/// Whether window `id` is one directional focus may move to from `cur`:
/// registered, placed, and with its centre strictly in direction `d`.
pub open spec fn lies_toward(reg: Seq<ManagedWindow>, id: WindowId, d: Direction, cur: (int, int)) -> bool {
    match registry_get(reg, id) {
        Some(w) => w.location is Some && {
            let p = center_of(w);
            match d {
                Direction::Left => p.0 < cur.0,
                Direction::Right => p.0 > cur.0,
                Direction::Up => p.1 < cur.1,
                Direction::Down => p.1 > cur.1,
            }
        },
        None => false,
    }
}

/// How far window `id` lies from `cur` for directional focus: its offset
/// along direction `d` plus twice its offset across it.
pub open spec fn along_plus_twice_across(reg: Seq<ManagedWindow>, id: WindowId, d: Direction, cur: (int, int)) -> int {
    let p = center_of(registry_get(reg, id)->0);
    match d {
        Direction::Left => (cur.0 - p.0) + 2 * abs(p.1 - cur.1),
        Direction::Right => (p.0 - cur.0) + 2 * abs(p.1 - cur.1),
        Direction::Up => (cur.1 - p.1) + 2 * abs(p.0 - cur.0),
        Direction::Down => (p.1 - cur.1) + 2 * abs(p.0 - cur.0),
    }
}

proof fn lemma_near_candidate(reg: Seq<ManagedWindow>, id: WindowId, d: Direction, cur: (int, int))
    ensures
        candidate(reg, id, d, cur, true) is Some <==> lies_toward(reg, id, d, cur),
        candidate(reg, id, d, cur, true) matches Some(t) ==> t == along_plus_twice_across(reg, id, d, cur),
{
}

/// The best window among `ids` on the current output is one that lies in
/// the direction and is nearest by `along_plus_twice_across`, the first of
/// the nearest; there is none only where no window lies that way.
pub proof fn lemma_best_near(reg: Seq<ManagedWindow>, ids: Seq<WindowId>, d: Direction, cur: (int, int))
    ensures
        best_in(reg, ids, d, cur, true) matches Some(b) ==> exists|k: int|
            0 <= k < ids.len() && #[trigger] ids[k] == b.0 && lies_toward(reg, b.0, d, cur) && b.1
                == along_plus_twice_across(reg, b.0, d, cur) && (forall|i: int|
                0 <= i < ids.len() && lies_toward(reg, #[trigger] ids[i], d, cur) ==> b.1
                    <= along_plus_twice_across(reg, ids[i], d, cur)) && (forall|i: int|
                0 <= i < k && lies_toward(reg, #[trigger] ids[i], d, cur) ==> b.1 < along_plus_twice_across(
                    reg,
                    ids[i],
                    d,
                    cur,
                )),
        best_in(reg, ids, d, cur, true) is None ==> forall|i: int|
            0 <= i < ids.len() ==> !lies_toward(reg, #[trigger] ids[i], d, cur),
    decreases ids.len(),
{
    if ids.len() > 0 {
        let init = ids.drop_last();
        lemma_best_near(reg, init, d, cur);
        lemma_near_candidate(reg, ids.last(), d, cur);
        assert forall|i: int| 0 <= i < init.len() implies init[i] == ids[i] by {}
        assert(ids[ids.len() - 1] == ids.last());
        if let Some(b) = best_in(reg, init, d, cur, true) {
            let k = choose|k: int|
                0 <= k < init.len() && #[trigger] init[k] == b.0 && lies_toward(reg, b.0, d, cur) && b.1
                    == along_plus_twice_across(reg, b.0, d, cur) && (forall|i: int|
                    0 <= i < init.len() && lies_toward(reg, #[trigger] init[i], d, cur) ==> b.1
                        <= along_plus_twice_across(reg, init[i], d, cur)) && (forall|i: int|
                    0 <= i < k && lies_toward(reg, #[trigger] init[i], d, cur) ==> b.1
                        < along_plus_twice_across(reg, init[i], d, cur));
            assert(ids[k] == b.0);
        }
    }
}

/// Law: where a window on the current output's workspace lies in direction
/// `d` from where focus starts, directional focus moves to such a window,
/// one whose offset along `d` plus twice its offset across `d` is least
/// among them, and the first such in the workspace's order (every window
/// before it that lies that way is strictly farther).
pub proof fn law_focus_picks_nearest_window(c: StateView, d: Direction, vid: usize, a: usize, w: WorkspaceView, i: int)
    requires
        vo_at_xy(c.outputs, focus_point(c).0, focus_point(c).1) == Some(vid),
        vo_lookup(c.outputs, vid) matches Some(cv) && cv.active_workspace == Some(a),
        ws_lookup(c.workspaces, WorkspaceId { id: a as u8 }) == Some(w),
        0 <= i < w.windows.len(),
        lies_toward(c.registry, w.windows[i], d, focus_point(c)),
    ensures
        focus_target(c, d) matches Some(FocusTarget::Window(t)) && exists|k: int|
            0 <= k < w.windows.len() && #[trigger] w.windows[k] == t && lies_toward(c.registry, t, d, focus_point(c))
                && (forall|j: int|
                0 <= j < w.windows.len() && lies_toward(c.registry, #[trigger] w.windows[j], d, focus_point(c))
                    ==> along_plus_twice_across(c.registry, t, d, focus_point(c)) <= along_plus_twice_across(
                    c.registry,
                    w.windows[j],
                    d,
                    focus_point(c),
                )) && (forall|j: int|
                0 <= j < k && lies_toward(c.registry, #[trigger] w.windows[j], d, focus_point(c))
                    ==> along_plus_twice_across(c.registry, t, d, focus_point(c)) < along_plus_twice_across(
                    c.registry,
                    w.windows[j],
                    d,
                    focus_point(c),
                )),
{
    lemma_best_near(c.registry, w.windows, d, focus_point(c));
}

/// Whether area `r` touches area `cur` on side `d`, with a gap of at most
/// ten pixels, and overlaps it across that side.
pub open spec fn adjacent(d: Direction, r: Rectangle, cur: Rectangle) -> bool {
    let (rx, ry, rw, rh) = (r.loc.x as int, r.loc.y as int, r.size.w as int, r.size.h as int);
    let (cx, cy, cw, ch) = (cur.loc.x as int, cur.loc.y as int, cur.size.w as int, cur.size.h as int);
    match d {
        Direction::Left => rx + rw <= cx && rx + rw >= cx - 10 && ry < cy + ch && ry + rh > cy,
        Direction::Right => rx >= cx + cw && rx <= cx + cw + 10 && ry < cy + ch && ry + rh > cy,
        Direction::Up => ry + rh <= cy && ry + rh >= cy - 10 && rx < cx + cw && rx + rw > cx,
        Direction::Down => ry >= cy + ch && ry <= cy + ch + 10 && rx < cx + cw && rx + rw > cx,
    }
}

/// Where focus goes on a neighbouring output `o`: the window its workspace
/// keeps focused, else its best-placed window, else the output itself.
pub open spec fn adjacent_target(c: StateView, o: OutputView, d: Direction, cur: (int, int)) -> FocusTarget {
    match o.active_workspace {
        Some(a) => match ws_lookup(c.workspaces, WorkspaceId { id: a as u8 }) {
            Some(w) => match w.focused_window {
                Some(f) if registry_get(c.registry, f) is Some => FocusTarget::Window(f),
                _ => match best_in(c.registry, w.windows, d, cur, false) {
                    Some(b) => FocusTarget::Window(b.0),
                    None => FocusTarget::EmptyVirtualOutput(o.id),
                },
            },
            None => FocusTarget::EmptyVirtualOutput(o.id),
        },
        None => FocusTarget::EmptyVirtualOutput(o.id),
    }
}

/// The target on the first output of `outs`, other than `cur_id`, that
/// neighbours `cur_region` in direction `d`.
pub open spec fn first_adjacent(
    c: StateView,
    outs: Seq<OutputView>,
    cur_id: usize,
    cur_region: Rectangle,
    d: Direction,
    cur: (int, int),
) -> Option<FocusTarget>
    decreases outs.len(),
{
    if outs.len() == 0 {
        None
    } else if outs[0].id != cur_id && adjacent(d, outs[0].region, cur_region) {
        Some(adjacent_target(c, outs[0], d, cur))
    } else {
        first_adjacent(c, outs.drop_first(), cur_id, cur_region, d, cur)
    }
}

/// Where focus moves in direction `d`: the best window in that direction on
/// the current output's workspace, else the target on the first
/// neighbouring output that way.
pub open spec fn focus_target(c: StateView, d: Direction) -> Option<FocusTarget> {
    let cur = focus_point(c);
    match vo_at_xy(c.outputs, cur.0, cur.1) {
        None => None,
        Some(vid) => match vo_lookup(c.outputs, vid) {
            None => None,
            Some(cv) => {
                let near = match cv.active_workspace {
                    Some(a) => match ws_lookup(c.workspaces, WorkspaceId { id: a as u8 }) {
                        Some(w) => best_in(c.registry, w.windows, d, cur, true),
                        None => None,
                    },
                    None => None,
                };
                match near {
                    Some(b) => Some(FocusTarget::Window(b.0)),
                    None => first_adjacent(c, c.outputs, vid, cv.region, d, cur),
                }
            },
        },
    }
}

/// Coordinates that a point in 32-bit space and a window centre stay within.
pub open spec fn coord_ok(n: int) -> bool {
    -0x1_0000_0000 <= n <= 0x1_0000_0000
}

fn half_exec(n: i32) -> (r: i64)
    ensures
        r == half(n as int),
        -0x4000_0000 <= r <= 0x4000_0000,
{
    if n >= 0 {
        (n / 2) as i64
    } else {
        let m: i64 = -(n as i64);
        -(m / 2)
    }
}

fn center_exec(w: &ManagedWindow) -> (r: (i64, i64))
    requires
        w.location is Some,
    ensures
        (r.0 as int, r.1 as int) == center_of(*w),
        coord_ok(r.0 as int),
        coord_ok(r.1 as int),
{
    let l = w.location.unwrap();
    (l.x as i64 + half_exec(w.size.w), l.y as i64 + half_exec(w.size.h))
}

fn abs_exec(n: i64) -> (r: i64)
    requires
        -0x1_0000_0000_0000 <= n <= 0x1_0000_0000_0000,
    ensures
        r == abs(n as int),
{
    if n < 0 {
        -n
    } else {
        n
    }
}

impl StilchState {
    /// Where directional focus starts.
    fn focus_point_exec(&self) -> (r: (i64, i64))
        ensures
            (r.0 as int, r.1 as int) == focus_point(self@),
            coord_ok(r.0 as int),
            coord_ok(r.1 as int),
    {
        let pointer = (self.pointer_location.x as i64, self.pointer_location.y as i64);
        match self.focused_window {
            Some(id) => match self.window_registry.get(id) {
                Some(w) => if w.location.is_some() {
                    center_exec(&w)
                } else {
                    pointer
                },
                None => pointer,
            },
            None => pointer,
        }
    }

    /// The best focus candidate among the windows `ids`.
    fn best_window(&self, ids: &Vec<WindowId>, d: Direction, cur: (i64, i64), near: bool) -> (r: Option<
        (WindowId, i64),
    >)
        requires
            coord_ok(cur.0 as int),
            coord_ok(cur.1 as int),
        ensures
            match best_in(self@.registry, ids@, d, (cur.0 as int, cur.1 as int), near) {
                Some(b) => r matches Some(x) && x.0 == b.0 && x.1 == b.1,
                None => r is None,
            },
    {
        let ghost cv = (cur.0 as int, cur.1 as int);
        let mut best: Option<(WindowId, i64)> = None;
        let mut i: usize = 0;
        while i < ids.len()
            invariant
                i <= ids.len(),
                cv == (cur.0 as int, cur.1 as int),
                coord_ok(cur.0 as int),
                coord_ok(cur.1 as int),
                match best_in(self@.registry, ids@.take(i as int), d, cv, near) {
                    Some(b) => best matches Some(x) && x.0 == b.0 && x.1 == b.1,
                    None => best is None,
                },
            decreases ids.len() - i,
        {
            let id = ids[i];
            assert(ids@.take(i + 1).drop_last() =~= ids@.take(i as int));
            assert(ids@.take(i + 1).last() == id);
            match self.window_registry.get(id) {
                Some(w) => {
                    if w.location.is_some() {
                        let p = center_exec(&w);
                        let dx = abs_exec(p.0 - cur.0);
                        let dy = abs_exec(p.1 - cur.1);
                        let in_dir = match d {
                            Direction::Left => p.0 < cur.0,
                            Direction::Right => p.0 > cur.0,
                            Direction::Up => p.1 < cur.1,
                            Direction::Down => p.1 > cur.1,
                        };
                        let dist = if near {
                            match d {
                                Direction::Left | Direction::Right => dx + 2 * dy,
                                Direction::Up | Direction::Down => dy + 2 * dx,
                            }
                        } else {
                            match d {
                                Direction::Left | Direction::Right => 2 * dx + dy,
                                Direction::Up | Direction::Down => 2 * dy + dx,
                            }
                        };
                        if !near || in_dir {
                            match best {
                                Some(b) => {
                                    if dist < b.1 {
                                        best = Some((id, dist));
                                    }
                                },
                                None => {
                                    best = Some((id, dist));
                                },
                            }
                        }
                    }
                },
                None => {},
            }
            i += 1;
        }
        assert(ids@.take(ids.len() as int) =~= ids@);
        best
    }

    /// Where focus goes on a neighbouring output.
    fn adjacent_target_exec(&self, o: &VirtualOutput, d: Direction, cur: (i64, i64)) -> (r: FocusTarget)
        requires
            coord_ok(cur.0 as int),
            coord_ok(cur.1 as int),
        ensures
            r == adjacent_target(self@, output_view(*o), d, (cur.0 as int, cur.1 as int)),
    {
        if let Some(a) = o.active_workspace {
            if let Some(w) = self.workspace_manager.get_workspace(WorkspaceId::new(#[verifier::truncate] (a as u8))) {
                if let Some(f) = w.focused_window {
                    if self.window_registry.get(f).is_some() {
                        return FocusTarget::Window(f);
                    }
                }
                return match self.best_window(&w.windows, d, cur, false) {
                    Some(b) => FocusTarget::Window(b.0),
                    None => FocusTarget::EmptyVirtualOutput(o.id),
                };
            }
        }
        FocusTarget::EmptyVirtualOutput(o.id)
    }

    /// Find the next focus target in the given direction
    pub fn find_focus_target_in_direction(&self, direction: Direction) -> (r: Option<FocusTarget>)
        ensures
            r == focus_target(self@, direction),
    {
        let cur = self.focus_point_exec();
        let current_vo_id = match self.virtual_output_manager.virtual_output_at_xy(cur.0, cur.1) {
            Some(id) => id,
            None => {
                return None;
            },
        };
        let current_vo = match self.virtual_output_manager.get(current_vo_id) {
            Some(vo) => vo,
            None => {
                return None;
            },
        };
        let current_region = current_vo.logical_region();
        if let Some(active_ws) = current_vo.active_workspace() {
            if let Some(workspace) = self.workspace_manager.get_workspace(WorkspaceId::new(#[verifier::truncate] (active_ws as u8))) {
                if let Some(b) = self.best_window(&workspace.windows, direction, cur, true) {
                    return Some(FocusTarget::Window(b.0));
                }
            }
        }
        let ghost c = self@;
        let ghost cv = (cur.0 as int, cur.1 as int);
        let outputs = self.virtual_output_manager.outputs();
        let ghost ov = c.outputs;
        let mut i: usize = 0;
        assert(ov.skip(0) =~= ov);
        assert(focus_target(c, direction) == first_adjacent(c, ov, current_vo_id, current_region, direction, cv));
        while i < outputs.len()
            invariant
                i <= outputs.len(),
                c == self@,
                focus_target(c, direction) == first_adjacent(c, ov, current_vo_id, current_region, direction, cv),
                ov == c.outputs,
                ov == crate::virtual_output::outputs_view(outputs@),
                cv == (cur.0 as int, cur.1 as int),
                coord_ok(cur.0 as int),
                coord_ok(cur.1 as int),
                first_adjacent(c, ov, current_vo_id, current_region, direction, cv) == first_adjacent(
                    c,
                    ov.skip(i as int),
                    current_vo_id,
                    current_region,
                    direction,
                    cv,
                ),
            decreases outputs.len() - i,
        {
            let vo = &outputs[i];
            assert(ov.skip(i as int)[0] == output_view(*vo));
            assert(ov.skip(i as int).len() > 0);
            let r = vo.region;
            let (rx, ry, rw, rh) = (r.loc.x as i64, r.loc.y as i64, r.size.w as i64, r.size.h as i64);
            let (cx, cy, cw, ch) = (
                current_region.loc.x as i64,
                current_region.loc.y as i64,
                current_region.size.w as i64,
                current_region.size.h as i64,
            );
            let is_adjacent = match direction {
                Direction::Left => rx + rw <= cx && rx + rw >= cx - 10 && ry < cy + ch && ry + rh > cy,
                Direction::Right => rx >= cx + cw && rx <= cx + cw + 10 && ry < cy + ch && ry + rh > cy,
                Direction::Up => ry + rh <= cy && ry + rh >= cy - 10 && rx < cx + cw && rx + rw > cx,
                Direction::Down => ry >= cy + ch && ry <= cy + ch + 10 && rx < cx + cw && rx + rw > cx,
            };
            if vo.id != current_vo_id && is_adjacent {
                return Some(self.adjacent_target_exec(vo, direction, cur));
            }
            assert(ov.skip(i as int).drop_first() =~= ov.skip(i + 1));
            i += 1;
        }
        None
    }
}



/// The outside work a key action leaves: what the compositor must still do
/// with its outputs, its clients and its layouts.
#[derive(Debug, Clone)]
pub enum KeyEffect<S = String> {
    /// Nothing is left to do
    Done,
    /// Start `sh -c command`; where the focus (or the pointer) is on a
    /// virtual output, its name and area go into the environment
    Spawn { command: S, output: Option<(S, Rectangle)> },
    /// Ask this window to close
    CloseWindow(WindowId),
    /// Move a window within its workspace's layout
    MoveWindow(WindowId, Direction),
    /// Toggle the focused window's fullscreen in this mode (the area of the
    /// physical output it is on goes with it: see `toggle_fullscreen`)
    ToggleFullscreen(FullscreenMode),
    /// Lay out this workspace again
    Relayout(WorkspaceId),
    /// Scale the first output up (true) or down (false)
    ScaleOutput(bool),
    /// Rotate the first output a quarter turn
    RotateOutput,
    ToggleDecorations,
    /// Move the pointer to the centre of the physical output with this index
    FocusScreen(usize),
    /// Change the layout of the focused window's container in this
    /// workspace as the command says (a split it sets is set already), and
    /// lay the workspace out again
    Layout(LayoutCommand, WorkspaceId),
}

impl View for KeyEffect<String> {
    type V = KeyEffect<Seq<char>>;

    open spec fn view(&self) -> KeyEffect<Seq<char>> {
        match self {
            KeyEffect::Done => KeyEffect::Done,
            KeyEffect::Spawn { command, output } => KeyEffect::Spawn {
                command: command@,
                output: match output {
                    Some(o) => Some((o.0@, o.1)),
                    None => None,
                },
            },
            KeyEffect::CloseWindow(w) => KeyEffect::CloseWindow(*w),
            KeyEffect::MoveWindow(w, d) => KeyEffect::MoveWindow(*w, *d),
            KeyEffect::ToggleFullscreen(m) => KeyEffect::ToggleFullscreen(*m),
            KeyEffect::Relayout(ws) => KeyEffect::Relayout(*ws),
            KeyEffect::ScaleOutput(up) => KeyEffect::ScaleOutput(*up),
            KeyEffect::RotateOutput => KeyEffect::RotateOutput,
            KeyEffect::ToggleDecorations => KeyEffect::ToggleDecorations,
            KeyEffect::FocusScreen(i) => KeyEffect::FocusScreen(*i),
            KeyEffect::Layout(l, ws) => KeyEffect::Layout(*l, *ws),
        }
    }
}

/// The index of the workspace a target names, from the one `active` shows:
/// numbers 1 to 10 name indexes 0 to 9, `next` names the one after the
/// active one up to the last; previous and named workspaces name none.
pub open spec fn target_index(t: WorkspaceTarget<Seq<char>>, active: Option<usize>) -> Option<usize> {
    match t {
        WorkspaceTarget::Number(n) => if 1 <= n <= 10 {
            Some((n - 1) as usize)
        } else {
            None
        },
        WorkspaceTarget::Next => match active {
            Some(cur) => if cur < 9 {
                Some((cur + 1) as usize)
            } else {
                None
            },
            None => None,
        },
        _ => None,
    }
}

/// The state after a workspace switch by key: the output under the pointer
/// switches to the workspace the target names.
pub open spec fn view_workspace_key(c: StateView, t: WorkspaceTarget<Seq<char>>) -> StateView {
    match crate::virtual_output::vo_at(c.outputs, c.pointer) {
        Some(vo) => match vo_lookup(c.outputs, vo) {
            Some(o) => match target_index(t, o.active_workspace) {
                Some(idx) => crate::state::view_switch(c, vo, WorkspaceId { id: idx as u8 }),
                None => c,
            },
            None => c,
        },
        None => c,
    }
}

/// The state after a move to a workspace by key: the focused window moves
/// to the workspace numbered 1 to 10 that the target names.
pub open spec fn view_move_key(c: StateView, t: WorkspaceTarget<Seq<char>>) -> StateView {
    match c.focus {
        Some(f) => if registry_get(c.registry, f) is Some {
            match t {
                WorkspaceTarget::Number(n) => if 1 <= n <= 10 {
                    crate::state::view_move_to_workspace(c, f, WorkspaceId { id: (n - 1) as u8 })
                } else {
                    c
                },
                _ => c,
            }
        } else {
            c
        },
        None => c,
    }
}

/// The state after directional focus: the target window takes focus and
/// the pointer moves to its centre; an empty output takes focus instead.
pub open spec fn view_focus_key(c: StateView, d: Direction) -> StateView {
    match focus_target(c, d) {
        Some(FocusTarget::Window(w)) => crate::shell::view_center_pointer(
            crate::state::view_focus(c, w),
            w,
        ),
        Some(FocusTarget::EmptyVirtualOutput(vo)) => crate::shell::view_focus_output(c, vo),
        None => c,
    }
}

/// Where a program started by key runs: the top-left corner of the focused
/// window where it is placed, else the pointer.
pub open spec fn run_point(c: StateView) -> crate::geometry::Point {
    match c.focus {
        Some(id) => match registry_get(c.registry, id) {
            Some(w) => match w.location {
                Some(l) => l,
                None => c.pointer,
            },
            None => c.pointer,
        },
        None => c.pointer,
    }
}

/// The state after a layout command for the focused window, and the
/// workspace it is on, to lay out again: a split command sets how that
/// workspace splits next; the others change the window's container, which
/// the layout does.
pub open spec fn view_layout_command(c: StateView, l: LayoutCommand) -> (StateView, Option<WorkspaceId>) {
    match c.focus {
        Some(f) => match registry_get(c.registry, f) {
            Some(mw) => {
                let ws = mw.workspace;
                match l {
                    LayoutCommand::SplitH => (
                        StateView {
                            workspaces: crate::shell::set_split_in(c.workspaces, ws, SplitDirection::Horizontal),
                            ..c
                        },
                        Some(ws),
                    ),
                    LayoutCommand::SplitV => (
                        StateView {
                            workspaces: crate::shell::set_split_in(c.workspaces, ws, SplitDirection::Vertical),
                            ..c
                        },
                        Some(ws),
                    ),
                    _ => (c, Some(ws)),
                }
            },
            None => (c, None),
        },
        None => (c, None),
    }
}

/// The state after a key action.
pub open spec fn key_action_state(c: StateView, a: KeyAction<Seq<char>>) -> StateView {
    match a {
        KeyAction::Quit => StateView { running: false, ..c },
        KeyAction::Workspace(t) => view_workspace_key(c, t),
        KeyAction::MoveToWorkspace(t) => view_move_key(c, t),
        KeyAction::Focus(d) => view_focus_key(c, d),
        KeyAction::DebugSwapWindows => crate::shell::view_debug_swap(c),
        KeyAction::Kill => crate::xdg::view_close_focused(c).0,
        KeyAction::FloatingToggle => crate::fullscreen::view_toggle_floating(c).0,
        KeyAction::SplitHorizontal => crate::shell::view_set_split(c, SplitDirection::Horizontal),
        KeyAction::SplitVertical => crate::shell::view_set_split(c, SplitDirection::Vertical),
        KeyAction::SplitAutomatic => crate::shell::view_set_split_automatic(c),
        KeyAction::Layout(l) => view_layout_command(c, l).0,
        KeyAction::TogglePreview => StateView { preview: !c.preview, ..c },
        KeyAction::MoveWorkspaceToOutput(d) => crate::state::view_move_workspace(c, d),
        _ => c,
    }
}

/// The outside work a key action leaves (for `Run`, see `run_point`).
pub open spec fn key_action_effect(c: StateView, a: KeyAction<Seq<char>>) -> Option<KeyEffect<Seq<char>>> {
    match a {
        KeyAction::Run(_) => None,
        KeyAction::Kill => match crate::xdg::view_close_focused(c).1 {
            Some(w) => Some(KeyEffect::CloseWindow(w)),
            None => Some(KeyEffect::Done),
        },
        KeyAction::Move(d) => match c.focus {
            Some(f) => Some(KeyEffect::MoveWindow(f, d)),
            None => Some(KeyEffect::Done),
        },
        KeyAction::Fullscreen => Some(KeyEffect::ToggleFullscreen(FullscreenMode::VirtualOutput)),
        KeyAction::FullscreenContainer => Some(KeyEffect::ToggleFullscreen(FullscreenMode::Container)),
        KeyAction::FullscreenVirtualOutput => Some(KeyEffect::ToggleFullscreen(FullscreenMode::VirtualOutput)),
        KeyAction::FullscreenPhysicalOutput => Some(KeyEffect::ToggleFullscreen(FullscreenMode::PhysicalOutput)),
        KeyAction::FloatingToggle => match crate::fullscreen::view_toggle_floating(c).1 {
            Some(ws) => Some(KeyEffect::Relayout(ws)),
            None => Some(KeyEffect::Done),
        },
        KeyAction::ScaleUp => Some(KeyEffect::ScaleOutput(true)),
        KeyAction::ScaleDown => Some(KeyEffect::ScaleOutput(false)),
        KeyAction::RotateOutput => Some(KeyEffect::RotateOutput),
        KeyAction::ToggleDecorations => Some(KeyEffect::ToggleDecorations),
        KeyAction::Screen(i) => Some(KeyEffect::FocusScreen(i)),
        KeyAction::Layout(l) => match view_layout_command(c, l).1 {
            Some(ws) => Some(KeyEffect::Layout(l, ws)),
            None => Some(KeyEffect::Done),
        },
        _ => Some(KeyEffect::Done),
    }
}

impl StilchState {
    /// The output a program started by key runs on, with its name and area.
    fn run_output(&self) -> (r: Option<(String, Rectangle)>)
        ensures
            match crate::virtual_output::vo_at(self@.outputs, run_point(self@)) {
                Some(vo) => match vo_lookup(self@.outputs, vo) {
                    Some(o) => r matches Some(x) && x.1 == o.region && x.0@ == o.name,
                    None => r is None,
                },
                None => r is None,
            },
    {
        let location = match self.focused_window {
            Some(id) => match self.window_registry.get(id) {
                Some(w) => match w.location {
                    Some(l) => l,
                    None => self.pointer_location,
                },
                None => self.pointer_location,
            },
            None => self.pointer_location,
        };
        match self.virtual_output_manager.virtual_output_at(location) {
            Some(vo) => match self.virtual_output_manager.get(vo) {
                Some(o) => Some((clone_string(&o.name), o.logical_region())),
                None => None,
            },
            None => None,
        }
    }

    /// Carries out a key action on the state, and gives back the outside
    /// work that it leaves.
    pub fn handle_key_action(&mut self, action: KeyAction) -> (e: KeyEffect)
        requires
            old(self).wf(),
        ensures
            final(self)@ == key_action_state(old(self)@, action@),
            final(self).config == old(self).config,
            final(self).wf(),
            match key_action_effect(old(self)@, action@) {
                Some(k) => e@ == k,
                None => e matches KeyEffect::Spawn { command, output } && action@ == KeyAction::<
                    Seq<char>,
                >::Run(command@) && match crate::virtual_output::vo_at(
                    old(self)@.outputs,
                    run_point(old(self)@),
                ) {
                    Some(vo) => match vo_lookup(old(self)@.outputs, vo) {
                        Some(o) => output matches Some(x) && x.1 == o.region && x.0@ == o.name,
                        None => output is None,
                    },
                    None => output is None,
                },
            },
    {
        match action {
            KeyAction::Quit => {
                self.running = false;
                KeyEffect::Done
            },
            KeyAction::Run(cmd) => {
                let output = self.run_output();
                KeyEffect::Spawn { command: cmd, output }
            },
            KeyAction::Kill => match self.close_focused_window() {
                Some(w) => KeyEffect::CloseWindow(w),
                None => KeyEffect::Done,
            },
            KeyAction::Workspace(target) => {
                self.workspace_key(&target);
                KeyEffect::Done
            },
            KeyAction::MoveToWorkspace(target) => {
                self.move_key(&target);
                KeyEffect::Done
            },
            KeyAction::Focus(dir) => {
                match self.find_focus_target_in_direction(dir) {
                    Some(FocusTarget::Window(w)) => {
                        self.focus_window(w);
                        self.center_pointer_on_window(w);
                    },
                    Some(FocusTarget::EmptyVirtualOutput(vo)) => {
                        self.focus_virtual_output(vo);
                    },
                    None => {},
                }
                KeyEffect::Done
            },
            KeyAction::Move(dir) => match self.focused_window {
                Some(f) => KeyEffect::MoveWindow(f, dir),
                None => KeyEffect::Done,
            },
            KeyAction::DebugSwapWindows => {
                self.debug_swap_windows();
                KeyEffect::Done
            },
            KeyAction::SplitHorizontal => {
                self.set_split_direction(SplitDirection::Horizontal);
                KeyEffect::Done
            },
            KeyAction::SplitVertical => {
                self.set_split_direction(SplitDirection::Vertical);
                KeyEffect::Done
            },
            KeyAction::SplitAutomatic => {
                self.set_split_direction_automatic();
                KeyEffect::Done
            },
            KeyAction::Fullscreen => KeyEffect::ToggleFullscreen(FullscreenMode::VirtualOutput),
            KeyAction::FullscreenContainer => KeyEffect::ToggleFullscreen(FullscreenMode::Container),
            KeyAction::FullscreenVirtualOutput => KeyEffect::ToggleFullscreen(FullscreenMode::VirtualOutput),
            KeyAction::FullscreenPhysicalOutput => KeyEffect::ToggleFullscreen(FullscreenMode::PhysicalOutput),
            KeyAction::FloatingToggle => match self.toggle_floating() {
                Some(ws) => KeyEffect::Relayout(ws),
                None => KeyEffect::Done,
            },
            KeyAction::Reload => KeyEffect::Done,
            KeyAction::ScaleUp => KeyEffect::ScaleOutput(true),
            KeyAction::ScaleDown => KeyEffect::ScaleOutput(false),
            KeyAction::RotateOutput => KeyEffect::RotateOutput,
            KeyAction::TogglePreview => {
                self.show_window_preview = !self.show_window_preview;
                KeyEffect::Done
            },
            KeyAction::ToggleDecorations => KeyEffect::ToggleDecorations,
            KeyAction::Screen(idx) => KeyEffect::FocusScreen(idx),
            KeyAction::ToggleTint => KeyEffect::Done,
            KeyAction::VtSwitch(_) => KeyEffect::Done,
            KeyAction::MoveWorkspaceToOutput(direction) => {
                self.move_workspace_to_output(direction);
                KeyEffect::Done
            },
            KeyAction::Layout(layout_cmd) => match self.handle_layout_command(layout_cmd) {
                Some(ws) => KeyEffect::Layout(layout_cmd, ws),
                None => KeyEffect::Done,
            },
            KeyAction::NoAction => KeyEffect::Done,
        }
    }

    /// Carries out a layout command for the focused window: a split
    /// command sets how its workspace splits next. The workspace to lay out
    /// again (where the other commands also change the window's container).
    pub fn handle_layout_command(&mut self, layout_cmd: LayoutCommand) -> (r: Option<WorkspaceId>)
        requires
            old(self).wf(),
        ensures
            (final(self)@, r) == view_layout_command(old(self)@, layout_cmd),
            final(self).config == old(self).config,
            final(self).wf(),
    {
        let f = match self.focused_window {
            Some(f) => f,
            None => {
                return None;
            },
        };
        let ws = match self.window_registry.get(f) {
            Some(mw) => mw.workspace,
            None => {
                return None;
            },
        };
        match layout_cmd {
            LayoutCommand::SplitH => {
                self.workspace_manager.set_next_split(ws, SplitDirection::Horizontal);
            },
            LayoutCommand::SplitV => {
                self.workspace_manager.set_next_split(ws, SplitDirection::Vertical);
            },
            _ => {},
        }
        Some(ws)
    }

    /// Switches the output under the pointer to the workspace a target names.
    fn workspace_key(&mut self, target: &WorkspaceTarget)
        requires
            old(self).wf(),
        ensures
            final(self)@ == view_workspace_key(old(self)@, target@),
            final(self).config == old(self).config,
            final(self).wf(),
    {
        let vo = match self.virtual_output_manager.virtual_output_at(self.pointer_location) {
            Some(vo) => vo,
            None => {
                return ;
            },
        };
        let active = match self.virtual_output_manager.get(vo) {
            Some(o) => o.active_workspace,
            None => {
                return ;
            },
        };
        let idx: Option<usize> = match target {
            WorkspaceTarget::Number(n) => if *n >= 1 && *n <= 10 {
                Some((*n - 1) as usize)
            } else {
                None
            },
            WorkspaceTarget::Next => match active {
                Some(cur) => if cur < 9 {
                    Some(cur + 1)
                } else {
                    None
                },
                None => None,
            },
            _ => None,
        };
        if let Some(idx) = idx {
            self.switch_to_workspace(vo, idx);
        }
    }

    /// Moves the focused window to the workspace numbered 1 to 10 that a
    /// target names.
    fn move_key(&mut self, target: &WorkspaceTarget)
        requires
            old(self).wf(),
        ensures
            final(self)@ == view_move_key(old(self)@, target@),
            final(self).config == old(self).config,
            final(self).wf(),
    {
        let f = match self.focused_window {
            Some(f) => f,
            None => {
                return ;
            },
        };
        if self.window_registry.get(f).is_none() {
            return ;
        }
        match target {
            WorkspaceTarget::Number(n) => {
                if *n >= 1 && *n <= 10 {
                    self.move_window_to_workspace_by_id(f, WorkspaceId::new(*n - 1));
                }
            },
            _ => {},
        }
    }
}

} // verus!

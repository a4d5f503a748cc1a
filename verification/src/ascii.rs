//! The text commands that drive the ASCII test backend, and the window
//! records it draws.
use crate::geometry::{Rectangle, Size};
use crate::text::{
    chars_of, eq_str, fields, parse_int, parse_i32, parse_u32, slice, split_char, split_whitespace,
    starts_with, string_of, views, words,
};
use crate::state::{StateView, StilchState};
use crate::window::{registry_get, WindowId, WindowLayout};
use crate::workspace::{ws_lookup, WorkspaceId};
use vstd::prelude::*;

verus! {

/// Information about a window's tab container
#[derive(Debug, Clone, Copy, PartialEq, Eq, Structural)]
pub struct TabInfo {
    /// Total number of tabs in the container
    pub total_tabs: usize,
    /// This window's position in the tab list (0-indexed)
    pub tab_index: usize,
    /// Whether this is the active (visible) tab
    pub is_active: bool,
}

/// Window state for rendering
#[derive(Debug, Clone, Copy, PartialEq, Eq, Structural)]
pub struct AsciiWindow {
    pub id: WindowId,
    pub bounds: Rectangle,
    pub focused: bool,
    pub floating: bool,
    pub fullscreen: bool,
    pub urgent: bool,
    /// If this window is in a tabbed container, this contains tab info
    pub tab_info: Option<TabInfo>,
}

/// Command for controlling the ASCII backend
#[derive(Debug, Clone)]
pub enum AsciiCommand<S = String> {
    CreateWindow { id: WindowId, size: Size },
    DestroyWindow { id: WindowId },
    FocusWindow { id: WindowId },
    SetLayout { layout: S },
    MoveWindow { id: WindowId, workspace: usize },
    Fullscreen { id: WindowId, mode: S },
    GetState,
    GetWindows,
}

impl View for AsciiCommand<String> {
    type V = AsciiCommand<Seq<char>>;

    open spec fn view(&self) -> AsciiCommand<Seq<char>> {
        match self {
            AsciiCommand::CreateWindow { id, size } => AsciiCommand::CreateWindow { id: *id, size: *size },
            AsciiCommand::DestroyWindow { id } => AsciiCommand::DestroyWindow { id: *id },
            AsciiCommand::FocusWindow { id } => AsciiCommand::FocusWindow { id: *id },
            AsciiCommand::SetLayout { layout } => AsciiCommand::SetLayout { layout: layout@ },
            AsciiCommand::MoveWindow { id, workspace } => AsciiCommand::MoveWindow {
                id: *id,
                workspace: *workspace,
            },
            AsciiCommand::Fullscreen { id, mode } => AsciiCommand::Fullscreen { id: *id, mode: mode@ },
            AsciiCommand::GetState => AsciiCommand::GetState,
            AsciiCommand::GetWindows => AsciiCommand::GetWindows,
        }
    }
}

/// Conditions to wait for
#[derive(Debug, Clone, Copy, PartialEq, Eq, Structural)]
pub enum WaitCondition {
    /// Wait for a specific number of windows
    WindowCount(usize),
    /// Wait for a window to be focused
    WindowFocused(WindowId),
    /// Wait for a specific workspace to be active
    WorkspaceActive(WorkspaceId),
}

/// Commands that can be sent to the test compositor
#[derive(Debug, Clone)]
pub enum TestCommand {
    /// ASCII backend command
    Ascii(AsciiCommand),
    /// Wait for a condition
    WaitFor(WaitCondition),
    /// Shutdown the compositor
    Shutdown,
}

/// The rest of `s` after the prefix `p`, where `s` starts with it.
pub open spec fn strip(s: Seq<char>, p: Seq<char>) -> Option<Seq<char>> {
    if starts_with(s, p) {
        Some(s.skip(p.len() as int))
    } else {
        None
    }
}

/// A window identity written in decimal.
pub open spec fn parse_window_id(s: Seq<char>) -> Option<WindowId> {
    match parse_int(s, 0, u32::MAX as int) {
        Some(n) => Some(WindowId { id: n as u32 }),
        None => None,
    }
}

/// A size written `WxH`.
pub open spec fn parse_size(s: Seq<char>) -> Option<Size> {
    let dims = fields(s, 'x');
    if dims.len() == 2 {
        match (parse_int(dims[0], i32::MIN as int, i32::MAX as int), parse_int(dims[1], i32::MIN as int, i32::MAX as int)) {
            (Some(w), Some(h)) => Some(Size { w: w as i32, h: h as i32 }),
            _ => None,
        }
    } else {
        None
    }
}

/// The identity and size that the arguments of `CREATE_WINDOW` give, each
/// `id=N` or `size=WxH` read in turn (a later one wins; an `id=` that does
/// not read leaves none).
pub open spec fn create_args(parts: Seq<Seq<char>>) -> (Option<WindowId>, Option<Size>)
    decreases parts.len(),
{
    if parts.len() == 0 {
        (None, None)
    } else {
        let (id, size) = create_args(parts.drop_last());
        let part = parts.last();
        match strip(part, "id="@) {
            Some(val) => (parse_window_id(val), size),
            None => match strip(part, "size="@) {
                Some(val) => match parse_size(val) {
                    Some(sz) => (id, Some(sz)),
                    None => (id, size),
                },
                None => (id, size),
            },
        }
    }
}

/// The window identity that an argument `id=N` gives.
pub open spec fn id_arg(parts: Seq<Seq<char>>) -> Option<WindowId> {
    if parts.len() > 1 {
        match strip(parts[1], "id="@) {
            Some(val) => parse_window_id(val),
            None => None,
        }
    } else {
        None
    }
}

/// The command a line of text spells.
pub open spec fn ascii_command(input: Seq<char>) -> Option<AsciiCommand<Seq<char>>> {
    let parts = words(input);
    if parts.len() == 0 {
        None
    } else if parts[0] == "CREATE_WINDOW"@ {
        match create_args(parts.skip(1)) {
            (Some(id), Some(size)) => Some(AsciiCommand::CreateWindow { id, size }),
            _ => None,
        }
    } else if parts[0] == "DESTROY_WINDOW"@ {
        match id_arg(parts) {
            Some(id) => Some(AsciiCommand::DestroyWindow { id }),
            None => None,
        }
    } else if parts[0] == "FOCUS_WINDOW"@ {
        match id_arg(parts) {
            Some(id) => Some(AsciiCommand::FocusWindow { id }),
            None => None,
        }
    } else if parts[0] == "SET_LAYOUT"@ {
        if parts.len() > 1 {
            Some(AsciiCommand::SetLayout { layout: parts[1] })
        } else {
            None
        }
    } else if parts[0] == "GET_STATE"@ {
        Some(AsciiCommand::GetState)
    } else if parts[0] == "GET_WINDOWS"@ {
        Some(AsciiCommand::GetWindows)
    } else {
        None
    }
}

pub open spec fn opt_command_view(c: Option<AsciiCommand>) -> Option<AsciiCommand<Seq<char>>> {
    match c {
        Some(x) => Some(x@),
        None => None,
    }
}

/// The rest of `s` after the prefix `p`.
fn strip_exec(s: &Vec<char>, p: &str) -> (r: Option<Vec<char>>)
    ensures
        match strip(s@, p@) {
            Some(t) => r matches Some(x) && x@ == t,
            None => r is None,
        },
{
    let pv = chars_of(p);
    if pv.len() > s.len() {
        return None;
    }
    let head = slice(s, 0, pv.len());
    if !crate::text::eq_chars(&head, &pv) {
        assert(s@.take(pv@.len() as int) =~= head@);
        return None;
    }
    assert(s@.take(pv@.len() as int) =~= head@);
    let rest = slice(s, pv.len(), s.len());
    assert(rest@ =~= s@.skip(pv@.len() as int));
    Some(rest)
}

fn parse_window_id_exec(s: &Vec<char>) -> (r: Option<WindowId>)
    ensures
        r == parse_window_id(s@),
{
    match parse_u32(s) {
        Some(n) => Some(WindowId::new(n)),
        None => None,
    }
}

fn parse_size_exec(s: &Vec<char>) -> (r: Option<Size>)
    ensures
        r == parse_size(s@),
{
    let dims = split_char(s, 'x');
    assert(views(dims@).len() == dims@.len());
    if dims.len() == 2 {
        assert(views(dims@)[0] == dims@[0]@);
        assert(views(dims@)[1] == dims@[1]@);
        match (parse_i32(&dims[0]), parse_i32(&dims[1])) {
            (Some(w), Some(h)) => Some(Size::new(w, h)),
            _ => None,
        }
    } else {
        None
    }
}

impl AsciiCommand {
    /// Parse a command string
    pub fn parse(input: &str) -> (r: Option<AsciiCommand>)
        ensures
            opt_command_view(r) == ascii_command(input@),
    {
        let chars = chars_of(input);
        let parts = split_whitespace(&chars);
        let ghost pv = views(parts@);
        assert(pv.len() == parts@.len());
        if parts.len() == 0 {
            return None;
        }
        assert(pv[0] == parts@[0]@);
        let first = &parts[0];
        if eq_str(first, "CREATE_WINDOW") {
            let mut id: Option<WindowId> = None;
            let mut size: Option<Size> = None;
            let mut i: usize = 1;
            assert(pv.skip(1).take(0) =~= Seq::<Seq<char>>::empty());
            while i < parts.len()
                invariant
                    1 <= i <= parts.len(),
                    pv == views(parts@),
                    pv.len() == parts@.len(),
                    (id, size) == create_args(pv.skip(1).take(i - 1)),
                decreases parts.len() - i,
            {
                let part = &parts[i];
                assert(pv[i as int] == part@);
                assert(pv.skip(1).take(i as int).drop_last() =~= pv.skip(1).take(i - 1));
                assert(pv.skip(1).take(i as int).last() == part@);
                match strip_exec(part, "id=") {
                    Some(val) => {
                        id = parse_window_id_exec(&val);
                    },
                    None => match strip_exec(part, "size=") {
                        Some(val) => {
                            if let Some(sz) = parse_size_exec(&val) {
                                size = Some(sz);
                            }
                        },
                        None => {},
                    },
                }
                i += 1;
            }
            assert(pv.skip(1).take(i - 1) =~= pv.skip(1));
            match (id, size) {
                (Some(id), Some(size)) => Some(AsciiCommand::CreateWindow { id, size }),
                _ => None,
            }
        } else if eq_str(first, "DESTROY_WINDOW") {
            match Self::id_arg_exec(&parts) {
                Some(id) => Some(AsciiCommand::DestroyWindow { id }),
                None => None,
            }
        } else if eq_str(first, "FOCUS_WINDOW") {
            match Self::id_arg_exec(&parts) {
                Some(id) => Some(AsciiCommand::FocusWindow { id }),
                None => None,
            }
        } else if eq_str(first, "SET_LAYOUT") {
            if parts.len() > 1 {
                assert(pv[1] == parts@[1]@);
                Some(AsciiCommand::SetLayout { layout: string_of(&parts[1]) })
            } else {
                None
            }
        } else if eq_str(first, "GET_STATE") {
            Some(AsciiCommand::GetState)
        } else if eq_str(first, "GET_WINDOWS") {
            Some(AsciiCommand::GetWindows)
        } else {
            None
        }
    }

    fn id_arg_exec(parts: &Vec<Vec<char>>) -> (r: Option<WindowId>)
        ensures
            r == id_arg(views(parts@)),
    {
        if parts.len() > 1 {
            assert(views(parts@)[1] == parts@[1]@);
            match strip_exec(&parts[1], "id=") {
                Some(val) => parse_window_id_exec(&val),
                None => None,
            }
        } else {
            None
        }
    }
}


/// The record drawn for window `id` laid out as `layout`.
pub open spec fn ascii_window(id: WindowId, layout: WindowLayout, focus: Option<WindowId>) -> AsciiWindow {
    AsciiWindow {
        id,
        bounds: layout.spec_geometry(),
        focused: focus == Some(id),
        floating: layout is Floating,
        fullscreen: layout is Fullscreen,
        urgent: false,
        tab_info: None,
    }
}

/// The records drawn for the windows `ids` that the registry knows, in
/// order.
pub open spec fn ascii_entries(reg: Seq<crate::window::ManagedWindow>, ids: Seq<WindowId>, focus: Option<WindowId>) -> Seq<
    AsciiWindow,
>
    decreases ids.len(),
{
    if ids.len() == 0 {
        Seq::empty()
    } else {
        let rest = ascii_entries(reg, ids.drop_last(), focus);
        match registry_get(reg, ids.last()) {
            Some(mw) => rest.push(ascii_window(ids.last(), mw.layout, focus)),
            None => rest,
        }
    }
}

/// What the ASCII backend shows of the state: the windows of the active
/// workspace of the first virtual output (workspace 1 where it shows
/// none) and the window that workspace keeps focused; none where there is
/// no output or no such workspace.
pub open spec fn ascii_snapshot_of(c: StateView) -> Option<(Seq<AsciiWindow>, Option<WindowId>)> {
    if c.outputs.len() == 0 {
        None
    } else {
        let idx: usize = match c.outputs[0].active_workspace {
            Some(a) => a,
            None => 0,
        };
        match ws_lookup(c.workspaces, WorkspaceId { id: idx as u8 }) {
            Some(w) => Some((ascii_entries(c.registry, w.windows, w.focused_window), w.focused_window)),
            None => None,
        }
    }
}

impl StilchState {
    /// What the ASCII backend shows of the state (see `ascii_snapshot_of`).
    pub fn ascii_snapshot(&self) -> (r: Option<(Vec<AsciiWindow>, Option<WindowId>)>)
        ensures
            match ascii_snapshot_of(self@) {
                Some(x) => r matches Some(y) && y.0@ == x.0 && y.1 == x.1,
                None => r is None,
            },
    {
        if self.virtual_output_manager.outputs.len() == 0 {
            return None;
        }
        let first = &self.virtual_output_manager.outputs[0];
        assert(self@.outputs[0] == crate::virtual_output::output_view(self.virtual_output_manager.outputs@[0]));
        let idx: usize = match first.active_workspace {
            Some(a) => a,
            None => 0,
        };
        let w = match self.workspace_manager.get_workspace(WorkspaceId::new(idx as u8)) {
            Some(w) => w,
            None => {
                return None;
            },
        };
        let focus = w.focused_window;
        let mut out: Vec<AsciiWindow> = Vec::new();
        let mut i: usize = 0;
        while i < w.windows.len()
            invariant
                i <= w.windows.len(),
                out@ == ascii_entries(self@.registry, w.windows@.take(i as int), focus),
            decreases w.windows.len() - i,
        {
            let id = w.windows[i];
            assert(w.windows@.take(i + 1).drop_last() =~= w.windows@.take(i as int));
            assert(w.windows@.take(i + 1).last() == id);
            match self.window_registry.get(id) {
                Some(mw) => {
                    out.push(
                        AsciiWindow {
                            id,
                            bounds: mw.layout.geometry(),
                            focused: focus == Some(id),
                            floating: match mw.layout {
                                WindowLayout::Floating { .. } => true,
                                _ => false,
                            },
                            fullscreen: mw.layout.is_fullscreen(),
                            urgent: false,
                            tab_info: None,
                        },
                    );
                },
                None => {},
            }
            i += 1;
        }
        assert(w.windows@.take(i as int) =~= w.windows@);
        Some((out, focus))
    }
}

/// The windows the ASCII backend draws, at most one per identity, in the
/// order they were first added, and the window it shows as focused.
#[derive(Debug, Clone)]
pub struct AsciiWindowStore {
    pub windows: Vec<AsciiWindow>,
    pub focused_window: Option<WindowId>,
}

/// No two records share an identity.
pub open spec fn ascii_ids_distinct(s: Seq<AsciiWindow>) -> bool {
    forall|i: int, j: int| 0 <= i < j < s.len() ==> s[i].id != s[j].id
}

/// The position of the record for `id`.
pub open spec fn ascii_index(s: Seq<AsciiWindow>, id: WindowId) -> Option<int> {
    if exists|i: int| 0 <= i < s.len() && s[i].id == id {
        Some(choose|i: int| 0 <= i < s.len() && s[i].id == id)
    } else {
        None
    }
}

/// The records after `w` was stored: it replaces the record with its
/// identity, or comes last.
pub open spec fn ascii_stored(s: Seq<AsciiWindow>, w: AsciiWindow) -> Seq<AsciiWindow> {
    match ascii_index(s, w.id) {
        Some(i) => s.update(i, w),
        None => s.push(w),
    }
}

/// The records marked for focus on `id`: exactly the record with that
/// identity is focused.
pub open spec fn ascii_focused(s: Seq<AsciiWindow>, id: Option<WindowId>) -> Seq<AsciiWindow> {
    Seq::new(s.len(), |i: int| AsciiWindow { focused: id == Some(s[i].id), ..s[i] })
}

impl AsciiWindowStore {
    pub open spec fn wf(&self) -> bool {
        ascii_ids_distinct(self.windows@)
    }

    pub fn new() -> (r: AsciiWindowStore)
        ensures
            r.windows@ == Seq::<AsciiWindow>::empty(),
            r.focused_window is None,
            r.wf(),
    {
        AsciiWindowStore { windows: Vec::new(), focused_window: None }
    }

    fn position(&self, id: WindowId) -> (r: Option<usize>)
        requires
            self.wf(),
        ensures
            match r {
                Some(i) => ascii_index(self.windows@, id) == Some(i as int) && i < self.windows.len(),
                None => ascii_index(self.windows@, id) is None,
            },
    {
        let mut i: usize = 0;
        while i < self.windows.len()
            invariant
                i <= self.windows.len(),
                ascii_ids_distinct(self.windows@),
                forall|j: int| 0 <= j < i ==> self.windows@[j].id != id,
            decreases self.windows.len() - i,
        {
            if self.windows[i].id == id {
                assert(ascii_index(self.windows@, id) == Some(i as int)) by {
                    let k = choose|k: int| 0 <= k < self.windows@.len() && self.windows@[k].id == id;
                    assert(0 <= k < self.windows@.len() && self.windows@[k].id == id);
                    if k != i as int {
                        assert(self.windows@[k].id != self.windows@[i as int].id);
                    }
                }
                return Some(i);
            }
            i += 1;
        }
        None
    }

    /// Adds a window record, replacing the one with its identity.
    pub fn update_window(&mut self, window: AsciiWindow)
        requires
            old(self).wf(),
        ensures
            final(self).windows@ == ascii_stored(old(self).windows@, window),
            final(self).focused_window == old(self).focused_window,
            final(self).wf(),
    {
        match self.position(window.id) {
            Some(i) => {
                self.windows.set(i, window);
            },
            None => {
                self.windows.push(window);
            },
        }
    }

    /// Removes the record of window `id`.
    pub fn remove_window(&mut self, id: WindowId)
        requires
            old(self).wf(),
        ensures
            final(self).windows@ == (match ascii_index(old(self).windows@, id) {
                Some(i) => old(self).windows@.remove(i),
                None => old(self).windows@,
            }),
            final(self).focused_window == old(self).focused_window,
            final(self).wf(),
    {
        match self.position(id) {
            Some(i) => {
                let ghost v0 = self.windows@;
                self.windows.remove(i);
                assert forall|a: int, b: int| 0 <= a < b < self.windows@.len() implies self.windows@[a].id
                    != self.windows@[b].id by {
                    let a0 = if a < i { a } else { a + 1 };
                    let b0 = if b < i { b } else { b + 1 };
                    assert(self.windows@[a] == v0[a0]);
                    assert(self.windows@[b] == v0[b0]);
                }
            },
            None => {},
        }
    }

    /// Shows window `id` as focused, and no other.
    pub fn set_focus(&mut self, id: Option<WindowId>)
        requires
            old(self).wf(),
        ensures
            final(self).windows@ == ascii_focused(old(self).windows@, id),
            final(self).focused_window == id,
            final(self).wf(),
    {
        self.focused_window = id;
        let ghost v0 = self.windows@;
        let mut i: usize = 0;
        while i < self.windows.len()
            invariant
                i <= self.windows.len(),
                self.focused_window == id,
                self.windows@.len() == v0.len(),
                forall|j: int| 0 <= j < i ==> #[trigger] self.windows@[j] == ascii_focused(v0, id)[j],
                forall|j: int| i <= j < v0.len() ==> #[trigger] self.windows@[j] == v0[j],
            decreases self.windows.len() - i,
        {
            let w = self.windows[i];
            self.windows.set(i, AsciiWindow { focused: id == Some(w.id), ..w });
            i += 1;
        }
        assert(self.windows@ =~= ascii_focused(v0, id));
        assert forall|a: int, b: int| 0 <= a < b < self.windows@.len() implies self.windows@[a].id
            != self.windows@[b].id by {
            assert(v0[a].id != v0[b].id);
        }
    }

    /// Forgets every window.
    pub fn clear(&mut self)
        ensures
            final(self).windows@ == Seq::<AsciiWindow>::empty(),
            final(self).focused_window == old(self).focused_window,
            final(self).wf(),
    {
        self.windows.clear();
    }

    /// Each window's identity and area, in order.
    pub fn get_windows(&self) -> (r: Vec<(WindowId, Rectangle)>)
        ensures
            r@.len() == self.windows@.len(),
            forall|i: int| 0 <= i < r@.len() ==> #[trigger] r@[i] == (self.windows@[i].id, self.windows@[i].bounds),
    {
        let mut r: Vec<(WindowId, Rectangle)> = Vec::new();
        let mut i: usize = 0;
        while i < self.windows.len()
            invariant
                i <= self.windows.len(),
                r@.len() == i,
                forall|j: int| 0 <= j < i ==> #[trigger] r@[j] == (self.windows@[j].id, self.windows@[j].bounds),
            decreases self.windows.len() - i,
        {
            r.push((self.windows[i].id, self.windows[i].bounds));
            i += 1;
        }
        r
    }

    /// Replaces what is drawn with a snapshot of the state: the store is
    /// cleared, then, where the snapshot has windows, they are stored in
    /// order and its focus shown.
    pub fn sync(&mut self, snapshot: Option<(Vec<AsciiWindow>, Option<WindowId>)>)
        requires
            old(self).wf(),
        ensures
            final(self).wf(),
            match snapshot {
                Some(x) => final(self).focused_window == x.1 && final(self).windows@ == ascii_focused(
                    stored_all(Seq::empty(), x.0@),
                    x.1,
                ),
                None => final(self).windows@ == Seq::<AsciiWindow>::empty() && final(self).focused_window
                    == old(self).focused_window,
            },
    {
        self.clear();
        match snapshot {
            Some((ws, focus)) => {
                let mut i: usize = 0;
                while i < ws.len()
                    invariant
                        i <= ws.len(),
                        self.wf(),
                        self.windows@ == stored_all(Seq::empty(), ws@.take(i as int)),
                    decreases ws.len() - i,
                {
                    assert(ws@.take(i + 1).drop_last() =~= ws@.take(i as int));
                    self.update_window(ws[i]);
                    i += 1;
                }
                assert(ws@.take(i as int) =~= ws@);
                self.set_focus(focus);
            },
            None => {},
        }
    }
}

/// The records after each of `ws` was stored in turn.
pub open spec fn stored_all(s: Seq<AsciiWindow>, ws: Seq<AsciiWindow>) -> Seq<AsciiWindow>
    decreases ws.len(),
{
    if ws.len() == 0 {
        s
    } else {
        ascii_stored(stored_all(s, ws.drop_last()), ws.last())
    }
}

/// Law: storing a record and then looking the windows up gives that
/// record for its identity, with every identity at most once.
pub proof fn law_store_then_find(s: Seq<AsciiWindow>, w: AsciiWindow)
    requires
        ascii_ids_distinct(s),
    ensures
        ascii_ids_distinct(ascii_stored(s, w)),
        ascii_index(ascii_stored(s, w), w.id) matches Some(i) && ascii_stored(s, w)[i] == w,
        ascii_stored(s, w).len() == s.len() + (if ascii_index(s, w.id) is Some { 0int } else { 1int }),
{
    let t = ascii_stored(s, w);
    match ascii_index(s, w.id) {
        Some(i) => {
            assert(0 <= i < s.len() && s[i].id == w.id);
            assert(t[i] == w);
            assert forall|a: int, b: int| 0 <= a < b < t.len() implies t[a].id != t[b].id by {
                assert(s[a].id != s[b].id);
            }
            assert(ascii_index(t, w.id) == Some(i)) by {
                let k = choose|k: int| 0 <= k < t.len() && t[k].id == w.id;
                assert(0 <= k < t.len() && t[k].id == w.id);
                if k != i {
                    assert(t[k].id != t[i].id);
                }
            }
        },
        None => {
            let n = s.len() as int;
            assert(t[n] == w);
            assert forall|a: int, b: int| 0 <= a < b < t.len() implies t[a].id != t[b].id by {
                if b == n {
                    assert(t[a] == s[a]);
                    assert(!(0 <= a < s.len() && s[a].id == w.id));
                } else {
                    assert(s[a].id != s[b].id);
                }
            }
            assert(ascii_index(t, w.id) == Some(n)) by {
                let k = choose|k: int| 0 <= k < t.len() && t[k].id == w.id;
                assert(0 <= k < t.len() && t[k].id == w.id);
                if k != n {
                    assert(t[k].id != t[n].id);
                }
            }
        },
    }
}

} // verus!

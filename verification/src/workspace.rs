//! Workspaces: numbered groups of windows, each shown on at most one virtual
//! output.
use crate::window::WindowId;
use vstd::prelude::*;

verus! {

/// The number of workspaces the compositor keeps.
pub const WORKSPACE_COUNT: u8 = 10;

/// How the next split of a workspace's layout is oriented.
#[derive(Debug, Clone, Copy, PartialEq, Eq, Structural)]
pub enum SplitDirection {
    Horizontal,
    Vertical,
}

/// The identity of a workspace (0 to 9; shown to users as 1 to 10).
#[derive(Debug, Clone, Copy, PartialEq, Eq, Structural, Hash)]
pub struct WorkspaceId {
    pub id: u8,
}

impl WorkspaceId {
    pub fn new(id: u8) -> (w: WorkspaceId)
        ensures
            w.id == id,
    {
        WorkspaceId { id }
    }

    pub fn get(&self) -> (r: u8)
        ensures
            r == self.id,
    {
        self.id
    }
}

/// A workspace: its windows in order, the one it keeps focused, the virtual
/// output it is shown on and the one the configuration binds it to.
#[derive(Debug, Clone)]
pub struct Workspace {
    pub id: WorkspaceId,
    pub windows: Vec<WindowId>,
    pub focused_window: Option<WindowId>,
    pub location: Option<usize>,
    pub association: Option<usize>,
    /// The window that covers the workspace while it is fullscreen
    pub fullscreen_window: Option<WindowId>,
    /// How the next window added splits the layout
    pub next_split: SplitDirection,
}

pub struct WorkspaceView {
    pub id: WorkspaceId,
    pub windows: Seq<WindowId>,
    pub focused_window: Option<WindowId>,
    pub location: Option<usize>,
    pub association: Option<usize>,
    pub fullscreen_window: Option<WindowId>,
    pub next_split: SplitDirection,
}

impl View for Workspace {
    type V = WorkspaceView;

    open spec fn view(&self) -> WorkspaceView {
        WorkspaceView {
            id: self.id,
            windows: self.windows@,
            focused_window: self.focused_window,
            location: self.location,
            association: self.association,
            fullscreen_window: self.fullscreen_window,
            next_split: self.next_split,
        }
    }
}

/// The workspace after `id` was added to it: appended unless present, and
/// focused.
pub open spec fn with_window(w: WorkspaceView, id: WindowId) -> WorkspaceView {
    WorkspaceView {
        windows: if w.windows.contains(id) {
            w.windows
        } else {
            w.windows.push(id)
        },
        focused_window: Some(id),
        ..w
    }
}

/// The windows of `s` other than `id`, in order.
pub open spec fn all_but(s: Seq<WindowId>, id: WindowId) -> Seq<WindowId>
    decreases s.len(),
{
    if s.len() == 0 {
        s
    } else if s.last() == id {
        all_but(s.drop_last(), id)
    } else {
        all_but(s.drop_last(), id).push(s.last())
    }
}

/// The workspace after `id` was taken out of it; it keeps no focus on it.
pub open spec fn without_window(w: WorkspaceView, id: WindowId) -> WorkspaceView {
    WorkspaceView {
        windows: all_but(w.windows, id),
        focused_window: if w.focused_window == Some(id) {
            None
        } else {
            w.focused_window
        },
        ..w
    }
}

impl Workspace {
    pub fn new(id: WorkspaceId) -> (w: Workspace)
        ensures
            w@ == (WorkspaceView {
                id,
                windows: Seq::empty(),
                focused_window: None,
                location: None,
                association: None,
                fullscreen_window: None,
                next_split: SplitDirection::Horizontal,
            }),
    {
        Workspace {
            id,
            windows: Vec::new(),
            focused_window: None,
            location: None,
            association: None,
            fullscreen_window: None,
            next_split: SplitDirection::Horizontal,
        }
    }

    pub fn contains(&self, id: WindowId) -> (b: bool)
        ensures
            b == self.windows@.contains(id),
    {
        let mut i: usize = 0;
        while i < self.windows.len()
            invariant
                i <= self.windows.len(),
                forall|j: int| 0 <= j < i ==> self.windows@[j] != id,
            decreases self.windows.len() - i,
        {
            if self.windows[i] == id {
                return true;
            }
            i += 1;
        }
        false
    }

    /// Adds a window (at the end, unless it is there already) and focuses it.
    pub fn add_window(&mut self, id: WindowId)
        ensures
            final(self)@ == with_window(old(self)@, id),
    {
        if !self.contains(id) {
            self.windows.push(id);
        }
        self.focused_window = Some(id);
    }

    /// Takes a window out; where it was focused, the workspace focuses none.
    pub fn remove_window(&mut self, id: WindowId)
        ensures
            final(self)@ == without_window(old(self)@, id),
    {
        let mut kept: Vec<WindowId> = Vec::new();
        let mut i: usize = 0;
        while i < self.windows.len()
            invariant
                i <= self.windows.len(),
                kept@ == all_but(self.windows@.take(i as int), id),
            decreases self.windows.len() - i,
        {
            assert(self.windows@.take(i + 1).drop_last() =~= self.windows@.take(i as int));
            assert(self.windows@.take(i + 1).last() == self.windows@[i as int]);
            if self.windows[i] != id {
                kept.push(self.windows[i]);
            }
            i += 1;
        }
        assert(self.windows@.take(i as int) =~= self.windows@);
        self.windows = kept;
        if self.focused_window == Some(id) {
            self.focused_window = None;
        }
    }
}

/// The workspaces that exist.
#[derive(Debug, Clone)]
pub struct WorkspaceManager {
    pub workspaces: Vec<Workspace>,
}

pub open spec fn workspaces_view(v: Seq<Workspace>) -> Seq<WorkspaceView> {
    v.map_values(|w: Workspace| w@)
}

/// The first workspace with identity `id`.
pub open spec fn ws_lookup(ws: Seq<WorkspaceView>, id: WorkspaceId) -> Option<WorkspaceView>
    decreases ws.len(),
{
    if ws.len() == 0 {
        None
    } else if ws[0].id == id {
        Some(ws[0])
    } else {
        ws_lookup(ws.drop_first(), id)
    }
}

/// The position of the first workspace with identity `id`.
pub open spec fn ws_index(ws: Seq<WorkspaceView>, id: WorkspaceId) -> Option<int>
    decreases ws.len(),
{
    if ws.len() == 0 {
        None
    } else if ws[0].id == id {
        Some(0)
    } else {
        match ws_index(ws.drop_first(), id) {
            Some(i) => Some(i + 1),
            None => None,
        }
    }
}

/// The first workspace shown on virtual output `vo`.
pub open spec fn ws_on_output(ws: Seq<WorkspaceView>, vo: usize) -> Option<WorkspaceId>
    decreases ws.len(),
{
    if ws.len() == 0 {
        None
    } else if ws[0].location == Some(vo) {
        Some(ws[0].id)
    } else {
        ws_on_output(ws.drop_first(), vo)
    }
}

/// The workspaces after `id` was put on virtual output `vo`: whatever else
/// was shown there is hidden.
pub open spec fn shown_on(ws: Seq<WorkspaceView>, id: WorkspaceId, vo: usize) -> Seq<WorkspaceView> {
    Seq::new(
        ws.len(),
        |i: int|
            if ws[i].id == id {
                WorkspaceView { location: Some(vo), ..ws[i] }
            } else if ws[i].location == Some(vo) {
                WorkspaceView { location: None, ..ws[i] }
            } else {
                ws[i]
            },
    )
}

/// The workspaces after `id` was hidden: it is shown on no output.
pub open spec fn hidden(ws: Seq<WorkspaceView>, id: WorkspaceId) -> Seq<WorkspaceView> {
    Seq::new(
        ws.len(),
        |i: int|
            if ws[i].id == id {
                WorkspaceView { location: None, ..ws[i] }
            } else {
                ws[i]
            },
    )
}

/// The workspaces after `id` was bound to virtual output `vo`.
pub open spec fn associated(ws: Seq<WorkspaceView>, id: WorkspaceId, vo: usize) -> Seq<WorkspaceView> {
    Seq::new(
        ws.len(),
        |i: int|
            if ws[i].id == id {
                WorkspaceView { association: Some(vo), ..ws[i] }
            } else {
                ws[i]
            },
    )
}

pub proof fn lemma_ws_index(ws: Seq<WorkspaceView>, id: WorkspaceId)
    ensures
        ws_index(ws, id) matches Some(i) ==> 0 <= i < ws.len() && ws[i].id == id && ws_lookup(
            ws,
            id,
        ) == Some(ws[i]) && forall|j: int| 0 <= j < i ==> ws[j].id != id,
        ws_index(ws, id) is None <==> ws_lookup(ws, id) is None,
        ws_index(ws, id) is None ==> forall|j: int| 0 <= j < ws.len() ==> ws[j].id != id,
    decreases ws.len(),
{
    if ws.len() > 0 {
        lemma_ws_index(ws.drop_first(), id);
        if ws[0].id != id {
            assert forall|j: int| 1 <= j < ws.len() implies ws[j] == ws.drop_first()[j - 1] by {}
        }
    }
}

/// A workspace that stands at position `i` is the one a lookup of its
/// identity finds, where identities are distinct.
pub proof fn lemma_ws_lookup_at(ws: Seq<WorkspaceView>, i: int)
    requires
        0 <= i < ws.len(),
        ids_distinct(ws),
    ensures
        ws_lookup(ws, ws[i].id) == Some(ws[i]),
        ws_index(ws, ws[i].id) == Some(i),
{
    lemma_ws_index(ws, ws[i].id);
}

/// A lookup in a sequence where only position `i` changed, keeping its
/// identity.
pub proof fn lemma_ws_lookup_update(ws: Seq<WorkspaceView>, i: int, w: WorkspaceView, id: WorkspaceId)
    requires
        0 <= i < ws.len(),
        w.id == ws[i].id,
    ensures
        ws_lookup(ws.update(i, w), id) == (if ws_index(ws, id) == Some(i) {
            Some(w)
        } else {
            ws_lookup(ws, id)
        }),
        ws_index(ws.update(i, w), id) == ws_index(ws, id),
    decreases ws.len(),
{
    let u = ws.update(i, w);
    lemma_ws_index(ws.drop_first(), id);
    assert(u[0] == (if i == 0 { w } else { ws[0] }));
    if i == 0 {
        assert(u.drop_first() =~= ws.drop_first());
        if ws[0].id == id {
            assert(ws_index(ws, id) == Some(0int));
            assert(ws_lookup(u, id) == Some(w));
        } else {
            assert(ws_lookup(u, id) == ws_lookup(u.drop_first(), id));
            assert(ws_lookup(ws, id) == ws_lookup(ws.drop_first(), id));
        }
    } else {
        assert(u.drop_first() =~= ws.drop_first().update(i - 1, w));
        lemma_ws_lookup_update(ws.drop_first(), i - 1, w, id);
        if ws[0].id != id {
            assert(ws_lookup(u, id) == ws_lookup(u.drop_first(), id));
            assert(ws_lookup(ws, id) == ws_lookup(ws.drop_first(), id));
        }
    }
}

/// Showing a workspace changes where workspaces are shown, nothing else.
pub proof fn lemma_shown_on_lookup(ws: Seq<WorkspaceView>, id: WorkspaceId, vo: usize, x: WorkspaceId)
    ensures
        ws_lookup(shown_on(ws, id, vo), x) is Some <==> ws_lookup(ws, x) is Some,
        ws_lookup(shown_on(ws, id, vo), x) matches Some(v) ==> v.windows == ws_lookup(ws, x)->0.windows
            && v.focused_window == ws_lookup(ws, x)->0.focused_window && v.association == ws_lookup(
            ws,
            x,
        )->0.association && v.id == ws_lookup(ws, x)->0.id,
        ws_index(shown_on(ws, id, vo), x) == ws_index(ws, x),
        ids_distinct(ws) ==> ids_distinct(shown_on(ws, id, vo)),
    decreases ws.len(),
{
    if ws.len() > 0 {
        assert(shown_on(ws, id, vo).drop_first() =~= shown_on(ws.drop_first(), id, vo));
        lemma_shown_on_lookup(ws.drop_first(), id, vo, x);
    }
}

/// Once a workspace is shown on an output, it is the one found there.
pub proof fn lemma_on_output_after_show(ws: Seq<WorkspaceView>, id: WorkspaceId, vo: usize)
    requires
        ws_lookup(ws, id) is Some,
    ensures
        ws_on_output(shown_on(ws, id, vo), vo) == Some(id),
    decreases ws.len(),
{
    let s = shown_on(ws, id, vo);
    assert(s.drop_first() =~= shown_on(ws.drop_first(), id, vo));
    if ws[0].id != id {
        lemma_on_output_after_show(ws.drop_first(), id, vo);
    }
}

/// Changing a workspace's windows or focus keeps which workspace each
/// output shows.
pub proof fn lemma_on_output_update(ws: Seq<WorkspaceView>, i: int, w: WorkspaceView, vo: usize)
    requires
        0 <= i < ws.len(),
        w.id == ws[i].id,
        w.location == ws[i].location,
    ensures
        ws_on_output(ws.update(i, w), vo) == ws_on_output(ws, vo),
    decreases ws.len(),
{
    let u = ws.update(i, w);
    if i == 0 {
        assert(u.drop_first() =~= ws.drop_first());
    } else {
        assert(u.drop_first() =~= ws.drop_first().update(i - 1, w));
        lemma_on_output_update(ws.drop_first(), i - 1, w, vo);
    }
}

/// Workspace identities are pairwise distinct.
pub open spec fn ids_distinct(ws: Seq<WorkspaceView>) -> bool {
    forall|i: int, j: int| 0 <= i < j < ws.len() ==> ws[i].id != ws[j].id
}

impl WorkspaceManager {
    /// The manager's invariant: no two workspaces share an identity.
    pub open spec fn wf(&self) -> bool {
        ids_distinct(workspaces_view(self.workspaces@))
    }

    pub open spec fn spec_view(&self) -> Seq<WorkspaceView> {
        workspaces_view(self.workspaces@)
    }

    pub open spec fn spec_get(&self, id: WorkspaceId) -> Option<WorkspaceView> {
        ws_lookup(self.spec_view(), id)
    }

    /// The ten workspaces, in order, none shown yet.
    pub fn new() -> (m: WorkspaceManager)
        ensures
            m.wf(),
            m.workspaces.len() == WORKSPACE_COUNT,
            forall|i: int|
                0 <= i < WORKSPACE_COUNT ==> #[trigger] m.spec_view()[i] == (WorkspaceView {
                    id: WorkspaceId { id: i as u8 },
                    windows: Seq::empty(),
                    focused_window: None,
                    location: None,
                    association: None,
                    fullscreen_window: None,
                    next_split: SplitDirection::Horizontal,
                }),
    {
        let mut workspaces: Vec<Workspace> = Vec::new();
        let mut k: u8 = 0;
        while k < WORKSPACE_COUNT
            invariant
                k <= WORKSPACE_COUNT,
                workspaces.len() == k,
                forall|i: int|
                    0 <= i < k ==> #[trigger] workspaces@[i]@ == (WorkspaceView {
                        id: WorkspaceId { id: i as u8 },
                        windows: Seq::empty(),
                        focused_window: None,
                        location: None,
                        association: None,
                        fullscreen_window: None,
                        next_split: SplitDirection::Horizontal,
                    }),
            decreases WORKSPACE_COUNT - k,
        {
            workspaces.push(Workspace::new(WorkspaceId::new(k)));
            k += 1;
        }
        let m = WorkspaceManager { workspaces };
        assert forall|i: int, j: int|
            0 <= i < j < m.spec_view().len() implies m.spec_view()[i].id != m.spec_view()[j].id by {
            assert(m.spec_view()[i] == m.workspaces@[i]@);
            assert(m.spec_view()[j] == m.workspaces@[j]@);
        }
        m
    }

    /// The position of the workspace `id` in `workspaces`.
    pub fn index_of(&self, id: WorkspaceId) -> (r: Option<usize>)
        ensures
            match ws_index(self.spec_view(), id) {
                Some(i) => r == Some(i as usize) && 0 <= i < self.workspaces.len(),
                None => r is None,
            },
    {
        let ghost v = self.spec_view();
        let mut i: usize = 0;
        assert(v.skip(0) =~= v);
        while i < self.workspaces.len()
            invariant
                i <= self.workspaces.len(),
                v == self.spec_view(),
                ws_index(v, id) == (match ws_index(v.skip(i as int), id) {
                    Some(k) => Some(k + i),
                    None => None,
                }),
            decreases self.workspaces.len() - i,
        {
            assert(v.skip(i as int)[0] == self.workspaces@[i as int]@);
            if self.workspaces[i].id == id {
                return Some(i);
            }
            assert(v.skip(i as int).drop_first() =~= v.skip(i + 1));
            i += 1;
        }
        None
    }

    /// The workspace `id`.
    pub fn get(&self, id: WorkspaceId) -> (r: Option<&Workspace>)
        ensures
            match self.spec_get(id) {
                Some(w) => r matches Some(x) && x@ == w,
                None => r is None,
            },
    {
        proof {
            lemma_ws_index(self.spec_view(), id);
        }
        match self.index_of(id) {
            Some(i) => Some(&self.workspaces[i]),
            None => None,
        }
    }

    /// The workspace `id` (another name for `get`).
    pub fn get_workspace(&self, id: WorkspaceId) -> (r: Option<&Workspace>)
        ensures
            match self.spec_get(id) {
                Some(w) => r matches Some(x) && x@ == w,
                None => r is None,
            },
    {
        self.get(id)
    }

    /// The workspace shown on virtual output `vo`.
    pub fn workspace_on_output(&self, vo: usize) -> (r: Option<WorkspaceId>)
        ensures
            r == ws_on_output(self.spec_view(), vo),
    {
        let ghost v = self.spec_view();
        let mut i: usize = 0;
        assert(v.skip(0) =~= v);
        while i < self.workspaces.len()
            invariant
                i <= self.workspaces.len(),
                v == self.spec_view(),
                ws_on_output(v, vo) == ws_on_output(v.skip(i as int), vo),
            decreases self.workspaces.len() - i,
        {
            assert(v.skip(i as int)[0] == self.workspaces@[i as int]@);
            if self.workspaces[i].location == Some(vo) {
                return Some(self.workspaces[i].id);
            }
            assert(v.skip(i as int).drop_first() =~= v.skip(i + 1));
            i += 1;
        }
        None
    }

    /// The virtual output the workspace `id` is shown on.
    pub fn find_workspace_location(&self, id: WorkspaceId) -> (r: Option<usize>)
        ensures
            r == (match self.spec_get(id) {
                Some(w) => w.location,
                None => None,
            }),
    {
        match self.get(id) {
            Some(w) => w.location,
            None => None,
        }
    }

    /// The virtual output that the configuration binds the workspace `id` to.
    pub fn workspace_association(&self, id: WorkspaceId) -> (r: Option<usize>)
        ensures
            r == (match self.spec_get(id) {
                Some(w) => w.association,
                None => None,
            }),
    {
        match self.get(id) {
            Some(w) => w.association,
            None => None,
        }
    }

    /// Shows the workspace `id` on virtual output `vo`, hiding the one shown
    /// there before; false, and nothing changed, where `id` does not exist.
    pub fn show_workspace_on_output(&mut self, id: WorkspaceId, vo: usize) -> (ok: bool)
        ensures
            ok == (old(self).spec_get(id) is Some),
            ok ==> final(self).spec_view() == shown_on(old(self).spec_view(), id, vo),
            !ok ==> final(self).spec_view() == old(self).spec_view(),
            old(self).wf() ==> final(self).wf(),
    {
        if self.get(id).is_none() {
            return false;
        }
        let ghost v0 = self.spec_view();
        let mut i: usize = 0;
        while i < self.workspaces.len()
            invariant
                i <= self.workspaces.len(),
                self.workspaces.len() == v0.len(),
                forall|j: int| 0 <= j < i ==> #[trigger] self.spec_view()[j] == shown_on(v0, id, vo)[j],
                forall|j: int| i <= j < v0.len() ==> #[trigger] self.spec_view()[j] == v0[j],
            decreases self.workspaces.len() - i,
        {
            let ghost before = self.workspaces@;
            assert(self.spec_view()[i as int] == v0[i as int]);
            assert(self.spec_view()[i as int] == self.workspaces@[i as int]@);
            if self.workspaces[i].id == id {
                self.workspaces[i].location = Some(vo);
            } else if self.workspaces[i].location == Some(vo) {
                self.workspaces[i].location = None;
            }
            assert(self.workspaces@ == before.update(i as int, self.workspaces@[i as int]));
            assert(self.spec_view()[i as int] == shown_on(v0, id, vo)[i as int]);
            assert forall|j: int| 0 <= j < v0.len() && j != i implies #[trigger] self.spec_view()[j]
                == workspaces_view(before)[j] by {}
            i += 1;
        }
        assert(self.spec_view() =~= shown_on(v0, id, vo));
        true
    }

    /// Records window `win` as the one the workspace `id` keeps focused;
    /// false where the workspace does not exist.
    pub fn set_focused(&mut self, id: WorkspaceId, win: WindowId) -> (ok: bool)
        ensures
            ok == (old(self).spec_get(id) is Some),
            final(self).spec_view() == (match ws_index(old(self).spec_view(), id) {
                Some(i) => old(self).spec_view().update(
                    i,
                    WorkspaceView { focused_window: Some(win), ..old(self).spec_view()[i] },
                ),
                None => old(self).spec_view(),
            }),
            old(self).wf() ==> final(self).wf(),
    {
        proof {
            lemma_ws_index(self.spec_view(), id);
        }
        match self.index_of(id) {
            Some(i) => {
                let ghost v0 = self.spec_view();
                self.workspaces[i].focused_window = Some(win);
                assert(self.spec_view() =~= v0.update(
                    i as int,
                    WorkspaceView { focused_window: Some(win), ..v0[i as int] },
                ));
                true
            },
            None => false,
        }
    }

    /// Records `win` as the window that covers the workspace `id` (none:
    /// no window does); false where the workspace does not exist.
    pub fn set_fullscreen_window(&mut self, id: WorkspaceId, win: Option<WindowId>) -> (ok: bool)
        ensures
            ok == (old(self).spec_get(id) is Some),
            final(self).spec_view() == (match ws_index(old(self).spec_view(), id) {
                Some(i) => old(self).spec_view().update(
                    i,
                    WorkspaceView { fullscreen_window: win, ..old(self).spec_view()[i] },
                ),
                None => old(self).spec_view(),
            }),
            old(self).wf() ==> final(self).wf(),
    {
        proof {
            lemma_ws_index(self.spec_view(), id);
        }
        match self.index_of(id) {
            Some(i) => {
                let ghost v0 = self.spec_view();
                self.workspaces[i].fullscreen_window = win;
                assert(self.spec_view() =~= v0.update(
                    i as int,
                    WorkspaceView { fullscreen_window: win, ..v0[i as int] },
                ));
                true
            },
            None => false,
        }
    }

    /// Sets how the next split of workspace `id` goes; false where the
    /// workspace does not exist.
    pub fn set_next_split(&mut self, id: WorkspaceId, d: SplitDirection) -> (ok: bool)
        ensures
            ok == (old(self).spec_get(id) is Some),
            final(self).spec_view() == (match ws_index(old(self).spec_view(), id) {
                Some(i) => old(self).spec_view().update(i, WorkspaceView { next_split: d, ..old(self).spec_view()[i] }),
                None => old(self).spec_view(),
            }),
            old(self).wf() ==> final(self).wf(),
    {
        proof {
            lemma_ws_index(self.spec_view(), id);
        }
        match self.index_of(id) {
            Some(i) => {
                let ghost v0 = self.spec_view();
                self.workspaces[i].next_split = d;
                assert(self.spec_view() =~= v0.update(i as int, WorkspaceView { next_split: d, ..v0[i as int] }));
                true
            },
            None => false,
        }
    }

    /// The virtual output the workspace `id` is shown on (another name for
    /// `find_workspace_location`).
    pub fn workspace_location(&self, id: WorkspaceId) -> (r: Option<usize>)
        ensures
            r == (match self.spec_get(id) {
                Some(w) => w.location,
                None => None,
            }),
    {
        self.find_workspace_location(id)
    }

    /// Hides the workspace `id`: it is shown on no output.
    pub fn hide_workspace(&mut self, id: WorkspaceId)
        ensures
            final(self).spec_view() == hidden(old(self).spec_view(), id),
            old(self).wf() ==> final(self).wf(),
    {
        let ghost v0 = self.spec_view();
        let mut i: usize = 0;
        while i < self.workspaces.len()
            invariant
                i <= self.workspaces.len(),
                self.workspaces.len() == v0.len(),
                forall|j: int| 0 <= j < i ==> #[trigger] self.spec_view()[j] == hidden(v0, id)[j],
                forall|j: int| i <= j < v0.len() ==> #[trigger] self.spec_view()[j] == v0[j],
            decreases self.workspaces.len() - i,
        {
            let ghost before = self.workspaces@;
            assert(self.spec_view()[i as int] == v0[i as int]);
            assert(self.spec_view()[i as int] == self.workspaces@[i as int]@);
            if self.workspaces[i].id == id {
                self.workspaces[i].location = None;
            }
            assert(self.workspaces@ == before.update(i as int, self.workspaces@[i as int]));
            assert(self.spec_view()[i as int] == hidden(v0, id)[i as int]);
            assert forall|j: int| 0 <= j < v0.len() && j != i implies #[trigger] self.spec_view()[j]
                == workspaces_view(before)[j] by {}
            i += 1;
        }
        assert(self.spec_view() =~= hidden(v0, id));
    }

    /// Binds the workspace `id` to virtual output `vo`.
    pub fn associate_workspace_with_output(&mut self, id: WorkspaceId, vo: usize)
        ensures
            final(self).spec_view() == associated(old(self).spec_view(), id, vo),
            old(self).wf() ==> final(self).wf(),
    {
        let ghost v0 = self.spec_view();
        let mut i: usize = 0;
        while i < self.workspaces.len()
            invariant
                i <= self.workspaces.len(),
                self.workspaces.len() == v0.len(),
                forall|j: int| 0 <= j < i ==> #[trigger] self.spec_view()[j] == associated(v0, id, vo)[j],
                forall|j: int| i <= j < v0.len() ==> #[trigger] self.spec_view()[j] == v0[j],
            decreases self.workspaces.len() - i,
        {
            let ghost before = self.workspaces@;
            assert(self.spec_view()[i as int] == v0[i as int]);
            assert(self.spec_view()[i as int] == self.workspaces@[i as int]@);
            if self.workspaces[i].id == id {
                self.workspaces[i].association = Some(vo);
            }
            assert(self.workspaces@ == before.update(i as int, self.workspaces@[i as int]));
            assert(self.spec_view()[i as int] == associated(v0, id, vo)[i as int]);
            assert forall|j: int| 0 <= j < v0.len() && j != i implies #[trigger] self.spec_view()[j]
                == workspaces_view(before)[j] by {}
            i += 1;
        }
        assert(self.spec_view() =~= associated(v0, id, vo));
    }

    /// Adds a window to the workspace `id`; false where it does not exist.
    pub fn add_window_to_workspace(&mut self, id: WorkspaceId, win: WindowId) -> (ok: bool)
        ensures
            ok == (old(self).spec_get(id) is Some),
            ok ==> final(self).spec_view() == old(self).spec_view().update(
                ws_index(old(self).spec_view(), id)->0,
                with_window(old(self).spec_get(id)->0, win),
            ),
            !ok ==> final(self).spec_view() == old(self).spec_view(),
            old(self).wf() ==> final(self).wf(),
    {
        proof {
            lemma_ws_index(self.spec_view(), id);
        }
        match self.index_of(id) {
            Some(i) => {
                let ghost v0 = self.spec_view();
                self.workspaces[i].add_window(win);
                assert(self.spec_view() =~= v0.update(i as int, with_window(v0[i as int], win)));
                true
            },
            None => false,
        }
    }

    /// Takes a window out of the workspace `id`; false where it does not exist.
    pub fn remove_window_from_workspace(&mut self, id: WorkspaceId, win: WindowId) -> (ok: bool)
        ensures
            ok == (old(self).spec_get(id) is Some),
            ok ==> final(self).spec_view() == old(self).spec_view().update(
                ws_index(old(self).spec_view(), id)->0,
                without_window(old(self).spec_get(id)->0, win),
            ),
            !ok ==> final(self).spec_view() == old(self).spec_view(),
            old(self).wf() ==> final(self).wf(),
    {
        proof {
            lemma_ws_index(self.spec_view(), id);
        }
        match self.index_of(id) {
            Some(i) => {
                let ghost v0 = self.spec_view();
                self.workspaces[i].remove_window(win);
                assert(self.spec_view() =~= v0.update(i as int, without_window(v0[i as int], win)));
                true
            },
            None => false,
        }
    }
}

} // verus!

//! Window identifiers and the registry of managed windows.
use crate::geometry::{Point, Rectangle, Size};
use crate::workspace::WorkspaceId;
use vstd::prelude::*;

verus! {

/// The identity of a managed window.
#[derive(Debug, Clone, Copy, PartialEq, Eq, Structural, Hash)]
pub struct WindowId {
    pub id: u32,
}

impl WindowId {
    pub fn new(id: u32) -> (w: WindowId)
        ensures
            w.id == id,
    {
        WindowId { id }
    }

    pub fn get(&self) -> (r: u32)
        ensures
            r == self.id,
    {
        self.id
    }
}

/// The identity of a tiling container.
#[derive(Debug, Clone, Copy, PartialEq, Eq, Structural, Hash)]
pub struct ContainerId {
    pub id: u64,
}

/// What a fullscreen window covers.
#[derive(Debug, Clone, Copy, PartialEq, Eq, Structural)]
pub enum FullscreenMode {
    /// The area of its workspace
    Container,
    /// Its virtual output
    VirtualOutput,
    /// The whole physical output it is on
    PhysicalOutput,
}

/// How a window is laid out when it is not fullscreen.
#[derive(Debug, Clone, Copy, PartialEq, Eq, Structural)]
pub enum NonFullscreenLayout {
    Tiled { container: ContainerId, geometry: Rectangle },
    Floating { geometry: Rectangle },
}

/// How a window is laid out: tiled in a container, floating, or fullscreen
/// with the layout it had before.
#[derive(Debug, Clone, Copy, PartialEq, Eq, Structural)]
pub enum WindowLayout {
    Tiled { container: ContainerId, geometry: Rectangle },
    Floating { geometry: Rectangle },
    Fullscreen { mode: FullscreenMode, geometry: Rectangle, previous: NonFullscreenLayout },
}

impl NonFullscreenLayout {
    pub open spec fn spec_into_layout(self) -> WindowLayout {
        match self {
            NonFullscreenLayout::Tiled { container, geometry } => WindowLayout::Tiled { container, geometry },
            NonFullscreenLayout::Floating { geometry } => WindowLayout::Floating { geometry },
        }
    }

    /// The layout this stands for.
    pub fn into_layout(self) -> (l: WindowLayout)
        ensures
            l == self.spec_into_layout(),
    {
        match self {
            NonFullscreenLayout::Tiled { container, geometry } => WindowLayout::Tiled { container, geometry },
            NonFullscreenLayout::Floating { geometry } => WindowLayout::Floating { geometry },
        }
    }
}

impl WindowLayout {
    pub open spec fn spec_as_non_fullscreen(self) -> Option<NonFullscreenLayout> {
        match self {
            WindowLayout::Tiled { container, geometry } => Some(NonFullscreenLayout::Tiled { container, geometry }),
            WindowLayout::Floating { geometry } => Some(NonFullscreenLayout::Floating { geometry }),
            WindowLayout::Fullscreen { .. } => None,
        }
    }

    /// The layout as a non-fullscreen one; none while it is fullscreen.
    pub fn as_non_fullscreen(&self) -> (r: Option<NonFullscreenLayout>)
        ensures
            r == self.spec_as_non_fullscreen(),
    {
        match self {
            WindowLayout::Tiled { container, geometry } => Some(
                NonFullscreenLayout::Tiled { container: *container, geometry: *geometry },
            ),
            WindowLayout::Floating { geometry } => Some(NonFullscreenLayout::Floating { geometry: *geometry }),
            WindowLayout::Fullscreen { .. } => None,
        }
    }

    pub open spec fn spec_geometry(self) -> Rectangle {
        match self {
            WindowLayout::Tiled { geometry, .. } => geometry,
            WindowLayout::Floating { geometry } => geometry,
            WindowLayout::Fullscreen { geometry, .. } => geometry,
        }
    }

    /// The area the layout gives the window.
    pub fn geometry(&self) -> (g: Rectangle)
        ensures
            g == self.spec_geometry(),
    {
        match self {
            WindowLayout::Tiled { geometry, .. } => *geometry,
            WindowLayout::Floating { geometry } => *geometry,
            WindowLayout::Fullscreen { geometry, .. } => *geometry,
        }
    }

    pub open spec fn spec_is_fullscreen(self) -> bool {
        self is Fullscreen
    }

    pub fn is_fullscreen(&self) -> (b: bool)
        ensures
            b == self.spec_is_fullscreen(),
    {
        match self {
            WindowLayout::Fullscreen { .. } => true,
            _ => false,
        }
    }
}

/// A window as the registry knows it: its identity, the workspace it
/// belongs to, where it is placed (none while it is not mapped), its size
/// and its layout.
#[derive(Debug, Clone, Copy, PartialEq, Eq, Structural)]
pub struct ManagedWindow {
    pub id: WindowId,
    pub workspace: WorkspaceId,
    pub location: Option<Point>,
    pub size: Size,
    pub layout: WindowLayout,
}

/// The registry of managed windows, in the order they were added.
#[derive(Debug, Clone)]
pub struct WindowRegistry {
    pub windows: Vec<ManagedWindow>,
}

/// The first registry entry for `id`.
pub open spec fn registry_get(ws: Seq<ManagedWindow>, id: WindowId) -> Option<ManagedWindow>
    decreases ws.len(),
{
    if ws.len() == 0 {
        None
    } else if ws[0].id == id {
        Some(ws[0])
    } else {
        registry_get(ws.drop_first(), id)
    }
}

/// The index of the first registry entry for `id`.
pub open spec fn registry_index(ws: Seq<ManagedWindow>, id: WindowId) -> Option<int>
    decreases ws.len(),
{
    if ws.len() == 0 {
        None
    } else if ws[0].id == id {
        Some(0)
    } else {
        match registry_index(ws.drop_first(), id) {
            Some(i) => Some(i + 1),
            None => None,
        }
    }
}

/// No two entries share an identity.
pub open spec fn window_ids_distinct(ws: Seq<ManagedWindow>) -> bool {
    forall|i: int, j: int| 0 <= i < j < ws.len() ==> ws[i].id != ws[j].id
}

pub proof fn lemma_registry_index(ws: Seq<ManagedWindow>, id: WindowId)
    ensures
        registry_index(ws, id) matches Some(i) ==> 0 <= i < ws.len() && ws[i].id == id
            && registry_get(ws, id) == Some(ws[i]) && forall|j: int| 0 <= j < i ==> ws[j].id != id,
        registry_index(ws, id) is None <==> registry_get(ws, id) is None,
        registry_index(ws, id) is None ==> forall|j: int| 0 <= j < ws.len() ==> ws[j].id != id,
    decreases ws.len(),
{
    if ws.len() > 0 {
        lemma_registry_index(ws.drop_first(), id);
        if ws[0].id != id {
            assert forall|j: int| 1 <= j < ws.len() implies ws[j] == ws.drop_first()[j - 1] by {}
        }
    }
}

/// In a registry whose identities are distinct, the entry at `i` is the one
/// a lookup of its identity finds.
pub proof fn lemma_registry_at(ws: Seq<ManagedWindow>, i: int)
    requires
        0 <= i < ws.len(),
        window_ids_distinct(ws),
    ensures
        registry_index(ws, ws[i].id) == Some(i),
        registry_get(ws, ws[i].id) == Some(ws[i]),
{
    lemma_registry_index(ws, ws[i].id);
}

/// Changing the entry at `i`, keeping its identity, keeps where every
/// identity is found.
pub proof fn lemma_registry_update(ws: Seq<ManagedWindow>, i: int, w: ManagedWindow, id: WindowId)
    requires
        0 <= i < ws.len(),
        w.id == ws[i].id,
    ensures
        registry_index(ws.update(i, w), id) == registry_index(ws, id),
        registry_get(ws.update(i, w), id) == (if registry_index(ws, id) == Some(i) {
            Some(w)
        } else {
            registry_get(ws, id)
        }),
    decreases ws.len(),
{
    let u = ws.update(i, w);
    lemma_registry_index(ws.drop_first(), id);
    assert(u[0] == (if i == 0 { w } else { ws[0] }));
    if i == 0 {
        assert(u.drop_first() =~= ws.drop_first());
    } else {
        assert(u.drop_first() =~= ws.drop_first().update(i - 1, w));
        lemma_registry_update(ws.drop_first(), i - 1, w, id);
    }
}

pub fn find_window_index(windows: &Vec<ManagedWindow>, id: WindowId) -> (r: Option<usize>)
    ensures
        match registry_index(windows@, id) {
            Some(i) => r == Some(i as usize) && 0 <= i < windows.len(),
            None => r is None,
        },
{
    let mut i: usize = 0;
    assert(windows@.skip(0) =~= windows@);
    while i < windows.len()
        invariant
            i <= windows.len(),
            registry_index(windows@, id) == (match registry_index(windows@.skip(i as int), id) {
                Some(k) => Some(k + i),
                None => None,
            }),
        decreases windows.len() - i,
    {
        assert(windows@.skip(i as int)[0] == windows@[i as int]);
        if windows[i].id == id {
            return Some(i);
        }
        assert(windows@.skip(i as int).drop_first() =~= windows@.skip(i + 1));
        i += 1;
    }
    None
}

impl WindowRegistry {
    /// The registry's invariant: no two entries share an identity.
    pub open spec fn wf(&self) -> bool {
        window_ids_distinct(self.windows@)
    }

    pub open spec fn spec_get(&self, id: WindowId) -> Option<ManagedWindow> {
        registry_get(self.windows@, id)
    }

    pub fn new() -> (r: WindowRegistry)
        ensures
            r.windows@ == Seq::<ManagedWindow>::empty(),
            r.wf(),
    {
        WindowRegistry { windows: Vec::new() }
    }

    /// All managed windows.
    pub fn windows(&self) -> (r: &Vec<ManagedWindow>)
        ensures
            r@ == self.windows@,
    {
        &self.windows
    }

    /// The number of managed windows.
    pub fn len(&self) -> (r: usize)
        ensures
            r == self.windows@.len(),
    {
        self.windows.len()
    }

    /// The entry of a window.
    pub fn get(&self, id: WindowId) -> (r: Option<ManagedWindow>)
        ensures
            r == self.spec_get(id),
    {
        proof {
            lemma_registry_index(self.windows@, id);
        }
        match find_window_index(&self.windows, id) {
            Some(i) => Some(self.windows[i]),
            None => None,
        }
    }

    /// Registers a window; false, and nothing changed, where its identity is
    /// registered already.
    pub fn insert(&mut self, w: ManagedWindow) -> (ok: bool)
        ensures
            ok == (old(self).spec_get(w.id) is None),
            ok ==> final(self).windows@ == old(self).windows@.push(w),
            !ok ==> final(self).windows@ == old(self).windows@,
            old(self).wf() ==> final(self).wf(),
    {
        proof {
            lemma_registry_index(self.windows@, w.id);
        }
        if find_window_index(&self.windows, w.id).is_some() {
            return false;
        }
        self.windows.push(w);
        true
    }

    /// Unregisters a window; false where it is not registered.
    pub fn remove(&mut self, id: WindowId) -> (ok: bool)
        ensures
            ok == (old(self).spec_get(id) is Some),
            ok ==> final(self).windows@ == old(self).windows@.remove(registry_index(old(self).windows@, id)->0),
            !ok ==> final(self).windows@ == old(self).windows@,
            old(self).wf() ==> final(self).wf(),
    {
        proof {
            lemma_registry_index(self.windows@, id);
        }
        match find_window_index(&self.windows, id) {
            Some(i) => {
                let ghost v0 = self.windows@;
                self.windows.remove(i);
                proof {
                    let v = self.windows@;
                    if window_ids_distinct(v0) {
                        assert forall|a: int, b: int| 0 <= a < b < v.len() implies v[a].id != v[b].id by {
                            let a0 = if a < i { a } else { a + 1 };
                            let b0 = if b < i { b } else { b + 1 };
                            assert(v[a] == v0[a0]);
                            assert(v[b] == v0[b0]);
                        }
                    }
                }
                true
            },
            None => false,
        }
    }

    /// Records that a window now belongs to `ws`; false where the window is
    /// not registered.
    pub fn set_workspace(&mut self, id: WindowId, ws: WorkspaceId) -> (ok: bool)
        ensures
            ok == (old(self).spec_get(id) is Some),
            ok ==> final(self).windows@ == old(self).windows@.update(
                registry_index(old(self).windows@, id)->0,
                ManagedWindow { workspace: ws, ..old(self).spec_get(id)->0 },
            ),
            !ok ==> final(self).windows@ == old(self).windows@,
            old(self).wf() ==> final(self).wf(),
    {
        proof {
            lemma_registry_index(self.windows@, id);
        }
        match find_window_index(&self.windows, id) {
            Some(i) => {
                let w = self.windows[i];
                self.windows.set(i, ManagedWindow { workspace: ws, ..w });
                true
            },
            None => false,
        }
    }

    /// Gives a window a new layout; false where the window is not registered.
    pub fn set_layout(&mut self, id: WindowId, layout: WindowLayout) -> (ok: bool)
        ensures
            ok == (old(self).spec_get(id) is Some),
            ok ==> final(self).windows@ == old(self).windows@.update(
                registry_index(old(self).windows@, id)->0,
                ManagedWindow { layout, ..old(self).spec_get(id)->0 },
            ),
            !ok ==> final(self).windows@ == old(self).windows@,
            old(self).wf() ==> final(self).wf(),
    {
        proof {
            lemma_registry_index(self.windows@, id);
        }
        match find_window_index(&self.windows, id) {
            Some(i) => {
                let w = self.windows[i];
                self.windows.set(i, ManagedWindow { layout, ..w });
                true
            },
            None => false,
        }
    }

    /// Where a window is placed.
    pub fn window_position(&self, id: WindowId) -> (r: Option<Point>)
        ensures
            r == (match self.spec_get(id) {
                Some(w) => w.location,
                None => None,
            }),
    {
        match self.get(id) {
            Some(w) => w.location,
            None => None,
        }
    }

    /// Places a window at `p`; false where the window is not registered.
    pub fn move_window(&mut self, id: WindowId, p: Point) -> (ok: bool)
        ensures
            ok == (old(self).spec_get(id) is Some),
            ok ==> final(self).windows@ == old(self).windows@.update(
                registry_index(old(self).windows@, id)->0,
                ManagedWindow { location: Some(p), ..old(self).spec_get(id)->0 },
            ),
            !ok ==> final(self).windows@ == old(self).windows@,
            old(self).wf() ==> final(self).wf(),
    {
        proof {
            lemma_registry_index(self.windows@, id);
        }
        match find_window_index(&self.windows, id) {
            Some(i) => {
                let w = self.windows[i];
                self.windows.set(i, ManagedWindow { location: Some(p), ..w });
                true
            },
            None => false,
        }
    }
}

} // verus!

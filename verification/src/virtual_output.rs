//! Virtual outputs: logical display areas, each showing one workspace.
use crate::geometry::{rect_contains, rect_fits, Point, Rectangle};
use vstd::prelude::*;

verus! {

/// A virtual output: its identity, its name, its area and the index of the
/// workspace it shows.
#[derive(Debug, Clone)]
pub struct VirtualOutput {
    pub id: usize,
    pub name: String,
    pub region: Rectangle,
    pub active_workspace: Option<usize>,
}

impl VirtualOutput {
    pub fn id(&self) -> (r: usize)
        ensures
            r == self.id,
    {
        self.id
    }

    pub fn name(&self) -> (r: &str)
        ensures
            r@ == self.name@,
    {
        self.name.as_str()
    }

    pub fn active_workspace(&self) -> (r: Option<usize>)
        ensures
            r == self.active_workspace,
    {
        self.active_workspace
    }

    pub fn logical_region(&self) -> (r: Rectangle)
        ensures
            r == self.region,
    {
        self.region
    }
}

/// What the logic reads of a virtual output.
pub struct OutputView {
    pub id: usize,
    pub name: Seq<char>,
    pub region: Rectangle,
    pub active_workspace: Option<usize>,
}

pub open spec fn output_view(o: VirtualOutput) -> OutputView {
    OutputView { id: o.id, name: o.name@, region: o.region, active_workspace: o.active_workspace }
}

pub open spec fn outputs_view(v: Seq<VirtualOutput>) -> Seq<OutputView> {
    v.map_values(|o: VirtualOutput| output_view(o))
}

/// The first output with identity `id`.
pub open spec fn vo_lookup(v: Seq<OutputView>, id: usize) -> Option<OutputView>
    decreases v.len(),
{
    if v.len() == 0 {
        None
    } else if v[0].id == id {
        Some(v[0])
    } else {
        vo_lookup(v.drop_first(), id)
    }
}

/// The first output whose area holds the point.
pub open spec fn vo_at(v: Seq<OutputView>, p: Point) -> Option<usize>
    decreases v.len(),
{
    if v.len() == 0 {
        None
    } else if rect_contains(v[0].region, p) {
        Some(v[0].id)
    } else {
        vo_at(v.drop_first(), p)
    }
}

/// The first output whose area holds the point `(x, y)`.
pub open spec fn vo_at_xy(v: Seq<OutputView>, x: int, y: int) -> Option<usize>
    decreases v.len(),
{
    if v.len() == 0 {
        None
    } else if v[0].region.loc.x <= x < v[0].region.loc.x + v[0].region.size.w && v[0].region.loc.y
        <= y < v[0].region.loc.y + v[0].region.size.h {
        Some(v[0].id)
    } else {
        vo_at_xy(v.drop_first(), x, y)
    }
}

/// The outputs after each with identity `id` was set to show workspace `ws`.
pub open spec fn with_active(v: Seq<OutputView>, id: usize, ws: usize) -> Seq<OutputView> {
    Seq::new(
        v.len(),
        |i: int|
            if v[i].id == id {
                OutputView { active_workspace: Some(ws), ..v[i] }
            } else {
                v[i]
            },
    )
}

/// Setting the workspace an output shows changes no output's identity or
/// area.
pub proof fn lemma_with_active_lookup(v: Seq<OutputView>, id: usize, ws: usize, q: usize)
    ensures
        vo_lookup(with_active(v, id, ws), q) is Some <==> vo_lookup(v, q) is Some,
        vo_lookup(with_active(v, id, ws), q) matches Some(o) ==> o.region == vo_lookup(v, q)->0.region
            && o.id == vo_lookup(v, q)->0.id && o.active_workspace == (if q == id {
            Some(ws)
        } else {
            vo_lookup(v, q)->0.active_workspace
        }),
    decreases v.len(),
{
    if v.len() > 0 {
        assert(with_active(v, id, ws).drop_first() =~= with_active(v.drop_first(), id, ws));
        lemma_with_active_lookup(v.drop_first(), id, ws, q);
    }
}

/// The virtual outputs, in the order they were configured.
#[derive(Debug, Clone)]
pub struct VirtualOutputManager {
    pub outputs: Vec<VirtualOutput>,
}

impl VirtualOutputManager {
    pub open spec fn spec_view(&self) -> Seq<OutputView> {
        outputs_view(self.outputs@)
    }

    pub fn new() -> (m: VirtualOutputManager)
        ensures
            m.outputs@.len() == 0,
    {
        VirtualOutputManager { outputs: Vec::new() }
    }

    /// Adds a virtual output named `name` covering `region`, numbered after
    /// the outputs there are, showing no workspace yet; none where the
    /// region's edges do not fit in 32-bit coordinates or its size is
    /// negative.
    pub fn add_output(&mut self, name: String, region: Rectangle) -> (r: Option<usize>)
        ensures
            r is Some <==> rect_fits(region) && old(self).outputs@.len() < usize::MAX,
            r matches Some(id) ==> id == old(self).outputs@.len() && final(self).spec_view() == old(
                self,
            ).spec_view().push(OutputView { id, name: name@, region, active_workspace: None }),
            r is None ==> final(self).spec_view() == old(self).spec_view(),
    {
        let fits = region.size.w >= 0 && region.size.h >= 0 && (region.loc.x as i64) + (region.size.w as i64)
            <= i32::MAX as i64 && (region.loc.y as i64) + (region.size.h as i64) <= i32::MAX as i64;
        if !fits || self.outputs.len() == usize::MAX {
            return None;
        }
        let id = self.outputs.len();
        let ghost v0 = self.spec_view();
        let ghost n = name@;
        self.outputs.push(VirtualOutput { id, name, region, active_workspace: None });
        assert(self.spec_view() =~= v0.push(OutputView { id, name: n, region, active_workspace: None }));
        Some(id)
    }

    /// All virtual outputs.
    pub fn outputs(&self) -> (r: &Vec<VirtualOutput>)
        ensures
            r@ == self.outputs@,
    {
        &self.outputs
    }

    /// The position of the output `id`.
    fn position_of(&self, id: usize) -> (r: Option<usize>)
        ensures
            match r {
                Some(i) => i < self.outputs.len() && vo_lookup(self.spec_view(), id) == Some(
                    self.spec_view()[i as int],
                ),
                None => vo_lookup(self.spec_view(), id) is None,
            },
    {
        let ghost v = self.spec_view();
        let mut i: usize = 0;
        assert(v.skip(0) =~= v);
        while i < self.outputs.len()
            invariant
                i <= self.outputs.len(),
                v == self.spec_view(),
                vo_lookup(v, id) == vo_lookup(v.skip(i as int), id),
            decreases self.outputs.len() - i,
        {
            assert(v.skip(i as int)[0] == output_view(self.outputs@[i as int]));
            if self.outputs[i].id == id {
                return Some(i);
            }
            assert(v.skip(i as int).drop_first() =~= v.skip(i + 1));
            i += 1;
        }
        None
    }

    /// The output `id`.
    pub fn get(&self, id: usize) -> (r: Option<&VirtualOutput>)
        ensures
            match vo_lookup(self.spec_view(), id) {
                Some(o) => r matches Some(x) && output_view(*x) == o,
                None => r is None,
            },
    {
        match self.position_of(id) {
            Some(i) => Some(&self.outputs[i]),
            None => None,
        }
    }

    /// The output whose area holds the point.
    pub fn virtual_output_at(&self, p: Point) -> (r: Option<usize>)
        ensures
            r == vo_at(self.spec_view(), p),
    {
        let ghost v = self.spec_view();
        let mut i: usize = 0;
        assert(v.skip(0) =~= v);
        while i < self.outputs.len()
            invariant
                i <= self.outputs.len(),
                v == self.spec_view(),
                vo_at(v, p) == vo_at(v.skip(i as int), p),
            decreases self.outputs.len() - i,
        {
            assert(v.skip(i as int)[0] == output_view(self.outputs@[i as int]));
            if self.outputs[i].region.contains(p) {
                return Some(self.outputs[i].id);
            }
            assert(v.skip(i as int).drop_first() =~= v.skip(i + 1));
            i += 1;
        }
        None
    }

    /// The output whose area holds the point `(x, y)`.
    pub fn virtual_output_at_xy(&self, x: i64, y: i64) -> (r: Option<usize>)
        ensures
            r == vo_at_xy(self.spec_view(), x as int, y as int),
    {
        let ghost v = self.spec_view();
        let mut i: usize = 0;
        assert(v.skip(0) =~= v);
        while i < self.outputs.len()
            invariant
                i <= self.outputs.len(),
                v == self.spec_view(),
                vo_at_xy(v, x as int, y as int) == vo_at_xy(v.skip(i as int), x as int, y as int),
            decreases self.outputs.len() - i,
        {
            assert(v.skip(i as int)[0] == output_view(self.outputs@[i as int]));
            let r = self.outputs[i].region;
            if (r.loc.x as i64) <= x && x < (r.loc.x as i64) + (r.size.w as i64) && (r.loc.y as i64) <= y
                && y < (r.loc.y as i64) + (r.size.h as i64) {
                return Some(self.outputs[i].id);
            }
            assert(v.skip(i as int).drop_first() =~= v.skip(i + 1));
            i += 1;
        }
        None
    }

    /// Records that the output `id` now shows workspace `ws`.
    pub fn set_active_workspace(&mut self, id: usize, ws: usize)
        ensures
            final(self).spec_view() == with_active(old(self).spec_view(), id, ws),
    {
        let ghost v0 = self.spec_view();
        let mut i: usize = 0;
        while i < self.outputs.len()
            invariant
                i <= self.outputs.len(),
                self.outputs.len() == v0.len(),
                forall|j: int| 0 <= j < i ==> #[trigger] self.spec_view()[j] == with_active(v0, id, ws)[j],
                forall|j: int| i <= j < v0.len() ==> #[trigger] self.spec_view()[j] == v0[j],
            decreases self.outputs.len() - i,
        {
            let ghost before = self.outputs@;
            assert(self.spec_view()[i as int] == v0[i as int]);
            assert(self.spec_view()[i as int] == output_view(self.outputs@[i as int]));
            if self.outputs[i].id == id {
                self.outputs[i].active_workspace = Some(ws);
            }
            assert(self.outputs@ == before.update(i as int, self.outputs@[i as int]));
            assert(self.spec_view()[i as int] == with_active(v0, id, ws)[i as int]);
            assert forall|j: int| 0 <= j < v0.len() && j != i implies #[trigger] self.spec_view()[j]
                == outputs_view(before)[j] by {}
            i += 1;
        }
        assert(self.spec_view() =~= with_active(v0, id, ws));
    }
}

} // verus!

//! Which outputs need to be drawn again.
use crate::event::Instant;
use vstd::prelude::*;

verus! {

/// State tracking redraw needs for an output
#[derive(Debug, Clone, Copy)]
pub struct OutputRedrawState {
    /// Whether this output needs to be redrawn
    pub needs_redraw: bool,
    /// Last time this output was rendered
    pub last_render_time: Option<Instant>,
}

impl Default for OutputRedrawState {
    fn default() -> (s: Self)
        ensures
            !s.needs_redraw,
            s.last_render_time is None,
    {
        OutputRedrawState { needs_redraw: false, last_render_time: None }
    }
}

/// Manages redraw state for all outputs, each known by its identity, in the
/// order they were added.
#[derive(Debug)]
pub struct RedrawScheduler {
    pub output_state: Vec<(usize, OutputRedrawState)>,
}

/// The entry of output `id`, if it is tracked.
pub open spec fn entry_of(v: Seq<(usize, OutputRedrawState)>, id: usize) -> Option<OutputRedrawState>
    decreases v.len(),
{
    if v.len() == 0 {
        None
    } else if v.last().0 == id {
        Some(v.last().1)
    } else {
        entry_of(v.drop_last(), id)
    }
}

/// The tracked outputs that need a redraw, in order.
pub open spec fn needing(v: Seq<(usize, OutputRedrawState)>) -> Seq<usize>
    decreases v.len(),
{
    if v.len() == 0 {
        Seq::empty()
    } else if v.last().1.needs_redraw {
        needing(v.drop_last()).push(v.last().0)
    } else {
        needing(v.drop_last())
    }
}

/// Each output is tracked at most once.
pub open spec fn ids_unique(v: Seq<(usize, OutputRedrawState)>) -> bool {
    forall|i: int, j: int| 0 <= i < j < v.len() ==> v[i].0 != v[j].0
}

/// The entries after `f` was applied to each entry for `id`.
pub open spec fn with_entry(
    v: Seq<(usize, OutputRedrawState)>,
    id: usize,
    s: OutputRedrawState,
) -> Seq<(usize, OutputRedrawState)> {
    Seq::new(v.len(), |i: int| if v[i].0 == id { (id, s) } else { v[i] })
}

pub proof fn lemma_entry_of(v: Seq<(usize, OutputRedrawState)>, id: usize)
    requires
        ids_unique(v),
    ensures
        entry_of(v, id) is Some <==> exists|i: int| 0 <= i < v.len() && v[i].0 == id,
        forall|i: int| 0 <= i < v.len() && v[i].0 == id ==> entry_of(v, id) == Some(v[i].1),
    decreases v.len(),
{
    if v.len() > 0 {
        lemma_entry_of(v.drop_last(), id);
        assert forall|i: int| 0 <= i < v.len() - 1 implies v.drop_last()[i] == v[i] by {}
    }
}

impl RedrawScheduler {
    /// The scheduler's invariant: each output is tracked at most once.
    pub open spec fn wf(&self) -> bool {
        ids_unique(self.output_state@)
    }

    /// Whether output `id` needs a redraw.
    pub open spec fn spec_needs(&self, id: usize) -> bool {
        match entry_of(self.output_state@, id) {
            Some(s) => s.needs_redraw,
            None => false,
        }
    }

    /// Create a new redraw scheduler
    pub fn new() -> (r: RedrawScheduler)
        ensures
            r.wf(),
            r.output_state@.len() == 0,
    {
        RedrawScheduler { output_state: Vec::new() }
    }

    fn position(&self, id: usize) -> (r: Option<usize>)
        requires
            self.wf(),
        ensures
            match r {
                Some(i) => i < self.output_state@.len() && self.output_state@[i as int].0 == id,
                None => forall|i: int| 0 <= i < self.output_state@.len() ==> self.output_state@[i].0 != id,
            },
    {
        let mut i: usize = 0;
        while i < self.output_state.len()
            invariant
                i <= self.output_state.len(),
                forall|j: int| 0 <= j < i ==> self.output_state@[j].0 != id,
            decreases self.output_state.len() - i,
        {
            if self.output_state[i].0 == id {
                return Some(i);
            }
            i += 1;
        }
        None
    }

    /// Add an output to track (one tracked already keeps its state)
    pub fn add_output(&mut self, id: usize)
        requires
            old(self).wf(),
        ensures
            final(self).wf(),
            entry_of(old(self).output_state@, id) is Some ==> final(self).output_state@ == old(
                self,
            ).output_state@,
            entry_of(old(self).output_state@, id) is None ==> final(self).output_state@ == old(
                self,
            ).output_state@.push((id, OutputRedrawState { needs_redraw: false, last_render_time: None })),
    {
        proof {
            lemma_entry_of(self.output_state@, id);
        }
        if self.position(id).is_none() {
            self.output_state.push((id, OutputRedrawState { needs_redraw: false, last_render_time: None }));
        }
    }

    /// Remove an output from tracking
    pub fn remove_output(&mut self, id: usize)
        requires
            old(self).wf(),
        ensures
            final(self).wf(),
            entry_of(final(self).output_state@, id) is None,
            forall|k: usize| k != id ==> entry_of(final(self).output_state@, k) == entry_of(old(self).output_state@, k),
    {
        proof {
            lemma_entry_of(self.output_state@, id);
        }
        match self.position(id) {
            Some(i) => {
                let ghost v0 = self.output_state@;
                self.output_state.remove(i);
                proof {
                    let v = self.output_state@;
                    assert(v =~= v0.remove(i as int));
                    assert forall|a: int, b: int| 0 <= a < b < v.len() implies v[a].0 != v[b].0 by {
                        let a0 = if a < i { a } else { a + 1 };
                        let b0 = if b < i { b } else { b + 1 };
                        assert(v[a] == v0[a0]);
                        assert(v[b] == v0[b0]);
                    }
                    lemma_entry_of(v, id);
                    assert forall|j: int| 0 <= j < v.len() implies v[j].0 != id by {
                        let j0 = if j < i { j } else { j + 1 };
                        assert(v[j] == v0[j0]);
                    }
                    assert forall|k: usize| k != id implies entry_of(v, k) == entry_of(v0, k) by {
                        lemma_entry_of(v, k);
                        lemma_entry_of(v0, k);
                        if exists|j: int| 0 <= j < v0.len() && v0[j].0 == k {
                            let j = choose|j: int| 0 <= j < v0.len() && v0[j].0 == k;
                            assert(j != i);
                            let j1 = if j < i { j } else { j - 1 };
                            assert(v[j1] == v0[j]);
                        }
                        if exists|j: int| 0 <= j < v.len() && v[j].0 == k {
                            let j = choose|j: int| 0 <= j < v.len() && v[j].0 == k;
                            let j0 = if j < i { j } else { j + 1 };
                            assert(v[j] == v0[j0]);
                        }
                    }
                }
            },
            None => {},
        }
    }

    /// Sets the state of the output at position `i`.
    fn set_state(&mut self, i: usize, s: OutputRedrawState)
        requires
            old(self).wf(),
            i < old(self).output_state@.len(),
        ensures
            final(self).wf(),
            final(self).output_state@ == with_entry(old(self).output_state@, old(self).output_state@[i as int].0, s),
    {
        let ghost v0 = self.output_state@;
        let id = self.output_state[i].0;
        self.output_state.set(i, (id, s));
        assert(self.output_state@ =~= with_entry(v0, id, s)) by {
            assert forall|j: int| 0 <= j < v0.len() && j != i implies v0[j].0 != id by {
                if j < i {
                    assert(v0[j].0 != v0[i as int].0);
                } else {
                    assert(v0[i as int].0 != v0[j].0);
                }
            }
        }
    }

    /// Queue a redraw for an output
    pub fn queue_redraw(&mut self, id: usize)
        requires
            old(self).wf(),
        ensures
            final(self).wf(),
            match entry_of(old(self).output_state@, id) {
                Some(s) => final(self).output_state@ == with_entry(
                    old(self).output_state@,
                    id,
                    OutputRedrawState { needs_redraw: true, ..s },
                ),
                None => final(self).output_state@ == old(self).output_state@,
            },
    {
        proof {
            lemma_entry_of(self.output_state@, id);
        }
        if let Some(i) = self.position(id) {
            let s = self.output_state[i].1;
            self.set_state(i, OutputRedrawState { needs_redraw: true, ..s });
        }
    }

    /// Queue redraws for all outputs
    pub fn queue_redraw_all(&mut self)
        requires
            old(self).wf(),
        ensures
            final(self).wf(),
            final(self).output_state@.len() == old(self).output_state@.len(),
            forall|i: int|
                0 <= i < old(self).output_state@.len() ==> #[trigger] final(self).output_state@[i] == (
                old(self).output_state@[i].0,
                OutputRedrawState { needs_redraw: true, ..old(self).output_state@[i].1 },
            ),
    {
        let ghost v0 = self.output_state@;
        let mut i: usize = 0;
        while i < self.output_state.len()
            invariant
                i <= self.output_state.len(),
                self.output_state@.len() == v0.len(),
                forall|j: int| 0 <= j < i ==> #[trigger] self.output_state@[j] == (
                    v0[j].0,
                    OutputRedrawState { needs_redraw: true, ..v0[j].1 },
                ),
                forall|j: int| i <= j < v0.len() ==> #[trigger] self.output_state@[j] == v0[j],
            decreases self.output_state.len() - i,
        {
            let (id, s) = self.output_state[i];
            self.output_state.set(i, (id, OutputRedrawState { needs_redraw: true, ..s }));
            i += 1;
        }
        assert forall|a: int, b: int| 0 <= a < b < self.output_state@.len() implies self.output_state@[a].0
            != self.output_state@[b].0 by {
            assert(self.output_state@[a].0 == v0[a].0);
            assert(self.output_state@[b].0 == v0[b].0);
        }
    }

    /// Check if an output needs redraw
    pub fn needs_redraw(&self, id: usize) -> (b: bool)
        requires
            self.wf(),
        ensures
            b == self.spec_needs(id),
    {
        proof {
            lemma_entry_of(self.output_state@, id);
        }
        match self.position(id) {
            Some(i) => self.output_state[i].1.needs_redraw,
            None => false,
        }
    }

    /// Clear redraw flag for an output (called after rendering at `now`)
    pub fn clear_redraw(&mut self, id: usize, now: Instant)
        requires
            old(self).wf(),
        ensures
            final(self).wf(),
            match entry_of(old(self).output_state@, id) {
                Some(s) => final(self).output_state@ == with_entry(
                    old(self).output_state@,
                    id,
                    OutputRedrawState { needs_redraw: false, last_render_time: Some(now) },
                ),
                None => final(self).output_state@ == old(self).output_state@,
            },
    {
        proof {
            lemma_entry_of(self.output_state@, id);
        }
        if let Some(i) = self.position(id) {
            self.set_state(i, OutputRedrawState { needs_redraw: false, last_render_time: Some(now) });
        }
    }

    /// Get outputs that need redraw
    pub fn outputs_needing_redraw(&self) -> (r: Vec<usize>)
        ensures
            r@ == needing(self.output_state@),
    {
        let mut r: Vec<usize> = Vec::new();
        let mut i: usize = 0;
        while i < self.output_state.len()
            invariant
                i <= self.output_state.len(),
                r@ == needing(self.output_state@.take(i as int)),
            decreases self.output_state.len() - i,
        {
            assert(self.output_state@.take(i + 1).drop_last() =~= self.output_state@.take(i as int));
            assert(self.output_state@.take(i + 1).last() == self.output_state@[i as int]);
            if self.output_state[i].1.needs_redraw {
                r.push(self.output_state[i].0);
            }
            i += 1;
        }
        assert(self.output_state@.take(i as int) =~= self.output_state@);
        r
    }
}

/// The entry of `id` after its state was replaced, where it was tracked.
pub proof fn lemma_with_entry(v: Seq<(usize, OutputRedrawState)>, id: usize, s: OutputRedrawState, k: usize)
    requires
        ids_unique(v),
    ensures
        ids_unique(with_entry(v, id, s)),
        entry_of(with_entry(v, id, s), k) == (if k == id && entry_of(v, id) is Some {
            Some(s)
        } else {
            entry_of(v, k)
        }),
{
    let w = with_entry(v, id, s);
    assert forall|a: int, b: int| 0 <= a < b < w.len() implies w[a].0 != w[b].0 by {
        assert(w[a].0 == v[a].0);
        assert(w[b].0 == v[b].0);
    }
    lemma_entry_of(v, k);
    lemma_entry_of(w, k);
    if exists|j: int| 0 <= j < v.len() && v[j].0 == k {
        let j = choose|j: int| 0 <= j < v.len() && v[j].0 == k;
        assert(w[j].0 == k);
    }
    if exists|j: int| 0 <= j < w.len() && w[j].0 == k {
        let j = choose|j: int| 0 <= j < w.len() && w[j].0 == k;
        assert(v[j].0 == k);
    }
}

/// Law: a queued output needs a redraw until it is drawn; once drawn it
/// needs none (for every output that is tracked).
pub proof fn law_queue_then_clear(v: Seq<(usize, OutputRedrawState)>, id: usize, now: Instant)
    requires
        ids_unique(v),
        entry_of(v, id) is Some,
    ensures
        ({
            let s = entry_of(v, id)->0;
            let queued = with_entry(v, id, OutputRedrawState { needs_redraw: true, ..s });
            let cleared = with_entry(
                queued,
                id,
                OutputRedrawState { needs_redraw: false, last_render_time: Some(now) },
            );
            &&& entry_of(queued, id)->0.needs_redraw
            &&& !entry_of(cleared, id)->0.needs_redraw
            &&& entry_of(cleared, id)->0.last_render_time == Some(now)
        }),
{
    let s = entry_of(v, id)->0;
    let s1 = OutputRedrawState { needs_redraw: true, ..s };
    lemma_with_entry(v, id, s1, id);
    let queued = with_entry(v, id, s1);
    lemma_with_entry(queued, id, OutputRedrawState { needs_redraw: false, last_render_time: Some(now) }, id);
}

/// Law: the outputs listed as needing a redraw are exactly the tracked ones
/// whose flag is set.
pub proof fn law_needing_exact(v: Seq<(usize, OutputRedrawState)>, id: usize)
    requires
        ids_unique(v),
    ensures
        needing(v).contains(id) <==> (entry_of(v, id) matches Some(s) && s.needs_redraw),
    decreases v.len(),
{
    if v.len() > 0 {
        let u = v.drop_last();
        assert(ids_unique(u)) by {
            assert forall|a: int, b: int| 0 <= a < b < u.len() implies u[a].0 != u[b].0 by {
                assert(u[a] == v[a]);
                assert(u[b] == v[b]);
            }
        }
        law_needing_exact(u, id);
        lemma_entry_of(v, id);
        lemma_entry_of(u, id);
        let n = needing(u);
        if v.last().1.needs_redraw {
            assert(needing(v) == n.push(v.last().0));
            assert(n.push(v.last().0)[n.len() as int] == v.last().0);
            if n.push(v.last().0).contains(id) {
                let j = choose|j: int| 0 <= j < n.push(v.last().0).len() && n.push(v.last().0)[j] == id;
                if j < n.len() {
                    assert(n[j] == id);
                }
            }
            if n.contains(id) {
                let j = choose|j: int| 0 <= j < n.len() && n[j] == id;
                assert(n.push(v.last().0)[j] == id);
            }
        }
        if v.last().0 != id {
            assert(entry_of(v, id) == entry_of(u, id));
        } else {
            assert forall|j: int| 0 <= j < u.len() implies u[j].0 != id by {
                assert(v[j].0 != v[v.len() - 1].0);
            }
            if n.contains(id) {
                let j = choose|j: int| 0 <= j < n.len() && n[j] == id;
                lemma_needing_from(u, j);
            }
        }
    }
}

/// Every output listed as needing a redraw is tracked.
pub proof fn lemma_needing_from(v: Seq<(usize, OutputRedrawState)>, j: int)
    requires
        0 <= j < needing(v).len(),
    ensures
        exists|i: int| 0 <= i < v.len() && v[i].0 == needing(v)[j],
    decreases v.len(),
{
    if v.len() > 0 {
        let u = v.drop_last();
        let n = needing(u);
        if v.last().1.needs_redraw && j == n.len() {
            assert(v[v.len() - 1].0 == needing(v)[j]);
        } else {
            assert(needing(v)[j] == n[j]);
            lemma_needing_from(u, j);
            let i = choose|i: int| 0 <= i < u.len() && u[i].0 == n[j];
            assert(v[i] == u[i]);
        }
    }
}

} // verus!

use vstd::prelude::*;

use crate::launchpad::{cell_index, frame_valid, location_valid, Frame, PadColour, PadLocation, CELL_COUNT};

verus! {

/// The lights of a batch that differ from what the cells are known to show,
/// in order. An unknown cell (`None`) differs from every colour.
pub open spec fn minimise_spec(m: Seq<Option<PadColour>>, f: Seq<(PadLocation, PadColour)>) -> Seq<(PadLocation, PadColour)>
    decreases f.len(),
{
    if f.len() == 0 {
        Seq::empty()
    } else {
        let rest = minimise_spec(m, f.drop_last());
        if m[cell_index(f.last().0)] == Some(f.last().1) {
            rest
        } else {
            rest.push(f.last())
        }
    }
}

/// What the cells show after a batch is written: each light in order sets
/// its cell, so a later light wins over an earlier one on the same cell.
pub open spec fn record_spec(m: Seq<Option<PadColour>>, f: Seq<(PadLocation, PadColour)>) -> Seq<Option<PadColour>>
    decreases f.len(),
{
    if f.len() == 0 {
        m
    } else {
        record_spec(m, f.drop_last()).update(cell_index(f.last().0), Some(f.last().1))
    }
}

/// A later light of the batch is on the same location as light `i`.
pub open spec fn superseded(f: Seq<(PadLocation, PadColour)>, i: int) -> bool {
    exists|j: int| i < j < f.len() && (#[trigger] f[j]).0 == f[i].0
}

/// The lights among the first `n` of a batch that no later light of the
/// batch overrides, in order.
pub open spec fn last_lights(f: Seq<(PadLocation, PadColour)>, n: int) -> Seq<(PadLocation, PadColour)>
    decreases n,
{
    if n <= 0 {
        Seq::empty()
    } else {
        let rest = last_lights(f, n - 1);
        if superseded(f, n - 1) {
            rest
        } else {
            rest.push(f[n - 1])
        }
    }
}

/// The batch with each location kept at its last light only.
pub open spec fn last_per_cell(f: Seq<(PadLocation, PadColour)>) -> Seq<(PadLocation, PadColour)> {
    last_lights(f, f.len() as int)
}

/// Every cell unknown.
pub open spec fn all_unknown() -> Seq<Option<PadColour>> {
    Seq::new(CELL_COUNT as nat, |i: int| None)
}

/// Every cell known to show `c`.
pub open spec fn all_showing(c: PadColour) -> Seq<Option<PadColour>> {
    Seq::new(CELL_COUNT as nat, |i: int| Some(c))
}

/// Keeps, for each location of a batch, only its last light, in order.
pub fn last_per_cell_frame(f: &Frame) -> (r: Frame)
    ensures
        r@ == last_per_cell(f@),
        frame_valid(f@) ==> frame_valid(r@),
{
    let mut r: Frame = Vec::new();
    let mut i: usize = 0;
    while i < f.len()
        invariant
            i <= f.len(),
            r@ == last_lights(f@, i as int),
            frame_valid(f@) ==> frame_valid(r@),
        decreases f.len() - i,
    {
        let mut later = false;
        let mut j: usize = i + 1;
        while j < f.len()
            invariant
                i < f.len(),
                i < j <= f.len(),
                later == exists|k: int| i < k < j && (#[trigger] f@[k]).0 == f@[i as int].0,
            decreases f.len() - j,
        {
            if f[j].0 == f[i].0 {
                later = true;
            }
            proof {
                if !later {
                    assert forall|k: int| i < k < j + 1 implies (#[trigger] f@[k]).0 != f@[i as int].0 by {
                        if k < j {
                            assert(!(i < k < j && f@[k].0 == f@[i as int].0));
                        }
                    }
                }
            }
            j += 1;
        }
        if !later {
            r.push(f[i]);
        }
        i += 1;
    }
    r
}

/// Remembers the colour last sent to each of the 80 cells, or that it is not
/// known, and cuts a batch of lights down to those that change something.
pub struct PadMirror {
    cells: Vec<Option<PadColour>>,
}

impl View for PadMirror {
    type V = Seq<Option<PadColour>>;

    closed spec fn view(&self) -> Seq<Option<PadColour>> {
        self.cells@
    }
}

fn index_of(l: &PadLocation) -> (r: usize)
    requires
        location_valid(*l),
    ensures
        r == cell_index(*l),
        r < CELL_COUNT,
{
    match l {
        PadLocation::OnPad(x, y) => (*x as usize) + 8 * (*y as usize),
        PadLocation::Letters(i) => 64 + *i as usize,
        PadLocation::Numbers(i) => 72 + *i as usize,
    }
}

impl PadMirror {
    /// The mirror holds one entry for each cell.
    pub open spec fn wf(&self) -> bool {
        self@.len() == CELL_COUNT
    }

    /// A mirror that knows no cell.
    pub fn new() -> (r: PadMirror)
        ensures
            r@ == all_unknown(),
            r.wf(),
    {
        let mut cells: Vec<Option<PadColour>> = Vec::new();
        let mut i: usize = 0;
        while i < CELL_COUNT
            invariant
                i <= CELL_COUNT,
                cells@ == Seq::new(i as nat, |k: int| None::<PadColour>),
            decreases CELL_COUNT - i,
        {
            cells.push(None);
            i += 1;
        }
        assert(cells@ == all_unknown());
        PadMirror { cells }
    }

    /// What the mirror knows of one cell.
    pub fn known(&self, l: &PadLocation) -> (r: Option<PadColour>)
        requires
            self.wf(),
            location_valid(*l),
        ensures
            r == self@[cell_index(*l)],
    {
        self.cells[index_of(l)]
    }

    /// The lights of `set_values` that differ from what the mirror knows.
    pub fn minimise(&self, set_values: Frame) -> (r: Frame)
        requires
            self.wf(),
            frame_valid(set_values@),
        ensures
            r@ == minimise_spec(self@, set_values@),
            frame_valid(r@),
    {
        let mut r: Frame = Vec::new();
        let mut i: usize = 0;
        while i < set_values.len()
            invariant
                i <= set_values.len(),
                frame_valid(set_values@),
                self.cells.len() == CELL_COUNT,
                r@ == minimise_spec(self@, set_values@.take(i as int)),
                frame_valid(r@),
            decreases set_values.len() - i,
        {
            assert(set_values@.take(i + 1).drop_last() == set_values@.take(i as int));
            let (l, c) = set_values[i];
            if self.cells[index_of(&l)] != Some(c) {
                r.push((l, c));
            }
            i += 1;
        }
        assert(set_values@.take(set_values.len() as int) == set_values@);
        r
    }

    /// Forgets every cell, so that the next batch is sent whole.
    pub fn clear(&mut self)
        requires
            old(self).wf(),
        ensures
            final(self).wf(),
            final(self)@ == all_unknown(),
    {
        let mut i: usize = 0;
        while i < self.cells.len()
            invariant
                self.cells.len() == CELL_COUNT,
                i <= CELL_COUNT,
                forall|k: int| 0 <= k < i ==> self.cells@[k] == None::<PadColour>,
            decreases CELL_COUNT - i,
        {
            self.cells.set(i, None);
            i += 1;
        }
        assert(self.cells@ == all_unknown());
    }

    /// Records that every cell now shows `colour`.
    pub fn fill(&mut self, colour: PadColour)
        requires
            old(self).wf(),
        ensures
            final(self).wf(),
            final(self)@ == all_showing(colour),
    {
        let mut i: usize = 0;
        while i < self.cells.len()
            invariant
                self.cells.len() == CELL_COUNT,
                i <= CELL_COUNT,
                forall|k: int| 0 <= k < i ==> self.cells@[k] == Some(colour),
            decreases CELL_COUNT - i,
        {
            self.cells.set(i, Some(colour));
            i += 1;
        }
        assert(self.cells@ == all_showing(colour));
    }

    /// Records that the lights of `set_values` were sent, in order.
    pub fn update(&mut self, set_values: &Frame)
        requires
            old(self).wf(),
            frame_valid(set_values@),
        ensures
            final(self).wf(),
            final(self)@ == record_spec(old(self)@, set_values@),
    {
        let ghost start = self.cells@;
        let mut i: usize = 0;
        while i < set_values.len()
            invariant
                i <= set_values.len(),
                frame_valid(set_values@),
                self.cells.len() == CELL_COUNT,
                self.cells@ == record_spec(start, set_values@.take(i as int)),
            decreases set_values.len() - i,
        {
            assert(set_values@.take(i + 1).drop_last() == set_values@.take(i as int));
            let (l, c) = set_values[i];
            let k = index_of(&l);
            self.cells.set(k, Some(c));
            i += 1;
        }
        assert(set_values@.take(set_values.len() as int) == set_values@);
    }
}


/// Every light of `f` is what the cells are already known to show.
pub open spec fn frame_mirrored(m: Seq<Option<PadColour>>, f: Seq<(PadLocation, PadColour)>) -> bool {
    forall|i: int| 0 <= i < f.len() ==> m[cell_index(#[trigger] f[i].0)] == Some(f[i].1)
}

/// Sending again exactly what the mirror already holds sends nothing.
pub proof fn lemma_resubmit_is_silent(m: Seq<Option<PadColour>>, f: Seq<(PadLocation, PadColour)>)
    requires
        frame_mirrored(m, f),
    ensures
        minimise_spec(m, f) == Seq::<(PadLocation, PadColour)>::empty(),
    decreases f.len(),
{
    if f.len() > 0 {
        assert(frame_mirrored(m, f.drop_last())) by {
            assert forall|i: int| 0 <= i < f.drop_last().len() implies m[cell_index(
                #[trigger] f.drop_last()[i].0,
            )] == Some(f.drop_last()[i].1) by {
                assert(f.drop_last()[i] == f[i]);
            }
        }
        lemma_resubmit_is_silent(m, f.drop_last());
        assert(m[cell_index(f[f.len() - 1].0)] == Some(f[f.len() - 1].1));
    }
}

/// Where a batch differs from the mirror in the light at position `k` alone,
/// that light is all that is sent.
pub proof fn lemma_single_change(m: Seq<Option<PadColour>>, f: Seq<(PadLocation, PadColour)>, k: int)
    requires
        0 <= k < f.len(),
        m[cell_index(f[k].0)] != Some(f[k].1),
        forall|i: int| 0 <= i < f.len() && i != k ==> m[cell_index(#[trigger] f[i].0)] == Some(f[i].1),
    ensures
        minimise_spec(m, f) == seq![f[k]],
    decreases f.len(),
{
    let p = f.drop_last();
    assert forall|i: int| 0 <= i < p.len() && i != k implies m[cell_index(#[trigger] p[i].0)] == Some(
        p[i].1,
    ) by {
        assert(p[i] == f[i]);
    }
    if k == f.len() - 1 {
        assert(frame_mirrored(m, p)) by {
            assert forall|i: int| 0 <= i < p.len() implies m[cell_index(#[trigger] p[i].0)] == Some(
                p[i].1,
            ) by {
                assert(p[i] == f[i]);
            }
        }
        lemma_resubmit_is_silent(m, p);
        assert(Seq::<(PadLocation, PadColour)>::empty().push(f[k]) == seq![f[k]]);
    } else {
        assert(p[k] == f[k]);
        lemma_single_change(m, p, k);
        assert(m[cell_index(f[f.len() - 1].0)] == Some(f[f.len() - 1].1));
    }
}

/// Once every cell is unknown, a batch of valid lights is sent whole.
pub proof fn lemma_invalidated_sends_all(f: Seq<(PadLocation, PadColour)>)
    requires
        frame_valid(f),
    ensures
        minimise_spec(all_unknown(), f) == f,
    decreases f.len(),
{
    if f.len() > 0 {
        let p = f.drop_last();
        assert(frame_valid(p)) by {
            assert forall|i: int| 0 <= i < p.len() implies location_valid(#[trigger] p[i].0) by {
                assert(p[i] == f[i]);
                assert(location_valid(f[i].0));
            }
        }
        lemma_invalidated_sends_all(p);
        assert(location_valid(f[f.len() - 1].0));
        assert(p.push(f.last()) == f);
    }
}


/// The diff is the batch filtered by whether each light changes its cell.
pub proof fn lemma_minimise_is_filter(m: Seq<Option<PadColour>>, f: Seq<(PadLocation, PadColour)>)
    ensures
        minimise_spec(m, f) == f.filter(|e: (PadLocation, PadColour)| m[cell_index(e.0)] != Some(e.1)),
    decreases f.len(),
{
    reveal(Seq::filter);
    if f.len() > 0 {
        lemma_minimise_is_filter(m, f.drop_last());
    }
}

/// Each light kept by `last_lights` is a light of the batch that no later
/// light overrides; each such light among the first `n` is kept.
pub proof fn lemma_last_lights_members(f: Seq<(PadLocation, PadColour)>, n: int)
    requires
        0 <= n <= f.len(),
    ensures
        forall|t: int|
            0 <= t < last_lights(f, n).len() ==> exists|i: int|
                0 <= i < n && !superseded(f, i) && #[trigger] last_lights(f, n)[t] == f[i],
        forall|i: int| 0 <= i < n && !superseded(f, i) ==> last_lights(f, n).contains(#[trigger] f[i]),
    decreases n,
{
    if n > 0 {
        lemma_last_lights_members(f, n - 1);
        let rest = last_lights(f, n - 1);
        let cur = last_lights(f, n);
        assert forall|t: int| 0 <= t < cur.len() implies exists|i: int|
            0 <= i < n && !superseded(f, i) && #[trigger] cur[t] == f[i] by {
            if t < rest.len() {
                assert(cur[t] == rest[t]);
                let i = choose|i: int| 0 <= i < n - 1 && !superseded(f, i) && rest[t] == f[i];
            } else {
                assert(cur[t] == f[n - 1]);
            }
        }
        assert forall|i: int| 0 <= i < n && !superseded(f, i) implies cur.contains(#[trigger] f[i]) by {
            if i < n - 1 {
                let t = choose|t: int| 0 <= t < rest.len() && rest[t] == f[i];
                assert(cur[t] == f[i]);
            } else {
                assert(cur[rest.len() as int] == f[i]);
            }
        }
    }
}

/// Every light of a batch is followed, on its location, by a last light
/// that nothing overrides; `l` is its position.
pub proof fn lemma_last_occurrence(f: Seq<(PadLocation, PadColour)>, k: int) -> (l: int)
    requires
        0 <= k < f.len(),
    ensures
        k <= l < f.len(),
        f[l].0 == f[k].0,
        !superseded(f, l),
    decreases f.len() - k,
{
    if superseded(f, k) {
        let j = choose|j: int| k < j < f.len() && (#[trigger] f[j]).0 == f[k].0;
        lemma_last_occurrence(f, j)
    } else {
        k
    }
}

/// Where every light of a batch on cell `c` has colour `col`, the cell ends
/// with `col` if the batch lights it at all, and as it was otherwise.
proof fn lemma_record_cell(
    m: Seq<Option<PadColour>>,
    w: Seq<(PadLocation, PadColour)>,
    c: int,
    col: PadColour,
)
    requires
        m.len() == CELL_COUNT,
        frame_valid(w),
        0 <= c < m.len(),
        forall|t: int| 0 <= t < w.len() && cell_index((#[trigger] w[t]).0) == c ==> w[t].1 == col,
    ensures
        record_spec(m, w).len() == m.len(),
        record_spec(m, w)[c] == if exists|t: int| 0 <= t < w.len() && cell_index((#[trigger] w[t]).0) == c {
            Some(col)
        } else {
            m[c]
        },
    decreases w.len(),
{
    if w.len() > 0 {
        let p = w.drop_last();
        assert(frame_valid(p)) by {
            assert forall|t: int| 0 <= t < p.len() implies location_valid(#[trigger] p[t].0) by {
                assert(p[t] == w[t]);
            }
        }
        assert(location_valid(w[w.len() - 1].0));
        assert forall|t: int| 0 <= t < p.len() && cell_index((#[trigger] p[t]).0) == c implies p[t].1 == col by {
            assert(p[t] == w[t]);
        }
        lemma_record_cell(m, p, c, col);
        if exists|t: int| 0 <= t < p.len() && cell_index((#[trigger] p[t]).0) == c {
            let t = choose|t: int| 0 <= t < p.len() && cell_index((#[trigger] p[t]).0) == c;
            assert(w[t] == p[t]);
        }
        if exists|t: int| 0 <= t < w.len() && cell_index((#[trigger] w[t]).0) == c {
            let t = choose|t: int| 0 <= t < w.len() && cell_index((#[trigger] w[t]).0) == c;
            if t < p.len() {
                assert(p[t] == w[t]);
            }
        }
    }
}

/// Of the lights of a batch on one location, the last decides: it is the
/// only one sent for that location, and the cell ends in its colour.
pub proof fn lemma_last_light_wins(m: Seq<Option<PadColour>>, f: Seq<(PadLocation, PadColour)>, k: int)
    requires
        m.len() == CELL_COUNT,
        frame_valid(f),
        0 <= k < f.len(),
        !superseded(f, k),
    ensures
        forall|t: int|
            0 <= t < minimise_spec(m, last_per_cell(f)).len() && (#[trigger] minimise_spec(
                m,
                last_per_cell(f),
            )[t]).0 == f[k].0 ==> minimise_spec(m, last_per_cell(f))[t] == f[k],
        record_spec(m, minimise_spec(m, last_per_cell(f)))[cell_index(f[k].0)] == Some(f[k].1),
{
    let q = last_per_cell(f);
    let pred = |e: (PadLocation, PadColour)| m[cell_index(e.0)] != Some(e.1);
    let w = minimise_spec(m, q);
    lemma_last_lights_members(f, f.len() as int);
    lemma_minimise_is_filter(m, q);
    assert forall|t: int| 0 <= t < w.len() implies q.contains(#[trigger] w[t]) by {
        assert(w.contains(w[t]));
        q.lemma_filter_contains_rev(pred, w[t]);
    }
    assert forall|t: int| 0 <= t < w.len() && (#[trigger] w[t]).0 == f[k].0 implies w[t] == f[k] by {
        let u = choose|u: int| 0 <= u < q.len() && q[u] == w[t];
        let i = choose|i: int| 0 <= i < f.len() && !superseded(f, i) && q[u] == f[i];
        if i < k {
            assert(f[k].0 == f[i].0);
        } else if i > k {
            assert(f[i].0 == f[k].0);
        }
    }
    let c = cell_index(f[k].0);
    assert(frame_valid(w)) by {
        assert forall|t: int| 0 <= t < w.len() implies location_valid(#[trigger] w[t].0) by {
            let u = choose|u: int| 0 <= u < q.len() && q[u] == w[t];
            let i = choose|i: int| 0 <= i < f.len() && !superseded(f, i) && q[u] == f[i];
            assert(location_valid(f[i].0));
        }
    }
    assert forall|t: int| 0 <= t < w.len() && cell_index((#[trigger] w[t]).0) == c implies w[t].1 == f[k].1 by {
        let u = choose|u: int| 0 <= u < q.len() && q[u] == w[t];
        let i = choose|i: int| 0 <= i < f.len() && !superseded(f, i) && q[u] == f[i];
        assert(location_valid(f[i].0));
        assert(location_valid(f[k].0));
        assert(w[t].0 == f[k].0);
    }
    assert(location_valid(f[k].0));
    lemma_record_cell(m, w, c, f[k].1);
    if !(exists|t: int| 0 <= t < w.len() && cell_index((#[trigger] w[t]).0) == c) {
        let u = choose|u: int| 0 <= u < q.len() && q[u] == f[k];
        if m[c] != Some(f[k].1) {
            q.lemma_filter_contains(pred, u);
            let t = choose|t: int| 0 <= t < w.len() && w[t] == q[u];
            assert(cell_index(w[t].0) == c);
        }
    }
}

} // verus!

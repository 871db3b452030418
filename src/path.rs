use vstd::prelude::*;

use crate::arm::{deterministic, is_chain, is_tip, lemma_chain_unique};
use crate::phasor::{frequency_at, PhasorArray};

verus! {

/// A straight segment from `z_0` to `z_1`.
#[derive(Clone, Copy)]
pub struct Line<P> {
    pub z_0: P,
    pub z_1: P,
}

/// A cubic Bézier segment from `z_0` to `z_3` with control points `z_1`, `z_2`.
#[derive(Clone, Copy)]
pub struct CubicBezier<P> {
    pub z_0: P,
    pub z_1: P,
    pub z_2: P,
    pub z_3: P,
}

/// One segment of a path.
#[derive(Clone, Copy)]
pub enum PathElement<P> {
    Line(Line<P>),
    CubicBezier(CubicBezier<P>),
}

impl<P: Copy> PathElement<P> {
    pub open spec fn spec_start(&self) -> P {
        match self {
            PathElement::Line(l) => l.z_0,
            PathElement::CubicBezier(c) => c.z_0,
        }
    }

    pub open spec fn spec_end(&self) -> P {
        match self {
            PathElement::Line(l) => l.z_1,
            PathElement::CubicBezier(c) => c.z_3,
        }
    }

    /// Where the segment begins.
    pub fn start(&self) -> (r: P)
        ensures
            r == self.spec_start(),
    {
        match self {
            PathElement::Line(l) => l.z_0,
            PathElement::CubicBezier(c) => c.z_0,
        }
    }

    /// Where the segment ends.
    pub fn end(&self) -> (r: P)
        ensures
            r == self.spec_end(),
    {
        match self {
            PathElement::Line(l) => l.z_1,
            PathElement::CubicBezier(c) => c.z_3,
        }
    }
}

/// `c` is the coefficient of global frequency `n` of the path made of `elems`:
/// the sum, from `zero` and in path order, of one term per element, where the
/// term of element `k` is what `term` gives for `(elems[k], k, elems.len(), n)`.
pub open spec fn is_composite<P, C, T: Fn(PathElement<P>, usize, usize, i32) -> C, A: Fn(C, C) -> C>(
    term: T,
    plus: A,
    zero: C,
    elems: Seq<PathElement<P>>,
    n: i32,
    c: C,
) -> bool {
    exists|ts: Seq<C>|
        {
            &&& ts.len() == elems.len()
            &&& forall|k: int|
                0 <= k < elems.len() ==> term.ensures(
                    (elems[k], k as usize, elems.len() as usize, n),
                    #[trigger] ts[k],
                )
            &&& #[trigger] is_tip(plus, zero, ts, c)
        }
}

/// `term` gives the same result whenever it is called on the same arguments.
pub open spec fn deterministic_term<P, C, T: Fn(PathElement<P>, usize, usize, i32) -> C>(
    term: T,
) -> bool {
    forall|e: PathElement<P>, k: usize, count: usize, n: i32, r1: C, r2: C|
        #![trigger term.ensures((e, k, count, n), r1), term.ensures((e, k, count, n), r2)]
        term.ensures((e, k, count, n), r1) && term.ensures((e, k, count, n), r2) ==> r1 == r2
}

/// With deterministic `term` and `plus`, the composite coefficient of a
/// frequency is a function of the segments alone.
pub proof fn lemma_composite_unique<P, C, T: Fn(PathElement<P>, usize, usize, i32) -> C, A: Fn(C, C) -> C>(
    term: T,
    plus: A,
    zero: C,
    elems: Seq<PathElement<P>>,
    n: i32,
    c1: C,
    c2: C,
)
    requires
        deterministic_term(term),
        deterministic(plus),
        is_composite(term, plus, zero, elems, n, c1),
        is_composite(term, plus, zero, elems, n, c2),
    ensures
        c1 == c2,
{
    let ts1 = choose|ts: Seq<C>|
        {
            &&& ts.len() == elems.len()
            &&& forall|k: int|
                0 <= k < elems.len() ==> term.ensures(
                    (elems[k], k as usize, elems.len() as usize, n),
                    #[trigger] ts[k],
                )
            &&& #[trigger] is_tip(plus, zero, ts, c1)
        };
    let ts2 = choose|ts: Seq<C>|
        {
            &&& ts.len() == elems.len()
            &&& forall|k: int|
                0 <= k < elems.len() ==> term.ensures(
                    (elems[k], k as usize, elems.len() as usize, n),
                    #[trigger] ts[k],
                )
            &&& #[trigger] is_tip(plus, zero, ts, c2)
        };
    assert forall|k: int| 0 <= k < ts1.len() implies ts1[k] == ts2[k] by {
        assert(term.ensures((elems[k], k as usize, elems.len() as usize, n), ts1[k]));
        assert(term.ensures((elems[k], k as usize, elems.len() as usize, n), ts2[k]));
    }
    assert(ts1 =~= ts2);
    let p1 = choose|pts: Seq<C>| #[trigger] is_chain(plus, zero, ts1, pts) && pts.last() == c1;
    let p2 = choose|pts: Seq<C>| #[trigger] is_chain(plus, zero, ts1, pts) && pts.last() == c2;
    lemma_chain_unique(plus, zero, ts1, p1, p2);
}

/// An ordered sequence of segments, built with a pen that starts at
/// `path_start` and stands at `path_current`.
pub struct Path<P> {
    elements: Vec<PathElement<P>>,
    path_start: P,
    path_current: P,
}

impl<P: Copy> Path<P> {
    /// The segments, in the order they were added.
    pub closed spec fn spec_elements(&self) -> Seq<PathElement<P>> {
        self.elements@
    }

    /// Where the current sub-path began; `close` returns there.
    pub closed spec fn spec_start(&self) -> P {
        self.path_start
    }

    /// Where the pen stands.
    pub closed spec fn spec_current(&self) -> P {
        self.path_current
    }

    /// An empty path with the pen at `origin`.
    pub fn new(origin: P) -> (r: Self)
        ensures
            r.spec_elements() == Seq::<PathElement<P>>::empty(),
            r.spec_start() == origin,
            r.spec_current() == origin,
    {
        Path { elements: Vec::new(), path_start: origin, path_current: origin }
    }

    fn add_element(&mut self, p: PathElement<P>)
        ensures
            final(self).spec_elements() == old(self).spec_elements().push(p),
            final(self).spec_start() == old(self).spec_start(),
            final(self).spec_current() == old(self).spec_current(),
    {
        self.elements.push(p);
    }

    /// Moves the pen to `z` and starts a new sub-path there, adding no segment.
    pub fn move_to(&mut self, z: P)
        ensures
            final(self).spec_elements() == old(self).spec_elements(),
            final(self).spec_start() == z,
            final(self).spec_current() == z,
    {
        self.path_start = z;
        self.path_current = z;
    }

    /// Adds a line from the pen to `z`, and moves the pen there.
    pub fn line_to(&mut self, z: P)
        ensures
            final(self).spec_elements() == old(self).spec_elements().push(
                PathElement::Line(Line { z_0: old(self).spec_current(), z_1: z }),
            ),
            final(self).spec_start() == old(self).spec_start(),
            final(self).spec_current() == z,
    {
        let line = Line { z_0: self.path_current, z_1: z };
        self.add_element(PathElement::Line(line));
        self.path_current = z;
    }

    /// Adds a cubic Bézier from the pen through the control points `c_1`, `c_2`
    /// to `z`, and moves the pen there.
    pub fn curve_to(&mut self, c_1: P, c_2: P, z: P)
        ensures
            final(self).spec_elements() == old(self).spec_elements().push(
                PathElement::CubicBezier(
                    CubicBezier { z_0: old(self).spec_current(), z_1: c_1, z_2: c_2, z_3: z },
                ),
            ),
            final(self).spec_start() == old(self).spec_start(),
            final(self).spec_current() == z,
    {
        let curve = CubicBezier { z_0: self.path_current, z_1: c_1, z_2: c_2, z_3: z };
        self.path_current = z;
        self.add_element(PathElement::CubicBezier(curve));
    }

    /// Adds a line from the pen back to where the sub-path began, and moves
    /// the pen there.
    pub fn close(&mut self)
        ensures
            final(self).spec_elements() == old(self).spec_elements().push(
                PathElement::Line(Line { z_0: old(self).spec_current(), z_1: old(self).spec_start() }),
            ),
            final(self).spec_start() == old(self).spec_start(),
            final(self).spec_current() == old(self).spec_start(),
    {
        let line = Line { z_0: self.path_current, z_1: self.path_start };
        self.add_element(PathElement::Line(line));
        self.path_current = self.path_start;
    }

    /// The coefficient of global frequency `n`: each element takes an equal
    /// share of the period, and its term (shifted and scaled by `term`) is
    /// added in path order.
    pub fn coefficient<T: Fn(PathElement<P>, usize, usize, i32) -> C, A: Fn(C, C) -> C, C: Copy>(
        &self,
        n: i32,
        term: &T,
        plus: &A,
        zero: C,
    ) -> (r: C)
        requires
            forall|e: PathElement<P>, k: usize, count: usize, m: i32| term.requires((e, k, count, m)),
            forall|a: C, b: C| plus.requires((a, b)),
        ensures
            is_composite(*term, *plus, zero, self.spec_elements(), n, r),
    {
        let count: usize = self.elements.len();
        let mut s = zero;
        let mut k: usize = 0;
        let ghost mut ts: Seq<C> = Seq::empty();
        let ghost mut pts: Seq<C> = seq![zero];
        while k < count
            invariant
                count == self.elements@.len(),
                k <= count,
                forall|e: PathElement<P>, j: usize, c: usize, m: i32| term.requires((e, j, c, m)),
                forall|a: C, b: C| plus.requires((a, b)),
                ts.len() == k,
                forall|j: int|
                    0 <= j < k ==> term.ensures(
                        (self.elements@[j], j as usize, count, n),
                        #[trigger] ts[j],
                    ),
                is_chain(*plus, zero, ts, pts),
                pts.last() == s,
            decreases count - k,
        {
            let t = term(self.elements[k], k, count, n);
            let next = plus(s, t);
            proof {
                let old_pts = pts;
                let old_ts = ts;
                ts = ts.push(t);
                pts = pts.push(next);
                assert forall|j: int| 0 <= j < ts.len() implies plus.ensures(
                    (pts[j], ts[j]),
                    #[trigger] pts[j + 1],
                ) by {
                    if j < old_ts.len() {
                        assert(old_pts[j + 1] == pts[j + 1]);
                    }
                }
            }
            s = next;
            k = k + 1;
        }
        assert(is_chain(*plus, zero, ts, pts) && pts.last() == s);
        assert(is_tip(*plus, zero, ts, s));
        assert(forall|j: int|
            0 <= j < count ==> (*term).ensures(
                (self.elements@[j], j as usize, count, n),
                #[trigger] ts[j],
            ));
        s
    }

    /// The phasor array of the path, `n_phasors` frequencies deep: the
    /// coefficient at position `i` is the composite coefficient of frequency
    /// `frequency_at(i)`. The path must have at least one segment.
    pub fn to_phasors<C: Copy, T: Fn(PathElement<P>, usize, usize, i32) -> C, A: Fn(C, C) -> C>(
        &self,
        n_phasors: i32,
        term: T,
        plus: A,
        zero: C,
    ) -> (r: PhasorArray<C>)
        requires
            1 <= n_phasors,
            self.spec_elements().len() > 0,
            forall|e: PathElement<P>, k: usize, count: usize, m: i32| term.requires((e, k, count, m)),
            forall|a: C, b: C| plus.requires((a, b)),
        ensures
            r.wf(),
            r.spec_num_phasors() == n_phasors,
            forall|i: int|
                0 <= i < r@.len() ==> is_composite(
                    term,
                    plus,
                    zero,
                    self.spec_elements(),
                    frequency_at(i) as i32,
                    #[trigger] r@[i],
                ),
    {
        let term_ref = &term;
        let plus_ref = &plus;
        let f = |n: i32| -> (c: C)
            ensures
                is_composite(*term_ref, *plus_ref, zero, self.spec_elements(), n, c),
            { self.coefficient(n, term_ref, plus_ref, zero) };
        PhasorArray::fourier_series(n_phasors, f)
    }

    /// The segments, in the order they were added.
    pub fn elements(&self) -> (r: &[PathElement<P>])
        ensures
            r@ == self.spec_elements(),
    {
        self.elements.as_slice()
    }

    /// The pen's position.
    pub fn current(&self) -> (r: P)
        ensures
            r == self.spec_current(),
    {
        self.path_current
    }

    /// Where the current sub-path began.
    pub fn start(&self) -> (r: P)
        ensures
            r == self.spec_start(),
    {
        self.path_start
    }
}

} // verus!

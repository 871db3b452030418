use vstd::prelude::*;

pub mod arm;
pub mod path;
pub mod phasor;
pub mod trail;

use crate::arm::{deterministic, is_arm_state, is_tip, Arm, ArmPoint};
use crate::path::{deterministic_term, is_composite, lemma_composite_unique, Line, Path, PathElement};
use crate::phasor::{frequency_at, is_rotation, PhasorArray};
use crate::trail::{keep_last, Trail};

verus! {

/// A line animation and the animation of any path whose only segment is that
/// same line have the same coefficients, frequency by frequency, when the
/// term and the addition are deterministic.
pub proof fn line_matches_single_segment_path<
    C,
    T: Fn(PathElement<C>, usize, usize, i32) -> C,
    A: Fn(C, C) -> C,
>(
    term: T,
    plus: A,
    zero: C,
    z_0: C,
    z_1: C,
    elems: Seq<PathElement<C>>,
    line_coefs: Seq<C>,
    path_coefs: Seq<C>,
)
    requires
        deterministic_term(term),
        deterministic(plus),
        elems == seq![PathElement::Line(Line { z_0, z_1 })],
        line_coefs.len() == path_coefs.len(),
        forall|i: int|
            0 <= i < line_coefs.len() ==> is_composite(
                term,
                plus,
                zero,
                seq![PathElement::Line(Line { z_0, z_1 })],
                frequency_at(i) as i32,
                #[trigger] line_coefs[i],
            ),
        forall|i: int|
            0 <= i < path_coefs.len() ==> is_composite(
                term,
                plus,
                zero,
                elems,
                frequency_at(i) as i32,
                #[trigger] path_coefs[i],
            ),
    ensures
        line_coefs == path_coefs,
{
    assert forall|i: int| 0 <= i < line_coefs.len() implies line_coefs[i] == path_coefs[i] by {
        lemma_composite_unique(
            term,
            plus,
            zero,
            elems,
            frequency_at(i) as i32,
            line_coefs[i],
            path_coefs[i],
        );
    }
    assert(line_coefs =~= path_coefs);
}

/// An epicycle animation: a phasor array that rotates over time, and the
/// bounded trail of the arm's tip, kept relative to a zero origin.
pub struct PhasorAnim<C> {
    phasors: PhasorArray<C>,
    trail: Trail<C>,
}

impl<C: Copy> PhasorAnim<C> {
    /// The current coefficients, in construction order.
    pub closed spec fn spec_phasors(&self) -> Seq<C> {
        self.phasors@
    }

    /// The requested phasor count `N`.
    pub closed spec fn spec_num_phasors(&self) -> int {
        self.phasors.spec_num_phasors()
    }

    /// The trail's points, oldest first, relative to a zero origin.
    pub closed spec fn spec_trail(&self) -> Seq<C> {
        self.trail@
    }

    /// The trail's capacity.
    pub closed spec fn spec_trail_len(&self) -> nat {
        self.trail.spec_max_len()
    }

    pub closed spec fn wf(&self) -> bool {
        &&& self.phasors.wf()
        &&& self.trail.wf()
    }

    /// An animation of `phasors` with an empty trail of capacity `trail_len`.
    pub fn new(phasors: PhasorArray<C>, trail_len: usize) -> (r: Self)
        requires
            phasors.wf(),
        ensures
            r.wf(),
            r.spec_phasors() == phasors@,
            r.spec_num_phasors() == phasors.spec_num_phasors(),
            r.spec_trail() == Seq::<C>::empty(),
            r.spec_trail_len() == trail_len,
    {
        PhasorAnim { phasors, trail: Trail::new(trail_len) }
    }

    /// The animation of `path` with `num_phasors` requested phasors: the
    /// coefficient at position `i` is the path's composite coefficient of
    /// frequency `frequency_at(i)`. The path must have a segment, and
    /// `num_phasors` must be at least 1.
    pub fn from_path<
        P: Copy,
        T: Fn(PathElement<P>, usize, usize, i32) -> C,
        A: Fn(C, C) -> C,
    >(num_phasors: usize, path: &Path<P>, term: T, plus: A, zero: C, trail_len: usize) -> (r: Self)
        requires
            1 <= num_phasors <= i32::MAX,
            path.spec_elements().len() > 0,
            forall|e: PathElement<P>, k: usize, count: usize, m: i32| term.requires((e, k, count, m)),
            forall|a: C, b: C| plus.requires((a, b)),
        ensures
            r.wf(),
            r.spec_num_phasors() == num_phasors,
            r.spec_phasors().len() == 2 * num_phasors - 1,
            forall|i: int|
                0 <= i < r.spec_phasors().len() ==> is_composite(
                    term,
                    plus,
                    zero,
                    path.spec_elements(),
                    frequency_at(i) as i32,
                    #[trigger] r.spec_phasors()[i],
                ),
            r.spec_trail() == Seq::<C>::empty(),
            r.spec_trail_len() == trail_len,
    {
        let phasors = path.to_phasors(num_phasors as i32, term, plus, zero);
        Self::new(phasors, trail_len)
    }

    /// The animation of the single line from `z_0` to `z_1`, built through
    /// the path builder: a path that starts at `z_0` and draws one line to `z_1`.
    pub fn line<T: Fn(PathElement<C>, usize, usize, i32) -> C, A: Fn(C, C) -> C>(
        num_phasors: usize,
        z_0: C,
        z_1: C,
        term: T,
        plus: A,
        zero: C,
        trail_len: usize,
    ) -> (r: Self)
        requires
            1 <= num_phasors <= i32::MAX,
            forall|e: PathElement<C>, k: usize, count: usize, m: i32| term.requires((e, k, count, m)),
            forall|a: C, b: C| plus.requires((a, b)),
        ensures
            r.wf(),
            r.spec_num_phasors() == num_phasors,
            r.spec_phasors().len() == 2 * num_phasors - 1,
            forall|i: int|
                0 <= i < r.spec_phasors().len() ==> is_composite(
                    term,
                    plus,
                    zero,
                    seq![PathElement::Line(Line { z_0, z_1 })],
                    frequency_at(i) as i32,
                    #[trigger] r.spec_phasors()[i],
                ),
            r.spec_trail() == Seq::<C>::empty(),
            r.spec_trail_len() == trail_len,
    {
        let mut path = Path::new(z_0);
        path.line_to(z_1);
        assert(path.spec_elements() =~= seq![PathElement::Line(Line { z_0, z_1 })]);
        Self::from_path(num_phasors, &path, term, plus, zero, trail_len)
    }

    /// Advances the animation by one step: every coefficient is rotated with
    /// `rotate(c, frequency)`, then the new tip of the arm from `zero` is
    /// pushed onto the trail.
    pub fn update<F: Fn(C, i32) -> C, A: Fn(C, C) -> C>(&mut self, rotate: F, plus: A, zero: C)
        requires
            old(self).wf(),
            forall|c: C, n: i32| rotate.requires((c, n)),
            forall|a: C, b: C| plus.requires((a, b)),
        ensures
            final(self).wf(),
            final(self).spec_num_phasors() == old(self).spec_num_phasors(),
            is_rotation(rotate, old(self).spec_phasors(), final(self).spec_phasors()),
            final(self).spec_trail_len() == old(self).spec_trail_len(),
            exists|tip: C|
                #[trigger] is_tip(plus, zero, final(self).spec_phasors(), tip)
                    && final(self).spec_trail() == keep_last(
                    old(self).spec_trail().push(tip),
                    old(self).spec_trail_len(),
                ),
    {
        self.phasors.update(rotate);
        let tip = Arm::new(&self.phasors).get_last_point(zero, plus);
        self.trail.push(tip);
    }

    /// The arm from `origin`: `2N` joints, each with the radius of the phasor
    /// that swings out of it, and `end_radius` at the tip.
    pub fn get_arm_state<R: Copy, A: Fn(C, C) -> C, N: Fn(C) -> R>(
        &self,
        origin: C,
        plus: A,
        norm: N,
        end_radius: R,
    ) -> (r: Vec<ArmPoint<C, R>>)
        requires
            self.wf(),
            forall|a: C, b: C| plus.requires((a, b)),
            forall|c: C| norm.requires((c,)),
        ensures
            r@.len() == 2 * self.spec_num_phasors(),
            is_arm_state(plus, norm, origin, self.spec_phasors(), end_radius, r@),
    {
        Arm::new(&self.phasors).get_state(origin, plus, norm, end_radius)
    }

    /// The tip of the arm from `origin`.
    pub fn get_last_point<A: Fn(C, C) -> C>(&self, origin: C, plus: A) -> (r: C)
        requires
            self.wf(),
            forall|a: C, b: C| plus.requires((a, b)),
        ensures
            is_tip(plus, origin, self.spec_phasors(), r),
    {
        Arm::new(&self.phasors).get_last_point(origin, plus)
    }

    /// The trail, oldest first, each point offset by `origin`.
    pub fn get_trail_state<A: Fn(C, C) -> C>(&self, origin: C, plus: A) -> (r: Vec<C>)
        requires
            forall|a: C, b: C| plus.requires((a, b)),
        ensures
            r@.len() == self.spec_trail().len(),
            forall|i: int|
                0 <= i < r@.len() ==> plus.ensures((self.spec_trail()[i], origin), #[trigger] r@[i]),
    {
        self.trail.get_trail_state(origin, plus)
    }

    /// The phasor array.
    pub fn phasors(&self) -> (r: &PhasorArray<C>)
        ensures
            r@ == self.spec_phasors(),
            r.spec_num_phasors() == self.spec_num_phasors(),
    {
        &self.phasors
    }
}

} // verus!

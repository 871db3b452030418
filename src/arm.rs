use vstd::prelude::*;

use crate::phasor::PhasorArray;

verus! {

/// One joint of the arm: its position and the radius of the phasor that
/// swings out of it.
#[derive(Clone, Copy)]
pub struct ArmPoint<C, R> {
    pub pos: C,
    pub r: R,
}

/// `plus` gives the same result whenever it is called on the same arguments.
pub open spec fn deterministic<C, A: Fn(C, C) -> C>(plus: A) -> bool {
    forall|a: C, b: C, r1: C, r2: C|
        #![trigger plus.ensures((a, b), r1), plus.ensures((a, b), r2)]
        plus.ensures((a, b), r1) && plus.ensures((a, b), r2) ==> r1 == r2
}

/// `pts` is the chain of partial sums of `items` starting at `origin`:
/// `pts[0] == origin` and `pts[k + 1] == plus(pts[k], items[k])`.
pub open spec fn is_chain<C, A: Fn(C, C) -> C>(
    plus: A,
    origin: C,
    items: Seq<C>,
    pts: Seq<C>,
) -> bool {
    &&& pts.len() == items.len() + 1
    &&& pts[0] == origin
    &&& forall|k: int|
        0 <= k < items.len() ==> plus.ensures((pts[k], items[k]), #[trigger] pts[k + 1])
}

/// `p` is the tip of some chain of partial sums of `items` from `origin`.
pub open spec fn is_tip<C, A: Fn(C, C) -> C>(plus: A, origin: C, items: Seq<C>, p: C) -> bool {
    exists|pts: Seq<C>| #[trigger] is_chain(plus, origin, items, pts) && pts.last() == p
}

/// The positions of the joints of an arm.
pub open spec fn positions<C, R>(arm: Seq<ArmPoint<C, R>>) -> Seq<C> {
    arm.map_values(|a: ArmPoint<C, R>| a.pos)
}

/// `arm` is the arm of `items` from `origin`: its positions are the chain of
/// partial sums, joint `k` carries the norm of phasor `k`, and the tip carries
/// `end_radius`.
pub open spec fn is_arm_state<C, R, A: Fn(C, C) -> C, N: Fn(C) -> R>(
    plus: A,
    norm: N,
    origin: C,
    items: Seq<C>,
    end_radius: R,
    arm: Seq<ArmPoint<C, R>>,
) -> bool {
    &&& is_chain(plus, origin, items, positions(arm))
    &&& forall|k: int| 0 <= k < items.len() ==> norm.ensures((items[k],), #[trigger] arm[k].r)
    &&& arm.last().r == end_radius
}

/// Under a deterministic `plus`, two chains of the same items from the same
/// origin are equal.
pub proof fn lemma_chain_unique<C, A: Fn(C, C) -> C>(
    plus: A,
    origin: C,
    items: Seq<C>,
    a: Seq<C>,
    b: Seq<C>,
)
    requires
        deterministic(plus),
        is_chain(plus, origin, items, a),
        is_chain(plus, origin, items, b),
    ensures
        a == b,
{
    assert forall|k: int| 0 <= k < a.len() implies a[k] == b[k] by {
        lemma_chain_prefix_agrees(plus, origin, items, a, b, k);
    }
    assert(a =~= b);
}

proof fn lemma_chain_prefix_agrees<C, A: Fn(C, C) -> C>(
    plus: A,
    origin: C,
    items: Seq<C>,
    a: Seq<C>,
    b: Seq<C>,
    k: int,
)
    requires
        deterministic(plus),
        is_chain(plus, origin, items, a),
        is_chain(plus, origin, items, b),
        0 <= k < a.len(),
    ensures
        a[k] == b[k],
    decreases k,
{
    if k > 0 {
        lemma_chain_prefix_agrees(plus, origin, items, a, b, k - 1);
        let j: int = k - 1;
        assert(plus.ensures((a[j], items[j]), a[j + 1]));
        assert(plus.ensures((b[j], items[j]), b[j + 1]));
    }
}

/// The last point of the arm is the tip that `get_last_point` computes: for a
/// deterministic addition, the arm state's final position and the last point
/// from the same origin are equal.
pub proof fn last_point_is_arm_tip<C, R, A: Fn(C, C) -> C, N: Fn(C) -> R>(
    plus: A,
    norm: N,
    origin: C,
    items: Seq<C>,
    end_radius: R,
    arm: Seq<ArmPoint<C, R>>,
    last: C,
)
    requires
        deterministic(plus),
        is_arm_state(plus, norm, origin, items, end_radius, arm),
        is_tip(plus, origin, items, last),
    ensures
        arm.last().pos == last,
{
    let pts = choose|pts: Seq<C>| #[trigger] is_chain(plus, origin, items, pts) && pts.last() == last;
    lemma_chain_unique(plus, origin, items, positions(arm), pts);
    assert(positions(arm).last() == arm.last().pos);
}

/// A read-only view of a phasor array that derives the arm from it.
pub struct Arm<'a, C> {
    phasors: &'a PhasorArray<C>,
}

impl<'a, C: Copy> Arm<'a, C> {
    /// The coefficients that the arm is made of.
    pub closed spec fn spec_phasors(&self) -> Seq<C> {
        self.phasors@
    }

    pub closed spec fn spec_num_phasors(&self) -> int {
        self.phasors.spec_num_phasors()
    }

    pub closed spec fn wf(&self) -> bool {
        self.phasors.wf()
    }

    pub fn new(phasors: &'a PhasorArray<C>) -> (r: Self)
        requires
            phasors.wf(),
        ensures
            r.wf(),
            r.spec_phasors() == phasors@,
            r.spec_num_phasors() == phasors.spec_num_phasors(),
    {
        Arm { phasors }
    }

    /// The joints of the arm from `origin`: one more than there are phasors,
    /// so `2N` for `N` requested phasors.
    pub fn get_state<R: Copy, A: Fn(C, C) -> C, N: Fn(C) -> R>(
        &self,
        origin: C,
        plus: A,
        norm: N,
        end_radius: R,
    ) -> (r: Vec<ArmPoint<C, R>>)
        requires
            self.wf(),
            forall|a: C, b: C| plus.requires((a, b)),
            forall|c: C| norm.requires((c,)),
        ensures
            r@.len() == self.spec_phasors().len() + 1,
            r@.len() == 2 * self.spec_num_phasors(),
            r@[0].pos == origin,
            is_arm_state(plus, norm, origin, self.spec_phasors(), end_radius, r@),
    {
        let items = self.phasors.iter();
        let mut arm: Vec<ArmPoint<C, R>> = Vec::new();
        let mut s = origin;
        let mut i: usize = 0;
        while i < items.len()
            invariant
                items@ == self.spec_phasors(),
                i <= items@.len(),
                arm@.len() == i,
                forall|a: C, b: C| plus.requires((a, b)),
                forall|c: C| norm.requires((c,)),
                i == 0 ==> s == origin,
                0 < i ==> arm@[0].pos == origin,
                forall|k: int|
                    0 <= k < i ==> norm.ensures((items@[k],), #[trigger] arm@[k].r),
                forall|k: int|
                    0 <= k < i ==> plus.ensures(
                        (arm@[k].pos, items@[k]),
                        if k + 1 < i { #[trigger] arm@[k + 1].pos } else { s },
                    ),
                0 < i ==> plus.ensures((arm@[i - 1].pos, items@[i - 1]), s),
            decreases items@.len() - i,
        {
            let radius = norm(items[i]);
            let next = plus(s, items[i]);
            arm.push(ArmPoint { pos: s, r: radius });
            s = next;
            i = i + 1;
        }
        arm.push(ArmPoint { pos: s, r: end_radius });
        proof {
            let pts = positions(arm@);
            assert(pts.len() == items@.len() + 1);
            assert forall|k: int| 0 <= k < items@.len() implies plus.ensures(
                (pts[k], items@[k]),
                #[trigger] pts[k + 1],
            ) by {
                assert(pts[k] == arm@[k].pos);
                assert(pts[k + 1] == arm@[k + 1].pos);
            }
        }
        arm
    }

    /// The tip of the arm from `origin`: `origin` plus every phasor, added in order.
    pub fn get_last_point<A: Fn(C, C) -> C>(&self, origin: C, plus: A) -> (r: C)
        requires
            self.wf(),
            forall|a: C, b: C| plus.requires((a, b)),
        ensures
            is_tip(plus, origin, self.spec_phasors(), r),
    {
        let items = self.phasors.iter();
        let mut s = origin;
        let mut i: usize = 0;
        let ghost mut pts: Seq<C> = seq![origin];
        while i < items.len()
            invariant
                items@ == self.spec_phasors(),
                i <= items@.len(),
                forall|a: C, b: C| plus.requires((a, b)),
                is_chain(plus, origin, items@.take(i as int), pts),
                pts.last() == s,
            decreases items@.len() - i,
        {
            let next = plus(s, items[i]);
            proof {
                let old_pts = pts;
                pts = pts.push(next);
                assert forall|k: int| 0 <= k < i + 1 implies plus.ensures(
                    (pts[k], items@.take(i + 1)[k]),
                    #[trigger] pts[k + 1],
                ) by {
                    if k < i {
                        assert(items@.take(i as int)[k] == items@.take(i + 1)[k]);
                        assert(old_pts[k + 1] == pts[k + 1]);
                    }
                }
            }
            s = next;
            i = i + 1;
        }
        assert(items@.take(items@.len() as int) =~= items@);
        s
    }
}

} // verus!

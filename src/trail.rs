use vstd::prelude::*;

use std::collections::VecDeque;

verus! {

broadcast use vstd::std_specs::vecdeque::group_vec_dequeue_axioms;

/// The last `m` items of `s`, or all of `s` where it has no more than `m`.
pub open spec fn keep_last<P>(s: Seq<P>, m: nat) -> Seq<P> {
    if s.len() <= m {
        s
    } else {
        s.subrange(s.len() - m, s.len() as int)
    }
}

/// What a trail of capacity `m` that holds `start` holds after `ps` is pushed,
/// one point at a time, oldest first.
pub open spec fn after_pushes<P>(start: Seq<P>, ps: Seq<P>, m: nat) -> Seq<P>
    decreases ps.len(),
{
    if ps.len() == 0 {
        start
    } else {
        keep_last(after_pushes(start, ps.drop_last(), m).push(ps.last()), m)
    }
}

proof fn lemma_keep_last_push<P>(s: Seq<P>, p: P, m: nat)
    ensures
        keep_last(keep_last(s, m).push(p), m) == keep_last(s.push(p), m),
{
    if s.len() > m {
        let k = keep_last(s, m);
        if m == 0 {
            assert(keep_last(k.push(p), m) =~= keep_last(s.push(p), m));
        } else {
            assert(keep_last(k.push(p), m) =~= keep_last(s.push(p), m));
        }
    }
}

/// A trail of capacity `m` keeps the `m` most recent points of its whole
/// history, oldest first: after points are pushed one by one it holds the last
/// `m` of everything pushed, never more than `m`, and exactly the last `m`
/// pushed once at least `m` have been.
pub proof fn trail_keeps_most_recent<P>(start: Seq<P>, ps: Seq<P>, m: nat)
    requires
        start.len() <= m,
    ensures
        after_pushes(start, ps, m) == keep_last(start + ps, m),
        after_pushes(start, ps, m).len() <= m,
        ps.len() >= m ==> after_pushes(start, ps, m) == ps.subrange(
            ps.len() - m,
            ps.len() as int,
        ),
    decreases ps.len(),
{
    if ps.len() > 0 {
        trail_keeps_most_recent(start, ps.drop_last(), m);
        lemma_keep_last_push(start + ps.drop_last(), ps.last(), m);
        assert((start + ps.drop_last()).push(ps.last()) =~= start + ps);
    } else {
        assert(start + ps =~= start);
    }
    if ps.len() >= m {
        assert(keep_last(start + ps, m) =~= ps.subrange(ps.len() - m, ps.len() as int));
    }
}

/// A bounded history of points, oldest first: pushing beyond the capacity
/// drops the oldest point.
pub struct Trail<P> {
    points: VecDeque<P>,
    max_len: usize,
}

impl<P> View for Trail<P> {
    type V = Seq<P>;

    /// The points held, oldest first.
    closed spec fn view(&self) -> Seq<P> {
        self.points@
    }
}

impl<P: Copy> Trail<P> {
    /// The capacity.
    pub closed spec fn spec_max_len(&self) -> nat {
        self.max_len as nat
    }

    pub open spec fn wf(&self) -> bool {
        self@.len() <= self.spec_max_len()
    }

    /// An empty trail that holds at most `max_len` points.
    pub fn new(max_len: usize) -> (r: Self)
        ensures
            r.wf(),
            r@ == Seq::<P>::empty(),
            r.spec_max_len() == max_len,
    {
        Trail { points: VecDeque::new(), max_len }
    }

    pub fn max_len(&self) -> (r: usize)
        ensures
            r == self.spec_max_len(),
    {
        self.max_len
    }

    pub fn len(&self) -> (r: usize)
        ensures
            r == self@.len(),
    {
        self.points.len()
    }

    /// Appends `p` as the newest point, dropping the oldest where the trail
    /// is full.
    pub fn push(&mut self, p: P)
        requires
            old(self).wf(),
        ensures
            final(self).wf(),
            final(self).spec_max_len() == old(self).spec_max_len(),
            final(self)@ == keep_last(old(self)@.push(p), old(self).spec_max_len()),
    {
        if self.max_len == 0 {
            return;
        }
        if self.points.len() == self.max_len {
            self.points.pop_front();
        }
        self.points.push_back(p);
        proof {
            let s = old(self)@.push(p);
            if s.len() > self.max_len {
                assert(self@ =~= s.subrange(s.len() - self.max_len, s.len() as int));
            }
        }
    }

    /// The points, oldest first, each offset by `origin`: point `i` is
    /// `plus(trail[i], origin)`.
    pub fn get_trail_state<A: Fn(P, P) -> P>(&self, origin: P, plus: A) -> (r: Vec<P>)
        requires
            forall|a: P, b: P| plus.requires((a, b)),
        ensures
            r@.len() == self@.len(),
            forall|i: int|
                0 <= i < self@.len() ==> plus.ensures((self@[i], origin), #[trigger] r@[i]),
    {
        let mut r: Vec<P> = Vec::new();
        let mut i: usize = 0;
        while i < self.points.len()
            invariant
                i <= self@.len(),
                r@.len() == i,
                forall|a: P, b: P| plus.requires((a, b)),
                forall|j: int| 0 <= j < i ==> plus.ensures((self@[j], origin), #[trigger] r@[j]),
            decreases self@.len() - i,
        {
            let q = plus(self.points[i], origin);
            r.push(q);
            i = i + 1;
        }
        r
    }
}

} // verus!

use vstd::prelude::*;

verus! {

/// The frequency at position `i` of the zig-zag order `0, 1, -1, 2, -2, ...`.
pub open spec fn frequency_at(i: int) -> int {
    if i % 2 == 1 {
        (i + 1) / 2
    } else {
        -(i / 2)
    }
}

/// `undo` reverses `rotate` at every frequency: rotating `c` at frequency `n`
/// and then undoing that rotation at the same frequency gives `c` back.
pub open spec fn undoes<C, F: Fn(C, i32) -> C, G: Fn(C, i32) -> C>(rotate: F, undo: G) -> bool {
    forall|c: C, n: i32, r: C, s: C|
        #![trigger rotate.ensures((c, n), r), undo.ensures((r, n), s)]
        rotate.ensures((c, n), r) && undo.ensures((r, n), s) ==> s == c
}

/// `after` is `before` with every coefficient rotated by `rotate` at its own
/// frequency, as one `update` leaves it.
pub open spec fn is_rotation<C, F: Fn(C, i32) -> C>(rotate: F, before: Seq<C>, after: Seq<C>) -> bool {
    &&& after.len() == before.len()
    &&& forall|i: int|
        0 <= i < before.len() ==> rotate.ensures((before[i], frequency_at(i) as i32), #[trigger] after[i])
}

/// An update followed by an update that undoes its rotation restores every
/// coefficient.
pub proof fn update_then_undo_restores<C, F: Fn(C, i32) -> C, G: Fn(C, i32) -> C>(
    rotate: F,
    undo: G,
    before: Seq<C>,
    mid: Seq<C>,
    after: Seq<C>,
)
    requires
        undoes(rotate, undo),
        is_rotation(rotate, before, mid),
        is_rotation(undo, mid, after),
    ensures
        after == before,
{
    assert forall|i: int| 0 <= i < before.len() implies after[i] == before[i] by {
        assert(rotate.ensures((before[i], frequency_at(i) as i32), mid[i]));
        assert(undo.ensures((mid[i], frequency_at(i) as i32), after[i]));
    }
    assert(after =~= before);
}

/// A fixed, ordered set of phasors: the coefficient at position `i` rotates at
/// the integer frequency `frequency_at(i)`.
pub struct PhasorArray<C> {
    num_phasors: i32,
    phasors: Vec<C>,
}

impl<C> View for PhasorArray<C> {
    type V = Seq<C>;

    /// The current coefficients, in construction order.
    closed spec fn view(&self) -> Seq<C> {
        self.phasors@
    }
}

impl<C: Copy> PhasorArray<C> {
    /// The requested phasor count `N` that the array was built for.
    pub closed spec fn spec_num_phasors(&self) -> int {
        self.num_phasors as int
    }

    /// `N >= 1`, and one coefficient for each of the `2N - 1` frequencies.
    pub open spec fn wf(&self) -> bool {
        &&& 1 <= self.spec_num_phasors()
        &&& self@.len() == 2 * self.spec_num_phasors() - 1
    }

    /// The frequencies `0, 1, -1, ..., N-1, -(N-1)`: `2N - 1` of them.
    pub fn frequencies(num_phasors: i32) -> (r: Vec<i32>)
        requires
            1 <= num_phasors,
        ensures
            r@.len() == 2 * num_phasors - 1,
            forall|i: int| 0 <= i < r@.len() ==> r@[i] == frequency_at(i),
    {
        let mut r: Vec<i32> = Vec::new();
        r.push(0);
        let mut i: i32 = 1;
        while i < num_phasors
            invariant
                1 <= i <= num_phasors,
                r@.len() == 2 * i - 1,
                forall|j: int| 0 <= j < r@.len() ==> r@[j] == frequency_at(j),
            decreases num_phasors - i,
        {
            r.push(i);
            r.push(-i);
            i = i + 1;
        }
        r
    }

    /// Builds the array from a coefficient function: the coefficient of the
    /// frequency at position `i` is what `f` gives for `frequency_at(i)`.
    pub fn fourier_series<F: Fn(i32) -> C>(num_phasors: i32, f: F) -> (r: Self)
        requires
            1 <= num_phasors,
            forall|n: i32| f.requires((n,)),
        ensures
            r.wf(),
            r.spec_num_phasors() == num_phasors,
            r@.len() == 2 * num_phasors - 1,
            forall|i: int|
                0 <= i < r@.len() ==> f.ensures((frequency_at(i) as i32,), #[trigger] r@[i]),
    {
        let freqs = Self::frequencies(num_phasors);
        let mut phasors: Vec<C> = Vec::new();
        let mut i: usize = 0;
        while i < freqs.len()
            invariant
                i <= freqs@.len(),
                freqs@.len() == 2 * num_phasors - 1,
                forall|j: int| 0 <= j < freqs@.len() ==> freqs@[j] == frequency_at(j),
                forall|n: i32| f.requires((n,)),
                phasors@.len() == i,
                forall|j: int|
                    0 <= j < i ==> f.ensures((frequency_at(j) as i32,), #[trigger] phasors@[j]),
            decreases freqs@.len() - i,
        {
            let c = f(freqs[i]);
            phasors.push(c);
            i = i + 1;
        }
        PhasorArray { num_phasors, phasors }
    }

    /// The requested phasor count `N`.
    pub fn num_phasors(&self) -> (r: i32)
        ensures
            r == self.spec_num_phasors(),
    {
        self.num_phasors
    }

    /// Rotates every coefficient at once: position `i` becomes
    /// `rotate(c, frequency_at(i))`, computed from the coefficients before the call.
    pub fn update<F: Fn(C, i32) -> C>(&mut self, rotate: F)
        requires
            old(self).wf(),
            forall|c: C, n: i32| rotate.requires((c, n)),
        ensures
            final(self).wf(),
            final(self).spec_num_phasors() == old(self).spec_num_phasors(),
            is_rotation(rotate, old(self)@, final(self)@),
    {
        let freqs = Self::frequencies(self.num_phasors);
        let mut rotated: Vec<C> = Vec::new();
        let mut i: usize = 0;
        while i < self.phasors.len()
            invariant
                self.wf(),
                i <= self.phasors@.len(),
                freqs@.len() == self.phasors@.len(),
                forall|j: int| 0 <= j < freqs@.len() ==> freqs@[j] == frequency_at(j),
                forall|c: C, n: i32| rotate.requires((c, n)),
                rotated@.len() == i,
                forall|j: int|
                    0 <= j < i ==> rotate.ensures(
                        (self.phasors@[j], frequency_at(j) as i32),
                        #[trigger] rotated@[j],
                    ),
            decreases self.phasors@.len() - i,
        {
            let c = rotate(self.phasors[i], freqs[i]);
            rotated.push(c);
            i = i + 1;
        }
        self.phasors = rotated;
    }

    /// The current coefficients, in construction order.
    pub fn iter(&self) -> (r: &[C])
        ensures
            r@ == self@,
    {
        self.phasors.as_slice()
    }
}

} // verus!

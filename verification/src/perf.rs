//! A fixed-size window over the most recent samples of a measurement.

use crate::fixed::{fixed, from_sign_magnitude, quot, Fixed, MAX_RAW, MIN_RAW};
use vstd::prelude::*;

verus! {

/// The last `N` samples of a measurement, under a name. A new graph holds
/// `N` zeros; each update drops the oldest sample and adds the newest.
pub struct PerfGraph<const N: usize> {
    values: Vec<Fixed>,
    idx: usize,
    name: String,
}

/// Sum of the raw values of `s`.
pub open spec fn spec_total(s: Seq<Fixed>) -> int
    decreases s.len(),
{
    if s.len() == 0 {
        0
    } else {
        spec_total(s.drop_last()) + s.last()@
    }
}

/// The total of a concatenation is the sum of the totals.
pub proof fn lemma_total_concat(a: Seq<Fixed>, b: Seq<Fixed>)
    ensures
        spec_total(a + b) == spec_total(a) + spec_total(b),
    decreases b.len(),
{
    if b.len() == 0 {
        assert(a + b == a);
    } else {
        assert((a + b).drop_last() == a + b.drop_last());
        lemma_total_concat(a, b.drop_last());
    }
}

/// The total of `n` samples lies between `n` times the extreme values.
pub proof fn lemma_total_bounds(s: Seq<Fixed>)
    ensures
        s.len() * MIN_RAW <= spec_total(s) <= s.len() * MAX_RAW,
    decreases s.len(),
{
    if s.len() > 0 {
        lemma_total_bounds(s.drop_last());
    }
}

impl<const N: usize> View for PerfGraph<N> {
    type V = Seq<Fixed>;

    /// The samples, oldest first.
    closed spec fn view(&self) -> Seq<Fixed> {
        self.values@.subrange(self.idx as int, N as int) + self.values@.subrange(0, self.idx as int)
    }
}

impl<const N: usize> PerfGraph<N> {
    #[verifier::type_invariant]
    spec fn inv(self) -> bool {
        &&& self.values@.len() == N
        &&& self.idx <= N
        &&& N > 0 ==> self.idx < N
    }

    /// The name of the measurement.
    pub closed spec fn spec_name(&self) -> Seq<char> {
        self.name@
    }

    /// Mean of the samples: their exact total over their number, rounded
    /// toward zero.
    pub open spec fn spec_average(&self) -> Fixed {
        fixed(quot(spec_total(self@), N as int))
    }

    /// A graph of `N` zeros under `name`.
    pub fn new(name: String) -> (g: Self)
        ensures
            g@ == Seq::new(N as nat, |i: int| Fixed::spec_zero()),
            g.spec_name() == name@,
    {
        let mut values: Vec<Fixed> = Vec::new();
        let mut i: usize = 0;
        while i < N
            invariant
                i <= N,
                values@.len() == i,
                forall|k: int| 0 <= k < i ==> values@[k] == Fixed::spec_zero(),
            decreases N - i,
        {
            values.push(Fixed::zero());
            i += 1;
        }
        let g = Self { values, idx: 0, name };
        assert(g@ == Seq::new(N as nat, |i: int| Fixed::spec_zero()));
        g
    }

    /// Number of samples in the window.
    pub fn len(&self) -> (n: usize)
        ensures
            n == N,
            n == self@.len(),
    {
        proof {
            use_type_invariant(self);
        }
        N
    }

    /// The name of the measurement.
    pub fn name(&self) -> (name: &String)
        ensures
            name@ == self.spec_name(),
    {
        &self.name
    }

    /// Adds the sample `v`, dropping the oldest.
    pub fn update(&mut self, v: Fixed)
        requires
            N > 0,
        ensures
            final(self)@ == old(self)@.drop_first().push(v),
            final(self).spec_name() == old(self).spec_name(),
    {
        proof {
            use_type_invariant(&*self);
        }
        let at = self.idx;
        self.values[at] = v;
        self.idx = if at + 1 == N {
            0
        } else {
            at + 1
        };
        assert(self@ == old(self)@.drop_first().push(v));
    }

    /// The `i`-th sample, counted from the oldest.
    pub fn sample(&self, i: usize) -> (v: Fixed)
        requires
            i < N,
        ensures
            v == self@[i as int],
    {
        proof {
            use_type_invariant(self);
        }
        if i < N - self.idx {
            self.values[i + self.idx]
        } else {
            self.values[i - (N - self.idx)]
        }
    }

    /// Mean of the samples.
    pub fn average(&self) -> (mean: Fixed)
        requires
            N > 0,
        ensures
            mean == self.spec_average(),
    {
        proof {
            use_type_invariant(self);
        }
        let mut sum: i128 = 0;
        let mut i: usize = 0;
        while i < N
            invariant
                i <= N,
                self.values@.len() == N,
                sum == spec_total(self.values@.take(i as int)),
            decreases N - i,
        {
            proof {
                assert(self.values@.take(i + 1).drop_last() == self.values@.take(i as int));
                lemma_total_bounds(self.values@.take(i as int));
                assert(i * MIN_RAW >= usize::MAX * MIN_RAW) by (nonlinear_arith)
                    requires
                        i <= usize::MAX,
                ;
                assert(i * MAX_RAW <= usize::MAX * MAX_RAW) by (nonlinear_arith)
                    requires
                        i <= usize::MAX,
                ;
            }
            sum = sum + self.values[i].raw as i128;
            i += 1;
        }
        proof {
            assert(self.values@.take(N as int) == self.values@);
            lemma_total_concat(
                self.values@.subrange(self.idx as int, N as int),
                self.values@.subrange(0, self.idx as int),
            );
            lemma_total_concat(
                self.values@.subrange(0, self.idx as int),
                self.values@.subrange(self.idx as int, N as int),
            );
            assert(self.values@.subrange(0, self.idx as int) + self.values@.subrange(
                self.idx as int,
                N as int,
            ) == self.values@);
            lemma_total_bounds(self.values@);
        }
        let negative = sum < 0;
        let m: u128 = if negative {
            (-sum) as u128
        } else {
            sum as u128
        };
        let q: u128 = m / (N as u128);
        from_sign_magnitude(negative, q)
    }
}

} // verus!

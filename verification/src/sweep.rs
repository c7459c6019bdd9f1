use vstd::arithmetic::power2::{lemma_pow2_strictly_increases, lemma_pow2_unfold, pow2};
use crate::error::ConfigError;
use vstd::prelude::*;

verus! {

/// One point of a size sweep: an exponent and the input size `2^exponent`.
#[derive(Clone, Copy, Debug, PartialEq, Eq, Structural)]
pub struct SizeTrial {
    pub size: usize,
    pub exponent: usize,
}

/// The trial that belongs to one exponent.
pub open spec fn trial_at(exponent: nat) -> SizeTrial {
    SizeTrial { size: pow2(exponent) as usize, exponent: exponent as usize }
}

/// The trials of the sweep over `min_exponent..=max_exponent`, smallest first.
/// The largest exponent is part of the sweep.
pub open spec fn sweep_trials(min_exponent: nat, max_exponent: nat) -> Seq<SizeTrial> {
    Seq::new((max_exponent + 1 - min_exponent) as nat, |i: int| trial_at((min_exponent + i) as nat))
}

/// Whether a sweep over `min_exponent..=max_exponent` exists, and if not, why.
pub open spec fn sweep_check(min_exponent: nat, max_exponent: nat) -> Option<ConfigError> {
    if min_exponent > max_exponent {
        Some(ConfigError::EmptyExponentRange)
    } else if pow2(max_exponent) > usize::MAX {
        Some(ConfigError::SizeOverflow)
    } else {
        None
    }
}

/// A sweep has one trial per exponent, each of size `2^exponent`, and the
/// sizes grow strictly from one trial to the next.
pub proof fn lemma_sweep_shape(min_exponent: nat, max_exponent: nat)
    requires
        min_exponent <= max_exponent,
        pow2(max_exponent) <= usize::MAX,
    ensures
        sweep_trials(min_exponent, max_exponent).len() == max_exponent - min_exponent + 1,
        forall|i: int|
            0 <= i < sweep_trials(min_exponent, max_exponent).len() ==> {
                let t = #[trigger] sweep_trials(min_exponent, max_exponent)[i];
                &&& t.exponent == min_exponent + i
                &&& t.size == pow2(t.exponent as nat)
            },
        forall|i: int, j: int|
            0 <= i < j < sweep_trials(min_exponent, max_exponent).len() ==> (#[trigger] sweep_trials(
                min_exponent,
                max_exponent,
            )[i]).size < (#[trigger] sweep_trials(min_exponent, max_exponent)[j]).size,
{
    let trials = sweep_trials(min_exponent, max_exponent);
    assert forall|i: int| 0 <= i < trials.len() implies {
        let t = #[trigger] trials[i];
        &&& t.exponent == min_exponent + i
        &&& t.size == pow2(t.exponent as nat)
        &&& t.size == pow2((min_exponent + i) as nat)
    } by {
        lemma_exponent_fits((min_exponent + i) as nat, max_exponent);
    }
    assert forall|i: int, j: int| 0 <= i < j < trials.len() implies (#[trigger] trials[i]).size < (
    #[trigger] trials[j]).size by {
        lemma_pow2_strictly_increases((min_exponent + i) as nat, (min_exponent + j) as nat);
    }
}

/// Below an exponent whose power of two fits a `usize`, every exponent and its
/// power of two fit as well.
pub proof fn lemma_exponent_fits(exponent: nat, max_exponent: nat)
    requires
        exponent <= max_exponent,
        pow2(max_exponent) <= usize::MAX,
    ensures
        exponent <= usize::MAX,
        pow2(exponent) <= pow2(max_exponent),
        1 <= pow2(exponent) <= usize::MAX,
{
    vstd::arithmetic::power2::lemma_pow2_pos(exponent);
    if exponent < max_exponent {
        lemma_pow2_strictly_increases(exponent, max_exponent);
    }
    lemma_exponent_below_power(max_exponent);
}

/// An exponent is smaller than its power of two.
pub proof fn lemma_exponent_below_power(exponent: nat)
    ensures
        exponent < pow2(exponent),
    decreases exponent,
{
    if exponent == 0 {
        vstd::arithmetic::power2::lemma2_to64();
    } else {
        lemma_pow2_unfold(exponent);
        lemma_exponent_below_power((exponent - 1) as nat);
    }
}

/// `2^exponent`, or `None` where it does not fit a `usize`.
pub fn size_for_exponent(exponent: usize) -> (size: Option<usize>)
    ensures
        size is Some <==> pow2(exponent as nat) <= usize::MAX,
        size matches Some(s) ==> s == pow2(exponent as nat),
{
    let mut size: usize = 1;
    let mut done: usize = 0;
    proof {
        vstd::arithmetic::power2::lemma2_to64();
    }
    while done < exponent
        invariant
            done <= exponent,
            size == pow2(done as nat),
        decreases exponent - done,
    {
        proof {
            lemma_pow2_unfold((done + 1) as nat);
        }
        match size.checked_mul(2) {
            Some(twice) => {
                size = twice;
            },
            None => {
                proof {
                    if done + 1 < exponent {
                        lemma_pow2_strictly_increases((done + 1) as nat, exponent as nat);
                    }
                }
                return None;
            },
        }
        done = done + 1;
    }
    Some(size)
}

/// The sizes still to be tested, handed out one at a time, smallest first.
/// A sweep cannot be rewound.
pub struct SizeSweep {
    exponent: usize,
    size: usize,
    last: usize,
    exhausted: bool,
}

impl View for SizeSweep {
    type V = Seq<SizeTrial>;

    /// The trials that the sweep has not handed out yet.
    closed spec fn view(&self) -> Seq<SizeTrial> {
        if self.exhausted {
            Seq::empty()
        } else {
            sweep_trials(self.exponent as nat, self.last as nat)
        }
    }
}

impl SizeSweep {
    #[verifier::type_invariant]
    spec fn inv(self) -> bool {
        !self.exhausted ==> {
            &&& self.exponent <= self.last
            &&& pow2(self.last as nat) <= usize::MAX
            &&& self.size == pow2(self.exponent as nat)
        }
    }

    /// The sweep over the sizes `2^min_exponent`, .., `2^max_exponent`.
    pub fn new(min_exponent: usize, max_exponent: usize) -> (sweep: Result<SizeSweep, ConfigError>)
        ensures
            match sweep {
                Ok(s) => sweep_check(min_exponent as nat, max_exponent as nat) is None && s@
                    == sweep_trials(min_exponent as nat, max_exponent as nat),
                Err(e) => sweep_check(min_exponent as nat, max_exponent as nat) == Some(e),
            },
    {
        if min_exponent > max_exponent {
            return Err(ConfigError::EmptyExponentRange);
        }
        if size_for_exponent(max_exponent).is_none() {
            return Err(ConfigError::SizeOverflow);
        }
        proof {
            lemma_exponent_fits(min_exponent as nat, max_exponent as nat);
        }
        match size_for_exponent(min_exponent) {
            Some(size) => Ok(
                SizeSweep { exponent: min_exponent, size, last: max_exponent, exhausted: false },
            ),
            None => Err(ConfigError::SizeOverflow),
        }
    }

    /// How many trials are left.
    pub fn remaining(&self) -> (count: usize)
        ensures
            count == self@.len(),
    {
        proof {
            use_type_invariant(self);
            if !self.exhausted {
                lemma_exponent_fits(self.exponent as nat, self.last as nat);
                lemma_exponent_below_power(self.last as nat);
            }
        }
        if self.exhausted {
            0
        } else {
            self.last - self.exponent + 1
        }
    }

    /// Hands out the next trial, or `None` once the sweep is over.
    pub fn next(&mut self) -> (trial: Option<SizeTrial>)
        ensures
            old(self)@.len() == 0 ==> trial is None && final(self)@ == old(self)@,
            old(self)@.len() > 0 ==> trial == Some(old(self)@[0]) && final(self)@ == old(self)@.skip(1),
    {
        proof {
            use_type_invariant(&*self);
        }
        if self.exhausted {
            return None;
        }
        let trial = SizeTrial { size: self.size, exponent: self.exponent };
        let ghost before = self@;
        proof {
            lemma_exponent_below_power(self.last as nat);
            assert(before.len() > 0);
            assert(before[0] == trial);
        }
        if self.exponent == self.last {
            *self = SizeSweep { exponent: self.exponent, size: self.size, last: self.last, exhausted: true };
            assert(self@ =~= before.skip(1));
        } else {
            proof {
                lemma_pow2_unfold((self.exponent + 1) as nat);
                lemma_exponent_fits((self.exponent + 1) as nat, self.last as nat);
            }
            *self = SizeSweep {
                exponent: self.exponent + 1,
                size: self.size * 2,
                last: self.last,
                exhausted: false,
            };
            assert(self@ =~= before.skip(1));
        }
        Some(trial)
    }

    /// Runs the sweep to its end and returns the trials that were left.
    pub fn collect(self) -> (trials: Vec<SizeTrial>)
        ensures
            trials@ == self@,
    {
        let mut sweep = self;
        let mut trials: Vec<SizeTrial> = Vec::new();
        loop
            invariant
                trials@ + sweep@ == self@,
            decreases sweep@.len(),
        {
            let ghost before = sweep@;
            match sweep.next() {
                Some(trial) => {
                    trials.push(trial);
                    assert(trials@ + sweep@ =~= self@) by {
                        assert(before =~= seq![before[0]] + before.skip(1));
                    }
                },
                None => {
                    assert(trials@ =~= self@);
                    return trials;
                },
            }
        }
    }
}

} // verus!

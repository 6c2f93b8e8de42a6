//! Random draws: uniform indices and events of a given ratio.
use vstd::prelude::*;

verus! {

/// Relies on rand::random: a value drawn from the thread-local generator.
/// Nothing is known of the value.
pub assume_specification<T>[ rand::random::<T> ]() -> (r: T)
    where
        rand::distributions::Standard: rand::distributions::Distribution<T>,
;

/// A probability written as the ratio `num / den`.
#[derive(Debug, Clone, Copy, PartialEq, Eq, Structural)]
pub struct Ratio {
    pub num: u64,
    pub den: u64,
}

impl Ratio {
    /// A ratio is a probability when its denominator is positive and its
    /// numerator does not exceed it.
    pub open spec fn wf(self) -> bool {
        self.den > 0 && self.num <= self.den
    }

    /// The ratio `num / den`, or `None` where it is no probability.
    pub fn new(num: u64, den: u64) -> (r: Option<Ratio>)
        ensures
            r is Some <==> (den > 0 && num <= den),
            r matches Some(p) ==> p.num == num && p.den == den && p.wf(),
    {
        if den > 0 && num <= den {
            Some(Ratio { num, den })
        } else {
            None
        }
    }
}

/// A random index in `[0, n)`: a random `usize` reduced modulo `n`.
pub fn random_below(n: usize) -> (r: usize)
    requires
        n > 0,
    ensures
        r < n,
{
    let x: usize = rand::random::<usize>();
    x % n
}

/// Whether an event of probability `p` happens: a uniform draw in
/// `[0, p.den)` falls below `p.num`. It never happens when the
/// numerator is zero and always happens when numerator and denominator agree.
pub fn happens(p: Ratio) -> (r: bool)
    requires
        p.wf(),
    ensures
        p.num == 0 ==> !r,
        p.num == p.den ==> r,
{
    let x: u64 = rand::random::<u64>();
    let d: u64 = x % p.den;
    d < p.num
}

} // verus!

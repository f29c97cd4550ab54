use vstd::prelude::*;

verus! {

/// An epoch: a run of `duration` consecutive block heights.
#[derive(Debug, Clone, Copy, PartialEq, Eq, Structural)]
pub struct Epoch {
    pub index: u64,
    pub duration: u64,
}

impl Epoch {
    /// The epoch that holds block `height` when epochs last `duration` blocks.
    pub fn from_blockheight(height: u64, duration: u64) -> (r: Epoch)
        requires
            duration >= 1,
        ensures
            r.index == height / duration,
            r.duration == duration,
    {
        Epoch { index: height / duration, duration }
    }

    /// The first height of this epoch.
    pub fn start_height(&self) -> (r: u64)
        requires
            self.index * self.duration <= u64::MAX,
        ensures
            r == self.index * self.duration,
    {
        self.index * self.duration
    }
}

/// Epoch derivation: height `h` lies in epoch `h / d`, which starts at
/// `(h / d) * d`, no later than `h`, and ends before the next start.
pub proof fn lemma_epoch_of_height(h: u64, d: u64)
    requires
        d >= 1,
    ensures
        (h / d) * d <= h,
        h < (h / d) * d + d,
        (h / d) * d <= u64::MAX,
{
    vstd::arithmetic::div_mod::lemma_fundamental_div_mod(h as int, d as int);
    vstd::arithmetic::div_mod::lemma_mod_pos_bound(h as int, d as int);
    vstd::arithmetic::mul::lemma_mul_is_commutative((h / d) as int, d as int);
}

} // verus!

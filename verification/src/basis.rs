use vstd::prelude::*;

verus! {

/// The fixed-point value that stands for 1 in a basis sample.
pub const UNIT: i32 = 1_000_000;

/// Largest grid side that a table can serve.
///
/// Three bytes for each of `MAX_SIDE * MAX_SIDE` cells still fit in a 32-bit length.
pub const MAX_SIDE: usize = 16_384;

/// A sample is a fixed-point number in `[-1, 1]`.
pub open spec fn is_sample(value: i32) -> bool {
    -UNIT <= value <= UNIT
}

/// Every entry of `table` is a sample.
pub open spec fn all_samples(table: Seq<i32>) -> bool {
    forall|k: int| 0 <= k < table.len() ==> is_sample(#[trigger] table[k])
}

/// The two basis functions, sampled for a grid of side `side`.
///
/// Entry `k` of `sin` stands for `sin(pi * k / side)` and entry `k` of `cos` for
/// `cos(pi * k / side)`, each scaled by `UNIT`, for `k` in `0..2 * side`: one
/// full period. Every phase that a cell of the grid asks for is one of these.
/// The evaluator reads the tables as they are; whoever fills them answers for
/// the trigonometry.
#[derive(Debug)]
pub struct Basis {
    /// Side length of the grid that the tables were sampled for.
    pub side: usize,
    /// One period of the sine.
    pub sin: Vec<i32>,
    /// One period of the cosine.
    pub cos: Vec<i32>,
}

impl Basis {
    /// The side is positive and at most `MAX_SIDE`, both tables hold one period,
    /// and every entry is a sample.
    pub open spec fn wf(&self) -> bool {
        &&& 0 < self.side <= MAX_SIDE
        &&& self.sin@.len() == 2 * self.side
        &&& self.cos@.len() == 2 * self.side
        &&& all_samples(self.sin@)
        &&& all_samples(self.cos@)
    }

    /// The table of the chosen basis function.
    pub open spec fn wave(&self, cos: bool) -> Seq<i32> {
        if cos {
            self.cos@
        } else {
            self.sin@
        }
    }

    /// The tables as a basis, or `None` when they are not well formed.
    pub fn new(side: usize, sin: Vec<i32>, cos: Vec<i32>) -> (r: Option<Basis>)
        ensures
            r == (if (Basis { side, sin, cos }).wf() {
                Some(Basis { side, sin, cos })
            } else {
                None
            }),
    {
        if side == 0 || side > MAX_SIDE {
            return None;
        }
        if sin.len() != 2 * side || cos.len() != 2 * side {
            return None;
        }
        if !only_samples(&sin) || !only_samples(&cos) {
            return None;
        }
        Some(Basis { side, sin, cos })
    }

    /// The sample of the sine, or of the cosine when `cos` is set, at phase
    /// `pi * slot / side`.
    pub fn sin_or_cos(&self, slot: usize, cos: bool) -> (r: i32)
        requires
            self.wf(),
            slot < 2 * self.side,
        ensures
            r == self.wave(cos)[slot as int],
            is_sample(r),
    {
        if cos {
            self.cos[slot]
        } else {
            self.sin[slot]
        }
    }
}

/// Tells whether every entry of `table` is a sample.
pub fn only_samples(table: &Vec<i32>) -> (r: bool)
    ensures
        r == all_samples(table@),
{
    let mut k: usize = 0;
    while k < table.len()
        invariant
            k <= table.len(),
            forall|j: int| 0 <= j < k ==> is_sample(#[trigger] table@[j]),
        decreases table.len() - k,
    {
        if table[k] < -UNIT || table[k] > UNIT {
            return false;
        }
        k += 1;
    }
    true
}

} // verus!

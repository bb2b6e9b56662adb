use vstd::prelude::*;
use crate::basis::Basis;
use crate::field::{blank, blank_pixels, evaluate, renders, CHANNELS};
use crate::settings::Settings;

verus! {

/// What one call of `RenderCache::apply` did.
#[derive(Clone, Copy, Debug, PartialEq, Eq, Structural)]
pub enum Outcome {
    /// A mode number was out of range: nothing was computed, nothing changed.
    Rejected,
    /// The parameters are those of the picture at hand: no work was done.
    Unchanged,
    /// The whole grid was computed anew: the buffer is to be shown again.
    Recomputed,
}

/// What `apply` does on `params` when the picture at hand belongs to `last`.
pub open spec fn outcome_of(last: Option<Settings>, params: Settings) -> Outcome {
    if !params.in_range() {
        Outcome::Rejected
    } else if last == Some(params) {
        Outcome::Unchanged
    } else {
        Outcome::Recomputed
    }
}

/// The parameters of the picture at hand after `apply` on `params`.
pub open spec fn next_last(last: Option<Settings>, params: Settings) -> Option<Settings> {
    if outcome_of(last, params) == Outcome::Recomputed {
        Some(params)
    } else {
        last
    }
}

/// One picture and the parameters that it belongs to.
///
/// The cache owns the buffer and lends it out read-only. The picture is
/// replaced as a whole or not at all.
pub struct RenderCache {
    basis: Basis,
    last: Option<Settings>,
    buffer: Vec<u8>,
}

impl RenderCache {
    /// The tables that every picture of this cache is computed from.
    pub closed spec fn basis(&self) -> Basis {
        self.basis
    }

    /// The parameters of the picture at hand, `None` before the first one.
    pub closed spec fn last(&self) -> Option<Settings> {
        self.last
    }

    /// The bytes of the buffer.
    pub closed spec fn pixels(&self) -> Seq<u8> {
        self.buffer@
    }

    /// The buffer is the picture of the parameters last applied, or blank as
    /// long as none were.
    pub open spec fn wf(&self) -> bool {
        &&& self.basis().wf()
        &&& match self.last() {
            Some(p) => p.in_range() && renders(self.pixels(), self.basis(), p),
            None => self.pixels() == blank_pixels(self.basis().side as int),
        }
    }

    /// A cache with a blank buffer and no parameters applied yet.
    pub fn new(basis: Basis) -> (cache: RenderCache)
        requires
            basis.wf(),
        ensures
            cache.wf(),
            cache.basis() == basis,
            cache.last() == None::<Settings>,
            cache.pixels() == blank_pixels(basis.side as int),
    {
        let buffer = blank(basis.side);
        RenderCache { basis, last: None, buffer }
    }

    /// Brings the buffer up to date with `params`.
    ///
    /// Parameters out of range are rejected. Parameters equal to those of the
    /// picture at hand cost nothing. Any others have the whole grid computed
    /// anew, and become the parameters of the picture at hand.
    pub fn apply(&mut self, params: Settings) -> (outcome: Outcome)
        requires
            old(self).wf(),
        ensures
            final(self).wf(),
            final(self).basis() == old(self).basis(),
            outcome == outcome_of(old(self).last(), params),
            final(self).last() == next_last(old(self).last(), params),
            outcome == Outcome::Recomputed ==> renders(
                final(self).pixels(),
                final(self).basis(),
                params,
            ),
            outcome != Outcome::Recomputed ==> final(self).pixels() == old(self).pixels(),
    {
        if !params.is_in_range() {
            return Outcome::Rejected;
        }
        let same = match self.last {
            Some(p) => p == params,
            None => false,
        };
        if same {
            return Outcome::Unchanged;
        }
        self.buffer = evaluate(&self.basis, params);
        self.last = Some(params);
        Outcome::Recomputed
    }

    /// The buffer, to read.
    pub fn buffer(&self) -> (view: &Vec<u8>)
        ensures
            view@ == self.pixels(),
    {
        &self.buffer
    }

    /// The parameters of the picture at hand, `None` before the first one.
    pub fn last_settings(&self) -> (last: Option<Settings>)
        ensures
            last == self.last(),
    {
        self.last
    }

    /// The side length of the grid.
    pub fn side(&self) -> (side: usize)
        ensures
            side == self.basis().side,
    {
        self.basis.side
    }
}

/// The buffer never changes its size: three bytes for each cell of the grid,
/// before the first picture and after every one.
pub proof fn lemma_buffer_size(cache: RenderCache)
    requires
        cache.wf(),
    ensures
        cache.pixels().len() == CHANNELS * cache.basis().side * cache.basis().side,
{
}

/// The first call on a new cache computes: whatever parameters in range it is given.
pub proof fn lemma_first_apply_recomputes(params: Settings)
    requires
        params.in_range(),
    ensures
        outcome_of(None, params) == Outcome::Recomputed,
{
}

/// The same parameters applied twice in a row are computed at most once: the
/// second call never recomputes, and leaves the parameters at hand as they were.
pub proof fn lemma_repeat_is_idle(last: Option<Settings>, params: Settings)
    ensures
        outcome_of(next_last(last, params), params) != Outcome::Recomputed,
        next_last(next_last(last, params), params) == next_last(last, params),
        params.in_range() ==> outcome_of(next_last(last, params), params) == Outcome::Unchanged,
{
}

/// Parameters in range that differ from those at hand are always computed.
pub proof fn lemma_change_recomputes(last: Option<Settings>, params: Settings)
    requires
        params.in_range(),
        last != Some(params),
    ensures
        outcome_of(last, params) == Outcome::Recomputed,
        next_last(last, params) == Some(params),
{
}

} // verus!

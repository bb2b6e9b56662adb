use vstd::prelude::*;

verus! {

/// Smallest mode number that a pattern may have.
pub const MODE_MIN: usize = 1;

/// Largest mode number that a pattern may have.
pub const MODE_MAX: usize = 9;

/// The parameters of one pattern: the two mode numbers and the basis.
///
/// A value is a plain snapshot. Two of them are equal when all three fields are.
#[derive(Clone, Copy, Debug, PartialEq, Eq, Structural)]
pub struct Settings {
    /// Horizontal mode number.
    pub n: usize,
    /// Vertical mode number.
    pub m: usize,
    /// Cosine basis on both axes when set, sine basis otherwise.
    pub cos: bool,
}

/// `value` moved to the nearest mode number in `MODE_MIN..=MODE_MAX`.
pub open spec fn clamp_mode(value: usize) -> usize {
    if value < MODE_MIN {
        MODE_MIN
    } else if value > MODE_MAX {
        MODE_MAX
    } else {
        value
    }
}

impl Settings {
    /// Both mode numbers lie in `MODE_MIN..=MODE_MAX`.
    pub open spec fn in_range(self) -> bool {
        &&& MODE_MIN <= self.n <= MODE_MAX
        &&& MODE_MIN <= self.m <= MODE_MAX
    }

    /// The same basis with the two mode numbers exchanged.
    pub open spec fn swapped(self) -> Settings {
        Settings { n: self.m, m: self.n, cos: self.cos }
    }

    /// The parameter set with these values, or `None` when a mode number is out of range.
    pub fn new(n: usize, m: usize, cos: bool) -> (r: Option<Settings>)
        ensures
            r == (if (Settings { n, m, cos }).in_range() {
                Some(Settings { n, m, cos })
            } else {
                None
            }),
    {
        let s = Settings { n, m, cos };
        if s.is_in_range() {
            Some(s)
        } else {
            None
        }
    }

    /// The parameter set with each mode number moved into range.
    pub fn clamped(n: usize, m: usize, cos: bool) -> (r: Settings)
        ensures
            r == (Settings { n: clamp_mode(n), m: clamp_mode(m), cos }),
            r.in_range(),
    {
        Settings { n: clamp_one(n), m: clamp_one(m), cos }
    }

    /// Tells whether both mode numbers are in range.
    pub fn is_in_range(&self) -> (r: bool)
        ensures
            r == self.in_range(),
    {
        MODE_MIN <= self.n && self.n <= MODE_MAX && MODE_MIN <= self.m && self.m <= MODE_MAX
    }

    /// The mode numbers exchanged, the basis kept.
    pub fn swap_modes(&self) -> (r: Settings)
        ensures
            r == self.swapped(),
    {
        Settings { n: self.m, m: self.n, cos: self.cos }
    }
}

fn clamp_one(value: usize) -> (r: usize)
    ensures
        r == clamp_mode(value),
{
    if value < MODE_MIN {
        MODE_MIN
    } else if value > MODE_MAX {
        MODE_MAX
    } else {
        value
    }
}

impl Default for Settings {
    /// The pattern shown at startup: both modes 1, sine basis.
    fn default() -> (r: Settings)
        ensures
            r == (Settings { n: 1, m: 1, cos: false }),
    {
        Settings { n: 1, m: 1, cos: false }
    }
}

} // verus!

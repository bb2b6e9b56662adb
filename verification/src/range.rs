use vstd::prelude::*;
use vstd::std_specs::ops::{AddSpec, DivSpec, MulSpec, SubSpec};

verus! {

/// The value at `s` of the linear map that sends `from_range.0` to `to_range.0`
/// and `from_range.1` to `to_range.1`, computed in the arithmetic of `T`:
/// `to.0 + (s - from.0) * (to.1 - to.0) / (from.1 - from.0)`.
pub open spec fn linear_map<T>(from_range: (T, T), to_range: (T, T), s: T) -> T where
    T: Copy
        + std::ops::Add<T, Output = T>
        + std::ops::Sub<T, Output = T>
        + std::ops::Mul<T, Output = T>
        + std::ops::Div<T, Output = T>,
 {
    to_range.0.add_spec(
        s.sub_spec(from_range.0).mul_spec(to_range.1.sub_spec(to_range.0)).div_spec(
            from_range.1.sub_spec(from_range.0),
        ),
    )
}

/// Every step of `linear_map` is defined in `T` at these arguments: for the
/// machine integers, no step overflows and the source range is not empty.
pub open spec fn linear_map_defined<T>(from_range: (T, T), to_range: (T, T), s: T) -> bool where
    T: Copy
        + std::ops::Add<T, Output = T>
        + std::ops::Sub<T, Output = T>
        + std::ops::Mul<T, Output = T>
        + std::ops::Div<T, Output = T>,
 {
    &&& s.sub_req(from_range.0)
    &&& to_range.1.sub_req(to_range.0)
    &&& s.sub_spec(from_range.0).mul_req(to_range.1.sub_spec(to_range.0))
    &&& from_range.1.sub_req(from_range.0)
    &&& s.sub_spec(from_range.0).mul_spec(to_range.1.sub_spec(to_range.0)).div_req(
        from_range.1.sub_spec(from_range.0),
    )
    &&& to_range.0.add_req(
        s.sub_spec(from_range.0).mul_spec(to_range.1.sub_spec(to_range.0)).div_spec(
            from_range.1.sub_spec(from_range.0),
        ),
    )
}

/// Maps `s` linearly from `from_range` to `to_range`.
///
/// The product is taken before the quotient, so with integers the only
/// rounding is that of the one division.
pub fn map_range<T: Copy>(from_range: (T, T), to_range: (T, T), s: T) -> (r: T) where
    T: std::ops::Add<T, Output = T>
        + std::ops::Sub<T, Output = T>
        + std::ops::Mul<T, Output = T>
        + std::ops::Div<T, Output = T>,

    requires
        T::obeys_add_spec(),
        T::obeys_sub_spec(),
        T::obeys_mul_spec(),
        T::obeys_div_spec(),
        linear_map_defined(from_range, to_range, s),
    ensures
        r == linear_map(from_range, to_range, s),
{
    to_range.0 + (s - from_range.0) * (to_range.1 - to_range.0) / (from_range.1 - from_range.0)
}

} // verus!

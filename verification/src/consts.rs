use vstd::prelude::*;

verus! {

/// The most city pieces a city can hold (a city of size five).
pub const MAX_CITY_PIECES: usize = 4;

/// The most units that may stand on one hexagon.
pub const STACK_LIMIT: usize = 4;

} // verus!

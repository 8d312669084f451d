use vstd::prelude::*;

verus! {

/// Identifier of a user account that takes a seat in a game.
pub type UserId = u32;

} // verus!

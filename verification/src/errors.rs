use vstd::prelude::*;

verus! {

/// Everything that can go wrong in the round engine. Every variant marks a
/// caller-side misuse or a not-yet-designed phase, never a transient fault.
#[derive(Clone, Copy, Debug, PartialEq, Eq, Structural)]
pub enum GameError {
    /// A shoe was requested with zero decks.
    EmptyShoe,
    /// The reserved dealer identity collides with an allocated player identity.
    DealerIdCollision,
    /// More cards were requested than remain undealt in the shoe.
    ShoeExhausted,
    /// `advance` was called from a phase whose transition is not yet designed.
    UnimplementedPhase,
}

} // verus!

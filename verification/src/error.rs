//! The ways an operation on a tournament can be refused.

use vstd::prelude::*;

verus! {

/// Why an operation was refused. A refused operation never changes any state.
#[derive(Clone, Copy, Debug, PartialEq, Eq, Structural)]
pub enum TournamentError {
    /// The caller is not the one entitled to perform the operation.
    Unauthorized,
    /// Every slot of the tournament is taken.
    TournamentFull,
    /// The account already holds a slot in the tournament.
    AlreadyRegistered,
    /// One of the two named opponents is not registered.
    PlayerNotFound,
    /// The two named opponents do not stand on the same number of wins.
    ScoreMismatch,
    /// The reported winner is neither of the two named opponents.
    InvalidWinner,
    /// One of the two named opponents has already lost a match.
    PlayerAlreadyEliminated,
    /// The tournament has concluded.
    TournamentEnded,
    /// The tournament has not been opened for play.
    TournamentNotStarted,
    /// The tournament has not concluded yet.
    TournamentNotEnded,
    /// No tournament exists under the given identifier.
    NotFound,
    /// The ledger refused to pay the reward out; the claim may be repeated.
    TransferFailed,
    /// The reward has been paid out before.
    AlreadyClaimed,
}

} // verus!

//! The mathematical model of one tournament and of its transitions.
//!
//! Every operation on a game is described here twice over: by the reason for
//! which it is refused, if any, and by the state that it leads to when it is
//! accepted. The executable operations are proved against these functions.

use vstd::prelude::*;
use crate::error::TournamentError;
use crate::player::{
    count_advanced, count_losers, distinct_accounts, fresh_player, knocked_out, position_of,
    promoted, registered, Player,
};
use ink::primitives::AccountId;

verus! {

/// One tournament, as a mathematical value.
pub struct GameState {
    /// The number of player slots, fixed at creation.
    pub capacity: nat,
    /// The amount attached at creation, paid out to the winner.
    pub reward_pool: nat,
    /// The declared winner, absent until the tournament concludes.
    pub winner: Option<AccountId>,
    /// The participants, in the order in which they registered.
    pub players: Seq<Player>,
    /// Whether match results may be reported.
    pub started: bool,
    /// Whether the tournament is over.
    pub ended: bool,
    /// Whether the reward has been paid out.
    pub claimed: bool,
    /// The current round.
    pub round: nat,
}

impl GameState {
    /// What holds of every tournament that was created through this library
    /// and changed only through its operations.
    pub open spec fn wf(self) -> bool {
        &&& self.capacity <= u32::MAX
        &&& self.players.len() <= self.capacity
        &&& distinct_accounts(self.players)
        &&& self.winner is Some ==> self.ended && registered(self.players, self.winner->0)
        &&& self.claimed ==> self.ended
        &&& self.round <= count_losers(self.players)
        &&& forall|i: int|
            0 <= i < self.players.len() ==> (#[trigger] self.players[i]).score <= count_losers(
                self.players,
            )
    }

    /// The number of wins at which a single player concludes the tournament,
    /// and the number of advanced players at which a round is complete.
    pub open spec fn half_threshold(self) -> nat {
        self.players.len() / 2
    }
}

/// A tournament as it is created: no players, all flags down, round 0.
pub open spec fn opened(capacity: nat, reward_pool: nat) -> GameState {
    GameState {
        capacity,
        reward_pool,
        winner: None,
        players: Seq::empty(),
        started: false,
        ended: false,
        claimed: false,
        round: 0,
    }
}

/// Why a registration of `account` is refused, if it is.
pub open spec fn register_error(g: GameState, account: AccountId) -> Option<TournamentError> {
    if g.players.len() >= g.capacity {
        Some(TournamentError::TournamentFull)
    } else if registered(g.players, account) {
        Some(TournamentError::AlreadyRegistered)
    } else {
        None
    }
}

/// The tournament after `account` has registered.
pub open spec fn register_next(g: GameState, account: AccountId) -> GameState {
    GameState { players: g.players.push(fresh_player(account)), ..g }
}

/// Why a change of the status flags is refused, if it is.
pub open spec fn status_error(g: GameState) -> Option<TournamentError> {
    if g.ended {
        Some(TournamentError::TournamentEnded)
    } else {
        None
    }
}

/// The tournament after its status flags have been set by hand.
pub open spec fn status_next(g: GameState, started: bool, ended: bool) -> GameState {
    GameState { started, ended, round: 0, ..g }
}

/// The opponent of `winner` in the match between `player_a` and `player_b`.
pub open spec fn loser_of(player_a: AccountId, player_b: AccountId, winner: AccountId)
    -> AccountId {
    if winner == player_a {
        player_b
    } else {
        player_a
    }
}

/// Why the report of a match is refused, if it is. The conditions are tested
/// in the order in which they stand here.
pub open spec fn report_error(
    g: GameState,
    player_a: AccountId,
    player_b: AccountId,
    winner: AccountId,
) -> Option<TournamentError> {
    if g.ended {
        Some(TournamentError::TournamentEnded)
    } else if !g.started {
        Some(TournamentError::TournamentNotStarted)
    } else if !registered(g.players, player_a) || !registered(g.players, player_b) {
        Some(TournamentError::PlayerNotFound)
    } else if g.players[position_of(g.players, player_a)].score != g.players[position_of(
        g.players,
        player_b,
    )].score {
        Some(TournamentError::ScoreMismatch)
    } else if winner != player_a && winner != player_b {
        Some(TournamentError::InvalidWinner)
    } else if g.players[position_of(g.players, player_a)].is_loss || g.players[position_of(
        g.players,
        player_b,
    )].is_loss {
        Some(TournamentError::PlayerAlreadyEliminated)
    } else {
        None
    }
}

/// The players after the match between `player_a` and `player_b` went to
/// `winner`: the winner's record is written first, the loser's second, each at
/// the slot it had.
pub open spec fn players_after_report(
    players: Seq<Player>,
    player_a: AccountId,
    player_b: AccountId,
    winner: AccountId,
) -> Seq<Player> {
    let iw = position_of(players, winner);
    let il = position_of(players, loser_of(player_a, player_b, winner));
    players.update(iw, promoted(players[iw])).update(il, knocked_out(players[il]))
}

/// The tournament after the match between `player_a` and `player_b` went to
/// `winner`.
///
/// The winner's new score is held against half the number of players: if it
/// reaches that, the whole tournament is over and the winner declared. If not,
/// the round is complete as soon as half the players have won more matches
/// than the round's number.
pub open spec fn report_next(
    g: GameState,
    player_a: AccountId,
    player_b: AccountId,
    winner: AccountId,
) -> GameState {
    let players = players_after_report(g.players, player_a, player_b, winner);
    let winner_score = g.players[position_of(g.players, winner)].score + 1;
    if winner_score >= g.half_threshold() {
        GameState { players, winner: Some(winner), ended: true, round: g.round + 1, ..g }
    } else if count_advanced(players, g.round) >= g.half_threshold() {
        GameState { players, round: g.round + 1, ..g }
    } else {
        GameState { players, ..g }
    }
}

/// Why `caller` may not be paid the reward, if that is so. A failing transfer
/// is no such reason: it is known only once the payment was tried.
pub open spec fn claim_error(g: GameState, caller: AccountId) -> Option<TournamentError> {
    if g.winner != Some(caller) {
        Some(TournamentError::Unauthorized)
    } else if !g.ended {
        Some(TournamentError::TournamentNotEnded)
    } else if g.claimed {
        Some(TournamentError::AlreadyClaimed)
    } else {
        None
    }
}

/// The tournament after the reward has been paid out.
pub open spec fn claim_next(g: GameState) -> GameState {
    GameState { claimed: true, ..g }
}

} // verus!

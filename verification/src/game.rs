//! One tournament: its record and the operations that change it.

use vstd::prelude::*;
use crate::account::same_account;
use crate::error::TournamentError;
use crate::player::{
    advanced_players, count_losers, find_player, have_distinct_accounts, lost_players, Player,
};
use crate::state::{
    claim_error, claim_next, opened, players_after_report, register_error, register_next,
    report_error, report_next, status_error, status_next, GameState,
};
use crate::laws::{registration_keeps_well_formed, report_keeps_well_formed};
use ink::primitives::AccountId;

verus! {

/// The full record of one tournament.
#[derive(Debug)]
pub struct GameDetail {
    /// The number of player slots, fixed at creation.
    pub total_player: u32,
    /// The amount attached at creation, paid out to the winner.
    pub reward: u128,
    /// The declared winner, absent until the tournament concludes.
    pub winner: Option<AccountId>,
    /// The participants, in the order in which they registered.
    pub players: Vec<Player>,
    /// Whether match results may be reported.
    pub is_start: bool,
    /// Whether the tournament is over.
    pub is_end: bool,
    /// Whether the reward has been paid out.
    pub is_claimed: bool,
    /// The current round.
    pub current_round: u32,
}

impl View for GameDetail {
    type V = GameState;

    open spec fn view(&self) -> GameState {
        GameState {
            capacity: self.total_player as nat,
            reward_pool: self.reward as nat,
            winner: self.winner,
            players: self.players@,
            started: self.is_start,
            ended: self.is_end,
            claimed: self.is_claimed,
            round: self.current_round as nat,
        }
    }
}

impl Clone for GameDetail {
    fn clone(&self) -> (copy: Self)
        ensures
            copy@ == self@,
    {
        let mut players: Vec<Player> = Vec::new();
        let mut i: usize = 0;
        while i < self.players.len()
            invariant
                i <= self.players.len(),
                players@ == self.players@.take(i as int),
            decreases self.players.len() - i,
        {
            players.push(self.players[i]);
            proof {
                assert(self.players@.take(i + 1) =~= self.players@.take(i as int).push(
                    self.players@[i as int],
                ));
            }
            i += 1;
        }
        proof {
            assert(self.players@.take(i as int) =~= self.players@);
        }
        GameDetail {
            total_player: self.total_player,
            reward: self.reward,
            winner: self.winner,
            players,
            is_start: self.is_start,
            is_end: self.is_end,
            is_claimed: self.is_claimed,
            current_round: self.current_round,
        }
    }
}

impl GameDetail {
    /// Opens a tournament with `total_player` slots and `reward` attached.
    pub fn new(total_player: u32, reward: u128) -> (game: GameDetail)
        ensures
            game@ == opened(total_player as nat, reward as nat),
            game@.wf(),
    {
        GameDetail {
            total_player,
            reward,
            winner: None,
            players: Vec::new(),
            is_start: false,
            is_end: false,
            is_claimed: false,
            current_round: 0,
        }
    }

    /// Tells whether the record is well formed, as every record is that was
    /// opened by `new` and changed only by the operations of this type. A
    /// record that was put together in another way is to be tested before a
    /// match is reported on it.
    pub fn is_well_formed(&self) -> (ok: bool)
        ensures
            ok == self@.wf(),
    {
        if self.players.len() > self.total_player as usize {
            return false;
        }
        if !have_distinct_accounts(&self.players) {
            return false;
        }
        match &self.winner {
            Some(w) => {
                if !self.is_end || find_player(&self.players, w).is_none() {
                    return false;
                }
            },
            None => {},
        }
        if self.is_claimed && !self.is_end {
            return false;
        }
        let lost = lost_players(&self.players);
        if self.current_round as usize > lost {
            return false;
        }
        let mut i: usize = 0;
        while i < self.players.len()
            invariant
                i <= self.players.len(),
                lost as nat == count_losers(self.players@),
                forall|k: int| 0 <= k < i ==> (#[trigger] self.players@[k]).score <= lost,
            decreases self.players.len() - i,
        {
            if self.players[i].score as usize > lost {
                return false;
            }
            i += 1;
        }
        true
    }

    /// Gives `account` the next free slot, with no wins and no loss.
    ///
    /// Refused with `TournamentFull` when every slot is taken, else with
    /// `AlreadyRegistered` when the account holds one already. Nothing but the
    /// list of players changes.
    pub fn register(&mut self, account: AccountId) -> (result: Result<(), TournamentError>)
        ensures
            match result {
                Ok(()) => register_error(old(self)@, account) is None && final(self)@
                    == register_next(old(self)@, account),
                Err(e) => register_error(old(self)@, account) == Some(e) && *final(self) == *old(self),
            },
            old(self)@.wf() ==> final(self)@.wf(),
    {
        if self.players.len() >= self.total_player as usize {
            return Err(TournamentError::TournamentFull);
        }
        match find_player(&self.players, &account) {
            Some(_) => Err(TournamentError::AlreadyRegistered),
            None => {
                let entry = Player { player: account, score: 0, active: true, is_loss: false };
                proof {
                    if self@.wf() {
                        registration_keeps_well_formed(self@, account);
                    }
                }
                self.players.push(entry);
                Ok(())
            },
        }
    }

    /// Sets the two status flags by hand and puts the round back to 0.
    ///
    /// Refused with `TournamentEnded` once the tournament is over.
    pub fn set_status(&mut self, is_start: bool, is_end: bool) -> (result: Result<
        (),
        TournamentError,
    >)
        ensures
            match result {
                Ok(()) => status_error(old(self)@) is None && final(self)@ == status_next(
                    old(self)@,
                    is_start,
                    is_end,
                ),
                Err(e) => status_error(old(self)@) == Some(e) && *final(self) == *old(self),
            },
            old(self)@.wf() ==> final(self)@.wf(),
    {
        if self.is_end {
            return Err(TournamentError::TournamentEnded);
        }
        self.is_start = is_start;
        self.is_end = is_end;
        self.current_round = 0;
        Ok(())
    }

    /// Takes the report of a match between `player_a` and `player_b` that
    /// went to `winner`.
    ///
    /// The report is refused, in this order: with `TournamentEnded` once the
    /// tournament is over; with `TournamentNotStarted` before it was opened;
    /// with `PlayerNotFound` unless both opponents are registered; with
    /// `ScoreMismatch` unless both stand on the same number of wins; with
    /// `InvalidWinner` unless the winner is one of the two; with
    /// `PlayerAlreadyEliminated` if either has lost before.
    ///
    /// An accepted report gives the winner one more win and marks the other
    /// as having lost. A winner whose wins reach half the number of players
    /// concludes the tournament. Otherwise the round goes up by one as soon as
    /// half the players have more wins than the round's number.
    pub fn report_result(&mut self, player_a: AccountId, player_b: AccountId, winner: AccountId)
        -> (result: Result<(), TournamentError>)
        requires
            old(self)@.wf(),
        ensures
            match result {
                Ok(()) => report_error(old(self)@, player_a, player_b, winner) is None
                    && final(self)@ == report_next(old(self)@, player_a, player_b, winner),
                Err(e) => report_error(old(self)@, player_a, player_b, winner) == Some(e)
                    && *final(self) == *old(self),
            },
            final(self)@.wf(),
    {
        if self.is_end {
            return Err(TournamentError::TournamentEnded);
        }
        if !self.is_start {
            return Err(TournamentError::TournamentNotStarted);
        }
        let slot_a = match find_player(&self.players, &player_a) {
            Some(i) => i,
            None => {
                return Err(TournamentError::PlayerNotFound);
            },
        };
        let slot_b = match find_player(&self.players, &player_b) {
            Some(i) => i,
            None => {
                return Err(TournamentError::PlayerNotFound);
            },
        };
        if self.players[slot_a].score != self.players[slot_b].score {
            return Err(TournamentError::ScoreMismatch);
        }
        let a_wins = same_account(&winner, &player_a);
        if !a_wins && !same_account(&winner, &player_b) {
            return Err(TournamentError::InvalidWinner);
        }
        if self.players[slot_a].is_loss || self.players[slot_b].is_loss {
            return Err(TournamentError::PlayerAlreadyEliminated);
        }
        proof {
            report_keeps_well_formed(self@, player_a, player_b, winner);
        }
        let (slot_w, slot_l) = if a_wins {
            (slot_a, slot_b)
        } else {
            (slot_b, slot_a)
        };
        let won = self.players[slot_w];
        let lost = self.players[slot_l];
        let winner_score: u32 = won.score + 1;
        self.players[slot_w] = Player {
            player: won.player,
            score: winner_score,
            active: won.active,
            is_loss: false,
        };
        self.players[slot_l] = Player {
            player: lost.player,
            score: lost.score,
            active: lost.active,
            is_loss: true,
        };
        assert(self.players@ == players_after_report(
            old(self)@.players,
            player_a,
            player_b,
            winner,
        ));
        let half: usize = self.players.len() / 2;
        if winner_score as usize >= half {
            self.winner = Some(winner);
            self.is_end = true;
            self.current_round = self.current_round + 1;
        } else if advanced_players(&self.players, self.current_round) >= half {
            self.current_round = self.current_round + 1;
        }
        Ok(())
    }

    /// Says what is owed to `caller`: the whole reward, if `caller` is the
    /// declared winner of a concluded tournament that has not paid out yet.
    pub fn reward_due(&self, caller: AccountId) -> (result: Result<u128, TournamentError>)
        ensures
            match result {
                Ok(amount) => claim_error(self@, caller) is None && amount == self.reward,
                Err(e) => claim_error(self@, caller) == Some(e),
            },
    {
        let is_winner = match &self.winner {
            Some(w) => same_account(w, &caller),
            None => false,
        };
        if !is_winner {
            Err(TournamentError::Unauthorized)
        } else if !self.is_end {
            Err(TournamentError::TournamentNotEnded)
        } else if self.is_claimed {
            Err(TournamentError::AlreadyClaimed)
        } else {
            Ok(self.reward)
        }
    }

    /// Records the outcome of paying the reward to `caller`.
    ///
    /// Where nothing is owed to `caller` the claim is refused as `reward_due`
    /// says, whatever `transfer_succeeded` holds. Where the reward is owed and
    /// the transfer failed, the claim is refused with `TransferFailed` and may
    /// be repeated. Only a transfer that succeeded marks the reward as paid.
    pub fn claim_reward(&mut self, caller: AccountId, transfer_succeeded: bool) -> (result:
        Result<(), TournamentError>)
        ensures
            match result {
                Ok(()) => claim_error(old(self)@, caller) is None && transfer_succeeded && final(self)@ == claim_next(old(self)@),
                Err(e) => *final(self) == *old(self) && (match claim_error(old(self)@, caller) {
                    Some(reason) => e == reason,
                    None => !transfer_succeeded && e == TournamentError::TransferFailed,
                }),
            },
            old(self)@.wf() ==> final(self)@.wf(),
    {
        match self.reward_due(caller) {
            Err(e) => Err(e),
            Ok(_) => {
                if transfer_succeeded {
                    self.is_claimed = true;
                    Ok(())
                } else {
                    Err(TournamentError::TransferFailed)
                }
            },
        }
    }
}

} // verus!

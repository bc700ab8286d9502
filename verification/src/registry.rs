//! The registry: every tournament of one creator, each under its number.

use vstd::prelude::*;
use crate::account::same_account;
use crate::error::TournamentError;
use crate::game::GameDetail;
use crate::player::Player;
use crate::state::{
    claim_error, claim_next, opened, register_error, register_next, report_error, report_next,
    status_error, status_next, GameState,
};
use ink::primitives::AccountId;

verus! {

/// A registry, as a mathematical value.
pub struct RegistryState {
    /// The number that the next tournament will get.
    pub counter: nat,
    /// The only account that may create tournaments and report results.
    pub creator: AccountId,
    /// The tournaments, each at the place of its number.
    pub games: Seq<GameState>,
}

impl RegistryState {
    /// What holds of every registry: the tournaments are numbered from 0 up
    /// to the counter, and each of them is well formed.
    pub open spec fn wf(self) -> bool {
        &&& self.counter == self.games.len()
        &&& self.counter <= u32::MAX
        &&& forall|id: int| 0 <= id < self.games.len() ==> (#[trigger] self.games[id]).wf()
    }

    /// Whether a tournament exists under `game_id`.
    pub open spec fn has_game(self, game_id: nat) -> bool {
        game_id < self.games.len()
    }

    /// The registry with the tournament under `game_id` replaced by `game`.
    pub open spec fn with_game(self, game_id: nat, game: GameState) -> RegistryState {
        RegistryState { games: self.games.update(game_id as int, game), ..self }
    }
}

/// The registry of `creator` before any tournament exists.
pub open spec fn founded(creator: AccountId) -> RegistryState {
    RegistryState { counter: 0, creator, games: Seq::empty() }
}

/// Why the creation of a tournament is refused, if it is.
pub open spec fn create_error(t: RegistryState, caller: AccountId) -> Option<TournamentError> {
    if caller != t.creator {
        Some(TournamentError::Unauthorized)
    } else {
        None
    }
}

/// The registry after a tournament was created.
pub open spec fn create_next(t: RegistryState, total_player: nat, reward: nat) -> RegistryState {
    RegistryState {
        counter: t.counter + 1,
        games: t.games.push(opened(total_player, reward)),
        ..t
    }
}

/// Why a registration for the tournament under `game_id` is refused, if it is.
pub open spec fn register_tournament_error(t: RegistryState, game_id: nat, caller: AccountId)
    -> Option<TournamentError> {
    if !t.has_game(game_id) {
        Some(TournamentError::NotFound)
    } else {
        register_error(t.games[game_id as int], caller)
    }
}

/// Why the report of a match in the tournament under `game_id` is refused, if
/// it is.
pub open spec fn update_winner_error(
    t: RegistryState,
    game_id: nat,
    player_a: AccountId,
    player_b: AccountId,
    winner: AccountId,
    caller: AccountId,
) -> Option<TournamentError> {
    if !t.has_game(game_id) {
        Some(TournamentError::NotFound)
    } else if caller != t.creator {
        Some(TournamentError::Unauthorized)
    } else {
        report_error(t.games[game_id as int], player_a, player_b, winner)
    }
}

/// Why a change of the status of the tournament under `game_id` is refused,
/// if it is.
pub open spec fn update_game_status_error(t: RegistryState, game_id: nat, caller: AccountId)
    -> Option<TournamentError> {
    if !t.has_game(game_id) {
        Some(TournamentError::NotFound)
    } else if caller != t.creator {
        Some(TournamentError::Unauthorized)
    } else {
        status_error(t.games[game_id as int])
    }
}

/// Why `caller` may not be paid the reward of the tournament under `game_id`,
/// if that is so.
pub open spec fn claim_reward_error(t: RegistryState, game_id: nat, caller: AccountId) -> Option<
    TournamentError,
> {
    if !t.has_game(game_id) {
        Some(TournamentError::NotFound)
    } else {
        claim_error(t.games[game_id as int], caller)
    }
}

/// Tells whether `caller` is `creator`, the one account that may create
/// tournaments, set their status and report results.
pub fn require_creator(caller: &AccountId, creator: &AccountId) -> (result: Result<
    (),
    TournamentError,
>)
    ensures
        result == if *caller == *creator {
            Ok::<(), TournamentError>(())
        } else {
            Err::<(), TournamentError>(TournamentError::Unauthorized)
        },
{
    if same_account(caller, creator) {
        Ok(())
    } else {
        Err(TournamentError::Unauthorized)
    }
}

/// Every tournament of one creator.
pub struct Tournament {
    counter: u32,
    tournament_creator: AccountId,
    games: Vec<GameDetail>,
}

impl View for Tournament {
    type V = RegistryState;

    closed spec fn view(&self) -> RegistryState {
        RegistryState {
            counter: self.counter as nat,
            creator: self.tournament_creator,
            games: Seq::new(self.games@.len(), |id: int| self.games@[id]@),
        }
    }
}

impl Tournament {
    /// Founds the registry of `creator`, with no tournament in it.
    pub fn new(creator: AccountId) -> (registry: Tournament)
        ensures
            registry@ == founded(creator),
            registry@.wf(),
    {
        let registry = Tournament { counter: 0, tournament_creator: creator, games: Vec::new() };
        assert(registry@.games =~= Seq::empty());
        registry
    }

    /// Founds the registry of `creator`, as `new` does.
    pub fn default(creator: AccountId) -> (registry: Tournament)
        ensures
            registry@ == founded(creator),
            registry@.wf(),
    {
        Tournament::new(creator)
    }

    /// The number that the next tournament will get.
    pub fn get_counter(&self) -> (counter: u32)
        ensures
            counter == self@.counter,
    {
        self.counter
    }

    /// The account that may create tournaments and report results.
    pub fn get_tournament_creator(&self) -> (creator: AccountId)
        ensures
            creator == self@.creator,
    {
        self.tournament_creator
    }

    /// Creates a tournament with `total_player` slots and `reward` attached,
    /// and returns its number: the counter as it stood before the call.
    ///
    /// Refused with `Unauthorized` unless `caller` is the creator.
    pub fn create_tournament(&mut self, total_player: u32, reward: u128, caller: AccountId) -> (result:
        Result<u32, TournamentError>)
        requires
            old(self)@.wf(),
            old(self)@.counter < u32::MAX,
        ensures
            match result {
                Ok(game_id) => create_error(old(self)@, caller) is None && game_id == old(self)@.counter && final(self)@ == create_next(
                    old(self)@,
                    total_player as nat,
                    reward as nat,
                ),
                Err(e) => create_error(old(self)@, caller) == Some(e) && final(self)@ == old(self)@,
            },
            final(self)@.wf(),
    {
        if !same_account(&caller, &self.tournament_creator) {
            return Err(TournamentError::Unauthorized);
        }
        let game_id = self.counter;
        self.games.push(GameDetail::new(total_player, reward));
        self.counter = game_id + 1;
        assert(self@.games =~= create_next(old(self)@, total_player as nat, reward as nat).games);
        Ok(game_id)
    }

    /// Registers `caller` for the tournament under `game_id`.
    ///
    /// Refused with `NotFound` where no such tournament exists, else as
    /// `GameDetail::register` says.
    pub fn register_tournament(&mut self, game_id: u32, caller: AccountId) -> (result: Result<
        (),
        TournamentError,
    >)
        requires
            old(self)@.wf(),
        ensures
            match result {
                Ok(()) => register_tournament_error(old(self)@, game_id as nat, caller) is None
                    && final(self)@ == old(self)@.with_game(
                    game_id as nat,
                    register_next(old(self)@.games[game_id as int], caller),
                ),
                Err(e) => register_tournament_error(old(self)@, game_id as nat, caller) == Some(e)
                    && final(self)@ == old(self)@,
            },
            final(self)@.wf(),
    {
        if game_id >= self.counter {
            return Err(TournamentError::NotFound);
        }
        let slot = game_id as usize;
        assert(self@.games[slot as int] == self.games@[slot as int]@);
        let result = self.games[slot].register(caller);
        proof {
            match result {
                Ok(()) => {
                    assert(self@.games =~= old(self)@.games.update(
                        slot as int,
                        register_next(old(self)@.games[slot as int], caller),
                    ));
                },
                Err(_) => {
                    assert(self@.games =~= old(self)@.games);
                },
            }
        }
        result
    }

    /// Takes the report of a match in the tournament under `game_id`.
    ///
    /// Refused with `NotFound` where no such tournament exists, else with
    /// `Unauthorized` unless `caller` is the creator, else as
    /// `GameDetail::report_result` says.
    pub fn update_winner(
        &mut self,
        game_id: u32,
        player_a: AccountId,
        player_b: AccountId,
        winner: AccountId,
        caller: AccountId,
    ) -> (result: Result<(), TournamentError>)
        requires
            old(self)@.wf(),
        ensures
            match result {
                Ok(()) => update_winner_error(
                    old(self)@,
                    game_id as nat,
                    player_a,
                    player_b,
                    winner,
                    caller,
                ) is None && final(self)@ == old(self)@.with_game(
                    game_id as nat,
                    report_next(old(self)@.games[game_id as int], player_a, player_b, winner),
                ),
                Err(e) => update_winner_error(
                    old(self)@,
                    game_id as nat,
                    player_a,
                    player_b,
                    winner,
                    caller,
                ) == Some(e) && final(self)@ == old(self)@,
            },
            final(self)@.wf(),
    {
        if game_id >= self.counter {
            return Err(TournamentError::NotFound);
        }
        if !same_account(&caller, &self.tournament_creator) {
            return Err(TournamentError::Unauthorized);
        }
        let slot = game_id as usize;
        assert(self@.games[slot as int] == self.games@[slot as int]@);
        let result = self.games[slot].report_result(player_a, player_b, winner);
        proof {
            match result {
                Ok(()) => {
                    assert(self@.games =~= old(self)@.games.update(
                        slot as int,
                        report_next(old(self)@.games[slot as int], player_a, player_b, winner),
                    ));
                },
                Err(_) => {
                    assert(self@.games =~= old(self)@.games);
                },
            }
        }
        result
    }

    /// Sets the status flags of the tournament under `game_id` by hand and
    /// puts its round back to 0.
    ///
    /// Refused with `NotFound` where no such tournament exists, else with
    /// `Unauthorized` unless `caller` is the creator, else with
    /// `TournamentEnded` once the tournament is over.
    pub fn update_game_status(
        &mut self,
        game_id: u32,
        is_start: bool,
        is_end: bool,
        caller: AccountId,
    ) -> (result: Result<(), TournamentError>)
        requires
            old(self)@.wf(),
        ensures
            match result {
                Ok(()) => update_game_status_error(old(self)@, game_id as nat, caller) is None
                    && final(self)@ == old(self)@.with_game(
                    game_id as nat,
                    status_next(old(self)@.games[game_id as int], is_start, is_end),
                ),
                Err(e) => update_game_status_error(old(self)@, game_id as nat, caller) == Some(e)
                    && final(self)@ == old(self)@,
            },
            final(self)@.wf(),
    {
        if game_id >= self.counter {
            return Err(TournamentError::NotFound);
        }
        if !same_account(&caller, &self.tournament_creator) {
            return Err(TournamentError::Unauthorized);
        }
        let slot = game_id as usize;
        assert(self@.games[slot as int] == self.games@[slot as int]@);
        let result = self.games[slot].set_status(is_start, is_end);
        proof {
            match result {
                Ok(()) => {
                    assert(self@.games =~= old(self)@.games.update(
                        slot as int,
                        status_next(old(self)@.games[slot as int], is_start, is_end),
                    ));
                },
                Err(_) => {
                    assert(self@.games =~= old(self)@.games);
                },
            }
        }
        result
    }

    /// Says what the tournament under `game_id` owes to `caller`: its whole
    /// reward, if `caller` is the declared winner, the tournament is over and
    /// it has not paid out yet. The amount is what a transfer is to be tried
    /// with before `claim_reward` records how it went.
    pub fn reward_due(&self, game_id: u32, caller: AccountId) -> (result: Result<
        u128,
        TournamentError,
    >)
        ensures
            match result {
                Ok(amount) => claim_reward_error(self@, game_id as nat, caller) is None && amount
                    == self@.games[game_id as int].reward_pool,
                Err(e) => claim_reward_error(self@, game_id as nat, caller) == Some(e),
            },
    {
        if game_id as usize >= self.games.len() {
            return Err(TournamentError::NotFound);
        }
        self.games[game_id as usize].reward_due(caller)
    }

    /// Records the outcome of paying the reward of the tournament under
    /// `game_id` to `caller`.
    ///
    /// Refused with `NotFound` where no such tournament exists, else with
    /// `Unauthorized` unless `caller` is its declared winner, else with
    /// `TournamentNotEnded` while it is not over, else with `AlreadyClaimed`
    /// once it has paid out, else with `TransferFailed` where the transfer did
    /// not succeed. Only then is the reward marked as paid.
    pub fn claim_reward(&mut self, game_id: u32, caller: AccountId, transfer_succeeded: bool) -> (result:
        Result<(), TournamentError>)
        requires
            old(self)@.wf(),
        ensures
            match result {
                Ok(()) => claim_reward_error(old(self)@, game_id as nat, caller) is None
                    && transfer_succeeded && final(self)@ == old(self)@.with_game(
                    game_id as nat,
                    claim_next(old(self)@.games[game_id as int]),
                ),
                Err(e) => final(self)@ == old(self)@ && (match claim_reward_error(
                    old(self)@,
                    game_id as nat,
                    caller,
                ) {
                    Some(reason) => e == reason,
                    None => !transfer_succeeded && e == TournamentError::TransferFailed,
                }),
            },
            final(self)@.wf(),
    {
        if game_id >= self.counter {
            return Err(TournamentError::NotFound);
        }
        let slot = game_id as usize;
        assert(self@.games[slot as int] == self.games@[slot as int]@);
        let result = self.games[slot].claim_reward(caller, transfer_succeeded);
        proof {
            match result {
                Ok(()) => {
                    assert(self@.games =~= old(self)@.games.update(
                        slot as int,
                        claim_next(old(self)@.games[slot as int]),
                    ));
                },
                Err(_) => {
                    assert(self@.games =~= old(self)@.games);
                },
            }
        }
        result
    }

    /// A copy of the record of the tournament under `game_id`.
    ///
    /// Refused with `NotFound` where no such tournament exists.
    pub fn get_game_detail(&self, game_id: u32) -> (result: Result<GameDetail, TournamentError>)
        ensures
            match result {
                Ok(game) => self@.has_game(game_id as nat) && game@ == self@.games[game_id as int],
                Err(e) => !self@.has_game(game_id as nat) && e == TournamentError::NotFound,
            },
    {
        if game_id as usize >= self.games.len() {
            return Err(TournamentError::NotFound);
        }
        Ok(self.games[game_id as usize].clone())
    }

    /// The players of the tournament under `game_id`, in the order in which
    /// they registered.
    ///
    /// Refused with `NotFound` where no such tournament exists.
    pub fn get_game_players(&self, game_id: u32) -> (result: Result<Vec<Player>, TournamentError>)
        ensures
            match result {
                Ok(players) => self@.has_game(game_id as nat) && players@
                    == self@.games[game_id as int].players,
                Err(e) => !self@.has_game(game_id as nat) && e == TournamentError::NotFound,
            },
    {
        match self.get_game_detail(game_id) {
            Ok(game) => Ok(game.players),
            Err(e) => Err(e),
        }
    }

    /// A copy of the record of the tournament under `index`, as
    /// `get_game_detail` gives it.
    pub fn get_tournament_detail(&self, index: u32) -> (result: Result<
        GameDetail,
        TournamentError,
    >)
        ensures
            match result {
                Ok(game) => self@.has_game(index as nat) && game@ == self@.games[index as int],
                Err(e) => !self@.has_game(index as nat) && e == TournamentError::NotFound,
            },
    {
        self.get_game_detail(index)
    }
}

} // verus!

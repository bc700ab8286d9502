//! What holds of every tournament, proved over the model of its transitions.

use vstd::prelude::*;
use crate::player::{
    count_losers, distinct_accounts, fresh_player, knocked_out, lemma_losers_bounded, lemma_losers_push,
    lemma_losers_update, lemma_registered_has_position, position_of, promoted, registered,
};
use crate::error::TournamentError;
use crate::registry::{update_winner_error, RegistryState};
use crate::state::{
    claim_error, claim_next, loser_of, opened, players_after_report, register_error,
    register_next, report_error, report_next, status_error, status_next, GameState,
};
use ink::primitives::AccountId;

verus! {

/// A newly opened tournament is well formed.
pub proof fn opened_is_well_formed(capacity: nat, reward_pool: nat)
    requires
        capacity <= u32::MAX,
    ensures
        opened(capacity, reward_pool).wf(),
{
}

/// An accepted registration keeps the tournament well formed: the players
/// never outnumber the slots, and no account holds two of them.
pub proof fn registration_keeps_well_formed(g: GameState, account: AccountId)
    requires
        g.wf(),
        register_error(g, account) is None,
    ensures
        register_next(g, account).wf(),
        register_next(g, account).players.len() == g.players.len() + 1,
        register_next(g, account).players.len() <= g.capacity,
        distinct_accounts(register_next(g, account).players),
{
    let next = register_next(g, account);
    lemma_losers_push(g.players, fresh_player(account));
    assert forall|i: int, j: int| 0 <= i < j < next.players.len() implies (
    #[trigger] next.players[i]).player != (#[trigger] next.players[j]).player by {
        if j == g.players.len() {
            assert(g.players[i].player != account);
        } else {
            assert(g.players[i].player != g.players[j].player);
        }
    }
    if g.winner is Some {
        let k = choose|k: int|
            0 <= k < g.players.len() && (#[trigger] g.players[k]).player == g.winner->0;
        assert(next.players[k].player == g.winner->0);
    }
    assert forall|i: int| 0 <= i < next.players.len() implies (
    #[trigger] next.players[i]).score <= count_losers(next.players) by {
        if i < g.players.len() {
            assert(next.players[i] == g.players[i]);
        }
    }
}

/// A registration only appends: every player who was registered before keeps
/// their slot and their record.
pub proof fn registration_only_appends(g: GameState, account: AccountId, i: int)
    requires
        0 <= i < g.players.len(),
    ensures
        register_next(g, account).players[i] == g.players[i],
        register_next(g, account).players.last() == fresh_player(account),
        register_next(g, account).started == g.started,
        register_next(g, account).ended == g.ended,
        register_next(g, account).claimed == g.claimed,
        register_next(g, account).round == g.round,
        register_next(g, account).winner == g.winner,
        register_next(g, account).capacity == g.capacity,
        register_next(g, account).reward_pool == g.reward_pool,
{
}

/// A change of the status flags keeps the tournament well formed.
pub proof fn status_keeps_well_formed(g: GameState, started: bool, ended: bool)
    requires
        g.wf(),
        status_error(g) is None,
    ensures
        status_next(g, started, ended).wf(),
{
}

/// A settled claim keeps the tournament well formed.
pub proof fn claim_keeps_well_formed(g: GameState, caller: AccountId)
    requires
        g.wf(),
        claim_error(g, caller) is None,
    ensures
        claim_next(g).wf(),
{
}

/// An accepted match report keeps the tournament well formed. It adds exactly
/// one player to those who have lost, and the winner's score and the round
/// stay within what a `u32` holds.
pub proof fn report_keeps_well_formed(
    g: GameState,
    player_a: AccountId,
    player_b: AccountId,
    winner: AccountId,
)
    requires
        g.wf(),
        report_error(g, player_a, player_b, winner) is None,
    ensures
        report_next(g, player_a, player_b, winner).wf(),
        count_losers(players_after_report(g.players, player_a, player_b, winner))
            == count_losers(g.players) + 1,
        g.players[position_of(g.players, winner)].score < u32::MAX,
        g.round < u32::MAX,
{
    let loser = loser_of(player_a, player_b, winner);
    lemma_registered_has_position(g.players, player_a);
    lemma_registered_has_position(g.players, player_b);
    let iw = position_of(g.players, winner);
    let il = position_of(g.players, loser);
    let first = g.players.update(iw, promoted(g.players[iw]));
    let after = first.update(il, knocked_out(g.players[il]));
    assert(after == players_after_report(g.players, player_a, player_b, winner));
    lemma_losers_update(g.players, iw, promoted(g.players[iw]));
    lemma_losers_update(first, il, knocked_out(g.players[il]));
    lemma_losers_bounded(after);
    assert(count_losers(after) == count_losers(g.players) + 1);
    assert forall|i: int| 0 <= i < after.len() implies (#[trigger] after[i]).player
        == g.players[i].player && after[i].score <= count_losers(after) by {
        assert(g.players[i].score <= count_losers(g.players));
    }
    assert forall|i: int, j: int| 0 <= i < j < after.len() implies (#[trigger] after[i]).player
        != (#[trigger] after[j]).player by {
        assert(after[i].player == g.players[i].player);
        assert(after[j].player == g.players[j].player);
        assert(g.players[i].player != g.players[j].player);
    }
    assert(after[iw].player == winner);
    assert(registered(after, winner));
    assert(g.players[iw].score <= count_losers(g.players));
}

/// A match report changes the record of no player but the two it names, and
/// it neither adds nor removes a player.
pub proof fn report_touches_only_named_players(
    g: GameState,
    player_a: AccountId,
    player_b: AccountId,
    winner: AccountId,
    i: int,
)
    requires
        report_error(g, player_a, player_b, winner) is None,
        0 <= i < g.players.len(),
        g.players[i].player != player_a,
        g.players[i].player != player_b,
    ensures
        report_next(g, player_a, player_b, winner).players.len() == g.players.len(),
        report_next(g, player_a, player_b, winner).players[i] == g.players[i],
{
    lemma_registered_has_position(g.players, player_a);
    lemma_registered_has_position(g.players, player_b);
}

/// A match report changes no player's account: every slot stays with the
/// account that registered for it.
pub proof fn report_keeps_accounts(
    g: GameState,
    player_a: AccountId,
    player_b: AccountId,
    winner: AccountId,
    i: int,
)
    requires
        report_error(g, player_a, player_b, winner) is None,
        0 <= i < g.players.len(),
    ensures
        report_next(g, player_a, player_b, winner).players[i].player == g.players[i].player,
{
    lemma_registered_has_position(g.players, player_a);
    lemma_registered_has_position(g.players, player_b);
}

/// After an accepted report of a match between two different players, the
/// winner has exactly one more win and has not lost, and the other player has
/// lost with the wins they had. If the report concludes the tournament, the
/// declared winner is the match's winner.
pub proof fn report_settles_the_match(
    g: GameState,
    player_a: AccountId,
    player_b: AccountId,
    winner: AccountId,
)
    requires
        g.wf(),
        report_error(g, player_a, player_b, winner) is None,
        player_a != player_b,
    ensures
        ({
            let next = report_next(g, player_a, player_b, winner);
            let iw = position_of(g.players, winner);
            let il = position_of(g.players, loser_of(player_a, player_b, winner));
            &&& iw != il
            &&& next.players[iw].player == winner
            &&& next.players[iw].score == g.players[iw].score + 1
            &&& !next.players[iw].is_loss
            &&& next.players[il].player == loser_of(player_a, player_b, winner)
            &&& next.players[il].score == g.players[il].score
            &&& next.players[il].is_loss
            &&& next.ended ==> next.winner == Some(winner)
            &&& !next.ended ==> next.winner is None
        }),
{
    lemma_registered_has_position(g.players, player_a);
    lemma_registered_has_position(g.players, player_b);
    report_keeps_well_formed(g, player_a, player_b, winner);
}

/// A player who has lost keeps their record through every later report.
pub proof fn eliminated_players_are_frozen(
    g: GameState,
    player_a: AccountId,
    player_b: AccountId,
    winner: AccountId,
    i: int,
)
    requires
        g.wf(),
        report_error(g, player_a, player_b, winner) is None,
        0 <= i < g.players.len(),
        g.players[i].is_loss,
    ensures
        report_next(g, player_a, player_b, winner).players[i] == g.players[i],
{
    lemma_registered_has_position(g.players, player_a);
    lemma_registered_has_position(g.players, player_b);
    let ia = position_of(g.players, player_a);
    let ib = position_of(g.players, player_b);
    if g.players[i].player == player_a {
        assert(i == ia) by {
            if i < ia {
                assert(g.players[i].player != g.players[ia].player);
            } else if ia < i {
                assert(g.players[ia].player != g.players[i].player);
            }
        }
    }
    if g.players[i].player == player_b {
        assert(i == ib) by {
            if i < ib {
                assert(g.players[i].player != g.players[ib].player);
            } else if ib < i {
                assert(g.players[ib].player != g.players[i].player);
            }
        }
    }
    report_touches_only_named_players(g, player_a, player_b, winner, i);
}

/// No match report takes a win away from any player.
pub proof fn scores_never_fall(
    g: GameState,
    player_a: AccountId,
    player_b: AccountId,
    winner: AccountId,
    i: int,
)
    requires
        g.wf(),
        report_error(g, player_a, player_b, winner) is None,
        0 <= i < g.players.len(),
    ensures
        report_next(g, player_a, player_b, winner).players[i].score >= g.players[i].score,
{
    lemma_registered_has_position(g.players, player_a);
    lemma_registered_has_position(g.players, player_b);
    report_keeps_well_formed(g, player_a, player_b, winner);
}

/// Once a tournament is over, every match report is refused with
/// `TournamentEnded`, whoever the players are.
pub proof fn ended_refuses_reports(
    g: GameState,
    player_a: AccountId,
    player_b: AccountId,
    winner: AccountId,
)
    requires
        g.ended,
    ensures
        report_error(g, player_a, player_b, winner) == Some(TournamentError::TournamentEnded),
{
}

/// A tournament that is over stays over: its status can no longer be set, and
/// neither a registration nor a claim takes the flag down.
pub proof fn ended_is_final(g: GameState, account: AccountId)
    requires
        g.ended,
    ensures
        status_error(g) == Some(TournamentError::TournamentEnded),
        register_next(g, account).ended,
        claim_next(g).ended,
{
}

/// A settled claim marks the reward as paid and leaves the reward, the
/// winner, the players and the other flags as they were. After it every claim
/// is refused, the winner's own with `AlreadyClaimed`.
pub proof fn claim_settles_once(g: GameState, caller: AccountId, later: AccountId)
    requires
        claim_error(g, caller) is None,
    ensures
        claim_next(g).claimed,
        claim_next(g).reward_pool == g.reward_pool,
        claim_next(g).winner == g.winner,
        claim_next(g).ended == g.ended,
        claim_next(g).started == g.started,
        claim_next(g).round == g.round,
        claim_next(g).players == g.players,
        claim_next(g).capacity == g.capacity,
        claim_error(claim_next(g), later) is Some,
        claim_error(claim_next(g), caller) == Some(TournamentError::AlreadyClaimed),
{
}

/// A reward that was paid stays paid: in a well-formed tournament the flag
/// can only stand once the tournament is over, so no report and no change of
/// status is accepted any more, and a registration leaves the flag alone.
pub proof fn paid_out_is_final(
    g: GameState,
    player_a: AccountId,
    player_b: AccountId,
    winner: AccountId,
    account: AccountId,
)
    requires
        g.wf(),
        g.claimed,
    ensures
        report_error(g, player_a, player_b, winner) == Some(TournamentError::TournamentEnded),
        status_error(g) == Some(TournamentError::TournamentEnded),
        register_next(g, account).claimed,
        claim_error(g, account) is Some,
{
}

/// Only the declared winner of a tournament can be owed its reward, and only
/// once the tournament is over.
pub proof fn only_the_winner_is_owed(g: GameState, caller: AccountId)
    requires
        claim_error(g, caller) is None,
    ensures
        g.winner == Some(caller),
        g.ended,
        !g.claimed,
{
}

/// Once a tournament of the registry is over, no report for it is accepted:
/// from the creator it is refused with `TournamentEnded`, from anyone else
/// with `Unauthorized`.
pub proof fn ended_tournament_refuses_reports(
    t: RegistryState,
    game_id: nat,
    player_a: AccountId,
    player_b: AccountId,
    winner: AccountId,
    caller: AccountId,
)
    requires
        t.has_game(game_id),
        t.games[game_id as int].ended,
    ensures
        update_winner_error(t, game_id, player_a, player_b, winner, caller) == Some(
            if caller == t.creator {
                TournamentError::TournamentEnded
            } else {
                TournamentError::Unauthorized
            },
        ),
{
}

/// An operation on one tournament of the registry leaves every other
/// tournament, the counter and the creator as they were.
pub proof fn other_tournaments_are_untouched(
    t: RegistryState,
    game_id: nat,
    game: GameState,
    other: nat,
)
    requires
        t.has_game(game_id),
        t.has_game(other),
        other != game_id,
    ensures
        t.with_game(game_id, game).games[other as int] == t.games[other as int],
        t.with_game(game_id, game).games[game_id as int] == game,
        t.with_game(game_id, game).games.len() == t.games.len(),
        t.with_game(game_id, game).counter == t.counter,
        t.with_game(game_id, game).creator == t.creator,
{
}

} // verus!

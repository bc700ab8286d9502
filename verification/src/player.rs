//! Player records and the questions asked of a list of them.

use vstd::prelude::*;
use crate::account::same_account;
use ink::primitives::AccountId;

verus! {

/// One participant's standing in one tournament.
#[derive(Clone, Copy, Debug)]
pub struct Player {
    /// Who the participant is; unique within a tournament.
    pub player: AccountId,
    /// Matches won so far.
    pub score: u32,
    /// Whether the participant is still eligible to play.
    pub active: bool,
    /// Whether the participant has lost a match.
    pub is_loss: bool,
}

/// The record a participant starts with.
pub open spec fn fresh_player(account: AccountId) -> Player {
    Player { player: account, score: 0, active: true, is_loss: false }
}

/// The record of a participant after winning one more match.
pub open spec fn promoted(p: Player) -> Player {
    Player { player: p.player, score: (p.score + 1) as u32, active: p.active, is_loss: false }
}

/// The record of a participant after losing a match.
pub open spec fn knocked_out(p: Player) -> Player {
    Player { player: p.player, score: p.score, active: p.active, is_loss: true }
}

/// Whether `account` holds a slot in `players`.
pub open spec fn registered(players: Seq<Player>, account: AccountId) -> bool {
    exists|i: int| 0 <= i < players.len() && (#[trigger] players[i]).player == account
}

/// Whether `i` is the first slot of `players` held by `account`.
pub open spec fn is_first_position(players: Seq<Player>, account: AccountId, i: int) -> bool {
    &&& 0 <= i < players.len()
    &&& players[i].player == account
    &&& forall|j: int| 0 <= j < i ==> (#[trigger] players[j]).player != account
}

/// The first slot of `players` held by `account`, meaningful when the account
/// is registered.
pub open spec fn position_of(players: Seq<Player>, account: AccountId) -> int {
    choose|i: int| is_first_position(players, account, i)
}

/// Whether no account holds two slots of `players`.
pub open spec fn distinct_accounts(players: Seq<Player>) -> bool {
    forall|i: int, j: int|
        0 <= i < j < players.len() ==> (#[trigger] players[i]).player != (
        #[trigger] players[j]).player
}

/// How many of `players` have lost a match.
pub open spec fn count_losers(players: Seq<Player>) -> nat
    decreases players.len(),
{
    if players.len() == 0 {
        0
    } else {
        count_losers(players.drop_last()) + if players.last().is_loss {
            1nat
        } else {
            0nat
        }
    }
}

/// How many of `players` have won more than `round` matches.
pub open spec fn count_advanced(players: Seq<Player>, round: nat) -> nat
    decreases players.len(),
{
    if players.len() == 0 {
        0
    } else {
        count_advanced(players.drop_last(), round) + if players.last().score > round {
            1nat
        } else {
            0nat
        }
    }
}

/// A first position, once found, is the position of the account.
pub proof fn lemma_position_unique(players: Seq<Player>, account: AccountId, i: int)
    requires
        is_first_position(players, account, i),
    ensures
        position_of(players, account) == i,
        registered(players, account),
{
    let k = position_of(players, account);
    assert(is_first_position(players, account, k));
    if k < i {
        assert(players[k].player == account);
    } else if i < k {
        assert(players[i].player == account);
    }
}

/// A registered account has a first position.
pub proof fn lemma_registered_has_position(players: Seq<Player>, account: AccountId)
    requires
        registered(players, account),
    ensures
        is_first_position(players, account, position_of(players, account)),
    decreases players.len(),
{
    let w = choose|i: int| 0 <= i < players.len() && (#[trigger] players[i]).player == account;
    lemma_first_below(players, account, w);
}

/// Below any slot held by `account` lies a first one.
proof fn lemma_first_below(players: Seq<Player>, account: AccountId, w: int)
    requires
        0 <= w < players.len(),
        players[w].player == account,
    ensures
        exists|i: int| is_first_position(players, account, i),
    decreases w,
{
    if exists|j: int| 0 <= j < w && (#[trigger] players[j]).player == account {
        let j = choose|j: int| 0 <= j < w && (#[trigger] players[j]).player == account;
        lemma_first_below(players, account, j);
    } else {
        assert(is_first_position(players, account, w));
    }
}

/// No more players have lost than there are players.
pub proof fn lemma_losers_bounded(players: Seq<Player>)
    ensures
        count_losers(players) <= players.len(),
    decreases players.len(),
{
    if players.len() > 0 {
        lemma_losers_bounded(players.drop_last());
    }
}

/// Appending a record adds it to the count of losers if it is one.
pub proof fn lemma_losers_push(players: Seq<Player>, p: Player)
    ensures
        count_losers(players.push(p)) == count_losers(players) + if p.is_loss {
            1nat
        } else {
            0nat
        },
{
    assert(players.push(p).drop_last() =~= players);
}

/// Replacing one record changes the count of losers by what that record
/// contributes.
pub proof fn lemma_losers_update(players: Seq<Player>, i: int, p: Player)
    requires
        0 <= i < players.len(),
    ensures
        count_losers(players.update(i, p)) + (if players[i].is_loss {
            1nat
        } else {
            0nat
        }) == count_losers(players) + if p.is_loss {
            1nat
        } else {
            0nat
        },
    decreases players.len(),
{
    let updated = players.update(i, p);
    if i == players.len() - 1 {
        assert(updated.drop_last() =~= players.drop_last());
    } else {
        assert(updated.drop_last() =~= players.drop_last().update(i, p));
        lemma_losers_update(players.drop_last(), i, p);
    }
}

/// Appending a record adds it to the count of advanced players if it is one.
pub proof fn lemma_advanced_push(players: Seq<Player>, p: Player, round: nat)
    ensures
        count_advanced(players.push(p), round) == count_advanced(players, round) + if p.score
            > round {
            1nat
        } else {
            0nat
        },
{
    assert(players.push(p).drop_last() =~= players);
}

/// Looks `account` up in `players` and returns the first slot it holds.
pub fn find_player(players: &Vec<Player>, account: &AccountId) -> (found: Option<usize>)
    ensures
        match found {
            Some(i) => is_first_position(players@, *account, i as int) && i as int == position_of(
                players@,
                *account,
            ),
            None => !registered(players@, *account),
        },
        found is Some <==> registered(players@, *account),
{
    let mut i: usize = 0;
    while i < players.len()
        invariant
            i <= players.len(),
            forall|j: int| 0 <= j < i ==> (#[trigger] players@[j]).player != *account,
        decreases players.len() - i,
    {
        if same_account(&players[i].player, account) {
            proof {
                lemma_position_unique(players@, *account, i as int);
            }
            return Some(i);
        }
        i += 1;
    }
    None
}

/// Counts the players who have won more than `round` matches.
pub fn advanced_players(players: &Vec<Player>, round: u32) -> (count: usize)
    ensures
        count as nat == count_advanced(players@, round as nat),
{
    let mut count: usize = 0;
    let mut i: usize = 0;
    while i < players.len()
        invariant
            i <= players.len(),
            count <= i,
            count as nat == count_advanced(players@.take(i as int), round as nat),
        decreases players.len() - i,
    {
        proof {
            assert(players@.take(i + 1) =~= players@.take(i as int).push(players@[i as int]));
            lemma_advanced_push(players@.take(i as int), players@[i as int], round as nat);
        }
        if players[i].score > round {
            count += 1;
        }
        i += 1;
    }
    proof {
        assert(players@.take(i as int) =~= players@);
    }
    count
}

/// Counts the players who have lost a match.
pub fn lost_players(players: &Vec<Player>) -> (count: usize)
    ensures
        count as nat == count_losers(players@),
{
    let mut count: usize = 0;
    let mut i: usize = 0;
    while i < players.len()
        invariant
            i <= players.len(),
            count <= i,
            count as nat == count_losers(players@.take(i as int)),
        decreases players.len() - i,
    {
        proof {
            assert(players@.take(i + 1) =~= players@.take(i as int).push(players@[i as int]));
            lemma_losers_push(players@.take(i as int), players@[i as int]);
        }
        if players[i].is_loss {
            count += 1;
        }
        i += 1;
    }
    proof {
        assert(players@.take(i as int) =~= players@);
    }
    count
}

/// Tells whether no account holds two slots of `players`.
pub fn have_distinct_accounts(players: &Vec<Player>) -> (distinct: bool)
    ensures
        distinct == distinct_accounts(players@),
{
    let mut j: usize = 0;
    while j < players.len()
        invariant
            j <= players.len(),
            forall|a: int, b: int|
                0 <= a < b < j ==> (#[trigger] players@[a]).player != (
                #[trigger] players@[b]).player,
        decreases players.len() - j,
    {
        let mut i: usize = 0;
        while i < j
            invariant
                i <= j < players.len(),
                forall|a: int| 0 <= a < i ==> (#[trigger] players@[a]).player != players@[j as int].player,
            decreases j - i,
        {
            if same_account(&players[i].player, &players[j].player) {
                assert(players@[i as int].player == players@[j as int].player);
                return false;
            }
            i += 1;
        }
        j += 1;
    }
    true
}

} // verus!

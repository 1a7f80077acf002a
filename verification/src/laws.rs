//! What holds of every table that the rules can reach: chips are neither
//! made nor lost, the turn rests on a seat that still plays, and an action
//! that is turned down leaves the table as it was.

use crate::action::{Action, ActionErrorCode};
use crate::player::PlayerView;
use crate::rules::{
    active_count, bets, has_active, has_two_active, moneys, next_turn, seat_after, settle,
    steps_to_active, total_bets, total_money, LobbyView,
};
use crate::sums::{lemma_sum_bounds, lemma_sum_push, lemma_sum_remove, lemma_sum_update};
use vstd::prelude::*;

verus! {

/// The search for the next seat that has not folded either finds the
/// nearest one, or has seen that every seat it looked at has folded.
pub proof fn lemma_steps_to_active(players: Seq<PlayerView>, turn: int, k: int)
    requires
        0 <= turn < players.len(),
        1 <= k <= players.len() + 1,
    ensures
        ({
            let n = players.len() as int;
            let r = steps_to_active(players, turn, k);
            if r == 0 {
                forall|j: int| k <= j <= n ==> (#[trigger] players[seat_after(n, turn, j)]).is_folded
            } else {
                &&& k <= r <= n
                &&& !players[seat_after(n, turn, r)].is_folded
                &&& forall|j: int|
                    k <= j < r ==> (#[trigger] players[seat_after(n, turn, j)]).is_folded
            }
        }),
    decreases players.len() + 1 - k,
{
    let n = players.len() as int;
    if k <= n && players[seat_after(n, turn, k)].is_folded {
        lemma_steps_to_active(players, turn, k + 1);
    }
}

/// The next turn is a seat of the table. It has not folded if any seat has
/// not, every seat passed over on the way has folded, and the turn stays
/// where it is if all have folded.
pub proof fn lemma_next_turn(players: Seq<PlayerView>, turn: int)
    requires
        0 <= turn < players.len(),
    ensures
        0 <= next_turn(players, turn) < players.len(),
        has_active(players) ==> !players[next_turn(players, turn)].is_folded,
        !has_active(players) ==> next_turn(players, turn) == turn,
        forall|j: int|
            1 <= j < steps_to_active(players, turn, 1) ==> (#[trigger] players[seat_after(
                players.len() as int,
                turn,
                j,
            )]).is_folded,
{
    let n = players.len() as int;
    let r = steps_to_active(players, turn, 1);
    lemma_steps_to_active(players, turn, 1);
    if r == 0 {
        assert forall|i: int| 0 <= i < n implies (#[trigger] players[i]).is_folded by {
            let j = if i > turn {
                i - turn
            } else {
                i - turn + n
            };
            assert(seat_after(n, turn, j) == i);
        }
    }
}

/// Where the turn settles is a seat of the table, and one that has not
/// folded if any seat has not.
pub proof fn lemma_settle(players: Seq<PlayerView>, turn: int)
    requires
        0 <= turn < players.len(),
    ensures
        0 <= settle(players, turn) < players.len(),
        has_active(players) ==> !players[settle(players, turn)].is_folded,
        !players[turn].is_folded ==> settle(players, turn) == turn,
{
    lemma_next_turn(players, turn);
}

/// Counting the seats that have not folded gives more than none exactly
/// where there is such a seat, and never more than there are seats.
pub proof fn lemma_active_count(players: Seq<PlayerView>)
    ensures
        active_count(players) <= players.len(),
        active_count(players) > 0 <==> has_active(players),
    decreases players.len(),
{
    if players.len() > 0 {
        let rest = players.drop_last();
        lemma_active_count(rest);
        if has_active(players) {
            let i = choose|i: int| 0 <= i < players.len() && !(#[trigger] players[i]).is_folded;
            if i < players.len() - 1 {
                assert(!rest[i].is_folded);
            }
        }
    }
}

/// Two different seats that have not folded count for two.
pub proof fn lemma_two_active(players: Seq<PlayerView>, i: int, j: int)
    requires
        0 <= i < j < players.len(),
        !players[i].is_folded,
        !players[j].is_folded,
    ensures
        active_count(players) >= 2,
    decreases players.len(),
{
    let rest = players.drop_last();
    if j == players.len() - 1 {
        assert(!rest[i].is_folded);
        lemma_active_count(rest);
    } else {
        lemma_two_active(rest, i, j);
    }
}

/// Where one seat alone has not folded, the hand is over and the turn goes
/// to that seat from wherever it was: the search ends and does not go round
/// the table again.
pub proof fn lemma_last_seat_standing(players: Seq<PlayerView>, turn: int, last: int)
    requires
        0 <= turn < players.len(),
        0 <= last < players.len(),
        !players[last].is_folded,
        forall|i: int| 0 <= i < players.len() && i != last ==> (#[trigger] players[i]).is_folded,
    ensures
        active_count(players) == 1,
        next_turn(players, turn) == last,
        settle(players, turn) == last,
{
    lemma_next_turn(players, turn);
    lemma_active_count(players);
    if active_count(players) >= 2 {
        lemma_two_has_other(players, last);
    }
}

/// Where two or more seats have not folded, each seat has another beside
/// it that has not folded.
pub proof fn lemma_two_has_other(players: Seq<PlayerView>, i: int)
    requires
        0 <= i < players.len(),
        active_count(players) >= 2,
    ensures
        exists|j: int| 0 <= j < players.len() && j != i && !(#[trigger] players[j]).is_folded,
    decreases players.len(),
{
    let rest = players.drop_last();
    let m = players.len() - 1;
    if i == m {
        lemma_active_count(rest);
    } else if players[m].is_folded {
        lemma_two_has_other(rest, i);
    }
}

/// Counting the seats that have not folded gives two or more exactly
/// where two such seats can be named.
pub proof fn lemma_two_active_count(players: Seq<PlayerView>)
    ensures
        active_count(players) >= 2 <==> has_two_active(players),
{
    if has_two_active(players) {
        let (i, j) = choose|i: int, j: int|
            0 <= i < j < players.len() && !(#[trigger] players[i]).is_folded && !(
            #[trigger] players[j]).is_folded;
        lemma_two_active(players, i, j);
    }
    if active_count(players) >= 2 {
        lemma_active_count(players);
        let i = choose|i: int| 0 <= i < players.len() && !(#[trigger] players[i]).is_folded;
        lemma_two_has_other(players, i);
        let j = choose|j: int|
            0 <= j < players.len() && j != i && !(#[trigger] players[j]).is_folded;
        if i < j {
            assert(!players[i].is_folded && !players[j].is_folded);
        } else {
            assert(!players[j].is_folded && !players[i].is_folded);
        }
    }
}

/// At a table held to its rules, no stack exceeds the chips in front of
/// the players and no stake exceeds the stakes of the round.
pub proof fn lemma_seat_bounds(l: LobbyView, i: int)
    requires
        l.wf(),
        0 <= i < l.players.len(),
    ensures
        0 <= l.players[i].money <= total_money(l.players),
        0 <= l.players[i].bet_this_turn <= total_bets(l.players),
        total_money(l.players) >= 0,
        total_bets(l.players) >= 0,
{
    lemma_sum_bounds(moneys(l.players));
    lemma_sum_bounds(bets(l.players));
    assert(moneys(l.players)[i] == l.players[i].money);
    assert(bets(l.players)[i] == l.players[i].bet_this_turn);
}

/// Replacing one seat moves the two totals by what that seat gained.
pub proof fn lemma_totals_update(players: Seq<PlayerView>, i: int, p: PlayerView)
    requires
        0 <= i < players.len(),
    ensures
        total_money(players.update(i, p)) == total_money(players) - players[i].money + p.money,
        total_bets(players.update(i, p)) == total_bets(players) - players[i].bet_this_turn
            + p.bet_this_turn,
{
    lemma_sum_update(moneys(players), i, p.money as int);
    lemma_sum_update(bets(players), i, p.bet_this_turn as int);
    assert(moneys(players.update(i, p)) =~= moneys(players).update(i, p.money as int));
    assert(bets(players.update(i, p)) =~= bets(players).update(i, p.bet_this_turn as int));
}

/// An accepted action leaves the table held to its rules. It moves chips
/// from the stack of the seat at the turn to the pot and nowhere else, so
/// all chips together stay what they were; the pot and the highest stake
/// do not fall, and nobody comes or goes.
pub proof fn lemma_after(l: LobbyView, action: Action)
    requires
        l.wf(),
        l.players.len() > 0,
        l.verdict(action) is None,
    ensures
        l.after(action).wf(),
        l.after(action).chips() == l.chips(),
        l.after(action).pot >= l.pot,
        l.after(action).current_bet >= l.current_bet,
        l.after(action).players.len() == l.players.len(),
        l.after(action).deck == l.deck,
        l.after(action).turn == next_turn(l.acted(action).players, l.turn as int),
        has_active(l.after(action).players) ==> !l.after(action).actor().is_folded,
{
    let t = l.turn as int;
    let s = l.acted(action);
    lemma_seat_bounds(l, t);
    lemma_totals_update(l.players, t, s.players[t]);
    lemma_next_turn(s.players, t);
}

/// Asking an action of a table, accepted or not, leaves it held to its
/// rules with the same chips and the same seats.
pub proof fn lemma_step(l: LobbyView, action: Action)
    requires
        l.wf(),
        l.players.len() > 0,
    ensures
        l.step(action).wf(),
        l.step(action).chips() == l.chips(),
        l.step(action).players.len() == l.players.len(),
        l.step(action).pot >= l.pot,
        l.step(action).current_bet >= l.current_bet,
{
    if l.verdict(action) is None {
        lemma_after(l, action);
    }
}

/// Conservation. Whatever actions are asked of a table, in whatever order,
/// the stacks and the pot together hold the chips that were there at the
/// start: none is made and none is lost. The table stays held to its rules
/// throughout, and the pot never falls.
pub proof fn lemma_chips_are_conserved(l: LobbyView, actions: Seq<Action>)
    requires
        l.wf(),
        l.players.len() > 0,
    ensures
        l.run(actions).chips() == l.chips(),
        l.run(actions).wf(),
        l.run(actions).players.len() == l.players.len(),
        l.run(actions).pot >= l.pot,
        l.run(actions).current_bet >= l.current_bet,
    decreases actions.len(),
{
    if actions.len() > 0 {
        lemma_chips_are_conserved(l, actions.drop_last());
        lemma_step(l.run(actions.drop_last()), actions.last());
    }
}

/// Turn validity. At a table held to its rules where two or more seats
/// have not folded, the seat whose turn it is has not folded.
pub proof fn lemma_turn_is_on_active_seat(l: LobbyView)
    requires
        l.wf(),
        active_count(l.players) >= 2,
    ensures
        l.turn < l.players.len(),
        !l.actor().is_folded,
{
    lemma_two_active_count(l.players);
}

/// Turn validity along a game. Whatever actions are asked of a table, if
/// two or more seats have not folded afterwards, the turn is on one of them.
pub proof fn lemma_turn_stays_on_active_seat(l: LobbyView, actions: Seq<Action>)
    requires
        l.wf(),
        l.players.len() > 0,
        active_count(l.run(actions).players) >= 2,
    ensures
        !l.run(actions).actor().is_folded,
{
    lemma_chips_are_conserved(l, actions);
    lemma_turn_is_on_active_seat(l.run(actions));
}

/// Raise floor. A raise that leaves the stake of the seat at the turn under
/// the highest stake is turned down and the table stays as it was. The
/// reason given is that the raise falls short, unless the stack does not
/// even cover the amount: that is found first.
pub proof fn lemma_raise_floor(l: LobbyView, amount: i32)
    requires
        l.turn < l.players.len(),
        amount + l.actor().bet_this_turn < l.current_bet,
    ensures
        l.verdict(Action::Raise(amount)) is Some,
        l.actor().money >= amount ==> l.verdict(Action::Raise(amount)) == Some(
            ActionErrorCode::MustRaiseToCurrentBet,
        ),
        l.step(Action::Raise(amount)) == l,
{
}

/// Call floor. A call by a seat whose stack does not cover what is missing
/// to the highest stake is turned down for want of money, and the table
/// stays as it was.
pub proof fn lemma_call_floor(l: LobbyView)
    requires
        l.turn < l.players.len(),
        l.actor().money < l.current_bet - l.actor().bet_this_turn,
    ensures
        l.verdict(Action::Call) == Some(ActionErrorCode::NotEnoughMoney),
        l.step(Action::Call) == l,
{
}

/// Seating a player that the table accepts leaves it held to its rules.
/// The newcomer takes the position after the last seat and brings their
/// stack to the table; every seat that was there, the pot, the highest
/// stake and the deck stay as they were. The turn stays where it is at an
/// empty table, where it rests on a seat that has not folded, where the
/// newcomer has folded, and where every seat has folded.
pub proof fn lemma_seated(l: LobbyView, p: PlayerView)
    requires
        l.wf(),
        l.accepts(p),
    ensures
        l.seated(p).wf(),
        l.seated(p).chips() == l.chips() + p.money,
        l.seated(p).players.len() == l.players.len() + 1,
        l.seated(p).players.last().position == l.players.len(),
        forall|i: int| 0 <= i < l.players.len() ==> l.seated(p).players[i] == l.players[i],
        l.seated(p).pot == l.pot,
        l.seated(p).current_bet == l.current_bet,
        l.seated(p).deck == l.deck,
        l.players.len() == 0 || !l.actor().is_folded || p.is_folded || !has_active(l.players)
            ==> l.seated(p).turn == l.turn,
{
    let q = PlayerView { position: l.players.len() as u8, ..p };
    let players = l.players.push(q);
    lemma_sum_push(moneys(l.players), p.money as int);
    lemma_sum_push(bets(l.players), p.bet_this_turn as int);
    assert(moneys(players) =~= moneys(l.players).push(p.money as int));
    assert(bets(players) =~= bets(l.players).push(p.bet_this_turn as int));
    lemma_next_turn(players, l.turn as int);
}

/// Taking a seat away leaves the table held to its rules. The stack of
/// that seat leaves with it; what it had staked stays in the pot.
pub proof fn lemma_without_seat(l: LobbyView, i: int)
    requires
        l.wf(),
        0 <= i < l.players.len(),
    ensures
        l.without_seat(i).wf(),
        l.without_seat(i).chips() == l.chips() - l.players[i].money,
        l.without_seat(i).players.len() == l.players.len() - 1,
        !l.without_seat(i).sits(l.players[i].client_id),
        i != l.turn ==> l.without_seat(i).actor().client_id == l.actor().client_id,
{
    let a = l.without_seat(i);
    lemma_seat_bounds(l, i);
    lemma_sum_remove(moneys(l.players), i);
    lemma_sum_remove(bets(l.players), i);
    assert(moneys(a.players) =~= moneys(l.players).remove(i));
    assert(bets(a.players) =~= bets(l.players).remove(i));
    if i == l.turn && a.players.len() > 0 {
        if l.turn < a.players.len() {
            lemma_settle(a.players, l.turn as int);
        } else {
            lemma_settle(a.players, 0);
        }
    }
}

/// Folding a seat, at its turn or out of it, leaves the table held to its
/// rules with the same chips.
pub proof fn lemma_with_folded_seat(l: LobbyView, i: int)
    requires
        l.wf(),
        0 <= i < l.players.len(),
    ensures
        l.with_folded_seat(i).wf(),
        l.with_folded_seat(i).chips() == l.chips(),
        l.with_folded_seat(i).players.len() == l.players.len(),
        l.with_folded_seat(i).players[i].is_folded,
        i != l.turn ==> l.with_folded_seat(i).turn == l.turn,
{
    let q = PlayerView { is_folded: true, ..l.players[i] };
    let a = l.with_folded_seat(i);
    lemma_totals_update(l.players, i, q);
    lemma_next_turn(a.players, l.turn as int);
}

} // verus!

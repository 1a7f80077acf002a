//! The rules of the betting table as mathematics: what a table is, which
//! actions it accepts, what an accepted action does, and whose turn is next.

use crate::action::{Action, ActionErrorCode};
use crate::card::Card;
use crate::player::PlayerView;
use crate::sums::sum;
use vstd::prelude::*;

verus! {

/// A table as plain values: the seats in order of position, the seat whose
/// turn it is, the deck, the pot, and the highest stake of the round.
pub struct LobbyView {
    pub players: Seq<PlayerView>,
    pub turn: u8,
    pub deck: Seq<Card>,
    pub pot: i32,
    pub current_bet: i32,
}

/// The stacks of the seats, in order.
pub open spec fn moneys(players: Seq<PlayerView>) -> Seq<int> {
    Seq::new(players.len(), |i: int| players[i].money as int)
}

/// What each seat has staked in the current round, in order.
pub open spec fn bets(players: Seq<PlayerView>) -> Seq<int> {
    Seq::new(players.len(), |i: int| players[i].bet_this_turn as int)
}

/// All chips that lie in front of the players.
pub open spec fn total_money(players: Seq<PlayerView>) -> int {
    sum(moneys(players))
}

/// All chips staked in the current round.
pub open spec fn total_bets(players: Seq<PlayerView>) -> int {
    sum(bets(players))
}

/// Whether any seat has not folded.
pub open spec fn has_active(players: Seq<PlayerView>) -> bool {
    exists|i: int| 0 <= i < players.len() && !(#[trigger] players[i]).is_folded
}

/// Whether two seats or more have not folded.
pub open spec fn has_two_active(players: Seq<PlayerView>) -> bool {
    exists|i: int, j: int|
        0 <= i < j < players.len() && !(#[trigger] players[i]).is_folded && !(
        #[trigger] players[j]).is_folded
}

/// How many seats have not folded.
pub open spec fn active_count(players: Seq<PlayerView>) -> nat
    decreases players.len(),
{
    if players.len() == 0 {
        0
    } else {
        active_count(players.drop_last()) + if players.last().is_folded {
            0nat
        } else {
            1nat
        }
    }
}

/// The seat `k` places after `turn` at a table of `n` seats, counting
/// upwards and starting again at seat 0 after the last.
pub open spec fn seat_after(n: int, turn: int, k: int) -> int {
    if turn + k >= n {
        turn + k - n
    } else {
        turn + k
    }
}

/// How many places after `turn` the first seat lies that has not folded,
/// looking at the places `k`, `k + 1`, and so on up to one full round;
/// 0 if all of these have folded.
pub open spec fn steps_to_active(players: Seq<PlayerView>, turn: int, k: int) -> int
    recommends
        0 <= turn < players.len(),
    decreases players.len() + 1 - k,
{
    if k < 1 || k > players.len() {
        0
    } else if !players[seat_after(players.len() as int, turn, k)].is_folded {
        k
    } else {
        steps_to_active(players, turn, k + 1)
    }
}

/// The seat that plays after `turn`: the next one in rising order, round
/// the table, that has not folded. That is `turn` itself where it alone has
/// not folded, and where every seat has folded.
pub open spec fn next_turn(players: Seq<PlayerView>, turn: int) -> int
    recommends
        0 <= turn < players.len(),
{
    seat_after(players.len() as int, turn, steps_to_active(players, turn, 1))
}

/// The seat that the turn rests on when it was meant for `turn`: that seat
/// if it has not folded, else the next one that has not.
pub open spec fn settle(players: Seq<PlayerView>, turn: int) -> int
    recommends
        players.len() > 0 ==> 0 <= turn < players.len(),
{
    if players.len() == 0 {
        0
    } else if !players[turn].is_folded {
        turn
    } else {
        next_turn(players, turn)
    }
}

impl LobbyView {
    /// What every table is held to.
    ///
    /// Seats are numbered by their place in the sequence and no client sits
    /// twice. No stack and no stake is negative, no stake exceeds the
    /// highest stake, and the stakes of the round lie in the pot. All chips
    /// together can be counted in 32 bits. The turn points at a seat, and at
    /// one that has not folded as long as two seats or more have not: where
    /// one seat alone is left, or none, the hand is over and the turn may
    /// rest anywhere.
    pub open spec fn wf(self) -> bool {
        &&& self.players.len() <= 256
        &&& forall|i: int|
            0 <= i < self.players.len() ==> (#[trigger] self.players[i]).position == i
        &&& forall|i: int|
            0 <= i < self.players.len() ==> (#[trigger] self.players[i]).valid()
                && self.players[i].bet_this_turn <= self.current_bet
        &&& forall|i: int, j: int|
            0 <= i < j < self.players.len() ==> (#[trigger] self.players[i]).client_id != (
            #[trigger] self.players[j]).client_id
        &&& self.pot >= 0
        &&& self.current_bet >= 0
        &&& total_bets(self.players) <= self.pot
        &&& total_money(self.players) + self.pot <= i32::MAX
        &&& if self.players.len() == 0 {
            self.turn == 0
        } else {
            self.turn < self.players.len()
        }
        &&& has_two_active(self.players) ==> !self.players[self.turn as int].is_folded
    }

    /// Whether two tables are alike in all that the participants share:
    /// the seats, the turn, the pot and the highest stake. The deck is left
    /// out: every participant keeps its own.
    pub open spec fn alike(self, other: LobbyView) -> bool {
        &&& self.players == other.players
        &&& self.turn == other.turn
        &&& self.pot == other.pot
        &&& self.current_bet == other.current_bet
    }

    /// All chips at the table: the stacks and the pot.
    pub open spec fn chips(self) -> int {
        total_money(self.players) + self.pot
    }

    /// The seat whose turn it is.
    pub open spec fn actor(self) -> PlayerView
        recommends
            self.turn < self.players.len(),
    {
        self.players[self.turn as int]
    }

    /// The hand is over when at most one seat has not folded.
    pub open spec fn hand_over(self) -> bool {
        active_count(self.players) <= 1
    }

    /// Why the table turns `action` down, asked of the seat whose turn it
    /// is; `None` where it accepts.
    ///
    /// A check needs the stake to match the highest stake. A call needs the
    /// stack to cover what is missing. A raise needs the stack to cover the
    /// amount, and, if it does, the amount to bring the stake at least up to
    /// the highest stake. Folding and going all in are always accepted.
    pub open spec fn verdict(self, action: Action) -> Option<ActionErrorCode>
        recommends
            self.turn < self.players.len(),
    {
        let p = self.actor();
        match action {
            Action::Check => if p.bet_this_turn < self.current_bet {
                Some(ActionErrorCode::MustCallCurrentBet)
            } else {
                None
            },
            Action::Call => if p.money < self.current_bet - p.bet_this_turn {
                Some(ActionErrorCode::NotEnoughMoney)
            } else {
                None
            },
            Action::Raise(amount) => if p.money < amount {
                Some(ActionErrorCode::NotEnoughMoney)
            } else if amount + p.bet_this_turn < self.current_bet {
                Some(ActionErrorCode::MustRaiseToCurrentBet)
            } else {
                None
            },
            Action::Fold => None,
            Action::AllIn => None,
        }
    }

    /// The table with the seat at the turn replaced.
    pub open spec fn with_actor(self, p: PlayerView) -> LobbyView {
        LobbyView { players: self.players.update(self.turn as int, p), ..self }
    }

    /// The table once the seat at the turn has carried out an accepted
    /// `action`, before the turn moves on.
    pub open spec fn acted(self, action: Action) -> LobbyView
        recommends
            self.turn < self.players.len(),
            self.verdict(action) is None,
    {
        let p = self.actor();
        match action {
            Action::Check => self,
            Action::Call => {
                let owed = self.current_bet - p.bet_this_turn;
                LobbyView {
                    pot: (self.pot + owed) as i32,
                    ..self.with_actor(
                        PlayerView {
                            money: (p.money - owed) as i32,
                            bet_this_turn: self.current_bet,
                            ..p
                        },
                    )
                }
            },
            Action::Raise(amount) => LobbyView {
                pot: (self.pot + amount) as i32,
                current_bet: (p.bet_this_turn + amount) as i32,
                ..self.with_actor(
                    PlayerView {
                        money: (p.money - amount) as i32,
                        bet_this_turn: (p.bet_this_turn + amount) as i32,
                        ..p
                    },
                )
            },
            Action::Fold => self.with_actor(PlayerView { is_folded: true, ..p }),
            Action::AllIn => self.with_actor(PlayerView { is_all_in: true, ..p }),
        }
    }

    /// The table after an accepted `action`: the action is carried out and
    /// the turn passes to the next seat that has not folded.
    pub open spec fn after(self, action: Action) -> LobbyView
        recommends
            self.turn < self.players.len(),
            self.verdict(action) is None,
    {
        let s = self.acted(action);
        LobbyView { turn: next_turn(s.players, s.turn as int) as u8, ..s }
    }

    /// The table after `action` was asked of it: changed as `after` says
    /// where the action is accepted, and untouched where it is turned down.
    pub open spec fn step(self, action: Action) -> LobbyView
        recommends
            self.turn < self.players.len(),
    {
        if self.verdict(action) is None {
            self.after(action)
        } else {
            self
        }
    }

    /// The table after a whole sequence of actions was asked of it, one
    /// after the other.
    pub open spec fn run(self, actions: Seq<Action>) -> LobbyView
        decreases actions.len(),
    {
        if actions.len() == 0 {
            self
        } else {
            self.run(actions.drop_last()).step(actions.last())
        }
    }

    /// Whether the client sits at the table.
    pub open spec fn sits(self, client_id: u64) -> bool {
        exists|i: int|
            0 <= i < self.players.len() && (#[trigger] self.players[i]).client_id == client_id
    }

    /// The first seat of the client, where it sits at the table.
    pub open spec fn seat_of(self, client_id: u64) -> int
        recommends
            self.sits(client_id),
    {
        choose|i: int|
            0 <= i < self.players.len() && (#[trigger] self.players[i]).client_id == client_id
                && forall|j: int|
                0 <= j < i ==> (#[trigger] self.players[j]).client_id != client_id
    }

    /// Whether it is the client's turn: the seat at the turn is theirs and
    /// has not folded.
    pub open spec fn is_turn_of(self, client_id: u64) -> bool {
        self.turn < self.players.len() && self.actor().client_id == client_id
            && !self.actor().is_folded
    }

    /// Whether a player can be seated: a place is free, the client is not
    /// seated yet, the stack is not negative and nothing is staked, and the
    /// chips at the table can still be counted in 32 bits.
    pub open spec fn accepts(self, p: PlayerView) -> bool {
        &&& self.players.len() < 256
        &&& p.money >= 0
        &&& p.bet_this_turn == 0
        &&& self.chips() + p.money <= i32::MAX
        &&& !self.sits(p.client_id)
    }

    /// The table with the player seated at the lowest free position, which
    /// is the number of seats taken. Nothing else changes, with one
    /// exception: where the turn rests on a folded seat and the newcomer is
    /// the second seat that has not folded, the turn passes on to the next
    /// seat that has not, as it must once two can play.
    pub open spec fn seated(self, p: PlayerView) -> LobbyView {
        let players = self.players.push(PlayerView { position: self.players.len() as u8, ..p });
        let turn = if has_two_active(players) && players[self.turn as int].is_folded {
            next_turn(players, self.turn as int)
        } else {
            self.turn as int
        };
        LobbyView { players, turn: turn as u8, ..self }
    }

    /// The table without seat `i`: the seats behind it move down one
    /// position, and the turn stays with the seat that had it. If that seat
    /// is the one that goes, the turn settles on the seat that follows it,
    /// or on the next one after that which has not folded.
    pub open spec fn without_seat(self, i: int) -> LobbyView
        recommends
            0 <= i < self.players.len(),
    {
        let players = Seq::new(
            (self.players.len() - 1) as nat,
            |k: int|
                if k < i {
                    self.players[k]
                } else {
                    PlayerView { position: k as u8, ..self.players[k + 1] }
                },
        );
        let turn = if i < self.turn {
            self.turn - 1
        } else if i > self.turn {
            self.turn as int
        } else if self.turn < players.len() {
            settle(players, self.turn as int)
        } else {
            settle(players, 0)
        };
        LobbyView { players, turn: turn as u8, ..self }
    }

    /// A table at which nobody sits yet.
    pub open spec fn empty(deck: Seq<Card>) -> LobbyView {
        LobbyView { players: Seq::empty(), turn: 0, deck, pot: 0, current_bet: 0 }
    }

    /// The table at which the given players were offered a seat one after
    /// the other, and nothing else has happened: each one that the table
    /// accepted when it came sits there.
    pub open spec fn seat_all(players: Seq<PlayerView>, deck: Seq<Card>) -> LobbyView
        decreases players.len(),
    {
        if players.len() == 0 {
            LobbyView::empty(deck)
        } else {
            let before = LobbyView::seat_all(players.drop_last(), deck);
            if before.accepts(players.last()) {
                before.seated(players.last())
            } else {
                before
            }
        }
    }

    /// The table after the client has left it; the same table if the client
    /// does not sit there.
    pub open spec fn without_client(self, client_id: u64) -> LobbyView {
        if self.sits(client_id) {
            self.without_seat(self.seat_of(client_id))
        } else {
            self
        }
    }

    /// The table with seat `i` folded, whether or not it is its turn. If it
    /// is, the turn passes on; if not, the turn stays where it is.
    pub open spec fn with_folded_seat(self, i: int) -> LobbyView
        recommends
            0 <= i < self.players.len(),
    {
        let players = self.players.update(i, PlayerView { is_folded: true, ..self.players[i] });
        let turn = if i == self.turn {
            next_turn(players, self.turn as int)
        } else {
            self.turn as int
        };
        LobbyView { players, turn: turn as u8, ..self }
    }

    /// The table after the client's seat was folded; the same table if the
    /// client does not sit there.
    pub open spec fn with_folded_client(self, client_id: u64) -> LobbyView {
        if self.sits(client_id) {
            self.with_folded_seat(self.seat_of(client_id))
        } else {
            self
        }
    }
}

} // verus!

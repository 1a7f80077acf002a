//! The betting table itself: the seats, the pot and the turn, changed only
//! by the operations below.

use crate::action::{refusal, refusal_text, Action, ActionErrorCode, ActionResult};
use crate::deck::Deck;
use crate::laws::{
    lemma_active_count, lemma_after, lemma_seat_bounds, lemma_seated, lemma_two_active_count,
    lemma_with_folded_seat, lemma_without_seat,
};
use crate::player::{Player, PlayerView};
use crate::rules::{
    active_count, bets, moneys, next_turn, settle, steps_to_active, LobbyView,
};
use crate::sums::{lemma_sum_take, sum};
use vstd::prelude::*;

verus! {

/// A table: the players in order of position, the position whose turn it
/// is, the deck, the pot, and the highest stake of the current round.
#[derive(Debug, PartialEq, Eq)]
pub struct Lobby {
    pub players: Vec<Player>,
    pub turn: u8,
    pub deck: Deck,
    pub pot: i32,
    pub current_bet: i32,
}

/// The seats of a row of players, as plain values.
pub open spec fn seats(players: Seq<Player>) -> Seq<PlayerView> {
    Seq::new(players.len(), |i: int| players[i]@)
}

impl View for Lobby {
    type V = LobbyView;

    open spec fn view(&self) -> LobbyView {
        LobbyView {
            players: seats(self.players@),
            turn: self.turn,
            deck: self.deck@,
            pot: self.pot,
            current_bet: self.current_bet,
        }
    }
}

impl Clone for Lobby {
    fn clone(&self) -> (lobby: Self)
        ensures
            lobby@ == self@,
    {
        let players = self.players.clone();
        let lobby = Lobby {
            players,
            turn: self.turn,
            deck: self.deck.clone(),
            pot: self.pot,
            current_bet: self.current_bet,
        };
        assert(lobby@.players =~= self@.players);
        lobby
    }
}

impl Lobby {
    /// An empty table with an empty deck.
    pub fn new() -> (lobby: Self)
        ensures
            lobby@.wf(),
            lobby@.players.len() == 0,
            lobby@.deck.len() == 0,
            lobby@.turn == 0,
            lobby@.pot == 0,
            lobby@.current_bet == 0,
    {
        Lobby { players: Vec::new(), turn: 0, deck: Deck::new_empty(), pot: 0, current_bet: 0 }
    }

    /// An empty table with the given deck.
    pub fn new_from_deck(deck: Deck) -> (lobby: Self)
        ensures
            lobby@.wf(),
            lobby@.players.len() == 0,
            lobby@.deck == deck@,
            lobby@.turn == 0,
            lobby@.pot == 0,
            lobby@.current_bet == 0,
    {
        Lobby { players: Vec::new(), turn: 0, deck, pot: 0, current_bet: 0 }
    }

    /// Puts another deck on the table in place of the one that is there.
    pub fn add_deck(&mut self, deck: Deck)
        ensures
            final(self)@ == (LobbyView { deck: deck@, ..old(self)@ }),
    {
        self.deck = deck;
    }

    /// The seat that plays after `from`.
    fn next_seat(&self, from: u8) -> (seat: u8)
        requires
            from < self.players.len(),
            self.players.len() <= 256,
        ensures
            seat == next_turn(self@.players, from as int),
    {
        let n = self.players.len();
        let start = from as usize;
        let mut k: usize = 1;
        while k <= n
            invariant
                1 <= k <= n + 1,
                n == self.players.len(),
                n <= 256,
                start == from,
                start < n,
                steps_to_active(self@.players, from as int, 1) == steps_to_active(
                    self@.players,
                    from as int,
                    k as int,
                ),
            decreases n + 1 - k,
        {
            let seat = if start + k >= n {
                start + k - n
            } else {
                start + k
            };
            if !self.players[seat].is_folded {
                return seat as u8;
            }
            k += 1;
        }
        from
    }

    /// Asks `action` of the seat whose turn it is.
    ///
    /// Where the rules accept it, the action is carried out, the turn
    /// passes to the next seat that has not folded, and the answer is
    /// `Success`. Where they do not, the table is left as it was and the
    /// answer gives the reason. Either way the table stays held to its
    /// rules and holds the same chips as before; the pot and the highest
    /// stake never fall.
    ///
    /// The search for the next seat goes round the table once at most. If
    /// it finds no seat but the one that has just played, or none at all,
    /// the hand is over: `is_hand_over` says so, and the turn rests where
    /// the search ended.
    pub fn play_turn(&mut self, action: Action) -> (result: ActionResult)
        requires
            old(self)@.wf(),
            old(self)@.players.len() > 0,
        ensures
            result.code() == old(self)@.verdict(action),
            final(self)@ == old(self)@.step(action),
            result matches ActionResult::Error(text, code) ==> text@ == refusal_text(action, code),
            final(self)@.wf(),
            final(self)@.chips() == old(self)@.chips(),
            final(self)@.players.len() == old(self)@.players.len(),
            final(self)@.pot >= old(self)@.pot,
            final(self)@.current_bet >= old(self)@.current_bet,
            result is Success && active_count(final(self)@.players) >= 1
                ==> !final(self)@.actor().is_folded,
    {
        let turn = self.turn as usize;
        let bet = self.players[turn].bet_this_turn;
        let money = self.players[turn].money;
        proof {
            lemma_seat_bounds(old(self)@, turn as int);
            lemma_active_count(old(self)@.players);
            if old(self)@.verdict(action) is None {
                lemma_after(old(self)@, action);
                lemma_active_count(old(self)@.after(action).players);
            }
        }
        match action {
            Action::Check => {
                if bet < self.current_bet {
                    return refusal(action, ActionErrorCode::MustCallCurrentBet);
                }
            },
            Action::Call => {
                let owed = self.current_bet - bet;
                if money < owed {
                    return refusal(action, ActionErrorCode::NotEnoughMoney);
                }
                self.players[turn].money = money - owed;
                self.players[turn].bet_this_turn = self.current_bet;
                self.pot = self.pot + owed;
            },
            Action::Raise(amount) => {
                if money < amount {
                    return refusal(action, ActionErrorCode::NotEnoughMoney);
                }
                if (amount as i64) + (bet as i64) < self.current_bet as i64 {
                    return refusal(action, ActionErrorCode::MustRaiseToCurrentBet);
                }
                self.players[turn].money = money - amount;
                self.players[turn].bet_this_turn = bet + amount;
                self.pot = self.pot + amount;
                self.current_bet = bet + amount;
            },
            Action::Fold => {
                self.players[turn].is_folded = true;
            },
            Action::AllIn => {
                self.players[turn].is_all_in = true;
            },
        }
        proof {
            assert(self@.players =~= old(self)@.acted(action).players);
        }
        self.turn = self.next_seat(self.turn);
        ActionResult::Success
    }

    /// The chips in front of the players and the chips staked this round.
    fn totals(&self) -> (r: (i64, i64))
        requires
            self.players.len() <= 256,
        ensures
            r.0 == sum(moneys(self@.players)),
            r.1 == sum(bets(self@.players)),
            -0x80_0000_0000 <= r.0 <= 0x80_0000_0000,
            -0x80_0000_0000 <= r.1 <= 0x80_0000_0000,
    {
        let n = self.players.len();
        let mut money: i64 = 0;
        let mut staked: i64 = 0;
        let mut k: usize = 0;
        proof {
            lemma_sum_take(moneys(self@.players).push(0), 0);
            lemma_sum_take(bets(self@.players).push(0), 0);
        }
        while k < n
            invariant
                k <= n,
                n == self.players.len(),
                n <= 256,
                money == sum(moneys(self@.players).take(k as int)),
                staked == sum(bets(self@.players).take(k as int)),
                -0x8000_0000 * k <= money <= 0x8000_0000 * k,
                -0x8000_0000 * k <= staked <= 0x8000_0000 * k,
            decreases n - k,
        {
            proof {
                lemma_sum_take(moneys(self@.players), k as int);
                lemma_sum_take(bets(self@.players), k as int);
            }
            money = money + self.players[k].money as i64;
            staked = staked + self.players[k].bet_this_turn as i64;
            k += 1;
        }
        proof {
            assert(moneys(self@.players).take(n as int) =~= moneys(self@.players));
            assert(bets(self@.players).take(n as int) =~= bets(self@.players));
        }
        (money, staked)
    }

    /// Whether seat `i` is as the rules want a seat: numbered by its place,
    /// with no negative stack or stake, no stake above the highest, and a
    /// client that sits at no earlier seat.
    fn seat_in_order(&self, i: usize) -> (ok: bool)
        requires
            i < self.players.len(),
        ensures
            ok == {
                &&& self@.players[i as int].position == i
                &&& self@.players[i as int].valid()
                &&& self@.players[i as int].bet_this_turn <= self.current_bet
                &&& forall|j: int|
                    0 <= j < i ==> (#[trigger] self@.players[j]).client_id
                        != self@.players[i as int].client_id
            },
    {
        let p = &self.players[i];
        if p.position as usize != i || p.money < 0 || p.bet_this_turn < 0 || p.bet_this_turn
            > self.current_bet {
            return false;
        }
        let mut j: usize = 0;
        while j < i
            invariant
                j <= i,
                i < self.players.len(),
                p@ == self@.players[i as int],
                forall|m: int|
                    0 <= m < j ==> (#[trigger] self@.players[m]).client_id != p.client_id,
            decreases i - j,
        {
            assert(self@.players[j as int] == self.players[j as int]@);
            if self.players[j].client_id == p.client_id {
                return false;
            }
            j += 1;
        }
        true
    }

    /// Whether the table is held to its rules. Every other operation asks
    /// for that and keeps it so.
    pub fn is_well_formed(&self) -> (ok: bool)
        ensures
            ok == self@.wf(),
    {
        let n = self.players.len();
        if n > 256 || self.pot < 0 || self.current_bet < 0 {
            return false;
        }
        if n == 0 {
            return self.turn == 0;
        }
        if self.turn as usize >= n {
            return false;
        }
        let mut i: usize = 0;
        while i < n
            invariant
                i <= n,
                n == self.players.len(),
                forall|k: int| 0 <= k < i ==> (#[trigger] self@.players[k]).position == k,
                forall|k: int|
                    0 <= k < i ==> (#[trigger] self@.players[k]).valid()
                        && self@.players[k].bet_this_turn <= self.current_bet,
                forall|k: int, m: int|
                    0 <= k < m < i ==> (#[trigger] self@.players[k]).client_id != (
                    #[trigger] self@.players[m]).client_id,
            decreases n - i,
        {
            if !self.seat_in_order(i) {
                return false;
            }
            i += 1;
        }
        let (money, staked) = self.totals();
        if staked > self.pot as i64 || money + self.pot as i64 > i32::MAX as i64 {
            return false;
        }
        proof {
            lemma_two_active_count(self@.players);
        }
        self.is_hand_over() || !self.players[self.turn as usize].is_folded
    }

    /// The first seat at which the client sits.
    pub fn find_seat(&self, client_id: u64) -> (r: Option<usize>)
        ensures
            match r {
                Some(i) => self@.sits(client_id) && i == self@.seat_of(client_id),
                None => !self@.sits(client_id),
            },
    {
        let mut i: usize = 0;
        while i < self.players.len()
            invariant
                i <= self.players.len(),
                forall|j: int| 0 <= j < i ==> (#[trigger] self@.players[j]).client_id != client_id,
            decreases self.players.len() - i,
        {
            assert(self@.players[i as int] == self.players[i as int]@);
            if self.players[i].client_id == client_id {
                return Some(i);
            }
            i += 1;
        }
        None
    }

    /// Whether it is the client's turn.
    pub fn is_client_turn(&self, client_id: u64) -> (b: bool)
        ensures
            b == self@.is_turn_of(client_id),
    {
        let turn = self.turn as usize;
        if turn < self.players.len() {
            self.players[turn].client_id == client_id && !self.players[turn].is_folded
        } else {
            false
        }
    }

    /// The client of the first player that carries the position; `None`
    /// where no player carries it. At a table held to its rules that is the
    /// player at that place of the row.
    pub fn get_client_id_from_position(&self, position: u8) -> (r: Option<u64>)
        ensures
            match r {
                Some(id) => exists|i: int|
                    0 <= i < self@.players.len() && (#[trigger] self@.players[i]).position
                        == position && self@.players[i].client_id == id && forall|j: int|
                        0 <= j < i ==> (#[trigger] self@.players[j]).position != position,
                None => forall|i: int|
                    0 <= i < self@.players.len() ==> (#[trigger] self@.players[i]).position
                        != position,
            },
            self@.wf() && position < self@.players.len() ==> r == Some(
                self@.players[position as int].client_id,
            ),
    {
        let mut i: usize = 0;
        while i < self.players.len()
            invariant
                i <= self.players.len(),
                forall|j: int| 0 <= j < i ==> (#[trigger] self@.players[j]).position != position,
            decreases self.players.len() - i,
        {
            assert(self@.players[i as int] == self.players[i as int]@);
            if self.players[i].position == position {
                return Some(self.players[i].client_id);
            }
            i += 1;
        }
        None
    }

    /// Whether the hand is over: at most one seat has not folded.
    pub fn is_hand_over(&self) -> (b: bool)
        ensures
            b == self@.hand_over(),
    {
        let n = self.players.len();
        let mut count: usize = 0;
        let mut k: usize = 0;
        while k < n
            invariant
                k <= n,
                n == self.players.len(),
                count <= k,
                count == active_count(self@.players.take(k as int)),
            decreases n - k,
        {
            proof {
                assert(self@.players.take(k + 1).drop_last() =~= self@.players.take(k as int));
            }
            if !self.players[k].is_folded {
                count += 1;
            }
            k += 1;
        }
        assert(self@.players.take(n as int) =~= self@.players);
        count <= 1
    }

    /// The seat on which a turn meant for `turn` comes to rest.
    fn settled(&self, turn: u8) -> (seat: u8)
        requires
            self.players.len() <= 256,
            self.players.len() > 0 ==> turn < self.players.len(),
        ensures
            seat == settle(self@.players, turn as int),
    {
        if self.players.len() == 0 {
            0
        } else {
            if !self.players[turn as usize].is_folded {
                turn
            } else {
                self.next_seat(turn)
            }
        }
    }

    /// Whether the player can be seated at this table.
    pub fn can_add_player(&self, player: &Player) -> (ok: bool)
        requires
            self@.wf(),
        ensures
            ok == self@.accepts(player@),
    {
        if self.players.len() >= 256 || player.money < 0 || player.bet_this_turn != 0 {
            return false;
        }
        let (money, _) = self.totals();
        if money + self.pot as i64 + player.money as i64 > i32::MAX as i64 {
            return false;
        }
        self.find_seat(player.client_id).is_none()
    }

    /// Seats the player at the lowest free position and writes that
    /// position into the seat. The seats that were taken, the pot, the
    /// highest stake and the deck stay as they were. So does the turn,
    /// unless it rests on a folded seat and the newcomer is the second
    /// seat that has not folded: then it passes on to the next seat that
    /// has not.
    pub fn add_player(&mut self, player: Player)
        requires
            old(self)@.wf(),
            old(self)@.accepts(player@),
        ensures
            final(self)@ == old(self)@.seated(player@),
            final(self)@.wf(),
            final(self)@.chips() == old(self)@.chips() + player.money,
            final(self)@.pot == old(self)@.pot,
            final(self)@.current_bet == old(self)@.current_bet,
            final(self)@.deck == old(self)@.deck,
            old(self)@.players.len() == 0 || !old(self)@.actor().is_folded || player.is_folded
                || active_count(old(self)@.players) == 0 ==> final(self)@.turn == old(self)@.turn,
    {
        let mut player = player;
        player.position = self.players.len() as u8;
        self.players.push(player);
        proof {
            lemma_seated(old(self)@, player@);
            lemma_active_count(old(self)@.players);
            lemma_two_active_count(self@.players);
            assert(self@.players =~= old(self)@.seated(player@).players);
        }
        if self.players[self.turn as usize].is_folded && !self.is_hand_over() {
            self.turn = self.next_seat(self.turn);
        }
    }

    /// Takes the client's seat away. The seats behind it move down one
    /// position; the stack leaves the table with the player. Nothing
    /// happens if the client does not sit here.
    pub fn remove_player_by_id(&mut self, id: u64)
        requires
            old(self)@.wf(),
        ensures
            final(self)@ == old(self)@.without_client(id),
            final(self)@.wf(),
            !final(self)@.sits(id),
    {
        match self.find_seat(id) {
            None => {},
            Some(i) => {
                let n = self.players.len();
                proof {
                    lemma_without_seat(old(self)@, i as int);
                }
                let _ = self.players.remove(i);
                let mut k: usize = i;
                while k < n - 1
                    invariant
                        i <= k <= n - 1,
                        n == old(self).players.len(),
                        n <= 256,
                        self.players.len() == n - 1,
                        self.turn == old(self).turn,
                        self.pot == old(self).pot,
                        self.current_bet == old(self).current_bet,
                        self.deck == old(self).deck,
                        forall|m: int| 0 <= m < i ==> self.players[m] == old(self).players[m],
                        forall|m: int|
                            i <= m < k ==> (#[trigger] self.players[m])@ == (PlayerView {
                                position: m as u8,
                                ..old(self).players[m + 1]@
                            }),
                        forall|m: int|
                            k <= m < n - 1 ==> self.players[m] == old(self).players[m + 1],
                    decreases n - 1 - k,
                {
                    self.players[k].position = k as u8;
                    k += 1;
                }
                proof {
                    assert(self@.players =~= old(self)@.without_seat(i as int).players);
                }
                if i < self.turn as usize {
                    self.turn = self.turn - 1;
                } else if i == self.turn as usize {
                    let next = if i < self.players.len() {
                        self.turn
                    } else {
                        0
                    };
                    self.turn = self.settled(next);
                }
            },
        }
    }

    /// Folds the client's seat, whether or not it is its turn. If it is,
    /// the turn passes on; if not, the turn stays where it is. Nothing
    /// happens if the client does not sit here.
    pub fn fold_player_by_id(&mut self, id: u64)
        requires
            old(self)@.wf(),
        ensures
            final(self)@ == old(self)@.with_folded_client(id),
            final(self)@.wf(),
            final(self)@.chips() == old(self)@.chips(),
    {
        match self.find_seat(id) {
            None => {},
            Some(i) => {
                proof {
                    lemma_with_folded_seat(old(self)@, i as int);
                }
                self.players[i].is_folded = true;
                proof {
                    assert(self@.players =~= old(self)@.with_folded_seat(i as int).players);
                }
                if i == self.turn as usize {
                    self.turn = self.next_seat(self.turn);
                }
            },
        }
    }
}

} // verus!

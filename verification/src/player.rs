//! A seat at the table: who sits there, what they hold and what they have
//! committed in the current betting round.

use crate::card::Card;
use vstd::prelude::*;

verus! {

/// The chips a player sits down with unless told otherwise.
pub const STARTING_MONEY: i32 = 5000;

/// One seat. `client_id` is the only name of a player that stays the same
/// across messages; `position` may be assigned anew when the player is seated.
#[derive(Debug, PartialEq, Eq)]
pub struct Player {
    pub name: String,
    pub hand: Vec<Card>,
    pub money: i32,
    pub position: u8,
    pub is_all_in: bool,
    pub is_folded: bool,
    pub bet_this_turn: i32,
    pub client_id: u64,
}

/// What a seat is, as plain values.
pub struct PlayerView {
    pub name: Seq<char>,
    pub hand: Seq<Card>,
    pub money: i32,
    pub position: u8,
    pub is_all_in: bool,
    pub is_folded: bool,
    pub bet_this_turn: i32,
    pub client_id: u64,
}

impl View for Player {
    type V = PlayerView;

    open spec fn view(&self) -> PlayerView {
        PlayerView {
            name: self.name@,
            hand: self.hand@,
            money: self.money,
            position: self.position,
            is_all_in: self.is_all_in,
            is_folded: self.is_folded,
            bet_this_turn: self.bet_this_turn,
            client_id: self.client_id,
        }
    }
}

impl PlayerView {
    /// A seat never owes chips and never has a negative stake.
    pub open spec fn valid(self) -> bool {
        self.money >= 0 && self.bet_this_turn >= 0
    }

    /// The seat of a player who has just sat down: no name, no cards,
    /// the starting stack, nothing staked.
    pub open spec fn fresh() -> PlayerView {
        PlayerView {
            name: Seq::empty(),
            hand: Seq::empty(),
            money: STARTING_MONEY,
            position: 0,
            is_all_in: false,
            is_folded: false,
            bet_this_turn: 0,
            client_id: 0,
        }
    }
}

impl Default for Player {
    fn default() -> (p: Self)
        ensures
            p@ == PlayerView::fresh(),
    {
        Player {
            name: String::new(),
            hand: Vec::new(),
            money: STARTING_MONEY,
            position: 0,
            is_all_in: false,
            is_folded: false,
            bet_this_turn: 0,
            client_id: 0,
        }
    }
}

impl Clone for Player {
    fn clone(&self) -> (p: Self)
        ensures
            p@ == self@,
    {
        let hand = self.hand.clone();
        Player {
            name: self.name.clone(),
            hand,
            money: self.money,
            position: self.position,
            is_all_in: self.is_all_in,
            is_folded: self.is_folded,
            bet_this_turn: self.bet_this_turn,
            client_id: self.client_id,
        }
    }
}

impl Player {
    /// A fresh seat for the named player.
    pub fn new(name: String, client_id: u64) -> (p: Self)
        ensures
            p@ == (PlayerView { name: name@, client_id, ..PlayerView::fresh() }),
    {
        Player {
            name,
            hand: Vec::new(),
            money: STARTING_MONEY,
            position: 0,
            is_all_in: false,
            is_folded: false,
            bet_this_turn: 0,
            client_id,
        }
    }
}

} // verus!

//! What one participant holds while the game runs: its copy of the table,
//! its own client number, and whether play has begun. The loop of the
//! process owns it and hands it to every step.

use crate::action::{refusal_text, Action, ActionErrorCode, ActionResult};
use crate::lobby::Lobby;
use crate::message::{MessageView, ServerMessage, WireError};
use crate::rules::LobbyView;
use vstd::prelude::*;

verus! {

/// The state of one participant.
#[derive(Debug, PartialEq, Eq)]
pub struct Session {
    pub lobby: Lobby,
    pub client_id: u64,
    pub in_game: bool,
}

/// The state of one participant as plain values.
pub struct SessionView {
    pub lobby: LobbyView,
    pub client_id: u64,
    pub in_game: bool,
}

impl View for Session {
    type V = SessionView;

    open spec fn view(&self) -> SessionView {
        SessionView { lobby: self.lobby@, client_id: self.client_id, in_game: self.in_game }
    }
}

impl Clone for Session {
    fn clone(&self) -> (session: Self)
        ensures
            session@ == self@,
    {
        Session { lobby: self.lobby.clone(), client_id: self.client_id, in_game: self.in_game }
    }
}

/// Why a message or an action was dropped without any effect.
#[derive(Clone, Copy, Debug, PartialEq, Eq, Structural)]
pub enum DropReason {
    /// The bytes spell no message.
    Malformed(WireError),
    /// The message names another client than the one that sent it.
    Forged,
    /// The action is this participant's own, come back: it was carried
    /// out when it was submitted.
    OwnEcho,
    /// It is not the turn of the client that acts.
    OutOfTurn,
    /// The rules turn the action down.
    Refused(ActionErrorCode),
    /// The player cannot be seated.
    NotSeatable,
    /// This participant does not take this kind of message.
    Unexpected,
    /// The client named has no seat at this table.
    NotSeated,
}

/// What became of an action that this participant's own player asked for.
#[derive(Debug, PartialEq, Eq)]
pub enum Submitted {
    /// It was carried out on this copy of the table; the message is to be
    /// sent on.
    Send(ServerMessage),
    /// The rules turned it down: the sentence and the reason are for the
    /// player alone, and nothing is sent.
    Refused(String, ActionErrorCode),
    /// It is not this player's turn; nothing is sent.
    OutOfTurn,
}

/// What became of a submitted action, as plain values.
pub enum SubmittedView {
    Send(MessageView),
    Refused(Seq<char>, ActionErrorCode),
    OutOfTurn,
}

impl View for Submitted {
    type V = SubmittedView;

    open spec fn view(&self) -> SubmittedView {
        match self {
            Submitted::Send(m) => SubmittedView::Send(m@),
            Submitted::Refused(text, code) => SubmittedView::Refused(text@, *code),
            Submitted::OutOfTurn => SubmittedView::OutOfTurn,
        }
    }
}

/// What was done about a client that went away.
#[derive(Clone, Copy, Debug, PartialEq, Eq, Structural)]
pub enum Departure {
    /// The client had no seat; nothing changed.
    Unknown,
    /// Play had not begun: the seat was taken away.
    Removed,
    /// Play had begun: the seat was folded.
    Folded,
}

impl SessionView {
    /// The state is sound when the table is held to its rules.
    pub open spec fn wf(self) -> bool {
        self.lobby.wf()
    }

    /// The state with another table.
    pub open spec fn with_lobby(self, lobby: LobbyView) -> SessionView {
        SessionView { lobby, ..self }
    }

    /// The table after the action of a client was received: it is carried
    /// out only where it is that client's turn and the rules accept it.
    pub open spec fn lobby_after_action(self, actor: u64, action: Action) -> LobbyView {
        if self.lobby.is_turn_of(actor) {
            self.lobby.step(action)
        } else {
            self.lobby
        }
    }

    /// What becomes of an action that this participant's player asks for.
    pub open spec fn submitted(self, action: Action) -> SubmittedView {
        if !self.lobby.is_turn_of(self.client_id) {
            SubmittedView::OutOfTurn
        } else {
            match self.lobby.verdict(action) {
                Some(code) => SubmittedView::Refused(refusal_text(action, code), code),
                None => SubmittedView::Send(MessageView::Action(action, self.client_id)),
            }
        }
    }

    /// The state after this participant's player asked for an action.
    pub open spec fn after_submit(self, action: Action) -> SessionView {
        self.with_lobby(self.lobby_after_action(self.client_id, action))
    }

    /// What is done about a client that went away.
    pub open spec fn departure(self, client_id: u64) -> Departure {
        if !self.lobby.sits(client_id) {
            Departure::Unknown
        } else if self.in_game {
            Departure::Folded
        } else {
            Departure::Removed
        }
    }

    /// The state after a client went away: its seat is folded if play has
    /// begun, and taken away if not.
    pub open spec fn after_departure(self, client_id: u64) -> SessionView {
        if self.in_game {
            self.with_lobby(self.lobby.with_folded_client(client_id))
        } else {
            self.with_lobby(self.lobby.without_client(client_id))
        }
    }
}

/// Draws a number below `bound` at random.
///
/// Calls `rand::Rng::gen_range` on the generator of `rand::thread_rng` with
/// the range from 0 up to, and without, `bound`. That function gives a
/// number of the range and stops the program on an empty one, which the
/// demand on `bound` rules out. Nothing is claimed about which number
/// comes.
#[verifier::external_body]
fn random_below(bound: u64) -> (n: u64)
    requires
        bound > 0,
    ensures
        n < bound,
{
    rand::Rng::gen_range(&mut rand::thread_rng(), 0..bound)
}

impl Session {
    /// The state of a participant that has just started, under a client
    /// number drawn at random: an empty table with an empty deck, play not
    /// begun. Any number may come but the largest one.
    pub fn with_random_id() -> (session: Self)
        ensures
            session@.wf(),
            session@.client_id < u64::MAX,
            !session@.in_game,
            session@.lobby == LobbyView::empty(Seq::empty()),
    {
        Session::new(random_below(u64::MAX))
    }

    /// The state of a participant that has just started under the given
    /// client number: an empty table with an empty deck, play not begun.
    pub fn new(client_id: u64) -> (session: Self)
        ensures
            session@.wf(),
            session@ == (SessionView {
                lobby: LobbyView::empty(Seq::empty()),
                client_id,
                in_game: false,
            }),
    {
        let lobby = Lobby::new();
        proof {
            assert(lobby@.players =~= Seq::empty());
            assert(lobby@.deck =~= Seq::empty());
        }
        Session { lobby, client_id, in_game: false }
    }

    /// A copy of the table as it stands, for the display to read. What is
    /// done to the copy does not reach the table.
    pub fn snapshot(&self) -> (lobby: Lobby)
        ensures
            lobby@ == self@.lobby,
    {
        self.lobby.clone()
    }

    /// Takes an action from this participant's own player.
    ///
    /// Where it is the player's turn and the rules accept the action, it is
    /// carried out on this copy of the table at once, and the message that
    /// tells the others comes back. Otherwise the table stays as it was and
    /// nothing is to be sent.
    pub fn submit_action(&mut self, action: Action) -> (r: Submitted)
        requires
            old(self)@.wf(),
        ensures
            r@ == old(self)@.submitted(action),
            final(self)@ == old(self)@.after_submit(action),
            final(self)@.wf(),
            final(self)@.lobby.chips() == old(self)@.lobby.chips(),
    {
        if !self.lobby.is_client_turn(self.client_id) {
            return Submitted::OutOfTurn;
        }
        match self.lobby.play_turn(action) {
            ActionResult::Success => Submitted::Send(ServerMessage::Action(action, self.client_id)),
            ActionResult::Error(text, code) => Submitted::Refused(text, code),
        }
    }

    /// Deals with a client that went away, so that the turn never waits
    /// for it: once play has begun its seat is folded, before that it is
    /// taken away. The host tells the others through
    /// `server::client_disconnected`, which builds on this step.
    pub fn client_left(&mut self, client_id: u64) -> (r: Departure)
        requires
            old(self)@.wf(),
        ensures
            r == old(self)@.departure(client_id),
            final(self)@ == old(self)@.after_departure(client_id),
            final(self)@.wf(),
    {
        let seated = self.lobby.find_seat(client_id).is_some();
        if self.in_game {
            self.lobby.fold_player_by_id(client_id);
        } else {
            self.lobby.remove_player_by_id(client_id);
        }
        if !seated {
            Departure::Unknown
        } else if self.in_game {
            Departure::Folded
        } else {
            Departure::Removed
        }
    }
}

} // verus!

//! The steps of a participant that has joined somebody else's table: it
//! asks to be seated, and takes in what the host sends.

use crate::action::{Action, ActionResult};
use crate::message::{parse_message, MessageView, ServerMessage};
use crate::player::{Player, PlayerView};
use crate::session::{DropReason, Session, SessionView};
use vstd::prelude::*;

verus! {

/// What a message from the host led to.
#[derive(Clone, Copy, Debug, PartialEq, Eq, Structural)]
pub enum ClientEvent {
    /// A player was seated at this copy of the table.
    PlayerJoined,
    /// The action of another player was carried out on this copy of the
    /// table; it is for the display to show.
    ActionApplied(Action),
    /// Play has begun.
    GameStarted,
    /// The seat of the client named was folded, because the client went
    /// away during play.
    SeatFolded(u64),
    /// The seat of the client named was taken away, because the client
    /// went away before play began.
    SeatRemoved(u64),
    /// The message had no effect.
    Dropped(DropReason),
}

/// What a message from the host leads to.
pub open spec fn event_of(s: SessionView, m: MessageView) -> ClientEvent {
    match m {
        MessageView::Player(p) => if s.lobby.accepts(p) {
            ClientEvent::PlayerJoined
        } else {
            ClientEvent::Dropped(DropReason::NotSeatable)
        },
        MessageView::Action(action, actor) => if actor == s.client_id {
            ClientEvent::Dropped(DropReason::OwnEcho)
        } else if !s.lobby.is_turn_of(actor) {
            ClientEvent::Dropped(DropReason::OutOfTurn)
        } else {
            match s.lobby.verdict(action) {
                Some(code) => ClientEvent::Dropped(DropReason::Refused(code)),
                None => ClientEvent::ActionApplied(action),
            }
        },
        MessageView::StartGame => ClientEvent::GameStarted,
        MessageView::SeatFolded(id) => if s.lobby.sits(id) {
            ClientEvent::SeatFolded(id)
        } else {
            ClientEvent::Dropped(DropReason::NotSeated)
        },
        MessageView::SeatRemoved(id) => if s.lobby.sits(id) {
            ClientEvent::SeatRemoved(id)
        } else {
            ClientEvent::Dropped(DropReason::NotSeated)
        },
    }
}

/// The state after a message from the host. A player that this table
/// accepts is seated. The action of another client is carried out where
/// it is that client's turn and the rules accept it; this participant's
/// own action, come back, is left alone. The start of the game is noted.
/// The seat of a client that went away is folded or taken away, as the
/// host says. Any message that is dropped leaves the state as it was.
pub open spec fn state_after(s: SessionView, m: MessageView) -> SessionView {
    match m {
        MessageView::Player(p) => if s.lobby.accepts(p) {
            s.with_lobby(s.lobby.seated(p))
        } else {
            s
        },
        MessageView::Action(action, actor) => if actor == s.client_id {
            s
        } else {
            s.with_lobby(s.lobby_after_action(actor, action))
        },
        MessageView::StartGame => SessionView { in_game: true, ..s },
        MessageView::SeatFolded(id) => s.with_lobby(s.lobby.with_folded_client(id)),
        MessageView::SeatRemoved(id) => s.with_lobby(s.lobby.without_client(id)),
    }
}

/// The state after a row of messages from the host, taken in one after
/// the other.
pub open spec fn state_after_all(s: SessionView, messages: Seq<MessageView>) -> SessionView
    decreases messages.len(),
{
    if messages.len() == 0 {
        s
    } else {
        state_after(state_after_all(s, messages.drop_last()), messages.last())
    }
}

/// What bytes from the host lead to: what their message leads to, or
/// nothing where they spell none.
pub open spec fn event_of_bytes(s: SessionView, bytes: Seq<u8>) -> ClientEvent {
    match parse_message(bytes) {
        Ok(m) => event_of(s, m),
        Err(e) => ClientEvent::Dropped(DropReason::Malformed(e)),
    }
}

/// The state after bytes from the host.
pub open spec fn state_after_bytes(s: SessionView, bytes: Seq<u8>) -> SessionView {
    match parse_message(bytes) {
        Ok(m) => state_after(s, m),
        Err(_) => s,
    }
}

/// The message with which a client that has just connected asks for a
/// seat: a fresh player of that name and client number. Which position the
/// player gets is for the host to say.
pub fn join_message(name: String, client_id: u64) -> (m: ServerMessage)
    ensures
        m@ == MessageView::Player(PlayerView { name: name@, client_id, ..PlayerView::fresh() }),
{
    ServerMessage::Player(Player::new(name, client_id))
}

/// Takes in a message from the host.
pub fn receive_message(session: &mut Session, message: ServerMessage) -> (event: ClientEvent)
    requires
        old(session)@.wf(),
    ensures
        event == event_of(old(session)@, message@),
        final(session)@ == state_after(old(session)@, message@),
        final(session)@.wf(),
{
    match message {
        ServerMessage::Player(player) => {
            if session.lobby.can_add_player(&player) {
                session.lobby.add_player(player);
                ClientEvent::PlayerJoined
            } else {
                ClientEvent::Dropped(DropReason::NotSeatable)
            }
        },
        ServerMessage::Action(action, actor) => {
            if actor == session.client_id {
                ClientEvent::Dropped(DropReason::OwnEcho)
            } else if !session.lobby.is_client_turn(actor) {
                ClientEvent::Dropped(DropReason::OutOfTurn)
            } else {
                match session.lobby.play_turn(action) {
                    ActionResult::Success => ClientEvent::ActionApplied(action),
                    ActionResult::Error(_, code) => ClientEvent::Dropped(
                        DropReason::Refused(code),
                    ),
                }
            }
        },
        ServerMessage::StartGame => {
            session.in_game = true;
            ClientEvent::GameStarted
        },
        ServerMessage::SeatFolded(id) => {
            if session.lobby.find_seat(id).is_some() {
                session.lobby.fold_player_by_id(id);
                ClientEvent::SeatFolded(id)
            } else {
                ClientEvent::Dropped(DropReason::NotSeated)
            }
        },
        ServerMessage::SeatRemoved(id) => {
            if session.lobby.find_seat(id).is_some() {
                session.lobby.remove_player_by_id(id);
                ClientEvent::SeatRemoved(id)
            } else {
                ClientEvent::Dropped(DropReason::NotSeated)
            }
        },
    }
}

/// Takes in bytes from the host. Bytes that spell no message are dropped
/// and change nothing.
pub fn receive_bytes(session: &mut Session, bytes: &[u8]) -> (event: ClientEvent)
    requires
        old(session)@.wf(),
    ensures
        event == event_of_bytes(old(session)@, bytes@),
        final(session)@ == state_after_bytes(old(session)@, bytes@),
        final(session)@.wf(),
{
    match ServerMessage::from_bytes(bytes) {
        Ok(message) => receive_message(session, message),
        Err(e) => ClientEvent::Dropped(DropReason::Malformed(e)),
    }
}

} // verus!

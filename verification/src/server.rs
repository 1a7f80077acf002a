//! The steps of the participant that hosts the table. Its copy of the
//! table is the one that counts: it checks every action before anybody
//! else hears of it, and it alone says who sits where.

use crate::action::{refusal_text, Action, ActionErrorCode, ActionResult};
use crate::message::{parse_message, MessageView, ServerMessage};
use crate::player::PlayerView;
use crate::session::{Departure, DropReason, Session, SessionView};
use vstd::prelude::*;

verus! {

/// What the host does about a message from a client.
#[derive(Debug, PartialEq, Eq)]
pub enum ServerReply {
    /// The message is to be sent to every participant.
    Broadcast(ServerMessage),
    /// A player was seated. The first messages, one for each seat that was
    /// taken before and in the order of the seats, go to the newcomer
    /// alone; the last one goes to every participant, the newcomer
    /// included.
    Welcome(Vec<ServerMessage>, ServerMessage),
    /// The rules turned the action down: the sentence and the reason go to
    /// the sender alone.
    Reject(String, ActionErrorCode),
    /// The message had no effect and nobody hears of it.
    Dropped(DropReason),
}

/// What the host does about a message, as plain values.
pub enum ReplyView {
    Broadcast(MessageView),
    Welcome(Seq<MessageView>, MessageView),
    Reject(Seq<char>, ActionErrorCode),
    Dropped(DropReason),
}

/// A row of messages as plain values.
pub open spec fn views(messages: Seq<ServerMessage>) -> Seq<MessageView> {
    Seq::new(messages.len(), |i: int| messages[i]@)
}

/// The seats of a table as messages, one for each player and in the order
/// of the seats.
pub open spec fn roster(players: Seq<PlayerView>) -> Seq<MessageView> {
    Seq::new(players.len(), |i: int| MessageView::Player(players[i]))
}

impl ReplyView {
    /// What every participant gets to hear, if anything.
    pub open spec fn to_all(self) -> Option<MessageView> {
        match self {
            ReplyView::Broadcast(m) => Some(m),
            ReplyView::Welcome(_, m) => Some(m),
            _ => None,
        }
    }
}

impl View for ServerReply {
    type V = ReplyView;

    open spec fn view(&self) -> ReplyView {
        match self {
            ServerReply::Broadcast(m) => ReplyView::Broadcast(m@),
            ServerReply::Welcome(seats, m) => ReplyView::Welcome(views(seats@), m@),
            ServerReply::Reject(text, code) => ReplyView::Reject(text@, *code),
            ServerReply::Dropped(reason) => ReplyView::Dropped(*reason),
        }
    }
}

/// The player as the host seats it: at the lowest free position.
pub open spec fn seated_player(s: SessionView, p: PlayerView) -> PlayerView {
    PlayerView { position: s.lobby.players.len() as u8, ..p }
}

/// What the host does about a message that `sender` sent.
///
/// A message that names another client than its sender is dropped. An
/// action is dropped where it is not the sender's turn, handed back to the
/// sender where the rules turn it down, and sent to everybody where they
/// accept it. A player that can be seated is sent to everybody with the
/// position it was given, and is told who sat there before. A client
/// cannot start the game, nor say that a seat was given up.
pub open spec fn reply_to(s: SessionView, sender: u64, m: MessageView) -> ReplyView {
    match m {
        MessageView::Player(p) => if p.client_id != sender {
            ReplyView::Dropped(DropReason::Forged)
        } else if !s.lobby.accepts(p) {
            ReplyView::Dropped(DropReason::NotSeatable)
        } else {
            ReplyView::Welcome(roster(s.lobby.players), MessageView::Player(seated_player(s, p)))
        },
        MessageView::Action(action, actor) => if actor != sender {
            ReplyView::Dropped(DropReason::Forged)
        } else if !s.lobby.is_turn_of(actor) {
            ReplyView::Dropped(DropReason::OutOfTurn)
        } else {
            match s.lobby.verdict(action) {
                Some(code) => ReplyView::Reject(refusal_text(action, code), code),
                None => ReplyView::Broadcast(m),
            }
        },
        MessageView::StartGame => ReplyView::Dropped(DropReason::Unexpected),
        MessageView::SeatFolded(_) => ReplyView::Dropped(DropReason::Unexpected),
        MessageView::SeatRemoved(_) => ReplyView::Dropped(DropReason::Unexpected),
    }
}

/// The host's state after a message that `sender` sent: changed only
/// where something is sent on to everybody.
pub open spec fn state_after(s: SessionView, sender: u64, m: MessageView) -> SessionView {
    match m {
        MessageView::Player(p) => if p.client_id == sender && s.lobby.accepts(p) {
            s.with_lobby(s.lobby.seated(p))
        } else {
            s
        },
        MessageView::Action(action, actor) => if actor == sender {
            s.with_lobby(s.lobby_after_action(actor, action))
        } else {
            s
        },
        MessageView::StartGame => s,
        MessageView::SeatFolded(_) => s,
        MessageView::SeatRemoved(_) => s,
    }
}

/// What the host does about bytes that `sender` sent.
pub open spec fn reply_to_bytes(s: SessionView, sender: u64, bytes: Seq<u8>) -> ReplyView {
    match parse_message(bytes) {
        Ok(m) => reply_to(s, sender, m),
        Err(e) => ReplyView::Dropped(DropReason::Malformed(e)),
    }
}

/// The host's state after bytes that `sender` sent.
pub open spec fn state_after_bytes(s: SessionView, sender: u64, bytes: Seq<u8>) -> SessionView {
    match parse_message(bytes) {
        Ok(m) => state_after(s, sender, m),
        Err(_) => s,
    }
}

/// The seats of the table as messages.
fn seats_taken(session: &Session) -> (seats: Vec<ServerMessage>)
    ensures
        views(seats@) == roster(session@.lobby.players),
{
    let mut seats: Vec<ServerMessage> = Vec::new();
    let mut i: usize = 0;
    while i < session.lobby.players.len()
        invariant
            i <= session.lobby.players.len(),
            seats.len() == i,
            forall|j: int|
                0 <= j < i ==> (#[trigger] seats[j])@ == MessageView::Player(
                    session.lobby.players[j]@,
                ),
        decreases session.lobby.players.len() - i,
    {
        seats.push(ServerMessage::Player(session.lobby.players[i].clone()));
        i += 1;
    }
    assert(views(seats@) =~= roster(session@.lobby.players));
    seats
}

/// Takes in a message that `sender` sent.
pub fn receive_message(session: &mut Session, sender: u64, message: ServerMessage) -> (reply:
    ServerReply)
    requires
        old(session)@.wf(),
    ensures
        reply@ == reply_to(old(session)@, sender, message@),
        final(session)@ == state_after(old(session)@, sender, message@),
        final(session)@.wf(),
        final(session)@.lobby.chips() >= old(session)@.lobby.chips(),
{
    match message {
        ServerMessage::Player(player) => {
            if player.client_id != sender {
                ServerReply::Dropped(DropReason::Forged)
            } else if !session.lobby.can_add_player(&player) {
                ServerReply::Dropped(DropReason::NotSeatable)
            } else {
                let seats = seats_taken(session);
                let mut seated = player.clone();
                seated.position = session.lobby.players.len() as u8;
                session.lobby.add_player(player);
                ServerReply::Welcome(seats, ServerMessage::Player(seated))
            }
        },
        ServerMessage::Action(action, actor) => {
            if actor != sender {
                ServerReply::Dropped(DropReason::Forged)
            } else if !session.lobby.is_client_turn(actor) {
                ServerReply::Dropped(DropReason::OutOfTurn)
            } else {
                match session.lobby.play_turn(action) {
                    ActionResult::Success => ServerReply::Broadcast(
                        ServerMessage::Action(action, actor),
                    ),
                    ActionResult::Error(text, code) => ServerReply::Reject(text, code),
                }
            }
        },
        ServerMessage::StartGame => ServerReply::Dropped(DropReason::Unexpected),
        ServerMessage::SeatFolded(_) => ServerReply::Dropped(DropReason::Unexpected),
        ServerMessage::SeatRemoved(_) => ServerReply::Dropped(DropReason::Unexpected),
    }
}

/// Takes in bytes that `sender` sent. Bytes that spell no message are
/// dropped and change nothing.
pub fn receive_bytes(session: &mut Session, sender: u64, bytes: &[u8]) -> (reply: ServerReply)
    requires
        old(session)@.wf(),
    ensures
        reply@ == reply_to_bytes(old(session)@, sender, bytes@),
        final(session)@ == state_after_bytes(old(session)@, sender, bytes@),
        final(session)@.wf(),
{
    match ServerMessage::from_bytes(bytes) {
        Ok(message) => receive_message(session, sender, message),
        Err(e) => ServerReply::Dropped(DropReason::Malformed(e)),
    }
}

/// What the host tells everybody when a client has gone away: that its
/// seat was folded, if play has begun, or taken away, if not; nothing if
/// the client had no seat.
pub open spec fn departure_notice(s: SessionView, client_id: u64) -> Option<MessageView> {
    match s.departure(client_id) {
        Departure::Unknown => None,
        Departure::Folded => Some(MessageView::SeatFolded(client_id)),
        Departure::Removed => Some(MessageView::SeatRemoved(client_id)),
    }
}

/// Deals with a client whose connection is gone, so that the turn never
/// waits for it. Once play has begun the seat is folded, before that it is
/// taken away; the message that comes back is to be sent to every
/// participant that is left. Nothing changes and nothing is to be sent
/// where the client had no seat.
pub fn client_disconnected(session: &mut Session, client_id: u64) -> (notice: Option<
    ServerMessage,
>)
    requires
        old(session)@.wf(),
    ensures
        match notice {
            Some(m) => departure_notice(old(session)@, client_id) == Some(m@),
            None => departure_notice(old(session)@, client_id) is None,
        },
        final(session)@ == old(session)@.after_departure(client_id),
        final(session)@.wf(),
{
    match session.client_left(client_id) {
        Departure::Unknown => None,
        Departure::Folded => Some(ServerMessage::SeatFolded(client_id)),
        Departure::Removed => Some(ServerMessage::SeatRemoved(client_id)),
    }
}

/// Begins play: the host notes it and gets the message that tells
/// everybody.
pub fn start_game(session: &mut Session) -> (m: ServerMessage)
    ensures
        m@ == MessageView::StartGame,
        final(session)@ == (SessionView { in_game: true, ..old(session)@ }),
{
    session.in_game = true;
    ServerMessage::StartGame
}

} // verus!

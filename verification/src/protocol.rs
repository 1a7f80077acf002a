//! How the copies of the table stay alike: what the host sends on is what
//! it has accepted itself, every other participant does with it what the
//! host did, and nobody carries an action out twice.

use crate::action::Action;
use crate::card::Card;
use crate::client;
use crate::message::{parse_message, wire_message, MessageView, WireError};
use crate::player::PlayerView;
use crate::rules::LobbyView;
use crate::round_trip::{lemma_message_is_written, lemma_message_round_trip};
use crate::server;
use crate::server::ReplyView;
use crate::session::{SessionView, SubmittedView};
use vstd::prelude::*;

verus! {

/// The host never sends on an action that it has turned down itself: an
/// action reaches the others only if it came from the client whose turn it
/// was and the rules accepted it on the host's table.
pub proof fn lemma_only_accepted_actions_are_broadcast(
    host: SessionView,
    sender: u64,
    action: Action,
    actor: u64,
)
    requires
        server::reply_to(host, sender, MessageView::Action(action, actor)).to_all() is Some,
    ensures
        actor == sender,
        host.lobby.is_turn_of(actor),
        host.lobby.verdict(action) is None,
        server::reply_to(host, sender, MessageView::Action(action, actor)) == ReplyView::Broadcast(
            MessageView::Action(action, actor),
        ),
        server::state_after(host, sender, MessageView::Action(action, actor)).lobby
            == host.lobby.after(action),
{
}

/// Whatever the host does not send on leaves its state as it was.
pub proof fn lemma_unsent_changes_nothing(host: SessionView, sender: u64, m: MessageView)
    requires
        server::reply_to(host, sender, m).to_all() is None,
    ensures
        server::state_after(host, sender, m) == host,
{
}

/// Whatever a participant drops leaves its state as it was.
pub proof fn lemma_dropped_changes_nothing(peer: SessionView, m: MessageView)
    requires
        client::event_of(peer, m) is Dropped,
    ensures
        client::state_after(peer, m) == peer,
{
}

/// A participant's own action, come back from the host, is not carried
/// out again.
pub proof fn lemma_own_action_is_applied_once(peer: SessionView, action: Action)
    ensures
        client::state_after(peer, MessageView::Action(action, peer.client_id)) == peer,
{
}

/// A participant whose table is like the host's stays so: when the host
/// sends on the message of some other client, the participant that takes
/// it in ends with a table like the one that the host has, and with its
/// own deck untouched.
pub proof fn lemma_peers_converge(
    host: SessionView,
    peer: SessionView,
    sender: u64,
    m: MessageView,
    sent: MessageView,
)
    requires
        host.lobby.alike(peer.lobby),
        sender != peer.client_id,
        server::reply_to(host, sender, m).to_all() == Some(sent),
    ensures
        client::state_after(peer, sent).lobby.alike(server::state_after(host, sender, m).lobby),
        client::state_after(peer, sent).lobby.deck == peer.lobby.deck,
        !(client::event_of(peer, sent) is Dropped),
{
}

/// The same over the wire: when the host sends on what the bytes of some
/// other client spelled, the bytes of what it sends bring a participant
/// whose table was like the host's to the table that the host has.
pub proof fn lemma_peers_converge_over_the_wire(
    host: SessionView,
    peer: SessionView,
    sender: u64,
    bytes: Seq<u8>,
    sent: MessageView,
)
    requires
        host.lobby.alike(peer.lobby),
        sender != peer.client_id,
        server::reply_to_bytes(host, sender, bytes).to_all() == Some(sent),
    ensures
        parse_message(wire_message(sent)) == Ok::<_, WireError>(sent),
        client::state_after_bytes(peer, wire_message(sent)).lobby.alike(
            server::state_after_bytes(host, sender, bytes).lobby,
        ),
        !(client::event_of_bytes(peer, wire_message(sent)) is Dropped),
{
    lemma_message_is_written(bytes);
    let m = parse_message(bytes)->Ok_0;
    lemma_peers_converge(host, peer, sender, m, sent);
    lemma_message_round_trip(sent);
}

/// Seating players leaves the deck alone.
pub proof fn lemma_seating_keeps_the_deck(offered: Seq<PlayerView>, deck: Seq<Card>)
    ensures
        LobbyView::seat_all(offered, deck).deck == deck,
    decreases offered.len(),
{
    if offered.len() > 0 {
        lemma_seating_keeps_the_deck(offered.drop_last(), deck);
    }
}

/// A participant that takes in the seats of a table on which nothing but
/// seating has happened, one after the other and starting from an empty
/// table, ends with a table like that one.
pub proof fn lemma_seats_rebuild_the_table(
    table: LobbyView,
    offered: Seq<PlayerView>,
    newcomer: SessionView,
)
    requires
        table.alike(LobbyView::seat_all(offered, table.deck)),
        newcomer.lobby.alike(LobbyView::empty(newcomer.lobby.deck)),
    ensures
        client::state_after_all(newcomer, server::roster(table.players)).lobby.alike(table),
        client::state_after_all(newcomer, server::roster(table.players)).client_id
            == newcomer.client_id,
    decreases offered.len(),
{
    let seats = server::roster(table.players);
    if offered.len() == 0 {
        assert(seats =~= Seq::<MessageView>::empty());
    } else {
        let before = LobbyView::seat_all(offered.drop_last(), table.deck);
        lemma_seating_keeps_the_deck(offered.drop_last(), table.deck);
        if before.accepts(offered.last()) {
            lemma_seats_rebuild_the_table(before, offered.drop_last(), newcomer);
            assert(seats.drop_last() =~= server::roster(before.players));
            assert(table.players.drop_last() =~= before.players);
        } else {
            lemma_seats_rebuild_the_table(table, offered.drop_last(), newcomer);
        }
    }
}

/// A newcomer catches up. Where the host has done nothing yet but seat
/// players, a participant that starts from an empty table and takes in
/// what the host tells it on being seated, first the seats taken before
/// and then its own, ends with a table like the one that the host has.
pub proof fn lemma_newcomer_catches_up(
    host: SessionView,
    offered: Seq<PlayerView>,
    newcomer: SessionView,
    p: PlayerView,
    seats: Seq<MessageView>,
    sent: MessageView,
)
    requires
        host.lobby.alike(LobbyView::seat_all(offered, host.lobby.deck)),
        newcomer.lobby.alike(LobbyView::empty(newcomer.lobby.deck)),
        server::reply_to(host, newcomer.client_id, MessageView::Player(p)) == ReplyView::Welcome(
            seats,
            sent,
        ),
    ensures
        client::state_after(client::state_after_all(newcomer, seats), sent).lobby.alike(
            server::state_after(host, newcomer.client_id, MessageView::Player(p)).lobby,
        ),
{
    lemma_seats_rebuild_the_table(host.lobby, offered, newcomer);
}

/// A client that goes away leaves the copies alike. When the host deals
/// with the lost connection and sends on what it did, a participant whose
/// table was like the host's and that takes the message in, directly or
/// from its bytes, ends with a table like the one that the host has: the
/// same seat is folded or gone, and the turn rests on the same seat.
/// Where the host sends nothing, its own table has not changed.
pub proof fn lemma_peers_converge_on_departure(
    host: SessionView,
    peer: SessionView,
    client_id: u64,
)
    requires
        host.lobby.alike(peer.lobby),
    ensures
        match server::departure_notice(host, client_id) {
            Some(sent) => {
                &&& client::state_after(peer, sent).lobby.alike(
                    host.after_departure(client_id).lobby,
                )
                &&& !(client::event_of(peer, sent) is Dropped)
                &&& parse_message(wire_message(sent)) == Ok::<_, WireError>(sent)
                &&& client::state_after_bytes(peer, wire_message(sent)) == client::state_after(
                    peer,
                    sent,
                )
            },
            None => host.after_departure(client_id) == host,
        },
{
    match server::departure_notice(host, client_id) {
        Some(sent) => {
            lemma_message_round_trip(sent);
            assert(host.lobby.seat_of(client_id) == peer.lobby.seat_of(client_id));
        },
        None => {},
    }
}

/// The participant that acts and the host agree. An action that the
/// participant carried out at once on a table like the host's is accepted
/// by the host, which sends it on unchanged and ends with the table that
/// the participant already has; and when it comes back to the participant
/// it changes nothing.
pub proof fn lemma_submitter_and_host_agree(
    host: SessionView,
    peer: SessionView,
    action: Action,
    sent: MessageView,
)
    requires
        host.lobby.alike(peer.lobby),
        peer.submitted(action) == SubmittedView::Send(sent),
    ensures
        sent == MessageView::Action(action, peer.client_id),
        server::reply_to(host, peer.client_id, sent) == ReplyView::Broadcast(sent),
        server::state_after(host, peer.client_id, sent).lobby.alike(
            peer.after_submit(action).lobby,
        ),
        client::state_after(peer.after_submit(action), sent) == peer.after_submit(action),
{
}

/// An action that the rules turn down is told to the player that asked
/// for it and to nobody else, and the table stays as it was.
pub proof fn lemma_refusal_stays_local(peer: SessionView, action: Action)
    requires
        !(peer.submitted(action) is Send),
    ensures
        peer.after_submit(action) == peer,
{
}

} // verus!

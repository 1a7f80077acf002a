//! What travels between the participants, and its form in bytes.
//!
//! Every number is written with a fixed width, least significant byte
//! first. A message starts with a 32-bit tag: 0 for a player, 1 for an
//! action, 2 for the start of the game, 3 for a seat that was folded
//! because its client went away, 4 for a seat that was taken away for the
//! same reason; the last two are followed by the client in 64 bits. An
//! action is a 32-bit tag (check 0,
//! call 1, raise 2, fold 3, all in 4), followed for a raise alone by the
//! amount in 32 bits. A player is the name (its length in bytes as 64 bits,
//! then its UTF-8 bytes), the client in 64 bits, the position in one byte,
//! the stack in 32 bits, one byte each for "folded" and "all in" (0 or 1),
//! and the stake in 32 bits. The cards a player holds do not travel.

use crate::action::Action;
use crate::player::{Player, PlayerView};
use crate::wire::{
    bits_i32, get_le, i32_bits, le_bytes, le_value, lemma_le_value_bound, lemma_pow256_values,
    put_le,
};
use crate::round_trip::{
    lemma_action_round_trip, lemma_message_is_written, lemma_message_round_trip,
    lemma_player_round_trip, text_fits,
};
use vstd::prelude::*;
use vstd::slice::{slice_subrange, slice_to_vec};
use vstd::utf8::{
    decode_utf8, encode_utf8, encode_utf8_decode_utf8, encode_utf8_valid_utf8, valid_utf8,
};

verus! {

/// A message between participants.
#[derive(Debug, PartialEq, Eq)]
pub enum ServerMessage {
    /// A player asks to be seated, or has been seated.
    Player(Player),
    /// The action of the client named, which the sender has accepted.
    Action(Action, u64),
    /// The game begins.
    StartGame,
    /// The client named went away during play: its seat is folded.
    SeatFolded(u64),
    /// The client named went away before play began: its seat is taken
    /// away.
    SeatRemoved(u64),
}

/// A message as plain values.
pub enum MessageView {
    Player(PlayerView),
    Action(Action, u64),
    StartGame,
    SeatFolded(u64),
    SeatRemoved(u64),
}

impl View for ServerMessage {
    type V = MessageView;

    open spec fn view(&self) -> MessageView {
        match self {
            ServerMessage::Player(p) => MessageView::Player(p@),
            ServerMessage::Action(a, id) => MessageView::Action(*a, *id),
            ServerMessage::StartGame => MessageView::StartGame,
            ServerMessage::SeatFolded(id) => MessageView::SeatFolded(*id),
            ServerMessage::SeatRemoved(id) => MessageView::SeatRemoved(*id),
        }
    }
}

impl Clone for ServerMessage {
    fn clone(&self) -> (m: Self)
        ensures
            m@ == self@,
    {
        match self {
            ServerMessage::Player(p) => ServerMessage::Player(p.clone()),
            ServerMessage::Action(a, id) => ServerMessage::Action(*a, *id),
            ServerMessage::StartGame => ServerMessage::StartGame,
            ServerMessage::SeatFolded(id) => ServerMessage::SeatFolded(*id),
            ServerMessage::SeatRemoved(id) => ServerMessage::SeatRemoved(*id),
        }
    }
}

/// Why bytes are no message.
#[derive(Clone, Copy, Debug, PartialEq, Eq, Structural)]
pub enum WireError {
    /// The bytes end before the message does.
    UnexpectedEnd,
    /// A tag names no kind of message or action.
    UnknownTag,
    /// A byte that must be 0 or 1 is neither.
    InvalidFlag,
    /// A name is not UTF-8.
    InvalidText,
    /// Bytes follow the end of the message.
    TrailingBytes,
}

impl PlayerView {
    /// The player as it arrives after travelling: without cards.
    pub open spec fn on_wire(self) -> PlayerView {
        PlayerView { hand: Seq::empty(), ..self }
    }
}

impl MessageView {
    /// The message as it arrives after travelling: a player comes without
    /// cards, everything else as it was.
    pub open spec fn on_wire(self) -> MessageView {
        match self {
            MessageView::Player(p) => MessageView::Player(p.on_wire()),
            _ => self,
        }
    }
}

/// The tag of an action.
pub open spec fn action_tag(a: Action) -> nat {
    match a {
        Action::Check => 0,
        Action::Call => 1,
        Action::Raise(_) => 2,
        Action::Fold => 3,
        Action::AllIn => 4,
    }
}

/// The byte of a yes or no.
pub open spec fn flag_byte(b: bool) -> u8 {
    if b {
        1
    } else {
        0
    }
}

/// The bytes of a text: its length in bytes, then its UTF-8 bytes.
pub open spec fn wire_text(text: Seq<char>) -> Seq<u8> {
    le_bytes(encode_utf8(text).len(), 8) + encode_utf8(text)
}

/// The bytes of an action.
pub open spec fn wire_action(a: Action) -> Seq<u8> {
    match a {
        Action::Raise(amount) => le_bytes(2, 4) + le_bytes(i32_bits(amount), 4),
        _ => le_bytes(action_tag(a), 4),
    }
}

/// The bytes of a player.
pub open spec fn wire_player(p: PlayerView) -> Seq<u8> {
    wire_text(p.name) + le_bytes(p.client_id as nat, 8) + seq![p.position] + le_bytes(
        i32_bits(p.money),
        4,
    ) + seq![flag_byte(p.is_folded)] + seq![flag_byte(p.is_all_in)] + le_bytes(
        i32_bits(p.bet_this_turn),
        4,
    )
}

/// The bytes of a message.
pub open spec fn wire_message(m: MessageView) -> Seq<u8> {
    match m {
        MessageView::Player(p) => le_bytes(0, 4) + wire_player(p),
        MessageView::Action(a, id) => le_bytes(1, 4) + wire_action(a) + le_bytes(id as nat, 8),
        MessageView::StartGame => le_bytes(2, 4),
        MessageView::SeatFolded(id) => le_bytes(3, 4) + le_bytes(id as nat, 8),
        MessageView::SeatRemoved(id) => le_bytes(4, 4) + le_bytes(id as nat, 8),
    }
}

/// Appends a text: its length in bytes, then its UTF-8 bytes.
fn put_text(out: &mut Vec<u8>, text: &str)
    ensures
        final(out)@ == old(out)@ + wire_text(text@),
        text_fits(text@),
{
    let bytes = text.as_bytes();
    proof {
        lemma_pow256_values();
    }
    put_le(out, bytes.len() as u64, 8);
    let mut i: usize = 0;
    while i < bytes.len()
        invariant
            i <= bytes.len(),
            bytes@ == encode_utf8(text@),
            out@ == old(out)@ + le_bytes(bytes@.len(), 8) + bytes@.take(i as int),
        decreases bytes.len() - i,
    {
        out.push(bytes[i]);
        i += 1;
    }
}

/// Appends a signed 32-bit integer.
fn put_i32(out: &mut Vec<u8>, x: i32)
    ensures
        final(out)@ == old(out)@ + le_bytes(i32_bits(x), 4),
{
    let bits: u64 = if x >= 0 {
        x as u64
    } else {
        (x as i64 + 0x1_0000_0000) as u64
    };
    put_le(out, bits, 4);
}

/// Appends a yes or no.
fn put_flag(out: &mut Vec<u8>, b: bool)
    ensures
        final(out)@ == old(out)@ + seq![flag_byte(b)],
{
    out.push(if b {
        1
    } else {
        0
    });
}

/// Appends an action.
fn put_action(out: &mut Vec<u8>, a: Action)
    ensures
        final(out)@ == old(out)@ + wire_action(a),
{
    match a {
        Action::Check => put_le(out, 0, 4),
        Action::Call => put_le(out, 1, 4),
        Action::Raise(amount) => {
            put_le(out, 2, 4);
            put_i32(out, amount);
        },
        Action::Fold => put_le(out, 3, 4),
        Action::AllIn => put_le(out, 4, 4),
    }
}

/// Appends a player.
fn put_player(out: &mut Vec<u8>, p: &Player)
    ensures
        final(out)@ == old(out)@ + wire_player(p@),
        text_fits(p@.name),
{
    put_text(out, p.name.as_str());
    put_le(out, p.client_id, 8);
    out.push(p.position);
    put_i32(out, p.money);
    put_flag(out, p.is_folded);
    put_flag(out, p.is_all_in);
    put_i32(out, p.bet_this_turn);
}

impl Action {
    /// The bytes of the action. Read back, they give the action.
    pub fn to_bytes(&self) -> (bytes: Vec<u8>)
        ensures
            bytes@ == wire_action(*self),
            parse_end(parse_action(bytes@)) == Ok::<_, WireError>(*self),
    {
        let mut out: Vec<u8> = Vec::new();
        put_action(&mut out, *self);
        proof {
            lemma_action_round_trip(*self);
        }
        out
    }
}

impl Player {
    /// The bytes of the player. The cards held are left out, so read
    /// back the bytes give the player without cards.
    pub fn to_bytes(&self) -> (bytes: Vec<u8>)
        ensures
            bytes@ == wire_player(self@),
            parse_end(parse_player(bytes@)) == Ok::<_, WireError>(self@.on_wire()),
    {
        let mut out: Vec<u8> = Vec::new();
        put_player(&mut out, self);
        proof {
            lemma_player_round_trip(self@);
        }
        out
    }
}

impl ServerMessage {
    /// The bytes of the message. Read back, they give the message; a
    /// player in it comes back without cards.
    pub fn to_bytes(&self) -> (bytes: Vec<u8>)
        ensures
            bytes@ == wire_message(self@),
            parse_message(bytes@) == Ok::<_, WireError>(self@.on_wire()),
    {
        let mut out: Vec<u8> = Vec::new();
        match self {
            ServerMessage::Player(p) => {
                put_le(&mut out, 0, 4);
                put_player(&mut out, p);
            },
            ServerMessage::Action(a, id) => {
                put_le(&mut out, 1, 4);
                put_action(&mut out, *a);
                put_le(&mut out, *id, 8);
            },
            ServerMessage::StartGame => {
                put_le(&mut out, 2, 4);
            },
            ServerMessage::SeatFolded(id) => {
                put_le(&mut out, 3, 4);
                put_le(&mut out, *id, 8);
            },
            ServerMessage::SeatRemoved(id) => {
                put_le(&mut out, 4, 4);
                put_le(&mut out, *id, 8);
            },
        }
        proof {
            lemma_message_round_trip(self@);
        }
        out
    }
}

/// Reads a number of `n` bytes off the front: the number and what is left.
pub open spec fn parse_uint(b: Seq<u8>, n: nat) -> Result<(nat, Seq<u8>), WireError> {
    if b.len() < n {
        Err(WireError::UnexpectedEnd)
    } else {
        Ok((le_value(b.take(n as int)), b.skip(n as int)))
    }
}

/// Reads a signed 32-bit integer off the front.
pub open spec fn parse_i32(b: Seq<u8>) -> Result<(i32, Seq<u8>), WireError> {
    match parse_uint(b, 4) {
        Err(e) => Err(e),
        Ok((bits, rest)) => Ok((bits_i32(bits), rest)),
    }
}

/// Reads a yes or no off the front.
pub open spec fn parse_flag(b: Seq<u8>) -> Result<(bool, Seq<u8>), WireError> {
    if b.len() < 1 {
        Err(WireError::UnexpectedEnd)
    } else if b[0] > 1 {
        Err(WireError::InvalidFlag)
    } else {
        Ok((b[0] == 1, b.skip(1)))
    }
}

/// Reads a text off the front.
pub open spec fn parse_text(b: Seq<u8>) -> Result<(Seq<char>, Seq<u8>), WireError> {
    match parse_uint(b, 8) {
        Err(e) => Err(e),
        Ok((len, rest)) => if rest.len() < len {
            Err(WireError::UnexpectedEnd)
        } else if !valid_utf8(rest.take(len as int)) {
            Err(WireError::InvalidText)
        } else {
            Ok((decode_utf8(rest.take(len as int)), rest.skip(len as int)))
        },
    }
}

/// Reads an action off the front.
pub open spec fn parse_action(b: Seq<u8>) -> Result<(Action, Seq<u8>), WireError> {
    match parse_uint(b, 4) {
        Err(e) => Err(e),
        Ok((tag, rest)) => if tag == 0 {
            Ok((Action::Check, rest))
        } else if tag == 1 {
            Ok((Action::Call, rest))
        } else if tag == 2 {
            match parse_i32(rest) {
                Err(e) => Err(e),
                Ok((amount, rest)) => Ok((Action::Raise(amount), rest)),
            }
        } else if tag == 3 {
            Ok((Action::Fold, rest))
        } else if tag == 4 {
            Ok((Action::AllIn, rest))
        } else {
            Err(WireError::UnknownTag)
        },
    }
}

/// Reads a player off the front. The player comes without cards.
pub open spec fn parse_player(b: Seq<u8>) -> Result<(PlayerView, Seq<u8>), WireError> {
    match parse_text(b) {
        Err(e) => Err(e),
        Ok((name, b)) => match parse_uint(b, 8) {
            Err(e) => Err(e),
            Ok((client_id, b)) => match parse_uint(b, 1) {
                Err(e) => Err(e),
                Ok((position, b)) => match parse_i32(b) {
                    Err(e) => Err(e),
                    Ok((money, b)) => match parse_flag(b) {
                        Err(e) => Err(e),
                        Ok((is_folded, b)) => match parse_flag(b) {
                            Err(e) => Err(e),
                            Ok((is_all_in, b)) => match parse_i32(b) {
                                Err(e) => Err(e),
                                Ok((bet_this_turn, b)) => Ok(
                                    (
                                        PlayerView {
                                            name,
                                            hand: Seq::empty(),
                                            money,
                                            position: position as u8,
                                            is_all_in,
                                            is_folded,
                                            bet_this_turn,
                                            client_id: client_id as u64,
                                        },
                                        b,
                                    ),
                                ),
                            },
                        },
                    },
                },
            },
        },
    }
}

/// What is read must be all there is.
pub open spec fn parse_end<T>(r: Result<(T, Seq<u8>), WireError>) -> Result<T, WireError> {
    match r {
        Err(e) => Err(e),
        Ok((v, rest)) => if rest.len() > 0 {
            Err(WireError::TrailingBytes)
        } else {
            Ok(v)
        },
    }
}

/// Reads an action with the client that took it off the front.
pub open spec fn parse_action_of(b: Seq<u8>) -> Result<((Action, u64), Seq<u8>), WireError> {
    match parse_action(b) {
        Err(e) => Err(e),
        Ok((a, rest)) => match parse_uint(rest, 8) {
            Err(e) => Err(e),
            Ok((id, rest)) => Ok(((a, id as u64), rest)),
        },
    }
}

/// The message that bytes spell, or why they spell none.
pub open spec fn parse_message(b: Seq<u8>) -> Result<MessageView, WireError> {
    match parse_uint(b, 4) {
        Err(e) => Err(e),
        Ok((tag, rest)) => if tag == 0 {
            match parse_end(parse_player(rest)) {
                Err(e) => Err(e),
                Ok(p) => Ok(MessageView::Player(p)),
            }
        } else if tag == 1 {
            match parse_end(parse_action_of(rest)) {
                Err(e) => Err(e),
                Ok((a, id)) => Ok(MessageView::Action(a, id)),
            }
        } else if tag == 2 {
            if rest.len() > 0 {
                Err(WireError::TrailingBytes)
            } else {
                Ok(MessageView::StartGame)
            }
        } else if tag == 3 {
            match parse_end(parse_uint(rest, 8)) {
                Err(e) => Err(e),
                Ok(id) => Ok(MessageView::SeatFolded(id as u64)),
            }
        } else if tag == 4 {
            match parse_end(parse_uint(rest, 8)) {
                Err(e) => Err(e),
                Ok(id) => Ok(MessageView::SeatRemoved(id as u64)),
            }
        } else {
            Err(WireError::UnknownTag)
        },
    }
}

/// Turns bytes into a string if they are the UTF-8 form of one.
///
/// Calls `String::from_utf8`, which checks that the bytes are valid UTF-8
/// and, if they are, hands them back as a string without changing them.
/// So a string that comes back has exactly these bytes as its UTF-8 form,
/// and none comes back only where the bytes are not valid UTF-8.
#[verifier::external_body]
fn text_from_utf8(bytes: Vec<u8>) -> (r: Option<String>)
    ensures
        match r {
            Some(text) => encode_utf8(text@) == bytes@,
            None => !valid_utf8(bytes@),
        },
{
    match String::from_utf8(bytes) {
        Ok(text) => Some(text),
        Err(_) => None,
    }
}

/// Reads a number of `n` bytes at `at`; gives it with the place after it.
fn read_uint(bytes: &[u8], at: usize, n: usize) -> (r: Result<(u64, usize), WireError>)
    requires
        n <= 8,
        at <= bytes.len(),
    ensures
        match (r, parse_uint(bytes@.skip(at as int), n as nat)) {
            (Ok((v, next)), Ok((sv, rest))) => v == sv && at <= next <= bytes.len() && rest
                == bytes@.skip(next as int),
            (Err(e), Err(se)) => e == se,
            _ => false,
        },
{
    match get_le(bytes, at, n) {
        None => Err(WireError::UnexpectedEnd),
        Some(v) => {
            proof {
                assert(bytes@.skip(at as int).take(n as int) =~= bytes@.subrange(
                    at as int,
                    at + n,
                ));
            }
            Ok((v, at + n))
        },
    }
}

/// Reads a signed 32-bit integer at `at`.
fn read_i32(bytes: &[u8], at: usize) -> (r: Result<(i32, usize), WireError>)
    requires
        at <= bytes.len(),
    ensures
        match (r, parse_i32(bytes@.skip(at as int))) {
            (Ok((v, next)), Ok((sv, rest))) => v == sv && at <= next <= bytes.len() && rest
                == bytes@.skip(next as int),
            (Err(e), Err(se)) => e == se,
            _ => false,
        },
{
    match read_uint(bytes, at, 4) {
        Err(e) => Err(e),
        Ok((bits, next)) => {
            proof {
                lemma_le_value_bound(bytes@.skip(at as int).take(4));
                lemma_pow256_values();
            }
            let v: i32 = if bits < 0x8000_0000 {
                bits as i32
            } else {
                (bits as i64 - 0x1_0000_0000) as i32
            };
            Ok((v, next))
        },
    }
}

/// Reads a yes or no at `at`.
fn read_flag(bytes: &[u8], at: usize) -> (r: Result<(bool, usize), WireError>)
    requires
        at <= bytes.len(),
    ensures
        match (r, parse_flag(bytes@.skip(at as int))) {
            (Ok((v, next)), Ok((sv, rest))) => v == sv && at <= next <= bytes.len() && rest
                == bytes@.skip(next as int),
            (Err(e), Err(se)) => e == se,
            _ => false,
        },
{
    if at >= bytes.len() {
        return Err(WireError::UnexpectedEnd);
    }
    let b = bytes[at];
    if b > 1 {
        Err(WireError::InvalidFlag)
    } else {
        Ok((b == 1, at + 1))
    }
}

/// Reads a text at `at`.
fn read_text(bytes: &[u8], at: usize) -> (r: Result<(String, usize), WireError>)
    requires
        at <= bytes.len(),
    ensures
        match (r, parse_text(bytes@.skip(at as int))) {
            (Ok((v, next)), Ok((sv, rest))) => v@ == sv && at <= next <= bytes.len() && rest
                == bytes@.skip(next as int),
            (Err(e), Err(se)) => e == se,
            _ => false,
        },
{
    match read_uint(bytes, at, 8) {
        Err(e) => Err(e),
        Ok((len, next)) => {
            if ((bytes.len() - next) as u64) < len {
                return Err(WireError::UnexpectedEnd);
            }
            let end = next + len as usize;
            let raw = slice_to_vec(slice_subrange(bytes, next, end));
            proof {
                assert(bytes@.skip(next as int).take(len as int) =~= raw@);
            }
            match text_from_utf8(raw) {
                None => Err(WireError::InvalidText),
                Some(text) => {
                    proof {
                        encode_utf8_valid_utf8(text@);
                        encode_utf8_decode_utf8(text@);
                    }
                    Ok((text, end))
                },
            }
        },
    }
}

/// Reads an action at `at`.
fn read_action(bytes: &[u8], at: usize) -> (r: Result<(Action, usize), WireError>)
    requires
        at <= bytes.len(),
    ensures
        match (r, parse_action(bytes@.skip(at as int))) {
            (Ok((v, next)), Ok((sv, rest))) => v == sv && at <= next <= bytes.len() && rest
                == bytes@.skip(next as int),
            (Err(e), Err(se)) => e == se,
            _ => false,
        },
{
    match read_uint(bytes, at, 4) {
        Err(e) => Err(e),
        Ok((tag, next)) => {
            if tag == 0 {
                Ok((Action::Check, next))
            } else if tag == 1 {
                Ok((Action::Call, next))
            } else if tag == 2 {
                match read_i32(bytes, next) {
                    Err(e) => Err(e),
                    Ok((amount, next)) => Ok((Action::Raise(amount), next)),
                }
            } else if tag == 3 {
                Ok((Action::Fold, next))
            } else if tag == 4 {
                Ok((Action::AllIn, next))
            } else {
                Err(WireError::UnknownTag)
            }
        },
    }
}

/// Reads a player at `at`.
fn read_player(bytes: &[u8], at: usize) -> (r: Result<(Player, usize), WireError>)
    requires
        at <= bytes.len(),
    ensures
        match (r, parse_player(bytes@.skip(at as int))) {
            (Ok((v, next)), Ok((sv, rest))) => v@ == sv && at <= next <= bytes.len() && rest
                == bytes@.skip(next as int),
            (Err(e), Err(se)) => e == se,
            _ => false,
        },
{
    let (name, at) = match read_text(bytes, at) {
        Err(e) => { return Err(e); },
        Ok(found) => found,
    };
    let (client_id, at) = match read_uint(bytes, at, 8) {
        Err(e) => { return Err(e); },
        Ok(found) => found,
    };
    let (position, at) = match read_uint(bytes, at, 1) {
        Err(e) => { return Err(e); },
        Ok(found) => found,
    };
    proof {
        lemma_pow256_values();
        lemma_le_value_bound(bytes@.skip(at - 1).take(1));
    }
    let (money, at) = match read_i32(bytes, at) {
        Err(e) => { return Err(e); },
        Ok(found) => found,
    };
    let (is_folded, at) = match read_flag(bytes, at) {
        Err(e) => { return Err(e); },
        Ok(found) => found,
    };
    let (is_all_in, at) = match read_flag(bytes, at) {
        Err(e) => { return Err(e); },
        Ok(found) => found,
    };
    let (bet_this_turn, at) = match read_i32(bytes, at) {
        Err(e) => { return Err(e); },
        Ok(found) => found,
    };
    let player = Player {
        name,
        hand: Vec::new(),
        money,
        position: position as u8,
        is_all_in,
        is_folded,
        bet_this_turn,
        client_id,
    };
    Ok((player, at))
}

impl Action {
    /// The action that the bytes spell, or why they spell none.
    pub fn from_bytes(bytes: &[u8]) -> (r: Result<Action, WireError>)
        ensures
            r == parse_end(parse_action(bytes@)),
    {
        assert(bytes@.skip(0) =~= bytes@);
        match read_action(bytes, 0) {
            Err(e) => Err(e),
            Ok((a, next)) => {
                if next < bytes.len() {
                    Err(WireError::TrailingBytes)
                } else {
                    Ok(a)
                }
            },
        }
    }
}

impl Player {
    /// The player that the bytes spell, or why they spell none. The player
    /// comes without cards.
    pub fn from_bytes(bytes: &[u8]) -> (r: Result<Player, WireError>)
        ensures
            match (r, parse_end(parse_player(bytes@))) {
                (Ok(p), Ok(sp)) => p@ == sp,
                (Err(e), Err(se)) => e == se,
                _ => false,
            },
    {
        assert(bytes@.skip(0) =~= bytes@);
        match read_player(bytes, 0) {
            Err(e) => Err(e),
            Ok((p, next)) => {
                if next < bytes.len() {
                    Err(WireError::TrailingBytes)
                } else {
                    Ok(p)
                }
            },
        }
    }
}

impl ServerMessage {
    /// The message that the bytes spell, or why they spell none. Only the
    /// bytes that `to_bytes` gives for a message spell that message.
    pub fn from_bytes(bytes: &[u8]) -> (r: Result<ServerMessage, WireError>)
        ensures
            match (r, parse_message(bytes@)) {
                (Ok(m), Ok(sm)) => m@ == sm,
                (Err(e), Err(se)) => e == se,
                _ => false,
            },
            r matches Ok(m) ==> wire_message(m@) == bytes@,
    {
        proof {
            lemma_message_is_written(bytes@);
        }
        assert(bytes@.skip(0) =~= bytes@);
        let (tag, at) = match read_uint(bytes, 0, 4) {
            Err(e) => { return Err(e); },
            Ok(found) => found,
        };
        if tag == 0 {
            match read_player(bytes, at) {
                Err(e) => Err(e),
                Ok((p, next)) => {
                    if next < bytes.len() {
                        Err(WireError::TrailingBytes)
                    } else {
                        Ok(ServerMessage::Player(p))
                    }
                },
            }
        } else if tag == 1 {
            let (a, at) = match read_action(bytes, at) {
                Err(e) => { return Err(e); },
                Ok(found) => found,
            };
            let (id, at) = match read_uint(bytes, at, 8) {
                Err(e) => { return Err(e); },
                Ok(found) => found,
            };
            if at < bytes.len() {
                Err(WireError::TrailingBytes)
            } else {
                Ok(ServerMessage::Action(a, id))
            }
        } else if tag == 2 {
            if at < bytes.len() {
                Err(WireError::TrailingBytes)
            } else {
                Ok(ServerMessage::StartGame)
            }
        } else if tag == 3 || tag == 4 {
            let (id, at) = match read_uint(bytes, at, 8) {
                Err(e) => { return Err(e); },
                Ok(found) => found,
            };
            if at < bytes.len() {
                Err(WireError::TrailingBytes)
            } else if tag == 3 {
                Ok(ServerMessage::SeatFolded(id))
            } else {
                Ok(ServerMessage::SeatRemoved(id))
            }
        } else {
            Err(WireError::UnknownTag)
        }
    }
}

} // verus!

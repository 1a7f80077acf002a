//! Bytes and messages answer each other: what was written is read back as
//! it was, and what can be read is what writing would have produced.

use crate::action::Action;
use crate::message::{
    flag_byte, parse_action, parse_end, parse_flag, parse_i32, parse_message, parse_player,
    parse_text, parse_uint, wire_action, wire_message, wire_player, wire_text, MessageView,
    WireError,
};
use crate::player::PlayerView;
use crate::wire::{
    i32_bits, le_bytes, lemma_i32_bits, lemma_le_bytes_len, lemma_le_canonical,
    lemma_le_round_trip, lemma_le_value_bound, lemma_pow256_values, pow256,
};
use vstd::prelude::*;
use vstd::utf8::{
    decode_utf8_encode_utf8, encode_utf8, encode_utf8_decode_utf8, encode_utf8_valid_utf8,
};

verus! {

/// Whether a text is short enough for its length to be written in 64 bits.
/// Every string that a machine holds is.
pub open spec fn text_fits(text: Seq<char>) -> bool {
    encode_utf8(text).len() < pow256(8)
}

/// Whether the name in a message is short enough to be written.
pub open spec fn message_fits(m: MessageView) -> bool {
    m matches MessageView::Player(p) ==> text_fits(p.name)
}

/// A number that fits its width is read back, with what follows it
/// untouched.
pub proof fn lemma_read_back_uint(x: nat, n: nat, rest: Seq<u8>)
    requires
        x < pow256(n),
    ensures
        parse_uint(le_bytes(x, n) + rest, n) == Ok::<_, WireError>((x, rest)),
{
    lemma_le_bytes_len(x, n);
    lemma_le_round_trip(x, n);
    assert((le_bytes(x, n) + rest).take(n as int) =~= le_bytes(x, n));
    assert((le_bytes(x, n) + rest).skip(n as int) =~= rest);
}

/// A signed integer is read back.
pub proof fn lemma_read_back_i32(x: i32, rest: Seq<u8>)
    ensures
        parse_i32(le_bytes(i32_bits(x), 4) + rest) == Ok::<_, WireError>((x, rest)),
{
    lemma_i32_bits(x, 0);
    lemma_pow256_values();
    lemma_read_back_uint(i32_bits(x), 4, rest);
}

/// A yes or no is read back.
pub proof fn lemma_read_back_flag(b: bool, rest: Seq<u8>)
    ensures
        parse_flag(seq![flag_byte(b)] + rest) == Ok::<_, WireError>((b, rest)),
{
    assert((seq![flag_byte(b)] + rest).skip(1) =~= rest);
}

/// A text is read back.
pub proof fn lemma_read_back_text(text: Seq<char>, rest: Seq<u8>)
    requires
        text_fits(text),
    ensures
        parse_text(wire_text(text) + rest) == Ok::<_, WireError>((text, rest)),
{
    let raw = encode_utf8(text);
    assert(wire_text(text) + rest =~= le_bytes(raw.len(), 8) + (raw + rest));
    lemma_read_back_uint(raw.len(), 8, raw + rest);
    assert((raw + rest).take(raw.len() as int) =~= raw);
    assert((raw + rest).skip(raw.len() as int) =~= rest);
    encode_utf8_valid_utf8(text);
    encode_utf8_decode_utf8(text);
}

/// An action is read back.
pub proof fn lemma_read_back_action(a: Action, rest: Seq<u8>)
    ensures
        parse_action(wire_action(a) + rest) == Ok::<_, WireError>((a, rest)),
{
    lemma_pow256_values();
    match a {
        Action::Raise(amount) => {
            let tail = le_bytes(i32_bits(amount), 4) + rest;
            assert(wire_action(a) + rest =~= le_bytes(2, 4) + tail);
            lemma_read_back_uint(2, 4, tail);
            lemma_read_back_i32(amount, rest);
        },
        Action::Check => lemma_read_back_uint(0, 4, rest),
        Action::Call => lemma_read_back_uint(1, 4, rest),
        Action::Fold => lemma_read_back_uint(3, 4, rest),
        Action::AllIn => lemma_read_back_uint(4, 4, rest),
    }
}

/// Joining three rows of bytes gives the same whichever two are joined
/// first.
proof fn lemma_join(x: Seq<u8>, y: Seq<u8>, z: Seq<u8>)
    ensures
        (x + y) + z == x + (y + z),
{
}

/// One byte is read back.
pub proof fn lemma_read_back_byte(x: u8, rest: Seq<u8>)
    ensures
        parse_uint(seq![x] + rest, 1) == Ok::<_, WireError>((x as nat, rest)),
{
    lemma_pow256_values();
    assert(le_bytes(x as nat, 1) =~= seq![x]) by {
        reveal_with_fuel(le_bytes, 2);
    }
    lemma_read_back_uint(x as nat, 1, rest);
}

/// A player is read back, without the cards.
pub proof fn lemma_read_back_player(p: PlayerView, rest: Seq<u8>)
    requires
        text_fits(p.name),
    ensures
        parse_player(wire_player(p) + rest) == Ok::<_, WireError>((p.on_wire(), rest)),
{
    let f1 = wire_text(p.name);
    let f2 = le_bytes(p.client_id as nat, 8);
    let f3 = seq![p.position];
    let f4 = le_bytes(i32_bits(p.money), 4);
    let f5 = seq![flag_byte(p.is_folded)];
    let f6 = seq![flag_byte(p.is_all_in)];
    let f7 = le_bytes(i32_bits(p.bet_this_turn), 4);
    let b7 = f7 + rest;
    let b6 = f6 + b7;
    let b5 = f5 + b6;
    let b4 = f4 + b5;
    let b3 = f3 + b4;
    let b2 = f2 + b3;
    let b1 = f1 + b2;
    assert(wire_player(p) + rest == b1) by {
        lemma_join(f1 + f2 + f3 + f4 + f5 + f6, f7, rest);
        lemma_join(f1 + f2 + f3 + f4 + f5, f6, b7);
        lemma_join(f1 + f2 + f3 + f4, f5, b6);
        lemma_join(f1 + f2 + f3, f4, b5);
        lemma_join(f1 + f2, f3, b4);
        lemma_join(f1, f2, b3);
    }
    assert(parse_text(b1) == Ok::<_, WireError>((p.name, b2))) by {
        lemma_read_back_text(p.name, b2);
    }
    assert(parse_uint(b2, 8) == Ok::<_, WireError>((p.client_id as nat, b3))) by {
        lemma_pow256_values();
        lemma_read_back_uint(p.client_id as nat, 8, b3);
    }
    assert(parse_uint(b3, 1) == Ok::<_, WireError>((p.position as nat, b4))) by {
        lemma_read_back_byte(p.position, b4);
    }
    assert(parse_i32(b4) == Ok::<_, WireError>((p.money, b5))) by {
        lemma_read_back_i32(p.money, b5);
    }
    assert(parse_flag(b5) == Ok::<_, WireError>((p.is_folded, b6))) by {
        lemma_read_back_flag(p.is_folded, b6);
    }
    assert(parse_flag(b6) == Ok::<_, WireError>((p.is_all_in, b7))) by {
        lemma_read_back_flag(p.is_all_in, b7);
    }
    assert(parse_i32(b7) == Ok::<_, WireError>((p.bet_this_turn, rest))) by {
        lemma_read_back_i32(p.bet_this_turn, rest);
    }
}

/// Round trip of an action: the bytes of an action spell that action.
pub proof fn lemma_action_round_trip(a: Action)
    ensures
        parse_end(parse_action(wire_action(a))) == Ok::<_, WireError>(a),
{
    lemma_read_back_action(a, Seq::empty());
}

/// Round trip of a player: the bytes of a player spell that player,
/// without the cards.
pub proof fn lemma_player_round_trip(p: PlayerView)
    requires
        text_fits(p.name),
    ensures
        parse_end(parse_player(wire_player(p))) == Ok::<_, WireError>(p.on_wire()),
{
    lemma_read_back_player(p, Seq::empty());
}

/// Round trip of a message: the bytes of a message spell that message. A
/// player in it comes back without the cards, and so as it was if it held
/// none.
pub proof fn lemma_message_round_trip(m: MessageView)
    requires
        message_fits(m),
    ensures
        parse_message(wire_message(m)) == Ok::<_, WireError>(m.on_wire()),
        m matches MessageView::Player(p) && p.hand.len() == 0 ==> parse_message(wire_message(m))
            == Ok::<_, WireError>(m),
{
    lemma_pow256_values();
    let none = Seq::<u8>::empty();
    match m {
        MessageView::Player(p) => {
            lemma_read_back_uint(0, 4, wire_player(p));
            lemma_player_round_trip(p);
            if p.hand.len() == 0 {
                assert(p.hand =~= Seq::empty());
            }
        },
        MessageView::Action(a, id) => {
            let tail = wire_action(a) + le_bytes(id as nat, 8);
            assert(wire_message(m) =~= le_bytes(1, 4) + tail);
            lemma_read_back_uint(1, 4, tail);
            lemma_read_back_action(a, le_bytes(id as nat, 8));
            lemma_read_back_uint(id as nat, 8, none);
        },
        MessageView::StartGame => {
            lemma_read_back_uint(2, 4, none);
        },
        MessageView::SeatFolded(id) => {
            lemma_read_back_uint(3, 4, le_bytes(id as nat, 8));
            lemma_read_back_uint(id as nat, 8, none);
        },
        MessageView::SeatRemoved(id) => {
            lemma_read_back_uint(4, 4, le_bytes(id as nat, 8));
            lemma_read_back_uint(id as nat, 8, none);
        },
    }
}

/// A number that can be read was written as `le_bytes` writes it.
pub proof fn lemma_uint_is_written(b: Seq<u8>, n: nat)
    ensures
        parse_uint(b, n) matches Ok((v, rest)) ==> b == le_bytes(v, n) + rest && v < pow256(n),
{
    if b.len() >= n {
        lemma_le_canonical(b.take(n as int));
        lemma_le_value_bound(b.take(n as int));
    }
}

/// A signed integer that can be read was written as writing writes it.
pub proof fn lemma_i32_is_written(b: Seq<u8>)
    ensures
        parse_i32(b) matches Ok((x, rest)) ==> b == le_bytes(i32_bits(x), 4) + rest,
{
    lemma_uint_is_written(b, 4);
    lemma_pow256_values();
    if let Ok((bits, rest)) = parse_uint(b, 4) {
        lemma_i32_bits(0, bits);
    }
}

/// A yes or no that can be read was written as writing writes it.
pub proof fn lemma_flag_is_written(b: Seq<u8>)
    ensures
        parse_flag(b) matches Ok((x, rest)) ==> b == seq![flag_byte(x)] + rest,
{
}

/// A text that can be read was written as writing writes it.
pub proof fn lemma_text_is_written(b: Seq<u8>)
    ensures
        parse_text(b) matches Ok((text, rest)) ==> b == wire_text(text) + rest && text_fits(text),
{
    lemma_uint_is_written(b, 8);
    if let Ok((text, rest)) = parse_text(b) {
        let (len, tail) = parse_uint(b, 8)->Ok_0;
        let raw = tail.take(len as int);
        decode_utf8_encode_utf8(raw);
        lemma_join(le_bytes(len, 8), raw, rest);
    }
}

/// An action that can be read was written as writing writes it.
pub proof fn lemma_action_is_written(b: Seq<u8>)
    ensures
        parse_action(b) matches Ok((a, rest)) ==> b == wire_action(a) + rest,
{
    lemma_uint_is_written(b, 4);
    if let Ok((a, rest)) = parse_action(b) {
        let (tag, tail) = parse_uint(b, 4)->Ok_0;
        if tag == 2 {
            lemma_i32_is_written(tail);
            lemma_join(le_bytes(2, 4), le_bytes(i32_bits(a->Raise_0), 4), rest);
        }
    }
}

/// A player that can be read was written as writing writes it, and holds
/// no cards.
pub proof fn lemma_player_is_written(b: Seq<u8>)
    ensures
        parse_player(b) matches Ok((p, rest)) ==> b == wire_player(p) + rest && text_fits(p.name)
            && p.hand.len() == 0,
{
    if let Ok((p, rest)) = parse_player(b) {
        let (name, b2) = parse_text(b)->Ok_0;
        let (client_id, b3) = parse_uint(b2, 8)->Ok_0;
        let (position, b4) = parse_uint(b3, 1)->Ok_0;
        let (money, b5) = parse_i32(b4)->Ok_0;
        let (is_folded, b6) = parse_flag(b5)->Ok_0;
        let (is_all_in, b7) = parse_flag(b6)->Ok_0;
        let f1 = wire_text(p.name);
        let f2 = le_bytes(p.client_id as nat, 8);
        let f3 = seq![p.position];
        let f4 = le_bytes(i32_bits(p.money), 4);
        let f5 = seq![flag_byte(p.is_folded)];
        let f6 = seq![flag_byte(p.is_all_in)];
        let f7 = le_bytes(i32_bits(p.bet_this_turn), 4);
        assert(b == f1 + b2) by {
            lemma_text_is_written(b);
        }
        assert(b2 == f2 + b3) by {
            lemma_uint_is_written(b2, 8);
            lemma_pow256_values();
        }
        assert(b3 == f3 + b4) by {
            lemma_uint_is_written(b3, 1);
            lemma_pow256_values();
            assert(le_bytes(position, 1) =~= seq![position as u8]) by {
                reveal_with_fuel(le_bytes, 2);
            }
        }
        assert(b4 == f4 + b5) by {
            lemma_i32_is_written(b4);
        }
        assert(b5 == f5 + b6) by {
            lemma_flag_is_written(b5);
        }
        assert(b6 == f6 + b7) by {
            lemma_flag_is_written(b6);
        }
        assert(b7 == f7 + rest) by {
            lemma_i32_is_written(b7);
        }
        assert(text_fits(p.name)) by {
            lemma_text_is_written(b);
        }
        assert(wire_player(p) + rest == b) by {
            lemma_join(f1 + f2 + f3 + f4 + f5 + f6, f7, rest);
            lemma_join(f1 + f2 + f3 + f4 + f5, f6, b7);
            lemma_join(f1 + f2 + f3 + f4, f5, b6);
            lemma_join(f1 + f2 + f3, f4, b5);
            lemma_join(f1 + f2, f3, b4);
            lemma_join(f1, f2, b3);
        }
    }
}

/// Bytes that spell a message are the bytes of that message: nothing but
/// what writing produces is ever read, and a player that is read holds no
/// cards.
pub proof fn lemma_message_is_written(b: Seq<u8>)
    ensures
        parse_message(b) matches Ok(m) ==> b == wire_message(m) && message_fits(m) && m.on_wire()
            == m,
{
    lemma_uint_is_written(b, 4);
    if let Ok(m) = parse_message(b) {
        let (tag, tail) = parse_uint(b, 4)->Ok_0;
        if tag == 0 {
            lemma_player_is_written(tail);
        } else if tag == 1 {
            lemma_action_is_written(tail);
            let (a, after) = parse_action(tail)->Ok_0;
            lemma_uint_is_written(after, 8);
            let (id, _) = parse_uint(after, 8)->Ok_0;
            lemma_pow256_values();
            lemma_join(le_bytes(1, 4), wire_action(a), le_bytes(id, 8));
        } else if tag == 3 || tag == 4 {
            lemma_uint_is_written(tail, 8);
            lemma_pow256_values();
        }
    }
}

} // verus!

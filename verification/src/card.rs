//! Playing cards: rank, suit, and the two-string form under which a card
//! is named between processes.

use vstd::prelude::*;
use vstd::string::StringExecFns;

verus! {

/// The thirteen ranks, in the order in which a fresh deck lists them.
#[derive(Clone, Copy, Debug, PartialEq, Eq, Structural, Hash)]
pub enum Rank {
    Ace,
    Two,
    Three,
    Four,
    Five,
    Six,
    Seven,
    Eight,
    Nine,
    Ten,
    Jack,
    Queen,
    King,
}

/// The four suits, in the order in which a fresh deck lists them.
#[derive(Clone, Copy, Debug, PartialEq, Eq, Structural, Hash)]
pub enum Suit {
    Hearts,
    Diamonds,
    Clubs,
    Spades,
}

impl Rank {
    /// Position of the rank in a fresh deck, `Ace` first.
    pub open spec fn index(self) -> int {
        match self {
            Rank::Ace => 0,
            Rank::Two => 1,
            Rank::Three => 2,
            Rank::Four => 3,
            Rank::Five => 4,
            Rank::Six => 5,
            Rank::Seven => 6,
            Rank::Eight => 7,
            Rank::Nine => 8,
            Rank::Ten => 9,
            Rank::Jack => 10,
            Rank::Queen => 11,
            Rank::King => 12,
        }
    }

    /// The rank at a position of a fresh deck; `King` beyond the last.
    pub open spec fn at(i: int) -> Rank {
        if i <= 0 {
            Rank::Ace
        } else if i == 1 {
            Rank::Two
        } else if i == 2 {
            Rank::Three
        } else if i == 3 {
            Rank::Four
        } else if i == 4 {
            Rank::Five
        } else if i == 5 {
            Rank::Six
        } else if i == 6 {
            Rank::Seven
        } else if i == 7 {
            Rank::Eight
        } else if i == 8 {
            Rank::Nine
        } else if i == 9 {
            Rank::Ten
        } else if i == 10 {
            Rank::Jack
        } else if i == 11 {
            Rank::Queen
        } else {
            Rank::King
        }
    }

    /// The rank at position `i` of the thirteen.
    pub fn nth(i: usize) -> (r: Rank)
        requires
            i < 13,
        ensures
            r == Rank::at(i as int),
            r.index() == i,
    {
        let all: [Rank; 13] = [
            Rank::Ace,
            Rank::Two,
            Rank::Three,
            Rank::Four,
            Rank::Five,
            Rank::Six,
            Rank::Seven,
            Rank::Eight,
            Rank::Nine,
            Rank::Ten,
            Rank::Jack,
            Rank::Queen,
            Rank::King,
        ];
        all[i]
    }

    /// The two decimal digits that name the rank: `Ace` is "01", `King` is "13".
    pub open spec fn code(self) -> Seq<char> {
        match self {
            Rank::Ace => seq!['0', '1'],
            Rank::Two => seq!['0', '2'],
            Rank::Three => seq!['0', '3'],
            Rank::Four => seq!['0', '4'],
            Rank::Five => seq!['0', '5'],
            Rank::Six => seq!['0', '6'],
            Rank::Seven => seq!['0', '7'],
            Rank::Eight => seq!['0', '8'],
            Rank::Nine => seq!['0', '9'],
            Rank::Ten => seq!['1', '0'],
            Rank::Jack => seq!['1', '1'],
            Rank::Queen => seq!['1', '2'],
            Rank::King => seq!['1', '3'],
        }
    }
}

impl Suit {
    /// Position of the suit in a fresh deck, `Hearts` first.
    pub open spec fn index(self) -> int {
        match self {
            Suit::Hearts => 0,
            Suit::Diamonds => 1,
            Suit::Clubs => 2,
            Suit::Spades => 3,
        }
    }

    /// The suit at a position of a fresh deck; `Spades` beyond the last.
    pub open spec fn at(j: int) -> Suit {
        if j <= 0 {
            Suit::Hearts
        } else if j == 1 {
            Suit::Diamonds
        } else if j == 2 {
            Suit::Clubs
        } else {
            Suit::Spades
        }
    }

    /// The suit at position `j` of the four.
    pub fn nth(j: usize) -> (s: Suit)
        requires
            j < 4,
        ensures
            s == Suit::at(j as int),
            s.index() == j,
    {
        let all: [Suit; 4] = [Suit::Hearts, Suit::Diamonds, Suit::Clubs, Suit::Spades];
        all[j]
    }

    /// The lower-case English name of the suit.
    pub open spec fn code(self) -> Seq<char> {
        match self {
            Suit::Hearts => seq!['h', 'e', 'a', 'r', 't', 's'],
            Suit::Diamonds => seq!['d', 'i', 'a', 'm', 'o', 'n', 'd', 's'],
            Suit::Clubs => seq!['c', 'l', 'u', 'b', 's'],
            Suit::Spades => seq!['s', 'p', 'a', 'd', 'e', 's'],
        }
    }
}

/// Two ranks with the same code are the same rank.
pub proof fn lemma_rank_code_injective(a: Rank, b: Rank)
    requires
        a.code() == b.code(),
    ensures
        a == b,
{
}

/// Two suits with the same code are the same suit.
pub proof fn lemma_suit_code_injective(a: Suit, b: Suit)
    requires
        a.code() == b.code(),
    ensures
        a == b,
{
}

/// Whether two string slices hold the same characters.
fn same_text(a: &str, b: &str) -> (r: bool)
    ensures
        r == (a@ == b@),
{
    let x = a.to_owned();
    let y = b.to_owned();
    x == y
}

/// The code of a rank, as an owned string.
pub fn value_to_string(value: Rank) -> (s: String)
    ensures
        s@ == value.code(),
{
    proof {
        reveal_strlit("01");
        reveal_strlit("02");
        reveal_strlit("03");
        reveal_strlit("04");
        reveal_strlit("05");
        reveal_strlit("06");
        reveal_strlit("07");
        reveal_strlit("08");
        reveal_strlit("09");
        reveal_strlit("10");
        reveal_strlit("11");
        reveal_strlit("12");
        reveal_strlit("13");
    }
    let s = match value {
        Rank::Ace => String::from_str("01"),
        Rank::Two => String::from_str("02"),
        Rank::Three => String::from_str("03"),
        Rank::Four => String::from_str("04"),
        Rank::Five => String::from_str("05"),
        Rank::Six => String::from_str("06"),
        Rank::Seven => String::from_str("07"),
        Rank::Eight => String::from_str("08"),
        Rank::Nine => String::from_str("09"),
        Rank::Ten => String::from_str("10"),
        Rank::Jack => String::from_str("11"),
        Rank::Queen => String::from_str("12"),
        Rank::King => String::from_str("13"),
    };
    s
}

/// The code of a suit, as an owned string.
pub fn suit_to_string(suit: Suit) -> (s: String)
    ensures
        s@ == suit.code(),
{
    proof {
        reveal_strlit("hearts");
        reveal_strlit("diamonds");
        reveal_strlit("clubs");
        reveal_strlit("spades");
    }
    let s = match suit {
        Suit::Hearts => String::from_str("hearts"),
        Suit::Diamonds => String::from_str("diamonds"),
        Suit::Clubs => String::from_str("clubs"),
        Suit::Spades => String::from_str("spades"),
    };
    s
}

/// The rank that a code names, if it names one.
pub fn string_to_value(s: &str) -> (r: Option<Rank>)
    ensures
        match r {
            Some(value) => s@ == value.code(),
            None => forall|value: Rank| s@ != value.code(),
        },
{
    let mut i: usize = 0;
    while i < 13
        invariant
            i <= 13,
            forall|k: int| 0 <= k < i ==> s@ != (#[trigger] Rank::at(k)).code(),
        decreases 13 - i,
    {
        let value = Rank::nth(i);
        let code = value_to_string(value);
        if same_text(s, code.as_str()) {
            return Some(value);
        }
        i += 1;
    }
    assert forall|value: Rank| s@ != value.code() by {
        assert(Rank::at(value.index()) == value);
    }
    None
}

/// The suit that a code names, if it names one.
pub fn string_to_suit(s: &str) -> (r: Option<Suit>)
    ensures
        match r {
            Some(suit) => s@ == suit.code(),
            None => forall|suit: Suit| s@ != suit.code(),
        },
{
    let mut j: usize = 0;
    while j < 4
        invariant
            j <= 4,
            forall|k: int| 0 <= k < j ==> s@ != (#[trigger] Suit::at(k)).code(),
        decreases 4 - j,
    {
        let suit = Suit::nth(j);
        let code = suit_to_string(suit);
        if same_text(s, code.as_str()) {
            return Some(suit);
        }
        j += 1;
    }
    assert forall|suit: Suit| s@ != suit.code() by {
        assert(Suit::at(suit.index()) == suit);
    }
    None
}

/// A card: its rank and suit, and the number of the scene that draws it.
/// The table never looks into `model`; it only hands it on.
#[derive(Clone, Copy, Debug, PartialEq, Eq, Structural, Hash)]
pub struct Card {
    pub model: u64,
    pub rank: Rank,
    pub suit: Suit,
}

/// A card as two strings: the code of its rank and the code of its suit.
#[derive(Debug, PartialEq, Eq)]
pub struct BytesCard {
    pub rank: String,
    pub suit: String,
}

impl Clone for BytesCard {
    fn clone(&self) -> (b: Self)
        ensures
            b.rank@ == self.rank@,
            b.suit@ == self.suit@,
    {
        BytesCard { rank: self.rank.clone(), suit: self.suit.clone() }
    }
}

impl BytesCard {
    /// Whether the two strings are the codes of `rank` and `suit`.
    pub open spec fn names(&self, rank: Rank, suit: Suit) -> bool {
        self.rank@ == rank.code() && self.suit@ == suit.code()
    }

    /// Whether the two strings name any card at all.
    pub open spec fn is_valid(&self) -> bool {
        exists|rank: Rank, suit: Suit| self.names(rank, suit)
    }
}

impl Card {
    pub fn new(model: u64, rank: Rank, suit: Suit) -> (card: Self)
        ensures
            card.model == model,
            card.rank == rank,
            card.suit == suit,
    {
        Self { model, rank, suit }
    }

    /// The two-string form of the card. The model is left behind.
    pub fn to_bytes_card(&self) -> (b: BytesCard)
        ensures
            b.names(self.rank, self.suit),
    {
        BytesCard { rank: value_to_string(self.rank), suit: suit_to_string(self.suit) }
    }

    /// The card that two strings name, drawn by `model`; `None` where either
    /// string is no code.
    pub fn from_bytes_card(bytes_card: BytesCard, model: u64) -> (r: Option<Card>)
        ensures
            match r {
                Some(card) => card.model == model && bytes_card.names(card.rank, card.suit),
                None => !bytes_card.is_valid(),
            },
    {
        let rank = string_to_value(bytes_card.rank.as_str());
        let suit = string_to_suit(bytes_card.suit.as_str());
        match (rank, suit) {
            (Some(rank), Some(suit)) => Some(Card { model, rank, suit }),
            _ => None,
        }
    }
}

/// A card read back from its own two-string form is the card itself: the
/// strings name no other rank and no other suit.
pub proof fn lemma_bytes_card_names_one_card(b: BytesCard, c: Card, d: Card)
    requires
        b.names(c.rank, c.suit),
        b.names(d.rank, d.suit),
    ensures
        c.rank == d.rank,
        c.suit == d.suit,
{
    lemma_rank_code_injective(c.rank, d.rank);
    lemma_suit_code_injective(c.suit, d.suit);
}

} // verus!

//! An ordered pile of cards that can be shuffled, drawn from and added to.

use crate::card::{BytesCard, Card, Rank, Suit};
use vstd::prelude::*;

verus! {

/// Why a deck could not give a card.
#[derive(Clone, Copy, Debug, PartialEq, Eq, Structural)]
pub enum DeckError {
    /// No card is left.
    EmptyDeck,
}

/// The cards of a pile, bottom first: the last one is drawn next.
#[derive(Debug, PartialEq, Eq)]
pub struct Deck {
    pub cards: Vec<Card>,
}

impl View for Deck {
    type V = Seq<Card>;

    open spec fn view(&self) -> Seq<Card> {
        self.cards@
    }
}

/// Card number `k` of a full deck: ranks in order, and within a rank the
/// suits in order. The model of the card of rank `i` and suit `j` is
/// number `i + 13 * j` of `models`.
pub open spec fn fresh_card(models: Seq<u64>, k: int) -> Card {
    Card { model: models[k / 4 + 13 * (k % 4)], rank: Rank::at(k / 4), suit: Suit::at(k % 4) }
}

/// The full deck of fifty-two cards.
pub open spec fn fresh_deck(models: Seq<u64>) -> Seq<Card> {
    Seq::new(52, |k: int| fresh_card(models, k))
}

/// Where in a full deck the card of a rank and suit lies.
pub open spec fn face_index(rank: Rank, suit: Suit) -> int {
    4 * rank.index() + suit.index()
}

/// Whether no two cards of a pile have the same rank and suit.
pub open spec fn distinct_faces(cards: Seq<Card>) -> bool {
    forall|a: int, b: int|
        0 <= a < b < cards.len() ==> !(cards[a].rank == cards[b].rank && cards[a].suit
            == cards[b].suit)
}

/// A full deck holds every rank and suit once and no more.
pub proof fn lemma_fresh_deck_distinct(models: Seq<u64>)
    ensures
        fresh_deck(models).len() == 52,
        distinct_faces(fresh_deck(models)),
        forall|rank: Rank, suit: Suit|
            {
                let card = fresh_deck(models)[#[trigger] face_index(rank, suit)];
                card.rank == rank && card.suit == suit
            },
{
}

/// A pile with the cards of another, each as often as there, shows no
/// rank and suit twice if the other does not: putting cards into another
/// order makes no card double.
pub proof fn lemma_reordered_stays_distinct(a: Seq<Card>, b: Seq<Card>)
    requires
        distinct_faces(a),
        a.to_multiset() == b.to_multiset(),
    ensures
        distinct_faces(b),
{
    a.to_multiset_ensures();
    b.to_multiset_ensures();
    a.lemma_multiset_has_no_duplicates();
    b.lemma_multiset_has_no_duplicates_conv();
    assert forall|i: int, j: int| 0 <= i < j < b.len() implies !(b[i].rank == b[j].rank
        && b[i].suit == b[j].suit) by {
        assert(a.contains(b[i])) by {
            assert(b.to_multiset().count(b[i]) > 0);
        }
        assert(a.contains(b[j])) by {
            assert(b.to_multiset().count(b[j]) > 0);
        }
    }
}

/// Puts the cards into an order drawn at random.
///
/// Calls `rand::seq::SliceRandom::shuffle` on the cards with the generator
/// of `rand::thread_rng`. That function only swaps elements of the slice, so
/// whatever the generator yields, the same cards are there afterwards, each
/// as often as before. Nothing is claimed about their order.
#[verifier::external_body]
fn shuffle_cards(cards: &mut Vec<Card>)
    ensures
        final(cards)@.to_multiset() == old(cards)@.to_multiset(),
{
    rand::seq::SliceRandom::shuffle(cards.as_mut_slice(), &mut rand::thread_rng());
}

impl Clone for Deck {
    fn clone(&self) -> (d: Self)
        ensures
            d@ == self@,
    {
        let cards = self.cards.clone();
        Deck { cards }
    }
}

impl Deck {
    /// A full deck in its fresh order, each card with its model.
    pub fn new(models: Vec<u64>) -> (deck: Self)
        requires
            models.len() >= 52,
        ensures
            deck@ == fresh_deck(models@),
            distinct_faces(deck@),
    {
        let mut cards: Vec<Card> = Vec::with_capacity(52);
        let mut i: usize = 0;
        while i < 13
            invariant
                i <= 13,
                models.len() >= 52,
                cards.len() == 4 * i,
                forall|k: int| 0 <= k < cards.len() ==> cards[k] == fresh_card(models@, k),
            decreases 13 - i,
        {
            let mut j: usize = 0;
            while j < 4
                invariant
                    i < 13,
                    j <= 4,
                    models.len() >= 52,
                    cards.len() == 4 * i + j,
                    forall|k: int| 0 <= k < cards.len() ==> cards[k] == fresh_card(models@, k),
                decreases 4 - j,
            {
                let index = i + j * 13;
                cards.push(Card::new(models[index], Rank::nth(i), Suit::nth(j)));
                j += 1;
            }
            i += 1;
        }
        proof {
            lemma_fresh_deck_distinct(models@);
        }
        Deck { cards }
    }

    /// A deck without cards.
    pub fn new_empty() -> (deck: Self)
        ensures
            deck@ == Seq::<Card>::empty(),
    {
        Deck { cards: Vec::new() }
    }

    /// Reorders the cards at random. The deck holds the same cards as
    /// before, each as often as before; if no rank and suit was there
    /// twice, none is afterwards.
    pub fn shuffle(&mut self)
        ensures
            final(self)@.to_multiset() == old(self)@.to_multiset(),
            final(self)@.len() == old(self)@.len(),
            distinct_faces(old(self)@) ==> distinct_faces(final(self)@),
    {
        shuffle_cards(&mut self.cards);
        proof {
            old(self)@.to_multiset_ensures();
            self@.to_multiset_ensures();
            if distinct_faces(old(self)@) {
                lemma_reordered_stays_distinct(old(self)@, self@);
            }
        }
    }

    /// Takes the last card off the deck.
    pub fn draw(&mut self) -> (r: Result<Card, DeckError>)
        ensures
            old(self)@.len() > 0 ==> r == Ok::<Card, DeckError>(old(self)@.last()),
            old(self)@.len() > 0 ==> final(self)@ == old(self)@.drop_last(),
            old(self)@.len() == 0 ==> r == Err::<Card, DeckError>(DeckError::EmptyDeck),
            old(self)@.len() == 0 ==> final(self)@ == old(self)@,
    {
        match self.cards.pop() {
            Some(card) => Ok(card),
            None => Err(DeckError::EmptyDeck),
        }
    }

    /// Puts a card on top of the deck. Whether the deck holds it already is
    /// not looked at.
    pub fn add_card(&mut self, card: Card)
        ensures
            final(self)@ == old(self)@.push(card),
    {
        self.cards.push(card);
    }

    /// How many cards are left.
    pub fn remaining(&self) -> (n: usize)
        ensures
            n == self@.len(),
    {
        self.cards.len()
    }

    /// The model of the first card that the two strings name, if the deck
    /// holds such a card.
    pub fn find_model_from_bytes_card(&self, bytes_card: BytesCard) -> (r: Option<u64>)
        ensures
            match r {
                Some(model) => exists|k: int|
                    0 <= k < self@.len() && bytes_card.names(self@[k].rank, self@[k].suit)
                        && model == self@[k].model && forall|m: int|
                        0 <= m < k ==> !bytes_card.names(self@[m].rank, self@[m].suit),
                None => forall|k: int|
                    0 <= k < self@.len() ==> !bytes_card.names(self@[k].rank, self@[k].suit),
            },
    {
        match Card::from_bytes_card(bytes_card, 0) {
            None => None,
            Some(wanted) => {
                let mut k: usize = 0;
                while k < self.cards.len()
                    invariant
                        k <= self.cards.len(),
                        bytes_card.names(wanted.rank, wanted.suit),
                        forall|m: int|
                            0 <= m < k ==> !bytes_card.names(self@[m].rank, self@[m].suit),
                    decreases self.cards.len() - k,
                {
                    let card = self.cards[k];
                    if card.rank == wanted.rank && card.suit == wanted.suit {
                        return Some(card.model);
                    }
                    proof {
                        if bytes_card.names(card.rank, card.suit) {
                            crate::card::lemma_bytes_card_names_one_card(bytes_card, card, wanted);
                        }
                    }
                    k += 1;
                }
                None
            },
        }
    }
}

} // verus!

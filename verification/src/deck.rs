use vstd::prelude::*;

use rand::seq::SliceRandom;

use crate::card::{Card, Rank, Suit};
use crate::CribbageCoreError;

verus! {

/// The fifty-two card deck in its freshly built order: hearts then clubs,
/// Ace up to King, then diamonds and spades, King down to Ace.
pub open spec fn standard_deck() -> Seq<Card> {
    seq![
        (Card { rank: Rank::Ace, suit: Suit::Hearts }),
        (Card { rank: Rank::Two, suit: Suit::Hearts }),
        (Card { rank: Rank::Three, suit: Suit::Hearts }),
        (Card { rank: Rank::Four, suit: Suit::Hearts }),
        (Card { rank: Rank::Five, suit: Suit::Hearts }),
        (Card { rank: Rank::Six, suit: Suit::Hearts }),
        (Card { rank: Rank::Seven, suit: Suit::Hearts }),
        (Card { rank: Rank::Eight, suit: Suit::Hearts }),
        (Card { rank: Rank::Nine, suit: Suit::Hearts }),
        (Card { rank: Rank::Ten, suit: Suit::Hearts }),
        (Card { rank: Rank::Jack, suit: Suit::Hearts }),
        (Card { rank: Rank::Queen, suit: Suit::Hearts }),
        (Card { rank: Rank::King, suit: Suit::Hearts }),
        (Card { rank: Rank::Ace, suit: Suit::Clubs }),
        (Card { rank: Rank::Two, suit: Suit::Clubs }),
        (Card { rank: Rank::Three, suit: Suit::Clubs }),
        (Card { rank: Rank::Four, suit: Suit::Clubs }),
        (Card { rank: Rank::Five, suit: Suit::Clubs }),
        (Card { rank: Rank::Six, suit: Suit::Clubs }),
        (Card { rank: Rank::Seven, suit: Suit::Clubs }),
        (Card { rank: Rank::Eight, suit: Suit::Clubs }),
        (Card { rank: Rank::Nine, suit: Suit::Clubs }),
        (Card { rank: Rank::Ten, suit: Suit::Clubs }),
        (Card { rank: Rank::Jack, suit: Suit::Clubs }),
        (Card { rank: Rank::Queen, suit: Suit::Clubs }),
        (Card { rank: Rank::King, suit: Suit::Clubs }),
        (Card { rank: Rank::King, suit: Suit::Diamonds }),
        (Card { rank: Rank::Queen, suit: Suit::Diamonds }),
        (Card { rank: Rank::Jack, suit: Suit::Diamonds }),
        (Card { rank: Rank::Ten, suit: Suit::Diamonds }),
        (Card { rank: Rank::Nine, suit: Suit::Diamonds }),
        (Card { rank: Rank::Eight, suit: Suit::Diamonds }),
        (Card { rank: Rank::Seven, suit: Suit::Diamonds }),
        (Card { rank: Rank::Six, suit: Suit::Diamonds }),
        (Card { rank: Rank::Five, suit: Suit::Diamonds }),
        (Card { rank: Rank::Four, suit: Suit::Diamonds }),
        (Card { rank: Rank::Three, suit: Suit::Diamonds }),
        (Card { rank: Rank::Two, suit: Suit::Diamonds }),
        (Card { rank: Rank::Ace, suit: Suit::Diamonds }),
        (Card { rank: Rank::King, suit: Suit::Spades }),
        (Card { rank: Rank::Queen, suit: Suit::Spades }),
        (Card { rank: Rank::Jack, suit: Suit::Spades }),
        (Card { rank: Rank::Ten, suit: Suit::Spades }),
        (Card { rank: Rank::Nine, suit: Suit::Spades }),
        (Card { rank: Rank::Eight, suit: Suit::Spades }),
        (Card { rank: Rank::Seven, suit: Suit::Spades }),
        (Card { rank: Rank::Six, suit: Suit::Spades }),
        (Card { rank: Rank::Five, suit: Suit::Spades }),
        (Card { rank: Rank::Four, suit: Suit::Spades }),
        (Card { rank: Rank::Three, suit: Suit::Spades }),
        (Card { rank: Rank::Two, suit: Suit::Spades }),
        (Card { rank: Rank::Ace, suit: Suit::Spades }),
    ]
}

/// A deck of cards dealt from the front: the cards in their current order
/// and how many of them have been drawn so far.
pub struct Deck {
    cards_drawn: usize,
    cards: Vec<Card>,
}

/// Relies on rand's `SliceRandom::shuffle`: it reorders the slice in place,
/// picking the permutation uniformly at random, neither adding nor dropping
/// a card. The thread-local generator it draws from panics only when the
/// operating system fails to seed it.
#[verifier::external_body]
fn shuffle_cards(cards: &mut Vec<Card>)
    ensures
        final(cards)@.len() == old(cards)@.len(),
        final(cards)@.to_multiset() == old(cards)@.to_multiset(),
{
    cards.shuffle(&mut rand::rng());
}

impl Deck {
    /// The cards in their current order, drawn and undrawn alike.
    pub closed spec fn spec_cards(self) -> Seq<Card> {
        self.cards@
    }

    /// How many cards have been drawn since the last shuffle.
    pub closed spec fn spec_drawn(self) -> nat {
        self.cards_drawn as nat
    }

    /// Never more cards drawn than the deck holds.
    pub closed spec fn wf(self) -> bool {
        self.cards_drawn <= self.cards@.len()
    }

    /// A full deck in the standard fresh order, nothing drawn yet.
    #[verifier::rlimit(60)]
    pub fn new() -> (d: Deck)
        ensures
            d.spec_cards() == standard_deck(),
            d.spec_drawn() == 0,
            d.wf(),
    {
        let mut cards: Vec<Card> = Vec::new();
        cards.push(Card::new(Rank::Ace, Suit::Hearts));
        cards.push(Card::new(Rank::Two, Suit::Hearts));
        cards.push(Card::new(Rank::Three, Suit::Hearts));
        cards.push(Card::new(Rank::Four, Suit::Hearts));
        cards.push(Card::new(Rank::Five, Suit::Hearts));
        cards.push(Card::new(Rank::Six, Suit::Hearts));
        cards.push(Card::new(Rank::Seven, Suit::Hearts));
        cards.push(Card::new(Rank::Eight, Suit::Hearts));
        cards.push(Card::new(Rank::Nine, Suit::Hearts));
        cards.push(Card::new(Rank::Ten, Suit::Hearts));
        cards.push(Card::new(Rank::Jack, Suit::Hearts));
        cards.push(Card::new(Rank::Queen, Suit::Hearts));
        cards.push(Card::new(Rank::King, Suit::Hearts));
        cards.push(Card::new(Rank::Ace, Suit::Clubs));
        cards.push(Card::new(Rank::Two, Suit::Clubs));
        cards.push(Card::new(Rank::Three, Suit::Clubs));
        cards.push(Card::new(Rank::Four, Suit::Clubs));
        cards.push(Card::new(Rank::Five, Suit::Clubs));
        cards.push(Card::new(Rank::Six, Suit::Clubs));
        cards.push(Card::new(Rank::Seven, Suit::Clubs));
        cards.push(Card::new(Rank::Eight, Suit::Clubs));
        cards.push(Card::new(Rank::Nine, Suit::Clubs));
        cards.push(Card::new(Rank::Ten, Suit::Clubs));
        cards.push(Card::new(Rank::Jack, Suit::Clubs));
        cards.push(Card::new(Rank::Queen, Suit::Clubs));
        cards.push(Card::new(Rank::King, Suit::Clubs));
        cards.push(Card::new(Rank::King, Suit::Diamonds));
        cards.push(Card::new(Rank::Queen, Suit::Diamonds));
        cards.push(Card::new(Rank::Jack, Suit::Diamonds));
        cards.push(Card::new(Rank::Ten, Suit::Diamonds));
        cards.push(Card::new(Rank::Nine, Suit::Diamonds));
        cards.push(Card::new(Rank::Eight, Suit::Diamonds));
        cards.push(Card::new(Rank::Seven, Suit::Diamonds));
        cards.push(Card::new(Rank::Six, Suit::Diamonds));
        cards.push(Card::new(Rank::Five, Suit::Diamonds));
        cards.push(Card::new(Rank::Four, Suit::Diamonds));
        cards.push(Card::new(Rank::Three, Suit::Diamonds));
        cards.push(Card::new(Rank::Two, Suit::Diamonds));
        cards.push(Card::new(Rank::Ace, Suit::Diamonds));
        cards.push(Card::new(Rank::King, Suit::Spades));
        cards.push(Card::new(Rank::Queen, Suit::Spades));
        cards.push(Card::new(Rank::Jack, Suit::Spades));
        cards.push(Card::new(Rank::Ten, Suit::Spades));
        cards.push(Card::new(Rank::Nine, Suit::Spades));
        cards.push(Card::new(Rank::Eight, Suit::Spades));
        cards.push(Card::new(Rank::Seven, Suit::Spades));
        cards.push(Card::new(Rank::Six, Suit::Spades));
        cards.push(Card::new(Rank::Five, Suit::Spades));
        cards.push(Card::new(Rank::Four, Suit::Spades));
        cards.push(Card::new(Rank::Three, Suit::Spades));
        cards.push(Card::new(Rank::Two, Suit::Spades));
        cards.push(Card::new(Rank::Ace, Suit::Spades));
        proof {
            assert(cards@ =~= standard_deck());
        }
        Deck { cards_drawn: 0, cards }
    }

    /// The cards in their current order.
    pub fn cards(&self) -> (r: &Vec<Card>)
        ensures
            r@ == self.spec_cards(),
    {
        &self.cards
    }

    /// How many cards have been drawn since the last shuffle.
    pub fn cards_drawn(&self) -> (r: usize)
        ensures
            r as int == self.spec_drawn(),
    {
        self.cards_drawn
    }

    /// Draws the next card, or reports `NotEnoughCards` when none is left.
    pub fn draw(&mut self) -> (r: Result<Card, CribbageCoreError>)
        requires
            old(self).wf(),
        ensures
            final(self).wf(),
            final(self).spec_cards() == old(self).spec_cards(),
            old(self).spec_drawn() < old(self).spec_cards().len() ==> ({
                &&& r == Ok::<Card, CribbageCoreError>(
                    old(self).spec_cards()[old(self).spec_drawn() as int],
                )
                &&& final(self).spec_drawn() == old(self).spec_drawn() + 1
            }),
            old(self).spec_drawn() >= old(self).spec_cards().len() ==> r == Err::<
                Card,
                CribbageCoreError,
            >(CribbageCoreError::NotEnoughCards) && *final(self) == *old(self),
    {
        if self.cards_drawn < self.cards.len() {
            let card = self.cards[self.cards_drawn];
            self.cards_drawn = self.cards_drawn + 1;
            Ok(card)
        } else {
            Err(CribbageCoreError::NotEnoughCards)
        }
    }

    /// Draws the next `n` cards in order, or reports `NotEnoughCards` and
    /// draws nothing when fewer than `n` are left.
    pub fn draw_n(&mut self, n: usize) -> (r: Result<Vec<Card>, CribbageCoreError>)
        requires
            old(self).wf(),
        ensures
            final(self).wf(),
            final(self).spec_cards() == old(self).spec_cards(),
            old(self).spec_drawn() + n <= old(self).spec_cards().len() ==> ({
                &&& r matches Ok(v) && v@ == old(self).spec_cards().subrange(
                    old(self).spec_drawn() as int,
                    old(self).spec_drawn() as int + n,
                )
                &&& final(self).spec_drawn() == old(self).spec_drawn() + n
            }),
            old(self).spec_drawn() + n > old(self).spec_cards().len() ==> r == Err::<
                Vec<Card>,
                CribbageCoreError,
            >(CribbageCoreError::NotEnoughCards) && *final(self) == *old(self),
    {
        if n > self.cards.len() - self.cards_drawn {
            return Err(CribbageCoreError::NotEnoughCards);
        }
        let start = self.cards_drawn;
        let end = start + n;
        let mut drawn: Vec<Card> = Vec::new();
        let mut i: usize = start;
        while i < end
            invariant
                start <= i <= end,
                end <= self.cards@.len(),
                drawn@ =~= self.cards@.subrange(start as int, i as int),
            decreases end - i,
        {
            drawn.push(self.cards[i]);
            i += 1;
        }
        self.cards_drawn = end;
        proof {
            assert(drawn@ =~= self.cards@.subrange(start as int, end as int));
        }
        Ok(drawn)
    }

    /// Reorders the whole deck at random and marks every card undrawn. The
    /// same fifty-two cards remain, in an order this library does not pin
    /// down.
    pub fn shuffle(&mut self)
        ensures
            final(self).spec_drawn() == 0,
            final(self).spec_cards().len() == old(self).spec_cards().len(),
            final(self).spec_cards().to_multiset() == old(self).spec_cards().to_multiset(),
            final(self).wf(),
    {
        self.cards_drawn = 0;
        shuffle_cards(&mut self.cards);
    }
}


impl Default for Deck {
    /// The same fresh deck `new` builds.
    fn default() -> (d: Deck)
        ensures
            d.spec_cards() == standard_deck(),
            d.spec_drawn() == 0,
            d.wf(),
    {
        Deck::new()
    }
}

} // verus!

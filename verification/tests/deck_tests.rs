use cribbage_core::{Card, CribbageCoreError, Deck, Rank, Suit};

#[test]
fn test_new() {
    let deck = Deck::new();
    assert_eq!(deck.cards_drawn(), 0);
    assert_eq!(deck.cards().len(), 52);
}

#[test]
fn test_new_shuffle() {
    let mut deck = Deck::new();
    deck.shuffle();
    let fresh = Deck::new();
    assert_ne!(deck.cards(), fresh.cards());
}

#[test]
pub fn test_draw() {
    let mut deck = Deck::new();
    assert_eq!(deck.cards_drawn(), 0);

    assert_eq!(deck.draw().unwrap(), Card::new(Rank::Ace, Suit::Hearts));
    assert_eq!(deck.cards_drawn(), 1);

    for _ in 0..51 {
        deck.draw().unwrap();
    }

    assert_eq!(deck.cards_drawn(), 52);

    assert_eq!(deck.draw(), Err(CribbageCoreError::NotEnoughCards));
    assert_eq!(deck.cards_drawn(), 52);
}

#[test]
pub fn test_draw_n() {
    let mut deck = Deck::new();
    assert_eq!(deck.draw_n(0).unwrap(), Vec::new());
    assert_eq!(deck.cards_drawn(), 0);

    assert_eq!(
        deck.draw_n(1).unwrap(),
        vec![Card::new(Rank::Ace, Suit::Hearts)]
    );
    assert_eq!(deck.cards_drawn(), 1);

    deck = Deck::new();
    let fresh = Deck::new();
    assert_eq!(deck.draw_n(52).unwrap(), *fresh.cards());
    assert_eq!(deck.cards_drawn(), 52);

    assert_eq!(deck.draw_n(0).unwrap(), Vec::new());
    assert_eq!(deck.cards_drawn(), 52);

    assert_eq!(deck.draw_n(1), Err(CribbageCoreError::NotEnoughCards));
    assert_eq!(deck.cards_drawn(), 52);

    assert_eq!(deck.draw_n(52), Err(CribbageCoreError::NotEnoughCards));
    assert_eq!(deck.cards_drawn(), 52);
}

#[test]
pub fn test_shuffle() {
    let mut deck = Deck::new();
    deck.shuffle();
    let fresh = Deck::new();
    assert_ne!(deck.cards(), fresh.cards());

    deck.draw().unwrap();
    assert_eq!(deck.cards_drawn(), 1);

    deck.shuffle();
    assert_eq!(deck.cards_drawn(), 0);

    deck.draw_n(52).unwrap();
    assert_eq!(deck.cards_drawn(), 52);

    deck.shuffle();
    assert_eq!(deck.cards_drawn(), 0);
}

#[test]
fn test_shuffle_keeps_the_same_cards() {
    let mut deck = Deck::new();
    deck.shuffle();
    let mut shuffled = deck.cards().clone();
    shuffled.sort();
    let mut fresh = Deck::new().cards().clone();
    fresh.sort();
    assert_eq!(shuffled, fresh);
}

use cribbage_core::{Card, CribbageCoreError, Rank, Suit};

fn all_ranks() -> [Rank; 13] {
    [
        Rank::Ace,
        Rank::Two,
        Rank::Three,
        Rank::Four,
        Rank::Five,
        Rank::Six,
        Rank::Seven,
        Rank::Eight,
        Rank::Nine,
        Rank::Ten,
        Rank::Jack,
        Rank::Queen,
        Rank::King,
    ]
}

fn all_suits() -> [Suit; 4] {
    [Suit::Hearts, Suit::Clubs, Suit::Diamonds, Suit::Spades]
}

#[test]
fn test_rank_to_string() {
    assert_eq!(Rank::Ace.to_string(), "A".to_string());
    assert_eq!(Rank::Two.to_string(), "2".to_string());
    assert_eq!(Rank::Three.to_string(), "3".to_string());
    assert_eq!(Rank::Four.to_string(), "4".to_string());
    assert_eq!(Rank::Five.to_string(), "5".to_string());
    assert_eq!(Rank::Six.to_string(), "6".to_string());
    assert_eq!(Rank::Seven.to_string(), "7".to_string());
    assert_eq!(Rank::Eight.to_string(), "8".to_string());
    assert_eq!(Rank::Nine.to_string(), "9".to_string());
    assert_eq!(Rank::Ten.to_string(), "T".to_string());
    assert_eq!(Rank::Jack.to_string(), "J".to_string());
    assert_eq!(Rank::Queen.to_string(), "Q".to_string());
    assert_eq!(Rank::King.to_string(), "K".to_string());
}

#[test]
fn test_suit_to_string() {
    assert_eq!(Suit::Hearts.to_string(), "H".to_string());
    assert_eq!(Suit::Clubs.to_string(), "C".to_string());
    assert_eq!(Suit::Diamonds.to_string(), "D".to_string());
    assert_eq!(Suit::Spades.to_string(), "S".to_string());
}

#[test]
fn test_card_to_string() {
    for rank in &all_ranks() {
        for suit in &all_suits() {
            let expected = format!("{}{}", rank.to_string(), suit.to_string());
            let card = Card {
                rank: *rank,
                suit: *suit,
            };
            assert_eq!(card.to_string(), expected);
        }
    }
}

#[test]
fn test_card_from_str() {
    for rank in &all_ranks() {
        for suit in &all_suits() {
            let card_string = format!("{}{}", rank.to_string(), suit.to_string());
            let expected = Card {
                rank: *rank,
                suit: *suit,
            };
            let card = Card::from_str(&card_string).unwrap();
            assert_eq!(card, expected);
        }
    }

    assert_eq!(
        Card::from_str(" AS"),
        Ok(Card {
            rank: Rank::Ace,
            suit: Suit::Spades
        })
    );
    assert_eq!(
        Card::from_str("AS "),
        Ok(Card {
            rank: Rank::Ace,
            suit: Suit::Spades
        })
    );

    assert_eq!(
        Card::from_str(""),
        Err(CribbageCoreError::InvalidCardString)
    );
    assert_eq!(
        Card::from_str("ASA"),
        Err(CribbageCoreError::InvalidCardString)
    );
    assert_eq!(
        Card::from_str("AX"),
        Err(CribbageCoreError::InvalidCardString)
    );
    assert_eq!(
        Card::from_str("XS"),
        Err(CribbageCoreError::InvalidCardString)
    );
}

#[test]
fn test_card_from_str_lower_case() {
    assert_eq!(
        Card::from_str("th"),
        Ok(Card {
            rank: Rank::Ten,
            suit: Suit::Hearts
        })
    );
    assert_eq!(
        Card::from_str("jS"),
        Ok(Card {
            rank: Rank::Jack,
            suit: Suit::Spades
        })
    );
}

#[test]
fn test_rank_projections() {
    assert_eq!(Rank::Ace.ordinal(), 1);
    assert_eq!(Rank::Ace.value(), 1);
    assert_eq!(Rank::Nine.ordinal(), 9);
    assert_eq!(Rank::Nine.value(), 9);
    assert_eq!(Rank::Ten.ordinal(), 10);
    assert_eq!(Rank::Ten.value(), 10);
    assert_eq!(Rank::Jack.ordinal(), 11);
    assert_eq!(Rank::Jack.value(), 10);
    assert_eq!(Rank::Queen.ordinal(), 12);
    assert_eq!(Rank::Queen.value(), 10);
    assert_eq!(Rank::King.ordinal(), 13);
    assert_eq!(Rank::King.value(), 10);
}

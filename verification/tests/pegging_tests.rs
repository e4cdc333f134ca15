use cribbage_core::{
    Card, CribbageCoreError, FourCardPegging, Pegger, Rank, Suit,
};

#[test]
fn test_is_run() {
    assert_eq!(Pegger::is_run(&[]), false);
    assert_eq!(Pegger::is_run(&[Card::new(Rank::Ace, Suit::Spades)]), false);
    assert_eq!(
        Pegger::is_run(&[
            Card::new(Rank::Ace, Suit::Spades),
            Card::new(Rank::Two, Suit::Spades)
        ]),
        false
    );
    assert_eq!(
        Pegger::is_run(&[
            Card::new(Rank::Ace, Suit::Spades),
            Card::new(Rank::Two, Suit::Spades),
            Card::new(Rank::Three, Suit::Spades)
        ]),
        true
    );
    assert_eq!(
        Pegger::is_run(&[
            Card::new(Rank::Ace, Suit::Spades),
            Card::new(Rank::Two, Suit::Spades),
            Card::new(Rank::Four, Suit::Spades)
        ]),
        false
    );
    assert_eq!(
        Pegger::is_run(&[
            Card::new(Rank::Two, Suit::Spades),
            Card::new(Rank::Three, Suit::Spades),
            Card::new(Rank::Ace, Suit::Spades)
        ]),
        true
    );
    assert_eq!(
        Pegger::is_run(&[
            Card::new(Rank::Ace, Suit::Hearts),
            Card::new(Rank::Two, Suit::Clubs),
            Card::new(Rank::Three, Suit::Diamonds),
            Card::new(Rank::Four, Suit::Spades)
        ]),
        true
    );
    assert_eq!(
        Pegger::is_run(&[
            Card::new(Rank::Four, Suit::Hearts),
            Card::new(Rank::Two, Suit::Clubs),
            Card::new(Rank::Ace, Suit::Diamonds),
            Card::new(Rank::Three, Suit::Spades)
        ]),
        true
    );
    assert_eq!(
        Pegger::is_run(&[
            Card::new(Rank::Ace, Suit::Spades),
            Card::new(Rank::Two, Suit::Spades),
            Card::new(Rank::Three, Suit::Spades),
            Card::new(Rank::Five, Suit::Spades)
        ]),
        false
    );
}

#[test]
fn test_play_card() {
    let mut pegger = Pegger::new();
    assert_eq!(
        pegger
            .play_card(Card::new(Rank::Ace, Suit::Spades))
            .unwrap(),
        0
    );
    assert_eq!(
        pegger
            .play_card(Card::new(Rank::Ace, Suit::Hearts))
            .unwrap(),
        2
    );
    assert_eq!(
        pegger.play_card(Card::new(Rank::Ace, Suit::Clubs)).unwrap(),
        6
    );
    assert_eq!(
        pegger
            .play_card(Card::new(Rank::Ace, Suit::Diamonds))
            .unwrap(),
        12
    );
    assert_eq!(
        pegger.play_card(Card::new(Rank::Two, Suit::Clubs)).unwrap(),
        0
    );
    assert_eq!(
        pegger
            .play_card(Card::new(Rank::Three, Suit::Spades))
            .unwrap(),
        3
    );
    assert_eq!(
        pegger
            .play_card(Card::new(Rank::Four, Suit::Diamonds))
            .unwrap(),
        4
    );
    assert_eq!(
        pegger
            .play_card(Card::new(Rank::Two, Suit::Hearts))
            .unwrap(),
        5
    );
    assert_eq!(
        pegger
            .play_card(Card::new(Rank::Eight, Suit::Clubs))
            .unwrap(),
        0
    );
    assert_eq!(
        pegger
            .play_card(Card::new(Rank::Eight, Suit::Spades))
            .unwrap(),
        3
    );
    pegger.reset();

    assert_eq!(
        pegger
            .play_card(Card::new(Rank::Ten, Suit::Spades))
            .unwrap(),
        0
    );
    assert_eq!(
        pegger
            .play_card(Card::new(Rank::Five, Suit::Spades))
            .unwrap(),
        2
    );
    assert_eq!(
        pegger.play_card(Card::new(Rank::Ten, Suit::Clubs)).unwrap(),
        0
    );
    assert_eq!(
        pegger
            .play_card(Card::new(Rank::Five, Suit::Diamonds))
            .unwrap(),
        0
    );
    assert_eq!(
        pegger
            .play_card(Card::new(Rank::Ace, Suit::Hearts))
            .unwrap(),
        1
    );
    assert_eq!(
        pegger.play_card(Card::new(Rank::Ace, Suit::Spades)),
        Err(CribbageCoreError::InvalidCard)
    );
}

#[test]
fn test_pegging_pair_family() {
    let mut pegger = Pegger::new();
    assert_eq!(
        pegger
            .play_card(Card::new(Rank::Ace, Suit::Hearts))
            .unwrap(),
        0
    );
    assert_eq!(pegger.count(), 1);
    assert_eq!(
        pegger
            .play_card(Card::new(Rank::Ace, Suit::Spades))
            .unwrap(),
        2
    );
    assert_eq!(pegger.count(), 2);
    assert_eq!(
        pegger
            .play_card(Card::new(Rank::Ace, Suit::Clubs))
            .unwrap(),
        6
    );
    assert_eq!(pegger.count(), 3);
    assert_eq!(
        pegger
            .play_card(Card::new(Rank::Ace, Suit::Diamonds))
            .unwrap(),
        12
    );
    assert_eq!(pegger.count(), 4);
}

#[test]
fn test_pegging_fifteen_milestone() {
    let mut pegger = Pegger::new();
    assert_eq!(
        pegger
            .play_card(Card::new(Rank::Five, Suit::Hearts))
            .unwrap(),
        0
    );
    assert_eq!(
        pegger
            .play_card(Card::new(Rank::Ten, Suit::Spades))
            .unwrap(),
        2
    );
    assert_eq!(pegger.count(), 15);
}

#[test]
fn test_pegging_overflow_leaves_count() {
    let mut pegger = Pegger::new();
    pegger
        .play_card(Card::new(Rank::Ten, Suit::Hearts))
        .unwrap();
    pegger
        .play_card(Card::new(Rank::Ten, Suit::Spades))
        .unwrap();
    pegger
        .play_card(Card::new(Rank::Nine, Suit::Clubs))
        .unwrap();
    assert_eq!(pegger.count(), 29);
    assert_eq!(
        pegger.play_card(Card::new(Rank::Three, Suit::Diamonds)),
        Err(CribbageCoreError::InvalidCard)
    );
    assert_eq!(pegger.count(), 29);
    assert_eq!(
        pegger.play_card(Card::new(Rank::King, Suit::Diamonds)),
        Err(CribbageCoreError::InvalidCard)
    );
    assert_eq!(pegger.count(), 29);
    assert_eq!(
        pegger
            .play_card(Card::new(Rank::Two, Suit::Diamonds))
            .unwrap(),
        1
    );
    assert_eq!(pegger.count(), 31);
}

#[test]
fn test_staged_pegging() {
    let mut pegger = Pegger::new();
    let holding = FourCardPegging::new([
        Card::new(Rank::Five, Suit::Hearts),
        Card::new(Rank::Six, Suit::Clubs),
        Card::new(Rank::Seven, Suit::Diamonds),
        Card::new(Rank::Ace, Suit::Spades),
    ]);

    // A card that is not held is rejected and the holding handed back.
    let err = holding
        .play_card(Card::new(Rank::King, Suit::Hearts), &mut pegger)
        .unwrap_err();
    assert!(matches!(err.1, CribbageCoreError::InvalidCard));
    assert_eq!(pegger.count(), 0);

    let (points, holding3) = err
        .0
        .play_card(Card::new(Rank::Five, Suit::Hearts), &mut pegger)
        .unwrap();
    assert_eq!(points, 0);
    assert_eq!(pegger.count(), 5);

    // Playing the same card again fails: it is no longer held.
    let err = holding3
        .play_card(Card::new(Rank::Five, Suit::Hearts), &mut pegger)
        .unwrap_err();
    assert!(matches!(err.1, CribbageCoreError::InvalidCard));
    assert_eq!(pegger.count(), 5);

    let (points, holding2) = err
        .0
        .play_card(Card::new(Rank::Six, Suit::Clubs), &mut pegger)
        .unwrap();
    assert_eq!(points, 0);
    assert_eq!(pegger.count(), 11);

    // 5, 6, 7 is a run of three and 18 is no milestone.
    let (points, holding1) = holding2
        .play_card(Card::new(Rank::Seven, Suit::Diamonds), &mut pegger)
        .unwrap();
    assert_eq!(points, 3);
    assert_eq!(pegger.count(), 18);

    let points = holding1
        .play_card(Card::new(Rank::Ace, Suit::Spades), &mut pegger)
        .unwrap();
    assert_eq!(points, 0);
    assert_eq!(pegger.count(), 19);
}

use vstd::prelude::*;

pub mod board;
pub mod card;
pub mod deck;
pub mod hand;
pub mod pegging;
pub mod score_bound;

pub use crate::board::{
    custom_board, standard_four_player_board, standard_three_player_board,
    standard_two_player_board, Board, FourPlayerScore, FourPlayers, Score, ScoreTable,
    ThreePlayerScore, ThreePlayers, TwoPlayerScore, TwoPlayers,
};
pub use crate::card::{Card, Rank, Suit};
pub use crate::deck::Deck;
pub use crate::hand::{
    deal_four_player_hand, deal_three_player_hand, deal_two_player_hand, CribCards,
    FourPlayerCribPart, FourPlayerDeal, Hand, KeptCards, ThreePlayerCribPart, ThreePlayerDeal,
    TwoPlayerCribPart, TwoPlayerDeal,
};
pub use crate::pegging::{
    FourCardPegging, OneCardPegging, Pegger, ThreeCardPegging, TwoCardPegging,
};
pub use crate::score_bound::lemma_hand_score_at_most_29;

verus! {

/// The error conditions the library reports. All of them are recoverable and
/// returned to the caller; no verified function here panics.
#[derive(Clone, Copy, Debug, PartialEq, Eq, Structural)]
pub enum CribbageCoreError {
    InvalidCard,
    InvalidCardString,
    InvalidScoreId,
    NotEnoughCards,
    WinnerExists,
}

} // verus!

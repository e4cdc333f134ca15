use cribbage_core::{
    standard_four_player_board, standard_three_player_board, standard_two_player_board,
    CribbageCoreError, FourPlayers, ThreePlayers, TwoPlayers,
};

#[test]
pub fn test_two_player_board() {
    let mut board = standard_two_player_board();
    assert_eq!(board.score(TwoPlayers::PlayerOne), 0);
    assert_eq!(board.score(TwoPlayers::PlayerTwo), 0);

    assert!(board.add_points(TwoPlayers::PlayerOne, 1).is_ok());
    assert_eq!(board.score(TwoPlayers::PlayerOne), 1);
    assert_eq!(board.score(TwoPlayers::PlayerTwo), 0);

    assert!(board.add_points(TwoPlayers::PlayerOne, 119).is_ok());
    assert_eq!(board.score(TwoPlayers::PlayerOne), 120);
    assert_eq!(board.winner().is_some(), false);
    assert_eq!(board.winner(), None);

    assert!(board.add_points(TwoPlayers::PlayerOne, 2).is_ok());
    assert_eq!(board.score(TwoPlayers::PlayerOne), 121);
    assert_eq!(board.winner().is_some(), true);
    assert_eq!(board.winner(), Some(TwoPlayers::PlayerOne));

    assert_eq!(
        board.add_points(TwoPlayers::PlayerOne, 1),
        Err(CribbageCoreError::WinnerExists)
    );

    let mut board = standard_two_player_board();
    assert!(board.add_points(TwoPlayers::PlayerTwo, 1).is_ok());
    assert_eq!(board.score(TwoPlayers::PlayerOne), 0);
    assert_eq!(board.score(TwoPlayers::PlayerTwo), 1);

    assert!(board.add_points(TwoPlayers::PlayerTwo, 119).is_ok());
    assert_eq!(board.score(TwoPlayers::PlayerTwo), 120);
    assert_eq!(board.winner().is_some(), false);
    assert_eq!(board.winner(), None);

    assert!(board.add_points(TwoPlayers::PlayerTwo, 2).is_ok());
    assert_eq!(board.score(TwoPlayers::PlayerTwo), 121);
    assert_eq!(board.winner().is_some(), true);
    assert_eq!(board.winner(), Some(TwoPlayers::PlayerTwo));

    assert_eq!(
        board.add_points(TwoPlayers::PlayerTwo, 1),
        Err(CribbageCoreError::WinnerExists)
    );
}

#[test]
pub fn test_three_player_board() {
    let mut board = standard_three_player_board();
    assert_eq!(board.score(ThreePlayers::PlayerOne), 0);
    assert_eq!(board.score(ThreePlayers::PlayerTwo), 0);
    assert_eq!(board.score(ThreePlayers::PlayerThree), 0);

    assert!(board.add_points(ThreePlayers::PlayerOne, 1).is_ok());
    assert_eq!(board.score(ThreePlayers::PlayerOne), 1);
    assert_eq!(board.score(ThreePlayers::PlayerTwo), 0);
    assert_eq!(board.score(ThreePlayers::PlayerThree), 0);

    assert!(board.add_points(ThreePlayers::PlayerOne, 119).is_ok());
    assert_eq!(board.score(ThreePlayers::PlayerOne), 120);
    assert_eq!(board.winner().is_some(), false);
    assert_eq!(board.winner(), None);

    assert!(board.add_points(ThreePlayers::PlayerOne, 2).is_ok());
    assert_eq!(board.score(ThreePlayers::PlayerOne), 121);
    assert_eq!(board.winner().is_some(), true);
    assert_eq!(board.winner(), Some(ThreePlayers::PlayerOne));

    assert_eq!(
        board.add_points(ThreePlayers::PlayerOne, 1),
        Err(CribbageCoreError::WinnerExists)
    );

    let mut board = standard_three_player_board();
    assert!(board.add_points(ThreePlayers::PlayerTwo, 1).is_ok());
    assert_eq!(board.score(ThreePlayers::PlayerOne), 0);
    assert_eq!(board.score(ThreePlayers::PlayerTwo), 1);
    assert_eq!(board.score(ThreePlayers::PlayerThree), 0);

    assert!(board.add_points(ThreePlayers::PlayerTwo, 119).is_ok());
    assert_eq!(board.score(ThreePlayers::PlayerTwo), 120);
    assert_eq!(board.winner().is_some(), false);
    assert_eq!(board.winner(), None);

    assert!(board.add_points(ThreePlayers::PlayerTwo, 2).is_ok());
    assert_eq!(board.score(ThreePlayers::PlayerTwo), 121);
    assert_eq!(board.winner().is_some(), true);
    assert_eq!(board.winner(), Some(ThreePlayers::PlayerTwo));

    assert_eq!(
        board.add_points(ThreePlayers::PlayerTwo, 1),
        Err(CribbageCoreError::WinnerExists)
    );

    let mut board = standard_three_player_board();
    assert!(board.add_points(ThreePlayers::PlayerThree, 1).is_ok());
    assert_eq!(board.score(ThreePlayers::PlayerOne), 0);
    assert_eq!(board.score(ThreePlayers::PlayerTwo), 0);
    assert_eq!(board.score(ThreePlayers::PlayerThree), 1);

    assert!(board.add_points(ThreePlayers::PlayerThree, 119).is_ok());
    assert_eq!(board.score(ThreePlayers::PlayerThree), 120);
    assert_eq!(board.winner().is_some(), false);
    assert_eq!(board.winner(), None);

    assert!(board.add_points(ThreePlayers::PlayerThree, 2).is_ok());
    assert_eq!(board.score(ThreePlayers::PlayerThree), 121);
    assert_eq!(board.winner().is_some(), true);
    assert_eq!(board.winner(), Some(ThreePlayers::PlayerThree));

    assert_eq!(
        board.add_points(ThreePlayers::PlayerThree, 1),
        Err(CribbageCoreError::WinnerExists)
    );
}

#[test]
pub fn test_four_player_board() {
    let mut board = standard_four_player_board();
    assert_eq!(board.score(FourPlayers::PlayerOne), 0);
    assert_eq!(board.score(FourPlayers::PlayerTwo), 0);
    assert_eq!(board.score(FourPlayers::PlayerThree), 0);
    assert_eq!(board.score(FourPlayers::PlayerFour), 0);

    assert!(board.add_points(FourPlayers::PlayerOne, 1).is_ok());
    assert_eq!(board.score(FourPlayers::PlayerOne), 1);
    assert_eq!(board.score(FourPlayers::PlayerTwo), 0);
    assert_eq!(board.score(FourPlayers::PlayerThree), 0);
    assert_eq!(board.score(FourPlayers::PlayerFour), 0);

    assert!(board.add_points(FourPlayers::PlayerOne, 119).is_ok());
    assert_eq!(board.score(FourPlayers::PlayerOne), 120);
    assert_eq!(board.winner().is_some(), false);
    assert_eq!(board.winner(), None);

    assert!(board.add_points(FourPlayers::PlayerOne, 2).is_ok());
    assert_eq!(board.score(FourPlayers::PlayerOne), 121);
    assert_eq!(board.winner().is_some(), true);
    assert_eq!(board.winner(), Some(FourPlayers::PlayerOne));

    assert_eq!(
        board.add_points(FourPlayers::PlayerOne, 1),
        Err(CribbageCoreError::WinnerExists)
    );

    let mut board = standard_four_player_board();
    assert!(board.add_points(FourPlayers::PlayerTwo, 1).is_ok());
    assert_eq!(board.score(FourPlayers::PlayerOne), 0);
    assert_eq!(board.score(FourPlayers::PlayerTwo), 1);
    assert_eq!(board.score(FourPlayers::PlayerThree), 0);
    assert_eq!(board.score(FourPlayers::PlayerFour), 0);

    assert!(board.add_points(FourPlayers::PlayerTwo, 119).is_ok());
    assert_eq!(board.score(FourPlayers::PlayerTwo), 120);
    assert_eq!(board.winner().is_some(), false);
    assert_eq!(board.winner(), None);

    assert!(board.add_points(FourPlayers::PlayerTwo, 2).is_ok());
    assert_eq!(board.score(FourPlayers::PlayerTwo), 121);
    assert_eq!(board.winner().is_some(), true);
    assert_eq!(board.winner(), Some(FourPlayers::PlayerTwo));

    assert_eq!(
        board.add_points(FourPlayers::PlayerTwo, 1),
        Err(CribbageCoreError::WinnerExists)
    );

    let mut board = standard_four_player_board();
    assert!(board.add_points(FourPlayers::PlayerThree, 1).is_ok());
    assert_eq!(board.score(FourPlayers::PlayerOne), 0);
    assert_eq!(board.score(FourPlayers::PlayerTwo), 0);
    assert_eq!(board.score(FourPlayers::PlayerThree), 1);
    assert_eq!(board.score(FourPlayers::PlayerFour), 0);

    assert!(board.add_points(FourPlayers::PlayerThree, 119).is_ok());
    assert_eq!(board.score(FourPlayers::PlayerThree), 120);
    assert_eq!(board.winner().is_some(), false);
    assert_eq!(board.winner(), None);

    assert!(board.add_points(FourPlayers::PlayerThree, 2).is_ok());
    assert_eq!(board.score(FourPlayers::PlayerThree), 121);
    assert_eq!(board.winner().is_some(), true);
    assert_eq!(board.winner(), Some(FourPlayers::PlayerThree));

    assert_eq!(
        board.add_points(FourPlayers::PlayerThree, 1),
        Err(CribbageCoreError::WinnerExists)
    );

    let mut board = standard_four_player_board();
    assert!(board.add_points(FourPlayers::PlayerFour, 1).is_ok());
    assert_eq!(board.score(FourPlayers::PlayerOne), 0);
    assert_eq!(board.score(FourPlayers::PlayerTwo), 0);
    assert_eq!(board.score(FourPlayers::PlayerThree), 0);
    assert_eq!(board.score(FourPlayers::PlayerFour), 1);

    assert!(board.add_points(FourPlayers::PlayerFour, 119).is_ok());
    assert_eq!(board.score(FourPlayers::PlayerFour), 120);
    assert_eq!(board.winner().is_some(), false);
    assert_eq!(board.winner(), None);

    assert!(board.add_points(FourPlayers::PlayerFour, 2).is_ok());
    assert_eq!(board.score(FourPlayers::PlayerFour), 121);
    assert_eq!(board.winner().is_some(), true);
    assert_eq!(board.winner(), Some(FourPlayers::PlayerFour));

    assert_eq!(
        board.add_points(FourPlayers::PlayerFour, 1),
        Err(CribbageCoreError::WinnerExists)
    );
}

#[test]
fn test_subtract_points() {
    let mut board = standard_two_player_board();
    assert!(board.add_points(TwoPlayers::PlayerOne, 10).is_ok());
    assert_eq!(board.subtract_points(TwoPlayers::PlayerOne, 4), Ok(6));
    assert_eq!(board.score(TwoPlayers::PlayerOne), 6);
    assert_eq!(board.subtract_points(TwoPlayers::PlayerOne, 100), Ok(0));
    assert_eq!(board.score(TwoPlayers::PlayerOne), 0);

    assert!(board.add_points(TwoPlayers::PlayerTwo, 121).is_ok());
    assert_eq!(board.winner(), Some(TwoPlayers::PlayerTwo));
    assert_eq!(
        board.subtract_points(TwoPlayers::PlayerOne, 1),
        Err(CribbageCoreError::WinnerExists)
    );
}

#[test]
fn test_add_points_clamps_to_target() {
    let mut board = standard_two_player_board();
    assert_eq!(board.add_points(TwoPlayers::PlayerOne, 120), Ok(120));
    assert_eq!(board.winner(), None);
    assert_eq!(board.add_points(TwoPlayers::PlayerOne, 50), Ok(121));
    assert_eq!(board.score(TwoPlayers::PlayerOne), 121);
    assert_eq!(board.winner(), Some(TwoPlayers::PlayerOne));
}

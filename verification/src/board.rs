use vstd::prelude::*;

use crate::CribbageCoreError;

verus! {

/// The players of a two-player game.
#[derive(Clone, Copy, Debug, Eq, PartialEq, Structural)]
pub enum TwoPlayers {
    PlayerOne,
    PlayerTwo,
}

/// The players of a three-player game.
#[derive(Clone, Copy, Debug, Eq, PartialEq, Structural)]
pub enum ThreePlayers {
    PlayerOne,
    PlayerTwo,
    PlayerThree,
}

/// The players of a four-player game.
#[derive(Clone, Copy, Debug, Eq, PartialEq, Structural)]
pub enum FourPlayers {
    PlayerOne,
    PlayerTwo,
    PlayerThree,
    PlayerFour,
}

/// A score value the board can track: it stands for a non-negative integer
/// with a saturation cap, and is added and subtracted without leaving that
/// range.
pub trait Score: Copy + Sized {
    /// The integer the value stands for.
    spec fn as_int(self) -> int;

    /// The largest representable integer, where additions saturate.
    spec fn cap() -> int;

    /// The starting score.
    fn initial() -> (r: Self)
        ensures
            r.as_int() == 0,
    ;

    /// Addition, saturating at the cap.
    fn saturating_add(self, other: Self) -> (r: Self)
        ensures
            r.as_int() == if self.as_int() + other.as_int() <= Self::cap() {
                self.as_int() + other.as_int()
            } else {
                Self::cap()
            },
    ;

    /// Subtraction, saturating at zero.
    fn saturating_sub(self, other: Self) -> (r: Self)
        ensures
            r.as_int() == if self.as_int() - other.as_int() >= 0 {
                self.as_int() - other.as_int()
            } else {
                0
            },
    ;

    /// Whether the two values stand for the same integer.
    fn same_score(self, other: Self) -> (r: bool)
        ensures
            r == (self.as_int() == other.as_int()),
    ;

    /// Whether this value stands for a larger integer than `other`.
    fn above(self, other: Self) -> (r: bool)
        ensures
            r == (self.as_int() > other.as_int()),
    ;
}

impl Score for u8 {
    open spec fn as_int(self) -> int {
        self as int
    }

    open spec fn cap() -> int {
        255
    }

    fn initial() -> (r: u8) {
        0
    }

    fn saturating_add(self, other: u8) -> (r: u8) {
        u8::saturating_add(self, other)
    }

    fn saturating_sub(self, other: u8) -> (r: u8) {
        u8::saturating_sub(self, other)
    }

    fn same_score(self, other: u8) -> (r: bool) {
        self == other
    }

    fn above(self, other: u8) -> (r: bool) {
        self > other
    }
}

/// A table of scores, one per player.
pub trait ScoreTable<P, V: Copy>: Sized {
    /// The score the table holds for player `p`.
    spec fn val(self, p: P) -> V;

    /// Reads the score of player `p`.
    fn get(&self, p: P) -> (r: V)
        ensures
            r == self.val(p),
    ;

    /// Writes the score of player `p`, leaving every other player's score
    /// unchanged.
    fn set(&mut self, p: P, v: V)
        ensures
            final(self).val(p) == v,
            forall|q: P| q != p ==> #[trigger] final(self).val(q) == old(self).val(q),
    ;
}

/// The scores of a two-player game.
pub struct TwoPlayerScore<T> {
    scores: [T; 2],
}

impl<T: Copy> ScoreTable<TwoPlayers, T> for TwoPlayerScore<T> {
    closed spec fn val(self, p: TwoPlayers) -> T {
        match p {
            TwoPlayers::PlayerOne => self.scores[0],
            TwoPlayers::PlayerTwo => self.scores[1],
        }
    }

    fn get(&self, p: TwoPlayers) -> (r: T) {
        match p {
            TwoPlayers::PlayerOne => self.scores[0],
            TwoPlayers::PlayerTwo => self.scores[1],
        }
    }

    fn set(&mut self, p: TwoPlayers, v: T) {
        match p {
            TwoPlayers::PlayerOne => {
                self.scores[0] = v;
            },
            TwoPlayers::PlayerTwo => {
                self.scores[1] = v;
            },
        }
    }
}

/// The scores of a three-player game.
pub struct ThreePlayerScore<T> {
    scores: [T; 3],
}

impl<T: Copy> ScoreTable<ThreePlayers, T> for ThreePlayerScore<T> {
    closed spec fn val(self, p: ThreePlayers) -> T {
        match p {
            ThreePlayers::PlayerOne => self.scores[0],
            ThreePlayers::PlayerTwo => self.scores[1],
            ThreePlayers::PlayerThree => self.scores[2],
        }
    }

    fn get(&self, p: ThreePlayers) -> (r: T) {
        match p {
            ThreePlayers::PlayerOne => self.scores[0],
            ThreePlayers::PlayerTwo => self.scores[1],
            ThreePlayers::PlayerThree => self.scores[2],
        }
    }

    fn set(&mut self, p: ThreePlayers, v: T) {
        match p {
            ThreePlayers::PlayerOne => {
                self.scores[0] = v;
            },
            ThreePlayers::PlayerTwo => {
                self.scores[1] = v;
            },
            ThreePlayers::PlayerThree => {
                self.scores[2] = v;
            },
        }
    }
}

/// The scores of a four-player game.
pub struct FourPlayerScore<T> {
    scores: [T; 4],
}

impl<T: Copy> ScoreTable<FourPlayers, T> for FourPlayerScore<T> {
    closed spec fn val(self, p: FourPlayers) -> T {
        match p {
            FourPlayers::PlayerOne => self.scores[0],
            FourPlayers::PlayerTwo => self.scores[1],
            FourPlayers::PlayerThree => self.scores[2],
            FourPlayers::PlayerFour => self.scores[3],
        }
    }

    fn get(&self, p: FourPlayers) -> (r: T) {
        match p {
            FourPlayers::PlayerOne => self.scores[0],
            FourPlayers::PlayerTwo => self.scores[1],
            FourPlayers::PlayerThree => self.scores[2],
            FourPlayers::PlayerFour => self.scores[3],
        }
    }

    fn set(&mut self, p: FourPlayers, v: T) {
        match p {
            FourPlayers::PlayerOne => {
                self.scores[0] = v;
            },
            FourPlayers::PlayerTwo => {
                self.scores[1] = v;
            },
            FourPlayers::PlayerThree => {
                self.scores[2] = v;
            },
            FourPlayers::PlayerFour => {
                self.scores[3] = v;
            },
        }
    }
}

/// The score-tracking board: per-player scores, the target score, and the
/// winner once a player's score reaches the target exactly.
pub struct Board<P, V, S> {
    scores: S,
    target: V,
    winner: Option<P>,
}

impl<P: Copy, V: Copy + Score, S: ScoreTable<P, V>> Board<P, V, S> {
    /// The score the board holds for player `p`.
    pub closed spec fn spec_score(self, p: P) -> V {
        self.scores.val(p)
    }

    /// The score a player must reach to win.
    pub closed spec fn spec_target(self) -> V {
        self.target
    }

    /// The winning player, once one exists.
    pub closed spec fn spec_winner(self) -> Option<P> {
        self.winner
    }

    /// Adds points to a player's score. Once a winner exists every further
    /// change is refused with `WinnerExists`. The score saturates at the
    /// value type's cap and is clamped to the target; the player whose score
    /// reaches the target exactly becomes the winner. The new score comes
    /// back.
    pub fn add_points(&mut self, id: P, points: V) -> (r: Result<V, CribbageCoreError>)
        ensures
            old(self).spec_winner() is Some ==> r == Err::<V, CribbageCoreError>(
                CribbageCoreError::WinnerExists,
            ) && *final(self) == *old(self),
            old(self).spec_winner() is None ==> ({
                let s = old(self).spec_score(id).as_int();
                let t = old(self).spec_target().as_int();
                let bumped = if s + points.as_int() <= V::cap() {
                    s + points.as_int()
                } else {
                    V::cap()
                };
                &&& bumped > t ==> final(self).spec_score(id) == old(self).spec_target()
                &&& bumped <= t ==> final(self).spec_score(id).as_int() == bumped
                &&& r matches Ok(v) && v == final(self).spec_score(id)
                &&& final(self).spec_target() == old(self).spec_target()
                &&& forall|q: P|
                    q != id ==> #[trigger] final(self).spec_score(q) == old(self).spec_score(q)
                &&& final(self).spec_winner() == (if final(self).spec_score(id).as_int() == t {
                    Some(id)
                } else {
                    Option::<P>::None
                })
            }),
    {
        if self.winner.is_some() {
            return Err(CribbageCoreError::WinnerExists);
        }
        let bumped = self.scores.get(id).saturating_add(points);
        self.scores.set(id, bumped);
        if self.scores.get(id).above(self.target) {
            self.scores.set(id, self.target);
        }
        if self.scores.get(id).same_score(self.target) {
            self.winner = Some(id);
        }
        Ok(self.scores.get(id))
    }

    /// Takes points off a player's score, which saturates at zero. Once a
    /// winner exists the change is refused with `WinnerExists`. The new
    /// score comes back.
    pub fn subtract_points(&mut self, id: P, points: V) -> (r: Result<V, CribbageCoreError>)
        ensures
            old(self).spec_winner() is Some ==> r == Err::<V, CribbageCoreError>(
                CribbageCoreError::WinnerExists,
            ) && *final(self) == *old(self),
            old(self).spec_winner() is None ==> ({
                let s = old(self).spec_score(id).as_int();
                let cut = if s - points.as_int() >= 0 {
                    s - points.as_int()
                } else {
                    0
                };
                &&& final(self).spec_score(id).as_int() == cut
                &&& r matches Ok(v) && v == final(self).spec_score(id)
                &&& final(self).spec_target() == old(self).spec_target()
                &&& final(self).spec_winner() == old(self).spec_winner()
                &&& forall|q: P|
                    q != id ==> #[trigger] final(self).spec_score(q) == old(self).spec_score(q)
            }),
    {
        if self.winner.is_some() {
            return Err(CribbageCoreError::WinnerExists);
        }
        let cut = self.scores.get(id).saturating_sub(points);
        self.scores.set(id, cut);
        Ok(self.scores.get(id))
    }

    /// The current score of player `id`.
    pub fn score(&self, id: P) -> (r: V)
        ensures
            r == self.spec_score(id),
    {
        self.scores.get(id)
    }

    /// The winner, if a player has reached the target.
    pub fn winner(&self) -> (r: Option<P>)
        ensures
            r == self.spec_winner(),
    {
        self.winner
    }
}

/// A board over any score table and target, with no winner yet.
pub fn custom_board<P: Copy, V: Copy + Score, S: ScoreTable<P, V>>(scores: S, target: V) -> (b:
    Board<P, V, S>)
    ensures
        b.spec_winner() is None,
        b.spec_target() == target,
        forall|p: P| #[trigger] b.spec_score(p) == scores.val(p),
{
    Board { scores, target, winner: None }
}

/// The standard two-player board: scores start at zero, the game ends at
/// one hundred twenty-one.
pub fn standard_two_player_board() -> (b: Board<TwoPlayers, u8, TwoPlayerScore<u8>>)
    ensures
        b.spec_winner() is None,
        b.spec_target() == 121u8,
        forall|p: TwoPlayers| #[trigger] b.spec_score(p) == 0u8,
{
    let b = custom_board(TwoPlayerScore { scores: [0u8, 0u8] }, 121);
    proof {
        assert forall|p: TwoPlayers| #[trigger] b.spec_score(p) == 0u8 by {
            match p {
                TwoPlayers::PlayerOne => {},
                TwoPlayers::PlayerTwo => {},
            }
        }
    }
    b
}

/// The standard three-player board with target one hundred twenty-one.
pub fn standard_three_player_board() -> (b: Board<ThreePlayers, u8, ThreePlayerScore<u8>>)
    ensures
        b.spec_winner() is None,
        b.spec_target() == 121u8,
        forall|p: ThreePlayers| #[trigger] b.spec_score(p) == 0u8,
{
    let b = custom_board(ThreePlayerScore { scores: [0u8, 0u8, 0u8] }, 121);
    proof {
        assert forall|p: ThreePlayers| #[trigger] b.spec_score(p) == 0u8 by {
            match p {
                ThreePlayers::PlayerOne => {},
                ThreePlayers::PlayerTwo => {},
                ThreePlayers::PlayerThree => {},
            }
        }
    }
    b
}

/// The standard four-player board with target one hundred twenty-one.
pub fn standard_four_player_board() -> (b: Board<FourPlayers, u8, FourPlayerScore<u8>>)
    ensures
        b.spec_winner() is None,
        b.spec_target() == 121u8,
        forall|p: FourPlayers| #[trigger] b.spec_score(p) == 0u8,
{
    let b = custom_board(FourPlayerScore { scores: [0u8, 0u8, 0u8, 0u8] }, 121);
    proof {
        assert forall|p: FourPlayers| #[trigger] b.spec_score(p) == 0u8 by {
            match p {
                FourPlayers::PlayerOne => {},
                FourPlayers::PlayerTwo => {},
                FourPlayers::PlayerThree => {},
                FourPlayers::PlayerFour => {},
            }
        }
    }
    b
}

} // verus!

use vstd::prelude::*;

use crate::card::{card_values_sum, is_run, lemma_card_values_sum_bounds, slice_is_run, Card, Rank};
use crate::CribbageCoreError;

verus! {

// ---------------------------------------------------------------------------
// The mathematical statement of pegging.
//
// One play is scored from the running count and the ordered history of cards
// already played in the current segment: a count milestone, a bonus for
// consecutive same-rank plays, and a bonus for the longest trailing run.
// ---------------------------------------------------------------------------

/// Count milestones: reaching fifteen scores 2, reaching thirty-one scores 1.
pub open spec fn milestone_points(count: int) -> int {
    if count == 15 {
        2
    } else if count == 31 {
        1
    } else {
        0
    }
}

/// How many cards at the very end of the history, walking backward without a
/// gap, share rank `r`.
pub open spec fn trailing_rank_matches(played: Seq<Card>, r: Rank) -> int
    decreases played.len(),
{
    if played.len() == 0 || played.last().rank != r {
        0
    } else {
        1 + trailing_rank_matches(played.drop_last(), r)
    }
}

/// Pair-family bonus for `n` immediately preceding cards of the same rank:
/// a pair scores 2, three of a kind 6, four of a kind 12.
pub open spec fn rank_match_points(n: int) -> int {
    if n == 1 {
        2
    } else if n == 2 {
        6
    } else if n == 3 {
        12
    } else {
        0
    }
}

/// Run bonus over the updated history: the longest trailing suffix (of at
/// least three cards) whose ranks form a run scores its length; without one
/// the bonus is 0.
pub open spec fn run_suffix_points(h: Seq<Card>) -> int
    decreases h.len(),
{
    if h.len() < 3 {
        0
    } else if is_run(h) {
        h.len() as int
    } else {
        run_suffix_points(h.drop_first())
    }
}

/// The points one play earns: the milestone for the new count, the
/// same-rank bonus over the history before the play, and the run bonus over
/// the history with the played card appended.
pub open spec fn play_points(played: Seq<Card>, count: int, card: Card) -> int {
    milestone_points(count + card.rank.spec_value()) + rank_match_points(
        trailing_rank_matches(played, card.rank),
    ) + run_suffix_points(played.push(card))
}

// ---------------------------------------------------------------------------
// The pegging engine.
// ---------------------------------------------------------------------------

/// The running count and the ordered history of cards played since the last
/// reset. The count always equals the summed card values of the history and
/// never exceeds thirty-one.
pub struct Pegger {
    count: u8,
    played_cards: Vec<Card>,
}

impl Pegger {
    /// The running count.
    pub closed spec fn spec_count(self) -> int {
        self.count as int
    }

    /// The cards played since the last reset, in play order.
    pub closed spec fn spec_played(self) -> Seq<Card> {
        self.played_cards@
    }

    /// The count is the summed value of the played cards and stays within
    /// thirty-one.
    pub closed spec fn wf(self) -> bool {
        self.count as int == card_values_sum(self.played_cards@) && self.count <= 31
    }

    pub fn new() -> (p: Pegger)
        ensures
            p.spec_count() == 0,
            p.spec_played() == Seq::<Card>::empty(),
            p.wf(),
    {
        let p = Pegger { count: 0, played_cards: Vec::new() };
        proof {
            assert(p.played_cards@ =~= Seq::<Card>::empty());
        }
        p
    }

    /// Decides whether a group of cards forms a run, in any order of play.
    pub fn is_run(cards: &[Card]) -> (r: bool)
        ensures
            r == is_run(cards@),
    {
        slice_is_run(cards)
    }

    pub fn count(&self) -> (r: u8)
        ensures
            r as int == self.spec_count(),
    {
        self.count
    }

    /// Scores one more play. A card that would push the count past
    /// thirty-one is rejected with `InvalidCard` and the state is left
    /// unchanged, so the caller can retry with a different card or declare a
    /// "go"; otherwise the card is appended, the count committed, and the
    /// points for the play returned. The extra "go" point for a count left
    /// unreachable is the caller's business, as is the reset between
    /// segments.
    pub fn play_card(&mut self, card: Card) -> (r: Result<u8, CribbageCoreError>)
        requires
            old(self).wf(),
        ensures
            final(self).wf(),
            old(self).spec_count() + card.rank.spec_value() > 31 ==> r == Err::<
                u8,
                CribbageCoreError,
            >(CribbageCoreError::InvalidCard) && *final(self) == *old(self),
            old(self).spec_count() + card.rank.spec_value() <= 31 ==> ({
                &&& final(self).spec_count() == old(self).spec_count() + card.rank.spec_value()
                &&& final(self).spec_played() == old(self).spec_played().push(card)
                &&& r matches Ok(p) && p as int == play_points(
                    old(self).spec_played(),
                    old(self).spec_count(),
                    card,
                )
            }),
    {
        let value = card.rank().value();
        let new_count = self.count + value;
        if new_count > 31 {
            return Err(CribbageCoreError::InvalidCard);
        }
        proof {
            lemma_card_values_sum_bounds(self.played_cards@);
        }
        let ghost old_played = self.played_cards@;
        let len = self.played_cards.len();

        self.count = new_count;
        let mut points: u8 = if new_count == 15 {
            2
        } else if new_count == 31 {
            1
        } else {
            0
        };

        // Same-rank bonus: walk backward over the history while ranks match.
        proof {
            assert(old_played.subrange(0, len as int) =~= old_played);
        }
        let mut same: usize = 0;
        while same < len && self.played_cards[len - 1 - same].rank() == card.rank()
            invariant
                same <= len,
                len == self.played_cards@.len(),
                old_played == self.played_cards@,
                trailing_rank_matches(old_played, card.rank) == same + trailing_rank_matches(
                    old_played.subrange(0, (len - same) as int),
                    card.rank,
                ),
            decreases len - same,
        {
            proof {
                let pre = old_played.subrange(0, (len - same) as int);
                assert(pre.last() == old_played[(len - 1 - same) as int]);
                assert(pre.drop_last() =~= old_played.subrange(0, (len - same - 1) as int));
            }
            same += 1;
        }
        proof {
            let pre = old_played.subrange(0, (len - same) as int);
            if same < len {
                assert(pre.last() == old_played[(len - 1 - same) as int]);
            }
            assert(trailing_rank_matches(pre, card.rank) == 0);
        }
        points += if same == 1 {
            2
        } else if same == 2 {
            6
        } else if same == 3 {
            12
        } else {
            0
        };

        self.played_cards.push(card);
        proof {
            let h = self.played_cards@;
            assert(h.drop_last() =~= old_played);
            assert(self.count as int == card_values_sum(h));
            lemma_card_values_sum_bounds(h);
        }

        // Run bonus: the longest trailing suffix that forms a run.
        let ghost h = self.played_cards@;
        let hlen = self.played_cards.len();
        proof {
            assert(h.subrange(0, hlen as int) =~= h);
        }
        let mut i: usize = 0;
        let mut run_pts: u8 = 0;
        let mut found: bool = false;
        while i < hlen && !found
            invariant
                i <= hlen,
                hlen == h.len(),
                h == self.played_cards@,
                hlen <= 31,
                found ==> run_pts as int == run_suffix_points(h) && run_pts <= 31,
                !found ==> run_pts == 0 && run_suffix_points(h) == run_suffix_points(
                    h.subrange(i as int, hlen as int),
                ),
            decreases hlen - i,
        {
            let mut tail: Vec<Card> = Vec::new();
            let mut j: usize = i;
            while j < hlen
                invariant
                    i <= j <= hlen,
                    hlen == h.len(),
                    h == self.played_cards@,
                    tail@ =~= h.subrange(i as int, j as int),
                decreases hlen - j,
            {
                tail.push(self.played_cards[j]);
                j += 1;
            }
            proof {
                assert(tail@ =~= h.subrange(i as int, hlen as int));
            }
            if Pegger::is_run(tail.as_slice()) {
                run_pts = (hlen - i) as u8;
                found = true;
            } else {
                proof {
                    let suf = h.subrange(i as int, hlen as int);
                    assert(suf.drop_first() =~= h.subrange(i as int + 1, hlen as int));
                }
            }
            i += 1;
        }
        points += run_pts;
        Ok(points)
    }

    /// Clears the count and the history, starting a fresh segment.
    pub fn reset(&mut self)
        ensures
            final(self).spec_count() == 0,
            final(self).spec_played() == Seq::<Card>::empty(),
            final(self).wf(),
    {
        self.count = 0;
        self.played_cards.clear();
        proof {
            assert(self.played_cards@ =~= Seq::<Card>::empty());
        }
    }
}

impl Default for Pegger {
    /// The same empty segment `new` builds.
    fn default() -> (p: Pegger)
        ensures
            p.spec_count() == 0,
            p.spec_played() == Seq::<Card>::empty(),
            p.wf(),
    {
        Pegger::new()
    }
}

// ---------------------------------------------------------------------------
// Staged holdings: each successful play moves to a holding with one card
// fewer, so that playing a card one does not hold, or playing one twice, is
// rejected and the holding handed back intact for retry.
// ---------------------------------------------------------------------------

/// A holding of four cards still to be played in the pegging phase.
#[derive(Clone, Copy, Debug)]
pub struct FourCardPegging {
    cards: [Card; 4],
}

/// A holding of three cards still to be played in the pegging phase.
#[derive(Clone, Copy, Debug)]
pub struct ThreeCardPegging {
    cards: [Card; 3],
}

/// A holding of two cards still to be played in the pegging phase.
#[derive(Clone, Copy, Debug)]
pub struct TwoCardPegging {
    cards: [Card; 2],
}

/// A holding of the last card still to be played in the pegging phase.
#[derive(Clone, Copy, Debug)]
pub struct OneCardPegging {
    card: Card,
}

impl FourCardPegging {
    /// The cards still held.
    pub closed spec fn spec_cards(self) -> Seq<Card> {
        self.cards@
    }

    pub fn new(cards: [Card; 4]) -> (r: FourCardPegging)
        ensures
            r.spec_cards() == cards@,
    {
        FourCardPegging { cards }
    }

    /// Plays one of the four held cards. A card not held, or one the pegger
    /// rejects, fails with `InvalidCard`, handing the holding back unchanged;
    /// otherwise the play's points and the three remaining cards come back.
    pub fn play_card(self, card: Card, pegger: &mut Pegger) -> (r: Result<
        (u8, ThreeCardPegging),
        (FourCardPegging, CribbageCoreError),
    >)
        requires
            old(pegger).wf(),
        ensures
            final(pegger).wf(),
            ({
                let cs = self.spec_cards();
                let held = card == cs[0] || card == cs[1] || card == cs[2] || card == cs[3];
                let fits = old(pegger).spec_count() + card.rank.spec_value() <= 31;
                let remaining = if card == cs[0] {
                    seq![cs[3], cs[1], cs[2]]
                } else if card == cs[1] {
                    seq![cs[0], cs[3], cs[2]]
                } else if card == cs[2] {
                    seq![cs[0], cs[1], cs[3]]
                } else {
                    seq![cs[0], cs[1], cs[2]]
                };
                if held && fits {
                    &&& r matches Ok((p, next)) && p as int == play_points(
                        old(pegger).spec_played(),
                        old(pegger).spec_count(),
                        card,
                    ) && next.spec_cards() == remaining
                    &&& final(pegger).spec_count() == old(pegger).spec_count()
                        + card.rank.spec_value()
                    &&& final(pegger).spec_played() == old(pegger).spec_played().push(card)
                } else {
                    r == Err::<(u8, ThreeCardPegging), (FourCardPegging, CribbageCoreError)>(
                        (self, CribbageCoreError::InvalidCard),
                    ) && *final(pegger) == *old(pegger)
                }
            }),
    {
        let rest: [Card; 3] = if card == self.cards[0] {
            [self.cards[3], self.cards[1], self.cards[2]]
        } else if card == self.cards[1] {
            [self.cards[0], self.cards[3], self.cards[2]]
        } else if card == self.cards[2] {
            [self.cards[0], self.cards[1], self.cards[3]]
        } else if card == self.cards[3] {
            [self.cards[0], self.cards[1], self.cards[2]]
        } else {
            return Err((self, CribbageCoreError::InvalidCard));
        };
        match pegger.play_card(card) {
            Ok(points) => {
                let next = ThreeCardPegging::new(rest);
                proof {
                    let cs = self.spec_cards();
                    assert(next.spec_cards() =~= if card == cs[0] {
                        seq![cs[3], cs[1], cs[2]]
                    } else if card == cs[1] {
                        seq![cs[0], cs[3], cs[2]]
                    } else if card == cs[2] {
                        seq![cs[0], cs[1], cs[3]]
                    } else {
                        seq![cs[0], cs[1], cs[2]]
                    });
                }
                Ok((points, next))
            },
            Err(error) => Err((self, error)),
        }
    }
}

impl ThreeCardPegging {
    /// The cards still held.
    pub closed spec fn spec_cards(self) -> Seq<Card> {
        self.cards@
    }

    fn new(cards: [Card; 3]) -> (r: ThreeCardPegging)
        ensures
            r.spec_cards() == cards@,
    {
        ThreeCardPegging { cards }
    }

    /// Plays one of the three held cards; see `FourCardPegging::play_card`.
    pub fn play_card(self, card: Card, pegger: &mut Pegger) -> (r: Result<
        (u8, TwoCardPegging),
        (ThreeCardPegging, CribbageCoreError),
    >)
        requires
            old(pegger).wf(),
        ensures
            final(pegger).wf(),
            ({
                let cs = self.spec_cards();
                let held = card == cs[0] || card == cs[1] || card == cs[2];
                let fits = old(pegger).spec_count() + card.rank.spec_value() <= 31;
                let remaining = if card == cs[0] {
                    seq![cs[2], cs[1]]
                } else if card == cs[1] {
                    seq![cs[0], cs[2]]
                } else {
                    seq![cs[0], cs[1]]
                };
                if held && fits {
                    &&& r matches Ok((p, next)) && p as int == play_points(
                        old(pegger).spec_played(),
                        old(pegger).spec_count(),
                        card,
                    ) && next.spec_cards() == remaining
                    &&& final(pegger).spec_count() == old(pegger).spec_count()
                        + card.rank.spec_value()
                    &&& final(pegger).spec_played() == old(pegger).spec_played().push(card)
                } else {
                    r == Err::<(u8, TwoCardPegging), (ThreeCardPegging, CribbageCoreError)>(
                        (self, CribbageCoreError::InvalidCard),
                    ) && *final(pegger) == *old(pegger)
                }
            }),
    {
        let rest: [Card; 2] = if card == self.cards[0] {
            [self.cards[2], self.cards[1]]
        } else if card == self.cards[1] {
            [self.cards[0], self.cards[2]]
        } else if card == self.cards[2] {
            [self.cards[0], self.cards[1]]
        } else {
            return Err((self, CribbageCoreError::InvalidCard));
        };
        match pegger.play_card(card) {
            Ok(points) => {
                let next = TwoCardPegging::new(rest);
                proof {
                    let cs = self.spec_cards();
                    assert(next.spec_cards() =~= if card == cs[0] {
                        seq![cs[2], cs[1]]
                    } else if card == cs[1] {
                        seq![cs[0], cs[2]]
                    } else {
                        seq![cs[0], cs[1]]
                    });
                }
                Ok((points, next))
            },
            Err(error) => Err((self, error)),
        }
    }
}

impl TwoCardPegging {
    /// The cards still held.
    pub closed spec fn spec_cards(self) -> Seq<Card> {
        self.cards@
    }

    fn new(cards: [Card; 2]) -> (r: TwoCardPegging)
        ensures
            r.spec_cards() == cards@,
    {
        TwoCardPegging { cards }
    }

    /// Plays one of the two held cards; see `FourCardPegging::play_card`.
    pub fn play_card(self, card: Card, pegger: &mut Pegger) -> (r: Result<
        (u8, OneCardPegging),
        (TwoCardPegging, CribbageCoreError),
    >)
        requires
            old(pegger).wf(),
        ensures
            final(pegger).wf(),
            ({
                let cs = self.spec_cards();
                let held = card == cs[0] || card == cs[1];
                let fits = old(pegger).spec_count() + card.rank.spec_value() <= 31;
                let remaining = if card == cs[0] {
                    cs[1]
                } else {
                    cs[0]
                };
                if held && fits {
                    &&& r matches Ok((p, next)) && p as int == play_points(
                        old(pegger).spec_played(),
                        old(pegger).spec_count(),
                        card,
                    ) && next.spec_card() == remaining
                    &&& final(pegger).spec_count() == old(pegger).spec_count()
                        + card.rank.spec_value()
                    &&& final(pegger).spec_played() == old(pegger).spec_played().push(card)
                } else {
                    r == Err::<(u8, OneCardPegging), (TwoCardPegging, CribbageCoreError)>(
                        (self, CribbageCoreError::InvalidCard),
                    ) && *final(pegger) == *old(pegger)
                }
            }),
    {
        let rest: Card = if card == self.cards[0] {
            self.cards[1]
        } else if card == self.cards[1] {
            self.cards[0]
        } else {
            return Err((self, CribbageCoreError::InvalidCard));
        };
        match pegger.play_card(card) {
            Ok(points) => Ok((points, OneCardPegging::new(rest))),
            Err(error) => Err((self, error)),
        }
    }
}

impl OneCardPegging {
    /// The last card held.
    pub closed spec fn spec_card(self) -> Card {
        self.card
    }

    fn new(card: Card) -> (r: OneCardPegging)
        ensures
            r.spec_card() == card,
    {
        OneCardPegging { card }
    }

    /// Plays the last held card; see `FourCardPegging::play_card`.
    pub fn play_card(self, card: Card, pegger: &mut Pegger) -> (r: Result<
        u8,
        (OneCardPegging, CribbageCoreError),
    >)
        requires
            old(pegger).wf(),
        ensures
            final(pegger).wf(),
            ({
                let held = card == self.spec_card();
                let fits = old(pegger).spec_count() + card.rank.spec_value() <= 31;
                if held && fits {
                    &&& r matches Ok(p) && p as int == play_points(
                        old(pegger).spec_played(),
                        old(pegger).spec_count(),
                        card,
                    )
                    &&& final(pegger).spec_count() == old(pegger).spec_count()
                        + card.rank.spec_value()
                    &&& final(pegger).spec_played() == old(pegger).spec_played().push(card)
                } else {
                    r == Err::<u8, (OneCardPegging, CribbageCoreError)>(
                        (self, CribbageCoreError::InvalidCard),
                    ) && *final(pegger) == *old(pegger)
                }
            }),
    {
        if card != self.card {
            return Err((self, CribbageCoreError::InvalidCard));
        }
        match pegger.play_card(card) {
            Ok(points) => Ok(points),
            Err(error) => Err((self, error)),
        }
    }
}

} // verus!

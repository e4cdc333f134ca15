use vstd::prelude::*;

use crate::card::{all_same_suit, is_run, slice_is_run, Card, Rank};
use crate::deck::Deck;
use crate::CribbageCoreError;

verus! {

// ---------------------------------------------------------------------------
// The mathematical statement of hand scoring.
//
// A hand is scored over the five cards made of the four held cards plus the
// shared starter, as the sum of five independent components: fifteens, pairs,
// runs, flush and nobs.
// ---------------------------------------------------------------------------

/// How many subsets of `cs` (of any size, the empty one included) have card
/// values summing to exactly `target`. For `target == 15` only subsets of two
/// or more cards can qualify, since a single card is worth at most 10.
pub open spec fn count_subsets_summing(cs: Seq<Card>, target: int) -> int
    decreases cs.len(),
{
    if cs.len() == 0 {
        if target == 0 {
            1
        } else {
            0
        }
    } else {
        count_subsets_summing(cs.drop_last(), target) + count_subsets_summing(
            cs.drop_last(),
            target - cs.last().rank.spec_value(),
        )
    }
}

/// Two points for every distinct subset of the five cards whose values sum
/// to fifteen.
pub open spec fn fifteens_points(cs: Seq<Card>) -> int {
    2 * count_subsets_summing(cs, 15)
}

/// How many cards of `cs` have rank `r`.
pub open spec fn count_rank_matches(cs: Seq<Card>, r: Rank) -> int
    decreases cs.len(),
{
    if cs.len() == 0 {
        0
    } else {
        count_rank_matches(cs.drop_last(), r) + if cs.last().rank == r {
            1int
        } else {
            0int
        }
    }
}

/// How many unordered pairs of cards of `cs` share a rank.
pub open spec fn count_pairs(cs: Seq<Card>) -> int
    decreases cs.len(),
{
    if cs.len() == 0 {
        0
    } else {
        count_pairs(cs.drop_last()) + count_rank_matches(cs.drop_last(), cs.last().rank)
    }
}

/// Two points for every unordered pair of cards sharing a rank.
pub open spec fn pairs_points(cs: Seq<Card>) -> int {
    2 * count_pairs(cs)
}

/// How many ways the cards picked so far can be completed to a run by picking
/// exactly `k` more cards out of `cs`, walking `cs` front to back.
pub open spec fn count_run_subsets_rec(cs: Seq<Card>, chosen: Seq<Card>, k: int) -> int
    decreases cs.len(),
{
    if cs.len() == 0 {
        if k == 0 && is_run(chosen) {
            1
        } else {
            0
        }
    } else {
        count_run_subsets_rec(cs.drop_first(), chosen, k) + count_run_subsets_rec(
            cs.drop_first(),
            chosen.push(cs.first()),
            k - 1,
        )
    }
}

/// How many subsets of `cs` of size exactly `k` form a run.
pub open spec fn count_run_subsets(cs: Seq<Card>, k: int) -> int {
    count_run_subsets_rec(cs, Seq::<Card>::empty(), k)
}

/// Run points over the five cards: the longest length (5, then 4, then 3)
/// at which at least one subset forms a run scores its length for every
/// qualifying subset of that length; shorter lengths then score nothing.
pub open spec fn runs_points(cs: Seq<Card>) -> int {
    if count_run_subsets(cs, 5) > 0 {
        5 * count_run_subsets(cs, 5)
    } else if count_run_subsets(cs, 4) > 0 {
        4 * count_run_subsets(cs, 4)
    } else {
        3 * count_run_subsets(cs, 3)
    }
}

/// The ranks step up by exactly one at every position of the given order,
/// as they do in a sorted run.
pub open spec fn ordered_run(cs: Seq<Card>) -> bool {
    forall|i: int|
        1 <= i < cs.len() ==> #[trigger] cs[i].rank.spec_ordinal() == cs[i
            - 1].rank.spec_ordinal() + 1
}

/// Flush points: four held cards of one suit score 4, or 5 when the starter
/// matches as well; a crib scores a flush only when the starter matches.
pub open spec fn flush_points(cards: Seq<Card>, cut: Card, is_crib: bool) -> int {
    if cards.len() > 0 && all_same_suit(cards) {
        if cut.suit == cards[0].suit {
            5
        } else if is_crib {
            0
        } else {
            4
        }
    } else {
        0
    }
}

/// One point for holding the Jack of the starter's suit.
pub open spec fn nobs_points(cards: Seq<Card>, cut: Card) -> int {
    if exists|i: int|
        0 <= i < cards.len() && #[trigger] cards[i].rank == Rank::Jack && cards[i].suit
            == cut.suit {
        1
    } else {
        0
    }
}

/// The total score of a hand: the five components summed over the four held
/// cards and the starter.
pub open spec fn hand_score_spec(cards: Seq<Card>, cut: Card, is_crib: bool) -> int {
    let five = cards.push(cut);
    fifteens_points(five) + pairs_points(five) + runs_points(five) + flush_points(
        cards,
        cut,
        is_crib,
    ) + nobs_points(cards, cut)
}

// ---------------------------------------------------------------------------
// Bounds on the subset counts, needed to rule out arithmetic overflow and to
// bound the total score.
// ---------------------------------------------------------------------------

/// Two raised to `n`: the number of subsets of an `n`-card sequence.
pub open spec fn two_to(n: nat) -> int
    decreases n,
{
    if n == 0 {
        1
    } else {
        2 * two_to((n - 1) as nat)
    }
}

pub proof fn lemma_two_to_small(n: nat)
    requires
        n <= 5,
    ensures
        1 <= two_to(n) <= 32,
{
    reveal_with_fuel(two_to, 7);
    if n == 0 {
    } else if n == 1 {
    } else if n == 2 {
    } else if n == 3 {
    } else if n == 4 {
    } else {
        assert(n == 5);
    }
}

pub proof fn lemma_count_subsets_summing_bounds(cs: Seq<Card>, target: int)
    ensures
        0 <= count_subsets_summing(cs, target) <= two_to(cs.len()),
    decreases cs.len(),
{
    if cs.len() > 0 {
        lemma_count_subsets_summing_bounds(cs.drop_last(), target);
        lemma_count_subsets_summing_bounds(
            cs.drop_last(),
            target - cs.last().rank.spec_value(),
        );
    }
}

pub proof fn lemma_count_rank_matches_bounds(cs: Seq<Card>, r: Rank)
    ensures
        0 <= count_rank_matches(cs, r) <= cs.len(),
    decreases cs.len(),
{
    if cs.len() > 0 {
        lemma_count_rank_matches_bounds(cs.drop_last(), r);
    }
}

pub proof fn lemma_count_pairs_bounds(cs: Seq<Card>)
    ensures
        0 <= count_pairs(cs),
        2 * count_pairs(cs) <= cs.len() * (cs.len() - 1),
    decreases cs.len(),
{
    if cs.len() > 0 {
        let l = cs.len() as int;
        lemma_count_pairs_bounds(cs.drop_last());
        lemma_count_rank_matches_bounds(cs.drop_last(), cs.last().rank);
        assert((l - 1) * (l - 2) + 2 * (l - 1) == l * (l - 1)) by (nonlinear_arith);
    }
}

/// No subset at all has a negative number of cards still to pick.
proof fn lemma_count_run_subsets_rec_neg(cs: Seq<Card>, chosen: Seq<Card>, k: int)
    requires
        k < 0,
    ensures
        count_run_subsets_rec(cs, chosen, k) == 0,
    decreases cs.len(),
{
    if cs.len() > 0 {
        lemma_count_run_subsets_rec_neg(cs.drop_first(), chosen, k);
        lemma_count_run_subsets_rec_neg(cs.drop_first(), chosen.push(cs.first()), k - 1);
    }
}

pub proof fn lemma_count_run_subsets_rec_bounds(cs: Seq<Card>, chosen: Seq<Card>, k: int)
    ensures
        0 <= count_run_subsets_rec(cs, chosen, k) <= two_to(cs.len()),
    decreases cs.len(),
{
    if cs.len() > 0 {
        lemma_count_run_subsets_rec_bounds(cs.drop_first(), chosen, k);
        lemma_count_run_subsets_rec_bounds(cs.drop_first(), chosen.push(cs.first()), k - 1);
    }
}

// ---------------------------------------------------------------------------
// The exhaustive enumerations, written as recursions that mirror the counting
// specifications subset by subset.
// ---------------------------------------------------------------------------

/// Counts the subsets of the first `n` cards whose values sum to `target`.
fn count_subsets_summing_exec(cards: &[Card], n: usize, target: i32) -> (r: u8)
    requires
        n <= cards@.len() <= 5,
        target as int <= 15,
        15 - 10 * (5 - n as int) <= target as int,
    ensures
        r as int == count_subsets_summing(cards@.subrange(0, n as int), target as int),
        r <= 32,
    decreases n,
{
    proof {
        lemma_count_subsets_summing_bounds(cards@.subrange(0, n as int), target as int);
        lemma_two_to_small(n as nat);
    }
    if n == 0 {
        if target == 0 {
            1
        } else {
            0
        }
    } else {
        proof {
            let s = cards@.subrange(0, n as int);
            assert(s.drop_last() =~= cards@.subrange(0, n as int - 1));
            assert(s.last() == cards@[n as int - 1]);
            lemma_count_subsets_summing_bounds(
                cards@.subrange(0, n as int - 1),
                target as int,
            );
            lemma_count_subsets_summing_bounds(
                cards@.subrange(0, n as int - 1),
                target as int - cards@[n as int - 1].rank.spec_value(),
            );
            lemma_two_to_small((n - 1) as nat);
        }
        let a = count_subsets_summing_exec(cards, n - 1, target);
        let v = cards[n - 1].rank().value();
        let b = count_subsets_summing_exec(cards, n - 1, target - v as i32);
        a + b
    }
}

/// Counts the cards among the first `n` that have rank `r`.
fn count_rank_matches_exec(cards: &[Card], n: usize, rank: Rank) -> (r: u8)
    requires
        n <= cards@.len() <= 5,
    ensures
        r as int == count_rank_matches(cards@.subrange(0, n as int), rank),
        r as int <= n,
    decreases n,
{
    if n == 0 {
        0
    } else {
        proof {
            let s = cards@.subrange(0, n as int);
            assert(s.drop_last() =~= cards@.subrange(0, n as int - 1));
            assert(s.last() == cards@[n as int - 1]);
        }
        let a = count_rank_matches_exec(cards, n - 1, rank);
        if cards[n - 1].rank() == rank {
            a + 1
        } else {
            a
        }
    }
}

/// Counts the unordered pairs among the first `n` cards that share a rank.
fn count_pairs_exec(cards: &[Card], n: usize) -> (r: u8)
    requires
        n <= cards@.len() <= 5,
    ensures
        r as int == count_pairs(cards@.subrange(0, n as int)),
        r <= 10,
    decreases n,
{
    proof {
        lemma_count_pairs_bounds(cards@.subrange(0, n as int));
    }
    if n == 0 {
        0
    } else {
        proof {
            let s = cards@.subrange(0, n as int);
            assert(s.drop_last() =~= cards@.subrange(0, n as int - 1));
            assert(s.last() == cards@[n as int - 1]);
            lemma_count_pairs_bounds(cards@.subrange(0, n as int - 1));
        }
        let a = count_pairs_exec(cards, n - 1);
        let b = count_rank_matches_exec(cards, n - 1, cards[n - 1].rank());
        proof {
            assert(n as int * (n as int - 1) <= 20) by (nonlinear_arith)
                requires
                    n <= 5,
            ;
        }
        a + b
    }
}

/// Counts the ways of completing `chosen` to a run by picking exactly `k`
/// more cards from the tail of `cards` starting at position `i`.
fn count_run_subsets_exec(cards: &[Card], i: usize, chosen: &mut Vec<Card>, k: i32) -> (r: u8)
    requires
        i <= cards@.len() <= 5,
    ensures
        r as int == count_run_subsets_rec(
            cards@.subrange(i as int, cards@.len() as int),
            old(chosen)@,
            k as int,
        ),
        r <= 32,
        final(chosen)@ == old(chosen)@,
    decreases cards@.len() - i,
{
    proof {
        lemma_count_run_subsets_rec_bounds(
            cards@.subrange(i as int, cards@.len() as int),
            old(chosen)@,
            k as int,
        );
        lemma_two_to_small((cards@.len() - i) as nat);
    }
    if k < 0 {
        proof {
            lemma_count_run_subsets_rec_neg(
                cards@.subrange(i as int, cards@.len() as int),
                old(chosen)@,
                k as int,
            );
        }
        return 0;
    }
    let n = cards.len();
    if i == n {
        proof {
            assert(cards@.subrange(i as int, n as int).len() == 0);
        }
        if k == 0 && slice_is_run(chosen.as_slice()) {
            1
        } else {
            0
        }
    } else {
        proof {
            let s = cards@.subrange(i as int, n as int);
            assert(s.drop_first() =~= cards@.subrange(i as int + 1, n as int));
            assert(s.first() == cards@[i as int]);
            lemma_count_run_subsets_rec_bounds(
                cards@.subrange(i as int + 1, n as int),
                old(chosen)@,
                k as int,
            );
            lemma_count_run_subsets_rec_bounds(
                cards@.subrange(i as int + 1, n as int),
                old(chosen)@.push(cards@[i as int]),
                k as int - 1,
            );
            lemma_two_to_small((n - i - 1) as nat);
        }
        let a = count_run_subsets_exec(cards, i + 1, chosen, k);
        chosen.push(cards[i]);
        let b = count_run_subsets_exec(cards, i + 1, chosen, k - 1);
        chosen.pop();
        proof {
            assert(chosen@ =~= old(chosen)@);
        }
        a + b
    }
}

// ---------------------------------------------------------------------------
// The hand itself.
// ---------------------------------------------------------------------------

/// Four held cards plus the shared starter, with the crib flag that changes
/// flush scoring. The score is computed on first request and cached; the
/// cache, when set, always holds the specified score.
pub struct Hand {
    cards: [Card; 4],
    cut: Card,
    is_crib: bool,
    score: Option<u8>,
}

impl Hand {
    /// The four held cards.
    pub closed spec fn spec_cards(self) -> Seq<Card> {
        self.cards@
    }

    /// The shared starter card.
    pub closed spec fn spec_cut(self) -> Card {
        self.cut
    }

    /// Whether the hand is scored as the crib.
    pub closed spec fn spec_is_crib(self) -> bool {
        self.is_crib
    }

    /// The cached score, when present, is the score of the cards.
    pub closed spec fn wf(self) -> bool {
        match self.score {
            Some(s) => s as int == hand_score_spec(self.cards@, self.cut, self.is_crib),
            None => true,
        }
    }

    /// The held cards followed by the starter, the five cards scored.
    pub open spec fn spec_five(self) -> Seq<Card> {
        self.spec_cards().push(self.spec_cut())
    }

    pub fn new(cards: [Card; 4], cut: Card, is_crib: bool) -> (h: Hand)
        ensures
            h.spec_cards() == cards@,
            h.spec_cut() == cut,
            h.spec_is_crib() == is_crib,
            h.wf(),
    {
        Hand { cards, cut, is_crib, score: None }
    }

    pub fn cards(&self) -> (r: &[Card])
        ensures
            r@ == self.spec_cards(),
    {
        self.cards.as_slice()
    }

    /// The total score of the hand. The first call computes and caches it;
    /// every later call returns the identical cached value, and the cards,
    /// starter and crib flag never change, so the score is a pure function
    /// of the hand and repeated calls are idempotent.
    pub fn score(&mut self) -> (r: u8)
        requires
            old(self).wf(),
        ensures
            r as int == hand_score_spec(
                old(self).spec_cards(),
                old(self).spec_cut(),
                old(self).spec_is_crib(),
            ),
            final(self).wf(),
            final(self).spec_cards() == old(self).spec_cards(),
            final(self).spec_cut() == old(self).spec_cut(),
            final(self).spec_is_crib() == old(self).spec_is_crib(),
    {
        if let Some(score) = self.score {
            return score;
        }
        let mut score: u8 = self.score_fifteens();
        score += self.score_pairs();
        score += self.score_runs();
        score += self.score_flush();
        score += self.score_nobs();
        self.score = Some(score);
        score
    }

    /// Two points for every subset of the five cards summing to fifteen.
    fn score_fifteens(&self) -> (r: u8)
        ensures
            r as int == fifteens_points(self.spec_five()),
            r <= 64,
    {
        let five: [Card; 5] = [self.cards[0], self.cards[1], self.cards[2], self.cards[3],
            self.cut];
        proof {
            assert(five@ =~= self.spec_five());
            assert(five@.subrange(0, 5) =~= five@);
        }
        let count = count_subsets_summing_exec(five.as_slice(), 5, 15);
        2 * count
    }

    /// Two points for every pair of cards sharing a rank.
    fn score_pairs(&self) -> (r: u8)
        ensures
            r as int == pairs_points(self.spec_five()),
            r <= 20,
    {
        let five: [Card; 5] = [self.cards[0], self.cards[1], self.cards[2], self.cards[3],
            self.cut];
        proof {
            assert(five@ =~= self.spec_five());
            assert(five@.subrange(0, 5) =~= five@);
        }
        let count = count_pairs_exec(five.as_slice(), 5);
        2 * count
    }

    /// Run points at the longest qualifying length, five down to three.
    fn score_runs(&self) -> (r: u8)
        ensures
            r as int == runs_points(self.spec_five()),
            r <= 160,
    {
        let five: [Card; 5] = [self.cards[0], self.cards[1], self.cards[2], self.cards[3],
            self.cut];
        proof {
            assert(five@ =~= self.spec_five());
            assert(five@.subrange(0, 5) =~= five@);
        }
        let mut chosen: Vec<Card> = Vec::new();
        let c5 = count_run_subsets_exec(five.as_slice(), 0, &mut chosen, 5);
        if c5 > 0 {
            return 5 * c5;
        }
        let c4 = count_run_subsets_exec(five.as_slice(), 0, &mut chosen, 4);
        if c4 > 0 {
            return 4 * c4;
        }
        let c3 = count_run_subsets_exec(five.as_slice(), 0, &mut chosen, 3);
        3 * c3
    }

    /// Flush points under the crib rule.
    fn score_flush(&self) -> (r: u8)
        ensures
            r as int == flush_points(self.spec_cards(), self.spec_cut(), self.spec_is_crib()),
            r <= 5,
    {
        let suit = self.cards[0].suit();
        if self.cards[1].suit() == suit && self.cards[2].suit() == suit && self.cards[3].suit()
            == suit {
            proof {
                assert(all_same_suit(self.cards@));
            }
            if self.cut.suit() == suit {
                5
            } else if self.is_crib {
                0
            } else {
                4
            }
        } else {
            proof {
                assert(!all_same_suit(self.cards@));
            }
            0
        }
    }

    /// Points for one already-sorted group of cards: its length when at
    /// least three of them step up in rank by exactly one at every
    /// position, else nothing.
    pub fn score_run(cards: &[Card]) -> (r: u8)
        requires
            cards@.len() < 256,
        ensures
            r as int == if cards@.len() >= 3 && ordered_run(cards@) {
                cards@.len() as int
            } else {
                0
            },
    {
        let n = cards.len();
        if n < 3 {
            return 0;
        }
        let mut i: usize = 1;
        while i < n
            invariant
                1 <= i <= n,
                n == cards@.len(),
                forall|p: int|
                    1 <= p < i ==> #[trigger] cards@[p].rank.spec_ordinal() == cards@[p
                        - 1].rank.spec_ordinal() + 1,
            decreases n - i,
        {
            if cards[i].rank().ordinal() != cards[i - 1].rank().ordinal() + 1 {
                proof {
                    assert(!ordered_run(cards@));
                }
                return 0;
            }
            i += 1;
        }
        n as u8
    }

    /// One point for the Jack matching the starter's suit.
    fn score_nobs(&self) -> (r: u8)
        ensures
            r as int == nobs_points(self.spec_cards(), self.spec_cut()),
            r <= 1,
    {
        let mut i: usize = 0;
        while i < 4
            invariant
                i <= 4,
                self.cards@.len() == 4,
                forall|p: int|
                    0 <= p < i ==> !(#[trigger] self.cards@[p].rank == Rank::Jack
                        && self.cards@[p].suit == self.cut.suit),
            decreases 4 - i,
        {
            if self.cards[i].rank() == Rank::Jack && self.cards[i].suit() == self.cut.suit() {
                return 1;
            }
            i += 1;
        }
        0
    }
}


// ---------------------------------------------------------------------------
// Dealing, keeping and the crib.
// ---------------------------------------------------------------------------

/// The four cards a player keeps after discarding to the crib; the starter
/// turns them into a scorable hand.
pub struct KeptCards {
    cards: [Card; 4],
}

impl KeptCards {
    /// The four kept cards.
    pub closed spec fn spec_cards(self) -> Seq<Card> {
        self.cards@
    }

    fn new(cards: [Card; 4]) -> (r: KeptCards)
        ensures
            r.spec_cards() == cards@,
    {
        KeptCards { cards }
    }

    /// Combines the kept cards with the starter into an ordinary hand.
    pub fn add_cut_card(self, cut: Card) -> (h: Hand)
        ensures
            h.spec_cards() == self.spec_cards(),
            h.spec_cut() == cut,
            !h.spec_is_crib(),
            h.wf(),
    {
        Hand::new(self.cards, cut, false)
    }

    pub fn cards(&self) -> (r: &[Card])
        ensures
            r@ == self.spec_cards(),
    {
        self.cards.as_slice()
    }
}

/// The four communal crib cards; the starter turns them into the crib hand,
/// scored under the stricter flush rule.
pub struct CribCards {
    cards: [Card; 4],
}

impl CribCards {
    /// The four crib cards.
    pub closed spec fn spec_cards(self) -> Seq<Card> {
        self.cards@
    }

    fn new(cards: [Card; 4]) -> (r: CribCards)
        ensures
            r.spec_cards() == cards@,
    {
        CribCards { cards }
    }

    /// Combines the crib cards with the starter into the crib hand.
    pub fn add_cut_card(self, cut: Card) -> (h: Hand)
        ensures
            h.spec_cards() == self.spec_cards(),
            h.spec_cut() == cut,
            h.spec_is_crib(),
            h.wf(),
    {
        Hand::new(self.cards, cut, true)
    }

    pub fn cards(&self) -> (r: &[Card])
        ensures
            r@ == self.spec_cards(),
    {
        self.cards.as_slice()
    }
}

/// One player's two-card contribution to the crib in a two-player game.
pub struct TwoPlayerCribPart {
    cards: [Card; 2],
}

impl TwoPlayerCribPart {
    /// The two contributed cards.
    pub closed spec fn spec_cards(self) -> Seq<Card> {
        self.cards@
    }

    fn new(cards: [Card; 2]) -> (r: TwoPlayerCribPart)
        ensures
            r.spec_cards() == cards@,
    {
        TwoPlayerCribPart { cards }
    }

    pub fn cards(&self) -> (r: &[Card])
        ensures
            r@ == self.spec_cards(),
    {
        self.cards.as_slice()
    }

    /// Joins both players' contributions into the four crib cards.
    pub fn combine(self, other: TwoPlayerCribPart) -> (r: CribCards)
        ensures
            r.spec_cards() == seq![
                self.spec_cards()[0],
                self.spec_cards()[1],
                other.spec_cards()[0],
                other.spec_cards()[1],
            ],
    {
        let r = CribCards::new([self.cards[0], self.cards[1], other.cards[0], other.cards[1]]);
        proof {
            assert(r.spec_cards() =~= seq![
                self.spec_cards()[0],
                self.spec_cards()[1],
                other.spec_cards()[0],
                other.spec_cards()[1],
            ]);
        }
        r
    }
}

/// One player's single-card contribution to the crib in a three-player game;
/// the starter deal supplies the fourth crib card.
pub struct ThreePlayerCribPart {
    card: Card,
}

impl ThreePlayerCribPart {
    /// The contributed card.
    pub closed spec fn spec_card(self) -> Card {
        self.card
    }

    fn new(card: Card) -> (r: ThreePlayerCribPart)
        ensures
            r.spec_card() == card,
    {
        ThreePlayerCribPart { card }
    }

    /// Joins the three contributions and the extra dealt card into the four
    /// crib cards.
    pub fn combine(self, other1: ThreePlayerCribPart, other2: ThreePlayerCribPart, starter: Card)
        -> (r: CribCards)
        ensures
            r.spec_cards() == seq![
                self.spec_card(),
                other1.spec_card(),
                other2.spec_card(),
                starter,
            ],
    {
        let r = CribCards::new([self.card, other1.card, other2.card, starter]);
        proof {
            assert(r.spec_cards() =~= seq![
                self.spec_card(),
                other1.spec_card(),
                other2.spec_card(),
                starter,
            ]);
        }
        r
    }
}

/// One player's single-card contribution to the crib in a four-player game.
pub struct FourPlayerCribPart {
    card: Card,
}

impl FourPlayerCribPart {
    /// The contributed card.
    pub closed spec fn spec_card(self) -> Card {
        self.card
    }

    fn new(card: Card) -> (r: FourPlayerCribPart)
        ensures
            r.spec_card() == card,
    {
        FourPlayerCribPart { card }
    }

    /// Joins all four contributions into the four crib cards.
    pub fn combine(
        self,
        other1: FourPlayerCribPart,
        other2: FourPlayerCribPart,
        other3: FourPlayerCribPart,
    ) -> (r: CribCards)
        ensures
            r.spec_cards() == seq![
                self.spec_card(),
                other1.spec_card(),
                other2.spec_card(),
                other3.spec_card(),
            ],
    {
        let r = CribCards::new([self.card, other1.card, other2.card, other3.card]);
        proof {
            assert(r.spec_cards() =~= seq![
                self.spec_card(),
                other1.spec_card(),
                other2.spec_card(),
                other3.spec_card(),
            ]);
        }
        r
    }
}

/// The six cards dealt to one player in a two-player game.
pub struct TwoPlayerDeal {
    cards: [Card; 6],
}

impl TwoPlayerDeal {
    /// The six dealt cards.
    pub closed spec fn spec_cards(self) -> Seq<Card> {
        self.cards@
    }

    pub fn new(cards: [Card; 6]) -> (r: TwoPlayerDeal)
        ensures
            r.spec_cards() == cards@,
    {
        TwoPlayerDeal { cards }
    }

    pub fn cards(&self) -> (r: &[Card])
        ensures
            r@ == self.spec_cards(),
    {
        self.cards.as_slice()
    }

    /// Splits the deal into the four cards kept and the two sent to the
    /// crib. Deliberately permissive: whether the chosen cards were actually
    /// dealt is not checked here.
    pub fn split(self, keep: [Card; 4], crib: [Card; 2]) -> (r: (KeptCards, TwoPlayerCribPart))
        ensures
            r.0.spec_cards() == keep@,
            r.1.spec_cards() == crib@,
    {
        (KeptCards::new(keep), TwoPlayerCribPart::new(crib))
    }
}

/// The five cards dealt to one player in a three-player game.
pub struct ThreePlayerDeal {
    cards: [Card; 5],
}

impl ThreePlayerDeal {
    /// The five dealt cards.
    pub closed spec fn spec_cards(self) -> Seq<Card> {
        self.cards@
    }

    pub fn new(cards: [Card; 5]) -> (r: ThreePlayerDeal)
        ensures
            r.spec_cards() == cards@,
    {
        ThreePlayerDeal { cards }
    }

    pub fn cards(&self) -> (r: &[Card])
        ensures
            r@ == self.spec_cards(),
    {
        self.cards.as_slice()
    }

    /// Splits the deal into the four cards kept and the one sent to the
    /// crib.
    pub fn split(self, keep: [Card; 4], crib: Card) -> (r: (KeptCards, ThreePlayerCribPart))
        ensures
            r.0.spec_cards() == keep@,
            r.1.spec_card() == crib,
    {
        (KeptCards::new(keep), ThreePlayerCribPart::new(crib))
    }
}

/// The five cards dealt to one player in a four-player game.
pub struct FourPlayerDeal {
    cards: [Card; 5],
}

impl FourPlayerDeal {
    /// The five dealt cards.
    pub closed spec fn spec_cards(self) -> Seq<Card> {
        self.cards@
    }

    pub fn new(cards: [Card; 5]) -> (r: FourPlayerDeal)
        ensures
            r.spec_cards() == cards@,
    {
        FourPlayerDeal { cards }
    }

    pub fn cards(&self) -> (r: &[Card])
        ensures
            r@ == self.spec_cards(),
    {
        self.cards.as_slice()
    }

    /// Splits the deal into the four cards kept and the one sent to the
    /// crib.
    pub fn split(self, keep: [Card; 4], crib: Card) -> (r: (KeptCards, FourPlayerCribPart))
        ensures
            r.0.spec_cards() == keep@,
            r.1.spec_card() == crib,
    {
        (KeptCards::new(keep), FourPlayerCribPart::new(crib))
    }
}

/// Deals six cards off the deck for one player of a two-player game, or
/// reports `NotEnoughCards` and deals nothing.
pub fn deal_two_player_hand(deck: &mut Deck) -> (r: Result<TwoPlayerDeal, CribbageCoreError>)
    requires
        old(deck).wf(),
    ensures
        final(deck).wf(),
        final(deck).spec_cards() == old(deck).spec_cards(),
        old(deck).spec_drawn() + 6 <= old(deck).spec_cards().len() ==> ({
            &&& r matches Ok(d) && d.spec_cards() == old(deck).spec_cards().subrange(
                old(deck).spec_drawn() as int,
                old(deck).spec_drawn() as int + 6,
            )
            &&& final(deck).spec_drawn() == old(deck).spec_drawn() + 6
        }),
        old(deck).spec_drawn() + 6 > old(deck).spec_cards().len() ==> r == Err::<
            TwoPlayerDeal,
            CribbageCoreError,
        >(CribbageCoreError::NotEnoughCards) && *final(deck) == *old(deck),
{
    let cards = match deck.draw_n(6) {
        Ok(cards) => cards,
        Err(e) => {
            return Err(e);
        },
    };
    let deal = TwoPlayerDeal::new(
        [cards[0], cards[1], cards[2], cards[3], cards[4], cards[5]],
    );
    proof {
        assert(deal.spec_cards() =~= cards@);
    }
    Ok(deal)
}

/// Deals five cards off the deck for one player of a three-player game, or
/// reports `NotEnoughCards` and deals nothing.
pub fn deal_three_player_hand(deck: &mut Deck) -> (r: Result<ThreePlayerDeal, CribbageCoreError>)
    requires
        old(deck).wf(),
    ensures
        final(deck).wf(),
        final(deck).spec_cards() == old(deck).spec_cards(),
        old(deck).spec_drawn() + 5 <= old(deck).spec_cards().len() ==> ({
            &&& r matches Ok(d) && d.spec_cards() == old(deck).spec_cards().subrange(
                old(deck).spec_drawn() as int,
                old(deck).spec_drawn() as int + 5,
            )
            &&& final(deck).spec_drawn() == old(deck).spec_drawn() + 5
        }),
        old(deck).spec_drawn() + 5 > old(deck).spec_cards().len() ==> r == Err::<
            ThreePlayerDeal,
            CribbageCoreError,
        >(CribbageCoreError::NotEnoughCards) && *final(deck) == *old(deck),
{
    let cards = match deck.draw_n(5) {
        Ok(cards) => cards,
        Err(e) => {
            return Err(e);
        },
    };
    let deal = ThreePlayerDeal::new([cards[0], cards[1], cards[2], cards[3], cards[4]]);
    proof {
        assert(deal.spec_cards() =~= cards@);
    }
    Ok(deal)
}

/// Deals five cards off the deck for one player of a four-player game, or
/// reports `NotEnoughCards` and deals nothing.
pub fn deal_four_player_hand(deck: &mut Deck) -> (r: Result<FourPlayerDeal, CribbageCoreError>)
    requires
        old(deck).wf(),
    ensures
        final(deck).wf(),
        final(deck).spec_cards() == old(deck).spec_cards(),
        old(deck).spec_drawn() + 5 <= old(deck).spec_cards().len() ==> ({
            &&& r matches Ok(d) && d.spec_cards() == old(deck).spec_cards().subrange(
                old(deck).spec_drawn() as int,
                old(deck).spec_drawn() as int + 5,
            )
            &&& final(deck).spec_drawn() == old(deck).spec_drawn() + 5
        }),
        old(deck).spec_drawn() + 5 > old(deck).spec_cards().len() ==> r == Err::<
            FourPlayerDeal,
            CribbageCoreError,
        >(CribbageCoreError::NotEnoughCards) && *final(deck) == *old(deck),
{
    let cards = match deck.draw_n(5) {
        Ok(cards) => cards,
        Err(e) => {
            return Err(e);
        },
    };
    let deal = FourPlayerDeal::new([cards[0], cards[1], cards[2], cards[3], cards[4]]);
    proof {
        assert(deal.spec_cards() =~= cards@);
    }
    Ok(deal)
}


// ---------------------------------------------------------------------------
// Laws of hand scoring.
// ---------------------------------------------------------------------------

/// A hand's score is never negative, and it fits in one byte: the five
/// components are each bounded, so the total never exceeds 250.
pub proof fn lemma_hand_score_bounds(cards: Seq<Card>, cut: Card, is_crib: bool)
    requires
        cards.len() == 4,
    ensures
        0 <= hand_score_spec(cards, cut, is_crib) <= 250,
{
    let five = cards.push(cut);
    lemma_count_subsets_summing_bounds(five, 15);
    lemma_two_to_small(five.len());
    lemma_count_pairs_bounds(five);
    lemma_count_run_subsets_rec_bounds(five, Seq::<Card>::empty(), 5);
    lemma_count_run_subsets_rec_bounds(five, Seq::<Card>::empty(), 4);
    lemma_count_run_subsets_rec_bounds(five, Seq::<Card>::empty(), 3);
}

/// The flush rule: over four held cards of one suit, a starter of the same
/// suit makes the flush worth 5 in any hand; a starter of another suit
/// leaves 4 in an ordinary hand and nothing in the crib.
pub proof fn lemma_flush_rule(cards: Seq<Card>, cut: Card)
    requires
        cards.len() == 4,
        all_same_suit(cards),
    ensures
        cut.suit == cards[0].suit ==> flush_points(cards, cut, false) == 5 && flush_points(
            cards,
            cut,
            true,
        ) == 5,
        cut.suit != cards[0].suit ==> flush_points(cards, cut, false) == 4 && flush_points(
            cards,
            cut,
            true,
        ) == 0,
{
}

/// The nobs rule: holding the Jack of the starter's suit is worth exactly
/// one point, and without such a Jack nobs is worth nothing.
pub proof fn lemma_nobs_rule(cards: Seq<Card>, cut: Card)
    ensures
        (exists|i: int|
            0 <= i < cards.len() && #[trigger] cards[i].rank == Rank::Jack && cards[i].suit
                == cut.suit) ==> nobs_points(cards, cut) == 1,
        (forall|i: int|
            0 <= i < cards.len() ==> !(#[trigger] cards[i].rank == Rank::Jack && cards[i].suit
                == cut.suit)) ==> nobs_points(cards, cut) == 0,
{
}

} // verus!

use vstd::prelude::*;

use crate::CribbageCoreError;

verus! {

/// The thirteen card ranks, ordered Ace low through King high.
#[derive(Clone, Copy, Debug, Eq, Hash, Ord, PartialEq, PartialOrd, Structural)]
pub enum Rank {
    Ace,
    Two,
    Three,
    Four,
    Five,
    Six,
    Seven,
    Eight,
    Nine,
    Ten,
    Jack,
    Queen,
    King,
}

/// The four suits; they carry no order relevant to scoring.
#[derive(Clone, Copy, Debug, Eq, Hash, Ord, PartialEq, PartialOrd, Structural)]
pub enum Suit {
    Spades,
    Diamonds,
    Clubs,
    Hearts,
}

/// A playing card: a rank paired with a suit.
#[derive(Clone, Copy, Debug, Eq, Hash, Ord, PartialEq, PartialOrd, Structural)]
pub struct Card {
    pub rank: Rank,
    pub suit: Suit,
}

impl Rank {
    /// The 1..13 scale used for run adjacency.
    pub open spec fn spec_ordinal(self) -> int {
        match self {
            Rank::Ace => 1,
            Rank::Two => 2,
            Rank::Three => 3,
            Rank::Four => 4,
            Rank::Five => 5,
            Rank::Six => 6,
            Rank::Seven => 7,
            Rank::Eight => 8,
            Rank::Nine => 9,
            Rank::Ten => 10,
            Rank::Jack => 11,
            Rank::Queen => 12,
            Rank::King => 13,
        }
    }

    /// The 1..10 scale used for sum-based scoring; every face card counts 10.
    pub open spec fn spec_value(self) -> int {
        match self {
            Rank::Ace => 1,
            Rank::Two => 2,
            Rank::Three => 3,
            Rank::Four => 4,
            Rank::Five => 5,
            Rank::Six => 6,
            Rank::Seven => 7,
            Rank::Eight => 8,
            Rank::Nine => 9,
            Rank::Ten => 10,
            Rank::Jack => 10,
            Rank::Queen => 10,
            Rank::King => 10,
        }
    }

    /// The single-letter code this rank is rendered as.
    pub open spec fn spec_char(self) -> char {
        match self {
            Rank::Ace => 'A',
            Rank::Two => '2',
            Rank::Three => '3',
            Rank::Four => '4',
            Rank::Five => '5',
            Rank::Six => '6',
            Rank::Seven => '7',
            Rank::Eight => '8',
            Rank::Nine => '9',
            Rank::Ten => 'T',
            Rank::Jack => 'J',
            Rank::Queen => 'Q',
            Rank::King => 'K',
        }
    }

    pub fn ordinal(self) -> (r: u8)
        ensures
            r as int == self.spec_ordinal(),
    {
        match self {
            Rank::Ace => 1,
            Rank::Two => 2,
            Rank::Three => 3,
            Rank::Four => 4,
            Rank::Five => 5,
            Rank::Six => 6,
            Rank::Seven => 7,
            Rank::Eight => 8,
            Rank::Nine => 9,
            Rank::Ten => 10,
            Rank::Jack => 11,
            Rank::Queen => 12,
            Rank::King => 13,
        }
    }

    pub fn value(self) -> (r: u8)
        ensures
            r as int == self.spec_value(),
    {
        match self {
            Rank::Ace => 1,
            Rank::Two => 2,
            Rank::Three => 3,
            Rank::Four => 4,
            Rank::Five => 5,
            Rank::Six => 6,
            Rank::Seven => 7,
            Rank::Eight => 8,
            Rank::Nine => 9,
            Rank::Ten | Rank::Jack | Rank::Queen | Rank::King => 10,
        }
    }

    /// Renders the rank as its single-letter code.
    pub fn to_string(self) -> (r: String)
        ensures
            r@ == seq![self.spec_char()],
    {
        let s: String = match self {
            Rank::Ace => {
                proof { reveal_strlit("A"); }
                String::from_str("A")
            },
            Rank::Two => {
                proof { reveal_strlit("2"); }
                String::from_str("2")
            },
            Rank::Three => {
                proof { reveal_strlit("3"); }
                String::from_str("3")
            },
            Rank::Four => {
                proof { reveal_strlit("4"); }
                String::from_str("4")
            },
            Rank::Five => {
                proof { reveal_strlit("5"); }
                String::from_str("5")
            },
            Rank::Six => {
                proof { reveal_strlit("6"); }
                String::from_str("6")
            },
            Rank::Seven => {
                proof { reveal_strlit("7"); }
                String::from_str("7")
            },
            Rank::Eight => {
                proof { reveal_strlit("8"); }
                String::from_str("8")
            },
            Rank::Nine => {
                proof { reveal_strlit("9"); }
                String::from_str("9")
            },
            Rank::Ten => {
                proof { reveal_strlit("T"); }
                String::from_str("T")
            },
            Rank::Jack => {
                proof { reveal_strlit("J"); }
                String::from_str("J")
            },
            Rank::Queen => {
                proof { reveal_strlit("Q"); }
                String::from_str("Q")
            },
            Rank::King => {
                proof { reveal_strlit("K"); }
                String::from_str("K")
            },
        };
        proof {
            assert(s@ =~= seq![self.spec_char()]);
        }
        s
    }
}

impl Suit {
    /// The single-letter code this suit is rendered as.
    pub open spec fn spec_char(self) -> char {
        match self {
            Suit::Hearts => 'H',
            Suit::Clubs => 'C',
            Suit::Diamonds => 'D',
            Suit::Spades => 'S',
        }
    }

    /// Renders the suit as its single-letter code.
    pub fn to_string(self) -> (r: String)
        ensures
            r@ == seq![self.spec_char()],
    {
        let s: String = match self {
            Suit::Hearts => {
                proof { reveal_strlit("H"); }
                String::from_str("H")
            },
            Suit::Clubs => {
                proof { reveal_strlit("C"); }
                String::from_str("C")
            },
            Suit::Diamonds => {
                proof { reveal_strlit("D"); }
                String::from_str("D")
            },
            Suit::Spades => {
                proof { reveal_strlit("S"); }
                String::from_str("S")
            },
        };
        proof {
            assert(s@ =~= seq![self.spec_char()]);
        }
        s
    }
}

/// The rank named by one character of card text, upper or lower case.
pub open spec fn rank_of_char(c: char) -> Option<Rank> {
    if c == 'A' || c == 'a' {
        Some(Rank::Ace)
    } else if c == '2' {
        Some(Rank::Two)
    } else if c == '3' {
        Some(Rank::Three)
    } else if c == '4' {
        Some(Rank::Four)
    } else if c == '5' {
        Some(Rank::Five)
    } else if c == '6' {
        Some(Rank::Six)
    } else if c == '7' {
        Some(Rank::Seven)
    } else if c == '8' {
        Some(Rank::Eight)
    } else if c == '9' {
        Some(Rank::Nine)
    } else if c == 'T' || c == 't' {
        Some(Rank::Ten)
    } else if c == 'J' || c == 'j' {
        Some(Rank::Jack)
    } else if c == 'Q' || c == 'q' {
        Some(Rank::Queen)
    } else if c == 'K' || c == 'k' {
        Some(Rank::King)
    } else {
        None
    }
}

/// The suit named by one character of card text, upper or lower case.
pub open spec fn suit_of_char(c: char) -> Option<Suit> {
    if c == 'H' || c == 'h' {
        Some(Suit::Hearts)
    } else if c == 'C' || c == 'c' {
        Some(Suit::Clubs)
    } else if c == 'D' || c == 'd' {
        Some(Suit::Diamonds)
    } else if c == 'S' || c == 's' {
        Some(Suit::Spades)
    } else {
        None
    }
}

/// The Unicode white-space characters, the set `str::trim` removes.
pub open spec fn is_space_char(c: char) -> bool {
    let u = c as u32;
    u == 0x20 || (0x09 <= u && u <= 0x0D) || u == 0x85 || u == 0xA0 || u == 0x1680
        || (0x2000 <= u && u <= 0x200A) || u == 0x2028 || u == 0x2029 || u == 0x202F
        || u == 0x205F || u == 0x3000
}

pub open spec fn trim_start_spec(s: Seq<char>) -> Seq<char>
    decreases s.len(),
{
    if s.len() > 0 && is_space_char(s[0]) {
        trim_start_spec(s.drop_first())
    } else {
        s
    }
}

pub open spec fn trim_end_spec(s: Seq<char>) -> Seq<char>
    decreases s.len(),
{
    if s.len() > 0 && is_space_char(s.last()) {
        trim_end_spec(s.drop_last())
    } else {
        s
    }
}

/// The text with outer white space removed from both ends.
pub open spec fn trim_spec(s: Seq<char>) -> Seq<char> {
    trim_end_spec(trim_start_spec(s))
}

/// What parsing a card string yields: after trimming, exactly one rank
/// character followed by one suit character, or `InvalidCardString`.
pub open spec fn parse_card_spec(s: Seq<char>) -> Result<Card, CribbageCoreError> {
    let t = trim_spec(s);
    if t.len() != 2 {
        Err(CribbageCoreError::InvalidCardString)
    } else {
        match (rank_of_char(t[0]), suit_of_char(t[1])) {
            (Some(rank), Some(suit)) => Ok(Card { rank, suit }),
            _ => Err(CribbageCoreError::InvalidCardString),
        }
    }
}

fn char_is_space(c: char) -> (r: bool)
    ensures
        r == is_space_char(c),
{
    let u = c as u32;
    u == 0x20 || (0x09 <= u && u <= 0x0D) || u == 0x85 || u == 0xA0 || u == 0x1680
        || (0x2000 <= u && u <= 0x200A) || u == 0x2028 || u == 0x2029 || u == 0x202F
        || u == 0x205F || u == 0x3000
}

fn rank_from_char(c: char) -> (r: Option<Rank>)
    ensures
        r == rank_of_char(c),
{
    match c {
        'A' | 'a' => Some(Rank::Ace),
        '2' => Some(Rank::Two),
        '3' => Some(Rank::Three),
        '4' => Some(Rank::Four),
        '5' => Some(Rank::Five),
        '6' => Some(Rank::Six),
        '7' => Some(Rank::Seven),
        '8' => Some(Rank::Eight),
        '9' => Some(Rank::Nine),
        'T' | 't' => Some(Rank::Ten),
        'J' | 'j' => Some(Rank::Jack),
        'Q' | 'q' => Some(Rank::Queen),
        'K' | 'k' => Some(Rank::King),
        _ => None,
    }
}

fn suit_from_char(c: char) -> (r: Option<Suit>)
    ensures
        r == suit_of_char(c),
{
    match c {
        'H' | 'h' => Some(Suit::Hearts),
        'C' | 'c' => Some(Suit::Clubs),
        'D' | 'd' => Some(Suit::Diamonds),
        'S' | 's' => Some(Suit::Spades),
        _ => None,
    }
}

impl Card {
    pub fn new(rank: Rank, suit: Suit) -> (c: Card)
        ensures
            c == (Card { rank, suit }),
    {
        Card { rank, suit }
    }

    pub fn rank(self) -> (r: Rank)
        ensures
            r == self.rank,
    {
        self.rank
    }

    pub fn suit(self) -> (s: Suit)
        ensures
            s == self.suit,
    {
        self.suit
    }

    /// Renders the card as its two-letter code, rank then suit.
    pub fn to_string(self) -> (r: String)
        ensures
            r@ == seq![self.rank.spec_char(), self.suit.spec_char()],
    {
        let mut s = self.rank.to_string();
        let t = self.suit.to_string();
        s.append(t.as_str());
        proof {
            assert(s@ =~= seq![self.rank.spec_char(), self.suit.spec_char()]);
        }
        s
    }

    /// Parses the two-character textual form, case-insensitive, with outer
    /// white space trimmed; anything else is `InvalidCardString`.
    pub fn from_str(s: &str) -> (r: Result<Card, CribbageCoreError>)
        ensures
            r == parse_card_spec(s@),
    {
        let n = s.unicode_len();
        proof {
            assert(s@.subrange(0, n as int) =~= s@);
        }
        let mut start: usize = 0;
        while start < n && char_is_space(s.get_char(start))
            invariant
                start <= n,
                n == s@.len(),
                trim_start_spec(s@) == trim_start_spec(s@.subrange(start as int, n as int)),
            decreases n - start,
        {
            proof {
                let tail = s@.subrange(start as int, n as int);
                assert(tail[0] == s@[start as int]);
                assert(tail.drop_first() =~= s@.subrange(start as int + 1, n as int));
            }
            start += 1;
        }
        proof {
            let tail = s@.subrange(start as int, n as int);
            assert(trim_start_spec(tail) == tail);
        }
        let mut end: usize = n;
        while end > start && char_is_space(s.get_char(end - 1))
            invariant
                start <= end <= n,
                n == s@.len(),
                trim_start_spec(s@) == trim_start_spec(s@.subrange(start as int, n as int)),
                trim_spec(s@) == trim_end_spec(s@.subrange(start as int, end as int)),
            decreases end,
        {
            proof {
                let part = s@.subrange(start as int, end as int);
                assert(part.last() == s@[end - 1]);
                assert(part.drop_last() =~= s@.subrange(start as int, end as int - 1));
            }
            end -= 1;
        }
        proof {
            let part = s@.subrange(start as int, end as int);
            assert(trim_end_spec(part) == part);
            assert(trim_spec(s@) == s@.subrange(start as int, end as int));
        }
        if end - start != 2 {
            return Err(CribbageCoreError::InvalidCardString);
        }
        let c0 = s.get_char(start);
        let c1 = s.get_char(start + 1);
        proof {
            let t = trim_spec(s@);
            assert(t[0] == s@[start as int]);
            assert(t[1] == s@[start as int + 1]);
        }
        let rank = match rank_from_char(c0) {
            Some(rank) => rank,
            None => {
                return Err(CribbageCoreError::InvalidCardString);
            },
        };
        let suit = match suit_from_char(c1) {
            Some(suit) => suit,
            None => {
                return Err(CribbageCoreError::InvalidCardString);
            },
        };
        Ok(Card { rank, suit })
    }
}

impl core::str::FromStr for Card {
    type Err = CribbageCoreError;

    /// The trait form of `Card::from_str`; Verus states nothing of trait
    /// impls like this one, so callers wanting the verified contract use
    /// the inherent method.
    fn from_str(card_string: &str) -> Result<Card, CribbageCoreError> {
        Card::from_str(card_string)
    }
}

/// The sum of the scoring values of a sequence of cards.
pub open spec fn card_values_sum(cs: Seq<Card>) -> int
    decreases cs.len(),
{
    if cs.len() == 0 {
        0
    } else {
        card_values_sum(cs.drop_last()) + cs.last().rank.spec_value()
    }
}

/// Every card contributes at least 1 and at most 10 to the sum.
pub proof fn lemma_card_values_sum_bounds(cs: Seq<Card>)
    ensures
        cs.len() <= card_values_sum(cs) <= 10 * cs.len(),
    decreases cs.len(),
{
    if cs.len() > 0 {
        lemma_card_values_sum_bounds(cs.drop_last());
    }
}

/// All cards of `cs` share one suit.
pub open spec fn all_same_suit(cs: Seq<Card>) -> bool {
    forall|i: int| 0 <= i < cs.len() ==> #[trigger] cs[i].suit == cs[0].suit
}

/// No two cards of the sequence share a rank ordinal, i.e. no two share a rank.
pub open spec fn distinct_ordinals(cs: Seq<Card>) -> bool {
    forall|i: int, j: int|
        0 <= i < j < cs.len() ==> cs[i].rank.spec_ordinal() != cs[j].rank.spec_ordinal()
}

/// The smallest rank ordinal in a non-empty sequence of cards.
pub open spec fn min_ordinal(cs: Seq<Card>) -> int
    recommends
        cs.len() > 0,
    decreases cs.len(),
{
    if cs.len() <= 1 {
        cs[0].rank.spec_ordinal()
    } else if cs.last().rank.spec_ordinal() < min_ordinal(cs.drop_last()) {
        cs.last().rank.spec_ordinal()
    } else {
        min_ordinal(cs.drop_last())
    }
}

/// The largest rank ordinal in a non-empty sequence of cards.
pub open spec fn max_ordinal(cs: Seq<Card>) -> int
    recommends
        cs.len() > 0,
    decreases cs.len(),
{
    if cs.len() <= 1 {
        cs[0].rank.spec_ordinal()
    } else if cs.last().rank.spec_ordinal() > max_ordinal(cs.drop_last()) {
        cs.last().rank.spec_ordinal()
    } else {
        max_ordinal(cs.drop_last())
    }
}

/// The cards form a run: at least three of them, all ranks distinct, and the
/// ordinals span exactly the length of the sequence, so that sorted by rank
/// they increase by exactly one at every step. The order given is irrelevant.
pub open spec fn is_run(cs: Seq<Card>) -> bool {
    cs.len() >= 3 && distinct_ordinals(cs) && max_ordinal(cs) - min_ordinal(cs) + 1 == cs.len()
}

/// The smallest ordinal never exceeds the largest.
pub proof fn lemma_min_le_max(cs: Seq<Card>)
    requires
        cs.len() > 0,
    ensures
        min_ordinal(cs) <= max_ordinal(cs),
    decreases cs.len(),
{
    if cs.len() > 1 {
        lemma_min_le_max(cs.drop_last());
    }
}

/// Decides whether a slice of cards forms a run, in any order.
pub(crate) fn slice_is_run(cards: &[Card]) -> (r: bool)
    ensures
        r == is_run(cards@),
{
    let n = cards.len();
    if n < 3 {
        return false;
    }
    let mut i: usize = 0;
    while i < n
        invariant
            i <= n,
            n == cards@.len(),
            forall|p: int, q: int|
                #![trigger cards@[p].rank.spec_ordinal(), cards@[q].rank.spec_ordinal()]
                0 <= p < q < n && p < i ==> cards@[p].rank.spec_ordinal()
                    != cards@[q].rank.spec_ordinal(),
        decreases n - i,
    {
        let oi = cards[i].rank().ordinal();
        let mut j: usize = i + 1;
        while j < n
            invariant
                i < n,
                i + 1 <= j <= n,
                n == cards@.len(),
                oi as int == cards@[i as int].rank.spec_ordinal(),
                forall|p: int, q: int|
                    #![trigger cards@[p].rank.spec_ordinal(), cards@[q].rank.spec_ordinal()]
                    0 <= p < q < n && p < i ==> cards@[p].rank.spec_ordinal()
                        != cards@[q].rank.spec_ordinal(),
                forall|q: int|
                    i < q < j ==> cards@[i as int].rank.spec_ordinal()
                        != #[trigger] cards@[q].rank.spec_ordinal(),
            decreases n - j,
        {
            if oi == cards[j].rank().ordinal() {
                return false;
            }
            j += 1;
        }
        i += 1;
    }
    let mut mn: u8 = cards[0].rank().ordinal();
    let mut mx: u8 = mn;
    let mut k: usize = 1;
    while k < n
        invariant
            1 <= k <= n,
            n == cards@.len(),
            mn as int == min_ordinal(cards@.subrange(0, k as int)),
            mx as int == max_ordinal(cards@.subrange(0, k as int)),
        decreases n - k,
    {
        proof {
            let pre = cards@.subrange(0, k as int + 1);
            assert(pre.drop_last() =~= cards@.subrange(0, k as int));
            assert(pre.last() == cards@[k as int]);
        }
        let o = cards[k].rank().ordinal();
        if o < mn {
            mn = o;
        }
        if o > mx {
            mx = o;
        }
        k += 1;
    }
    proof {
        assert(cards@.subrange(0, n as int) =~= cards@);
        lemma_min_le_max(cards@);
    }
    (mx - mn) as usize == n - 1
}

} // verus!

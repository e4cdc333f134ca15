use cribbage_core::{Card, Hand};

fn card(text: &str) -> Card {
    Card::from_str(text).unwrap()
}

fn hand(c1: &str, c2: &str, c3: &str, c4: &str, cut: &str, is_crib: bool) -> Hand {
    Hand::new(
        [card(c1), card(c2), card(c3), card(c4)],
        card(cut),
        is_crib,
    )
}

#[test]
fn test_maximum_hand() {
    // The canonical twenty-nine: three fives and the Jack whose suit matches
    // the fourth five as starter.
    let mut h = hand("5H", "5C", "5S", "JD", "5D", false);
    assert_eq!(h.score(), 29);
    // The cached score never changes on repeated calls.
    assert_eq!(h.score(), 29);
    assert_eq!(h.score(), 29);
}

#[test]
fn test_score_is_deterministic() {
    let mut a = hand("4H", "4C", "5D", "6S", "6H", false);
    let mut b = hand("4H", "4C", "5D", "6S", "6H", false);
    let first = a.score();
    assert_eq!(a.score(), first);
    assert_eq!(b.score(), first);
}

#[test]
fn test_double_double_run() {
    // Fifteens 8 (4+5+6 four ways), pairs 4, runs 12 (4-5-6 four ways).
    let mut h = hand("4H", "4C", "5D", "6S", "6H", false);
    assert_eq!(h.score(), 24);
}

#[test]
fn test_simple_run_and_fifteens() {
    // Fifteens 4 (2+3+K and A+2+3+9), one run of three, nothing else.
    let mut h = hand("AH", "2C", "3D", "KS", "9D", false);
    assert_eq!(h.score(), 7);
}

#[test]
fn test_zero_hand() {
    let mut h = hand("2H", "4C", "6D", "8S", "KD", false);
    assert_eq!(h.score(), 0);
}

#[test]
fn test_flush_rule() {
    // Four hearts against an off-suit starter: 4 in an ordinary hand...
    let mut plain = hand("2H", "4H", "6H", "8H", "KD", false);
    assert_eq!(plain.score(), 4);
    // ...and nothing in the crib.
    let mut crib = hand("2H", "4H", "6H", "8H", "KD", true);
    assert_eq!(crib.score(), 0);
    // With the starter matching, both score the full 5.
    let mut plain_five = hand("2H", "4H", "6H", "8H", "QH", false);
    assert_eq!(plain_five.score(), 5);
    let mut crib_five = hand("2H", "4H", "6H", "8H", "QH", true);
    assert_eq!(crib_five.score(), 5);
}

#[test]
fn test_nobs() {
    // The Jack of the starter's suit is worth exactly one point here.
    let mut with_nobs = hand("JH", "2C", "4D", "8S", "KH", false);
    assert_eq!(with_nobs.score(), 1);
    // The same hand against an off-suit starter scores nothing.
    let mut without = hand("JH", "2C", "4D", "8S", "KD", false);
    assert_eq!(without.score(), 0);
}

#[test]
fn test_run_of_five() {
    // A five-card run: 5 run points, plus 15 = A+2+3+4+5 and no pairs.
    let mut h = hand("AH", "2C", "3D", "4S", "5H", false);
    assert_eq!(h.score(), 7);
}

#[test]
fn test_run_of_four() {
    // A four-card run 7-8-9-10 with the extra king: 4 run points and
    // 15 = 7 + 8.
    let mut h = hand("7H", "8C", "9D", "TS", "KD", false);
    assert_eq!(h.score(), 6);
}

#[test]
fn test_three_of_a_kind() {
    // Three queens: three pairs, 6 points, nothing else.
    let mut h = hand("QH", "QC", "QD", "2S", "9D", false);
    assert_eq!(h.score(), 6);
}

#[test]
fn test_hand_cards_are_kept() {
    let mut h = hand("5H", "5C", "5S", "JD", "5D", false);
    let held: Vec<Card> = h.cards().to_vec();
    assert_eq!(
        held,
        vec![card("5H"), card("5C"), card("5S"), card("JD")]
    );
    h.score();
    assert_eq!(h.cards().to_vec(), held);
}

#[test]
fn test_score_run_helper() {
    assert_eq!(Hand::score_run(&[card("AH"), card("2C"), card("3D")]), 3);
    assert_eq!(
        Hand::score_run(&[card("AH"), card("2C"), card("3D"), card("4S")]),
        4
    );
    // Out of order counts for nothing here: the caller sorts first.
    assert_eq!(Hand::score_run(&[card("2C"), card("AH"), card("3D")]), 0);
    assert_eq!(Hand::score_run(&[card("AH"), card("2C")]), 0);
    assert_eq!(Hand::score_run(&[card("AH"), card("AC"), card("2D")]), 0);
}

#[test]
fn test_score_never_exceeds_twenty_nine() {
    // Sweep every five-card hand drawn from a varied thirteen-card pool:
    // no distinct-card hand may beat the perfect twenty-nine.
    let pool = [
        card("5H"),
        card("5C"),
        card("5S"),
        card("5D"),
        card("JD"),
        card("JH"),
        card("TS"),
        card("QC"),
        card("KH"),
        card("4C"),
        card("6S"),
        card("7D"),
        card("AH"),
    ];
    let n = pool.len();
    let mut best = 0u8;
    for a in 0..n {
        for b in (a + 1)..n {
            for c in (b + 1)..n {
                for d in (c + 1)..n {
                    for e in (d + 1)..n {
                        let picks = [pool[a], pool[b], pool[c], pool[d], pool[e]];
                        for cut_at in 0..5 {
                            let mut held = Vec::new();
                            for (i, p) in picks.iter().enumerate() {
                                if i != cut_at {
                                    held.push(*p);
                                }
                            }
                            for crib in [false, true] {
                                let mut h = Hand::new(
                                    [held[0], held[1], held[2], held[3]],
                                    picks[cut_at],
                                    crib,
                                );
                                let score = h.score();
                                assert!(score <= 29);
                                if score > best {
                                    best = score;
                                }
                            }
                        }
                    }
                }
            }
        }
    }
    // The pool contains the perfect hand, so the maximum is reached.
    assert_eq!(best, 29);
}

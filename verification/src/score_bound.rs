use vstd::prelude::*;

use crate::card::{
    all_same_suit, distinct_ordinals, is_run, max_ordinal, min_ordinal, Card, Rank,
};
use crate::hand::{
    count_pairs, count_rank_matches, count_run_subsets, count_run_subsets_rec,
    count_subsets_summing, flush_points, hand_score_spec,
};

verus! {

// ---------------------------------------------------------------------------
// The integer skeleton of a scored hand.
//
// The subset counts that make up a hand's score are restated here as plain
// sums of indicators over the five rank ordinals and the five card values,
// so that the bound on the whole score becomes finite integer reasoning.
// ---------------------------------------------------------------------------

/// 1 when `x` is exactly fifteen.
spec fn i15(x: int) -> int {
    if x == 15 { 1 } else { 0 }
}

/// 1 when the two ordinals agree.
spec fn ieq(a: int, b: int) -> int {
    if a == b { 1 } else { 0 }
}

/// 1 when `x` is exactly five.
spec fn ind5(x: int) -> int {
    if x == 5 { 1 } else { 0 }
}

/// 1 when the three ordinals are consecutive in some order.
spec fn run3i(a: int, b: int, c: int) -> int {
    if (b == a + 1 && c == a + 2) || (c == a + 1 && b == a + 2) || (a == b + 1 && c == b + 2)
        || (c == b + 1 && a == b + 2) || (a == c + 1 && b == c + 2) || (b == c + 1 && a == c + 2) {
        1
    } else {
        0
    }
}

/// The larger of two ordinals.
spec fn mx2(a: int, b: int) -> int {
    if a >= b { a } else { b }
}

/// The smaller of two ordinals.
spec fn mn2(a: int, b: int) -> int {
    if a <= b { a } else { b }
}

/// 1 when the four ordinals are distinct and span exactly four places.
spec fn run4i(a: int, b: int, c: int, d: int) -> int {
    if a != b && a != c && a != d && b != c && b != d && c != d
        && mx2(mx2(a, b), mx2(c, d)) - mn2(mn2(a, b), mn2(c, d)) == 3 {
        1
    } else {
        0
    }
}

/// 1 when the five ordinals are distinct and span exactly five places.
spec fn run5i(a: int, b: int, c: int, d: int, e: int) -> int {
    if a != b && a != c && a != d && a != e && b != c && b != d && b != e && c != d && c != e
        && d != e && mx2(mx2(mx2(a, b), mx2(c, d)), e) - mn2(mn2(mn2(a, b), mn2(c, d)), e) == 4 {
        1
    } else {
        0
    }
}

/// The subsets of the five values summing to fifteen, one indicator per
/// subset of two or more cards.
#[verifier::opaque]
spec fn fifteen_count(v0: int, v1: int, v2: int, v3: int, v4: int) -> int {
    i15(v0 + v1) + i15(v0 + v2) + i15(v0 + v3) + i15(v0 + v4) + i15(v1 + v2) + i15(v1 + v3) + i15(v1 + v4) + i15(v2 + v3) + i15(v2 + v4) + i15(v3 + v4) + i15(v0 + v1 + v2) + i15(v0 + v1 + v3) + i15(v0 + v1 + v4) + i15(v0 + v2 + v3) + i15(v0 + v2 + v4) + i15(v0 + v3 + v4) + i15(v1 + v2 + v3) + i15(v1 + v2 + v4) + i15(v1 + v3 + v4) + i15(v2 + v3 + v4) + i15(v0 + v1 + v2 + v3) + i15(v0 + v1 + v2 + v4) + i15(v0 + v1 + v3 + v4) + i15(v0 + v2 + v3 + v4) + i15(v1 + v2 + v3 + v4) + i15(v0 + v1 + v2 + v3 + v4)
}

/// The pairs of agreeing ordinals.
#[verifier::opaque]
spec fn pair_count(o0: int, o1: int, o2: int, o3: int, o4: int) -> int {
    ieq(o0, o1) + ieq(o0, o2) + ieq(o0, o3) + ieq(o0, o4) + ieq(o1, o2) + ieq(o1, o3) + ieq(o1, o4) + ieq(o2, o3) + ieq(o2, o4) + ieq(o3, o4)
}

/// The three-card subsets whose ordinals are consecutive.
#[verifier::opaque]
spec fn run3_count(o0: int, o1: int, o2: int, o3: int, o4: int) -> int {
    run3i(o0, o1, o2) + run3i(o0, o1, o3) + run3i(o0, o1, o4) + run3i(o0, o2, o3) + run3i(o0, o2, o4) + run3i(o0, o3, o4) + run3i(o1, o2, o3) + run3i(o1, o2, o4) + run3i(o1, o3, o4) + run3i(o2, o3, o4)
}

/// The four-card subsets whose ordinals are consecutive.
#[verifier::opaque]
spec fn run4_count(o0: int, o1: int, o2: int, o3: int, o4: int) -> int {
    run4i(o0, o1, o2, o3) + run4i(o0, o1, o2, o4) + run4i(o0, o1, o3, o4) + run4i(o0, o2, o3, o4) + run4i(o1, o2, o3, o4)
}

/// The five-card subsets whose ordinals are consecutive.
#[verifier::opaque]
spec fn run5_count(o0: int, o1: int, o2: int, o3: int, o4: int) -> int {
    run5i(o0, o1, o2, o3, o4)
}

// ---------------------------------------------------------------------------
// Bounds over the integer skeleton. Every lemma below is a finite check over
// the ten bounded integers of a hand.
// ---------------------------------------------------------------------------

/// At most eight subsets of a real hand sum to fifteen.
#[verifier::rlimit(100)]
proof fn lemma_i_fifteens(v0: int, v1: int, v2: int, v3: int, v4: int)
    requires
        1 <= v0 <= 10,
        1 <= v1 <= 10,
        1 <= v2 <= 10,
        1 <= v3 <= 10,
        1 <= v4 <= 10,
        !(v0 == v1 && v1 == v2 && v2 == v3 && v3 == v4 && v0 <= 9),
    ensures
        0 <= fifteen_count(v0, v1, v2, v3, v4) <= 8,
{
    reveal(fifteen_count);
}

/// With fewer than three fives a hand has at most six fifteens.
#[verifier::rlimit(100)]
proof fn lemma_i_few_fives(v0: int, v1: int, v2: int, v3: int, v4: int)
    requires
        1 <= v0 <= 10,
        1 <= v1 <= 10,
        1 <= v2 <= 10,
        1 <= v3 <= 10,
        1 <= v4 <= 10,
        !(v0 == v1 && v1 == v2 && v2 == v3 && v3 == v4 && v0 <= 9),
        ind5(v0) + ind5(v1) + ind5(v2) + ind5(v3) + ind5(v4) <= 2,
    ensures
        fifteen_count(v0, v1, v2, v3, v4) <= 6,
{
    reveal(fifteen_count);
}

/// A value that is neither five nor ten leaves at most six fifteens.
#[verifier::rlimit(100)]
proof fn lemma_i_off_value_0(v0: int, v1: int, v2: int, v3: int, v4: int)
    requires
        1 <= v0 <= 10,
        1 <= v1 <= 10,
        1 <= v2 <= 10,
        1 <= v3 <= 10,
        1 <= v4 <= 10,
        !(v0 == v1 && v1 == v2 && v2 == v3 && v3 == v4 && v0 <= 9),
        v0 != 5,
        v0 != 10,
    ensures
        fifteen_count(v0, v1, v2, v3, v4) <= 6,
{
    reveal(fifteen_count);
}

/// A value that is neither five nor ten leaves at most six fifteens.
#[verifier::rlimit(100)]
proof fn lemma_i_off_value_1(v0: int, v1: int, v2: int, v3: int, v4: int)
    requires
        1 <= v0 <= 10,
        1 <= v1 <= 10,
        1 <= v2 <= 10,
        1 <= v3 <= 10,
        1 <= v4 <= 10,
        !(v0 == v1 && v1 == v2 && v2 == v3 && v3 == v4 && v0 <= 9),
        v1 != 5,
        v1 != 10,
    ensures
        fifteen_count(v0, v1, v2, v3, v4) <= 6,
{
    reveal(fifteen_count);
}

/// A value that is neither five nor ten leaves at most six fifteens.
#[verifier::rlimit(100)]
proof fn lemma_i_off_value_2(v0: int, v1: int, v2: int, v3: int, v4: int)
    requires
        1 <= v0 <= 10,
        1 <= v1 <= 10,
        1 <= v2 <= 10,
        1 <= v3 <= 10,
        1 <= v4 <= 10,
        !(v0 == v1 && v1 == v2 && v2 == v3 && v3 == v4 && v0 <= 9),
        v2 != 5,
        v2 != 10,
    ensures
        fifteen_count(v0, v1, v2, v3, v4) <= 6,
{
    reveal(fifteen_count);
}

/// A value that is neither five nor ten leaves at most six fifteens.
#[verifier::rlimit(100)]
proof fn lemma_i_off_value_3(v0: int, v1: int, v2: int, v3: int, v4: int)
    requires
        1 <= v0 <= 10,
        1 <= v1 <= 10,
        1 <= v2 <= 10,
        1 <= v3 <= 10,
        1 <= v4 <= 10,
        !(v0 == v1 && v1 == v2 && v2 == v3 && v3 == v4 && v0 <= 9),
        v3 != 5,
        v3 != 10,
    ensures
        fifteen_count(v0, v1, v2, v3, v4) <= 6,
{
    reveal(fifteen_count);
}

/// A value that is neither five nor ten leaves at most six fifteens.
#[verifier::rlimit(100)]
proof fn lemma_i_off_value_4(v0: int, v1: int, v2: int, v3: int, v4: int)
    requires
        1 <= v0 <= 10,
        1 <= v1 <= 10,
        1 <= v2 <= 10,
        1 <= v3 <= 10,
        1 <= v4 <= 10,
        !(v0 == v1 && v1 == v2 && v2 == v3 && v3 == v4 && v0 <= 9),
        v4 != 5,
        v4 != 10,
    ensures
        fifteen_count(v0, v1, v2, v3, v4) <= 6,
{
    reveal(fifteen_count);
}

/// Seven or more fifteens force at least three fives with only ten-values
/// beside them.
proof fn lemma_i_fifteens_pattern(v0: int, v1: int, v2: int, v3: int, v4: int)
    requires
        1 <= v0 <= 10,
        1 <= v1 <= 10,
        1 <= v2 <= 10,
        1 <= v3 <= 10,
        1 <= v4 <= 10,
        !(v0 == v1 && v1 == v2 && v2 == v3 && v3 == v4 && v0 <= 9),
        fifteen_count(v0, v1, v2, v3, v4) >= 7,
    ensures
        ind5(v0) + ind5(v1) + ind5(v2) + ind5(v3) + ind5(v4) >= 3,
        v0 == 5 || v0 == 10,
        v1 == 5 || v1 == 10,
        v2 == 5 || v2 == 10,
        v3 == 5 || v3 == 10,
        v4 == 5 || v4 == 10,
{
    if ind5(v0) + ind5(v1) + ind5(v2) + ind5(v3) + ind5(v4) <= 2 {
        lemma_i_few_fives(v0, v1, v2, v3, v4);
    }
    if v0 != 5 && v0 != 10 {
        lemma_i_off_value_0(v0, v1, v2, v3, v4);
    }
    if v1 != 5 && v1 != 10 {
        lemma_i_off_value_1(v0, v1, v2, v3, v4);
    }
    if v2 != 5 && v2 != 10 {
        lemma_i_off_value_2(v0, v1, v2, v3, v4);
    }
    if v3 != 5 && v3 != 10 {
        lemma_i_off_value_3(v0, v1, v2, v3, v4);
    }
    if v4 != 5 && v4 != 10 {
        lemma_i_off_value_4(v0, v1, v2, v3, v4);
    }
}

/// Pair points and three-card run points together never pass sixteen.
#[verifier::rlimit(100)]
proof fn lemma_i_pairs_runs3(o0: int, o1: int, o2: int, o3: int, o4: int)
    requires
        1 <= o0 <= 13,
        1 <= o1 <= 13,
        1 <= o2 <= 13,
        1 <= o3 <= 13,
        1 <= o4 <= 13,
        !(o0 == o1 && o1 == o2 && o2 == o3 && o3 == o4),
    ensures
        0 <= pair_count(o0, o1, o2, o3, o4),
        0 <= run3_count(o0, o1, o2, o3, o4),
        2 * pair_count(o0, o1, o2, o3, o4) + 3 * run3_count(o0, o1, o2, o3, o4) <= 16,
{
    reveal(pair_count);
    reveal(run3_count);
}

/// Pair points and four-card run points together never pass sixteen.
#[verifier::rlimit(100)]
proof fn lemma_i_pairs_runs4(o0: int, o1: int, o2: int, o3: int, o4: int)
    requires
        1 <= o0 <= 13,
        1 <= o1 <= 13,
        1 <= o2 <= 13,
        1 <= o3 <= 13,
        1 <= o4 <= 13,
        !(o0 == o1 && o1 == o2 && o2 == o3 && o3 == o4),
    ensures
        0 <= run4_count(o0, o1, o2, o3, o4),
        2 * pair_count(o0, o1, o2, o3, o4) + 4 * run4_count(o0, o1, o2, o3, o4) <= 16,
{
    reveal(pair_count);
    reveal(run4_count);
}

/// Pair points and five-card run points together never pass sixteen.
#[verifier::rlimit(100)]
proof fn lemma_i_pairs_runs5(o0: int, o1: int, o2: int, o3: int, o4: int)
    requires
        1 <= o0 <= 13,
        1 <= o1 <= 13,
        1 <= o2 <= 13,
        1 <= o3 <= 13,
        1 <= o4 <= 13,
        !(o0 == o1 && o1 == o2 && o2 == o3 && o3 == o4),
    ensures
        0 <= run5_count(o0, o1, o2, o3, o4),
        2 * pair_count(o0, o1, o2, o3, o4) + 5 * run5_count(o0, o1, o2, o3, o4) <= 16,
{
    reveal(pair_count);
    reveal(run5_count);
}

/// With the four held ordinals pairwise distinct, as a flush forces, pair
/// and three-card run points stay within eleven once no longer run exists.
#[verifier::rlimit(100)]
proof fn lemma_i_flush_runs3(o0: int, o1: int, o2: int, o3: int, o4: int)
    requires
        1 <= o0 <= 13,
        1 <= o1 <= 13,
        1 <= o2 <= 13,
        1 <= o3 <= 13,
        1 <= o4 <= 13,
        o0 != o1,
        o0 != o2,
        o0 != o3,
        o1 != o2,
        o1 != o3,
        o2 != o3,
        run4_count(o0, o1, o2, o3, o4) == 0,
        run5_count(o0, o1, o2, o3, o4) == 0,
    ensures
        2 * pair_count(o0, o1, o2, o3, o4) + 3 * run3_count(o0, o1, o2, o3, o4) <= 11,
{
    reveal(pair_count);
    reveal(run3_count);
    reveal(run4_count);
    reveal(run5_count);
}

/// With the four held ordinals pairwise distinct, pair and four-card run
/// points stay within eleven once no five-card run exists.
#[verifier::rlimit(100)]
proof fn lemma_i_flush_runs4(o0: int, o1: int, o2: int, o3: int, o4: int)
    requires
        1 <= o0 <= 13,
        1 <= o1 <= 13,
        1 <= o2 <= 13,
        1 <= o3 <= 13,
        1 <= o4 <= 13,
        o0 != o1,
        o0 != o2,
        o0 != o3,
        o1 != o2,
        o1 != o3,
        o2 != o3,
        run5_count(o0, o1, o2, o3, o4) == 0,
    ensures
        2 * pair_count(o0, o1, o2, o3, o4) + 4 * run4_count(o0, o1, o2, o3, o4) <= 11,
{
    reveal(pair_count);
    reveal(run4_count);
    reveal(run5_count);
}

/// With the four held ordinals pairwise distinct, pair and five-card run
/// points stay within eleven.
#[verifier::rlimit(100)]
proof fn lemma_i_flush_runs5(o0: int, o1: int, o2: int, o3: int, o4: int)
    requires
        1 <= o0 <= 13,
        1 <= o1 <= 13,
        1 <= o2 <= 13,
        1 <= o3 <= 13,
        1 <= o4 <= 13,
        o0 != o1,
        o0 != o2,
        o0 != o3,
        o1 != o2,
        o1 != o3,
        o2 != o3,
    ensures
        2 * pair_count(o0, o1, o2, o3, o4) + 5 * run5_count(o0, o1, o2, o3, o4) <= 11,
{
    reveal(pair_count);
    reveal(run5_count);
}

/// Three or more fives with only ten-values beside them leave no run at all.
#[verifier::rlimit(100)]
proof fn lemma_i_pattern_no_runs(o0: int, o1: int, o2: int, o3: int, o4: int, v0: int, v1: int, v2: int, v3: int, v4: int)
    requires
        1 <= o0 <= 13,
        1 <= o1 <= 13,
        1 <= o2 <= 13,
        1 <= o3 <= 13,
        1 <= o4 <= 13,
        v0 == (if o0 >= 10 { 10int } else { o0 }),
        v1 == (if o1 >= 10 { 10int } else { o1 }),
        v2 == (if o2 >= 10 { 10int } else { o2 }),
        v3 == (if o3 >= 10 { 10int } else { o3 }),
        v4 == (if o4 >= 10 { 10int } else { o4 }),
        ind5(v0) + ind5(v1) + ind5(v2) + ind5(v3) + ind5(v4) >= 3,
        v0 == 5 || v0 == 10,
        v1 == 5 || v1 == 10,
        v2 == 5 || v2 == 10,
        v3 == 5 || v3 == 10,
        v4 == 5 || v4 == 10,
    ensures
        run3_count(o0, o1, o2, o3, o4) == 0,
        run4_count(o0, o1, o2, o3, o4) == 0,
        run5_count(o0, o1, o2, o3, o4) == 0,
{
    reveal(run3_count);
    reveal(run4_count);
    reveal(run5_count);
}

/// Three or more fives with only ten-values beside them cap fifteens and
/// pairs together at twenty-eight points.
#[verifier::rlimit(100)]
proof fn lemma_i_pattern_cap(o0: int, o1: int, o2: int, o3: int, o4: int, v0: int, v1: int, v2: int, v3: int, v4: int)
    requires
        1 <= o0 <= 13,
        1 <= o1 <= 13,
        1 <= o2 <= 13,
        1 <= o3 <= 13,
        1 <= o4 <= 13,
        !(o0 == o1 && o1 == o2 && o2 == o3 && o3 == o4),
        v0 == (if o0 >= 10 { 10int } else { o0 }),
        v1 == (if o1 >= 10 { 10int } else { o1 }),
        v2 == (if o2 >= 10 { 10int } else { o2 }),
        v3 == (if o3 >= 10 { 10int } else { o3 }),
        v4 == (if o4 >= 10 { 10int } else { o4 }),
        ind5(v0) + ind5(v1) + ind5(v2) + ind5(v3) + ind5(v4) >= 3,
        v0 == 5 || v0 == 10,
        v1 == 5 || v1 == 10,
        v2 == 5 || v2 == 10,
        v3 == 5 || v3 == 10,
        v4 == 5 || v4 == 10,
    ensures
        2 * fifteen_count(v0, v1, v2, v3, v4) + 2 * pair_count(o0, o1, o2, o3, o4) <= 28,
{
    reveal(fifteen_count);
    reveal(pair_count);
}


// ---------------------------------------------------------------------------
// Bridges from the recursive subset counts over cards to the integer
// skeleton.
// ---------------------------------------------------------------------------

/// One card more doubles the subsets: those without it and those with it.
proof fn lemma_summing_step(s: Seq<Card>, x: Card, t: int)
    ensures
        count_subsets_summing(s.push(x), t) == count_subsets_summing(s, t)
            + count_subsets_summing(s, t - x.rank.spec_value()),
{
    assert(s.push(x).drop_last() =~= s);
    assert(s.push(x).last() == x);
}

/// 1 when `t` has been whittled down to exactly zero.
spec fn b0(t: int) -> int {
    if t == 0 { 1 } else { 0 }
}

/// The first two cards of `cs`, the tail of the unrolled recursion.
spec fn p2(cs: Seq<Card>) -> Seq<Card> {
    Seq::<Card>::empty().push(cs[0]).push(cs[1])
}

/// Unrolls the fifteen count over the last three of five cards.
#[verifier::rlimit(100)]
proof fn lemma_bridge_fifteens_hi(cs: Seq<Card>)
    requires
        cs.len() == 5,
    ensures
        ({
            let v2 = cs[2].rank.spec_value();
            let v3 = cs[3].rank.spec_value();
            let v4 = cs[4].rank.spec_value();
            count_subsets_summing(cs, 15) == count_subsets_summing(p2(cs), 15) + count_subsets_summing(p2(cs), 15 - v2) + count_subsets_summing(p2(cs), 15 - v3) + count_subsets_summing(p2(cs), 15 - v4) + count_subsets_summing(p2(cs), 15 - v2 - v3) + count_subsets_summing(p2(cs), 15 - v2 - v4) + count_subsets_summing(p2(cs), 15 - v3 - v4) + count_subsets_summing(p2(cs), 15 - v2 - v3 - v4)
        }),
{
    let v2 = cs[2].rank.spec_value();
    let v3 = cs[3].rank.spec_value();
    let v4 = cs[4].rank.spec_value();
    let p0 = Seq::<Card>::empty();
    let p1 = p0.push(cs[0]);
    let p2 = p1.push(cs[1]);
    let p3 = p2.push(cs[2]);
    let p4 = p3.push(cs[3]);
    let p5 = p4.push(cs[4]);
    assert(cs =~= p5);
    assert(count_subsets_summing(p5, 15) == count_subsets_summing(p4, 15) + count_subsets_summing(p4, 15 - v4)) by {
        lemma_summing_step(p4, cs[4], 15);
    }
    assert(count_subsets_summing(p4, 15) == count_subsets_summing(p3, 15) + count_subsets_summing(p3, 15 - v3)) by {
        lemma_summing_step(p3, cs[3], 15);
    }
    assert(count_subsets_summing(p4, 15 - v4) == count_subsets_summing(p3, 15 - v4) + count_subsets_summing(p3, 15 - v3 - v4)) by {
        lemma_summing_step(p3, cs[3], 15 - v4);
    }
    assert(count_subsets_summing(p3, 15) == count_subsets_summing(p2, 15) + count_subsets_summing(p2, 15 - v2)) by {
        lemma_summing_step(p2, cs[2], 15);
    }
    assert(count_subsets_summing(p3, 15 - v3) == count_subsets_summing(p2, 15 - v3) + count_subsets_summing(p2, 15 - v2 - v3)) by {
        lemma_summing_step(p2, cs[2], 15 - v3);
    }
    assert(count_subsets_summing(p3, 15 - v4) == count_subsets_summing(p2, 15 - v4) + count_subsets_summing(p2, 15 - v2 - v4)) by {
        lemma_summing_step(p2, cs[2], 15 - v4);
    }
    assert(count_subsets_summing(p3, 15 - v3 - v4) == count_subsets_summing(p2, 15 - v3 - v4) + count_subsets_summing(p2, 15 - v2 - v3 - v4)) by {
        lemma_summing_step(p2, cs[2], 15 - v3 - v4);
    }
}

/// Unrolls the fifteen count over the first two cards down to the base
/// indicators, for any remaining target.
#[verifier::rlimit(100)]
proof fn lemma_bridge_fifteens_lo(cs: Seq<Card>, t: int)
    ensures
        ({
            let v0 = cs[0].rank.spec_value();
            let v1 = cs[1].rank.spec_value();
            count_subsets_summing(p2(cs), t) == b0(t) + b0(t - v0) + b0(t - v1) + b0(
                t - v0 - v1,
            )
        }),
{
    let v0 = cs[0].rank.spec_value();
    let v1 = cs[1].rank.spec_value();
    let p0 = Seq::<Card>::empty();
    let p1 = p0.push(cs[0]);
    assert(count_subsets_summing(p2(cs), t) == count_subsets_summing(p1, t) + count_subsets_summing(p1, t - v1)) by {
        lemma_summing_step(p1, cs[1], t);
    }
    assert(count_subsets_summing(p1, t) == count_subsets_summing(p0, t) + count_subsets_summing(p0, t - v0)) by {
        lemma_summing_step(p0, cs[0], t);
    }
    assert(count_subsets_summing(p1, t - v1) == count_subsets_summing(p0, t - v1) + count_subsets_summing(p0, t - v1 - v0)) by {
        lemma_summing_step(p0, cs[0], t - v1);
    }
}

/// Unrolls the recursive fifteen count over five cards into one base
/// indicator per subset.
#[verifier::rlimit(100)]
proof fn lemma_bridge_fifteens_unroll(cs: Seq<Card>)
    requires
        cs.len() == 5,
    ensures
        ({
            let v0 = cs[0].rank.spec_value();
            let v1 = cs[1].rank.spec_value();
            let v2 = cs[2].rank.spec_value();
            let v3 = cs[3].rank.spec_value();
            let v4 = cs[4].rank.spec_value();
            count_subsets_summing(cs, 15) == b0(15) + b0(15 - v0) + b0(15 - v1) + b0(15 - v2) + b0(15 - v3) + b0(15 - v4) + b0(15 - v0 - v1) + b0(15 - v0 - v2) + b0(15 - v0 - v3) + b0(15 - v0 - v4) + b0(15 - v1 - v2) + b0(15 - v1 - v3) + b0(15 - v1 - v4) + b0(15 - v2 - v3) + b0(15 - v2 - v4) + b0(15 - v3 - v4) + b0(15 - v0 - v1 - v2) + b0(15 - v0 - v1 - v3) + b0(15 - v0 - v1 - v4) + b0(15 - v0 - v2 - v3) + b0(15 - v0 - v2 - v4) + b0(15 - v0 - v3 - v4) + b0(15 - v1 - v2 - v3) + b0(15 - v1 - v2 - v4) + b0(15 - v1 - v3 - v4) + b0(15 - v2 - v3 - v4) + b0(15 - v0 - v1 - v2 - v3) + b0(15 - v0 - v1 - v2 - v4) + b0(15 - v0 - v1 - v3 - v4) + b0(15 - v0 - v2 - v3 - v4) + b0(15 - v1 - v2 - v3 - v4) + b0(15 - v0 - v1 - v2 - v3 - v4)
        }),
{
    let v2 = cs[2].rank.spec_value();
    let v3 = cs[3].rank.spec_value();
    let v4 = cs[4].rank.spec_value();
    lemma_bridge_fifteens_hi(cs);
    lemma_bridge_fifteens_lo(cs, 15);
    lemma_bridge_fifteens_lo(cs, 15 - v2);
    lemma_bridge_fifteens_lo(cs, 15 - v3);
    lemma_bridge_fifteens_lo(cs, 15 - v4);
    lemma_bridge_fifteens_lo(cs, 15 - v2 - v3);
    lemma_bridge_fifteens_lo(cs, 15 - v2 - v4);
    lemma_bridge_fifteens_lo(cs, 15 - v3 - v4);
    lemma_bridge_fifteens_lo(cs, 15 - v2 - v3 - v4);
}

/// The base indicators add up to the explicit fifteen count once every
/// value lies between one and ten.
#[verifier::rlimit(100)]
proof fn lemma_bridge_fifteens_collect(v0: int, v1: int, v2: int, v3: int, v4: int)
    requires
        1 <= v0 <= 10,
        1 <= v1 <= 10,
        1 <= v2 <= 10,
        1 <= v3 <= 10,
        1 <= v4 <= 10,
    ensures
        b0(15) + b0(15 - v0) + b0(15 - v1) + b0(15 - v2) + b0(15 - v3) + b0(15 - v4) + b0(15 - v0 - v1) + b0(15 - v0 - v2) + b0(15 - v0 - v3) + b0(15 - v0 - v4) + b0(15 - v1 - v2) + b0(15 - v1 - v3) + b0(15 - v1 - v4) + b0(15 - v2 - v3) + b0(15 - v2 - v4) + b0(15 - v3 - v4) + b0(15 - v0 - v1 - v2) + b0(15 - v0 - v1 - v3) + b0(15 - v0 - v1 - v4) + b0(15 - v0 - v2 - v3) + b0(15 - v0 - v2 - v4) + b0(15 - v0 - v3 - v4) + b0(15 - v1 - v2 - v3) + b0(15 - v1 - v2 - v4) + b0(15 - v1 - v3 - v4) + b0(15 - v2 - v3 - v4) + b0(15 - v0 - v1 - v2 - v3) + b0(15 - v0 - v1 - v2 - v4) + b0(15 - v0 - v1 - v3 - v4) + b0(15 - v0 - v2 - v3 - v4) + b0(15 - v1 - v2 - v3 - v4) + b0(15 - v0 - v1 - v2 - v3 - v4) == fifteen_count(v0, v1, v2, v3, v4),
{
    reveal(fifteen_count);
}

/// The recursive fifteen count over five cards is the explicit indicator sum
/// over their values.
proof fn lemma_bridge_fifteens(cs: Seq<Card>)
    requires
        cs.len() == 5,
    ensures
        count_subsets_summing(cs, 15) == fifteen_count(
            cs[0].rank.spec_value(),
            cs[1].rank.spec_value(),
            cs[2].rank.spec_value(),
            cs[3].rank.spec_value(),
            cs[4].rank.spec_value(),
        ),
{
    lemma_bridge_fifteens_unroll(cs);
    lemma_bridge_fifteens_collect(
        cs[0].rank.spec_value(),
        cs[1].rank.spec_value(),
        cs[2].rank.spec_value(),
        cs[3].rank.spec_value(),
        cs[4].rank.spec_value(),
    );
}


/// Two ranks with one ordinal are one rank.
proof fn lemma_rank_ordinal_injective(a: Rank, b: Rank)
    ensures
        (a.spec_ordinal() == b.spec_ordinal()) == (a == b),
{
}

/// The recursive pair count over five cards is the explicit indicator sum
/// over their ordinals.
#[verifier::rlimit(100)]
proof fn lemma_bridge_pairs(cs: Seq<Card>)
    requires
        cs.len() == 5,
    ensures
        count_pairs(cs) == pair_count(
            cs[0].rank.spec_ordinal(),
            cs[1].rank.spec_ordinal(),
            cs[2].rank.spec_ordinal(),
            cs[3].rank.spec_ordinal(),
            cs[4].rank.spec_ordinal(),
        ),
{
    reveal(pair_count);
    let p0 = Seq::<Card>::empty();
    let p1 = p0.push(cs[0]);
    let p2 = p1.push(cs[1]);
    let p3 = p2.push(cs[2]);
    let p4 = p3.push(cs[3]);
    let p5 = p4.push(cs[4]);
    assert(cs =~= p5);
    assert(p5.drop_last() =~= p4);
    assert(p5.last() == cs[4]);
    assert(p4.drop_last() =~= p3);
    assert(p4.last() == cs[3]);
    assert(p3.drop_last() =~= p2);
    assert(p3.last() == cs[2]);
    assert(p2.drop_last() =~= p1);
    assert(p2.last() == cs[1]);
    assert(p1.drop_last() =~= p0);
    assert(p1.last() == cs[0]);
    assert(count_pairs(p5) == count_pairs(p4) + count_rank_matches(p4, cs[4].rank));
    assert(count_pairs(p4) == count_pairs(p3) + count_rank_matches(p3, cs[3].rank));
    assert(count_pairs(p3) == count_pairs(p2) + count_rank_matches(p2, cs[2].rank));
    assert(count_pairs(p2) == count_pairs(p1) + count_rank_matches(p1, cs[1].rank));
    assert(count_pairs(p1) == count_pairs(p0) + count_rank_matches(p0, cs[0].rank));
    assert(count_rank_matches(p1, cs[1].rank) == count_rank_matches(p0, cs[1].rank) + (if cs[0].rank == cs[1].rank { 1int } else { 0int }));
    assert(count_rank_matches(p2, cs[2].rank) == count_rank_matches(p1, cs[2].rank) + (if cs[1].rank == cs[2].rank { 1int } else { 0int }));
    assert(count_rank_matches(p1, cs[2].rank) == count_rank_matches(p0, cs[2].rank) + (if cs[0].rank == cs[2].rank { 1int } else { 0int }));
    assert(count_rank_matches(p3, cs[3].rank) == count_rank_matches(p2, cs[3].rank) + (if cs[2].rank == cs[3].rank { 1int } else { 0int }));
    assert(count_rank_matches(p2, cs[3].rank) == count_rank_matches(p1, cs[3].rank) + (if cs[1].rank == cs[3].rank { 1int } else { 0int }));
    assert(count_rank_matches(p1, cs[3].rank) == count_rank_matches(p0, cs[3].rank) + (if cs[0].rank == cs[3].rank { 1int } else { 0int }));
    assert(count_rank_matches(p4, cs[4].rank) == count_rank_matches(p3, cs[4].rank) + (if cs[3].rank == cs[4].rank { 1int } else { 0int }));
    assert(count_rank_matches(p3, cs[4].rank) == count_rank_matches(p2, cs[4].rank) + (if cs[2].rank == cs[4].rank { 1int } else { 0int }));
    assert(count_rank_matches(p2, cs[4].rank) == count_rank_matches(p1, cs[4].rank) + (if cs[1].rank == cs[4].rank { 1int } else { 0int }));
    assert(count_rank_matches(p1, cs[4].rank) == count_rank_matches(p0, cs[4].rank) + (if cs[0].rank == cs[4].rank { 1int } else { 0int }));
    lemma_rank_ordinal_injective(cs[0].rank, cs[1].rank);
    lemma_rank_ordinal_injective(cs[0].rank, cs[2].rank);
    lemma_rank_ordinal_injective(cs[0].rank, cs[3].rank);
    lemma_rank_ordinal_injective(cs[0].rank, cs[4].rank);
    lemma_rank_ordinal_injective(cs[1].rank, cs[2].rank);
    lemma_rank_ordinal_injective(cs[1].rank, cs[3].rank);
    lemma_rank_ordinal_injective(cs[1].rank, cs[4].rank);
    lemma_rank_ordinal_injective(cs[2].rank, cs[3].rank);
    lemma_rank_ordinal_injective(cs[2].rank, cs[4].rank);
    lemma_rank_ordinal_injective(cs[3].rank, cs[4].rank);
}

/// A chain of 3 cards is a run exactly when its ordinals qualify.
#[verifier::rlimit(100)]
proof fn lemma_is_run_3(a: Card, b: Card, c: Card)
    ensures
        is_run(Seq::<Card>::empty().push(a).push(b).push(c)) == (run3i(a.rank.spec_ordinal(), b.rank.spec_ordinal(), c.rank.spec_ordinal()) == 1),
{
    let ch = Seq::<Card>::empty().push(a).push(b).push(c);
    assert(ch.len() == 3);
    assert(ch[0] == a);
    assert(ch[1] == b);
    assert(ch[2] == c);
    let o_a = a.rank.spec_ordinal();
    let o_b = b.rank.spec_ordinal();
    let o_c = c.rank.spec_ordinal();
    assert(Seq::<Card>::empty().push(a).push(b).push(c).drop_last() =~= Seq::<Card>::empty().push(a).push(b));
    assert(Seq::<Card>::empty().push(a).push(b).drop_last() =~= Seq::<Card>::empty().push(a));
    reveal_with_fuel(max_ordinal, 4);
    reveal_with_fuel(min_ordinal, 4);
    assert(distinct_ordinals(ch) == (o_a != o_b && o_a != o_c && o_b != o_c)) by {
        if o_a != o_b && o_a != o_c && o_b != o_c {
            assert forall|i: int, j: int|
                0 <= i < j < ch.len() implies ch[i].rank.spec_ordinal()
                    != ch[j].rank.spec_ordinal() by {
                assert(0 <= i <= 2 && 0 <= j <= 2);
            }
        }
    }
}

/// A chain of 4 cards is a run exactly when its ordinals qualify.
#[verifier::rlimit(100)]
proof fn lemma_is_run_4(a: Card, b: Card, c: Card, d: Card)
    ensures
        is_run(Seq::<Card>::empty().push(a).push(b).push(c).push(d)) == (run4i(a.rank.spec_ordinal(), b.rank.spec_ordinal(), c.rank.spec_ordinal(), d.rank.spec_ordinal()) == 1),
{
    let ch = Seq::<Card>::empty().push(a).push(b).push(c).push(d);
    assert(ch.len() == 4);
    assert(ch[0] == a);
    assert(ch[1] == b);
    assert(ch[2] == c);
    assert(ch[3] == d);
    let o_a = a.rank.spec_ordinal();
    let o_b = b.rank.spec_ordinal();
    let o_c = c.rank.spec_ordinal();
    let o_d = d.rank.spec_ordinal();
    assert(Seq::<Card>::empty().push(a).push(b).push(c).push(d).drop_last() =~= Seq::<Card>::empty().push(a).push(b).push(c));
    assert(Seq::<Card>::empty().push(a).push(b).push(c).drop_last() =~= Seq::<Card>::empty().push(a).push(b));
    assert(Seq::<Card>::empty().push(a).push(b).drop_last() =~= Seq::<Card>::empty().push(a));
    reveal_with_fuel(max_ordinal, 5);
    reveal_with_fuel(min_ordinal, 5);
    assert(distinct_ordinals(ch) == (o_a != o_b && o_a != o_c && o_a != o_d && o_b != o_c && o_b != o_d && o_c != o_d)) by {
        if o_a != o_b && o_a != o_c && o_a != o_d && o_b != o_c && o_b != o_d && o_c != o_d {
            assert forall|i: int, j: int|
                0 <= i < j < ch.len() implies ch[i].rank.spec_ordinal()
                    != ch[j].rank.spec_ordinal() by {
                assert(0 <= i <= 3 && 0 <= j <= 3);
            }
        }
    }
}

/// A chain of 5 cards is a run exactly when its ordinals qualify.
#[verifier::rlimit(100)]
proof fn lemma_is_run_5(a: Card, b: Card, c: Card, d: Card, e: Card)
    ensures
        is_run(Seq::<Card>::empty().push(a).push(b).push(c).push(d).push(e)) == (run5i(a.rank.spec_ordinal(), b.rank.spec_ordinal(), c.rank.spec_ordinal(), d.rank.spec_ordinal(), e.rank.spec_ordinal()) == 1),
{
    let ch = Seq::<Card>::empty().push(a).push(b).push(c).push(d).push(e);
    assert(ch.len() == 5);
    assert(ch[0] == a);
    assert(ch[1] == b);
    assert(ch[2] == c);
    assert(ch[3] == d);
    assert(ch[4] == e);
    let o_a = a.rank.spec_ordinal();
    let o_b = b.rank.spec_ordinal();
    let o_c = c.rank.spec_ordinal();
    let o_d = d.rank.spec_ordinal();
    let o_e = e.rank.spec_ordinal();
    assert(Seq::<Card>::empty().push(a).push(b).push(c).push(d).push(e).drop_last() =~= Seq::<Card>::empty().push(a).push(b).push(c).push(d));
    assert(Seq::<Card>::empty().push(a).push(b).push(c).push(d).drop_last() =~= Seq::<Card>::empty().push(a).push(b).push(c));
    assert(Seq::<Card>::empty().push(a).push(b).push(c).drop_last() =~= Seq::<Card>::empty().push(a).push(b));
    assert(Seq::<Card>::empty().push(a).push(b).drop_last() =~= Seq::<Card>::empty().push(a));
    reveal_with_fuel(max_ordinal, 6);
    reveal_with_fuel(min_ordinal, 6);
    assert(distinct_ordinals(ch) == (o_a != o_b && o_a != o_c && o_a != o_d && o_a != o_e && o_b != o_c && o_b != o_d && o_b != o_e && o_c != o_d && o_c != o_e && o_d != o_e)) by {
        if o_a != o_b && o_a != o_c && o_a != o_d && o_a != o_e && o_b != o_c && o_b != o_d && o_b != o_e && o_c != o_d && o_c != o_e && o_d != o_e {
            assert forall|i: int, j: int|
                0 <= i < j < ch.len() implies ch[i].rank.spec_ordinal()
                    != ch[j].rank.spec_ordinal() by {
                assert(0 <= i <= 4 && 0 <= j <= 4);
            }
        }
    }
}

/// Unrolls the recursive run-subset count over five cards into one
/// indicator per subset.
#[verifier::rlimit(100)]
proof fn lemma_bridge_runs_unroll(cs: Seq<Card>, kk: int)
    requires
        cs.len() == 5,
    ensures
        count_run_subsets(cs, kk) == (if kk == 0 && is_run(Seq::<Card>::empty()) { 1int } else { 0int }) + (if kk == 1 && is_run(Seq::<Card>::empty().push(cs[0])) { 1int } else { 0int }) + (if kk == 1 && is_run(Seq::<Card>::empty().push(cs[1])) { 1int } else { 0int }) + (if kk == 1 && is_run(Seq::<Card>::empty().push(cs[2])) { 1int } else { 0int }) + (if kk == 1 && is_run(Seq::<Card>::empty().push(cs[3])) { 1int } else { 0int }) + (if kk == 1 && is_run(Seq::<Card>::empty().push(cs[4])) { 1int } else { 0int }) + (if kk == 2 && is_run(Seq::<Card>::empty().push(cs[0]).push(cs[1])) { 1int } else { 0int }) + (if kk == 2 && is_run(Seq::<Card>::empty().push(cs[0]).push(cs[2])) { 1int } else { 0int }) + (if kk == 2 && is_run(Seq::<Card>::empty().push(cs[0]).push(cs[3])) { 1int } else { 0int }) + (if kk == 2 && is_run(Seq::<Card>::empty().push(cs[0]).push(cs[4])) { 1int } else { 0int }) + (if kk == 2 && is_run(Seq::<Card>::empty().push(cs[1]).push(cs[2])) { 1int } else { 0int }) + (if kk == 2 && is_run(Seq::<Card>::empty().push(cs[1]).push(cs[3])) { 1int } else { 0int }) + (if kk == 2 && is_run(Seq::<Card>::empty().push(cs[1]).push(cs[4])) { 1int } else { 0int }) + (if kk == 2 && is_run(Seq::<Card>::empty().push(cs[2]).push(cs[3])) { 1int } else { 0int }) + (if kk == 2 && is_run(Seq::<Card>::empty().push(cs[2]).push(cs[4])) { 1int } else { 0int }) + (if kk == 2 && is_run(Seq::<Card>::empty().push(cs[3]).push(cs[4])) { 1int } else { 0int }) + (if kk == 3 && is_run(Seq::<Card>::empty().push(cs[0]).push(cs[1]).push(cs[2])) { 1int } else { 0int }) + (if kk == 3 && is_run(Seq::<Card>::empty().push(cs[0]).push(cs[1]).push(cs[3])) { 1int } else { 0int }) + (if kk == 3 && is_run(Seq::<Card>::empty().push(cs[0]).push(cs[1]).push(cs[4])) { 1int } else { 0int }) + (if kk == 3 && is_run(Seq::<Card>::empty().push(cs[0]).push(cs[2]).push(cs[3])) { 1int } else { 0int }) + (if kk == 3 && is_run(Seq::<Card>::empty().push(cs[0]).push(cs[2]).push(cs[4])) { 1int } else { 0int }) + (if kk == 3 && is_run(Seq::<Card>::empty().push(cs[0]).push(cs[3]).push(cs[4])) { 1int } else { 0int }) + (if kk == 3 && is_run(Seq::<Card>::empty().push(cs[1]).push(cs[2]).push(cs[3])) { 1int } else { 0int }) + (if kk == 3 && is_run(Seq::<Card>::empty().push(cs[1]).push(cs[2]).push(cs[4])) { 1int } else { 0int }) + (if kk == 3 && is_run(Seq::<Card>::empty().push(cs[1]).push(cs[3]).push(cs[4])) { 1int } else { 0int }) + (if kk == 3 && is_run(Seq::<Card>::empty().push(cs[2]).push(cs[3]).push(cs[4])) { 1int } else { 0int }) + (if kk == 4 && is_run(Seq::<Card>::empty().push(cs[0]).push(cs[1]).push(cs[2]).push(cs[3])) { 1int } else { 0int }) + (if kk == 4 && is_run(Seq::<Card>::empty().push(cs[0]).push(cs[1]).push(cs[2]).push(cs[4])) { 1int } else { 0int }) + (if kk == 4 && is_run(Seq::<Card>::empty().push(cs[0]).push(cs[1]).push(cs[3]).push(cs[4])) { 1int } else { 0int }) + (if kk == 4 && is_run(Seq::<Card>::empty().push(cs[0]).push(cs[2]).push(cs[3]).push(cs[4])) { 1int } else { 0int }) + (if kk == 4 && is_run(Seq::<Card>::empty().push(cs[1]).push(cs[2]).push(cs[3]).push(cs[4])) { 1int } else { 0int }) + (if kk == 5 && is_run(Seq::<Card>::empty().push(cs[0]).push(cs[1]).push(cs[2]).push(cs[3]).push(cs[4])) { 1int } else { 0int }),
{
    let s0 = cs.subrange(0, 5);
    let s1 = cs.subrange(1, 5);
    let s2 = cs.subrange(2, 5);
    let s3 = cs.subrange(3, 5);
    let s4 = cs.subrange(4, 5);
    let s5 = cs.subrange(5, 5);
    assert(s0 =~= cs);
    assert(s0.drop_first() =~= s1);
    assert(s0.first() == cs[0]);
    assert(s1.drop_first() =~= s2);
    assert(s1.first() == cs[1]);
    assert(s2.drop_first() =~= s3);
    assert(s2.first() == cs[2]);
    assert(s3.drop_first() =~= s4);
    assert(s3.first() == cs[3]);
    assert(s4.drop_first() =~= s5);
    assert(s4.first() == cs[4]);
    assert(s5.len() == 0);
    assert forall|m: int| #[trigger] count_run_subsets_rec(s0, Seq::<Card>::empty(), m)
        == count_run_subsets_rec(s1, Seq::<Card>::empty(), m) + count_run_subsets_rec(
        s1,
        Seq::<Card>::empty().push(cs[0]),
        m - 1,
    ) by {}
    assert forall|m: int| #[trigger] count_run_subsets_rec(s1, Seq::<Card>::empty(), m)
        == count_run_subsets_rec(s2, Seq::<Card>::empty(), m) + count_run_subsets_rec(
        s2,
        Seq::<Card>::empty().push(cs[1]),
        m - 1,
    ) by {}
    assert forall|m: int| #[trigger] count_run_subsets_rec(s1, Seq::<Card>::empty().push(cs[0]), m)
        == count_run_subsets_rec(s2, Seq::<Card>::empty().push(cs[0]), m) + count_run_subsets_rec(
        s2,
        Seq::<Card>::empty().push(cs[0]).push(cs[1]),
        m - 1,
    ) by {}
    assert forall|m: int| #[trigger] count_run_subsets_rec(s2, Seq::<Card>::empty(), m)
        == count_run_subsets_rec(s3, Seq::<Card>::empty(), m) + count_run_subsets_rec(
        s3,
        Seq::<Card>::empty().push(cs[2]),
        m - 1,
    ) by {}
    assert forall|m: int| #[trigger] count_run_subsets_rec(s2, Seq::<Card>::empty().push(cs[0]), m)
        == count_run_subsets_rec(s3, Seq::<Card>::empty().push(cs[0]), m) + count_run_subsets_rec(
        s3,
        Seq::<Card>::empty().push(cs[0]).push(cs[2]),
        m - 1,
    ) by {}
    assert forall|m: int| #[trigger] count_run_subsets_rec(s2, Seq::<Card>::empty().push(cs[1]), m)
        == count_run_subsets_rec(s3, Seq::<Card>::empty().push(cs[1]), m) + count_run_subsets_rec(
        s3,
        Seq::<Card>::empty().push(cs[1]).push(cs[2]),
        m - 1,
    ) by {}
    assert forall|m: int| #[trigger] count_run_subsets_rec(s2, Seq::<Card>::empty().push(cs[0]).push(cs[1]), m)
        == count_run_subsets_rec(s3, Seq::<Card>::empty().push(cs[0]).push(cs[1]), m) + count_run_subsets_rec(
        s3,
        Seq::<Card>::empty().push(cs[0]).push(cs[1]).push(cs[2]),
        m - 1,
    ) by {}
    assert forall|m: int| #[trigger] count_run_subsets_rec(s3, Seq::<Card>::empty(), m)
        == count_run_subsets_rec(s4, Seq::<Card>::empty(), m) + count_run_subsets_rec(
        s4,
        Seq::<Card>::empty().push(cs[3]),
        m - 1,
    ) by {}
    assert forall|m: int| #[trigger] count_run_subsets_rec(s3, Seq::<Card>::empty().push(cs[0]), m)
        == count_run_subsets_rec(s4, Seq::<Card>::empty().push(cs[0]), m) + count_run_subsets_rec(
        s4,
        Seq::<Card>::empty().push(cs[0]).push(cs[3]),
        m - 1,
    ) by {}
    assert forall|m: int| #[trigger] count_run_subsets_rec(s3, Seq::<Card>::empty().push(cs[1]), m)
        == count_run_subsets_rec(s4, Seq::<Card>::empty().push(cs[1]), m) + count_run_subsets_rec(
        s4,
        Seq::<Card>::empty().push(cs[1]).push(cs[3]),
        m - 1,
    ) by {}
    assert forall|m: int| #[trigger] count_run_subsets_rec(s3, Seq::<Card>::empty().push(cs[2]), m)
        == count_run_subsets_rec(s4, Seq::<Card>::empty().push(cs[2]), m) + count_run_subsets_rec(
        s4,
        Seq::<Card>::empty().push(cs[2]).push(cs[3]),
        m - 1,
    ) by {}
    assert forall|m: int| #[trigger] count_run_subsets_rec(s3, Seq::<Card>::empty().push(cs[0]).push(cs[1]), m)
        == count_run_subsets_rec(s4, Seq::<Card>::empty().push(cs[0]).push(cs[1]), m) + count_run_subsets_rec(
        s4,
        Seq::<Card>::empty().push(cs[0]).push(cs[1]).push(cs[3]),
        m - 1,
    ) by {}
    assert forall|m: int| #[trigger] count_run_subsets_rec(s3, Seq::<Card>::empty().push(cs[0]).push(cs[2]), m)
        == count_run_subsets_rec(s4, Seq::<Card>::empty().push(cs[0]).push(cs[2]), m) + count_run_subsets_rec(
        s4,
        Seq::<Card>::empty().push(cs[0]).push(cs[2]).push(cs[3]),
        m - 1,
    ) by {}
    assert forall|m: int| #[trigger] count_run_subsets_rec(s3, Seq::<Card>::empty().push(cs[1]).push(cs[2]), m)
        == count_run_subsets_rec(s4, Seq::<Card>::empty().push(cs[1]).push(cs[2]), m) + count_run_subsets_rec(
        s4,
        Seq::<Card>::empty().push(cs[1]).push(cs[2]).push(cs[3]),
        m - 1,
    ) by {}
    assert forall|m: int| #[trigger] count_run_subsets_rec(s3, Seq::<Card>::empty().push(cs[0]).push(cs[1]).push(cs[2]), m)
        == count_run_subsets_rec(s4, Seq::<Card>::empty().push(cs[0]).push(cs[1]).push(cs[2]), m) + count_run_subsets_rec(
        s4,
        Seq::<Card>::empty().push(cs[0]).push(cs[1]).push(cs[2]).push(cs[3]),
        m - 1,
    ) by {}
    assert forall|m: int| #[trigger] count_run_subsets_rec(s4, Seq::<Card>::empty(), m)
        == count_run_subsets_rec(s5, Seq::<Card>::empty(), m) + count_run_subsets_rec(
        s5,
        Seq::<Card>::empty().push(cs[4]),
        m - 1,
    ) by {}
    assert forall|m: int| #[trigger] count_run_subsets_rec(s4, Seq::<Card>::empty().push(cs[0]), m)
        == count_run_subsets_rec(s5, Seq::<Card>::empty().push(cs[0]), m) + count_run_subsets_rec(
        s5,
        Seq::<Card>::empty().push(cs[0]).push(cs[4]),
        m - 1,
    ) by {}
    assert forall|m: int| #[trigger] count_run_subsets_rec(s4, Seq::<Card>::empty().push(cs[1]), m)
        == count_run_subsets_rec(s5, Seq::<Card>::empty().push(cs[1]), m) + count_run_subsets_rec(
        s5,
        Seq::<Card>::empty().push(cs[1]).push(cs[4]),
        m - 1,
    ) by {}
    assert forall|m: int| #[trigger] count_run_subsets_rec(s4, Seq::<Card>::empty().push(cs[2]), m)
        == count_run_subsets_rec(s5, Seq::<Card>::empty().push(cs[2]), m) + count_run_subsets_rec(
        s5,
        Seq::<Card>::empty().push(cs[2]).push(cs[4]),
        m - 1,
    ) by {}
    assert forall|m: int| #[trigger] count_run_subsets_rec(s4, Seq::<Card>::empty().push(cs[3]), m)
        == count_run_subsets_rec(s5, Seq::<Card>::empty().push(cs[3]), m) + count_run_subsets_rec(
        s5,
        Seq::<Card>::empty().push(cs[3]).push(cs[4]),
        m - 1,
    ) by {}
    assert forall|m: int| #[trigger] count_run_subsets_rec(s4, Seq::<Card>::empty().push(cs[0]).push(cs[1]), m)
        == count_run_subsets_rec(s5, Seq::<Card>::empty().push(cs[0]).push(cs[1]), m) + count_run_subsets_rec(
        s5,
        Seq::<Card>::empty().push(cs[0]).push(cs[1]).push(cs[4]),
        m - 1,
    ) by {}
    assert forall|m: int| #[trigger] count_run_subsets_rec(s4, Seq::<Card>::empty().push(cs[0]).push(cs[2]), m)
        == count_run_subsets_rec(s5, Seq::<Card>::empty().push(cs[0]).push(cs[2]), m) + count_run_subsets_rec(
        s5,
        Seq::<Card>::empty().push(cs[0]).push(cs[2]).push(cs[4]),
        m - 1,
    ) by {}
    assert forall|m: int| #[trigger] count_run_subsets_rec(s4, Seq::<Card>::empty().push(cs[0]).push(cs[3]), m)
        == count_run_subsets_rec(s5, Seq::<Card>::empty().push(cs[0]).push(cs[3]), m) + count_run_subsets_rec(
        s5,
        Seq::<Card>::empty().push(cs[0]).push(cs[3]).push(cs[4]),
        m - 1,
    ) by {}
    assert forall|m: int| #[trigger] count_run_subsets_rec(s4, Seq::<Card>::empty().push(cs[1]).push(cs[2]), m)
        == count_run_subsets_rec(s5, Seq::<Card>::empty().push(cs[1]).push(cs[2]), m) + count_run_subsets_rec(
        s5,
        Seq::<Card>::empty().push(cs[1]).push(cs[2]).push(cs[4]),
        m - 1,
    ) by {}
    assert forall|m: int| #[trigger] count_run_subsets_rec(s4, Seq::<Card>::empty().push(cs[1]).push(cs[3]), m)
        == count_run_subsets_rec(s5, Seq::<Card>::empty().push(cs[1]).push(cs[3]), m) + count_run_subsets_rec(
        s5,
        Seq::<Card>::empty().push(cs[1]).push(cs[3]).push(cs[4]),
        m - 1,
    ) by {}
    assert forall|m: int| #[trigger] count_run_subsets_rec(s4, Seq::<Card>::empty().push(cs[2]).push(cs[3]), m)
        == count_run_subsets_rec(s5, Seq::<Card>::empty().push(cs[2]).push(cs[3]), m) + count_run_subsets_rec(
        s5,
        Seq::<Card>::empty().push(cs[2]).push(cs[3]).push(cs[4]),
        m - 1,
    ) by {}
    assert forall|m: int| #[trigger] count_run_subsets_rec(s4, Seq::<Card>::empty().push(cs[0]).push(cs[1]).push(cs[2]), m)
        == count_run_subsets_rec(s5, Seq::<Card>::empty().push(cs[0]).push(cs[1]).push(cs[2]), m) + count_run_subsets_rec(
        s5,
        Seq::<Card>::empty().push(cs[0]).push(cs[1]).push(cs[2]).push(cs[4]),
        m - 1,
    ) by {}
    assert forall|m: int| #[trigger] count_run_subsets_rec(s4, Seq::<Card>::empty().push(cs[0]).push(cs[1]).push(cs[3]), m)
        == count_run_subsets_rec(s5, Seq::<Card>::empty().push(cs[0]).push(cs[1]).push(cs[3]), m) + count_run_subsets_rec(
        s5,
        Seq::<Card>::empty().push(cs[0]).push(cs[1]).push(cs[3]).push(cs[4]),
        m - 1,
    ) by {}
    assert forall|m: int| #[trigger] count_run_subsets_rec(s4, Seq::<Card>::empty().push(cs[0]).push(cs[2]).push(cs[3]), m)
        == count_run_subsets_rec(s5, Seq::<Card>::empty().push(cs[0]).push(cs[2]).push(cs[3]), m) + count_run_subsets_rec(
        s5,
        Seq::<Card>::empty().push(cs[0]).push(cs[2]).push(cs[3]).push(cs[4]),
        m - 1,
    ) by {}
    assert forall|m: int| #[trigger] count_run_subsets_rec(s4, Seq::<Card>::empty().push(cs[1]).push(cs[2]).push(cs[3]), m)
        == count_run_subsets_rec(s5, Seq::<Card>::empty().push(cs[1]).push(cs[2]).push(cs[3]), m) + count_run_subsets_rec(
        s5,
        Seq::<Card>::empty().push(cs[1]).push(cs[2]).push(cs[3]).push(cs[4]),
        m - 1,
    ) by {}
    assert forall|m: int| #[trigger] count_run_subsets_rec(s4, Seq::<Card>::empty().push(cs[0]).push(cs[1]).push(cs[2]).push(cs[3]), m)
        == count_run_subsets_rec(s5, Seq::<Card>::empty().push(cs[0]).push(cs[1]).push(cs[2]).push(cs[3]), m) + count_run_subsets_rec(
        s5,
        Seq::<Card>::empty().push(cs[0]).push(cs[1]).push(cs[2]).push(cs[3]).push(cs[4]),
        m - 1,
    ) by {}
    assert forall|m: int| #[trigger] count_run_subsets_rec(s5, Seq::<Card>::empty(), m) == (if m == 0
        && is_run(Seq::<Card>::empty()) {
        1int
    } else {
        0int
    }) by {}
    assert forall|m: int| #[trigger] count_run_subsets_rec(s5, Seq::<Card>::empty().push(cs[0]), m) == (if m == 0
        && is_run(Seq::<Card>::empty().push(cs[0])) {
        1int
    } else {
        0int
    }) by {}
    assert forall|m: int| #[trigger] count_run_subsets_rec(s5, Seq::<Card>::empty().push(cs[1]), m) == (if m == 0
        && is_run(Seq::<Card>::empty().push(cs[1])) {
        1int
    } else {
        0int
    }) by {}
    assert forall|m: int| #[trigger] count_run_subsets_rec(s5, Seq::<Card>::empty().push(cs[2]), m) == (if m == 0
        && is_run(Seq::<Card>::empty().push(cs[2])) {
        1int
    } else {
        0int
    }) by {}
    assert forall|m: int| #[trigger] count_run_subsets_rec(s5, Seq::<Card>::empty().push(cs[3]), m) == (if m == 0
        && is_run(Seq::<Card>::empty().push(cs[3])) {
        1int
    } else {
        0int
    }) by {}
    assert forall|m: int| #[trigger] count_run_subsets_rec(s5, Seq::<Card>::empty().push(cs[4]), m) == (if m == 0
        && is_run(Seq::<Card>::empty().push(cs[4])) {
        1int
    } else {
        0int
    }) by {}
    assert forall|m: int| #[trigger] count_run_subsets_rec(s5, Seq::<Card>::empty().push(cs[0]).push(cs[1]), m) == (if m == 0
        && is_run(Seq::<Card>::empty().push(cs[0]).push(cs[1])) {
        1int
    } else {
        0int
    }) by {}
    assert forall|m: int| #[trigger] count_run_subsets_rec(s5, Seq::<Card>::empty().push(cs[0]).push(cs[2]), m) == (if m == 0
        && is_run(Seq::<Card>::empty().push(cs[0]).push(cs[2])) {
        1int
    } else {
        0int
    }) by {}
    assert forall|m: int| #[trigger] count_run_subsets_rec(s5, Seq::<Card>::empty().push(cs[0]).push(cs[3]), m) == (if m == 0
        && is_run(Seq::<Card>::empty().push(cs[0]).push(cs[3])) {
        1int
    } else {
        0int
    }) by {}
    assert forall|m: int| #[trigger] count_run_subsets_rec(s5, Seq::<Card>::empty().push(cs[0]).push(cs[4]), m) == (if m == 0
        && is_run(Seq::<Card>::empty().push(cs[0]).push(cs[4])) {
        1int
    } else {
        0int
    }) by {}
    assert forall|m: int| #[trigger] count_run_subsets_rec(s5, Seq::<Card>::empty().push(cs[1]).push(cs[2]), m) == (if m == 0
        && is_run(Seq::<Card>::empty().push(cs[1]).push(cs[2])) {
        1int
    } else {
        0int
    }) by {}
    assert forall|m: int| #[trigger] count_run_subsets_rec(s5, Seq::<Card>::empty().push(cs[1]).push(cs[3]), m) == (if m == 0
        && is_run(Seq::<Card>::empty().push(cs[1]).push(cs[3])) {
        1int
    } else {
        0int
    }) by {}
    assert forall|m: int| #[trigger] count_run_subsets_rec(s5, Seq::<Card>::empty().push(cs[1]).push(cs[4]), m) == (if m == 0
        && is_run(Seq::<Card>::empty().push(cs[1]).push(cs[4])) {
        1int
    } else {
        0int
    }) by {}
    assert forall|m: int| #[trigger] count_run_subsets_rec(s5, Seq::<Card>::empty().push(cs[2]).push(cs[3]), m) == (if m == 0
        && is_run(Seq::<Card>::empty().push(cs[2]).push(cs[3])) {
        1int
    } else {
        0int
    }) by {}
    assert forall|m: int| #[trigger] count_run_subsets_rec(s5, Seq::<Card>::empty().push(cs[2]).push(cs[4]), m) == (if m == 0
        && is_run(Seq::<Card>::empty().push(cs[2]).push(cs[4])) {
        1int
    } else {
        0int
    }) by {}
    assert forall|m: int| #[trigger] count_run_subsets_rec(s5, Seq::<Card>::empty().push(cs[3]).push(cs[4]), m) == (if m == 0
        && is_run(Seq::<Card>::empty().push(cs[3]).push(cs[4])) {
        1int
    } else {
        0int
    }) by {}
    assert forall|m: int| #[trigger] count_run_subsets_rec(s5, Seq::<Card>::empty().push(cs[0]).push(cs[1]).push(cs[2]), m) == (if m == 0
        && is_run(Seq::<Card>::empty().push(cs[0]).push(cs[1]).push(cs[2])) {
        1int
    } else {
        0int
    }) by {}
    assert forall|m: int| #[trigger] count_run_subsets_rec(s5, Seq::<Card>::empty().push(cs[0]).push(cs[1]).push(cs[3]), m) == (if m == 0
        && is_run(Seq::<Card>::empty().push(cs[0]).push(cs[1]).push(cs[3])) {
        1int
    } else {
        0int
    }) by {}
    assert forall|m: int| #[trigger] count_run_subsets_rec(s5, Seq::<Card>::empty().push(cs[0]).push(cs[1]).push(cs[4]), m) == (if m == 0
        && is_run(Seq::<Card>::empty().push(cs[0]).push(cs[1]).push(cs[4])) {
        1int
    } else {
        0int
    }) by {}
    assert forall|m: int| #[trigger] count_run_subsets_rec(s5, Seq::<Card>::empty().push(cs[0]).push(cs[2]).push(cs[3]), m) == (if m == 0
        && is_run(Seq::<Card>::empty().push(cs[0]).push(cs[2]).push(cs[3])) {
        1int
    } else {
        0int
    }) by {}
    assert forall|m: int| #[trigger] count_run_subsets_rec(s5, Seq::<Card>::empty().push(cs[0]).push(cs[2]).push(cs[4]), m) == (if m == 0
        && is_run(Seq::<Card>::empty().push(cs[0]).push(cs[2]).push(cs[4])) {
        1int
    } else {
        0int
    }) by {}
    assert forall|m: int| #[trigger] count_run_subsets_rec(s5, Seq::<Card>::empty().push(cs[0]).push(cs[3]).push(cs[4]), m) == (if m == 0
        && is_run(Seq::<Card>::empty().push(cs[0]).push(cs[3]).push(cs[4])) {
        1int
    } else {
        0int
    }) by {}
    assert forall|m: int| #[trigger] count_run_subsets_rec(s5, Seq::<Card>::empty().push(cs[1]).push(cs[2]).push(cs[3]), m) == (if m == 0
        && is_run(Seq::<Card>::empty().push(cs[1]).push(cs[2]).push(cs[3])) {
        1int
    } else {
        0int
    }) by {}
    assert forall|m: int| #[trigger] count_run_subsets_rec(s5, Seq::<Card>::empty().push(cs[1]).push(cs[2]).push(cs[4]), m) == (if m == 0
        && is_run(Seq::<Card>::empty().push(cs[1]).push(cs[2]).push(cs[4])) {
        1int
    } else {
        0int
    }) by {}
    assert forall|m: int| #[trigger] count_run_subsets_rec(s5, Seq::<Card>::empty().push(cs[1]).push(cs[3]).push(cs[4]), m) == (if m == 0
        && is_run(Seq::<Card>::empty().push(cs[1]).push(cs[3]).push(cs[4])) {
        1int
    } else {
        0int
    }) by {}
    assert forall|m: int| #[trigger] count_run_subsets_rec(s5, Seq::<Card>::empty().push(cs[2]).push(cs[3]).push(cs[4]), m) == (if m == 0
        && is_run(Seq::<Card>::empty().push(cs[2]).push(cs[3]).push(cs[4])) {
        1int
    } else {
        0int
    }) by {}
    assert forall|m: int| #[trigger] count_run_subsets_rec(s5, Seq::<Card>::empty().push(cs[0]).push(cs[1]).push(cs[2]).push(cs[3]), m) == (if m == 0
        && is_run(Seq::<Card>::empty().push(cs[0]).push(cs[1]).push(cs[2]).push(cs[3])) {
        1int
    } else {
        0int
    }) by {}
    assert forall|m: int| #[trigger] count_run_subsets_rec(s5, Seq::<Card>::empty().push(cs[0]).push(cs[1]).push(cs[2]).push(cs[4]), m) == (if m == 0
        && is_run(Seq::<Card>::empty().push(cs[0]).push(cs[1]).push(cs[2]).push(cs[4])) {
        1int
    } else {
        0int
    }) by {}
    assert forall|m: int| #[trigger] count_run_subsets_rec(s5, Seq::<Card>::empty().push(cs[0]).push(cs[1]).push(cs[3]).push(cs[4]), m) == (if m == 0
        && is_run(Seq::<Card>::empty().push(cs[0]).push(cs[1]).push(cs[3]).push(cs[4])) {
        1int
    } else {
        0int
    }) by {}
    assert forall|m: int| #[trigger] count_run_subsets_rec(s5, Seq::<Card>::empty().push(cs[0]).push(cs[2]).push(cs[3]).push(cs[4]), m) == (if m == 0
        && is_run(Seq::<Card>::empty().push(cs[0]).push(cs[2]).push(cs[3]).push(cs[4])) {
        1int
    } else {
        0int
    }) by {}
    assert forall|m: int| #[trigger] count_run_subsets_rec(s5, Seq::<Card>::empty().push(cs[1]).push(cs[2]).push(cs[3]).push(cs[4]), m) == (if m == 0
        && is_run(Seq::<Card>::empty().push(cs[1]).push(cs[2]).push(cs[3]).push(cs[4])) {
        1int
    } else {
        0int
    }) by {}
    assert forall|m: int| #[trigger] count_run_subsets_rec(s5, Seq::<Card>::empty().push(cs[0]).push(cs[1]).push(cs[2]).push(cs[3]).push(cs[4]), m) == (if m == 0
        && is_run(Seq::<Card>::empty().push(cs[0]).push(cs[1]).push(cs[2]).push(cs[3]).push(cs[4])) {
        1int
    } else {
        0int
    }) by {}
}

/// The run-subset count at size 3 is the explicit indicator sum over the
/// ordinals.
#[verifier::rlimit(100)]
proof fn lemma_bridge_runs_3(cs: Seq<Card>)
    requires
        cs.len() == 5,
    ensures
        count_run_subsets(cs, 3) == run3_count(
            cs[0].rank.spec_ordinal(),
            cs[1].rank.spec_ordinal(),
            cs[2].rank.spec_ordinal(),
            cs[3].rank.spec_ordinal(),
            cs[4].rank.spec_ordinal(),
        ),
{
    reveal(run3_count);
    lemma_bridge_runs_unroll(cs, 3);
    lemma_is_run_3(cs[0], cs[1], cs[2]);
    lemma_is_run_3(cs[0], cs[1], cs[3]);
    lemma_is_run_3(cs[0], cs[1], cs[4]);
    lemma_is_run_3(cs[0], cs[2], cs[3]);
    lemma_is_run_3(cs[0], cs[2], cs[4]);
    lemma_is_run_3(cs[0], cs[3], cs[4]);
    lemma_is_run_3(cs[1], cs[2], cs[3]);
    lemma_is_run_3(cs[1], cs[2], cs[4]);
    lemma_is_run_3(cs[1], cs[3], cs[4]);
    lemma_is_run_3(cs[2], cs[3], cs[4]);
}

/// The run-subset count at size 4 is the explicit indicator sum over the
/// ordinals.
#[verifier::rlimit(100)]
proof fn lemma_bridge_runs_4(cs: Seq<Card>)
    requires
        cs.len() == 5,
    ensures
        count_run_subsets(cs, 4) == run4_count(
            cs[0].rank.spec_ordinal(),
            cs[1].rank.spec_ordinal(),
            cs[2].rank.spec_ordinal(),
            cs[3].rank.spec_ordinal(),
            cs[4].rank.spec_ordinal(),
        ),
{
    reveal(run4_count);
    lemma_bridge_runs_unroll(cs, 4);
    lemma_is_run_4(cs[0], cs[1], cs[2], cs[3]);
    lemma_is_run_4(cs[0], cs[1], cs[2], cs[4]);
    lemma_is_run_4(cs[0], cs[1], cs[3], cs[4]);
    lemma_is_run_4(cs[0], cs[2], cs[3], cs[4]);
    lemma_is_run_4(cs[1], cs[2], cs[3], cs[4]);
}

/// The run-subset count at size 5 is the explicit indicator sum over the
/// ordinals.
#[verifier::rlimit(100)]
proof fn lemma_bridge_runs_5(cs: Seq<Card>)
    requires
        cs.len() == 5,
    ensures
        count_run_subsets(cs, 5) == run5_count(
            cs[0].rank.spec_ordinal(),
            cs[1].rank.spec_ordinal(),
            cs[2].rank.spec_ordinal(),
            cs[3].rank.spec_ordinal(),
            cs[4].rank.spec_ordinal(),
        ),
{
    reveal(run5_count);
    lemma_bridge_runs_unroll(cs, 5);
    lemma_is_run_5(cs[0], cs[1], cs[2], cs[3], cs[4]);
}


// ---------------------------------------------------------------------------
// The bound itself.
// ---------------------------------------------------------------------------

/// Every rank ordinal lies between one and thirteen, and the value is ten
/// for the ten-or-higher ordinals and the ordinal itself below that.
proof fn lemma_rank_ranges(r: Rank)
    ensures
        1 <= r.spec_ordinal() <= 13,
        r.spec_value() == (if r.spec_ordinal() >= 10 { 10int } else { r.spec_ordinal() }),
{
}

/// Five pairwise distinct cards cannot all share one rank: there are only
/// four suits.
proof fn lemma_no_five_of_a_kind(five: Seq<Card>)
    requires
        five.len() == 5,
        forall|i: int, j: int| 0 <= i < j < 5 ==> five[i] != five[j],
    ensures
        !(five[0].rank.spec_ordinal() == five[1].rank.spec_ordinal()
            && five[1].rank.spec_ordinal() == five[2].rank.spec_ordinal()
            && five[2].rank.spec_ordinal() == five[3].rank.spec_ordinal()
            && five[3].rank.spec_ordinal() == five[4].rank.spec_ordinal()),
{
    if five[0].rank.spec_ordinal() == five[1].rank.spec_ordinal()
        && five[1].rank.spec_ordinal() == five[2].rank.spec_ordinal()
        && five[2].rank.spec_ordinal() == five[3].rank.spec_ordinal()
        && five[3].rank.spec_ordinal() == five[4].rank.spec_ordinal() {
        lemma_rank_ordinal_injective(five[0].rank, five[1].rank);
        lemma_rank_ordinal_injective(five[0].rank, five[2].rank);
        lemma_rank_ordinal_injective(five[0].rank, five[3].rank);
        lemma_rank_ordinal_injective(five[0].rank, five[4].rank);
        assert(five[0] != five[1]);
        assert(five[0] != five[2]);
        assert(five[0] != five[3]);
        assert(five[0] != five[4]);
        assert(five[1] != five[2]);
        assert(five[1] != five[3]);
        assert(five[1] != five[4]);
        assert(five[2] != five[3]);
        assert(five[2] != five[4]);
        assert(five[3] != five[4]);
        assert(false);
    }
}

/// Two held fives block a flush: they share the rank, so they cannot share
/// the suit.
proof fn lemma_two_held_fives_block_flush(cards: Seq<Card>, i: int, j: int)
    requires
        cards.len() == 4,
        0 <= i < j < 4,
        cards[i] != cards[j],
        cards[i].rank.spec_ordinal() == 5,
        cards[j].rank.spec_ordinal() == 5,
    ensures
        !all_same_suit(cards),
{
    lemma_rank_ordinal_injective(cards[i].rank, cards[j].rank);
    assert(cards[i].suit != cards[j].suit);
    assert(!(cards[i].suit == cards[0].suit && cards[j].suit == cards[0].suit));
}

/// A hand of five pairwise distinct cards never scores more than the
/// twenty-nine of the perfect hand: three fives and the Jack of the
/// starter's suit in hand, the fourth five as the starter. With a repeated
/// card the bound can fail, and such a five-card group is not dealt from
/// one deck.
#[verifier::rlimit(100)]
pub proof fn lemma_hand_score_at_most_29(cards: Seq<Card>, cut: Card, is_crib: bool)
    requires
        cards.len() == 4,
        cards[0] != cards[1],
        cards[0] != cards[2],
        cards[0] != cards[3],
        cards[1] != cards[2],
        cards[1] != cards[3],
        cards[2] != cards[3],
        cards[0] != cut,
        cards[1] != cut,
        cards[2] != cut,
        cards[3] != cut,
    ensures
        hand_score_spec(cards, cut, is_crib) <= 29,
{
    let five = cards.push(cut);
    assert(five.len() == 5);
    assert(five[0] == cards[0] && five[1] == cards[1] && five[2] == cards[2] && five[3]
        == cards[3] && five[4] == cut);
    let o0 = five[0].rank.spec_ordinal();
    let o1 = five[1].rank.spec_ordinal();
    let o2 = five[2].rank.spec_ordinal();
    let o3 = five[3].rank.spec_ordinal();
    let o4 = five[4].rank.spec_ordinal();
    let v0 = five[0].rank.spec_value();
    let v1 = five[1].rank.spec_value();
    let v2 = five[2].rank.spec_value();
    let v3 = five[3].rank.spec_value();
    let v4 = five[4].rank.spec_value();
    lemma_rank_ranges(five[0].rank);
    lemma_rank_ranges(five[1].rank);
    lemma_rank_ranges(five[2].rank);
    lemma_rank_ranges(five[3].rank);
    lemma_rank_ranges(five[4].rank);
    lemma_no_five_of_a_kind(five);
    lemma_bridge_fifteens(five);
    lemma_bridge_pairs(five);
    lemma_bridge_runs_3(five);
    lemma_bridge_runs_4(five);
    lemma_bridge_runs_5(five);
    lemma_i_pairs_runs3(o0, o1, o2, o3, o4);
    lemma_i_pairs_runs4(o0, o1, o2, o3, o4);
    lemma_i_pairs_runs5(o0, o1, o2, o3, o4);
    lemma_i_fifteens(v0, v1, v2, v3, v4);
    let f = fifteen_count(v0, v1, v2, v3, v4);
    if f >= 7 {
        lemma_i_fifteens_pattern(v0, v1, v2, v3, v4);
        lemma_i_pattern_no_runs(o0, o1, o2, o3, o4, v0, v1, v2, v3, v4);
        lemma_i_pattern_cap(o0, o1, o2, o3, o4, v0, v1, v2, v3, v4);
        // At least two held cards are fives, so no flush is possible.
        assert((v0 == 5 && v1 == 5) || (v0 == 5 && v2 == 5) || (v0 == 5 && v3 == 5) || (v1 == 5
            && v2 == 5) || (v1 == 5 && v3 == 5) || (v2 == 5 && v3 == 5));
        if v0 == 5 && v1 == 5 {
            lemma_two_held_fives_block_flush(cards, 0, 1);
        } else if v0 == 5 && v2 == 5 {
            lemma_two_held_fives_block_flush(cards, 0, 2);
        } else if v0 == 5 && v3 == 5 {
            lemma_two_held_fives_block_flush(cards, 0, 3);
        } else if v1 == 5 && v2 == 5 {
            lemma_two_held_fives_block_flush(cards, 1, 2);
        } else if v1 == 5 && v3 == 5 {
            lemma_two_held_fives_block_flush(cards, 1, 3);
        } else {
            lemma_two_held_fives_block_flush(cards, 2, 3);
        }
        assert(flush_points(cards, cut, is_crib) == 0);
    } else {
        if flush_points(cards, cut, is_crib) > 0 {
            // A flush needs the four held suits equal, so the held ranks
            // are pairwise distinct.
            assert(cards[1].suit == cards[0].suit && cards[2].suit == cards[0].suit
                && cards[3].suit == cards[0].suit);
            lemma_rank_ordinal_injective(cards[0].rank, cards[1].rank);
            lemma_rank_ordinal_injective(cards[0].rank, cards[2].rank);
            lemma_rank_ordinal_injective(cards[0].rank, cards[3].rank);
            lemma_rank_ordinal_injective(cards[1].rank, cards[2].rank);
            lemma_rank_ordinal_injective(cards[1].rank, cards[3].rank);
            lemma_rank_ordinal_injective(cards[2].rank, cards[3].rank);
            lemma_i_flush_runs5(o0, o1, o2, o3, o4);
            if run5_count(o0, o1, o2, o3, o4) == 0 {
                lemma_i_flush_runs4(o0, o1, o2, o3, o4);
                if run4_count(o0, o1, o2, o3, o4) == 0 {
                    lemma_i_flush_runs3(o0, o1, o2, o3, o4);
                }
            }
        }
    }
}

} // verus!

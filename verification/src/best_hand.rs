use vstd::prelude::*;
use vstd::multiset::Multiset;
use crate::deck::Card;
use crate::hand_eval::{
    Tier, classify_seq, tier_lt, tier_less, card_order, lemma_tier_lt_transitive,
    lemma_tier_lt_trichotomy,
};

verus! {

/// The order number of a card, small enough for a byte.
pub open spec fn card_score(c: Card) -> u8 {
    card_order(c) as u8
}

/// The score of each card of a hand, in hand order.
pub open spec fn card_scores(cs: Seq<Card>) -> Seq<u8> {
    Seq::new(cs.len(), |i: int| card_score(cs[i]))
}

/// Scores listed weakest first.
pub open spec fn sorted_scores_seq(s: Seq<u8>) -> bool {
    forall|i: int, j: int| 0 <= i < j < s.len() ==> s[i] <= s[j]
}

/// The card scores of a hand in ascending order: the one ascending listing
/// of the hand's scores.
pub open spec fn hand_key(cs: Seq<Card>) -> Seq<u8> {
    choose|t: Seq<u8>|
        #![trigger sorted_scores_seq(t)]
        sorted_scores_seq(t) && t.to_multiset() == card_scores(cs).to_multiset()
}

/// Ascending score lists of five cards, compared from the top card down.
pub open spec fn key_lt(x: Seq<u8>, y: Seq<u8>) -> bool {
    x[4] < y[4] || (x[4] == y[4] && (x[3] < y[3] || (x[3] == y[3] && (x[2] < y[2] || (x[2] == y[2]
        && (x[1] < y[1] || (x[1] == y[1] && x[0] < y[0])))))))
}

/// The total order the best-hand search keeps its running maximum under:
/// the tier decides, and on equal tiers the sorted card scores break the
/// tie from the top card down.
pub open spec fn hand_lt(a: Seq<Card>, b: Seq<Card>) -> bool {
    tier_lt(classify_seq(a), classify_seq(b)) || (classify_seq(a) == classify_seq(b) && key_lt(
        hand_key(a),
        hand_key(b),
    ))
}

/// Two ascending listings of the same scores are the same listing.
proof fn lemma_sorted_unique_u8(x: Seq<u8>, y: Seq<u8>)
    requires
        sorted_scores_seq(x),
        sorted_scores_seq(y),
        x.to_multiset() == y.to_multiset(),
    ensures
        x == y,
    decreases x.len(),
{
    broadcast use vstd::seq_lib::group_to_multiset_ensures;
    broadcast use vstd::multiset::group_multiset_axioms;

    vstd::seq_lib::to_multiset_len(x);
    vstd::seq_lib::to_multiset_len(y);
    if x.len() == 0 {
        assert(x =~= y);
    } else {
        assert(x.to_multiset().count(x[0]) > 0) by {
            assert(x.contains(x[0]));
        }
        assert(y.to_multiset().count(y[0]) > 0) by {
            assert(y.contains(y[0]));
        }
        assert(y.contains(x[0]));
        assert(x.contains(y[0]));
        let i = choose|i: int| 0 <= i < y.len() && y[i] == x[0];
        let j = choose|j: int| 0 <= j < x.len() && x[j] == y[0];
        assert(y[0] <= y[i]);
        assert(x[0] <= x[j]);
        assert(x[0] == y[0]);
        assert(x.drop_first().to_multiset() =~= x.to_multiset().remove(x[0])) by {
            assert(x.remove(0) =~= x.drop_first());
        }
        assert(y.drop_first().to_multiset() =~= y.to_multiset().remove(y[0])) by {
            assert(y.remove(0) =~= y.drop_first());
        }
        assert(sorted_scores_seq(x.drop_first()));
        assert(sorted_scores_seq(y.drop_first()));
        lemma_sorted_unique_u8(x.drop_first(), y.drop_first());
        assert forall|k: int| 0 <= k < x.len() implies x[k] == y[k] by {
            if k > 0 {
                assert(x[k] == x.drop_first()[k - 1]);
                assert(y[k] == y.drop_first()[k - 1]);
            }
        }
        assert(x =~= y);
    }
}

/// Puts `x` where it keeps the scores ascending.
fn insert_sorted(v: &mut Vec<u8>, x: u8)
    requires
        sorted_scores_seq(old(v)@),
    ensures
        sorted_scores_seq(final(v)@),
        final(v)@.to_multiset() == old(v)@.to_multiset().insert(x),
        final(v)@.len() == old(v)@.len() + 1,
{
    broadcast use vstd::seq_lib::to_multiset_insert;

    let mut j: usize = 0;
    while j < v.len() && v[j] <= x
        invariant
            j <= v@.len(),
            forall|k: int| 0 <= k < j ==> v@[k] <= x,
            v@ == old(v)@,
        decreases v@.len() - j,
    {
        j = j + 1;
    }
    v.insert(j, x);
    assert(sorted_scores_seq(v@)) by {
        assert(forall|k: int| j < k < v@.len() ==> v@[k] == old(v)@[k - 1]);
    }
}

/// The scores of five cards, listed ascending.
fn sorted_scores(cards: &[Card; 5]) -> (v: Vec<u8>)
    ensures
        v@ == hand_key(cards@),
        v@.len() == 5,
        sorted_scores_seq(v@),
{
    broadcast use vstd::seq_lib::group_to_multiset_ensures;
    broadcast use vstd::multiset::group_multiset_axioms;

    let ghost scores = card_scores(cards@);
    let mut v: Vec<u8> = Vec::new();
    proof {
        vstd::seq_lib::to_multiset_len(v@);
        vstd::multiset::lemma_multiset_empty_len(v@.to_multiset());
        assert(v@.to_multiset() =~= scores.take(0).to_multiset()) by {
            vstd::seq_lib::to_multiset_len(scores.take(0));
            vstd::multiset::lemma_multiset_empty_len(scores.take(0).to_multiset());
        }
    }
    let s0 = crate::hand_eval::card_order_x(&cards[0]);
    let s1 = crate::hand_eval::card_order_x(&cards[1]);
    let s2 = crate::hand_eval::card_order_x(&cards[2]);
    let s3 = crate::hand_eval::card_order_x(&cards[3]);
    let s4 = crate::hand_eval::card_order_x(&cards[4]);
    insert_sorted(&mut v, s0);
    proof {
        assert(scores.take(1) =~= scores.take(0).push(scores[0]));
        assert(v@.to_multiset() == scores.take(1).to_multiset());
    }
    insert_sorted(&mut v, s1);
    proof {
        assert(scores.take(2) =~= scores.take(1).push(scores[1]));
        assert(v@.to_multiset() == scores.take(2).to_multiset());
    }
    insert_sorted(&mut v, s2);
    proof {
        assert(scores.take(3) =~= scores.take(2).push(scores[2]));
        assert(v@.to_multiset() == scores.take(3).to_multiset());
    }
    insert_sorted(&mut v, s3);
    proof {
        assert(scores.take(4) =~= scores.take(3).push(scores[3]));
        assert(v@.to_multiset() == scores.take(4).to_multiset());
    }
    insert_sorted(&mut v, s4);
    proof {
        assert(scores.take(5) =~= scores.take(4).push(scores[4]));
        assert(scores.take(5) =~= scores);
        assert(v@.to_multiset() == scores.to_multiset());
        assert(sorted_scores_seq(v@) && v@.to_multiset() == card_scores(cards@).to_multiset());
        assert(exists|t: Seq<u8>|
            #![trigger sorted_scores_seq(t)]
            sorted_scores_seq(t) && t.to_multiset() == card_scores(cards@).to_multiset());
        lemma_sorted_unique_u8(v@, hand_key(cards@));
    }
    v
}

/// The search order chains: a hand beaten by a beaten hand is beaten.
proof fn lemma_hand_lt_transitive(a: Seq<Card>, b: Seq<Card>, c: Seq<Card>)
    requires
        hand_lt(a, b),
        hand_lt(b, c),
    ensures
        hand_lt(a, c),
{
    let ta = classify_seq(a);
    let tb = classify_seq(b);
    let tc = classify_seq(c);
    if tier_lt(ta, tb) && tier_lt(tb, tc) {
        lemma_tier_lt_transitive(ta, tb, tc);
    }
}

/// A hand never beats itself.
proof fn lemma_hand_lt_irreflexive(a: Seq<Card>)
    ensures
        !hand_lt(a, a),
{
    lemma_tier_lt_trichotomy(classify_seq(a), classify_seq(a));
}

/// The strongest five cards kept out of a pool, with the tier they earn.
#[derive(Debug, Clone, PartialEq, Eq)]
pub struct BestHand {
    pub tier: Tier,
    pub cards: [Card; 5],
}

/// Indices that pick five distinct cards of an `n`-card pool, listed
/// ascending.
pub open spec fn is_combo(i0: int, i1: int, i2: int, i3: int, i4: int, n: int) -> bool {
    0 <= i0 && i0 < i1 && i1 < i2 && i2 < i3 && i3 < i4 && i4 < n
}

/// The five cards such indices pick, in pool order.
pub open spec fn combo_cards(s: Seq<Card>, i0: int, i1: int, i2: int, i3: int, i4: int) -> Seq<
    Card,
> {
    seq![s[i0], s[i1], s[i2], s[i3], s[i4]]
}

/// Whether index tuple `j` comes before tuple `i` in the enumeration order.
pub open spec fn combo_before(
    j0: int,
    j1: int,
    j2: int,
    j3: int,
    j4: int,
    i0: int,
    i1: int,
    i2: int,
    i3: int,
    i4: int,
) -> bool {
    j0 < i0 || (j0 == i0 && (j1 < i1 || (j1 == i1 && (j2 < i2 || (j2 == i2 && (j3 < i3 || (j3 == i3
        && j4 < i4)))))))
}

/// The running maximum beats every combination enumerated before the
/// frontier tuple.
pub open spec fn covers(s: Seq<Card>, b: BestHand, i0: int, i1: int, i2: int, i3: int, i4: int) -> bool {
    forall|j0: int, j1: int, j2: int, j3: int, j4: int|
        is_combo(j0, j1, j2, j3, j4, s.len() as int) && combo_before(
            j0,
            j1,
            j2,
            j3,
            j4,
            i0,
            i1,
            i2,
            i3,
            i4,
        ) ==> !hand_lt(b.cards@, #[trigger] combo_cards(s, j0, j1, j2, j3, j4))
}

/// The running maximum is itself one of the pool's combinations, correctly
/// classified.
pub open spec fn is_candidate(s: Seq<Card>, b: BestHand) -> bool {
    &&& b.tier == classify_seq(b.cards@)
    &&& exists|i0: int, i1: int, i2: int, i3: int, i4: int|
        is_combo(i0, i1, i2, i3, i4, s.len() as int) && b.cards@ == #[trigger] combo_cards(
            s,
            i0,
            i1,
            i2,
            i3,
            i4,
        )
}

/// Picks the strongest five-card hand that a pool of hole and community
/// cards can form. Every five-card combination of the pool is classified;
/// the winner beats or ties every other combination under the order that
/// `hand_lt` writes down, and in particular no combination earns a higher
/// tier.
#[verifier::loop_isolation(false)]
#[verifier::rlimit(100)]
pub fn evaluate_best_hand(player_cards: &[Card], community_cards: &[Card]) -> (best: BestHand)
    requires
        player_cards@.len() + community_cards@.len() >= 5,
    ensures
        is_candidate(player_cards@ + community_cards@, best),
        forall|i0: int, i1: int, i2: int, i3: int, i4: int|
            is_combo(i0, i1, i2, i3, i4, (player_cards@ + community_cards@).len() as int)
                ==> !hand_lt(
                best.cards@,
                #[trigger] combo_cards(player_cards@ + community_cards@, i0, i1, i2, i3, i4),
            ),
        forall|i0: int, i1: int, i2: int, i3: int, i4: int|
            is_combo(i0, i1, i2, i3, i4, (player_cards@ + community_cards@).len() as int)
                ==> !tier_lt(
                best.tier,
                classify_seq(
                    #[trigger] combo_cards(player_cards@ + community_cards@, i0, i1, i2, i3, i4),
                ),
            ),
{
    let ghost pool = player_cards@ + community_cards@;
    let mut all: Vec<Card> = Vec::new();
    let mut pi: usize = 0;
    while pi < player_cards.len()
        invariant
            pi <= player_cards@.len(),
            all@ == player_cards@.take(pi as int),
        decreases player_cards@.len() - pi,
    {
        all.push(player_cards[pi]);
        pi = pi + 1;
    }
    let mut ci: usize = 0;
    while ci < community_cards.len()
        invariant
            ci <= community_cards@.len(),
            all@ == player_cards@ + community_cards@.take(ci as int),
        decreases community_cards@.len() - ci,
    {
        proof {
            assert(player_cards@.take(player_cards@.len() as int) =~= player_cards@);
            assert(player_cards@ + community_cards@.take(0) =~= player_cards@.take(
                player_cards@.len() as int,
            ));
        }
        all.push(community_cards[ci]);
        proof {
            assert(player_cards@ + community_cards@.take(ci + 1) =~= (player_cards@
                + community_cards@.take(ci as int)).push(community_cards@[ci as int]));
        }
        ci = ci + 1;
    }
    proof {
        assert(community_cards@.take(community_cards@.len() as int) =~= community_cards@);
        assert(player_cards@ + community_cards@.take(0) =~= player_cards@.take(
            player_cards@.len() as int,
        ));
        assert(all@ =~= pool);
    }
    let n = all.len();

    let seed: [Card; 5] = [all[0], all[1], all[2], all[3], all[4]];
    proof {
        assert(seed@ =~= combo_cards(pool, 0, 1, 2, 3, 4));
    }
    let seed_tier = Tier::evaluate_hand(seed);
    let mut best = BestHand { tier: seed_tier, cards: seed };
    let mut best_key = sorted_scores(&best.cards);
    proof {
        assert(is_combo(0, 1, 2, 3, 4, pool.len() as int));
        assert(is_candidate(pool, best));
    }

    let mut i0: usize = 0;
    while i0 < n - 4
        invariant
            i0 <= n - 4,
            is_candidate(pool, best),
            best_key@ == hand_key(best.cards@),
            best_key@.len() == 5,
            covers(pool, best, i0 as int, i0 + 1, i0 + 2, i0 + 3, i0 + 4),
        decreases n - i0,
    {
        let mut i1: usize = i0 + 1;
        while i1 < n - 3
            invariant
                i0 + 1 <= i1 <= n - 3,
                is_candidate(pool, best),
                best_key@ == hand_key(best.cards@),
            best_key@.len() == 5,
                covers(pool, best, i0 as int, i1 as int, i1 + 1, i1 + 2, i1 + 3),
            decreases n - i1,
        {
            let mut i2: usize = i1 + 1;
            while i2 < n - 2
                invariant
                    i1 + 1 <= i2 <= n - 2,
                    is_candidate(pool, best),
                    best_key@ == hand_key(best.cards@),
            best_key@.len() == 5,
                    covers(pool, best, i0 as int, i1 as int, i2 as int, i2 + 1, i2 + 2),
                decreases n - i2,
            {
                let mut i3: usize = i2 + 1;
                while i3 < n - 1
                    invariant
                        i2 + 1 <= i3 <= n - 1,
                        is_candidate(pool, best),
                        best_key@ == hand_key(best.cards@),
            best_key@.len() == 5,
                        covers(pool, best, i0 as int, i1 as int, i2 as int, i3 as int, i3 + 1),
                    decreases n - i3,
                {
                    let mut i4: usize = i3 + 1;
                    while i4 < n
                        invariant
                            i3 + 1 <= i4 <= n,
                            is_candidate(pool, best),
                            best_key@ == hand_key(best.cards@),
            best_key@.len() == 5,
                            covers(pool, best, i0 as int, i1 as int, i2 as int, i3 as int, i4 as int),
                        decreases n - i4,
                    {
                        let hand: [Card; 5] = [all[i0], all[i1], all[i2], all[i3], all[i4]];
                        proof {
                            assert(hand@ =~= combo_cards(pool, i0 as int, i1 as int, i2 as int, i3 as int, i4 as int));
                        }
                        let tier = Tier::evaluate_hand(hand);
                        let key = sorted_scores(&hand);
                        let stronger = tier_less(&best.tier, &tier) || (best.tier == tier
                            && key_less(&best_key, &key));
                        proof {
                            assert(stronger == hand_lt(best.cards@, hand@));
                        }
                        if stronger {
                            proof {
                                assert forall|j0: int, j1: int, j2: int, j3: int, j4: int|
                                    is_combo(j0, j1, j2, j3, j4, pool.len() as int) && combo_before(
                                        j0,
                                        j1,
                                        j2,
                                        j3,
                                        j4,
                                        i0 as int,
                                        i1 as int,
                                        i2 as int,
                                        i3 as int,
                                        i4 as int,
                                    ) implies !hand_lt(
                                    hand@,
                                    #[trigger] combo_cards(pool, j0, j1, j2, j3, j4),
                                ) by {
                                    if hand_lt(hand@, combo_cards(pool, j0, j1, j2, j3, j4)) {
                                        lemma_hand_lt_transitive(
                                            best.cards@,
                                            hand@,
                                            combo_cards(pool, j0, j1, j2, j3, j4),
                                        );
                                    }
                                }
                            }
                            best = BestHand { tier, cards: hand };
                            best_key = key;
                        }
                        proof {
                            lemma_hand_lt_irreflexive(best.cards@);
                            assert(covers(
                                pool,
                                best,
                                i0 as int,
                                i1 as int,
                                i2 as int,
                                i3 as int,
                                i4 as int + 1,
                            )) by {
                                assert(!hand_lt(
                                    best.cards@,
                                    combo_cards(pool, i0 as int, i1 as int, i2 as int, i3 as int, i4 as int),
                                ));
                            }
                        }
                        i4 = i4 + 1;
                    }
                    i3 = i3 + 1;
                }
                i2 = i2 + 1;
            }
            i1 = i1 + 1;
        }
        i0 = i0 + 1;
    }
    proof {
        assert forall|j0: int, j1: int, j2: int, j3: int, j4: int|
            is_combo(j0, j1, j2, j3, j4, pool.len() as int) implies !hand_lt(
            best.cards@,
            #[trigger] combo_cards(pool, j0, j1, j2, j3, j4),
        ) by {
            assert(combo_before(
                j0,
                j1,
                j2,
                j3,
                j4,
                i0 as int,
                i0 + 1,
                i0 + 2,
                i0 + 3,
                i0 + 4,
            ));
        }
    }
    best
}

/// Whether ascending score list `a` comes before `b`, read from the top.
fn key_less(a: &Vec<u8>, b: &Vec<u8>) -> (r: bool)
    requires
        a@.len() == 5,
        b@.len() == 5,
    ensures
        r == key_lt(a@, b@),
{
    if a[4] != b[4] {
        return a[4] < b[4];
    }
    if a[3] != b[3] {
        return a[3] < b[3];
    }
    if a[2] != b[2] {
        return a[2] < b[2];
    }
    if a[1] != b[1] {
        return a[1] < b[1];
    }
    a[0] < b[0]
}

impl BestHand {
    /// Whether this hand strictly beats `other` under the search's total
    /// order: tier first, then sorted card scores from the top card down.
    /// Both hands are classified afresh from their cards.
    pub fn beats(&self, other: &BestHand) -> (r: bool)
        ensures
            r == hand_lt(other.cards@, self.cards@),
    {
        let my_tier = Tier::evaluate_hand(self.cards);
        let other_tier = Tier::evaluate_hand(other.cards);
        if tier_less(&other_tier, &my_tier) {
            return true;
        }
        if my_tier == other_tier {
            let my_key = sorted_scores(&self.cards);
            let other_key = sorted_scores(&other.cards);
            return key_less(&other_key, &my_key);
        }
        false
    }
}

} // verus!

use vstd::prelude::*;
use vstd::multiset::Multiset;
use crate::deck::{Card, Rank, Suit, rank_strength, rank_value, suit_order, suit_value};

verus! {

/// The category a five-card hand falls in, together with the payload that
/// breaks ties inside the category. Rank payloads of straights are listed
/// ascending; the wheel straight is listed Ace first to say that its top
/// card is the Five. Card payloads of straight and royal flushes are listed
/// ascending by rank.
#[derive(PartialEq, Eq, Debug, Clone, Copy, Structural)]
pub enum Tier {
    HighCard(Rank),
    OnePair(Rank),
    TwoPair(Rank, Rank),
    ThreeOfAKind(Rank),
    Straight(Rank, Rank, Rank, Rank, Rank),
    Flush(Suit),
    FullHouse(Rank, Rank),
    FourOfAKind(Rank),
    StraightFlush(Card, Card, Card, Card, Card),
    RoyalFlush(Card, Card, Card, Card, Card),
}

pub open spec fn card_of(r: Rank, s: Suit) -> Card {
    Card { value: r, suit: s }
}

/// How many cards of rank `r` a hand holds, whatever their suits.
#[verifier::opaque]
pub open spec fn rank_count(m: Multiset<Card>, r: Rank) -> int {
    (m.count(card_of(r, Suit::Hearts)) + m.count(card_of(r, Suit::Diamonds)) + m.count(
        card_of(r, Suit::Clubs),
    ) + m.count(card_of(r, Suit::Spades))) as int
}

/// How many cards of suit `s` a hand holds, whatever their ranks.
#[verifier::opaque]
pub open spec fn suit_count(m: Multiset<Card>, s: Suit) -> int {
    (m.count(card_of(Rank::Two, s)) + m.count(card_of(Rank::Three, s)) + m.count(
        card_of(Rank::Four, s),
    ) + m.count(card_of(Rank::Five, s)) + m.count(card_of(Rank::Six, s)) + m.count(
        card_of(Rank::Seven, s),
    ) + m.count(card_of(Rank::Eight, s)) + m.count(card_of(Rank::Nine, s)) + m.count(
        card_of(Rank::Ten, s),
    ) + m.count(card_of(Rank::Jack, s)) + m.count(card_of(Rank::Queen, s)) + m.count(
        card_of(Rank::King, s),
    ) + m.count(card_of(Rank::Ace, s))) as int
}

/// How many distinct ranks occur exactly `k` times in the hand.
pub open spec fn num_ranks_with(m: Multiset<Card>, k: int) -> int {
    rank_flag(m, Rank::Two, k) + rank_flag(m, Rank::Three, k) + rank_flag(m, Rank::Four, k)
        + rank_flag(m, Rank::Five, k) + rank_flag(m, Rank::Six, k) + rank_flag(m, Rank::Seven, k)
        + rank_flag(m, Rank::Eight, k) + rank_flag(m, Rank::Nine, k) + rank_flag(m, Rank::Ten, k)
        + rank_flag(m, Rank::Jack, k) + rank_flag(m, Rank::Queen, k) + rank_flag(m, Rank::King, k)
        + rank_flag(m, Rank::Ace, k)
}

/// 1 when rank `r` occurs exactly `k` times in the hand, else 0.
pub open spec fn rank_flag(m: Multiset<Card>, r: Rank, k: int) -> int {
    if rank_count(m, r) == k {
        1
    } else {
        0
    }
}

/// 1 when rank `r` occurs at all in the hand, else 0.
pub open spec fn present_flag(m: Multiset<Card>, r: Rank) -> int {
    if rank_count(m, r) >= 1 {
        1
    } else {
        0
    }
}

/// Whether some rank occurs exactly `k` times in the hand.
pub open spec fn has_rank_with(m: Multiset<Card>, k: int) -> bool {
    rank_count(m, Rank::Two) == k || rank_count(m, Rank::Three) == k || rank_count(m, Rank::Four)
        == k || rank_count(m, Rank::Five) == k || rank_count(m, Rank::Six) == k || rank_count(
        m,
        Rank::Seven,
    ) == k || rank_count(m, Rank::Eight) == k || rank_count(m, Rank::Nine) == k || rank_count(
        m,
        Rank::Ten,
    ) == k || rank_count(m, Rank::Jack) == k || rank_count(m, Rank::Queen) == k || rank_count(
        m,
        Rank::King,
    ) == k || rank_count(m, Rank::Ace) == k
}

/// The weakest rank that occurs exactly `k` times (Ace when none does).
pub open spec fn first_rank_with(m: Multiset<Card>, k: int) -> Rank {
    if rank_count(m, Rank::Two) == k {
        Rank::Two
    } else if rank_count(m, Rank::Three) == k {
        Rank::Three
    } else if rank_count(m, Rank::Four) == k {
        Rank::Four
    } else if rank_count(m, Rank::Five) == k {
        Rank::Five
    } else if rank_count(m, Rank::Six) == k {
        Rank::Six
    } else if rank_count(m, Rank::Seven) == k {
        Rank::Seven
    } else if rank_count(m, Rank::Eight) == k {
        Rank::Eight
    } else if rank_count(m, Rank::Nine) == k {
        Rank::Nine
    } else if rank_count(m, Rank::Ten) == k {
        Rank::Ten
    } else if rank_count(m, Rank::Jack) == k {
        Rank::Jack
    } else if rank_count(m, Rank::Queen) == k {
        Rank::Queen
    } else if rank_count(m, Rank::King) == k {
        Rank::King
    } else {
        Rank::Ace
    }
}

/// The strongest rank that occurs exactly `k` times (Two when none does).
pub open spec fn last_rank_with(m: Multiset<Card>, k: int) -> Rank {
    if rank_count(m, Rank::Ace) == k {
        Rank::Ace
    } else if rank_count(m, Rank::King) == k {
        Rank::King
    } else if rank_count(m, Rank::Queen) == k {
        Rank::Queen
    } else if rank_count(m, Rank::Jack) == k {
        Rank::Jack
    } else if rank_count(m, Rank::Ten) == k {
        Rank::Ten
    } else if rank_count(m, Rank::Nine) == k {
        Rank::Nine
    } else if rank_count(m, Rank::Eight) == k {
        Rank::Eight
    } else if rank_count(m, Rank::Seven) == k {
        Rank::Seven
    } else if rank_count(m, Rank::Six) == k {
        Rank::Six
    } else if rank_count(m, Rank::Five) == k {
        Rank::Five
    } else if rank_count(m, Rank::Four) == k {
        Rank::Four
    } else if rank_count(m, Rank::Three) == k {
        Rank::Three
    } else {
        Rank::Two
    }
}

/// How many distinct ranks the hand holds.
pub open spec fn ranks_present(m: Multiset<Card>) -> int {
    present_flag(m, Rank::Two) + present_flag(m, Rank::Three) + present_flag(m, Rank::Four)
        + present_flag(m, Rank::Five) + present_flag(m, Rank::Six) + present_flag(m, Rank::Seven)
        + present_flag(m, Rank::Eight) + present_flag(m, Rank::Nine) + present_flag(m, Rank::Ten)
        + present_flag(m, Rank::Jack) + present_flag(m, Rank::Queen) + present_flag(m, Rank::King)
        + present_flag(m, Rank::Ace)
}

/// How many distinct suits the hand holds.
pub open spec fn suits_present(m: Multiset<Card>) -> int {
    (if suit_count(m, Suit::Hearts) >= 1 { 1int } else { 0 }) + (if suit_count(m, Suit::Diamonds)
        >= 1 { 1int } else { 0 }) + (if suit_count(m, Suit::Clubs) >= 1 { 1int } else { 0 }) + (if
    suit_count(m, Suit::Spades) >= 1 { 1int } else { 0 })
}

/// The suit of a one-suited hand (the first present suit otherwise).
pub open spec fn flush_suit(m: Multiset<Card>) -> Suit {
    if suit_count(m, Suit::Hearts) >= 1 {
        Suit::Hearts
    } else if suit_count(m, Suit::Diamonds) >= 1 {
        Suit::Diamonds
    } else if suit_count(m, Suit::Clubs) >= 1 {
        Suit::Clubs
    } else {
        Suit::Spades
    }
}

/// The weakest rank present in the hand (Ace for an empty hand).
pub open spec fn min_rank(m: Multiset<Card>) -> Rank {
    if rank_count(m, Rank::Two) >= 1 {
        Rank::Two
    } else if rank_count(m, Rank::Three) >= 1 {
        Rank::Three
    } else if rank_count(m, Rank::Four) >= 1 {
        Rank::Four
    } else if rank_count(m, Rank::Five) >= 1 {
        Rank::Five
    } else if rank_count(m, Rank::Six) >= 1 {
        Rank::Six
    } else if rank_count(m, Rank::Seven) >= 1 {
        Rank::Seven
    } else if rank_count(m, Rank::Eight) >= 1 {
        Rank::Eight
    } else if rank_count(m, Rank::Nine) >= 1 {
        Rank::Nine
    } else if rank_count(m, Rank::Ten) >= 1 {
        Rank::Ten
    } else if rank_count(m, Rank::Jack) >= 1 {
        Rank::Jack
    } else if rank_count(m, Rank::Queen) >= 1 {
        Rank::Queen
    } else if rank_count(m, Rank::King) >= 1 {
        Rank::King
    } else {
        Rank::Ace
    }
}

/// The strongest rank present in the hand (Two for an empty hand).
pub open spec fn max_rank(m: Multiset<Card>) -> Rank {
    if rank_count(m, Rank::Ace) >= 1 {
        Rank::Ace
    } else if rank_count(m, Rank::King) >= 1 {
        Rank::King
    } else if rank_count(m, Rank::Queen) >= 1 {
        Rank::Queen
    } else if rank_count(m, Rank::Jack) >= 1 {
        Rank::Jack
    } else if rank_count(m, Rank::Ten) >= 1 {
        Rank::Ten
    } else if rank_count(m, Rank::Nine) >= 1 {
        Rank::Nine
    } else if rank_count(m, Rank::Eight) >= 1 {
        Rank::Eight
    } else if rank_count(m, Rank::Seven) >= 1 {
        Rank::Seven
    } else if rank_count(m, Rank::Six) >= 1 {
        Rank::Six
    } else if rank_count(m, Rank::Five) >= 1 {
        Rank::Five
    } else if rank_count(m, Rank::Four) >= 1 {
        Rank::Four
    } else if rank_count(m, Rank::Three) >= 1 {
        Rank::Three
    } else {
        Rank::Two
    }
}

/// Whether the distinct ranks of the hand are exactly the wheel set
/// Two, Three, Four, Five, Ace.
pub open spec fn is_wheel(m: Multiset<Card>) -> bool {
    rank_count(m, Rank::Two) == 1 && rank_count(m, Rank::Three) == 1 && rank_count(m, Rank::Four)
        == 1 && rank_count(m, Rank::Five) == 1 && rank_count(m, Rank::Ace) == 1
}

/// Whether the distinct ranks of the hand are exactly Ten through Ace.
pub open spec fn is_broadway(m: Multiset<Card>) -> bool {
    rank_count(m, Rank::Ten) == 1 && rank_count(m, Rank::Jack) == 1 && rank_count(m, Rank::Queen)
        == 1 && rank_count(m, Rank::King) == 1 && rank_count(m, Rank::Ace) == 1
}

/// The rank whose numeric strength is `v` (Ace for anything out of range).
pub open spec fn rank_of_strength(v: int) -> Rank {
    if v == 2 {
        Rank::Two
    } else if v == 3 {
        Rank::Three
    } else if v == 4 {
        Rank::Four
    } else if v == 5 {
        Rank::Five
    } else if v == 6 {
        Rank::Six
    } else if v == 7 {
        Rank::Seven
    } else if v == 8 {
        Rank::Eight
    } else if v == 9 {
        Rank::Nine
    } else if v == 10 {
        Rank::Ten
    } else if v == 11 {
        Rank::Jack
    } else if v == 12 {
        Rank::Queen
    } else if v == 13 {
        Rank::King
    } else {
        Rank::Ace
    }
}

/// The category and payload that a hand of cards earns, as a function of the
/// multiset of its cards alone. The checks run in a fixed cascade: pair
/// patterns first, then the one-suited straight shapes, then plain straights,
/// then flushes, and a bare high card last; a later check may assume every
/// earlier one failed.
#[verifier::opaque]
pub open spec fn classify(m: Multiset<Card>) -> Tier {
    let fs = flush_suit(m);
    let lo = rank_strength(min_rank(m));
    if num_pairs(m) == 1 && has_rank_with(m, 3) {
        Tier::FullHouse(first_rank_with(m, 3), first_rank_with(m, 2))
    } else if num_pairs(m) == 1 {
        Tier::OnePair(first_rank_with(m, 2))
    } else if num_pairs(m) == 2 {
        Tier::TwoPair(first_rank_with(m, 2), last_rank_with(m, 2))
    } else if has_rank_with(m, 3) {
        Tier::ThreeOfAKind(first_rank_with(m, 3))
    } else if has_rank_with(m, 4) {
        Tier::FourOfAKind(first_rank_with(m, 4))
    } else if ranks_present(m) == 5 && suits_present(m) == 1 && is_wheel(m) {
        Tier::StraightFlush(
            card_of(Rank::Two, fs),
            card_of(Rank::Three, fs),
            card_of(Rank::Four, fs),
            card_of(Rank::Five, fs),
            card_of(Rank::Ace, fs),
        )
    } else if ranks_present(m) == 5 && suits_present(m) == 1 && is_broadway(m) {
        Tier::RoyalFlush(
            card_of(Rank::Ten, fs),
            card_of(Rank::Jack, fs),
            card_of(Rank::Queen, fs),
            card_of(Rank::King, fs),
            card_of(Rank::Ace, fs),
        )
    } else if ranks_present(m) == 5 && suits_present(m) == 1 && rank_strength(max_rank(m)) - lo
        == 4 {
        Tier::StraightFlush(
            card_of(rank_of_strength(lo), fs),
            card_of(rank_of_strength(lo + 1), fs),
            card_of(rank_of_strength(lo + 2), fs),
            card_of(rank_of_strength(lo + 3), fs),
            card_of(rank_of_strength(lo + 4), fs),
        )
    } else if ranks_present(m) == 5 && is_wheel(m) {
        Tier::Straight(Rank::Ace, Rank::Two, Rank::Three, Rank::Four, Rank::Five)
    } else if ranks_present(m) == 5 && rank_strength(max_rank(m)) - lo == 4 {
        Tier::Straight(
            rank_of_strength(lo),
            rank_of_strength(lo + 1),
            rank_of_strength(lo + 2),
            rank_of_strength(lo + 3),
            rank_of_strength(lo + 4),
        )
    } else if suits_present(m) == 1 {
        Tier::Flush(fs)
    } else {
        Tier::HighCard(max_rank(m))
    }
}

/// How many distinct ranks form a pair (occur exactly twice).
pub open spec fn num_pairs(m: Multiset<Card>) -> int {
    num_ranks_with(m, 2)
}

/// The category that `evaluate_hand` gives a sequence of five cards; it
/// depends on the multiset of the cards alone.
pub open spec fn classify_seq(s: Seq<Card>) -> Tier {
    classify(s.to_multiset())
}

/// Two orderings of the same five cards always earn the same category:
/// the classification reads nothing but the multiset of the cards.
pub proof fn lemma_classify_order_independent(s1: Seq<Card>, s2: Seq<Card>)
    requires
        s1.to_multiset() == s2.to_multiset(),
    ensures
        classify_seq(s1) == classify_seq(s2),
{
}

spec fn eq_ind<A>(x: A, v: A) -> int {
    if x == v {
        1
    } else {
        0
    }
}

spec fn rank_ind(c: Card, r: Rank) -> int {
    if c.value == r {
        1
    } else {
        0
    }
}

spec fn suit_ind(c: Card, s: Suit) -> int {
    if c.suit == s {
        1
    } else {
        0
    }
}

/// The multiset of a five-element sequence counts a value once for each
/// position that holds it.
proof fn lemma_to_multiset5_count<A>(s: Seq<A>)
    requires
        s.len() == 5,
    ensures
        forall|v: A|
            #[trigger] s.to_multiset().count(v) == eq_ind(s[0], v) + eq_ind(s[1], v) + eq_ind(
                s[2],
                v,
            ) + eq_ind(s[3], v) + eq_ind(s[4], v),
{
    broadcast use vstd::seq_lib::group_to_multiset_ensures;
    broadcast use vstd::multiset::group_multiset_axioms;

    let e = Seq::<A>::empty();
    let s1 = e.push(s[0]);
    let s2 = s1.push(s[1]);
    let s3 = s2.push(s[2]);
    let s4 = s3.push(s[3]);
    let s5 = s4.push(s[4]);
    assert(s =~= s5);
    vstd::seq_lib::to_multiset_len(e);
    vstd::multiset::lemma_multiset_empty_len(e.to_multiset());
    assert(e.to_multiset() =~= Multiset::<A>::empty());
    assert(s5.to_multiset() =~= e.to_multiset().insert(s[0]).insert(s[1]).insert(s[2]).insert(
        s[3],
    ).insert(s[4]));
}

/// One card contributes to the count of exactly one (rank, suit) cell.
proof fn lemma_card_rank_ind(c: Card, r: Rank)
    ensures
        eq_ind(c, card_of(r, Suit::Hearts)) + eq_ind(c, card_of(r, Suit::Diamonds)) + eq_ind(
            c,
            card_of(r, Suit::Clubs),
        ) + eq_ind(c, card_of(r, Suit::Spades)) == rank_ind(c, r),
{
}

proof fn lemma_card_suit_ind(c: Card, s: Suit)
    ensures
        eq_ind(c, card_of(Rank::Two, s)) + eq_ind(c, card_of(Rank::Three, s)) + eq_ind(
            c,
            card_of(Rank::Four, s),
        ) + eq_ind(c, card_of(Rank::Five, s)) + eq_ind(c, card_of(Rank::Six, s)) + eq_ind(
            c,
            card_of(Rank::Seven, s),
        ) + eq_ind(c, card_of(Rank::Eight, s)) + eq_ind(c, card_of(Rank::Nine, s)) + eq_ind(
            c,
            card_of(Rank::Ten, s),
        ) + eq_ind(c, card_of(Rank::Jack, s)) + eq_ind(c, card_of(Rank::Queen, s)) + eq_ind(
            c,
            card_of(Rank::King, s),
        ) + eq_ind(c, card_of(Rank::Ace, s)) == suit_ind(c, s),
{
}

/// Rank counts of a five-card hand, position by position.
#[verifier::rlimit(100)]
proof fn lemma_hand_rank_counts(s: Seq<Card>)
    requires
        s.len() == 5,
    ensures
        forall|r: Rank|
            #[trigger] rank_count(s.to_multiset(), r) == rank_ind(s[0], r) + rank_ind(s[1], r)
                + rank_ind(s[2], r) + rank_ind(s[3], r) + rank_ind(s[4], r),
{
    lemma_to_multiset5_count(s);
    assert forall|r: Rank|
        #[trigger] rank_count(s.to_multiset(), r) == rank_ind(s[0], r) + rank_ind(s[1], r)
            + rank_ind(s[2], r) + rank_ind(s[3], r) + rank_ind(s[4], r) by {
        reveal(rank_count);
        lemma_card_rank_ind(s[0], r);
        lemma_card_rank_ind(s[1], r);
        lemma_card_rank_ind(s[2], r);
        lemma_card_rank_ind(s[3], r);
        lemma_card_rank_ind(s[4], r);
    }
}

/// Suit counts of a five-card hand, position by position.
#[verifier::rlimit(100)]
proof fn lemma_hand_suit_counts(s: Seq<Card>)
    requires
        s.len() == 5,
    ensures
        forall|t: Suit|
            #[trigger] suit_count(s.to_multiset(), t) == suit_ind(s[0], t) + suit_ind(s[1], t)
                + suit_ind(s[2], t) + suit_ind(s[3], t) + suit_ind(s[4], t),
{
    lemma_to_multiset5_count(s);
    assert forall|t: Suit|
        #[trigger] suit_count(s.to_multiset(), t) == suit_ind(s[0], t) + suit_ind(s[1], t)
            + suit_ind(s[2], t) + suit_ind(s[3], t) + suit_ind(s[4], t) by {
        reveal(suit_count);
        lemma_card_suit_ind(s[0], t);
        lemma_card_suit_ind(s[1], t);
        lemma_card_suit_ind(s[2], t);
        lemma_card_suit_ind(s[3], t);
        lemma_card_suit_ind(s[4], t);
    }
}

fn count_rank(hand: &[Card; 5], r: Rank) -> (n: u8)
    ensures
        n as int == rank_count(hand@.to_multiset(), r),
{
    proof {
        lemma_hand_rank_counts(hand@);
    }
    let mut n: u8 = 0;
    if hand[0].value == r {
        n = n + 1;
    }
    if hand[1].value == r {
        n = n + 1;
    }
    if hand[2].value == r {
        n = n + 1;
    }
    if hand[3].value == r {
        n = n + 1;
    }
    if hand[4].value == r {
        n = n + 1;
    }
    n
}

fn count_suit(hand: &[Card; 5], s: Suit) -> (n: u8)
    ensures
        n as int == suit_count(hand@.to_multiset(), s),
{
    proof {
        lemma_hand_suit_counts(hand@);
    }
    let mut n: u8 = 0;
    if hand[0].suit == s {
        n = n + 1;
    }
    if hand[1].suit == s {
        n = n + 1;
    }
    if hand[2].suit == s {
        n = n + 1;
    }
    if hand[3].suit == s {
        n = n + 1;
    }
    if hand[4].suit == s {
        n = n + 1;
    }
    n
}

fn rank_of_strength_x(v: u8) -> (r: Rank)
    requires
        2 <= v <= 14,
    ensures
        r == rank_of_strength(v as int),
{
    if v == 2 {
        Rank::Two
    } else if v == 3 {
        Rank::Three
    } else if v == 4 {
        Rank::Four
    } else if v == 5 {
        Rank::Five
    } else if v == 6 {
        Rank::Six
    } else if v == 7 {
        Rank::Seven
    } else if v == 8 {
        Rank::Eight
    } else if v == 9 {
        Rank::Nine
    } else if v == 10 {
        Rank::Ten
    } else if v == 11 {
        Rank::Jack
    } else if v == 12 {
        Rank::Queen
    } else if v == 13 {
        Rank::King
    } else {
        Rank::Ace
    }
}struct HandStats {
    pairs: u8,
    has3: bool,
    has4: bool,
    nranks: u8,
    nsuits: u8,
    trips_rank: Rank,
    quads_rank: Rank,
    pair_lo: Rank,
    pair_hi: Rank,
    minr: Rank,
    maxr: Rank,
    wheel: bool,
    broadway: bool,
    fs: Suit,
}

struct RankCounts {
    n2: u8,
    n3: u8,
    n4: u8,
    n5: u8,
    n6: u8,
    n7: u8,
    n8: u8,
    n9: u8,
    n10: u8,
    n11: u8,
    n12: u8,
    n13: u8,
    n14: u8,
}

struct SuitCounts {
    sh: u8,
    sd: u8,
    sc: u8,
    ss: u8,
}

spec fn rank_counts_ok(c: RankCounts, m: Multiset<Card>) -> bool {
    &&& c.n2 as int == rank_count(m, Rank::Two)
    &&& c.n3 as int == rank_count(m, Rank::Three)
    &&& c.n4 as int == rank_count(m, Rank::Four)
    &&& c.n5 as int == rank_count(m, Rank::Five)
    &&& c.n6 as int == rank_count(m, Rank::Six)
    &&& c.n7 as int == rank_count(m, Rank::Seven)
    &&& c.n8 as int == rank_count(m, Rank::Eight)
    &&& c.n9 as int == rank_count(m, Rank::Nine)
    &&& c.n10 as int == rank_count(m, Rank::Ten)
    &&& c.n11 as int == rank_count(m, Rank::Jack)
    &&& c.n12 as int == rank_count(m, Rank::Queen)
    &&& c.n13 as int == rank_count(m, Rank::King)
    &&& c.n14 as int == rank_count(m, Rank::Ace)
}

spec fn suit_counts_ok(c: SuitCounts, m: Multiset<Card>) -> bool {
    &&& c.sh as int == suit_count(m, Suit::Hearts)
    &&& c.sd as int == suit_count(m, Suit::Diamonds)
    &&& c.sc as int == suit_count(m, Suit::Clubs)
    &&& c.ss as int == suit_count(m, Suit::Spades)
}

fn count_all_ranks(hand: &[Card; 5]) -> (c: RankCounts)
    ensures
        rank_counts_ok(c, hand@.to_multiset()),
{
    RankCounts {
        n2: count_rank(hand, Rank::Two),
        n3: count_rank(hand, Rank::Three),
        n4: count_rank(hand, Rank::Four),
        n5: count_rank(hand, Rank::Five),
        n6: count_rank(hand, Rank::Six),
        n7: count_rank(hand, Rank::Seven),
        n8: count_rank(hand, Rank::Eight),
        n9: count_rank(hand, Rank::Nine),
        n10: count_rank(hand, Rank::Ten),
        n11: count_rank(hand, Rank::Jack),
        n12: count_rank(hand, Rank::Queen),
        n13: count_rank(hand, Rank::King),
        n14: count_rank(hand, Rank::Ace),
    }
}

fn count_all_suits(hand: &[Card; 5]) -> (c: SuitCounts)
    ensures
        suit_counts_ok(c, hand@.to_multiset()),
{
    SuitCounts {
        sh: count_suit(hand, Suit::Hearts),
        sd: count_suit(hand, Suit::Diamonds),
        sc: count_suit(hand, Suit::Clubs),
        ss: count_suit(hand, Suit::Spades),
    }
}

/// The pair count read off a table of per-rank counts.
spec fn counts_num_pairs(c: RankCounts) -> int {
    (if c.n2 == 2 { 1int } else { 0 }) + (if c.n3 == 2 { 1int } else { 0 }) + (if c.n4 == 2 {
        1int
    } else {
        0
    }) + (if c.n5 == 2 { 1int } else { 0 }) + (if c.n6 == 2 { 1int } else { 0 }) + (if c.n7 == 2 {
        1int
    } else {
        0
    }) + (if c.n8 == 2 { 1int } else { 0 }) + (if c.n9 == 2 { 1int } else { 0 }) + (if c.n10 == 2 {
        1int
    } else {
        0
    }) + (if c.n11 == 2 { 1int } else { 0 }) + (if c.n12 == 2 { 1int } else { 0 }) + (if c.n13
        == 2 { 1int } else { 0 }) + (if c.n14 == 2 { 1int } else { 0 })
}

/// The distinct-rank count read off a table of per-rank counts.
spec fn counts_nranks(c: RankCounts) -> int {
    (if c.n2 >= 1 { 1int } else { 0 }) + (if c.n3 >= 1 { 1int } else { 0 }) + (if c.n4 >= 1 {
        1int
    } else {
        0
    }) + (if c.n5 >= 1 { 1int } else { 0 }) + (if c.n6 >= 1 { 1int } else { 0 }) + (if c.n7 >= 1 {
        1int
    } else {
        0
    }) + (if c.n8 >= 1 { 1int } else { 0 }) + (if c.n9 >= 1 { 1int } else { 0 }) + (if c.n10 >= 1 {
        1int
    } else {
        0
    }) + (if c.n11 >= 1 { 1int } else { 0 }) + (if c.n12 >= 1 { 1int } else { 0 }) + (if c.n13
        >= 1 { 1int } else { 0 }) + (if c.n14 >= 1 { 1int } else { 0 })
}

#[verifier::rlimit(100)]
fn scan_num_pairs(c: &RankCounts) -> (n: u8)
    ensures
        n as int == counts_num_pairs(*c),
{
    let f2: u8 = if c.n2 == 2 { 1 } else { 0 };
    let f3: u8 = if c.n3 == 2 { 1 } else { 0 };
    let f4: u8 = if c.n4 == 2 { 1 } else { 0 };
    let f5: u8 = if c.n5 == 2 { 1 } else { 0 };
    let f6: u8 = if c.n6 == 2 { 1 } else { 0 };
    let f7: u8 = if c.n7 == 2 { 1 } else { 0 };
    let f8: u8 = if c.n8 == 2 { 1 } else { 0 };
    let f9: u8 = if c.n9 == 2 { 1 } else { 0 };
    let f10: u8 = if c.n10 == 2 { 1 } else { 0 };
    let f11: u8 = if c.n11 == 2 { 1 } else { 0 };
    let f12: u8 = if c.n12 == 2 { 1 } else { 0 };
    let f13: u8 = if c.n13 == 2 { 1 } else { 0 };
    let f14: u8 = if c.n14 == 2 { 1 } else { 0 };
    f2 + f3 + f4 + f5 + f6 + f7 + f8 + f9 + f10 + f11 + f12 + f13 + f14
}

#[verifier::rlimit(100)]
fn scan_nranks(c: &RankCounts) -> (n: u8)
    ensures
        n as int == counts_nranks(*c),
{
    let f2: u8 = if c.n2 >= 1 { 1 } else { 0 };
    let f3: u8 = if c.n3 >= 1 { 1 } else { 0 };
    let f4: u8 = if c.n4 >= 1 { 1 } else { 0 };
    let f5: u8 = if c.n5 >= 1 { 1 } else { 0 };
    let f6: u8 = if c.n6 >= 1 { 1 } else { 0 };
    let f7: u8 = if c.n7 >= 1 { 1 } else { 0 };
    let f8: u8 = if c.n8 >= 1 { 1 } else { 0 };
    let f9: u8 = if c.n9 >= 1 { 1 } else { 0 };
    let f10: u8 = if c.n10 >= 1 { 1 } else { 0 };
    let f11: u8 = if c.n11 >= 1 { 1 } else { 0 };
    let f12: u8 = if c.n12 >= 1 { 1 } else { 0 };
    let f13: u8 = if c.n13 >= 1 { 1 } else { 0 };
    let f14: u8 = if c.n14 >= 1 { 1 } else { 0 };
    f2 + f3 + f4 + f5 + f6 + f7 + f8 + f9 + f10 + f11 + f12 + f13 + f14
}

/// A table of counts that matches the hand gives the hand's pair count and
/// its distinct-rank count.
proof fn lemma_counts_sums(c: RankCounts, m: Multiset<Card>)
    requires
        rank_counts_ok(c, m),
    ensures
        counts_num_pairs(c) == num_pairs(m),
        counts_nranks(c) == ranks_present(m),
{
}

fn scan_has(c: &RankCounts, k: u8, Ghost(m): Ghost<Multiset<Card>>) -> (b: bool)
    requires
        rank_counts_ok(*c, m),
    ensures
        b == has_rank_with(m, k as int),
{
    c.n2 == k || c.n3 == k || c.n4 == k || c.n5 == k || c.n6 == k || c.n7 == k || c.n8 == k || c.n9
        == k || c.n10 == k || c.n11 == k || c.n12 == k || c.n13 == k || c.n14 == k
}

fn scan_first_with(c: &RankCounts, k: u8, Ghost(m): Ghost<Multiset<Card>>) -> (r: Rank)
    requires
        rank_counts_ok(*c, m),
    ensures
        r == first_rank_with(m, k as int),
{
    if c.n2 == k {
        Rank::Two
    } else if c.n3 == k {
        Rank::Three
    } else if c.n4 == k {
        Rank::Four
    } else if c.n5 == k {
        Rank::Five
    } else if c.n6 == k {
        Rank::Six
    } else if c.n7 == k {
        Rank::Seven
    } else if c.n8 == k {
        Rank::Eight
    } else if c.n9 == k {
        Rank::Nine
    } else if c.n10 == k {
        Rank::Ten
    } else if c.n11 == k {
        Rank::Jack
    } else if c.n12 == k {
        Rank::Queen
    } else if c.n13 == k {
        Rank::King
    } else {
        Rank::Ace
    }
}

fn scan_last_with(c: &RankCounts, k: u8, Ghost(m): Ghost<Multiset<Card>>) -> (r: Rank)
    requires
        rank_counts_ok(*c, m),
    ensures
        r == last_rank_with(m, k as int),
{
    if c.n14 == k {
        Rank::Ace
    } else if c.n13 == k {
        Rank::King
    } else if c.n12 == k {
        Rank::Queen
    } else if c.n11 == k {
        Rank::Jack
    } else if c.n10 == k {
        Rank::Ten
    } else if c.n9 == k {
        Rank::Nine
    } else if c.n8 == k {
        Rank::Eight
    } else if c.n7 == k {
        Rank::Seven
    } else if c.n6 == k {
        Rank::Six
    } else if c.n5 == k {
        Rank::Five
    } else if c.n4 == k {
        Rank::Four
    } else if c.n3 == k {
        Rank::Three
    } else {
        Rank::Two
    }
}

fn scan_min_rank(c: &RankCounts, Ghost(m): Ghost<Multiset<Card>>) -> (r: Rank)
    requires
        rank_counts_ok(*c, m),
    ensures
        r == min_rank(m),
{
    if c.n2 >= 1 {
        Rank::Two
    } else if c.n3 >= 1 {
        Rank::Three
    } else if c.n4 >= 1 {
        Rank::Four
    } else if c.n5 >= 1 {
        Rank::Five
    } else if c.n6 >= 1 {
        Rank::Six
    } else if c.n7 >= 1 {
        Rank::Seven
    } else if c.n8 >= 1 {
        Rank::Eight
    } else if c.n9 >= 1 {
        Rank::Nine
    } else if c.n10 >= 1 {
        Rank::Ten
    } else if c.n11 >= 1 {
        Rank::Jack
    } else if c.n12 >= 1 {
        Rank::Queen
    } else if c.n13 >= 1 {
        Rank::King
    } else {
        Rank::Ace
    }
}

fn scan_max_rank(c: &RankCounts, Ghost(m): Ghost<Multiset<Card>>) -> (r: Rank)
    requires
        rank_counts_ok(*c, m),
    ensures
        r == max_rank(m),
{
    if c.n14 >= 1 {
        Rank::Ace
    } else if c.n13 >= 1 {
        Rank::King
    } else if c.n12 >= 1 {
        Rank::Queen
    } else if c.n11 >= 1 {
        Rank::Jack
    } else if c.n10 >= 1 {
        Rank::Ten
    } else if c.n9 >= 1 {
        Rank::Nine
    } else if c.n8 >= 1 {
        Rank::Eight
    } else if c.n7 >= 1 {
        Rank::Seven
    } else if c.n6 >= 1 {
        Rank::Six
    } else if c.n5 >= 1 {
        Rank::Five
    } else if c.n4 >= 1 {
        Rank::Four
    } else if c.n3 >= 1 {
        Rank::Three
    } else {
        Rank::Two
    }
}

fn scan_suits(c: &SuitCounts, Ghost(m): Ghost<Multiset<Card>>) -> (r: (u8, Suit))
    requires
        suit_counts_ok(*c, m),
    ensures
        r.0 as int == suits_present(m),
        r.1 == flush_suit(m),
{
    let n: u8 = (if c.sh >= 1 { 1u8 } else { 0 }) + (if c.sd >= 1 { 1 } else { 0 }) + (if c.sc >= 1 {
        1
    } else {
        0
    }) + (if c.ss >= 1 { 1 } else { 0 });
    let fs = if c.sh >= 1 {
        Suit::Hearts
    } else if c.sd >= 1 {
        Suit::Diamonds
    } else if c.sc >= 1 {
        Suit::Clubs
    } else {
        Suit::Spades
    };
    (n, fs)
}

/// Reads off every aggregate of a five-card hand that the classifying
/// cascade looks at.
fn hand_stats(hand: &[Card; 5]) -> (st: HandStats)
    ensures
        st.pairs as int == num_pairs(hand@.to_multiset()),
        st.has3 == has_rank_with(hand@.to_multiset(), 3),
        st.has4 == has_rank_with(hand@.to_multiset(), 4),
        st.nranks as int == ranks_present(hand@.to_multiset()),
        st.nsuits as int == suits_present(hand@.to_multiset()),
        st.trips_rank == first_rank_with(hand@.to_multiset(), 3),
        st.quads_rank == first_rank_with(hand@.to_multiset(), 4),
        st.pair_lo == first_rank_with(hand@.to_multiset(), 2),
        st.pair_hi == last_rank_with(hand@.to_multiset(), 2),
        st.minr == min_rank(hand@.to_multiset()),
        st.maxr == max_rank(hand@.to_multiset()),
        st.wheel == is_wheel(hand@.to_multiset()),
        st.broadway == is_broadway(hand@.to_multiset()),
        st.fs == flush_suit(hand@.to_multiset()),
{
    let ghost m = hand@.to_multiset();
    let rc = count_all_ranks(hand);
    let sc = count_all_suits(hand);
    proof {
        lemma_counts_sums(rc, m);
    }
    let (nsuits, fs) = scan_suits(&sc, Ghost(m));
    let wheel = rc.n2 == 1 && rc.n3 == 1 && rc.n4 == 1 && rc.n5 == 1 && rc.n14 == 1;
    let broadway = rc.n10 == 1 && rc.n11 == 1 && rc.n12 == 1 && rc.n13 == 1 && rc.n14 == 1;
    HandStats {
        pairs: scan_num_pairs(&rc),
        has3: scan_has(&rc, 3, Ghost(m)),
        has4: scan_has(&rc, 4, Ghost(m)),
        nranks: scan_nranks(&rc),
        nsuits,
        trips_rank: scan_first_with(&rc, 3, Ghost(m)),
        quads_rank: scan_first_with(&rc, 4, Ghost(m)),
        pair_lo: scan_first_with(&rc, 2, Ghost(m)),
        pair_hi: scan_last_with(&rc, 2, Ghost(m)),
        minr: scan_min_rank(&rc, Ghost(m)),
        maxr: scan_max_rank(&rc, Ghost(m)),
        wheel,
        broadway,
        fs,
    }
}

impl Tier {
    /// Gives five cards their poker category, running the checks in the
    /// cascade order that `classify` writes down.
    #[verifier::rlimit(100)]
    pub fn evaluate_hand(hand: [Card; 5]) -> (t: Tier)
        ensures
            t == classify_seq(hand@),
    {
        proof {
            reveal(classify);
        }
        let st = hand_stats(&hand);
        let lo = rank_value(st.minr);
        let hi = rank_value(st.maxr);

        if st.pairs == 1 && st.has3 {
            return Tier::FullHouse(st.trips_rank, st.pair_lo);
        }
        if st.pairs == 1 {
            return Tier::OnePair(st.pair_lo);
        }
        if st.pairs == 2 {
            return Tier::TwoPair(st.pair_lo, st.pair_hi);
        }
        if st.has3 {
            return Tier::ThreeOfAKind(st.trips_rank);
        }
        if st.has4 {
            return Tier::FourOfAKind(st.quads_rank);
        }
        if st.nranks == 5 && st.nsuits == 1 {
            if st.wheel {
                return Tier::StraightFlush(
                    Card::new(Rank::Two, st.fs),
                    Card::new(Rank::Three, st.fs),
                    Card::new(Rank::Four, st.fs),
                    Card::new(Rank::Five, st.fs),
                    Card::new(Rank::Ace, st.fs),
                );
            }
            if st.broadway {
                return Tier::RoyalFlush(
                    Card::new(Rank::Ten, st.fs),
                    Card::new(Rank::Jack, st.fs),
                    Card::new(Rank::Queen, st.fs),
                    Card::new(Rank::King, st.fs),
                    Card::new(Rank::Ace, st.fs),
                );
            }
            if hi == lo + 4 {
                return Tier::StraightFlush(
                    Card::new(rank_of_strength_x(lo), st.fs),
                    Card::new(rank_of_strength_x(lo + 1), st.fs),
                    Card::new(rank_of_strength_x(lo + 2), st.fs),
                    Card::new(rank_of_strength_x(lo + 3), st.fs),
                    Card::new(rank_of_strength_x(lo + 4), st.fs),
                );
            }
        }
        if st.nranks == 5 {
            if st.wheel {
                return Tier::Straight(Rank::Ace, Rank::Two, Rank::Three, Rank::Four, Rank::Five);
            }
            if hi == lo + 4 {
                return Tier::Straight(
                    rank_of_strength_x(lo),
                    rank_of_strength_x(lo + 1),
                    rank_of_strength_x(lo + 2),
                    rank_of_strength_x(lo + 3),
                    rank_of_strength_x(lo + 4),
                );
            }
        }
        if st.nsuits == 1 {
            return Tier::Flush(st.fs);
        }
        Tier::HighCard(st.maxr)
    }
}


/// The strength position of a category: a higher category always beats a
/// lower one, whatever the payloads say.
pub open spec fn category(t: Tier) -> int {
    match t {
        Tier::HighCard(..) => 0,
        Tier::OnePair(..) => 1,
        Tier::TwoPair(..) => 2,
        Tier::ThreeOfAKind(..) => 3,
        Tier::Straight(..) => 4,
        Tier::Flush(..) => 5,
        Tier::FullHouse(..) => 6,
        Tier::FourOfAKind(..) => 7,
        Tier::StraightFlush(..) => 8,
        Tier::RoyalFlush(..) => 9,
    }
}

/// A single number that orders cards by rank first and suit second.
pub open spec fn card_order(c: Card) -> int {
    rank_strength(c.value) * 4 + suit_order(c.suit)
}

/// Five ranks listed ascending, compared from the top card down.
pub open spec fn ranks5_lt(
    a1: Rank,
    a2: Rank,
    a3: Rank,
    a4: Rank,
    a5: Rank,
    b1: Rank,
    b2: Rank,
    b3: Rank,
    b4: Rank,
    b5: Rank,
) -> bool {
    rank_strength(a5) < rank_strength(b5) || (a5 == b5 && (rank_strength(a4) < rank_strength(b4)
        || (a4 == b4 && (rank_strength(a3) < rank_strength(b3) || (a3 == b3 && (rank_strength(a2)
        < rank_strength(b2) || (a2 == b2 && rank_strength(a1) < rank_strength(b1))))))))
}

/// Five cards listed ascending by rank, compared from the top card down.
pub open spec fn cards5_lt(
    a1: Card,
    a2: Card,
    a3: Card,
    a4: Card,
    a5: Card,
    b1: Card,
    b2: Card,
    b3: Card,
    b4: Card,
    b5: Card,
) -> bool {
    card_order(a5) < card_order(b5) || (a5 == b5 && (card_order(a4) < card_order(b4) || (a4 == b4
        && (card_order(a3) < card_order(b3) || (a3 == b3 && (card_order(a2) < card_order(b2) || (a2
        == b2 && card_order(a1) < card_order(b1))))))))
}

/// Tie-break between two tiers of the same category. Single ranks compare by
/// strength; a two-pair compares its high pair first; a full house compares
/// its triple first; straights of either kind compare from the top card down,
/// which puts the wheel straight, written Ace first with Five on top, under
/// every other straight; flushes fall back on the stable suit position.
pub open spec fn payload_lt(a: Tier, b: Tier) -> bool {
    match (a, b) {
        (Tier::HighCard(x), Tier::HighCard(y)) => rank_strength(x) < rank_strength(y),
        (Tier::OnePair(x), Tier::OnePair(y)) => rank_strength(x) < rank_strength(y),
        (Tier::TwoPair(al, ah), Tier::TwoPair(bl, bh)) => rank_strength(ah) < rank_strength(bh) || (
        ah == bh && rank_strength(al) < rank_strength(bl)),
        (Tier::ThreeOfAKind(x), Tier::ThreeOfAKind(y)) => rank_strength(x) < rank_strength(y),
        (
            Tier::Straight(a1, a2, a3, a4, a5),
            Tier::Straight(b1, b2, b3, b4, b5),
        ) => ranks5_lt(a1, a2, a3, a4, a5, b1, b2, b3, b4, b5),
        (Tier::Flush(x), Tier::Flush(y)) => suit_order(x) < suit_order(y),
        (Tier::FullHouse(at, ap), Tier::FullHouse(bt, bp)) => rank_strength(at) < rank_strength(bt)
            || (at == bt && rank_strength(ap) < rank_strength(bp)),
        (Tier::FourOfAKind(x), Tier::FourOfAKind(y)) => rank_strength(x) < rank_strength(y),
        (
            Tier::StraightFlush(a1, a2, a3, a4, a5),
            Tier::StraightFlush(b1, b2, b3, b4, b5),
        ) => cards5_lt(a1, a2, a3, a4, a5, b1, b2, b3, b4, b5),
        (
            Tier::RoyalFlush(a1, a2, a3, a4, a5),
            Tier::RoyalFlush(b1, b2, b3, b4, b5),
        ) => cards5_lt(a1, a2, a3, a4, a5, b1, b2, b3, b4, b5),
        _ => false,
    }
}

/// The strict total order on tiers: category strength first, payload
/// tie-break on equal categories.
pub open spec fn tier_lt(a: Tier, b: Tier) -> bool {
    category(a) < category(b) || (category(a) == category(b) && payload_lt(a, b))
}

/// A category placed lower in the fixed chain loses to any hand of a higher
/// category: the payloads never overturn the categories.
pub proof fn lemma_category_order(a: Tier, b: Tier)
    requires
        category(a) < category(b),
    ensures
        tier_lt(a, b),
        !tier_lt(b, a),
{
}

/// Of two tiers, either one is strictly weaker than the other or they are
/// the same value; never both.
#[verifier::rlimit(100)]
pub proof fn lemma_tier_lt_trichotomy(a: Tier, b: Tier)
    ensures
        tier_lt(a, b) || tier_lt(b, a) || a == b,
        !(tier_lt(a, b) && tier_lt(b, a)),
        !tier_lt(a, a),
{
    if category(a) == category(b) {
        match (a, b) {
            (Tier::HighCard(x), Tier::HighCard(y)) => {
                lemma_rank_strength_injective(x, y);
            },
            (Tier::OnePair(x), Tier::OnePair(y)) => {
                lemma_rank_strength_injective(x, y);
            },
            (Tier::TwoPair(al, ah), Tier::TwoPair(bl, bh)) => {
                lemma_rank_strength_injective(ah, bh);
                lemma_rank_strength_injective(al, bl);
            },
            (Tier::ThreeOfAKind(x), Tier::ThreeOfAKind(y)) => {
                lemma_rank_strength_injective(x, y);
            },
            (Tier::Straight(a1, a2, a3, a4, a5), Tier::Straight(b1, b2, b3, b4, b5)) => {
                lemma_rank_strength_injective(a1, b1);
                lemma_rank_strength_injective(a2, b2);
                lemma_rank_strength_injective(a3, b3);
                lemma_rank_strength_injective(a4, b4);
                lemma_rank_strength_injective(a5, b5);
            },
            (Tier::Flush(x), Tier::Flush(y)) => {
                lemma_suit_order_injective(x, y);
            },
            (Tier::FullHouse(at, ap), Tier::FullHouse(bt, bp)) => {
                lemma_rank_strength_injective(at, bt);
                lemma_rank_strength_injective(ap, bp);
            },
            (Tier::FourOfAKind(x), Tier::FourOfAKind(y)) => {
                lemma_rank_strength_injective(x, y);
            },
            (
                Tier::StraightFlush(a1, a2, a3, a4, a5),
                Tier::StraightFlush(b1, b2, b3, b4, b5),
            ) => {
                lemma_card_order_injective(a1, b1);
                lemma_card_order_injective(a2, b2);
                lemma_card_order_injective(a3, b3);
                lemma_card_order_injective(a4, b4);
                lemma_card_order_injective(a5, b5);
            },
            (Tier::RoyalFlush(a1, a2, a3, a4, a5), Tier::RoyalFlush(b1, b2, b3, b4, b5)) => {
                lemma_card_order_injective(a1, b1);
                lemma_card_order_injective(a2, b2);
                lemma_card_order_injective(a3, b3);
                lemma_card_order_injective(a4, b4);
                lemma_card_order_injective(a5, b5);
            },
            _ => {},
        }
    }
}

/// Two suits at the same position are the same suit.
proof fn lemma_suit_order_injective(a: Suit, b: Suit)
    ensures
        suit_order(a) == suit_order(b) ==> a == b,
{
}

/// The tier order chains: weaker than a weaker hand is weaker.
#[verifier::rlimit(100)]
pub proof fn lemma_tier_lt_transitive(a: Tier, b: Tier, c: Tier)
    requires
        tier_lt(a, b),
        tier_lt(b, c),
    ensures
        tier_lt(a, c),
{
}

fn rank_lt_x(a: Rank, b: Rank) -> (r: bool)
    ensures
        r == (rank_strength(a) < rank_strength(b)),
{
    rank_value(a) < rank_value(b)
}

pub(crate) fn card_order_x(c: &Card) -> (v: u8)
    ensures
        v as int == card_order(*c),
{
    rank_value(c.value) * 4 + suit_value(c.suit)
}

fn cards5_lt_x(a: [Card; 5], b: [Card; 5]) -> (r: bool)
    ensures
        r == cards5_lt(a[0], a[1], a[2], a[3], a[4], b[0], b[1], b[2], b[3], b[4]),
{
    let a5 = card_order_x(&a[4]);
    let b5 = card_order_x(&b[4]);
    if a5 != b5 {
        return a5 < b5;
    }
    let a4 = card_order_x(&a[3]);
    let b4 = card_order_x(&b[3]);
    if a4 != b4 {
        return a4 < b4;
    }
    let a3 = card_order_x(&a[2]);
    let b3 = card_order_x(&b[2]);
    if a3 != b3 {
        return a3 < b3;
    }
    let a2 = card_order_x(&a[1]);
    let b2 = card_order_x(&b[1]);
    if a2 != b2 {
        return a2 < b2;
    }
    let a1 = card_order_x(&a[0]);
    let b1 = card_order_x(&b[0]);
    proof {
        lemma_card_order_injective(a[4], b[4]);
        lemma_card_order_injective(a[3], b[3]);
        lemma_card_order_injective(a[2], b[2]);
        lemma_card_order_injective(a[1], b[1]);
    }
    a1 < b1
}

/// Two cards with the same order number are the same card.
proof fn lemma_card_order_injective(a: Card, b: Card)
    ensures
        card_order(a) == card_order(b) ==> a == b,
{
}

fn tier_category_x(t: &Tier) -> (v: u8)
    ensures
        v as int == category(*t),
{
    match *t {
        Tier::HighCard(..) => 0,
        Tier::OnePair(..) => 1,
        Tier::TwoPair(..) => 2,
        Tier::ThreeOfAKind(..) => 3,
        Tier::Straight(..) => 4,
        Tier::Flush(..) => 5,
        Tier::FullHouse(..) => 6,
        Tier::FourOfAKind(..) => 7,
        Tier::StraightFlush(..) => 8,
        Tier::RoyalFlush(..) => 9,
    }
}

/// Whether hand strength `a` comes strictly before `b` in the total order
/// that `tier_lt` writes down.
#[verifier::rlimit(100)]
pub fn tier_less(a: &Tier, b: &Tier) -> (r: bool)
    ensures
        r == tier_lt(*a, *b),
{
    let ca = tier_category_x(a);
    let cb = tier_category_x(b);
    if ca != cb {
        return ca < cb;
    }
    match (*a, *b) {
        (Tier::HighCard(x), Tier::HighCard(y)) => rank_lt_x(x, y),
        (Tier::OnePair(x), Tier::OnePair(y)) => rank_lt_x(x, y),
        (Tier::TwoPair(al, ah), Tier::TwoPair(bl, bh)) => {
            if rank_value(ah) != rank_value(bh) {
                rank_value(ah) < rank_value(bh)
            } else {
                proof {
                    lemma_rank_strength_injective(ah, bh);
                }
                rank_lt_x(al, bl)
            }
        },
        (Tier::ThreeOfAKind(x), Tier::ThreeOfAKind(y)) => rank_lt_x(x, y),
        (Tier::Straight(a1, a2, a3, a4, a5), Tier::Straight(b1, b2, b3, b4, b5)) => {
            if rank_value(a5) != rank_value(b5) {
                rank_value(a5) < rank_value(b5)
            } else if rank_value(a4) != rank_value(b4) {
                proof {
                    lemma_rank_strength_injective(a5, b5);
                }
                rank_value(a4) < rank_value(b4)
            } else if rank_value(a3) != rank_value(b3) {
                proof {
                    lemma_rank_strength_injective(a5, b5);
                    lemma_rank_strength_injective(a4, b4);
                }
                rank_value(a3) < rank_value(b3)
            } else if rank_value(a2) != rank_value(b2) {
                proof {
                    lemma_rank_strength_injective(a5, b5);
                    lemma_rank_strength_injective(a4, b4);
                    lemma_rank_strength_injective(a3, b3);
                }
                rank_value(a2) < rank_value(b2)
            } else {
                proof {
                    lemma_rank_strength_injective(a5, b5);
                    lemma_rank_strength_injective(a4, b4);
                    lemma_rank_strength_injective(a3, b3);
                    lemma_rank_strength_injective(a2, b2);
                }
                rank_value(a1) < rank_value(b1)
            }
        },
        (Tier::Flush(x), Tier::Flush(y)) => suit_value(x) < suit_value(y),
        (Tier::FullHouse(at, ap), Tier::FullHouse(bt, bp)) => {
            if rank_value(at) != rank_value(bt) {
                rank_value(at) < rank_value(bt)
            } else {
                proof {
                    lemma_rank_strength_injective(at, bt);
                }
                rank_lt_x(ap, bp)
            }
        },
        (Tier::FourOfAKind(x), Tier::FourOfAKind(y)) => rank_lt_x(x, y),
        (Tier::StraightFlush(a1, a2, a3, a4, a5), Tier::StraightFlush(b1, b2, b3, b4, b5)) => {
            cards5_lt_x([a1, a2, a3, a4, a5], [b1, b2, b3, b4, b5])
        },
        (Tier::RoyalFlush(a1, a2, a3, a4, a5), Tier::RoyalFlush(b1, b2, b3, b4, b5)) => {
            cards5_lt_x([a1, a2, a3, a4, a5], [b1, b2, b3, b4, b5])
        },
        _ => false,
    }
}

/// Two ranks with the same numeric strength are the same rank.
proof fn lemma_rank_strength_injective(a: Rank, b: Rank)
    ensures
        rank_strength(a) == rank_strength(b) ==> a == b,
{
}

/// The wheel with mixed suits is a straight whose top card is the Five: it
/// is reported Ace first, and it loses to the Two-to-Six straight.
pub proof fn lemma_wheel_straight(m: Multiset<Card>)
    requires
        is_wheel(m),
        ranks_present(m) == 5,
        suits_present(m) >= 2,
    ensures
        classify(m) == Tier::Straight(Rank::Ace, Rank::Two, Rank::Three, Rank::Four, Rank::Five),
        tier_lt(
            classify(m),
            Tier::Straight(Rank::Two, Rank::Three, Rank::Four, Rank::Five, Rank::Six),
        ),
{
    reveal(classify);
}

/// The wheel in a single suit is a straight flush, reported with its cards
/// ascending by rank.
pub proof fn lemma_wheel_straight_flush(m: Multiset<Card>, s: Suit)
    requires
        is_wheel(m),
        ranks_present(m) == 5,
        suits_present(m) == 1,
        suit_count(m, s) >= 1,
    ensures
        classify(m) == Tier::StraightFlush(
            card_of(Rank::Two, s),
            card_of(Rank::Three, s),
            card_of(Rank::Four, s),
            card_of(Rank::Five, s),
            card_of(Rank::Ace, s),
        ),
{
    reveal(classify);
}

/// Ten through Ace in a single suit is a royal flush, not a straight flush.
pub proof fn lemma_royal_flush(m: Multiset<Card>, s: Suit)
    requires
        is_broadway(m),
        ranks_present(m) == 5,
        suits_present(m) == 1,
        suit_count(m, s) >= 1,
    ensures
        classify(m) == Tier::RoyalFlush(
            card_of(Rank::Ten, s),
            card_of(Rank::Jack, s),
            card_of(Rank::Queen, s),
            card_of(Rank::King, s),
            card_of(Rank::Ace, s),
        ),
{
    reveal(classify);
}

} // verus!

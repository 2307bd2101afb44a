use poker_game::best_hand::{evaluate_best_hand, BestHand};
use poker_game::deck::{Card, Rank, Suit};
use poker_game::hand_eval::{tier_less, Tier};

#[test]
fn test_order_independence() {
    let a = Tier::evaluate_hand([
        Card::new(Rank::Jack, Suit::Hearts),
        Card::new(Rank::Nine, Suit::Spades),
        Card::new(Rank::Nine, Suit::Clubs),
        Card::new(Rank::Jack, Suit::Clubs),
        Card::new(Rank::Nine, Suit::Diamonds),
    ]);
    let b = Tier::evaluate_hand([
        Card::new(Rank::Nine, Suit::Diamonds),
        Card::new(Rank::Jack, Suit::Clubs),
        Card::new(Rank::Nine, Suit::Clubs),
        Card::new(Rank::Nine, Suit::Spades),
        Card::new(Rank::Jack, Suit::Hearts),
    ]);
    assert_eq!(a, b);
}

#[test]
fn test_category_chain() {
    let samples = [
        Tier::HighCard(Rank::Ace),
        Tier::OnePair(Rank::Two),
        Tier::TwoPair(Rank::Two, Rank::Three),
        Tier::ThreeOfAKind(Rank::Two),
        Tier::Straight(Rank::Two, Rank::Three, Rank::Four, Rank::Five, Rank::Six),
        Tier::Flush(Suit::Hearts),
        Tier::FullHouse(Rank::Two, Rank::Three),
        Tier::FourOfAKind(Rank::Two),
        Tier::StraightFlush(
            Card::new(Rank::Two, Suit::Hearts),
            Card::new(Rank::Three, Suit::Hearts),
            Card::new(Rank::Four, Suit::Hearts),
            Card::new(Rank::Five, Suit::Hearts),
            Card::new(Rank::Six, Suit::Hearts),
        ),
        Tier::RoyalFlush(
            Card::new(Rank::Ten, Suit::Hearts),
            Card::new(Rank::Jack, Suit::Hearts),
            Card::new(Rank::Queen, Suit::Hearts),
            Card::new(Rank::King, Suit::Hearts),
            Card::new(Rank::Ace, Suit::Hearts),
        ),
    ];
    for i in 0..samples.len() {
        for j in 0..samples.len() {
            assert_eq!(tier_less(&samples[i], &samples[j]), i < j);
        }
    }
}

#[test]
fn test_wheel_is_weakest_straight() {
    let wheel = Tier::Straight(Rank::Ace, Rank::Two, Rank::Three, Rank::Four, Rank::Five);
    let six_high = Tier::Straight(Rank::Two, Rank::Three, Rank::Four, Rank::Five, Rank::Six);
    assert!(tier_less(&wheel, &six_high));
    assert!(!tier_less(&six_high, &wheel));
}

#[test]
fn test_best_hand_from_seven_cards() {
    let hole = vec![
        Card::new(Rank::Seven, Suit::Hearts),
        Card::new(Rank::Seven, Suit::Clubs),
    ];
    let board = vec![
        Card::new(Rank::Queen, Suit::Clubs),
        Card::new(Rank::Seven, Suit::Spades),
        Card::new(Rank::Six, Suit::Diamonds),
        Card::new(Rank::King, Suit::Diamonds),
        Card::new(Rank::King, Suit::Clubs),
    ];
    let best = evaluate_best_hand(&hole, &board);
    assert_eq!(best.tier, Tier::FullHouse(Rank::Seven, Rank::King));

    let trips = Tier::ThreeOfAKind(Rank::Seven);
    let two_pair = Tier::TwoPair(Rank::Queen, Rank::King);
    assert!(tier_less(&two_pair, &trips));
    assert!(!tier_less(&best.tier, &trips));
}

#[test]
fn test_best_hand_beats_every_subset() {
    let hole = vec![
        Card::new(Rank::Seven, Suit::Hearts),
        Card::new(Rank::Seven, Suit::Clubs),
    ];
    let board = vec![
        Card::new(Rank::Queen, Suit::Clubs),
        Card::new(Rank::Seven, Suit::Spades),
        Card::new(Rank::Six, Suit::Diamonds),
        Card::new(Rank::King, Suit::Diamonds),
        Card::new(Rank::King, Suit::Clubs),
    ];
    let mut pool = hole.clone();
    pool.extend_from_slice(&board);
    let best = evaluate_best_hand(&hole, &board);

    let mut subsets = 0;
    for i0 in 0..pool.len() {
        for i1 in (i0 + 1)..pool.len() {
            for i2 in (i1 + 1)..pool.len() {
                for i3 in (i2 + 1)..pool.len() {
                    for i4 in (i3 + 1)..pool.len() {
                        let hand = [pool[i0], pool[i1], pool[i2], pool[i3], pool[i4]];
                        let tier = Tier::evaluate_hand(hand);
                        assert!(!tier_less(&best.tier, &tier));
                        let candidate = BestHand { tier, cards: hand };
                        assert!(!candidate.beats(&best));
                        subsets += 1;
                    }
                }
            }
        }
    }
    assert_eq!(subsets, 21);
}

#[test]
fn test_best_hand_kicker_tie_break() {
    let hole = vec![
        Card::new(Rank::Ace, Suit::Spades),
        Card::new(Rank::Two, Suit::Hearts),
    ];
    let board = vec![
        Card::new(Rank::King, Suit::Diamonds),
        Card::new(Rank::Nine, Suit::Clubs),
        Card::new(Rank::Seven, Suit::Hearts),
        Card::new(Rank::Five, Suit::Spades),
        Card::new(Rank::Three, Suit::Diamonds),
    ];
    let best = evaluate_best_hand(&hole, &board);
    assert_eq!(best.tier, Tier::HighCard(Rank::Ace));
    let got: Vec<Card> = best.cards.to_vec();
    assert!(got.contains(&Card::new(Rank::Ace, Suit::Spades)));
    assert!(got.contains(&Card::new(Rank::King, Suit::Diamonds)));
    assert!(got.contains(&Card::new(Rank::Nine, Suit::Clubs)));
    assert!(got.contains(&Card::new(Rank::Seven, Suit::Hearts)));
    assert!(got.contains(&Card::new(Rank::Five, Suit::Spades)));
}

#[test]
fn test_pot_and_round() {
    let mut pot = poker_game::betting::Pot::new();
    assert_eq!(pot.total, 0);
    pot.add(25);
    pot.add(50);
    assert_eq!(pot.total, 75);

    let mut round = poker_game::betting::Round::new();
    assert!(!round.is_over);
    round.end_round();
    assert!(round.is_over);
}

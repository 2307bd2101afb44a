use poker_game::deck::{Card, Rank, Suit};
use poker_game::hand_eval::Tier;

#[test]
fn test_high_card() {
    let ace_high: Tier = Tier::evaluate_hand([
        Card::new(Rank::Ace, Suit::Clubs),
        Card::new(Rank::Jack, Suit::Spades),
        Card::new(Rank::Four, Suit::Diamonds),
        Card::new(Rank::Eight, Suit::Diamonds),
        Card::new(Rank::King, Suit::Hearts),
    ]);

    let ten_high: Tier = Tier::evaluate_hand([
        Card::new(Rank::Two, Suit::Clubs),
        Card::new(Rank::Five, Suit::Hearts),
        Card::new(Rank::Ten, Suit::Diamonds),
        Card::new(Rank::Three, Suit::Diamonds),
        Card::new(Rank::Seven, Suit::Hearts),
    ]);

    let jack_high: Tier = Tier::evaluate_hand([
        Card::new(Rank::Two, Suit::Clubs),
        Card::new(Rank::Five, Suit::Hearts),
        Card::new(Rank::Ten, Suit::Diamonds),
        Card::new(Rank::Three, Suit::Diamonds),
        Card::new(Rank::Jack, Suit::Hearts),
    ]);

    let king_high: Tier = Tier::evaluate_hand([
        Card::new(Rank::Nine, Suit::Clubs),
        Card::new(Rank::Seven, Suit::Hearts),
        Card::new(Rank::Jack, Suit::Diamonds),
        Card::new(Rank::King, Suit::Diamonds),
        Card::new(Rank::Four, Suit::Hearts),
    ]);

    assert_eq!(ace_high, Tier::HighCard(Rank::Ace));
    assert_eq!(ten_high, Tier::HighCard(Rank::Ten));
    assert_eq!(jack_high, Tier::HighCard(Rank::Jack));
    assert_eq!(king_high, Tier::HighCard(Rank::King));
}

#[test]
fn test_one_pair() {
    let ace_pair: Tier = Tier::evaluate_hand([
        Card::new(Rank::Ace, Suit::Clubs),
        Card::new(Rank::Ace, Suit::Spades),
        Card::new(Rank::Four, Suit::Diamonds),
        Card::new(Rank::Eight, Suit::Diamonds),
        Card::new(Rank::King, Suit::Hearts),
    ]);

    let ten_pair: Tier = Tier::evaluate_hand([
        Card::new(Rank::Two, Suit::Clubs),
        Card::new(Rank::Five, Suit::Hearts),
        Card::new(Rank::Ten, Suit::Diamonds),
        Card::new(Rank::Three, Suit::Diamonds),
        Card::new(Rank::Ten, Suit::Hearts),
    ]);

    assert_eq!(ace_pair, Tier::OnePair(Rank::Ace));
    assert_eq!(ten_pair, Tier::OnePair(Rank::Ten));
}

#[test]
fn test_two_pair() {
    let ace_ten_two_pair: Tier = Tier::evaluate_hand([
        Card::new(Rank::Ace, Suit::Clubs),
        Card::new(Rank::Ace, Suit::Spades),
        Card::new(Rank::Ten, Suit::Diamonds),
        Card::new(Rank::Ten, Suit::Clubs),
        Card::new(Rank::King, Suit::Hearts),
    ]);

    assert_eq!(ace_ten_two_pair, Tier::TwoPair(Rank::Ten, Rank::Ace));
}

#[test]
fn test_three_of_a_kind() {
    let three_aces: Tier = Tier::evaluate_hand([
        Card::new(Rank::Ace, Suit::Clubs),
        Card::new(Rank::Ace, Suit::Spades),
        Card::new(Rank::Ace, Suit::Hearts),
        Card::new(Rank::Eight, Suit::Diamonds),
        Card::new(Rank::King, Suit::Hearts),
    ]);

    assert_eq!(three_aces, Tier::ThreeOfAKind(Rank::Ace));
}

#[test]
fn test_straight() {
    let straight: Tier = Tier::evaluate_hand([
        Card::new(Rank::Six, Suit::Clubs),
        Card::new(Rank::Seven, Suit::Spades),
        Card::new(Rank::Ten, Suit::Hearts),
        Card::new(Rank::Eight, Suit::Diamonds),
        Card::new(Rank::Nine, Suit::Hearts),
    ]);

    let straight2: Tier = Tier::evaluate_hand([
        Card::new(Rank::Ten, Suit::Clubs),
        Card::new(Rank::Queen, Suit::Spades),
        Card::new(Rank::Ace, Suit::Hearts),
        Card::new(Rank::Jack, Suit::Diamonds),
        Card::new(Rank::King, Suit::Hearts),
    ]);

    assert_eq!(
        straight,
        Tier::Straight(Rank::Six, Rank::Seven, Rank::Eight, Rank::Nine, Rank::Ten)
    );

    assert_eq!(
        straight2,
        Tier::Straight(Rank::Ten, Rank::Jack, Rank::Queen, Rank::King, Rank::Ace)
    );
}

#[test]
fn test_ace_low_straight() {
    let ace_low_straight: Tier = Tier::evaluate_hand([
        Card::new(Rank::Two, Suit::Clubs),
        Card::new(Rank::Ace, Suit::Spades),
        Card::new(Rank::Five, Suit::Hearts),
        Card::new(Rank::Four, Suit::Diamonds),
        Card::new(Rank::Three, Suit::Hearts),
    ]);

    assert_eq!(
        ace_low_straight,
        Tier::Straight(Rank::Ace, Rank::Two, Rank::Three, Rank::Four, Rank::Five)
    );
}

#[test]
fn test_flush() {
    let flush1: Tier = Tier::evaluate_hand([
        Card::new(Rank::Two, Suit::Hearts),
        Card::new(Rank::King, Suit::Hearts),
        Card::new(Rank::Nine, Suit::Hearts),
        Card::new(Rank::Five, Suit::Hearts),
        Card::new(Rank::Jack, Suit::Hearts),
    ]);

    let flush2: Tier = Tier::evaluate_hand([
        Card::new(Rank::Three, Suit::Diamonds),
        Card::new(Rank::King, Suit::Diamonds),
        Card::new(Rank::Eight, Suit::Diamonds),
        Card::new(Rank::Five, Suit::Diamonds),
        Card::new(Rank::Jack, Suit::Diamonds),
    ]);

    let flush3: Tier = Tier::evaluate_hand([
        Card::new(Rank::Ace, Suit::Spades),
        Card::new(Rank::Four, Suit::Spades),
        Card::new(Rank::Jack, Suit::Spades),
        Card::new(Rank::Nine, Suit::Spades),
        Card::new(Rank::Queen, Suit::Spades),
    ]);

    let flush4: Tier = Tier::evaluate_hand([
        Card::new(Rank::Two, Suit::Clubs),
        Card::new(Rank::Three, Suit::Clubs),
        Card::new(Rank::Nine, Suit::Clubs),
        Card::new(Rank::Ten, Suit::Clubs),
        Card::new(Rank::Five, Suit::Clubs),
    ]);

    assert_eq!(flush1, Tier::Flush(Suit::Hearts));
    assert_eq!(flush2, Tier::Flush(Suit::Diamonds));
    assert_eq!(flush3, Tier::Flush(Suit::Spades));
    assert_eq!(flush4, Tier::Flush(Suit::Clubs));
}

#[test]
fn test_full_house() {
    let full_house: Tier = Tier::evaluate_hand([
        Card::new(Rank::Jack, Suit::Hearts),
        Card::new(Rank::Nine, Suit::Spades),
        Card::new(Rank::Nine, Suit::Clubs),
        Card::new(Rank::Jack, Suit::Clubs),
        Card::new(Rank::Nine, Suit::Diamonds),
    ]);

    assert_eq!(full_house, Tier::FullHouse(Rank::Nine, Rank::Jack));
}

#[test]
fn test_four_of_a_kind() {
    let four_aces: Tier = Tier::evaluate_hand([
        Card::new(Rank::Ace, Suit::Clubs),
        Card::new(Rank::Ace, Suit::Spades),
        Card::new(Rank::Ace, Suit::Hearts),
        Card::new(Rank::Ace, Suit::Diamonds),
        Card::new(Rank::King, Suit::Hearts),
    ]);

    assert_eq!(four_aces, Tier::FourOfAKind(Rank::Ace));
}

#[test]
fn test_straight_flush() {
    let straight_flush = Tier::evaluate_hand([
        Card::new(Rank::Five, Suit::Clubs),
        Card::new(Rank::Seven, Suit::Clubs),
        Card::new(Rank::Nine, Suit::Clubs),
        Card::new(Rank::Six, Suit::Clubs),
        Card::new(Rank::Eight, Suit::Clubs),
    ]);

    assert_eq!(
        straight_flush,
        Tier::StraightFlush(
            Card::new(Rank::Five, Suit::Clubs),
            Card::new(Rank::Six, Suit::Clubs),
            Card::new(Rank::Seven, Suit::Clubs),
            Card::new(Rank::Eight, Suit::Clubs),
            Card::new(Rank::Nine, Suit::Clubs),
        )
    );
}

#[test]
fn test_low_ace_straight_flush() {
    let straight_flush = Tier::evaluate_hand([
        Card::new(Rank::Five, Suit::Diamonds),
        Card::new(Rank::Two, Suit::Diamonds),
        Card::new(Rank::Ace, Suit::Diamonds),
        Card::new(Rank::Four, Suit::Diamonds),
        Card::new(Rank::Three, Suit::Diamonds),
    ]);

    assert_eq!(
        straight_flush,
        Tier::StraightFlush(
            Card::new(Rank::Two, Suit::Diamonds),
            Card::new(Rank::Three, Suit::Diamonds),
            Card::new(Rank::Four, Suit::Diamonds),
            Card::new(Rank::Five, Suit::Diamonds),
            Card::new(Rank::Ace, Suit::Diamonds),
        )
    );
}

#[test]
fn test_royal_flush() {
    let royal_flush = Tier::evaluate_hand([
        Card::new(Rank::Ace, Suit::Clubs),
        Card::new(Rank::King, Suit::Clubs),
        Card::new(Rank::Queen, Suit::Clubs),
        Card::new(Rank::Jack, Suit::Clubs),
        Card::new(Rank::Ten, Suit::Clubs),
    ]);

    assert_eq!(
        royal_flush,
        Tier::RoyalFlush(
            Card::new(Rank::Ten, Suit::Clubs),
            Card::new(Rank::Jack, Suit::Clubs),
            Card::new(Rank::Queen, Suit::Clubs),
            Card::new(Rank::King, Suit::Clubs),
            Card::new(Rank::Ace, Suit::Clubs),
        )
    );
}

#[test]
fn test_any_hand() {
    let hand_1 = Tier::evaluate_hand([
        Card::new(Rank::Three, Suit::Diamonds),
        Card::new(Rank::Ace, Suit::Diamonds),
        Card::new(Rank::Three, Suit::Spades),
        Card::new(Rank::Three, Suit::Clubs),
        Card::new(Rank::Three, Suit::Hearts),
    ]);

    let hand_2 = Tier::evaluate_hand([
        Card::new(Rank::Jack, Suit::Diamonds),
        Card::new(Rank::Queen, Suit::Diamonds),
        Card::new(Rank::Jack, Suit::Spades),
        Card::new(Rank::Jack, Suit::Clubs),
        Card::new(Rank::Queen, Suit::Hearts),
    ]);

    let hand_3 = Tier::evaluate_hand([
        Card::new(Rank::Three, Suit::Diamonds),
        Card::new(Rank::Seven, Suit::Diamonds),
        Card::new(Rank::Six, Suit::Spades),
        Card::new(Rank::Four, Suit::Clubs),
        Card::new(Rank::Five, Suit::Hearts),
    ]);

    let hand_4 = Tier::evaluate_hand([
        Card::new(Rank::Three, Suit::Spades),
        Card::new(Rank::Seven, Suit::Spades),
        Card::new(Rank::Six, Suit::Spades),
        Card::new(Rank::Four, Suit::Spades),
        Card::new(Rank::Five, Suit::Spades),
    ]);

    let hand_5 = Tier::evaluate_hand([
        Card::new(Rank::Three, Suit::Spades),
        Card::new(Rank::Three, Suit::Hearts),
        Card::new(Rank::Jack, Suit::Spades),
        Card::new(Rank::Jack, Suit::Diamonds),
        Card::new(Rank::Three, Suit::Clubs),
    ]);

    let hand_6 = Tier::evaluate_hand([
        Card::new(Rank::Three, Suit::Spades),
        Card::new(Rank::Three, Suit::Hearts),
        Card::new(Rank::Ace, Suit::Spades),
        Card::new(Rank::King, Suit::Diamonds),
        Card::new(Rank::Ten, Suit::Clubs),
    ]);

    let hand_7 = Tier::evaluate_hand([
        Card::new(Rank::Three, Suit::Spades),
        Card::new(Rank::Three, Suit::Hearts),
        Card::new(Rank::Ace, Suit::Spades),
        Card::new(Rank::King, Suit::Diamonds),
        Card::new(Rank::King, Suit::Clubs),
    ]);

    let hand_8 = Tier::evaluate_hand([
        Card::new(Rank::Three, Suit::Spades),
        Card::new(Rank::Queen, Suit::Hearts),
        Card::new(Rank::Ten, Suit::Spades),
        Card::new(Rank::Seven, Suit::Diamonds),
        Card::new(Rank::Six, Suit::Clubs),
    ]);

    let hand_9 = Tier::evaluate_hand([
        Card::new(Rank::Three, Suit::Clubs),
        Card::new(Rank::Queen, Suit::Clubs),
        Card::new(Rank::Ten, Suit::Clubs),
        Card::new(Rank::Seven, Suit::Clubs),
        Card::new(Rank::Six, Suit::Clubs),
    ]);

    let hand_10 = Tier::evaluate_hand([
        Card::new(Rank::Seven, Suit::Hearts),
        Card::new(Rank::Queen, Suit::Clubs),
        Card::new(Rank::Seven, Suit::Spades),
        Card::new(Rank::Seven, Suit::Clubs),
        Card::new(Rank::Six, Suit::Diamonds),
    ]);

    let hand_11 = Tier::evaluate_hand([
        Card::new(Rank::Ten, Suit::Hearts),
        Card::new(Rank::Jack, Suit::Hearts),
        Card::new(Rank::Queen, Suit::Hearts),
        Card::new(Rank::King, Suit::Hearts),
        Card::new(Rank::Ace, Suit::Hearts),
    ]);

    let hand_12 = Tier::evaluate_hand([
        Card::new(Rank::Queen, Suit::Hearts),
        Card::new(Rank::Queen, Suit::Diamonds),
        Card::new(Rank::Jack, Suit::Spades),
        Card::new(Rank::King, Suit::Spades),
        Card::new(Rank::Ten, Suit::Spades),
    ]);

    let hand_13 = Tier::evaluate_hand([
        Card::new(Rank::Jack, Suit::Diamonds),
        Card::new(Rank::Seven, Suit::Clubs),
        Card::new(Rank::Five, Suit::Spades),
        Card::new(Rank::Seven, Suit::Hearts),
        Card::new(Rank::Ace, Suit::Clubs),
    ]);

    let hand_14 = Tier::evaluate_hand([
        Card::new(Rank::Nine, Suit::Hearts),
        Card::new(Rank::Queen, Suit::Spades),
        Card::new(Rank::Ace, Suit::Spades),
        Card::new(Rank::Five, Suit::Clubs),
        Card::new(Rank::Eight, Suit::Diamonds),
    ]);

    assert_eq!(hand_1, Tier::FourOfAKind(Rank::Three));
    assert_eq!(hand_2, Tier::FullHouse(Rank::Jack, Rank::Queen));
    assert_eq!(
        hand_3,
        Tier::Straight(Rank::Three, Rank::Four, Rank::Five, Rank::Six, Rank::Seven)
    );

    assert_eq!(
        hand_4,
        Tier::StraightFlush(
            Card::new(Rank::Three, Suit::Spades),
            Card::new(Rank::Four, Suit::Spades),
            Card::new(Rank::Five, Suit::Spades),
            Card::new(Rank::Six, Suit::Spades),
            Card::new(Rank::Seven, Suit::Spades)
        )
    );

    assert_eq!(hand_5, Tier::FullHouse(Rank::Three, Rank::Jack));
    assert_eq!(hand_6, Tier::OnePair(Rank::Three));
    assert_eq!(hand_7, Tier::TwoPair(Rank::Three, Rank::King));
    assert_eq!(hand_8, Tier::HighCard(Rank::Queen));
    assert_eq!(hand_9, Tier::Flush(Suit::Clubs));
    assert_eq!(hand_10, Tier::ThreeOfAKind(Rank::Seven));
    assert_eq!(
        hand_11,
        Tier::RoyalFlush(
            Card::new(Rank::Ten, Suit::Hearts),
            Card::new(Rank::Jack, Suit::Hearts),
            Card::new(Rank::Queen, Suit::Hearts),
            Card::new(Rank::King, Suit::Hearts),
            Card::new(Rank::Ace, Suit::Hearts),
        )
    );

    assert_eq!(hand_12, Tier::OnePair(Rank::Queen));
    assert_eq!(hand_13, Tier::OnePair(Rank::Seven));
    assert_eq!(hand_14, Tier::HighCard(Rank::Ace));
}

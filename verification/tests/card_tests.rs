use poker_game::card::{Card, Deck, Rank, Suit};

#[test]
fn card_test_card_creation() {
    let card = Card::new(Rank::Ace, Suit::Spades);
    assert_eq!(card.rank, Rank::Ace);
    assert_eq!(card.suit, Suit::Spades);
    let card2 = Card::new(Rank::King, Suit::Hearts);
    assert_eq!(card2.rank, Rank::King);
    assert_eq!(card2.suit, Suit::Hearts);
    assert_ne!(card, card2);
}

#[test]
fn card_test_deck_size() {
    let deck = Deck::new();
    assert_eq!(deck.cards.len(), 52);
}

#[test]
fn test_deal_to_players() {
    let mut deck = Deck::new();
    deck.shuffle();
    let hands = deck.deal_to_players(4, 5).unwrap();

    assert_eq!(hands.len(), 4);
    assert_eq!(hands[0].len(), 5);
}

#[test]
fn test_deal_too_many() {
    let mut deck = Deck::new();
    let r = deck.deal(53);
    assert_eq!(r.unwrap_err(), "Not enough cards in the deck");
    assert_eq!(deck.remaining_cards(), 52);
}

#[test]
fn test_deal_to_players_overflow() {
    let mut deck = Deck::new();
    let r = deck.deal_to_players(usize::MAX, 2);
    assert_eq!(r.unwrap_err(), "Not enough cards in the deck");
    assert_eq!(deck.remaining_cards(), 52);
}

#[test]
fn test_draw_until_empty() {
    let mut deck = Deck::new();
    for _ in 0..52 {
        assert!(deck.draw().is_some());
    }
    assert_eq!(deck.draw(), None);
    assert_eq!(deck.remaining_cards(), 0);
}

#[test]
fn test_rank_as_str() {
    assert_eq!(Rank::Two.as_str(), "2");
    assert_eq!(Rank::Ten.as_str(), "10");
    assert_eq!(Rank::Jack.as_str(), "J");
    assert_eq!(Rank::Queen.as_str(), "Q");
    assert_eq!(Rank::King.as_str(), "K");
    assert_eq!(Rank::Ace.as_str(), "A");
}

#[test]
fn test_shuffle_keeps_every_card() {
    let mut deck = Deck::new();
    deck.shuffle();
    assert_eq!(deck.remaining_cards(), 52);
    let mut cards: Vec<Card> = Vec::new();
    while let Some(c) = deck.draw() {
        cards.push(c);
    }
    assert_eq!(cards.len(), 52);
    for suit in [Suit::Hearts, Suit::Diamonds, Suit::Clubs, Suit::Spades] {
        for rank in [
            Rank::Two,
            Rank::Three,
            Rank::Four,
            Rank::Five,
            Rank::Six,
            Rank::Seven,
            Rank::Eight,
            Rank::Nine,
            Rank::Ten,
            Rank::Jack,
            Rank::Queen,
            Rank::King,
            Rank::Ace,
        ] {
            assert!(cards.contains(&Card::new(rank, suit)));
        }
    }
}

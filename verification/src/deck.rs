use vstd::prelude::*;

verus! {

#[derive(Debug, PartialEq, Eq, Copy, Clone, Hash, Structural)]
pub enum Suit {
    Hearts,
    Diamonds,
    Clubs,
    Spades,
}

pub const SUITS: [Suit; 4] = [Suit::Spades, Suit::Hearts, Suit::Diamonds, Suit::Clubs];

/// The fixed order in which `Suit::values` lists the suits.
pub open spec fn all_suits() -> Seq<Suit> {
    seq![Suit::Spades, Suit::Hearts, Suit::Diamonds, Suit::Clubs]
}

impl Suit {
    pub fn values() -> (r: &'static [Self])
        ensures
            r@ == all_suits(),
    {
        proof {
            assert(SUITS@ =~= all_suits());
        }
        &SUITS
    }
}

#[derive(Debug, PartialEq, Eq, Copy, Clone, Hash, Structural)]
pub enum Rank {
    Two,
    Three,
    Four,
    Five,
    Six,
    Seven,
    Eight,
    Nine,
    Ten,
    Jack,
    Queen,
    King,
    Ace,
}

pub const CARD_VALUES: [Rank; 13] = [
    Rank::Two,
    Rank::Three,
    Rank::Four,
    Rank::Five,
    Rank::Six,
    Rank::Seven,
    Rank::Eight,
    Rank::Nine,
    Rank::Ten,
    Rank::Jack,
    Rank::Queen,
    Rank::King,
    Rank::Ace,
];

/// The fixed order in which `Rank::values` lists the ranks, weakest first.
pub open spec fn all_ranks() -> Seq<Rank> {
    seq![
        Rank::Two,
        Rank::Three,
        Rank::Four,
        Rank::Five,
        Rank::Six,
        Rank::Seven,
        Rank::Eight,
        Rank::Nine,
        Rank::Ten,
        Rank::Jack,
        Rank::Queen,
        Rank::King,
        Rank::Ace,
    ]
}

/// The numeric strength of a rank: Two counts 2, up to Ace counting 14.
pub open spec fn rank_strength(r: Rank) -> int {
    match r {
        Rank::Two => 2,
        Rank::Three => 3,
        Rank::Four => 4,
        Rank::Five => 5,
        Rank::Six => 6,
        Rank::Seven => 7,
        Rank::Eight => 8,
        Rank::Nine => 9,
        Rank::Ten => 10,
        Rank::Jack => 11,
        Rank::Queen => 12,
        Rank::King => 13,
        Rank::Ace => 14,
    }
}

/// A stable position for each suit, used only to break ties deterministically
/// and to walk suits in a fixed order; suits carry no strength of their own.
pub open spec fn suit_order(s: Suit) -> int {
    match s {
        Suit::Hearts => 0,
        Suit::Diamonds => 1,
        Suit::Clubs => 2,
        Suit::Spades => 3,
    }
}

pub(crate) fn rank_value(r: Rank) -> (v: u8)
    ensures
        v as int == rank_strength(r),
{
    match r {
        Rank::Two => 2,
        Rank::Three => 3,
        Rank::Four => 4,
        Rank::Five => 5,
        Rank::Six => 6,
        Rank::Seven => 7,
        Rank::Eight => 8,
        Rank::Nine => 9,
        Rank::Ten => 10,
        Rank::Jack => 11,
        Rank::Queen => 12,
        Rank::King => 13,
        Rank::Ace => 14,
    }
}

pub(crate) fn suit_value(s: Suit) -> (v: u8)
    ensures
        v as int == suit_order(s),
{
    match s {
        Suit::Hearts => 0,
        Suit::Diamonds => 1,
        Suit::Clubs => 2,
        Suit::Spades => 3,
    }
}

impl Rank {
    pub fn values() -> (r: &'static [Self])
        ensures
            r@ == all_ranks(),
    {
        proof {
            assert(CARD_VALUES@ =~= all_ranks());
        }
        &CARD_VALUES
    }
}

#[derive(Debug, Clone, Copy, PartialEq, Eq, Structural)]
pub struct Card {
    pub value: Rank,
    pub suit: Suit,
}

impl Card {
    pub fn new(value: Rank, suit: Suit) -> (c: Self)
        ensures
            c == (Card { value, suit }),
    {
        Self { value, suit }
    }

    pub fn get_value(&self) -> (v: Rank)
        ensures
            v == self.value,
    {
        self.value
    }

    pub fn get_suit(&self) -> (s: Suit)
        ensures
            s == self.suit,
    {
        self.suit
    }
}

/// A fresh deck: thirteen ranks for each suit, suits in `all_suits` order.
pub open spec fn full_deck() -> Seq<Card> {
    Seq::new(52, |i: int| Card { value: all_ranks()[i % 13], suit: all_suits()[i / 13] })
}

/// Every card of a fresh deck appears exactly once.
pub proof fn lemma_full_deck_distinct()
    ensures
        forall|i: int, j: int|
            0 <= i < j < 52 ==> #[trigger] full_deck()[i] != #[trigger] full_deck()[j],
{
    assert forall|i: int, j: int| 0 <= i < j < 52 implies #[trigger] full_deck()[i]
        != #[trigger] full_deck()[j] by {
        assert(i == 13 * (i / 13) + i % 13);
        assert(j == 13 * (j / 13) + j % 13);
    }
}

#[derive(Debug, Clone, PartialEq, Eq)]
pub struct Deck {
    pub deck: Vec<Card>,
}

impl Deck {
    pub fn new() -> (d: Self)
        ensures
            d.deck@ == full_deck(),
            d.deck@.len() == 52,
    {
        let suits = Suit::values();
        let ranks = Rank::values();
        let mut deck: Vec<Card> = Vec::new();
        let mut i: usize = 0;
        while i < 52
            invariant
                i <= 52,
                deck@.len() == i,
                suits@ == all_suits(),
                ranks@ == all_ranks(),
                forall|k: int| 0 <= k < i ==> deck@[k] == full_deck()[k],
            decreases 52 - i,
        {
            let card = Card { value: ranks[i % 13], suit: suits[i / 13] };
            deck.push(card);
            i = i + 1;
        }
        assert(deck@ =~= full_deck());
        Self { deck }
    }

    /// Puts the deck into a random order; the same 52 cards stay in it.
    pub fn shuffle(&mut self)
        ensures
            final(self).deck@.len() == old(self).deck@.len(),
            final(self).deck@.to_multiset() == old(self).deck@.to_multiset(),
    {
        crate::shuffle::shuffle_vec(&mut self.deck);
    }

    pub fn draw_card(&mut self) -> (c: Option<Card>)
        ensures
            old(self).deck@.len() > 0 ==> c == Some(old(self).deck@[old(self).deck@.len() - 1])
                && final(self).deck@ == old(self).deck@.subrange(0, old(self).deck@.len() - 1),
            old(self).deck@.len() == 0 ==> c == None::<Card> && final(self).deck@ == old(
                self,
            ).deck@,
    {
        self.deck.pop()
    }

    pub fn remaining_cards(&self) -> (n: usize)
        ensures
            n == self.deck@.len(),
    {
        self.deck.len()
    }

    /// Removes the top `count` cards and hands them out in deck order; a
    /// request for more cards than remain fails and leaves the deck as it is.
    pub fn deal(&mut self, count: usize) -> (r: Result<Vec<Card>, &'static str>)
        ensures
            count > old(self).deck@.len() ==> (r matches Err(e) && e@
                == "Not enough cards in the deck"@ && final(self).deck@ == old(self).deck@),
            count <= old(self).deck@.len() ==> (r matches Ok(dealt) && dealt@ == old(
                self,
            ).deck@.subrange(
                old(self).deck@.len() - count,
                old(self).deck@.len() as int,
            ) && final(self).deck@ == old(self).deck@.subrange(
                0,
                old(self).deck@.len() - count,
            )),
    {
        if count > self.deck.len() {
            Err("Not enough cards in the deck")
        } else {
            let at = self.deck.len() - count;
            Ok(self.deck.split_off(at))
        }
    }
}

} // verus!

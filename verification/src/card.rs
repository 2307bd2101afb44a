use vstd::prelude::*;

verus! {

#[derive(Clone, Copy, Debug, PartialEq, Eq, Hash, Structural)]
pub enum Suit {
    Hearts,
    Diamonds,
    Clubs,
    Spades,
}

#[derive(Clone, Copy, Debug, PartialEq, Eq, Hash, Structural)]
pub enum Rank {
    Two,
    Three,
    Four,
    Five,
    Six,
    Seven,
    Eight,
    Nine,
    Ten,
    Jack,
    Queen,
    King,
    Ace,
}

/// The text symbol of a rank, as it is shown to a player.
pub open spec fn spec_rank_symbol(r: Rank) -> Seq<char> {
    match r {
        Rank::Two => "2"@,
        Rank::Three => "3"@,
        Rank::Four => "4"@,
        Rank::Five => "5"@,
        Rank::Six => "6"@,
        Rank::Seven => "7"@,
        Rank::Eight => "8"@,
        Rank::Nine => "9"@,
        Rank::Ten => "10"@,
        Rank::Jack => "J"@,
        Rank::Queen => "Q"@,
        Rank::King => "K"@,
        Rank::Ace => "A"@,
    }
}

impl Rank {
    pub fn as_str(&self) -> (r: &str)
        ensures
            r@ == spec_rank_symbol(*self),
    {
        match *self {
            Rank::Two => "2",
            Rank::Three => "3",
            Rank::Four => "4",
            Rank::Five => "5",
            Rank::Six => "6",
            Rank::Seven => "7",
            Rank::Eight => "8",
            Rank::Nine => "9",
            Rank::Ten => "10",
            Rank::Jack => "J",
            Rank::Queen => "Q",
            Rank::King => "K",
            Rank::Ace => "A",
        }
    }
}

#[derive(Clone, Copy, Debug, PartialEq, Eq, Hash, Structural)]
pub struct Card {
    pub rank: Rank,
    pub suit: Suit,
}

impl Card {
    pub fn new(rank: Rank, suit: Suit) -> (c: Self)
        ensures
            c == (Card { rank, suit }),
    {
        Card { rank, suit }
    }

    pub fn get_rank(&self) -> (r: Rank)
        ensures
            r == self.rank,
    {
        self.rank
    }

    pub fn get_suit(&self) -> (s: Suit)
        ensures
            s == self.suit,
    {
        self.suit
    }
}

/// The rank that a fresh deck holds at offset `i` within one suit block,
/// counting Two..Ace.
pub open spec fn deck_rank_at(i: int) -> Rank {
    if i == 0 {
        Rank::Two
    } else if i == 1 {
        Rank::Three
    } else if i == 2 {
        Rank::Four
    } else if i == 3 {
        Rank::Five
    } else if i == 4 {
        Rank::Six
    } else if i == 5 {
        Rank::Seven
    } else if i == 6 {
        Rank::Eight
    } else if i == 7 {
        Rank::Nine
    } else if i == 8 {
        Rank::Ten
    } else if i == 9 {
        Rank::Jack
    } else if i == 10 {
        Rank::Queen
    } else if i == 11 {
        Rank::King
    } else {
        Rank::Ace
    }
}

/// The suit of the `i`-th block of thirteen cards in a fresh deck.
pub open spec fn deck_suit_at(i: int) -> Suit {
    if i == 0 {
        Suit::Hearts
    } else if i == 1 {
        Suit::Diamonds
    } else if i == 2 {
        Suit::Clubs
    } else {
        Suit::Spades
    }
}

/// A fresh deck: four blocks of thirteen ranks, one block per suit.
pub open spec fn full_deck() -> Seq<Card> {
    Seq::new(52, |i: int| Card { rank: deck_rank_at(i % 13), suit: deck_suit_at(i / 13) })
}

/// Every card of a fresh deck appears exactly once.
pub proof fn lemma_full_deck_distinct()
    ensures
        forall|i: int, j: int|
            0 <= i < j < 52 ==> #[trigger] full_deck()[i] != #[trigger] full_deck()[j],
{
    assert forall|i: int, j: int| 0 <= i < j < 52 implies #[trigger] full_deck()[i]
        != #[trigger] full_deck()[j] by {
        assert(i == 13 * (i / 13) + i % 13);
        assert(j == 13 * (j / 13) + j % 13);
    }
}

fn exec_deck_rank_at(i: usize) -> (r: Rank)
    requires
        i < 13,
    ensures
        r == deck_rank_at(i as int),
{
    if i == 0 {
        Rank::Two
    } else if i == 1 {
        Rank::Three
    } else if i == 2 {
        Rank::Four
    } else if i == 3 {
        Rank::Five
    } else if i == 4 {
        Rank::Six
    } else if i == 5 {
        Rank::Seven
    } else if i == 6 {
        Rank::Eight
    } else if i == 7 {
        Rank::Nine
    } else if i == 8 {
        Rank::Ten
    } else if i == 9 {
        Rank::Jack
    } else if i == 10 {
        Rank::Queen
    } else if i == 11 {
        Rank::King
    } else {
        Rank::Ace
    }
}

fn exec_deck_suit_at(i: usize) -> (s: Suit)
    requires
        i < 4,
    ensures
        s == deck_suit_at(i as int),
{
    if i == 0 {
        Suit::Hearts
    } else if i == 1 {
        Suit::Diamonds
    } else if i == 2 {
        Suit::Clubs
    } else {
        Suit::Spades
    }
}

pub struct Deck {
    pub cards: Vec<Card>,
}

impl Deck {
    pub fn new() -> (d: Self)
        ensures
            d.cards@ == full_deck(),
            d.cards@.len() == 52,
    {
        let mut cards: Vec<Card> = Vec::new();
        let mut i: usize = 0;
        while i < 52
            invariant
                i <= 52,
                cards@.len() == i,
                forall|k: int| 0 <= k < i ==> cards@[k] == full_deck()[k],
            decreases 52 - i,
        {
            let rank = exec_deck_rank_at(i % 13);
            let suit = exec_deck_suit_at(i / 13);
            cards.push(Card { rank, suit });
            i = i + 1;
        }
        assert(cards@ =~= full_deck());
        Deck { cards }
    }

    /// Puts the deck into a random order; the same 52 cards stay in it.
    pub fn shuffle(&mut self)
        ensures
            final(self).cards@.len() == old(self).cards@.len(),
            final(self).cards@.to_multiset() == old(self).cards@.to_multiset(),
    {
        crate::shuffle::shuffle_vec(&mut self.cards);
    }

    pub fn draw(&mut self) -> (c: Option<Card>)
        ensures
            old(self).cards@.len() > 0 ==> c == Some(old(self).cards@[old(self).cards@.len() - 1])
                && final(self).cards@ == old(self).cards@.subrange(
                0,
                old(self).cards@.len() - 1,
            ),
            old(self).cards@.len() == 0 ==> c == None::<Card> && final(self).cards@ == old(self).cards@,
    {
        self.cards.pop()
    }

    pub fn remaining_cards(&self) -> (n: usize)
        ensures
            n == self.cards@.len(),
    {
        self.cards.len()
    }

    /// Removes the top `count` cards and hands them out in deck order; a
    /// request for more cards than remain fails and leaves the deck as it is.
    pub fn deal(&mut self, count: usize) -> (r: Result<Vec<Card>, &'static str>)
        ensures
            count > old(self).cards@.len() ==> (r matches Err(e) && e@
                == "Not enough cards in the deck"@ && final(self).cards@ == old(self).cards@),
            count <= old(self).cards@.len() ==> (r matches Ok(dealt) && dealt@ == old(
                self,
            ).cards@.subrange(
                old(self).cards@.len() - count,
                old(self).cards@.len() as int,
            ) && final(self).cards@ == old(self).cards@.subrange(
                0,
                old(self).cards@.len() - count,
            )),
    {
        if count > self.cards.len() {
            Err("Not enough cards in the deck")
        } else {
            let at = self.cards.len() - count;
            Ok(self.cards.split_off(at))
        }
    }

    /// Deals `cards_per_player` cards to each of `num_players` players, or
    /// fails without touching the deck when it does not hold enough cards.
    pub fn deal_to_players(&mut self, num_players: usize, cards_per_player: usize) -> (r: Result<
        Vec<Vec<Card>>,
        &'static str,
    >)
        ensures
            num_players * cards_per_player > old(self).cards@.len() ==> (r matches Err(e) && e@
                == "Not enough cards in the deck"@ && final(self).cards@ == old(self).cards@),
            num_players * cards_per_player <= old(self).cards@.len() ==> (r matches Ok(hands)
                && hands@.len() == num_players && final(self).cards@ == old(
                self,
            ).cards@.subrange(
                0,
                old(self).cards@.len() - num_players * cards_per_player,
            ) && forall|k: int|
                0 <= k < num_players ==> (#[trigger] hands@[k])@ == old(self).cards@.subrange(
                    old(self).cards@.len() - (k + 1) * cards_per_player,
                    old(self).cards@.len() - k * cards_per_player,
                )),
    {
        let len = self.cards.len();
        let total = match num_players.checked_mul(cards_per_player) {
            Some(t) => t,
            None => {
                return Err("Not enough cards in the deck");
            },
        };
        if total > len {
            return Err("Not enough cards in the deck");
        }
        let ghost len0 = self.cards@.len() as int;
        let mut hands: Vec<Vec<Card>> = Vec::new();
        let mut k: usize = 0;
        while k < num_players
            invariant
                k <= num_players,
                total == num_players * cards_per_player,
                total <= len0,
                len0 == old(self).cards@.len(),
                self.cards@ == old(self).cards@.subrange(0, len0 - k * cards_per_player),
                hands@.len() == k,
                forall|j: int|
                    0 <= j < k ==> (#[trigger] hands@[j])@ == old(self).cards@.subrange(
                        len0 - (j + 1) * cards_per_player,
                        len0 - j * cards_per_player,
                    ),
            decreases num_players - k,
        {
            proof {
                assert((k + 1) * cards_per_player <= num_players * cards_per_player && k
                    * cards_per_player + cards_per_player == (k + 1) * cards_per_player)
                    by (nonlinear_arith)
                    requires
                        k < num_players,
                ;
            }
            // Enough cards remain for this deal, so the error arm is dead.
            let hand = match self.deal(cards_per_player) {
                Ok(h) => h,
                Err(e) => {
                    proof {
                        assert(false);
                    }
                    return Err(e);
                },
            };
            proof {
                assert(hand@ =~= old(self).cards@.subrange(
                    len0 - (k + 1) * cards_per_player,
                    len0 - k * cards_per_player,
                ));
                assert(self.cards@ =~= old(self).cards@.subrange(
                    0,
                    len0 - (k + 1) * cards_per_player,
                ));
            }
            hands.push(hand);
            k = k + 1;
        }
        Ok(hands)
    }
}

} // verus!

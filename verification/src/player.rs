use vstd::prelude::*;
use crate::card::{Card, Rank, Suit};

verus! {

pub struct Player<'a> {
    pub name: &'a str,
    pub chips: u32,
    pub hand: Vec<Card>,
    pub is_playing: bool,
    pub is_small_blind: bool,
    pub is_big_blind: bool,
}

impl<'a> Player<'a> {
    pub fn new(name: &'a str, chips: u32) -> (p: Self)
        ensures
            p.name@ == name@,
            p.chips == chips,
            p.hand@.len() == 0,
            p.is_playing,
            !p.is_small_blind,
            !p.is_big_blind,
    {
        Self {
            name,
            chips,
            hand: Vec::new(),
            is_playing: true,
            is_small_blind: false,
            is_big_blind: false,
        }
    }

    pub fn receive_card(&mut self, card: Card)
        ensures
            final(self).hand@ == old(self).hand@.push(card),
            final(self).chips == old(self).chips,
            final(self).name@ == old(self).name@,
            final(self).is_playing == old(self).is_playing,
            final(self).is_small_blind == old(self).is_small_blind,
            final(self).is_big_blind == old(self).is_big_blind,
    {
        self.hand.push(card);
    }

    /// Pays `amount` out of the player's chips; a bet the player cannot
    /// cover is ignored.
    pub fn raise(&mut self, amount: u32)
        ensures
            old(self).chips >= amount ==> final(self).chips == old(self).chips - amount,
            old(self).chips < amount ==> final(self).chips == old(self).chips,
            final(self).hand@ == old(self).hand@,
            final(self).name@ == old(self).name@,
            final(self).is_playing == old(self).is_playing,
            final(self).is_small_blind == old(self).is_small_blind,
            final(self).is_big_blind == old(self).is_big_blind,
    {
        if self.chips >= amount {
            self.chips = self.chips - amount;
        }
    }

    pub fn fold(&mut self)
        ensures
            !final(self).is_playing,
            final(self).chips == old(self).chips,
            final(self).hand@ == old(self).hand@,
            final(self).name@ == old(self).name@,
            final(self).is_small_blind == old(self).is_small_blind,
            final(self).is_big_blind == old(self).is_big_blind,
    {
        self.is_playing = false;
    }

    /// Marks the player as small blind and takes the 25-chip stake.
    pub fn small_blind(&mut self)
        ensures
            final(self).is_small_blind,
            old(self).chips >= 25 ==> final(self).chips == old(self).chips - 25,
            old(self).chips < 25 ==> final(self).chips == old(self).chips,
            final(self).hand@ == old(self).hand@,
            final(self).name@ == old(self).name@,
            final(self).is_playing == old(self).is_playing,
            final(self).is_big_blind == old(self).is_big_blind,
    {
        self.is_small_blind = true;
        self.raise(25);
    }

    /// Marks the player as big blind and takes the 50-chip stake.
    pub fn big_blind(&mut self)
        ensures
            final(self).is_big_blind,
            old(self).chips >= 50 ==> final(self).chips == old(self).chips - 50,
            old(self).chips < 50 ==> final(self).chips == old(self).chips,
            final(self).hand@ == old(self).hand@,
            final(self).name@ == old(self).name@,
            final(self).is_playing == old(self).is_playing,
            final(self).is_small_blind == old(self).is_small_blind,
    {
        self.is_big_blind = true;
        self.raise(50);
    }

    pub fn clear_hand(&mut self)
        ensures
            final(self).hand@.len() == 0,
            final(self).chips == old(self).chips,
            final(self).name@ == old(self).name@,
            final(self).is_playing == old(self).is_playing,
            final(self).is_small_blind == old(self).is_small_blind,
            final(self).is_big_blind == old(self).is_big_blind,
    {
        self.hand.clear();
    }

    /// The ranks of the cards in hand, in the order they were received.
    pub fn get_hand_value(&self) -> (r: Vec<Rank>)
        ensures
            r@.len() == self.hand@.len(),
            forall|i: int| 0 <= i < r@.len() ==> r@[i] == self.hand@[i].rank,
    {
        let mut r: Vec<Rank> = Vec::new();
        let mut i: usize = 0;
        while i < self.hand.len()
            invariant
                i <= self.hand@.len(),
                r@.len() == i,
                forall|k: int| 0 <= k < i ==> r@[k] == self.hand@[k].rank,
            decreases self.hand@.len() - i,
        {
            r.push(self.hand[i].get_rank());
            i = i + 1;
        }
        r
    }

    /// The suits of the cards in hand, in the order they were received.
    pub fn get_hand_suits(&self) -> (r: Vec<Suit>)
        ensures
            r@.len() == self.hand@.len(),
            forall|i: int| 0 <= i < r@.len() ==> r@[i] == self.hand@[i].suit,
    {
        let mut r: Vec<Suit> = Vec::new();
        let mut i: usize = 0;
        while i < self.hand.len()
            invariant
                i <= self.hand@.len(),
                r@.len() == i,
                forall|k: int| 0 <= k < i ==> r@[k] == self.hand@[k].suit,
            decreases self.hand@.len() - i,
        {
            r.push(self.hand[i].get_suit());
            i = i + 1;
        }
        r
    }

    pub fn is_busted(&self) -> (b: bool)
        ensures
            b == (self.chips == 0),
    {
        self.chips == 0
    }
}

} // verus!

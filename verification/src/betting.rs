use vstd::prelude::*;

verus! {

#[derive(Debug, Clone, Copy, PartialEq, Eq, Structural)]
pub enum Action {
    Fold,
    Check,
    Call(u32),
    Raise(u32),
}

pub struct Round {
    pub is_over: bool,
}

impl Round {
    pub fn new() -> (r: Self)
        ensures
            !r.is_over,
    {
        Self { is_over: false }
    }

    pub fn end_round(&mut self)
        ensures
            final(self).is_over,
    {
        self.is_over = true;
    }
}

pub struct Pot {
    pub total: u32,
}

impl Pot {
    pub fn new() -> (p: Self)
        ensures
            p.total == 0,
    {
        Self { total: 0 }
    }

    pub fn add(&mut self, amount: u32)
        requires
            old(self).total + amount <= u32::MAX,
        ensures
            final(self).total == old(self).total + amount,
    {
        self.total = self.total + amount;
    }
}

} // verus!

//! The usage and limit of one card.
use vstd::prelude::*;

verus! {

/// The state of a card: its id, what it has spent, and its limit if it has one.
#[derive(Debug, Clone, Copy, PartialEq, Eq, Structural)]
pub struct CardState {
    pub card_id: u32,
    pub current_usage: u32,
    pub limit: Option<u32>,
}

/// The register of a card's usage and limit.
#[derive(Debug, Clone, Copy)]
pub struct SpendingInfoRegister {
    card_id: u32,
    current_usage: u32,
    limit: Option<u32>,
}

impl View for SpendingInfoRegister {
    type V = CardState;

    closed spec fn view(&self) -> CardState {
        CardState { card_id: self.card_id, current_usage: self.current_usage, limit: self.limit }
    }
}

impl SpendingInfoRegister {
    /// A card that has spent nothing yet.
    pub fn new(card_id: u32, limit: Option<u32>) -> (r: Self)
        ensures
            r@ == (CardState { card_id, current_usage: 0, limit }),
    {
        Self { card_id, current_usage: 0, limit }
    }

    /// Adds `inc` to the usage.
    pub fn increase_usage(&mut self, inc: u32)
        requires
            old(self)@.current_usage + inc <= u32::MAX,
        ensures
            final(self)@ == (CardState { current_usage: (old(self)@.current_usage + inc) as u32, ..old(self)@ }),
    {
        self.current_usage = self.current_usage + inc;
    }

    /// Replaces the usage.
    pub fn set_usage(&mut self, usage: u32)
        ensures
            final(self)@ == (CardState { current_usage: usage, ..old(self)@ }),
    {
        self.current_usage = usage;
    }

    /// Raises the limit by `inc`; a card without a limit gets `inc`.
    pub fn increment_limit(&mut self, inc: u32)
        requires
            limit_or_zero(old(self)@.limit) + inc <= u32::MAX,
        ensures
            final(self)@ == (CardState { limit: Some((limit_or_zero(old(self)@.limit) + inc) as u32), ..old(self)@ }),
    {
        let base = match self.limit {
            Some(l) => l,
            None => 0,
        };
        self.limit = Some(base + inc);
    }

    /// Lowers the limit by `dec`, from 0 for a card without a limit.
    pub fn decrement_limit(&mut self, dec: u32)
        requires
            limit_or_zero(old(self)@.limit) >= dec,
        ensures
            final(self)@ == (CardState { limit: Some((limit_or_zero(old(self)@.limit) - dec) as u32), ..old(self)@ }),
    {
        let base = match self.limit {
            Some(l) => l,
            None => 0,
        };
        self.limit = Some(base - dec);
    }

    /// Replaces the limit.
    pub fn set_limit(&mut self, new_limit: Option<u32>)
        ensures
            final(self)@ == (CardState { limit: new_limit, ..old(self)@ }),
    {
        self.limit = new_limit;
    }

    pub fn get_card_id(&self) -> (r: u32)
        ensures
            r == self@.card_id,
    {
        self.card_id
    }

    pub fn get_current_usage(&self) -> (r: u32)
        ensures
            r == self@.current_usage,
    {
        self.current_usage
    }

    pub fn get_limit(&self) -> (r: Option<u32>)
        ensures
            r == self@.limit,
    {
        self.limit
    }
}

/// A limit, or 0 when there is none.
pub open spec fn limit_or_zero(l: Option<u32>) -> nat {
    match l {
        Some(v) => v as nat,
        None => 0,
    }
}

} // verus!

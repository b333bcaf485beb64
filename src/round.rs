//! The round clock.
use vstd::prelude::*;
use crate::bond::{BlockNumber, RoundIndex};

verus! {

/// `x`, or the largest `u32` where `x` is larger.
pub open spec fn saturate_u32(x: int) -> u32 {
    if x > u32::MAX {
        u32::MAX
    } else {
        x as u32
    }
}

/// The current round: its index, the block it started at, and its length in blocks.
#[derive(Clone, Copy, Debug, PartialEq, Eq, Structural)]
pub struct RoundInfo {
    /// Index of the current round.
    pub index: RoundIndex,
    /// Block at which the round started.
    pub start_in: BlockNumber,
    /// Length of the round, in blocks.
    pub length: u32,
}

impl RoundInfo {
    pub fn new(index: u32, start_in: BlockNumber, length: u32) -> (r: Self)
        ensures
            r == (RoundInfo { index, start_in, length }),
    {
        RoundInfo { index, start_in, length }
    }

    /// The index of the round after this one.
    pub fn next_round_index(&self) -> (r: u32)
        ensures
            r == saturate_u32(self.index + 1),
    {
        self.index.saturating_add(1)
    }

    /// Starts the next round at block `now`, with `length` blocks.
    pub fn update(&mut self, now: BlockNumber, length: u32)
        ensures
            *final(self) == (RoundInfo {
                index: saturate_u32(old(self).index + 1),
                start_in: now,
                length,
            }),
    {
        self.index = self.index.saturating_add(1);
        self.start_in = now;
        self.length = length;
    }

    /// Whether the round is over at block `now`: `length` blocks have passed since
    /// it started.
    pub fn should_goto_next_round(&self, now: BlockNumber) -> (r: bool)
        ensures
            r == (now - self.start_in >= self.length),
    {
        now >= self.start_in && now - self.start_in >= self.length
    }

    /// The block at which the next election is expected: the end of this round
    /// when its index is even, one round of `default_length` later when it is odd.
    pub fn next_election_prediction(&self, default_length: u32) -> (r: BlockNumber)
        ensures
            r == (if self.index % 2 == 0 {
                saturate_u32(self.start_in + self.length)
            } else {
                saturate_u32(self.start_in + self.length + default_length)
            }),
    {
        if self.index % 2 == 0 {
            self.start_in.saturating_add(self.length)
        } else {
            self.start_in.saturating_add(self.length).saturating_add(default_length)
        }
    }
}

} // verus!

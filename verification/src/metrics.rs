use vstd::prelude::*;

verus! {

/// Running counters of player actions over the run.
#[derive(Debug, Clone, Copy, PartialEq, Eq, Structural)]
pub struct GameMetrics {
    pub clicks: u32,
    pub hands_played: u32,
    pub discards_used: u32,
}

/// `n + 1`, stopping at the top of the `u32` range.
pub open spec fn bump(n: u32) -> u32 {
    if n < u32::MAX {
        (n + 1) as u32
    } else {
        u32::MAX
    }
}

impl GameMetrics {
    pub fn new() -> (m: GameMetrics)
        ensures
            m == (GameMetrics { clicks: 0, hands_played: 0, discards_used: 0 }),
    {
        GameMetrics { clicks: 0, hands_played: 0, discards_used: 0 }
    }

    /// Record one card click.
    pub fn log_click(&mut self, card_index: usize)
        ensures
            *final(self) == (GameMetrics { clicks: bump(old(self).clicks), ..*old(self) }),
    {
        self.clicks = self.clicks.saturating_add(1);
    }

    /// Record one played hand scoring `score` points.
    pub fn log_play(&mut self, score: u64)
        ensures
            *final(self) == (GameMetrics { hands_played: bump(old(self).hands_played), ..*old(self) }),
    {
        self.hands_played = self.hands_played.saturating_add(1);
    }

    /// Record one discard of `count` cards.
    pub fn log_discard(&mut self, count: usize)
        ensures
            *final(self) == (GameMetrics { discards_used: bump(old(self).discards_used), ..*old(self) }),
    {
        self.discards_used = self.discards_used.saturating_add(1);
    }
}

} // verus!

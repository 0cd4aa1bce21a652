use vstd::prelude::*;

verus! {

/// The nine poker hand categories, from weakest to strongest.
#[derive(Clone, Copy, Debug, PartialEq, Eq, Structural, PartialOrd, Ord, Hash)]
pub enum HandRank {
    HighCard,
    Pair,
    TwoPair,
    ThreeOfAKind,
    Straight,
    Flush,
    FullHouse,
    FourOfAKind,
    StraightFlush,
}

impl HandRank {
    /// Position of this category in the total order: `HighCard` is 0,
    /// `StraightFlush` is 8.
    pub open spec fn order(self) -> int {
        match self {
            HandRank::HighCard => 0,
            HandRank::Pair => 1,
            HandRank::TwoPair => 2,
            HandRank::ThreeOfAKind => 3,
            HandRank::Straight => 4,
            HandRank::Flush => 5,
            HandRank::FullHouse => 6,
            HandRank::FourOfAKind => 7,
            HandRank::StraightFlush => 8,
        }
    }

    /// Whether `self` is a strictly stronger category than `other`.
    pub open spec fn beats(self, other: HandRank) -> bool {
        self.order() > other.order()
    }
}

} // verus!

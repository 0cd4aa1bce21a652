use vstd::prelude::*;

verus! {

/// A playing card. `suit` ranges over 0..4 (0 = Hearts, 1 = Diamonds,
/// 2 = Spades, 3 = Clubs) and `value` over 2..=14, where 11, 12 and 13 are
/// Jack, Queen and King and 14 is the high Ace. `id` is stable for the run,
/// and `is_selected` marks the card as part of the current selection.
#[derive(Clone, Copy, Debug, PartialEq, Eq, Structural)]
pub struct Card {
    pub id: i32,
    pub suit: i32,
    pub value: i32,
    pub is_selected: bool,
}

impl Card {
    /// The card's fields lie within the playing-card ranges.
    pub open spec fn wf(self) -> bool {
        &&& 0 <= self.suit < 4
        &&& 2 <= self.value <= 14
    }

    /// A blank card carrying only its identity; suit and value are filled in
    /// when the deck is built.
    pub fn new(id: i32) -> (c: Card)
        ensures
            c == (Card { id, suit: 0, value: 0, is_selected: false }),
    {
        Card { id, suit: 0, value: 0, is_selected: false }
    }
}

/// Every card of the sequence lies within the playing-card ranges.
pub open spec fn all_wf(s: Seq<Card>) -> bool {
    forall|i: int| 0 <= i < s.len() ==> #[trigger] s[i].wf()
}

} // verus!

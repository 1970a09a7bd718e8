use vstd::prelude::*;

use crate::cards::hand_cards;
use deckofcards::Card;
use deckofcards::Hand;

verus! {

/// The ordered, append-only collection of hands one identity owns for the
/// round: one hand per live wager. One identity may own several hands after
/// a future split, which is why the container is plural.
pub struct Hands {
    hands: Vec<Hand>,
}

impl View for Hands {
    type V = Seq<Seq<Card>>;

    closed spec fn view(&self) -> Seq<Seq<Card>> {
        self.hands@.map_values(|h: Hand| hand_cards(h))
    }
}

impl Hands {
    /// An empty collection: no wagers yet, or a sitting-out round.
    pub fn new() -> (r: Hands)
        ensures
            r@ =~= Seq::<Seq<Card>>::empty(),
    {
        Hands::from_vec(Vec::new())
    }

    /// Wraps already-dealt hands, in deal order.
    pub fn from_vec(hands: Vec<Hand>) -> (r: Hands)
        ensures
            r@.len() == hands@.len(),
            forall|i: int| 0 <= i < hands@.len() ==> r@[i] == hand_cards(hands@[i]),
    {
        Hands { hands }
    }

    /// Appends one hand. Nothing removes a hand before settlement.
    pub fn add(&mut self, hand: Hand)
        ensures
            final(self)@ == old(self)@.push(hand_cards(hand)),
    {
        self.hands.push(hand);
        proof {
            assert(self.hands@.map_values(|h: Hand| hand_cards(h)) =~= old(
                self,
            ).hands@.map_values(|h: Hand| hand_cards(h)).push(hand_cards(hand)));
        }
    }

    /// How many hands the identity holds.
    pub fn count(&self) -> (r: usize)
        ensures
            r as int == self@.len(),
    {
        self.hands.len()
    }

    /// The hands themselves, in deal order.
    pub fn all(&self) -> (r: &Vec<Hand>)
        ensures
            r@.len() == self@.len(),
            forall|i: int| 0 <= i < r@.len() ==> hand_cards(r@[i]) == self@[i],
    {
        &self.hands
    }
}

} // verus!

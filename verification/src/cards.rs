//! The trusted boundary to the `deckofcards` crate, which supplies the card
//! values, the deck the shoe draws from, and the hand container. Everything
//! here is believed, not proved; the rest of the crate is verified against
//! these contracts.

use vstd::prelude::*;
use vstd::multiset::Multiset;

verus! {

#[verifier::external_type_specification]
#[verifier::external_body]
pub struct ExCard(deckofcards::Card);

#[verifier::external_type_specification]
#[verifier::external_body]
pub struct ExDeck(deckofcards::Deck);

#[verifier::external_type_specification]
#[verifier::external_body]
pub struct ExHand(deckofcards::Hand);

/// The undealt cards of a deck, ordered so that index 0 is the next card dealt.
pub uninterp spec fn deck_undealt(d: deckofcards::Deck) -> Seq<deckofcards::Card>;

/// The cards a deck has already dealt out. Dealt cards stay members of the
/// deck until it is reset, so the deck's full multiset is conserved.
pub uninterp spec fn deck_dealt(d: deckofcards::Deck) -> Multiset<deckofcards::Card>;

/// The cards a hand holds, in the order they were put into it.
pub uninterp spec fn hand_cards(h: deckofcards::Hand) -> Seq<deckofcards::Card>;

/// Relies on deckofcards::Card::all_cards: a standard deck of 52 cards, each
/// rank-suit combination exactly once, so no card repeats.
#[verifier::external_body]
pub(crate) fn standard_cards() -> (r: Vec<deckofcards::Card>)
    ensures
        r@.len() == 52,
        forall|i: int, j: int| 0 <= i < j < r@.len() ==> r@[i] != r@[j],
{
    deckofcards::Card::all_cards().to_vec()
}

/// Relies on deckofcards::Deck::from_cards: the new deck holds exactly the
/// given cards, all of them undealt.
#[verifier::external_body]
pub(crate) fn deck_from_cards(cards: &Vec<deckofcards::Card>) -> (r: deckofcards::Deck)
    ensures
        deck_undealt(r).to_multiset() == cards@.to_multiset(),
        deck_dealt(r) == Multiset::<deckofcards::Card>::empty(),
{
    deckofcards::Deck::from_cards(cards.as_slice())
}

/// Relies on deckofcards::Cards::shuffle (a Knuth shuffle): it permutes the
/// undealt cards in place and leaves the dealt pile alone. Nothing is assumed
/// of the resulting order.
#[verifier::external_body]
pub(crate) fn deck_shuffle(d: &mut deckofcards::Deck)
    ensures
        deck_undealt(*final(d)).to_multiset() == deck_undealt(*old(d)).to_multiset(),
        deck_dealt(*final(d)) == deck_dealt(*old(d)),
{
    deckofcards::Cards::shuffle(d)
}

/// Relies on deckofcards::Deck::undealt_count: how many cards remain undealt.
#[verifier::external_body]
pub(crate) fn deck_undealt_count(d: &deckofcards::Deck) -> (r: usize)
    ensures
        r as int == deck_undealt(*d).len(),
{
    d.undealt_count()
}

/// Relies on deckofcards::Deck::dealt_count: how many cards have been dealt.
#[verifier::external_body]
pub(crate) fn deck_dealt_count(d: &deckofcards::Deck) -> (r: usize)
    ensures
        r as int == deck_dealt(*d).len(),
{
    d.dealt_count()
}

/// Relies on deckofcards::Deck::deal: with `n` at most the undealt count it
/// deals exactly the next `n` cards, in deal order, moving them from the
/// undealt pile to the dealt pile.
#[verifier::external_body]
pub(crate) fn deck_deal(d: &mut deckofcards::Deck, n: usize) -> (r: Vec<deckofcards::Card>)
    requires
        n as int <= deck_undealt(*old(d)).len(),
    ensures
        r@ == deck_undealt(*old(d)).take(n as int),
        deck_undealt(*final(d)) == deck_undealt(*old(d)).skip(n as int),
        deck_dealt(*final(d)) == deck_dealt(*old(d)).add(r@.to_multiset()),
{
    d.deal(n)
}

/// Relies on deckofcards::Deck::reset_shuffle: every dealt card returns to
/// the undealt pile and the whole deck is reshuffled, so the deck's full
/// multiset is conserved while nothing is assumed of the new order.
#[verifier::external_body]
pub(crate) fn deck_reset_shuffle(d: &mut deckofcards::Deck)
    ensures
        deck_undealt(*final(d)).to_multiset() == deck_undealt(*old(d)).to_multiset().add(
            deck_dealt(*old(d)),
        ),
        deck_dealt(*final(d)) == Multiset::<deckofcards::Card>::empty(),
{
    d.reset_shuffle()
}

/// Relies on deckofcards::Hand::new: a hand that holds no cards.
#[verifier::external_body]
pub(crate) fn new_hand() -> (r: deckofcards::Hand)
    ensures
        hand_cards(r) == Seq::<deckofcards::Card>::empty(),
{
    deckofcards::Hand::new()
}

/// Relies on deckofcards::Hand::push_card: appends one card to the end of the
/// hand.
#[verifier::external_body]
pub(crate) fn hand_push(h: &mut deckofcards::Hand, card: deckofcards::Card)
    ensures
        hand_cards(*final(h)) == hand_cards(*old(h)).push(card),
{
    h.push_card(card)
}

} // verus!

use vstd::prelude::*;
use vstd::multiset::Multiset;

use crate::cards::{
    deck_deal, deck_dealt, deck_dealt_count, deck_from_cards, deck_reset_shuffle, deck_shuffle,
    deck_undealt, deck_undealt_count, hand_cards, hand_push, standard_cards,
};
use crate::errors::GameError;
use deckofcards::Card;
use deckofcards::Deck;
use deckofcards::Hand;

verus! {

/// The shoe: one or more standard 52-card decks shuffled together. Cards are
/// dealt from the front of the undealt sequence, one at a time, and every
/// dealt card stays a member of the shoe until it is reset, so the shoe's
/// multiset of cards is conserved across its whole lifetime.
pub struct Shoe {
    deck: Deck,
    deck_count: u64,
}

impl Shoe {
    /// The undealt cards, ordered so that index 0 is the next card dealt.
    pub closed spec fn undealt(self) -> Seq<Card> {
        deck_undealt(self.deck)
    }

    /// The cards dealt since the last reset, as a multiset.
    pub closed spec fn dealt(self) -> Multiset<Card> {
        deck_dealt(self.deck)
    }

    /// How many 52-card decks the shoe was built from.
    pub closed spec fn decks(self) -> u64 {
        self.deck_count
    }

    /// Every card the shoe owns, dealt or not. Dealing moves cards from the
    /// undealt pile to the dealt pile and never changes this multiset.
    pub open spec fn contents(self) -> Multiset<Card> {
        self.undealt().to_multiset().add(self.dealt())
    }

    /// Well-formedness: the shoe owns exactly 52 cards per deck, and no
    /// single card value more often than there are decks.
    pub open spec fn wf(self) -> bool {
        &&& self.decks() >= 1
        &&& self.contents().len() == 52 * self.decks()
        &&& forall|c: Card| #[trigger] self.contents().count(c) <= self.decks()
    }

    /// Builds a shoe of `deck_count` full 52-card decks concatenated, then
    /// shuffled. A deck count of zero is a caller error, rejected before any
    /// shoe state is created.
    pub fn build(deck_count: u64) -> (r: Result<Shoe, GameError>)
        ensures
            deck_count == 0 <==> r is Err,
            r is Err ==> r == Err::<Shoe, GameError>(GameError::EmptyShoe),
            r matches Ok(s) ==> {
                &&& s.wf()
                &&& s.decks() == deck_count
                &&& s.undealt().len() == 52 * deck_count
                &&& s.dealt() == Multiset::<Card>::empty()
            },
    {
        if deck_count == 0 {
            return Err(GameError::EmptyShoe);
        }
        let mut all: Vec<Card> = Vec::new();
        let mut i: u64 = 0;
        proof {
            broadcast use vstd::seq_lib::group_to_multiset_ensures;
            broadcast use vstd::multiset::group_multiset_axioms;
        }
        while i < deck_count
            invariant
                i <= deck_count,
                all@.len() == 52 * i,
                forall|c: Card| #[trigger] all@.to_multiset().count(c) <= i,
            decreases deck_count - i,
        {
            let mut chunk = standard_cards();
            let ghost prev = all@;
            let ghost fresh = chunk@;
            all.append(&mut chunk);
            proof {
                broadcast use vstd::seq_lib::group_to_multiset_ensures;
                broadcast use vstd::multiset::group_multiset_axioms;
                assert(fresh.no_duplicates());
                fresh.lemma_multiset_has_no_duplicates();
                vstd::seq_lib::lemma_multiset_commutative(prev, fresh);
                assert forall|c: Card| #[trigger] all@.to_multiset().count(c) <= i + 1 by {
                    assert(all@.to_multiset().count(c) == prev.to_multiset().count(c)
                        + fresh.to_multiset().count(c));
                    if fresh.to_multiset().count(c) > 0 {
                        assert(fresh.to_multiset().contains(c));
                    }
                }
            }
            i = i + 1;
        }
        let mut deck = deck_from_cards(&all);
        deck_shuffle(&mut deck);
        let s = Shoe { deck, deck_count };
        proof {
            broadcast use vstd::seq_lib::group_to_multiset_ensures;
            broadcast use vstd::multiset::group_multiset_axioms;
            assert(s.contents() =~= all@.to_multiset());
        }
        Ok(s)
    }

    /// Observes how many cards remain undealt, without mutating the shoe.
    pub fn undealt_count(&self) -> (r: usize)
        ensures
            r as int == self.undealt().len(),
    {
        deck_undealt_count(&self.deck)
    }

    /// Observes how many cards have been dealt since the last reset.
    pub fn dealt_count(&self) -> (r: usize)
        ensures
            r as int == self.dealt().len(),
    {
        deck_dealt_count(&self.deck)
    }

    /// Removes and returns the next `n` undealt cards in shoe order. A
    /// request for more cards than remain is a programming error: it is
    /// reported as `ShoeExhausted` with the shoe untouched, never silently
    /// truncated.
    pub fn deal(&mut self, n: usize) -> (r: Result<Vec<Card>, GameError>)
        requires
            old(self).wf(),
        ensures
            final(self).wf(),
            final(self).decks() == old(self).decks(),
            final(self).contents() == old(self).contents(),
            r is Ok <==> n as int <= old(self).undealt().len(),
            r matches Ok(cards) ==> {
                &&& cards@ == old(self).undealt().take(n as int)
                &&& final(self).undealt() == old(self).undealt().skip(n as int)
                &&& final(self).undealt().len() == old(self).undealt().len() - n
                &&& final(self).dealt() == old(self).dealt().add(cards@.to_multiset())
            },
            r is Err ==> r == Err::<Vec<Card>, GameError>(GameError::ShoeExhausted) && *final(self)
                == *old(self),
    {
        if n > deck_undealt_count(&self.deck) {
            return Err(GameError::ShoeExhausted);
        }
        let ghost pre = *self;
        let cards = deck_deal(&mut self.deck, n);
        proof {
            broadcast use vstd::seq_lib::group_to_multiset_ensures;
            broadcast use vstd::multiset::group_multiset_axioms;
            vstd::seq_lib::lemma_multiset_commutative(
                pre.undealt().take(n as int),
                pre.undealt().skip(n as int),
            );
            assert(pre.undealt().take(n as int) + pre.undealt().skip(n as int) =~= pre.undealt());
            assert(self.contents() =~= pre.contents());
        }
        Ok(cards)
    }

    /// Deals `n` cards and appends them, in dealt order, to the end of
    /// `hand`. Shares `deal`'s error contract: an oversized request reports
    /// `ShoeExhausted` and leaves both the shoe and the hand untouched.
    pub fn deal_to(&mut self, hand: &mut Hand, n: usize) -> (r: Result<(), GameError>)
        requires
            old(self).wf(),
        ensures
            final(self).wf(),
            final(self).decks() == old(self).decks(),
            final(self).contents() == old(self).contents(),
            r is Ok <==> n as int <= old(self).undealt().len(),
            r is Ok ==> {
                &&& hand_cards(*final(hand)) == hand_cards(*old(hand)) + old(self).undealt().take(
                    n as int,
                )
                &&& final(self).undealt() == old(self).undealt().skip(n as int)
                &&& final(self).undealt().len() == old(self).undealt().len() - n
                &&& final(self).dealt() == old(self).dealt().add(
                    old(self).undealt().take(n as int).to_multiset(),
                )
            },
            r is Err ==> r == Err::<(), GameError>(GameError::ShoeExhausted) && *final(self)
                == *old(self) && *final(hand) == *old(hand),
    {
        let mut cards = match self.deal(n) {
            Ok(cards) => cards,
            Err(e) => {
                return Err(e);
            },
        };
        let ghost full = cards@;
        let ghost hand0 = *hand;
        let mut k: usize = 0;
        proof {
            assert(full.take(0) =~= Seq::<Card>::empty());
            assert(hand_cards(*hand) =~= hand_cards(hand0) + full.take(0));
        }
        while cards.len() > 0
            invariant
                k + cards@.len() == full.len(),
                full.len() <= usize::MAX,
                cards@ == full.skip(k as int),
                hand_cards(*hand) == hand_cards(hand0) + full.take(k as int),
            decreases cards@.len(),
        {
            let c = cards.remove(0);
            proof {
                assert(c == full[k as int]);
                assert(full.skip(k as int).remove(0) =~= full.skip(k + 1));
            }
            hand_push(hand, c);
            proof {
                assert(full.take(k as int).push(full[k as int]) =~= full.take(k + 1));
                assert((hand_cards(hand0) + full.take(k as int)).push(c) =~= hand_cards(hand0)
                    + full.take(k + 1));
            }
            k = k + 1;
        }
        proof {
            assert(full.take(k as int) =~= full);
        }
        Ok(())
    }

    /// Returns all previously dealt cards to the undealt pool and reshuffles
    /// the full set. Used between rounds, not within one: the shoe is full
    /// again and its multiset of cards is exactly what it was built with.
    pub fn reset_and_reshuffle(&mut self)
        requires
            old(self).wf(),
        ensures
            final(self).wf(),
            final(self).decks() == old(self).decks(),
            final(self).contents() == old(self).contents(),
            final(self).undealt().to_multiset() == old(self).contents(),
            final(self).dealt() == Multiset::<Card>::empty(),
            final(self).undealt().len() == 52 * old(self).decks(),
    {
        deck_reset_shuffle(&mut self.deck);
        proof {
            broadcast use vstd::seq_lib::group_to_multiset_ensures;
            broadcast use vstd::multiset::group_multiset_axioms;
            assert(self.contents() =~= old(self).contents());
        }
    }
}

/// Law: once the undealt pile is empty, the dealt pile holds the shoe's full
/// multiset of cards — repeated dealing until exhaustion returns every card
/// the shoe owns, with no duplicates beyond the deck count and no omissions.
pub proof fn lemma_exhausted_shoe(s: Shoe)
    requires
        s.wf(),
        s.undealt().len() == 0,
    ensures
        s.dealt() == s.contents(),
        s.dealt().len() == 52 * s.decks(),
{
    broadcast use vstd::seq_lib::group_to_multiset_ensures;
    broadcast use vstd::multiset::group_multiset_axioms;

    assert(s.undealt() =~= Seq::<Card>::empty());
    assert(s.undealt().to_multiset() =~= Multiset::<Card>::empty());
    assert(s.dealt() =~= s.contents());
}

/// Law: a single-deck shoe never holds two copies of one card, so the cards
/// of any prefix dealt from it are pairwise distinct.
pub proof fn lemma_single_deck_no_duplicates(s: Shoe)
    requires
        s.wf(),
        s.decks() == 1,
    ensures
        s.undealt().no_duplicates(),
{
    broadcast use vstd::seq_lib::group_to_multiset_ensures;
    broadcast use vstd::multiset::group_multiset_axioms;

    assert forall|x: Card| s.undealt().to_multiset().contains(x)
        implies s.undealt().to_multiset().count(x) == 1 by {
        assert(s.contents().count(x) <= 1);
        assert(s.undealt().to_multiset().count(x) + s.dealt().count(x) == s.contents().count(x));
    }
    s.undealt().lemma_multiset_has_no_duplicates_conv();
}

} // verus!

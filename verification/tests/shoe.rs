use blackjack::errors::GameError;
use blackjack::shoe::Shoe;

use deckofcards::Hand;

#[test]
fn fresh_shoe_counts() {
    for d in 1..=6u64 {
        let shoe = Shoe::build(d).unwrap();
        assert_eq!(shoe.undealt_count(), 52 * d as usize);
        assert_eq!(shoe.dealt_count(), 0);
    }
}

#[test]
fn build_zero_decks_fails() {
    let r = Shoe::build(0);
    assert!(matches!(r, Err(GameError::EmptyShoe)));
}

#[test]
fn deal_decreases_count_by_n() {
    let mut shoe = Shoe::build(2).unwrap();
    let cards = shoe.deal(5).unwrap();
    assert_eq!(cards.len(), 5);
    assert_eq!(shoe.undealt_count(), 104 - 5);
    assert_eq!(shoe.dealt_count(), 5);
}

#[test]
fn deal_too_many_fails_loudly() {
    let mut shoe = Shoe::build(1).unwrap();
    let r = shoe.deal(53);
    assert!(matches!(r, Err(GameError::ShoeExhausted)));
    // nothing was silently truncated
    assert_eq!(shoe.undealt_count(), 52);
    assert_eq!(shoe.dealt_count(), 0);
}

#[test]
fn deal_until_exhaustion_covers_every_card() {
    let mut shoe = Shoe::build(2).unwrap();
    let mut seen = [0u32; 52];
    while shoe.undealt_count() > 0 {
        let cards = shoe.deal(1).unwrap();
        assert_eq!(cards.len(), 1);
        seen[cards[0].ordinal()] += 1;
    }
    // every card of both decks came out exactly once per deck
    for count in seen.iter() {
        assert_eq!(*count, 2);
    }
    assert!(matches!(shoe.deal(1), Err(GameError::ShoeExhausted)));
}

#[test]
fn reset_restores_full_shoe_with_same_multiset() {
    let mut shoe = Shoe::build(3).unwrap();
    shoe.deal(40).unwrap();
    assert_eq!(shoe.undealt_count(), 156 - 40);
    shoe.reset_and_reshuffle();
    assert_eq!(shoe.undealt_count(), 156);
    assert_eq!(shoe.dealt_count(), 0);
    // the multiset is conserved: each of the 52 card values is back 3 times
    let mut seen = [0u32; 52];
    while shoe.undealt_count() > 0 {
        let cards = shoe.deal(1).unwrap();
        seen[cards[0].ordinal()] += 1;
    }
    for count in seen.iter() {
        assert_eq!(*count, 3);
    }
}

#[test]
fn single_deck_deals_distinct_cards() {
    let mut shoe = Shoe::build(1).unwrap();
    let cards = shoe.deal(4).unwrap();
    for i in 0..4 {
        for j in (i + 1)..4 {
            assert_ne!(cards[i], cards[j]);
        }
    }
}

#[test]
fn deal_to_appends_in_dealt_order() {
    let mut shoe = Shoe::build(1).unwrap();
    let mut hand = Hand::new();
    shoe.deal_to(&mut hand, 3).unwrap();
    assert_eq!(hand.cards.len(), 3);
    assert_eq!(shoe.undealt_count(), 49);
    let prefix = hand.cards.clone();
    shoe.deal_to(&mut hand, 2).unwrap();
    assert_eq!(hand.cards.len(), 5);
    // the earlier cards kept their place: dealing only appends
    assert_eq!(&hand.cards[..3], &prefix[..]);
}

#[test]
fn deal_to_too_many_leaves_hand_untouched() {
    let mut shoe = Shoe::build(1).unwrap();
    let mut hand = Hand::new();
    let r = shoe.deal_to(&mut hand, 53);
    assert!(matches!(r, Err(GameError::ShoeExhausted)));
    assert_eq!(hand.cards.len(), 0);
    assert_eq!(shoe.undealt_count(), 52);
}

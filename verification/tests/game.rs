use blackjack::errors::GameError;
use blackjack::game::{Game, RoundConfig, State};

const DEALER_ID: u64 = 0xDEA1E4;

fn config(player_bankroll_cents: u64, minimum_bet_cents: u64) -> RoundConfig {
    RoundConfig {
        player_bankroll_cents,
        casino_bankroll_cents: 100_000_000,
        minimum_bet_cents,
        dealer_id: DEALER_ID,
    }
}

#[test]
fn new_game_starts_in_betting_with_empty_entries() {
    let game = Game::new_game(6, 3, config(100_000, 2500)).unwrap();
    assert_eq!(game.phase(), State::Betting);
    for id in 0..3u64 {
        assert_eq!(game.bankroll_of(id), Some(100_000));
        assert_eq!(game.bets_for(id).unwrap().count(), 0);
        assert_eq!(game.hands_for(id).unwrap().count(), 0);
    }
    assert_eq!(game.bankroll_of(DEALER_ID), Some(100_000_000));
    assert_eq!(game.hands_for(DEALER_ID).unwrap().count(), 0);
    // the dealer never has a bets entry
    assert!(game.bets_for(DEALER_ID).is_none());
    // an unknown identity observes nothing
    assert!(game.bankroll_of(17).is_none());
    assert!(game.hands_for(17).is_none());
}

#[test]
fn new_game_rejects_zero_decks() {
    let r = Game::new_game(0, 3, config(100_000, 2500));
    assert!(matches!(r, Err(GameError::EmptyShoe)));
}

#[test]
fn new_game_rejects_dealer_identity_collision() {
    let mut c = config(100_000, 2500);
    c.dealer_id = 1;
    let r = Game::new_game(6, 3, c);
    assert!(matches!(r, Err(GameError::DealerIdCollision)));
    // the first identity past the allocated range is fine
    c.dealer_id = 3;
    assert!(Game::new_game(6, 3, c).is_ok());
}

#[test]
fn betting_skips_player_who_cannot_afford_minimum() {
    // bankroll exactly 1000 against a 2500 minimum: empty plan, no debit
    let mut game = Game::new_game(1, 1, config(1000, 2500)).unwrap();
    game.advance().unwrap();
    assert_eq!(game.phase(), State::Dealing);
    assert_eq!(game.bets_for(0).unwrap().count(), 0);
    assert_eq!(game.bets_for(0).unwrap().total(), 0);
    assert_eq!(game.bankroll_of(0), Some(1000));
}

#[test]
fn betting_debits_the_planned_total_exactly_once() {
    // bankroll 5000 against a 2500 minimum: one bet of 2500, debited
    let mut game = Game::new_game(1, 1, config(5000, 2500)).unwrap();
    game.advance().unwrap();
    assert_eq!(game.bets_for(0).unwrap().total(), 2500);
    assert_eq!(game.bets_for(0).unwrap().count(), 1);
    assert_eq!(game.bankroll_of(0), Some(2500));
}

#[test]
fn dealing_gives_two_card_hands_to_player_and_dealer() {
    let mut game = Game::new_game(1, 1, config(5000, 2500)).unwrap();
    game.advance().unwrap();
    game.advance().unwrap();
    assert_eq!(game.phase(), State::Playing);

    let player_hands = game.hands_for(0).unwrap();
    assert_eq!(player_hands.count(), 1);
    let player_hand = &player_hands.all()[0];
    assert_eq!(player_hand.cards.len(), 2);

    let dealer_hands = game.hands_for(DEALER_ID).unwrap();
    assert_eq!(dealer_hands.count(), 1);
    let dealer_hand = &dealer_hands.all()[0];
    assert_eq!(dealer_hand.cards.len(), 2);

    // all four cards are distinct in a single-deck shoe
    let mut cards = player_hand.cards.clone();
    cards.extend(dealer_hand.cards.iter().cloned());
    for i in 0..4 {
        for j in (i + 1)..4 {
            assert_ne!(cards[i], cards[j]);
        }
    }

    // exactly four cards left the shoe
    assert_eq!(game.shoe.undealt_count(), 52 - 4);
}

#[test]
fn dealing_serves_every_active_player() {
    let mut game = Game::new_game(6, 3, config(100_000, 2500)).unwrap();
    game.advance().unwrap();
    game.advance().unwrap();
    for id in 0..3u64 {
        let hands = game.hands_for(id).unwrap();
        assert_eq!(hands.count(), 1);
        assert_eq!(hands.all()[0].cards.len(), 2);
    }
    assert_eq!(game.hands_for(DEALER_ID).unwrap().count(), 1);
    // three players and the dealer: 2*3 + 2 cards consumed
    assert_eq!(game.shoe.undealt_count(), 52 * 6 - 8);
}

#[test]
fn sitting_out_player_gets_no_hands_and_costs_no_cards() {
    // both players sit out; only the dealer's two cards leave the shoe
    let mut game = Game::new_game(1, 2, config(1000, 2500)).unwrap();
    game.advance().unwrap();
    game.advance().unwrap();
    for id in 0..2u64 {
        assert_eq!(game.hands_for(id).unwrap().count(), 0);
    }
    assert_eq!(game.hands_for(DEALER_ID).unwrap().count(), 1);
    assert_eq!(game.shoe.undealt_count(), 52 - 2);
}

#[test]
fn advance_beyond_dealing_fails_explicitly_without_mutating() {
    let mut game = Game::new_game(1, 1, config(5000, 2500)).unwrap();
    game.advance().unwrap();
    game.advance().unwrap();
    let undealt_before = game.shoe.undealt_count();
    let r = game.advance();
    assert!(matches!(r, Err(GameError::UnimplementedPhase)));
    // nothing moved: same phase, same shoe, same bankroll
    assert_eq!(game.phase(), State::Playing);
    assert_eq!(game.shoe.undealt_count(), undealt_before);
    assert_eq!(game.bankroll_of(0), Some(2500));
}

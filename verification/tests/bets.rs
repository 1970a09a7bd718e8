use blackjack::bets::Bets;
use blackjack::player::{Player, PlayerId, Strategy};

#[test]
fn new_plan_is_empty() {
    let bets = Bets::new();
    assert_eq!(bets.total(), 0);
    assert_eq!(bets.count(), 0);
    assert!(bets.amounts().is_empty());
}

#[test]
fn from_vec_drops_zero_entries() {
    let bets = Bets::from_vec(vec![0, 500, 0, 700]);
    assert_eq!(bets.count(), 2);
    assert_eq!(bets.total(), 1200);
    assert_eq!(bets.amounts(), &vec![500, 700]);
}

#[test]
fn from_vec_of_zeros_means_sitting_out() {
    let bets = Bets::from_vec(vec![0, 0, 0]);
    assert_eq!(bets.count(), 0);
    assert_eq!(bets.total(), 0);
}

#[test]
fn basic_strategy_bets_minimum_when_affordable() {
    let bets = Strategy::Basic.get_bets(5000, 2500);
    assert_eq!(bets.count(), 1);
    assert_eq!(bets.total(), 2500);
    assert_eq!(bets.amounts(), &vec![2500]);
}

#[test]
fn basic_strategy_sits_out_at_exact_minimum() {
    // the threshold is strict: a bankroll equal to the minimum sits out
    let bets = Strategy::Basic.get_bets(2500, 2500);
    assert_eq!(bets.count(), 0);
    assert_eq!(bets.total(), 0);
}

#[test]
fn basic_strategy_zero_minimum_is_dropped() {
    // a zero wager is never stored as a live bet, so the plan stays empty
    let bets = Strategy::Basic.get_bets(5000, 0);
    assert_eq!(bets.count(), 0);
    assert_eq!(bets.total(), 0);
}

#[test]
fn basic_strategy_sits_out_when_broke() {
    let bets = Strategy::Basic.get_bets(1000, 2500);
    assert_eq!(bets.count(), 0);
    assert_eq!(bets.total(), 0);
}

#[test]
fn dealer_strategy_never_bets() {
    for bankroll in [0u64, 1, 2500, 100_000_000] {
        let bets = Strategy::Dealer.get_bets(bankroll, 2500);
        assert_eq!(bets.count(), 0);
        assert_eq!(bets.total(), 0);
    }
}

#[test]
fn player_constructors_set_identity_and_strategy() {
    let p = Player::new_player(3, 100_000, Strategy::Basic);
    assert_eq!(p.id, PlayerId(3));
    assert_eq!(p.bankroll_cents, 100_000);
    assert_eq!(p.strategy, Strategy::Basic);

    let d = Player::new_dealer(0xDEA1E4, 100_000_000);
    assert_eq!(d.id, PlayerId(0xDEA1E4));
    assert_eq!(d.strategy, Strategy::Dealer);
}

#[test]
fn player_delegates_to_its_strategy() {
    let p = Player::new_player(0, 5000, Strategy::Basic);
    assert_eq!(p.get_bets(2500).total(), 2500);

    let d = Player::new_dealer(0xDEA1E4, 100_000_000);
    assert_eq!(d.get_bets(2500).count(), 0);
}

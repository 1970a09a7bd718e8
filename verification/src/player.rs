use vstd::prelude::*;

use crate::bets::{sum_amounts, Bets};

verus! {

/// An opaque unique integer key for one seat at the table, stable for the
/// process lifetime. The dealer holds a distinguished reserved identity that
/// is never drawn from the player-id allocation range.
#[derive(Clone, Copy, Debug, Eq, Hash, PartialEq, Structural)]
pub struct PlayerId(pub u64);

/// The decision capability that turns a bankroll into a bet plan. Any new
/// strategy only needs to satisfy the `get_bets` contract; the round engine
/// is agnostic to which variant a player holds.
#[derive(Clone, Copy, Debug, Eq, Hash, PartialEq, Structural)]
pub enum Strategy {
    /// The house: plays a fixed role and never wagers.
    Dealer,
    /// Wagers exactly the table minimum whenever the bankroll strictly
    /// exceeds it, and otherwise sits out the round.
    Basic,
}

/// What a strategy's bet plan holds, as a pure function of the bankroll and
/// the table minimum. The dealer's plan is always empty. The basic strategy
/// plays one minimum bet when the bankroll strictly exceeds the minimum — a
/// bankroll exactly equal to the minimum sits out — and a zero minimum is a
/// zero-valued entry, which plan construction drops.
pub open spec fn plan_spec(strategy: Strategy, bankroll_cents: u64, minimum_bet_cents: u64) -> Seq<
    u64,
> {
    match strategy {
        Strategy::Dealer => Seq::<u64>::empty(),
        Strategy::Basic => {
            if bankroll_cents > minimum_bet_cents && minimum_bet_cents > 0 {
                seq![minimum_bet_cents]
            } else {
                Seq::<u64>::empty()
            }
        },
    }
}

/// Law: a strategy never wagers more than the bankroll it was shown, so the
/// betting phase's debit can never drive a bankroll below zero.
pub proof fn lemma_plan_affordable(strategy: Strategy, bankroll_cents: u64, minimum_bet_cents: u64)
    ensures
        0 <= sum_amounts(plan_spec(strategy, bankroll_cents, minimum_bet_cents))
            <= bankroll_cents,
{
    let plan = plan_spec(strategy, bankroll_cents, minimum_bet_cents);
    if plan.len() != 0 {
        assert(plan.drop_last() =~= Seq::<u64>::empty());
        assert(sum_amounts(Seq::<u64>::empty()) == 0);
        assert(sum_amounts(plan) == minimum_bet_cents);
    }
}

impl Strategy {
    /// Produces this strategy's bet plan for the given bankroll and table
    /// minimum. Pure: no shoe access, no side effects.
    pub fn get_bets(&self, bankroll_cents: u64, minimum_bet_cents: u64) -> (r: Bets)
        ensures
            r@ == plan_spec(*self, bankroll_cents, minimum_bet_cents),
    {
        match self {
            Strategy::Dealer => Bets::new(),
            Strategy::Basic => {
                if bankroll_cents > minimum_bet_cents {
                    let mut amounts: Vec<u64> = Vec::new();
                    amounts.push(minimum_bet_cents);
                    proof {
                        assert(amounts@ =~= seq![minimum_bet_cents]);
                        assert(amounts@.drop_last() =~= Seq::<u64>::empty());
                        assert(sum_amounts(Seq::<u64>::empty()) == 0);
                        assert(sum_amounts(amounts@) == minimum_bet_cents);
                    }
                    let r = Bets::from_vec(amounts);
                    proof {
                        reveal_with_fuel(Seq::filter, 2);
                        assert(amounts@.drop_last() =~= Seq::<u64>::empty());
                        assert(r@ == plan_spec(*self, bankroll_cents, minimum_bet_cents));
                    }
                    r
                } else {
                    Bets::new()
                }
            },
        }
    }
}

/// One participant: identity, mutable bankroll in integer currency units,
/// and an immutable strategy. Only the round engine mutates the bankroll,
/// and only during the betting phase.
#[derive(Clone, Copy, Debug, Eq, Hash, PartialEq, Structural)]
pub struct Player {
    pub id: PlayerId,
    pub bankroll_cents: u64,
    pub strategy: Strategy,
}

impl Player {
    /// The house participant, at the reserved identity.
    pub fn new_dealer(id: u64, bankroll_cents: u64) -> (r: Player)
        ensures
            r == (Player { id: PlayerId(id), bankroll_cents, strategy: Strategy::Dealer }),
    {
        Player { id: PlayerId(id), bankroll_cents, strategy: Strategy::Dealer }
    }

    /// An ordinary participant with the given identity, bankroll and
    /// strategy.
    pub fn new_player(id: u64, bankroll_cents: u64, strategy: Strategy) -> (r: Player)
        ensures
            r == (Player { id: PlayerId(id), bankroll_cents, strategy }),
    {
        Player { id: PlayerId(id), bankroll_cents, strategy }
    }

    /// Asks this player's strategy for a bet plan against the current
    /// bankroll.
    pub fn get_bets(&self, minimum_bet_cents: u64) -> (r: Bets)
        ensures
            r@ == plan_spec(self.strategy, self.bankroll_cents, minimum_bet_cents),
    {
        self.strategy.get_bets(self.bankroll_cents, minimum_bet_cents)
    }
}

} // verus!

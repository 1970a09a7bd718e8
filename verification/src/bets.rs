use vstd::prelude::*;

verus! {

/// Sum of a sequence of wager amounts, as a mathematical integer.
pub open spec fn sum_amounts(s: Seq<u64>) -> int
    decreases s.len(),
{
    if s.len() == 0 {
        0
    } else {
        sum_amounts(s.drop_last()) + s.last()
    }
}

/// The amounts of a prefix never sum to more than the whole sequence.
proof fn lemma_sum_take_le(s: Seq<u64>, i: int)
    requires
        0 <= i <= s.len(),
    ensures
        sum_amounts(s.take(i)) <= sum_amounts(s),
    decreases s.len() - i,
{
    if i == s.len() {
        assert(s.take(i) =~= s);
    } else {
        assert(s.take(i + 1).drop_last() =~= s.take(i));
        lemma_sum_take_le(s, i + 1);
    }
}

/// A bet plan: the wager amounts a player commits to for one round, one entry
/// per hand to be dealt. Zero-valued entries are dropped at construction, so
/// every stored entry is a live wager and the cached total always matches.
pub struct Bets {
    bets: Vec<u64>,
    total_cents: u64,
}

impl View for Bets {
    type V = Seq<u64>;

    closed spec fn view(&self) -> Seq<u64> {
        self.bets@
    }
}

impl Bets {
    #[verifier::type_invariant]
    spec fn wf(self) -> bool {
        &&& self.total_cents as int == sum_amounts(self.bets@)
        &&& forall|i: int| 0 <= i < self.bets@.len() ==> self.bets@[i] != 0u64
    }

    /// An empty plan: the player sits out this round.
    pub fn new() -> (r: Bets)
        ensures
            r@ =~= Seq::<u64>::empty(),
    {
        Bets::from_vec(Vec::new())
    }

    /// Builds a plan from raw amounts, dropping zero-valued entries once, at
    /// this boundary, so no later query ever sees an un-normalized list.
    pub fn from_vec(bets: Vec<u64>) -> (r: Bets)
        requires
            sum_amounts(bets@) <= u64::MAX,
        ensures
            r@ == bets@.filter(|b: u64| b != 0u64),
    {
        let ghost all = bets@;
        let mut nonzero_bets: Vec<u64> = Vec::new();
        let mut total_cents: u64 = 0;
        let mut i: usize = 0;
        proof {
            assert(all.take(0) =~= Seq::<u64>::empty());
            reveal(Seq::filter);
        }
        while i < bets.len()
            invariant
                0 <= i <= bets.len(),
                bets@ == all,
                sum_amounts(all) <= u64::MAX,
                total_cents as int == sum_amounts(all.take(i as int)),
                nonzero_bets@ == all.take(i as int).filter(|b: u64| b != 0u64),
                sum_amounts(nonzero_bets@) == total_cents as int,
            decreases bets.len() - i,
        {
            let bet = bets[i];
            proof {
                assert(all.take(i + 1).drop_last() =~= all.take(i as int));
                assert(all.take(i + 1).last() == all[i as int]);
                lemma_sum_take_le(all, i + 1);
                reveal(Seq::filter);
            }
            if bet != 0 {
                nonzero_bets.push(bet);
                proof {
                    assert(nonzero_bets@.drop_last() =~= all.take(i as int).filter(
                        |b: u64| b != 0u64,
                    ));
                }
            }
            total_cents = total_cents + bet;
            i = i + 1;
        }
        proof {
            assert(all.take(bets@.len() as int) =~= all);
        }
        Bets { bets: nonzero_bets, total_cents }
    }

    /// The total wager: always the sum of the (already filtered) entries.
    pub fn total(&self) -> (r: u64)
        ensures
            r as int == sum_amounts(self@),
    {
        proof {
            use_type_invariant(self);
        }
        self.total_cents
    }

    /// How many live wagers the plan holds, which is exactly how many hands
    /// will be dealt for this player.
    pub fn count(&self) -> (r: u64)
        ensures
            r as int == self@.len(),
    {
        proof {
            use_type_invariant(self);
        }
        self.bets.len() as u64
    }

    /// The wager amounts, in plan order.
    pub fn amounts(&self) -> (r: &Vec<u64>)
        ensures
            r@ == self@,
    {
        &self.bets
    }
}

} // verus!

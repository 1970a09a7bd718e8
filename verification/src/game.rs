use vstd::prelude::*;
use vstd::multiset::Multiset;

use crate::bets::{sum_amounts, Bets};
use crate::cards::{hand_push, new_hand};
use crate::errors::GameError;
use crate::hands::Hands;
use crate::player::{lemma_plan_affordable, plan_spec, Player, PlayerId, Strategy};
use crate::shoe::Shoe;
use deckofcards::Card;

verus! {

/// The phases of one round, in strict forward order. A round never
/// regresses. Transition logic exists through `Dealing`; `Playing` is
/// reserved, and `advance` reports it as not yet designed instead of
/// silently doing nothing.
#[derive(Clone, Copy, Debug, Eq, PartialEq, Structural)]
pub enum State {
    Betting,
    Dealing,
    Playing,
}

/// The construction parameters of a round, passed in explicitly: no
/// process-wide constants, no persisted state.
#[derive(Clone, Copy, Debug, Eq, PartialEq, Structural)]
pub struct RoundConfig {
    /// Starting bankroll of every ordinary player.
    pub player_bankroll_cents: u64,
    /// Starting bankroll of the house.
    pub casino_bankroll_cents: u64,
    /// The table minimum a basic-strategy player wagers.
    pub minimum_bet_cents: u64,
    /// The dealer's reserved identity; must not collide with the dense
    /// player identities `0 .. number_of_players`.
    pub dealer_id: u64,
}

/// How many hands the stored bet plans call for, across players `0 .. i`:
/// the flat offset of player `i`'s first hand in casino dealing order.
pub open spec fn hands_before(bets: Seq<Seq<u64>>, i: int) -> int
    decreases i,
{
    if i <= 0 {
        0
    } else {
        hands_before(bets, i - 1) + bets[i - 1].len()
    }
}

proof fn lemma_hands_before_mono(bets: Seq<Seq<u64>>, i: int, j: int)
    requires
        i <= j,
    ensures
        hands_before(bets, i) <= hands_before(bets, j),
    decreases j - i,
{
    if i < j {
        lemma_hands_before_mono(bets, i, j - 1);
    }
}

/// The betting transition's effect: each player's plan is computed by their
/// own strategy from their bankroll, stored as their bets entry, and its
/// total debited from their bankroll, exactly once. The dealer never bets
/// and has no bets entry. Everything else is unchanged and the round moves
/// to Dealing.
pub open spec fn betting_post(pre: Game, post: Game) -> bool {
    &&& post.state == State::Dealing
    &&& post.minimum_bet_cents == pre.minimum_bet_cents
    &&& post.dealer == pre.dealer
    &&& post.players@.len() == pre.players@.len()
    &&& post.player_bets@.len() == pre.players@.len()
    &&& forall|i: int|
        0 <= i < pre.players@.len() ==> {
            let p = pre.players@[i];
            let plan = plan_spec(p.strategy, p.bankroll_cents, pre.minimum_bet_cents);
            &&& (#[trigger] post.players@[i]).id == p.id
            &&& post.players@[i].strategy == p.strategy
            &&& post.players@[i].bankroll_cents as int == p.bankroll_cents - sum_amounts(plan)
            &&& post.bets_view()[i] == plan
        }
    &&& post.player_hands == pre.player_hands
    &&& post.dealer_hands == pre.dealer_hands
    &&& post.shoe == pre.shoe
}

/// The dealing transition's effect: the next `2*s + 2` undealt cards of the
/// shoe (`s` the number of hands the stored plans allot) are distributed in
/// the exact casino order — every player's first cards in roster order, the
/// dealer's hole card, every player's second cards in the same order, the
/// dealer's up card. A player whose plan is empty is skipped entirely and
/// consumes no cards. Bets, bankrolls and the shoe's card multiset are
/// untouched.
pub open spec fn dealing_post(pre: Game, post: Game) -> bool {
    let u = pre.shoe.undealt();
    let s = pre.total_hands();
    &&& post.state == State::Playing
    &&& post.minimum_bet_cents == pre.minimum_bet_cents
    &&& post.dealer == pre.dealer
    &&& post.players == pre.players
    &&& post.player_bets == pre.player_bets
    &&& post.shoe.decks() == pre.shoe.decks()
    &&& post.shoe.contents() == pre.shoe.contents()
    &&& post.shoe.undealt() == u.skip(2 * s + 2)
    &&& post.player_hands@.len() == pre.players@.len()
    &&& forall|i: int|
        0 <= i < pre.players@.len() ==> {
            let off = hands_before(pre.bets_view(), i);
            let cnt = pre.bets_view()[i].len();
            &&& (#[trigger] post.hands_view()[i]).len() == cnt
            &&& forall|j: int|
                0 <= j < cnt ==> post.hands_view()[i][j] == seq![
                    u[off + j],
                    u[s + 1 + off + j],
                ]
        }
    &&& post.dealer_hands@ == seq![seq![u[s], u[2 * s + 1]]]
}

/// The round engine: owns the shoe, the roster, and the per-identity bet
/// plans and hands, and advances the round one phase per `advance` call.
/// Players hold the dense identities `0 .. players.len()`; the dealer holds
/// a reserved identity outside that range, so `players[i]`, `player_bets[i]`
/// and `player_hands[i]` are the entries of identity `i`.
pub struct Game {
    pub state: State,
    pub players: Vec<Player>,
    pub dealer: Player,
    pub player_bets: Vec<Bets>,
    pub player_hands: Vec<Hands>,
    pub dealer_hands: Hands,
    pub shoe: Shoe,
    pub minimum_bet_cents: u64,
}

impl Game {
    /// The stored bet plans, one amount sequence per player, in roster order.
    pub open spec fn bets_view(self) -> Seq<Seq<u64>> {
        self.player_bets@.map_values(|b: Bets| b@)
    }

    /// The stored hands, one sequence of card sequences per player.
    pub open spec fn hands_view(self) -> Seq<Seq<Seq<Card>>> {
        self.player_hands@.map_values(|h: Hands| h@)
    }

    /// Total number of hands the stored plans allot to players.
    pub open spec fn total_hands(self) -> int {
        hands_before(self.bets_view(), self.players@.len() as int)
    }

    /// Well-formedness: one bets entry and one hands entry per player,
    /// player identities dense in roster order, the dealer's reserved
    /// identity outside the allocated range, and a well-formed shoe.
    pub open spec fn wf(self) -> bool {
        &&& self.shoe.wf()
        &&& self.player_bets@.len() == self.players@.len()
        &&& self.player_hands@.len() == self.players@.len()
        &&& forall|i: int|
            0 <= i < self.players@.len() ==> (#[trigger] self.players@[i]).id.0 == i
        &&& self.dealer.id.0 >= self.players@.len()
        &&& self.dealer.strategy == Strategy::Dealer
    }

    /// The sole construction path: a fresh shuffled shoe, `number_of_players`
    /// basic-strategy players at the dense identities, the dealer at the
    /// reserved identity, and empty hands and bet plans for every
    /// participant including the dealer. Caller errors — an empty shoe or an
    /// identity collision — are rejected before any state is created.
    #[verifier::loop_isolation(false)]
    pub fn new_game(number_of_decks: u64, number_of_players: u64, config: RoundConfig) -> (r:
        Result<Game, GameError>)
        ensures
            r is Ok <==> number_of_decks >= 1 && config.dealer_id >= number_of_players,
            number_of_decks == 0 ==> r == Err::<Game, GameError>(GameError::EmptyShoe),
            number_of_decks >= 1 && config.dealer_id < number_of_players ==> r == Err::<
                Game,
                GameError,
            >(GameError::DealerIdCollision),
            r matches Ok(g) ==> {
                &&& g.wf()
                &&& g.state == State::Betting
                &&& g.minimum_bet_cents == config.minimum_bet_cents
                &&& g.players@.len() == number_of_players
                &&& forall|i: int|
                    0 <= i < number_of_players ==> #[trigger] g.players@[i] == (Player {
                        id: PlayerId(i as u64),
                        bankroll_cents: config.player_bankroll_cents,
                        strategy: Strategy::Basic,
                    })
                &&& g.dealer == (Player {
                    id: PlayerId(config.dealer_id),
                    bankroll_cents: config.casino_bankroll_cents,
                    strategy: Strategy::Dealer,
                })
                &&& forall|i: int|
                    0 <= i < number_of_players ==> (#[trigger] g.bets_view()[i]).len() == 0
                &&& forall|i: int|
                    0 <= i < number_of_players ==> (#[trigger] g.hands_view()[i]).len() == 0
                &&& g.dealer_hands@.len() == 0
                &&& g.shoe.decks() == number_of_decks
                &&& g.shoe.undealt().len() == 52 * number_of_decks
                &&& g.shoe.dealt() == Multiset::<Card>::empty()
            },
    {
        if number_of_decks == 0 {
            return Err(GameError::EmptyShoe);
        }
        if config.dealer_id < number_of_players {
            return Err(GameError::DealerIdCollision);
        }
        let shoe = match Shoe::build(number_of_decks) {
            Ok(s) => s,
            Err(_) => {
                proof {
                    assert(false);
                }
                return Err(GameError::EmptyShoe);
            },
        };
        let mut players: Vec<Player> = Vec::new();
        let mut player_bets: Vec<Bets> = Vec::new();
        let mut player_hands: Vec<Hands> = Vec::new();
        let mut i: u64 = 0;
        while i < number_of_players
            invariant
                i <= number_of_players,
                players@.len() == i,
                player_bets@.len() == i,
                player_hands@.len() == i,
                forall|k: int|
                    0 <= k < i ==> #[trigger] players@[k] == (Player {
                        id: PlayerId(k as u64),
                        bankroll_cents: config.player_bankroll_cents,
                        strategy: Strategy::Basic,
                    }),
                forall|k: int| 0 <= k < i ==> (#[trigger] player_bets@[k])@.len() == 0,
                forall|k: int| 0 <= k < i ==> (#[trigger] player_hands@[k])@.len() == 0,
            decreases number_of_players - i,
        {
            players.push(Player::new_player(i, config.player_bankroll_cents, Strategy::Basic));
            player_bets.push(Bets::new());
            player_hands.push(Hands::new());
            i = i + 1;
        }
        let dealer = Player::new_dealer(config.dealer_id, config.casino_bankroll_cents);
        let g = Game {
            state: State::Betting,
            players,
            dealer,
            player_bets,
            player_hands,
            dealer_hands: Hands::new(),
            shoe,
            minimum_bet_cents: config.minimum_bet_cents,
        };
        Ok(g)
    }

    /// The betting phase, run once per round by `advance`.
    #[verifier::loop_isolation(false)]
    fn bet_round(&mut self)
        requires
            old(self).wf(),
            old(self).state == State::Betting,
        ensures
            final(self).wf(),
            betting_post(*old(self), *final(self)),
    {
        let mut new_players: Vec<Player> = Vec::new();
        let mut new_bets: Vec<Bets> = Vec::new();
        let mut i: usize = 0;
        while i < self.players.len()
            invariant
                i <= self.players@.len(),
                new_players@.len() == i,
                new_bets@.len() == i,
                forall|k: int|
                    0 <= k < i ==> {
                        let p = self.players@[k];
                        let plan = plan_spec(p.strategy, p.bankroll_cents, self.minimum_bet_cents);
                        &&& (#[trigger] new_players@[k]).id == p.id
                        &&& new_players@[k].strategy == p.strategy
                        &&& new_players@[k].bankroll_cents as int == p.bankroll_cents - sum_amounts(
                            plan,
                        )
                        &&& new_bets@[k]@ == plan
                    },
            decreases self.players@.len() - i,
        {
            let p = self.players[i];
            let bets = p.get_bets(self.minimum_bet_cents);
            proof {
                lemma_plan_affordable(p.strategy, p.bankroll_cents, self.minimum_bet_cents);
            }
            let bet_total = bets.total();
            new_players.push(
                Player { id: p.id, bankroll_cents: p.bankroll_cents - bet_total, strategy: p.strategy },
            );
            new_bets.push(bets);
            i = i + 1;
        }
        self.players = new_players;
        self.player_bets = new_bets;
        self.state = State::Dealing;
    }

    /// The dealing phase, run once per round by `advance`: counts the hands
    /// the stored plans call for, checks the shoe up front, deals the four
    /// casino passes, and installs the fresh hands for every identity.
    #[verifier::loop_isolation(false)]
    fn deal_round(&mut self) -> (r: Result<(), GameError>)
        requires
            old(self).wf(),
            old(self).state == State::Dealing,
        ensures
            final(self).wf(),
            r is Ok <==> 2 * old(self).total_hands() + 2 <= old(self).shoe.undealt().len(),
            r is Ok ==> dealing_post(*old(self), *final(self)),
            r is Err ==> r == Err::<(), GameError>(GameError::ShoeExhausted) && *final(self)
                == *old(self),
    {
        let ghost bv = old(self).bets_view();
        let ghost n_players = old(self).players@.len() as int;
        let ghost u = old(self).shoe.undealt();
        let undealt = self.shoe.undealt_count();

        // How many hands the stored plans allot across the roster.
        let mut total: u64 = 0;
        let mut i: usize = 0;
        while i < self.player_bets.len()
            invariant
                i <= self.player_bets@.len(),
                total as int == hands_before(bv, i as int),
            decreases self.player_bets@.len() - i,
        {
            let b = &self.player_bets[i];
            let cnt = b.count();
            proof {
                assert(bv[i as int] == self.player_bets@[i as int]@);
            }
            total = match total.checked_add(cnt) {
                Some(t) => t,
                None => {
                    proof {
                        lemma_hands_before_mono(bv, i + 1, n_players);
                    }
                    return Err(GameError::ShoeExhausted);
                },
            };
            i = i + 1;
        }
        let ghost t = total as int;
        proof {
            assert(t == old(self).total_hands());
        }

        // The whole dealing pass needs 2*total + 2 cards; reject an
        // exhausted shoe before touching any state.
        let needed = match total.checked_mul(2) {
            Some(d) => match d.checked_add(2) {
                Some(n) => n,
                None => {
                    return Err(GameError::ShoeExhausted);
                },
            },
            None => {
                return Err(GameError::ShoeExhausted);
            },
        };
        if needed > undealt as u64 {
            return Err(GameError::ShoeExhausted);
        }
        let t_us = total as usize;

        // The four casino passes, in order: every player's first cards, the
        // dealer's hole card, every player's second cards, the dealer's up
        // card.
        let mut first = match self.shoe.deal(t_us) {
            Ok(v) => v,
            Err(_) => {
                proof {
                    assert(false);
                }
                return Err(GameError::ShoeExhausted);
            },
        };
        let mut hole_v = match self.shoe.deal(1) {
            Ok(v) => v,
            Err(_) => {
                proof {
                    assert(false);
                }
                return Err(GameError::ShoeExhausted);
            },
        };
        let mut second = match self.shoe.deal(t_us) {
            Ok(v) => v,
            Err(_) => {
                proof {
                    assert(false);
                }
                return Err(GameError::ShoeExhausted);
            },
        };
        let mut up_v = match self.shoe.deal(1) {
            Ok(v) => v,
            Err(_) => {
                proof {
                    assert(false);
                }
                return Err(GameError::ShoeExhausted);
            },
        };
        let hole_card = hole_v.remove(0);
        let up_card = up_v.remove(0);
        proof {
            assert(u.skip(t).skip(1) =~= u.skip(t + 1));
            assert(u.skip(t + 1).skip(t) =~= u.skip(2 * t + 1));
            assert(u.skip(2 * t + 1).skip(1) =~= u.skip(2 * t + 2));
            assert(hole_card == u.skip(t).take(1)[0]);
            assert(hole_card == u[t]);
            assert(up_card == u.skip(2 * t + 1).take(1)[0]);
            assert(up_card == u[2 * t + 1]);
            assert(first@ =~= u.subrange(0, t));
            assert(second@ =~= u.subrange(t + 1, 2 * t + 1)) by {
                assert(second@ == u.skip(t + 1).take(t));
            }
            assert(self.shoe.undealt() == u.skip(2 * t + 2));
            assert(self.shoe.contents() == old(self).shoe.contents());
        }

        // Assemble each player's hands: hand `j` of player `i` holds first
        // card `u[off + j]` and second card `u[t + 1 + off + j]`.
        let mut new_hands: Vec<Hands> = Vec::new();
        let mut k: usize = 0;
        let mut pi: usize = 0;
        while pi < self.players.len()
            invariant
                pi <= n_players,
                k as int == hands_before(bv, pi as int),
                0 <= k <= t,
                first@ == u.subrange(k as int, t),
                second@ == u.subrange(t + 1 + k as int, 2 * t + 1),
                new_hands@.len() == pi,
                forall|a: int|
                    0 <= a < pi ==> {
                        let off = hands_before(bv, a);
                        &&& (#[trigger] new_hands@[a])@.len() == bv[a].len()
                        &&& forall|b: int|
                            0 <= b < bv[a].len() ==> new_hands@[a]@[b] == seq![
                                u[off + b],
                                u[t + 1 + off + b],
                            ]
                    },
            decreases n_players - pi,
        {
            let cnt = {
                let b = &self.player_bets[pi];
                b.count()
            };
            proof {
                assert(bv[pi as int] == self.player_bets@[pi as int]@);
                assert(hands_before(bv, pi + 1) == hands_before(bv, pi as int) + bv[pi as int].len());
                lemma_hands_before_mono(bv, pi + 1, n_players);
            }
            let ghost k0 = k as int;
            let mut hs = Hands::new();
            let mut j: u64 = 0;
            while j < cnt
                invariant
                    j <= cnt,
                    k as int == k0 + j,
                    hs@.len() == j,
                    first@ == u.subrange(k as int, t),
                    second@ == u.subrange(t + 1 + k as int, 2 * t + 1),
                    forall|b: int|
                        0 <= b < j ==> #[trigger] hs@[b] == seq![
                            u[k0 + b],
                            u[t + 1 + k0 + b],
                        ],
                decreases cnt - j,
            {
                proof {
                    assert(k0 + cnt <= t);
                    assert(k < t);
                    assert(first@.len() == t - k);
                    assert(second@.len() == t - k);
                }
                let c1 = first.remove(0);
                let c2 = second.remove(0);
                proof {
                    assert(c1 == u[k as int]);
                    assert(c2 == u[t + 1 + k as int]);
                    assert(u.subrange(k as int, t).remove(0) =~= u.subrange(k + 1 as int, t));
                    assert(u.subrange(t + 1 + k as int, 2 * t + 1).remove(0) =~= u.subrange(
                        t + 1 + (k + 1) as int,
                        2 * t + 1,
                    ));
                }
                let mut h = new_hand();
                hand_push(&mut h, c1);
                hand_push(&mut h, c2);
                hs.add(h);
                proof {
                    assert(hs@[j as int] =~= seq![u[k0 + j], u[t + 1 + k0 + j]]);
                }
                k = k + 1;
                j = j + 1;
            }
            new_hands.push(hs);
            pi = pi + 1;
        }

        // The dealer's single hand: hole card first, then up card.
        let mut dh = new_hand();
        hand_push(&mut dh, hole_card);
        hand_push(&mut dh, up_card);
        let mut dealer_hands = Hands::new();
        dealer_hands.add(dh);
        proof {
            assert(crate::cards::hand_cards(dh) =~= seq![u[t], u[2 * t + 1]]);
            assert(dealer_hands@ =~= seq![seq![u[t], u[2 * t + 1]]]);
        }

        self.player_hands = new_hands;
        self.dealer_hands = dealer_hands;
        self.state = State::Playing;
        Ok(())
    }

    /// Advances the round by exactly one phase transition. From Betting the
    /// call always succeeds and moves to Dealing; from Dealing it either
    /// deals every hand in casino order and moves to Playing, or reports an
    /// exhausted shoe with nothing mutated; from any later phase it fails
    /// explicitly with `UnimplementedPhase` and mutates nothing, so an
    /// incomplete round can never be mistaken for a completed one.
    pub fn advance(&mut self) -> (r: Result<(), GameError>)
        requires
            old(self).wf(),
        ensures
            final(self).wf(),
            old(self).state == State::Betting ==> r is Ok && betting_post(
                *old(self),
                *final(self),
            ),
            old(self).state == State::Dealing ==> {
                &&& (r is Ok <==> 2 * old(self).total_hands() + 2
                    <= old(self).shoe.undealt().len())
                &&& r is Ok ==> dealing_post(*old(self), *final(self))
                &&& r is Err ==> r == Err::<(), GameError>(GameError::ShoeExhausted)
                    && *final(self) == *old(self)
            },
            old(self).state == State::Playing ==> r == Err::<(), GameError>(
                GameError::UnimplementedPhase,
            ) && *final(self) == *old(self),
    {
        match self.state {
            State::Betting => {
                self.bet_round();
                Ok(())
            },
            State::Dealing => self.deal_round(),
            State::Playing => Err(GameError::UnimplementedPhase),
        }
    }

    /// The current phase.
    pub fn phase(&self) -> (r: State)
        ensures
            r == self.state,
    {
        self.state
    }

    /// The stored bet plan of an identity. Players hold the dense
    /// identities; the dealer never has a bets entry.
    pub fn bets_for(&self, id: u64) -> (r: Option<&Bets>)
        requires
            self.wf(),
        ensures
            r is Some <==> (id as int) < self.players@.len(),
            r matches Some(b) ==> b@ == self.bets_view()[id as int],
    {
        if id < self.players.len() as u64 {
            Some(&self.player_bets[id as usize])
        } else {
            None
        }
    }

    /// The hands of an identity, the dealer's reserved identity included.
    pub fn hands_for(&self, id: u64) -> (r: Option<&Hands>)
        requires
            self.wf(),
        ensures
            r is Some <==> id == self.dealer.id.0 || (id as int) < self.players@.len(),
            id == self.dealer.id.0 ==> (r matches Some(h) && h@ == self.dealer_hands@),
            id != self.dealer.id.0 && (id as int) < self.players@.len() ==> (r matches Some(h)
                && h@ == self.hands_view()[id as int]),
    {
        if id == self.dealer.id.0 {
            Some(&self.dealer_hands)
        } else if id < self.players.len() as u64 {
            Some(&self.player_hands[id as usize])
        } else {
            None
        }
    }

    /// The current bankroll of an identity, the dealer included.
    pub fn bankroll_of(&self, id: u64) -> (r: Option<u64>)
        requires
            self.wf(),
        ensures
            r is Some <==> id == self.dealer.id.0 || (id as int) < self.players@.len(),
            id == self.dealer.id.0 ==> r == Some(self.dealer.bankroll_cents),
            id != self.dealer.id.0 && (id as int) < self.players@.len() ==> r == Some(
                self.players@[id as int].bankroll_cents,
            ),
    {
        if id == self.dealer.id.0 {
            Some(self.dealer.bankroll_cents)
        } else if id < self.players.len() as u64 {
            Some(self.players[id as usize].bankroll_cents)
        } else {
            None
        }
    }
}

} // verus!

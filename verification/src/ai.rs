//! The automated player: a replaceable scoring heuristic that proposes a
//! full turn — attacks, card placements, and the closing hand discard —
//! from a snapshot of the game state. Every proposed action goes back
//! through the ordinary action entry point, which re-validates it.

use crate::cards::{Card, Rank, Suit};
use crate::game::{GameState, HousePile, PlayerAction, PlayerPile};
use crate::model::{
    check_action, game_total, game_wf, lemma_pile_bounds, lemma_steps_to_snoc, placement_ok,
    steps_to, GameModel,
};
use vstd::prelude::*;

verus! {

/// Scores above this bound saturate; unreachable in any well-formed game.
const SCORE_CAP: u64 = 0x1000_0000_0000;

/// An automated player bound to one seat.
#[derive(Debug, Clone, Copy)]
pub struct AIPlayer {
    pub player_id: usize,
}

impl AIPlayer {
    pub fn new(player_id: usize) -> (r: AIPlayer)
        ensures
            r.player_id == player_id,
    {
        AIPlayer { player_id }
    }

    /// How welcome the card would be to each player: a bonus for feeding a
    /// king pile of the card's suit, and one for each house pile that
    /// would accept it. Scores are kept doubled so that half points stay
    /// integers.
    fn evaluate_card(&self, state: &GameState, card: Card) -> (r: Vec<u64>)
        requires
            game_wf(state@),
        ensures
            r@.len() == state@.players.len(),
            forall|k: int| 0 <= k < r@.len() ==> #[trigger] r@[k] <= game_total(state@) + 10,
    {
        let n = state.players.len();
        let mut out: Vec<u64> = Vec::new();
        for i in 0..n
            invariant
                game_wf(state@),
                n == state@.players.len(),
                out@.len() == i,
                forall|k: int| 0 <= k < out@.len() ==> #[trigger] out@[k] <= game_total(state@)
                    + 10,
        {
            proof {
                lemma_pile_bounds(state@, i as int);
            }
            let p = &state.players[i];
            let king_card: u64 = if p.suit == card.suit {
                p.king_pile.cards.len() as u64 + 4
            } else {
                0
            };
            let h1: u64 = match &p.house_pile_1 {
                Some(sp) => if GameState::can_add_to_house_pile(sp, card) {
                    2
                } else {
                    0
                },
                None => 0,
            };
            let h2: u64 = match &p.house_pile_2 {
                Some(sp) => if GameState::can_add_to_house_pile(sp, card) {
                    2
                } else {
                    0
                },
                None => 0,
            };
            let h3: u64 = match &p.house_pile_3 {
                Some(sp) => if GameState::can_add_to_house_pile(sp, card) {
                    2
                } else {
                    0
                },
                None => 0,
            };
            out.push(king_card + h1 + h2 + h3);
        }
        out
    }

    /// The worth of a pile's cards to the other players, less their worth
    /// to this player; split into the two saturating nonnegative sums.
    fn evaluate_house_pile(&self, state: &GameState, cards: &Vec<Card>) -> (r: (u64, u64))
        requires
            game_wf(state@),
        ensures
            r.0 <= SCORE_CAP,
            r.1 <= SCORE_CAP,
    {
        let mut pos: u64 = 0;
        let mut neg: u64 = 0;
        let nc = cards.len();
        for ci in 0..nc
            invariant
                game_wf(state@),
                nc == cards@.len(),
                pos <= SCORE_CAP,
                neg <= SCORE_CAP,
        {
            let scores = self.evaluate_card(state, cards[ci]);
            let ns = scores.len();
            for k in 0..ns
                invariant
                    game_wf(state@),
                    ns == scores@.len(),
                    forall|t: int| 0 <= t < scores@.len() ==> #[trigger] scores@[t] <= game_total(
                        state@,
                    ) + 10,
                    pos <= SCORE_CAP,
                    neg <= SCORE_CAP,
            {
                let v = scores[k];
                if k == self.player_id {
                    neg = if neg + v > SCORE_CAP {
                        SCORE_CAP
                    } else {
                        neg + v
                    };
                } else {
                    pos = if pos + v > SCORE_CAP {
                        SCORE_CAP
                    } else {
                        pos + v
                    };
                }
            }
        }
        (pos, neg)
    }

    /// The first pile that would accept the card: a fresh slot for a
    /// picture card, the own king pile for an own-suit card, else the
    /// first house pile whose rule accepts it. Whatever comes back, the
    /// placement rules accept the card there.
    fn try_put_down_card(&self, state: &GameState, card: Card) -> (r: Option<PlayerPile>)
        requires
            game_wf(state@),
            self.player_id < state@.players.len(),
        ensures
            r matches Some(pp) ==> placement_ok(state@, self.player_id as int, pp, card),
    {
        let me = self.player_id;
        if card.rank == Rank::King {
            return None;
        }
        let picture = match card.rank {
            Rank::Queen | Rank::Jack | Rank::Ace => true,
            _ => false,
        };
        if picture {
            let p = &state.players[me];
            if p.house_pile_1.is_none() {
                Some(PlayerPile::HousePile(HousePile::One))
            } else if p.house_pile_2.is_none() {
                Some(PlayerPile::HousePile(HousePile::Two))
            } else if p.house_pile_3.is_none() {
                Some(PlayerPile::HousePile(HousePile::Three))
            } else {
                None
            }
        } else {
            let own_suit = {
                let p = &state.players[me];
                p.suit == card.suit
            };
            if own_suit {
                Some(PlayerPile::KingPile)
            } else {
                let piles = {
                    let p = &state.players[me];
                    p.house_piles()
                };
                let np = piles.len();
                for hi in 0..np
                    invariant
                        game_wf(state@),
                        me == self.player_id < state@.players.len(),
                        np == piles@.len(),
                {
                    let h = piles[hi];
                    let ok = {
                        let p = &state.players[me];
                        match p.get_house_pile(h) {
                            Some(sp) => GameState::can_add_to_house_pile(sp, card),
                            None => false,
                        }
                    };
                    if ok {
                        return Some(PlayerPile::HousePile(h));
                    }
                }
                None
            }
        }
    }

    /// Proposes a whole turn from the snapshot: attacks with piles worth
    /// less to this player than their fighting strength, then placements
    /// while any card has a home, then the closing hand discard. The
    /// proposals are replayed against the snapshot so that each is judged
    /// against the state its predecessors leave, and only proposals the
    /// rules engine accepted are kept: the whole returned sequence is
    /// accepted in order from the snapshot, the closing discard included.
    pub fn play_turn(&mut self, state: GameState) -> (r: Vec<PlayerAction>)
        requires
            game_wf(state@),
            self.player_id < state@.players.len(),
            state@.player == self.player_id as int,
        ensures
            r@.len() >= 1,
            r@.last() == PlayerAction::DiscardHand,
            forall|i: int|
                0 <= i < r@.len() - 1 ==> ((#[trigger] r@[i]) is Attack || r@[i] is AddCardToPile),
            exists|mend: GameModel|
                #[trigger] steps_to(state@, old(self).player_id as int, r@.drop_last(), mend)
                    && check_action(
                    mend,
                    old(self).player_id as int,
                    PlayerAction::DiscardHand,
                ) is None,
    {
        let ghost m0 = state@;
        let mut state = state;
        let mut actions: Vec<PlayerAction> = Vec::new();
        let me = self.player_id;

        // Choose the house piles worth attacking with.
        let my_piles = {
            let p = &state.players[me];
            p.house_piles()
        };
        let mut attack_piles: Vec<HousePile> = Vec::new();
        let npi = my_piles.len();
        for hi in 0..npi
            invariant
                game_wf(state@),
                me == self.player_id < state@.players.len(),
                npi == my_piles@.len(),
        {
            let h = my_piles[hi];
            let mut pile_cards: Vec<Card> = Vec::new();
            let mut strength2: u64 = 0;
            let mut occupied = false;
            {
                let p = &state.players[me];
                proof {
                    lemma_pile_bounds(state@, me as int);
                }
                match p.get_house_pile(h) {
                    Some(sp) => {
                        if match sp.special_card.rank {
                            Rank::Queen | Rank::Jack | Rank::Ace => true,
                            _ => false,
                        } {
                            pile_cards = sp.cards.iter();
                            strength2 = 2 * (GameState::evaluate_house_pile_value(sp) as u64);
                            occupied = true;
                        }
                    },
                    None => {},
                }
            }
            if occupied {
                let (pos, neg) = self.evaluate_house_pile(&state, &pile_cards);
                if pos < strength2 + neg {
                    attack_piles.push(h);
                }
            }
        }

        // Aim each at the weakest defending pile on the table.
        let nat_ = attack_piles.len();
        for ai in 0..nat_
            invariant
                game_wf(state@),
                me == self.player_id < state@.players.len(),
                me < 256,
                state@.player == me as int,
                steps_to(m0, me as int, actions@, state@),
                nat_ == attack_piles@.len(),
                forall|i: int|
                    0 <= i < actions@.len() ==> ((#[trigger] actions@[i]) is Attack
                        || actions@[i] is AddCardToPile),
        {
            let h = attack_piles[ai];
            let mut best: Option<(Suit, u32)> = None;
            let n = state.players.len();
            for i in 0..n
                invariant
                    game_wf(state@),
                    me < state@.players.len(),
                    n == state@.players.len(),
            {
                if i != me {
                    proof {
                        lemma_pile_bounds(state@, i as int);
                    }
                    let p = &state.players[i];
                    let info: Option<(Suit, u32)> = match p.first_house_pile() {
                        Some(d) => match p.get_house_pile(d) {
                            Some(sp) => Some(
                                (p.suit, GameState::evaluate_house_pile_value(sp)),
                            ),
                            None => None,
                        },
                        None => None,
                    };
                    match info {
                        Some((su, v)) => {
                            best = match best {
                                Some((bs, bv)) => if v <= bv {
                                    Some((su, v))
                                } else {
                                    Some((bs, bv))
                                },
                                None => Some((su, v)),
                            };
                        },
                        None => {},
                    }
                }
            }
            match best {
                Some((suit, _)) => {
                    let action = PlayerAction::Attack { house_pile: h, target_player: suit };
                    let ghost pre = state@;
                    let res = state.perform_player_action(me as u8, action);
                    if res.is_ok() {
                        proof {
                            lemma_steps_to_snoc(m0, me as int, actions@, pre, action, state@);
                        }
                        actions.push(action);
                    }
                },
                None => {},
            }
        }

        // Put down every card that has a home, one at a time.
        loop
            invariant
                game_wf(state@),
                me == self.player_id < state@.players.len(),
                me < 256,
                state@.player == me as int,
                steps_to(m0, me as int, actions@, state@),
                forall|i: int|
                    0 <= i < actions@.len() ==> ((#[trigger] actions@[i]) is Attack
                        || actions@[i] is AddCardToPile),
            decreases state@.players[me as int].hand.len(),
        {
            let hand_cards = {
                let p = &state.players[me];
                p.hand.iter()
            };
            let mut found: Option<(Card, PlayerPile)> = None;
            let nh = hand_cards.len();
            for ci in 0..nh
                invariant
                    game_wf(state@),
                    me == self.player_id < state@.players.len(),
                    nh == hand_cards@.len(),
            {
                match self.try_put_down_card(&state, hand_cards[ci]) {
                    Some(pp) => {
                        found = Some((hand_cards[ci], pp));
                        break ;
                    },
                    None => {},
                }
            }
            match found {
                Some((card, pp)) => {
                    let ghost pre = state@;
                    let res = state.perform_player_action(
                        me as u8,
                        PlayerAction::AddCardToPile { pile: pp, card },
                    );
                    match res {
                        Ok(_) => {
                            proof {
                                lemma_steps_to_snoc(
                                    m0,
                                    me as int,
                                    actions@,
                                    pre,
                                    PlayerAction::AddCardToPile { pile: pp, card },
                                    state@,
                                );
                            }
                            actions.push(PlayerAction::AddCardToPile { pile: pp, card });
                            proof {
                                crate::cards::lemma_first_index_of(
                                    pre.players[me as int].hand,
                                    card,
                                );
                            }
                        },
                        Err(_) => {
                            break ;
                        },
                    }
                },
                None => {
                    break ;
                },
            }
        }

        proof {
            let ghost mend = state@;
            assert(steps_to(m0, me as int, actions@, mend));
            assert(check_action(mend, me as int, PlayerAction::DiscardHand) is None);
            assert(actions@.push(PlayerAction::DiscardHand).drop_last() =~= actions@);
        }
        actions.push(PlayerAction::DiscardHand);
        actions
    }
}

} // verus!

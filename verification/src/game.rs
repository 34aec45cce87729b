//! The rules engine: the game-state data model and the strict state
//! machine that applies player actions to it.

use crate::cards::{blank_deck, deck_no_kings, is_picture, Card, Pile, Rank, SpecialPile, Suit};
use crate::model::{
    advance_rel, apply_add_card, apply_attack, apply_swap, check_action, deal_to_next,
    discard_step, first_slot, game_total, game_wf, has_suit, index_of_suit, lemma_advance_ok,
    lemma_apply_add_card_ok, lemma_apply_attack_ok, lemma_apply_swap_ok, lemma_discard_ok,
    lemma_index_of_suit, lemma_index_of_suit_unique, lemma_pile_bounds,
    lemma_players_total_update, pile_accepts, pile_strength, slot, slot_view, step_rel, with_slot,
    GameModel, PlayerModel, SpecialModel,
};
use vstd::prelude::*;

verus! {

/// The phase of the current turn.
#[derive(Debug, Clone, Copy, PartialEq, Eq, Structural)]
pub enum TurnState {
    Attack,
    Organize,
}

/// Whose turn it is, and in which phase that turn stands.
#[derive(Debug, Clone, Copy, PartialEq, Eq, Structural)]
pub struct RoundState {
    pub player: u8,
    pub turn_state: TurnState,
}

/// One of the three per-player house-pile slots.
#[derive(Debug, Clone, Copy, PartialEq, Eq, Structural)]
pub enum HousePile {
    One,
    Two,
    Three,
}

impl HousePile {
    /// The three slots, in the fixed resolution order.
    pub fn iter() -> (r: Vec<HousePile>)
        ensures
            r@ =~= seq![HousePile::One, HousePile::Two, HousePile::Three],
    {
        let v = vec![HousePile::One, HousePile::Two, HousePile::Three];
        v
    }
}

/// A pile a card can be played onto: the king pile or a house-pile slot.
#[derive(Debug, Clone, Copy, PartialEq, Eq, Structural)]
pub enum PlayerPile {
    KingPile,
    HousePile(HousePile),
}

/// The four action kinds a player can submit.
#[derive(Debug, Clone, Copy, PartialEq, Eq, Structural)]
pub enum PlayerAction {
    Attack { house_pile: HousePile, target_player: Suit },
    AddCardToPile { pile: PlayerPile, card: Card },
    SwapHousePile(HousePile, HousePile),
    DiscardHand,
}

/// Why the rules engine rejected an action. A rejected action leaves the
/// game state untouched.
#[derive(Debug, Clone, Copy, PartialEq, Eq, Structural)]
pub enum ActionError {
    /// The submitting player is not the current player.
    NotYourTurn,
    /// An attack was attempted outside the attack phase.
    WrongPhase,
    /// The named house-pile slot holds no pile.
    NoSuchPile,
    /// No seated player has the named suit.
    NoSuchPlayer,
    /// The named card is not in the acting player's hand.
    CardNotInHand,
    /// A picture card was aimed at an occupied house-pile slot.
    PileOccupied,
    /// The pile's placement rule refuses the card.
    IllegalPlacement,
}

/// What a successful action reports.
#[derive(Debug, Clone, Copy, PartialEq, Eq, Structural)]
pub enum PlayerActionResult {
    Nominal,
    NextPlayer(u8),
    GameWon(u8),
}

/// One seated player: suit identity, king pile, three optional house-pile
/// slots, and a hand.
#[derive(Debug)]
pub struct PlayerState {
    pub suit: Suit,
    pub king_pile: SpecialPile,
    pub house_pile_1: Option<SpecialPile>,
    pub house_pile_2: Option<SpecialPile>,
    pub house_pile_3: Option<SpecialPile>,
    pub hand: Pile,
}

impl PlayerState {
    /// A fresh player of the given suit: an empty hand, empty slots, and a
    /// king pile seeded with the suit's king.
    pub fn initial(suit: Suit) -> (r: PlayerState)
        ensures
            r@ == (PlayerModel {
                suit,
                king: SpecialModel {
                    special: Card { suit, rank: Rank::King },
                    cards: Seq::empty(),
                },
                house1: None,
                house2: None,
                house3: None,
                hand: Seq::empty(),
            }),
    {
        PlayerState {
            suit,
            king_pile: SpecialPile::new(Card::new(suit, Rank::King)),
            house_pile_1: None,
            house_pile_2: None,
            house_pile_3: None,
            hand: Pile::new(),
        }
    }

    pub fn clone(&self) -> (r: PlayerState)
        ensures
            r@ == self@,
    {
        PlayerState {
            suit: self.suit,
            king_pile: self.king_pile.clone(),
            house_pile_1: match &self.house_pile_1 {
                Some(sp) => Some(sp.clone()),
                None => None,
            },
            house_pile_2: match &self.house_pile_2 {
                Some(sp) => Some(sp.clone()),
                None => None,
            },
            house_pile_3: match &self.house_pile_3 {
                Some(sp) => Some(sp.clone()),
                None => None,
            },
            hand: self.hand.clone(),
        }
    }

    pub fn get_house_pile(&self, pile: HousePile) -> (r: &Option<SpecialPile>)
        ensures
            slot_view(*r) == slot(self@, pile),
    {
        match pile {
            HousePile::One => &self.house_pile_1,
            HousePile::Two => &self.house_pile_2,
            HousePile::Three => &self.house_pile_3,
        }
    }

    /// A mutable borrow of the named slot; whatever the caller leaves in
    /// it becomes the slot's contents.
    pub fn get_mut_house_pile(&mut self, pile: HousePile) -> (r: &mut Option<SpecialPile>)
        ensures
            *r == house_slot(*old(self), pile),
            *final(self) == with_house_slot(*old(self), pile, *final(r)),
    {
        match pile {
            HousePile::One => &mut self.house_pile_1,
            HousePile::Two => &mut self.house_pile_2,
            HousePile::Three => &mut self.house_pile_3,
        }
    }

    /// Removes and returns whatever the named slot holds.
    pub fn take_house_pile(&mut self, pile: HousePile) -> (r: Option<SpecialPile>)
        ensures
            slot_view(r) == slot(old(self)@, pile),
            final(self)@ == with_slot(old(self)@, pile, None),
    {
        let mut tmp: Option<SpecialPile> = None;
        match pile {
            HousePile::One => core::mem::swap(&mut tmp, &mut self.house_pile_1),
            HousePile::Two => core::mem::swap(&mut tmp, &mut self.house_pile_2),
            HousePile::Three => core::mem::swap(&mut tmp, &mut self.house_pile_3),
        }
        tmp
    }

    /// Puts `v` into the named slot, dropping what was there.
    pub fn set_house_pile(&mut self, pile: HousePile, v: Option<SpecialPile>)
        ensures
            final(self)@ == with_slot(old(self)@, pile, slot_view(v)),
    {
        match pile {
            HousePile::One => self.house_pile_1 = v,
            HousePile::Two => self.house_pile_2 = v,
            HousePile::Three => self.house_pile_3 = v,
        }
    }

    /// Pushes a card onto the pile in the named occupied slot.
    pub fn add_to_house_pile(&mut self, pile: HousePile, card: Card)
        requires
            slot(old(self)@, pile) is Some,
        ensures
            final(self)@ == with_slot(
                old(self)@,
                pile,
                Some(
                    SpecialModel {
                        special: slot(old(self)@, pile)->Some_0.special,
                        cards: slot(old(self)@, pile)->Some_0.cards.push(card),
                    },
                ),
            ),
    {
        match pile {
            HousePile::One => match &mut self.house_pile_1 {
                Some(sp) => sp.cards.add(card),
                None => unreached(),
            },
            HousePile::Two => match &mut self.house_pile_2 {
                Some(sp) => sp.cards.add(card),
                None => unreached(),
            },
            HousePile::Three => match &mut self.house_pile_3 {
                Some(sp) => sp.cards.add(card),
                None => unreached(),
            },
        }
    }

    /// Exchanges the contents of two house-pile slots.
    pub fn swap_house_piles(&mut self, a: HousePile, b: HousePile)
        ensures
            final(self)@ == with_slot(
                with_slot(old(self)@, a, slot(old(self)@, b)),
                b,
                slot(old(self)@, a),
            ),
    {
        match (a, b) {
            (HousePile::One, HousePile::Two) | (HousePile::Two, HousePile::One) => core::mem::swap(
                &mut self.house_pile_1,
                &mut self.house_pile_2,
            ),
            (HousePile::Three, HousePile::Two) | (HousePile::Two, HousePile::Three) => core::mem::swap(
                &mut self.house_pile_3,
                &mut self.house_pile_2,
            ),
            (HousePile::One, HousePile::Three) | (HousePile::Three, HousePile::One) => core::mem::swap(
                &mut self.house_pile_1,
                &mut self.house_pile_3,
            ),
            (HousePile::One, HousePile::One)
            | (HousePile::Two, HousePile::Two)
            | (HousePile::Three, HousePile::Three) => (),
        }
    }

    /// The first occupied house-pile slot, in the fixed slot order.
    pub fn first_house_pile(&self) -> (r: Option<HousePile>)
        ensures
            r == first_slot(self@),
    {
        if self.house_pile_1.is_some() {
            Some(HousePile::One)
        } else if self.house_pile_2.is_some() {
            Some(HousePile::Two)
        } else if self.house_pile_3.is_some() {
            Some(HousePile::Three)
        } else {
            None
        }
    }

    /// The occupied house-pile slots, in the fixed slot order.
    pub fn house_piles(&self) -> (r: Vec<HousePile>)
        ensures
            r@ == occupied_slots(self@),
    {
        let mut piles: Vec<HousePile> = Vec::new();
        if self.house_pile_1.is_some() {
            piles.push(HousePile::One);
        }
        if self.house_pile_2.is_some() {
            piles.push(HousePile::Two);
        }
        if self.house_pile_3.is_some() {
            piles.push(HousePile::Three);
        }
        proof {
            assert(piles@ =~= occupied_slots(self@));
        }
        piles
    }
}

/// The authoritative game state: the shared discard and stock piles, the
/// seated players, whose turn it is, and the win threshold.
#[derive(Debug)]
pub struct GameState {
    pub round_state: RoundState,
    pub discard_pile: Pile,
    pub stock_pile: Pile,
    pub players: Vec<PlayerState>,
    pub win_threshold: u32,
}

impl GameState {
    /// A fresh four-player game: a shuffled 96-card stock (a full deck and
    /// four blank filler suits, kings removed), one player per playable
    /// suit, an empty discard pile, the win threshold at nine, and five
    /// cards already dealt to the first player.
    pub fn initial() -> (r: GameState)
        ensures
            game_wf(r@),
            r@.phase == TurnState::Attack,
            r@.player == 0,
            r@.threshold == 9,
            r@.discard == Seq::<Card>::empty(),
            r@.players.len() == 4,
            r@.players[0].suit == Suit::Heart,
            r@.players[1].suit == Suit::Spade,
            r@.players[2].suit == Suit::Diamond,
            r@.players[3].suit == Suit::Club,
            forall|i: int|
                0 <= i < 4 ==> (#[trigger] r@.players[i]).king == (SpecialModel {
                    special: Card { suit: r@.players[i].suit, rank: Rank::King },
                    cards: Seq::empty(),
                }) && r@.players[i].house1 is None && r@.players[i].house2 is None
                    && r@.players[i].house3 is None,
            forall|i: int| 1 <= i < 4 ==> (#[trigger] r@.players[i]).hand == Seq::<Card>::empty(),
            exists|d: Seq<Card>|
                d.to_multiset() == (deck_no_kings() + blank_deck(4)).to_multiset() && d.len() == 96
                    && r@.stock == d.subrange(0, 91) && r@.players[0].hand == d.subrange(91, 96),
            game_total(r@) == 100,
    {
        let stock_pile = Pile::new().add_without_kings().add_blank_without_kings(4).shuffled();
        let ghost d = stock_pile@;
        proof {
            broadcast use vstd::seq_lib::group_to_multiset_ensures;

            assert(d.len() == 96);
        }
        let mut players: Vec<PlayerState> = Vec::new();
        players.push(PlayerState::initial(Suit::Heart));
        players.push(PlayerState::initial(Suit::Spade));
        players.push(PlayerState::initial(Suit::Diamond));
        players.push(PlayerState::initial(Suit::Club));
        let mut game = GameState {
            round_state: RoundState { player: 3, turn_state: TurnState::Attack },
            discard_pile: Pile::new(),
            stock_pile,
            players,
            win_threshold: 9,
        };
        proof {
            let s = game@.players;
            assert(s.len() == 4);
            let s1 = s.drop_first();
            let s2 = s1.drop_first();
            let s3 = s2.drop_first();
            let s4 = s3.drop_first();
            assert(s1[0] == s[1] && s2[0] == s[2] && s3[0] == s[3]);
            assert(crate::model::player_total(s[0]) == 1);
            assert(crate::model::player_total(s[1]) == 1);
            assert(crate::model::player_total(s[2]) == 1);
            assert(crate::model::player_total(s[3]) == 1);
            assert(s4.len() == 0);
            assert(crate::model::players_total(s4) == 0);
            assert(crate::model::players_total(s3) == 1);
            assert(crate::model::players_total(s2) == 2);
            assert(crate::model::players_total(s1) == 3);
            assert(crate::model::players_total(s) == 4);
            assert(game_total(game@) == 100);
            assert(game_wf(game@));
        }
        game.next_player();
        proof {
            let m1 = game@;
            assert(m1.stock =~= d.subrange(0, 91));
            assert(m1.players[0].hand =~= d.subrange(91, 96));
            assert(d.to_multiset() == (deck_no_kings() + blank_deck(4)).to_multiset() && d.len()
                == 96 && m1.stock == d.subrange(0, 91) && m1.players[0].hand == d.subrange(91, 96));
        }
        game
    }

    /// Performs one player action against the state. The whole behaviour
    /// stands in `step_rel`: a rejected action returns the error that
    /// `check_action` names and leaves the state untouched; an accepted one
    /// moves the state by the action's transition and reports a win as soon
    /// as the acting player's king pile reaches the threshold. The total
    /// card count never changes.
    #[verifier::rlimit(100)]
    pub fn perform_player_action(&mut self, player: u8, action: PlayerAction) -> (r: Result<
        PlayerActionResult,
        ActionError,
    >)
        requires
            game_wf(old(self)@),
        ensures
            step_rel(old(self)@, player as int, action, r, final(self)@),
            game_wf(final(self)@),
            game_total(final(self)@) == game_total(old(self)@),
            r is Err ==> *final(self) == *old(self),
            final(self)@.players.len() == old(self)@.players.len(),
            final(self)@.threshold == old(self)@.threshold,
    {
        let ghost m0 = self@;
        if player != self.round_state.player {
            return Err(ActionError::NotYourTurn);
        }
        let idx = player as usize;
        proof {
            assert(idx == m0.player);
            lemma_pile_bounds(m0, idx as int);
        }
        match action {
            PlayerAction::Attack { house_pile, target_player } => {
                if self.round_state.turn_state == TurnState::Organize {
                    return Err(ActionError::WrongPhase);
                }
                let has_pile = {
                    let p0 = &self.players[idx];
                    p0.get_house_pile(house_pile).is_some()
                };
                if !has_pile {
                    return Err(ActionError::NoSuchPile);
                }
                let tgt = match self.player_index_by_suit(target_player) {
                    Some(t) => t,
                    None => {
                        return Err(ActionError::NoSuchPlayer);
                    },
                };
                let atk_opt = {
                    let pref = &mut self.players[idx];
                    pref.take_house_pile(house_pile)
                };
                let atk = match atk_opt {
                    Some(a) => a,
                    None => unreached(),
                };
                let ghost ps1 = m0.players.update(
                    idx as int,
                    with_slot(m0.players[idx as int], house_pile, None),
                );
                proof {
                    assert(self@.players =~= ps1);
                    assert forall|j: int| 0 <= j < ps1.len() implies #[trigger] ps1[j].suit
                        == m0.players[j].suit by {}
                    lemma_index_of_suit(m0.players, target_player);
                    lemma_index_of_suit_unique(ps1, target_player, tgt as int);
                    lemma_pile_bounds(m0, tgt as int);
                }
                let dslot = {
                    let tp = &self.players[tgt];
                    tp.first_house_pile()
                };
                match dslot {
                    None => {
                        self.discard_pile.add(atk.special_card);
                        self.discard_pile.add_pile(atk.cards);
                        proof {
                            assert(self@ =~~= apply_attack(m0, house_pile, target_player));
                        }
                    },
                    Some(dpos) => {
                        let def_strength = {
                            let tp = &self.players[tgt];
                            match tp.get_house_pile(dpos) {
                                Some(sp) => GameState::evaluate_house_pile_value(sp),
                                None => unreached(),
                            }
                        };
                        let atk_strength = GameState::evaluate_house_pile_value(&atk);
                        if atk_strength > def_strength {
                            let def_opt = {
                                let tref = &mut self.players[tgt];
                                tref.take_house_pile(dpos)
                            };
                            let def = match def_opt {
                                Some(x) => x,
                                None => unreached(),
                            };
                            self.discard_pile.add(def.special_card);
                            {
                                let pref = &mut self.players[idx];
                                pref.hand.add_pile(def.cards);
                            }
                            self.discard_pile.add(atk.special_card);
                            self.discard_pile.add_pile(atk.cards);
                            proof {
                                assert(self@ =~~= apply_attack(m0, house_pile, target_player));
                            }
                        } else {
                            {
                                let tref = &mut self.players[tgt];
                                tref.hand.add_pile(atk.cards);
                            }
                            self.discard_pile.add(atk.special_card);
                            proof {
                                assert(self@ =~~= apply_attack(m0, house_pile, target_player));
                            }
                        }
                    },
                }
                proof {
                    lemma_apply_attack_ok(m0, house_pile, target_player);
                }
            },
            PlayerAction::AddCardToPile { pile, card } => {
                let in_hand = {
                    let p0 = &self.players[idx];
                    p0.hand.contains_card(card)
                };
                if !in_hand {
                    return Err(ActionError::CardNotInHand);
                }
                if card.rank == Rank::King {
                    return Err(ActionError::IllegalPlacement);
                }
                let picture = match card.rank {
                    Rank::Queen | Rank::Jack | Rank::Ace => true,
                    _ => false,
                };
                if picture {
                    match pile {
                        PlayerPile::KingPile => {
                            return Err(ActionError::IllegalPlacement);
                        },
                        PlayerPile::HousePile(h) => {
                            let occupied = {
                                let p0 = &self.players[idx];
                                p0.get_house_pile(h).is_some()
                            };
                            if occupied {
                                return Err(ActionError::PileOccupied);
                            }
                            let pref = &mut self.players[idx];
                            pref.hand.take_card(card);
                            pref.set_house_pile(h, Some(SpecialPile::new(card)));
                        },
                    }
                } else {
                    match pile {
                        PlayerPile::KingPile => {
                            let ok = {
                                let p0 = &self.players[idx];
                                GameState::can_add_to_house_pile(&p0.king_pile, card)
                            };
                            if !ok {
                                return Err(ActionError::IllegalPlacement);
                            }
                            let pref = &mut self.players[idx];
                            pref.hand.take_card(card);
                            pref.king_pile.cards.add(card);
                        },
                        PlayerPile::HousePile(h) => {
                            let state = {
                                let p0 = &self.players[idx];
                                match p0.get_house_pile(h) {
                                    Some(sp) => {
                                        if GameState::can_add_to_house_pile(sp, card) {
                                            0u8
                                        } else {
                                            1u8
                                        }
                                    },
                                    None => 2u8,
                                }
                            };
                            if state == 2 {
                                return Err(ActionError::NoSuchPile);
                            }
                            if state == 1 {
                                return Err(ActionError::IllegalPlacement);
                            }
                            let pref = &mut self.players[idx];
                            pref.hand.take_card(card);
                            pref.add_to_house_pile(h, card);
                        },
                    }
                }
                self.round_state.turn_state = TurnState::Organize;
                proof {
                    assert(self@ =~~= apply_add_card(m0, pile, card));
                    lemma_apply_add_card_ok(m0, pile, card);
                }
            },
            PlayerAction::SwapHousePile(a, b) => {
                {
                    let pref = &mut self.players[idx];
                    pref.swap_house_piles(a, b);
                }
                self.round_state.turn_state = TurnState::Organize;
                proof {
                    assert(self@ =~~= apply_swap(m0, a, b));
                    lemma_apply_swap_ok(m0, a, b);
                }
            },
            PlayerAction::DiscardHand => {
                let hand = {
                    let pref = &mut self.players[idx];
                    pref.hand.take()
                };
                self.discard_pile.add_pile(hand);
                let ghost m_mid = self@;
                proof {
                    let pe = PlayerModel { hand: Seq::<Card>::empty(), ..m0.players[idx as int] };
                    let ps = m0.players.update(idx as int, pe);
                    assert(m_mid.players =~= ps);
                    lemma_players_total_update(m0.players, idx as int, pe);
                    assert(game_total(m_mid) == game_total(m0));
                    assert forall|i: int| 0 <= i < ps.len() implies crate::model::player_wf(
                        #[trigger] m_mid.players[i],
                    ) by {
                        if i != idx {
                            assert(m_mid.players[i] == m0.players[i]);
                        }
                    }
                    assert(game_wf(m_mid));
                }
                self.next_player();
                proof {
                    let m1 = self@;
                    let pe = PlayerModel { hand: Seq::<Card>::empty(), ..m0.players[idx as int] };
                    let ps = m0.players.update(idx as int, pe);
                    let d1 = m0.discard + m0.players[idx as int].hand;
                    if m_mid.stock.len() >= 5 {
                        assert(deal_to_next(m_mid, m_mid.stock, m_mid.discard, m_mid.players)
                            =~~= deal_to_next(m0, m0.stock, d1, ps));
                    } else {
                        let sh = choose|sh: Seq<Card>|
                            sh.to_multiset() == m_mid.discard.to_multiset() && m1 == deal_to_next(
                                m_mid,
                                m_mid.stock + sh,
                                Seq::empty(),
                                m_mid.players,
                            );
                        assert(deal_to_next(m_mid, m_mid.stock + sh, Seq::empty(), m_mid.players)
                            =~~= deal_to_next(m0, m0.stock + sh, Seq::empty(), ps));
                        assert(sh.to_multiset() == d1.to_multiset() && m1 == deal_to_next(
                            m0,
                            m0.stock + sh,
                            Seq::empty(),
                            ps,
                        ));
                    }
                    assert(discard_step(m0, m1));
                    lemma_discard_ok(m0, m1);
                }
                let np = self.round_state.player;
                return Ok(PlayerActionResult::NextPlayer(np));
            },
        }
        let ghost m1 = self@;
        proof {
            lemma_pile_bounds(m1, idx as int);
        }
        let kc = {
            let p0 = &self.players[idx];
            p0.king_pile.cards.count()
        };
        if kc == self.win_threshold {
            Ok(PlayerActionResult::GameWon(player))
        } else {
            Ok(PlayerActionResult::Nominal)
        }
    }

    /// The seat index of the first player with the given suit.
    pub fn player_index_by_suit(&self, suit: Suit) -> (r: Option<usize>)
        ensures
            match r {
                Some(t) => 0 <= t < self@.players.len() && t == index_of_suit(self@.players, suit)
                    && has_suit(self@.players, suit),
                None => !has_suit(self@.players, suit),
            },
    {
        let n = self.players.len();
        for i in 0..n
            invariant
                n == self.players.len(),
                forall|j: int| 0 <= j < i ==> self@.players[j].suit != suit,
        {
            let p = &self.players[i];
            if p.suit == suit {
                proof {
                    assert(self@.players[i as int].suit == suit);
                    lemma_index_of_suit_unique(self@.players, suit, i as int);
                }
                return Some(i);
            }
        }
        proof {
            assert(!has_suit(self@.players, suit));
        }
        None
    }

    /// Advances the round: reshuffles the discard pile under a low stock,
    /// deals up to five cards to the cyclically next player, and resets
    /// the phase.
    fn next_player(&mut self)
        requires
            game_wf(old(self)@),
        ensures
            advance_rel(old(self)@, final(self)@),
            game_wf(final(self)@),
            game_total(final(self)@) == game_total(old(self)@),
    {
        let ghost m0 = self@;
        proof {
            lemma_pile_bounds(m0, m0.player);
        }
        let ghost mut sh: Seq<Card> = Seq::empty();
        let low = self.stock_pile.count() < 5;
        if low {
            let d = self.discard_pile.take();
            let d = d.shuffled();
            proof {
                sh = d@;
            }
            self.stock_pile.add_pile(d);
        }
        let dealt = self.stock_pile.take_up_to_n(5);
        self.round_state.turn_state = TurnState::Attack;
        let n = self.players.len() as u8;
        self.round_state.player = (self.round_state.player + 1) % n;
        let nidx = self.round_state.player as usize;
        proof {
            assert(0 <= nidx < self.players@.len()) by (nonlinear_arith)
                requires
                    n == self.players@.len(),
                    n > 0,
                    nidx == ((m0.player + 1) % (n as int)),
            ;
        }
        {
            let pref = &mut self.players[nidx];
            pref.hand.add_pile(dealt);
        }
        proof {
            let stock1 = if m0.stock.len() < 5 {
                m0.stock + sh
            } else {
                m0.stock
            };
            let discard1 = if m0.stock.len() < 5 {
                Seq::<Card>::empty()
            } else {
                m0.discard
            };
            assert(self@ =~~= deal_to_next(m0, stock1, discard1, m0.players));
            if m0.stock.len() < 5 {
                assert(sh.to_multiset() == m0.discard.to_multiset() && self@ == deal_to_next(
                    m0,
                    m0.stock + sh,
                    Seq::empty(),
                    m0.players,
                ));
            }
            assert(advance_rel(m0, self@));
            lemma_advance_ok(m0, self@);
        }
    }

    pub fn clone(&self) -> (r: GameState)
        ensures
            r@ == self@,
    {
        let mut players: Vec<PlayerState> = Vec::new();
        let n = self.players.len();
        for i in 0..n
            invariant
                n == self.players.len(),
                players@.len() == i,
                forall|j: int| 0 <= j < i ==> (#[trigger] players@[j])@ == self.players@[j]@,
        {
            let p = &self.players[i];
            players.push(p.clone());
        }
        let r = GameState {
            round_state: self.round_state,
            discard_pile: self.discard_pile.clone(),
            stock_pile: self.stock_pile.clone(),
            players,
            win_threshold: self.win_threshold,
        };
        proof {
            assert(r@ =~~= self@);
        }
        r
    }

    /// The strength of a house pile in an attack.
    pub fn evaluate_house_pile_value(pile: &SpecialPile) -> (r: u32)
        requires
            is_picture(pile@.special.rank),
            2 * pile@.cards.len() <= u32::MAX,
        ensures
            r == pile_strength(pile.special_card, pile.cards@),
    {
        match pile.special_card.rank {
            Rank::Jack => pile.cards.count(),
            Rank::Ace => pile.cards.count() + if pile.cards.contains_rank(Rank::Two) {
                1
            } else {
                0
            },
            Rank::Queen => pile.cards.count() * 2,
            _ => 0,
        }
    }

    /// Whether the pile's placement rule accepts the card.
    pub fn can_add_to_house_pile(pile: &SpecialPile, card: Card) -> (r: bool)
        ensures
            r == pile_accepts(pile.special_card, pile.cards@, card),
    {
        let blocked = match card.rank {
            Rank::King | Rank::Jack | Rank::Ace | Rank::Queen => true,
            _ => false,
        };
        if blocked {
            return false;
        }
        match pile.special_card.rank {
            Rank::King | Rank::Jack => card.suit == pile.special_card.suit,
            Rank::Ace => {
                let up = pile.cards.contains_rank(card.rank.up());
                let down = pile.cards.contains_rank(card.rank.down());
                !pile.cards.contains_rank(card.rank) && (pile.cards.is_empty() || up || down)
            },
            Rank::Queen => {
                let ranks = Rank::iter();
                let mut any_single = false;
                let mut k: usize = 0;
                while k < 13
                    invariant
                        0 <= k <= 13,
                        ranks@ == crate::cards::rank_order(),
                        any_single ==> exists|q: Rank|
                            crate::cards::count_rank(pile.cards@, q) == 1,
                        !any_single ==> forall|j: int|
                            0 <= j < k ==> crate::cards::count_rank(
                                pile.cards@,
                                crate::cards::rank_order()[j],
                            ) != 1,
                    decreases 13 - k,
                {
                    if self_count_is_one(&pile.cards, ranks[k]) {
                        any_single = true;
                    }
                    k += 1;
                }
                if any_single {
                    pile.cards.count_of_rank(card.rank) > 0
                } else {
                    proof {
                        assert forall|q: Rank|
                            crate::cards::count_rank(pile.cards@, q) != 1 by {
                            crate::cards::lemma_rank_in_order(q);
                        }
                    }
                    true
                }
            },
            _ => false,
        }
    }
}

/// Whether exactly one card of the rank stands in the pile.
fn self_count_is_one(pile: &Pile, rank: Rank) -> (r: bool)
    ensures
        r == (crate::cards::count_rank(pile@, rank) == 1),
{
    pile.count_of_rank(rank) == 1
}

/// The named house-pile field of a player.
pub open spec fn house_slot(p: PlayerState, h: HousePile) -> Option<SpecialPile> {
    match h {
        HousePile::One => p.house_pile_1,
        HousePile::Two => p.house_pile_2,
        HousePile::Three => p.house_pile_3,
    }
}

/// The player with the named house-pile field replaced.
pub open spec fn with_house_slot(p: PlayerState, h: HousePile, v: Option<SpecialPile>) -> PlayerState {
    match h {
        HousePile::One => PlayerState { house_pile_1: v, ..p },
        HousePile::Two => PlayerState { house_pile_2: v, ..p },
        HousePile::Three => PlayerState { house_pile_3: v, ..p },
    }
}

/// The occupied slots of a player, in the fixed slot order.
pub open spec fn occupied_slots(p: PlayerModel) -> Seq<HousePile> {
    (if p.house1 is Some {
        seq![HousePile::One]
    } else {
        Seq::empty()
    }) + (if p.house2 is Some {
        seq![HousePile::Two]
    } else {
        Seq::empty()
    }) + (if p.house3 is Some {
        seq![HousePile::Three]
    } else {
        Seq::empty()
    })
}

} // verus!

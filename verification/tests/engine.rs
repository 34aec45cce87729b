use kings_corner::cards::{Card, Pile, Rank, SpecialPile, Suit};
use kings_corner::game::{
    ActionError, GameState, HousePile, PlayerAction, PlayerActionResult, PlayerPile, PlayerState,
    RoundState, TurnState,
};

fn pile_of(cards: &[Card]) -> Pile {
    let mut p = Pile::new();
    for c in cards {
        p.add(*c);
    }
    p
}

fn card(suit: Suit, rank: Rank) -> Card {
    Card::new(suit, rank)
}

fn total_cards(state: &GameState) -> usize {
    let mut t = state.stock_pile.len() + state.discard_pile.len();
    for p in &state.players {
        t += p.hand.len() + 1 + p.king_pile.cards.len();
        for slot in [&p.house_pile_1, &p.house_pile_2, &p.house_pile_3] {
            if let Some(sp) = slot {
                t += 1 + sp.cards.len();
            }
        }
    }
    t
}

fn two_player_state(stock: Pile, hand0: Pile) -> GameState {
    let mut p0 = PlayerState::initial(Suit::Heart);
    p0.hand = hand0;
    let p1 = PlayerState::initial(Suit::Spade);
    GameState {
        round_state: RoundState { player: 0, turn_state: TurnState::Attack },
        discard_pile: Pile::new(),
        stock_pile: stock,
        players: vec![p0, p1],
        win_threshold: 9,
    }
}

#[test]
fn initial_deal() {
    let state = GameState::initial();
    assert_eq!(state.players.len(), 4);
    assert_eq!(state.round_state.player, 0);
    assert_eq!(state.round_state.turn_state, TurnState::Attack);
    assert_eq!(state.stock_pile.len(), 91);
    assert_eq!(state.discard_pile.len(), 0);
    assert_eq!(state.players[0].hand.len(), 5);
    assert_eq!(state.players[1].hand.len(), 0);
    assert_eq!(state.players[0].suit, Suit::Heart);
    assert_eq!(state.players[1].suit, Suit::Spade);
    assert_eq!(state.players[2].suit, Suit::Diamond);
    assert_eq!(state.players[3].suit, Suit::Club);
    for p in &state.players {
        assert_eq!(p.king_pile.special_card, card(p.suit, Rank::King));
        assert_eq!(p.king_pile.cards.len(), 0);
        assert!(p.house_pile_1.is_none());
    }
    assert_eq!(total_cards(&state), 100);
}

#[test]
fn card_total_constant_over_play() {
    let mut state = GameState::initial();
    assert_eq!(total_cards(&state), 100);
    let mut ais: Vec<kings_corner::ai::AIPlayer> =
        (0..4).map(kings_corner::ai::AIPlayer::new).collect();
    for _ in 0..10 {
        for i in 0..4 {
            for action in ais[i].play_turn(state.clone()) {
                state.perform_player_action(i as u8, action).unwrap();
                assert_eq!(total_cards(&state), 100);
            }
        }
    }
}

#[test]
fn not_your_turn_rejects_and_leaves_state() {
    let mut state = GameState::initial();
    let before = state.to_string();
    let before_hand = state.hand_to_string();
    let r = state.perform_player_action(1, PlayerAction::DiscardHand);
    assert_eq!(r, Err(ActionError::NotYourTurn));
    assert_eq!(state.to_string(), before);
    assert_eq!(state.hand_to_string(), before_hand);
    assert_eq!(total_cards(&state), 100);
}

#[test]
fn attack_outside_attack_phase_rejects() {
    let mut state = GameState::initial();
    // Any swap moves the phase to Organize, even a self-swap.
    let r = state.perform_player_action(
        0,
        PlayerAction::SwapHousePile(HousePile::One, HousePile::One),
    );
    assert!(r.is_ok());
    assert_eq!(state.round_state.turn_state, TurnState::Organize);
    let r = state.perform_player_action(
        0,
        PlayerAction::Attack { house_pile: HousePile::One, target_player: Suit::Spade },
    );
    assert_eq!(r, Err(ActionError::WrongPhase));
}

#[test]
fn picture_cards_never_land_on_existing_piles() {
    let queen = card(Suit::Heart, Rank::Queen);
    let jack = card(Suit::Spade, Rank::Jack);
    let mut state = two_player_state(pile_of(&[]), pile_of(&[queen, jack]));
    // Occupy slot one with a jack pile.
    state.players[0].house_pile_1 = Some(SpecialPile::new(card(Suit::Heart, Rank::Jack)));

    let r = state.perform_player_action(
        0,
        PlayerAction::AddCardToPile { pile: PlayerPile::KingPile, card: queen },
    );
    assert_eq!(r, Err(ActionError::IllegalPlacement));

    let r = state.perform_player_action(
        0,
        PlayerAction::AddCardToPile {
            pile: PlayerPile::HousePile(HousePile::One),
            card: jack,
        },
    );
    assert_eq!(r, Err(ActionError::PileOccupied));
    // Nothing changed: both cards are still in the hand.
    assert_eq!(state.players[0].hand.len(), 2);
    assert_eq!(state.round_state.turn_state, TurnState::Attack);
}

#[test]
fn fresh_jack_opens_slot_then_club_is_refused_then_turn_passes() {
    let jack_hearts = card(Suit::Heart, Rank::Jack);
    let club4 = card(Suit::Club, Rank::Four);
    let stock = pile_of(&[
        card(Suit::Club, Rank::Two),
        card(Suit::Club, Rank::Three),
        card(Suit::Club, Rank::Five),
        card(Suit::Club, Rank::Six),
        card(Suit::Club, Rank::Seven),
        card(Suit::Club, Rank::Eight),
        card(Suit::Club, Rank::Nine),
    ]);
    let mut state = two_player_state(stock, pile_of(&[jack_hearts, club4]));

    let r = state.perform_player_action(
        0,
        PlayerAction::AddCardToPile {
            pile: PlayerPile::HousePile(HousePile::One),
            card: jack_hearts,
        },
    );
    assert_eq!(r, Ok(PlayerActionResult::Nominal));
    let sp = state.players[0].house_pile_1.as_ref().unwrap();
    assert_eq!(sp.special_card, jack_hearts);
    assert_eq!(sp.cards.len(), 0);
    assert_eq!(state.round_state.turn_state, TurnState::Organize);

    // A club on the hearts jack pile violates the suit rule.
    let r = state.perform_player_action(
        0,
        PlayerAction::AddCardToPile {
            pile: PlayerPile::HousePile(HousePile::One),
            card: club4,
        },
    );
    assert_eq!(r, Err(ActionError::IllegalPlacement));

    // Ending the turn deals the next player up to five cards.
    let r = state.perform_player_action(0, PlayerAction::DiscardHand);
    assert_eq!(r, Ok(PlayerActionResult::NextPlayer(1)));
    assert_eq!(state.round_state.player, 1);
    assert_eq!(state.round_state.turn_state, TurnState::Attack);
    assert_eq!(state.players[1].hand.len(), 5);
}

#[test]
fn attack_stronger_jack_pile_beats_queen_pile() {
    let mut state = two_player_state(pile_of(&[]), pile_of(&[]));
    // Attacker: jack pile with three cards, strength three.
    let mut atk = SpecialPile::new(card(Suit::Heart, Rank::Jack));
    atk.cards = pile_of(&[
        card(Suit::Heart, Rank::Two),
        card(Suit::Heart, Rank::Three),
        card(Suit::Heart, Rank::Four),
    ]);
    state.players[0].house_pile_1 = Some(atk);
    // Defender: queen pile with one card, strength two.
    let mut def = SpecialPile::new(card(Suit::Spade, Rank::Queen));
    def.cards = pile_of(&[card(Suit::Club, Rank::Nine)]);
    state.players[1].house_pile_2 = Some(def);

    let before = total_cards(&state);
    let r = state.perform_player_action(
        0,
        PlayerAction::Attack { house_pile: HousePile::One, target_player: Suit::Spade },
    );
    assert_eq!(r, Ok(PlayerActionResult::Nominal));
    // The defender's card lands in the attacker's hand.
    assert_eq!(state.players[0].hand.len(), 1);
    assert!(state.players[0].hand.contains_rank(Rank::Nine));
    // Both piles are gone; both specials and the attacking cards are discarded.
    assert!(state.players[0].house_pile_1.is_none());
    assert!(state.players[1].house_pile_2.is_none());
    assert_eq!(state.discard_pile.len(), 5);
    assert_eq!(total_cards(&state), before);
    // The phase stays Attack.
    assert_eq!(state.round_state.turn_state, TurnState::Attack);
}

#[test]
fn attack_weaker_pile_fails_softly() {
    let mut state = two_player_state(pile_of(&[]), pile_of(&[]));
    // Attacker: jack pile with one card, strength one.
    let mut atk = SpecialPile::new(card(Suit::Heart, Rank::Jack));
    atk.cards = pile_of(&[card(Suit::Heart, Rank::Two)]);
    state.players[0].house_pile_1 = Some(atk);
    // Defender: queen pile with one card, strength two.
    let mut def = SpecialPile::new(card(Suit::Spade, Rank::Queen));
    def.cards = pile_of(&[card(Suit::Club, Rank::Nine)]);
    state.players[1].house_pile_1 = Some(def);

    let r = state.perform_player_action(
        0,
        PlayerAction::Attack { house_pile: HousePile::One, target_player: Suit::Spade },
    );
    assert_eq!(r, Ok(PlayerActionResult::Nominal));
    // The defender's pile stands; the attacking card joins the defender's hand.
    assert!(state.players[1].house_pile_1.is_some());
    assert_eq!(state.players[1].hand.len(), 1);
    // Only the attacker's special card is discarded.
    assert_eq!(state.discard_pile.len(), 1);
    assert!(state.players[0].house_pile_1.is_none());
}

#[test]
fn wasted_attack_discards_the_attacking_pile() {
    let mut state = two_player_state(pile_of(&[]), pile_of(&[]));
    let mut atk = SpecialPile::new(card(Suit::Heart, Rank::Jack));
    atk.cards = pile_of(&[card(Suit::Heart, Rank::Two), card(Suit::Heart, Rank::Five)]);
    state.players[0].house_pile_3 = Some(atk);

    let before = total_cards(&state);
    let r = state.perform_player_action(
        0,
        PlayerAction::Attack { house_pile: HousePile::Three, target_player: Suit::Spade },
    );
    assert_eq!(r, Ok(PlayerActionResult::Nominal));
    assert!(state.players[0].house_pile_3.is_none());
    assert_eq!(state.discard_pile.len(), 3);
    assert_eq!(total_cards(&state), before);
}

#[test]
fn attack_errors() {
    let mut state = two_player_state(pile_of(&[]), pile_of(&[]));
    let r = state.perform_player_action(
        0,
        PlayerAction::Attack { house_pile: HousePile::One, target_player: Suit::Spade },
    );
    assert_eq!(r, Err(ActionError::NoSuchPile));

    let mut atk = SpecialPile::new(card(Suit::Heart, Rank::Jack));
    atk.cards = pile_of(&[card(Suit::Heart, Rank::Two)]);
    state.players[0].house_pile_1 = Some(atk);
    let r = state.perform_player_action(
        0,
        PlayerAction::Attack { house_pile: HousePile::One, target_player: Suit::Diamond },
    );
    assert_eq!(r, Err(ActionError::NoSuchPlayer));
}

#[test]
fn card_not_in_hand_is_rejected() {
    let mut state = two_player_state(pile_of(&[]), pile_of(&[]));
    let r = state.perform_player_action(
        0,
        PlayerAction::AddCardToPile {
            pile: PlayerPile::KingPile,
            card: card(Suit::Heart, Rank::Two),
        },
    );
    assert_eq!(r, Err(ActionError::CardNotInHand));
}

#[test]
fn reshuffle_merges_discard_before_dealing() {
    // Stock has three cards, the discard twenty: ending the turn reshuffles
    // the discard under the stock and deals a full hand of five.
    let stock = pile_of(&[
        card(Suit::Club, Rank::Two),
        card(Suit::Club, Rank::Three),
        card(Suit::Club, Rank::Four),
    ]);
    let mut discard = Pile::new();
    for _ in 0..20 {
        discard.add(card(Suit::Blank, Rank::Seven));
    }
    let mut state = two_player_state(stock, pile_of(&[]));
    state.discard_pile = discard;

    let before = total_cards(&state);
    let r = state.perform_player_action(0, PlayerAction::DiscardHand);
    assert_eq!(r, Ok(PlayerActionResult::NextPlayer(1)));
    assert_eq!(state.players[1].hand.len(), 5);
    assert_eq!(state.discard_pile.len(), 0);
    assert_eq!(state.stock_pile.len(), 18);
    assert_eq!(total_cards(&state), before);
}

#[test]
fn swap_exchanges_slots_and_moves_phase() {
    let mut state = two_player_state(pile_of(&[]), pile_of(&[]));
    let sp = SpecialPile::new(card(Suit::Heart, Rank::Queen));
    state.players[0].house_pile_1 = Some(sp);
    let r = state.perform_player_action(
        0,
        PlayerAction::SwapHousePile(HousePile::One, HousePile::Three),
    );
    assert_eq!(r, Ok(PlayerActionResult::Nominal));
    assert!(state.players[0].house_pile_1.is_none());
    let moved = state.players[0].house_pile_3.as_ref().unwrap();
    assert_eq!(moved.special_card, card(Suit::Heart, Rank::Queen));
    assert_eq!(state.round_state.turn_state, TurnState::Organize);
}

#[test]
fn ninth_king_pile_card_wins() {
    let mut state = two_player_state(pile_of(&[]), pile_of(&[card(Suit::Heart, Rank::Two)]));
    let mut eight = Pile::new();
    for _ in 0..8 {
        eight.add(card(Suit::Heart, Rank::Nine));
    }
    state.players[0].king_pile.cards = eight;

    let r = state.perform_player_action(
        0,
        PlayerAction::AddCardToPile {
            pile: PlayerPile::KingPile,
            card: card(Suit::Heart, Rank::Two),
        },
    );
    assert_eq!(r, Ok(PlayerActionResult::GameWon(0)));
    assert_eq!(state.players[0].king_pile.cards.len(), 9);
}

#[test]
fn placement_rules() {
    // Jack pile: suit must match.
    let jack = SpecialPile::new(card(Suit::Heart, Rank::Jack));
    assert!(GameState::can_add_to_house_pile(&jack, card(Suit::Heart, Rank::Two)));
    assert!(!GameState::can_add_to_house_pile(&jack, card(Suit::Club, Rank::Two)));
    // No picture card or king is ever accepted.
    assert!(!GameState::can_add_to_house_pile(&jack, card(Suit::Heart, Rank::Queen)));
    assert!(!GameState::can_add_to_house_pile(&jack, card(Suit::Heart, Rank::King)));

    // Ace pile: a new rank, cyclically adjacent to one already there.
    let mut ace = SpecialPile::new(card(Suit::Heart, Rank::Ace));
    assert!(GameState::can_add_to_house_pile(&ace, card(Suit::Club, Rank::Nine)));
    ace.cards.add(card(Suit::Club, Rank::Nine));
    assert!(GameState::can_add_to_house_pile(&ace, card(Suit::Spade, Rank::Ten)));
    assert!(GameState::can_add_to_house_pile(&ace, card(Suit::Spade, Rank::Eight)));
    assert!(!GameState::can_add_to_house_pile(&ace, card(Suit::Spade, Rank::Nine)));
    assert!(!GameState::can_add_to_house_pile(&ace, card(Suit::Spade, Rank::Six)));

    // Queen pile: once some rank stands alone, only already-present ranks go.
    let mut queen = SpecialPile::new(card(Suit::Heart, Rank::Queen));
    assert!(GameState::can_add_to_house_pile(&queen, card(Suit::Club, Rank::Five)));
    queen.cards.add(card(Suit::Club, Rank::Five));
    assert!(GameState::can_add_to_house_pile(&queen, card(Suit::Spade, Rank::Five)));
    assert!(!GameState::can_add_to_house_pile(&queen, card(Suit::Spade, Rank::Six)));
    queen.cards.add(card(Suit::Spade, Rank::Five));
    // Every rank present is paired again: anything goes.
    assert!(GameState::can_add_to_house_pile(&queen, card(Suit::Spade, Rank::Six)));
}

#[test]
fn pile_strengths() {
    let mut jack = SpecialPile::new(card(Suit::Heart, Rank::Jack));
    jack.cards = pile_of(&[card(Suit::Heart, Rank::Two), card(Suit::Heart, Rank::Three)]);
    assert_eq!(GameState::evaluate_house_pile_value(&jack), 2);

    let mut queen = SpecialPile::new(card(Suit::Heart, Rank::Queen));
    queen.cards = pile_of(&[card(Suit::Club, Rank::Five)]);
    assert_eq!(GameState::evaluate_house_pile_value(&queen), 2);

    let mut ace = SpecialPile::new(card(Suit::Heart, Rank::Ace));
    ace.cards = pile_of(&[card(Suit::Club, Rank::Nine), card(Suit::Club, Rank::Ten)]);
    assert_eq!(GameState::evaluate_house_pile_value(&ace), 2);
    ace.cards.add(card(Suit::Club, Rank::Two));
    // The two gives the ace pile its bonus.
    assert_eq!(GameState::evaluate_house_pile_value(&ace), 4);
}

#[test]
fn mutable_slot_access() {
    let mut p = PlayerState::initial(Suit::Heart);
    *p.get_mut_house_pile(HousePile::Two) =
        Some(SpecialPile::new(card(Suit::Heart, Rank::Ace)));
    assert!(p.house_pile_2.is_some());
    assert!(p.get_house_pile(HousePile::Two).is_some());
    assert!(p.get_house_pile(HousePile::One).is_none());
    assert_eq!(p.first_house_pile(), Some(HousePile::Two));
    assert_eq!(p.house_piles(), vec![HousePile::Two]);
}

#[test]
fn rank_cycle_wraps() {
    assert_eq!(Rank::Ace.down(), Rank::King);
    assert_eq!(Rank::King.up(), Rank::Ace);
    assert_eq!(Rank::Ace.up(), Rank::Two);
    assert_eq!(Rank::Two.down(), Rank::Ace);
    assert_eq!(Rank::Ten.up(), Rank::Jack);
}

use kings_corner::cards::{Card, Pile, Rank, SpecialPile, Suit};
use kings_corner::game::{GameState, PlayerState, RoundState, TurnState};
use kings_corner::text::{dec_string, state_event_string, won_event_string};

fn small_state() -> GameState {
    let mut p0 = PlayerState::initial(Suit::Heart);
    let mut hand = Pile::new();
    hand.add(Card::new(Suit::Club, Rank::Ten));
    hand.add(Card::new(Suit::Heart, Rank::Two));
    p0.hand = hand;
    let mut sp = SpecialPile::new(Card::new(Suit::Heart, Rank::Jack));
    sp.cards.add(Card::new(Suit::Heart, Rank::Three));
    p0.house_pile_2 = Some(sp);
    let mut stock = Pile::new();
    for _ in 0..12 {
        stock.add(Card::new(Suit::Blank, Rank::Four));
    }
    GameState {
        round_state: RoundState { player: 0, turn_state: TurnState::Attack },
        discard_pile: Pile::new(),
        stock_pile: stock,
        players: vec![p0, PlayerState::initial(Suit::Spade)],
        win_threshold: 9,
    }
}

#[test]
fn snapshot_text() {
    let state = small_state();
    assert_eq!(state.to_string(), "0a:12:0;h0,-,hj1,-:2;s0,-,-,-:0");
}

#[test]
fn hand_text_lists_card_codes() {
    let state = small_state();
    assert_eq!(state.hand_to_string(), "c1h2");
}

#[test]
fn state_event_shows_hand_only_to_the_acting_player() {
    let state = small_state();
    let own = state_event_string(&state, 0);
    assert_eq!(own, "state:0a:12:0;h0,-,hj1,-:2;s0,-,-,-:0\nhand:c1h2");
    let other = state_event_string(&state, 1);
    assert_eq!(other, "state:0a:12:0;h0,-,hj1,-:2;s0,-,-,-:0");
}

#[test]
fn won_event_text_names_the_seat() {
    assert_eq!(won_event_string(3), "gmwon:3");
    assert_eq!(won_event_string(10), "gmwon:10");
}

#[test]
fn decimal_rendering() {
    assert_eq!(dec_string(0), "0");
    assert_eq!(dec_string(7), "7");
    assert_eq!(dec_string(42), "42");
    assert_eq!(dec_string(105), "105");
}

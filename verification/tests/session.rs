use kings_corner::cards::{Card, Pile, Rank, Suit};
use kings_corner::game::{
    ActionError, GameState, PlayerAction, PlayerPile, PlayerState, RoundState, TurnState,
};
use kings_corner::session::{ActionOutcome, Seat, SessionCore};

#[test]
fn seats_fill_up_and_game_starts() {
    let mut s = SessionCore::new(2);
    assert_eq!(s.seats.len(), 2);
    assert!(!s.check_start_game());
    let c3 = s.join_player();
    assert!(c3.is_some());
    assert!(!s.check_start_game());
    let c4 = s.join_player();
    assert!(c4.is_some());
    assert!(s.check_start_game());
    assert!(s.is_started);
    // A fifth join is refused.
    assert_eq!(s.join_player(), None);
    assert_eq!(s.seats.len(), 4);
}

#[test]
fn credentials_are_stored_encoded() {
    let mut s = SessionCore::new(0);
    let plain = s.join_player().unwrap();
    // The plain credential is seat, colon, sixteen hex digits.
    assert_eq!(plain.len(), 18);
    assert!(plain.starts_with("0:"));
    // The session knows the seat only under the encoded form.
    assert_eq!(s.get_player(&plain), None);
    let encoded = base64::encode(&plain);
    assert_eq!(s.get_player(&encoded), Some(0));
    assert_eq!(s.get_player("nonsense"), None);
}

#[test]
fn automated_seats_get_move_lists() {
    let mut s = SessionCore::new(4);
    assert!(s.check_play_ai().is_none());
    assert!(s.check_start_game());
    let (seat, moves) = s.check_play_ai().unwrap();
    assert_eq!(seat, s.state.round_state.player as usize);
    assert_eq!(*moves.last().unwrap(), PlayerAction::DiscardHand);
}

#[test]
fn human_seats_are_not_scheduled() {
    let mut s = SessionCore::new(0);
    for _ in 0..4 {
        s.join_player().unwrap();
    }
    assert!(s.check_start_game());
    assert!(s.check_play_ai().is_none());
}

#[test]
fn submission_outcomes() {
    let mut s = SessionCore::new(4);
    s.check_start_game();
    let r = s.submit_action(1, PlayerAction::DiscardHand);
    assert_eq!(r, ActionOutcome::Rejected(ActionError::NotYourTurn));
    let r = s.submit_action(0, PlayerAction::DiscardHand);
    assert_eq!(r, ActionOutcome::TurnAdvanced(1));
}

#[test]
fn finished_session_refuses_everything() {
    // A state one card short of the win threshold.
    let mut p0 = PlayerState::initial(Suit::Heart);
    let mut hand = Pile::new();
    hand.add(Card::new(Suit::Heart, Rank::Two));
    p0.hand = hand;
    let mut eight = Pile::new();
    for _ in 0..8 {
        eight.add(Card::new(Suit::Heart, Rank::Nine));
    }
    p0.king_pile.cards = eight;
    let state = GameState {
        round_state: RoundState { player: 0, turn_state: TurnState::Attack },
        discard_pile: Pile::new(),
        stock_pile: Pile::new(),
        players: vec![
            p0,
            PlayerState::initial(Suit::Spade),
            PlayerState::initial(Suit::Diamond),
            PlayerState::initial(Suit::Club),
        ],
        win_threshold: 9,
    };
    let mut s = SessionCore {
        state,
        seats: Vec::new(),
        is_started: true,
        winner: None,
    };
    let r = s.submit_action(
        0,
        PlayerAction::AddCardToPile {
            pile: PlayerPile::KingPile,
            card: Card::new(Suit::Heart, Rank::Two),
        },
    );
    assert_eq!(r, ActionOutcome::GameWon(0));
    assert_eq!(s.winner, Some(0));
    // From now on nothing is processed, whoever asks.
    let r = s.submit_action(0, PlayerAction::DiscardHand);
    assert_eq!(r, ActionOutcome::GameOver);
    let r = s.submit_action(1, PlayerAction::DiscardHand);
    assert_eq!(r, ActionOutcome::GameOver);
    assert_eq!(s.winner, Some(0));
}

#[test]
fn seat_kinds() {
    let s = SessionCore::new(1);
    match &s.seats[0] {
        Seat::Automated(a) => assert_eq!(a.player_id, 0),
        Seat::Human(_) => panic!("expected an automated seat"),
    }
}

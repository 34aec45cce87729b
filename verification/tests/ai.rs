use kings_corner::ai::AIPlayer;
use kings_corner::game::GameState;

#[test]
fn it_plays_with_ai() {
    for _ in 0..100 {
        let mut state = GameState::initial();
        let mut ai0 = AIPlayer::new(0);
        let mut ai1 = AIPlayer::new(1);
        let mut ai2 = AIPlayer::new(2);
        let mut ai3 = AIPlayer::new(3);

        for _ in 0..50 {
            ai0.play_turn(state.clone()).into_iter().for_each(|action| {
                state.perform_player_action(0, action).unwrap();
            });
            ai1.play_turn(state.clone()).into_iter().for_each(|action| {
                state.perform_player_action(1, action).unwrap();
            });
            ai2.play_turn(state.clone()).into_iter().for_each(|action| {
                state.perform_player_action(2, action).unwrap();
            });
            ai3.play_turn(state.clone()).into_iter().for_each(|action| {
                state.perform_player_action(3, action).unwrap();
            });
        }
    }
}

#[test]
fn ai_turn_ends_with_discard() {
    let state = GameState::initial();
    let mut ai = AIPlayer::new(0);
    let moves = ai.play_turn(state);
    assert!(moves.len() >= 1);
    assert_eq!(
        *moves.last().unwrap(),
        kings_corner::game::PlayerAction::DiscardHand
    );
}

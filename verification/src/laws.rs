//! The global laws of the rules engine, proved from the transition
//! relation that `perform_player_action` is specified by.

use crate::cards::{is_picture, Card};
use crate::game::{
    ActionError, HousePile, PlayerAction, PlayerActionResult, PlayerPile, TurnState,
};
use crate::model::{
    check_action, game_total, game_wf, lemma_apply_add_card_ok, lemma_apply_attack_ok,
    lemma_apply_swap_ok, lemma_discard_ok, slot, step_rel, GameModel,
};
use vstd::prelude::*;

verus! {

/// One engine step — accepted or rejected — keeps the total card count
/// across stock, discard pile and every player's holdings, and keeps the
/// state well-formed.
pub proof fn lemma_step_preserves_cards(
    m0: GameModel,
    player: int,
    action: PlayerAction,
    r: Result<PlayerActionResult, ActionError>,
    m1: GameModel,
)
    requires
        game_wf(m0),
        step_rel(m0, player, action, r, m1),
    ensures
        game_total(m1) == game_total(m0),
        game_wf(m1),
{
    if check_action(m0, player, action) is None {
        match action {
            PlayerAction::Attack { house_pile, target_player } => {
                lemma_apply_attack_ok(m0, house_pile, target_player);
            },
            PlayerAction::AddCardToPile { pile, card } => {
                lemma_apply_add_card_ok(m0, pile, card);
            },
            PlayerAction::SwapHousePile(a, b) => {
                lemma_apply_swap_ok(m0, a, b);
            },
            PlayerAction::DiscardHand => {
                lemma_discard_ok(m0, m1);
            },
        }
    }
}

/// Two states joined by some engine step, whoever submitted whatever
/// action with whatever outcome.
pub open spec fn step_connected(m0: GameModel, m1: GameModel) -> bool {
    exists|player: int, action: PlayerAction, r: Result<PlayerActionResult, ActionError>|
        #[trigger] step_rel(m0, player, action, r, m1)
}

/// A trace of states each joined to the next by an engine step.
pub open spec fn chained(tr: Seq<GameModel>) -> bool {
    forall|i: int| 0 <= i < tr.len() - 1 ==> step_connected(#[trigger] tr[i], tr[i + 1])
}

/// For every sequence of submitted actions — legal or not — the total card
/// count across stock, discard and all player piles and hands stays what
/// it was at the start.
pub proof fn lemma_trace_preserves_cards(tr: Seq<GameModel>)
    requires
        tr.len() > 0,
        game_wf(tr[0]),
        chained(tr),
    ensures
        game_total(tr.last()) == game_total(tr[0]),
        game_wf(tr.last()),
    decreases tr.len(),
{
    if tr.len() > 1 {
        let pre = tr.drop_last();
        assert(chained(pre)) by {
            assert forall|i: int| 0 <= i < pre.len() - 1 implies step_connected(
                #[trigger] pre[i],
                pre[i + 1],
            ) by {
                assert(pre[i] == tr[i] && pre[i + 1] == tr[i + 1]);
            }
        }
        lemma_trace_preserves_cards(pre);
        assert(step_connected(tr[tr.len() - 2], tr[tr.len() - 1]));
        let (player, action, r) = choose|
            player: int,
            action: PlayerAction,
            r: Result<PlayerActionResult, ActionError>,
        | #[trigger] step_rel(tr[tr.len() - 2], player, action, r, tr[tr.len() - 1]);
        lemma_step_preserves_cards(tr[tr.len() - 2], player, action, r, tr[tr.len() - 1]);
        assert(pre.last() == tr[tr.len() - 2]);
    }
}

/// An action submitted by anyone but the current player is rejected with
/// `NotYourTurn` and changes nothing.
pub proof fn lemma_not_your_turn(
    m0: GameModel,
    player: int,
    action: PlayerAction,
    r: Result<PlayerActionResult, ActionError>,
    m1: GameModel,
)
    requires
        step_rel(m0, player, action, r, m1),
        player != m0.player,
    ensures
        r == Result::<PlayerActionResult, ActionError>::Err(ActionError::NotYourTurn),
        m1 == m0,
{
}

/// An attack submitted outside the attack phase is rejected with
/// `WrongPhase` and changes nothing.
pub proof fn lemma_attack_needs_attack_phase(
    m0: GameModel,
    player: int,
    action: PlayerAction,
    r: Result<PlayerActionResult, ActionError>,
    m1: GameModel,
)
    requires
        step_rel(m0, player, action, r, m1),
        player == m0.player,
        action is Attack,
        m0.phase != TurnState::Attack,
    ensures
        r == Result::<PlayerActionResult, ActionError>::Err(ActionError::WrongPhase),
        m1 == m0,
{
}

/// A king or picture card aimed at any existing special pile — the king
/// pile or an occupied house slot — is rejected and changes nothing: kings
/// and pictures aimed at the king pile draw `IllegalPlacement`, a picture
/// aimed at an occupied slot draws `PileOccupied`.
pub proof fn lemma_no_picture_on_existing_pile(
    m0: GameModel,
    player: int,
    pile: PlayerPile,
    card: Card,
    r: Result<PlayerActionResult, ActionError>,
    m1: GameModel,
)
    requires
        step_rel(m0, player, PlayerAction::AddCardToPile { pile, card }, r, m1),
        player == m0.player,
        m0.players[player].hand.contains(card),
        card.rank == crate::cards::Rank::King || is_picture(card.rank),
        pile == PlayerPile::KingPile || (pile matches PlayerPile::HousePile(h) && slot(
            m0.players[player],
            h,
        ) is Some),
    ensures
        m1 == m0,
        r is Err,
        card.rank == crate::cards::Rank::King ==> r
            == Result::<PlayerActionResult, ActionError>::Err(ActionError::IllegalPlacement),
        card.rank != crate::cards::Rank::King && pile == PlayerPile::KingPile ==> r
            == Result::<PlayerActionResult, ActionError>::Err(ActionError::IllegalPlacement),
        card.rank != crate::cards::Rank::King && pile != PlayerPile::KingPile ==> r
            == Result::<PlayerActionResult, ActionError>::Err(ActionError::PileOccupied),
{
}

/// An accepted action that does not end the turn reports a win exactly
/// when it leaves the acting player's king pile at the threshold.
pub proof fn lemma_win_reported(
    m0: GameModel,
    player: int,
    action: PlayerAction,
    r: Result<PlayerActionResult, ActionError>,
    m1: GameModel,
)
    requires
        step_rel(m0, player, action, r, m1),
        r is Ok,
        !(action is DiscardHand),
    ensures
        (r->Ok_0 == PlayerActionResult::GameWon(player as u8)) <==> m1.players[player].king.cards.len()
            == m1.threshold,
{
}

} // verus!

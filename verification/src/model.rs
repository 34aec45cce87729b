//! The mathematical model of a running game: ghost images of the piles and
//! players, the legality check and the transition function for each action,
//! and the card-conservation bookkeeping that the laws are stated over.

use crate::cards::{
    count_rank, first_index_of, has_rank, is_picture, min_len, Card, Pile, Rank, SpecialPile, Suit,
};
use crate::game::{
    ActionError, GameState, HousePile, PlayerAction, PlayerActionResult, PlayerPile, PlayerState,
    TurnState,
};
use vstd::prelude::*;

verus! {

/// Ghost image of a special pile: the fixed special card and the cards
/// stacked on it.
#[verifier::ext_equal]
pub ghost struct SpecialModel {
    pub special: Card,
    pub cards: Seq<Card>,
}

/// Ghost image of one player: suit identity, king pile, the three optional
/// house-pile slots, and the hand.
#[verifier::ext_equal]
pub ghost struct PlayerModel {
    pub suit: Suit,
    pub king: SpecialModel,
    pub house1: Option<SpecialModel>,
    pub house2: Option<SpecialModel>,
    pub house3: Option<SpecialModel>,
    pub hand: Seq<Card>,
}

/// Ghost image of the whole game state.
#[verifier::ext_equal]
pub ghost struct GameModel {
    pub player: int,
    pub phase: TurnState,
    pub discard: Seq<Card>,
    pub stock: Seq<Card>,
    pub players: Seq<PlayerModel>,
    pub threshold: int,
}

impl View for SpecialPile {
    type V = SpecialModel;

    open spec fn view(&self) -> SpecialModel {
        SpecialModel { special: self.special_card, cards: self.cards@ }
    }
}

/// The view of an optional house-pile slot.
pub open spec fn slot_view(o: Option<SpecialPile>) -> Option<SpecialModel> {
    match o {
        Some(sp) => Some(sp@),
        None => None,
    }
}

impl View for PlayerState {
    type V = PlayerModel;

    open spec fn view(&self) -> PlayerModel {
        PlayerModel {
            suit: self.suit,
            king: self.king_pile@,
            house1: slot_view(self.house_pile_1),
            house2: slot_view(self.house_pile_2),
            house3: slot_view(self.house_pile_3),
            hand: self.hand@,
        }
    }
}

impl View for GameState {
    type V = GameModel;

    open spec fn view(&self) -> GameModel {
        GameModel {
            player: self.round_state.player as int,
            phase: self.round_state.turn_state,
            discard: self.discard_pile@,
            stock: self.stock_pile@,
            players: Seq::new(self.players@.len(), |i: int| self.players@[i]@),
            threshold: self.win_threshold as int,
        }
    }
}

/// The house-pile slot of a player named by `h`.
pub open spec fn slot(p: PlayerModel, h: HousePile) -> Option<SpecialModel> {
    match h {
        HousePile::One => p.house1,
        HousePile::Two => p.house2,
        HousePile::Three => p.house3,
    }
}

/// The player with the slot named by `h` replaced by `v`.
pub open spec fn with_slot(p: PlayerModel, h: HousePile, v: Option<SpecialModel>) -> PlayerModel {
    match h {
        HousePile::One => PlayerModel { house1: v, ..p },
        HousePile::Two => PlayerModel { house2: v, ..p },
        HousePile::Three => PlayerModel { house3: v, ..p },
    }
}

/// The first occupied house-pile slot of a player, in the fixed slot order.
pub open spec fn first_slot(p: PlayerModel) -> Option<HousePile> {
    if p.house1 is Some {
        Some(HousePile::One)
    } else if p.house2 is Some {
        Some(HousePile::Two)
    } else if p.house3 is Some {
        Some(HousePile::Three)
    } else {
        None
    }
}

/// The placement rule of a pile, determined by its special card: suit match
/// under a king or jack, cyclic-neighbour ranks without repetition under an
/// ace, and the pairing rule under a queen. Picture cards and kings are
/// never accepted.
pub open spec fn pile_accepts(special: Card, cards: Seq<Card>, card: Card) -> bool {
    &&& !is_picture(card.rank)
    &&& card.rank != Rank::King
    &&& match special.rank {
        Rank::King | Rank::Jack => card.suit == special.suit,
        Rank::Ace => !has_rank(cards, card.rank) && (cards.len() == 0 || has_rank(
            cards,
            crate::cards::spec_rank_up(card.rank),
        ) || has_rank(cards, crate::cards::spec_rank_down(card.rank))),
        Rank::Queen => (exists|q: Rank| count_rank(cards, q) == 1) ==> count_rank(cards, card.rank)
            > 0,
        _ => false,
    }
}

/// The strength of a house pile in an attack, determined by its special
/// card: the card count under a jack, twice the count under a queen, and
/// the count with a bonus for a two under an ace.
pub open spec fn pile_strength(special: Card, cards: Seq<Card>) -> int {
    match special.rank {
        Rank::Jack => cards.len() as int,
        Rank::Queen => 2 * cards.len() as int,
        Rank::Ace => cards.len() + if has_rank(cards, Rank::Two) {
            1int
        } else {
            0int
        },
        _ => 0,
    }
}

/// Cards bound in a special pile, the special card included.
pub open spec fn special_total(sp: SpecialModel) -> int {
    1 + sp.cards.len() as int
}

pub open spec fn opt_total(o: Option<SpecialModel>) -> int {
    match o {
        Some(sp) => special_total(sp),
        None => 0,
    }
}

/// Cards held by one player: hand, king pile and house piles, special
/// cards included.
pub open spec fn player_total(p: PlayerModel) -> int {
    p.hand.len() + special_total(p.king) + opt_total(p.house1) + opt_total(p.house2) + opt_total(
        p.house3,
    )
}

pub open spec fn players_total(s: Seq<PlayerModel>) -> int
    decreases s.len(),
{
    if s.len() == 0 {
        0
    } else {
        player_total(s[0]) + players_total(s.drop_first())
    }
}

/// Every card in the game: stock, discard and all players' holdings.
pub open spec fn game_total(m: GameModel) -> int {
    m.stock.len() + m.discard.len() + players_total(m.players)
}

/// A house pile is headed by a picture card.
pub open spec fn opt_wf(o: Option<SpecialModel>) -> bool {
    match o {
        Some(sp) => is_picture(sp.special.rank),
        None => true,
    }
}

/// A player's king pile is seeded with their own suit's king, and each
/// occupied house-pile slot is headed by a picture card.
pub open spec fn player_wf(p: PlayerModel) -> bool {
    &&& p.king.special == (Card { suit: p.suit, rank: Rank::King })
    &&& opt_wf(p.house1)
    &&& opt_wf(p.house2)
    &&& opt_wf(p.house3)
}

/// Well-formedness of a game state: a current player that exists, few
/// enough players for the one-byte index arithmetic, well-formed piles, and
/// a card total small enough that no length arithmetic can overflow.
pub open spec fn game_wf(m: GameModel) -> bool {
    &&& 0 < m.players.len() <= 255
    &&& 0 <= m.player < m.players.len()
    &&& forall|i: int| 0 <= i < m.players.len() ==> player_wf(#[trigger] m.players[i])
    &&& 0 <= game_total(m) <= 0x1000_0000
}

/// Whether some seated player has the given suit.
pub open spec fn has_suit(s: Seq<PlayerModel>, suit: Suit) -> bool {
    exists|i: int| 0 <= i < s.len() && s[i].suit == suit
}

/// The index of the first player with the given suit; meaningful only when
/// one exists.
pub open spec fn index_of_suit(s: Seq<PlayerModel>, suit: Suit) -> int
    decreases s.len(),
{
    if s.len() == 0 {
        0
    } else if s[0].suit == suit {
        0
    } else {
        1 + index_of_suit(s.drop_first(), suit)
    }
}

pub proof fn lemma_index_of_suit(s: Seq<PlayerModel>, suit: Suit)
    requires
        has_suit(s, suit),
    ensures
        0 <= index_of_suit(s, suit) < s.len(),
        s[index_of_suit(s, suit)].suit == suit,
        forall|j: int| 0 <= j < index_of_suit(s, suit) ==> s[j].suit != suit,
    decreases s.len(),
{
    if s[0].suit == suit {
    } else {
        let w = choose|i: int| 0 <= i < s.len() && s[i].suit == suit;
        assert(s.drop_first()[w - 1].suit == suit);
        assert(has_suit(s.drop_first(), suit));
        lemma_index_of_suit(s.drop_first(), suit);
        let f = index_of_suit(s.drop_first(), suit);
        assert(s[1 + f] == s.drop_first()[f]);
        assert forall|j: int| 0 <= j < 1 + f implies s[j].suit != suit by {
            if j > 0 {
                assert(s[j] == s.drop_first()[j - 1]);
            }
        }
    }
}

pub proof fn lemma_index_of_suit_unique(s: Seq<PlayerModel>, suit: Suit, i: int)
    requires
        0 <= i < s.len(),
        s[i].suit == suit,
        forall|j: int| 0 <= j < i ==> s[j].suit != suit,
    ensures
        index_of_suit(s, suit) == i,
    decreases s.len(),
{
    if s[0].suit == suit {
    } else {
        assert(s.drop_first()[i - 1].suit == suit);
        assert forall|j: int| 0 <= j < i - 1 implies s.drop_first()[j].suit != suit by {
            assert(s.drop_first()[j] == s[j + 1]);
        }
        lemma_index_of_suit_unique(s.drop_first(), suit, i - 1);
    }
}

/// Whether a card may land on the named pile of the player at `me`: a
/// picture card opens an empty slot, anything else must satisfy the
/// targeted existing pile's placement rule. Kings land nowhere.
pub open spec fn placement_ok(m: GameModel, me: int, pp: PlayerPile, card: Card) -> bool {
    let p = m.players[me];
    &&& card.rank != Rank::King
    &&& if is_picture(card.rank) {
        pp matches PlayerPile::HousePile(h) && slot(p, h) is None
    } else {
        match pp {
            PlayerPile::KingPile => pile_accepts(p.king.special, p.king.cards, card),
            PlayerPile::HousePile(h) => slot(p, h) matches Some(sp) && pile_accepts(
                sp.special,
                sp.cards,
                card,
            ),
        }
    }
}

/// A placeable card from the hand is accepted by the action check.
pub proof fn lemma_placement_ok_accepted(m: GameModel, me: int, pp: PlayerPile, card: Card)
    requires
        0 <= me < m.players.len(),
        me == m.player,
        m.players[me].hand.contains(card),
        placement_ok(m, me, pp, card),
    ensures
        check_action(m, me, PlayerAction::AddCardToPile { pile: pp, card }) is None,
{
}

/// Which error, if any, an action draws, in the order the engine tests
/// them. `None` means the action is accepted.
pub open spec fn check_action(m: GameModel, player: int, action: PlayerAction) -> Option<
    ActionError,
> {
    if player != m.player {
        Some(ActionError::NotYourTurn)
    } else {
        match action {
            PlayerAction::Attack { house_pile, target_player } => {
                if m.phase != TurnState::Attack {
                    Some(ActionError::WrongPhase)
                } else if slot(m.players[player], house_pile) is None {
                    Some(ActionError::NoSuchPile)
                } else if !has_suit(m.players, target_player) {
                    Some(ActionError::NoSuchPlayer)
                } else {
                    None
                }
            },
            PlayerAction::AddCardToPile { pile, card } => {
                let p = m.players[player];
                if !p.hand.contains(card) {
                    Some(ActionError::CardNotInHand)
                } else if card.rank == Rank::King {
                    Some(ActionError::IllegalPlacement)
                } else if is_picture(card.rank) {
                    match pile {
                        PlayerPile::KingPile => Some(ActionError::IllegalPlacement),
                        PlayerPile::HousePile(h) => if slot(p, h) is Some {
                            Some(ActionError::PileOccupied)
                        } else {
                            None
                        },
                    }
                } else {
                    match pile {
                        PlayerPile::KingPile => if pile_accepts(
                            p.king.special,
                            p.king.cards,
                            card,
                        ) {
                            None
                        } else {
                            Some(ActionError::IllegalPlacement)
                        },
                        PlayerPile::HousePile(h) => match slot(p, h) {
                            None => Some(ActionError::NoSuchPile),
                            Some(sp) => if pile_accepts(sp.special, sp.cards, card) {
                                None
                            } else {
                                Some(ActionError::IllegalPlacement)
                            },
                        },
                    }
                }
            },
            PlayerAction::SwapHousePile(_, _) => None,
            PlayerAction::DiscardHand => None,
        }
    }
}

/// The state after an accepted attack. The attacker's named pile is lifted
/// out; it resolves against the first occupied slot of the first player
/// with the target suit. With no defending pile the attacking pile is
/// discarded whole; a stronger attack discards both special cards and the
/// attacking cards and moves the defending cards into the attacker's hand;
/// otherwise the defending pile stands, the attacking cards go to the
/// defender's hand and the attacking special card is discarded. The phase
/// does not change.
pub open spec fn apply_attack(m: GameModel, hp: HousePile, tgt: Suit) -> GameModel {
    let p = m.player;
    let atk = slot(m.players[p], hp)->Some_0;
    let ps1 = m.players.update(p, with_slot(m.players[p], hp, None));
    let t = index_of_suit(ps1, tgt);
    let tp = ps1[t];
    match first_slot(tp) {
        None => GameModel { discard: m.discard + seq![atk.special] + atk.cards, players: ps1, ..m },
        Some(d) => {
            let def = slot(tp, d)->Some_0;
            if pile_strength(atk.special, atk.cards) > pile_strength(def.special, def.cards) {
                let ps2 = ps1.update(t, with_slot(tp, d, None));
                let ps3 = ps2.update(
                    p,
                    PlayerModel { hand: ps2[p].hand + def.cards, ..ps2[p] },
                );
                GameModel {
                    discard: m.discard + seq![def.special] + seq![atk.special] + atk.cards,
                    players: ps3,
                    ..m
                }
            } else {
                let ps2 = ps1.update(t, PlayerModel { hand: tp.hand + atk.cards, ..tp });
                GameModel { discard: m.discard + seq![atk.special], players: ps2, ..m }
            }
        },
    }
}

/// The state after an accepted card placement: the card leaves the hand,
/// and either opens a fresh house pile (a picture card on an empty slot) or
/// lands on the targeted existing pile. The phase moves to organizing.
pub open spec fn apply_add_card(m: GameModel, pile: PlayerPile, card: Card) -> GameModel {
    let p = m.player;
    let pm = m.players[p];
    let hand2 = pm.hand.remove(first_index_of(pm.hand, card));
    let pm1 = if is_picture(card.rank) {
        match pile {
            PlayerPile::KingPile => pm,
            PlayerPile::HousePile(h) => with_slot(
                PlayerModel { hand: hand2, ..pm },
                h,
                Some(SpecialModel { special: card, cards: Seq::empty() }),
            ),
        }
    } else {
        match pile {
            PlayerPile::KingPile => PlayerModel {
                hand: hand2,
                king: SpecialModel { cards: pm.king.cards.push(card), ..pm.king },
                ..pm
            },
            PlayerPile::HousePile(h) => with_slot(
                PlayerModel { hand: hand2, ..pm },
                h,
                Some(
                    SpecialModel {
                        special: slot(pm, h)->Some_0.special,
                        cards: slot(pm, h)->Some_0.cards.push(card),
                    },
                ),
            ),
        }
    };
    GameModel { phase: TurnState::Organize, players: m.players.update(p, pm1), ..m }
}

/// The state after an accepted swap of two house-pile slots. The phase
/// moves to organizing; swapping a slot with itself changes no pile.
pub open spec fn apply_swap(m: GameModel, a: HousePile, b: HousePile) -> GameModel {
    let p = m.player;
    let pm = m.players[p];
    let pa = slot(pm, a);
    let pb = slot(pm, b);
    let pm1 = with_slot(with_slot(pm, a, pb), b, pa);
    GameModel { phase: TurnState::Organize, players: m.players.update(p, pm1), ..m }
}

/// Dealing at a turn boundary: up to five cards leave the top of the given
/// stock for the next player's hand, the phase resets to attacking, and the
/// player index advances cyclically.
pub open spec fn deal_to_next(
    m0: GameModel,
    stock: Seq<Card>,
    discard: Seq<Card>,
    ps: Seq<PlayerModel>,
) -> GameModel {
    let next = (m0.player + 1) % (m0.players.len() as int);
    let k = min_len(5, stock.len());
    let dealt = stock.subrange(stock.len() - k, stock.len() as int);
    GameModel {
        player: next,
        phase: TurnState::Attack,
        discard,
        stock: stock.subrange(0, stock.len() - k),
        players: ps.update(next, PlayerModel { hand: ps[next].hand + dealt, ..ps[next] }),
        threshold: m0.threshold,
    }
}

/// The relation between the states before and after an accepted
/// `DiscardHand`: the hand joins the discard pile; if the stock has run
/// low the whole discard pile is reshuffled under the stock first (the
/// shuffle makes this a relation, not a function); then the next player is
/// dealt up to five cards.
pub open spec fn discard_step(m0: GameModel, m1: GameModel) -> bool {
    let p = m0.player;
    let ps = m0.players.update(p, PlayerModel { hand: Seq::empty(), ..m0.players[p] });
    let d1 = m0.discard + m0.players[p].hand;
    if m0.stock.len() >= 5 {
        m1 == deal_to_next(m0, m0.stock, d1, ps)
    } else {
        exists|sh: Seq<Card>|
            sh.to_multiset() == d1.to_multiset() && m1 == deal_to_next(
                m0,
                m0.stock + sh,
                Seq::empty(),
                ps,
            )
    }
}

/// The relation between the states before and after advancing the round:
/// with five or more cards in the stock the deal is deterministic;
/// otherwise the discard pile is reshuffled under the stock first.
pub open spec fn advance_rel(m0: GameModel, m1: GameModel) -> bool {
    if m0.stock.len() >= 5 {
        m1 == deal_to_next(m0, m0.stock, m0.discard, m0.players)
    } else {
        exists|sh: Seq<Card>|
            sh.to_multiset() == m0.discard.to_multiset() && m1 == deal_to_next(
                m0,
                m0.stock + sh,
                Seq::empty(),
                m0.players,
            )
    }
}

/// The state part of the transition relation for an accepted action.
pub open spec fn step_ok_state(m0: GameModel, action: PlayerAction, m1: GameModel) -> bool {
    match action {
        PlayerAction::Attack { house_pile, target_player } => m1 == apply_attack(
            m0,
            house_pile,
            target_player,
        ),
        PlayerAction::AddCardToPile { pile, card } => m1 == apply_add_card(m0, pile, card),
        PlayerAction::SwapHousePile(a, b) => m1 == apply_swap(m0, a, b),
        PlayerAction::DiscardHand => discard_step(m0, m1),
    }
}

/// The reported result of an accepted action: a turn boundary names the
/// next player; otherwise reaching the win threshold on the acting
/// player's king pile wins, and anything else is a plain acceptance.
pub open spec fn ok_result(m1: GameModel, player: int, action: PlayerAction) -> PlayerActionResult {
    if action is DiscardHand {
        PlayerActionResult::NextPlayer(m1.player as u8)
    } else if m1.players[player].king.cards.len() == m1.threshold {
        PlayerActionResult::GameWon(player as u8)
    } else {
        PlayerActionResult::Nominal
    }
}

/// The complete transition relation of the rules engine: a rejected action
/// returns exactly the error `check_action` names and leaves the state
/// untouched; an accepted action moves the state as the per-action
/// transition says and reports `ok_result`.
pub open spec fn step_rel(
    m0: GameModel,
    player: int,
    action: PlayerAction,
    r: Result<PlayerActionResult, ActionError>,
    m1: GameModel,
) -> bool {
    match check_action(m0, player, action) {
        Some(e) => r == Result::<PlayerActionResult, ActionError>::Err(e) && m1 == m0,
        None => r == Result::<PlayerActionResult, ActionError>::Ok(ok_result(m1, player, action))
            && step_ok_state(m0, action, m1),
    }
}

pub proof fn lemma_player_total_nonneg(p: PlayerModel)
    ensures
        player_total(p) >= 0,
{
}

pub proof fn lemma_players_total_nonneg(s: Seq<PlayerModel>)
    ensures
        players_total(s) >= 0,
    decreases s.len(),
{
    if s.len() > 0 {
        lemma_player_total_nonneg(s[0]);
        lemma_players_total_nonneg(s.drop_first());
    }
}

/// Replacing one player changes the card sum by the difference of that
/// player's holdings.
pub proof fn lemma_players_total_update(s: Seq<PlayerModel>, i: int, p: PlayerModel)
    requires
        0 <= i < s.len(),
    ensures
        players_total(s.update(i, p)) == players_total(s) - player_total(s[i]) + player_total(p),
    decreases s.len(),
{
    if i == 0 {
        assert(s.update(0, p).drop_first() =~= s.drop_first());
    } else {
        assert(s.update(i, p)[0] == s[0]);
        assert(s.update(i, p).drop_first() =~= s.drop_first().update(i - 1, p));
        lemma_players_total_update(s.drop_first(), i - 1, p);
    }
}

/// One player's holdings never exceed the sum over all players.
pub proof fn lemma_player_le_total(s: Seq<PlayerModel>, i: int)
    requires
        0 <= i < s.len(),
    ensures
        player_total(s[i]) <= players_total(s),
    decreases s.len(),
{
    if i == 0 {
        lemma_players_total_nonneg(s.drop_first());
    } else {
        lemma_player_total_nonneg(s[0]);
        assert(s.drop_first()[i - 1] == s[i]);
        lemma_player_le_total(s.drop_first(), i - 1);
    }
}

/// Replacing one house-pile slot changes a player's holdings by the
/// difference of the slot contents.
pub proof fn lemma_with_slot_total(p: PlayerModel, h: HousePile, v: Option<SpecialModel>)
    ensures
        player_total(with_slot(p, h, v)) == player_total(p) - opt_total(slot(p, h)) + opt_total(v),
{
}

/// An accepted attack preserves well-formedness and the total card count.
pub proof fn lemma_apply_attack_ok(m: GameModel, hp: HousePile, tgt: Suit)
    requires
        game_wf(m),
        check_action(
            m,
            m.player,
            PlayerAction::Attack { house_pile: hp, target_player: tgt },
        ) is None,
    ensures
        game_wf(apply_attack(m, hp, tgt)),
        game_total(apply_attack(m, hp, tgt)) == game_total(m),
        apply_attack(m, hp, tgt).player == m.player,
        apply_attack(m, hp, tgt).phase == m.phase,
        apply_attack(m, hp, tgt).players.len() == m.players.len(),
        apply_attack(m, hp, tgt).threshold == m.threshold,
{
    let p = m.player;
    let pl = m.players[p];
    let atk = slot(pl, hp)->Some_0;
    let pl1 = with_slot(pl, hp, None);
    let ps1 = m.players.update(p, pl1);
    lemma_with_slot_total(pl, hp, None);
    lemma_players_total_update(m.players, p, pl1);
    assert(has_suit(ps1, tgt)) by {
        let w = choose|i: int| 0 <= i < m.players.len() && m.players[i].suit == tgt;
        assert(ps1[w].suit == tgt);
    }
    lemma_index_of_suit(ps1, tgt);
    let t = index_of_suit(ps1, tgt);
    let tp = ps1[t];
    assert(player_wf(pl1));
    assert forall|i: int| 0 <= i < ps1.len() implies player_wf(#[trigger] ps1[i]) by {
        if i != p {
            assert(ps1[i] == m.players[i]);
        }
    }
    match first_slot(tp) {
        None => {
            let m1 = apply_attack(m, hp, tgt);
            assert(m1.players == ps1);
            assert(game_total(m1) == game_total(m));
        },
        Some(d) => {
            let def = slot(tp, d)->Some_0;
            let tp1 = with_slot(tp, d, None);
            lemma_with_slot_total(tp, d, None);
            if pile_strength(atk.special, atk.cards) > pile_strength(def.special, def.cards) {
                let ps2 = ps1.update(t, tp1);
                lemma_players_total_update(ps1, t, tp1);
                let pw = PlayerModel { hand: ps2[p].hand + def.cards, ..ps2[p] };
                let ps3 = ps2.update(p, pw);
                lemma_players_total_update(ps2, p, pw);
                assert(player_total(pw) == player_total(ps2[p]) + def.cards.len());
                assert forall|i: int| 0 <= i < ps3.len() implies player_wf(#[trigger] ps3[i]) by {
                    assert(player_wf(tp1));
                    assert(player_wf(pw)) by {
                        if t == p {
                            assert(ps2[p] == tp1);
                        } else {
                            assert(ps2[p] == pl1);
                        }
                    }
                    if i != p && i != t {
                        assert(ps3[i] == m.players[i]);
                    }
                }
                assert(game_total(apply_attack(m, hp, tgt)) == game_total(m));
            } else {
                let tl = PlayerModel { hand: tp.hand + atk.cards, ..tp };
                let ps2 = ps1.update(t, tl);
                lemma_players_total_update(ps1, t, tl);
                assert(player_total(tl) == player_total(tp) + atk.cards.len());
                assert forall|i: int| 0 <= i < ps2.len() implies player_wf(#[trigger] ps2[i]) by {
                    assert(player_wf(tl)) by {
                        if t == p {
                            assert(tp == pl1);
                        } else {
                            assert(tp == m.players[t]);
                        }
                    }
                    if i != p && i != t {
                        assert(ps2[i] == m.players[i]);
                    }
                }
                assert(game_total(apply_attack(m, hp, tgt)) == game_total(m));
            }
        },
    }
}

/// An accepted card placement preserves well-formedness and the total card
/// count.
pub proof fn lemma_apply_add_card_ok(m: GameModel, pile: PlayerPile, card: Card)
    requires
        game_wf(m),
        check_action(m, m.player, PlayerAction::AddCardToPile { pile, card }) is None,
    ensures
        game_wf(apply_add_card(m, pile, card)),
        game_total(apply_add_card(m, pile, card)) == game_total(m),
        apply_add_card(m, pile, card).player == m.player,
        apply_add_card(m, pile, card).phase == TurnState::Organize,
        apply_add_card(m, pile, card).players.len() == m.players.len(),
        apply_add_card(m, pile, card).threshold == m.threshold,
{
    let p = m.player;
    let pm = m.players[p];
    crate::cards::lemma_first_index_of(pm.hand, card);
    let hand2 = pm.hand.remove(first_index_of(pm.hand, card));
    let m1 = apply_add_card(m, pile, card);
    let pm1 = m1.players[p];
    assert(m1.players == m.players.update(p, pm1));
    if is_picture(card.rank) {
        match pile {
            PlayerPile::KingPile => {
                assert(false);
            },
            PlayerPile::HousePile(h) => {
                lemma_with_slot_total(
                    PlayerModel { hand: hand2, ..pm },
                    h,
                    Some(SpecialModel { special: card, cards: Seq::empty() }),
                );
                assert(player_total(pm1) == player_total(pm));
            },
        }
    } else {
        match pile {
            PlayerPile::KingPile => {
                assert(player_total(pm1) == player_total(pm));
            },
            PlayerPile::HousePile(h) => {
                let sp = slot(pm, h)->Some_0;
                lemma_with_slot_total(
                    PlayerModel { hand: hand2, ..pm },
                    h,
                    Some(SpecialModel { special: sp.special, cards: sp.cards.push(card) }),
                );
                assert(player_total(pm1) == player_total(pm));
            },
        }
    }
    lemma_players_total_update(m.players, p, pm1);
    assert(player_wf(pm1));
    assert forall|i: int| 0 <= i < m1.players.len() implies player_wf(#[trigger] m1.players[i]) by {
        if i != p {
            assert(m1.players[i] == m.players[i]);
        }
    }
}

/// An accepted slot swap preserves well-formedness and the total card
/// count.
pub proof fn lemma_apply_swap_ok(m: GameModel, a: HousePile, b: HousePile)
    requires
        game_wf(m),
        check_action(m, m.player, PlayerAction::SwapHousePile(a, b)) is None,
    ensures
        game_wf(apply_swap(m, a, b)),
        game_total(apply_swap(m, a, b)) == game_total(m),
        apply_swap(m, a, b).player == m.player,
        apply_swap(m, a, b).phase == TurnState::Organize,
        apply_swap(m, a, b).players.len() == m.players.len(),
        apply_swap(m, a, b).threshold == m.threshold,
{
    let p = m.player;
    let pm = m.players[p];
    let pa = slot(pm, a);
    let pb = slot(pm, b);
    let pmid = with_slot(pm, a, pb);
    let pm1 = with_slot(pmid, b, pa);
    lemma_with_slot_total(pm, a, pb);
    lemma_with_slot_total(pmid, b, pa);
    assert(opt_total(slot(pmid, b)) == opt_total(pb));
    lemma_players_total_update(m.players, p, pm1);
    assert(player_wf(pm1));
    let m1 = apply_swap(m, a, b);
    assert forall|i: int| 0 <= i < m1.players.len() implies player_wf(#[trigger] m1.players[i]) by {
        if i != p {
            assert(m1.players[i] == m.players[i]);
        }
    }
}

/// Advancing the round preserves well-formedness and the total card count,
/// resets the phase, and moves to the cyclically next player.
pub proof fn lemma_advance_ok(m0: GameModel, m1: GameModel)
    requires
        game_wf(m0),
        advance_rel(m0, m1),
    ensures
        game_wf(m1),
        game_total(m1) == game_total(m0),
        m1.player == (m0.player + 1) % (m0.players.len() as int),
        m1.phase == TurnState::Attack,
        m1.players.len() == m0.players.len(),
        m1.threshold == m0.threshold,
{
    broadcast use vstd::seq_lib::group_to_multiset_ensures;

    let n = m0.players.len() as int;
    let next = (m0.player + 1) % n;
    assert(0 <= next < n) by (nonlinear_arith)
        requires
            n > 0,
            next == (m0.player + 1) % n,
    ;
    if m0.stock.len() >= 5 {
        lemma_deal_ok(m0, m0.stock, m0.discard, m0.players);
    } else {
        let sh = choose|sh: Seq<Card>|
            sh.to_multiset() == m0.discard.to_multiset() && m1 == deal_to_next(
                m0,
                m0.stock + sh,
                Seq::empty(),
                m0.players,
            );
        assert(sh.len() == m0.discard.len()) by {
            assert(sh.to_multiset().len() == sh.len());
            assert(m0.discard.to_multiset().len() == m0.discard.len());
        }
        lemma_deal_ok(m0, m0.stock + sh, Seq::empty(), m0.players);
    }
}

/// Dealing keeps the card count: what leaves the stock lands in the next
/// player's hand.
proof fn lemma_deal_ok(m0: GameModel, stock: Seq<Card>, discard: Seq<Card>, ps: Seq<PlayerModel>)
    requires
        game_wf(m0),
        ps.len() == m0.players.len(),
        forall|i: int| 0 <= i < ps.len() ==> player_wf(#[trigger] ps[i]),
    ensures
        game_total(deal_to_next(m0, stock, discard, ps)) == stock.len() + discard.len()
            + players_total(ps),
        deal_to_next(m0, stock, discard, ps).players.len() == ps.len(),
        deal_to_next(m0, stock, discard, ps).player == (m0.player + 1) % (
        m0.players.len() as int),
        deal_to_next(m0, stock, discard, ps).phase == TurnState::Attack,
        deal_to_next(m0, stock, discard, ps).threshold == m0.threshold,
        0 <= deal_to_next(m0, stock, discard, ps).player < ps.len(),
        forall|i: int|
            0 <= i < ps.len() ==> player_wf(
                #[trigger] deal_to_next(m0, stock, discard, ps).players[i],
            ),
{
    let n = m0.players.len() as int;
    let next = (m0.player + 1) % n;
    assert(0 <= next < n) by (nonlinear_arith)
        requires
            n > 0,
            next == (m0.player + 1) % n,
    ;
    let k = min_len(5, stock.len());
    let dealt = stock.subrange(stock.len() - k, stock.len() as int);
    let pw = PlayerModel { hand: ps[next].hand + dealt, ..ps[next] };
    lemma_players_total_update(ps, next, pw);
    assert(player_total(pw) == player_total(ps[next]) + k);
    let m1 = deal_to_next(m0, stock, discard, ps);
    assert forall|i: int| 0 <= i < ps.len() implies player_wf(#[trigger] m1.players[i]) by {
        if i != next {
            assert(m1.players[i] == ps[i]);
        } else {
            assert(player_wf(pw));
        }
    }
}

/// An accepted hand discard preserves well-formedness and the total card
/// count and advances the round.
pub proof fn lemma_discard_ok(m0: GameModel, m1: GameModel)
    requires
        game_wf(m0),
        discard_step(m0, m1),
    ensures
        game_wf(m1),
        game_total(m1) == game_total(m0),
        m1.player == (m0.player + 1) % (m0.players.len() as int),
        m1.phase == TurnState::Attack,
        m1.players.len() == m0.players.len(),
        m1.threshold == m0.threshold,
{
    let p = m0.player;
    let pe = PlayerModel { hand: Seq::empty(), ..m0.players[p] };
    let ps = m0.players.update(p, pe);
    let d1 = m0.discard + m0.players[p].hand;
    lemma_players_total_update(m0.players, p, pe);
    let m_mid = GameModel { discard: d1, players: ps, ..m0 };
    assert(game_total(m_mid) == game_total(m0));
    assert(game_wf(m_mid)) by {
        assert forall|i: int| 0 <= i < ps.len() implies player_wf(#[trigger] ps[i]) by {
            if i != p {
                assert(ps[i] == m0.players[i]);
            } else {
                assert(player_wf(pe));
            }
        }
    }
    assert(advance_rel(m_mid, m1)) by {
        if m0.stock.len() >= 5 {
            assert(deal_to_next(m_mid, m_mid.stock, m_mid.discard, m_mid.players) =~~= deal_to_next(
                m0,
                m0.stock,
                d1,
                ps,
            ));
        } else {
            let sh = choose|sh: Seq<Card>|
                sh.to_multiset() == d1.to_multiset() && m1 == deal_to_next(
                    m0,
                    m0.stock + sh,
                    Seq::empty(),
                    ps,
                );
            assert(deal_to_next(m_mid, m_mid.stock + sh, Seq::empty(), m_mid.players) =~~= deal_to_next(
                m0,
                m0.stock + sh,
                Seq::empty(),
                ps,
            ));
            assert(sh.to_multiset() == m_mid.discard.to_multiset() && m1 == deal_to_next(
                m_mid,
                m_mid.stock + sh,
                Seq::empty(),
                m_mid.players,
            ));
        }
    }
    lemma_advance_ok(m_mid, m1);
}

/// The actions are accepted one after another, starting from `m0` and
/// ending in `mend`: each in turn passes the legality check of the state
/// the previous ones produced.
pub open spec fn steps_to(m0: GameModel, me: int, acts: Seq<PlayerAction>, mend: GameModel) -> bool
    decreases acts.len(),
{
    if acts.len() == 0 {
        mend == m0
    } else {
        check_action(m0, me, acts[0]) is None && exists|m1: GameModel|
            #[trigger] step_ok_state(m0, acts[0], m1) && steps_to(m1, me, acts.drop_first(), mend)
    }
}

/// Extending an accepted run by one more accepted action.
pub proof fn lemma_steps_to_snoc(
    m0: GameModel,
    me: int,
    acts: Seq<PlayerAction>,
    mcur: GameModel,
    a: PlayerAction,
    mnext: GameModel,
)
    requires
        steps_to(m0, me, acts, mcur),
        check_action(mcur, me, a) is None,
        step_ok_state(mcur, a, mnext),
    ensures
        steps_to(m0, me, acts.push(a), mnext),
    decreases acts.len(),
{
    let ap = acts.push(a);
    if acts.len() == 0 {
        assert(ap[0] == a);
        assert(ap.drop_first() =~= Seq::<PlayerAction>::empty());
        assert(steps_to(mnext, me, ap.drop_first(), mnext));
        assert(check_action(m0, me, ap[0]) is None);
        assert(step_ok_state(m0, ap[0], mnext) && steps_to(mnext, me, ap.drop_first(), mnext));
    } else {
        assert(ap[0] == acts[0]);
        assert(ap.drop_first() =~= acts.drop_first().push(a));
        let m1 = choose|m1: GameModel|
            #[trigger] step_ok_state(m0, acts[0], m1) && steps_to(m1, me, acts.drop_first(), mcur);
        lemma_steps_to_snoc(m1, me, acts.drop_first(), mcur, a, mnext);
        assert(step_ok_state(m0, ap[0], m1) && steps_to(m1, me, ap.drop_first(), mnext));
    }
}

/// In a well-formed game every pile is small: each length is bounded by
/// the total card count, so the length arithmetic of the engine cannot
/// overflow.
pub proof fn lemma_pile_bounds(m: GameModel, i: int)
    requires
        game_wf(m),
        0 <= i < m.players.len(),
    ensures
        player_total(m.players[i]) <= game_total(m),
        m.players[i].hand.len() <= game_total(m),
        m.players[i].king.cards.len() <= game_total(m),
        m.players[i].house1 matches Some(sp) ==> sp.cards.len() <= game_total(m),
        m.players[i].house2 matches Some(sp) ==> sp.cards.len() <= game_total(m),
        m.players[i].house3 matches Some(sp) ==> sp.cards.len() <= game_total(m),
        m.stock.len() <= game_total(m),
        m.discard.len() <= game_total(m),
{
    lemma_player_le_total(m.players, i);
    lemma_players_total_nonneg(m.players);
}

} // verus!

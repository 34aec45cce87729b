//! The text encoding of change events: a full state snapshot for every
//! subscriber, the acting player's private hand alongside it on their own
//! feed, and the win notice.

use crate::cards::Card;
use crate::codec::{card_text, suit_char};
use crate::game::{GameState, TurnState};
use crate::model::{GameModel, PlayerModel, SpecialModel};
use vstd::prelude::*;
use vstd::string::StringExecFns;

verus! {

/// The decimal digit character of a value below ten.
pub open spec fn digit_char(d: nat) -> char {
    if d == 0 {
        '0'
    } else if d == 1 {
        '1'
    } else if d == 2 {
        '2'
    } else if d == 3 {
        '3'
    } else if d == 4 {
        '4'
    } else if d == 5 {
        '5'
    } else if d == 6 {
        '6'
    } else if d == 7 {
        '7'
    } else if d == 8 {
        '8'
    } else {
        '9'
    }
}

/// A number in decimal, highest digit first, without leading zeroes.
pub open spec fn dec_digits(n: nat) -> Seq<char>
    decreases n,
{
    if n < 10 {
        seq![digit_char(n)]
    } else {
        dec_digits(n / 10).push(digit_char(n % 10))
    }
}

/// The one-character phase tag.
pub open spec fn phase_char(t: TurnState) -> char {
    match t {
        TurnState::Attack => 'a',
        TurnState::Organize => 'o',
    }
}

/// One house-pile slot: a comma, then a dash for an empty slot or the
/// special card's code followed by the pile's card count.
pub open spec fn slot_text(o: Option<SpecialModel>) -> Seq<char> {
    match o {
        None => seq![',', '-'],
        Some(sp) => seq![','] + card_text(sp.special) + dec_digits(sp.cards.len()),
    }
}

/// One player: a semicolon, the suit, the king-pile count, the three
/// slots, a colon and the hand count. Hand contents stay private.
pub open spec fn player_text(p: PlayerModel) -> Seq<char> {
    seq![';'] + seq![suit_char(p.suit)] + dec_digits(p.king.cards.len()) + slot_text(p.house1)
        + slot_text(p.house2) + slot_text(p.house3) + seq![':'] + dec_digits(p.hand.len())
}

pub open spec fn players_text(s: Seq<PlayerModel>) -> Seq<char>
    decreases s.len(),
{
    if s.len() == 0 {
        Seq::empty()
    } else {
        player_text(s[0]) + players_text(s.drop_first())
    }
}

/// The public snapshot of a state: current player and phase, the two
/// shared pile counts, then every player.
pub open spec fn state_text(m: GameModel) -> Seq<char> {
    dec_digits(m.player as nat) + seq![phase_char(m.phase)] + seq![':'] + dec_digits(m.stock.len())
        + seq![':'] + dec_digits(m.discard.len()) + players_text(m.players)
}

/// A run of card codes.
pub open spec fn cards_text(s: Seq<Card>) -> Seq<char>
    decreases s.len(),
{
    if s.len() == 0 {
        Seq::empty()
    } else {
        card_text(s[0]) + cards_text(s.drop_first())
    }
}

/// The acting player's private hand.
pub open spec fn hand_text(m: GameModel) -> Seq<char> {
    cards_text(m.players[m.player].hand)
}

/// A state-changed event as the named viewer receives it: the snapshot,
/// and on the acting player's own feed their hand as well.
pub open spec fn state_event_text(m: GameModel, viewer: int) -> Seq<char> {
    seq!['s', 't', 'a', 't', 'e', ':'] + state_text(m) + if viewer == m.player {
        seq!['\n', 'h', 'a', 'n', 'd', ':'] + hand_text(m)
    } else {
        Seq::<char>::empty()
    }
}

/// A game-won event: the tag and the winning seat.
pub open spec fn won_event_text(w: nat) -> Seq<char> {
    seq!['g', 'm', 'w', 'o', 'n', ':'] + dec_digits(w)
}

pub proof fn lemma_players_text_snoc(s: Seq<PlayerModel>, p: PlayerModel)
    ensures
        players_text(s.push(p)) == players_text(s) + player_text(p),
    decreases s.len(),
{
    reveal_with_fuel(players_text, 3);
    let sp = s.push(p);
    if s.len() == 0 {
        assert(sp[0] == p);
        assert(sp.drop_first() =~= s);
        assert(players_text(sp) =~= players_text(s) + player_text(p));
    } else {
        assert(sp[0] == s[0]);
        assert(sp.drop_first() =~= s.drop_first().push(p));
        lemma_players_text_snoc(s.drop_first(), p);
        assert(players_text(sp.drop_first()) == players_text(s.drop_first()) + player_text(p));
        assert(players_text(sp) =~= players_text(s) + player_text(p));
    }
}

pub proof fn lemma_cards_text_snoc(s: Seq<Card>, c: Card)
    ensures
        cards_text(s.push(c)) == cards_text(s) + card_text(c),
    decreases s.len(),
{
    reveal_with_fuel(cards_text, 3);
    let sc = s.push(c);
    if s.len() == 0 {
        assert(sc[0] == c);
        assert(sc.drop_first() =~= s);
        assert(cards_text(sc) =~= cards_text(s) + card_text(c));
    } else {
        assert(sc[0] == s[0]);
        assert(sc.drop_first() =~= s.drop_first().push(c));
        lemma_cards_text_snoc(s.drop_first(), c);
        assert(cards_text(sc.drop_first()) == cards_text(s.drop_first()) + card_text(c));
        assert(cards_text(sc) =~= cards_text(s) + card_text(c));
    }
}

fn digit_str(d: u64) -> (r: &'static str)
    requires
        d < 10,
    ensures
        r@ == seq![digit_char(d as nat)],
{
    let s = match d {
        0 => "0",
        1 => "1",
        2 => "2",
        3 => "3",
        4 => "4",
        5 => "5",
        6 => "6",
        7 => "7",
        8 => "8",
        _ => "9",
    };
    proof {
        reveal_strlit("0");
        reveal_strlit("1");
        reveal_strlit("2");
        reveal_strlit("3");
        reveal_strlit("4");
        reveal_strlit("5");
        reveal_strlit("6");
        reveal_strlit("7");
        reveal_strlit("8");
        reveal_strlit("9");
        assert(s@ =~= seq![digit_char(d as nat)]);
    }
    s
}

/// A number rendered in decimal.
pub fn dec_string(n: u64) -> (r: String)
    ensures
        r@ == dec_digits(n as nat),
    decreases n,
{
    if n < 10 {
        digit_str(n).to_owned()
    } else {
        let mut s = dec_string(n / 10);
        s.append(digit_str(n % 10));
        proof {
            assert(s@ =~= dec_digits(n as nat));
        }
        s
    }
}

fn phase_str(t: TurnState) -> (r: &'static str)
    ensures
        r@ == seq![phase_char(t)],
{
    let s = match t {
        TurnState::Attack => "a",
        TurnState::Organize => "o",
    };
    proof {
        reveal_strlit("a");
        reveal_strlit("o");
        assert(s@ =~= seq![phase_char(t)]);
    }
    s
}

impl GameState {
    /// The public snapshot text of the state.
    #[verifier::rlimit(100)]
    pub fn to_string(&self) -> (r: String)
        ensures
            r@ == state_text(self@),
    {
        let mut out = dec_string(self.round_state.player as u64);
        out.append(phase_str(self.round_state.turn_state));
        out.append(":");
        let sc = dec_string(self.stock_pile.len() as u64);
        out.append(sc.as_str());
        out.append(":");
        let dc = dec_string(self.discard_pile.len() as u64);
        out.append(dc.as_str());
        proof {
            reveal_strlit(":");
            assert(out@ =~= dec_digits(self@.player as nat) + seq![phase_char(self@.phase)] + seq![
                ':',
            ] + dec_digits(self@.stock.len()) + seq![':'] + dec_digits(self@.discard.len())
                + players_text(self@.players.take(0)));
        }
        let n = self.players.len();
        for i in 0..n
            invariant
                n == self.players@.len(),
                out@ == dec_digits(self@.player as nat) + seq![phase_char(self@.phase)] + seq![':']
                    + dec_digits(self@.stock.len()) + seq![':'] + dec_digits(self@.discard.len())
                    + players_text(self@.players.take(i as int)),
        {
            let p = &self.players[i];
            out.append(";");
            let su = p.suit.to_string();
            out.append(su.as_str());
            let kc = dec_string(p.king_pile.cards.len() as u64);
            out.append(kc.as_str());
            let s1 = slot_string(&p.house_pile_1);
            out.append(s1.as_str());
            let s2 = slot_string(&p.house_pile_2);
            out.append(s2.as_str());
            let s3 = slot_string(&p.house_pile_3);
            out.append(s3.as_str());
            out.append(":");
            let hc = dec_string(p.hand.len() as u64);
            out.append(hc.as_str());
            proof {
                reveal_strlit(";");
                reveal_strlit(":");
                lemma_players_text_snoc(self@.players.take(i as int), self@.players[i as int]);
                assert(self@.players.take(i + 1) =~= self@.players.take(i as int).push(
                    self@.players[i as int],
                ));
                assert(out@ =~= dec_digits(self@.player as nat) + seq![phase_char(self@.phase)]
                    + seq![':'] + dec_digits(self@.stock.len()) + seq![':'] + dec_digits(
                    self@.discard.len(),
                ) + players_text(self@.players.take(i + 1)));
            }
        }
        proof {
            assert(self@.players.take(n as int) =~= self@.players);
        }
        out
    }

    /// The current player's hand as a run of card codes.
    pub fn hand_to_string(&self) -> (r: String)
        requires
            0 <= self@.player < self@.players.len(),
        ensures
            r@ == hand_text(self@),
    {
        let idx = self.round_state.player as usize;
        let cards = {
            let p = &self.players[idx];
            p.hand.iter()
        };
        let mut out = String::new();
        let n = cards.len();
        for i in 0..n
            invariant
                n == cards@.len(),
                cards@ == self@.players[self@.player].hand,
                out@ == cards_text(cards@.take(i as int)),
        {
            let cs = cards[i].to_string();
            out.append(cs.as_str());
            proof {
                lemma_cards_text_snoc(cards@.take(i as int), cards@[i as int]);
                assert(cards@.take(i + 1) =~= cards@.take(i as int).push(cards@[i as int]));
                assert(out@ =~= cards_text(cards@.take(i + 1)));
            }
        }
        proof {
            assert(cards@.take(n as int) =~= cards@);
        }
        out
    }
}

fn slot_string(o: &Option<crate::cards::SpecialPile>) -> (r: String)
    ensures
        r@ == slot_text(crate::model::slot_view(*o)),
{
    match o {
        None => {
            let s = ",-";
            proof {
                reveal_strlit(",-");
                assert(s@ =~= slot_text(None));
            }
            s.to_owned()
        },
        Some(sp) => {
            let mut out = String::from_str(",");
            let cs = sp.special_card.to_string();
            out.append(cs.as_str());
            let cc = dec_string(sp.cards.len() as u64);
            out.append(cc.as_str());
            proof {
                reveal_strlit(",");
                assert(out@ =~= slot_text(crate::model::slot_view(*o)));
            }
            out
        },
    }
}

/// The text of a state-changed event for the named viewer.
pub fn state_event_string(state: &GameState, viewer: u8) -> (r: String)
    requires
        0 <= state@.player < state@.players.len(),
    ensures
        r@ == state_event_text(state@, viewer as int),
{
    let mut out = String::from_str("state:");
    let st = state.to_string();
    out.append(st.as_str());
    proof {
        reveal_strlit("state:");
    }
    if viewer == state.round_state.player {
        out.append("\nhand:");
        let h = state.hand_to_string();
        out.append(h.as_str());
        proof {
            reveal_strlit("\nhand:");
            assert(out@ =~= state_event_text(state@, viewer as int));
        }
    } else {
        proof {
            assert(out@ =~= state_event_text(state@, viewer as int));
        }
    }
    out
}

/// The text of a game-won event.
pub fn won_event_string(winner: u8) -> (r: String)
    ensures
        r@ == won_event_text(winner as nat),
{
    let mut out = String::from_str("gmwon:");
    let w = dec_string(winner as u64);
    out.append(w.as_str());
    proof {
        reveal_strlit("gmwon:");
        assert(out@ =~= won_event_text(winner as nat));
    }
    out
}

} // verus!

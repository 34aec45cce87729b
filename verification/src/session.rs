//! The decision core of one game session: the roster of seats, credential
//! issue and lookup, the start check, the win latch that makes a finished
//! game refuse all further actions, and the choice of automated turns.
//! The locking, broadcasting and scheduling around these decisions live
//! with the transport code, which calls in with plain values.

use crate::ai::AIPlayer;
use crate::game::{ActionError, GameState, PlayerAction, PlayerActionResult};
use crate::model::{game_wf, step_rel};
use vstd::prelude::*;
use vstd::string::StringExecFns;

verus! {

/// One seat of a session: an automated player, or a human identified by
/// the stored encoded credential.
#[derive(Debug)]
pub enum Seat {
    Automated(AIPlayer),
    Human(String),
}

/// Whether the seat is a human seated under exactly this encoded
/// credential.
pub open spec fn seat_matches(s: Seat, cred: Seq<char>) -> bool {
    match s {
        Seat::Human(c) => c@ == cred,
        Seat::Automated(_) => false,
    }
}

/// What one submission came to.
#[derive(Debug, Clone, Copy, PartialEq, Eq, Structural)]
pub enum ActionOutcome {
    /// Accepted without a turn boundary.
    Accepted,
    /// Accepted; the turn passed to the named seat.
    TurnAdvanced(u8),
    /// Accepted, and the acting seat won the game.
    GameWon(u8),
    /// The rules engine rejected the action; nothing changed.
    Rejected(ActionError),
    /// The game is already won; nothing is processed any more.
    GameOver,
}

/// The engine result that an outcome reports.
pub open spec fn outcome_result(r: ActionOutcome) -> Result<PlayerActionResult, ActionError> {
    match r {
        ActionOutcome::Accepted => Ok(PlayerActionResult::Nominal),
        ActionOutcome::TurnAdvanced(p) => Ok(PlayerActionResult::NextPlayer(p)),
        ActionOutcome::GameWon(w) => Ok(PlayerActionResult::GameWon(w)),
        ActionOutcome::Rejected(e) => Err(e),
        ActionOutcome::GameOver => Ok(PlayerActionResult::Nominal),
    }
}

/// The exclusive-access core of one running game: the engine state, the
/// seats, whether play has begun, and the winner once there is one.
#[derive(Debug)]
pub struct SessionCore {
    pub state: GameState,
    pub seats: Vec<Seat>,
    pub is_started: bool,
    pub winner: Option<u8>,
}

/// The most seats a session holds.
pub const MAX_SEATS: usize = 4;

impl SessionCore {
    pub open spec fn wf(&self) -> bool {
        &&& game_wf(self.state@)
        &&& self.state@.players.len() == 4
        &&& self.seats@.len() <= 4
    }

    /// A fresh session over a fresh game, with the first `ai_player_count`
    /// seats taken by automated players.
    pub fn new(ai_player_count: usize) -> (r: SessionCore)
        requires
            ai_player_count <= 4,
        ensures
            r.wf(),
            r.state@.players.len() == 4,
            r.seats@.len() == ai_player_count,
            !r.is_started,
            r.winner is None,
            forall|i: int|
                0 <= i < ai_player_count ==> ((#[trigger] r.seats@[i]) matches Seat::Automated(a)
                    && a.player_id == i),
    {
        let state = GameState::initial();
        let mut seats: Vec<Seat> = Vec::new();
        for i in 0..ai_player_count
            invariant
                seats@.len() == i,
                forall|j: int|
                    0 <= j < i ==> ((#[trigger] seats@[j]) matches Seat::Automated(a)
                        && a.player_id == j),
        {
            seats.push(Seat::Automated(AIPlayer::new(i)));
        }
        SessionCore { state, seats, is_started: false, winner: None }
    }

    /// The seat index of the human holding the encoded credential.
    pub fn get_player(&self, auth: &str) -> (r: Option<usize>)
        ensures
            match r {
                Some(i) => i < self.seats@.len() && seat_matches(self.seats@[i as int], auth@)
                    && (forall|j: int| 0 <= j < i ==> !seat_matches(self.seats@[j], auth@)),
                None => forall|j: int|
                    0 <= j < self.seats@.len() ==> !seat_matches(self.seats@[j], auth@),
            },
    {
        let owned = auth.to_owned();
        let n = self.seats.len();
        for i in 0..n
            invariant
                n == self.seats@.len(),
                owned@ == auth@,
                forall|j: int| 0 <= j < i ==> !seat_matches(self.seats@[j], auth@),
        {
            let hit = match &self.seats[i] {
                Seat::Human(c) => *c == owned,
                Seat::Automated(_) => false,
            };
            if hit {
                return Some(i);
            }
        }
        None
    }

    /// Appends a human seat if one is free and returns the freshly drawn
    /// plain credential; its encoded form is what the session stores.
    pub fn join_player(&mut self) -> (r: Option<String>)
        requires
            old(self).wf(),
        ensures
            final(self).wf(),
            final(self).state == old(self).state,
            final(self).is_started == old(self).is_started,
            final(self).winner == old(self).winner,
            old(self).seats@.len() >= 4 ==> r is None && *final(self) == *old(self),
            old(self).seats@.len() < 4 ==> (r matches Some(c) && final(self).seats@.len() == old(
                self,
            ).seats@.len() + 1 && final(self).seats@.take(old(self).seats@.len() as int) == old(
                self,
            ).seats@ && (exists|tok: u64|
                c@ == plain_credential(old(self).seats@.len() as int, tok) && seat_matches(
                    final(self).seats@.last(),
                    base64_of(plain_credential(old(self).seats@.len() as int, tok)),
                ))),
    {
        let id = self.seats.len();
        if id >= MAX_SEATS {
            return None;
        }
        let tok = random_u64();
        let plain = plain_credential_string(id, tok);
        let encoded = encode_base64(plain.as_str());
        self.seats.push(Seat::Human(encoded));
        proof {
            assert(self.seats@.take(self.seats@.len() - 1) =~= old(self).seats@);
        }
        Some(plain)
    }

    /// The start check: play begins once all four seats are filled. The
    /// caller broadcasts the opening snapshot and kicks the first
    /// automated turn when this returns true.
    pub fn check_start_game(&mut self) -> (r: bool)
        ensures
            r == (!old(self).is_started && old(self).seats@.len() == 4),
            final(self).is_started == (old(self).is_started || old(self).seats@.len() == 4),
            final(self).state == old(self).state,
            final(self).seats == old(self).seats,
            final(self).winner == old(self).winner,
    {
        if !self.is_started && self.seats.len() == 4 {
            self.is_started = true;
            true
        } else {
            false
        }
    }

    /// Submits one action for a seat. A finished game processes nothing;
    /// otherwise the rules engine decides, and a win is latched so that
    /// every later submission is refused.
    pub fn submit_action(&mut self, player: usize, action: PlayerAction) -> (r: ActionOutcome)
        requires
            old(self).wf(),
            player < old(self).state@.players.len(),
        ensures
            final(self).wf(),
            final(self).seats == old(self).seats,
            final(self).is_started == old(self).is_started,
            old(self).winner is Some ==> r == ActionOutcome::GameOver && *final(self) == *old(
                self,
            ),
            old(self).winner is None ==> r != ActionOutcome::GameOver && step_rel(
                old(self).state@,
                player as int,
                action,
                outcome_result(r),
                final(self).state@,
            ) && final(self).winner == (match r {
                ActionOutcome::GameWon(w) => Some(w),
                _ => None::<u8>,
            }),
    {
        if self.winner.is_some() {
            return ActionOutcome::GameOver;
        }
        let res = self.state.perform_player_action(player as u8, action);
        match res {
            Ok(PlayerActionResult::Nominal) => ActionOutcome::Accepted,
            Ok(PlayerActionResult::NextPlayer(p)) => ActionOutcome::TurnAdvanced(p),
            Ok(PlayerActionResult::GameWon(w)) => {
                self.winner = Some(w);
                ActionOutcome::GameWon(w)
            },
            Err(e) => ActionOutcome::Rejected(e),
        }
    }

    /// Decides whether an automated turn is due, and if so computes the
    /// whole move list from a snapshot. The caller paces and submits the
    /// moves through `submit_action` like any other caller.
    pub fn check_play_ai(&self) -> (r: Option<(usize, Vec<PlayerAction>)>)
        requires
            self.wf(),
        ensures
            r is Some <==> (self.is_started && 0 <= self.state@.player < self.seats@.len() && (
            self.seats@[self.state@.player] matches Seat::Automated(a) && a.player_id
                == self.state@.player)),
            r matches Some(pm) ==> pm.0 == self.state@.player && pm.1@.len() >= 1 && pm.1@.last()
                == PlayerAction::DiscardHand && (exists|mend: crate::model::GameModel|
                #[trigger] crate::model::steps_to(
                    self.state@,
                    self.state@.player,
                    pm.1@.drop_last(),
                    mend,
                ) && crate::model::check_action(
                    mend,
                    self.state@.player,
                    PlayerAction::DiscardHand,
                ) is None),
    {
        if !self.is_started {
            return None;
        }
        let cur = self.state.round_state.player as usize;
        if cur >= self.seats.len() {
            return None;
        }
        match &self.seats[cur] {
            Seat::Automated(a) => {
                let mut ai = *a;
                if ai.player_id == cur && ai.player_id < self.state.players.len() {
                    let snapshot = self.state.clone();
                    let moves = ai.play_turn(snapshot);
                    Some((cur, moves))
                } else {
                    None
                }
            },
            Seat::Human(_) => None,
        }
    }
}

/// The hexadecimal digit character of a value below sixteen.
pub open spec fn hex_digit(d: u64) -> char {
    if d == 0 {
        '0'
    } else if d == 1 {
        '1'
    } else if d == 2 {
        '2'
    } else if d == 3 {
        '3'
    } else if d == 4 {
        '4'
    } else if d == 5 {
        '5'
    } else if d == 6 {
        '6'
    } else if d == 7 {
        '7'
    } else if d == 8 {
        '8'
    } else if d == 9 {
        '9'
    } else if d == 10 {
        'a'
    } else if d == 11 {
        'b'
    } else if d == 12 {
        'c'
    } else if d == 13 {
        'd'
    } else if d == 14 {
        'e'
    } else {
        'f'
    }
}

/// A token as sixteen hexadecimal digits, highest nibble first.
pub open spec fn hex16(tok: u64) -> Seq<char> {
    Seq::new(16, |i: int| hex_digit((tok >> (((15 - i) * 4) as u64)) & 0xF))
}

/// The plain credential text: the seat number, a colon, and the token in
/// sixteen hexadecimal digits.
pub open spec fn plain_credential(id: int, tok: u64) -> Seq<char> {
    seq![hex_digit(id as u64)] + seq![':'] + hex16(tok)
}

fn hex_char_str(d: u64) -> (r: &'static str)
    requires
        d < 16,
    ensures
        r@ == seq![hex_digit(d)],
{
    let s = match d {
        0 => "0",
        1 => "1",
        2 => "2",
        3 => "3",
        4 => "4",
        5 => "5",
        6 => "6",
        7 => "7",
        8 => "8",
        9 => "9",
        10 => "a",
        11 => "b",
        12 => "c",
        13 => "d",
        14 => "e",
        _ => "f",
    };
    proof {
        reveal_strlit("0");
        reveal_strlit("1");
        reveal_strlit("2");
        reveal_strlit("3");
        reveal_strlit("4");
        reveal_strlit("5");
        reveal_strlit("6");
        reveal_strlit("7");
        reveal_strlit("8");
        reveal_strlit("9");
        reveal_strlit("a");
        reveal_strlit("b");
        reveal_strlit("c");
        reveal_strlit("d");
        reveal_strlit("e");
        reveal_strlit("f");
        assert(s@ =~= seq![hex_digit(d)]);
    }
    s
}

/// Builds the plain credential for a seat number below sixteen.
pub fn plain_credential_string(id: usize, tok: u64) -> (r: String)
    requires
        id < 16,
    ensures
        r@ == plain_credential(id as int, tok),
{
    let mut out = String::new();
    out.append(hex_char_str(id as u64));
    out.append(":");
    proof {
        reveal_strlit(":");
        assert(out@ =~= seq![hex_digit(id as u64)] + seq![':'] + hex16(tok).take(0));
    }
    let mut i: usize = 0;
    while i < 16
        invariant
            0 <= i <= 16,
            out@ == seq![hex_digit(id as u64)] + seq![':'] + hex16(tok).take(i as int),
        decreases 16 - i,
    {
        let shift: u64 = ((15 - i) as u64) * 4;
        let nibble: u64 = (tok >> shift) & 0xF;
        proof {
            assert(nibble < 16) by (bit_vector)
                requires
                    nibble == (tok >> shift) & 0xF,
            ;
            assert(hex16(tok)[i as int] == hex_digit(nibble));
        }
        out.append(hex_char_str(nibble));
        proof {
            assert(out@ =~= seq![hex_digit(id as u64)] + seq![':'] + hex16(tok).take(i + 1));
        }
        i += 1;
    }
    proof {
        reveal_strlit(":");
        assert(hex16(tok).take(16) =~= hex16(tok));
        assert(out@ =~= plain_credential(id as int, tok));
    }
    out
}

/// Relies on `rand::random`: a token drawn from the thread-local
/// generator; nothing is promised of its value.
#[verifier::external_body]
fn random_u64() -> u64 {
    rand::random::<u64>()
}

/// The standard-alphabet base64 encoding of a text's bytes.
pub uninterp spec fn base64_of(s: Seq<char>) -> Seq<char>;

/// Relies on `base64::encode`: the standard-alphabet encoding of the
/// input bytes, a function of the input alone.
#[verifier::external_body]
fn encode_base64(s: &str) -> (r: String)
    ensures
        r@ == base64_of(s@),
{
    base64::encode(s)
}

} // verus!

//! The stable text encoding of cards and actions: short tagged strings
//! such as `atck:1h`, `actp:khk`, `swap:12` and `dscd:`, with a strict
//! parser that rejects wrong lengths and unknown codes.

use crate::cards::{Card, Rank, Suit};
use crate::game::{HousePile, PlayerAction, PlayerPile};
use vstd::prelude::*;
use vstd::string::{StrSliceExecFns, StringExecFns};

verus! {

pub open spec fn suit_char(s: Suit) -> char {
    match s {
        Suit::Heart => 'h',
        Suit::Spade => 's',
        Suit::Club => 'c',
        Suit::Diamond => 'd',
        Suit::Blank => 'b',
    }
}

pub open spec fn char_suit(c: char) -> Option<Suit> {
    if c == 'h' {
        Some(Suit::Heart)
    } else if c == 's' {
        Some(Suit::Spade)
    } else if c == 'c' {
        Some(Suit::Club)
    } else if c == 'd' {
        Some(Suit::Diamond)
    } else if c == 'b' {
        Some(Suit::Blank)
    } else {
        None
    }
}

pub open spec fn rank_char(r: Rank) -> char {
    match r {
        Rank::King => 'k',
        Rank::Queen => 'q',
        Rank::Jack => 'j',
        Rank::Ten => '1',
        Rank::Nine => '9',
        Rank::Eight => '8',
        Rank::Seven => '7',
        Rank::Six => '6',
        Rank::Five => '5',
        Rank::Four => '4',
        Rank::Three => '3',
        Rank::Two => '2',
        Rank::Ace => 'a',
    }
}

pub open spec fn char_rank(c: char) -> Option<Rank> {
    if c == 'k' {
        Some(Rank::King)
    } else if c == 'q' {
        Some(Rank::Queen)
    } else if c == 'j' {
        Some(Rank::Jack)
    } else if c == '1' {
        Some(Rank::Ten)
    } else if c == '9' {
        Some(Rank::Nine)
    } else if c == '8' {
        Some(Rank::Eight)
    } else if c == '7' {
        Some(Rank::Seven)
    } else if c == '6' {
        Some(Rank::Six)
    } else if c == '5' {
        Some(Rank::Five)
    } else if c == '4' {
        Some(Rank::Four)
    } else if c == '3' {
        Some(Rank::Three)
    } else if c == '2' {
        Some(Rank::Two)
    } else if c == 'a' {
        Some(Rank::Ace)
    } else {
        None
    }
}

pub open spec fn house_char(h: HousePile) -> char {
    match h {
        HousePile::One => '1',
        HousePile::Two => '2',
        HousePile::Three => '3',
    }
}

pub open spec fn char_house(c: char) -> Option<HousePile> {
    if c == '1' {
        Some(HousePile::One)
    } else if c == '2' {
        Some(HousePile::Two)
    } else if c == '3' {
        Some(HousePile::Three)
    } else {
        None
    }
}

pub open spec fn pile_char(p: PlayerPile) -> char {
    match p {
        PlayerPile::KingPile => 'k',
        PlayerPile::HousePile(h) => house_char(h),
    }
}

pub open spec fn char_pile(c: char) -> Option<PlayerPile> {
    if c == 'k' {
        Some(PlayerPile::KingPile)
    } else {
        match char_house(c) {
            Some(h) => Some(PlayerPile::HousePile(h)),
            None => None,
        }
    }
}

/// A card's two-character code: suit then rank.
pub open spec fn card_text(c: Card) -> Seq<char> {
    seq![suit_char(c.suit), rank_char(c.rank)]
}

/// An action's tagged text form.
pub open spec fn action_text(a: PlayerAction) -> Seq<char> {
    match a {
        PlayerAction::Attack { house_pile, target_player } => seq!['a', 't', 'c', 'k', ':']
            + seq![house_char(house_pile), suit_char(target_player)],
        PlayerAction::AddCardToPile { pile, card } => seq!['a', 'c', 't', 'p', ':'] + seq![
            pile_char(pile),
        ] + card_text(card),
        PlayerAction::SwapHousePile(a, b) => seq!['s', 'w', 'a', 'p', ':'] + seq![
            house_char(a),
            house_char(b),
        ],
        PlayerAction::DiscardHand => seq!['d', 's', 'c', 'd', ':'],
    }
}

/// The strict parse of an action text: a five-character tag, then exactly
/// the argument characters the tag asks for.
pub open spec fn parse_action(s: Seq<char>) -> Option<PlayerAction> {
    if s.len() < 5 {
        None
    } else if s[0] == 'a' && s[1] == 't' && s[2] == 'c' && s[3] == 'k' && s[4] == ':' {
        if s.len() != 7 {
            None
        } else {
            match (char_house(s[5]), char_suit(s[6])) {
                (Some(h), Some(t)) => Some(
                    PlayerAction::Attack { house_pile: h, target_player: t },
                ),
                _ => None,
            }
        }
    } else if s[0] == 'a' && s[1] == 'c' && s[2] == 't' && s[3] == 'p' && s[4] == ':' {
        if s.len() != 8 {
            None
        } else {
            match (char_pile(s[5]), char_suit(s[6]), char_rank(s[7])) {
                (Some(p), Some(su), Some(ra)) => Some(
                    PlayerAction::AddCardToPile { pile: p, card: Card { suit: su, rank: ra } },
                ),
                _ => None,
            }
        }
    } else if s[0] == 's' && s[1] == 'w' && s[2] == 'a' && s[3] == 'p' && s[4] == ':' {
        if s.len() != 7 {
            None
        } else {
            match (char_house(s[5]), char_house(s[6])) {
                (Some(a), Some(b)) => Some(PlayerAction::SwapHousePile(a, b)),
                _ => None,
            }
        }
    } else if s[0] == 'd' && s[1] == 's' && s[2] == 'c' && s[3] == 'd' && s[4] == ':' {
        if s.len() == 5 {
            Some(PlayerAction::DiscardHand)
        } else {
            None
        }
    } else {
        None
    }
}

pub proof fn lemma_suit_char_inverse(s: Suit)
    ensures
        char_suit(suit_char(s)) == Some(s),
{
}

pub proof fn lemma_rank_char_inverse(r: Rank)
    ensures
        char_rank(rank_char(r)) == Some(r),
{
}

pub proof fn lemma_house_char_inverse(h: HousePile)
    ensures
        char_house(house_char(h)) == Some(h),
{
}

pub proof fn lemma_pile_char_inverse(p: PlayerPile)
    ensures
        char_pile(pile_char(p)) == Some(p),
{
    match p {
        PlayerPile::KingPile => {},
        PlayerPile::HousePile(h) => {
            lemma_house_char_inverse(h);
        },
    }
}

/// Round trip: parsing the text of any action gives that action back.
pub proof fn lemma_action_round_trip(a: PlayerAction)
    ensures
        parse_action(action_text(a)) == Some(a),
{
    let t = action_text(a);
    match a {
        PlayerAction::Attack { house_pile, target_player } => {
            assert(t.len() == 7);
            assert(t[0] == 'a' && t[1] == 't' && t[2] == 'c' && t[3] == 'k' && t[4] == ':');
            assert(t[5] == house_char(house_pile) && t[6] == suit_char(target_player));
            lemma_house_char_inverse(house_pile);
            lemma_suit_char_inverse(target_player);
        },
        PlayerAction::AddCardToPile { pile, card } => {
            assert(t.len() == 8);
            assert(t[0] == 'a' && t[1] == 'c' && t[2] == 't' && t[3] == 'p' && t[4] == ':');
            assert(t[5] == pile_char(pile) && t[6] == suit_char(card.suit) && t[7] == rank_char(
                card.rank,
            ));
            lemma_pile_char_inverse(pile);
            lemma_suit_char_inverse(card.suit);
            lemma_rank_char_inverse(card.rank);
        },
        PlayerAction::SwapHousePile(x, y) => {
            assert(t.len() == 7);
            assert(t[0] == 's' && t[1] == 'w' && t[2] == 'a' && t[3] == 'p' && t[4] == ':');
            assert(t[5] == house_char(x) && t[6] == house_char(y));
            lemma_house_char_inverse(x);
            lemma_house_char_inverse(y);
        },
        PlayerAction::DiscardHand => {
            assert(t.len() == 5);
        },
    }
}

impl Suit {
    pub fn to_string(&self) -> (r: String)
        ensures
            r@ == seq![suit_char(*self)],
    {
        let s = match self {
            Suit::Heart => "h",
            Suit::Spade => "s",
            Suit::Club => "c",
            Suit::Diamond => "d",
            Suit::Blank => "b",
        };
        proof {
            reveal_strlit("h");
            reveal_strlit("s");
            reveal_strlit("c");
            reveal_strlit("d");
            reveal_strlit("b");
            assert(s@ =~= seq![suit_char(*self)]);
        }
        s.to_owned()
    }

    pub fn from_char(c: char) -> (r: Option<Suit>)
        ensures
            r == char_suit(c),
    {
        match c {
            'h' => Some(Suit::Heart),
            's' => Some(Suit::Spade),
            'c' => Some(Suit::Club),
            'd' => Some(Suit::Diamond),
            'b' => Some(Suit::Blank),
            _ => None,
        }
    }

    /// Strict parse of a one-character suit code.
    pub fn from_str(s: &str) -> (r: Option<Suit>)
        ensures
            r == (if s@.len() == 1 {
                char_suit(s@[0])
            } else {
                None
            }),
    {
        if s.unicode_len() != 1 {
            return None;
        }
        Suit::from_char(s.get_char(0))
    }
}

impl Rank {
    pub fn to_string(&self) -> (r: String)
        ensures
            r@ == seq![rank_char(*self)],
    {
        let s = match self {
            Rank::King => "k",
            Rank::Queen => "q",
            Rank::Jack => "j",
            Rank::Ten => "1",
            Rank::Nine => "9",
            Rank::Eight => "8",
            Rank::Seven => "7",
            Rank::Six => "6",
            Rank::Five => "5",
            Rank::Four => "4",
            Rank::Three => "3",
            Rank::Two => "2",
            Rank::Ace => "a",
        };
        proof {
            reveal_strlit("k");
            reveal_strlit("q");
            reveal_strlit("j");
            reveal_strlit("1");
            reveal_strlit("9");
            reveal_strlit("8");
            reveal_strlit("7");
            reveal_strlit("6");
            reveal_strlit("5");
            reveal_strlit("4");
            reveal_strlit("3");
            reveal_strlit("2");
            reveal_strlit("a");
            assert(s@ =~= seq![rank_char(*self)]);
        }
        s.to_owned()
    }

    pub fn from_char(c: char) -> (r: Option<Rank>)
        ensures
            r == char_rank(c),
    {
        match c {
            'k' => Some(Rank::King),
            'q' => Some(Rank::Queen),
            'j' => Some(Rank::Jack),
            '1' => Some(Rank::Ten),
            '9' => Some(Rank::Nine),
            '8' => Some(Rank::Eight),
            '7' => Some(Rank::Seven),
            '6' => Some(Rank::Six),
            '5' => Some(Rank::Five),
            '4' => Some(Rank::Four),
            '3' => Some(Rank::Three),
            '2' => Some(Rank::Two),
            'a' => Some(Rank::Ace),
            _ => None,
        }
    }

    /// Strict parse of a one-character rank code.
    pub fn from_str(s: &str) -> (r: Option<Rank>)
        ensures
            r == (if s@.len() == 1 {
                char_rank(s@[0])
            } else {
                None
            }),
    {
        if s.unicode_len() != 1 {
            return None;
        }
        Rank::from_char(s.get_char(0))
    }
}

impl Card {
    pub fn to_string(&self) -> (r: String)
        ensures
            r@ == card_text(*self),
    {
        let mut out = self.suit.to_string();
        let rs = self.rank.to_string();
        out.append(rs.as_str());
        proof {
            assert(out@ =~= card_text(*self));
        }
        out
    }

    /// Strict parse of a two-character suit-then-rank card code.
    pub fn from_str(s: &str) -> (r: Option<Card>)
        ensures
            r == (if s@.len() == 2 {
                match (char_suit(s@[0]), char_rank(s@[1])) {
                    (Some(su), Some(ra)) => Some(Card { suit: su, rank: ra }),
                    _ => None,
                }
            } else {
                None
            }),
    {
        if s.unicode_len() != 2 {
            return None;
        }
        let su = match Suit::from_char(s.get_char(0)) {
            Some(su) => su,
            None => {
                return None;
            },
        };
        let ra = match Rank::from_char(s.get_char(1)) {
            Some(ra) => ra,
            None => {
                return None;
            },
        };
        Some(Card { suit: su, rank: ra })
    }
}

impl HousePile {
    pub fn to_string(&self) -> (r: String)
        ensures
            r@ == seq![house_char(*self)],
    {
        let s = match self {
            HousePile::One => "1",
            HousePile::Two => "2",
            HousePile::Three => "3",
        };
        proof {
            reveal_strlit("1");
            reveal_strlit("2");
            reveal_strlit("3");
            assert(s@ =~= seq![house_char(*self)]);
        }
        s.to_owned()
    }

    pub fn from_char(c: char) -> (r: Option<HousePile>)
        ensures
            r == char_house(c),
    {
        match c {
            '1' => Some(HousePile::One),
            '2' => Some(HousePile::Two),
            '3' => Some(HousePile::Three),
            _ => None,
        }
    }
}

impl PlayerPile {
    pub fn to_string(&self) -> (r: String)
        ensures
            r@ == seq![pile_char(*self)],
    {
        match self {
            PlayerPile::KingPile => {
                let s = "k";
                proof {
                    reveal_strlit("k");
                    assert(s@ =~= seq![pile_char(*self)]);
                }
                s.to_owned()
            },
            PlayerPile::HousePile(h) => h.to_string(),
        }
    }

    pub fn from_char(c: char) -> (r: Option<PlayerPile>)
        ensures
            r == char_pile(c),
    {
        if c == 'k' {
            Some(PlayerPile::KingPile)
        } else {
            match HousePile::from_char(c) {
                Some(h) => Some(PlayerPile::HousePile(h)),
                None => None,
            }
        }
    }
}

impl PlayerAction {
    /// The action's stable tagged text form.
    pub fn to_string(&self) -> (r: String)
        ensures
            r@ == action_text(*self),
    {
        match self {
            PlayerAction::Attack { house_pile, target_player } => {
                let mut out = String::from_str("atck:");
                let hs = house_pile.to_string();
                out.append(hs.as_str());
                let ts = target_player.to_string();
                out.append(ts.as_str());
                proof {
                    reveal_strlit("atck:");
                    assert(out@ =~= action_text(*self));
                }
                out
            },
            PlayerAction::AddCardToPile { pile, card } => {
                let mut out = String::from_str("actp:");
                let ps = pile.to_string();
                out.append(ps.as_str());
                let cs = card.to_string();
                out.append(cs.as_str());
                proof {
                    reveal_strlit("actp:");
                    assert(out@ =~= action_text(*self));
                }
                out
            },
            PlayerAction::SwapHousePile(a, b) => {
                let mut out = String::from_str("swap:");
                let sa = a.to_string();
                out.append(sa.as_str());
                let sb = b.to_string();
                out.append(sb.as_str());
                proof {
                    reveal_strlit("swap:");
                    assert(out@ =~= action_text(*self));
                }
                out
            },
            PlayerAction::DiscardHand => {
                let out = String::from_str("dscd:");
                proof {
                    reveal_strlit("dscd:");
                    assert(out@ =~= action_text(*self));
                }
                out
            },
        }
    }

    /// The strict parse of an action text; `None` is a format error.
    pub fn from_str(s: &str) -> (r: Option<PlayerAction>)
        ensures
            r == parse_action(s@),
    {
        let n = s.unicode_len();
        if n < 5 {
            return None;
        }
        let c0 = s.get_char(0);
        let c1 = s.get_char(1);
        let c2 = s.get_char(2);
        let c3 = s.get_char(3);
        let c4 = s.get_char(4);
        if c0 == 'a' && c1 == 't' && c2 == 'c' && c3 == 'k' && c4 == ':' {
            if n != 7 {
                return None;
            }
            let h = match HousePile::from_char(s.get_char(5)) {
                Some(h) => h,
                None => {
                    return None;
                },
            };
            let t = match Suit::from_char(s.get_char(6)) {
                Some(t) => t,
                None => {
                    return None;
                },
            };
            Some(PlayerAction::Attack { house_pile: h, target_player: t })
        } else if c0 == 'a' && c1 == 'c' && c2 == 't' && c3 == 'p' && c4 == ':' {
            if n != 8 {
                return None;
            }
            let p = match PlayerPile::from_char(s.get_char(5)) {
                Some(p) => p,
                None => {
                    return None;
                },
            };
            let su = match Suit::from_char(s.get_char(6)) {
                Some(su) => su,
                None => {
                    return None;
                },
            };
            let ra = match Rank::from_char(s.get_char(7)) {
                Some(ra) => ra,
                None => {
                    return None;
                },
            };
            Some(PlayerAction::AddCardToPile { pile: p, card: Card { suit: su, rank: ra } })
        } else if c0 == 's' && c1 == 'w' && c2 == 'a' && c3 == 'p' && c4 == ':' {
            if n != 7 {
                return None;
            }
            let a = match HousePile::from_char(s.get_char(5)) {
                Some(a) => a,
                None => {
                    return None;
                },
            };
            let b = match HousePile::from_char(s.get_char(6)) {
                Some(b) => b,
                None => {
                    return None;
                },
            };
            Some(PlayerAction::SwapHousePile(a, b))
        } else if c0 == 'd' && c1 == 's' && c2 == 'c' && c3 == 'd' && c4 == ':' {
            if n == 5 {
                Some(PlayerAction::DiscardHand)
            } else {
                None
            }
        } else {
            None
        }
    }
}

} // verus!

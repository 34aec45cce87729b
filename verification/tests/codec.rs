use kings_corner::cards::{Card, Rank, Suit};
use kings_corner::game::{HousePile, PlayerAction, PlayerPile};

fn round_trips(a: PlayerAction) {
    let text = a.to_string();
    assert_eq!(PlayerAction::from_str(&text), Some(a));
}

#[test]
fn action_texts_are_stable() {
    assert_eq!(
        PlayerAction::Attack { house_pile: HousePile::One, target_player: Suit::Heart }
            .to_string(),
        "atck:1h"
    );
    assert_eq!(
        PlayerAction::AddCardToPile {
            pile: PlayerPile::KingPile,
            card: Card::new(Suit::Heart, Rank::King),
        }
        .to_string(),
        "actp:khk"
    );
    assert_eq!(
        PlayerAction::SwapHousePile(HousePile::One, HousePile::Two).to_string(),
        "swap:12"
    );
    assert_eq!(PlayerAction::DiscardHand.to_string(), "dscd:");
}

#[test]
fn every_action_round_trips() {
    round_trips(PlayerAction::DiscardHand);
    for h in [HousePile::One, HousePile::Two, HousePile::Three] {
        for s in [Suit::Heart, Suit::Spade, Suit::Club, Suit::Diamond, Suit::Blank] {
            round_trips(PlayerAction::Attack { house_pile: h, target_player: s });
        }
        for g in [HousePile::One, HousePile::Two, HousePile::Three] {
            round_trips(PlayerAction::SwapHousePile(h, g));
        }
    }
    for pile in [
        PlayerPile::KingPile,
        PlayerPile::HousePile(HousePile::One),
        PlayerPile::HousePile(HousePile::Two),
        PlayerPile::HousePile(HousePile::Three),
    ] {
        for suit in [Suit::Heart, Suit::Spade, Suit::Club, Suit::Diamond, Suit::Blank] {
            for rank in [
                Rank::King,
                Rank::Queen,
                Rank::Jack,
                Rank::Ten,
                Rank::Nine,
                Rank::Eight,
                Rank::Seven,
                Rank::Six,
                Rank::Five,
                Rank::Four,
                Rank::Three,
                Rank::Two,
                Rank::Ace,
            ] {
                round_trips(PlayerAction::AddCardToPile {
                    pile,
                    card: Card::new(suit, rank),
                });
            }
        }
    }
}

#[test]
fn boundary_card_codes_round_trip() {
    // The king of hearts, the ace of diamonds, and the ten of clubs, whose
    // rank code is the digit one.
    for (code, suit, rank) in [
        ("hk", Suit::Heart, Rank::King),
        ("da", Suit::Diamond, Rank::Ace),
        ("c1", Suit::Club, Rank::Ten),
    ] {
        let c = Card::new(suit, rank);
        assert_eq!(c.to_string(), code);
        assert_eq!(Card::from_str(code), Some(c));
    }
}

#[test]
fn parsing_is_strict() {
    assert_eq!(PlayerAction::from_str(""), None);
    assert_eq!(PlayerAction::from_str("atck"), None);
    assert_eq!(PlayerAction::from_str("atck:"), None);
    assert_eq!(PlayerAction::from_str("atck:1"), None);
    assert_eq!(PlayerAction::from_str("atck:1hh"), None);
    assert_eq!(PlayerAction::from_str("atck:9h"), None);
    assert_eq!(PlayerAction::from_str("atck:1x"), None);
    assert_eq!(PlayerAction::from_str("actp:kxk"), None);
    assert_eq!(PlayerAction::from_str("actp:khx"), None);
    assert_eq!(PlayerAction::from_str("actp:4hk"), None);
    assert_eq!(PlayerAction::from_str("swap:14"), None);
    assert_eq!(PlayerAction::from_str("dscd:x"), None);
    assert_eq!(PlayerAction::from_str("xxxx:"), None);
    assert_eq!(Card::from_str("h"), None);
    assert_eq!(Card::from_str("hkq"), None);
    assert_eq!(Card::from_str("xk"), None);
    assert_eq!(Suit::from_str("q"), None);
    assert_eq!(Rank::from_str("x"), None);
}

#[test]
fn suit_and_rank_codes() {
    assert_eq!(Suit::Heart.to_string(), "h");
    assert_eq!(Suit::Blank.to_string(), "b");
    assert_eq!(Suit::from_str("d"), Some(Suit::Diamond));
    assert_eq!(Rank::Ten.to_string(), "1");
    assert_eq!(Rank::from_str("1"), Some(Rank::Ten));
    assert_eq!(Rank::from_str("a"), Some(Rank::Ace));
}

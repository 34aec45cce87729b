use kings_corner::cards::{Card, Pile, Rank, Suit};

fn card(suit: Suit, rank: Rank) -> Card {
    Card::new(suit, rank)
}

#[test]
fn deck_builders() {
    let deck = Pile::new().add_without_kings();
    assert_eq!(deck.len(), 48);
    assert!(!deck.contains_rank(Rank::King));
    assert!(deck.contains_rank(Rank::Queen));
    assert!(deck.contains_card(card(Suit::Diamond, Rank::Ace)));
    assert!(!deck.contains_card(card(Suit::Blank, Rank::Two)));

    let blanks = Pile::new().add_blank_without_kings(4);
    assert_eq!(blanks.len(), 48);
    assert!(!blanks.contains_rank(Rank::King));
    assert_eq!(blanks.count_of_rank(Rank::Seven), 4);
    assert!(blanks.contains_card(card(Suit::Blank, Rank::Two)));
}

#[test]
fn shuffle_keeps_the_cards() {
    let mut pile = Pile::new().add_without_kings();
    pile.shuffle();
    assert_eq!(pile.len(), 48);
    for rank in Rank::iter() {
        if rank != Rank::King {
            assert_eq!(pile.count_of_rank(rank), 4);
        }
    }
}

#[test]
fn take_operations() {
    let mut p = Pile::new();
    p.add(card(Suit::Heart, Rank::Two));
    p.add(card(Suit::Heart, Rank::Three));
    p.add(card(Suit::Heart, Rank::Four));

    // Taking more than there is fails and changes nothing.
    assert!(p.take_n(4).is_none());
    assert_eq!(p.len(), 3);

    // take_n takes from the top.
    let top = p.take_n(2).unwrap();
    assert_eq!(top.len(), 2);
    assert!(top.contains_rank(Rank::Three));
    assert!(top.contains_rank(Rank::Four));
    assert_eq!(p.len(), 1);

    // take_up_to_n never fails.
    let rest = p.take_up_to_n(5);
    assert_eq!(rest.len(), 1);
    assert!(p.is_empty());
}

#[test]
fn take_card_removes_one_copy() {
    let mut p = Pile::new();
    let c = card(Suit::Blank, Rank::Seven);
    p.add(c);
    p.add(c);
    assert!(p.take_card(c));
    assert_eq!(p.len(), 1);
    assert!(p.take_card(c));
    assert!(p.is_empty());
    assert!(!p.take_card(c));
}

#[test]
fn pile_contents() {
    let mut p = Pile::new();
    assert!(p.is_empty());
    p.add(card(Suit::Club, Rank::Nine));
    assert_eq!(p.count(), 1);
    assert!(p.contains_rank(Rank::Nine));
    assert!(!p.contains_rank(Rank::Eight));
    let all = p.iter();
    assert_eq!(all, vec![card(Suit::Club, Rank::Nine)]);
    assert_eq!(p.get(0), card(Suit::Club, Rank::Nine));

    let taken = p.take();
    assert!(p.is_empty());
    assert_eq!(taken.len(), 1);

    let mut q = Pile::new();
    q.add_pile(taken);
    assert_eq!(q.len(), 1);
}

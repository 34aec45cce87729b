//! Card and pile primitives: suits, the thirteen ranks with their cyclic
//! ordering, cards, and ordered piles of cards.

use rand::seq::SliceRandom;
use vstd::prelude::*;

verus! {

#[derive(Debug, Clone, Copy, PartialEq, Eq, Structural)]
pub enum Suit {
    Heart,
    Spade,
    Club,
    Diamond,
    Blank,
}

#[derive(Debug, Clone, Copy, PartialEq, Eq, Structural)]
pub enum Rank {
    King,
    Queen,
    Jack,
    Ten,
    Nine,
    Eight,
    Seven,
    Six,
    Five,
    Four,
    Three,
    Two,
    Ace,
}

/// The next rank downwards in the cyclic order, Ace wrapping to King.
pub open spec fn spec_rank_down(r: Rank) -> Rank {
    match r {
        Rank::King => Rank::Queen,
        Rank::Queen => Rank::Jack,
        Rank::Jack => Rank::Ten,
        Rank::Ten => Rank::Nine,
        Rank::Nine => Rank::Eight,
        Rank::Eight => Rank::Seven,
        Rank::Seven => Rank::Six,
        Rank::Six => Rank::Five,
        Rank::Five => Rank::Four,
        Rank::Four => Rank::Three,
        Rank::Three => Rank::Two,
        Rank::Two => Rank::Ace,
        Rank::Ace => Rank::King,
    }
}

/// The next rank upwards in the cyclic order, King wrapping to Ace.
pub open spec fn spec_rank_up(r: Rank) -> Rank {
    match r {
        Rank::King => Rank::Ace,
        Rank::Queen => Rank::King,
        Rank::Jack => Rank::Queen,
        Rank::Ten => Rank::Jack,
        Rank::Nine => Rank::Ten,
        Rank::Eight => Rank::Nine,
        Rank::Seven => Rank::Eight,
        Rank::Six => Rank::Seven,
        Rank::Five => Rank::Six,
        Rank::Four => Rank::Five,
        Rank::Three => Rank::Four,
        Rank::Two => Rank::Three,
        Rank::Ace => Rank::Two,
    }
}

impl Rank {
    /// All thirteen ranks, highest first.
    pub fn iter() -> (r: Vec<Rank>)
        ensures
            r@ =~= rank_order(),
    {
        let v = vec![
            Rank::King,
            Rank::Queen,
            Rank::Jack,
            Rank::Ten,
            Rank::Nine,
            Rank::Eight,
            Rank::Seven,
            Rank::Six,
            Rank::Five,
            Rank::Four,
            Rank::Three,
            Rank::Two,
            Rank::Ace,
        ];
        v
    }

    pub fn down(self) -> (r: Rank)
        ensures
            r == spec_rank_down(self),
    {
        match self {
            Rank::King => Rank::Queen,
            Rank::Queen => Rank::Jack,
            Rank::Jack => Rank::Ten,
            Rank::Ten => Rank::Nine,
            Rank::Nine => Rank::Eight,
            Rank::Eight => Rank::Seven,
            Rank::Seven => Rank::Six,
            Rank::Six => Rank::Five,
            Rank::Five => Rank::Four,
            Rank::Four => Rank::Three,
            Rank::Three => Rank::Two,
            Rank::Two => Rank::Ace,
            Rank::Ace => Rank::King,
        }
    }

    pub fn up(self) -> (r: Rank)
        ensures
            r == spec_rank_up(self),
    {
        match self {
            Rank::King => Rank::Ace,
            Rank::Queen => Rank::King,
            Rank::Jack => Rank::Queen,
            Rank::Ten => Rank::Jack,
            Rank::Nine => Rank::Ten,
            Rank::Eight => Rank::Nine,
            Rank::Seven => Rank::Eight,
            Rank::Six => Rank::Seven,
            Rank::Five => Rank::Six,
            Rank::Four => Rank::Five,
            Rank::Three => Rank::Four,
            Rank::Two => Rank::Three,
            Rank::Ace => Rank::Two,
        }
    }
}

/// The thirteen ranks, highest first, as the deck-building order uses them.
pub open spec fn rank_order() -> Seq<Rank> {
    seq![
        Rank::King,
        Rank::Queen,
        Rank::Jack,
        Rank::Ten,
        Rank::Nine,
        Rank::Eight,
        Rank::Seven,
        Rank::Six,
        Rank::Five,
        Rank::Four,
        Rank::Three,
        Rank::Two,
        Rank::Ace,
    ]
}

/// The four playable suits, in the deck-building order.
pub open spec fn suit_order() -> Seq<Suit> {
    seq![Suit::Heart, Suit::Spade, Suit::Club, Suit::Diamond]
}

impl Suit {
    /// The four playable suits; the blank filler suit is not among them.
    pub fn iter() -> (r: Vec<Suit>)
        ensures
            r@ =~= suit_order(),
    {
        let v = vec![Suit::Heart, Suit::Spade, Suit::Club, Suit::Diamond];
        v
    }
}

#[derive(Debug, Clone, Copy, PartialEq, Eq, Structural)]
pub struct Card {
    pub suit: Suit,
    pub rank: Rank,
}

impl Card {
    pub fn new(suit: Suit, rank: Rank) -> (r: Card)
        ensures
            r == (Card { suit, rank }),
    {
        Card { suit, rank }
    }
}

/// Whether a rank is one of the picture ranks that open a house pile.
pub open spec fn is_picture(r: Rank) -> bool {
    r == Rank::Queen || r == Rank::Jack || r == Rank::Ace
}

/// Whether some card of the given rank occurs in the sequence.
pub open spec fn has_rank(s: Seq<Card>, rank: Rank) -> bool {
    exists|i: int| 0 <= i < s.len() && s[i].rank == rank
}

/// How many cards of the given rank occur in the sequence.
pub open spec fn count_rank(s: Seq<Card>, rank: Rank) -> nat
    decreases s.len(),
{
    if s.len() == 0 {
        0
    } else {
        count_rank(s.drop_last(), rank) + if s.last().rank == rank {
            1nat
        } else {
            0nat
        }
    }
}

/// The index of the first occurrence of `c` in `s`; meaningful only when
/// `s` contains `c`.
pub open spec fn first_index_of(s: Seq<Card>, c: Card) -> int
    decreases s.len(),
{
    if s.len() == 0 {
        0
    } else if s[0] == c {
        0
    } else {
        1 + first_index_of(s.drop_first(), c)
    }
}

pub proof fn lemma_first_index_of(s: Seq<Card>, c: Card)
    requires
        s.contains(c),
    ensures
        0 <= first_index_of(s, c) < s.len(),
        s[first_index_of(s, c)] == c,
        forall|j: int| 0 <= j < first_index_of(s, c) ==> s[j] != c,
    decreases s.len(),
{
    if s[0] == c {
    } else {
        let w = choose|i: int| 0 <= i < s.len() && s[i] == c;
        assert(s.drop_first()[w - 1] == c);
        assert(s.drop_first().contains(c));
        lemma_first_index_of(s.drop_first(), c);
        let f = first_index_of(s.drop_first(), c);
        assert(s[1 + f] == s.drop_first()[f]);
        assert forall|j: int| 0 <= j < 1 + f implies s[j] != c by {
            if j > 0 {
                assert(s[j] == s.drop_first()[j - 1]);
            }
        }
    }
}

pub proof fn lemma_first_index_of_unique(s: Seq<Card>, c: Card, i: int)
    requires
        0 <= i < s.len(),
        s[i] == c,
        forall|j: int| 0 <= j < i ==> s[j] != c,
    ensures
        first_index_of(s, c) == i,
    decreases s.len(),
{
    if s[0] == c {
        assert(i == 0);
    } else {
        assert(s.drop_first()[i - 1] == c);
        assert forall|j: int| 0 <= j < i - 1 implies s.drop_first()[j] != c by {
            assert(s.drop_first()[j] == s[j + 1]);
        }
        lemma_first_index_of_unique(s.drop_first(), c, i - 1);
    }
}

/// An ordered stack of cards; the last element of the view is the top.
#[derive(Debug)]
pub struct Pile {
    cards: Vec<Card>,
}

impl View for Pile {
    type V = Seq<Card>;

    closed spec fn view(&self) -> Seq<Card> {
        self.cards@
    }
}

impl Pile {
    pub fn new() -> (r: Pile)
        ensures
            r@ == Seq::<Card>::empty(),
    {
        Pile { cards: Vec::new() }
    }

    pub fn clone(&self) -> (r: Pile)
        ensures
            r@ == self@,
    {
        let mut cards: Vec<Card> = Vec::new();
        let n = self.cards.len();
        for i in 0..n
            invariant
                n == self.cards.len(),
                cards@ =~= self.cards@.take(i as int),
        {
            cards.push(self.cards[i]);
            proof {
                assert(cards@ =~= self.cards@.take(i + 1));
            }
        }
        proof {
            assert(self.cards@.take(n as int) =~= self.cards@);
        }
        Pile { cards }
    }

    /// Adds a full deck of the four playable suits, without the kings.
    pub fn add_without_kings(self) -> (r: Pile)
        ensures
            r@ == self@ + deck_no_kings(),
    {
        let mut this = self;
        let ghost orig = this.cards@;
        let ranks = Rank::iter();
        let suits = Suit::iter();
        let mut i: usize = 1;
        while i < 13
            invariant
                1 <= i <= 13,
                ranks@ == rank_order(),
                suits@ == suit_order(),
                this.cards@.len() == orig.len() + (i - 1) * 4,
                forall|t: int|
                    orig.len() <= t < this.cards@.len() ==> this.cards@[t] == deck_no_kings()[t
                        - orig.len()],
                forall|t: int| 0 <= t < orig.len() ==> this.cards@[t] == orig[t],
            decreases 13 - i,
        {
            let mut j: usize = 0;
            while j < 4
                invariant
                    1 <= i < 13,
                    0 <= j <= 4,
                    ranks@ == rank_order(),
                    suits@ == suit_order(),
                    this.cards@.len() == orig.len() + (i - 1) * 4 + j,
                    forall|t: int|
                        orig.len() <= t < this.cards@.len() ==> this.cards@[t] == deck_no_kings()[t
                            - orig.len()],
                    forall|t: int| 0 <= t < orig.len() ==> this.cards@[t] == orig[t],
                decreases 4 - j,
            {
                let c = Card { suit: suits[j], rank: ranks[i] };
                proof {
                    let t = (i - 1) * 4 + j;
                    assert(t / 4 == i - 1 && t % 4 == j) by (nonlinear_arith)
                        requires
                            1 <= i < 13,
                            0 <= j < 4,
                            t == (i - 1) * 4 + j,
                    ;
                    assert(deck_no_kings()[t] == c);
                }
                this.cards.push(c);
                j += 1;
            }
            i += 1;
        }
        proof {
            assert(this.cards@ =~= orig + deck_no_kings());
        }
        this
    }

    /// Adds `n` full suits of blank filler cards, without the kings.
    pub fn add_blank_without_kings(self, n: usize) -> (r: Pile)
        requires
            self@.len() + 12 * n <= usize::MAX,
        ensures
            r@ == self@ + blank_deck(n as nat),
    {
        let mut this = self;
        let ghost orig = this.cards@;
        let ranks = Rank::iter();
        let mut i: usize = 1;
        while i < 13
            invariant
                1 <= i <= 13,
                ranks@ == rank_order(),
                orig.len() + 12 * n <= usize::MAX,
                this.cards@.len() == orig.len() + (i - 1) * n,
                forall|t: int|
                    orig.len() <= t < this.cards@.len() ==> this.cards@[t] == blank_deck(n as nat)[t
                        - orig.len()],
                forall|t: int| 0 <= t < orig.len() ==> this.cards@[t] == orig[t],
            decreases 13 - i,
        {
            proof {
                assert((i - 1) * n + n <= 12 * n) by (nonlinear_arith)
                    requires
                        1 <= i < 13,
                        0 <= n,
                ;
            }
            let mut j: usize = 0;
            while j < n
                invariant
                    1 <= i < 13,
                    0 <= j <= n,
                    ranks@ == rank_order(),
                    orig.len() + 12 * n <= usize::MAX,
                    (i - 1) * n + n <= 12 * n,
                    this.cards@.len() == orig.len() + (i - 1) * n + j,
                    forall|t: int|
                        orig.len() <= t < this.cards@.len() ==> this.cards@[t] == blank_deck(
                            n as nat,
                        )[t - orig.len()],
                    forall|t: int| 0 <= t < orig.len() ==> this.cards@[t] == orig[t],
                decreases n - j,
            {
                let c = Card { suit: Suit::Blank, rank: ranks[i] };
                proof {
                    let t = (i - 1) * n + j;
                    assert(t / (n as int) == i - 1 && t % (n as int) == j) by (nonlinear_arith)
                        requires
                            1 <= i < 13,
                            0 <= j < n,
                            t == (i - 1) * n + j,
                    ;
                    assert(blank_deck(n as nat)[t] == c);
                }
                this.cards.push(c);
                j += 1;
            }
            proof {
                assert((i - 1) * n + n == i * n) by (nonlinear_arith);
            }
            i += 1;
        }
        proof {
            assert(this.cards@ =~= orig + blank_deck(n as nat));
        }
        this
    }

    /// Reorders the cards by a random permutation.
    ///
    /// Relies on `rand`'s `SliceRandom::shuffle` (a Fisher-Yates shuffle of
    /// the slice in place, built from swaps): the cards afterwards are a
    /// permutation of the cards before, and nothing else about the order is
    /// promised.
    #[verifier::external_body]
    pub fn shuffle(&mut self)
        ensures
            final(self)@.to_multiset() == old(self)@.to_multiset(),
            final(self)@.len() == old(self)@.len(),
    {
        self.cards.shuffle(&mut rand::thread_rng());
    }

    /// Consuming form of `shuffle`.
    pub fn shuffled(self) -> (r: Pile)
        ensures
            r@.to_multiset() == self@.to_multiset(),
            r@.len() == self@.len(),
    {
        let mut this = self;
        this.shuffle();
        this
    }

    pub fn count(&self) -> (r: u32)
        requires
            self@.len() <= u32::MAX,
        ensures
            r == self@.len(),
    {
        self.cards.len() as u32
    }

    pub fn len(&self) -> (r: usize)
        ensures
            r == self@.len(),
    {
        self.cards.len()
    }

    pub fn contains_rank(&self, rank: Rank) -> (r: bool)
        ensures
            r == has_rank(self@, rank),
    {
        let n = self.cards.len();
        for i in 0..n
            invariant
                n == self.cards.len(),
                forall|j: int| 0 <= j < i ==> self.cards@[j].rank != rank,
        {
            if self.cards[i].rank == rank {
                return true;
            }
        }
        false
    }

    pub fn contains_card(&self, card: Card) -> (r: bool)
        ensures
            r == self@.contains(card),
    {
        let n = self.cards.len();
        for i in 0..n
            invariant
                n == self.cards.len(),
                forall|j: int| 0 <= j < i ==> self.cards@[j] != card,
        {
            if self.cards[i] == card {
                proof {
                    assert(self.cards@.contains(card)) by {
                        assert(self.cards@[i as int] == card);
                    }
                }
                return true;
            }
        }
        proof {
            assert(!self.cards@.contains(card));
        }
        false
    }

    /// How many cards of the given rank the pile holds.
    pub fn count_of_rank(&self, rank: Rank) -> (r: usize)
        ensures
            r == count_rank(self@, rank),
    {
        let n = self.cards.len();
        let mut r: usize = 0;
        for i in 0..n
            invariant
                n == self.cards.len(),
                r == count_rank(self.cards@.take(i as int), rank),
                r <= i,
        {
            proof {
                assert(self.cards@.take(i + 1).drop_last() =~= self.cards@.take(i as int));
                assert(self.cards@.take(i + 1).last() == self.cards@[i as int]);
            }
            if self.cards[i].rank == rank {
                r += 1;
            }
        }
        proof {
            assert(self.cards@.take(n as int) =~= self.cards@);
        }
        r
    }

    pub fn add(&mut self, card: Card)
        ensures
            final(self)@ == old(self)@.push(card),
    {
        self.cards.push(card);
    }

    pub fn add_pile(&mut self, pile: Pile)
        ensures
            final(self)@ == old(self)@ + pile@,
    {
        let mut pile = pile;
        self.cards.append(&mut pile.cards);
    }

    /// Removes and returns all cards, leaving the pile empty.
    pub fn take(&mut self) -> (r: Pile)
        ensures
            final(self)@ == Seq::<Card>::empty(),
            r@ == old(self)@,
    {
        let mut cards: Vec<Card> = Vec::new();
        core::mem::swap(&mut cards, &mut self.cards);
        Pile { cards }
    }

    /// Removes the first (bottom-most) copy of `card`, if one is present.
    pub fn take_card(&mut self, card: Card) -> (r: bool)
        ensures
            r == old(self)@.contains(card),
            !r ==> final(self)@ == old(self)@,
            r ==> final(self)@ == old(self)@.remove(first_index_of(old(self)@, card)),
    {
        let n = self.cards.len();
        let mut i: usize = 0;
        while i < n
            invariant
                self.cards@ == old(self)@,
                n == self.cards.len(),
                0 <= i <= n,
                forall|j: int| 0 <= j < i ==> self.cards@[j] != card,
            decreases n - i,
        {
            if self.cards[i] == card {
                proof {
                    assert(old(self)@.contains(card)) by {
                        assert(old(self)@[i as int] == card);
                    }
                    lemma_first_index_of_unique(self.cards@, card, i as int);
                }
                self.cards.remove(i);
                return true;
            }
            i += 1;
        }
        proof {
            assert(!self.cards@.contains(card));
        }
        false
    }

    /// Removes exactly the top `n` cards, or fails leaving the pile alone.
    pub fn take_n(&mut self, n: u32) -> (r: Option<Pile>)
        ensures
            n > old(self)@.len() ==> r is None && final(self)@ == old(self)@,
            n <= old(self)@.len() ==> (r matches Some(p) && p@ == old(self)@.subrange(
                old(self)@.len() - n,
                old(self)@.len() as int,
            ) && final(self)@ == old(self)@.subrange(0, old(self)@.len() - n)),
    {
        if n as usize > self.cards.len() {
            None
        } else {
            let cards = self.cards.split_off(self.cards.len() - n as usize);
            Some(Pile { cards })
        }
    }

    /// Removes the top `n` cards, or all of them if fewer are present.
    pub fn take_up_to_n(&mut self, n: u32) -> (r: Pile)
        ensures
            r@ == old(self)@.subrange(
                old(self)@.len() - min_len(n as nat, old(self)@.len()),
                old(self)@.len() as int,
            ),
            final(self)@ == old(self)@.subrange(
                0,
                old(self)@.len() - min_len(n as nat, old(self)@.len()),
            ),
    {
        let cards = if n as usize >= self.cards.len() {
            let mut cards: Vec<Card> = Vec::new();
            core::mem::swap(&mut cards, &mut self.cards);
            proof {
                assert(cards@ =~= cards@.subrange(0, cards@.len() as int));
                assert(self.cards@ =~= cards@.subrange(0, 0));
            }
            cards
        } else {
            self.cards.split_off(self.cards.len() - n as usize)
        };
        Pile { cards }
    }

    pub fn is_empty(&self) -> (r: bool)
        ensures
            r == (self@.len() == 0),
    {
        self.cards.is_empty()
    }

    /// The cards, bottom first, as a fresh vector.
    pub fn iter(&self) -> (r: Vec<Card>)
        ensures
            r@ == self@,
    {
        let p = self.clone();
        p.cards
    }

    /// The card at position `i`, counted from the bottom.
    pub fn get(&self, i: usize) -> (r: Card)
        requires
            i < self@.len(),
        ensures
            r == self@[i as int],
    {
        self.cards[i]
    }
}

/// The smaller of two lengths.
pub open spec fn min_len(a: nat, b: nat) -> nat {
    if a <= b {
        a
    } else {
        b
    }
}

/// The 48 cards of the four playable suits without the kings, in the order
/// the deck builder lays them down: ranks from queen down to ace, each rank
/// in the four suits.
pub open spec fn deck_no_kings() -> Seq<Card> {
    Seq::new(48, |i: int| Card { suit: suit_order()[i % 4], rank: rank_order()[i / 4 + 1] })
}

/// `n` blank filler copies of each rank but the king, ranks from queen down
/// to ace.
pub open spec fn blank_deck(n: nat) -> Seq<Card> {
    Seq::new(12 * n, |i: int| Card { suit: Suit::Blank, rank: rank_order()[i / n as int + 1] })
}

/// Every rank stands somewhere in the fixed rank order.
pub proof fn lemma_rank_in_order(r: Rank)
    ensures
        exists|j: int| 0 <= j < 13 && rank_order()[j] == r,
{
    match r {
        Rank::King => assert(rank_order()[0] == r),
        Rank::Queen => assert(rank_order()[1] == r),
        Rank::Jack => assert(rank_order()[2] == r),
        Rank::Ten => assert(rank_order()[3] == r),
        Rank::Nine => assert(rank_order()[4] == r),
        Rank::Eight => assert(rank_order()[5] == r),
        Rank::Seven => assert(rank_order()[6] == r),
        Rank::Six => assert(rank_order()[7] == r),
        Rank::Five => assert(rank_order()[8] == r),
        Rank::Four => assert(rank_order()[9] == r),
        Rank::Three => assert(rank_order()[10] == r),
        Rank::Two => assert(rank_order()[11] == r),
        Rank::Ace => assert(rank_order()[12] == r),
    }
}

/// A pile together with a fixed special card that determines which cards may
/// be placed on the pile and how the pile is scored.
#[derive(Debug)]
pub struct SpecialPile {
    pub special_card: Card,
    pub cards: Pile,
}

impl SpecialPile {
    pub fn new(special_card: Card) -> (r: SpecialPile)
        ensures
            r.special_card == special_card,
            r.cards@ == Seq::<Card>::empty(),
    {
        SpecialPile { special_card, cards: Pile::new() }
    }

    pub fn clone(&self) -> (r: SpecialPile)
        ensures
            r.special_card == self.special_card,
            r.cards@ == self.cards@,
    {
        SpecialPile { special_card: self.special_card, cards: self.cards.clone() }
    }
}

} // verus!

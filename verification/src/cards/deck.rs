//! Cards, suits and ranks of the French and the Italian deck, and decks of
//! them.

use crate::math::random::{arranged, valid_picks, Pick, Shuffle};
use crate::text::join3;
use std::collections::VecDeque;
use vstd::prelude::*;

verus! {

/// The family a card belongs to.
#[derive(Clone, Copy, Debug, PartialEq, Eq, Structural)]
pub enum CardKind {
    French,
    Italian,
}

/// The suits of the French deck.
#[derive(Clone, Copy, Debug, PartialEq, Eq, Structural)]
pub enum FrenchSuit {
    Hearts,
    Diamonds,
    Clubs,
    Spades,
}

impl FrenchSuit {
    /// Every value, in the order a new deck is built in.
    pub open spec fn every() -> Seq<FrenchSuit> {
        seq![FrenchSuit::Hearts, FrenchSuit::Diamonds, FrenchSuit::Clubs, FrenchSuit::Spades]
    }

    /// The name as it is printed.
    pub open spec fn label(self) -> Seq<char> {
        match self {
            FrenchSuit::Hearts => "Hearts"@,
            FrenchSuit::Diamonds => "Diamonds"@,
            FrenchSuit::Clubs => "Clubs"@,
            FrenchSuit::Spades => "Spades"@,
        }
    }

    /// Every value, in the order a new deck is built in.
    pub fn all() -> (all: Vec<FrenchSuit>)
        ensures
            all@ == FrenchSuit::every(),
    {
        let mut all: Vec<FrenchSuit> = Vec::new();
        all.push(FrenchSuit::Hearts);
        all.push(FrenchSuit::Diamonds);
        all.push(FrenchSuit::Clubs);
        all.push(FrenchSuit::Spades);
        assert(all@ =~= FrenchSuit::every());
        all
    }

    /// The name as it is printed.
    pub fn name(&self) -> (name: String)
        ensures
            name@ == self.label(),
    {
        match self {
            FrenchSuit::Hearts => String::from_str("Hearts"),
            FrenchSuit::Diamonds => String::from_str("Diamonds"),
            FrenchSuit::Clubs => String::from_str("Clubs"),
            FrenchSuit::Spades => String::from_str("Spades"),
        }
    }
}

/// The ranks of the French deck.
#[derive(Clone, Copy, Debug, PartialEq, Eq, Structural)]
pub enum FrenchRank {
    Ace,
    Two,
    Three,
    Four,
    Five,
    Six,
    Seven,
    Eight,
    Nine,
    Ten,
    Jack,
    Queen,
    King,
}

impl FrenchRank {
    /// Every value, in the order a new deck is built in.
    pub open spec fn every() -> Seq<FrenchRank> {
        seq![FrenchRank::Ace, FrenchRank::Two, FrenchRank::Three, FrenchRank::Four, FrenchRank::Five, FrenchRank::Six, FrenchRank::Seven, FrenchRank::Eight, FrenchRank::Nine, FrenchRank::Ten, FrenchRank::Jack, FrenchRank::Queen, FrenchRank::King]
    }

    /// The name as it is printed.
    pub open spec fn label(self) -> Seq<char> {
        match self {
            FrenchRank::Ace => "Ace"@,
            FrenchRank::Two => "Two"@,
            FrenchRank::Three => "Three"@,
            FrenchRank::Four => "Four"@,
            FrenchRank::Five => "Five"@,
            FrenchRank::Six => "Six"@,
            FrenchRank::Seven => "Seven"@,
            FrenchRank::Eight => "Eight"@,
            FrenchRank::Nine => "Nine"@,
            FrenchRank::Ten => "Ten"@,
            FrenchRank::Jack => "Jack"@,
            FrenchRank::Queen => "Queen"@,
            FrenchRank::King => "King"@,
        }
    }

    /// Every value, in the order a new deck is built in.
    pub fn all() -> (all: Vec<FrenchRank>)
        ensures
            all@ == FrenchRank::every(),
    {
        let mut all: Vec<FrenchRank> = Vec::new();
        all.push(FrenchRank::Ace);
        all.push(FrenchRank::Two);
        all.push(FrenchRank::Three);
        all.push(FrenchRank::Four);
        all.push(FrenchRank::Five);
        all.push(FrenchRank::Six);
        all.push(FrenchRank::Seven);
        all.push(FrenchRank::Eight);
        all.push(FrenchRank::Nine);
        all.push(FrenchRank::Ten);
        all.push(FrenchRank::Jack);
        all.push(FrenchRank::Queen);
        all.push(FrenchRank::King);
        assert(all@ =~= FrenchRank::every());
        all
    }

    /// The name as it is printed.
    pub fn name(&self) -> (name: String)
        ensures
            name@ == self.label(),
    {
        match self {
            FrenchRank::Ace => String::from_str("Ace"),
            FrenchRank::Two => String::from_str("Two"),
            FrenchRank::Three => String::from_str("Three"),
            FrenchRank::Four => String::from_str("Four"),
            FrenchRank::Five => String::from_str("Five"),
            FrenchRank::Six => String::from_str("Six"),
            FrenchRank::Seven => String::from_str("Seven"),
            FrenchRank::Eight => String::from_str("Eight"),
            FrenchRank::Nine => String::from_str("Nine"),
            FrenchRank::Ten => String::from_str("Ten"),
            FrenchRank::Jack => String::from_str("Jack"),
            FrenchRank::Queen => String::from_str("Queen"),
            FrenchRank::King => String::from_str("King"),
        }
    }
}

/// The suits of the Italian deck.
#[derive(Clone, Copy, Debug, PartialEq, Eq, Structural)]
pub enum ItalianSuit {
    Cups,
    Coins,
    Swords,
    Clubs,
}

impl ItalianSuit {
    /// Every value, in the order a new deck is built in.
    pub open spec fn every() -> Seq<ItalianSuit> {
        seq![ItalianSuit::Cups, ItalianSuit::Coins, ItalianSuit::Swords, ItalianSuit::Clubs]
    }

    /// The name as it is printed.
    pub open spec fn label(self) -> Seq<char> {
        match self {
            ItalianSuit::Cups => "Cups"@,
            ItalianSuit::Coins => "Coins"@,
            ItalianSuit::Swords => "Swords"@,
            ItalianSuit::Clubs => "Clubs"@,
        }
    }

    /// Every value, in the order a new deck is built in.
    pub fn all() -> (all: Vec<ItalianSuit>)
        ensures
            all@ == ItalianSuit::every(),
    {
        let mut all: Vec<ItalianSuit> = Vec::new();
        all.push(ItalianSuit::Cups);
        all.push(ItalianSuit::Coins);
        all.push(ItalianSuit::Swords);
        all.push(ItalianSuit::Clubs);
        assert(all@ =~= ItalianSuit::every());
        all
    }

    /// The name as it is printed.
    pub fn name(&self) -> (name: String)
        ensures
            name@ == self.label(),
    {
        match self {
            ItalianSuit::Cups => String::from_str("Cups"),
            ItalianSuit::Coins => String::from_str("Coins"),
            ItalianSuit::Swords => String::from_str("Swords"),
            ItalianSuit::Clubs => String::from_str("Clubs"),
        }
    }
}

/// The ranks of the Italian deck.
#[derive(Clone, Copy, Debug, PartialEq, Eq, Structural)]
pub enum ItalianRank {
    Ace,
    Two,
    Three,
    Four,
    Five,
    Six,
    Seven,
    Eight,
    Nine,
    Jack,
    Knave,
    King,
}

impl ItalianRank {
    /// Every value, in the order a new deck is built in.
    pub open spec fn every() -> Seq<ItalianRank> {
        seq![ItalianRank::Ace, ItalianRank::Two, ItalianRank::Three, ItalianRank::Four, ItalianRank::Five, ItalianRank::Six, ItalianRank::Seven, ItalianRank::Eight, ItalianRank::Nine, ItalianRank::Jack, ItalianRank::Knave, ItalianRank::King]
    }

    /// The name as it is printed.
    pub open spec fn label(self) -> Seq<char> {
        match self {
            ItalianRank::Ace => "Ace"@,
            ItalianRank::Two => "Two"@,
            ItalianRank::Three => "Three"@,
            ItalianRank::Four => "Four"@,
            ItalianRank::Five => "Five"@,
            ItalianRank::Six => "Six"@,
            ItalianRank::Seven => "Seven"@,
            ItalianRank::Eight => "Eight"@,
            ItalianRank::Nine => "Nine"@,
            ItalianRank::Jack => "Jack"@,
            ItalianRank::Knave => "Knave"@,
            ItalianRank::King => "King"@,
        }
    }

    /// Every value, in the order a new deck is built in.
    pub fn all() -> (all: Vec<ItalianRank>)
        ensures
            all@ == ItalianRank::every(),
    {
        let mut all: Vec<ItalianRank> = Vec::new();
        all.push(ItalianRank::Ace);
        all.push(ItalianRank::Two);
        all.push(ItalianRank::Three);
        all.push(ItalianRank::Four);
        all.push(ItalianRank::Five);
        all.push(ItalianRank::Six);
        all.push(ItalianRank::Seven);
        all.push(ItalianRank::Eight);
        all.push(ItalianRank::Nine);
        all.push(ItalianRank::Jack);
        all.push(ItalianRank::Knave);
        all.push(ItalianRank::King);
        assert(all@ =~= ItalianRank::every());
        all
    }

    /// The name as it is printed.
    pub fn name(&self) -> (name: String)
        ensures
            name@ == self.label(),
    {
        match self {
            ItalianRank::Ace => String::from_str("Ace"),
            ItalianRank::Two => String::from_str("Two"),
            ItalianRank::Three => String::from_str("Three"),
            ItalianRank::Four => String::from_str("Four"),
            ItalianRank::Five => String::from_str("Five"),
            ItalianRank::Six => String::from_str("Six"),
            ItalianRank::Seven => String::from_str("Seven"),
            ItalianRank::Eight => String::from_str("Eight"),
            ItalianRank::Nine => String::from_str("Nine"),
            ItalianRank::Jack => String::from_str("Jack"),
            ItalianRank::Knave => String::from_str("Knave"),
            ItalianRank::King => String::from_str("King"),
        }
    }
}

/// A suit of either family.
#[derive(Clone, Copy, Debug, PartialEq, Eq, Structural)]
pub enum SuitKind {
    French(FrenchSuit),
    Italian(ItalianSuit),
}

/// A playing card.
pub trait Card {
    /// The name of the card as it is printed.
    spec fn label(&self) -> Seq<char>;

    /// The family of the card.
    spec fn family(&self) -> CardKind;

    /// The suit of the card.
    spec fn suit_kind(&self) -> SuitKind;

    /// The name of the card: its rank, ` of `, its suit.
    fn name(&self) -> (name: String)
        ensures
            name@ == self.label(),
    ;

    /// The family of the card.
    fn kind(&self) -> (kind: CardKind)
        ensures
            kind == self.family(),
    ;

    /// The suit of the card.
    fn suit(&self) -> (suit: SuitKind)
        ensures
            suit == self.suit_kind(),
    ;
}

/// A card of the French deck.
#[derive(Clone, Copy, Debug, PartialEq, Eq, Structural)]
pub struct FrenchCard {
    pub suit: FrenchSuit,
    pub rank: FrenchRank,
}

impl Card for FrenchCard {
    open spec fn label(&self) -> Seq<char> {
        self.rank.label() + " of "@ + self.suit.label()
    }

    open spec fn family(&self) -> CardKind {
        CardKind::French
    }

    open spec fn suit_kind(&self) -> SuitKind {
        SuitKind::French(self.suit)
    }

    fn name(&self) -> (name: String) {
        let rank = self.rank.name();
        let suit = self.suit.name();
        join3(rank.as_str(), " of ", suit.as_str())
    }

    fn kind(&self) -> (kind: CardKind) {
        CardKind::French
    }

    fn suit(&self) -> (suit: SuitKind) {
        SuitKind::French(self.suit)
    }
}

/// A card of the Italian deck.
#[derive(Clone, Copy, Debug, PartialEq, Eq, Structural)]
pub struct ItalianCard {
    pub suit: ItalianSuit,
    pub rank: ItalianRank,
}

impl Card for ItalianCard {
    open spec fn label(&self) -> Seq<char> {
        self.rank.label() + " of "@ + self.suit.label()
    }

    open spec fn family(&self) -> CardKind {
        CardKind::Italian
    }

    open spec fn suit_kind(&self) -> SuitKind {
        SuitKind::Italian(self.suit)
    }

    fn name(&self) -> (name: String) {
        let rank = self.rank.name();
        let suit = self.suit.name();
        join3(rank.as_str(), " of ", suit.as_str())
    }

    fn kind(&self) -> (kind: CardKind) {
        CardKind::Italian
    }

    fn suit(&self) -> (suit: SuitKind) {
        SuitKind::Italian(self.suit)
    }
}

/// A deck of cards. Its view is the cards from the top down.
pub struct Deck<C: Card> {
    cards: VecDeque<C>,
}

impl<C: Card> View for Deck<C> {
    type V = Seq<C>;

    closed spec fn view(&self) -> Seq<C> {
        self.cards@
    }
}

impl<C: Card> Pick<C> for Deck<C> {
    open spec fn items(&self) -> Seq<C> {
        self@
    }

    fn pick(&self) -> (item: &C) {
        self.cards.pick()
    }

    fn pick_mut(&mut self) -> (item: &mut C) {
        self.cards.pick_mut()
    }
}

impl<C: Card> Shuffle<C> for Deck<C> {
    open spec fn order(&self) -> Seq<C> {
        self@
    }

    fn shuffle(&mut self) {
        self.cards.shuffle();
        proof {
            let before = old(self).cards.order();
            let picks = choose|picks: Seq<usize>|
                valid_picks(picks, before.len()) && self.cards.order() == #[trigger] arranged(
                    before,
                    picks,
                );
            assert(self.order() == arranged(old(self).order(), picks));
        }
    }
}

impl<C: Card> Deck<C> {
    /// A deck without cards.
    pub fn new() -> (deck: Self)
        ensures
            deck@.len() == 0,
    {
        Deck { cards: VecDeque::new() }
    }

    /// Puts a card under the deck.
    pub fn add_card(&mut self, card: C)
        ensures
            final(self)@ == old(self)@.push(card),
    {
        self.cards.push_back(card);
    }

    /// The number of cards left.
    pub fn remaining(&self) -> (n: usize)
        ensures
            n == self@.len(),
    {
        self.cards.len()
    }

    /// The card at place `index` from the top.
    pub fn card_at(&self, index: usize) -> (card: Option<&C>)
        ensures
            card is Some <==> index < self@.len(),
            card is Some ==> *card->0 == self@[index as int],
    {
        if index < self.cards.len() {
            Some(&self.cards[index])
        } else {
            None
        }
    }
}

/// The card at place `i` of a French deck fresh from the factory, before it
/// is shuffled: suit by suit, each suit from the ace to the king.
pub open spec fn french_card_at(i: int) -> FrenchCard {
    FrenchCard { suit: FrenchSuit::every()[i / 13], rank: FrenchRank::every()[i % 13] }
}

/// The 52 cards of the French deck.
pub open spec fn french_cards() -> Seq<FrenchCard> {
    Seq::new(52, |i: int| french_card_at(i))
}

/// The card at place `i` of an Italian deck fresh from the factory, before
/// it is shuffled: suit by suit, each suit from the ace to the king.
pub open spec fn italian_card_at(i: int) -> ItalianCard {
    ItalianCard { suit: ItalianSuit::every()[i / 12], rank: ItalianRank::every()[i % 12] }
}

/// The 48 cards of the Italian deck.
pub open spec fn italian_cards() -> Seq<ItalianCard> {
    Seq::new(48, |i: int| italian_card_at(i))
}

/// Makes decks.
pub struct DeckFactory;

impl DeckFactory {
    /// A shuffled French deck: each of the 52 cards once, in some order.
    pub fn french() -> (deck: Deck<FrenchCard>)
        ensures
            deck@.to_multiset() == french_cards().to_multiset(),
            deck@.len() == 52,
    {
        let suits = FrenchSuit::all();
        let ranks = FrenchRank::all();
        let mut deck: Deck<FrenchCard> = Deck::new();
        let mut s: usize = 0;
        while s < 4
            invariant
                s <= 4,
                suits@ == FrenchSuit::every(),
                ranks@ == FrenchRank::every(),
                deck@ == Seq::new((s * 13) as nat, |i: int| french_card_at(i)),
            decreases 4 - s,
        {
            let mut r: usize = 0;
            while r < 13
                invariant
                    s < 4,
                    r <= 13,
                    suits@ == FrenchSuit::every(),
                    ranks@ == FrenchRank::every(),
                    deck@ == Seq::new((s * 13 + r) as nat, |i: int| french_card_at(i)),
                decreases 13 - r,
            {
                deck.add_card(FrenchCard { suit: suits[s], rank: ranks[r] });
                r += 1;
                assert(deck@ =~= Seq::new((s * 13 + r) as nat, |i: int| french_card_at(i)));
            }
            s += 1;
        }
        assert(deck@ =~= french_cards());
        deck.shuffle();
        deck
    }

    /// A shuffled Italian deck: each of the 48 cards once, in some order.
    pub fn italian() -> (deck: Deck<ItalianCard>)
        ensures
            deck@.to_multiset() == italian_cards().to_multiset(),
            deck@.len() == 48,
    {
        let suits = ItalianSuit::all();
        let ranks = ItalianRank::all();
        let mut deck: Deck<ItalianCard> = Deck::new();
        let mut s: usize = 0;
        while s < 4
            invariant
                s <= 4,
                suits@ == ItalianSuit::every(),
                ranks@ == ItalianRank::every(),
                deck@ == Seq::new((s * 12) as nat, |i: int| italian_card_at(i)),
            decreases 4 - s,
        {
            let mut r: usize = 0;
            while r < 12
                invariant
                    s < 4,
                    r <= 12,
                    suits@ == ItalianSuit::every(),
                    ranks@ == ItalianRank::every(),
                    deck@ == Seq::new((s * 12 + r) as nat, |i: int| italian_card_at(i)),
                decreases 12 - r,
            {
                deck.add_card(ItalianCard { suit: suits[s], rank: ranks[r] });
                r += 1;
                assert(deck@ =~= Seq::new((s * 12 + r) as nat, |i: int| italian_card_at(i)));
            }
            s += 1;
        }
        assert(deck@ =~= italian_cards());
        deck.shuffle();
        deck
    }
}

} // verus!

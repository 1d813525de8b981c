//! The table of a blackjack game.

use crate::cards::deck::{french_cards, Deck, DeckFactory, FrenchCard};
use crate::payload::User;
use vstd::prelude::*;

verus! {

/// Who sits at the table: a player with a bet, or the dealer.
pub struct BlackjackPlayer {
    user: Option<User>,
    hand: Vec<FrenchCard>,
    bet: Option<u32>,
    is_dealer: bool,
}

impl BlackjackPlayer {
    /// Whether this is the dealer.
    pub closed spec fn dealing(&self) -> bool {
        self.is_dealer
    }

    /// The bet, which only a player has.
    pub closed spec fn stake(&self) -> Option<u32> {
        self.bet
    }

    /// The user behind a player.
    pub closed spec fn seated(&self) -> Option<User> {
        self.user
    }

    /// The cards in hand.
    pub closed spec fn cards(&self) -> Seq<FrenchCard> {
        self.hand@
    }

    /// A player with a bet and no cards yet.
    pub fn player(user: User, bet: u32) -> (p: Self)
        ensures
            !p.dealing(),
            p.stake() == Some(bet),
            p.seated() == Some(user),
            p.cards().len() == 0,
    {
        BlackjackPlayer { user: Some(user), hand: Vec::new(), bet: Some(bet), is_dealer: false }
    }

    /// The dealer: no user, no bet, no cards yet.
    pub fn dealer() -> (p: Self)
        ensures
            p.dealing(),
            p.stake() is None,
            p.seated() is None,
            p.cards().len() == 0,
    {
        BlackjackPlayer { user: None, hand: Vec::new(), bet: None, is_dealer: true }
    }

    /// Whether this is the dealer.
    pub fn is_dealer(&self) -> (b: bool)
        ensures
            b == self.dealing(),
    {
        self.is_dealer
    }

    /// The bet, which only a player has.
    pub fn bet(&self) -> (bet: Option<u32>)
        ensures
            bet == self.stake(),
    {
        self.bet
    }

    /// The number of cards in hand.
    pub fn hand_size(&self) -> (n: usize)
        ensures
            n == self.cards().len(),
    {
        self.hand.len()
    }
}

/// A blackjack table: the players, the dealer and the deck.
pub struct Blackjack {
    players: Vec<BlackjackPlayer>,
    dealer: BlackjackPlayer,
    deck: Deck<FrenchCard>,
}

impl Blackjack {
    /// The players at the table.
    pub closed spec fn players(&self) -> Seq<BlackjackPlayer> {
        self.players@
    }

    /// The dealer.
    pub closed spec fn house(&self) -> BlackjackPlayer {
        self.dealer
    }

    /// The deck, from the top down.
    pub closed spec fn deck(&self) -> Seq<FrenchCard> {
        self.deck@
    }

    /// A table before the game: a shuffled French deck, a dealer without
    /// cards, and no players.
    pub fn new() -> (table: Self)
        ensures
            table.players().len() == 0,
            table.house().dealing(),
            table.house().stake() is None,
            table.house().seated() is None,
            table.house().cards().len() == 0,
            table.deck().to_multiset() == french_cards().to_multiset(),
            table.deck().len() == 52,
    {
        let deck = DeckFactory::french();
        let dealer = BlackjackPlayer::dealer();
        let players = Vec::new();
        Blackjack { players, dealer, deck }
    }

    /// The number of players at the table.
    pub fn player_count(&self) -> (n: usize)
        ensures
            n == self.players().len(),
    {
        self.players.len()
    }

    /// The number of cards left in the deck.
    pub fn cards_left(&self) -> (n: usize)
        ensures
            n == self.deck().len(),
    {
        self.deck.remaining()
    }
}

} // verus!

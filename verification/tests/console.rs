use room_relay::cards::blackjack::{Blackjack, BlackjackPlayer};
use room_relay::cards::deck::{
    Card, CardKind, Deck, DeckFactory, FrenchCard, FrenchRank, FrenchSuit, ItalianCard,
    ItalianRank, ItalianSuit, SuitKind,
};
use room_relay::console::commands::{ClearCommand, HelpCommand, RelayCommand, RelayRequest};
use room_relay::console::key::Key;
use room_relay::console::ops::{
    Backspace, Clear, ClearKind, ClearLine, MoveDown, MoveLeft, MoveRight, MoveTo, MoveToColumn,
    MoveUp, Op, Print, PrintLn,
};
use room_relay::error::Error;
use room_relay::math::random::{arrange, arrange_deque, Pick, Shuffle};
use room_relay::payload::sys_user;
use room_relay::registry::CapacityExceeded;
use room_relay::relay_registry::RegisterError;
use room_relay::text::{decimal, join2, join3, spaces};
use room_relay::wire::ProtocolViolation;
use std::collections::VecDeque;

fn s(text: &str) -> String {
    text.to_string()
}

#[test]
fn decimal_numbers() {
    assert_eq!(decimal(0), "0");
    assert_eq!(decimal(7), "7");
    assert_eq!(decimal(10), "10");
    assert_eq!(decimal(1234567890), "1234567890");
    assert_eq!(decimal(usize::MAX), usize::MAX.to_string());
}

#[test]
fn joins_and_spaces() {
    assert_eq!(join2("ab", "cd"), "abcd");
    assert_eq!(join3("a", "", "c"), "ac");
    assert_eq!(spaces(0), "");
    assert_eq!(spaces(3), "   ");
}

#[test]
fn keys_from_single_bytes() {
    assert_eq!(Key::from_byte(b'a'), Key::A);
    assert_eq!(Key::from_byte(b'm'), Key::M);
    assert_eq!(Key::from_byte(b'z'), Key::Z);
    assert_eq!(Key::from_byte(b' '), Key::Space);
    assert_eq!(Key::from_byte(b'\n'), Key::Enter);
    assert_eq!(Key::from_byte(0x7f), Key::Backspace);
    let letters = [
        Key::A, Key::B, Key::C, Key::D, Key::E, Key::F, Key::G, Key::H, Key::I, Key::J, Key::K,
        Key::L, Key::M, Key::N, Key::O, Key::P, Key::Q, Key::R, Key::S, Key::T, Key::U, Key::V,
        Key::W, Key::X, Key::Y, Key::Z,
    ];
    for (i, key) in letters.iter().enumerate() {
        assert_eq!(Key::from_byte(b'a' + i as u8), *key);
    }
    assert_eq!(Key::try_from_byte(b'q'), Some(Key::Q));
    assert_eq!(Key::try_from_byte(b'Q'), None);
    assert_eq!(Key::try_from_byte(b'1'), None);
    assert_eq!(Key::try_from_byte(0x1b), None);
}

#[test]
fn keys_from_byte_sequences() {
    assert_eq!(Key::from_bytes(&[0x1b, 0x5b, 0x41]), Some(Key::ArrowUp));
    assert_eq!(Key::from_bytes(&[0x1b, 0x5b, 0x42]), Some(Key::ArrowDown));
    assert_eq!(Key::from_bytes(&[0x1b, 0x5b, 0x43]), Some(Key::ArrowRight));
    assert_eq!(Key::from_bytes(&[0x1b, 0x5b, 0x44]), Some(Key::ArrowLeft));
    assert_eq!(Key::from_bytes(&[0x1b, 0x5b, 0x45]), None);
    assert_eq!(Key::from_bytes(&[0x1b, 0x5b]), None);
    assert_eq!(Key::from_bytes(&[b'c']), Some(Key::C));
    assert_eq!(Key::from_bytes(&[b' ']), None);
    assert_eq!(Key::from_bytes(&[b'\n']), None);
    assert_eq!(Key::from_bytes(&[b'A']), None);
    assert_eq!(Key::from_bytes(&[]), None);
    assert_eq!(Key::from_bytes(&[b'a', b'b']), None);
    assert_eq!(Key::from_bytes(&[b'a', 0x5b, 0x41]), None);
    assert_eq!(Key::from_escape(0x41), Some(Key::ArrowUp));
    assert_eq!(Key::from_escape(0x44), Some(Key::ArrowLeft));
    assert_eq!(Key::from_escape(b'a'), None);
}

#[test]
fn terminal_operations() {
    assert_eq!(Print(s("hi")).ansi(), "hi");
    assert_eq!(PrintLn(s("hi")).ansi(), "hi\n");
    assert_eq!(Clear(ClearKind::All).ansi(), "\x1b[2J\x1b[H");
    assert_eq!(Clear(ClearKind::Line).ansi(), "\x1b[2K");
    assert_eq!(ClearLine.ansi(), "\x1b[2K");
    assert_eq!(Backspace(1).ansi(), "\x1b[1D \x1b[1D");
    assert_eq!(Backspace(3).ansi(), "\x1b[3D   \x1b[3D");
    assert_eq!(Backspace(0).ansi(), "\x1b[0D\x1b[0D");
    assert_eq!(MoveUp(2).ansi(), "\x1b[2A");
    assert_eq!(MoveDown(10).ansi(), "\x1b[10B");
    assert_eq!(MoveLeft(7).ansi(), "\x1b[7D");
    assert_eq!(MoveRight(123).ansi(), "\x1b[123C");
    assert_eq!(MoveTo(5, 10).ansi(), "\x1b[5;10H");
    assert_eq!(MoveToColumn(0).ansi(), "\x1b[0G");
}

#[test]
fn clear_and_help_commands() {
    assert_eq!(ClearCommand.name(), "clear");
    assert_eq!(ClearCommand.description(), "Clears the console");
    assert_eq!(ClearCommand.execute(), "\x1b[2J\x1b[H");
    let help = HelpCommand(vec![
        (s("clear"), s("Clears the console")),
        (s("relay"), s("Add / remove relay servers")),
    ]);
    assert_eq!(help.name(), "help");
    assert_eq!(
        help.description(),
        "Displays a list of available commands and their descriptions"
    );
    assert_eq!(
        help.execute(),
        vec![s("clear: Clears the console"), s("relay: Add / remove relay servers")]
    );
    assert!(HelpCommand(vec![]).execute().is_empty());
}

#[test]
fn relay_command_reads_its_arguments() {
    let relay = RelayCommand;
    assert_eq!(relay.name(), "relay");
    assert_eq!(relay.description(), "Add / remove relay servers");
    match relay.parse(&vec![s("add"), s("127.0.0.1:9000")]) {
        RelayRequest::Add(address) => assert_eq!(address, "127.0.0.1:9000"),
        _ => panic!("add with an address"),
    }
    assert!(matches!(relay.parse(&vec![s("list")]), RelayRequest::List));
    assert!(matches!(relay.parse(&vec![s("add")]), RelayRequest::AddUsage));
    assert!(matches!(relay.parse(&vec![]), RelayRequest::Usage));
    assert!(matches!(relay.parse(&vec![s("remove")]), RelayRequest::Usage));
    assert!(matches!(relay.parse(&vec![s("list"), s("x")]), RelayRequest::Usage));
    assert!(matches!(relay.parse(&vec![s("add"), s("a"), s("b")]), RelayRequest::Usage));
    assert!(matches!(relay.parse(&vec![s("ADD"), s("a")]), RelayRequest::Usage));
    assert_eq!(relay.usage(&RelayRequest::AddUsage), "Usage: relay add <ipaddr>");
    assert_eq!(relay.usage(&RelayRequest::Usage), "Usage: relay <op> ...args");
}

#[test]
fn relay_command_words_its_answers() {
    let relay = RelayCommand;
    assert_eq!(relay.invalid_address(&s("nope")), "Failed to parse address: nope");
    assert_eq!(relay.report(&Ok(()), &s("a:1")), "Successfully added relay: a:1");
    assert_eq!(
        relay.report(&Err(RegisterError::Unreachable), &s("a:1")),
        "Failed to connect to relay: a:1"
    );
    assert_eq!(
        relay.report(&Err(RegisterError::CapacityExceeded), &s("a:1")),
        "No room for another relay: a:1"
    );
    assert_eq!(relay.list_lines(&vec![]), vec![s("There are no relays connected.")]);
    assert_eq!(relay.list_lines(&vec![s("a:1"), s("b:2")]), vec![s("1) a:1"), s("2) b:2")]);
    let many: Vec<String> = (0..12).map(|i| format!("h:{}", i)).collect();
    assert_eq!(relay.list_lines(&many)[9], "10) h:9");
}

#[test]
fn errors_in_one_line() {
    assert_eq!(
        Error::AddressParsing(s("nowhere")).message(),
        "Failed to parse socket address: nowhere"
    );
    assert_eq!(Error::Unreachable(s("a:1")).message(), "Relay unreachable: a:1");
    assert_eq!(Error::CapacityExceeded.message(), "Capacity exceeded");
    assert_eq!(
        Error::ProtocolViolation(ProtocolViolation::MissingPayload).message(),
        "Protocol violation"
    );
    assert_eq!(Error::Serialization(s("eof")).message(), "Serialization error: eof");
    assert_eq!(Error::TokioIo(s("broken pipe")).message(), "Tokio IO error: broken pipe");
    assert_eq!(Error::WebSocket(s("reset")).message(), "Websocket error: reset");
    assert!(!Error::AddressParsing(s("x")).recoverable());
    assert!(!Error::TokioIo(s("x")).recoverable());
    assert!(Error::Unreachable(s("x")).recoverable());
    assert!(Error::CapacityExceeded.recoverable());
    assert!(Error::Serialization(s("x")).recoverable());
    assert!(matches!(Error::from_capacity(CapacityExceeded), Error::CapacityExceeded));
    assert!(matches!(
        Error::from_violation(ProtocolViolation::InvalidText),
        Error::ProtocolViolation(ProtocolViolation::InvalidText)
    ));
    assert!(matches!(
        Error::from_register(RegisterError::CapacityExceeded, s("a")),
        Error::CapacityExceeded
    ));
    match Error::from_register(RegisterError::Unreachable, s("a:1")) {
        Error::Unreachable(address) => assert_eq!(address, "a:1"),
        _ => panic!("an unreachable relay"),
    }
}

#[test]
fn card_names() {
    let queen = FrenchCard { suit: FrenchSuit::Hearts, rank: FrenchRank::Queen };
    assert_eq!(queen.name(), "Queen of Hearts");
    assert_eq!(queen.kind(), CardKind::French);
    assert_eq!(queen.suit(), SuitKind::French(FrenchSuit::Hearts));
    let knave = ItalianCard { suit: ItalianSuit::Coins, rank: ItalianRank::Knave };
    assert_eq!(knave.name(), "Knave of Coins");
    assert_eq!(knave.kind(), CardKind::Italian);
    assert_eq!(knave.suit(), SuitKind::Italian(ItalianSuit::Coins));
    assert_eq!(FrenchSuit::all().len(), 4);
    assert_eq!(FrenchRank::all().len(), 13);
    assert_eq!(ItalianSuit::all().len(), 4);
    assert_eq!(ItalianRank::all().len(), 12);
    assert_eq!(FrenchRank::Ten.name(), "Ten");
    assert_eq!(ItalianSuit::Swords.name(), "Swords");
}

#[test]
fn a_french_deck_has_each_card_once() {
    let deck = DeckFactory::french();
    assert_eq!(deck.remaining(), 52);
    let mut seen: Vec<FrenchCard> = Vec::new();
    for i in 0..52 {
        let card = *deck.card_at(i).unwrap();
        assert!(!seen.contains(&card));
        seen.push(card);
    }
    assert!(deck.card_at(52).is_none());
    for suit in FrenchSuit::all() {
        for rank in FrenchRank::all() {
            assert!(seen.contains(&FrenchCard { suit, rank }));
        }
    }
}

#[test]
fn an_italian_deck_has_each_card_once() {
    let deck = DeckFactory::italian();
    assert_eq!(deck.remaining(), 48);
    let mut seen: Vec<ItalianCard> = Vec::new();
    for i in 0..48 {
        let card = *deck.card_at(i).unwrap();
        assert!(!seen.contains(&card));
        seen.push(card);
    }
    for suit in ItalianSuit::all() {
        for rank in ItalianRank::all() {
            assert!(seen.contains(&ItalianCard { suit, rank }));
        }
    }
}

#[test]
fn decks_grow_by_the_card() {
    let mut deck: Deck<FrenchCard> = Deck::new();
    assert_eq!(deck.remaining(), 0);
    let ace = FrenchCard { suit: FrenchSuit::Spades, rank: FrenchRank::Ace };
    let two = FrenchCard { suit: FrenchSuit::Spades, rank: FrenchRank::Two };
    deck.add_card(ace);
    deck.add_card(two);
    assert_eq!(deck.remaining(), 2);
    assert_eq!(deck.card_at(0), Some(&ace));
    assert_eq!(deck.card_at(1), Some(&two));
    let picked = *deck.pick();
    assert!(picked == ace || picked == two);
    *deck.pick_mut() = ace;
    assert_eq!(deck.remaining(), 2);
    assert!(*deck.card_at(0).unwrap() == ace || *deck.card_at(1).unwrap() == ace);
    deck = Deck::new();
    deck.add_card(ace);
    deck.add_card(two);
    deck.shuffle();
    assert_eq!(deck.remaining(), 2);
    let first = *deck.card_at(0).unwrap();
    let second = *deck.card_at(1).unwrap();
    assert!((first == ace && second == two) || (first == two && second == ace));
}

#[test]
fn shuffles_keep_the_items() {
    let mut v: Vec<u32> = (0..50).collect();
    v.shuffle();
    let mut sorted = v.clone();
    sorted.sort();
    assert_eq!(sorted, (0..50).collect::<Vec<u32>>());
    let mut d: VecDeque<u32> = (0..50).collect();
    d.shuffle();
    let mut sorted: Vec<u32> = d.into_iter().collect();
    sorted.sort();
    assert_eq!(sorted, (0..50).collect::<Vec<u32>>());
    let mut empty: Vec<u32> = Vec::new();
    empty.shuffle();
    assert!(empty.is_empty());
    let mut one = vec![7];
    one.shuffle();
    assert_eq!(one, vec![7]);
    for _ in 0..20 {
        let mut v = vec![1, 2, 3];
        assert!(v.contains(v.pick()));
        *v.pick_mut() = 9;
        assert_eq!(v.iter().filter(|x| **x == 9).count(), 1);
        assert_eq!(v.len(), 3);
        let mut q: VecDeque<u32> = VecDeque::from(vec![6, 7, 8]);
        *q.pick_mut() += 10;
        assert_eq!(q.iter().filter(|x| **x >= 16).count(), 1);
        assert_eq!(q.iter().sum::<u32>(), 31);
        let d: VecDeque<u32> = VecDeque::from(vec![4, 5]);
        assert!(d.contains(d.pick()));
    }
}

#[test]
fn blackjack_tables() {
    let table = Blackjack::new();
    assert_eq!(table.player_count(), 0);
    assert_eq!(table.cards_left(), 52);
    let dealer = BlackjackPlayer::dealer();
    assert!(dealer.is_dealer());
    assert_eq!(dealer.bet(), None);
    assert_eq!(dealer.hand_size(), 0);
    let player = BlackjackPlayer::player(sys_user(), 25);
    assert!(!player.is_dealer());
    assert_eq!(player.bet(), Some(25));
    assert_eq!(player.hand_size(), 0);
}

#[test]
fn items_are_arranged_by_their_picks() {
    let mut v = vec!['a', 'b', 'c'];
    arrange(&mut v, &vec![2, 2, 0]);
    assert_eq!(v, vec!['b', 'a', 'c']);
    let mut v = vec![1, 2, 3, 4];
    arrange(&mut v, &vec![0, 1, 2, 3]);
    assert_eq!(v, vec![1, 2, 3, 4]);
    let mut v = vec![1, 2, 3, 4];
    arrange(&mut v, &vec![3, 3, 3, 3]);
    assert_eq!(v, vec![4, 1, 2, 3]);
    let mut v = vec![1, 2, 3, 4];
    arrange(&mut v, &vec![1, 0, 3, 2]);
    assert_eq!(v, vec![1, 2, 3, 4]);
    let mut d: VecDeque<char> = VecDeque::from(vec!['a', 'b', 'c']);
    arrange_deque(&mut d, &vec![2, 2, 0]);
    assert_eq!(d, VecDeque::from(vec!['b', 'a', 'c']));
    let mut d: VecDeque<u8> = VecDeque::from(vec![1, 2, 3]);
    arrange_deque(&mut d, &vec![1, 2, 0]);
    assert_eq!(d, VecDeque::from(vec![1, 3, 2]));
}

#[test]
fn a_place_without_a_pick_keeps_its_item_for_that_step() {
    let mut v = vec!['a', 'b', 'c'];
    arrange(&mut v, &vec![]);
    assert_eq!(v, vec!['a', 'b', 'c']);
    let mut v = vec!['a', 'b', 'c'];
    arrange(&mut v, &vec![1]);
    assert_eq!(v, vec!['b', 'a', 'c']);
    let mut v = vec!['a', 'b', 'c'];
    arrange(&mut v, &vec![7, 2, 9, 0]);
    assert_eq!(v, vec!['a', 'c', 'b']);
    let mut empty: Vec<u8> = Vec::new();
    arrange(&mut empty, &vec![0, 1]);
    assert!(empty.is_empty());
    let mut d: VecDeque<u8> = VecDeque::from(vec![1, 2]);
    arrange_deque(&mut d, &vec![5, 0]);
    assert_eq!(d, VecDeque::from(vec![2, 1]));
}

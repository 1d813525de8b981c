use room_relay::console::editor::{Console, Dispatch, History, Input, Options, Reaction};
use room_relay::console::key::Key;
use room_relay::http::{Request, Response};
use room_relay::relay_registry::CreateRoomError;
use room_relay::routes::{
    greet, healthcheck, hub_room_created, hub_room_failed, ping, relay_room_created,
    relay_room_refused, session,
};
use room_relay::text::{eq_ignore_ascii_case, fields, words, Separator};

fn s(text: &str) -> String {
    text.to_string()
}

fn type_text(console: &mut Console, text: &str) -> Vec<Reaction> {
    text.bytes().map(|b| console.step(Input::Byte(b))).collect()
}

fn hub_console() -> Console {
    Console::new().case_sensitive(false).prompt(s("> ")).command(s("clear")).command(s("relay"))
}

#[test]
fn words_are_runs_between_white_space() {
    assert_eq!(words("relay add 127.0.0.1:9000"), vec![s("relay"), s("add"), s("127.0.0.1:9000")]);
    assert_eq!(words("  relay \t list \n"), vec![s("relay"), s("list")]);
    assert_eq!(words(""), Vec::<String>::new());
    assert_eq!(words(" \t\r\n"), Vec::<String>::new());
    assert_eq!(words("x"), vec![s("x")]);
    assert_eq!(words("a\u{a0}b\u{3000}c\u{2003}d"), vec![s("a"), s("b"), s("c"), s("d")]);
    assert_eq!(words("a\u{200b}b"), vec![s("a\u{200b}b")]);
    for line in ["one two", "  x  y ", "é ü", "", "a\u{85}b", "tab\tsep", "a\u{1680}b\u{2028}c"] {
        let expected: Vec<String> = line.split_whitespace().map(|w| w.to_string()).collect();
        assert_eq!(words(line), expected);
    }
}

#[test]
fn path_segments_are_runs_between_slashes() {
    assert_eq!(fields("/room/create", Separator::Slash), vec![s("room"), s("create")]);
    assert_eq!(fields("//greet//bob/", Separator::Slash), vec![s("greet"), s("bob")]);
    assert_eq!(fields("/", Separator::Slash), Vec::<String>::new());
    assert_eq!(fields("a b/c", Separator::Slash), vec![s("a b"), s("c")]);
    let request = Request::new(s("/greet/alice"), vec![1, 2, 3]);
    assert_eq!(request.segments(), vec![s("greet"), s("alice")]);
    assert_eq!(request.path(), vec![s("greet"), s("alice")]);
    assert_eq!(request.body(), &vec![1, 2, 3]);
    assert!(Request::new(s(""), vec![]).segments().is_empty());
}

#[test]
fn names_compare_without_case() {
    assert!(eq_ignore_ascii_case("Relay", "rELAY"));
    assert!(eq_ignore_ascii_case("", ""));
    assert!(!eq_ignore_ascii_case("relay", "relays"));
    assert!(!eq_ignore_ascii_case("relay", "delay"));
    assert!(!eq_ignore_ascii_case("É", "é"));
    assert!(eq_ignore_ascii_case("a-Z_09", "A-z_09"));
    assert!(!eq_ignore_ascii_case("@", "`"));
    assert!(!eq_ignore_ascii_case("[", "{"));
}

#[test]
fn responses() {
    let empty = Response::empty();
    assert_eq!(empty.status_code(), 200);
    assert!(empty.content_bytes().is_empty());
    assert_eq!(empty.header_count(), 3);
    assert_eq!(empty.header_value(&s("Access-Control-Allow-Origin")), Some(s("*")));
    assert_eq!(
        empty.header_value(&s("access-control-allow-methods")),
        Some(s("GET, POST, PUT, DELETE, OPTIONS"))
    );
    assert_eq!(
        empty.header_value(&s("Access-Control-Allow-Headers")),
        Some(s("Accept, Accept-Language, Content-Language,  Origin, Content-Type, Authorization"))
    );
    assert_eq!(empty.header_value(&s("Content-Type")), None);
    let r = Response::empty()
        .status(404)
        .header(s("Content-Type"), s("text/plain"))
        .header(s("content-type"), s("application/json"))
        .text(s("né"));
    assert_eq!(r.status_code(), 404);
    assert_eq!(r.header_count(), 4);
    assert_eq!(r.header_value(&s("Content-Type")), Some(s("application/json")));
    assert_eq!(r.content_bytes(), &vec![b'n', 0xc3, 0xa9]);
    let replaced = Response::empty().header(s("ACCESS-CONTROL-ALLOW-ORIGIN"), s("example.org"));
    assert_eq!(replaced.header_count(), 3);
    assert_eq!(replaced.header_value(&s("Access-Control-Allow-Origin")), Some(s("example.org")));
    assert_eq!(Response::empty().body(s("{}")).content_bytes(), &b"{}".to_vec());
}

#[test]
fn route_answers() {
    assert_eq!(healthcheck().status_code(), 200);
    assert!(healthcheck().content_bytes().is_empty());
    assert_eq!(session().status_code(), 200);
    assert_eq!(ping().status_code(), 200);
    assert!(ping().content_bytes().is_empty());
    assert_eq!(greet("Ada"), "Hello, Ada!");
    assert_eq!(greet(""), "Hello, !");
    let created = relay_room_created(s("{\"id\":\"r\"}"));
    assert_eq!(created.status_code(), 201);
    assert_eq!(created.content_bytes(), &b"{\"id\":\"r\"}".to_vec());
    let refused = relay_room_refused();
    assert_eq!(refused.status_code(), 500);
    assert_eq!(refused.content_bytes(), &b"no rooms available".to_vec());
    let ok = hub_room_created(s("{}"));
    assert_eq!(ok.status_code(), 200);
    assert_eq!(ok.content_bytes(), &b"{}".to_vec());
    let none = hub_room_failed(CreateRoomError::NoCapacity);
    assert_eq!(none.status_code(), 500);
    assert_eq!(none.content_bytes(), &b"no rooms available".to_vec());
    let bad = hub_room_failed(CreateRoomError::MalformedReply);
    assert_eq!(bad.status_code(), 400);
    assert_eq!(bad.header_count(), 3);
}

#[test]
fn default_options() {
    let options = Options::default();
    assert_eq!(options.exit_signal, '\x03');
    assert_eq!(options.prompt, None);
    assert_eq!(options.welcome_message, None);
    assert!(!options.case_sensitive);
    assert_eq!(Console::new().exit_character(), '\x03');
    assert_eq!(Console::new().exit_signal('q').exit_character(), 'q');
}

#[test]
fn history_walks_back_and_forth() {
    let mut h = History::new();
    assert_eq!(h.len(), 0);
    assert_eq!(h.up(), None);
    assert_eq!(h.down(), None);
    h.record(s("one"));
    h.record(s("two"));
    h.record(s("three"));
    assert_eq!(h.len(), 3);
    assert_eq!(h.up(), Some(s("three")));
    assert_eq!(h.up(), Some(s("two")));
    assert_eq!(h.up(), Some(s("one")));
    assert_eq!(h.up(), None);
    assert_eq!(h.down(), Some(s("two")));
    assert_eq!(h.down(), Some(s("three")));
    assert_eq!(h.down(), None);
    assert_eq!(h.down(), None);
    assert_eq!(h.up(), Some(s("three")));
}

#[test]
fn the_console_starts_with_welcome_and_prompt() {
    assert_eq!(Console::new().start(), "");
    assert_eq!(Console::new().prompt(s("> ")).start(), "> ");
    assert_eq!(
        Console::new().welcome_message(s("Welcome")).prompt(s("-> ")).start(),
        "Welcome\n-> "
    );
    assert_eq!(Console::new().welcome_message(s("Hi")).start(), "Hi\n");
}

#[test]
fn commands_are_found_by_name() {
    let console = hub_console();
    assert_eq!(console.find_command(&s("clear")), Some(0));
    assert_eq!(console.find_command(&s("RELAY")), Some(1));
    assert_eq!(console.find_command(&s("help")), None);
    let strict = hub_console().case_sensitive(true);
    assert_eq!(strict.find_command(&s("relay")), Some(1));
    assert_eq!(strict.find_command(&s("Relay")), None);
    let twice = Console::new().command(s("a")).command(s("A"));
    assert_eq!(twice.find_command(&s("A")), Some(0));
    assert_eq!(twice.case_sensitive(true).find_command(&s("A")), Some(1));
}

#[test]
fn typing_echoes_and_builds_the_line() {
    let mut console = hub_console();
    let reactions = type_text(&mut console, "re");
    assert_eq!(reactions[0].output, "r");
    assert_eq!(reactions[0].key, Some(Key::R));
    assert_eq!(reactions[1].key, Some(Key::E));
    assert_eq!(console.current_line(), "re");
    let digit = console.step(Input::Byte(b'1'));
    assert_eq!(digit.output, "1");
    assert_eq!(digit.key, None);
    let space = console.step(Input::Byte(b' '));
    assert_eq!(space.key, Some(Key::Space));
    assert_eq!(console.current_line(), "re1 ");
    let latin = console.step(Input::Byte(0xe9));
    assert_eq!(latin.output, "é");
    assert_eq!(console.current_line(), "re1 é");
    assert!(matches!(latin.dispatch, Dispatch::Nothing));
    assert_eq!(latin.epilogue, "");
}

#[test]
fn backspace_wipes_the_last_character() {
    let mut console = hub_console();
    type_text(&mut console, "ab");
    let r = console.step(Input::Byte(0x7f));
    assert_eq!(r.output, "\x1b[1D \x1b[1D");
    assert_eq!(r.key, Some(Key::Backspace));
    assert_eq!(console.current_line(), "a");
    console.step(Input::Byte(0x7f));
    let r = console.step(Input::Byte(0x7f));
    assert_eq!(r.output, "");
    assert_eq!(r.key, Some(Key::Backspace));
    assert_eq!(console.current_line(), "");
}

#[test]
fn enter_runs_the_command() {
    let mut console = hub_console();
    type_text(&mut console, "Relay add 127.0.0.1:9000");
    let r = console.step(Input::Byte(b'\n'));
    assert_eq!(r.output, "\n");
    assert_eq!(r.key, Some(Key::Enter));
    match r.dispatch {
        Dispatch::Run(index, args) => {
            assert_eq!(index, 1);
            assert_eq!(args, vec![s("add"), s("127.0.0.1:9000")]);
        }
        _ => panic!("relay is a command"),
    }
    assert_eq!(r.epilogue, "> ");
    assert_eq!(console.current_line(), "");
    let again = console.step(Input::Byte(b'\n'));
    assert!(matches!(again.dispatch, Dispatch::Nothing));
    assert_eq!(again.epilogue, "> ");
}

#[test]
fn enter_on_an_unknown_command() {
    let mut console = hub_console();
    type_text(&mut console, "nope x");
    let r = console.step(Input::Byte(b'\n'));
    assert!(matches!(r.dispatch, Dispatch::Nothing));
    assert_eq!(r.epilogue, "> ");
    assert_eq!(console.current_line(), "");
    let mut with_fallback = hub_console().default_command();
    type_text(&mut with_fallback, "nope x");
    match with_fallback.step(Input::Byte(b'\n')).dispatch {
        Dispatch::Fallback(parts) => assert_eq!(parts, vec![s("nope"), s("x")]),
        _ => panic!("the fallback takes what no command takes"),
    }
}

#[test]
fn enter_on_blanks_keeps_the_line() {
    let mut console = hub_console();
    type_text(&mut console, "  ");
    let r = console.step(Input::Byte(b'\n'));
    assert_eq!(r.output, "\n");
    assert!(matches!(r.dispatch, Dispatch::Nothing));
    assert_eq!(r.epilogue, "");
    assert_eq!(console.current_line(), "  ");
}

#[test]
fn arrows_walk_the_history() {
    let mut console = hub_console();
    type_text(&mut console, "relay list\n");
    type_text(&mut console, "clear\n");
    type_text(&mut console, "dra");
    assert!(!console.awaits_escape());
    assert_eq!(console.step(Input::Byte(0x1b)).output, "");
    assert!(console.awaits_escape());
    console.step(Input::Byte(0x5b));
    let up = console.step(Input::Byte(0x41));
    assert!(!console.awaits_escape());
    assert_eq!(up.key, Some(Key::ArrowUp));
    assert_eq!(up.output, "\x1b[2K\x1b[0G> clear");
    assert_eq!(console.current_line(), "clear");
    type_text(&mut console, "\x1b[A");
    assert_eq!(console.current_line(), "relay list");
    let top = type_text(&mut console, "\x1b[A");
    assert_eq!(top[2].output, "");
    assert_eq!(top[2].key, Some(Key::ArrowUp));
    assert_eq!(console.current_line(), "relay list");
    let down = type_text(&mut console, "\x1b[B");
    assert_eq!(down[2].output, "\x1b[2K\x1b[0G> clear");
    let bottom = type_text(&mut console, "\x1b[B");
    assert_eq!(bottom[2].output, "\x1b[2K\x1b[0G> ");
    assert_eq!(bottom[2].key, Some(Key::ArrowDown));
    assert_eq!(console.current_line(), "");
    let left = type_text(&mut console, "\x1b[D");
    assert_eq!(left[2].key, Some(Key::ArrowLeft));
    assert_eq!(left[2].output, "");
    let right = type_text(&mut console, "\x1b[C");
    assert_eq!(right[2].key, Some(Key::ArrowRight));
}

#[test]
fn broken_escape_sequences_have_no_effect() {
    let mut console = hub_console();
    type_text(&mut console, "ab");
    console.step(Input::Byte(0x1b));
    let r = console.step(Input::Timeout);
    assert_eq!(r.output, "");
    assert_eq!(r.key, None);
    assert!(!console.awaits_escape());
    console.step(Input::Byte(0x1b));
    console.step(Input::Byte(b'x'));
    assert!(!console.awaits_escape());
    assert_eq!(console.current_line(), "ab");
    type_text(&mut console, "\x1b[");
    console.step(Input::Timeout);
    assert!(!console.awaits_escape());
    let unknown = type_text(&mut console, "\x1b[Z");
    assert_eq!(unknown[2].key, None);
    assert_eq!(console.current_line(), "ab");
    assert_eq!(console.step(Input::Timeout).output, "");
}

#[test]
fn lines_for_a_console_that_reads_line_by_line() {
    let console = hub_console();
    match console.on_line(&s("  relay list \n")) {
        (Dispatch::Run(1, args), None) => assert_eq!(args, vec![s("list")]),
        _ => panic!("relay is a command"),
    }
    match console.on_line(&s("frobnicate now")) {
        (Dispatch::Nothing, Some(message)) => assert_eq!(message, "Unknown command: 'frobnicate'"),
        _ => panic!("frobnicate is no command"),
    }
    assert!(matches!(console.on_line(&s("   ")), (Dispatch::Nothing, None)));
    assert!(matches!(console.on_line(&s("")), (Dispatch::Nothing, None)));
}

//! The console's line editor: what the console does with each byte the
//! operator types.
//!
//! The editor reads nothing and writes nothing. The loop around it reads a
//! byte, or gives up waiting for one, hands that to [`Console::step`], and
//! carries out the [`Reaction`]: it writes the output, tells the key handler
//! about the key, runs the command, and writes the epilogue.

use crate::console::key::{key_of_byte, key_of_bytes, is_key_byte, Key};
use crate::console::ops::{Backspace, ClearLine, MoveToColumn, Op};
use crate::text::{
    eq_ignore_ascii_case, fields_of, same_ignoring_ascii_case, texts, words, Separator,
};
use vstd::prelude::*;
use vstd::utf8::encode_utf8;

verus! {

/// `String::push`: appends one character.
#[verifier::external_body]
fn push_char(text: &mut String, c: char)
    ensures
        final(text)@ == old(text)@.push(c),
{
    text.push(c)
}

/// `String::pop`: takes the last character off and hands it back; an empty
/// string stays empty and gives nothing.
#[verifier::external_body]
fn pop_char(text: &mut String) -> (c: Option<char>)
    ensures
        c is Some <==> old(text)@.len() > 0,
        c is Some ==> c->0 == old(text)@.last() && final(text)@ == old(text)@.drop_last(),
        c is None ==> final(text)@ == old(text)@,
{
    text.pop()
}

/// The lines the operator has entered, and the place the arrow keys have
/// moved to among them. The place just behind the last line stands for the
/// line being typed.
pub struct History {
    items: Vec<String>,
    index: usize,
}

impl History {
    /// The lines, oldest first.
    pub closed spec fn items(&self) -> Seq<Seq<char>> {
        texts(self.items@)
    }

    /// The place among the lines.
    pub closed spec fn cursor(&self) -> nat {
        self.index as nat
    }

    /// The place is among the lines or just behind them.
    pub open spec fn wf(&self) -> bool {
        self.cursor() <= self.items().len()
    }

    /// An empty history.
    pub fn new() -> (h: Self)
        ensures
            h.wf(),
            h.items().len() == 0,
            h.cursor() == 0,
    {
        History { items: Vec::new(), index: 0 }
    }

    /// The number of lines.
    pub fn len(&self) -> (n: usize)
        ensures
            n == self.items().len(),
    {
        self.items.len()
    }

    /// Adds a line and moves behind it.
    pub fn record(&mut self, line: String)
        ensures
            final(self).wf(),
            final(self).items() == old(self).items().push(line@),
            final(self).cursor() == final(self).items().len(),
    {
        self.items.push(line);
        self.index = self.items.len();
        assert(self.items() =~= old(self).items().push(line@));
    }

    /// Moves one line back and gives that line, or stays at the oldest line
    /// and gives nothing.
    pub fn up(&mut self) -> (line: Option<String>)
        requires
            old(self).wf(),
        ensures
            final(self).wf(),
            final(self).items() == old(self).items(),
            final(self).cursor() == history_up(old(self).cursor()),
            line is Some <==> old(self).cursor() > 0,
            line is Some ==> line->0@ == old(self).items()[old(self).cursor() - 1],
    {
        if self.index > 0 {
            self.index = self.index - 1;
            Some(self.items[self.index].clone())
        } else {
            None
        }
    }

    /// Moves one line forward and gives that line, or moves behind the last
    /// line and gives nothing.
    pub fn down(&mut self) -> (line: Option<String>)
        requires
            old(self).wf(),
        ensures
            final(self).wf(),
            final(self).items() == old(self).items(),
            final(self).cursor() == history_down(old(self).cursor(), old(self).items().len()),
            line is Some <==> old(self).cursor() + 1 < old(self).items().len(),
            line is Some ==> line->0@ == old(self).items()[old(self).cursor() as int + 1],
    {
        if self.items.len() - self.index > 1 {
            self.index = self.index + 1;
            Some(self.items[self.index].clone())
        } else {
            self.index = self.items.len();
            None
        }
    }
}

/// The place in a history after the up arrow.
pub open spec fn history_up(cursor: nat) -> nat {
    if cursor > 0 {
        (cursor - 1) as nat
    } else {
        cursor
    }
}

/// The place in a history of `len` lines after the down arrow.
pub open spec fn history_down(cursor: nat, len: nat) -> nat {
    if cursor + 1 < len {
        cursor + 1
    } else {
        len
    }
}

/// How a console behaves.
pub struct Options {
    /// The character that ends the console.
    pub exit_signal: char,
    /// What is printed before each line the operator types.
    pub prompt: Option<String>,
    /// What is printed once, when the console starts.
    pub welcome_message: Option<String>,
    /// Whether command names are matched letter for letter. If not, the
    /// case of ASCII letters does not count.
    pub case_sensitive: bool,
}

impl Default for Options {
    /// Control-C ends the console, nothing is printed unasked, and the case
    /// of command names does not count.
    fn default() -> (o: Self)
        ensures
            o.exit_signal == '\x03',
            o.prompt is None,
            o.welcome_message is None,
            !o.case_sensitive,
    {
        Options { exit_signal: '\x03', prompt: None, welcome_message: None, case_sensitive: false }
    }
}

/// Where the editor stands in an escape sequence.
#[derive(Clone, Copy, Debug, PartialEq, Eq, Structural)]
pub enum Mode {
    /// Outside any escape sequence.
    Normal,
    /// The escape byte was read.
    Escaped,
    /// The escape byte and the bracket were read.
    Bracketed,
}

/// What the loop around the editor reports.
#[derive(Clone, Copy, Debug, PartialEq, Eq, Structural)]
pub enum Input {
    /// A byte was read.
    Byte(u8),
    /// No byte came in time while an escape sequence was under way.
    Timeout,
}

/// What a line asks the console to run.
pub enum Dispatch {
    /// Nothing.
    Nothing,
    /// The command at this place among the registered ones, with these
    /// arguments.
    Run(usize, Vec<String>),
    /// The fallback command, with the whole line in words.
    Fallback(Vec<String>),
}

/// What the loop around the editor has to do, in this order: write the
/// output, tell the key handler about the key, run what is dispatched, write
/// the epilogue.
pub struct Reaction {
    pub output: String,
    pub key: Option<Key>,
    pub dispatch: Dispatch,
    pub epilogue: String,
}

/// A dispatch as a mathematical value.
pub enum DispatchModel {
    Nothing,
    Run(int, Seq<Seq<char>>),
    Fallback(Seq<Seq<char>>),
}

/// A reaction as a mathematical value.
pub struct ReactionModel {
    pub output: Seq<char>,
    pub key: Option<Key>,
    pub dispatch: DispatchModel,
    pub epilogue: Seq<char>,
}

impl View for Dispatch {
    type V = DispatchModel;

    open spec fn view(&self) -> DispatchModel {
        match self {
            Dispatch::Nothing => DispatchModel::Nothing,
            Dispatch::Run(i, args) => DispatchModel::Run(*i as int, texts(args@)),
            Dispatch::Fallback(parts) => DispatchModel::Fallback(texts(parts@)),
        }
    }
}

impl View for Reaction {
    type V = ReactionModel;

    open spec fn view(&self) -> ReactionModel {
        ReactionModel {
            output: self.output@,
            key: self.key,
            dispatch: self.dispatch@,
            epilogue: self.epilogue@,
        }
    }
}

/// A console as a mathematical value.
pub struct ConsoleModel {
    pub commands: Seq<Seq<char>>,
    pub has_fallback: bool,
    pub case_sensitive: bool,
    pub prompt: Option<Seq<char>>,
    pub welcome_message: Option<Seq<char>>,
    pub exit_signal: char,
    pub line: Seq<char>,
    pub history: Seq<Seq<char>>,
    pub cursor: nat,
    pub mode: Mode,
}

/// A command called `command` answers to `name`.
pub open spec fn names_match(command: Seq<char>, name: Seq<char>, case_sensitive: bool) -> bool {
    if case_sensitive {
        command == name
    } else {
        same_ignoring_ascii_case(encode_utf8(command), encode_utf8(name))
    }
}

/// The place of the first command from place `from` on that answers to
/// `name`.
pub open spec fn first_match(commands: Seq<Seq<char>>, name: Seq<char>, case_sensitive: bool, from: int) -> Option<
    int,
>
    decreases commands.len() - from,
{
    if from < 0 || from >= commands.len() {
        None
    } else if names_match(commands[from], name, case_sensitive) {
        Some(from)
    } else {
        first_match(commands, name, case_sensitive, from + 1)
    }
}

/// The prompt, or nothing if there is none.
pub open spec fn prompt_text(prompt: Option<Seq<char>>) -> Seq<char> {
    match prompt {
        Some(p) => p,
        None => Seq::empty(),
    }
}

/// What is written to show `line` afresh: the line on screen is wiped, the
/// cursor goes to the first column, then come the prompt and the line.
pub open spec fn redrawn(prompt: Option<Seq<char>>, line: Seq<char>) -> Seq<char> {
    "\x1b[2K"@ + crate::console::ops::cursor_move(0, "G"@) + prompt_text(prompt) + line
}

/// What a line dispatches: nothing if it has no words; else the first
/// command that answers to its first word, with the other words as
/// arguments; else the fallback, if there is one, with all words.
pub open spec fn dispatch_of(m: ConsoleModel, line: Seq<char>) -> DispatchModel {
    let parts = fields_of(line, Separator::Whitespace);
    if parts.len() == 0 {
        DispatchModel::Nothing
    } else {
        match first_match(m.commands, parts[0], m.case_sensitive, 0) {
            Some(i) => DispatchModel::Run(i, parts.skip(1)),
            None => if m.has_fallback {
                DispatchModel::Fallback(parts)
            } else {
                DispatchModel::Nothing
            },
        }
    }
}

/// A reaction that does nothing.
pub open spec fn quiet() -> ReactionModel {
    ReactionModel {
        output: Seq::empty(),
        key: None,
        dispatch: DispatchModel::Nothing,
        epilogue: Seq::empty(),
    }
}

/// What the enter key does to a console, and the reaction it gives.
pub open spec fn enter_model(m: ConsoleModel) -> (ConsoleModel, ReactionModel) {
    let parts = fields_of(m.line, Separator::Whitespace);
    if m.line.len() == 0 {
        (
            m,
            ReactionModel {
                output: "\n"@,
                key: Some(Key::Enter),
                dispatch: DispatchModel::Nothing,
                epilogue: prompt_text(m.prompt),
            },
        )
    } else if parts.len() == 0 {
        (
            m,
            ReactionModel {
                output: "\n"@,
                key: Some(Key::Enter),
                dispatch: DispatchModel::Nothing,
                epilogue: Seq::empty(),
            },
        )
    } else {
        (
            ConsoleModel {
                line: Seq::empty(),
                history: m.history.push(m.line),
                cursor: m.history.len() + 1,
                ..m
            },
            ReactionModel {
                output: "\n"@,
                key: Some(Key::Enter),
                dispatch: dispatch_of(m, m.line),
                epilogue: prompt_text(m.prompt),
            },
        )
    }
}

/// What a key that came as an escape sequence does to a console.
pub open spec fn arrow_model(m: ConsoleModel, key: Key) -> (ConsoleModel, ReactionModel) {
    let m = ConsoleModel { mode: Mode::Normal, ..m };
    match key {
        Key::ArrowUp => if m.cursor > 0 {
            let line = m.history[m.cursor - 1];
            (
                ConsoleModel { line, cursor: (m.cursor - 1) as nat, ..m },
                ReactionModel { output: redrawn(m.prompt, line), key: Some(key), ..quiet() },
            )
        } else {
            (m, ReactionModel { key: Some(key), ..quiet() })
        },
        Key::ArrowDown => if m.cursor + 1 < m.history.len() {
            let line = m.history[m.cursor as int + 1];
            (
                ConsoleModel { line, cursor: m.cursor + 1, ..m },
                ReactionModel { output: redrawn(m.prompt, line), key: Some(key), ..quiet() },
            )
        } else {
            (
                ConsoleModel { line: Seq::empty(), cursor: m.history.len(), ..m },
                ReactionModel {
                    output: redrawn(m.prompt, Seq::empty()),
                    key: Some(key),
                    ..quiet()
                },
            )
        },
        _ => (m, ReactionModel { key: Some(key), ..quiet() }),
    }
}

/// What an input does to a console, and the reaction it gives.
pub open spec fn step_model(m: ConsoleModel, input: Input) -> (ConsoleModel, ReactionModel) {
    match (m.mode, input) {
        (Mode::Normal, Input::Timeout) => (m, quiet()),
        (Mode::Normal, Input::Byte(byte)) => {
            if byte == 0x1b {
                (ConsoleModel { mode: Mode::Escaped, ..m }, quiet())
            } else if byte == 0x7f {
                if m.line.len() > 0 {
                    (
                        ConsoleModel { line: m.line.drop_last(), ..m },
                        ReactionModel {
                            output: (Backspace(1)).rendering(),
                            key: Some(Key::Backspace),
                            ..quiet()
                        },
                    )
                } else {
                    (m, ReactionModel { key: Some(Key::Backspace), ..quiet() })
                }
            } else if byte == 0x0a {
                enter_model(m)
            } else {
                (
                    ConsoleModel { line: m.line.push(byte as char), ..m },
                    ReactionModel {
                        output: seq![byte as char],
                        key: if is_key_byte(byte) {
                            Some(key_of_byte(byte))
                        } else {
                            None
                        },
                        ..quiet()
                    },
                )
            }
        },
        (Mode::Escaped, Input::Byte(byte)) => if byte == 0x5b {
            (ConsoleModel { mode: Mode::Bracketed, ..m }, quiet())
        } else {
            (ConsoleModel { mode: Mode::Normal, ..m }, quiet())
        },
        (Mode::Escaped, Input::Timeout) => (ConsoleModel { mode: Mode::Normal, ..m }, quiet()),
        (Mode::Bracketed, Input::Timeout) => (ConsoleModel { mode: Mode::Normal, ..m }, quiet()),
        (Mode::Bracketed, Input::Byte(byte)) => match key_of_bytes(seq![0x1bu8, 0x5bu8, byte]) {
            Some(key) => arrow_model(m, key),
            None => (ConsoleModel { mode: Mode::Normal, ..m }, quiet()),
        },
    }
}

/// The console: the names of its commands, its options, the line being
/// typed and the history of lines.
pub struct Console {
    commands: Vec<String>,
    has_fallback: bool,
    options: Options,
    history: History,
    line: String,
    mode: Mode,
}

impl View for Console {
    type V = ConsoleModel;

    closed spec fn view(&self) -> ConsoleModel {
        ConsoleModel {
            commands: texts(self.commands@),
            has_fallback: self.has_fallback,
            case_sensitive: self.options.case_sensitive,
            prompt: match self.options.prompt {
                Some(p) => Some(p@),
                None => None,
            },
            welcome_message: match self.options.welcome_message {
                Some(w) => Some(w@),
                None => None,
            },
            exit_signal: self.options.exit_signal,
            line: self.line@,
            history: self.history.items(),
            cursor: self.history.cursor(),
            mode: self.mode,
        }
    }
}

fn copy_from(parts: &Vec<String>, from: usize) -> (out: Vec<String>)
    requires
        from <= parts@.len(),
    ensures
        texts(out@) == texts(parts@).skip(from as int),
{
    let mut out: Vec<String> = Vec::new();
    let mut i: usize = from;
    while i < parts.len()
        invariant
            from <= i <= parts.len(),
            texts(out@) == texts(parts@).subrange(from as int, i as int),
        decreases parts.len() - i,
    {
        let ghost done = texts(out@);
        out.push(parts[i].clone());
        i += 1;
        assert(texts(out@) =~= done.push(parts@[i - 1]@));
        assert(texts(parts@)[i - 1] == parts@[i - 1]@);
        assert(done.push(parts@[i - 1]@) =~= texts(parts@).subrange(from as int, i as int));
    }
    assert(texts(parts@).subrange(from as int, i as int) =~= texts(parts@).skip(from as int));
    out
}

impl Console {
    /// The place in the history is among its lines or just behind them.
    pub open spec fn wf(&self) -> bool {
        self@.cursor <= self@.history.len()
    }

    /// A console without commands, with the default options.
    pub fn new() -> (c: Self)
        ensures
            c.wf(),
            c@.commands.len() == 0,
            !c@.has_fallback,
            !c@.case_sensitive,
            c@.prompt is None,
            c@.welcome_message is None,
            c@.exit_signal == '\x03',
            c@.line.len() == 0,
            c@.history.len() == 0,
            c@.mode == Mode::Normal,
    {
        Console {
            commands: Vec::new(),
            has_fallback: false,
            options: Options::default(),
            history: History::new(),
            line: String::new(),
            mode: Mode::Normal,
        }
    }

    /// Sets what is printed before each line the operator types.
    pub fn prompt(self, prompt: String) -> (c: Self)
        ensures
            c@ == (ConsoleModel { prompt: Some(prompt@), ..self@ }),
    {
        let mut c = self;
        c.options.prompt = Some(prompt);
        c
    }

    /// Sets what is printed once, when the console starts.
    pub fn welcome_message(self, message: String) -> (c: Self)
        ensures
            c@ == (ConsoleModel { welcome_message: Some(message@), ..self@ }),
    {
        let mut c = self;
        c.options.welcome_message = Some(message);
        c
    }

    /// Sets whether command names are matched letter for letter.
    pub fn case_sensitive(self, case_sensitive: bool) -> (c: Self)
        ensures
            c@ == (ConsoleModel { case_sensitive, ..self@ }),
    {
        let mut c = self;
        c.options.case_sensitive = case_sensitive;
        c
    }

    /// Sets the character that ends the console.
    pub fn exit_signal(self, signal: char) -> (c: Self)
        ensures
            c@ == (ConsoleModel { exit_signal: signal, ..self@ }),
    {
        let mut c = self;
        c.options.exit_signal = signal;
        c
    }

    /// Adds a command by its name. Commands are numbered in the order they
    /// are added.
    pub fn command(self, name: String) -> (c: Self)
        ensures
            c@ == (ConsoleModel { commands: self@.commands.push(name@), ..self@ }),
    {
        let mut c = self;
        c.commands.push(name);
        assert(texts(c.commands@) =~= self@.commands.push(name@));
        c
    }

    /// Says that there is a fallback command for lines that name no
    /// command.
    pub fn default_command(self) -> (c: Self)
        ensures
            c@ == (ConsoleModel { has_fallback: true, ..self@ }),
    {
        let mut c = self;
        c.has_fallback = true;
        c
    }

    /// The character that ends the console.
    pub fn exit_character(&self) -> (c: char)
        ensures
            c == self@.exit_signal,
    {
        self.options.exit_signal
    }

    /// Whether the loop around the editor should give up waiting for the
    /// next byte after a short while: it should inside an escape sequence.
    pub fn awaits_escape(&self) -> (b: bool)
        ensures
            b == (self@.mode != Mode::Normal),
    {
        match self.mode {
            Mode::Normal => false,
            _ => true,
        }
    }

    /// The line as typed so far.
    pub fn current_line(&self) -> (line: String)
        ensures
            line@ == self@.line,
    {
        self.line.clone()
    }

    /// The place of the first command that answers to `name`.
    pub fn find_command(&self, name: &String) -> (found: Option<usize>)
        ensures
            found is Some <==> first_match(self@.commands, name@, self@.case_sensitive, 0) is Some,
            found is Some ==> found->0 as int == first_match(
                self@.commands,
                name@,
                self@.case_sensitive,
                0,
            )->0,
    {
        let mut i: usize = 0;
        while i < self.commands.len()
            invariant
                i <= self.commands.len(),
                first_match(self@.commands, name@, self@.case_sensitive, 0) == first_match(
                    self@.commands,
                    name@,
                    self@.case_sensitive,
                    i as int,
                ),
            decreases self.commands.len() - i,
        {
            let same = if self.options.case_sensitive {
                self.commands[i] == *name
            } else {
                eq_ignore_ascii_case(self.commands[i].as_str(), name.as_str())
            };
            if same {
                return Some(i);
            }
            i += 1;
        }
        None
    }

    /// What is written when the console starts: the welcome message on a
    /// line of its own, then the prompt.
    pub fn start(&self) -> (text: String)
        ensures
            text@ == (match self@.welcome_message {
                Some(w) => w + "\n"@,
                None => Seq::empty(),
            }) + prompt_text(self@.prompt),
    {
        let mut text = String::new();
        match &self.options.welcome_message {
            Some(w) => {
                text.append(w.as_str());
                text.append("\n");
            },
            None => {},
        }
        match &self.options.prompt {
            Some(p) => {
                text.append(p.as_str());
            },
            None => {},
        }
        assert(text@ =~= (match self@.welcome_message {
            Some(w) => w + "\n"@,
            None => Seq::empty(),
        }) + prompt_text(self@.prompt));
        text
    }

    fn prompt_copy(&self) -> (text: String)
        ensures
            text@ == prompt_text(self@.prompt),
    {
        match &self.options.prompt {
            Some(p) => p.clone(),
            None => String::new(),
        }
    }

    fn redraw(&self) -> (text: String)
        ensures
            text@ == redrawn(self@.prompt, self@.line),
    {
        let mut text = ClearLine.ansi();
        let column = MoveToColumn(0).ansi();
        text.append(column.as_str());
        let prompt = self.prompt_copy();
        text.append(prompt.as_str());
        text.append(self.line.as_str());
        text
    }

    fn dispatch(&self, line: &String) -> (d: Dispatch)
        ensures
            d@ == dispatch_of(self@, line@),
    {
        let parts = words(line.as_str());
        if parts.len() == 0 {
            return Dispatch::Nothing;
        }
        match self.find_command(&parts[0]) {
            Some(i) => Dispatch::Run(i, copy_from(&parts, 1)),
            None => {
                if self.has_fallback {
                    Dispatch::Fallback(parts)
                } else {
                    Dispatch::Nothing
                }
            },
        }
    }

    /// Takes a whole line, for a console that reads line by line: what the
    /// line dispatches, and the line to print when its first word names no
    /// command and there is no fallback.
    pub fn on_line(&self, line: &String) -> (r: (Dispatch, Option<String>))
        ensures
            r.0@ == dispatch_of(self@, line@),
            r.1 is Some <==> fields_of(line@, Separator::Whitespace).len() > 0 && r.0 is Nothing,
            r.1 is Some ==> r.1->0@ == "Unknown command: '"@ + fields_of(
                line@,
                Separator::Whitespace,
            )[0] + "'"@,
    {
        let parts = words(line.as_str());
        let dispatch = self.dispatch(line);
        if parts.len() == 0 {
            return (dispatch, None);
        }
        match dispatch {
            Dispatch::Nothing => {
                let message = crate::text::join3("Unknown command: '", parts[0].as_str(), "'");
                (Dispatch::Nothing, Some(message))
            },
            other => (other, None),
        }
    }

    fn enter(&mut self) -> (r: Reaction)
        requires
            old(self).wf(),
            old(self)@.mode == Mode::Normal,
        ensures
            final(self).wf(),
            final(self)@ == enter_model(old(self)@).0,
            r@ == enter_model(old(self)@).1,
    {
        let output = String::from_str("\n");
        if self.line.as_str().unicode_len() == 0 {
            return Reaction {
                output,
                key: Some(Key::Enter),
                dispatch: Dispatch::Nothing,
                epilogue: self.prompt_copy(),
            };
        }
        let dispatch = self.dispatch(&self.line);
        let parts = words(self.line.as_str());
        if parts.len() == 0 {
            return Reaction {
                output,
                key: Some(Key::Enter),
                dispatch: Dispatch::Nothing,
                epilogue: String::new(),
            };
        }
        let epilogue = self.prompt_copy();
        self.history.record(self.line.clone());
        self.line = String::new();
        Reaction { output, key: Some(Key::Enter), dispatch, epilogue }
    }

    fn arrow(&mut self, key: Key) -> (r: Reaction)
        requires
            old(self).wf(),
        ensures
            final(self).wf(),
            final(self)@ == arrow_model(old(self)@, key).0,
            r@ == arrow_model(old(self)@, key).1,
    {
        self.mode = Mode::Normal;
        let mut output = String::new();
        match key {
            Key::ArrowUp => {
                match self.history.up() {
                    Some(line) => {
                        self.line = line;
                        output = self.redraw();
                    },
                    None => {},
                }
            },
            Key::ArrowDown => {
                match self.history.down() {
                    Some(line) => {
                        self.line = line;
                    },
                    None => {
                        self.line = String::new();
                    },
                }
                output = self.redraw();
            },
            _ => {},
        }
        Reaction { output, key: Some(key), dispatch: Dispatch::Nothing, epilogue: String::new() }
    }

    /// Takes the next input and says what to do.
    ///
    /// Outside an escape sequence a byte is typed text, except for the
    /// escape byte, which opens a sequence, the delete byte, which wipes the
    /// last character, and the line feed, which enters the line: the line
    /// goes to the history and its first word picks the command to run.
    /// Inside a sequence the arrows walk the history, and a byte that fits
    /// no sequence, or no byte in time, ends the sequence without effect.
    pub fn step(&mut self, input: Input) -> (r: Reaction)
        requires
            old(self).wf(),
        ensures
            final(self).wf(),
            final(self)@ == step_model(old(self)@, input).0,
            r@ == step_model(old(self)@, input).1,
    {
        let nothing = Reaction {
            output: String::new(),
            key: None,
            dispatch: Dispatch::Nothing,
            epilogue: String::new(),
        };
        match (self.mode, input) {
            (Mode::Normal, Input::Timeout) => nothing,
            (Mode::Normal, Input::Byte(byte)) => {
                if byte == 0x1b {
                    self.mode = Mode::Escaped;
                    nothing
                } else if byte == 0x7f {
                    match pop_char(&mut self.line) {
                        Some(_) => Reaction {
                            output: Backspace(1).ansi(),
                            key: Some(Key::Backspace),
                            dispatch: Dispatch::Nothing,
                            epilogue: String::new(),
                        },
                        None => Reaction {
                            output: String::new(),
                            key: Some(Key::Backspace),
                            dispatch: Dispatch::Nothing,
                            epilogue: String::new(),
                        },
                    }
                } else if byte == 0x0a {
                    self.enter()
                } else {
                    let c = byte as char;
                    push_char(&mut self.line, c);
                    let mut output = String::new();
                    push_char(&mut output, c);
                    assert(output@ =~= seq![c]);
                    Reaction {
                        output,
                        key: Key::try_from_byte(byte),
                        dispatch: Dispatch::Nothing,
                        epilogue: String::new(),
                    }
                }
            },
            (Mode::Escaped, Input::Byte(byte)) => {
                if byte == 0x5b {
                    self.mode = Mode::Bracketed;
                } else {
                    self.mode = Mode::Normal;
                }
                nothing
            },
            (Mode::Escaped, Input::Timeout) => {
                self.mode = Mode::Normal;
                nothing
            },
            (Mode::Bracketed, Input::Timeout) => {
                self.mode = Mode::Normal;
                nothing
            },
            (Mode::Bracketed, Input::Byte(byte)) => {
                match Key::from_escape(byte) {
                    Some(key) => self.arrow(key),
                    None => {
                        self.mode = Mode::Normal;
                        nothing
                    },
                }
            },
        }
    }
}

} // verus!

//! The interactive prompt: what a typed line asks for, and the text the prompt shows.
use vstd::prelude::*;

use crate::json::{json_parse, parse_json, Json, JsonValue};
use crate::text::{
    eq_ignore_ascii_case, eq_ignore_ascii_case_chars, pad_right, parse_i32, parse_i32_spec,
    parse_usize, parse_usize_spec, push_padded_right, split_whitespace, split_whitespace_chars,
    str_eq, string_views, trim, trim_chars, decimal, is_white_space, decimal_is_word, is_word, join_words,
    parse_usize_reads_decimal, split_whitespace_of_joined_words, split_whitespace_of_three_words,
    split_whitespace_of_two_words, split_whitespace_of_word, signed_decimal,
    parse_i32_reads_decimal, ascii_lower,
};

verus! {

/// The interactive prompt.
pub struct InteractiveMode;

/// What a command typed at the prompt asks for.
pub enum ReplAction {
    /// Play, at a playlist index when one is given.
    Play(Option<usize>),
    /// Pause.
    Pause,
    /// Stop and quit mpv.
    Stop,
    /// Next playlist entry.
    Next,
    /// Previous playlist entry.
    Prev,
    /// Seek by the given number of seconds, relative to the current position.
    Seek(i32),
    /// Clear the playlist.
    Clear,
    /// List the playlist.
    List,
    /// Add these files to the playlist.
    Add(Vec<String>),
    /// Show a property.
    GetProperty(String),
    /// Set a property to the value typed: JSON if it reads as JSON, else a string.
    SetProperty(String, String),
    /// Only show these lines.
    Show(Vec<String>),
}

/// The model of a `ReplAction`.
pub enum Intent {
    /// Play, at a playlist index when one is given.
    Play(Option<usize>),
    /// Pause.
    Pause,
    /// Stop.
    Stop,
    /// Next entry.
    Next,
    /// Previous entry.
    Prev,
    /// Seek.
    Seek(i32),
    /// Clear.
    Clear,
    /// List.
    List,
    /// Add files.
    Add(Seq<Seq<char>>),
    /// Show a property.
    GetProperty(Seq<char>),
    /// Set a property.
    SetProperty(Seq<char>, Seq<char>),
    /// Show lines.
    Show(Seq<Seq<char>>),
}

impl View for ReplAction {
    type V = Intent;

    open spec fn view(&self) -> Intent {
        match self {
            ReplAction::Play(i) => Intent::Play(*i),
            ReplAction::Pause => Intent::Pause,
            ReplAction::Stop => Intent::Stop,
            ReplAction::Next => Intent::Next,
            ReplAction::Prev => Intent::Prev,
            ReplAction::Seek(s) => Intent::Seek(*s),
            ReplAction::Clear => Intent::Clear,
            ReplAction::List => Intent::List,
            ReplAction::Add(files) => Intent::Add(string_views(files@)),
            ReplAction::GetProperty(p) => Intent::GetProperty(p@),
            ReplAction::SetProperty(p, v) => Intent::SetProperty(p@, v@),
            ReplAction::Show(lines) => Intent::Show(string_views(lines@)),
        }
    }
}

/// The tokens of a command are exactly `word`.
pub open spec fn is_just(t: Seq<Seq<char>>, word: Seq<char>) -> bool {
    t.len() == 1 && t[0] == word
}

/// What the command `input` asks for: its whitespace-separated words are
/// matched against the prompt's commands.
pub open spec fn repl_intent(input: Seq<char>) -> Intent {
    let t = split_whitespace_chars(input);
    if is_just(t, "play"@) {
        Intent::Play(None)
    } else if t.len() == 2 && t[0] == "play"@ {
        match parse_usize_spec(t[1]) {
            Some(i) => Intent::Play(Some(i)),
            None => Intent::Show(seq!["Invalid index: "@ + t[1]]),
        }
    } else if is_just(t, "pause"@) {
        Intent::Pause
    } else if is_just(t, "stop"@) {
        Intent::Stop
    } else if is_just(t, "next"@) {
        Intent::Next
    } else if is_just(t, "prev"@) {
        Intent::Prev
    } else if t.len() == 2 && t[0] == "seek"@ {
        match parse_i32_spec(t[1]) {
            Some(s) => Intent::Seek(s),
            None => Intent::Show(seq!["Invalid seconds: "@ + t[1]]),
        }
    } else if is_just(t, "clear"@) {
        Intent::Clear
    } else if is_just(t, "list"@) {
        Intent::List
    } else if t.len() >= 1 && t[0] == "add"@ {
        if t.len() == 1 {
            Intent::Show(seq!["No files provided to add to the playlist"@])
        } else {
            Intent::Add(t.drop_first())
        }
    } else if t.len() == 2 && t[0] == "get"@ {
        Intent::GetProperty(t[1])
    } else if t.len() == 3 && t[0] == "set"@ {
        Intent::SetProperty(t[1], t[2])
    } else {
        Intent::Show(
            seq!["Unknown command: "@ + input, "Type 'help' for a list of available commands."@],
        )
    }
}

/// What a line read at the prompt asks for.
pub enum LineAction {
    /// Nothing: the line is blank.
    Blank,
    /// Leave the prompt; the trimmed line goes to the history.
    Exit(String),
    /// Show the help; the trimmed line goes to the history.
    Help(String),
    /// Run a command; the trimmed line goes to the history.
    Command(String, ReplAction),
}

/// What the line `line` asks for: it is trimmed; blank lines are skipped,
/// `exit` and `help` are recognised in any letter case, and the rest are commands.
pub open spec fn line_intent(line: Seq<char>, action: LineAction) -> bool {
    let t = trim_chars(line);
    if t.len() == 0 {
        action is Blank
    } else if eq_ignore_ascii_case_chars(t, "exit"@) {
        action matches LineAction::Exit(h) && h@ == t
    } else if eq_ignore_ascii_case_chars(t, "help"@) {
        action matches LineAction::Help(h) && h@ == t
    } else {
        action matches LineAction::Command(h, a) && h@ == t && a@ == repl_intent(t)
    }
}

/// What reading a line at the prompt gave.
pub enum PromptEvent {
    /// A line was read.
    Line(String),
    /// The user interrupted the read (Ctrl+C).
    Interrupted,
    /// The input ended (Ctrl+D).
    EndOfInput,
    /// Reading failed; this is the failure's description.
    Failed(String),
}

/// What the prompt does after a read.
pub enum PromptStep {
    /// Act on the line read.
    Handle(LineAction),
    /// Print this line and read the next one.
    Resume(String),
    /// Print this line and leave the prompt.
    Leave(String),
    /// Print this line as an error and leave the prompt.
    Abort(String),
}

/// One line of the help: the command left-aligned in 22 columns, then its description.
pub open spec fn help_line(command: Seq<char>, description: Seq<char>) -> Seq<char> {
    "  "@ + pad_right(command, 22) + " - "@ + description
}

/// The help the prompt shows.
pub open spec fn help_text() -> Seq<Seq<char>> {
    seq![
        "Available commands:"@,
        help_line("play [index]"@, "Play or unpause playback, optionally at the specified index"@),
        help_line("pause"@, "Pause playback"@),
        help_line("stop"@, "Stop playback and quit MPV"@),
        help_line("next"@, "Skip to the next item in the playlist"@),
        help_line("prev"@, "Skip to the previous item in the playlist"@),
        help_line("seek <seconds>"@, "Seek to the specified position"@),
        help_line("clear"@, "Clear the playlist"@),
        help_line("list"@, "List all items in the playlist"@),
        help_line("add <files...>"@, "Add files to the playlist"@),
        help_line("get <property>"@, "Get the specified property"@),
        help_line("set <property> <value>"@, "Set the specified property to a value"@),
        help_line("help"@, "Show this help message"@),
        help_line("exit"@, "Quit interactive mode"@),
        "\nKeyboard shortcuts:"@,
        "  Ctrl+C - Interrupt current command"@,
        "  Ctrl+L - Clear screen"@,
        "  Ctrl+D - Exit"@,
    ]
}

fn help_entry(command: &str, description: &str) -> (s: String)
    ensures
        s@ == help_line(command@, description@),
{
    let mut s = String::from_str("  ");
    push_padded_right(&mut s, command, 22);
    s.append(" - ");
    s.append(description);
    s
}

fn show_one(line: &str) -> (a: ReplAction)
    ensures
        a@ == Intent::Show(seq![line@]),
{
    let lines = vec![String::from_str(line)];
    assert(string_views(lines@) =~= seq![line@]);
    ReplAction::Show(lines)
}

fn show_prefixed(prefix: &str, rest: &str) -> (a: ReplAction)
    ensures
        a@ == Intent::Show(seq![prefix@ + rest@]),
{
    let mut s = String::from_str(prefix);
    s.append(rest);
    let lines = vec![s];
    assert(string_views(lines@) =~= seq![prefix@ + rest@]);
    ReplAction::Show(lines)
}

fn is_just_exec(t: &Vec<String>, word: &str) -> (r: bool)
    ensures
        r == is_just(string_views(t@), word@),
{
    t.len() == 1 && str_eq(t[0].as_str(), word)
}

fn head_is(t: &Vec<String>, n: usize, word: &str) -> (r: bool)
    requires
        n > 0,
    ensures
        r == (string_views(t@).len() == n && string_views(t@)[0] == word@),
{
    t.len() == n && str_eq(t[0].as_str(), word)
}

impl InteractiveMode {
    /// What the command `input` asks for.
    pub fn process_command(input: &str) -> (a: ReplAction)
        ensures
            a@ == repl_intent(input@),
    {
        let t = split_whitespace(input);
        let ghost tv = string_views(t@);
        assert(tv == split_whitespace_chars(input@));
        if is_just_exec(&t, "play") {
            ReplAction::Play(None)
        } else if head_is(&t, 2, "play") {
            match parse_usize(t[1].as_str()) {
                Some(i) => ReplAction::Play(Some(i)),
                None => show_prefixed("Invalid index: ", t[1].as_str()),
            }
        } else if is_just_exec(&t, "pause") {
            ReplAction::Pause
        } else if is_just_exec(&t, "stop") {
            ReplAction::Stop
        } else if is_just_exec(&t, "next") {
            ReplAction::Next
        } else if is_just_exec(&t, "prev") {
            ReplAction::Prev
        } else if head_is(&t, 2, "seek") {
            match parse_i32(t[1].as_str()) {
                Some(s) => ReplAction::Seek(s),
                None => show_prefixed("Invalid seconds: ", t[1].as_str()),
            }
        } else if is_just_exec(&t, "clear") {
            ReplAction::Clear
        } else if is_just_exec(&t, "list") {
            ReplAction::List
        } else if t.len() >= 1 && str_eq(t[0].as_str(), "add") {
            if t.len() == 1 {
                show_one("No files provided to add to the playlist")
            } else {
                let mut files = t;
                files.remove(0);
                assert(string_views(files@) =~= tv.drop_first());
                ReplAction::Add(files)
            }
        } else if head_is(&t, 2, "get") {
            ReplAction::GetProperty(t[1].clone())
        } else if head_is(&t, 3, "set") {
            ReplAction::SetProperty(t[1].clone(), t[2].clone())
        } else {
            let mut first = String::from_str("Unknown command: ");
            first.append(input);
            let lines = vec![
                first,
                String::from_str("Type 'help' for a list of available commands."),
            ];
            assert(string_views(lines@) =~= seq![
                "Unknown command: "@ + input@,
                "Type 'help' for a list of available commands."@,
            ]);
            ReplAction::Show(lines)
        }
    }

    /// What a line read at the prompt asks for.
    pub fn read_line(line: &str) -> (a: LineAction)
        ensures
            line_intent(line@, a),
    {
        let t = trim(line);
        if t.as_str().unicode_len() == 0 {
            LineAction::Blank
        } else if eq_ignore_ascii_case(t.as_str(), "exit") {
            LineAction::Exit(t)
        } else if eq_ignore_ascii_case(t.as_str(), "help") {
            LineAction::Help(t)
        } else {
            let a = Self::process_command(t.as_str());
            LineAction::Command(t, a)
        }
    }

    /// The line printed on leaving the prompt.
    pub fn farewell() -> (s: String)
        ensures
            s@ == "Exiting interactive mode."@,
    {
        String::from_str("Exiting interactive mode.")
    }

    /// What the prompt does after a read: a line is acted on as `read_line`
    /// decides; an interrupt is noted and the prompt goes on; the end of input
    /// leaves the prompt; a failed read is reported and leaves it.
    pub fn after_read(event: PromptEvent) -> (step: PromptStep)
        ensures
            match event {
                PromptEvent::Line(l) => step matches PromptStep::Handle(a) && line_intent(l@, a),
                PromptEvent::Interrupted => step matches PromptStep::Resume(m) && m@
                    == "(interrupted)"@,
                PromptEvent::EndOfInput => step matches PromptStep::Leave(m) && m@
                    == "Exiting interactive mode."@,
                PromptEvent::Failed(d) => step matches PromptStep::Abort(m) && m@ == "Error: "@
                    + d@,
            },
    {
        match event {
            PromptEvent::Line(l) => PromptStep::Handle(Self::read_line(l.as_str())),
            PromptEvent::Interrupted => PromptStep::Resume(String::from_str("(interrupted)")),
            PromptEvent::EndOfInput => PromptStep::Leave(Self::farewell()),
            PromptEvent::Failed(d) => {
                let mut m = String::from_str("Error: ");
                m.append(d.as_str());
                PromptStep::Abort(m)
            },
        }
    }

    /// The value a `set` command sends for the typed text `raw`: the text read
    /// as JSON when it is JSON, else the text as a JSON string.
    pub fn set_value_of(raw: &str) -> (v: JsonValue)
        ensures
            v@ == match json_parse(raw@) {
                Some(p) => p,
                None => Json::Str(raw@),
            },
    {
        match parse_json(raw) {
            Ok(p) => p,
            Err(_) => JsonValue::Str(String::from_str(raw)),
        }
    }

    /// The lines shown on entering the prompt.
    pub fn banner(socket_path: Option<&str>) -> (lines: Vec<String>)
        ensures
            string_views(lines@) == seq![
                "Entering interactive mode. Type 'help' for commands or 'exit' to quit."@,
                "Socket: "@ + match socket_path {
                    Some(p) => p@,
                    None => "/tmp/mpvsocket"@,
                },
            ],
    {
        let mut second = String::from_str("Socket: ");
        let path = crate::ipc::resolve_socket_path(socket_path);
        second.append(path.as_str());
        let lines = vec![
            String::from_str(
                "Entering interactive mode. Type 'help' for commands or 'exit' to quit.",
            ),
            second,
        ];
        assert(string_views(lines@) =~= seq![
            "Entering interactive mode. Type 'help' for commands or 'exit' to quit."@,
            "Socket: "@ + path@,
        ]);
        lines
    }

    /// The help the prompt shows, line by line.
    pub fn help_lines() -> (lines: Vec<String>)
        ensures
            string_views(lines@) == help_text(),
    {
        let lines = vec![
            String::from_str("Available commands:"),
            help_entry("play [index]", "Play or unpause playback, optionally at the specified index"),
            help_entry("pause", "Pause playback"),
            help_entry("stop", "Stop playback and quit MPV"),
            help_entry("next", "Skip to the next item in the playlist"),
            help_entry("prev", "Skip to the previous item in the playlist"),
            help_entry("seek <seconds>", "Seek to the specified position"),
            help_entry("clear", "Clear the playlist"),
            help_entry("list", "List all items in the playlist"),
            help_entry("add <files...>", "Add files to the playlist"),
            help_entry("get <property>", "Get the specified property"),
            help_entry("set <property> <value>", "Set the specified property to a value"),
            help_entry("help", "Show this help message"),
            help_entry("exit", "Quit interactive mode"),
            String::from_str("\nKeyboard shortcuts:"),
            String::from_str("  Ctrl+C - Interrupt current command"),
            String::from_str("  Ctrl+L - Clear screen"),
            String::from_str("  Ctrl+D - Exit"),
        ];
        assert(string_views(lines@) =~= help_text());
        lines
    }
}

/// Typing `add` followed by one or more file names, separated by spaces,
/// appends exactly those files, in the order typed; a single file is no
/// exception.
pub proof fn add_takes_every_file(files: Seq<Seq<char>>)
    requires
        files.len() > 0,
        forall|i: int| 0 <= i < files.len() ==> is_word(#[trigger] files[i]),
    ensures
        repl_intent(join_words(seq!["add"@] + files)) == Intent::Add(files),
{
    reveal_strlit("play");
    reveal_strlit("pause");
    reveal_strlit("stop");
    reveal_strlit("next");
    reveal_strlit("prev");
    reveal_strlit("seek");
    reveal_strlit("clear");
    reveal_strlit("list");
    reveal_strlit("add");
    reveal_strlit("get");
    reveal_strlit("set");
    let t = seq!["add"@] + files;
    assert(is_word("add"@)) by {
        assert forall|i: int| 0 <= i < 3 implies !is_white_space(#[trigger] "add"@[i]) by {}
    }
    assert forall|i: int| 0 <= i < t.len() implies is_word(#[trigger] t[i]) by {
        if i > 0 {
            assert(t[i] == files[i - 1]);
        }
    }
    split_whitespace_of_joined_words(t);
    assert(t[0] == "add"@);
    assert(t.drop_first() =~= files);
}

/// Typing `play` and a playlist index written in decimal plays from exactly
/// that index, whatever it is.
pub proof fn play_takes_any_index(n: usize)
    ensures
        repl_intent("play "@ + decimal(n as nat)) == Intent::Play(Some(n)),
{
    reveal_strlit("play");
    reveal_strlit("pause");
    reveal_strlit("stop");
    reveal_strlit("next");
    reveal_strlit("prev");
    reveal_strlit("seek");
    reveal_strlit("clear");
    reveal_strlit("list");
    reveal_strlit("add");
    reveal_strlit("get");
    reveal_strlit("set");
    reveal_strlit("play ");
    assert("play "@ =~= "play"@ + seq![' ']);
    decimal_is_word(n as nat);
    assert(is_word("play"@)) by {
        assert forall|i: int| 0 <= i < 4 implies !is_white_space(#[trigger] "play"@[i]) by {}
    }
    split_whitespace_of_two_words("play"@, decimal(n as nat));
    parse_usize_reads_decimal(n);
}

/// Typing `get` and a property name shows exactly that property.
pub proof fn get_takes_the_property(property: Seq<char>)
    requires
        is_word(property),
    ensures
        repl_intent("get "@ + property) == Intent::GetProperty(property),
{
    reveal_strlit("play");
    reveal_strlit("pause");
    reveal_strlit("stop");
    reveal_strlit("next");
    reveal_strlit("prev");
    reveal_strlit("seek");
    reveal_strlit("clear");
    reveal_strlit("list");
    reveal_strlit("add");
    reveal_strlit("get");
    reveal_strlit("set");
    reveal_strlit("get ");
    assert("get "@ =~= "get"@ + seq![' ']);
    assert(is_word("get"@)) by {
        assert forall|i: int| 0 <= i < 3 implies !is_white_space(#[trigger] "get"@[i]) by {}
    }
    split_whitespace_of_two_words("get"@, property);
    assert("get"@[0] != "add"@[0]);
}

/// Typing `set`, a property name and a value sets exactly that property to
/// that value as typed.
pub proof fn set_takes_property_and_value(property: Seq<char>, value: Seq<char>)
    requires
        is_word(property),
        is_word(value),
    ensures
        repl_intent("set "@ + property + " "@ + value) == Intent::SetProperty(property, value),
{
    reveal_strlit("play");
    reveal_strlit("pause");
    reveal_strlit("stop");
    reveal_strlit("next");
    reveal_strlit("prev");
    reveal_strlit("seek");
    reveal_strlit("clear");
    reveal_strlit("list");
    reveal_strlit("add");
    reveal_strlit("get");
    reveal_strlit("set");
    reveal_strlit("set ");
    reveal_strlit(" ");
    assert("set "@ =~= "set"@ + seq![' ']);
    assert(" "@ =~= seq![' ']);
    assert(is_word("set"@)) by {
        assert forall|i: int| 0 <= i < 3 implies !is_white_space(#[trigger] "set"@[i]) by {}
    }
    assert("set "@ + property + " "@ + value =~= "set"@ + seq![' '] + property + seq![' '] + value);
    split_whitespace_of_three_words("set"@, property, value);
    assert("set"@[0] != "add"@[0]);
    assert("set"@[0] != "get"@[0]);
}

/// Each one-word command asks for its own action: `play` plays where it is,
/// `pause`, `stop`, `next`, `prev`, `clear` and `list` do what they name, and
/// `add` without files only reports that files are needed.
pub proof fn one_word_commands()
    ensures
        repl_intent("play"@) == Intent::Play(None),
        repl_intent("pause"@) == Intent::Pause,
        repl_intent("stop"@) == Intent::Stop,
        repl_intent("next"@) == Intent::Next,
        repl_intent("prev"@) == Intent::Prev,
        repl_intent("clear"@) == Intent::Clear,
        repl_intent("list"@) == Intent::List,
        repl_intent("add"@) == Intent::Show(seq!["No files provided to add to the playlist"@]),
{
    reveal_strlit("play");
    reveal_strlit("pause");
    reveal_strlit("stop");
    reveal_strlit("next");
    reveal_strlit("prev");
    reveal_strlit("seek");
    reveal_strlit("clear");
    reveal_strlit("list");
    reveal_strlit("add");
    reveal_strlit("get");
    reveal_strlit("set");
    assert(is_word("play"@)) by {
        assert forall|i: int| 0 <= i < 4 implies !is_white_space(#[trigger] "play"@[i]) by {}
    }
    assert(is_word("pause"@)) by {
        assert forall|i: int| 0 <= i < 5 implies !is_white_space(#[trigger] "pause"@[i]) by {}
    }
    assert(is_word("stop"@)) by {
        assert forall|i: int| 0 <= i < 4 implies !is_white_space(#[trigger] "stop"@[i]) by {}
    }
    assert(is_word("next"@)) by {
        assert forall|i: int| 0 <= i < 4 implies !is_white_space(#[trigger] "next"@[i]) by {}
    }
    assert(is_word("prev"@)) by {
        assert forall|i: int| 0 <= i < 4 implies !is_white_space(#[trigger] "prev"@[i]) by {}
    }
    assert(is_word("clear"@)) by {
        assert forall|i: int| 0 <= i < 5 implies !is_white_space(#[trigger] "clear"@[i]) by {}
    }
    assert(is_word("list"@)) by {
        assert forall|i: int| 0 <= i < 4 implies !is_white_space(#[trigger] "list"@[i]) by {}
    }
    assert(is_word("add"@)) by {
        assert forall|i: int| 0 <= i < 3 implies !is_white_space(#[trigger] "add"@[i]) by {}
    }
    split_whitespace_of_word("play"@);
    split_whitespace_of_word("pause"@);
    split_whitespace_of_word("stop"@);
    split_whitespace_of_word("next"@);
    split_whitespace_of_word("prev"@);
    split_whitespace_of_word("clear"@);
    split_whitespace_of_word("list"@);
    split_whitespace_of_word("add"@);
    assert("pause"@ != "play"@);
    assert("stop"@[0] != "play"@[0] && "stop"@[0] != "pause"@[0]);
    assert("next"@[0] != "play"@[0] && "next"@[0] != "pause"@[0] && "next"@[0] != "stop"@[0]);
    assert("prev"@[1] != "play"@[1] && "prev"@ != "pause"@ && "prev"@[0] != "stop"@[0]
        && "prev"@[0] != "next"@[0]);
    assert("clear"@[0] != "play"@[0] && "clear"@[0] != "pause"@[0] && "clear"@[0] != "stop"@[0]
        && "clear"@[0] != "next"@[0] && "clear"@[0] != "prev"@[0]);
    assert("list"@[0] != "play"@[0] && "list"@[0] != "pause"@[0] && "list"@[0] != "stop"@[0]
        && "list"@[0] != "next"@[0] && "list"@[0] != "prev"@[0] && "list"@[0] != "clear"@[0]);
    assert("add"@[0] != "play"@[0] && "add"@[0] != "pause"@[0] && "add"@[0] != "stop"@[0]
        && "add"@[0] != "next"@[0] && "add"@[0] != "prev"@[0] && "add"@[0] != "clear"@[0]
        && "add"@[0] != "list"@[0]);
}

/// Typing `seek` and a whole number of seconds written in decimal seeks by
/// exactly that number, negative or not.
pub proof fn seek_takes_any_seconds(n: i32)
    ensures
        repl_intent("seek "@ + signed_decimal(n as int)) == Intent::Seek(n),
{
    reveal_strlit("play");
    reveal_strlit("seek");
    reveal_strlit("seek ");
    assert("seek "@ =~= "seek"@ + seq![' ']);
    assert(is_word("seek"@)) by {
        assert forall|i: int| 0 <= i < 4 implies !is_white_space(#[trigger] "seek"@[i]) by {}
    }
    parse_i32_reads_decimal(n);
    split_whitespace_of_two_words("seek"@, signed_decimal(n as int));
    assert("seek"@[0] != "play"@[0]);
}

/// Typing `play` and a word that is not a playlist index reports that word as
/// an invalid index, and plays nothing.
pub proof fn play_rejects_unreadable_index(w: Seq<char>)
    requires
        is_word(w),
        parse_usize_spec(w) is None,
    ensures
        repl_intent("play "@ + w) == Intent::Show(seq!["Invalid index: "@ + w]),
{
    reveal_strlit("play");
    reveal_strlit("play ");
    assert("play "@ =~= "play"@ + seq![' ']);
    assert(is_word("play"@)) by {
        assert forall|i: int| 0 <= i < 4 implies !is_white_space(#[trigger] "play"@[i]) by {}
    }
    split_whitespace_of_two_words("play"@, w);
}

/// A single word that names no command is reported as unknown, with the hint
/// to ask for help.
pub proof fn unknown_word_is_reported(w: Seq<char>)
    requires
        is_word(w),
        w != "play"@ && w != "pause"@ && w != "stop"@ && w != "next"@ && w != "prev"@ && w
            != "clear"@ && w != "list"@ && w != "add"@,
    ensures
        repl_intent(w) == Intent::Show(
            seq!["Unknown command: "@ + w, "Type 'help' for a list of available commands."@],
        ),
{
    split_whitespace_of_word(w);
}

/// A line whose trimmed text is `exit` in any letter case leaves the prompt,
/// one whose trimmed text is `help` in any letter case shows the help, and a
/// blank line does nothing; any other line is a command read from its
/// trimmed text.
pub proof fn lines_read_at_the_prompt(line: Seq<char>, action: LineAction)
    requires
        line_intent(line, action),
    ensures
        trim_chars(line).len() == 0 ==> action is Blank,
        trim_chars(line).len() > 0 && eq_ignore_ascii_case_chars(trim_chars(line), "exit"@)
            ==> action is Exit,
        trim_chars(line).len() > 0 && eq_ignore_ascii_case_chars(trim_chars(line), "help"@)
            ==> action is Help,
        trim_chars(line).len() > 0 && !eq_ignore_ascii_case_chars(trim_chars(line), "exit"@)
            && !eq_ignore_ascii_case_chars(trim_chars(line), "help"@) ==> (action matches LineAction::Command(
            h,
            a,
        ) && h@ == trim_chars(line) && a@ == repl_intent(trim_chars(line))),
{
    reveal_strlit("exit");
    reveal_strlit("help");
    let t = trim_chars(line);
    if eq_ignore_ascii_case_chars(t, "exit"@) && eq_ignore_ascii_case_chars(t, "help"@) {
        assert(ascii_lower(t[0]) == ascii_lower("exit"@[0]));
        assert(ascii_lower(t[0]) == ascii_lower("help"@[0]));
    }
}

} // verus!

use mpvrc::{InteractiveMode, JsonValue, LineAction, PromptEvent, PromptStep, ReplAction};

fn shown(a: ReplAction) -> Vec<String> {
    match a {
        ReplAction::Show(lines) => lines,
        other => panic!("expected lines, got another action: {}", matches!(other, ReplAction::Pause)),
    }
}

#[test]
fn simple_commands() {
    assert!(matches!(InteractiveMode::process_command("play"), ReplAction::Play(None)));
    assert!(matches!(InteractiveMode::process_command("play 3"), ReplAction::Play(Some(3))));
    assert!(matches!(InteractiveMode::process_command("pause"), ReplAction::Pause));
    assert!(matches!(InteractiveMode::process_command("stop"), ReplAction::Stop));
    assert!(matches!(InteractiveMode::process_command("next"), ReplAction::Next));
    assert!(matches!(InteractiveMode::process_command("prev"), ReplAction::Prev));
    assert!(matches!(InteractiveMode::process_command("seek 60"), ReplAction::Seek(60)));
    assert!(matches!(InteractiveMode::process_command("seek -5"), ReplAction::Seek(-5)));
    assert!(matches!(InteractiveMode::process_command("clear"), ReplAction::Clear));
    assert!(matches!(InteractiveMode::process_command("list"), ReplAction::List));
}

#[test]
fn words_are_split_on_any_white_space() {
    assert!(matches!(
        InteractiveMode::process_command("  play \t 7  "),
        ReplAction::Play(Some(7))
    ));
}

#[test]
fn invalid_numbers_are_reported() {
    assert_eq!(shown(InteractiveMode::process_command("play x")), vec!["Invalid index: x"]);
    assert_eq!(shown(InteractiveMode::process_command("play -1")), vec!["Invalid index: -1"]);
    assert_eq!(
        shown(InteractiveMode::process_command("seek 2147483648")),
        vec!["Invalid seconds: 2147483648"]
    );
    assert_eq!(shown(InteractiveMode::process_command("seek 1.5")), vec!["Invalid seconds: 1.5"]);
}

#[test]
fn add_get_set() {
    match InteractiveMode::process_command("add a.mkv b.mkv") {
        ReplAction::Add(files) => assert_eq!(files, vec!["a.mkv", "b.mkv"]),
        _ => panic!("expected add"),
    }
    assert_eq!(
        shown(InteractiveMode::process_command("add")),
        vec!["No files provided to add to the playlist"]
    );
    match InteractiveMode::process_command("get volume") {
        ReplAction::GetProperty(p) => assert_eq!(p, "volume"),
        _ => panic!("expected get"),
    }
    match InteractiveMode::process_command("set volume 50") {
        ReplAction::SetProperty(p, v) => {
            assert_eq!(p, "volume");
            assert_eq!(v, "50");
        },
        _ => panic!("expected set"),
    }
}

#[test]
fn unknown_commands() {
    assert_eq!(
        shown(InteractiveMode::process_command("PLAY")),
        vec!["Unknown command: PLAY", "Type 'help' for a list of available commands."]
    );
    assert_eq!(
        shown(InteractiveMode::process_command("set volume")),
        vec!["Unknown command: set volume", "Type 'help' for a list of available commands."]
    );
}

#[test]
fn lines_read_at_the_prompt() {
    assert!(matches!(InteractiveMode::read_line("   \n"), LineAction::Blank));
    assert!(matches!(InteractiveMode::read_line(" EXIT "), LineAction::Exit(h) if h == "EXIT"));
    assert!(matches!(InteractiveMode::read_line("Help"), LineAction::Help(h) if h == "Help"));
    match InteractiveMode::read_line("  play 2 ") {
        LineAction::Command(h, ReplAction::Play(Some(2))) => assert_eq!(h, "play 2"),
        _ => panic!("expected a play command"),
    }
}

#[test]
fn set_value_reads_json_or_falls_back_to_text() {
    assert_eq!(InteractiveMode::set_value_of("hello"), JsonValue::Str("hello".to_string()));
    assert_eq!(InteractiveMode::set_value_of("true"), JsonValue::Bool(true));
    assert_eq!(InteractiveMode::set_value_of("50"), mpvrc::read_json("50").unwrap());
    assert_eq!(InteractiveMode::set_value_of("\"x\""), JsonValue::Str("x".to_string()));
    assert_eq!(
        InteractiveMode::set_value_of("[1,null]"),
        JsonValue::Array(vec![mpvrc::read_json("1").unwrap(), JsonValue::Null])
    );
    assert_eq!(InteractiveMode::set_value_of("{oops"), JsonValue::Str("{oops".to_string()));
}

#[test]
fn banner_names_the_socket() {
    assert_eq!(
        InteractiveMode::banner(None),
        vec![
            "Entering interactive mode. Type 'help' for commands or 'exit' to quit.",
            "Socket: /tmp/mpvsocket",
        ]
    );
    assert_eq!(InteractiveMode::banner(Some("/x"))[1], "Socket: /x");
}

#[test]
fn help_text_layout() {
    let lines = InteractiveMode::help_lines();
    assert_eq!(lines.len(), 18);
    assert_eq!(lines[0], "Available commands:");
    assert_eq!(
        lines[1],
        "  play [index]           - Play or unpause playback, optionally at the specified index"
    );
    assert_eq!(lines[11], "  set <property> <value> - Set the specified property to a value");
    assert_eq!(lines[14], "\nKeyboard shortcuts:");
    assert_eq!(lines[17], "  Ctrl+D - Exit");
    let expected = format!("  {:<22} - {}", "pause", "Pause playback");
    assert_eq!(lines[2], expected);
}

#[test]
fn prompt_events() {
    assert!(matches!(
        InteractiveMode::after_read(PromptEvent::Interrupted),
        PromptStep::Resume(m) if m == "(interrupted)"
    ));
    assert!(matches!(
        InteractiveMode::after_read(PromptEvent::EndOfInput),
        PromptStep::Leave(m) if m == "Exiting interactive mode."
    ));
    assert!(matches!(
        InteractiveMode::after_read(PromptEvent::Failed("Io".to_string())),
        PromptStep::Abort(m) if m == "Error: Io"
    ));
    assert!(matches!(
        InteractiveMode::after_read(PromptEvent::Line(" exit".to_string())),
        PromptStep::Handle(LineAction::Exit(h)) if h == "exit"
    ));
    assert_eq!(InteractiveMode::farewell(), "Exiting interactive mode.");
}

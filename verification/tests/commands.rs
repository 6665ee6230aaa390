use mpvrc::commands::{PlanRun, PlanStep};
use mpvrc::{
    confirm_answer, get_property, loadfile, playlist_move, playlist_remove, quit, seek,
    set_property, Commands, IpcRequest, JsonValue, MrcError,
};

fn s(text: &str) -> JsonValue {
    JsonValue::Str(text.to_string())
}

fn object(members: Vec<(&str, JsonValue)>) -> JsonValue {
    JsonValue::Object(members.into_iter().map(|(k, v)| (k.to_string(), v)).collect())
}

fn num(text: &str) -> JsonValue {
    mpvrc::read_json(text).unwrap()
}

fn names(list: &[&str]) -> Vec<String> {
    list.iter().map(|x| x.to_string()).collect()
}

#[test]
fn test_add_files_empty_list() {
    let result = Commands::add_files(&[]);
    assert!(result.is_err());
    if let Err(MrcError::InvalidInput(msg)) = result {
        assert_eq!(msg, "No files provided to add to the playlist");
    } else {
        panic!("Expected InvalidInput error");
    }
}

#[test]
fn test_replace_playlist_empty() {
    let result = Commands::replace_playlist(&[]);
    assert!(result.is_empty());
}

#[test]
fn test_get_properties_empty() {
    let result = Commands::get_properties(&[]);
    assert!(result.is_empty());
}

#[test]
fn play_jumps_then_unpauses() {
    assert_eq!(
        Commands::play(Some(3)),
        vec![
            set_property("playlist-pos", num("3")),
            set_property("pause", JsonValue::Bool(false)),
        ]
    );
    assert_eq!(Commands::play(None), vec![set_property("pause", JsonValue::Bool(false))]);
    assert_eq!(Commands::pause(), vec![set_property("pause", JsonValue::Bool(true))]);
}

#[test]
fn single_request_operations() {
    assert_eq!(Commands::stop(), vec![quit()]);
    assert_eq!(Commands::seek_to("60.0").unwrap(), vec![seek(num("60.0"))]);
    assert_eq!(Commands::seek_to("null").unwrap(), vec![seek(JsonValue::Null)]);
    assert!(matches!(Commands::seek_to("sixty"), Err(MrcError::ParseError(_))));
    assert_eq!(Commands::move_item(2, 0), vec![playlist_move(2, 0)]);
    assert_eq!(Commands::remove_item(None), vec![playlist_remove(None)]);
    assert_eq!(Commands::remove_item(Some(4)), vec![playlist_remove(Some(4))]);
    assert_eq!(Commands::list_playlist(), vec![get_property("playlist")]);
    assert_eq!(Commands::get_single_property("volume"), vec![get_property("volume")]);
    assert_eq!(
        Commands::set_single_property("volume", num("75")),
        vec![set_property("volume", num("75"))]
    );
}

#[test]
fn add_files_appends_each_in_order() {
    let plan = Commands::add_files(&names(&["a.mkv", "b.mkv"])).unwrap();
    assert_eq!(plan, vec![loadfile("a.mkv", true), loadfile("b.mkv", true)]);
}

#[test]
fn replace_playlist_replaces_then_appends() {
    let plan = Commands::replace_playlist(&names(&["a.mkv", "b.mkv", "c.mkv"]));
    assert_eq!(
        plan,
        vec![loadfile("a.mkv", false), loadfile("b.mkv", true), loadfile("c.mkv", true)]
    );
    let plan: Vec<IpcRequest> = Commands::replace_playlist(&names(&["only.mkv"]));
    assert_eq!(plan, vec![loadfile("only.mkv", false)]);
}

#[test]
fn get_properties_reads_each() {
    let plan = Commands::get_properties(&names(&["volume", "filename"]));
    assert_eq!(plan, vec![get_property("volume"), get_property("filename")]);
}

#[test]
fn property_output_lines() {
    assert_eq!(
        Commands::property_line("volume", &num("75")),
        "volume: 75"
    );
    assert_eq!(Commands::property_line("filename", &s("a b.mkv")), "filename: \"a b.mkv\"");
    assert_eq!(Commands::set_confirmation("pause", &JsonValue::Bool(true)), "Set pause to true");
    assert_eq!(
        Commands::set_confirmation("x", &object(vec![("a", JsonValue::Null)])),
        "Set x to {\"a\":null}"
    );
}

#[test]
fn playlist_output_falls_back_to_pretty_json() {
    assert_eq!(
        Commands::playlist_output(&object(vec![("a", JsonValue::Bool(true))])),
        vec!["{\n  \"a\": true\n}"]
    );
    assert_eq!(Commands::playlist_output(&JsonValue::Array(vec![])), vec!["Playlist is empty."]);
}

#[test]
fn plan_run_sends_in_order_and_stops_at_failure() {
    let mut run = PlanRun::new(Commands::play(Some(2)));
    let first = match run.step(None) {
        PlanStep::Send(r) => r,
        _ => panic!("expected a request"),
    };
    assert_eq!(first, set_property("playlist-pos", num("2")));
    match run.step(Some(Err(MrcError::MpvError("bad".to_string())))) {
        PlanStep::Failed(MrcError::MpvError(m)) => assert_eq!(m, "bad"),
        _ => panic!("expected the failure"),
    }

    let mut run = PlanRun::new(Commands::play(Some(2)));
    assert!(matches!(run.step(None), PlanStep::Send(_)));
    match run.step(Some(Ok(None))) {
        PlanStep::Send(r) => assert_eq!(r, set_property("pause", JsonValue::Bool(false))),
        _ => panic!("expected the unpause"),
    }
    match run.step(Some(Ok(Some(JsonValue::Null)))) {
        PlanStep::Finished(replies) => assert_eq!(replies, vec![None, Some(JsonValue::Null)]),
        _ => panic!("expected the end"),
    }

    let mut run = PlanRun::new(vec![]);
    assert!(matches!(run.step(None), PlanStep::Finished(v) if v.is_empty()));
}

#[test]
fn playlist_lines_follow_the_readme_sample() {
    let data = JsonValue::Array(vec![
        object(vec![("filename", s("/path/to/episode1.mkv")), ("title", s("Episode 1"))]),
        object(vec![
            ("current", JsonValue::Bool(true)),
            ("filename", s("/path/to/episode2.mkv")),
            ("title", s("Episode 2")),
        ]),
        object(vec![("filename", s("/path/to/episode3.mkv")), ("title", s("Episode 3"))]),
    ]);
    assert_eq!(
        Commands::playlist_lines(&data).unwrap(),
        vec![
            "  0 | Episode 1 | /path/to/episode1.mkv",
            "> 1 | Episode 2 | /path/to/episode2.mkv",
            "  2 | Episode 3 | /path/to/episode3.mkv",
        ]
    );
}

#[test]
fn playlist_lines_edge_cases() {
    assert_eq!(
        Commands::playlist_lines(&JsonValue::Array(vec![])).unwrap(),
        vec!["Playlist is empty."]
    );
    assert_eq!(Commands::playlist_lines(&s("not a list")), None);
    let data = JsonValue::Array(vec![object(vec![("current", s("yes"))]), JsonValue::Null]);
    assert_eq!(
        Commands::playlist_lines(&data).unwrap(),
        vec!["  0 | unknown | unknown", "  1 | unknown | unknown"]
    );
}

#[test]
fn confirmation_answers() {
    assert!(confirm_answer("y\n"));
    assert!(confirm_answer("  Y "));
    assert!(!confirm_answer("yes"));
    assert!(!confirm_answer(""));
    assert!(!confirm_answer("n"));
}

use mpvrc::server::{
    command_response, done_body, handle_connection, handle_request, invalid_seconds, list_body,
    process_command, seek_body, ConnectionStep, ServerAction,
};
use mpvrc::{JsonValue, MrcError};

fn request(auth: &str, body: &str) -> String {
    format!("POST / HTTP/1.1\r\nHost: localhost\r\n{}\r\nContent-Length: {}\r\n\r\n{}", auth, body.len(), body)
}

fn reply_of(step: ConnectionStep) -> String {
    match step {
        ConnectionStep::Reply(r) => r,
        ConnectionStep::Execute(c) => panic!("unexpected command {}", c),
    }
}

#[test]
fn bearer_token_from_the_readme_is_accepted() {
    let r = request("Authorization: Bearer your_secret_token", "play");
    match handle_request(&r, Some("your_secret_token")) {
        ConnectionStep::Execute(c) => assert_eq!(c, "play"),
        ConnectionStep::Reply(r) => panic!("refused: {}", r),
    }
}

#[test]
fn plain_token_is_accepted() {
    let r = request("Authorization: tok", " seek 10 \n");
    match handle_request(&r, Some("tok")) {
        ConnectionStep::Execute(c) => assert_eq!(c, "seek 10"),
        ConnectionStep::Reply(r) => panic!("refused: {}", r),
    }
}

#[test]
fn missing_configuration_refuses() {
    let r = request("Authorization: Bearer tok", "play");
    assert_eq!(
        reply_of(handle_request(&r, None)),
        "HTTP/1.1 401 Unauthorized\r\nContent-Length: 29\r\n\r\nAuthentication token not set\n"
    );
}

#[test]
fn wrong_or_missing_token_refuses() {
    let failed = "HTTP/1.1 401 Unauthorized\r\nContent-Length: 21\r\n\r\nAuthentication failed\n";
    let r = request("Authorization: Bearer other", "play");
    assert_eq!(reply_of(handle_request(&r, Some("tok"))), failed);
    let r = request("X-Other: 1", "play");
    assert_eq!(reply_of(handle_request(&r, Some("tok"))), failed);
    let r = request("Authorization:", "play");
    assert_eq!(reply_of(handle_request(&r, Some(""))), failed);
}

#[test]
fn empty_command_is_a_bad_request() {
    let r = request("Authorization: Bearer tok", "   ");
    assert_eq!(
        reply_of(handle_request(&r, Some("tok"))),
        "HTTP/1.1 400 Bad Request\r\nContent-Length: 20\r\n\r\nNo command provided\n"
    );
}

#[test]
fn raw_bytes_are_decoded_lossily() {
    let mut raw = request("Authorization: Bearer tok", "next").into_bytes();
    raw.insert(2, 0xff);
    match handle_connection(&raw, Some("tok")) {
        ConnectionStep::Execute(c) => assert_eq!(c, "next"),
        ConnectionStep::Reply(r) => panic!("refused: {}", r),
    }
}

#[test]
fn server_commands() {
    assert!(matches!(process_command("pause"), Ok(ServerAction::Pause)));
    assert!(matches!(process_command("play"), Ok(ServerAction::Play(None))));
    assert!(matches!(process_command("play 4"), Ok(ServerAction::Play(Some(4)))));
    assert!(matches!(process_command("stop"), Ok(ServerAction::Stop)));
    assert!(matches!(process_command("next"), Ok(ServerAction::Next)));
    assert!(matches!(process_command("prev"), Ok(ServerAction::Prev)));
    assert!(matches!(process_command("seek 1.5"), Ok(ServerAction::Seek(s)) if s == "1.5"));
    assert!(matches!(process_command("clear"), Ok(ServerAction::Clear)));
    assert!(matches!(process_command("list"), Ok(ServerAction::List)));
    assert!(matches!(process_command("play x"), Err(MrcError::InvalidInput(m)) if m == "Invalid index: x"));
    assert!(matches!(
        process_command("dance now"),
        Err(MrcError::InvalidInput(m)) if m == "Unknown command: dance now. Available commands: pause, play [index], stop, next, prev, seek <seconds>, clear, list"
    ));
    assert!(matches!(invalid_seconds("abc"), MrcError::InvalidInput(m) if m == "Invalid seconds: abc"));
}

#[test]
fn reply_bodies() {
    assert_eq!(done_body(&ServerAction::Pause).unwrap(), "Paused playback\n");
    assert_eq!(done_body(&ServerAction::Play(None)).unwrap(), "Resumed playback\n");
    assert_eq!(done_body(&ServerAction::Play(Some(12))).unwrap(), "Playing from index 12\n");
    assert_eq!(done_body(&ServerAction::Stop).unwrap(), "Stopped playback\n");
    assert_eq!(done_body(&ServerAction::Next).unwrap(), "Skipped to next item\n");
    assert_eq!(done_body(&ServerAction::Prev).unwrap(), "Skipped to previous item\n");
    assert_eq!(done_body(&ServerAction::Clear).unwrap(), "Cleared playlist\n");
    assert!(done_body(&ServerAction::List).is_none());
    assert_eq!(seek_body("60"), "Seeking to 60 seconds\n");
    assert_eq!(list_body(Some(JsonValue::Array(vec![]))), "Playlist: []\n");
    assert_eq!(
        list_body(Some(JsonValue::Array(vec![JsonValue::Bool(false)]))),
        "Playlist: [\n  false\n]\n"
    );
    assert_eq!(list_body(None), "Playlist is empty\n");
}

#[test]
fn responses_declare_body_length_in_bytes() {
    assert_eq!(
        command_response(Ok("Paused playback\n".to_string())),
        "HTTP/1.1 200 OK\r\nContent-Length: 16\r\nContent-Type: text/plain\r\n\r\nPaused playback\n"
    );
    assert_eq!(
        command_response(Err(MrcError::InvalidInput("é".to_string()))),
        "HTTP/1.1 400 Bad Request\r\nContent-Length: 25\r\nContent-Type: text/plain\r\n\r\nError: invalid input: é\n"
    );
}

#[test]
fn error_responses_carry_the_outside_error_text() {
    let io_error = std::io::Error::new(std::io::ErrorKind::NotFound, "gone");
    assert_eq!(
        command_response(Err(MrcError::ConnectionError(io_error))),
        "HTTP/1.1 400 Bad Request\r\nContent-Length: 45\r\nContent-Type: text/plain\r\n\r\nError: failed to connect to MPV socket: gone\n"
    );
}

use mpvrc::{
    check_received, frame_message, read_reply, get_property, interpret_reply, ipc_message, loadfile, playlist_clear,
    playlist_move, playlist_next, playlist_prev, playlist_remove, quit, resolve_socket_path, seek,
    set_property, IpcRequest, JsonValue, MpvCommand, MrcError, SOCKET_PATH,
};

fn s(text: &str) -> JsonValue {
    JsonValue::Str(text.to_string())
}

fn n(text: &str) -> JsonValue {
    mpvrc::read_json(text).unwrap()
}

fn object(members: Vec<(&str, JsonValue)>) -> JsonValue {
    JsonValue::Object(members.into_iter().map(|(k, v)| (k.to_string(), v)).collect())
}

fn req(command: MpvCommand, args: Vec<JsonValue>) -> IpcRequest {
    IpcRequest { command, args }
}

#[test]
fn set_property_sends_name_then_value() {
    assert_eq!(
        set_property("volume", n("50")),
        req(MpvCommand::SetProperty, vec![s("volume"), n("50")])
    );
}

#[test]
fn loadfile_flag_follows_append() {
    assert_eq!(
        loadfile("test.mp4", true),
        req(MpvCommand::LoadFile, vec![s("test.mp4"), s("append-play")])
    );
    assert_eq!(
        loadfile("test.mp4", false),
        req(MpvCommand::LoadFile, vec![s("test.mp4"), s("replace")])
    );
}

#[test]
fn playlist_remove_without_index_removes_current() {
    assert_eq!(playlist_remove(None), req(MpvCommand::PlaylistRemove, vec![s("current")]));
    assert_eq!(playlist_remove(Some(0)), req(MpvCommand::PlaylistRemove, vec![n("0")]));
    assert_eq!(playlist_remove(Some(123)), req(MpvCommand::PlaylistRemove, vec![n("123")]));
}

#[test]
fn playlist_move_sends_both_indices() {
    assert_eq!(playlist_move(0, 1), req(MpvCommand::PlaylistMove, vec![n("0"), n("1")]));
    assert_eq!(
        playlist_move(10, 250),
        req(MpvCommand::PlaylistMove, vec![n("10"), n("250")])
    );
}

#[test]
fn bare_requests_have_no_arguments() {
    assert_eq!(playlist_next(), req(MpvCommand::PlaylistNext, vec![]));
    assert_eq!(playlist_prev(), req(MpvCommand::PlaylistPrev, vec![]));
    assert_eq!(quit(), req(MpvCommand::Quit, vec![]));
    assert_eq!(playlist_clear(), req(MpvCommand::PlaylistClear, vec![]));
    assert_eq!(get_property("volume"), req(MpvCommand::GetProperty, vec![s("volume")]));
    assert_eq!(seek(n("42.5")), req(MpvCommand::Seek, vec![n("42.5")]));
}

#[test]
fn message_puts_command_first() {
    let m = ipc_message("set_property", vec![s("volume"), n("75")]);
    assert_eq!(
        m,
        object(vec![(
            "command",
            JsonValue::Array(vec![s("set_property"), s("volume"), n("75")])
        )])
    );
    let m = loadfile("a.mkv", true).into_message();
    assert_eq!(
        m,
        object(vec![(
            "command",
            JsonValue::Array(vec![s("loadfile"), s("a.mkv"), s("append-play")])
        )])
    );
}

#[test]
fn received_bytes_are_checked() {
    assert!(matches!(check_received(&[]), Err(MrcError::ConnectionLost(m)) if m == "Socket closed unexpectedly"));
    assert!(matches!(check_received(&[0xff, 0xfe]), Err(MrcError::InvalidUtf8(_))));
    assert_eq!(check_received("{\"error\":\"success\"}\n".as_bytes()).unwrap(), "{\"error\":\"success\"}\n");
}

#[test]
fn reply_error_fails_the_call() {
    let reply = object(vec![("error", s("property unavailable")), ("data", n("1"))]);
    match interpret_reply(reply) {
        Err(MrcError::MpvError(m)) => assert_eq!(m, "property unavailable"),
        other => panic!("unexpected {:?}", other),
    }
}

#[test]
fn successful_reply_gives_its_data() {
    let reply = object(vec![("data", n("75")), ("error", s("success")), ("request_id", n("0"))]);
    assert_eq!(interpret_reply(reply).unwrap(), Some(n("75")));
    let reply = object(vec![("error", s(""))]);
    assert_eq!(interpret_reply(reply).unwrap(), None);
    let reply = object(vec![("data", JsonValue::Null), ("error", JsonValue::Null)]);
    assert_eq!(interpret_reply(reply).unwrap(), Some(JsonValue::Null));
    assert_eq!(interpret_reply(JsonValue::Bool(true)).unwrap(), None);
}

#[test]
fn socket_path_defaults() {
    assert_eq!(resolve_socket_path(None), SOCKET_PATH);
    assert_eq!(resolve_socket_path(Some("/run/mpv")), "/run/mpv");
}

#[test]
fn json_get_reads_first_member() {
    let v = object(vec![("a", n("1")), ("b", s("x")), ("a", n("2"))]);
    assert_eq!(v.get("a"), Some(&n("1")));
    assert_eq!(v.get("b").and_then(|x| x.as_str()).map(|x| x.as_str()), Some("x"));
    assert_eq!(v.get("c"), None);
    assert_eq!(JsonValue::Null.get("a"), None);
    assert_eq!(JsonValue::Bool(false).as_bool(), Some(false));
}

#[test]
fn frames_are_compact_json_lines() {
    let m = ipc_message("loadfile", vec![s("a \"b\".mkv"), s("replace")]);
    assert_eq!(
        frame_message(&m),
        "{\"command\":[\"loadfile\",\"a \\\"b\\\".mkv\",\"replace\"]}\n"
    );
    assert_eq!(
        frame_message(&playlist_move(1, 2).into_message()),
        "{\"command\":[\"playlist-move\",1,2]}\n"
    );
}

#[test]
fn replies_are_read_from_bytes() {
    assert_eq!(
        read_reply(b"{\"data\":75,\"error\":\"success\",\"request_id\":0}\n").unwrap(),
        Some(n("75"))
    );
    assert_eq!(read_reply(b"{\"error\":\"success\"}").unwrap(), None);
    assert!(matches!(read_reply(b""), Err(MrcError::ConnectionLost(_))));
    assert!(matches!(read_reply(&[0x7b, 0xff]), Err(MrcError::InvalidUtf8(_))));
    assert!(matches!(read_reply(b"not json"), Err(MrcError::ParseError(_))));
    assert!(matches!(
        read_reply(b"{\"error\":\"property not found\"}"),
        Err(MrcError::MpvError(m)) if m == "property not found"
    ));
}

#[test]
fn numbers_keep_serde_json_text() {
    assert_eq!(n("42"), JsonValue::Number(mpvrc::JsonNumber::from_usize(42)));
    match n("1e3") {
        JsonValue::Number(x) => assert_eq!(x.as_str(), "1000.0"),
        other => panic!("not a number: {:?}", other),
    }
    assert_eq!(frame_message(&ipc_message("seek", vec![n("42.5")])), "{\"command\":[\"seek\",42.5]}\n");
}

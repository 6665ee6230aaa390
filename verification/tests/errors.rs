use mpvrc::{MpvCommand, MrcError, Result};

#[test]
fn test_mrc_error_display() {
    let error = MrcError::InvalidInput("test message".to_string());
    assert_eq!(error.to_string(), "invalid input: test message");
}

#[test]
fn test_mrc_error_from_io_error() {
    let io_error = std::io::Error::new(std::io::ErrorKind::NotFound, "file not found");
    let mrc_error = MrcError::from(io_error);
    assert!(matches!(mrc_error, MrcError::ConnectionError(_)));
}

#[test]
fn test_mrc_error_from_json_error() {
    let json_error = serde_json::from_str::<serde_json::Value>("invalid json").unwrap_err();
    let mrc_error = MrcError::from(json_error);
    assert!(matches!(mrc_error, MrcError::ParseError(_)));
}

#[test]
fn test_socket_timeout_error() {
    let error = MrcError::SocketTimeout(5);
    assert_eq!(
        error.to_string(),
        "socket operation timed out after 5 seconds"
    );
}

#[test]
fn test_mpv_error() {
    let error = MrcError::MpvError("playback failed".to_string());
    assert_eq!(error.to_string(), "MPV error: playback failed");
}

#[test]
fn test_property_not_found_error() {
    let error = MrcError::PropertyNotFound("volume".to_string());
    assert_eq!(error.to_string(), "property 'volume' not found");
}

#[test]
fn test_connection_lost_error() {
    let error = MrcError::ConnectionLost("socket closed".to_string());
    assert_eq!(error.to_string(), "server connection lost: socket closed");
}

#[test]
fn test_tls_error() {
    let error = MrcError::TlsError("certificate invalid".to_string());
    assert_eq!(error.to_string(), "TLS error: certificate invalid");
}

#[test]
fn test_error_trait_implementation() {
    let error = MrcError::InvalidInput("test".to_string());
    assert!(error.source().is_none());

    let io_error = std::io::Error::new(std::io::ErrorKind::NotFound, "test");
    let connection_error = MrcError::ConnectionError(io_error);
    assert!(connection_error.source().is_some());
}

#[test]
fn test_mpv_command_as_str() {
    assert_eq!(MpvCommand::SetProperty.as_str(), "set_property");
    assert_eq!(MpvCommand::PlaylistNext.as_str(), "playlist-next");
    assert_eq!(MpvCommand::PlaylistPrev.as_str(), "playlist-prev");
    assert_eq!(MpvCommand::Seek.as_str(), "seek");
    assert_eq!(MpvCommand::Quit.as_str(), "quit");
    assert_eq!(MpvCommand::PlaylistMove.as_str(), "playlist-move");
    assert_eq!(MpvCommand::PlaylistRemove.as_str(), "playlist-remove");
    assert_eq!(MpvCommand::PlaylistClear.as_str(), "playlist-clear");
    assert_eq!(MpvCommand::GetProperty.as_str(), "get_property");
    assert_eq!(MpvCommand::LoadFile.as_str(), "loadfile");
}

#[test]
fn test_mpv_command_debug() {
    let cmd = MpvCommand::SetProperty;
    let debug_str = format!("{:?}", cmd);
    assert_eq!(debug_str, "SetProperty");
}

fn result_alias_function() -> Result<String> {
    Ok("test".to_string())
}

#[test]
fn test_result_type_alias() {
    let result = result_alias_function();
    assert!(result.is_ok());
    assert_eq!(result.unwrap(), "test");
}

#[test]
fn test_error_variants_exhaustive() {
    let errors = vec![
        MrcError::ConnectionError(std::io::Error::new(std::io::ErrorKind::Other, "test")),
        MrcError::ParseError(serde_json::from_str::<serde_json::Value>("").unwrap_err()),
        MrcError::SocketTimeout(10),
        MrcError::MpvError("test".to_string()),
        MrcError::PropertyNotFound("test".to_string()),
        MrcError::InvalidUtf8(String::from_utf8(vec![0, 159, 146, 150]).unwrap_err()),
        MrcError::NetworkError("test".to_string()),
        MrcError::ConnectionLost("test".to_string()),
        MrcError::ProtocolError("test".to_string()),
        MrcError::InvalidInput("test".to_string()),
        MrcError::TlsError("test".to_string()),
    ];

    for error in errors {
        let _ = error.to_string();
        let _ = format!("{:?}", error);
    }
}

#[test]
fn error_messages_carry_outside_error_text() {
    let io_error = std::io::Error::new(std::io::ErrorKind::NotFound, "file not found");
    assert_eq!(
        MrcError::ConnectionError(io_error).to_string(),
        "failed to connect to MPV socket: file not found"
    );
    let utf8 = String::from_utf8(vec![0, 159, 146, 150]).unwrap_err();
    let expected = format!("invalid UTF-8 in socket response: {}", utf8);
    assert_eq!(MrcError::InvalidUtf8(utf8).to_string(), expected);
    let json = serde_json::from_str::<serde_json::Value>("invalid json").unwrap_err();
    let expected = format!("failed to parse JSON response: {}", json);
    assert_eq!(MrcError::ParseError(json).to_string(), expected);
}

#[test]
fn error_messages_of_text_variants() {
    assert_eq!(MrcError::NetworkError("down".to_string()).to_string(), "network error: down");
    assert_eq!(MrcError::ProtocolError("bad".to_string()).to_string(), "protocol error: bad");
    assert_eq!(
        MrcError::SocketTimeout(18446744073709551615).to_string(),
        "socket operation timed out after 18446744073709551615 seconds"
    );
    assert_eq!(MrcError::SocketTimeout(0).to_string(), "socket operation timed out after 0 seconds");
}

#[test]
fn from_utf8_error_makes_invalid_utf8() {
    let utf8 = String::from_utf8(vec![0xff]).unwrap_err();
    assert!(matches!(MrcError::from(utf8), MrcError::InvalidUtf8(_)));
    let source = MrcError::ParseError(serde_json::from_str::<serde_json::Value>("x").unwrap_err());
    assert!(matches!(source.source(), Some(mpvrc::ErrorSource::Json(_))));
}

#[test]
fn command_names_are_distinct() {
    let all = [
        MpvCommand::SetProperty,
        MpvCommand::PlaylistNext,
        MpvCommand::PlaylistPrev,
        MpvCommand::Seek,
        MpvCommand::Quit,
        MpvCommand::PlaylistMove,
        MpvCommand::PlaylistRemove,
        MpvCommand::PlaylistClear,
        MpvCommand::GetProperty,
        MpvCommand::LoadFile,
    ];
    for a in all.iter() {
        for b in all.iter() {
            assert_eq!(a == b, a.as_str() == b.as_str());
        }
    }
}

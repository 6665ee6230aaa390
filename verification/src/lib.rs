//! Control of the mpv media player over its JSON IPC socket.
//!
//! The library holds the protocol logic: the names of mpv's commands, the
//! requests each operation sends, how a reply is judged, and the parsing and
//! formatting behind the command line, the interactive prompt and the HTTP
//! front end. The program around it does the socket, terminal and network I/O.
pub mod commands;
pub mod error;
pub mod interactive;
pub mod ipc;
pub mod json;
pub mod server;
pub mod text;

pub use commands::{confirm_answer, Commands};
pub use error::{ErrorSource, MrcError, Result};
pub use interactive::{InteractiveMode, LineAction, PromptEvent, PromptStep, ReplAction};
pub use ipc::{
    check_received, frame_message, get_property, interpret_reply, ipc_message, loadfile,
    playlist_clear, read_reply,
    playlist_move, playlist_next, playlist_prev, playlist_remove, quit, resolve_socket_path, seek,
    set_property, IpcRequest, SOCKET_PATH, SOCKET_TIMEOUT_SECS,
};
pub use json::{read_json, JsonNumber, JsonValue};

use vstd::prelude::*;

verus! {

/// Common mpv commands.
#[derive(Debug, Clone, Copy, PartialEq, Eq, Structural)]
pub enum MpvCommand {
    /// Sets a property to a specified value.
    SetProperty,
    /// Moves to the next item in the playlist.
    PlaylistNext,
    /// Moves to the previous item in the playlist.
    PlaylistPrev,
    /// Seeks in the current media.
    Seek,
    /// Quits mpv.
    Quit,
    /// Moves a playlist item from one index to another.
    PlaylistMove,
    /// Removes an item from the playlist.
    PlaylistRemove,
    /// Clears the playlist.
    PlaylistClear,
    /// Reads a property.
    GetProperty,
    /// Loads a file.
    LoadFile,
}

/// The name mpv knows a command by.
pub open spec fn command_name(c: MpvCommand) -> Seq<char> {
    match c {
        MpvCommand::SetProperty => "set_property"@,
        MpvCommand::PlaylistNext => "playlist-next"@,
        MpvCommand::PlaylistPrev => "playlist-prev"@,
        MpvCommand::Seek => "seek"@,
        MpvCommand::Quit => "quit"@,
        MpvCommand::PlaylistMove => "playlist-move"@,
        MpvCommand::PlaylistRemove => "playlist-remove"@,
        MpvCommand::PlaylistClear => "playlist-clear"@,
        MpvCommand::GetProperty => "get_property"@,
        MpvCommand::LoadFile => "loadfile"@,
    }
}

impl MpvCommand {
    /// The command's name on the wire.
    pub fn as_str(&self) -> (s: &'static str)
        ensures
            s@ == command_name(*self),
    {
        match self {
            MpvCommand::SetProperty => "set_property",
            MpvCommand::PlaylistNext => "playlist-next",
            MpvCommand::PlaylistPrev => "playlist-prev",
            MpvCommand::Seek => "seek",
            MpvCommand::Quit => "quit",
            MpvCommand::PlaylistMove => "playlist-move",
            MpvCommand::PlaylistRemove => "playlist-remove",
            MpvCommand::PlaylistClear => "playlist-clear",
            MpvCommand::GetProperty => "get_property",
            MpvCommand::LoadFile => "loadfile",
        }
    }
}

/// Distinct commands have distinct names, so a name on the wire names one command.
pub proof fn command_names_are_distinct(a: MpvCommand, b: MpvCommand)
    requires
        a != b,
    ensures
        command_name(a) != command_name(b),
{
    reveal_strlit("set_property");
    reveal_strlit("playlist-next");
    reveal_strlit("playlist-prev");
    reveal_strlit("seek");
    reveal_strlit("quit");
    reveal_strlit("playlist-move");
    reveal_strlit("playlist-remove");
    reveal_strlit("playlist-clear");
    reveal_strlit("get_property");
    reveal_strlit("loadfile");
    let na = command_name(a);
    let nb = command_name(b);
    if na == nb {
        assert(na.len() == nb.len());
        assert(na[0] == nb[0]);
        assert(na[na.len() - 1] == nb[nb.len() - 1]);
        assert(na[9] == nb[9]);
    }
}

/// mpv knows each command by its own name in its JSON IPC protocol.
pub proof fn command_names()
    ensures
        command_name(MpvCommand::SetProperty) == "set_property"@,
        command_name(MpvCommand::PlaylistNext) == "playlist-next"@,
        command_name(MpvCommand::PlaylistPrev) == "playlist-prev"@,
        command_name(MpvCommand::Seek) == "seek"@,
        command_name(MpvCommand::Quit) == "quit"@,
        command_name(MpvCommand::PlaylistMove) == "playlist-move"@,
        command_name(MpvCommand::PlaylistRemove) == "playlist-remove"@,
        command_name(MpvCommand::PlaylistClear) == "playlist-clear"@,
        command_name(MpvCommand::GetProperty) == "get_property"@,
        command_name(MpvCommand::LoadFile) == "loadfile"@,
{
}

} // verus!

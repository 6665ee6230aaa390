//! mpv's JSON IPC protocol: the requests of each command, the message that
//! carries a request, and how a reply is read.
use vstd::prelude::*;
use vstd::slice::slice_to_vec;
use vstd::utf8::{decode_utf8, valid_utf8};

use crate::error::MrcError;
use crate::json::{
    compact_text, json_as_str, json_get, json_parse, json_text, lemma_compound_view,
    member_names, member_values, opt_view, parse_json, views, Json, JsonNumber, JsonValue,
};
use crate::text::{decimal, parse_usize_reads_decimal, parse_usize_spec, str_eq};
use crate::{command_name, MpvCommand};

verus! {

/// `String::from_utf8` succeeds exactly on valid UTF-8 and then holds the decoded characters.
pub assume_specification[ String::from_utf8 ](vec: Vec<u8>) -> (r: std::result::Result<
    String,
    std::string::FromUtf8Error,
>)
    ensures
        r is Ok <==> valid_utf8(vec@),
        r matches Ok(s) ==> s@ == decode_utf8(vec@),
;

/// Default path of mpv's IPC socket.
pub const SOCKET_PATH: &'static str = "/tmp/mpvsocket";

/// Seconds that one socket operation may take.
pub const SOCKET_TIMEOUT_SECS: u64 = 5;

/// The socket path to use: the one given, else the default.
pub fn resolve_socket_path(socket_path: Option<&str>) -> (p: String)
    ensures
        p@ == match socket_path {
            Some(s) => s@,
            None => "/tmp/mpvsocket"@,
        },
{
    match socket_path {
        Some(s) => String::from_str(s),
        None => String::from_str("/tmp/mpvsocket"),
    }
}

/// A command for mpv with its arguments.
#[derive(Debug, PartialEq)]
pub struct IpcRequest {
    /// The command.
    pub command: MpvCommand,
    /// Its arguments, in order.
    pub args: Vec<JsonValue>,
}

/// The model of a request.
pub struct Request {
    /// The command.
    pub command: MpvCommand,
    /// Its arguments.
    pub args: Seq<Json>,
}

impl View for IpcRequest {
    type V = Request;

    open spec fn view(&self) -> Request {
        Request { command: self.command, args: views(self.args@) }
    }
}

/// The views of a sequence of requests.
pub open spec fn request_views(v: Seq<IpcRequest>) -> Seq<Request> {
    Seq::new(v.len(), |i: int| v[i]@)
}

/// The JSON number of `n`.
pub open spec fn number(n: nat) -> Json {
    Json::Number(decimal(n))
}

/// The request that sets `property` to `value`.
pub open spec fn set_property_request(property: Seq<char>, value: Json) -> Request {
    Request { command: MpvCommand::SetProperty, args: seq![Json::Str(property), value] }
}

/// The request that reads `property`.
pub open spec fn get_property_request(property: Seq<char>) -> Request {
    Request { command: MpvCommand::GetProperty, args: seq![Json::Str(property)] }
}

/// A request without arguments.
pub open spec fn bare_request(command: MpvCommand) -> Request {
    Request { command, args: Seq::empty() }
}

/// The request that seeks by `seconds`.
pub open spec fn seek_request(seconds: Json) -> Request {
    Request { command: MpvCommand::Seek, args: seq![seconds] }
}

/// The request that moves playlist item `from` to index `to`.
pub open spec fn playlist_move_request(from: nat, to: nat) -> Request {
    Request { command: MpvCommand::PlaylistMove, args: seq![number(from), number(to)] }
}

/// The request that removes playlist item `index`, or the current item.
pub open spec fn playlist_remove_request(index: Option<usize>) -> Request {
    Request {
        command: MpvCommand::PlaylistRemove,
        args: match index {
            Some(i) => seq![number(i as nat)],
            None => seq![Json::Str("current"@)],
        },
    }
}

/// The request that loads `filename`, appending it to the playlist and playing
/// it, or replacing the current file.
pub open spec fn loadfile_request(filename: Seq<char>, append: bool) -> Request {
    Request {
        command: MpvCommand::LoadFile,
        args: seq![
            Json::Str(filename),
            Json::Str(
                if append {
                    "append-play"@
                } else {
                    "replace"@
                },
            ),
        ],
    }
}

/// The message that carries command `command` with `args`: `{"command": [command, args...]}`.
pub open spec fn message_json(command: Seq<char>, args: Seq<Json>) -> Json {
    Json::Object(seq!["command"@], seq![Json::Array(seq![Json::Str(command)] + args)])
}

fn string_value(s: &str) -> (v: JsonValue)
    ensures
        v@ == Json::Str(s@),
{
    JsonValue::Str(String::from_str(s))
}

fn number_value(n: usize) -> (v: JsonValue)
    ensures
        v@ == number(n as nat),
{
    JsonValue::Number(JsonNumber::from_usize(n))
}

fn request(command: MpvCommand, args: Vec<JsonValue>) -> (r: IpcRequest)
    ensures
        r.command == command,
        r.args@ == args@,
{
    IpcRequest { command, args }
}

/// The message that carries `command` with `args`, ready to be written as JSON.
pub fn ipc_message(command: &str, args: Vec<JsonValue>) -> (m: JsonValue)
    ensures
        m@ == message_json(command@, views(args@)),
{
    let mut args = args;
    let ghost a0 = args@;
    let mut items: Vec<JsonValue> = Vec::new();
    items.push(string_value(command));
    items.append(&mut args);
    let array = JsonValue::Array(items);
    proof {
        lemma_compound_view(array);
        assert(views(items@) =~= seq![Json::Str(command@)] + views(a0));
    }
    let mut fields: Vec<(String, JsonValue)> = Vec::new();
    let key = String::from_str("command");
    fields.push((key, array));
    let m = JsonValue::Object(fields);
    proof {
        lemma_compound_view(m);
        assert(member_names(fields@) =~= seq!["command"@]);
        assert(member_values(fields@) =~= seq![Json::Array(seq![Json::Str(command@)] + views(a0))]);
    }
    m
}

impl IpcRequest {
    /// The message that carries this request.
    pub fn into_message(self) -> (m: JsonValue)
        ensures
            m@ == message_json(command_name(self.command), self@.args),
    {
        ipc_message(self.command.as_str(), self.args)
    }
}

/// The request that sets `property` to `value`.
pub fn set_property(property: &str, value: JsonValue) -> (r: IpcRequest)
    ensures
        r@ == set_property_request(property@, value@),
{
    let r = request(MpvCommand::SetProperty, vec![string_value(property), value]);
    assert(r@.args =~= seq![Json::Str(property@), value@]);
    r
}

/// The request that moves to the next playlist item.
pub fn playlist_next() -> (r: IpcRequest)
    ensures
        r@ == bare_request(MpvCommand::PlaylistNext),
{
    let r = request(MpvCommand::PlaylistNext, Vec::new());
    assert(r@.args =~= Seq::<Json>::empty());
    r
}

/// The request that moves to the previous playlist item.
pub fn playlist_prev() -> (r: IpcRequest)
    ensures
        r@ == bare_request(MpvCommand::PlaylistPrev),
{
    let r = request(MpvCommand::PlaylistPrev, Vec::new());
    assert(r@.args =~= Seq::<Json>::empty());
    r
}

/// The request that seeks by `seconds`, relative to the current position.
pub fn seek(seconds: JsonValue) -> (r: IpcRequest)
    ensures
        r@ == seek_request(seconds@),
{
    let ghost v = seconds@;
    let r = request(MpvCommand::Seek, vec![seconds]);
    assert(r@.args =~= seq![v]);
    r
}

/// The request that quits mpv.
pub fn quit() -> (r: IpcRequest)
    ensures
        r@ == bare_request(MpvCommand::Quit),
{
    let r = request(MpvCommand::Quit, Vec::new());
    assert(r@.args =~= Seq::<Json>::empty());
    r
}

/// The request that moves playlist item `from_index` to `to_index`.
pub fn playlist_move(from_index: usize, to_index: usize) -> (r: IpcRequest)
    ensures
        r@ == playlist_move_request(from_index as nat, to_index as nat),
{
    let r = request(
        MpvCommand::PlaylistMove,
        vec![number_value(from_index), number_value(to_index)],
    );
    assert(r@.args =~= seq![number(from_index as nat), number(to_index as nat)]);
    r
}

/// The request that removes playlist item `index`, or the current item when `index` is `None`.
pub fn playlist_remove(index: Option<usize>) -> (r: IpcRequest)
    ensures
        r@ == playlist_remove_request(index),
{
    let arg = match index {
        Some(idx) => number_value(idx),
        None => string_value("current"),
    };
    let r = request(MpvCommand::PlaylistRemove, vec![arg]);
    assert(r@.args =~= playlist_remove_request(index).args);
    r
}

/// The request that clears the playlist.
pub fn playlist_clear() -> (r: IpcRequest)
    ensures
        r@ == bare_request(MpvCommand::PlaylistClear),
{
    let r = request(MpvCommand::PlaylistClear, Vec::new());
    assert(r@.args =~= Seq::<Json>::empty());
    r
}

/// The request that reads `property`.
pub fn get_property(property: &str) -> (r: IpcRequest)
    ensures
        r@ == get_property_request(property@),
{
    let r = request(MpvCommand::GetProperty, vec![string_value(property)]);
    assert(r@.args =~= seq![Json::Str(property@)]);
    r
}

/// The request that loads `filename`: appended to the playlist (`append`) or
/// replacing the current file.
pub fn loadfile(filename: &str, append: bool) -> (r: IpcRequest)
    ensures
        r@ == loadfile_request(filename@, append),
{
    let flag = if append {
        string_value("append-play")
    } else {
        string_value("replace")
    };
    let r = request(MpvCommand::LoadFile, vec![string_value(filename), flag]);
    assert(r@.args =~= loadfile_request(filename@, append).args);
    r
}

/// Reads the bytes of a reply: none means mpv closed the socket, and the rest
/// must be UTF-8.
pub fn check_received(bytes: &[u8]) -> (r: Result<String, MrcError>)
    ensures
        match r {
            Ok(s) => bytes@.len() > 0 && valid_utf8(bytes@) && s@ == decode_utf8(bytes@),
            Err(e) => {
                ||| bytes@.len() == 0 && (e matches MrcError::ConnectionLost(m) && m@
                    == "Socket closed unexpectedly"@)
                ||| bytes@.len() > 0 && !valid_utf8(bytes@) && e is InvalidUtf8
            },
        },
{
    if bytes.len() == 0 {
        return Err(MrcError::ConnectionLost(String::from_str("Socket closed unexpectedly")));
    }
    match String::from_utf8(slice_to_vec(bytes)) {
        Ok(s) => Ok(s),
        Err(e) => Err(MrcError::InvalidUtf8(e)),
    }
}

/// The error mpv reports in `reply`, if any. mpv marks a successful reply with
/// `"error": "success"`; any other non-empty error text is a failure.
pub open spec fn reply_error(reply: Json) -> Option<Seq<char>> {
    match json_as_str(json_get(reply, "error"@)) {
        Some(e) => if e.len() > 0 && e != "success"@ {
            Some(e)
        } else {
            None
        },
        None => None,
    }
}

/// Judges mpv's reply to a command: the error it reports, or else its data.
pub fn interpret_reply(reply: JsonValue) -> (r: Result<Option<JsonValue>, MrcError>)
    ensures
        match r {
            Ok(data) => reply_error(reply@) is None && opt_view(data) == json_get(reply@, "data"@),
            Err(e) => reply_error(reply@) matches Some(t) && (e matches MrcError::MpvError(m) && m@
                == t),
        },
{
    let failure = match reply.get("error") {
        Some(v) => match v.as_str() {
            Some(e) => {
                if e.as_str().unicode_len() > 0 && !str_eq(e.as_str(), "success") {
                    Some(e.clone())
                } else {
                    None
                }
            },
            None => None,
        },
        None => None,
    };
    match failure {
        Some(e) => Err(MrcError::MpvError(e)),
        None => Ok(reply.take("data")),
    }
}

/// The line that carries `message` over the socket: its compact JSON text and a newline.
pub fn frame_message(message: &JsonValue) -> (line: String)
    ensures
        line@ == json_text(message@) + "\n"@,
{
    let mut line = compact_text(message);
    line.append("\n");
    line
}

/// Reads mpv's reply from the bytes received: they must be non-empty UTF-8
/// holding JSON, and the reply must not report an error; its data is returned.
pub fn read_reply(bytes: &[u8]) -> (r: Result<Option<JsonValue>, MrcError>)
    ensures
        match r {
            Ok(data) => {
                &&& bytes@.len() > 0
                &&& valid_utf8(bytes@)
                &&& json_parse(decode_utf8(bytes@)) matches Some(v)
                &&& reply_error(v) is None
                &&& opt_view(data) == json_get(v, "data"@)
            },
            Err(e) => {
                ||| bytes@.len() == 0 && (e matches MrcError::ConnectionLost(m) && m@
                    == "Socket closed unexpectedly"@)
                ||| bytes@.len() > 0 && !valid_utf8(bytes@) && e is InvalidUtf8
                ||| bytes@.len() > 0 && valid_utf8(bytes@) && json_parse(decode_utf8(bytes@))
                    is None && e is ParseError
                ||| bytes@.len() > 0 && valid_utf8(bytes@) && (json_parse(decode_utf8(bytes@))
                    matches Some(v) && (reply_error(v) matches Some(t) && (
                e matches MrcError::MpvError(m) && m@ == t)))
            },
        },
{
    let text = check_received(bytes)?;
    let reply = match parse_json(text.as_str()) {
        Ok(v) => v,
        Err(e) => {
            return Err(MrcError::ParseError(e));
        },
    };
    interpret_reply(reply)
}

/// A reply fails exactly when its `error` member is a non-empty string other
/// than `success`, and then with that text.
pub proof fn reply_fails_on_its_error_member(reply: Json, e: Seq<char>)
    ensures
        json_as_str(json_get(reply, "error"@)) == Some(e) && e.len() > 0 && e != "success"@
            ==> reply_error(reply) == Some(e),
        reply_error(reply) == Some(e) ==> json_as_str(json_get(reply, "error"@)) == Some(e)
            && e.len() > 0 && e != "success"@,
{
}

/// Whether a reply fails, and how, depends on its `error` member alone: two
/// replies with the same `error` member fail alike, whatever their other
/// members (`data`, `request_id`, ...).
pub proof fn reply_failure_depends_only_on_error(a: Json, b: Json)
    requires
        json_get(a, "error"@) == json_get(b, "error"@),
    ensures
        reply_error(a) == reply_error(b),
{
}

/// Each request names its command and carries its arguments in mpv's order:
/// the property then the value; the index moved then its destination, each
/// written as a number that reads back; the index removed, or `current`; the
/// file then how it is loaded.
pub proof fn requests_carry_their_arguments(
    property: Seq<char>,
    value: Json,
    from: usize,
    to: usize,
    index: usize,
    filename: Seq<char>,
    append: bool,
)
    ensures
        set_property_request(property, value).command == MpvCommand::SetProperty,
        set_property_request(property, value).args.len() == 2,
        set_property_request(property, value).args[0] == Json::Str(property),
        set_property_request(property, value).args[1] == value,
        get_property_request(property).command == MpvCommand::GetProperty,
        get_property_request(property).args == seq![Json::Str(property)],
        playlist_move_request(from as nat, to as nat).command == MpvCommand::PlaylistMove,
        playlist_move_request(from as nat, to as nat).args.len() == 2,
        playlist_move_request(from as nat, to as nat).args[0] matches Json::Number(d) && parse_usize_spec(d)
            == Some(from),
        playlist_move_request(from as nat, to as nat).args[1] matches Json::Number(d) && parse_usize_spec(d)
            == Some(to),
        playlist_remove_request(Some(index)).command == MpvCommand::PlaylistRemove,
        playlist_remove_request(Some(index)).args.len() == 1,
        playlist_remove_request(Some(index)).args[0] matches Json::Number(d) && parse_usize_spec(d)
            == Some(index),
        playlist_remove_request(None).args == seq![Json::Str("current"@)],
        loadfile_request(filename, append).command == MpvCommand::LoadFile,
        loadfile_request(filename, append).args.len() == 2,
        loadfile_request(filename, append).args[0] == Json::Str(filename),
        loadfile_request(filename, append).args[1] == Json::Str(
            if append {
                "append-play"@
            } else {
                "replace"@
            },
        ),
        seek_request(value).command == MpvCommand::Seek,
        seek_request(value).args == seq![value],
{
    parse_usize_reads_decimal(from);
    parse_usize_reads_decimal(to);
    parse_usize_reads_decimal(index);
}

/// A message's `command` member is the array of the command's name followed
/// by its arguments in order, and the message has no other member.
pub proof fn message_holds_name_then_arguments(command: Seq<char>, args: Seq<Json>)
    ensures
        json_get(message_json(command, args), "command"@) == Some(
            Json::Array(seq![Json::Str(command)] + args),
        ),
        message_json(command, args) matches Json::Object(keys, values) && keys.len() == 1,
{
    let m = message_json(command, args);
    if let Json::Object(keys, values) = m {
        assert(keys.drop_first().len() == 0);
        assert(crate::json::member(keys, values, "command"@) == Some(values[0]));
    }
}

} // verus!

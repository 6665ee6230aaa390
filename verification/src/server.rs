//! The HTTP front end: which requests may run a command, which command they
//! carry, and the replies.
use vstd::prelude::*;
use vstd::utf8::{decode_utf8, encode_utf8, valid_utf8};

use crate::error::{is_message, MrcError};
use crate::json::{json_pretty, pretty_text, JsonValue};
use crate::text::{
    first_match_from, matches_at,
    decimal_is_word, is_white_space, is_word, parse_usize_reads_decimal,
    split_whitespace_of_two_words, split_whitespace_of_word, trim_of_word,
    decimal, parse_usize, parse_usize_spec, push_decimal, split_str, split_by, split_whitespace,
    split_whitespace_chars, starts_with, starts_with_chars, str_eq, string_views, trim, trim_chars,
};

verus! {

/// What `String::from_utf8_lossy` makes of `bytes`.
pub uninterp spec fn utf8_lossy(bytes: Seq<u8>) -> Seq<char>;

/// Decodes `bytes` with `String::from_utf8_lossy`: valid UTF-8 is decoded as
/// it stands, and what is not is replaced as std's documentation describes;
/// that replacement is not stated here.
#[verifier::external_body]
fn decode_lossy(bytes: &[u8]) -> (s: String)
    ensures
        s@ == utf8_lossy(bytes@),
        valid_utf8(bytes@) ==> s@ == decode_utf8(bytes@),
{
    String::from_utf8_lossy(bytes).into_owned()
}

/// The first of `headers` that begins with `Authorization:`.
pub open spec fn authorization_header(headers: Seq<Seq<char>>) -> Option<Seq<char>>
    decreases headers.len(),
{
    if headers.len() == 0 {
        None
    } else if starts_with_chars(headers[0], "Authorization:"@) {
        Some(headers[0])
    } else {
        authorization_header(headers.drop_first())
    }
}

/// The token a request presents: the credentials of its first `Authorization`
/// header line, split at single spaces. With the `Bearer` scheme it is the word
/// after `Bearer`; otherwise it is the word after the header name. Empty when
/// there is none.
pub open spec fn request_token(request: Seq<char>) -> Seq<char> {
    match authorization_header(split_by(request, "\r\n"@)) {
        Some(line) => {
            let parts = split_by(line, " "@);
            if parts.len() > 2 && parts[1] == "Bearer"@ {
                parts[2]
            } else if parts.len() > 1 {
                parts[1]
            } else {
                Seq::empty()
            }
        },
        None => Seq::empty(),
    }
}

/// The command a request carries: the last piece after splitting it at blank
/// lines, trimmed.
pub open spec fn request_command(request: Seq<char>) -> Seq<char> {
    trim_chars(split_by(request, "\r\n\r\n"@).last())
}

/// A reply of status `status` and body `body`, whose `Content-Length` is the
/// body's length in bytes, followed by the headers `extra`.
pub open spec fn reply_text(status: Seq<char>, extra: Seq<char>, body: Seq<char>) -> Seq<char> {
    "HTTP/1.1 "@ + status + "\r\nContent-Length: "@ + decimal(encode_utf8(body).len()) + extra
        + "\r\n\r\n"@ + body
}

/// The reply when no token is configured.
pub open spec fn token_not_set_reply() -> Seq<char> {
    reply_text("401 Unauthorized"@, Seq::empty(), "Authentication token not set\n"@)
}

/// The reply to a request with no command.
pub open spec fn no_command_reply() -> Seq<char> {
    reply_text("400 Bad Request"@, Seq::empty(), "No command provided\n"@)
}

/// The reply to a request that presents no token or a wrong one. Its
/// `Content-Length` (21) is one short of its body's 22 bytes.
pub open spec fn auth_failed_reply() -> Seq<char> {
    "HTTP/1.1 401 Unauthorized\r\nContent-Length: 21\r\n\r\nAuthentication failed\n"@
}

/// What to do with a request that has been read.
pub enum ConnectionStep {
    /// Send this reply and close.
    Reply(String),
    /// Run this command and reply with its outcome.
    Execute(String),
}

/// The step for `request` when the configured token is `auth_token`: without
/// a configured token every request is refused; a request whose token is empty
/// or differs is refused; a request without a command is answered so; the
/// rest run their command.
pub open spec fn connection_step(
    request: Seq<char>,
    auth_token: Option<Seq<char>>,
    step: ConnectionStep,
) -> bool {
    let token = request_token(request);
    match auth_token {
        None => step matches ConnectionStep::Reply(r) && r@ == token_not_set_reply(),
        Some(a) => if token.len() == 0 || token != a {
            step matches ConnectionStep::Reply(r) && r@ == auth_failed_reply()
        } else if request_command(request).len() == 0 {
            step matches ConnectionStep::Reply(r) && r@ == no_command_reply()
        } else {
            step matches ConnectionStep::Execute(c) && c@ == request_command(request)
        },
    }
}

/// The view of an optional string.
pub open spec fn opt_str_view(s: Option<&str>) -> Option<Seq<char>> {
    match s {
        Some(t) => Some(t@),
        None => None,
    }
}

fn reply(status: &str, extra: &str, body: &str) -> (r: String)
    ensures
        r@ == reply_text(status@, extra@, body@),
{
    let mut r = String::from_str("HTTP/1.1 ");
    r.append(status);
    r.append("\r\nContent-Length: ");
    let n = body.as_bytes().len();
    push_decimal(&mut r, n as u64);
    r.append(extra);
    r.append("\r\n\r\n");
    r.append(body);
    r
}

fn authorization_header_exec(headers: &Vec<String>) -> (r: Option<usize>)
    ensures
        match r {
            Some(i) => i < headers@.len() && authorization_header(string_views(headers@)) == Some(
                headers@[i as int]@,
            ),
            None => authorization_header(string_views(headers@)) is None,
        },
{
    let ghost hv = string_views(headers@);
    assert(hv.skip(0) == hv);
    let mut i: usize = 0;
    while i < headers.len()
        invariant
            i <= headers@.len(),
            hv == string_views(headers@),
            authorization_header(hv) == authorization_header(hv.skip(i as int)),
        decreases headers@.len() - i,
    {
        assert(hv.skip(i as int)[0] == headers@[i as int]@);
        if starts_with(headers[i].as_str(), "Authorization:") {
            return Some(i);
        }
        assert(hv.skip(i as int).drop_first() == hv.skip(i + 1));
        i = i + 1;
    }
    assert(hv.skip(i as int).len() == 0);
    None
}

/// The token `request` presents.
pub fn token_of(request: &str) -> (t: String)
    ensures
        t@ == request_token(request@),
{
    proof {
        reveal_strlit("\r\n");
        reveal_strlit(" ");
    }
    let headers = split_str(request, "\r\n");
    match authorization_header_exec(&headers) {
        Some(i) => {
            let parts = split_str(headers[i].as_str(), " ");
            if parts.len() > 2 && str_eq(parts[1].as_str(), "Bearer") {
                parts[2].clone()
            } else if parts.len() > 1 {
                parts[1].clone()
            } else {
                String::new()
            }
        },
        None => String::new(),
    }
}

/// The command `request` carries.
pub fn command_of(request: &str) -> (c: String)
    ensures
        c@ == request_command(request@),
{
    proof {
        reveal_strlit("\r\n\r\n");
    }
    let pieces = split_str(request, "\r\n\r\n");
    proof {
        lemma_split_nonempty(request@, "\r\n\r\n"@);
    }
    let last = pieces.len() - 1;
    trim(pieces[last].as_str())
}

proof fn lemma_split_nonempty(s: Seq<char>, sep: Seq<char>)
    ensures
        split_by(s, sep).len() > 0,
    decreases s.len(),
{
    if sep.len() > 0 {
        if let Some(i) = crate::text::first_match_from(s, sep, 0) {
            if 0 <= i && i + sep.len() <= s.len() {
                lemma_split_nonempty(s.skip(i + sep.len()), sep);
            }
        }
    }
}

/// Decides what to do with a request read as `request`, the configured token being `auth_token`.
pub fn handle_request(request: &str, auth_token: Option<&str>) -> (step: ConnectionStep)
    ensures
        connection_step(request@, opt_str_view(auth_token), step),
{
    proof {
        reveal_strlit("");
    }
    let token = token_of(request);
    let auth = match auth_token {
        Some(a) => a,
        None => {
            return ConnectionStep::Reply(
                reply("401 Unauthorized", "", "Authentication token not set\n"),
            );
        },
    };
    if token.as_str().unicode_len() == 0 || !str_eq(token.as_str(), auth) {
        return ConnectionStep::Reply(
            String::from_str(
                "HTTP/1.1 401 Unauthorized\r\nContent-Length: 21\r\n\r\nAuthentication failed\n",
            ),
        );
    }
    let command = command_of(request);
    if command.as_str().unicode_len() == 0 {
        return ConnectionStep::Reply(reply("400 Bad Request", "", "No command provided\n"));
    }
    ConnectionStep::Execute(command)
}

/// Decides what to do with the bytes a client sent, decoded as UTF-8 with
/// invalid sequences replaced.
pub fn handle_connection(raw: &[u8], auth_token: Option<&str>) -> (step: ConnectionStep)
    ensures
        connection_step(utf8_lossy(raw@), opt_str_view(auth_token), step),
{
    let request = decode_lossy(raw);
    handle_request(request.as_str(), auth_token)
}

/// A request runs a command only when a token is configured and the request
/// presents exactly that token, which is not empty.
pub proof fn only_authorized_requests_run(
    request: Seq<char>,
    auth_token: Option<Seq<char>>,
    step: ConnectionStep,
)
    requires
        connection_step(request, auth_token, step),
        step is Execute,
    ensures
        auth_token matches Some(a) && a.len() > 0 && request_token(request) == a,
{
}

/// What a command sent over HTTP asks for.
pub enum ServerAction {
    /// Pause.
    Pause,
    /// Play, at a playlist index when one is given.
    Play(Option<usize>),
    /// Stop and quit mpv.
    Stop,
    /// Next entry.
    Next,
    /// Previous entry.
    Prev,
    /// Seek by the number of seconds written as this text, relative to the
    /// current position; the text must read as a number.
    Seek(String),
    /// Clear the playlist.
    Clear,
    /// List the playlist.
    List,
}

/// The model of a `ServerAction`.
pub enum ServerIntent {
    /// Pause.
    Pause,
    /// Play.
    Play(Option<usize>),
    /// Stop.
    Stop,
    /// Next.
    Next,
    /// Previous.
    Prev,
    /// Seek.
    Seek(Seq<char>),
    /// Clear.
    Clear,
    /// List.
    List,
    /// Refuse.
    Invalid(Seq<char>),
}

impl View for ServerAction {
    type V = ServerIntent;

    open spec fn view(&self) -> ServerIntent {
        match self {
            ServerAction::Pause => ServerIntent::Pause,
            ServerAction::Play(i) => ServerIntent::Play(*i),
            ServerAction::Stop => ServerIntent::Stop,
            ServerAction::Next => ServerIntent::Next,
            ServerAction::Prev => ServerIntent::Prev,
            ServerAction::Seek(s) => ServerIntent::Seek(s@),
            ServerAction::Clear => ServerIntent::Clear,
            ServerAction::List => ServerIntent::List,
        }
    }
}

/// The words of `t` are exactly `word`.
pub open spec fn only(t: Seq<Seq<char>>, word: Seq<char>) -> bool {
    t.len() == 1 && t[0] == word
}

/// What `command` asks for: its whitespace-separated words are matched against
/// the commands the front end offers.
pub open spec fn server_intent(command: Seq<char>) -> ServerIntent {
    let t = split_whitespace_chars(command);
    if only(t, "pause"@) {
        ServerIntent::Pause
    } else if only(t, "play"@) {
        ServerIntent::Play(None)
    } else if t.len() == 2 && t[0] == "play"@ {
        match parse_usize_spec(t[1]) {
            Some(i) => ServerIntent::Play(Some(i)),
            None => ServerIntent::Invalid("Invalid index: "@ + t[1]),
        }
    } else if only(t, "stop"@) {
        ServerIntent::Stop
    } else if only(t, "next"@) {
        ServerIntent::Next
    } else if only(t, "prev"@) {
        ServerIntent::Prev
    } else if t.len() == 2 && t[0] == "seek"@ {
        ServerIntent::Seek(t[1])
    } else if only(t, "clear"@) {
        ServerIntent::Clear
    } else if only(t, "list"@) {
        ServerIntent::List
    } else {
        ServerIntent::Invalid(
            "Unknown command: "@ + trim_chars(command)
                + ". Available commands: pause, play [index], stop, next, prev, seek <seconds>, clear, list"@,
        )
    }
}

fn only_exec(t: &Vec<String>, word: &str) -> (r: bool)
    ensures
        r == only(string_views(t@), word@),
{
    t.len() == 1 && str_eq(t[0].as_str(), word)
}

fn pair_head(t: &Vec<String>, word: &str) -> (r: bool)
    ensures
        r == (string_views(t@).len() == 2 && string_views(t@)[0] == word@),
{
    t.len() == 2 && str_eq(t[0].as_str(), word)
}

fn prefixed(prefix: &str, rest: &str) -> (s: String)
    ensures
        s@ == prefix@ + rest@,
{
    let mut s = String::from_str(prefix);
    s.append(rest);
    s
}

/// What `command` asks for; a command that asks for nothing the front end
/// offers is refused as invalid input with the message `server_intent` gives.
pub fn process_command(command: &str) -> (r: Result<ServerAction, MrcError>)
    ensures
        match server_intent(command@) {
            ServerIntent::Invalid(m) => r matches Err(e) && (e matches MrcError::InvalidInput(x)
                && x@ == m),
            intent => r matches Ok(a) && a@ == intent,
        },
{
    let t = split_whitespace(command);
    if only_exec(&t, "pause") {
        Ok(ServerAction::Pause)
    } else if only_exec(&t, "play") {
        Ok(ServerAction::Play(None))
    } else if pair_head(&t, "play") {
        match parse_usize(t[1].as_str()) {
            Some(i) => Ok(ServerAction::Play(Some(i))),
            None => Err(MrcError::InvalidInput(prefixed("Invalid index: ", t[1].as_str()))),
        }
    } else if only_exec(&t, "stop") {
        Ok(ServerAction::Stop)
    } else if only_exec(&t, "next") {
        Ok(ServerAction::Next)
    } else if only_exec(&t, "prev") {
        Ok(ServerAction::Prev)
    } else if pair_head(&t, "seek") {
        Ok(ServerAction::Seek(t[1].clone()))
    } else if only_exec(&t, "clear") {
        Ok(ServerAction::Clear)
    } else if only_exec(&t, "list") {
        Ok(ServerAction::List)
    } else {
        let trimmed = trim(command);
        let mut m = prefixed("Unknown command: ", trimmed.as_str());
        m.append(
            ". Available commands: pause, play [index], stop, next, prev, seek <seconds>, clear, list",
        );
        Err(MrcError::InvalidInput(m))
    }
}

/// The refusal of seconds that do not read as a number.
pub fn invalid_seconds(seconds: &str) -> (e: MrcError)
    ensures
        e matches MrcError::InvalidInput(m) && m@ == "Invalid seconds: "@ + seconds@,
{
    MrcError::InvalidInput(prefixed("Invalid seconds: ", seconds))
}

/// The reply body of an action that succeeded and needs no data: `None` for
/// seeking and listing, whose replies hold data.
pub fn done_body(action: &ServerAction) -> (b: Option<String>)
    ensures
        match action@ {
            ServerIntent::Pause => b matches Some(s) && s@ == "Paused playback\n"@,
            ServerIntent::Play(None) => b matches Some(s) && s@ == "Resumed playback\n"@,
            ServerIntent::Play(Some(i)) => b matches Some(s) && s@ == "Playing from index "@
                + decimal(i as nat) + "\n"@,
            ServerIntent::Stop => b matches Some(s) && s@ == "Stopped playback\n"@,
            ServerIntent::Next => b matches Some(s) && s@ == "Skipped to next item\n"@,
            ServerIntent::Prev => b matches Some(s) && s@ == "Skipped to previous item\n"@,
            ServerIntent::Clear => b matches Some(s) && s@ == "Cleared playlist\n"@,
            _ => b is None,
        },
{
    match action {
        ServerAction::Pause => Some(String::from_str("Paused playback\n")),
        ServerAction::Play(None) => Some(String::from_str("Resumed playback\n")),
        ServerAction::Play(Some(i)) => {
            let mut s = String::from_str("Playing from index ");
            push_decimal(&mut s, *i as u64);
            s.append("\n");
            Some(s)
        },
        ServerAction::Stop => Some(String::from_str("Stopped playback\n")),
        ServerAction::Next => Some(String::from_str("Skipped to next item\n")),
        ServerAction::Prev => Some(String::from_str("Skipped to previous item\n")),
        ServerAction::Clear => Some(String::from_str("Cleared playlist\n")),
        _ => None,
    }
}

/// The reply body of a seek to the position written `seconds`.
pub fn seek_body(seconds: &str) -> (b: String)
    ensures
        b@ == "Seeking to "@ + seconds@ + " seconds\n"@,
{
    let mut b = prefixed("Seeking to ", seconds);
    b.append(" seconds\n");
    b
}

/// The reply body of a listing: the playlist mpv returned as pretty-printed
/// JSON, or a note that it returned none.
pub fn list_body(data: Option<JsonValue>) -> (b: String)
    ensures
        b@ == match data {
            Some(d) => "Playlist: "@ + json_pretty(d@) + "\n"@,
            None => "Playlist is empty\n"@,
        },
{
    match data {
        Some(d) => {
            let p = pretty_text(&d);
            let mut b = prefixed("Playlist: ", p.as_str());
            b.append("\n");
            b
        },
        None => String::from_str("Playlist is empty\n"),
    }
}

/// The reply to a command's outcome: `200 OK` with its body, or
/// `400 Bad Request` with `Error: `, the error's message and a newline.
pub fn command_response(outcome: Result<String, MrcError>) -> (r: String)
    ensures
        match outcome {
            Ok(body) => r@ == reply_text("200 OK"@, "\r\nContent-Type: text/plain"@, body@),
            Err(e) => exists|text: Seq<char>|
                {
                    &&& r@ == reply_text(
                        "400 Bad Request"@,
                        "\r\nContent-Type: text/plain"@,
                        "Error: "@ + text + "\n"@,
                    )
                    &&& is_message(e, text)
                },
        },
{
    match outcome {
        Ok(body) => reply("200 OK", "\r\nContent-Type: text/plain", body.as_str()),
        Err(e) => {
            let text = e.to_string();
            let mut body = String::from_str("Error: ");
            body.append(text.as_str());
            body.append("\n");
            reply("400 Bad Request", "\r\nContent-Type: text/plain", body.as_str())
        },
    }
}

/// The command `play` with a playlist index written in decimal plays from
/// exactly that index, whatever it is.
pub proof fn play_runs_any_index(n: usize)
    ensures
        server_intent("play "@ + decimal(n as nat)) == ServerIntent::Play(Some(n)),
{
    reveal_strlit("play");
    reveal_strlit("play ");
    assert("play "@ =~= "play"@ + seq![' ']);
    decimal_is_word(n as nat);
    assert(is_word("play"@)) by {
        assert forall|i: int| 0 <= i < 4 implies !is_white_space(#[trigger] "play"@[i]) by {}
    }
    split_whitespace_of_two_words("play"@, decimal(n as nat));
    parse_usize_reads_decimal(n);
}

/// The command `seek` with a word seeks by exactly that word's seconds.
pub proof fn seek_takes_the_seconds(seconds: Seq<char>)
    requires
        is_word(seconds),
    ensures
        server_intent("seek "@ + seconds) == ServerIntent::Seek(seconds),
{
    reveal_strlit("play");
    reveal_strlit("seek");
    reveal_strlit("seek ");
    assert("seek "@ =~= "seek"@ + seq![' ']);
    assert(is_word("seek"@)) by {
        assert forall|i: int| 0 <= i < 4 implies !is_white_space(#[trigger] "seek"@[i]) by {}
    }
    split_whitespace_of_two_words("seek"@, seconds);
    assert("seek"@[0] != "play"@[0]);
}

/// Each one-word command asks for its own action: `play` resumes where it is,
/// and `pause`, `stop`, `next`, `prev`, `clear` and `list` do what they name.
pub proof fn one_word_commands_run()
    ensures
        server_intent("pause"@) == ServerIntent::Pause,
        server_intent("play"@) == ServerIntent::Play(None),
        server_intent("stop"@) == ServerIntent::Stop,
        server_intent("next"@) == ServerIntent::Next,
        server_intent("prev"@) == ServerIntent::Prev,
        server_intent("clear"@) == ServerIntent::Clear,
        server_intent("list"@) == ServerIntent::List,
{
    reveal_strlit("play");
    reveal_strlit("pause");
    reveal_strlit("stop");
    reveal_strlit("next");
    reveal_strlit("prev");
    reveal_strlit("seek");
    reveal_strlit("clear");
    reveal_strlit("list");
    assert(is_word("play"@)) by {
        assert forall|i: int| 0 <= i < 4 implies !is_white_space(#[trigger] "play"@[i]) by {}
    }
    assert(is_word("pause"@)) by {
        assert forall|i: int| 0 <= i < 5 implies !is_white_space(#[trigger] "pause"@[i]) by {}
    }
    assert(is_word("stop"@)) by {
        assert forall|i: int| 0 <= i < 4 implies !is_white_space(#[trigger] "stop"@[i]) by {}
    }
    assert(is_word("next"@)) by {
        assert forall|i: int| 0 <= i < 4 implies !is_white_space(#[trigger] "next"@[i]) by {}
    }
    assert(is_word("prev"@)) by {
        assert forall|i: int| 0 <= i < 4 implies !is_white_space(#[trigger] "prev"@[i]) by {}
    }
    assert(is_word("clear"@)) by {
        assert forall|i: int| 0 <= i < 5 implies !is_white_space(#[trigger] "clear"@[i]) by {}
    }
    assert(is_word("list"@)) by {
        assert forall|i: int| 0 <= i < 4 implies !is_white_space(#[trigger] "list"@[i]) by {}
    }
    split_whitespace_of_word("play"@);
    split_whitespace_of_word("pause"@);
    split_whitespace_of_word("stop"@);
    split_whitespace_of_word("next"@);
    split_whitespace_of_word("prev"@);
    split_whitespace_of_word("clear"@);
    split_whitespace_of_word("list"@);
    assert("pause"@ != "play"@);
    assert("stop"@[0] != "play"@[0] && "stop"@[0] != "pause"@[0]);
    assert("next"@[0] != "play"@[0] && "next"@[0] != "pause"@[0] && "next"@[0] != "stop"@[0]);
    assert("prev"@[1] != "play"@[1] && "prev"@ != "pause"@ && "prev"@[0] != "stop"@[0]
        && "prev"@[0] != "next"@[0]);
    assert("clear"@[0] != "play"@[0] && "clear"@[0] != "pause"@[0] && "clear"@[0] != "stop"@[0]
        && "clear"@[0] != "next"@[0] && "clear"@[0] != "prev"@[0]);
    assert("list"@[0] != "play"@[0] && "list"@[0] != "pause"@[0] && "list"@[0] != "stop"@[0]
        && "list"@[0] != "next"@[0] && "list"@[0] != "prev"@[0] && "list"@[0] != "clear"@[0]);
}

/// The command `play` with a word that is not a playlist index is refused as
/// an invalid index naming that word.
pub proof fn play_refuses_unreadable_index(w: Seq<char>)
    requires
        is_word(w),
        parse_usize_spec(w) is None,
    ensures
        server_intent("play "@ + w) == ServerIntent::Invalid("Invalid index: "@ + w),
{
    reveal_strlit("play");
    reveal_strlit("pause");
    reveal_strlit("play ");
    assert("play "@ =~= "play"@ + seq![' ']);
    assert(is_word("play"@)) by {
        assert forall|i: int| 0 <= i < 4 implies !is_white_space(#[trigger] "play"@[i]) by {}
    }
    split_whitespace_of_two_words("play"@, w);
}

/// A single word that names no command is refused as unknown, listing the
/// commands on offer.
pub proof fn unknown_word_is_refused(w: Seq<char>)
    requires
        is_word(w),
        w != "play"@ && w != "pause"@ && w != "stop"@ && w != "next"@ && w != "prev"@ && w
            != "clear"@ && w != "list"@,
    ensures
        server_intent(w) == ServerIntent::Invalid(
            "Unknown command: "@ + w
                + ". Available commands: pause, play [index], stop, next, prev, seek <seconds>, clear, list"@,
        ),
{
    split_whitespace_of_word(w);
    trim_of_word(w);
}

/// No character of `s` is `c`.
pub open spec fn free_of(s: Seq<char>, c: char) -> bool {
    forall|j: int| 0 <= j < s.len() ==> s[j] != c
}

proof fn lemma_first_char_match(s: Seq<char>, c: char, i: int, k: int)
    requires
        0 <= i <= k <= s.len(),
        forall|j: int| i <= j < k ==> s[j] != c,
        k < s.len() ==> s[k] == c,
    ensures
        first_match_from(s, seq![c], i) == if k < s.len() {
            Some(k)
        } else {
            None::<int>
        },
    decreases k - i,
{
    if i < k {
        assert(!matches_at(s, seq![c], i)) by {
            if matches_at(s, seq![c], i) {
                assert(s.subrange(i, i + 1)[0] == s[i]);
            }
        }
        lemma_first_char_match(s, c, i + 1, k);
    } else if k < s.len() {
        assert(s.subrange(k, k + 1) =~= seq![c]);
    }
}

proof fn lemma_split_at_first(a: Seq<char>, b: Seq<char>, c: char)
    requires
        free_of(a, c),
    ensures
        split_by(a + seq![c] + b, seq![c]) == seq![a] + split_by(b, seq![c]),
{
    let s = a + seq![c] + b;
    assert forall|j: int| 0 <= j < a.len() implies s[j] != c by {
        assert(s[j] == a[j]);
    }
    lemma_first_char_match(s, c, 0, a.len() as int);
    assert(s.take(a.len() as int) =~= a);
    assert(s.skip(a.len() + 1int) =~= b);
}

proof fn lemma_split_none(t: Seq<char>, c: char)
    requires
        free_of(t, c),
    ensures
        split_by(t, seq![c]) == seq![t],
{
    lemma_first_char_match(t, c, 0, t.len() as int);
}

/// A request whose first `Authorization` header is `Authorization: Bearer `
/// and a token presents that token.
pub proof fn bearer_token_is_read(request: Seq<char>, token: Seq<char>)
    requires
        authorization_header(split_by(request, "\r\n"@)) == Some(
            "Authorization: Bearer "@ + token,
        ),
        free_of(token, ' '),
    ensures
        request_token(request) == token,
{
    reveal_strlit("Authorization: Bearer ");
    reveal_strlit("Authorization:");
    reveal_strlit("Bearer");
    reveal_strlit(" ");
    let a = "Authorization:"@;
    let b = "Bearer"@;
    assert("Authorization: Bearer "@ + token =~= a + seq![' '] + (b + seq![' '] + token));
    assert(" "@ =~= seq![' ']);
    assert(free_of(a, ' '));
    assert(free_of(b, ' '));
    lemma_split_at_first(a, b + seq![' '] + token, ' ');
    lemma_split_at_first(b, token, ' ');
    lemma_split_none(token, ' ');
}

/// A request whose first `Authorization` header is `Authorization: ` and a
/// token other than `Bearer` presents that token.
pub proof fn plain_token_is_read(request: Seq<char>, token: Seq<char>)
    requires
        authorization_header(split_by(request, "\r\n"@)) == Some("Authorization: "@ + token),
        free_of(token, ' '),
    ensures
        request_token(request) == token,
{
    reveal_strlit("Authorization: ");
    reveal_strlit("Authorization:");
    reveal_strlit(" ");
    let a = "Authorization:"@;
    assert("Authorization: "@ + token =~= a + seq![' '] + token);
    assert(" "@ =~= seq![' ']);
    assert(free_of(a, ' '));
    lemma_split_at_first(a, token, ' ');
    lemma_split_none(token, ' ');
}

proof fn lemma_first_match_at(s: Seq<char>, sep: Seq<char>, i: int, k: int)
    requires
        0 <= i <= k,
        forall|j: int| i <= j < k ==> !matches_at(s, sep, j),
        k + sep.len() <= s.len() ==> matches_at(s, sep, k),
        k + sep.len() > s.len() ==> k == s.len(),
        sep.len() > 0,
    ensures
        first_match_from(s, sep, i) == if k + sep.len() <= s.len() {
            Some(k)
        } else {
            None::<int>
        },
    decreases k - i,
{
    if i < k {
        if i + sep.len() <= s.len() {
            lemma_first_match_at(s, sep, i + 1, k);
        }
    }
}

/// A request made of a head, a blank line and a body carries the body,
/// trimmed, as its command, when the head holds no blank line and does not
/// end in a line break, and the body holds no carriage return.
pub proof fn command_is_the_body(head: Seq<char>, body: Seq<char>)
    requires
        forall|p: int| 0 <= p ==> !matches_at(head, "\r\n\r\n"@, p),
        head.len() > 0 ==> head.last() != '\r' && head.last() != '\n',
        free_of(body, '\r'),
    ensures
        request_command(head + "\r\n\r\n"@ + body) == trim_chars(body),
{
    reveal_strlit("\r\n\r\n");
    let sep = "\r\n\r\n"@;
    let s = head + sep + body;
    let h = head.len() as int;
    assert forall|p: int| 0 <= p < h implies !matches_at(s, sep, p) by {
        if matches_at(s, sep, p) {
            if p + 4 <= h {
                assert(s.subrange(p, p + 4) =~= head.subrange(p, p + 4));
                assert(matches_at(head, sep, p));
            } else {
                assert(s[h - 1] == head.last());
                assert(s.subrange(p, p + 4)[h - 1 - p] == s[h - 1]);
                assert(sep[h - 1 - p] == '\r' || sep[h - 1 - p] == '\n');
            }
        }
    }
    assert(s.subrange(h, h + 4) =~= sep);
    lemma_first_match_at(s, sep, 0, h);
    assert(s.take(h) =~= head);
    assert(s.skip(h + 4) =~= body);
    assert forall|p: int| 0 <= p implies !matches_at(body, sep, p) by {
        if matches_at(body, sep, p) {
            assert(body.subrange(p, p + 4)[0] == body[p]);
        }
    }
    lemma_first_match_at(body, sep, 0, body.len() as int);
    assert(split_by(body, sep) == seq![body]);
    assert(split_by(s, sep) == seq![head] + seq![body]);
    assert((seq![head] + seq![body]).last() == body);
}

} // verus!

//! The operations of the command line and the prompt, each as the requests it
//! sends to mpv in order, and the text they show.
//!
//! The program sends a plan's requests one after another and stops at the
//! first that fails.
use vstd::prelude::*;

use crate::error::MrcError;
use crate::ipc::{
    bare_request, get_property, get_property_request, loadfile, loadfile_request, number, playlist_clear,
    playlist_move, playlist_move_request, playlist_next, playlist_prev, playlist_remove,
    playlist_remove_request, quit, request_views, seek, seek_request, set_property,
    set_property_request, IpcRequest, Request,
};
use crate::json::{
    display_json, json_as_bool, json_as_str, json_display, json_get, json_parse, json_pretty,
    opt_view, pretty_text, read_json, views, Json, JsonNumber, JsonValue,
};
use crate::text::{
    parse_usize_reads_decimal, parse_usize_spec,
    decimal, eq_ignore_ascii_case, eq_ignore_ascii_case_chars, push_decimal, string_views, trim,
    trim_chars,
};
use crate::MpvCommand;

verus! {

/// The operations on mpv.
pub struct Commands;

/// The plan of `play`: jump to `index` when one is given, then unpause.
pub open spec fn play_plan(index: Option<usize>) -> Seq<Request> {
    let unpause = set_property_request("pause"@, Json::Bool(false));
    match index {
        Some(i) => seq![set_property_request("playlist-pos"@, number(i as nat)), unpause],
        None => seq![unpause],
    }
}

/// The requests that load each of `filenames` in order, appending or replacing.
pub open spec fn load_plan(filenames: Seq<Seq<char>>, append: bool) -> Seq<Request> {
    Seq::new(filenames.len(), |i: int| loadfile_request(filenames[i], append))
}

/// The plan of `replace_playlist`: the first file replaces the current one and
/// the others are appended.
pub open spec fn replace_plan(filenames: Seq<Seq<char>>) -> Seq<Request> {
    if filenames.len() == 0 {
        Seq::empty()
    } else {
        seq![loadfile_request(filenames[0], false)] + load_plan(filenames.drop_first(), true)
    }
}

/// The plan that reads each of `properties` in order.
pub open spec fn read_plan(properties: Seq<Seq<char>>) -> Seq<Request> {
    Seq::new(properties.len(), |i: int| get_property_request(properties[i]))
}

/// The text of member `key` of a playlist entry, or `unknown`.
pub open spec fn entry_text(item: Json, key: Seq<char>) -> Seq<char> {
    match json_as_str(json_get(item, key)) {
        Some(s) => s,
        None => "unknown"@,
    }
}

/// Whether a playlist entry is the current one.
pub open spec fn entry_current(item: Json) -> bool {
    match json_as_bool(json_get(item, "current"@)) {
        Some(b) => b,
        None => false,
    }
}

/// The line that shows playlist entry `item` at index `i`: the marker (`>`
/// for the current entry), the index, the title and the file name, as in
/// `> 1 | Episode 2 | /path/to/episode2.mkv`.
pub open spec fn playlist_line(i: nat, item: Json) -> Seq<char> {
    (if entry_current(item) {
        ">"@
    } else {
        " "@
    }) + " "@ + decimal(i) + " | "@ + entry_text(item, "title"@) + " | "@ + entry_text(
        item,
        "filename"@,
    )
}

/// The lines that show a playlist, or `None` when the data is not a list.
pub open spec fn playlist_text(data: Json) -> Option<Seq<Seq<char>>> {
    match data {
        Json::Array(items) => if items.len() == 0 {
            Some(seq!["Playlist is empty."@])
        } else {
            Some(Seq::new(items.len(), |i: int| playlist_line(i as nat, items[i])))
        },
        _ => None,
    }
}

fn single(r: IpcRequest) -> (plan: Vec<IpcRequest>)
    ensures
        request_views(plan@) == seq![r@],
{
    let plan = vec![r];
    assert(request_views(plan@) =~= seq![r@]);
    plan
}

fn load_all(filenames: &[String], from: usize, append: bool, plan: &mut Vec<IpcRequest>)
    requires
        from <= filenames@.len(),
    ensures
        request_views(final(plan)@) == request_views(old(plan)@) + load_plan(
            string_views(filenames@).skip(from as int),
            append,
        ),
{
    let ghost start = request_views(plan@);
    let ghost names = string_views(filenames@).skip(from as int);
    let mut i: usize = from;
    while i < filenames.len()
        invariant
            from <= i <= filenames@.len(),
            names == string_views(filenames@).skip(from as int),
            request_views(plan@) == start + load_plan(names.take(i - from), append),
        decreases filenames@.len() - i,
    {
        let r = loadfile(filenames[i].as_str(), append);
        let ghost before = request_views(plan@);
        plan.push(r);
        assert(request_views(plan@) =~= before.push(r@));
        assert(names.take(i + 1 - from) =~= names.take(i - from).push(filenames@[i as int]@));
        assert(load_plan(names.take(i + 1 - from), append) =~= load_plan(
            names.take(i - from),
            append,
        ).push(r@));
        i = i + 1;
    }
    assert(names.take(i - from) =~= names);
}

impl Commands {
    /// Plays, jumping first to playlist entry `index` when one is given.
    pub fn play(index: Option<usize>) -> (plan: Vec<IpcRequest>)
        ensures
            request_views(plan@) == play_plan(index),
    {
        let mut plan: Vec<IpcRequest> = Vec::new();
        if let Some(idx) = index {
            plan.push(set_property("playlist-pos", JsonValue::Number(JsonNumber::from_usize(idx))));
        }
        plan.push(set_property("pause", JsonValue::Bool(false)));
        assert(request_views(plan@) =~= play_plan(index));
        plan
    }

    /// Pauses playback.
    pub fn pause() -> (plan: Vec<IpcRequest>)
        ensures
            request_views(plan@) == seq![set_property_request("pause"@, Json::Bool(true))],
    {
        single(set_property("pause", JsonValue::Bool(true)))
    }

    /// Stops playback by quitting mpv.
    pub fn stop() -> (plan: Vec<IpcRequest>)
        ensures
            request_views(plan@) == seq![bare_request(MpvCommand::Quit)],
    {
        single(quit())
    }

    /// Moves to the next playlist entry.
    pub fn next() -> (plan: Vec<IpcRequest>)
        ensures
            request_views(plan@) == seq![bare_request(MpvCommand::PlaylistNext)],
    {
        single(playlist_next())
    }

    /// Moves to the previous playlist entry.
    pub fn prev() -> (plan: Vec<IpcRequest>)
        ensures
            request_views(plan@) == seq![bare_request(MpvCommand::PlaylistPrev)],
    {
        single(playlist_prev())
    }

    /// Seeks by `seconds`, relative to the current position, given as the
    /// JSON text of the number; text that is not JSON is refused as a `ParseError`.
    pub fn seek_to(seconds: &str) -> (r: Result<Vec<IpcRequest>, MrcError>)
        ensures
            match r {
                Ok(plan) => json_parse(seconds@) matches Some(v) && request_views(plan@) == seq![
                    seek_request(v),
                ],
                Err(e) => json_parse(seconds@) is None && e is ParseError,
            },
    {
        let v = read_json(seconds)?;
        Ok(single(seek(v)))
    }

    /// Moves playlist entry `from_index` to `to_index`.
    pub fn move_item(from_index: usize, to_index: usize) -> (plan: Vec<IpcRequest>)
        ensures
            request_views(plan@) == seq![
                playlist_move_request(from_index as nat, to_index as nat),
            ],
    {
        single(playlist_move(from_index, to_index))
    }

    /// Removes playlist entry `index`, or the current entry when none is given.
    pub fn remove_item(index: Option<usize>) -> (plan: Vec<IpcRequest>)
        ensures
            request_views(plan@) == seq![playlist_remove_request(index)],
    {
        single(playlist_remove(index))
    }

    /// Clears the playlist.
    pub fn clear_playlist() -> (plan: Vec<IpcRequest>)
        ensures
            request_views(plan@) == seq![bare_request(MpvCommand::PlaylistClear)],
    {
        single(playlist_clear())
    }

    /// Reads the playlist, to be shown with `playlist_lines`.
    pub fn list_playlist() -> (plan: Vec<IpcRequest>)
        ensures
            request_views(plan@) == seq![get_property_request("playlist"@)],
    {
        single(get_property("playlist"))
    }

    /// Appends each of `filenames` to the playlist; at least one is needed.
    pub fn add_files(filenames: &[String]) -> (r: Result<Vec<IpcRequest>, MrcError>)
        ensures
            match r {
                Ok(plan) => filenames@.len() > 0 && request_views(plan@) == load_plan(
                    string_views(filenames@),
                    true,
                ),
                Err(e) => filenames@.len() == 0 && (e matches MrcError::InvalidInput(m) && m@
                    == "No files provided to add to the playlist"@),
            },
    {
        if filenames.len() == 0 {
            return Err(
                MrcError::InvalidInput(String::from_str("No files provided to add to the playlist")),
            );
        }
        let mut plan: Vec<IpcRequest> = Vec::new();
        load_all(filenames, 0, true, &mut plan);
        assert(string_views(filenames@).skip(0) == string_views(filenames@));
        assert(request_views(plan@) =~= load_plan(string_views(filenames@), true));
        Ok(plan)
    }

    /// Replaces the playlist with `filenames`: the first replaces the current
    /// file and the others are appended. No files, no requests.
    pub fn replace_playlist(filenames: &[String]) -> (plan: Vec<IpcRequest>)
        ensures
            request_views(plan@) == replace_plan(string_views(filenames@)),
    {
        let mut plan: Vec<IpcRequest> = Vec::new();
        if filenames.len() > 0 {
            plan.push(loadfile(filenames[0].as_str(), false));
            load_all(filenames, 1, true, &mut plan);
            assert(string_views(filenames@).skip(1) == string_views(filenames@).drop_first());
            assert(request_views(plan@) =~= replace_plan(string_views(filenames@)));
        } else {
            assert(request_views(plan@) =~= replace_plan(string_views(filenames@)));
        }
        plan
    }

    /// Reads each of `properties` in order, to be shown with `property_line`.
    pub fn get_properties(properties: &[String]) -> (plan: Vec<IpcRequest>)
        ensures
            request_views(plan@) == read_plan(string_views(properties@)),
    {
        let mut plan: Vec<IpcRequest> = Vec::new();
        let mut i: usize = 0;
        while i < properties.len()
            invariant
                i <= properties@.len(),
                request_views(plan@) == read_plan(string_views(properties@).take(i as int)),
            decreases properties@.len() - i,
        {
            let r = get_property(properties[i].as_str());
            let ghost before = request_views(plan@);
            plan.push(r);
            assert(request_views(plan@) =~= before.push(r@));
            assert(string_views(properties@).take(i + 1) =~= string_views(properties@).take(
                i as int,
            ).push(properties@[i as int]@));
            assert(read_plan(string_views(properties@).take(i + 1)) =~= read_plan(
                string_views(properties@).take(i as int),
            ).push(r@));
            i = i + 1;
        }
        assert(string_views(properties@).take(i as int) =~= string_views(properties@));
        plan
    }

    /// Reads one property, to be shown with `property_line`.
    pub fn get_single_property(property: &str) -> (plan: Vec<IpcRequest>)
        ensures
            request_views(plan@) == seq![get_property_request(property@)],
    {
        single(get_property(property))
    }

    /// Sets one property, to be confirmed with `set_confirmation`.
    pub fn set_single_property(property: &str, value: JsonValue) -> (plan: Vec<IpcRequest>)
        ensures
            request_views(plan@) == seq![set_property_request(property@, value@)],
    {
        single(set_property(property, value))
    }

    /// The line that shows a property's value: `{property}: {value}`, the
    /// value as `{}` shows JSON.
    pub fn property_line(property: &str, value: &JsonValue) -> (s: String)
        ensures
            s@ == property@ + ": "@ + json_display(value@),
    {
        let mut s = String::from_str(property);
        s.append(": ");
        let text = display_json(value);
        s.append(text.as_str());
        s
    }

    /// The confirmation of a property set: `Set {property} to {value}`, the
    /// value as `{}` shows JSON.
    pub fn set_confirmation(property: &str, value: &JsonValue) -> (s: String)
        ensures
            s@ == "Set "@ + property@ + " to "@ + json_display(value@),
    {
        let mut s = String::from_str("Set ");
        s.append(property);
        s.append(" to ");
        let text = display_json(value);
        s.append(text.as_str());
        s
    }

    /// The lines that show playlist data: the playlist's lines when it is a
    /// list, else the data as pretty-printed JSON.
    pub fn playlist_output(data: &JsonValue) -> (lines: Vec<String>)
        ensures
            match playlist_text(data@) {
                Some(text) => string_views(lines@) == text,
                None => string_views(lines@) == seq![json_pretty(data@)],
            },
    {
        match Self::playlist_lines(data) {
            Some(lines) => lines,
            None => {
                let lines = vec![pretty_text(data)];
                assert(string_views(lines@) =~= seq![json_pretty(data@)]);
                lines
            },
        }
    }

    /// The lines that show a playlist, or `None` when `data` is not a list (it
    /// is then shown as JSON).
    pub fn playlist_lines(data: &JsonValue) -> (r: Option<Vec<String>>)
        ensures
            match r {
                Some(lines) => playlist_text(data@) == Some(string_views(lines@)),
                None => playlist_text(data@) is None,
            },
    {
        match data.as_array() {
            None => None,
            Some(items) => {
                let mut lines: Vec<String> = Vec::new();
                if items.len() == 0 {
                    lines.push(String::from_str("Playlist is empty."));
                    assert(string_views(lines@) =~= seq!["Playlist is empty."@]);
                    return Some(lines);
                }
                let ghost iv = views(items@);
                let mut i: usize = 0;
                while i < items.len()
                    invariant
                        i <= items@.len(),
                        iv == views(items@),
                        string_views(lines@) == Seq::new(
                            i as nat,
                            |k: int| playlist_line(k as nat, iv[k]),
                        ),
                    decreases items@.len() - i,
                {
                    let line = playlist_entry_line(i, &items[i]);
                    let ghost before = string_views(lines@);
                    lines.push(line);
                    assert(iv[i as int] == items@[i as int]@);
                    assert(string_views(lines@) =~= before.push(line@));
                    assert(string_views(lines@) =~= Seq::new(
                        (i + 1) as nat,
                        |k: int| playlist_line(k as nat, iv[k]),
                    ));
                    i = i + 1;
                }
                assert(data@ == Json::Array(iv));
                assert(playlist_text(data@) == Some(
                    Seq::new(iv.len(), |k: int| playlist_line(k as nat, iv[k])),
                ));
                assert(string_views(lines@) =~= Seq::new(
                    iv.len(),
                    |k: int| playlist_line(k as nat, iv[k]),
                ));
                Some(lines)
            },
        }
    }
}

/// Whether an answer to a confirmation prompt accepts: `y` in either case,
/// surrounding white space aside.
pub fn confirm_answer(input: &str) -> (r: bool)
    ensures
        r == eq_ignore_ascii_case_chars(trim_chars(input@), "y"@),
{
    let t = trim(input);
    eq_ignore_ascii_case(t.as_str(), "y")
}

fn entry_text_exec(item: &JsonValue, key: &str) -> (s: String)
    ensures
        s@ == entry_text(item@, key@),
{
    match item.get(key) {
        Some(v) => match v.as_str() {
            Some(t) => t.clone(),
            None => String::from_str("unknown"),
        },
        None => String::from_str("unknown"),
    }
}

fn playlist_entry_line(i: usize, item: &JsonValue) -> (s: String)
    ensures
        s@ == playlist_line(i as nat, item@),
{
    let current = match item.get("current") {
        Some(v) => match v.as_bool() {
            Some(b) => b,
            None => false,
        },
        None => false,
    };
    let mut s = if current {
        String::from_str(">")
    } else {
        String::from_str(" ")
    };
    s.append(" ");
    push_decimal(&mut s, i as u64);
    s.append(" | ");
    let title = entry_text_exec(item, "title");
    s.append(title.as_str());
    s.append(" | ");
    let filename = entry_text_exec(item, "filename");
    s.append(filename.as_str());
    s
}

/// The marker of a playlist line is `>` exactly for the entry mpv marks as current.
pub proof fn playlist_marks_current(data: Json, i: int)
    requires
        data is Array,
        0 <= i < data->Array_0.len(),
    ensures
        playlist_text(data) matches Some(lines) && lines.len() == data->Array_0.len() && (
        lines[i][0] == '>' <==> entry_current(data->Array_0[i])),
{
    reveal_strlit(">");
    reveal_strlit(" ");
    let item = data->Array_0[i];
    let lines = playlist_text(data)->0;
    assert(lines[i] == playlist_line(i as nat, item));
}

/// What to do next while running a plan.
pub enum PlanStep {
    /// Send this request and report its outcome.
    Send(IpcRequest),
    /// Every request succeeded; these are the data of their replies, in order.
    Finished(Vec<Option<JsonValue>>),
    /// A request failed with this error; nothing more is sent.
    Failed(MrcError),
}

/// A plan being run: the requests not yet sent and the data of the replies so far.
pub struct PlanRun {
    pending: Vec<IpcRequest>,
    replies: Vec<Option<JsonValue>>,
}

/// The views of replies' data.
pub open spec fn reply_views(v: Seq<Option<JsonValue>>) -> Seq<Option<Json>> {
    Seq::new(v.len(), |i: int| opt_view(v[i]))
}

impl PlanRun {
    /// The requests not yet sent, in order.
    pub closed spec fn pending(&self) -> Seq<Request> {
        request_views(self.pending@)
    }

    /// The data of the replies received so far, in order.
    pub closed spec fn replies(&self) -> Seq<Option<Json>> {
        reply_views(self.replies@)
    }

    /// Starts running `plan`.
    pub fn new(plan: Vec<IpcRequest>) -> (r: PlanRun)
        ensures
            r.pending() == request_views(plan@),
            r.replies() == Seq::<Option<Json>>::empty(),
    {
        let r = PlanRun { pending: plan, replies: Vec::new() };
        assert(r.replies() =~= Seq::<Option<Json>>::empty());
        r
    }

    /// The next step, given the outcome of the request sent last (`None` at the
    /// start). A failure ends the run with that very error; otherwise the
    /// reply's data is kept and the next request goes out, in the plan's order,
    /// until none is left.
    pub fn step(&mut self, outcome: Option<Result<Option<JsonValue>, MrcError>>) -> (s: PlanStep)
        ensures
            match outcome {
                Some(Err(e)) => s == PlanStep::Failed(e) && final(self).pending() == old(
                    self,
                ).pending() && final(self).replies() == old(self).replies(),
                _ => {
                    let replies = match outcome {
                        Some(Ok(d)) => old(self).replies().push(opt_view(d)),
                        _ => old(self).replies(),
                    };
                    if old(self).pending().len() > 0 {
                        &&& s matches PlanStep::Send(r) && r@ == old(self).pending()[0]
                        &&& final(self).pending() == old(self).pending().drop_first()
                        &&& final(self).replies() == replies
                    } else {
                        &&& s matches PlanStep::Finished(v) && reply_views(v@) == replies
                        &&& final(self).pending().len() == 0
                        &&& final(self).replies().len() == 0
                    }
                },
            },
    {
        match outcome {
            Some(Err(e)) => {
                return PlanStep::Failed(e);
            },
            Some(Ok(d)) => {
                let ghost before = reply_views(self.replies@);
                self.replies.push(d);
                assert(reply_views(self.replies@) =~= before.push(opt_view(d)));
            },
            None => {},
        }
        if self.pending.len() > 0 {
            let ghost before = self.pending@;
            let r = self.pending.remove(0);
            assert(request_views(self.pending@) =~= request_views(before).drop_first());
            PlanStep::Send(r)
        } else {
            let mut out: Vec<Option<JsonValue>> = Vec::new();
            std::mem::swap(&mut out, &mut self.replies);
            assert(reply_views(self.replies@).len() == 0);
            PlanStep::Finished(out)
        }
    }
}

/// Playing always ends by unpausing, and with an index it first jumps to that
/// playlist position.
pub proof fn play_always_unpauses(index: Option<usize>)
    ensures
        play_plan(index).len() > 0,
        play_plan(index).last() == set_property_request("pause"@, Json::Bool(false)),
        index matches Some(i) ==> play_plan(index)[0] == set_property_request(
            "playlist-pos"@,
            number(i as nat),
        ),
{
}

/// Replacing the playlist loads every file once, in the order given: the first
/// replaces what plays and each later one is appended.
pub proof fn replace_loads_each_file_once(filenames: Seq<Seq<char>>)
    ensures
        replace_plan(filenames).len() == filenames.len(),
        forall|i: int|
            0 <= i < filenames.len() ==> #[trigger] replace_plan(filenames)[i] == loadfile_request(
                filenames[i],
                i > 0,
            ),
{
    if filenames.len() > 0 {
        let p = replace_plan(filenames);
        assert forall|i: int| 0 <= i < filenames.len() implies #[trigger] p[i] == loadfile_request(
            filenames[i],
            i > 0,
        ) by {
            if i > 0 {
                assert(p[i] == load_plan(filenames.drop_first(), true)[i - 1]);
                assert(filenames.drop_first()[i - 1] == filenames[i]);
            }
        }
    }
}

/// Each playlist line shows its entry's own index: line `i` is the marker,
/// a space, a numeral that reads back as `i`, then the entry's title and file
/// name; there is one line per entry.
pub proof fn playlist_lines_show_each_index(data: Json, i: int)
    requires
        data is Array,
        0 <= i < data->Array_0.len(),
        i <= usize::MAX,
    ensures
        playlist_text(data) matches Some(lines) && lines.len() == data->Array_0.len() && exists|
            d: Seq<char>,
        |
            {
                let item = data->Array_0[i];
                &&& #[trigger] parse_usize_spec(d) == Some(i as usize)
                &&& lines[i] == (if entry_current(item) {
                    ">"@
                } else {
                    " "@
                }) + " "@ + d + " | "@ + entry_text(item, "title"@) + " | "@ + entry_text(
                    item,
                    "filename"@,
                )
            },
{
    let lines = playlist_text(data)->0;
    let item = data->Array_0[i];
    assert(lines[i] == playlist_line(i as nat, item));
    parse_usize_reads_decimal(i as usize);
    assert(parse_usize_spec(decimal(i as nat)) == Some(i as usize));
}

/// Reading properties reads every property named, once each, in the order given.
pub proof fn get_properties_reads_each(properties: Seq<Seq<char>>)
    ensures
        read_plan(properties).len() == properties.len(),
        forall|i: int|
            0 <= i < properties.len() ==> #[trigger] read_plan(properties)[i]
                == get_property_request(properties[i]),
{
}

/// Adding files loads every file named, once each, in the order given, each
/// appended to the playlist.
pub proof fn add_files_appends_each(filenames: Seq<Seq<char>>)
    ensures
        load_plan(filenames, true).len() == filenames.len(),
        forall|i: int|
            0 <= i < filenames.len() ==> #[trigger] load_plan(filenames, true)[i]
                == loadfile_request(filenames[i], true),
{
}

/// A playlist entry shows its `title` and `filename` members when they are
/// strings, and `unknown` otherwise; it is current exactly when its `current`
/// member is `true`.
pub proof fn entries_show_their_members(item: Json, key: Seq<char>, text: Seq<char>)
    ensures
        json_as_str(json_get(item, key)) == Some(text) ==> entry_text(item, key) == text,
        json_as_str(json_get(item, key)) is None ==> entry_text(item, key) == "unknown"@,
        entry_current(item) <==> json_as_bool(json_get(item, "current"@)) == Some(true),
{
}

} // verus!

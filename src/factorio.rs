//! The game server's side: reading its bridge log and writing its console commands.
use vstd::prelude::*;
use vstd::string::StrSliceExecFns;
use vstd::string::StringExecFns;
use crate::channel::opt_view;
use crate::mirror::{IncomingMessage, IncomingView, OutgoingMessage};
use crate::text::{end_at, lemma_end_at, find_end, find_pair, pair_from, slice, same_text};

verus! {

/// A message with no sender, channel or colour.
pub open spec fn system_message(contents: Seq<char>) -> IncomingView {
    IncomingView { channel_id: None, user_id: None, user_name: None, user_color: None, contents }
}

/// `name is on surface`; the surface `nauvis` is written `Nauvis`. An entry
/// without a space is a name alone.
pub open spec fn describe_player(entry: Seq<char>) -> Seq<char> {
    let k = end_at(entry, ' ', 0);
    if k < entry.len() {
        let surface = entry.subrange(k + 1, entry.len() as int);
        let shown = if surface == "nauvis"@ { "Nauvis"@ } else { surface };
        entry.subrange(0, k) + " is on "@ + shown
    } else {
        entry
    }
}

proof fn lemma_entries_decrease(s: Seq<char>, start: int)
    ensures
        0 <= start < s.len() ==> end_at(s, ';', start) + 1 > start,
{
    if 0 <= start < s.len() {
        lemma_end_at(s, ';', start);
    }
}

/// The players of a `;`-separated list from position `start` on, described
/// and joined with `, `.
pub open spec fn players_from(s: Seq<char>, start: int) -> Seq<char>
    decreases s.len() - start,
    via lemma_players_from_decreases
{
    if start < 0 || start > s.len() {
        seq![]
    } else {
        let end = end_at(s, ';', start);
        let entry = describe_player(s.subrange(start, end));
        if end < s.len() {
            entry + ", "@ + players_from(s, end + 1)
        } else {
            entry
        }
    }
}

#[via_fn]
proof fn lemma_players_from_decreases(s: Seq<char>, start: int) {
    if 0 <= start <= s.len() {
        lemma_end_at(s, ';', start);
    }
}

/// What one line of the bridge log says, if anything: `CHAT name: text` from a
/// player, `PLAYERLIST` with the players, or any other event's text. A line
/// without a space, a chat line without `: `, and the server's own chat say
/// nothing.
pub open spec fn log_line_message(line: Seq<char>) -> Option<IncomingView> {
    let i = end_at(line, ' ', 0);
    if i >= line.len() {
        None
    } else {
        let event = line.subrange(0, i);
        let contents = line.subrange(i + 1, line.len() as int);
        if event == "CHAT"@ {
            match pair_from(contents, ':', ' ', 0) {
                Some(j) => {
                    let name = contents.subrange(0, j);
                    if name == "<server>"@ {
                        None
                    } else {
                        Some(IncomingView {
                            channel_id: None,
                            user_id: Some(name),
                            user_name: Some(name),
                            user_color: None,
                            contents: contents.subrange(j + 2, contents.len() as int),
                        })
                    }
                },
                None => None,
            }
        } else if event == "PLAYERLIST"@ {
            Some(system_message(players_from(contents, 0)))
        } else {
            Some(system_message(contents))
        }
    }
}

/// A line without its line ending: a `\r` before the `\n` is dropped too.
pub open spec fn line_at(s: Seq<char>, start: int, end: int) -> Seq<char> {
    if end < s.len() && end > start && s[end - 1] == '\r' {
        s.subrange(start, end - 1)
    } else {
        s.subrange(start, end)
    }
}

/// The messages of the log text from position `start` on, one per line that
/// says something, in order.
pub open spec fn log_messages_from(s: Seq<char>, start: int) -> Seq<IncomingView>
    decreases s.len() - start,
    via lemma_log_messages_decreases
{
    if start < 0 || start >= s.len() {
        seq![]
    } else {
        let end = end_at(s, '\n', start);
        let here = match log_line_message(line_at(s, start, end)) {
            Some(m) => seq![m],
            None => seq![],
        };
        if end < s.len() {
            here + log_messages_from(s, end + 1)
        } else {
            here
        }
    }
}

#[via_fn]
proof fn lemma_log_messages_decreases(s: Seq<char>, start: int) {
    if 0 <= start <= s.len() {
        lemma_end_at(s, '\n', start);
    }
}

/// Describes one player-list entry.
fn describe_entry(entry: &str) -> (r: String)
    ensures
        r@ == describe_player(entry@),
{
    let n = entry.unicode_len();
    let k = find_end(entry, n, ' ', 0);
    if k < n {
        let surface = slice(entry, k + 1, n);
        let mut out = slice(entry, 0, k);
        out.append(" is on ");
        if same_text(surface.as_str(), "nauvis") {
            out.append("Nauvis");
        } else {
            out.append(surface.as_str());
        }
        out
    } else {
        String::from_str(entry)
    }
}

/// Describes a `;`-separated player list: `name is on surface`, joined with `, `.
pub fn player_list_text(list: &str) -> (r: String)
    ensures
        r@ == players_from(list@, 0),
{
    let n = list.unicode_len();
    let mut out = String::new();
    let mut pos: usize = 0;
    let mut first = true;
    loop
        invariant
            n == list@.len(),
            pos <= n,
            first ==> pos == 0 && out@.len() == 0,
            players_from(list@, 0) == out@ + (if first { Seq::<char>::empty() } else { ", "@ }) + players_from(list@, pos as int),
        decreases n - pos,
    {
        let end = find_end(list, n, ';', pos);
        let entry = describe_entry(list.substring_char(pos, end));
        let ghost old_out = out@;
        let ghost was_first = first;
        if !first {
            out.append(", ");
        }
        out.append(entry.as_str());
        first = false;
        proof {
            let sep = if was_first { Seq::<char>::empty() } else { ", "@ };
            assert(out@ =~= old_out + sep + entry@);
        }
        if end < n {
            assert(players_from(list@, 0) =~= out@ + ", "@ + players_from(list@, end + 1));
            pos = end + 1;
        } else {
            assert(players_from(list@, 0) =~= out@);
            return out;
        }
    }
}

/// Whether a message asks for the player list: `/players`, alone or with arguments.
pub open spec fn is_players_request(c: Seq<char>) -> bool {
    c == "/players"@ || (c.len() >= "/players "@.len() && c.subrange(0, "/players "@.len() as int) == "/players "@)
}

/// The console command that delivers a mirrored message to the server: the
/// player-list request for `/players`, else `/puppet [platform] text`, where the
/// text is `[color=#c]name:[/color] contents`, `name: contents`, or the
/// rendered text where the message has no sender.
pub open spec fn console_command_of(m: crate::mirror::OutgoingView) -> Seq<char> {
    let src = m.source_msg;
    if is_players_request(src.contents) {
        "/bridge-player-list"@
    } else {
        let user_text = match src.user_name {
            Some(name) => match src.user_color {
                Some(color) => "[color=#"@ + color + "]"@ + name + ":[/color] "@ + src.contents,
                None => name + ": "@ + src.contents,
            },
            None => m.content,
        };
        "/puppet ["@ + m.source_platform_name + "] "@ + user_text
    }
}

/// Builds the console command that delivers a mirrored message to the server.
pub fn console_command(msg: &OutgoingMessage) -> (r: String)
    ensures
        r@ == console_command_of(msg@),
{
    let contents = msg.source_msg.contents.as_str();
    let prefix = "/players ";
    let k = prefix.unicode_len();
    let n = contents.unicode_len();
    let asks_players = same_text(contents, "/players") || (n >= k && same_text(contents.substring_char(0, k), prefix));
    if asks_players {
        return String::from_str("/bridge-player-list");
    }
    let mut cmd = String::from_str("/puppet [");
    cmd.append(msg.source_platform_name.as_str());
    cmd.append("] ");
    match &msg.source_msg.user_name {
        Some(name) => match &msg.source_msg.user_color {
            Some(color) => {
                cmd.append("[color=#");
                cmd.append(color.as_str());
                cmd.append("]");
                cmd.append(name.as_str());
                cmd.append(":[/color] ");
                cmd.append(contents);
            },
            None => {
                cmd.append(name.as_str());
                cmd.append(": ");
                cmd.append(contents);
            },
        },
        None => {
            cmd.append(msg.content.as_str());
        },
    }
    proof {
        let m = msg@;
        match m.source_msg.user_name {
            Some(name) => match m.source_msg.user_color {
                Some(color) => {
                    assert(cmd@ =~= console_command_of(m));
                },
                None => {
                    assert(cmd@ =~= console_command_of(m));
                },
            },
            None => {
                assert(cmd@ =~= console_command_of(m));
            },
        }
    }
    cmd
}

/// What one line of the bridge log says, if anything.
pub fn parse_log_line(line: &str) -> (r: Option<IncomingMessage>)
    ensures
        match r {
            Some(m) => log_line_message(line@) == Some(m@),
            None => log_line_message(line@) is None,
        },
{
    let n = line.unicode_len();
    let i = find_end(line, n, ' ', 0);
    if i >= n {
        return None;
    }
    let event = line.substring_char(0, i);
    let contents = line.substring_char(i + 1, n);
    if same_text(event, "CHAT") {
        match find_pair(contents, ':', ' ') {
            Some(j) => {
                let name = slice(contents, 0, j);
                if same_text(name.as_str(), "<server>") {
                    None
                } else {
                    let text = slice(contents, j + 2, contents.unicode_len());
                    Some(IncomingMessage {
                        channel_id: None,
                        user_id: Some(name.clone()),
                        user_name: Some(name),
                        user_color: None,
                        contents: text,
                    })
                }
            },
            None => None,
        }
    } else if same_text(event, "PLAYERLIST") {
        Some(IncomingMessage {
            channel_id: None,
            user_id: None,
            user_name: None,
            user_color: None,
            contents: player_list_text(contents),
        })
    } else {
        Some(IncomingMessage {
            channel_id: None,
            user_id: None,
            user_name: None,
            user_color: None,
            contents: String::from_str(contents),
        })
    }
}

/// The messages of newly appended log text, one per line that says something,
/// in order. Lines end at `\n` or `\r\n`; the last one needs no line ending.
pub fn process_log(new_contents: &str) -> (r: Vec<IncomingMessage>)
    ensures
        r@.map_values(|m: IncomingMessage| m@) == log_messages_from(new_contents@, 0),
{
    let s = new_contents;
    let n = s.unicode_len();
    let mut out: Vec<IncomingMessage> = Vec::new();
    let mut pos: usize = 0;
    while pos < n
        invariant
            n == s@.len(),
            pos <= n,
            log_messages_from(s@, 0) == out@.map_values(|m: IncomingMessage| m@) + log_messages_from(s@, pos as int),
        decreases n - pos,
    {
        let end = find_end(s, n, '\n', pos);
        let line_end = if end < n && end > pos && s.get_char(end - 1) == '\r' { end - 1 } else { end };
        let line = s.substring_char(pos, line_end);
        assert(line@ == line_at(s@, pos as int, end as int));
        let ghost before = out@.map_values(|m: IncomingMessage| m@);
        match parse_log_line(line) {
            Some(m) => {
                out.push(m);
                assert(out@.map_values(|m: IncomingMessage| m@) =~= before.push(m@));
            },
            None => {},
        }
        assert(log_messages_from(s@, 0) =~= out@.map_values(|m: IncomingMessage| m@) + log_messages_from(s@, end + 1));
        if end < n {
            pos = end + 1;
        } else {
            assert(log_messages_from(s@, end + 1) == log_messages_from(s@, n as int));
            pos = n;
        }
    }
    assert(log_messages_from(s@, pos as int) =~= Seq::<IncomingView>::empty());
    out
}

} // verus!

//! The host's side of a shared shell session: which room it serves, what a
//! socket event does to the shell, and what shell output becomes.

use vstd::prelude::*;
use vstd::string::*;
use vstd::utf8::encode_utf8;
use crate::payload::{payload_text, room_name, room_name_of, single_string, EventPayload, PayloadError};
use crate::render::{escape_pattern_accepted, opt_text, regex_replaced, render_output, rendered, ESCAPE_PATTERN};
use crate::term::{trim_newline, without_newline};

verus! {

/// The events that the host and the relay exchange.
#[derive(PartialEq, Eq, Structural, Clone, Copy, Debug)]
pub enum EventKind {
    /// The host announces itself to the relay.
    Host,
    /// A line typed at the host, sent to the room.
    Command,
    /// A line of the shell's standard output.
    Response,
    /// A line of the shell's standard error, or the host's farewell.
    Error,
}

/// The name under which an event travels.
pub open spec fn event_name(kind: EventKind) -> Seq<char> {
    match kind {
        EventKind::Host => "host"@,
        EventKind::Command => "command"@,
        EventKind::Response => "response"@,
        EventKind::Error => "error"@,
    }
}

/// The name under which an event's text travels inside its JSON object.
pub open spec fn body_key(kind: EventKind) -> Seq<char> {
    match kind {
        EventKind::Command => "command"@,
        _ => "response"@,
    }
}

impl EventKind {
    /// The name under which the event travels.
    pub fn name(&self) -> (r: &'static str)
        ensures
            r@ == event_name(*self),
    {
        match self {
            EventKind::Host => "host",
            EventKind::Command => "command",
            EventKind::Response => "response",
            EventKind::Error => "error",
        }
    }

    /// Whether the event travels as its text alone rather than as a JSON
    /// object (only the `host` greeting does).
    pub fn plain_text(&self) -> (r: bool)
        ensures
            r == (*self == EventKind::Host),
    {
        match self {
            EventKind::Host => true,
            _ => false,
        }
    }

    /// The key of the event's text inside its JSON object.
    pub fn key(&self) -> (r: &'static str)
        ensures
            r@ == body_key(*self),
    {
        match self {
            EventKind::Command => "command",
            _ => "response",
        }
    }
}

/// An event for the relay: `{ "room": room, key: text }` where `key` is the
/// kind's body key (the `Host` event carries its text alone).
pub struct Outgoing {
    pub kind: EventKind,
    pub room: Option<String>,
    pub text: String,
}

/// The words with which the host announces itself.
pub const HOST_GREETING: &'static str = "quidquid latine dictum sit; altum sonatur";

/// The words sent to the room when the host leaves.
pub const FAREWELL: &'static str = "host disconnected";

/// What a `command` event does to the shell.
pub enum ShellInput {
    /// Interrupt the shell process with this id (`kill -2`).
    Interrupt(u32),
    /// Write this text to the shell's standard input.
    Write(String),
}

/// A `ShellInput` taken by its view.
pub enum ShellInputView {
    Interrupt(u32),
    Write(Seq<char>),
}

pub open spec fn shell_input_view(i: ShellInput) -> ShellInputView {
    match i {
        ShellInput::Interrupt(pid) => ShellInputView::Interrupt(pid),
        ShellInput::Write(s) => ShellInputView::Write(s@),
    }
}

/// The single character Ctrl-C, which a `command` event sends to interrupt
/// the shell.
pub open spec fn is_ctrl_c(s: Seq<char>) -> bool {
    encode_utf8(s) == seq![3u8]
}

/// What a `command` event does to the shell of process `pid`: Ctrl-C
/// interrupts it, any other text is written to it followed by a line feed.
pub open spec fn command_of(p: EventPayload, pid: u32) -> Result<ShellInputView, PayloadError> {
    match payload_text(p) {
        Ok(s) => if is_ctrl_c(s) {
            Ok(ShellInputView::Interrupt(pid))
        } else {
            Ok(ShellInputView::Write(s.push('\n')))
        },
        Err(e) => Err(e),
    }
}

/// Each event travels under its own fixed name, the four names are all
/// different, and an event's text sits under `command` for typed lines and
/// under `response` otherwise.
pub proof fn lemma_event_names(a: EventKind, b: EventKind)
    ensures
        event_name(EventKind::Host) == "host"@,
        event_name(EventKind::Command) == "command"@,
        event_name(EventKind::Response) == "response"@,
        event_name(EventKind::Error) == "error"@,
        a != b ==> event_name(a) != event_name(b),
        body_key(EventKind::Command) == "command"@,
        body_key(EventKind::Response) == "response"@,
        body_key(EventKind::Error) == "response"@,
        stream_kind(OutputStream::Stdout) == EventKind::Response,
        stream_kind(OutputStream::Stderr) == EventKind::Error,
{
    reveal_strlit("host");
    reveal_strlit("command");
    reveal_strlit("response");
    reveal_strlit("error");
    if a != b {
        let x = event_name(a);
        let y = event_name(b);
        if x.len() == y.len() {
            // names of equal length differ in their first character
            assert(x[0] != y[0]);
        }
    }
}

/// What a command does to the shell: a single Ctrl-C byte interrupts the
/// session's shell, and any other text (a single key included) is written
/// in full and followed by exactly one line feed.
pub proof fn lemma_command_writes_text_and_line_feed(p: EventPayload, pid: u32)
    ensures
        payload_text(p) is Err ==> command_of(p, pid) == Err::<ShellInputView, PayloadError>(payload_text(p)->Err_0),
        payload_text(p) matches Ok(s) && encode_utf8(s) == seq![3u8]
            ==> command_of(p, pid) == Ok::<ShellInputView, PayloadError>(ShellInputView::Interrupt(pid)),
        forall|s: Seq<char>| payload_text(p) == Ok::<Seq<char>, PayloadError>(s) && encode_utf8(s) != seq![3u8]
            ==> (command_of(p, pid) matches Ok(ShellInputView::Write(w))
                && w.len() == s.len() + 1
                && w[w.len() - 1] == '\n'
                && forall|i: int| 0 <= i < s.len() ==> #[trigger] w[i] == s[i]),
{
}

/// Which output stream of the shell a line came from.
#[derive(PartialEq, Eq, Structural, Clone, Copy, Debug)]
pub enum OutputStream {
    Stdout,
    Stderr,
}

/// What a read from one of the shell's output streams gave.
pub enum StreamRead {
    /// The stream ended.
    Closed,
    /// A line, with its line feed if it had one.
    Line(String),
    /// The read failed.
    Failed,
}

/// What the host does after a read from the shell's output.
pub enum StreamAction {
    /// The shell is gone: shut the whole host down.
    Shutdown,
    /// Print `echo` on the host's terminal and send `event` to the relay.
    Emit { echo: String, event: Outgoing },
    /// Stop forwarding output.
    Stop,
}

/// The room name after a `room` event: a valid name replaces it, anything
/// else leaves it as it was.
pub open spec fn room_after(room: Option<Seq<char>>, p: EventPayload) -> Option<Seq<char>> {
    match room_name_of(p) {
        Ok(name) => Some(name),
        Err(_) => room,
    }
}

/// A `room` event that names a valid room decides the room name, whatever
/// the name was before; an invalid one changes nothing; and repeating an
/// event changes nothing more.
pub proof fn lemma_last_valid_room_wins(room: Option<Seq<char>>, p: EventPayload, q: EventPayload)
    ensures
        room_name_of(q) is Ok ==> room_after(room_after(room, p), q) == room_after(None, q),
        room_name_of(q) is Err ==> room_after(room, q) == room,
        room_after(room_after(room, p), p) == room_after(room, p),
{
}

/// A read from an output stream, taken by its view.
pub ghost enum ReadView {
    Closed,
    Line(Seq<char>),
    Failed,
}

pub open spec fn read_view(r: StreamRead) -> ReadView {
    match r {
        StreamRead::Closed => ReadView::Closed,
        StreamRead::Line(buf) => ReadView::Line(buf@),
        StreamRead::Failed => ReadView::Failed,
    }
}

/// What the host does after a read, taken by its view.
pub ghost enum ActionView {
    Shutdown,
    Emit { echo: Seq<char>, kind: EventKind, room: Option<Seq<char>>, text: Seq<char> },
    Stop,
}

pub open spec fn action_view(a: StreamAction) -> ActionView {
    match a {
        StreamAction::Shutdown => ActionView::Shutdown,
        StreamAction::Emit { echo, event } => ActionView::Emit {
            echo: echo@,
            kind: event.kind,
            room: opt_text(event.room),
            text: event.text@,
        },
        StreamAction::Stop => ActionView::Stop,
    }
}

/// The event under which a stream's lines travel.
pub open spec fn stream_kind(s: OutputStream) -> EventKind {
    match s {
        OutputStream::Stdout => EventKind::Response,
        OutputStream::Stderr => EventKind::Error,
    }
}

/// What the host does after a read from `stream` while the room is `room`.
pub open spec fn output_step(room: Option<Seq<char>>, stream: OutputStream, read: ReadView) -> ActionView {
    match read {
        ReadView::Closed => ActionView::Shutdown,
        ReadView::Failed => ActionView::Stop,
        ReadView::Line(buf) => match rendered(without_newline(buf)) {
            Some(text) => ActionView::Emit { echo: without_newline(buf), kind: stream_kind(stream), room, text },
            None => ActionView::Stop,
        },
    }
}

/// A read that gives a line the host can render, so that the run goes on.
pub open spec fn forwards(read: ReadView) -> bool {
    read matches ReadView::Line(buf) && rendered(without_newline(buf)) is Some
}

/// The events sent for a run of reads, in order, up to the read that ends
/// the run: each is its kind, its room and its text.
pub open spec fn output_events(room: Option<Seq<char>>, reads: Seq<(OutputStream, ReadView)>) -> Seq<(EventKind, Option<Seq<char>>, Seq<char>)>
    decreases reads.len(),
{
    if reads.len() == 0 {
        seq![]
    } else {
        match output_step(room, reads[0].0, reads[0].1) {
            ActionView::Emit { echo, kind, room: r, text } => seq![(kind, r, text)] + output_events(room, reads.drop_first()),
            _ => seq![],
        }
    }
}

/// The action that ends a run of reads, if one does.
pub open spec fn output_end(room: Option<Seq<char>>, reads: Seq<(OutputStream, ReadView)>) -> Option<ActionView>
    decreases reads.len(),
{
    if reads.len() == 0 {
        None
    } else {
        match output_step(room, reads[0].0, reads[0].1) {
            ActionView::Emit { .. } => output_end(room, reads.drop_first()),
            a => Some(a),
        }
    }
}

/// The lines of `stream`, without their line feeds, read before the run ends.
pub open spec fn forwarded_lines(reads: Seq<(OutputStream, ReadView)>, stream: OutputStream) -> Seq<Seq<char>>
    decreases reads.len(),
{
    if reads.len() == 0 || !forwards(reads[0].1) {
        seq![]
    } else {
        let line = without_newline(reads[0].1->Line_0);
        let rest = forwarded_lines(reads.drop_first(), stream);
        if reads[0].0 == stream {
            seq![line] + rest
        } else {
            rest
        }
    }
}

/// The rooms and texts of the events of one kind, in order.
pub open spec fn events_of(events: Seq<(EventKind, Option<Seq<char>>, Seq<char>)>, kind: EventKind) -> Seq<(Option<Seq<char>>, Seq<char>)>
    decreases events.len(),
{
    if events.len() == 0 {
        seq![]
    } else {
        let rest = events_of(events.drop_first(), kind);
        if events[0].0 == kind {
            seq![(events[0].1, events[0].2)] + rest
        } else {
            rest
        }
    }
}

/// What is sent for a line: the room and the rendered line.
pub open spec fn sent_for(room: Option<Seq<char>>, line: Seq<char>) -> (Option<Seq<char>>, Seq<char>) {
    (room, rendered(line)->0)
}

/// Every line read from a stream is sent once, in order, under its stream's
/// event (`response` for standard output, `error` for standard error), with
/// the room and the line rendered; no `host` or `command` event is sent; and
/// a run of forwarded lines that ends with a closed stream ends in shutdown.
pub proof fn lemma_output_forwarded_in_order(room: Option<Seq<char>>, reads: Seq<(OutputStream, ReadView)>)
    ensures
        events_of(output_events(room, reads), EventKind::Response)
            == forwarded_lines(reads, OutputStream::Stdout).map_values(|l: Seq<char>| sent_for(room, l)),
        events_of(output_events(room, reads), EventKind::Error)
            == forwarded_lines(reads, OutputStream::Stderr).map_values(|l: Seq<char>| sent_for(room, l)),
        events_of(output_events(room, reads), EventKind::Host).len() == 0,
        events_of(output_events(room, reads), EventKind::Command).len() == 0,
        reads.len() > 0 && reads.last().1 is Closed
            && (forall|i: int| 0 <= i < reads.len() - 1 ==> forwards(#[trigger] reads[i].1))
            ==> output_end(room, reads) == Some(ActionView::Shutdown)
                && output_events(room, reads).len() == reads.len() - 1,
    decreases reads.len(),
{
    if reads.len() > 0 {
        let rest = reads.drop_first();
        lemma_output_forwarded_in_order(room, rest);
        let evs = output_events(room, reads);
        let rest_evs = output_events(room, rest);
        if forwards(reads[0].1) {
            let line = without_newline(reads[0].1->Line_0);
            let e = (stream_kind(reads[0].0), room, rendered(line)->0);
            assert(evs == seq![e] + rest_evs);
            assert(evs.drop_first() =~= rest_evs);
            let out = forwarded_lines(reads, OutputStream::Stdout);
            let err = forwarded_lines(reads, OutputStream::Stderr);
            let f = |l: Seq<char>| sent_for(room, l);
            if reads[0].0 == OutputStream::Stdout {
                assert(out.map_values(f) =~= seq![f(line)] + forwarded_lines(rest, OutputStream::Stdout).map_values(f));
            } else {
                assert(err.map_values(f) =~= seq![f(line)] + forwarded_lines(rest, OutputStream::Stderr).map_values(f));
            }
            if reads.len() > 1 && reads.last().1 is Closed
                && (forall|i: int| 0 <= i < reads.len() - 1 ==> forwards(#[trigger] reads[i].1)) {
                assert(rest.last() == reads.last());
                assert forall|i: int| 0 <= i < rest.len() - 1 implies forwards(#[trigger] rest[i].1) by {
                    assert(rest[i] == reads[i + 1]);
                }
            }
        } else {
            assert(output_events(room, reads).len() == 0);
        }
    }
}

/// The lines of `stream`, without their line feeds, read before the first
/// read that is not a line.
pub open spec fn lines_read(reads: Seq<(OutputStream, ReadView)>, stream: OutputStream) -> Seq<Seq<char>>
    decreases reads.len(),
{
    if reads.len() == 0 || !(reads[0].1 is Line) {
        seq![]
    } else {
        let line = without_newline(reads[0].1->Line_0);
        let rest = lines_read(reads.drop_first(), stream);
        if reads[0].0 == stream {
            seq![line] + rest
        } else {
            rest
        }
    }
}

/// Where every line renders, a line is forwarded exactly when it is read.
proof fn lemma_all_lines_render(reads: Seq<(OutputStream, ReadView)>, stream: OutputStream)
    requires
        forall|t: Seq<char>| #[trigger] rendered(t) is Some,
    ensures
        forwarded_lines(reads, stream) == lines_read(reads, stream),
    decreases reads.len(),
{
    if reads.len() > 0 {
        lemma_all_lines_render(reads.drop_first(), stream);
        if reads[0].1 is Line {
            assert(rendered(without_newline(reads[0].1->Line_0)) is Some);
        }
    }
}

/// Where the regex engine accepts the escape pattern (which
/// `check_escape_pattern` tells), every line read from standard output is
/// sent once, in order, as a `response` event, and every line read from
/// standard error once, in order, as an `error` event, each with the room
/// and the line rendered, up to the first read that is not a line; and
/// lines followed by a closed stream end in shutdown.
pub proof fn lemma_every_line_forwarded(room: Option<Seq<char>>, reads: Seq<(OutputStream, ReadView)>)
    requires
        escape_pattern_accepted(),
    ensures
        events_of(output_events(room, reads), EventKind::Response)
            == lines_read(reads, OutputStream::Stdout).map_values(|l: Seq<char>| sent_for(room, l)),
        events_of(output_events(room, reads), EventKind::Error)
            == lines_read(reads, OutputStream::Stderr).map_values(|l: Seq<char>| sent_for(room, l)),
        events_of(output_events(room, reads), EventKind::Host).len() == 0,
        events_of(output_events(room, reads), EventKind::Command).len() == 0,
        reads.len() > 0 && reads.last().1 is Closed
            && (forall|i: int| 0 <= i < reads.len() - 1 ==> #[trigger] reads[i].1 is Line)
            ==> output_end(room, reads) == Some(ActionView::Shutdown)
                && output_events(room, reads).len() == reads.len() - 1,
{
    assert forall|t: Seq<char>| #[trigger] rendered(t) is Some by {
        assert(regex_replaced(ESCAPE_PATTERN@, t, ""@) is Some);
    }
    lemma_all_lines_render(reads, OutputStream::Stdout);
    lemma_all_lines_render(reads, OutputStream::Stderr);
    lemma_output_forwarded_in_order(room, reads);
    if reads.len() > 0 && reads.last().1 is Closed
        && (forall|i: int| 0 <= i < reads.len() - 1 ==> #[trigger] reads[i].1 is Line) {
        assert forall|i: int| 0 <= i < reads.len() - 1 implies forwards(#[trigger] reads[i].1) by {
            assert(reads[i].1 is Line);
            assert(rendered(without_newline(reads[i].1->Line_0)) is Some);
        }
    }
}

/// The state of the host: the room it serves, once one is set, and the
/// process id of its shell.
pub struct Session {
    pub room_name: Option<String>,
    pub child_pid: u32,
}

impl Session {
    /// A session of the shell `child_pid`, with no room yet.
    pub fn new(child_pid: u32) -> (s: Self)
        ensures
            s.room_name is None,
            s.child_pid == child_pid,
    {
        Session { room_name: None, child_pid }
    }

    /// A `room` event: a valid name replaces the room name; an invalid
    /// payload changes nothing and says why.
    pub fn room(&mut self, payload: &EventPayload) -> (r: Result<(), PayloadError>)
        ensures
            final(self).child_pid == old(self).child_pid,
            opt_text(final(self).room_name) == room_after(opt_text(old(self).room_name), *payload),
            match room_name_of(*payload) {
                Ok(name) => r is Ok,
                Err(e) => r == Err::<(), PayloadError>(e) && final(self).room_name == old(self).room_name,
            },
    {
        match room_name(payload) {
            Ok(name) => {
                self.room_name = Some(name);
                Ok(())
            },
            Err(e) => Err(e),
        }
    }

    /// A `command` event: what to do to the shell. The session itself is
    /// left as it is; the only effects are the returned input for the shell
    /// (bytes to write, or an interrupt of this session's shell process).
    pub fn command(&self, payload: &EventPayload) -> (r: Result<ShellInput, PayloadError>)
        ensures
            match r {
                Ok(i) => command_of(*payload, self.child_pid) == Ok::<ShellInputView, PayloadError>(shell_input_view(i)),
                Err(e) => command_of(*payload, self.child_pid) == Err::<ShellInputView, PayloadError>(e),
            },
    {
        let mut val = match single_string(payload) {
            Ok(s) => s,
            Err(e) => return Err(e),
        };
        let bytes = val.as_str().as_bytes();
        if bytes.len() == 1 && bytes[0] == 3u8 {
            proof {
                assert(encode_utf8(val@) =~= seq![3u8]);
            }
            return Ok(ShellInput::Interrupt(self.child_pid));
        }
        proof {
            reveal_strlit("\n");
            assert(!is_ctrl_c(val@));
        }
        let ghost before = val@;
        val.append("\n");
        proof {
            assert(val@ =~= before.push('\n'));
        }
        Ok(ShellInput::Write(val))
    }

    /// A line typed at the host: sent to the room as a `command` event, or
    /// nothing while no room is set.
    pub fn command_event(&self, input: String) -> (r: Option<Outgoing>)
        ensures
            r is None <==> self.room_name is None,
            r is Some ==> r->0.kind == EventKind::Command && r->0.room == self.room_name && r->0.text == input,
    {
        match &self.room_name {
            Some(name) => Some(Outgoing { kind: EventKind::Command, room: Some(name.clone()), text: input }),
            None => None,
        }
    }

    /// The event that tells the room that the host leaves.
    pub fn farewell_event(&self) -> (r: Outgoing)
        ensures
            r.kind == EventKind::Error,
            r.room == self.room_name,
            r.text@ == FAREWELL@,
    {
        let room = match &self.room_name {
            Some(name) => Some(name.clone()),
            None => None,
        };
        Outgoing { kind: EventKind::Error, room, text: String::from_str(FAREWELL) }
    }

    /// What follows a read from one of the shell's output streams: an ended
    /// stream shuts the host down, a failed read stops forwarding, and a
    /// line is printed without its line feed and sent to the room rendered
    /// (standard output as `response`, standard error as `error`).
    pub fn on_output(&self, stream: OutputStream, read: StreamRead) -> (r: StreamAction)
        ensures
            action_view(r) == output_step(opt_text(self.room_name), stream, read_view(read)),
            read is Closed ==> r is Shutdown,
            read is Failed ==> r is Stop,
            read matches StreamRead::Line(buf) ==> {
                let line = without_newline(buf@);
                match rendered(line) {
                    Some(text) => r matches StreamAction::Emit { echo, event } && {
                        &&& echo@ == line
                        &&& event.kind == (if stream == OutputStream::Stdout { EventKind::Response } else { EventKind::Error })
                        &&& event.room == self.room_name
                        &&& event.text@ == text
                    },
                    None => r is Stop,
                }
            },
    {
        match read {
            StreamRead::Closed => StreamAction::Shutdown,
            StreamRead::Failed => StreamAction::Stop,
            StreamRead::Line(buf) => {
                let line = trim_newline(buf);
                match render_output(&line) {
                    Some(text) => {
                        let kind = match stream {
                            OutputStream::Stdout => EventKind::Response,
                            OutputStream::Stderr => EventKind::Error,
                        };
                        let room = match &self.room_name {
                            Some(name) => Some(name.clone()),
                            None => None,
                        };
                        StreamAction::Emit { echo: line, event: Outgoing { kind, room, text } }
                    },
                    None => StreamAction::Stop,
                }
            },
        }
    }
}

/// The event with which the host announces itself.
pub fn host_event() -> (r: Outgoing)
    ensures
        r.kind == EventKind::Host,
        r.room is None,
        r.text@ == HOST_GREETING@,
{
    Outgoing { kind: EventKind::Host, room: None, text: String::from_str(HOST_GREETING) }
}

} // verus!

use crabhole::payload::{room_name, single_string, ArgValue, EventPayload, PayloadError};
use crabhole::render::{check_escape_pattern, html_or_line, render_output, strip_escapes, to_html};
use crabhole::session::{
    host_event, EventKind, OutputStream, Session, ShellInput, StreamAction, StreamRead,
};
use crabhole::term::{decimal_text, error_text, room_notice, trim_newline, warning_text, PROMPT};

fn text(args: &[&str]) -> EventPayload {
    EventPayload::Text(args.iter().map(|s| ArgValue::Str(s.to_string())).collect())
}

#[test]
fn room_accepts_a_name_of_five_to_thirty_bytes() {
    let mut s = Session::new(42);
    assert_eq!(s.room(&text(&["1-noisy-llama"])), Ok(()));
    assert_eq!(s.room_name.as_deref(), Some("1-noisy-llama"));
    assert_eq!(s.child_pid, 42);
    assert_eq!(room_name(&text(&["abcde"])).unwrap(), "abcde");
    assert_eq!(room_name(&text(&[&"x".repeat(30)])).unwrap(), "x".repeat(30));
}

#[test]
fn room_rejects_bad_lengths_and_keeps_the_old_name() {
    let mut s = Session::new(1);
    s.room(&text(&["first-room"])).unwrap();
    assert_eq!(s.room(&text(&["abcd"])), Err(PayloadError::RoomLength(4)));
    assert_eq!(s.room(&text(&[&"y".repeat(31)])), Err(PayloadError::RoomLength(31)));
    assert_eq!(s.room_name.as_deref(), Some("first-room"));
}

#[test]
fn room_length_counts_bytes_not_characters() {
    // three characters of two bytes each: six bytes
    assert_eq!(room_name(&text(&["ééé"])).unwrap(), "ééé");
    // two characters of two bytes each: four bytes
    assert_eq!(room_name(&text(&["éé"])), Err(PayloadError::RoomLength(4)));
}

#[test]
fn payloads_must_carry_exactly_one_string() {
    assert_eq!(single_string(&EventPayload::NonText), Err(PayloadError::NotText));
    assert_eq!(single_string(&text(&[])), Err(PayloadError::WrongCount(0)));
    assert_eq!(single_string(&text(&["a", "b"])), Err(PayloadError::WrongCount(2)));
    assert_eq!(
        single_string(&EventPayload::Text(vec![ArgValue::NonString])),
        Err(PayloadError::NotString)
    );
    assert_eq!(single_string(&text(&["ls"])).unwrap(), "ls");
}

#[test]
fn ctrl_c_interrupts_the_shell() {
    let s = Session::new(777);
    match s.command(&text(&["\u{3}"])) {
        Ok(ShellInput::Interrupt(pid)) => assert_eq!(pid, 777),
        _ => panic!("expected an interrupt"),
    }
}

#[test]
fn other_commands_are_written_with_a_line_feed() {
    let s = Session::new(7);
    match s.command(&text(&["ls -la"])) {
        Ok(ShellInput::Write(w)) => assert_eq!(w, "ls -la\n"),
        _ => panic!("expected a write"),
    }
    match s.command(&text(&["\u{3}\u{3}"])) {
        Ok(ShellInput::Write(w)) => assert_eq!(w, "\u{3}\u{3}\n"),
        _ => panic!("expected a write"),
    }
    assert!(matches!(s.command(&EventPayload::NonText), Err(PayloadError::NotText)));
}

#[test]
fn typed_lines_need_a_room() {
    let mut s = Session::new(7);
    assert!(s.command_event("ls".to_string()).is_none());
    s.room(&text(&["my-room"])).unwrap();
    let e = s.command_event("ls".to_string()).unwrap();
    assert_eq!(e.kind, EventKind::Command);
    assert_eq!(e.kind.name(), "command");
    assert_eq!(e.kind.key(), "command");
    assert_eq!(e.room.as_deref(), Some("my-room"));
    assert_eq!(e.text, "ls");
}

#[test]
fn farewell_and_greeting() {
    let s = Session::new(7);
    let f = s.farewell_event();
    assert_eq!(f.kind.name(), "error");
    assert_eq!(f.kind.key(), "response");
    assert!(f.room.is_none());
    assert_eq!(f.text, "host disconnected");
    let h = host_event();
    assert_eq!(h.kind.name(), "host");
    assert_eq!(h.text, "quidquid latine dictum sit; altum sonatur");
}

#[test]
fn escape_sequences_other_than_styles_are_stripped() {
    assert_eq!(strip_escapes("\x1b[2Jclear").unwrap(), "clear");
    assert_eq!(strip_escapes("\x1b]0;title\x07prompt").unwrap(), "prompt");
    // colour settings end in `m` and stay for the HTML conversion
    assert_eq!(strip_escapes("\x1b[31mred").unwrap(), "\x1b[31mred");
    assert_eq!(strip_escapes("plain").unwrap(), "plain");
}

#[test]
fn colours_become_html() {
    assert_eq!(
        to_html("\x1b[31mRed").unwrap(),
        "<span style='color:var(--red,#a00)'>Red</span>"
    );
    assert_eq!(to_html("a < b").unwrap(), "a &lt; b");
    assert_eq!(html_or_line("raw".to_string(), None), "raw");
    assert_eq!(html_or_line("raw".to_string(), Some("html".to_string())), "html");
}

#[test]
fn output_lines_are_rendered() {
    assert_eq!(
        render_output(&"\x1b[2J\x1b[1mBold".to_string()).unwrap(),
        "<b>Bold</b>"
    );
    assert_eq!(render_output(&"hello".to_string()).unwrap(), "hello");
}

#[test]
fn output_becomes_room_events() {
    let mut s = Session::new(3);
    s.room(&text(&["room-one"])).unwrap();
    match s.on_output(OutputStream::Stdout, StreamRead::Line("hi\n".to_string())) {
        StreamAction::Emit { echo, event } => {
            assert_eq!(echo, "hi");
            assert_eq!(event.kind, EventKind::Response);
            assert_eq!(event.room.as_deref(), Some("room-one"));
            assert_eq!(event.text, "hi");
        }
        _ => panic!("expected an event"),
    }
    match s.on_output(OutputStream::Stderr, StreamRead::Line("oops".to_string())) {
        StreamAction::Emit { echo, event } => {
            assert_eq!(echo, "oops");
            assert_eq!(event.kind, EventKind::Error);
            assert_eq!(event.text, "oops");
        }
        _ => panic!("expected an event"),
    }
    assert!(matches!(s.on_output(OutputStream::Stdout, StreamRead::Closed), StreamAction::Shutdown));
    assert!(matches!(s.on_output(OutputStream::Stderr, StreamRead::Failed), StreamAction::Stop));
}

#[test]
fn one_trailing_line_feed_is_removed() {
    assert_eq!(trim_newline("abc\n".to_string()), "abc");
    assert_eq!(trim_newline("abc\n\n".to_string()), "abc\n");
    assert_eq!(trim_newline("abc".to_string()), "abc");
    assert_eq!(trim_newline("\n".to_string()), "");
    assert_eq!(trim_newline(String::new()), "");
    assert_eq!(trim_newline("é\n".to_string()), "é");
}

#[test]
fn terminal_styles() {
    assert_eq!(warning_text("careful"), "\x1b[92mcareful\x1b[0m");
    assert_eq!(error_text("broken"), "\x1b[91mbroken\x1b[0m");
    assert_eq!(room_notice("abc-room"), "\x1b[33msetting room name to abc-room\x1b[0m");
    assert_eq!(PROMPT, "\x1b[1m> \x1b[0m");
}

#[test]
fn warnings_for_ignored_payloads() {
    assert_eq!(
        PayloadError::RoomLength(4).message(""),
        "expected string length between 5 and 30, got len 4"
    );
    assert_eq!(
        warning_text(&PayloadError::RoomLength(4).message("")),
        "\x1b[92mexpected string length between 5 and 30, got len 4\x1b[0m"
    );
    assert_eq!(
        PayloadError::WrongCount(12).message(""),
        "expected vec of 1 item, got 12 item(s)"
    );
    assert_eq!(PayloadError::NotString.message("Number(3)"), "expected String, got Number(3)");
    assert_eq!(PayloadError::NotText.message("Binary(b\"\")"), "expected String(s), got Binary(b\"\")");
}

#[test]
fn decimal_numbers() {
    assert_eq!(decimal_text(0), "0");
    assert_eq!(decimal_text(7), "7");
    assert_eq!(decimal_text(10), "10");
    assert_eq!(decimal_text(4096), "4096");
    assert_eq!(decimal_text(usize::MAX), usize::MAX.to_string());
}

#[test]
fn output_runs_forward_each_stream_in_order() {
    let mut s = Session::new(3);
    s.room(&text(&["room-two"])).unwrap();
    let reads = vec![
        (OutputStream::Stdout, StreamRead::Line("one\n".to_string())),
        (OutputStream::Stderr, StreamRead::Line("bad\n".to_string())),
        (OutputStream::Stdout, StreamRead::Line("two\n".to_string())),
        (OutputStream::Stdout, StreamRead::Closed),
        (OutputStream::Stdout, StreamRead::Line("never".to_string())),
    ];
    let mut sent = Vec::new();
    let mut shut = false;
    for (stream, read) in reads {
        match s.on_output(stream, read) {
            StreamAction::Emit { event, .. } => sent.push((event.kind, event.room, event.text)),
            StreamAction::Shutdown => {
                shut = true;
                break;
            }
            StreamAction::Stop => break,
        }
    }
    assert!(shut);
    let room = Some("room-two".to_string());
    assert_eq!(
        sent,
        vec![
            (EventKind::Response, room.clone(), "one".to_string()),
            (EventKind::Error, room.clone(), "bad".to_string()),
            (EventKind::Response, room.clone(), "two".to_string()),
        ]
    );
}

#[test]
fn the_escape_pattern_compiles() {
    assert!(check_escape_pattern());
}

#[test]
fn colour_sequences_reach_the_converter() {
    let line = "\x1b[31mred\x1b[0m";
    assert_eq!(strip_escapes(line).unwrap(), line);
    assert_eq!(
        render_output(&line.to_string()).unwrap(),
        to_html(line).unwrap()
    );
    assert_eq!(
        render_output(&"\x1b[1;32mok\x1b[0m\x1b[2K".to_string()).unwrap(),
        to_html("\x1b[1;32mok\x1b[0m").unwrap()
    );
}

#[test]
fn only_the_greeting_is_plain_text() {
    assert!(EventKind::Host.plain_text());
    assert!(!EventKind::Command.plain_text());
    assert!(!EventKind::Response.plain_text());
    assert!(!EventKind::Error.plain_text());
}

#[test]
fn commands_leave_the_session_alone() {
    let mut s = Session::new(9);
    s.room(&text(&["stay-here"])).unwrap();
    let _ = s.command(&text(&["\u{3}"]));
    let _ = s.command(&text(&["echo hi"]));
    assert_eq!(s.room_name.as_deref(), Some("stay-here"));
    assert_eq!(s.child_pid, 9);
}

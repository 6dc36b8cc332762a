use chat_core::client::{MessageType, ServerMessage, State, Timestamp};
use chat_core::model::{Response, ServerResponse};
use chat_core::ui::{
    clock_string, render_message, render_messages, scroll_offset, split_at_line_ends, status_line,
    ui, Line, Tone,
};

fn parts(line: &Line) -> Vec<(String, Tone)> {
    line.spans.iter().map(|s| (s.text.clone(), s.tone)).collect()
}

fn part(text: &str, tone: Tone) -> (String, Tone) {
    (text.to_string(), tone)
}

fn at(hour: u32, minute: u32) -> Timestamp {
    Timestamp { hour, minute }
}

#[test]
fn clock_string_pads_to_two_digits() {
    assert_eq!(clock_string(at(9, 5)), "[09:05] ");
    assert_eq!(clock_string(at(0, 0)), "[00:00] ");
    assert_eq!(clock_string(at(23, 59)), "[23:59] ");
    assert_eq!(clock_string(at(10, 10)), "[10:10] ");
    assert_eq!(clock_string(at(123, 7)), "[123:07] ");
}

#[test]
fn split_at_line_ends_agrees_with_split() {
    for text in ["", "a", "a\nb", "a\n", "\na", "\n", "\n\n", "one\ntwo\n\nfour", "tr\u{e9}s\nbien"] {
        let expected: Vec<String> = text.split('\n').map(|p| p.to_string()).collect();
        assert_eq!(split_at_line_ends(text), expected, "{:?}", text);
    }
}

#[test]
fn a_public_message_is_one_line_in_three_parts() {
    let message = ServerMessage {
        ty: MessageType::Public { msg: "hello".to_string(), from: "bob".to_string() },
        timestamp: at(9, 5),
    };
    let lines = render_message(&message);
    assert_eq!(lines.len(), 1);
    assert_eq!(
        parts(&lines[0]),
        vec![part("[09:05] ", Tone::YellowBold), part("bob: ", Tone::Bold), part("hello", Tone::Plain)]
    );
}

#[test]
fn a_private_message_is_one_green_line() {
    let message = ServerMessage {
        ty: MessageType::Private { msg: "psst".to_string(), from: "bob".to_string() },
        timestamp: at(21, 30),
    };
    let lines = render_message(&message);
    assert_eq!(lines.len(), 1);
    assert_eq!(
        parts(&lines[0]),
        vec![
            part("[21:30] ", Tone::GreenBold),
            part("bob: ", Tone::GreenBold),
            part("psst", Tone::GreenBold)
        ]
    );
}

#[test]
fn a_server_notice_has_a_label_and_indented_followers() {
    let message = ServerMessage {
        ty: MessageType::Server("Joinable rooms:\nmain\ngames\n".to_string()),
        timestamp: at(1, 2),
    };
    let lines = render_message(&message);
    assert_eq!(lines.len(), 4);
    assert_eq!(
        parts(&lines[0]),
        vec![part("[SERVER] ", Tone::RedBold), part("Joinable rooms:", Tone::Plain)]
    );
    assert_eq!(parts(&lines[1]), vec![part("\tmain", Tone::Plain)]);
    assert_eq!(parts(&lines[2]), vec![part("\tgames", Tone::Plain)]);
    assert_eq!(parts(&lines[3]), vec![part("\t", Tone::Plain)]);

    let single = ServerMessage { ty: MessageType::Server(String::new()), timestamp: at(1, 2) };
    let lines = render_message(&single);
    assert_eq!(lines.len(), 1);
    assert_eq!(parts(&lines[0]), vec![part("[SERVER] ", Tone::RedBold), part("", Tone::Plain)]);
}

#[test]
fn messages_are_rendered_one_after_the_other() {
    let messages = vec![
        ServerMessage { ty: MessageType::Server("a\nb".to_string()), timestamp: at(1, 2) },
        ServerMessage {
            ty: MessageType::Public { msg: "c".to_string(), from: "x".to_string() },
            timestamp: at(1, 3),
        },
    ];
    let lines = render_messages(&messages);
    assert_eq!(lines.len(), 3);
    assert_eq!(parts(&lines[1]), vec![part("\tb", Tone::Plain)]);
    assert_eq!(parts(&lines[2])[2], part("c", Tone::Plain));
    assert!(render_messages(&[]).is_empty());
}

#[test]
fn scroll_offset_keeps_the_newest_lines_in_sight() {
    assert_eq!(scroll_offset(0, 10), 0);
    assert_eq!(scroll_offset(8, 10), 0);
    assert_eq!(scroll_offset(9, 10), 1);
    assert_eq!(scroll_offset(100, 10), 92);
    assert_eq!(scroll_offset(5, 2), 5);
    assert_eq!(scroll_offset(5, 1), 5);
    assert_eq!(scroll_offset(5, 0), 5);
    assert_eq!(scroll_offset(65535, 2), 65535);
    assert_eq!(scroll_offset(65536, 2), 0);
    assert_eq!(scroll_offset(65536 + 20, 12), 10);
    assert_eq!(scroll_offset(3, u16::MAX), 0);
}

#[test]
fn status_line_says_who_and_where() {
    let mut state = State::new();
    assert_eq!(parts(&status_line(&state)), vec![part("...", Tone::Plain)]);
    state
        .record(
            &Response::Server(ServerResponse::JoinedServer { username: "alice".to_string() }),
            at(0, 0),
        )
        .unwrap();
    assert_eq!(
        parts(&status_line(&state)),
        vec![part("alice", Tone::Bold), part(" in #", Tone::Plain), part("NONE", Tone::Yellow)]
    );
    state
        .record(&Response::Server(ServerResponse::JoinedRoom { room_name: "main".to_string() }), at(0, 0))
        .unwrap();
    assert_eq!(
        parts(&status_line(&state)),
        vec![part("alice", Tone::Bold), part(" in #", Tone::Plain), part("main", Tone::Yellow)]
    );
}

#[test]
fn ui_puts_the_screen_together() {
    let mut state = State::new();
    let screen = ui(&state, 10);
    assert!(screen.messages.is_empty());
    assert_eq!(screen.offset, 0);
    assert!(screen.notes.is_empty());
    assert!(!screen.show_notes);

    state
        .record(&Response::Server(ServerResponse::JoinedServer { username: "alice".to_string() }), at(7, 0))
        .unwrap();
    state
        .record(&Response::Server(ServerResponse::JoinedRoom { room_name: "main".to_string() }), at(7, 0))
        .unwrap();
    for i in 0..6 {
        state.record(&Response::public_msg(&format!("line {}", i), "main", "bob"), at(7, i)).unwrap();
    }
    state.record(&Response::server_msg("Users in room:\nalice\nbob\n", "main"), at(7, 9)).unwrap();
    state.toggle_debug();

    let screen = ui(&state, 7);
    assert_eq!(parts(&screen.status)[0], part("alice", Tone::Bold));
    assert_eq!(screen.messages.len(), 10);
    assert_eq!(screen.offset, 5);
    assert_eq!(parts(&screen.messages[5])[0], part("[07:05] ", Tone::YellowBold));
    assert_eq!(parts(&screen.messages[9]), vec![part("\t", Tone::Plain)]);
    assert!(screen.show_notes);
    assert_eq!(screen.notes.len(), 2);
    assert_eq!(parts(&screen.notes[0]), vec![part("Joined server", Tone::Plain)]);
    assert_eq!(parts(&screen.notes[1]), vec![part("Joined room", Tone::Plain)]);
}

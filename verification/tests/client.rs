use chat_core::client::{
    handle_task_raw, read_responses, ChatStep, ClientError, Connected, Key, MessageType, RawTask,
    ServerMessage, State, Timestamp,
};
use chat_core::codec::FrameDecoder;
use chat_core::request::send_response;
use chat_core::codec::FrameError;
use chat_core::model::{ChatMessage, GameUpdate, Response, ServerResponse, UserAction};

const NOON: Timestamp = Timestamp { hour: 12, minute: 0 };
const LATER: Timestamp = Timestamp { hour: 12, minute: 5 };

fn joined_server(name: &str) -> Response {
    Response::Server(ServerResponse::JoinedServer { username: name.to_string() })
}

fn joined_room(room: &str) -> Response {
    Response::Server(ServerResponse::JoinedRoom { room_name: room.to_string() })
}

fn summary(messages: &[ServerMessage]) -> Vec<String> {
    messages
        .iter()
        .map(|m| match &m.ty {
            MessageType::Public { msg, from } => format!("{}:{} <{}> {}", m.timestamp.hour, m.timestamp.minute, from, msg),
            MessageType::Private { msg, from } => format!("{}:{} [{}] {}", m.timestamp.hour, m.timestamp.minute, from, msg),
            MessageType::Server(text) => format!("{}:{} * {}", m.timestamp.hour, m.timestamp.minute, text),
        })
        .collect()
}

#[test]
fn a_new_state_is_empty() {
    let state = State::new();
    assert_eq!(state.username(), None);
    assert_eq!(state.current_tab(), None);
    assert!(state.debug_messages().is_empty());
    assert!(state.shown_messages().is_empty());
    assert!(!state.show_debug());
}

#[test]
fn joined_server_sets_the_name_once() {
    let mut state = State::new();
    assert_eq!(state.record(&joined_server("alice"), NOON), Ok(()));
    assert_eq!(state.username(), Some(&"alice".to_string()));
    assert_eq!(state.debug_messages(), &vec!["Joined server".to_string()]);
    assert_eq!(state.record(&joined_server("bob"), NOON), Err(ClientError::AlreadyJoinedServer));
    assert_eq!(state.username(), Some(&"alice".to_string()));
    assert_eq!(state.debug_messages().len(), 1);
}

#[test]
fn joined_room_opens_a_log_and_shows_it() {
    let mut state = State::new();
    assert_eq!(state.record(&joined_room("main"), NOON), Ok(()));
    assert_eq!(state.current_tab(), Some(&"main".to_string()));
    assert_eq!(state.debug_messages(), &vec!["Joined room".to_string()]);
    assert!(state.shown_messages().is_empty());
    assert_eq!(state.record(&joined_room("main"), NOON), Err(ClientError::AlreadyJoinedRoom));
    assert_eq!(state.debug_messages().len(), 1);
    assert_eq!(state.record(&joined_room("games"), NOON), Ok(()));
    assert_eq!(state.current_tab(), Some(&"games".to_string()));
}

#[test]
fn messages_are_filed_in_the_order_of_arrival() {
    let mut state = State::new();
    state.record(&joined_room("main"), NOON).unwrap();
    assert_eq!(state.record(&Response::public_msg("hello", "main", "bob"), NOON), Ok(()));
    assert_eq!(state.record(&Response::server_msg("carol has joined the chat.", "main"), LATER), Ok(()));
    assert_eq!(state.record(&Response::private_msg("psst", "bob"), LATER), Ok(()));
    assert_eq!(
        summary(state.shown_messages()),
        vec!["12:0 <bob> hello", "12:5 * carol has joined the chat.", "12:5 [bob] psst"]
    );
}

#[test]
fn messages_go_to_the_log_of_their_room() {
    let mut state = State::new();
    state.record(&joined_room("main"), NOON).unwrap();
    state.record(&joined_room("games"), NOON).unwrap();
    state.record(&Response::public_msg("in main", "main", "bob"), NOON).unwrap();
    state.record(&Response::public_msg("in games", "games", "bob"), NOON).unwrap();
    state.record(&Response::private_msg("to the shown room", "bob"), NOON).unwrap();
    assert_eq!(
        summary(state.shown_messages()),
        vec!["12:0 <bob> in games", "12:0 [bob] to the shown room"]
    );
}

#[test]
fn a_message_for_an_unknown_room_is_refused() {
    let mut state = State::new();
    assert_eq!(
        state.record(&Response::public_msg("hello", "main", "bob"), NOON),
        Err(ClientError::UnknownRoom)
    );
    assert_eq!(
        state.record(&Response::server_msg("hello", "main"), NOON),
        Err(ClientError::UnknownRoom)
    );
    state.record(&joined_room("main"), NOON).unwrap();
    assert_eq!(
        state.record(&Response::public_msg("hello", "attic", "bob"), NOON),
        Err(ClientError::UnknownRoom)
    );
    assert!(state.shown_messages().is_empty());
}

#[test]
fn a_private_message_without_a_room_is_refused() {
    let mut state = State::new();
    assert_eq!(state.record(&Response::private_msg("psst", "bob"), NOON), Err(ClientError::NoRoom));
}

#[test]
fn responses_without_use_are_refused() {
    let mut state = State::new();
    state.record(&joined_room("main"), NOON).unwrap();
    let useless = [
        Response::Chat(ChatMessage::Username("x".to_string())),
        Response::Game(GameUpdate { msg: "x".to_string() }),
        Response::Server(ServerResponse::OtherUserJoined { name: "x".to_string() }),
    ];
    for res in &useless {
        assert_eq!(state.record(res, NOON), Err(ClientError::Unsupported));
    }
    assert!(state.shown_messages().is_empty());
    assert_eq!(state.debug_messages().len(), 1);
}

#[test]
fn record_server_files_notices() {
    let mut state = State::new();
    let res = ServerResponse::JoinedRoom { room_name: "main".to_string() };
    assert_eq!(state.record_server(&res, NOON), Ok(()));
    let res = ServerResponse::General { room_name: "main".to_string(), msg: "hi".to_string() };
    assert_eq!(state.record_server(&res, LATER), Ok(()));
    assert_eq!(summary(state.shown_messages()), vec!["12:5 * hi"]);
}

#[test]
fn handle_response_files_with_the_time_of_the_clock() {
    let mut state = State::new();
    assert_eq!(state.handle_response(joined_room("main")), Ok(()));
    assert_eq!(state.handle_response(Response::public_msg("hello", "main", "bob")), Ok(()));
    assert_eq!(
        state.handle_server_response(ServerResponse::General {
            room_name: "main".to_string(),
            msg: "notice".to_string()
        }),
        Ok(())
    );
    assert_eq!(
        state.handle_response(Response::public_msg("hello", "attic", "bob")),
        Err(ClientError::UnknownRoom)
    );
    let shown = state.shown_messages();
    assert_eq!(shown.len(), 2);
    for message in shown {
        assert!(message.timestamp.hour < 24);
        assert!(message.timestamp.minute < 60);
    }
    assert!(matches!(&shown[0].ty, MessageType::Public { msg, from } if msg == "hello" && from == "bob"));
    assert!(matches!(&shown[1].ty, MessageType::Server(text) if text == "notice"));
}

#[test]
fn toggle_debug_switches_the_notes() {
    let mut state = State::new();
    state.toggle_debug();
    assert!(state.show_debug());
    state.toggle_debug();
    assert!(!state.show_debug());
}

#[test]
fn handle_task_raw_frames_the_request() {
    let task = RawTask { req: UserAction::Chat(ChatMessage::Username("alice".to_string())) };
    let bytes = handle_task_raw(&task).unwrap();
    assert_eq!(
        bytes,
        vec![0, 0, 0, 21, 0, 0, 0, 0, 2, 0, 0, 0, 5, 0, 0, 0, 0, 0, 0, 0, b'a', b'l', b'i', b'c', b'e']
    );
    let long = RawTask {
        req: UserAction::Chat(ChatMessage::Username("x".repeat(chat_core::codec::MAX_FRAME_LEN))),
    };
    assert_eq!(handle_task_raw(&long), Err(FrameError::TooLarge));
}

#[test]
fn a_connected_client_sends_its_line_on_enter() {
    let me = Connected { username: "alice".to_string() };
    let room = "main".to_string();
    match me.input(Key::Enter, "/pm bob hi", Some(&room)) {
        ChatStep::Submit(task) => assert_eq!(
            task.req,
            UserAction::Chat(ChatMessage::Public {
                room_name: "main".to_string(),
                from: "alice".to_string(),
                msg: "/pm bob hi".to_string(),
            })
        ),
        other => panic!("{:?}", other),
    }
    match me.input(Key::Enter, "hello", None) {
        ChatStep::Submit(task) => assert_eq!(
            task.req,
            UserAction::Chat(ChatMessage::Public {
                room_name: String::new(),
                from: "alice".to_string(),
                msg: "hello".to_string(),
            })
        ),
        other => panic!("{:?}", other),
    }
    assert!(matches!(me.input(Key::Enter, "", Some(&room)), ChatStep::Ignore));
}

#[test]
fn a_connected_client_edits_toggles_and_quits() {
    let me = Connected { username: "alice".to_string() };
    assert!(matches!(me.input(Key::Char('x'), "ab", None), ChatStep::Insert('x')));
    assert!(matches!(me.input(Key::Backspace, "ab", None), ChatStep::DeleteChar));
    assert!(matches!(me.input(Key::Tab, "ab", None), ChatStep::ToggleNotes));
    assert!(matches!(me.input(Key::Esc, "ab", None), ChatStep::Quit));
    assert!(matches!(me.input(Key::Other, "ab", None), ChatStep::Ignore));
}

#[test]
fn read_responses_decodes_whole_frames_and_passes_over_rubbish() {
    let first = Response::public_msg("hello", "main", "bob");
    let second = Response::private_msg("psst", "bob");
    let mut decoder = FrameDecoder::new();
    decoder.push(&send_response(&first).unwrap());
    decoder.push(&[0, 0, 0, 2, 9, 9]);
    let bytes = send_response(&second).unwrap();
    decoder.push(&bytes[..5]);
    assert_eq!(read_responses(&mut decoder), (vec![first], true));
    assert_eq!(read_responses(&mut decoder), (vec![], true));
    decoder.push(&bytes[5..]);
    assert_eq!(read_responses(&mut decoder), (vec![second], true));
    decoder.push(&[0, 0x80, 0, 1]);
    assert_eq!(read_responses(&mut decoder), (vec![], false));
}

use chat_core::command::{join_from, parse_command, split_words, Command, Missing};

fn say(text: &str) -> String {
    match parse_command(text) {
        Command::Say { text } => text,
        other => panic!("not said: {:?}", other),
    }
}

#[test]
fn a_plain_line_is_said() {
    assert_eq!(say("hello"), "hello");
    assert_eq!(say("hello  world "), "hello  world ");
    assert_eq!(say(""), "");
    assert_eq!(say(" /who"), " /who");
    assert_eq!(say("a/b"), "a/b");
}

#[test]
fn who_lists_users() {
    assert!(matches!(parse_command("/who"), Command::ListUsers));
    assert!(matches!(parse_command("/  who   now"), Command::ListUsers));
}

#[test]
fn rooms_and_rs_list_rooms() {
    assert!(matches!(parse_command("/rooms"), Command::ListRooms));
    assert!(matches!(parse_command("/rs"), Command::ListRooms));
    assert!(matches!(parse_command("/rs extra"), Command::ListRooms));
}

#[test]
fn pm_takes_an_addressee_and_a_text() {
    match parse_command("/pm bob hi") {
        Command::PrivateMessage { to, text } => {
            assert_eq!(to, "bob");
            assert_eq!(text, "hi");
        }
        other => panic!("{:?}", other),
    }
    match parse_command("/pm bob   how  are\tyou? ") {
        Command::PrivateMessage { to, text } => {
            assert_eq!(to, "bob");
            assert_eq!(text, "how are you?");
        }
        other => panic!("{:?}", other),
    }
    match parse_command("/pm bob") {
        Command::PrivateMessage { to, text } => {
            assert_eq!(to, "bob");
            assert_eq!(text, "");
        }
        other => panic!("{:?}", other),
    }
}

#[test]
fn pm_without_addressee_is_incomplete() {
    assert!(matches!(parse_command("/pm"), Command::Incomplete(Missing::Recipient)));
    assert!(matches!(parse_command("/pm   "), Command::Incomplete(Missing::Recipient)));
}

#[test]
fn mv_takes_a_room() {
    match parse_command("/mv games") {
        Command::MoveRoom { room_name } => assert_eq!(room_name, "games"),
        other => panic!("{:?}", other),
    }
    match parse_command("/mv games now") {
        Command::MoveRoom { room_name } => assert_eq!(room_name, "games"),
        other => panic!("{:?}", other),
    }
    assert!(matches!(parse_command("/mv"), Command::Incomplete(Missing::Room)));
}

#[test]
fn a_lone_slash_is_incomplete() {
    assert!(matches!(parse_command("/"), Command::Incomplete(Missing::Name)));
    assert!(matches!(parse_command("/   \t"), Command::Incomplete(Missing::Name)));
}

#[test]
fn other_commands_are_unknown() {
    match parse_command("/dance wildly") {
        Command::Unknown { name } => assert_eq!(name, "dance"),
        other => panic!("{:?}", other),
    }
    match parse_command("/WHO") {
        Command::Unknown { name } => assert_eq!(name, "WHO"),
        other => panic!("{:?}", other),
    }
    match parse_command("//who") {
        Command::Unknown { name } => assert_eq!(name, "/who"),
        other => panic!("{:?}", other),
    }
}

#[test]
fn split_words_agrees_with_split_whitespace() {
    let lines = [
        "",
        " ",
        "a",
        " a ",
        "a b",
        "  one\ttwo\n three   four  ",
        "\u{3000}wide\u{a0}space\u{2003}here",
        "tr\u{e9}s bien \u{1f600} ok",
        "trailing ",
        "x\r\ny",
    ];
    for line in lines {
        let expected: Vec<String> = line.split_whitespace().map(|w| w.to_string()).collect();
        assert_eq!(split_words(line, 0), expected, "{:?}", line);
    }
    assert_eq!(split_words("/pm bob hi", 1), vec!["pm", "bob", "hi"]);
    assert_eq!(split_words("abc def", 5), vec!["ef"]);
    assert_eq!(split_words("abc", 3), Vec::<String>::new());
}

#[test]
fn join_from_puts_one_blank_between_words() {
    let words: Vec<String> = ["pm", "bob", "how", "are", "you"].iter().map(|w| w.to_string()).collect();
    assert_eq!(join_from(&words, 2), "how are you");
    assert_eq!(join_from(&words, 4), "you");
    assert_eq!(join_from(&words, 5), "");
    assert_eq!(join_from(&words, 0), "pm bob how are you");
}

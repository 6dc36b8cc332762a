use chat_core::model::{ChatMessage, GameUpdate, Response, ServerResponse, UserAction};

#[test]
fn server_msg_builds_a_general_notice() {
    match Response::server_msg("bob has joined the chat.", "main") {
        Response::Server(ServerResponse::General { room_name, msg }) => {
            assert_eq!(room_name, "main");
            assert_eq!(msg, "bob has joined the chat.");
        }
        other => panic!("{:?}", other),
    }
}

#[test]
fn public_msg_builds_a_public_chat_line() {
    match Response::public_msg("hello", "main", "alice") {
        Response::Chat(ChatMessage::Public { room_name, from, msg }) => {
            assert_eq!(room_name, "main");
            assert_eq!(from, "alice");
            assert_eq!(msg, "hello");
        }
        other => panic!("{:?}", other),
    }
}

#[test]
fn private_msg_builds_a_private_chat_line() {
    match Response::private_msg("hi", "alice") {
        Response::Chat(ChatMessage::Private { from, msg }) => {
            assert_eq!(from, "alice");
            assert_eq!(msg, "hi");
        }
        other => panic!("{:?}", other),
    }
}

#[test]
fn a_clone_equals_what_it_was_made_of() {
    let all = vec![
        Response::private_msg("hi", "alice"),
        Response::public_msg("hello", "main", "alice"),
        Response::Chat(ChatMessage::Username("carol".to_string())),
        Response::Game(GameUpdate { msg: "move".to_string() }),
        Response::Server(ServerResponse::JoinedServer { username: "alice".to_string() }),
        Response::Server(ServerResponse::JoinedRoom { room_name: "main".to_string() }),
        Response::Server(ServerResponse::OtherUserJoined { name: "bob".to_string() }),
        Response::server_msg("notice", "main"),
    ];
    for (i, a) in all.iter().enumerate() {
        assert_eq!(&a.clone(), a);
        for (j, b) in all.iter().enumerate() {
            assert_eq!(a == b, i == j);
        }
    }
}

#[test]
fn equality_looks_at_every_field() {
    assert_ne!(Response::private_msg("hi", "alice"), Response::private_msg("hi", "bob"));
    assert_ne!(Response::private_msg("hi", "alice"), Response::private_msg("ho", "alice"));
    assert_ne!(
        Response::public_msg("hi", "main", "alice"),
        Response::public_msg("hi", "games", "alice")
    );
    assert_ne!(Response::server_msg("a", "main"), Response::server_msg("a", "games"));
    let a = UserAction::Chat(ChatMessage::Username("alice".to_string()));
    let b = UserAction::Chat(ChatMessage::Username("bob".to_string()));
    assert_ne!(a, b);
    assert_eq!(a.clone(), a);
    assert_ne!(
        UserAction::Chat(ChatMessage::Private { from: "x".to_string(), msg: "y".to_string() }),
        UserAction::Chat(ChatMessage::Username("x".to_string()))
    );
}

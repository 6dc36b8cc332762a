use chat_core::model::{Response, ServerResponse};
use chat_core::registry::{RegistryError, Shared};

fn joined_room(room: &str) -> Response {
    Response::Server(ServerResponse::JoinedRoom { room_name: room.to_string() })
}

fn notice(text: &str) -> Response {
    Response::server_msg(text, "main")
}

/// Three users in `main`, their queues emptied.
fn three_in_main() -> Shared {
    let mut state = Shared::new();
    for (id, name) in [(1, "alice"), (2, "bob"), (3, "carol")] {
        state.add_user(id, Some(name)).unwrap();
        state.add_user_to_room(id, "main").unwrap();
        state.take_outbound(id);
    }
    state
}

#[test]
fn new_registry_has_main_room_and_no_users() {
    let state = Shared::new();
    assert_eq!(state.room_names(), vec!["main".to_string()]);
    assert!(state.get_users().is_empty());
    assert_eq!(state.user_count(), 0);
    assert!(!state.has_user(0));
}

#[test]
fn register_keeps_a_free_name() {
    let mut state = Shared::new();
    assert_eq!(state.add_user(7, Some("alice")), Ok("alice".to_string()));
    assert!(state.has_user(7));
    assert_eq!(state.name_of(7), Some("alice".to_string()));
    assert_eq!(state.room_of(7), None);
    assert_eq!(state.pending(7), 0);
    assert_eq!(state.user_count(), 1);
}

#[test]
fn register_without_a_name_generates_user_n() {
    let mut state = Shared::new();
    assert_eq!(state.gen_username(), "User-0");
    assert_eq!(state.add_user(10, None), Ok("User-0".to_string()));
    assert_eq!(state.gen_username(), "User-1");
    assert_eq!(state.add_user(11, None), Ok("User-1".to_string()));
    assert_eq!(state.add_user(12, Some("alice")), Ok("alice".to_string()));
    assert_eq!(state.add_user(13, None), Ok("User-3".to_string()));
    assert_eq!(state.get_users(), vec!["User-0", "User-1", "alice", "User-3"]);
}

#[test]
fn generated_names_count_in_decimal() {
    let mut state = Shared::new();
    for id in 0..12u64 {
        state.add_user(id, None).unwrap();
    }
    assert_eq!(state.name_of(9), Some("User-9".to_string()));
    assert_eq!(state.name_of(10), Some("User-10".to_string()));
    assert_eq!(state.name_of(11), Some("User-11".to_string()));
    assert_eq!(state.gen_username(), "User-12");
}

#[test]
fn register_with_a_taken_name_falls_back_to_a_default_name() {
    let mut state = Shared::new();
    assert_eq!(state.add_user(1, Some("alice")), Ok("alice".to_string()));
    assert_eq!(state.add_user(2, Some("alice")), Ok("User-1".to_string()));
    assert_eq!(state.get_users(), vec!["alice", "User-1"]);
}

#[test]
fn register_with_a_name_shaped_like_a_default_falls_back() {
    let mut state = Shared::new();
    assert_eq!(state.add_user(1, Some("User-5")), Ok("User-0".to_string()));
    assert_eq!(state.add_user(2, Some("User-")), Ok("User-1".to_string()));
    assert_eq!(state.add_user(3, Some("user-5")), Ok("user-5".to_string()));
    assert_eq!(state.add_user(4, Some("User")), Ok("User".to_string()));
}

#[test]
fn display_names_stay_unique() {
    let mut state = Shared::new();
    let wishes = [Some("a"), Some("a"), None, Some("User-2"), Some("b"), Some("a"), None];
    for (id, wish) in wishes.iter().enumerate() {
        state.add_user(id as u64, *wish).unwrap();
    }
    let mut names = state.get_users();
    let total = names.len();
    names.sort();
    names.dedup();
    assert_eq!(names.len(), total);
}

#[test]
fn register_twice_fails_with_duplicate_identity() {
    let mut state = Shared::new();
    state.add_user(1, Some("alice")).unwrap();
    assert_eq!(state.add_user(1, Some("bob")), Err(RegistryError::DuplicateIdentity));
    assert_eq!(state.get_users(), vec!["alice"]);
    assert_eq!(state.user_count(), 1);
}

#[test]
fn join_puts_joined_room_in_own_queue() {
    let mut state = Shared::new();
    state.add_user(1, Some("alice")).unwrap();
    assert_eq!(state.add_user_to_room(1, "main"), Ok(()));
    assert_eq!(state.room_of(1), Some("main".to_string()));
    assert_eq!(state.take_outbound(1), vec![joined_room("main")]);
}

#[test]
fn join_unknown_room_fails_and_keeps_membership() {
    let mut state = three_in_main();
    assert_eq!(state.add_user_to_room(1, "nonexistent"), Err(RegistryError::UnknownRoom));
    assert_eq!(state.room_of(1), Some("main".to_string()));
    assert_eq!(state.pending(1), 0);
    state.broadcast("main", &notice("still here"), None).unwrap();
    assert_eq!(state.take_outbound(1), vec![notice("still here")]);
}

#[test]
fn join_by_unknown_session_fails() {
    let mut state = Shared::new();
    assert_eq!(state.add_user_to_room(9, "main"), Err(RegistryError::UnknownSession));
    assert_eq!(state.add_user_to_room(9, "nonexistent"), Err(RegistryError::UnknownSession));
}

#[test]
fn join_the_same_room_again_fails() {
    let mut state = three_in_main();
    assert_eq!(state.add_user_to_room(1, "main"), Err(RegistryError::AlreadyInRoom));
    assert_eq!(state.pending(1), 0);
}

#[test]
fn declare_room_adds_a_room_once() {
    let mut state = Shared::new();
    assert!(state.declare_room("games"));
    assert!(!state.declare_room("games"));
    assert!(!state.declare_room("main"));
    assert_eq!(state.room_names(), vec!["main", "games"]);
}

#[test]
fn moving_rooms_leaves_the_old_room() {
    let mut state = three_in_main();
    state.declare_room("games");
    assert_eq!(state.add_user_to_room(2, "games"), Ok(()));
    assert_eq!(state.room_of(2), Some("games".to_string()));
    assert_eq!(state.take_outbound(2), vec![joined_room("games")]);

    state.broadcast("main", &notice("to main"), None).unwrap();
    state.broadcast("games", &notice("to games"), None).unwrap();
    assert_eq!(state.take_outbound(1), vec![notice("to main")]);
    assert_eq!(state.take_outbound(2), vec![notice("to games")]);
    assert_eq!(state.take_outbound(3), vec![notice("to main")]);
}

#[test]
fn broadcast_reaches_every_member() {
    let mut state = three_in_main();
    assert_eq!(state.broadcast("main", &notice("hello"), None), Ok(()));
    for id in 1..=3 {
        assert_eq!(state.take_outbound(id), vec![notice("hello")]);
    }
}

#[test]
fn broadcast_skips_the_excluded_member() {
    let mut state = three_in_main();
    assert_eq!(state.broadcast("main", &notice("hello"), Some(2)), Ok(()));
    assert_eq!(state.take_outbound(1), vec![notice("hello")]);
    assert_eq!(state.take_outbound(2), vec![]);
    assert_eq!(state.take_outbound(3), vec![notice("hello")]);
}

#[test]
fn broadcast_reaches_nobody_outside_the_room() {
    let mut state = three_in_main();
    state.declare_room("games");
    state.add_user(4, Some("dave")).unwrap();
    state.add_user(5, Some("erin")).unwrap();
    state.add_user_to_room(5, "games").unwrap();
    state.take_outbound(5);
    state.broadcast("main", &notice("hello"), None).unwrap();
    assert_eq!(state.pending(4), 0);
    assert_eq!(state.pending(5), 0);
    assert_eq!(state.pending(1), 1);
}

#[test]
fn broadcast_to_an_unknown_room_fails_and_reaches_nobody() {
    let mut state = three_in_main();
    assert_eq!(
        state.broadcast("nonexistent", &notice("hello"), None),
        Err(RegistryError::UnknownRoom)
    );
    for id in 1..=3 {
        assert_eq!(state.pending(id), 0);
    }
}

#[test]
fn broadcast_to_an_empty_room_succeeds() {
    let mut state = three_in_main();
    state.declare_room("games");
    assert_eq!(state.broadcast("games", &notice("anyone?"), None), Ok(()));
    for id in 1..=3 {
        assert_eq!(state.pending(id), 0);
    }
}

#[test]
fn two_broadcasts_arrive_in_their_order() {
    let mut state = three_in_main();
    state.broadcast("main", &notice("A"), Some(1)).unwrap();
    state.broadcast("main", &notice("B"), Some(3)).unwrap();
    assert_eq!(state.take_outbound(1), vec![notice("B")]);
    assert_eq!(state.take_outbound(2), vec![notice("A"), notice("B")]);
    assert_eq!(state.take_outbound(3), vec![notice("A")]);
}

#[test]
fn queue_is_drained_oldest_first_and_left_empty() {
    let mut state = three_in_main();
    for text in ["1", "2", "3", "4"] {
        state.send_to(2, notice(text)).unwrap();
    }
    assert_eq!(state.pending(2), 4);
    assert_eq!(
        state.take_outbound(2),
        vec![notice("1"), notice("2"), notice("3"), notice("4")]
    );
    assert_eq!(state.pending(2), 0);
    assert_eq!(state.take_outbound(2), vec![]);
    assert_eq!(state.take_outbound(99), vec![]);
}

#[test]
fn send_to_reaches_one_session() {
    let mut state = three_in_main();
    assert_eq!(state.send_to(3, notice("psst")), Ok(()));
    assert_eq!(state.send_to(9, notice("psst")), Err(RegistryError::UnknownSession));
    assert_eq!(state.pending(1), 0);
    assert_eq!(state.pending(2), 0);
    assert_eq!(state.take_outbound(3), vec![notice("psst")]);
}

#[test]
fn private_message_reaches_the_addressee_only() {
    let mut state = three_in_main();
    assert_eq!(state.private_message("hi", 1, "bob"), Ok(()));
    assert_eq!(state.take_outbound(2), vec![Response::private_msg("hi", "alice")]);
    assert_eq!(state.pending(1), 0);
    assert_eq!(state.pending(3), 0);
}

#[test]
fn private_message_crosses_rooms() {
    let mut state = three_in_main();
    state.declare_room("games");
    state.add_user_to_room(2, "games").unwrap();
    state.take_outbound(2);
    assert_eq!(state.private_message("hi", 1, "bob"), Ok(()));
    assert_eq!(state.take_outbound(2), vec![Response::private_msg("hi", "alice")]);
}

#[test]
fn private_message_to_oneself_is_a_no_op() {
    let mut state = three_in_main();
    assert_eq!(state.private_message("hi", 1, "alice"), Ok(()));
    for id in 1..=3 {
        assert_eq!(state.pending(id), 0);
    }
}

#[test]
fn private_message_to_an_unknown_name_fails() {
    let mut state = three_in_main();
    assert_eq!(state.private_message("hi", 1, "zed"), Err(RegistryError::RecipientNotFound));
    assert_eq!(state.private_message("hi", 99, "zed"), Err(RegistryError::RecipientNotFound));
    for id in 1..=3 {
        assert_eq!(state.pending(id), 0);
    }
}

#[test]
fn private_message_from_an_unknown_session_fails() {
    let mut state = three_in_main();
    assert_eq!(state.private_message("hi", 99, "bob"), Err(RegistryError::UnknownSession));
    assert_eq!(state.pending(2), 0);
}

#[test]
fn remove_returns_the_session_and_forgets_it() {
    let mut state = three_in_main();
    state.send_to(2, notice("unread")).unwrap();
    let gone = state.remove_user(2).unwrap();
    assert_eq!(gone.id(), 2);
    assert_eq!(gone.name(), "bob");
    assert_eq!(gone.room(), &Some("main".to_string()));
    assert_eq!(gone.pending(), 1);
    assert!(!state.has_user(2));
    assert_eq!(state.get_users(), vec!["alice", "carol"]);
    assert_eq!(state.name_of(2), None);
    assert_eq!(state.private_message("hi", 1, "bob"), Err(RegistryError::RecipientNotFound));
}

#[test]
fn remove_is_idempotent() {
    let mut state = three_in_main();
    assert!(state.remove_user(2).is_some());
    assert!(state.remove_user(2).is_none());
    assert!(state.remove_user(42).is_none());
    assert_eq!(state.get_users(), vec!["alice", "carol"]);
}

#[test]
fn removed_session_is_no_longer_a_member() {
    let mut state = three_in_main();
    state.remove_user(2);
    state.broadcast("main", &notice("hello"), None).unwrap();
    assert_eq!(state.take_outbound(2), vec![]);
    assert_eq!(state.take_outbound(1), vec![notice("hello")]);
    state.add_user(2, Some("bob")).unwrap();
    assert_eq!(state.room_of(2), None);
    state.broadcast("main", &notice("again"), None).unwrap();
    assert_eq!(state.pending(2), 0);
    assert_eq!(state.add_user_to_room(2, "main"), Ok(()));
}

#[test]
fn remove_of_a_session_without_room_works() {
    let mut state = Shared::new();
    state.add_user(1, None).unwrap();
    let gone = state.remove_user(1).unwrap();
    assert_eq!(gone.room(), &None);
    assert_eq!(gone.name(), "User-0");
}

#[test]
fn a_freed_name_can_be_taken_again() {
    let mut state = three_in_main();
    state.remove_user(1);
    assert_eq!(state.add_user(8, Some("alice")), Ok("alice".to_string()));
}

/// Every session is in the room that its pointer names and in no other:
/// a marker sent to each room arrives exactly where the pointer says.
fn assert_consistent(state: &mut Shared, ids: &[u64]) {
    for id in ids {
        state.take_outbound(*id);
    }
    let rooms = state.room_names();
    for room in &rooms {
        assert_eq!(state.broadcast(room, &Response::server_msg("marker", room), None), Ok(()));
    }
    for id in ids {
        let got = state.take_outbound(*id);
        match state.room_of(*id) {
            Some(room) => {
                assert!(state.has_user(*id));
                assert!(rooms.contains(&room));
                assert_eq!(got, vec![Response::server_msg("marker", &room)]);
            }
            None => assert_eq!(got, vec![]),
        }
    }
    let mut names = state.get_users();
    let total = names.len();
    names.sort();
    names.dedup();
    assert_eq!(names.len(), total);
}

#[test]
fn membership_matches_room_pointers_after_random_operations() {
    let rooms = ["main", "games", "music", "nonexistent"];
    let ids: Vec<u64> = (0..8).collect();
    for seed in 1..=20u64 {
        let mut state = Shared::new();
        state.declare_room("games");
        state.declare_room("music");
        let mut x = seed.wrapping_mul(0x9e37_79b9_7f4a_7c15);
        for _ in 0..400 {
            x = x.wrapping_mul(6364136223846793005).wrapping_add(1442695040888963407);
            let id = (x >> 33) % 8;
            let room = rooms[((x >> 40) % 4) as usize];
            match (x >> 50) % 4 {
                0 => {
                    let known = state.has_user(id);
                    let r = state.add_user(id, if x % 2 == 0 { Some("same") } else { None });
                    assert_eq!(r.is_err(), known);
                }
                1 | 2 => {
                    let before = state.room_of(id);
                    let r = state.add_user_to_room(id, room);
                    match r {
                        Ok(()) => assert_eq!(state.room_of(id), Some(room.to_string())),
                        Err(_) => assert_eq!(state.room_of(id), before),
                    }
                }
                _ => {
                    let known = state.has_user(id);
                    assert_eq!(state.remove_user(id).is_some(), known);
                    assert!(!state.has_user(id));
                }
            }
            assert_consistent(&mut state, &ids);
        }
    }
}

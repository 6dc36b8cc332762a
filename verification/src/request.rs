//! How a request becomes deliveries.
//!
//! The functions here decide, for one request of one session, what is put
//! into whose queue and how the registry changes. They perform no
//! input or output themselves.

use vstd::prelude::*;
use vstd::string::*;
use crate::command::{parse_command, parse_line, Command, CommandView, Missing};
use crate::model::{
    ChatMessage, ChatMessageView, Response, ResponseView, ServerResponseView, UserAction,
    UserActionView,
};
use crate::codec::{encode_frame, frame, FrameError, MAX_FRAME_LEN};
use crate::registry::laws::{
    lemma_broadcast_delivery, lemma_deliver_outbox, lemma_deliver_wf, lemma_join_effect,
    lemma_one_room, lemma_private_message_delivery,
};
use crate::registry::view::SharedView;
use crate::registry::{RegistryError, Shared};
use crate::wire::{encode_response, response_bytes};
use crate::text::{join_texts, texts, MAIN_ROOM};

verus! {

pub const ERROR_PREFIX: &'static str = "ERROR: ";

pub const USERS_HEADER: &'static str = "Users in room:\n";

pub const ROOMS_HEADER: &'static str = "Joinable rooms:\n";

pub const LINE_END: &'static str = "\n";

pub const PM_FAILED: &'static str = "Couldn't send PM to ";

pub const UNKNOWN_COMMAND: &'static str = "Unknown command: ";

pub const EXPECTED_COMMAND: &'static str = "Expected a command.";

pub const EXPECTED_RECIPIENT: &'static str = "Error with pm: Expected a recepient.";

pub const EXPECTED_ROOM: &'static str = "Error with mv: Expected a room.";

pub const ROOM_UNKNOWN_HEAD: &'static str = "Room ";

pub const ROOM_UNKNOWN_TAIL: &'static str = " does not exist.";

pub const ALREADY_IN_ROOM: &'static str = "Already in room ";

pub const NO_SESSION: &'static str = "No session for address";

pub const NOT_IN_A_ROOM: &'static str = "Not in a room.";

pub const NAME_ALREADY_SET: &'static str = "Username is already set.";

/// The names `names`, each followed by a line end.
pub open spec fn lines(names: Seq<Seq<char>>) -> Seq<char>
    decreases names.len(),
{
    if names.len() == 0 {
        Seq::empty()
    } else {
        lines(names.drop_last()) + names.last() + LINE_END@
    }
}

/// The answer to the command that lists the users.
pub open spec fn users_text(v: SharedView) -> Seq<char> {
    USERS_HEADER@ + lines(v.user_names())
}

/// The answer to the command that lists the rooms.
pub open spec fn rooms_text(v: SharedView) -> Seq<char> {
    ROOMS_HEADER@ + lines(v.room_names())
}

/// The room that a notice to the session `id` names: the one it is in, or
/// `main` as long as it is in none.
pub open spec fn notice_room(v: SharedView, id: u64) -> Seq<char> {
    match v.session(id).room {
        Some(room) => room,
        None => MAIN_ROOM@,
    }
}

/// The notice with the text `text` for the session `id`.
pub open spec fn notice(v: SharedView, id: u64, text: Seq<char>) -> ResponseView {
    ResponseView::Server(ServerResponseView::General { room_name: notice_room(v, id), msg: text })
}

/// The registry after the session `id`, and nobody else, got a notice.
pub open spec fn notify(v: SharedView, id: u64, text: Seq<char>) -> SharedView {
    v.deliver(set![id], notice(v, id, text))
}

/// What a session is told when it cannot enter the room `room`.
pub open spec fn join_error_text(e: RegistryError, room: Seq<char>) -> Seq<char> {
    match e {
        RegistryError::UnknownRoom => ROOM_UNKNOWN_HEAD@ + room + ROOM_UNKNOWN_TAIL@,
        RegistryError::AlreadyInRoom => ALREADY_IN_ROOM@ + room,
        _ => NO_SESSION@,
    }
}

/// What a session is told when its command lacks a part.
pub open spec fn missing_text(m: Missing) -> Seq<char> {
    match m {
        Missing::Name => EXPECTED_COMMAND@,
        Missing::Recipient => EXPECTED_RECIPIENT@,
        Missing::Room => EXPECTED_ROOM@,
    }
}

/// The registry after the registered session `sender` gave the command `cmd`.
///
/// Something said goes to every member of the sender's room, the sender
/// included, under the sender's registered name. A private message goes to
/// its addressee alone. Everything else, and every failure, ends in one
/// notice in the sender's own queue and changes nothing for anybody else.
pub open spec fn perform(v: SharedView, sender: u64, cmd: CommandView) -> SharedView {
    match cmd {
        CommandView::Say { text } => match v.session(sender).room {
            Some(room) => v.broadcast(
                room,
                ResponseView::Chat(
                    ChatMessageView::Public {
                        room_name: room,
                        from: v.session(sender).name,
                        msg: text,
                    },
                ),
                None,
            ),
            None => notify(v, sender, ERROR_PREFIX@ + NOT_IN_A_ROOM@),
        },
        CommandView::PrivateMessage { to, text } => if v.private_outcome(sender, to) is Ok {
            v.private_message(sender, to, text)
        } else {
            notify(v, sender, PM_FAILED@ + to)
        },
        CommandView::ListUsers => notify(v, sender, users_text(v)),
        CommandView::ListRooms => notify(v, sender, rooms_text(v)),
        CommandView::MoveRoom { room_name } => match v.join_outcome(sender, room_name) {
            Ok(_) => v.join(sender, room_name),
            Err(e) => notify(v, sender, ERROR_PREFIX@ + join_error_text(e, room_name)),
        },
        CommandView::Unknown { name } => notify(v, sender, UNKNOWN_COMMAND@ + name),
        CommandView::Incomplete(m) => notify(v, sender, ERROR_PREFIX@ + missing_text(m)),
    }
}

/// The command that a request stands for. A public chat line is read by the
/// grammar of chat lines; the room and the sender that the request itself
/// names are not trusted. A private chat line is a private message to the
/// name in its `from` field. A request for a name has no command: the
/// session has one already.
pub open spec fn command_of(req: UserActionView) -> Option<CommandView> {
    match req {
        UserActionView::Chat(ChatMessageView::Public { room_name, from, msg }) => Some(
            parse_line(msg),
        ),
        UserActionView::Chat(ChatMessageView::Private { from, msg }) => Some(
            CommandView::PrivateMessage { to: from, text: msg },
        ),
        UserActionView::Chat(ChatMessageView::Username(_)) => None,
    }
}

/// The registry after the registered session `sender` made the request `req`.
pub open spec fn dispatch(v: SharedView, sender: u64, req: UserActionView) -> SharedView {
    match command_of(req) {
        Some(cmd) => perform(v, sender, cmd),
        None => notify(v, sender, ERROR_PREFIX@ + NAME_ALREADY_SET@),
    }
}

/// A notice reaches the session it is for and nobody else: it is the newest
/// entry of that session's queue, every other queue is as it was, and no
/// room and no session's name or room changes.
pub proof fn lemma_notify_reaches_one(v: SharedView, id: u64, text: Seq<char>, other: u64)
    requires
        v.wf(),
        v.has_session(id),
    ensures
        notify(v, id, text).wf(),
        notify(v, id, text).rooms == v.rooms,
        notify(v, id, text).has_session(other) == v.has_session(other),
        notify(v, id, text).outbox(other) == if other == id {
            v.outbox(id).push(notice(v, id, text))
        } else {
            v.outbox(other)
        },
{
    lemma_deliver_wf(v, set![id], notice(v, id, text));
    lemma_deliver_outbox(v, set![id], notice(v, id, text), other);
}

/// A private message to a name that nobody bears is refused, and the sender
/// alone is told so.
pub proof fn lemma_private_to_nobody(v: SharedView, sender: u64, to: Seq<char>, text: Seq<char>)
    requires
        v.wf(),
        v.has_session(sender),
        !v.name_taken(to),
    ensures
        v.private_outcome(sender, to) == Err::<(), RegistryError>(RegistryError::RecipientNotFound),
        perform(v, sender, CommandView::PrivateMessage { to, text }) == notify(
            v,
            sender,
            PM_FAILED@ + to,
        ),
{
}

/// Something said reaches every member of the speaker's room, the speaker
/// included, as one public chat line under the speaker's registered name,
/// and nobody outside that room.
pub proof fn lemma_say_reaches_room(v: SharedView, sender: u64, text: Seq<char>, other: u64)
    requires
        v.wf(),
        v.has_session(sender),
        v.session(sender).room is Some,
    ensures
        ({
            let room = v.session(sender).room->Some_0;
            let line = ResponseView::Chat(
                ChatMessageView::Public {
                    room_name: room,
                    from: v.session(sender).name,
                    msg: text,
                },
            );
            let w = perform(v, sender, CommandView::Say { text });
            &&& v.members(room).contains(sender)
            &&& w.outbox(other) == if v.members(room).contains(other) {
                v.outbox(other).push(line)
            } else {
                v.outbox(other)
            }
        }),
{
    let room = v.session(sender).room->Some_0;
    let line = ResponseView::Chat(
        ChatMessageView::Public { room_name: room, from: v.session(sender).name, msg: text },
    );
    lemma_broadcast_delivery(v, room, line, None, other);
}

/// What a command lets other sessions see: a chat line, if it was said in
/// their room or written to them, and otherwise nothing. Lists, refusals and
/// moves reach the queue of the session that asked and no other.
pub proof fn lemma_others_see_chat_only(v: SharedView, sender: u64, cmd: CommandView, other: u64)
    requires
        v.wf(),
        v.has_session(sender),
        other != sender,
    ensures
        perform(v, sender, cmd).outbox(other) == match cmd {
            CommandView::Say { text } => match v.session(sender).room {
                Some(room) => if v.members(room).contains(other) {
                    v.outbox(other).push(
                        ResponseView::Chat(
                            ChatMessageView::Public {
                                room_name: room,
                                from: v.session(sender).name,
                                msg: text,
                            },
                        ),
                    )
                } else {
                    v.outbox(other)
                },
                None => v.outbox(other),
            },
            CommandView::PrivateMessage { to, text } => if v.name_taken(to) && v.resolve(to)
                == other {
                v.outbox(other).push(
                    ResponseView::Chat(
                        ChatMessageView::Private { from: v.session(sender).name, msg: text },
                    ),
                )
            } else {
                v.outbox(other)
            },
            _ => v.outbox(other),
        },
{
    match cmd {
        CommandView::Say { text } => {
            match v.session(sender).room {
                Some(room) => {
                    lemma_say_reaches_room(v, sender, text, other);
                },
                None => {
                    lemma_notify_reaches_one(v, sender, ERROR_PREFIX@ + NOT_IN_A_ROOM@, other);
                },
            }
        },
        CommandView::PrivateMessage { to, text } => {
            if v.private_outcome(sender, to) is Ok {
                lemma_private_message_delivery(v, sender, to, text, other);
            } else {
                lemma_notify_reaches_one(v, sender, PM_FAILED@ + to, other);
            }
        },
        CommandView::ListUsers => lemma_notify_reaches_one(v, sender, users_text(v), other),
        CommandView::ListRooms => lemma_notify_reaches_one(v, sender, rooms_text(v), other),
        CommandView::MoveRoom { room_name } => {
            match v.join_outcome(sender, room_name) {
                Ok(_) => {
                    lemma_join_effect(v, sender, room_name, other, room_name);
                },
                Err(e) => {
                    lemma_notify_reaches_one(
                        v,
                        sender,
                        ERROR_PREFIX@ + join_error_text(e, room_name),
                        other,
                    );
                },
            }
        },
        CommandView::Unknown { name } => lemma_notify_reaches_one(
            v,
            sender,
            UNKNOWN_COMMAND@ + name,
            other,
        ),
        CommandView::Incomplete(m) => lemma_notify_reaches_one(
            v,
            sender,
            ERROR_PREFIX@ + missing_text(m),
            other,
        ),
    }
}

fn list_text(header: &str, names: &Vec<String>) -> (r: String)
    ensures
        r@ == header@ + lines(texts(names@)),
{
    let mut out = String::from_str(header);
    let mut i: usize = 0;
    proof {
        assert(header@ + Seq::<char>::empty() =~= header@);
    }
    while i < names.len()
        invariant
            i <= names.len(),
            out@ == header@ + lines(texts(names@).take(i as int)),
        decreases names.len() - i,
    {
        let ghost upto = texts(names@).take(i + 1);
        assert(upto.drop_last() =~= texts(names@).take(i as int));
        let ghost before = lines(texts(names@).take(i as int));
        out.append(names[i].as_str());
        out.append(LINE_END);
        assert(out@ =~= header@ + (before + names@[i as int]@ + LINE_END@));
        i += 1;
    }
    assert(texts(names@).take(names.len() as int) =~= texts(names@));
    out
}

/// The list of all users, as the text of a notice.
pub fn get_users(state: &Shared) -> (r: String)
    ensures
        r@ == users_text(state@),
{
    list_text(USERS_HEADER, &state.get_users())
}

/// The list of all rooms, as the text of a notice.
pub fn get_rooms(state: &Shared) -> (r: String)
    ensures
        r@ == rooms_text(state@),
{
    list_text(ROOMS_HEADER, &state.room_names())
}

/// Puts a notice with the text `text` into the queue of the session `id`,
/// and of nobody else. The notice names the room that the session is in.
pub fn tell(state: &mut Shared, id: u64, text: &str)
    requires
        old(state).wf(),
        old(state)@.has_session(id),
    ensures
        final(state).wf(),
        final(state)@ == notify(old(state)@, id, text@),
{
    let res = match state.room_of(id) {
        Some(room) => Response::server_msg(text, room.as_str()),
        None => Response::server_msg(text, MAIN_ROOM),
    };
    let _ = state.send_to(id, res);
}

/// Carries out the command `cmd` of the session `sender`. Fails, and changes
/// nothing, exactly where `sender` is not registered.
pub fn perform_command(cmd: &Command, state: &mut Shared, sender: u64) -> (r: Result<
    (),
    RegistryError,
>)
    requires
        old(state).wf(),
    ensures
        final(state).wf(),
        old(state)@.has_session(sender) ==> r is Ok && final(state)@ == perform(
            old(state)@,
            sender,
            cmd@,
        ),
        !old(state)@.has_session(sender) ==> r == Err::<(), RegistryError>(
            RegistryError::UnknownSession,
        ) && final(state)@ == old(state)@,
{
    if !state.has_user(sender) {
        return Err(RegistryError::UnknownSession);
    }
    match cmd {
        Command::Say { text } => {
            match state.room_of(sender) {
                Some(room) => {
                    let name = match state.name_of(sender) {
                        Some(name) => name,
                        None => String::new(),
                    };
                    let res = Response::public_msg(text.as_str(), room.as_str(), name.as_str());
                    let _ = state.broadcast(room.as_str(), &res, None);
                },
                None => {
                    tell(state, sender, join_texts(ERROR_PREFIX, NOT_IN_A_ROOM).as_str());
                },
            }
        },
        Command::PrivateMessage { to, text } => {
            match state.private_message(text.as_str(), sender, to.as_str()) {
                Ok(_) => {},
                Err(_) => {
                    tell(state, sender, join_texts(PM_FAILED, to.as_str()).as_str());
                },
            }
        },
        Command::ListUsers => {
            let text = get_users(state);
            tell(state, sender, text.as_str());
        },
        Command::ListRooms => {
            let text = get_rooms(state);
            tell(state, sender, text.as_str());
        },
        Command::MoveRoom { room_name } => {
            match state.add_user_to_room(sender, room_name.as_str()) {
                Ok(_) => {},
                Err(e) => {
                    let reason = match e {
                        RegistryError::UnknownRoom => join_texts(
                            join_texts(ROOM_UNKNOWN_HEAD, room_name.as_str()).as_str(),
                            ROOM_UNKNOWN_TAIL,
                        ),
                        RegistryError::AlreadyInRoom => join_texts(
                            ALREADY_IN_ROOM,
                            room_name.as_str(),
                        ),
                        _ => String::from_str(NO_SESSION),
                    };
                    tell(state, sender, join_texts(ERROR_PREFIX, reason.as_str()).as_str());
                },
            }
        },
        Command::Unknown { name } => {
            tell(state, sender, join_texts(UNKNOWN_COMMAND, name.as_str()).as_str());
        },
        Command::Incomplete(m) => {
            let reason = match m {
                Missing::Name => EXPECTED_COMMAND,
                Missing::Recipient => EXPECTED_RECIPIENT,
                Missing::Room => EXPECTED_ROOM,
            };
            tell(state, sender, join_texts(ERROR_PREFIX, reason).as_str());
        },
    }
    Ok(())
}

/// Handles one request of the session `sender`: reads it, changes the
/// registry accordingly and queues every response that it gives rise to.
/// Fails, and changes nothing, exactly where `sender` is not registered.
pub fn handle_request(req: &UserAction, state: &mut Shared, sender: u64) -> (r: Result<
    (),
    RegistryError,
>)
    requires
        old(state).wf(),
    ensures
        final(state).wf(),
        old(state)@.has_session(sender) ==> r is Ok && final(state)@ == dispatch(
            old(state)@,
            sender,
            req@,
        ),
        !old(state)@.has_session(sender) ==> r == Err::<(), RegistryError>(
            RegistryError::UnknownSession,
        ) && final(state)@ == old(state)@,
{
    if !state.has_user(sender) {
        return Err(RegistryError::UnknownSession);
    }
    match req {
        UserAction::Chat(ChatMessage::Public { room_name, from, msg }) => {
            let cmd = parse_command(msg.as_str());
            perform_command(&cmd, state, sender)
        },
        UserAction::Chat(ChatMessage::Private { from, msg }) => {
            let cmd = Command::PrivateMessage { to: from.clone(), text: msg.clone() };
            perform_command(&cmd, state, sender)
        },
        UserAction::Chat(ChatMessage::Username(_)) => {
            tell(state, sender, join_texts(ERROR_PREFIX, NAME_ALREADY_SET).as_str());
            Ok(())
        },
    }
}

/// The bytes to write to a connection for the response `res`: its frame.
/// Fails exactly where the response is too long for a frame.
pub fn send_response(res: &Response) -> (r: Result<Vec<u8>, FrameError>)
    ensures
        response_bytes(res@).len() <= MAX_FRAME_LEN ==> r is Ok && r->Ok_0@ == frame(
            response_bytes(res@),
        ),
        response_bytes(res@).len() > MAX_FRAME_LEN ==> r == Err::<Vec<u8>, FrameError>(
            FrameError::TooLarge,
        ),
{
    let payload = encode_response(res);
    encode_frame(payload.as_slice())
}

} // verus!

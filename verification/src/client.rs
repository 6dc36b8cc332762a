//! What a client keeps of a conversation.
//!
//! The client has no part in the server's state. It receives responses, in
//! whatever order and however late they come, and files them: one log of
//! messages for each room it was told it entered, a list of notes on what
//! happened, the name the server gave it, and the room that is shown.

use vstd::prelude::*;
use vstd::string::*;
use chrono::Timelike;
use crate::codec::{
    encode_frame, frame, leftover, parse_frame, payload_views, whole_frames, FrameDecoder,
    FrameError, MAX_FRAME_LEN,
};
use crate::model::{
    ChatMessage, ChatMessageView, Response, ResponseView, ServerResponse, ServerResponseView,
    UserAction, UserActionView,
};
use crate::wire::{decode_response, encode_request, read_response, request_bytes};

verus! {

pub const NOTE_JOINED_SERVER: &'static str = "Joined server";

pub const NOTE_JOINED_ROOM: &'static str = "Joined room";

/// A key, as far as the client tells keys apart.
#[derive(Debug, Clone, Copy, PartialEq, Eq, Structural)]
pub enum Key {
    Char(char),
    Esc,
    Backspace,
    Enter,
    Tab,
    Other,
}

/// A request on its way to the server.
#[derive(Debug)]
pub struct RawTask {
    pub req: UserAction,
}

/// The state of a client that the server has given a name.
#[derive(Debug)]
pub struct Connected {
    pub username: String,
}

/// What a connected client does about a key.
#[derive(Debug)]
pub enum ChatStep {
    /// Put the character at the end of the line.
    Insert(char),
    /// Take the last character off the line.
    DeleteChar,
    /// Send the request and empty the line.
    Submit(RawTask),
    /// Show or hide the notes.
    ToggleNotes,
    /// Leave the program.
    Quit,
    /// Nothing.
    Ignore,
}

/// The mathematical value of a [`ChatStep`].
pub enum ChatStepView {
    Insert(char),
    DeleteChar,
    Submit(UserActionView),
    ToggleNotes,
    Quit,
    Ignore,
}

impl View for ChatStep {
    type V = ChatStepView;

    open spec fn view(&self) -> ChatStepView {
        match self {
            ChatStep::Insert(c) => ChatStepView::Insert(*c),
            ChatStep::DeleteChar => ChatStepView::DeleteChar,
            ChatStep::Submit(task) => ChatStepView::Submit(task.req@),
            ChatStep::ToggleNotes => ChatStepView::ToggleNotes,
            ChatStep::Quit => ChatStepView::Quit,
            ChatStep::Ignore => ChatStepView::Ignore,
        }
    }
}

/// What the key `key` asks of a client named `username` whose line holds
/// `line` and that is shown the room `room`. A line that is not empty is
/// sent as a public chat line; the server reads commands out of it.
pub open spec fn chat_step(
    key: Key,
    username: Seq<char>,
    line: Seq<char>,
    room: Option<Seq<char>>,
) -> ChatStepView {
    match key {
        Key::Char(c) => ChatStepView::Insert(c),
        Key::Esc => ChatStepView::Quit,
        Key::Backspace => ChatStepView::DeleteChar,
        Key::Enter => if line.len() > 0 {
            ChatStepView::Submit(
                UserActionView::Chat(
                    ChatMessageView::Public {
                        room_name: match room {
                            Some(name) => name,
                            None => Seq::empty(),
                        },
                        from: username,
                        msg: line,
                    },
                ),
            )
        } else {
            ChatStepView::Ignore
        },
        Key::Tab => ChatStepView::ToggleNotes,
        Key::Other => ChatStepView::Ignore,
    }
}

impl Connected {
    /// Decides what to do about a key.
    pub fn input(&self, key: Key, line: &str, room: Option<&String>) -> (r: ChatStep)
        ensures
            r@ == chat_step(
                key,
                self.username@,
                line@,
                match room {
                    Some(name) => Some(name@),
                    None => None,
                },
            ),
    {
        match key {
            Key::Char(c) => ChatStep::Insert(c),
            Key::Esc => ChatStep::Quit,
            Key::Backspace => ChatStep::DeleteChar,
            Key::Enter => {
                if !line.is_empty() {
                    let room_name = match room {
                        Some(name) => name.clone(),
                        None => String::new(),
                    };
                    ChatStep::Submit(
                        RawTask {
                            req: UserAction::Chat(
                                ChatMessage::Public {
                                    room_name,
                                    from: self.username.clone(),
                                    msg: String::from_str(line),
                                },
                            ),
                        },
                    )
                } else {
                    ChatStep::Ignore
                }
            },
            Key::Tab => ChatStep::ToggleNotes,
            Key::Other => ChatStep::Ignore,
        }
    }
}

/// The name that the server gave this client.
#[derive(Debug)]
pub struct UserData {
    pub username: String,
}

/// A time of day, as the clock on the wall shows it.
#[derive(Debug, Clone, Copy, PartialEq, Eq, Structural)]
pub struct Timestamp {
    pub hour: u32,
    pub minute: u32,
}

/// What a message in a log is.
#[derive(Debug)]
pub enum MessageType {
    Public { msg: String, from: String },
    Private { msg: String, from: String },
    Server(String),
}

/// A message in a log, with the time at which it arrived.
#[derive(Debug)]
pub struct ServerMessage {
    pub ty: MessageType,
    pub timestamp: Timestamp,
}

/// The mathematical value of a [`MessageType`].
pub enum MessageTypeView {
    Public { msg: Seq<char>, from: Seq<char> },
    Private { msg: Seq<char>, from: Seq<char> },
    Server(Seq<char>),
}

/// The mathematical value of a [`ServerMessage`].
pub struct ServerMessageView {
    pub ty: MessageTypeView,
    pub timestamp: Timestamp,
}

impl View for MessageType {
    type V = MessageTypeView;

    open spec fn view(&self) -> MessageTypeView {
        match self {
            MessageType::Public { msg, from } => MessageTypeView::Public { msg: msg@, from: from@ },
            MessageType::Private { msg, from } => MessageTypeView::Private {
                msg: msg@,
                from: from@,
            },
            MessageType::Server(text) => MessageTypeView::Server(text@),
        }
    }
}

impl View for ServerMessage {
    type V = ServerMessageView;

    open spec fn view(&self) -> ServerMessageView {
        ServerMessageView { ty: self.ty@, timestamp: self.timestamp }
    }
}

/// Why a response could not be filed. The state is then as it was.
#[derive(Debug, Clone, Copy, PartialEq, Eq, Structural)]
pub enum ClientError {
    /// The response is for a room that this client was not told it entered.
    UnknownRoom,
    /// The server gave a name, and this client has one already.
    AlreadyJoinedServer,
    /// The server announced a room that this client is in already.
    AlreadyJoinedRoom,
    /// A private message arrived, and no room is shown to put it in.
    NoRoom,
    /// The response is of a kind that a client has no use for.
    Unsupported,
}

/// The mathematical value of the log of one room.
pub struct RoomLogView {
    pub name: Seq<char>,
    pub messages: Seq<ServerMessageView>,
}

/// The mathematical value of a [`State`].
pub struct StateView {
    /// The logs, in the order in which the rooms were entered.
    pub logs: Seq<RoomLogView>,
    pub debug_messages: Seq<Seq<char>>,
    pub show_debug: bool,
    pub user_data: Option<Seq<char>>,
    pub current_tab: Option<Seq<char>>,
}

impl StateView {
    pub open spec fn has_log(self, room: Seq<char>) -> bool {
        exists|i: int| 0 <= i < self.logs.len() && (#[trigger] self.logs[i]).name == room
    }

    /// The messages filed for `room`; none where it has no log.
    pub open spec fn messages(self, room: Seq<char>) -> Seq<ServerMessageView> {
        if self.has_log(room) {
            self.logs[choose|i: int|
                0 <= i < self.logs.len() && (#[trigger] self.logs[i]).name == room].messages
        } else {
            Seq::empty()
        }
    }

    /// The invariant of the state: no room has two logs, and the room that is
    /// shown has one.
    pub open spec fn wf(self) -> bool {
        &&& forall|i: int, j: int|
            0 <= i < j < self.logs.len() ==> (#[trigger] self.logs[i]).name != (
            #[trigger] self.logs[j]).name
        &&& self.current_tab matches Some(room) ==> self.has_log(room)
    }

    /// The state of a client that has received nothing.
    pub open spec fn initial() -> StateView {
        StateView {
            logs: Seq::empty(),
            debug_messages: Seq::empty(),
            show_debug: false,
            user_data: None,
            current_tab: None,
        }
    }

    /// The state with `message` at the end of the log of `room`.
    pub open spec fn file(self, room: Seq<char>, message: ServerMessageView) -> StateView {
        StateView {
            logs: self.logs.map_values(
                |log: RoomLogView|
                    if log.name == room {
                        RoomLogView { name: log.name, messages: log.messages.push(message) }
                    } else {
                        log
                    },
            ),
            ..self
        }
    }

    /// Whether the response `res` can be filed.
    pub open spec fn outcome(self, res: ResponseView) -> Result<(), ClientError> {
        match res {
            ResponseView::Chat(ChatMessageView::Public { room_name, from, msg }) => {
                if self.has_log(room_name) {
                    Ok(())
                } else {
                    Err(ClientError::UnknownRoom)
                }
            },
            ResponseView::Chat(ChatMessageView::Private { from, msg }) => {
                if self.current_tab is Some {
                    Ok(())
                } else {
                    Err(ClientError::NoRoom)
                }
            },
            ResponseView::Chat(ChatMessageView::Username(_)) => Err(ClientError::Unsupported),
            ResponseView::Game(_) => Err(ClientError::Unsupported),
            ResponseView::Server(s) => self.server_outcome(s),
        }
    }

    /// Whether the server notice `res` can be filed.
    pub open spec fn server_outcome(self, res: ServerResponseView) -> Result<(), ClientError> {
        match res {
            ServerResponseView::JoinedServer { username } => {
                if self.user_data is None {
                    Ok(())
                } else {
                    Err(ClientError::AlreadyJoinedServer)
                }
            },
            ServerResponseView::JoinedRoom { room_name } => {
                if self.has_log(room_name) {
                    Err(ClientError::AlreadyJoinedRoom)
                } else {
                    Ok(())
                }
            },
            ServerResponseView::OtherUserJoined { name } => Err(ClientError::Unsupported),
            ServerResponseView::General { room_name, msg } => {
                if self.has_log(room_name) {
                    Ok(())
                } else {
                    Err(ClientError::UnknownRoom)
                }
            },
        }
    }

    /// The state after the server notice `res` arrived at the time `at`.
    ///
    /// The name that the server gives is kept, with a note. A room that the
    /// server announces gets an empty log and is shown, with a note. A notice
    /// to a room goes to the end of that room's log. What cannot be filed
    /// changes nothing.
    pub open spec fn receive_server(self, res: ServerResponseView, at: Timestamp) -> StateView {
        if self.server_outcome(res) is Err {
            self
        } else {
            match res {
                ServerResponseView::JoinedServer { username } => StateView {
                    debug_messages: self.debug_messages.push(NOTE_JOINED_SERVER@),
                    user_data: Some(username),
                    ..self
                },
                ServerResponseView::JoinedRoom { room_name } => StateView {
                    debug_messages: self.debug_messages.push(NOTE_JOINED_ROOM@),
                    logs: self.logs.push(RoomLogView { name: room_name, messages: Seq::empty() }),
                    current_tab: Some(room_name),
                    ..self
                },
                ServerResponseView::OtherUserJoined { name } => self,
                ServerResponseView::General { room_name, msg } => self.file(
                    room_name,
                    ServerMessageView { ty: MessageTypeView::Server(msg), timestamp: at },
                ),
            }
        }
    }

    /// The state after the response `res` arrived at the time `at`.
    ///
    /// A public chat line goes to the end of the log of its room, a private
    /// one to the end of the log of the room that is shown. What cannot be
    /// filed changes nothing.
    pub open spec fn receive(self, res: ResponseView, at: Timestamp) -> StateView {
        if self.outcome(res) is Err {
            self
        } else {
            match res {
                ResponseView::Chat(ChatMessageView::Public { room_name, from, msg }) => self.file(
                    room_name,
                    ServerMessageView { ty: MessageTypeView::Public { msg, from }, timestamp: at },
                ),
                ResponseView::Chat(ChatMessageView::Private { from, msg }) => self.file(
                    self.current_tab->Some_0,
                    ServerMessageView { ty: MessageTypeView::Private { msg, from }, timestamp: at },
                ),
                ResponseView::Chat(ChatMessageView::Username(_)) => self,
                ResponseView::Game(_) => self,
                ResponseView::Server(s) => self.receive_server(s, at),
            }
        }
    }
}

/// Filing a message keeps the state well formed.
pub proof fn lemma_file_wf(v: StateView, room: Seq<char>, message: ServerMessageView)
    requires
        v.wf(),
    ensures
        v.file(room, message).wf(),
{
    let w = v.file(room, message);
    assert forall|i: int| 0 <= i < v.logs.len() implies (#[trigger] w.logs[i]).name
        == v.logs[i].name by {}
    assert forall|i: int, j: int| 0 <= i < j < w.logs.len() implies (#[trigger] w.logs[i]).name
        != (#[trigger] w.logs[j]).name by {
        assert(v.logs[i].name != v.logs[j].name);
    }
    if let Some(tab) = v.current_tab {
        let i = choose|i: int| 0 <= i < v.logs.len() && (#[trigger] v.logs[i]).name == tab;
        assert(w.logs[i].name == tab);
    }
}

/// Whatever arrives, and in whatever order, the state stays well formed.
pub proof fn lemma_receive_wf(v: StateView, res: ResponseView, at: Timestamp)
    requires
        v.wf(),
    ensures
        v.receive(res, at).wf(),
{
    let w = v.receive(res, at);
    if v.outcome(res) is Ok {
        match res {
            ResponseView::Chat(ChatMessageView::Public { room_name, from, msg }) => {
                lemma_file_wf(
                    v,
                    room_name,
                    ServerMessageView { ty: MessageTypeView::Public { msg, from }, timestamp: at },
                );
            },
            ResponseView::Chat(ChatMessageView::Private { from, msg }) => {
                lemma_file_wf(
                    v,
                    v.current_tab->Some_0,
                    ServerMessageView { ty: MessageTypeView::Private { msg, from }, timestamp: at },
                );
            },
            ResponseView::Server(ServerResponseView::General { room_name, msg }) => {
                lemma_file_wf(
                    v,
                    room_name,
                    ServerMessageView { ty: MessageTypeView::Server(msg), timestamp: at },
                );
            },
            ResponseView::Server(ServerResponseView::JoinedRoom { room_name }) => {
                let n = v.logs.len() as int;
                assert(w.logs[n].name == room_name);
                assert forall|i: int, j: int| 0 <= i < j < w.logs.len() implies (
                #[trigger] w.logs[i]).name != (#[trigger] w.logs[j]).name by {
                    if j == n {
                        assert(v.logs[i].name != room_name);
                    } else {
                        assert(v.logs[i].name != v.logs[j].name);
                    }
                }
            },
            ResponseView::Server(ServerResponseView::JoinedServer { username }) => {
                if let Some(tab) = v.current_tab {
                    let i = choose|i: int|
                        0 <= i < v.logs.len() && (#[trigger] v.logs[i]).name == tab;
                    assert(w.logs[i].name == tab);
                }
            },
            _ => {},
        }
    }
}

/// What was filed for a room stays in the order in which it arrived: a
/// message that is filed stands at the end of its room's log, behind all
/// that was there, and no other log changes.
pub proof fn lemma_file_appends(
    v: StateView,
    room: Seq<char>,
    message: ServerMessageView,
    other: Seq<char>,
)
    requires
        v.wf(),
        v.has_log(room),
    ensures
        v.file(room, message).has_log(other) == v.has_log(other),
        v.file(room, message).messages(other) == if other == room {
            v.messages(room).push(message)
        } else {
            v.messages(other)
        },
{
    let w = v.file(room, message);
    assert forall|i: int| 0 <= i < v.logs.len() implies (#[trigger] w.logs[i]).name
        == v.logs[i].name by {}
    if v.has_log(other) {
        let i = choose|i: int| 0 <= i < v.logs.len() && (#[trigger] v.logs[i]).name == other;
        assert(w.logs[i].name == other);
        let j = choose|j: int| 0 <= j < w.logs.len() && (#[trigger] w.logs[j]).name == other;
        if i < j {
            assert(v.logs[i].name != v.logs[j].name);
        }
        if j < i {
            assert(v.logs[j].name != v.logs[i].name);
        }
    }
    if w.has_log(other) {
        let j = choose|j: int| 0 <= j < w.logs.len() && (#[trigger] w.logs[j]).name == other;
        assert(v.logs[j].name == other);
    }
}

/// The log of one room.
#[derive(Debug)]
struct RoomLog {
    name: String,
    messages: Vec<ServerMessage>,
}

impl View for RoomLog {
    type V = RoomLogView;

    closed spec fn view(&self) -> RoomLogView {
        RoomLogView { name: self.name@, messages: self.messages@.map_values(|m: ServerMessage| m@) }
    }
}

/// What a client keeps of a conversation.
#[derive(Debug)]
pub struct State {
    room_messages: Vec<RoomLog>,
    debug_messages: Vec<String>,
    show_debug: bool,
    user_data: Option<UserData>,
    current_tab: Option<String>,
}

impl View for State {
    type V = StateView;

    closed spec fn view(&self) -> StateView {
        StateView {
            logs: self.room_messages@.map_values(|log: RoomLog| log@),
            debug_messages: self.debug_messages@.map_values(|s: String| s@),
            show_debug: self.show_debug,
            user_data: match self.user_data {
                Some(data) => Some(data.username@),
                None => None,
            },
            current_tab: match self.current_tab {
                Some(room) => Some(room@),
                None => None,
            },
        }
    }
}

/// `chrono::Local::now`, read with `Timelike::hour` and `Timelike::minute`:
/// the local time of day at the moment of the call. The hour is below 24 and
/// the minute below 60; nothing else is known of them.
#[verifier::external_body]
fn clock() -> (r: Timestamp)
    ensures
        r.hour < 24,
        r.minute < 60,
{
    let now = chrono::Local::now();
    Timestamp { hour: now.hour(), minute: now.minute() }
}

impl State {
    /// The state of a client that has received nothing.
    pub fn new() -> (r: State)
        ensures
            r@.wf(),
            r@ == StateView::initial(),
    {
        let r = State {
            room_messages: Vec::new(),
            debug_messages: Vec::new(),
            show_debug: false,
            user_data: None,
            current_tab: None,
        };
        assert(r@.logs =~= Seq::<RoomLogView>::empty());
        assert(r@.debug_messages =~= Seq::<Seq<char>>::empty());
        r
    }

    fn find_log(&self, room: &String) -> (r: Option<usize>)
        ensures
            r is Some <==> self@.has_log(room@),
            r matches Some(i) ==> i < self.room_messages.len() && self.room_messages[i as int].name@
                == room@,
    {
        let mut i: usize = 0;
        while i < self.room_messages.len()
            invariant
                i <= self.room_messages.len(),
                forall|k: int| 0 <= k < i ==> self.room_messages[k].name@ != room@,
            decreases self.room_messages.len() - i,
        {
            if self.room_messages[i].name == *room {
                assert(self@.logs[i as int].name == room@);
                return Some(i);
            }
            i += 1;
        }
        assert(!self@.has_log(room@)) by {
            if self@.has_log(room@) {
                let k = choose|k: int|
                    0 <= k < self@.logs.len() && (#[trigger] self@.logs[k]).name == room@;
                assert(self@.logs[k].name == self.room_messages[k].name@);
            }
        }
        None
    }

    fn file(&mut self, room: &String, message: ServerMessage) -> (r: Result<(), ClientError>)
        requires
            old(self)@.wf(),
        ensures
            final(self)@.wf(),
            old(self)@.has_log(room@) ==> r == Ok::<(), ClientError>(()) && final(self)@ == old(
                self,
            )@.file(room@, message@),
            !old(self)@.has_log(room@) ==> r == Err::<(), ClientError>(ClientError::UnknownRoom)
                && final(self)@ == old(self)@,
    {
        let ghost v = self@;
        match self.find_log(room) {
            Some(i) => {
                self.room_messages[i].messages.push(message);
                proof {
                    let w = v.file(room@, message@);
                    lemma_file_wf(v, room@, message@);
                    assert forall|n: int| 0 <= n < self.room_messages.len() implies (
                    #[trigger] self@.logs[n]) == w.logs[n] by {
                        if n == i {
                            assert(self.room_messages[n]@.messages =~= w.logs[n].messages);
                        } else {
                            if n < i {
                                assert(v.logs[n].name != v.logs[i as int].name);
                            } else {
                                assert(v.logs[i as int].name != v.logs[n].name);
                            }
                        }
                    }
                    assert(self@.logs =~= w.logs);
                }
                Ok(())
            },
            None => Err(ClientError::UnknownRoom),
        }
    }

    /// Files a server notice that arrived at the time `at`.
    pub fn record_server(&mut self, res: &ServerResponse, at: Timestamp) -> (r: Result<
        (),
        ClientError,
    >)
        requires
            old(self)@.wf(),
        ensures
            final(self)@.wf(),
            r == old(self)@.server_outcome(res@),
            final(self)@ == old(self)@.receive_server(res@, at),
    {
        let ghost v = self@;
        proof {
            lemma_receive_wf(v, ResponseView::Server(res@), at);
        }
        match res {
            ServerResponse::JoinedServer { username } => {
                if self.user_data.is_some() {
                    return Err(ClientError::AlreadyJoinedServer);
                }
                self.debug_messages.push(String::from_str(NOTE_JOINED_SERVER));
                self.user_data = Some(UserData { username: username.clone() });
                proof {
                    let w = v.receive_server(res@, at);
                    assert(self@.debug_messages =~= w.debug_messages);
                }
                Ok(())
            },
            ServerResponse::JoinedRoom { room_name } => {
                if self.find_log(room_name).is_some() {
                    return Err(ClientError::AlreadyJoinedRoom);
                }
                self.debug_messages.push(String::from_str(NOTE_JOINED_ROOM));
                self.room_messages.push(
                    RoomLog { name: room_name.clone(), messages: Vec::new() },
                );
                self.current_tab = Some(room_name.clone());
                proof {
                    let w = v.receive_server(res@, at);
                    let n = v.logs.len() as int;
                    assert(self.room_messages[n]@.messages =~= Seq::<ServerMessageView>::empty());
                    assert(self@.debug_messages =~= w.debug_messages);
                    assert(self@.logs =~= w.logs);
                }
                Ok(())
            },
            ServerResponse::OtherUserJoined { name } => Err(ClientError::Unsupported),
            ServerResponse::General { room_name, msg } => {
                self.file(
                    room_name,
                    ServerMessage { ty: MessageType::Server(msg.clone()), timestamp: at },
                )
            },
        }
    }

    /// Files a response that arrived at the time `at`.
    pub fn record(&mut self, res: &Response, at: Timestamp) -> (r: Result<(), ClientError>)
        requires
            old(self)@.wf(),
        ensures
            final(self)@.wf(),
            r == old(self)@.outcome(res@),
            final(self)@ == old(self)@.receive(res@, at),
    {
        match res {
            Response::Chat(ChatMessage::Public { room_name, from, msg }) => {
                self.file(
                    room_name,
                    ServerMessage {
                        ty: MessageType::Public { msg: msg.clone(), from: from.clone() },
                        timestamp: at,
                    },
                )
            },
            Response::Chat(ChatMessage::Private { from, msg }) => {
                let room = match &self.current_tab {
                    Some(room) => room.clone(),
                    None => {
                        return Err(ClientError::NoRoom);
                    },
                };
                self.file(
                    &room,
                    ServerMessage {
                        ty: MessageType::Private { msg: msg.clone(), from: from.clone() },
                        timestamp: at,
                    },
                )
            },
            Response::Chat(ChatMessage::Username(_)) => Err(ClientError::Unsupported),
            Response::Game(_) => Err(ClientError::Unsupported),
            Response::Server(s) => self.record_server(s, at),
        }
    }

    /// Files a server notice that arrives now: [`State::record_server`] at
    /// the time that the clock shows.
    pub fn handle_server_response(&mut self, res: ServerResponse) -> (r: Result<(), ClientError>)
        requires
            old(self)@.wf(),
        ensures
            final(self)@.wf(),
            r == old(self)@.server_outcome(res@),
            exists|at: Timestamp|
                at.hour < 24 && at.minute < 60 && final(self)@ == #[trigger] old(
                    self,
                )@.receive_server(res@, at),
    {
        let at = clock();
        self.record_server(&res, at)
    }

    /// Files a response that arrives now: [`State::record`] at the time that
    /// the clock shows.
    pub fn handle_response(&mut self, res: Response) -> (r: Result<(), ClientError>)
        requires
            old(self)@.wf(),
        ensures
            final(self)@.wf(),
            r == old(self)@.outcome(res@),
            exists|at: Timestamp|
                at.hour < 24 && at.minute < 60 && final(self)@ == #[trigger] old(self)@.receive(
                    res@,
                    at,
                ),
    {
        let at = clock();
        self.record(&res, at)
    }

    /// Turns the list of notes on or off.
    pub fn toggle_debug(&mut self)
        ensures
            final(self)@ == (StateView { show_debug: !old(self)@.show_debug, ..old(self)@ }),
    {
        self.show_debug = !self.show_debug;
    }

    pub fn show_debug(&self) -> (r: bool)
        ensures
            r == self@.show_debug,
    {
        self.show_debug
    }

    /// The name that the server gave this client, once it has one.
    pub fn username(&self) -> (r: Option<&String>)
        ensures
            r is Some <==> self@.user_data is Some,
            r matches Some(name) ==> self@.user_data == Some(name@),
    {
        match &self.user_data {
            Some(data) => Some(&data.username),
            None => None,
        }
    }

    /// The room that is shown.
    pub fn current_tab(&self) -> (r: Option<&String>)
        ensures
            r is Some <==> self@.current_tab is Some,
            r matches Some(room) ==> self@.current_tab == Some(room@),
    {
        match &self.current_tab {
            Some(room) => Some(room),
            None => None,
        }
    }

    /// The notes on what happened, oldest first.
    pub fn debug_messages(&self) -> (r: &Vec<String>)
        ensures
            r@.map_values(|s: String| s@) == self@.debug_messages,
    {
        &self.debug_messages
    }

    /// The messages filed for the room that is shown, oldest first; none
    /// where no room is shown.
    pub fn shown_messages(&self) -> (r: &[ServerMessage])
        requires
            self@.wf(),
        ensures
            r@.map_values(|m: ServerMessage| m@) == match self@.current_tab {
                Some(room) => self@.messages(room),
                None => Seq::empty(),
            },
    {
        let found = match &self.current_tab {
            Some(room) => self.find_log(room),
            None => None,
        };
        match found {
            Some(i) => {
                proof {
                    let v = self@;
                    let room = v.current_tab->Some_0;
                    let k = choose|k: int|
                        0 <= k < v.logs.len() && (#[trigger] v.logs[k]).name == room;
                    if k < i {
                        assert(v.logs[k].name != v.logs[i as int].name);
                    }
                    if i < k {
                        assert(v.logs[i as int].name != v.logs[k].name);
                    }
                }
                self.room_messages[i].messages.as_slice()
            },
            None => {
                let none: &[ServerMessage] = &[];
                assert(none@.map_values(|m: ServerMessage| m@) =~= Seq::<
                    ServerMessageView,
                >::empty());
                none
            },
        }
    }
}

/// The responses that the payloads `payloads` hold, in their order. A payload
/// that holds none is passed over.
pub open spec fn responses_of(payloads: Seq<Seq<u8>>) -> Seq<ResponseView>
    decreases payloads.len(),
{
    if payloads.len() == 0 {
        Seq::empty()
    } else {
        match read_response(payloads.last()) {
            Some(res) => responses_of(payloads.drop_last()).push(res),
            None => responses_of(payloads.drop_last()),
        }
    }
}

/// Takes all whole frames out of the decoder and reads the responses in
/// them. The flag says whether the stream is still of use: a frame that
/// breaks the rule of the frames ends it.
pub fn read_responses(decoder: &mut FrameDecoder) -> (r: (Vec<Response>, bool))
    ensures
        final(decoder)@ == leftover(old(decoder)@),
        r.0@.map_values(|m: Response| m@) == responses_of(whole_frames(old(decoder)@)),
        r.1 == !(parse_frame(leftover(old(decoder)@)) is TooLarge),
{
    let (payloads, broken) = decoder.drain();
    let ghost frames = whole_frames(old(decoder)@);
    let mut out: Vec<Response> = Vec::new();
    let mut i: usize = 0;
    assert(frames.take(0) =~= Seq::<Seq<u8>>::empty());
    assert(out@.map_values(|m: Response| m@) =~= responses_of(frames.take(0)));
    while i < payloads.len()
        invariant
            i <= payloads.len(),
            payload_views(payloads@) == frames,
            out@.map_values(|m: Response| m@) == responses_of(frames.take(i as int)),
        decreases payloads.len() - i,
    {
        let ghost upto = frames.take(i + 1);
        let ghost before = out@.map_values(|m: Response| m@);
        assert(upto.drop_last() =~= frames.take(i as int));
        assert(upto.last() == payloads[i as int]@);
        match decode_response(payloads[i].as_slice()) {
            Ok(res) => {
                let ghost v = res@;
                out.push(res);
                assert(out@.map_values(|m: Response| m@) =~= before.push(v));
            },
            Err(_) => {},
        }
        i += 1;
    }
    assert(frames.take(payloads.len() as int) =~= frames);
    (out, !broken)
}

/// The bytes to write to the connection for the request of `task`: its frame.
/// Fails exactly where the request is too long for a frame.
pub fn handle_task_raw(task: &RawTask) -> (r: Result<Vec<u8>, FrameError>)
    ensures
        request_bytes(task.req@).len() <= MAX_FRAME_LEN ==> r is Ok && r->Ok_0@ == frame(
            request_bytes(task.req@),
        ),
        request_bytes(task.req@).len() > MAX_FRAME_LEN ==> r == Err::<Vec<u8>, FrameError>(
            FrameError::TooLarge,
        ),
{
    let payload = encode_request(&task.req);
    encode_frame(payload.as_slice())
}

} // verus!

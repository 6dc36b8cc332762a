//! The messages exchanged between client and server.
//!
//! Every type has a view that replaces each `String` by the sequence of its
//! characters; contracts throughout the crate speak of those views.

use vstd::prelude::*;
use vstd::string::*;
use vstd::std_specs::cmp::PartialEqSpecImpl;

verus! {

/// A chat line in one of its three shapes. It travels in both directions: as
/// the content of a request and as the content of a response.
#[derive(Debug)]
pub enum ChatMessage {
    /// A direct message. In a response, `from` names the sender; in a request
    /// it names the other party, that is the addressee.
    Private { from: String, msg: String },
    /// A line for everybody in a room.
    Public { room_name: String, from: String, msg: String },
    /// The display name a client asks for when it joins.
    Username(String),
}

/// What a client asks of the server.
#[derive(Debug)]
pub enum UserAction {
    Chat(ChatMessage),
}

/// What the server tells a client.
#[derive(Debug)]
pub enum Response {
    Chat(ChatMessage),
    Game(GameUpdate),
    Server(ServerResponse),
}

/// Notices that originate in the server itself.
#[derive(Debug)]
pub enum ServerResponse {
    JoinedServer { username: String },
    JoinedRoom { room_name: String },
    OtherUserJoined { name: String },
    General { room_name: String, msg: String },
}

/// News of a game. The chat itself never sends one.
#[derive(Debug)]
pub struct GameUpdate {
    pub msg: String,
}

/// The mathematical value of a [`ChatMessage`].
pub enum ChatMessageView {
    Private { from: Seq<char>, msg: Seq<char> },
    Public { room_name: Seq<char>, from: Seq<char>, msg: Seq<char> },
    Username(Seq<char>),
}

/// The mathematical value of a [`UserAction`].
pub enum UserActionView {
    Chat(ChatMessageView),
}

/// The mathematical value of a [`ServerResponse`].
pub enum ServerResponseView {
    JoinedServer { username: Seq<char> },
    JoinedRoom { room_name: Seq<char> },
    OtherUserJoined { name: Seq<char> },
    General { room_name: Seq<char>, msg: Seq<char> },
}

/// The mathematical value of a [`GameUpdate`].
pub struct GameUpdateView {
    pub msg: Seq<char>,
}

/// The mathematical value of a [`Response`].
pub enum ResponseView {
    Chat(ChatMessageView),
    Game(GameUpdateView),
    Server(ServerResponseView),
}

impl View for ChatMessage {
    type V = ChatMessageView;

    open spec fn view(&self) -> ChatMessageView {
        match self {
            ChatMessage::Private { from, msg } => ChatMessageView::Private {
                from: from@,
                msg: msg@,
            },
            ChatMessage::Public { room_name, from, msg } => ChatMessageView::Public {
                room_name: room_name@,
                from: from@,
                msg: msg@,
            },
            ChatMessage::Username(name) => ChatMessageView::Username(name@),
        }
    }
}

impl View for UserAction {
    type V = UserActionView;

    open spec fn view(&self) -> UserActionView {
        match self {
            UserAction::Chat(m) => UserActionView::Chat(m@),
        }
    }
}

impl View for ServerResponse {
    type V = ServerResponseView;

    open spec fn view(&self) -> ServerResponseView {
        match self {
            ServerResponse::JoinedServer { username } => ServerResponseView::JoinedServer {
                username: username@,
            },
            ServerResponse::JoinedRoom { room_name } => ServerResponseView::JoinedRoom {
                room_name: room_name@,
            },
            ServerResponse::OtherUserJoined { name } => ServerResponseView::OtherUserJoined {
                name: name@,
            },
            ServerResponse::General { room_name, msg } => ServerResponseView::General {
                room_name: room_name@,
                msg: msg@,
            },
        }
    }
}

impl View for GameUpdate {
    type V = GameUpdateView;

    open spec fn view(&self) -> GameUpdateView {
        GameUpdateView { msg: self.msg@ }
    }
}

impl View for Response {
    type V = ResponseView;

    open spec fn view(&self) -> ResponseView {
        match self {
            Response::Chat(m) => ResponseView::Chat(m@),
            Response::Game(g) => ResponseView::Game(g@),
            Response::Server(s) => ResponseView::Server(s@),
        }
    }
}

impl Clone for ChatMessage {
    fn clone(&self) -> (r: Self)
        ensures
            r == *self,
    {
        match self {
            ChatMessage::Private { from, msg } => ChatMessage::Private {
                from: from.clone(),
                msg: msg.clone(),
            },
            ChatMessage::Public { room_name, from, msg } => ChatMessage::Public {
                room_name: room_name.clone(),
                from: from.clone(),
                msg: msg.clone(),
            },
            ChatMessage::Username(name) => ChatMessage::Username(name.clone()),
        }
    }
}

impl Clone for UserAction {
    fn clone(&self) -> (r: Self)
        ensures
            r == *self,
    {
        match self {
            UserAction::Chat(m) => UserAction::Chat(m.clone()),
        }
    }
}

impl Clone for ServerResponse {
    fn clone(&self) -> (r: Self)
        ensures
            r == *self,
    {
        match self {
            ServerResponse::JoinedServer { username } => ServerResponse::JoinedServer {
                username: username.clone(),
            },
            ServerResponse::JoinedRoom { room_name } => ServerResponse::JoinedRoom {
                room_name: room_name.clone(),
            },
            ServerResponse::OtherUserJoined { name } => ServerResponse::OtherUserJoined {
                name: name.clone(),
            },
            ServerResponse::General { room_name, msg } => ServerResponse::General {
                room_name: room_name.clone(),
                msg: msg.clone(),
            },
        }
    }
}

impl Clone for GameUpdate {
    fn clone(&self) -> (r: Self)
        ensures
            r == *self,
    {
        GameUpdate { msg: self.msg.clone() }
    }
}

impl Clone for Response {
    fn clone(&self) -> (r: Self)
        ensures
            r == *self,
    {
        match self {
            Response::Chat(m) => Response::Chat(m.clone()),
            Response::Game(g) => Response::Game(g.clone()),
            Response::Server(s) => Response::Server(s.clone()),
        }
    }
}

impl PartialEq for ChatMessage {
    fn eq(&self, other: &Self) -> (r: bool) {
        match (self, other) {
            (
                ChatMessage::Private { from: f1, msg: m1 },
                ChatMessage::Private { from: f2, msg: m2 },
            ) => *f1 == *f2 && *m1 == *m2,
            (
                ChatMessage::Public { room_name: r1, from: f1, msg: m1 },
                ChatMessage::Public { room_name: r2, from: f2, msg: m2 },
            ) => *r1 == *r2 && *f1 == *f2 && *m1 == *m2,
            (ChatMessage::Username(n1), ChatMessage::Username(n2)) => *n1 == *n2,
            _ => false,
        }
    }
}

impl PartialEqSpecImpl for ChatMessage {
    open spec fn obeys_eq_spec() -> bool {
        true
    }

    open spec fn eq_spec(&self, other: &Self) -> bool {
        self@ == other@
    }
}

impl PartialEq for UserAction {
    fn eq(&self, other: &Self) -> (r: bool) {
        match (self, other) {
            (UserAction::Chat(a), UserAction::Chat(b)) => *a == *b,
        }
    }
}

impl PartialEqSpecImpl for UserAction {
    open spec fn obeys_eq_spec() -> bool {
        true
    }

    open spec fn eq_spec(&self, other: &Self) -> bool {
        self@ == other@
    }
}

impl PartialEq for ServerResponse {
    fn eq(&self, other: &Self) -> (r: bool) {
        match (self, other) {
            (
                ServerResponse::JoinedServer { username: a },
                ServerResponse::JoinedServer { username: b },
            ) => *a == *b,
            (
                ServerResponse::JoinedRoom { room_name: a },
                ServerResponse::JoinedRoom { room_name: b },
            ) => *a == *b,
            (
                ServerResponse::OtherUserJoined { name: a },
                ServerResponse::OtherUserJoined { name: b },
            ) => *a == *b,
            (
                ServerResponse::General { room_name: r1, msg: m1 },
                ServerResponse::General { room_name: r2, msg: m2 },
            ) => *r1 == *r2 && *m1 == *m2,
            _ => false,
        }
    }
}

impl PartialEqSpecImpl for ServerResponse {
    open spec fn obeys_eq_spec() -> bool {
        true
    }

    open spec fn eq_spec(&self, other: &Self) -> bool {
        self@ == other@
    }
}

impl PartialEq for GameUpdate {
    fn eq(&self, other: &Self) -> (r: bool) {
        self.msg == other.msg
    }
}

impl PartialEqSpecImpl for GameUpdate {
    open spec fn obeys_eq_spec() -> bool {
        true
    }

    open spec fn eq_spec(&self, other: &Self) -> bool {
        self@ == other@
    }
}

impl PartialEq for Response {
    fn eq(&self, other: &Self) -> (r: bool) {
        match (self, other) {
            (Response::Chat(a), Response::Chat(b)) => *a == *b,
            (Response::Game(a), Response::Game(b)) => *a == *b,
            (Response::Server(a), Response::Server(b)) => *a == *b,
            _ => false,
        }
    }
}

impl PartialEqSpecImpl for Response {
    open spec fn obeys_eq_spec() -> bool {
        true
    }

    open spec fn eq_spec(&self, other: &Self) -> bool {
        self@ == other@
    }
}

impl Response {
    /// A notice from the server to the members of `room_name`.
    pub fn server_msg(msg: &str, room_name: &str) -> (r: Response)
        ensures
            r@ == ResponseView::Server(
                ServerResponseView::General { room_name: room_name@, msg: msg@ },
            ),
    {
        Response::Server(
            ServerResponse::General {
                msg: String::from_str(msg),
                room_name: String::from_str(room_name),
            },
        )
    }

    /// A chat line that `from` wrote to everybody in `room_name`.
    pub fn public_msg(msg: &str, room_name: &str, from: &str) -> (r: Response)
        ensures
            r@ == ResponseView::Chat(
                ChatMessageView::Public { room_name: room_name@, from: from@, msg: msg@ },
            ),
    {
        Response::Chat(
            ChatMessage::Public {
                room_name: String::from_str(room_name),
                from: String::from_str(from),
                msg: String::from_str(msg),
            },
        )
    }

    /// A chat line that `from` wrote to the receiver alone.
    pub fn private_msg(msg: &str, from: &str) -> (r: Response)
        ensures
            r@ == ResponseView::Chat(ChatMessageView::Private { from: from@, msg: msg@ }),
    {
        Response::Chat(
            ChatMessage::Private { from: String::from_str(from), msg: String::from_str(msg) },
        )
    }
}

} // verus!

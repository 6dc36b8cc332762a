//! The registry as a mathematical value, and what each operation makes of it.

use vstd::prelude::*;
use crate::model::{ChatMessageView, ResponseView, ServerResponseView};
use crate::registry::RegistryError;
use crate::text::{default_name, has_default_prefix, MAIN_ROOM};

verus! {

/// The mathematical value of a [`UserSession`].
pub struct SessionView {
    pub id: u64,
    pub name: Seq<char>,
    /// The room the session is in, once it has entered one.
    pub room: Option<Seq<char>>,
    /// Responses not yet written to the connection, oldest first.
    pub outbox: Seq<ResponseView>,
}

impl SessionView {
    /// The session with `msg` added at the back of its queue.
    pub open spec fn enqueue(self, msg: ResponseView) -> SessionView {
        SessionView { outbox: self.outbox.push(msg), ..self }
    }
}

/// The mathematical value of a room: its name and the identities in it.
pub struct RoomView {
    pub name: Seq<char>,
    pub members: Set<u64>,
}

/// The mathematical value of the registry.
pub struct SharedView {
    /// The sessions, in the order of their registration.
    pub sessions: Seq<SessionView>,
    /// The declared rooms, in the order of their declaration.
    pub rooms: Seq<RoomView>,
    /// How many sessions were ever registered.
    pub user_count: nat,
}

impl SharedView {
    pub open spec fn has_session(self, id: u64) -> bool {
        exists|i: int| 0 <= i < self.sessions.len() && (#[trigger] self.sessions[i]).id == id
    }

    /// Where the session `id` stands among the sessions.
    pub open spec fn index_of(self, id: u64) -> int {
        choose|i: int| 0 <= i < self.sessions.len() && (#[trigger] self.sessions[i]).id == id
    }

    pub open spec fn session(self, id: u64) -> SessionView {
        self.sessions[self.index_of(id)]
    }

    /// The queue of the session `id`; empty where there is no such session.
    pub open spec fn outbox(self, id: u64) -> Seq<ResponseView> {
        if self.has_session(id) {
            self.session(id).outbox
        } else {
            Seq::empty()
        }
    }

    pub open spec fn has_room(self, name: Seq<char>) -> bool {
        exists|j: int| 0 <= j < self.rooms.len() && (#[trigger] self.rooms[j]).name == name
    }

    /// The identities in the room `name`; empty where no such room is declared.
    pub open spec fn members(self, name: Seq<char>) -> Set<u64> {
        Set::new(
            |id: u64|
                exists|j: int|
                    0 <= j < self.rooms.len() && (#[trigger] self.rooms[j]).name == name
                        && self.rooms[j].members.contains(id),
        )
    }

    /// Whether the session `id` points at the room `name`.
    pub open spec fn in_room(self, id: u64, name: Seq<char>) -> bool {
        exists|i: int|
            0 <= i < self.sessions.len() && (#[trigger] self.sessions[i]).id == id
                && self.sessions[i].room == Some(name)
    }

    pub open spec fn name_taken(self, name: Seq<char>) -> bool {
        exists|i: int| 0 <= i < self.sessions.len() && (#[trigger] self.sessions[i]).name == name
    }

    /// The identity of the session whose display name is `name`.
    pub open spec fn resolve(self, name: Seq<char>) -> u64 {
        self.sessions[choose|i: int|
            0 <= i < self.sessions.len() && (#[trigger] self.sessions[i]).name == name].id
    }

    /// The invariant of the registry: identities, display names and room names
    /// are unique, the room `main` is declared, every session that points at a
    /// room points at a declared one, and the member sets of the rooms say
    /// exactly what the sessions' room pointers say.
    pub open spec fn wf(self) -> bool {
        &&& forall|i: int, j: int|
            0 <= i < j < self.sessions.len() ==> (#[trigger] self.sessions[i]).id != (
            #[trigger] self.sessions[j]).id
        &&& forall|i: int, j: int|
            0 <= i < j < self.sessions.len() ==> (#[trigger] self.sessions[i]).name != (
            #[trigger] self.sessions[j]).name
        &&& self.rooms.len() > 0
        &&& self.rooms[0].name == MAIN_ROOM@
        &&& forall|i: int, j: int|
            0 <= i < j < self.rooms.len() ==> (#[trigger] self.rooms[i]).name != (
            #[trigger] self.rooms[j]).name
        &&& forall|i: int|
            0 <= i < self.sessions.len() ==> ((#[trigger] self.sessions[i]).room matches Some(r)
                ==> self.has_room(r))
        &&& forall|j: int, id: u64|
            0 <= j < self.rooms.len() ==> (#[trigger] self.rooms[j].members.contains(id)
                <==> self.in_room(id, self.rooms[j].name))
        &&& forall|i: int, k: nat|
            0 <= i < self.sessions.len() && k >= self.user_count ==> (
            #[trigger] self.sessions[i]).name != #[trigger] default_name(k)
    }

    /// The registry before anybody connected: no session, the room `main`.
    pub open spec fn initial() -> SharedView {
        SharedView {
            sessions: Seq::empty(),
            rooms: seq![RoomView { name: MAIN_ROOM@, members: Set::empty() }],
            user_count: 0,
        }
    }

    /// The registry with one more declared room, if the name was free.
    pub open spec fn declare(self, name: Seq<char>) -> SharedView {
        if self.has_room(name) {
            self
        } else {
            SharedView {
                rooms: self.rooms.push(RoomView { name, members: Set::empty() }),
                ..self
            }
        }
    }

    /// What entering `room` comes to for the session `id`.
    pub open spec fn join_outcome(self, id: u64, room: Seq<char>) -> Result<(), RegistryError> {
        if !self.has_session(id) {
            Err(RegistryError::UnknownSession)
        } else if !self.has_room(room) {
            Err(RegistryError::UnknownRoom)
        } else if self.session(id).room == Some(room) {
            Err(RegistryError::AlreadyInRoom)
        } else {
            Ok(())
        }
    }

    /// What a private message from `from` to the name `to` comes to. A message
    /// to oneself is accepted and goes nowhere.
    pub open spec fn private_outcome(self, from: u64, to: Seq<char>) -> Result<(), RegistryError> {
        if !self.name_taken(to) {
            Err(RegistryError::RecipientNotFound)
        } else if self.resolve(to) == from {
            Ok(())
        } else if !self.has_session(from) {
            Err(RegistryError::UnknownSession)
        } else {
            Ok(())
        }
    }

    /// The display name that a registration gets: the requested one if it is
    /// free and does not look like a default name, else the next default name.
    pub open spec fn assigned_name(self, requested: Option<Seq<char>>) -> Seq<char> {
        match requested {
            Some(name) => if !self.name_taken(name) && !has_default_prefix(name) {
                name
            } else {
                default_name(self.user_count)
            },
            None => default_name(self.user_count),
        }
    }

    /// The registry after the identity `id` registered.
    pub open spec fn register(self, id: u64, requested: Option<Seq<char>>) -> SharedView {
        SharedView {
            sessions: self.sessions.push(
                SessionView {
                    id,
                    name: self.assigned_name(requested),
                    room: None,
                    outbox: Seq::empty(),
                },
            ),
            user_count: self.user_count + 1,
            ..self
        }
    }

    /// The registry after the session `id` entered the room `room`: its pointer
    /// is set, it left every other member set, and a `JoinedRoom` waits in its
    /// queue.
    pub open spec fn join(self, id: u64, room: Seq<char>) -> SharedView {
        SharedView {
            sessions: self.sessions.map_values(
                |s: SessionView|
                    if s.id == id {
                        SessionView { room: Some(room), ..s }.enqueue(
                            ResponseView::Server(
                                ServerResponseView::JoinedRoom { room_name: room },
                            ),
                        )
                    } else {
                        s
                    },
            ),
            rooms: self.rooms.map_values(
                |r: RoomView|
                    RoomView {
                        name: r.name,
                        members: if r.name == room {
                            r.members.insert(id)
                        } else {
                            r.members.remove(id)
                        },
                    },
            ),
            ..self
        }
    }

    /// The registry without the session `id` and without its membership.
    pub open spec fn remove(self, id: u64) -> SharedView {
        if self.has_session(id) {
            SharedView {
                sessions: self.sessions.remove(self.index_of(id)),
                rooms: self.rooms.map_values(
                    |r: RoomView| RoomView { name: r.name, members: r.members.remove(id) },
                ),
                ..self
            }
        } else {
            self
        }
    }

    /// The registry after `msg` was put at the back of the queue of every
    /// session whose identity is in `to`.
    pub open spec fn deliver(self, to: Set<u64>, msg: ResponseView) -> SharedView {
        SharedView {
            sessions: self.sessions.map_values(
                |s: SessionView|
                    if to.contains(s.id) {
                        s.enqueue(msg)
                    } else {
                        s
                    },
            ),
            ..self
        }
    }

    /// Who receives a broadcast to `room`: its members, but for `exclude`.
    pub open spec fn recipients(self, room: Seq<char>, exclude: Option<u64>) -> Set<u64> {
        match exclude {
            Some(x) => self.members(room).remove(x),
            None => self.members(room),
        }
    }

    /// The registry after a broadcast of `msg` to `room`.
    pub open spec fn broadcast(
        self,
        room: Seq<char>,
        msg: ResponseView,
        exclude: Option<u64>,
    ) -> SharedView {
        self.deliver(self.recipients(room, exclude), msg)
    }

    /// The registry after `from` sent `text` to the session named `to`. Nothing
    /// changes where no session has that name, where the sender wrote to
    /// itself, or where the sender is not registered.
    pub open spec fn private_message(self, from: u64, to: Seq<char>, text: Seq<char>)
        -> SharedView {
        if self.name_taken(to) && self.resolve(to) != from && self.has_session(from) {
            self.deliver(
                set![self.resolve(to)],
                ResponseView::Chat(
                    ChatMessageView::Private { from: self.session(from).name, msg: text },
                ),
            )
        } else {
            self
        }
    }

    /// The display names of the sessions, in the order of their registration.
    pub open spec fn user_names(self) -> Seq<Seq<char>> {
        self.sessions.map_values(|s: SessionView| s.name)
    }

    /// The names of the declared rooms, in the order of their declaration.
    pub open spec fn room_names(self) -> Seq<Seq<char>> {
        self.rooms.map_values(|r: RoomView| r.name)
    }

    /// The registry after the queue of the session `id` was emptied.
    pub open spec fn drain(self, id: u64) -> SharedView {
        SharedView {
            sessions: self.sessions.map_values(
                |s: SessionView|
                    if s.id == id {
                        SessionView { outbox: Seq::empty(), ..s }
                    } else {
                        s
                    },
            ),
            ..self
        }
    }
}

/// One operation on the registry, as a value.
pub enum Op {
    Declare { name: Seq<char> },
    Register { id: u64, requested: Option<Seq<char>> },
    Join { id: u64, room: Seq<char> },
    Remove { id: u64 },
    Broadcast { room: Seq<char>, msg: ResponseView, exclude: Option<u64> },
    PrivateMessage { from: u64, to: Seq<char>, text: Seq<char> },
    Send { id: u64, msg: ResponseView },
    Drain { id: u64 },
}

impl SharedView {
    /// The registry after one operation. An operation that is refused
    /// changes nothing.
    pub open spec fn apply(self, op: Op) -> SharedView {
        match op {
            Op::Declare { name } => self.declare(name),
            Op::Register { id, requested } => if self.has_session(id) {
                self
            } else {
                self.register(id, requested)
            },
            Op::Join { id, room } => if self.join_outcome(id, room) is Ok {
                self.join(id, room)
            } else {
                self
            },
            Op::Remove { id } => self.remove(id),
            Op::Broadcast { room, msg, exclude } => self.broadcast(room, msg, exclude),
            Op::PrivateMessage { from, to, text } => self.private_message(from, to, text),
            Op::Send { id, msg } => self.deliver(set![id], msg),
            Op::Drain { id } => self.drain(id),
        }
    }

    /// The registry after the operations `ops`, in their order.
    pub open spec fn run(self, ops: Seq<Op>) -> SharedView
        decreases ops.len(),
    {
        if ops.len() == 0 {
            self
        } else {
            self.run(ops.drop_last()).apply(ops.last())
        }
    }
}

} // verus!

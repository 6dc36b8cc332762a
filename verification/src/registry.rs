//! The registry of sessions and rooms: who is connected, under which name, in
//! which room, and what is waiting to be written to each connection.
//!
//! All routing is decided here. The registry is a plain value; whoever shares
//! it among connections guards it with one lock, so that each operation below
//! runs from start to end without another one in between.

pub mod laws;
pub mod view;

use vstd::prelude::*;
use vstd::string::*;
use crate::model::{Response, ResponseView, ServerResponse};
use crate::registry::laws::{
    lemma_declare_wf, lemma_deliver_wf, lemma_drain_wf, lemma_in_room, lemma_index_of,
    lemma_join_wf, lemma_members, lemma_register_wf, lemma_remove_wf, lemma_resolve,
};
use crate::registry::view::{RoomView, SessionView, SharedView};
use crate::text::{
    decimal_string, default_name, has_prefix, join_texts, texts, DEFAULT_NAME_PREFIX, MAIN_ROOM,
};

verus! {

/// Why the registry refused an operation.
#[derive(Debug, Clone, Copy, PartialEq, Eq, Structural)]
pub enum RegistryError {
    /// The identity is registered already.
    DuplicateIdentity,
    /// No session has that identity.
    UnknownSession,
    /// No room of that name was declared.
    UnknownRoom,
    /// The session is in that room already.
    AlreadyInRoom,
    /// No session has that display name.
    RecipientNotFound,
}

/// The text of an optional string slice.
pub open spec fn opt_text(name: Option<&str>) -> Option<Seq<char>> {
    match name {
        Some(s) => Some(s@),
        None => None,
    }
}

/// One connected client: its identity, its display name, the room it is in and
/// the responses that wait to be written to its connection.
#[derive(Debug)]
pub struct UserSession {
    id: u64,
    name: String,
    room: Option<String>,
    outbox: Vec<Response>,
}

impl View for UserSession {
    type V = SessionView;

    closed spec fn view(&self) -> SessionView {
        SessionView {
            id: self.id,
            name: self.name@,
            room: match self.room {
                Some(r) => Some(r@),
                None => None,
            },
            outbox: self.outbox@.map_values(|r: Response| r@),
        }
    }
}

impl UserSession {
    pub fn id(&self) -> (r: u64)
        ensures
            r == self@.id,
    {
        self.id
    }

    pub fn name(&self) -> (r: &String)
        ensures
            r@ == self@.name,
    {
        &self.name
    }

    pub fn room(&self) -> (r: &Option<String>)
        ensures
            r is Some <==> self@.room is Some,
            r matches Some(name) ==> self@.room == Some(name@),
    {
        &self.room
    }

    /// How many responses wait in the queue.
    pub fn pending(&self) -> (r: usize)
        ensures
            r == self@.outbox.len(),
    {
        self.outbox.len()
    }
}

/// A declared room and the identities of the sessions in it.
#[derive(Debug)]
struct Room {
    name: String,
    members: Vec<u64>,
}

impl View for Room {
    type V = RoomView;

    closed spec fn view(&self) -> RoomView {
        RoomView { name: self.name@, members: self.members@.to_set() }
    }
}

/// The registry.
#[derive(Debug)]
pub struct Shared {
    peers: Vec<UserSession>,
    rooms: Vec<Room>,
    user_count: u64,
}

impl View for Shared {
    type V = SharedView;

    closed spec fn view(&self) -> SharedView {
        SharedView {
            sessions: self.peers@.map_values(|s: UserSession| s@),
            rooms: self.rooms@.map_values(|r: Room| r@),
            user_count: self.user_count as nat,
        }
    }
}

impl Shared {
    /// What every registry satisfies between two operations: the invariant of
    /// its value, and no identity listed twice in a room.
    pub closed spec fn wf(&self) -> bool {
        &&& self@.wf()
        &&& forall|j: int|
            0 <= j < self.rooms.len() ==> (#[trigger] self.rooms[j]).members@.no_duplicates()
    }

    /// A well-formed registry has a well-formed value.
    pub proof fn lemma_wf(&self)
        requires
            self.wf(),
        ensures
            self@.wf(),
    {
    }

    /// A registry with no session and the one room `main`.
    pub fn new() -> (r: Shared)
        ensures
            r.wf(),
            r@ == SharedView::initial(),
    {
        let mut rooms: Vec<Room> = Vec::new();
        rooms.push(Room { name: String::from_str(MAIN_ROOM), members: Vec::new() });
        let r = Shared { peers: Vec::new(), rooms, user_count: 0 };
        proof {
            assert(r.rooms[0]@.members =~= Set::<u64>::empty());
            assert(r@.sessions =~= SharedView::initial().sessions);
            assert(r@.rooms =~= SharedView::initial().rooms);
            assert forall|j: int, id: u64| 0 <= j < r@.rooms.len() implies (
            #[trigger] r@.rooms[j].members.contains(id) <==> r@.in_room(id, r@.rooms[j].name)) by {}
        }
        r
    }

    fn find_peer(&self, id: u64) -> (r: Option<usize>)
        ensures
            r is Some <==> self@.has_session(id),
            r matches Some(i) ==> i < self.peers.len() && self.peers[i as int].id == id,
            r is None ==> forall|i: int| 0 <= i < self.peers.len() ==> self.peers[i].id != id,
    {
        let mut i: usize = 0;
        while i < self.peers.len()
            invariant
                i <= self.peers.len(),
                forall|k: int| 0 <= k < i ==> self.peers[k].id != id,
            decreases self.peers.len() - i,
        {
            if self.peers[i].id == id {
                assert(self@.sessions[i as int].id == id);
                return Some(i);
            }
            i += 1;
        }
        assert(!self@.has_session(id)) by {
            if self@.has_session(id) {
                let k = self@.index_of(id);
                assert(self@.sessions[k].id == self.peers[k].id);
            }
        }
        None
    }

    fn find_name(&self, name: &String) -> (r: Option<usize>)
        ensures
            r is Some <==> self@.name_taken(name@),
            r matches Some(i) ==> i < self.peers.len() && self.peers[i as int].name@ == name@,
            r is None ==> forall|i: int| 0 <= i < self.peers.len() ==> self.peers[i].name@ != name@,
    {
        let mut i: usize = 0;
        while i < self.peers.len()
            invariant
                i <= self.peers.len(),
                forall|k: int| 0 <= k < i ==> self.peers[k].name@ != name@,
            decreases self.peers.len() - i,
        {
            if self.peers[i].name == *name {
                assert(self@.sessions[i as int].name == name@);
                return Some(i);
            }
            i += 1;
        }
        assert(!self@.name_taken(name@)) by {
            if self@.name_taken(name@) {
                let k = choose|k: int|
                    0 <= k < self@.sessions.len() && (#[trigger] self@.sessions[k]).name == name@;
                assert(self@.sessions[k].name == self.peers[k].name@);
            }
        }
        None
    }

    fn find_room(&self, name: &String) -> (r: Option<usize>)
        ensures
            r is Some <==> self@.has_room(name@),
            r matches Some(j) ==> j < self.rooms.len() && self.rooms[j as int].name@ == name@,
            r is None ==> forall|j: int| 0 <= j < self.rooms.len() ==> self.rooms[j].name@ != name@,
    {
        let mut j: usize = 0;
        while j < self.rooms.len()
            invariant
                j <= self.rooms.len(),
                forall|k: int| 0 <= k < j ==> self.rooms[k].name@ != name@,
            decreases self.rooms.len() - j,
        {
            if self.rooms[j].name == *name {
                assert(self@.rooms[j as int].name == name@);
                return Some(j);
            }
            j += 1;
        }
        assert(!self@.has_room(name@)) by {
            if self@.has_room(name@) {
                let k = choose|k: int|
                    0 <= k < self@.rooms.len() && (#[trigger] self@.rooms[k]).name == name@;
                assert(self@.rooms[k].name == self.rooms[k].name@);
            }
        }
        None
    }

    /// Registers the identity `id` under the display name `name`, or under
    /// the next default name where `name` is absent, taken, or shaped like a
    /// default name. Returns the name that the session got. The new session
    /// is in no room yet and its queue is empty.
    pub fn add_user(&mut self, id: u64, name: Option<&str>) -> (r: Result<String, RegistryError>)
        requires
            old(self).wf(),
            old(self)@.user_count < u64::MAX,
        ensures
            final(self).wf(),
            old(self)@.has_session(id) ==> r == Err::<String, RegistryError>(
                RegistryError::DuplicateIdentity,
            ) && final(self)@ == old(self)@,
            !old(self)@.has_session(id) ==> final(self)@ == old(self)@.register(id, opt_text(name))
                && r is Ok && r->Ok_0@ == old(self)@.assigned_name(opt_text(name)),
    {
        if self.find_peer(id).is_some() {
            return Err(RegistryError::DuplicateIdentity);
        }
        let assigned = match name {
            Some(n) => {
                let wanted = String::from_str(n);
                if self.find_name(&wanted).is_none() && !has_prefix(n, DEFAULT_NAME_PREFIX) {
                    wanted
                } else {
                    self.gen_username()
                }
            },
            None => self.gen_username(),
        };
        let answer = assigned.clone();
        self.peers.push(UserSession { id, name: assigned, room: None, outbox: Vec::new() });
        self.user_count = self.user_count + 1;
        proof {
            let v = old(self)@;
            lemma_register_wf(v, id, opt_text(name));
            let n = v.sessions.len() as int;
            assert(self.peers[n]@.outbox =~= Seq::<ResponseView>::empty());
            assert(self@.sessions =~= v.register(id, opt_text(name)).sessions);
        }
        Ok(answer)
    }

    /// Moves the session `id` into the declared room `room_name`: in one step
    /// it leaves the room it was in, enters the new one, and gets a
    /// `JoinedRoom` response in its queue. Fails, and changes nothing, where
    /// the session or the room is unknown or the session is in that room
    /// already.
    pub fn add_user_to_room(&mut self, id: u64, room_name: &str) -> (r: Result<(), RegistryError>)
        requires
            old(self).wf(),
        ensures
            final(self).wf(),
            r == old(self)@.join_outcome(id, room_name@),
            r is Ok ==> final(self)@ == old(self)@.join(id, room_name@),
            r is Err ==> final(self)@ == old(self)@,
    {
        let ghost v = self@;
        let room = String::from_str(room_name);
        let i = match self.find_peer(id) {
            Some(i) => i,
            None => {
                return Err(RegistryError::UnknownSession);
            },
        };
        let j = match self.find_room(&room) {
            Some(j) => j,
            None => {
                return Err(RegistryError::UnknownRoom);
            },
        };
        proof {
            lemma_index_of(v, i as int);
        }
        let left = match &self.peers[i].room {
            Some(current) => {
                if *current == room {
                    return Err(RegistryError::AlreadyInRoom);
                }
                self.find_room(current)
            },
            None => None,
        };
        proof {
            assert(v.rooms[j as int].members.contains(id) <==> v.in_room(
                id,
                v.rooms[j as int].name,
            ));
        }
        if let Some(k) = left {
            proof {
                let name = v.rooms[k as int].name;
                assert(v.rooms[k as int].members.contains(id) <==> v.in_room(id, name));
            }
            match position(&self.rooms[k].members, id) {
                Some(p) => {
                    proof {
                        lemma_remove_member(self.rooms[k as int].members@, p as int);
                    }
                    self.rooms[k].members.remove(p);
                },
                None => {},
            }
        }
        proof {
            lemma_push_member(self.rooms[j as int].members@, id);
        }
        self.rooms[j].members.push(id);
        self.peers[i].room = Some(room.clone());
        self.peers[i].outbox.push(Response::Server(ServerResponse::JoinedRoom { room_name: room }));
        proof {
            let w = v.join(id, room_name@);
            lemma_join_wf(v, id, room_name@);
            assert forall|n: int| 0 <= n < self.peers.len() implies (
            #[trigger] self@.sessions[n]) == w.sessions[n] by {
                if n == i {
                    assert(self.peers[n]@.outbox =~= w.sessions[n].outbox);
                } else {
                    lemma_index_of(v, n);
                }
            }
            assert(self@.sessions =~= w.sessions);
            assert forall|n: int| 0 <= n < self.rooms.len() implies (#[trigger] self@.rooms[n])
                == w.rooms[n] by {
                lemma_in_room(v, id, v.rooms[n].name);
                if n != j && left != Some(n as usize) {
                    assert(self@.rooms[n].members =~= w.rooms[n].members);
                }
            }
            assert(self@.rooms =~= w.rooms);
        }
        Ok(())
    }

    fn enqueue_at(&mut self, i: usize, res: Response)
        requires
            old(self).wf(),
            i < old(self).peers.len(),
        ensures
            final(self).wf(),
            final(self)@ == old(self)@.deliver(set![old(self).peers[i as int].id], res@),
    {
        let ghost v = self@;
        let ghost to = set![self.peers[i as int].id];
        self.peers[i].outbox.push(res);
        proof {
            let w = v.deliver(to, res@);
            lemma_deliver_wf(v, to, res@);
            assert forall|n: int| 0 <= n < self.peers.len() implies (
            #[trigger] self@.sessions[n]) == w.sessions[n] by {
                if n == i {
                    assert(self.peers[n]@.outbox =~= w.sessions[n].outbox);
                } else {
                    lemma_index_of(v, i as int);
                }
            }
            assert(self@.sessions =~= w.sessions);
        }
    }

    /// Puts `res` at the back of the queue of the session `id`. Fails, and
    /// changes nothing, where there is no such session.
    pub fn send_to(&mut self, id: u64, res: Response) -> (r: Result<(), RegistryError>)
        requires
            old(self).wf(),
        ensures
            final(self).wf(),
            old(self)@.has_session(id) ==> r is Ok,
            !old(self)@.has_session(id) ==> r == Err::<(), RegistryError>(
                RegistryError::UnknownSession,
            ),
            final(self)@ == old(self)@.deliver(set![id], res@),
    {
        match self.find_peer(id) {
            Some(i) => {
                self.enqueue_at(i, res);
                Ok(())
            },
            None => {
                proof {
                    let w = self@.deliver(set![id], res@);
                    assert(self@.sessions =~= w.sessions);
                }
                Err(RegistryError::UnknownSession)
            },
        }
    }

    /// Puts a copy of `res` at the back of the queue of every member of the
    /// room `room_name`, except `exclude` if one is given, and of nobody else.
    /// Fails, and changes nothing, where no such room is declared.
    pub fn broadcast(&mut self, room_name: &str, res: &Response, exclude: Option<u64>) -> (r:
        Result<(), RegistryError>)
        requires
            old(self).wf(),
        ensures
            final(self).wf(),
            old(self)@.has_room(room_name@) ==> r is Ok,
            !old(self)@.has_room(room_name@) ==> r == Err::<(), RegistryError>(
                RegistryError::UnknownRoom,
            ),
            final(self)@ == old(self)@.broadcast(room_name@, res@, exclude),
    {
        let ghost v = self@;
        let ghost to = v.recipients(room_name@, exclude);
        let ghost msg = res@;
        let room = String::from_str(room_name);
        let declared = self.find_room(&room).is_some();
        let ghost rooms0 = self.rooms;
        let count0 = self.user_count;
        let n = self.peers.len();
        let mut k: usize = 0;
        while k < n
            invariant
                v.wf(),
                to == v.recipients(room@, exclude),
                msg == res@,
                k <= n,
                self.peers.len() == n,
                v.sessions.len() == n,
                self.rooms == rooms0,
                self.user_count == count0,
                forall|i: int|
                    0 <= i < k ==> (#[trigger] self.peers[i])@ == (if to.contains(
                        v.sessions[i].id,
                    ) {
                        v.sessions[i].enqueue(msg)
                    } else {
                        v.sessions[i]
                    }),
                forall|i: int| k <= i < n ==> (#[trigger] self.peers[i])@ == v.sessions[i],
            decreases n - k,
        {
            let member = match &self.peers[k].room {
                Some(current) => *current == room,
                None => false,
            };
            let excluded = match exclude {
                Some(x) => x == self.peers[k].id,
                None => false,
            };
            proof {
                let id = v.sessions[k as int].id;
                assert(to.contains(id) <==> member && !excluded);
            }
            if member && !excluded {
                let copy = res.clone();
                let ghost before = self.peers[k as int]@;
                self.peers[k].outbox.push(copy);
                assert(self.peers[k as int]@.outbox =~= before.enqueue(msg).outbox);
            }
            k += 1;
        }
        proof {
            let w = v.deliver(to, msg);
            lemma_deliver_wf(v, to, msg);
            assert(self@.sessions =~= w.sessions);
        }
        if declared {
            Ok(())
        } else {
            Err(RegistryError::UnknownRoom)
        }
    }

    /// Sends `msg` from the session `from` to the session whose display name
    /// is `to`: one `Private` chat line, bearing the sender's name, goes to
    /// the back of the addressee's queue and nothing anywhere else. A message
    /// to oneself is accepted and dropped.
    pub fn private_message(&mut self, msg: &str, from: u64, to: &str) -> (r: Result<
        (),
        RegistryError,
    >)
        requires
            old(self).wf(),
        ensures
            final(self).wf(),
            r == old(self)@.private_outcome(from, to@),
            final(self)@ == old(self)@.private_message(from, to@, msg@),
    {
        let ghost v = self@;
        let wanted = String::from_str(to);
        let d = match self.find_name(&wanted) {
            Some(d) => d,
            None => {
                return Err(RegistryError::RecipientNotFound);
            },
        };
        proof {
            lemma_resolve(v, d as int);
        }
        if self.peers[d].id == from {
            return Ok(());
        }
        let f = match self.find_peer(from) {
            Some(f) => f,
            None => {
                return Err(RegistryError::UnknownSession);
            },
        };
        proof {
            lemma_index_of(v, f as int);
        }
        let res = Response::private_msg(msg, self.peers[f].name.as_str());
        self.enqueue_at(d, res);
        Ok(())
    }

    /// Takes everything out of the queue of the session `id`, oldest first.
    /// Where there is no such session, nothing is taken.
    pub fn take_outbound(&mut self, id: u64) -> (r: Vec<Response>)
        requires
            old(self).wf(),
        ensures
            final(self).wf(),
            r@.map_values(|m: Response| m@) == old(self)@.outbox(id),
            final(self)@ == old(self)@.drain(id),
    {
        let ghost v = self@;
        let mut out: Vec<Response> = Vec::new();
        match self.find_peer(id) {
            Some(i) => {
                std::mem::swap(&mut out, &mut self.peers[i].outbox);
                proof {
                    let w = v.drain(id);
                    lemma_drain_wf(v, id);
                    assert forall|n: int| 0 <= n < self.peers.len() implies (
                    #[trigger] self@.sessions[n]) == w.sessions[n] by {
                        if n == i {
                            assert(self.peers[n]@.outbox =~= w.sessions[n].outbox);
                        } else {
                            lemma_index_of(v, n);
                        }
                    }
                    assert(self@.sessions =~= w.sessions);
                }
            },
            None => {
                proof {
                    let w = v.drain(id);
                    assert(self@.sessions =~= w.sessions);
                }
            },
        }
        out
    }

    /// Takes the session `id` out of the registry and out of its room, and
    /// hands it back, so that the caller can tell the room. Where there is no
    /// such session, nothing changes.
    pub fn remove_user(&mut self, id: u64) -> (r: Option<UserSession>)
        requires
            old(self).wf(),
        ensures
            final(self).wf(),
            r is Some <==> old(self)@.has_session(id),
            r matches Some(s) ==> s@ == old(self)@.session(id),
            final(self)@ == old(self)@.remove(id),
    {
        let ghost v = self@;
        let i = match self.find_peer(id) {
            Some(i) => i,
            None => {
                return None;
            },
        };
        proof {
            lemma_index_of(v, i as int);
        }
        let left = match &self.peers[i].room {
            Some(current) => self.find_room(current),
            None => None,
        };
        let session = self.peers.remove(i);
        if let Some(k) = left {
            proof {
                let name = v.rooms[k as int].name;
                assert(v.rooms[k as int].members.contains(id) <==> v.in_room(id, name));
            }
            match position(&self.rooms[k].members, id) {
                Some(p) => {
                    proof {
                        lemma_remove_member(self.rooms[k as int].members@, p as int);
                    }
                    self.rooms[k].members.remove(p);
                },
                None => {},
            }
        }
        proof {
            let w = v.remove(id);
            lemma_remove_wf(v, id);
            assert(self@.sessions =~= w.sessions);
            assert forall|n: int| 0 <= n < self.rooms.len() implies (#[trigger] self@.rooms[n])
                == w.rooms[n] by {
                assert(v.rooms[n].members.contains(id) <==> v.in_room(id, v.rooms[n].name));
                if left != Some(n as usize) {
                    assert(self@.rooms[n].members =~= w.rooms[n].members);
                }
            }
            assert(self@.rooms =~= w.rooms);
        }
        Some(session)
    }

    /// Declares a room. Returns whether the name was free; a name that is
    /// declared already is left as it is.
    pub fn declare_room(&mut self, name: &str) -> (r: bool)
        requires
            old(self).wf(),
        ensures
            final(self).wf(),
            r == !old(self)@.has_room(name@),
            final(self)@ == old(self)@.declare(name@),
    {
        let ghost v = self@;
        let room = String::from_str(name);
        if self.find_room(&room).is_some() {
            return false;
        }
        self.rooms.push(Room { name: room, members: Vec::new() });
        proof {
            let w = v.declare(name@);
            lemma_declare_wf(v, name@);
            let n = v.rooms.len() as int;
            assert(self.rooms[n]@.members =~= Set::<u64>::empty());
            assert(self@.rooms =~= w.rooms);
        }
        true
    }

    /// The display names of all sessions, whatever room they are in, in the
    /// order of their registration.
    pub fn get_users(&self) -> (r: Vec<String>)
        ensures
            texts(r@) == self@.user_names(),
    {
        let mut names: Vec<String> = Vec::new();
        let mut i: usize = 0;
        while i < self.peers.len()
            invariant
                i <= self.peers.len(),
                names.len() == i,
                forall|k: int| 0 <= k < i ==> (#[trigger] names[k])@ == self.peers[k].name@,
            decreases self.peers.len() - i,
        {
            names.push(self.peers[i].name.clone());
            i += 1;
        }
        names
    }

    /// The names of all declared rooms, in the order of their declaration.
    pub fn room_names(&self) -> (r: Vec<String>)
        ensures
            texts(r@) == self@.room_names(),
    {
        let mut names: Vec<String> = Vec::new();
        let mut j: usize = 0;
        while j < self.rooms.len()
            invariant
                j <= self.rooms.len(),
                names.len() == j,
                forall|k: int| 0 <= k < j ==> (#[trigger] names[k])@ == self.rooms[k].name@,
            decreases self.rooms.len() - j,
        {
            names.push(self.rooms[j].name.clone());
            j += 1;
        }
        names
    }

    /// Whether the identity `id` is registered.
    pub fn has_user(&self, id: u64) -> (r: bool)
        ensures
            r == self@.has_session(id),
    {
        self.find_peer(id).is_some()
    }

    /// The display name of the session `id`.
    pub fn name_of(&self, id: u64) -> (r: Option<String>)
        requires
            self.wf(),
        ensures
            r is Some <==> self@.has_session(id),
            r matches Some(name) ==> name@ == self@.session(id).name,
    {
        match self.find_peer(id) {
            Some(i) => {
                proof {
                    lemma_index_of(self@, i as int);
                }
                Some(self.peers[i].name.clone())
            },
            None => None,
        }
    }

    /// The room that the session `id` is in.
    pub fn room_of(&self, id: u64) -> (r: Option<String>)
        requires
            self.wf(),
        ensures
            r is Some <==> self@.has_session(id) && self@.session(id).room is Some,
            r matches Some(name) ==> self@.session(id).room == Some(name@),
    {
        match self.find_peer(id) {
            Some(i) => {
                proof {
                    lemma_index_of(self@, i as int);
                }
                match &self.peers[i].room {
                    Some(name) => Some(name.clone()),
                    None => None,
                }
            },
            None => None,
        }
    }

    /// How many responses wait in the queue of the session `id`.
    pub fn pending(&self, id: u64) -> (r: usize)
        requires
            self.wf(),
        ensures
            r == self@.outbox(id).len(),
    {
        match self.find_peer(id) {
            Some(i) => {
                proof {
                    lemma_index_of(self@, i as int);
                }
                self.peers[i].outbox.len()
            },
            None => 0,
        }
    }

    /// How many sessions were ever registered.
    pub fn user_count(&self) -> (r: u64)
        ensures
            r == self@.user_count,
    {
        self.user_count
    }

    /// The default display name of the next registration.
    pub fn gen_username(&self) -> (r: String)
        ensures
            r@ == default_name(self@.user_count),
    {
        join_texts(DEFAULT_NAME_PREFIX, decimal_string(self.user_count).as_str())
    }
}

/// Taking one entry out of a list without repetitions takes its value out of
/// the set of its entries.
proof fn lemma_remove_member(s: Seq<u64>, p: int)
    requires
        s.no_duplicates(),
        0 <= p < s.len(),
    ensures
        s.remove(p).to_set() == s.to_set().remove(s[p]),
        s.remove(p).no_duplicates(),
{
    let t = s.remove(p);
    assert forall|x: u64| t.to_set().contains(x) <==> s.to_set().remove(s[p]).contains(x) by {
        if t.contains(x) {
            let k = choose|k: int| 0 <= k < t.len() && t[k] == x;
            if k < p {
                assert(s[k] == x);
            } else {
                assert(s[k + 1] == x);
            }
        }
        if s.contains(x) && x != s[p] {
            let k = choose|k: int| 0 <= k < s.len() && s[k] == x;
            if k < p {
                assert(t[k] == x);
            } else {
                assert(t[k - 1] == x);
            }
        }
    }
}

/// Adding a new value at the end of a list without repetitions adds it to the
/// set of its entries.
proof fn lemma_push_member(s: Seq<u64>, x: u64)
    requires
        s.no_duplicates(),
        !s.contains(x),
    ensures
        s.push(x).to_set() == s.to_set().insert(x),
        s.push(x).no_duplicates(),
{
    let t = s.push(x);
    assert forall|y: u64| t.to_set().contains(y) <==> s.to_set().insert(x).contains(y) by {
        if t.contains(y) {
            let k = choose|k: int| 0 <= k < t.len() && t[k] == y;
            if k < s.len() {
                assert(s[k] == y);
            }
        }
        if s.contains(y) {
            let k = choose|k: int| 0 <= k < s.len() && s[k] == y;
            assert(t[k] == y);
        }
        if y == x {
            assert(t[s.len() as int] == x);
        }
    }
}

fn position(list: &Vec<u64>, x: u64) -> (r: Option<usize>)
    ensures
        r is Some <==> list@.contains(x),
        r matches Some(p) ==> p < list.len() && list[p as int] == x,
{
    let mut p: usize = 0;
    while p < list.len()
        invariant
            p <= list.len(),
            forall|k: int| 0 <= k < p ==> list[k] != x,
        decreases list.len() - p,
    {
        if list[p] == x {
            return Some(p);
        }
        p += 1;
    }
    None
}

} // verus!

//! What holds of the registry whatever is done with it.

use vstd::prelude::*;
use crate::model::{ChatMessageView, ResponseView, ServerResponseView};
use crate::registry::view::{Op, SessionView, SharedView};
use crate::registry::RegistryError;
use crate::text::{default_name, lemma_default_name_has_prefix, lemma_default_name_injective};

verus! {

// Finding sessions, names and members.

/// In a well-formed registry the session at position `i` is the one that its
/// identity finds.
pub proof fn lemma_index_of(v: SharedView, i: int)
    requires
        v.wf(),
        0 <= i < v.sessions.len(),
    ensures
        v.has_session(v.sessions[i].id),
        v.index_of(v.sessions[i].id) == i,
        v.session(v.sessions[i].id) == v.sessions[i],
{
    let id = v.sessions[i].id;
    let k = v.index_of(id);
    if k < i {
        assert(v.sessions[k].id != v.sessions[i].id);
    }
    if i < k {
        assert(v.sessions[i].id != v.sessions[k].id);
    }
}

/// In a well-formed registry a display name finds the session that bears it.
pub proof fn lemma_resolve(v: SharedView, i: int)
    requires
        v.wf(),
        0 <= i < v.sessions.len(),
    ensures
        v.name_taken(v.sessions[i].name),
        v.resolve(v.sessions[i].name) == v.sessions[i].id,
{
    let name = v.sessions[i].name;
    let k = choose|k: int| 0 <= k < v.sessions.len() && (#[trigger] v.sessions[k]).name == name;
    if k < i {
        assert(v.sessions[k].name != v.sessions[i].name);
    }
    if i < k {
        assert(v.sessions[i].name != v.sessions[k].name);
    }
}

/// The session `id` points at `room` exactly if its record says so.
pub proof fn lemma_in_room(v: SharedView, id: u64, room: Seq<char>)
    requires
        v.wf(),
        v.has_session(id),
    ensures
        v.in_room(id, room) <==> v.session(id).room == Some(room),
{
    let k = v.index_of(id);
    if v.in_room(id, room) {
        let i = choose|i: int|
            0 <= i < v.sessions.len() && (#[trigger] v.sessions[i]).id == id && v.sessions[i].room
                == Some(room);
        lemma_index_of(v, i);
    }
    if v.session(id).room == Some(room) {
        assert(v.sessions[k].id == id && v.sessions[k].room == Some(room));
    }
}

/// In a well-formed registry the member set of a room holds exactly the
/// sessions that point at it.
pub proof fn lemma_members(v: SharedView, id: u64, room: Seq<char>)
    requires
        v.wf(),
    ensures
        v.members(room).contains(id) <==> v.in_room(id, room),
        v.members(room).contains(id) ==> v.has_session(id) && v.has_room(room),
{
    if v.members(room).contains(id) {
        let j = choose|j: int|
            0 <= j < v.rooms.len() && (#[trigger] v.rooms[j]).name == room
                && v.rooms[j].members.contains(id);
        assert(v.rooms[j].members.contains(id) <==> v.in_room(id, v.rooms[j].name));
    }
    if v.in_room(id, room) {
        let i = choose|i: int|
            0 <= i < v.sessions.len() && (#[trigger] v.sessions[i]).id == id && v.sessions[i].room
                == Some(room);
        assert(v.sessions[i].room == Some(room));
        let j = choose|j: int| 0 <= j < v.rooms.len() && (#[trigger] v.rooms[j]).name == room;
        assert(v.rooms[j].members.contains(id) <==> v.in_room(id, v.rooms[j].name));
    }
}

/// In a well-formed registry a session that points at a room is a member of
/// that room and of no other, a session that points at none is a member of
/// none, and every member of a room is a session.
pub proof fn lemma_one_room(v: SharedView, id: u64, room: Seq<char>)
    requires
        v.wf(),
    ensures
        v.members(room).contains(id) <==> v.has_session(id) && v.session(id).room == Some(room),
        v.members(room).contains(id) ==> forall|other: Seq<char>|
            other != room ==> !(#[trigger] v.members(other)).contains(id),
{
    if v.has_session(id) {
        lemma_in_room(v, id, room);
    }
    if v.members(room).contains(id) {
        assert forall|other: Seq<char>| other != room implies !(#[trigger] v.members(
            other,
        )).contains(id) by {
            lemma_in_room(v, id, other);
        }
    }
}

// Every operation keeps the registry well formed.

/// Registering a new identity keeps the registry well formed.
pub proof fn lemma_register_wf(v: SharedView, id: u64, requested: Option<Seq<char>>)
    requires
        v.wf(),
        !v.has_session(id),
    ensures
        v.register(id, requested).wf(),
{
    let w = v.register(id, requested);
    let name = v.assigned_name(requested);
    let n = v.sessions.len() as int;
    assert forall|i: int| 0 <= i < n implies (#[trigger] v.sessions[i]).name != name by {
        if name == default_name(v.user_count) {
            assert(v.sessions[i].name != default_name(v.user_count));
        }
    }
    assert forall|i: int| 0 <= i < w.sessions.len() implies ((#[trigger] w.sessions[i]).room
        matches Some(r) ==> w.has_room(r)) by {
        if i < n {
            if let Some(r) = v.sessions[i].room {
                let j = choose|j: int| 0 <= j < v.rooms.len() && (#[trigger] v.rooms[j]).name == r;
                assert(w.rooms[j].name == r);
            }
        }
    }
    assert forall|j: int, x: u64| 0 <= j < w.rooms.len() implies (
    #[trigger] w.rooms[j].members.contains(x) <==> w.in_room(x, w.rooms[j].name)) by {
        let room = v.rooms[j].name;
        if v.in_room(x, room) {
            let i = choose|i: int|
                0 <= i < v.sessions.len() && (#[trigger] v.sessions[i]).id == x
                    && v.sessions[i].room == Some(room);
            assert(w.sessions[i].id == x && w.sessions[i].room == Some(room));
        }
        if w.in_room(x, room) {
            let i = choose|i: int|
                0 <= i < w.sessions.len() && (#[trigger] w.sessions[i]).id == x
                    && w.sessions[i].room == Some(room);
            assert(v.sessions[i].id == x && v.sessions[i].room == Some(room));
        }
    }
    assert forall|i: int, k: nat|
        0 <= i < w.sessions.len() && k >= w.user_count implies (#[trigger] w.sessions[i]).name
        != #[trigger] default_name(k) by {
        if i == n {
            if name == default_name(k) {
                lemma_default_name_injective(v.user_count, k);
            }
        } else {
            assert(v.sessions[i].name != default_name(k));
        }
    }
}

/// Entering a declared room keeps the registry well formed.
pub proof fn lemma_join_wf(v: SharedView, id: u64, room: Seq<char>)
    requires
        v.wf(),
        v.has_session(id),
        v.has_room(room),
    ensures
        v.join(id, room).wf(),
{
    let w = v.join(id, room);
    let k = v.index_of(id);
    assert forall|i: int| 0 <= i < v.sessions.len() implies (#[trigger] w.sessions[i]).id
        == v.sessions[i].id && w.sessions[i].name == v.sessions[i].name && (i != k
        ==> w.sessions[i] == v.sessions[i]) by {
        if i != k {
            lemma_index_of(v, i);
        }
    }
    assert forall|j: int| 0 <= j < v.rooms.len() implies (#[trigger] w.rooms[j]).name
        == v.rooms[j].name by {}
    assert forall|i: int| 0 <= i < w.sessions.len() implies ((#[trigger] w.sessions[i]).room
        matches Some(r) ==> w.has_room(r)) by {
        if let Some(r) = w.sessions[i].room {
            if i != k {
                assert(v.sessions[i].room == Some(r));
            }
            let j = choose|j: int| 0 <= j < v.rooms.len() && (#[trigger] v.rooms[j]).name == r;
            assert(w.rooms[j].name == r);
        }
    }
    assert forall|j: int, x: u64| 0 <= j < w.rooms.len() implies (
    #[trigger] w.rooms[j].members.contains(x) <==> w.in_room(x, w.rooms[j].name)) by {
        let name = v.rooms[j].name;
        if x == id {
            if name == room {
                assert(w.sessions[k].id == id && w.sessions[k].room == Some(name));
            } else {
                if w.in_room(x, name) {
                    let i = choose|i: int|
                        0 <= i < w.sessions.len() && (#[trigger] w.sessions[i]).id == x
                            && w.sessions[i].room == Some(name);
                    lemma_index_of(v, i);
                }
            }
        } else {
            if v.in_room(x, name) {
                let i = choose|i: int|
                    0 <= i < v.sessions.len() && (#[trigger] v.sessions[i]).id == x
                        && v.sessions[i].room == Some(name);
                assert(w.sessions[i].id == x && w.sessions[i].room == Some(name));
            }
            if w.in_room(x, name) {
                let i = choose|i: int|
                    0 <= i < w.sessions.len() && (#[trigger] w.sessions[i]).id == x
                        && w.sessions[i].room == Some(name);
                assert(v.sessions[i].id == x && v.sessions[i].room == Some(name));
            }
        }
    }
    assert forall|i: int, j: int| 0 <= i < j < w.sessions.len() implies (
    #[trigger] w.sessions[i]).id != (#[trigger] w.sessions[j]).id by {
        assert(v.sessions[i].id != v.sessions[j].id);
    }
    assert forall|i: int, j: int| 0 <= i < j < w.sessions.len() implies (
    #[trigger] w.sessions[i]).name != (#[trigger] w.sessions[j]).name by {
        assert(v.sessions[i].name != v.sessions[j].name);
    }
    assert forall|i: int, j: int| 0 <= i < j < w.rooms.len() implies (#[trigger] w.rooms[i]).name
        != (#[trigger] w.rooms[j]).name by {
        assert(v.rooms[i].name != v.rooms[j].name);
    }
    assert forall|i: int, n: nat|
        0 <= i < w.sessions.len() && n >= w.user_count implies (#[trigger] w.sessions[i]).name
        != #[trigger] default_name(n) by {
        assert(v.sessions[i].name != default_name(n));
    }
}

/// Removing a session keeps the registry well formed.
pub proof fn lemma_remove_wf(v: SharedView, id: u64)
    requires
        v.wf(),
    ensures
        v.remove(id).wf(),
{
    let w = v.remove(id);
    if v.has_session(id) {
        let k = v.index_of(id);
        let shift = |i: int| if i < k { i } else { i + 1 };
        assert forall|i: int| 0 <= i < w.sessions.len() implies #[trigger] w.sessions[i]
            == v.sessions[shift(i)] by {}
        assert forall|j: int| 0 <= j < v.rooms.len() implies (#[trigger] w.rooms[j]).name
            == v.rooms[j].name by {}
        assert forall|i: int, j: int| 0 <= i < j < w.sessions.len() implies (
        #[trigger] w.sessions[i]).id != (#[trigger] w.sessions[j]).id by {
            assert(v.sessions[shift(i)].id != v.sessions[shift(j)].id);
        }
        assert forall|i: int, j: int| 0 <= i < j < w.sessions.len() implies (
        #[trigger] w.sessions[i]).name != (#[trigger] w.sessions[j]).name by {
            assert(v.sessions[shift(i)].name != v.sessions[shift(j)].name);
        }
        assert forall|i: int, j: int| 0 <= i < j < w.rooms.len() implies (
        #[trigger] w.rooms[i]).name != (#[trigger] w.rooms[j]).name by {
            assert(v.rooms[i].name != v.rooms[j].name);
        }
        assert forall|i: int| 0 <= i < w.sessions.len() implies ((#[trigger] w.sessions[i]).room
            matches Some(r) ==> w.has_room(r)) by {
            if let Some(r) = w.sessions[i].room {
                let j = choose|j: int| 0 <= j < v.rooms.len() && (#[trigger] v.rooms[j]).name == r;
                assert(w.rooms[j].name == r);
            }
        }
        assert forall|j: int, x: u64| 0 <= j < w.rooms.len() implies (
        #[trigger] w.rooms[j].members.contains(x) <==> w.in_room(x, w.rooms[j].name)) by {
            let name = v.rooms[j].name;
            if w.in_room(x, name) {
                let i = choose|i: int|
                    0 <= i < w.sessions.len() && (#[trigger] w.sessions[i]).id == x
                        && w.sessions[i].room == Some(name);
                let i0 = shift(i);
                lemma_index_of(v, i0);
            }
            if x != id && v.in_room(x, name) {
                let i = choose|i: int|
                    0 <= i < v.sessions.len() && (#[trigger] v.sessions[i]).id == x
                        && v.sessions[i].room == Some(name);
                let i1 = if i < k { i } else { i - 1 };
                assert(w.sessions[i1].id == x && w.sessions[i1].room == Some(name));
            }
        }
        assert forall|i: int, n: nat|
            0 <= i < w.sessions.len() && n >= w.user_count implies (#[trigger] w.sessions[i]).name
            != #[trigger] default_name(n) by {
            assert(v.sessions[shift(i)].name != default_name(n));
        }
    }
}

/// Declaring a room keeps the registry well formed.
pub proof fn lemma_declare_wf(v: SharedView, name: Seq<char>)
    requires
        v.wf(),
    ensures
        v.declare(name).wf(),
{
    let w = v.declare(name);
    if !v.has_room(name) {
        let n = v.rooms.len() as int;
        assert forall|i: int, j: int| 0 <= i < j < w.rooms.len() implies (
        #[trigger] w.rooms[i]).name != (#[trigger] w.rooms[j]).name by {
            if j == n {
                assert(v.rooms[i].name != name);
            } else {
                assert(v.rooms[i].name != v.rooms[j].name);
            }
        }
        assert forall|i: int| 0 <= i < w.sessions.len() implies ((#[trigger] w.sessions[i]).room
            matches Some(r) ==> w.has_room(r)) by {
            if let Some(r) = v.sessions[i].room {
                let j = choose|j: int| 0 <= j < v.rooms.len() && (#[trigger] v.rooms[j]).name == r;
                assert(w.rooms[j].name == r);
            }
        }
        assert forall|j: int, x: u64| 0 <= j < w.rooms.len() implies (
        #[trigger] w.rooms[j].members.contains(x) <==> w.in_room(x, w.rooms[j].name)) by {
            if j == n {
                if w.in_room(x, name) {
                    let i = choose|i: int|
                        0 <= i < w.sessions.len() && (#[trigger] w.sessions[i]).id == x
                            && w.sessions[i].room == Some(name);
                    assert(v.sessions[i].room == Some(name));
                    assert(v.has_room(name));
                }
            } else {
                assert(v.rooms[j].members.contains(x) <==> v.in_room(x, v.rooms[j].name));
            }
        }
    }
}

/// A registry that differs from a well-formed one in its queues alone is well
/// formed.
pub proof fn lemma_queues_only_wf(v: SharedView, w: SharedView)
    requires
        v.wf(),
        w.sessions.len() == v.sessions.len(),
        forall|i: int|
            0 <= i < v.sessions.len() ==> (#[trigger] w.sessions[i]).id == v.sessions[i].id
                && w.sessions[i].name == v.sessions[i].name && w.sessions[i].room
                == v.sessions[i].room,
        w.rooms == v.rooms,
        w.user_count == v.user_count,
    ensures
        w.wf(),
{
    assert forall|i: int| 0 <= i < w.sessions.len() implies ((#[trigger] w.sessions[i]).room
        matches Some(r) ==> w.has_room(r)) by {
        if let Some(r) = w.sessions[i].room {
            assert(v.has_room(r));
        }
    }
    assert forall|j: int, x: u64| 0 <= j < w.rooms.len() implies (
    #[trigger] w.rooms[j].members.contains(x) <==> w.in_room(x, w.rooms[j].name)) by {
        let name = v.rooms[j].name;
        if v.in_room(x, name) {
            let i = choose|i: int|
                0 <= i < v.sessions.len() && (#[trigger] v.sessions[i]).id == x
                    && v.sessions[i].room == Some(name);
            assert(w.sessions[i].id == x && w.sessions[i].room == Some(name));
        }
        if w.in_room(x, name) {
            let i = choose|i: int|
                0 <= i < w.sessions.len() && (#[trigger] w.sessions[i]).id == x
                    && w.sessions[i].room == Some(name);
            assert(v.sessions[i].id == x && v.sessions[i].room == Some(name));
        }
    }
    assert forall|i: int, j: int| 0 <= i < j < w.sessions.len() implies (
    #[trigger] w.sessions[i]).id != (#[trigger] w.sessions[j]).id by {
        assert(v.sessions[i].id != v.sessions[j].id);
    }
    assert forall|i: int, j: int| 0 <= i < j < w.sessions.len() implies (
    #[trigger] w.sessions[i]).name != (#[trigger] w.sessions[j]).name by {
        assert(v.sessions[i].name != v.sessions[j].name);
    }
    assert forall|i: int, n: nat|
        0 <= i < w.sessions.len() && n >= w.user_count implies (#[trigger] w.sessions[i]).name
        != #[trigger] default_name(n) by {
        assert(v.sessions[i].name != default_name(n));
    }
}

/// Delivering a response keeps the registry well formed.
pub proof fn lemma_deliver_wf(v: SharedView, to: Set<u64>, msg: ResponseView)
    requires
        v.wf(),
    ensures
        v.deliver(to, msg).wf(),
{
    lemma_queues_only_wf(v, v.deliver(to, msg));
}

/// Emptying a queue keeps the registry well formed.
pub proof fn lemma_drain_wf(v: SharedView, id: u64)
    requires
        v.wf(),
    ensures
        v.drain(id).wf(),
{
    lemma_queues_only_wf(v, v.drain(id));
}

/// Every operation keeps the registry well formed.
pub proof fn lemma_apply_wf(v: SharedView, op: Op)
    requires
        v.wf(),
    ensures
        v.apply(op).wf(),
{
    match op {
        Op::Declare { name } => lemma_declare_wf(v, name),
        Op::Register { id, requested } => {
            if !v.has_session(id) {
                lemma_register_wf(v, id, requested);
            }
        },
        Op::Join { id, room } => {
            if v.join_outcome(id, room) is Ok {
                lemma_join_wf(v, id, room);
            }
        },
        Op::Remove { id } => lemma_remove_wf(v, id),
        Op::Broadcast { room, msg, exclude } => lemma_deliver_wf(
            v,
            v.recipients(room, exclude),
            msg,
        ),
        Op::PrivateMessage { from, to, text } => {
            if v.name_taken(to) && v.resolve(to) != from && v.has_session(from) {
                lemma_deliver_wf(
                    v,
                    set![v.resolve(to)],
                    ResponseView::Chat(
                        ChatMessageView::Private { from: v.session(from).name, msg: text },
                    ),
                );
            }
        },
        Op::Send { id, msg } => lemma_deliver_wf(v, set![id], msg),
        Op::Drain { id } => lemma_drain_wf(v, id),
    }
}

/// After any sequence of operations on a fresh registry, the registry is well
/// formed: whatever was registered, moved and removed, the rooms' member sets
/// and the sessions' room pointers agree.
pub proof fn lemma_run_wf(ops: Seq<Op>)
    ensures
        SharedView::initial().run(ops).wf(),
    decreases ops.len(),
{
    let v = SharedView::initial();
    if ops.len() == 0 {
        assert forall|j: int, id: u64| 0 <= j < v.rooms.len() implies (
        #[trigger] v.rooms[j].members.contains(id) <==> v.in_room(id, v.rooms[j].name)) by {}
    } else {
        lemma_run_wf(ops.drop_last());
        lemma_apply_wf(v.run(ops.drop_last()), ops.last());
    }
}

// What each operation does to the sessions, the rooms and the queues.

/// What a registration does: the new session is there, under the name it
/// was assigned, in no room and with an empty queue; every other session and
/// every room is as it was.
pub proof fn lemma_register_effect(
    v: SharedView,
    id: u64,
    requested: Option<Seq<char>>,
    other: u64,
)
    requires
        v.wf(),
        !v.has_session(id),
    ensures
        v.register(id, requested).has_session(other) == (v.has_session(other) || other == id),
        v.register(id, requested).session(id) == (SessionView {
            id,
            name: v.assigned_name(requested),
            room: None,
            outbox: Seq::empty(),
        }),
        other != id && v.has_session(other) ==> v.register(id, requested).session(other)
            == v.session(other),
        v.register(id, requested).rooms == v.rooms,
{
    let w = v.register(id, requested);
    let n = v.sessions.len() as int;
    lemma_register_wf(v, id, requested);
    lemma_index_of(w, n);
    if v.has_session(other) {
        let k = v.index_of(other);
        lemma_index_of(w, k);
    }
    if w.has_session(other) && other != id {
        let k = w.index_of(other);
        assert(v.sessions[k].id == other);
    }
}

/// What entering a room does: the session points at the room and finds a
/// `JoinedRoom` as the newest entry of its queue, the room has it as a
/// member and no other room has, and every other session is as it was.
pub proof fn lemma_join_effect(
    v: SharedView,
    id: u64,
    room: Seq<char>,
    other: u64,
    place: Seq<char>,
)
    requires
        v.wf(),
        v.has_session(id),
        v.has_room(room),
    ensures
        v.join(id, room).has_session(other) == v.has_session(other),
        v.join(id, room).session(id) == (SessionView {
            room: Some(room),
            outbox: v.session(id).outbox.push(
                ResponseView::Server(ServerResponseView::JoinedRoom { room_name: room }),
            ),
            ..v.session(id)
        }),
        other != id && v.has_session(other) ==> v.join(id, room).session(other) == v.session(
            other,
        ),
        v.join(id, room).has_room(place) == v.has_room(place),
        v.join(id, room).members(place) == if place == room {
            v.members(place).insert(id)
        } else {
            v.members(place).remove(id)
        },
{
    let w = v.join(id, room);
    lemma_join_wf(v, id, room);
    let k = v.index_of(id);
    lemma_index_of(w, k);
    if v.has_session(other) {
        let i = v.index_of(other);
        lemma_index_of(w, i);
    }
    if w.has_session(other) {
        let i = w.index_of(other);
        assert(v.sessions[i].id == other);
    }
    assert forall|j: int| 0 <= j < v.rooms.len() implies (#[trigger] w.rooms[j]).name
        == v.rooms[j].name by {}
    if v.has_room(place) {
        let j = choose|j: int| 0 <= j < v.rooms.len() && (#[trigger] v.rooms[j]).name == place;
        assert(w.rooms[j].name == place);
    }
    if w.has_room(place) {
        let j = choose|j: int| 0 <= j < w.rooms.len() && (#[trigger] w.rooms[j]).name == place;
        assert(v.rooms[j].name == place);
    }
    let want = if place == room {
        v.members(place).insert(id)
    } else {
        v.members(place).remove(id)
    };
    assert forall|x: u64| w.members(place).contains(x) <==> want.contains(x) by {
        if x == id {
            lemma_in_room(w, id, place);
        } else {
            if w.in_room(x, place) {
                let i = choose|i: int|
                    0 <= i < w.sessions.len() && (#[trigger] w.sessions[i]).id == x
                        && w.sessions[i].room == Some(place);
                assert(v.sessions[i].id == x && v.sessions[i].room == Some(place));
            }
            if v.in_room(x, place) {
                let i = choose|i: int|
                    0 <= i < v.sessions.len() && (#[trigger] v.sessions[i]).id == x
                        && v.sessions[i].room == Some(place);
                assert(w.sessions[i].id == x && w.sessions[i].room == Some(place));
            }
        }
    }
}

/// A session that asks for a room that was never declared is refused for
/// that reason, and nothing changes: it stays where it was.
pub proof fn lemma_join_unknown_room(v: SharedView, id: u64, room: Seq<char>)
    requires
        v.has_session(id),
        !v.has_room(room),
    ensures
        v.join_outcome(id, room) == Err::<(), RegistryError>(RegistryError::UnknownRoom),
        v.apply(Op::Join { id, room }) == v,
{
}

/// What a removal does: the session is gone and is a member of no room;
/// every other session is as it was.
pub proof fn lemma_remove_effect(v: SharedView, id: u64, other: u64, place: Seq<char>)
    requires
        v.wf(),
    ensures
        !v.remove(id).has_session(id),
        other != id ==> v.remove(id).has_session(other) == v.has_session(other),
        other != id && v.has_session(other) ==> v.remove(id).session(other) == v.session(other),
        v.remove(id).has_room(place) == v.has_room(place),
        v.remove(id).members(place) == v.members(place).remove(id),
{
    let w = v.remove(id);
    lemma_remove_wf(v, id);
    if v.has_session(id) {
        let k = v.index_of(id);
        if w.has_session(id) {
            let i = w.index_of(id);
            let i0 = if i < k {
                i
            } else {
                i + 1
            };
            lemma_index_of(v, i0);
        }
        if other != id {
            if v.has_session(other) {
                let i = v.index_of(other);
                let i1 = if i < k {
                    i
                } else {
                    i - 1
                };
                lemma_index_of(w, i1);
            }
            if w.has_session(other) {
                let i = w.index_of(other);
                let i0 = if i < k {
                    i
                } else {
                    i + 1
                };
                lemma_index_of(v, i0);
            }
        }
        assert forall|j: int| 0 <= j < v.rooms.len() implies (#[trigger] w.rooms[j]).name
            == v.rooms[j].name by {}
        if v.has_room(place) {
            let j = choose|j: int| 0 <= j < v.rooms.len() && (#[trigger] v.rooms[j]).name == place;
            assert(w.rooms[j].name == place);
        }
        if w.has_room(place) {
            let j = choose|j: int| 0 <= j < w.rooms.len() && (#[trigger] w.rooms[j]).name == place;
            assert(v.rooms[j].name == place);
        }
        assert forall|x: u64| w.members(place).contains(x) <==> v.members(place).remove(
            id,
        ).contains(x) by {
            if w.members(place).contains(x) {
                let j = choose|j: int|
                    0 <= j < w.rooms.len() && (#[trigger] w.rooms[j]).name == place
                        && w.rooms[j].members.contains(x);
                assert(v.rooms[j].name == place && v.rooms[j].members.contains(x));
            }
            if v.members(place).contains(x) && x != id {
                let j = choose|j: int|
                    0 <= j < v.rooms.len() && (#[trigger] v.rooms[j]).name == place
                        && v.rooms[j].members.contains(x);
                assert(w.rooms[j].name == place && w.rooms[j].members.contains(x));
            }
        }
    } else {
        assert(v.members(place) =~= v.members(place).remove(id));
    }
}

/// What a delivery does to each queue: the sessions stay the same, `msg` is
/// the newest entry in the queue of every session in `to`, and every other
/// queue is as it was.
pub proof fn lemma_deliver_outbox(v: SharedView, to: Set<u64>, msg: ResponseView, id: u64)
    requires
        v.wf(),
    ensures
        v.deliver(to, msg).has_session(id) == v.has_session(id),
        v.deliver(to, msg).outbox(id) == if to.contains(id) && v.has_session(id) {
            v.outbox(id).push(msg)
        } else {
            v.outbox(id)
        },
{
    let w = v.deliver(to, msg);
    lemma_deliver_wf(v, to, msg);
    if v.has_session(id) {
        let k = v.index_of(id);
        lemma_index_of(w, k);
    }
    if w.has_session(id) {
        let k = w.index_of(id);
        assert(v.sessions[k].id == id);
    }
}

/// What emptying a queue does: that queue is empty, and every other queue is
/// as it was.
pub proof fn lemma_drain_effect(v: SharedView, id: u64, other: u64)
    requires
        v.wf(),
    ensures
        v.drain(id).has_session(other) == v.has_session(other),
        v.drain(id).outbox(other) == if other == id {
            Seq::empty()
        } else {
            v.outbox(other)
        },
{
    let w = v.drain(id);
    lemma_drain_wf(v, id);
    if v.has_session(other) {
        let k = v.index_of(other);
        lemma_index_of(w, k);
    }
    if w.has_session(other) {
        let k = w.index_of(other);
        assert(v.sessions[k].id == other);
    }
}

// Who receives what, and in which order.

/// A broadcast reaches every member of the room except the excluded one, and
/// nobody else: each of them finds `msg` as the newest entry of its queue, and
/// the queue of every other session is as it was.
pub proof fn lemma_broadcast_delivery(
    v: SharedView,
    room: Seq<char>,
    msg: ResponseView,
    exclude: Option<u64>,
    id: u64,
)
    requires
        v.wf(),
    ensures
        v.broadcast(room, msg, exclude).has_session(id) == v.has_session(id),
        v.broadcast(room, msg, exclude).outbox(id) == if v.members(room).contains(id) && exclude
            != Some(id) {
            v.outbox(id).push(msg)
        } else {
            v.outbox(id)
        },
{
    lemma_deliver_outbox(v, v.recipients(room, exclude), msg, id);
}

/// A broadcast changes no room and no session's name or room.
pub proof fn lemma_broadcast_keeps_rooms(
    v: SharedView,
    room: Seq<char>,
    msg: ResponseView,
    exclude: Option<u64>,
    other: Seq<char>,
)
    requires
        v.wf(),
    ensures
        v.broadcast(room, msg, exclude).members(other) == v.members(other),
        v.broadcast(room, msg, exclude).rooms == v.rooms,
{
    let w = v.broadcast(room, msg, exclude);
    assert(w.members(other) =~= v.members(other));
}

/// Two broadcasts to one room arrive in the order in which they were made:
/// whoever receives both finds the first directly before the second at the
/// back of its queue.
pub proof fn lemma_broadcast_order(
    v: SharedView,
    room: Seq<char>,
    first: ResponseView,
    first_exclude: Option<u64>,
    second: ResponseView,
    second_exclude: Option<u64>,
    id: u64,
)
    requires
        v.wf(),
        v.members(room).contains(id),
        first_exclude != Some(id),
        second_exclude != Some(id),
    ensures
        v.broadcast(room, first, first_exclude).broadcast(room, second, second_exclude).outbox(id)
            == v.outbox(id).push(first).push(second),
{
    let w = v.broadcast(room, first, first_exclude);
    lemma_deliver_wf(v, v.recipients(room, first_exclude), first);
    lemma_broadcast_delivery(w, room, second, second_exclude, id);
}

/// A private message to another session puts exactly one `Private` chat
/// line, bearing the sender's name, into the addressee's queue, and changes
/// no other queue. One to the sender itself, to a name that nobody bears, or
/// from an unknown sender changes nothing at all.
pub proof fn lemma_private_message_delivery(
    v: SharedView,
    from: u64,
    to: Seq<char>,
    text: Seq<char>,
    id: u64,
)
    requires
        v.wf(),
    ensures
        v.private_outcome(from, to) is Err ==> v.private_message(from, to, text) == v,
        v.name_taken(to) && v.resolve(to) == from ==> v.private_message(from, to, text) == v,
        v.private_message(from, to, text).has_session(id) == v.has_session(id),
        v.private_message(from, to, text).outbox(id) == if v.private_outcome(from, to) is Ok
            && v.resolve(to) != from && id == v.resolve(to) {
            v.outbox(id).push(
                ResponseView::Chat(
                    ChatMessageView::Private { from: v.session(from).name, msg: text },
                ),
            )
        } else {
            v.outbox(id)
        },
{
    if v.name_taken(to) && v.resolve(to) != from && v.has_session(from) {
        let msg = ResponseView::Chat(
            ChatMessageView::Private { from: v.session(from).name, msg: text },
        );
        lemma_deliver_outbox(v, set![v.resolve(to)], msg, id);
        let k = choose|k: int| 0 <= k < v.sessions.len() && (#[trigger] v.sessions[k]).name == to;
        lemma_index_of(v, k);
    }
}

} // verus!

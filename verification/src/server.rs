//! The life of one connection on the server.
//!
//! A connection starts by shaking hands: the server asks for a name and the
//! client answers with one request. From then on it is active: requests are
//! handled as they come, and whatever waits in the session's queue is handed
//! out to be written. When the stream ends the session leaves the registry
//! and its room is told. The caller owns the socket; it reports what happened
//! as an [`Event`] and writes what [`process`] returns.

use vstd::prelude::*;
use vstd::string::*;
use crate::codec::{leftover, parse_frame, payload_views, whole_frames, FrameDecoder};
use crate::model::{
    ChatMessage, ChatMessageView, Response, ResponseView, ServerResponse, ServerResponseView,
    UserAction, UserActionView,
};
use crate::registry::laws::{
    lemma_broadcast_delivery, lemma_broadcast_keeps_rooms, lemma_deliver_outbox, lemma_deliver_wf,
    lemma_drain_effect, lemma_drain_wf, lemma_index_of, lemma_join_effect, lemma_join_wf,
    lemma_register_effect, lemma_register_wf, lemma_remove_effect, lemma_remove_wf,
};
use crate::registry::view::SharedView;
use crate::registry::Shared;
use crate::request::{dispatch, handle_request, notify, tell, ERROR_PREFIX};
use crate::text::{join_texts, MAIN_ROOM};
use crate::wire::{decode_request, read_request};

verus! {

/// What a new connection is asked first.
pub const PROMPT: &'static str = "Please enter a username";

pub const JOINED_SUFFIX: &'static str = " has joined the chat.";

pub const LEFT_SUFFIX: &'static str = " has left the chat.";

pub const MALFORMED_REQUEST: &'static str = "Malformed request.";

/// Where a connection stands.
#[derive(Debug, Clone, Copy, PartialEq, Eq, Structural)]
pub enum Phase {
    /// Accepted, and asked for a name; no session is registered yet.
    Handshaking,
    /// Registered and in a room.
    Active,
    /// Over. Nothing is handled any more.
    Closed,
}

/// What happened on a connection.
#[derive(Debug)]
pub enum Event {
    /// A frame arrived and held this request.
    Request(UserAction),
    /// A frame arrived and held no request.
    Malformed,
    /// Something may wait in the session's queue.
    Wake,
    /// The stream ended or failed.
    Disconnected,
}

/// The mathematical value of an [`Event`].
pub enum EventView {
    Request(UserActionView),
    Malformed,
    Wake,
    Disconnected,
}

impl View for Event {
    type V = EventView;

    open spec fn view(&self) -> EventView {
        match self {
            Event::Request(req) => EventView::Request(req@),
            Event::Malformed => EventView::Malformed,
            Event::Wake => EventView::Wake,
            Event::Disconnected => EventView::Disconnected,
        }
    }
}

/// One connection: its identity and where it stands.
#[derive(Debug)]
pub struct User {
    id: u64,
    phase: Phase,
}

/// The mathematical value of a [`User`].
pub struct UserView {
    pub id: u64,
    pub phase: Phase,
}

impl View for User {
    type V = UserView;

    closed spec fn view(&self) -> UserView {
        UserView { id: self.id, phase: self.phase }
    }
}

/// Whether the identity `id` can register: it is not registered yet and the
/// count of registrations has not reached its limit.
pub open spec fn can_register(v: SharedView, id: u64) -> bool {
    !v.has_session(id) && v.user_count < u64::MAX
}

/// The response that tells a session its name.
pub open spec fn joined_server(name: Seq<char>) -> ResponseView {
    ResponseView::Server(ServerResponseView::JoinedServer { username: name })
}

/// The notice that tells the room `room` the text `text`.
pub open spec fn room_notice(room: Seq<char>, text: Seq<char>) -> ResponseView {
    ResponseView::Server(ServerResponseView::General { room_name: room, msg: text })
}

/// The registry after the identity `id` joined the server under the wish for
/// the name `name`: it is registered, told its name, moved into `main` (which
/// tells it the room), and `main` is told that it joined.
pub open spec fn welcome(v: SharedView, id: u64, name: Seq<char>) -> SharedView {
    let assigned = v.assigned_name(Some(name));
    v.register(id, Some(name)).deliver(set![id], joined_server(assigned)).join(
        id,
        MAIN_ROOM@,
    ).broadcast(MAIN_ROOM@, room_notice(MAIN_ROOM@, assigned + JOINED_SUFFIX@), None)
}

/// The registry after the session `id` went away: it is removed, and the
/// room it was in is told.
pub open spec fn farewell(v: SharedView, id: u64) -> SharedView {
    if v.has_session(id) {
        let gone = v.session(id);
        match gone.room {
            Some(room) => v.remove(id).broadcast(
                room,
                room_notice(room, gone.name + LEFT_SUFFIX@),
                None,
            ),
            None => v.remove(id),
        }
    } else {
        v
    }
}

/// Where the connection `id` stands after `event`.
pub open spec fn next_phase(phase: Phase, v: SharedView, id: u64, event: EventView) -> Phase {
    match phase {
        Phase::Handshaking => match event {
            EventView::Request(UserActionView::Chat(ChatMessageView::Username(_))) => {
                if can_register(v, id) {
                    Phase::Active
                } else {
                    Phase::Closed
                }
            },
            EventView::Wake => Phase::Handshaking,
            _ => Phase::Closed,
        },
        Phase::Active => match event {
            EventView::Disconnected => Phase::Closed,
            _ => if v.has_session(id) {
                Phase::Active
            } else {
                Phase::Closed
            },
        },
        Phase::Closed => Phase::Closed,
    }
}

/// The registry after `event` on the connection `id` was handled, before
/// anything is taken out of a queue.
pub open spec fn handled(phase: Phase, v: SharedView, id: u64, event: EventView) -> SharedView {
    match phase {
        Phase::Handshaking => match event {
            EventView::Request(UserActionView::Chat(ChatMessageView::Username(name))) => {
                if can_register(v, id) {
                    welcome(v, id, name)
                } else {
                    v
                }
            },
            _ => v,
        },
        Phase::Active => match event {
            EventView::Request(req) => if v.has_session(id) {
                dispatch(v, id, req)
            } else {
                v
            },
            EventView::Malformed => if v.has_session(id) {
                notify(v, id, ERROR_PREFIX@ + MALFORMED_REQUEST@)
            } else {
                v
            },
            EventView::Wake => v,
            EventView::Disconnected => farewell(v, id),
        },
        Phase::Closed => v,
    }
}

/// What is written to the connection `id` after `event`: while the
/// connection is active, all that waits in its queue, oldest first.
pub open spec fn written(phase: Phase, v: SharedView, id: u64, event: EventView) -> Seq<
    ResponseView,
> {
    if next_phase(phase, v, id, event) == Phase::Active {
        handled(phase, v, id, event).outbox(id)
    } else {
        Seq::empty()
    }
}

/// The registry after `event` on the connection `id`: what was written has
/// left the queue.
pub open spec fn settled(phase: Phase, v: SharedView, id: u64, event: EventView) -> SharedView {
    if next_phase(phase, v, id, event) == Phase::Active {
        handled(phase, v, id, event).drain(id)
    } else {
        handled(phase, v, id, event)
    }
}

/// The new session can enter `main`.
proof fn lemma_welcome_enters(v: SharedView, id: u64, name: Seq<char>)
    requires
        v.wf(),
        !v.has_session(id),
    ensures
        v.register(id, Some(name)).deliver(
            set![id],
            joined_server(v.assigned_name(Some(name))),
        ).join_outcome(id, MAIN_ROOM@) is Ok,
{
    let r = v.register(id, Some(name));
    let d = r.deliver(set![id], joined_server(v.assigned_name(Some(name))));
    lemma_register_wf(v, id, Some(name));
    lemma_deliver_wf(r, set![id], joined_server(v.assigned_name(Some(name))));
    let n = v.sessions.len() as int;
    lemma_index_of(d, n);
}

/// The handshake in full: a connection whose identity can register is
/// written, in this order, its name, the room `main`, and the notice that
/// it joined; then its queue is empty and it is a member of `main`.
pub proof fn lemma_handshake(v: SharedView, id: u64, name: Seq<char>)
    requires
        v.wf(),
        can_register(v, id),
    ensures
        ({
            let event = EventView::Request(UserActionView::Chat(ChatMessageView::Username(name)));
            let assigned = v.assigned_name(Some(name));
            &&& next_phase(Phase::Handshaking, v, id, event) == Phase::Active
            &&& written(Phase::Handshaking, v, id, event) == seq![
                joined_server(assigned),
                ResponseView::Server(ServerResponseView::JoinedRoom { room_name: MAIN_ROOM@ }),
                room_notice(MAIN_ROOM@, assigned + JOINED_SUFFIX@),
            ]
            &&& settled(Phase::Handshaking, v, id, event).wf()
            &&& settled(Phase::Handshaking, v, id, event).outbox(id) == Seq::<
                ResponseView,
            >::empty()
            &&& settled(Phase::Handshaking, v, id, event).members(MAIN_ROOM@).contains(id)
        }),
{
    let assigned = v.assigned_name(Some(name));
    let a = v.register(id, Some(name));
    let b = a.deliver(set![id], joined_server(assigned));
    let c = b.join(id, MAIN_ROOM@);
    let notice = room_notice(MAIN_ROOM@, assigned + JOINED_SUFFIX@);
    let d = c.broadcast(MAIN_ROOM@, notice, None);
    let e = d.drain(id);
    lemma_register_wf(v, id, Some(name));
    lemma_deliver_wf(a, set![id], joined_server(assigned));
    lemma_welcome_enters(v, id, name);
    assert(b.has_room(MAIN_ROOM@)) by {
        assert(b.rooms[0].name == MAIN_ROOM@);
    }
    lemma_join_wf(b, id, MAIN_ROOM@);
    lemma_join_effect(b, id, MAIN_ROOM@, id, MAIN_ROOM@);
    assert(c.outbox(id) == b.outbox(id).push(
        ResponseView::Server(ServerResponseView::JoinedRoom { room_name: MAIN_ROOM@ }),
    ));
    lemma_broadcast_delivery(c, MAIN_ROOM@, notice, None, id);
    lemma_deliver_wf(c, c.recipients(MAIN_ROOM@, None), notice);
    lemma_drain_wf(d, id);
    assert(e.members(MAIN_ROOM@) =~= d.members(MAIN_ROOM@));
    assert(d.outbox(id) =~= seq![
        joined_server(assigned),
        ResponseView::Server(ServerResponseView::JoinedRoom { room_name: MAIN_ROOM@ }),
        notice,
    ]);
}

/// The end of a connection: the session is gone, every other member of the
/// room it was in finds the notice of its leaving as the newest entry of its
/// queue, and every queue outside that room is as it was.
pub proof fn lemma_farewell(v: SharedView, id: u64, other: u64)
    requires
        v.wf(),
        v.has_session(id),
        other != id,
    ensures
        farewell(v, id).wf(),
        !farewell(v, id).has_session(id),
        farewell(v, id).has_session(other) == v.has_session(other),
        farewell(v, id).outbox(other) == match v.session(id).room {
            Some(room) => if v.members(room).contains(other) {
                v.outbox(other).push(room_notice(room, v.session(id).name + LEFT_SUFFIX@))
            } else {
                v.outbox(other)
            },
            None => v.outbox(other),
        },
{
    let gone = v.session(id);
    let w = v.remove(id);
    lemma_remove_wf(v, id);
    match gone.room {
        Some(room) => {
            let notice = room_notice(room, gone.name + LEFT_SUFFIX@);
            lemma_remove_effect(v, id, other, room);
            lemma_deliver_wf(w, w.recipients(room, None), notice);
            lemma_broadcast_delivery(w, room, notice, None, other);
        },
        None => {
            lemma_remove_effect(v, id, other, MAIN_ROOM@);
        },
    }
}

impl User {
    /// A connection that was just accepted, and what to write to it first:
    /// the request for a name.
    pub fn new(id: u64) -> (r: (User, Response))
        ensures
            r.0@ == (UserView { id, phase: Phase::Handshaking }),
            r.1@ == room_notice(MAIN_ROOM@, PROMPT@),
    {
        (User { id, phase: Phase::Handshaking }, Response::server_msg(PROMPT, MAIN_ROOM))
    }

    pub fn id(&self) -> (r: u64)
        ensures
            r == self@.id,
    {
        self.id
    }

    pub fn phase(&self) -> (r: Phase)
        ensures
            r == self@.phase,
    {
        self.phase
    }
}

/// What the arrival of a frame with the payload `payload` means: the request
/// that it holds, or that it holds none.
pub fn read_event(payload: &[u8]) -> (r: Event)
    ensures
        r@ == event_of(payload@),
{
    match decode_request(payload) {
        Ok(req) => Event::Request(req),
        Err(_) => Event::Malformed,
    }
}

/// What a payload means.
pub open spec fn event_of(payload: Seq<u8>) -> EventView {
    match read_request(payload) {
        Some(req) => EventView::Request(req),
        None => EventView::Malformed,
    }
}

/// What the bytes collected on a connection mean: one event for each whole
/// frame, in their order, and the end of the connection behind them if what
/// follows breaks the rule of the frames.
pub open spec fn arrived(bytes: Seq<u8>) -> Seq<EventView> {
    let events = whole_frames(bytes).map_values(|p: Seq<u8>| event_of(p));
    if parse_frame(leftover(bytes)) is TooLarge {
        events.push(EventView::Disconnected)
    } else {
        events
    }
}

/// The values of a list of events.
pub open spec fn event_views(events: Seq<Event>) -> Seq<EventView> {
    events.map_values(|e: Event| e@)
}

/// Takes all whole frames out of the decoder and says what they mean.
pub fn read_events(decoder: &mut FrameDecoder) -> (r: Vec<Event>)
    ensures
        final(decoder)@ == leftover(old(decoder)@),
        event_views(r@) == arrived(old(decoder)@),
{
    let (payloads, broken) = decoder.drain();
    let ghost frames = whole_frames(old(decoder)@);
    let mut events: Vec<Event> = Vec::new();
    let mut i: usize = 0;
    while i < payloads.len()
        invariant
            i <= payloads.len(),
            events.len() == i,
            payload_views(payloads@) == frames,
            forall|k: int| 0 <= k < i ==> (#[trigger] events[k])@ == event_of(frames[k]),
        decreases payloads.len() - i,
    {
        assert(frames[i as int] == payloads[i as int]@);
        events.push(read_event(payloads[i].as_slice()));
        i += 1;
    }
    assert(event_views(events@) =~= frames.map_values(|p: Seq<u8>| event_of(p)));
    if broken {
        let ghost before = event_views(events@);
        events.push(Event::Disconnected);
        assert(event_views(events@) =~= before.push(EventView::Disconnected));
    }
    events
}

/// Handles what happened on the connection `user` and returns what is to be
/// written to it now, oldest first.
pub fn process(user: &mut User, state: &mut Shared, event: &Event) -> (r: Vec<Response>)
    requires
        old(state).wf(),
    ensures
        final(state).wf(),
        final(user)@.id == old(user)@.id,
        final(user)@.phase == next_phase(old(user)@.phase, old(state)@, old(user)@.id, event@),
        final(state)@ == settled(old(user)@.phase, old(state)@, old(user)@.id, event@),
        r@.map_values(|m: Response| m@) == written(
            old(user)@.phase,
            old(state)@,
            old(user)@.id,
            event@,
        ),
{
    let ghost v = state@;
    let id = user.id;
    match user.phase {
        Phase::Handshaking => {
            match event {
                Event::Request(UserAction::Chat(ChatMessage::Username(name))) => {
                    if state.has_user(id) || state.user_count() == u64::MAX {
                        user.phase = Phase::Closed;
                    } else {
                        proof {
                            state.lemma_wf();
                            lemma_welcome_enters(v, id, name@);
                        }
                        let assigned = match state.add_user(id, Some(name.as_str())) {
                            Ok(assigned) => assigned,
                            Err(_) => String::new(),
                        };
                        let _ = state.send_to(
                            id,
                            Response::Server(
                                ServerResponse::JoinedServer { username: assigned.clone() },
                            ),
                        );
                        let _ = state.add_user_to_room(id, MAIN_ROOM);
                        let text = join_texts(assigned.as_str(), JOINED_SUFFIX);
                        let _ = state.broadcast(
                            MAIN_ROOM,
                            &Response::server_msg(text.as_str(), MAIN_ROOM),
                            None,
                        );
                        user.phase = Phase::Active;
                    }
                },
                Event::Wake => {},
                _ => {
                    user.phase = Phase::Closed;
                },
            }
        },
        Phase::Active => {
            match event {
                Event::Request(req) => {
                    if handle_request(req, state, id).is_err() {
                        user.phase = Phase::Closed;
                    }
                },
                Event::Malformed => {
                    if state.has_user(id) {
                        tell(state, id, join_texts(ERROR_PREFIX, MALFORMED_REQUEST).as_str());
                    } else {
                        user.phase = Phase::Closed;
                    }
                },
                Event::Wake => {
                    if !state.has_user(id) {
                        user.phase = Phase::Closed;
                    }
                },
                Event::Disconnected => {
                    match state.remove_user(id) {
                        Some(gone) => {
                            match gone.room() {
                                Some(room) => {
                                    let text = join_texts(gone.name().as_str(), LEFT_SUFFIX);
                                    let _ = state.broadcast(
                                        room.as_str(),
                                        &Response::server_msg(text.as_str(), room.as_str()),
                                        None,
                                    );
                                },
                                None => {},
                            }
                        },
                        None => {},
                    }
                    user.phase = Phase::Closed;
                },
            }
        },
        Phase::Closed => {},
    }
    match user.phase {
        Phase::Active => state.take_outbound(id),
        _ => Vec::new(),
    }
}

/// Where a connection stands, what the registry holds and what was written
/// to the connection after the events `events`, handled in their order.
pub open spec fn after_events(phase: Phase, v: SharedView, id: u64, events: Seq<EventView>) -> (
    Phase,
    SharedView,
    Seq<ResponseView>,
)
    decreases events.len(),
{
    if events.len() == 0 {
        (phase, v, Seq::empty())
    } else {
        let (p, w, out) = after_events(phase, v, id, events.drop_last());
        let event = events.last();
        (next_phase(p, w, id, event), settled(p, w, id, event), out + written(p, w, id, event))
    }
}

/// Handles the events `events` of the connection `user` in their order and
/// returns all that is to be written to it, oldest first.
pub fn process_all(user: &mut User, state: &mut Shared, events: &Vec<Event>) -> (r: Vec<Response>)
    requires
        old(state).wf(),
    ensures
        final(state).wf(),
        final(user)@.id == old(user)@.id,
        (final(user)@.phase, final(state)@, r@.map_values(|m: Response| m@)) == after_events(
            old(user)@.phase,
            old(state)@,
            old(user)@.id,
            event_views(events@),
        ),
{
    let ghost all = event_views(events@);
    let ghost phase0 = user@.phase;
    let ghost v0 = state@;
    let ghost id = user@.id;
    let mut out: Vec<Response> = Vec::new();
    let mut i: usize = 0;
    assert(all.take(0) =~= Seq::<EventView>::empty());
    while i < events.len()
        invariant
            i <= events.len(),
            all == event_views(events@),
            state.wf(),
            user@.id == id,
            (user@.phase, state@, out@.map_values(|m: Response| m@)) == after_events(
                phase0,
                v0,
                id,
                all.take(i as int),
            ),
        decreases events.len() - i,
    {
        let ghost upto = all.take(i + 1);
        let ghost before = out@.map_values(|m: Response| m@);
        assert(upto.drop_last() =~= all.take(i as int));
        assert(upto.last() == events[i as int]@);
        let mut more = process(user, state, &events[i]);
        let ghost added = more@.map_values(|m: Response| m@);
        out.append(&mut more);
        assert(out@.map_values(|m: Response| m@) =~= before + added);
        i += 1;
    }
    assert(all.take(events.len() as int) =~= all);
    out
}

/// Takes in the bytes that arrived on the connection `user`, handles every
/// request that is now there in full, and returns all that is to be written
/// to the connection, oldest first. Bytes of a frame that is not whole yet
/// wait in the decoder.
pub fn receive(user: &mut User, decoder: &mut FrameDecoder, state: &mut Shared, bytes: &[u8]) -> (r:
    Vec<Response>)
    requires
        old(state).wf(),
    ensures
        final(state).wf(),
        final(user)@.id == old(user)@.id,
        final(decoder)@ == leftover(old(decoder)@ + bytes@),
        (final(user)@.phase, final(state)@, r@.map_values(|m: Response| m@)) == after_events(
            old(user)@.phase,
            old(state)@,
            old(user)@.id,
            arrived(old(decoder)@ + bytes@),
        ),
{
    decoder.push(bytes);
    let events = read_events(decoder);
    process_all(user, state, &events)
}

} // verus!

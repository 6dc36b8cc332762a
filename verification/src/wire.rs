//! The byte layout of requests and responses.
//!
//! A message is written as the number of its variant, then its fields in
//! their order. A variant's number takes four bytes, least significant first;
//! a text takes eight bytes for the length of its UTF-8 form, least
//! significant first, and then that form. This is the layout that `bincode`
//! gives to the same types, and the texts are written and read by `bincode`
//! itself.

use vstd::prelude::*;
use vstd::bytes::*;
use vstd::slice::*;
use vstd::string::*;
use vstd::utf8::*;
use crate::model::{
    ChatMessage, ChatMessageView, GameUpdate, GameUpdateView, Response, ResponseView,
    ServerResponse, ServerResponseView, UserAction, UserActionView,
};

verus! {

/// `bincode::ErrorKind`: why `bincode` could not write or read a value.
/// Nothing is said of what it holds.
#[verifier::external_type_specification]
#[verifier::external_body]
pub struct ExErrorKind(bincode::ErrorKind);

/// The bytes of a payload are not a message: the number of a variant is
/// unknown, or a field is cut short or is no text.
#[derive(Debug, Clone, Copy, PartialEq, Eq, Structural)]
pub struct DecodeError;

/// The number of bytes that hold a variant's number.
pub const TAG_LEN: usize = 4;

/// The number of bytes that hold a text's length.
pub const LEN_LEN: usize = 8;

/// The bytes of the variant number `i`.
pub open spec fn tag(i: u8) -> Seq<u8> {
    seq![i, 0u8, 0u8, 0u8]
}

/// The bytes of the text `s`: the length of its UTF-8 form, then that form.
pub open spec fn text_field(s: Seq<char>) -> Seq<u8> {
    spec_u64_to_le_bytes(encode_utf8(s).len() as u64) + encode_utf8(s)
}

/// Whether the length of the UTF-8 form of `s` can be written in eight bytes.
pub open spec fn fits_text(s: Seq<char>) -> bool {
    encode_utf8(s).len() <= u64::MAX
}

/// The length that the first eight bytes of `b` announce.
pub open spec fn text_len(b: Seq<u8>) -> nat {
    spec_u64_from_le_bytes(b.subrange(0, LEN_LEN as int)) as nat
}

/// Whether `b` begins with a text: a length, and as many bytes as it says,
/// which are well-formed UTF-8.
pub open spec fn holds_text(b: Seq<u8>) -> bool {
    &&& b.len() >= LEN_LEN
    &&& LEN_LEN + text_len(b) <= b.len()
    &&& valid_utf8(b.subrange(LEN_LEN as int, LEN_LEN + text_len(b)))
}

/// The text that `b` begins with.
pub open spec fn held_text(b: Seq<u8>) -> Seq<char> {
    decode_utf8(b.subrange(LEN_LEN as int, LEN_LEN + text_len(b)))
}

/// Reads a text from the front of `b`; gives the text and what follows it.
pub open spec fn read_text(b: Seq<u8>) -> Option<(Seq<char>, Seq<u8>)> {
    if holds_text(b) {
        Some((held_text(b), b.skip(LEN_LEN + text_len(b))))
    } else {
        None
    }
}

/// Reads a variant's number from the front of `b`; gives the number and what
/// follows it.
pub open spec fn read_tag(b: Seq<u8>) -> Option<(u8, Seq<u8>)> {
    if b.len() >= TAG_LEN && b[1] == 0 && b[2] == 0 && b[3] == 0 {
        Some((b[0], b.skip(TAG_LEN as int)))
    } else {
        None
    }
}

/// Reads one text and makes a value of it.
pub open spec fn read_one<T>(b: Seq<u8>, make: spec_fn(Seq<char>) -> T) -> Option<(T, Seq<u8>)> {
    match read_text(b) {
        Some((x, rest)) => Some((make(x), rest)),
        None => None,
    }
}

/// Reads two texts and makes a value of them.
pub open spec fn read_two<T>(b: Seq<u8>, make: spec_fn(Seq<char>, Seq<char>) -> T) -> Option<
    (T, Seq<u8>),
> {
    match read_text(b) {
        Some((x, b1)) => match read_text(b1) {
            Some((y, rest)) => Some((make(x, y), rest)),
            None => None,
        },
        None => None,
    }
}

/// Reads three texts and makes a value of them.
pub open spec fn read_three<T>(
    b: Seq<u8>,
    make: spec_fn(Seq<char>, Seq<char>, Seq<char>) -> T,
) -> Option<(T, Seq<u8>)> {
    match read_text(b) {
        Some((x, b1)) => match read_text(b1) {
            Some((y, b2)) => match read_text(b2) {
                Some((z, rest)) => Some((make(x, y, z), rest)),
                None => None,
            },
            None => None,
        },
        None => None,
    }
}

/// The bytes of a chat message.
pub open spec fn chat_bytes(m: ChatMessageView) -> Seq<u8> {
    match m {
        ChatMessageView::Private { from, msg } => tag(0) + (text_field(from) + text_field(msg)),
        ChatMessageView::Public { room_name, from, msg } => tag(1) + (text_field(room_name) + (
        text_field(from) + text_field(msg))),
        ChatMessageView::Username(name) => tag(2) + text_field(name),
    }
}

/// The bytes of a server notice.
pub open spec fn server_bytes(s: ServerResponseView) -> Seq<u8> {
    match s {
        ServerResponseView::JoinedServer { username } => tag(0) + text_field(username),
        ServerResponseView::JoinedRoom { room_name } => tag(1) + text_field(room_name),
        ServerResponseView::OtherUserJoined { name } => tag(2) + text_field(name),
        ServerResponseView::General { room_name, msg } => tag(3) + (text_field(room_name)
            + text_field(msg)),
    }
}

/// The bytes of a request.
pub open spec fn request_bytes(r: UserActionView) -> Seq<u8> {
    match r {
        UserActionView::Chat(m) => tag(0) + chat_bytes(m),
    }
}

/// The bytes of a response.
pub open spec fn response_bytes(r: ResponseView) -> Seq<u8> {
    match r {
        ResponseView::Chat(m) => tag(0) + chat_bytes(m),
        ResponseView::Game(g) => tag(1) + text_field(g.msg),
        ResponseView::Server(s) => tag(2) + server_bytes(s),
    }
}

/// Reads a chat message from the front of `b`.
pub open spec fn read_chat(b: Seq<u8>) -> Option<(ChatMessageView, Seq<u8>)> {
    match read_tag(b) {
        Some((t, rest)) => if t == 0 {
            read_two(
                rest,
                |from: Seq<char>, msg: Seq<char>| ChatMessageView::Private { from, msg },
            )
        } else if t == 1 {
            read_three(
                rest,
                |room_name: Seq<char>, from: Seq<char>, msg: Seq<char>|
                    ChatMessageView::Public { room_name, from, msg },
            )
        } else if t == 2 {
            read_one(rest, |name: Seq<char>| ChatMessageView::Username(name))
        } else {
            None
        },
        None => None,
    }
}

/// Reads a server notice from the front of `b`.
pub open spec fn read_server(b: Seq<u8>) -> Option<(ServerResponseView, Seq<u8>)> {
    match read_tag(b) {
        Some((t, rest)) => if t == 0 {
            read_one(rest, |username: Seq<char>| ServerResponseView::JoinedServer { username })
        } else if t == 1 {
            read_one(rest, |room_name: Seq<char>| ServerResponseView::JoinedRoom { room_name })
        } else if t == 2 {
            read_one(rest, |name: Seq<char>| ServerResponseView::OtherUserJoined { name })
        } else if t == 3 {
            read_two(
                rest,
                |room_name: Seq<char>, msg: Seq<char>|
                    ServerResponseView::General { room_name, msg },
            )
        } else {
            None
        },
        None => None,
    }
}

/// The request that the payload `b` holds, if it holds one. Bytes after the
/// request are not looked at.
pub open spec fn read_request(b: Seq<u8>) -> Option<UserActionView> {
    match read_tag(b) {
        Some((t, rest)) => if t == 0 {
            match read_chat(rest) {
                Some((m, _)) => Some(UserActionView::Chat(m)),
                None => None,
            }
        } else {
            None
        },
        None => None,
    }
}

/// The response that the payload `b` holds, if it holds one. Bytes after the
/// response are not looked at.
pub open spec fn read_response(b: Seq<u8>) -> Option<ResponseView> {
    match read_tag(b) {
        Some((t, rest)) => if t == 0 {
            match read_chat(rest) {
                Some((m, _)) => Some(ResponseView::Chat(m)),
                None => None,
            }
        } else if t == 1 {
            match read_text(rest) {
                Some((msg, _)) => Some(ResponseView::Game(GameUpdateView { msg })),
                None => None,
            }
        } else if t == 2 {
            match read_server(rest) {
                Some((s, _)) => Some(ResponseView::Server(s)),
                None => None,
            }
        } else {
            None
        },
        None => None,
    }
}

/// Whether every text of the chat message can be written.
pub open spec fn fits_chat(m: ChatMessageView) -> bool {
    match m {
        ChatMessageView::Private { from, msg } => fits_text(from) && fits_text(msg),
        ChatMessageView::Public { room_name, from, msg } => fits_text(room_name) && fits_text(from)
            && fits_text(msg),
        ChatMessageView::Username(name) => fits_text(name),
    }
}

/// Whether every text of the server notice can be written.
pub open spec fn fits_server(s: ServerResponseView) -> bool {
    match s {
        ServerResponseView::JoinedServer { username } => fits_text(username),
        ServerResponseView::JoinedRoom { room_name } => fits_text(room_name),
        ServerResponseView::OtherUserJoined { name } => fits_text(name),
        ServerResponseView::General { room_name, msg } => fits_text(room_name) && fits_text(msg),
    }
}

/// Whether every text of the request can be written.
pub open spec fn fits_request(r: UserActionView) -> bool {
    match r {
        UserActionView::Chat(m) => fits_chat(m),
    }
}

/// Whether every text of the response can be written.
pub open spec fn fits_response(r: ResponseView) -> bool {
    match r {
        ResponseView::Chat(m) => fits_chat(m),
        ResponseView::Game(g) => fits_text(g.msg),
        ResponseView::Server(s) => fits_server(s),
    }
}

/// Whatever follows it, a variant's number is read back.
pub proof fn lemma_read_tag(t: u8, rest: Seq<u8>)
    ensures
        read_tag(tag(t) + rest) == Some((t, rest)),
{
    assert((tag(t) + rest).skip(TAG_LEN as int) =~= rest);
}

/// Whatever follows it, a text is read back.
pub proof fn lemma_read_text(s: Seq<char>, rest: Seq<u8>)
    requires
        fits_text(s),
    ensures
        read_text(text_field(s) + rest) == Some((s, rest)),
{
    broadcast use encode_utf8_valid_utf8, encode_utf8_decode_utf8;

    lemma_auto_spec_u64_to_from_le_bytes();
    let body = encode_utf8(s);
    let n = body.len();
    let head = spec_u64_to_le_bytes(n as u64);
    let b = text_field(s) + rest;
    assert(b.subrange(0, LEN_LEN as int) =~= head);
    assert(b.subrange(LEN_LEN as int, LEN_LEN + n) =~= body);
}

/// Whatever follows it, a chat message is read back.
pub proof fn lemma_read_chat(m: ChatMessageView, rest: Seq<u8>)
    requires
        fits_chat(m),
    ensures
        read_chat(chat_bytes(m) + rest) == Some((m, rest)),
{
    match m {
        ChatMessageView::Private { from, msg } => {
            let b2 = text_field(msg) + rest;
            let b1 = text_field(from) + b2;
            assert(chat_bytes(m) + rest =~= tag(0) + b1);
            lemma_read_tag(0, b1);
            lemma_read_text(from, b2);
            lemma_read_text(msg, rest);
        },
        ChatMessageView::Public { room_name, from, msg } => {
            let b3 = text_field(msg) + rest;
            let b2 = text_field(from) + b3;
            let b1 = text_field(room_name) + b2;
            assert(chat_bytes(m) + rest =~= tag(1) + b1);
            lemma_read_tag(1, b1);
            lemma_read_text(room_name, b2);
            lemma_read_text(from, b3);
            lemma_read_text(msg, rest);
        },
        ChatMessageView::Username(name) => {
            let b1 = text_field(name) + rest;
            assert(chat_bytes(m) + rest =~= tag(2) + b1);
            lemma_read_tag(2, b1);
            lemma_read_text(name, rest);
        },
    }
}

/// Whatever follows it, a server notice is read back.
pub proof fn lemma_read_server(s: ServerResponseView, rest: Seq<u8>)
    requires
        fits_server(s),
    ensures
        read_server(server_bytes(s) + rest) == Some((s, rest)),
{
    match s {
        ServerResponseView::JoinedServer { username } => {
            let b1 = text_field(username) + rest;
            assert(server_bytes(s) + rest =~= tag(0) + b1);
            lemma_read_tag(0, b1);
            lemma_read_text(username, rest);
        },
        ServerResponseView::JoinedRoom { room_name } => {
            let b1 = text_field(room_name) + rest;
            assert(server_bytes(s) + rest =~= tag(1) + b1);
            lemma_read_tag(1, b1);
            lemma_read_text(room_name, rest);
        },
        ServerResponseView::OtherUserJoined { name } => {
            let b1 = text_field(name) + rest;
            assert(server_bytes(s) + rest =~= tag(2) + b1);
            lemma_read_tag(2, b1);
            lemma_read_text(name, rest);
        },
        ServerResponseView::General { room_name, msg } => {
            let b2 = text_field(msg) + rest;
            let b1 = text_field(room_name) + b2;
            assert(server_bytes(s) + rest =~= tag(3) + b1);
            lemma_read_tag(3, b1);
            lemma_read_text(room_name, b2);
            lemma_read_text(msg, rest);
        },
    }
}

/// Every request is read back from its bytes as it was written, whatever
/// follows them.
pub proof fn lemma_request_round_trip(r: UserActionView, rest: Seq<u8>)
    requires
        fits_request(r),
    ensures
        read_request(request_bytes(r) + rest) == Some(r),
{
    match r {
        UserActionView::Chat(m) => {
            let b1 = chat_bytes(m) + rest;
            assert(request_bytes(r) + rest =~= tag(0) + b1);
            lemma_read_tag(0, b1);
            lemma_read_chat(m, rest);
        },
    }
}

/// Every response is read back from its bytes as it was written, whatever
/// follows them.
pub proof fn lemma_response_round_trip(r: ResponseView, rest: Seq<u8>)
    requires
        fits_response(r),
    ensures
        read_response(response_bytes(r) + rest) == Some(r),
{
    match r {
        ResponseView::Chat(m) => {
            let b1 = chat_bytes(m) + rest;
            assert(response_bytes(r) + rest =~= tag(0) + b1);
            lemma_read_tag(0, b1);
            lemma_read_chat(m, rest);
        },
        ResponseView::Game(g) => {
            let b1 = text_field(g.msg) + rest;
            assert(response_bytes(r) + rest =~= tag(1) + b1);
            lemma_read_tag(1, b1);
            lemma_read_text(g.msg, rest);
        },
        ResponseView::Server(s) => {
            let b1 = server_bytes(s) + rest;
            assert(response_bytes(r) + rest =~= tag(2) + b1);
            lemma_read_tag(2, b1);
            lemma_read_server(s, rest);
        },
    }
}

/// `bincode::serialize` on a string slice. It writes the number of bytes of
/// the string's UTF-8 form as a `u64`, least significant byte first, and then
/// those bytes; with no size limit and a vector to write to, it does not
/// fail.
#[verifier::external_body]
fn text_to_bytes(text: &str) -> (r: Result<Vec<u8>, bincode::Error>)
    ensures
        r is Ok,
        r->Ok_0@ == text_field(text@),
{
    bincode::serialize(text)
}

/// `bincode::deserialize` to a `String`. It reads a `u64` length, least
/// significant byte first, then as many bytes as the length says, and
/// succeeds exactly if all of them are there and are well-formed UTF-8; the
/// string it gives is what they spell. Bytes after them are left alone.
#[verifier::external_body]
fn text_from_bytes(bytes: &[u8]) -> (r: Result<String, bincode::Error>)
    ensures
        r is Ok <==> holds_text(bytes@),
        r is Ok ==> r->Ok_0@ == held_text(bytes@),
{
    bincode::deserialize::<String>(bytes)
}

fn put_tag(out: &mut Vec<u8>, i: u8)
    ensures
        final(out)@ == old(out)@ + tag(i),
{
    out.push(i);
    out.push(0);
    out.push(0);
    out.push(0);
}

fn put_text(out: &mut Vec<u8>, text: &str)
    ensures
        final(out)@ == old(out)@ + text_field(text@),
        fits_text(text@),
{
    match text_to_bytes(text) {
        Ok(mut bytes) => {
            proof {
                lemma_auto_spec_u64_to_from_le_bytes();
                assert(bytes.len() == LEN_LEN + encode_utf8(text@).len());
            }
            out.append(&mut bytes);
        },
        Err(_) => {},
    }
}

fn put_chat(out: &mut Vec<u8>, m: &ChatMessage)
    ensures
        final(out)@ == old(out)@ + chat_bytes(m@),
        fits_chat(m@),
{
    match m {
        ChatMessage::Private { from, msg } => {
            put_tag(out, 0);
            put_text(out, from.as_str());
            put_text(out, msg.as_str());
        },
        ChatMessage::Public { room_name, from, msg } => {
            put_tag(out, 1);
            put_text(out, room_name.as_str());
            put_text(out, from.as_str());
            put_text(out, msg.as_str());
        },
        ChatMessage::Username(name) => {
            put_tag(out, 2);
            put_text(out, name.as_str());
        },
    }
}

fn put_server(out: &mut Vec<u8>, s: &ServerResponse)
    ensures
        final(out)@ == old(out)@ + server_bytes(s@),
        fits_server(s@),
{
    match s {
        ServerResponse::JoinedServer { username } => {
            put_tag(out, 0);
            put_text(out, username.as_str());
        },
        ServerResponse::JoinedRoom { room_name } => {
            put_tag(out, 1);
            put_text(out, room_name.as_str());
        },
        ServerResponse::OtherUserJoined { name } => {
            put_tag(out, 2);
            put_text(out, name.as_str());
        },
        ServerResponse::General { room_name, msg } => {
            put_tag(out, 3);
            put_text(out, room_name.as_str());
            put_text(out, msg.as_str());
        },
    }
}

/// Writes a request as bytes.
pub fn encode_request(req: &UserAction) -> (r: Vec<u8>)
    ensures
        r@ == request_bytes(req@),
        fits_request(req@),
{
    let mut out: Vec<u8> = Vec::new();
    match req {
        UserAction::Chat(m) => {
            put_tag(&mut out, 0);
            put_chat(&mut out, m);
        },
    }
    out
}

/// Writes a response as bytes.
pub fn encode_response(res: &Response) -> (r: Vec<u8>)
    ensures
        r@ == response_bytes(res@),
        fits_response(res@),
{
    let mut out: Vec<u8> = Vec::new();
    match res {
        Response::Chat(m) => {
            put_tag(&mut out, 0);
            put_chat(&mut out, m);
        },
        Response::Game(g) => {
            put_tag(&mut out, 1);
            put_text(&mut out, g.msg.as_str());
        },
        Response::Server(s) => {
            put_tag(&mut out, 2);
            put_server(&mut out, s);
        },
    }
    out
}

fn take_tag(bytes: &[u8], at: usize) -> (r: Option<(u8, usize)>)
    requires
        at <= bytes@.len(),
    ensures
        match read_tag(bytes@.skip(at as int)) {
            Some((t, rest)) => r is Some && r->Some_0.0 == t && at <= r->Some_0.1 <= bytes@.len()
                && bytes@.skip(r->Some_0.1 as int) == rest,
            None => r is None,
        },
{
    if bytes.len() - at < TAG_LEN {
        return None;
    }
    let ghost b = bytes@.skip(at as int);
    assert(b[0] == bytes@[at as int] && b[1] == bytes@[at + 1] && b[2] == bytes@[at + 2] && b[3]
        == bytes@[at + 3]);
    if bytes[at + 1] != 0 || bytes[at + 2] != 0 || bytes[at + 3] != 0 {
        return None;
    }
    Some((bytes[at], at + TAG_LEN))
}

fn take_text(bytes: &[u8], at: usize) -> (r: Option<(String, usize)>)
    requires
        at <= bytes@.len(),
    ensures
        match read_text(bytes@.skip(at as int)) {
            Some((t, rest)) => r is Some && r->Some_0.0@ == t && at <= r->Some_0.1 <= bytes@.len()
                && bytes@.skip(r->Some_0.1 as int) == rest,
            None => r is None,
        },
{
    broadcast use decode_utf8_encode_utf8;

    let tail = slice_subrange(bytes, at, bytes.len());
    match text_from_bytes(tail) {
        Ok(text) => {
            let ghost body = tail@.subrange(LEN_LEN as int, LEN_LEN + text_len(tail@));
            assert(encode_utf8(text@) == body);
            let next = at + LEN_LEN + text.as_str().len();
            Some((text, next))
        },
        Err(_) => None,
    }
}

fn take_chat(bytes: &[u8], at: usize) -> (r: Option<(ChatMessage, usize)>)
    requires
        at <= bytes@.len(),
    ensures
        match read_chat(bytes@.skip(at as int)) {
            Some((m, rest)) => r is Some && r->Some_0.0@ == m && at <= r->Some_0.1 <= bytes@.len()
                && bytes@.skip(r->Some_0.1 as int) == rest,
            None => r is None,
        },
{
    let (t, at1) = match take_tag(bytes, at) {
        Some(found) => found,
        None => {
            return None;
        },
    };
    if t == 0 {
        let (from, at2) = match take_text(bytes, at1) {
            Some(found) => found,
            None => {
                return None;
            },
        };
        let (msg, at3) = match take_text(bytes, at2) {
            Some(found) => found,
            None => {
                return None;
            },
        };
        Some((ChatMessage::Private { from, msg }, at3))
    } else if t == 1 {
        let (room_name, at2) = match take_text(bytes, at1) {
            Some(found) => found,
            None => {
                return None;
            },
        };
        let (from, at3) = match take_text(bytes, at2) {
            Some(found) => found,
            None => {
                return None;
            },
        };
        let (msg, at4) = match take_text(bytes, at3) {
            Some(found) => found,
            None => {
                return None;
            },
        };
        Some((ChatMessage::Public { room_name, from, msg }, at4))
    } else if t == 2 {
        let (name, at2) = match take_text(bytes, at1) {
            Some(found) => found,
            None => {
                return None;
            },
        };
        Some((ChatMessage::Username(name), at2))
    } else {
        None
    }
}

fn take_server(bytes: &[u8], at: usize) -> (r: Option<(ServerResponse, usize)>)
    requires
        at <= bytes@.len(),
    ensures
        match read_server(bytes@.skip(at as int)) {
            Some((s, rest)) => r is Some && r->Some_0.0@ == s && at <= r->Some_0.1 <= bytes@.len()
                && bytes@.skip(r->Some_0.1 as int) == rest,
            None => r is None,
        },
{
    let (t, at1) = match take_tag(bytes, at) {
        Some(found) => found,
        None => {
            return None;
        },
    };
    if t > 3 {
        return None;
    }
    let (first, at2) = match take_text(bytes, at1) {
        Some(found) => found,
        None => {
            return None;
        },
    };
    if t == 0 {
        Some((ServerResponse::JoinedServer { username: first }, at2))
    } else if t == 1 {
        Some((ServerResponse::JoinedRoom { room_name: first }, at2))
    } else if t == 2 {
        Some((ServerResponse::OtherUserJoined { name: first }, at2))
    } else {
        let (msg, at3) = match take_text(bytes, at2) {
            Some(found) => found,
            None => {
                return None;
            },
        };
        Some((ServerResponse::General { room_name: first, msg }, at3))
    }
}

/// Reads a request from a payload. Fails exactly where the payload does not
/// begin with the bytes of a request.
pub fn decode_request(bytes: &[u8]) -> (r: Result<UserAction, DecodeError>)
    ensures
        match read_request(bytes@) {
            Some(v) => r is Ok && r->Ok_0@ == v,
            None => r is Err,
        },
{
    let (t, at) = match take_tag(bytes, 0) {
        Some(found) => found,
        None => {
            return Err(DecodeError);
        },
    };
    if t != 0 {
        return Err(DecodeError);
    }
    match take_chat(bytes, at) {
        Some((m, _)) => Ok(UserAction::Chat(m)),
        None => Err(DecodeError),
    }
}

/// Reads a response from a payload. Fails exactly where the payload does not
/// begin with the bytes of a response.
pub fn decode_response(bytes: &[u8]) -> (r: Result<Response, DecodeError>)
    ensures
        match read_response(bytes@) {
            Some(v) => r is Ok && r->Ok_0@ == v,
            None => r is Err,
        },
{
    let (t, at) = match take_tag(bytes, 0) {
        Some(found) => found,
        None => {
            return Err(DecodeError);
        },
    };
    if t == 0 {
        match take_chat(bytes, at) {
            Some((m, _)) => Ok(Response::Chat(m)),
            None => Err(DecodeError),
        }
    } else if t == 1 {
        match take_text(bytes, at) {
            Some((msg, _)) => Ok(Response::Game(GameUpdate { msg })),
            None => Err(DecodeError),
        }
    } else if t == 2 {
        match take_server(bytes, at) {
            Some((s, _)) => Ok(Response::Server(s)),
            None => Err(DecodeError),
        }
    } else {
        Err(DecodeError)
    }
}

} // verus!

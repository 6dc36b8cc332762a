//! The grammar of a chat line.
//!
//! A line that begins with `/` is a command: the words after the slash are
//! its name and its arguments. Any other line is something said to the room.

use vstd::prelude::*;
use vstd::string::*;
use crate::text::{is_space, is_space_char, texts, to_chars};

verus! {

pub const CMD_WHO: &'static str = "who";

pub const CMD_ROOMS: &'static str = "rooms";

pub const CMD_ROOMS_SHORT: &'static str = "rs";

pub const CMD_PM: &'static str = "pm";

pub const CMD_MV: &'static str = "mv";

/// What a command lacks.
#[derive(Debug, Clone, Copy, PartialEq, Eq, Structural)]
pub enum Missing {
    /// Nothing follows the slash.
    Name,
    /// `pm` without an addressee.
    Recipient,
    /// `mv` without a room.
    Room,
}

/// What a chat line asks for.
#[derive(Debug)]
pub enum Command {
    /// Say `text` to the room.
    Say { text: String },
    /// Send `text` to the session named `to`.
    PrivateMessage { to: String, text: String },
    ListUsers,
    ListRooms,
    MoveRoom { room_name: String },
    /// A command that the server does not know.
    Unknown { name: String },
    /// A command without the argument that it needs.
    Incomplete(Missing),
}

/// The mathematical value of a [`Command`].
pub enum CommandView {
    Say { text: Seq<char> },
    PrivateMessage { to: Seq<char>, text: Seq<char> },
    ListUsers,
    ListRooms,
    MoveRoom { room_name: Seq<char> },
    Unknown { name: Seq<char> },
    Incomplete(Missing),
}

impl View for Command {
    type V = CommandView;

    open spec fn view(&self) -> CommandView {
        match self {
            Command::Say { text } => CommandView::Say { text: text@ },
            Command::PrivateMessage { to, text } => CommandView::PrivateMessage {
                to: to@,
                text: text@,
            },
            Command::ListUsers => CommandView::ListUsers,
            Command::ListRooms => CommandView::ListRooms,
            Command::MoveRoom { room_name } => CommandView::MoveRoom { room_name: room_name@ },
            Command::Unknown { name } => CommandView::Unknown { name: name@ },
            Command::Incomplete(m) => CommandView::Incomplete(*m),
        }
    }
}

/// The words of `s` that follow the unfinished word `current`: `s` is read
/// from the left, white space ends a word, and an empty word is none.
pub open spec fn words_after(s: Seq<char>, current: Seq<char>) -> Seq<Seq<char>>
    decreases s.len(),
{
    if s.len() == 0 {
        if current.len() > 0 {
            seq![current]
        } else {
            Seq::empty()
        }
    } else if is_space(s[0]) {
        if current.len() > 0 {
            seq![current] + words_after(s.drop_first(), Seq::empty())
        } else {
            words_after(s.drop_first(), Seq::empty())
        }
    } else {
        words_after(s.drop_first(), current.push(s[0]))
    }
}

/// The words of `s`: its maximal runs of characters that are not white space,
/// from left to right.
pub open spec fn words(s: Seq<char>) -> Seq<Seq<char>> {
    words_after(s, Seq::empty())
}

/// The words `list`, with one blank between each two.
pub open spec fn join_words(list: Seq<Seq<char>>) -> Seq<char>
    decreases list.len(),
{
    if list.len() == 0 {
        Seq::empty()
    } else if list.len() == 1 {
        list[0]
    } else {
        join_words(list.drop_last()) + seq![' '] + list.last()
    }
}

/// What the line `line` asks for.
pub open spec fn parse_line(line: Seq<char>) -> CommandView {
    if line.len() > 0 && line[0] == '/' {
        let w = words(line.skip(1));
        if w.len() == 0 {
            CommandView::Incomplete(Missing::Name)
        } else if w[0] == CMD_WHO@ {
            CommandView::ListUsers
        } else if w[0] == CMD_ROOMS@ || w[0] == CMD_ROOMS_SHORT@ {
            CommandView::ListRooms
        } else if w[0] == CMD_PM@ {
            if w.len() < 2 {
                CommandView::Incomplete(Missing::Recipient)
            } else {
                CommandView::PrivateMessage { to: w[1], text: join_words(w.skip(2)) }
            }
        } else if w[0] == CMD_MV@ {
            if w.len() < 2 {
                CommandView::Incomplete(Missing::Room)
            } else {
                CommandView::MoveRoom { room_name: w[1] }
            }
        } else {
            CommandView::Unknown { name: w[0] }
        }
    } else {
        CommandView::Say { text: line }
    }
}

/// Splits what follows the first `from` characters of `line` into its words.
pub fn split_words(line: &str, from: usize) -> (r: Vec<String>)
    requires
        from <= line@.len(),
    ensures
        texts(r@) == words(line@.skip(from as int)),
{
    let chars = to_chars(line);
    let n = chars.len();
    let mut out: Vec<String> = Vec::new();
    let mut start: usize = from;
    let mut i: usize = from;
    proof {
        let all = words(line@.skip(from as int));
        assert(line@.subrange(from as int, from as int) =~= Seq::<char>::empty());
        assert(texts(out@) + all =~= all);
    }
    while i < n
        invariant
            chars@ == line@,
            n == chars.len(),
            from <= start <= i <= n,
            forall|k: int| start <= k < i ==> !is_space(#[trigger] chars@[k]),
            texts(out@) + words_after(line@.skip(i as int), line@.subrange(start as int, i as int))
                == words(line@.skip(from as int)),
        decreases n - i,
    {
        let ghost rest = line@.skip(i as int);
        let ghost current = line@.subrange(start as int, i as int);
        assert(rest.drop_first() =~= line@.skip(i + 1));
        if is_space_char(chars[i]) {
            if start < i {
                let word = String::from_str(line.substring_char(start, i));
                let ghost before = texts(out@);
                out.push(word);
                assert(before + (seq![current] + words_after(rest.drop_first(), Seq::empty()))
                    =~= (before + seq![current]) + words_after(rest.drop_first(), Seq::empty()));
            }
            start = i + 1;
            assert(line@.subrange(start as int, i + 1) =~= Seq::<char>::empty());
        } else {
            assert(line@.subrange(start as int, i + 1) =~= current.push(rest[0]));
        }
        i += 1;
    }
    if start < n {
        let word = String::from_str(line.substring_char(start, n));
        let ghost before = texts(out@);
        out.push(word);
        assert(texts(out@) =~= before + seq![line@.subrange(start as int, n as int)]);
    } else {
        assert(texts(out@) + Seq::<Seq<char>>::empty() =~= texts(out@));
    }
    out
}

/// Puts the words `list[from..]` together, with one blank between each two.
pub fn join_from(list: &Vec<String>, from: usize) -> (r: String)
    requires
        from <= list.len(),
    ensures
        r@ == join_words(texts(list@).skip(from as int)),
{
    let mut out = String::new();
    let mut i: usize = from;
    proof {
        reveal_strlit(" ");
    }
    while i < list.len()
        invariant
            from <= i <= list.len(),
            " "@ == seq![' '],
            out@ == join_words(texts(list@).skip(from as int).take(i - from)),
        decreases list.len() - i,
    {
        let ghost all = texts(list@).skip(from as int);
        let ghost upto = all.take(i - from + 1);
        assert(upto.drop_last() =~= all.take(i - from));
        if i > from {
            out.append(" ");
        }
        out.append(list[i].as_str());
        i += 1;
    }
    assert(texts(list@).skip(from as int).take(list.len() - from) =~= texts(list@).skip(
        from as int,
    ));
    out
}

/// Reads a chat line.
pub fn parse_command(line: &str) -> (r: Command)
    ensures
        r@ == parse_line(line@),
{
    let chars = to_chars(line);
    if chars.len() == 0 || chars[0] != '/' {
        return Command::Say { text: String::from_str(line) };
    }
    let w = split_words(line, 1);
    if w.len() == 0 {
        return Command::Incomplete(Missing::Name);
    }
    if w[0] == String::from_str(CMD_WHO) {
        Command::ListUsers
    } else if w[0] == String::from_str(CMD_ROOMS) || w[0] == String::from_str(CMD_ROOMS_SHORT) {
        Command::ListRooms
    } else if w[0] == String::from_str(CMD_PM) {
        if w.len() < 2 {
            Command::Incomplete(Missing::Recipient)
        } else {
            Command::PrivateMessage { to: w[1].clone(), text: join_from(&w, 2) }
        }
    } else if w[0] == String::from_str(CMD_MV) {
        if w.len() < 2 {
            Command::Incomplete(Missing::Room)
        } else {
            Command::MoveRoom { room_name: w[1].clone() }
        }
    } else {
        Command::Unknown { name: w[0].clone() }
    }
}

} // verus!

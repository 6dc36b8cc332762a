//! What the client shows, as plain values: lines of text in parts, each part
//! with its tone. Drawing them on a terminal is the caller's work.

use vstd::prelude::*;
use vstd::string::*;
use crate::client::{
    MessageType, MessageTypeView, ServerMessage, ServerMessageView, State, StateView, Timestamp,
};
use crate::text::{join_texts, decimal, decimal_string, to_chars};

verus! {

pub const SERVER_LABEL: &'static str = "[SERVER] ";

pub const NAME_END: &'static str = ": ";

pub const INDENT: &'static str = "\t";

pub const NO_ROOM: &'static str = "NONE";

pub const ROOM_MARK: &'static str = " in #";

pub const NOT_CONNECTED: &'static str = "...";

/// How a part of a line looks.
#[derive(Debug, Clone, Copy, PartialEq, Eq, Structural)]
pub enum Tone {
    Plain,
    Bold,
    Yellow,
    YellowBold,
    RedBold,
    GreenBold,
}

/// A part of a line.
#[derive(Debug)]
pub struct Span {
    pub text: String,
    pub tone: Tone,
}

/// A line, as its parts from left to right.
#[derive(Debug)]
pub struct Line {
    pub spans: Vec<Span>,
}

/// The mathematical value of a [`Span`].
pub struct SpanView {
    pub text: Seq<char>,
    pub tone: Tone,
}

impl View for Span {
    type V = SpanView;

    open spec fn view(&self) -> SpanView {
        SpanView { text: self.text@, tone: self.tone }
    }
}

impl View for Line {
    type V = Seq<SpanView>;

    open spec fn view(&self) -> Seq<SpanView> {
        self.spans@.map_values(|s: Span| s@)
    }
}

/// The values of a list of lines.
pub open spec fn line_views(lines: Seq<Line>) -> Seq<Seq<SpanView>> {
    lines.map_values(|l: Line| l@)
}

/// The number `n` in at least two digits.
pub open spec fn two_digits(n: nat) -> Seq<char> {
    if n < 10 {
        seq!['0'] + decimal(n)
    } else {
        decimal(n)
    }
}

/// The time `t` as it stands before a message: `[hh:mm] `.
pub open spec fn clock_label(t: Timestamp) -> Seq<char> {
    seq!['['] + two_digits(t.hour as nat) + seq![':'] + two_digits(t.minute as nat) + seq![
        ']',
        ' ',
    ]
}

/// The pieces of `s` between its line ends, after the unfinished piece
/// `current`. There is always at least one piece.
pub open spec fn pieces_after(s: Seq<char>, current: Seq<char>) -> Seq<Seq<char>>
    decreases s.len(),
{
    if s.len() == 0 {
        seq![current]
    } else if s[0] == '\n' {
        seq![current] + pieces_after(s.drop_first(), Seq::empty())
    } else {
        pieces_after(s.drop_first(), current.push(s[0]))
    }
}

/// The pieces of `s` between its line ends.
pub open spec fn split_lines(s: Seq<char>) -> Seq<Seq<char>> {
    pieces_after(s, Seq::empty())
}

/// The line that shows the piece number `i` of a server notice: the first
/// piece stands behind the server's label, every other one is indented.
pub open spec fn server_line(i: int, piece: Seq<char>) -> Seq<SpanView> {
    if i == 0 {
        seq![
            SpanView { text: SERVER_LABEL@, tone: Tone::RedBold },
            SpanView { text: piece, tone: Tone::Plain },
        ]
    } else {
        seq![SpanView { text: INDENT@ + piece, tone: Tone::Plain }]
    }
}

/// The lines that show one message.
pub open spec fn rendered(m: ServerMessageView) -> Seq<Seq<SpanView>> {
    match m.ty {
        MessageTypeView::Public { msg, from } => seq![
            seq![
                SpanView { text: clock_label(m.timestamp), tone: Tone::YellowBold },
                SpanView { text: from + NAME_END@, tone: Tone::Bold },
                SpanView { text: msg, tone: Tone::Plain },
            ],
        ],
        MessageTypeView::Server(contents) => Seq::new(
            split_lines(contents).len(),
            |i: int| server_line(i, split_lines(contents)[i]),
        ),
        MessageTypeView::Private { msg, from } => seq![
            seq![
                SpanView { text: clock_label(m.timestamp), tone: Tone::GreenBold },
                SpanView { text: from + NAME_END@, tone: Tone::GreenBold },
                SpanView { text: msg, tone: Tone::GreenBold },
            ],
        ],
    }
}

/// The lines that show the messages `ms`, one message after the other.
pub open spec fn rendered_all(ms: Seq<ServerMessageView>) -> Seq<Seq<SpanView>>
    decreases ms.len(),
{
    if ms.len() == 0 {
        Seq::empty()
    } else {
        rendered_all(ms.drop_last()) + rendered(ms.last())
    }
}

/// How many lines are scrolled out of sight at the top, so that the newest
/// of `lines` lines are seen in a pane `height` rows high, two of which are
/// its border. The number of lines is counted in sixteen bits.
pub open spec fn scrolled(lines: nat, height: u16) -> nat {
    let room: nat = if height >= 2 {
        (height - 2) as nat
    } else {
        0
    };
    let counted = lines % 65536;
    if counted > room {
        (counted - room) as nat
    } else {
        0
    }
}

/// The line above the messages: who the client is and where, or that it is
/// nobody yet.
pub open spec fn status_of(v: StateView) -> Seq<SpanView> {
    match v.user_data {
        Some(username) => seq![
            SpanView { text: username, tone: Tone::Bold },
            SpanView { text: ROOM_MARK@, tone: Tone::Plain },
            SpanView {
                text: match v.current_tab {
                    Some(room) => room,
                    None => NO_ROOM@,
                },
                tone: Tone::Yellow,
            },
        ],
        None => seq![SpanView { text: NOT_CONNECTED@, tone: Tone::Plain }],
    }
}

/// The lines that show the notes: one plain line each.
pub open spec fn note_lines(notes: Seq<Seq<char>>) -> Seq<Seq<SpanView>> {
    notes.map_values(|note: Seq<char>| seq![SpanView { text: note, tone: Tone::Plain }])
}

/// The mathematical value of a [`Screen`].
pub struct ScreenView {
    pub status: Seq<SpanView>,
    pub messages: Seq<Seq<SpanView>>,
    pub offset: nat,
    pub notes: Seq<Seq<SpanView>>,
    pub show_notes: bool,
}

/// All that is shown at one moment.
#[derive(Debug)]
pub struct Screen {
    /// The line above the messages.
    pub status: Line,
    /// The lines of the room that is shown, oldest first.
    pub messages: Vec<Line>,
    /// How many of them are scrolled out of sight at the top.
    pub offset: u16,
    /// The notes on what happened.
    pub notes: Vec<Line>,
    /// Whether the notes are shown beside the messages.
    pub show_notes: bool,
}

impl View for Screen {
    type V = ScreenView;

    open spec fn view(&self) -> ScreenView {
        ScreenView {
            status: self.status@,
            messages: line_views(self.messages@),
            offset: self.offset as nat,
            notes: line_views(self.notes@),
            show_notes: self.show_notes,
        }
    }
}

/// What the state `v` shows in a message pane `height` rows high.
pub open spec fn screen_of(v: StateView, height: u16) -> ScreenView {
    let shown = match v.current_tab {
        Some(room) => v.messages(room),
        None => Seq::empty(),
    };
    ScreenView {
        status: status_of(v),
        messages: rendered_all(shown),
        offset: scrolled(rendered_all(shown).len(), height),
        notes: note_lines(v.debug_messages),
        show_notes: v.show_debug,
    }
}

fn span(text: String, tone: Tone) -> (r: Span)
    ensures
        r@ == (SpanView { text: text@, tone }),
{
    Span { text, tone }
}

fn line1(a: Span) -> (r: Line)
    ensures
        r@ == seq![a@],
{
    let mut spans: Vec<Span> = Vec::new();
    spans.push(a);
    let r = Line { spans };
    r
}

fn line2(a: Span, b: Span) -> (r: Line)
    ensures
        r@ == seq![a@, b@],
{
    let mut spans: Vec<Span> = Vec::new();
    spans.push(a);
    spans.push(b);
    let r = Line { spans };
    r
}

fn line3(a: Span, b: Span, c: Span) -> (r: Line)
    ensures
        r@ == seq![a@, b@, c@],
{
    let mut spans: Vec<Span> = Vec::new();
    spans.push(a);
    spans.push(b);
    spans.push(c);
    let r = Line { spans };
    r
}

fn two_digit_string(n: u32) -> (r: String)
    ensures
        r@ == two_digits(n as nat),
{
    proof {
        reveal_strlit("0");
    }
    if n < 10 {
        let r = join_texts("0", decimal_string(n as u64).as_str());
        r
    } else {
        decimal_string(n as u64)
    }
}

/// Writes a time as it stands before a message.
pub fn clock_string(t: Timestamp) -> (r: String)
    ensures
        r@ == clock_label(t),
{
    proof {
        reveal_strlit("[");
        reveal_strlit(":");
        reveal_strlit("] ");
    }
    let mut out = String::from_str("[");
    out.append(two_digit_string(t.hour).as_str());
    out.append(":");
    out.append(two_digit_string(t.minute).as_str());
    out.append("] ");
    out
}

/// Cuts a text at its line ends.
pub fn split_at_line_ends(text: &str) -> (r: Vec<String>)
    ensures
        crate::text::texts(r@) == split_lines(text@),
{
    let chars = to_chars(text);
    let n = chars.len();
    let mut out: Vec<String> = Vec::new();
    let mut start: usize = 0;
    let mut i: usize = 0;
    proof {
        let all = split_lines(text@);
        assert(text@.subrange(0, 0) =~= Seq::<char>::empty());
        assert(text@.skip(0) =~= text@);
        assert(crate::text::texts(out@) + all =~= all);
    }
    while i < n
        invariant
            chars@ == text@,
            n == chars.len(),
            start <= i <= n,
            crate::text::texts(out@) + pieces_after(
                text@.skip(i as int),
                text@.subrange(start as int, i as int),
            ) == split_lines(text@),
        decreases n - i,
    {
        let ghost rest = text@.skip(i as int);
        let ghost current = text@.subrange(start as int, i as int);
        assert(rest.drop_first() =~= text@.skip(i + 1));
        if chars[i] == '\n' {
            let piece = String::from_str(text.substring_char(start, i));
            let ghost before = crate::text::texts(out@);
            out.push(piece);
            assert(before + (seq![current] + pieces_after(rest.drop_first(), Seq::empty()))
                =~= (before + seq![current]) + pieces_after(rest.drop_first(), Seq::empty()));
            start = i + 1;
            assert(text@.subrange(start as int, i + 1) =~= Seq::<char>::empty());
        } else {
            assert(text@.subrange(start as int, i + 1) =~= current.push(rest[0]));
        }
        i += 1;
    }
    let piece = String::from_str(text.substring_char(start, n));
    let ghost before = crate::text::texts(out@);
    out.push(piece);
    assert(crate::text::texts(out@) =~= before + seq![text@.subrange(start as int, n as int)]);
    out
}

/// The lines that show one message.
pub fn render_message(message: &ServerMessage) -> (r: Vec<Line>)
    ensures
        line_views(r@) == rendered(message@),
{
    let mut lines: Vec<Line> = Vec::new();
    match &message.ty {
        MessageType::Public { msg, from } => {
            lines.push(
                line3(
                    span(clock_string(message.timestamp), Tone::YellowBold),
                    span(join_texts(from.as_str(), NAME_END), Tone::Bold),
                    span(msg.clone(), Tone::Plain),
                ),
            );
        },
        MessageType::Server(contents) => {
            let pieces = split_at_line_ends(contents.as_str());
            let mut i: usize = 0;
            while i < pieces.len()
                invariant
                    i <= pieces.len(),
                    lines.len() == i,
                    crate::text::texts(pieces@) == split_lines(contents@),
                    forall|k: int|
                        0 <= k < i ==> (#[trigger] lines[k])@ == server_line(k, pieces[k]@),
                decreases pieces.len() - i,
            {
                if i == 0 {
                    lines.push(
                        line2(
                            span(String::from_str(SERVER_LABEL), Tone::RedBold),
                            span(pieces[i].clone(), Tone::Plain),
                        ),
                    );
                } else {
                    lines.push(
                        line1(span(join_texts(INDENT, pieces[i].as_str()), Tone::Plain)),
                    );
                }
                i += 1;
            }
            assert forall|k: int| 0 <= k < lines.len() implies line_views(lines@)[k] == rendered(
                message@,
            )[k] by {
                assert(crate::text::texts(pieces@)[k] == pieces[k]@);
            }
        },
        MessageType::Private { msg, from } => {
            lines.push(
                line3(
                    span(clock_string(message.timestamp), Tone::GreenBold),
                    span(join_texts(from.as_str(), NAME_END), Tone::GreenBold),
                    span(msg.clone(), Tone::GreenBold),
                ),
            );
        },
    }
    lines
}

/// The lines that show a list of messages, one message after the other.
pub fn render_messages(messages: &[ServerMessage]) -> (r: Vec<Line>)
    ensures
        line_views(r@) == rendered_all(messages@.map_values(|m: ServerMessage| m@)),
{
    let ghost all = messages@.map_values(|m: ServerMessage| m@);
    let mut lines: Vec<Line> = Vec::new();
    let mut i: usize = 0;
    proof {
        assert(line_views(lines@) =~= rendered_all(all.take(0)));
    }
    while i < messages.len()
        invariant
            i <= messages.len(),
            all == messages@.map_values(|m: ServerMessage| m@),
            line_views(lines@) == rendered_all(all.take(i as int)),
        decreases messages.len() - i,
    {
        let mut more = render_message(&messages[i]);
        let ghost before = line_views(lines@);
        let ghost added = line_views(more@);
        lines.append(&mut more);
        proof {
            let upto = all.take(i + 1);
            assert(upto.drop_last() =~= all.take(i as int));
            assert(line_views(lines@) =~= before + added);
        }
        i += 1;
    }
    assert(all.take(messages.len() as int) =~= all);
    lines
}

/// How many lines to scroll out of sight at the top.
pub fn scroll_offset(lines: usize, height: u16) -> (r: u16)
    ensures
        r == scrolled(lines as nat, height),
{
    let room: u16 = height.saturating_sub(2);
    let counted: u16 = (lines % 65536) as u16;
    counted.saturating_sub(room)
}

/// The line above the messages.
pub fn status_line(state: &State) -> (r: Line)
    ensures
        r@ == status_of(state@),
{
    match state.username() {
        Some(username) => {
            let room = match state.current_tab() {
                Some(room) => room.clone(),
                None => String::from_str(NO_ROOM),
            };
            line3(
                span(username.clone(), Tone::Bold),
                span(String::from_str(ROOM_MARK), Tone::Plain),
                span(room, Tone::Yellow),
            )
        },
        None => line1(span(String::from_str(NOT_CONNECTED), Tone::Plain)),
    }
}

/// All that the state shows in a message pane `height` rows high.
pub fn ui(state: &State, height: u16) -> (r: Screen)
    requires
        state@.wf(),
    ensures
        r@ == screen_of(state@, height),
{
    let messages = render_messages(state.shown_messages());
    let offset = scroll_offset(messages.len(), height);
    let notes_text = state.debug_messages();
    let mut notes: Vec<Line> = Vec::new();
    let mut i: usize = 0;
    while i < notes_text.len()
        invariant
            i <= notes_text.len(),
            notes.len() == i,
            forall|k: int|
                0 <= k < i ==> (#[trigger] notes[k])@ == seq![
                    SpanView { text: notes_text[k]@, tone: Tone::Plain },
                ],
        decreases notes_text.len() - i,
    {
        notes.push(line1(span(notes_text[i].clone(), Tone::Plain)));
        i += 1;
    }
    proof {
        let want = note_lines(state@.debug_messages);
        assert forall|k: int| 0 <= k < notes.len() implies line_views(notes@)[k] == want[k] by {
            assert(notes_text@.map_values(|s: String| s@)[k] == notes_text[k]@);
        }
        assert(line_views(notes@) =~= want);
    }
    Screen { status: status_line(state), messages, offset, notes, show_notes: state.show_debug() }
}

} // verus!

//! The first screen of the client: one line in which the user types the name
//! to ask for.

use vstd::prelude::*;
use vstd::string::*;
use crate::client::{Connected, Key, RawTask};
use crate::model::{
    ChatMessage, ChatMessageView, Response, ResponseView, ServerResponse, ServerResponseView,
    UserAction, UserActionView,
};

verus! {

/// What to do about a key.
#[derive(Debug)]
pub enum LoginStep {
    /// Put the character at the end of the line.
    Insert(char),
    /// Take the last character off the line.
    DeleteChar,
    /// Send the request and empty the line.
    Submit(RawTask),
    /// Leave the program.
    Quit,
    /// Nothing.
    Ignore,
}

/// The mathematical value of a [`LoginStep`].
pub enum LoginStepView {
    Insert(char),
    DeleteChar,
    Submit(UserActionView),
    Quit,
    Ignore,
}

impl View for LoginStep {
    type V = LoginStepView;

    open spec fn view(&self) -> LoginStepView {
        match self {
            LoginStep::Insert(c) => LoginStepView::Insert(*c),
            LoginStep::DeleteChar => LoginStepView::DeleteChar,
            LoginStep::Submit(task) => LoginStepView::Submit(task.req@),
            LoginStep::Quit => LoginStepView::Quit,
            LoginStep::Ignore => LoginStepView::Ignore,
        }
    }
}

/// The first screen: the line that was typed so far.
#[derive(Debug)]
pub struct Login {
    pub line: String,
}

/// What the key `key` asks for when the line holds `line`: a character is
/// typed, the last one is taken back, the name is sent if there is one, or
/// the program is left.
pub open spec fn login_step(key: Key, line: Seq<char>) -> LoginStepView {
    match key {
        Key::Char(c) => LoginStepView::Insert(c),
        Key::Esc => LoginStepView::Quit,
        Key::Backspace => LoginStepView::DeleteChar,
        Key::Enter => if line.len() > 0 {
            LoginStepView::Submit(UserActionView::Chat(ChatMessageView::Username(line)))
        } else {
            LoginStepView::Ignore
        },
        Key::Tab => LoginStepView::Ignore,
        Key::Other => LoginStepView::Ignore,
    }
}

/// The name in the response `res`, if it is the one that tells a client its
/// name.
pub open spec fn granted_name(res: ResponseView) -> Option<Seq<char>> {
    match res {
        ResponseView::Server(ServerResponseView::JoinedServer { username }) => Some(username),
        _ => None,
    }
}

impl Login {
    /// Decides what to do about a key.
    pub fn input(&self, key: Key) -> (r: LoginStep)
        ensures
            r@ == login_step(key, self.line@),
    {
        match key {
            Key::Char(c) => LoginStep::Insert(c),
            Key::Esc => LoginStep::Quit,
            Key::Backspace => LoginStep::DeleteChar,
            Key::Enter => {
                if !self.line.as_str().is_empty() {
                    LoginStep::Submit(
                        RawTask { req: UserAction::Chat(ChatMessage::Username(self.line.clone())) },
                    )
                } else {
                    LoginStep::Ignore
                }
            },
            Key::Tab => LoginStep::Ignore,
            Key::Other => LoginStep::Ignore,
        }
    }

    /// Ends the first screen when the server has given a name: the response
    /// that says so makes the client connected, and no other response does.
    pub fn joined(res: &Response) -> (r: Option<Connected>)
        ensures
            r is Some <==> granted_name(res@) is Some,
            r matches Some(c) ==> Some(c.username@) == granted_name(res@),
    {
        match res {
            Response::Server(ServerResponse::JoinedServer { username }) => Some(
                Connected { username: username.clone() },
            ),
            _ => None,
        }
    }
}

} // verus!

//! The client's requests to the room server, and where a join attempt stands.

use vstd::prelude::*;
use vstd::string::*;

use crate::text::{decimal, decimal_text};
use crate::types::{str_view, text_view, ChatSendRequest};

verus! {

/// Room connection status
#[derive(Debug, PartialEq)]
pub enum RoomStatus {
    /// Nothing attempted yet (or a previous attempt was abandoned).
    Idle,
    Joining,
    /// Room does not exist yet; the caller must supply a password to claim it.
    NeedPassword,
    /// Room exists and is locked; the password was missing or wrong.
    PasswordRequired,
    /// Room is at capacity.
    Full,
    Connected,
    /// Transport/protocol failure, with a message for the UI.
    Error(String),
}

/// The view of a [`RoomStatus`].
pub enum StatusView {
    Idle,
    Joining,
    NeedPassword,
    PasswordRequired,
    Full,
    Connected,
    Error(Seq<char>),
}

impl View for RoomStatus {
    type V = StatusView;

    open spec fn view(&self) -> StatusView {
        match *self {
            RoomStatus::Idle => StatusView::Idle,
            RoomStatus::Joining => StatusView::Joining,
            RoomStatus::NeedPassword => StatusView::NeedPassword,
            RoomStatus::PasswordRequired => StatusView::PasswordRequired,
            RoomStatus::Full => StatusView::Full,
            RoomStatus::Connected => StatusView::Connected,
            RoomStatus::Error(message) => StatusView::Error(message@),
        }
    }
}

impl Clone for RoomStatus {
    fn clone(&self) -> (copy: Self)
        ensures
            copy == *self,
    {
        match self {
            RoomStatus::Idle => RoomStatus::Idle,
            RoomStatus::Joining => RoomStatus::Joining,
            RoomStatus::NeedPassword => RoomStatus::NeedPassword,
            RoomStatus::PasswordRequired => RoomStatus::PasswordRequired,
            RoomStatus::Full => RoomStatus::Full,
            RoomStatus::Connected => RoomStatus::Connected,
            RoomStatus::Error(message) => RoomStatus::Error(message.clone()),
        }
    }
}

impl RoomStatus {
    /// `Some(true)` when the user should *set* a new room password,
    /// `Some(false)` when they should *enter* an existing one, `None` otherwise.
    pub fn password_prompt(&self) -> (prompt: Option<bool>)
        ensures
            prompt == match self@ {
                StatusView::NeedPassword => Some(true),
                StatusView::PasswordRequired => Some(false),
                _ => None::<bool>,
            },
    {
        match self {
            RoomStatus::NeedPassword => Some(true),
            RoomStatus::PasswordRequired => Some(false),
            _ => None,
        }
    }
}

/// `/api/room/:id/join`
pub open spec fn join_path(room: Seq<char>) -> Seq<char> {
    "/api/room/"@ + room + "/join"@
}

/// The path of a room endpoint that asks for the caller's session.
pub open spec fn session_path(
    room: Seq<char>,
    endpoint: Seq<char>,
    session: Seq<char>,
) -> Seq<char> {
    "/api/room/"@ + room + endpoint + "?session_id="@ + session
}

/// Where to join a room.
pub fn join_url(room: &str) -> (url: String)
    ensures
        url@ == join_path(room@),
{
    "/api/room/".to_owned().concat(room).concat("/join")
}

/// A room endpoint, with the caller's session.
fn session_url(room: &str, endpoint: &str, session: &str) -> (url: String)
    ensures
        url@ == session_path(room@, endpoint@, session@),
{
    "/api/room/".to_owned().concat(room).concat(endpoint).concat("?session_id=").concat(session)
}

/// Where to listen for a room's events.
pub fn events_url(room: &str, session: &str) -> (url: String)
    ensures
        url@ == session_path(room@, "/events"@, session@),
{
    session_url(room, "/events", session)
}

/// Where to send a signal.
pub fn signal_url(room: &str, session: &str) -> (url: String)
    ensures
        url@ == session_path(room@, "/signal"@, session@),
{
    session_url(room, "/signal", session)
}

/// Where to send a chat message.
pub fn chat_url(room: &str, session: &str) -> (url: String)
    ensures
        url@ == session_path(room@, "/chat"@, session@),
{
    session_url(room, "/chat", session)
}

/// The body of a chat message.
pub fn chat_body(text: &str, sender_name: Option<&str>) -> (body: ChatSendRequest)
    ensures
        body.text@ == text@,
        text_view(body.sender_name) == str_view(sender_name),
{
    ChatSendRequest {
        text: text.to_owned(),
        sender_name: match sender_name {
            Some(name) => Some(name.to_owned()),
            None => None,
        },
    }
}

/// What to say of a response that is not a success.
pub fn http_error(status: u16) -> (message: String)
    ensures
        message@ == "HTTP "@ + decimal_text(status as nat),
{
    "HTTP ".to_owned().concat(decimal(status as u64).as_str())
}

} // verus!

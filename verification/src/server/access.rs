//! What a request must bring to be served: a valid room name, and a session that is
//! in the room.

use vstd::prelude::*;
use vstd::string::*;
use vstd::utf8::{is_ascii_chars, is_ascii_chars_encode_utf8};

use crate::server::rooms::RoomView;
use crate::text::same;

verus! {

/// Why a request was not served.
#[derive(Debug, Clone, Copy, PartialEq, Eq, Structural)]
pub enum Refusal {
    BadRequest,
    Forbidden,
    NotFound,
}

impl Refusal {
    /// The HTTP status that says so.
    pub fn status(self) -> (code: u16)
        ensures
            code == match self {
                Refusal::BadRequest => 400u16,
                Refusal::Forbidden => 403u16,
                Refusal::NotFound => 404u16,
            },
    {
        match self {
            Refusal::BadRequest => 400,
            Refusal::Forbidden => 403,
            Refusal::NotFound => 404,
        }
    }
}

/// The characters a room name is made of.
pub open spec fn is_room_char(c: char) -> bool {
    ('a' <= c && c <= 'z') || ('0' <= c && c <= '9') || c == '-'
}

/// Lowercase letters, digits, and hyphens; 3 to 48 of them.
pub open spec fn valid_room_name(name: Seq<char>) -> bool {
    &&& 3 <= name.len() <= 48
    &&& forall|i: int| 0 <= i < name.len() ==> is_room_char(#[trigger] name[i])
}

/// Whether a room may have this name.
pub fn is_valid_room_name(name: &str) -> (valid: bool)
    ensures
        valid == valid_room_name(name@),
{
    let mut all: bool = true;
    for c in it: name.chars()
        invariant
            it.seq() == name@,
            all == forall|i: int| 0 <= i < it.index() ==> is_room_char(#[trigger] name@[i]),
    {
        let ok = ('a' <= c && c <= 'z') || ('0' <= c && c <= '9') || c == '-';
        all = all && ok;
    }
    if !all {
        return false;
    }
    proof {
        assert(is_ascii_chars(name@));
        is_ascii_chars_encode_utf8(name@);
    }
    let len: usize = name.as_bytes().len();
    3 <= len && len <= 48
}

/// The value of a query parameter: where it is repeated, the last one counts.
pub open spec fn query_value(params: Seq<(String, String)>, key: Seq<char>) -> Option<Seq<char>>
    decreases params.len(),
{
    if params.len() == 0 {
        None
    } else if params.last().0@ == key {
        Some(params.last().1@)
    } else {
        query_value(params.drop_last(), key)
    }
}

/// The session a request names; an empty one names none.
pub open spec fn session_of(params: Seq<(String, String)>) -> Option<Seq<char>> {
    match query_value(params, "session_id"@) {
        Some(id) => if id.len() == 0 {
            None
        } else {
            Some(id)
        },
        None => None,
    }
}

/// The session id in the query, or a refusal where it is missing or empty.
pub fn require_session(params: &Vec<(String, String)>) -> (session: Result<&str, Refusal>)
    ensures
        match session {
            Ok(id) => session_of(params@) == Some(id@),
            Err(refusal) => session_of(params@) is None && refusal == Refusal::BadRequest,
        },
{
    let mut i: usize = params.len();
    assert(params@.take(i as int) =~= params@);
    while i > 0
        invariant
            i <= params.len(),
            query_value(params@, "session_id"@) == query_value(
                params@.take(i as int),
                "session_id"@,
            ),
        decreases i,
    {
        i -= 1;
        let ghost seen = params@.take(i + 1);
        assert(seen.drop_last() =~= params@.take(i as int));
        if same(params[i].0.as_str(), "session_id") {
            let id = params[i].1.as_str();
            return if id.is_empty() {
                Err(Refusal::BadRequest)
            } else {
                Ok(id)
            };
        }
    }
    Err(Refusal::BadRequest)
}

/// Why a session may not act in a room, if it may not.
pub open spec fn refusal(
    rooms: Map<Seq<char>, RoomView>,
    room_id: Seq<char>,
    session: Option<Seq<char>>,
) -> Option<Refusal> {
    match session {
        None => Some(Refusal::BadRequest),
        Some(id) => if !rooms.contains_key(room_id) {
            Some(Refusal::NotFound)
        } else if !rooms[room_id].is_participant(id) {
            Some(Refusal::Forbidden)
        } else {
            None
        },
    }
}

} // verus!

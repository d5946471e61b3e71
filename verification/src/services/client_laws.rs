//! What the client asks of the server, what it says of the answers, and who it is.

use vstd::prelude::*;
use vstd::utf8::{encode_utf8, is_ascii_chars, is_ascii_chars_encode_utf8};

use crate::services::ice::{candidate_signal, ice_configuration, server_for, IceServer};
use crate::services::signaling::{
    chat_body, chat_url, events_url, http_error, join_url, signal_url, RoomStatus,
};
use crate::services::webrtc::IceCandidate;
use crate::services::{is_usable_id, is_uuid_v4, kept_or_new_id, session_id, SessionStore};
use crate::text::decimal_text;
use crate::types::{
    text_view, text_views, ChatSendRequest, SignalMessage, SignalView, TurnCredentials,
};

verus! {

/// Each endpoint lies under its room, and says whose session asks wherever one is needed.
pub proof fn law_endpoints_lie_under_their_room(
    room: &str,
    session: &str,
    join: String,
    events: String,
    signal: String,
    chat: String,
)
    requires
        call_ensures(join_url, (room,), join),
        call_ensures(events_url, (room, session), events),
        call_ensures(signal_url, (room, session), signal),
        call_ensures(chat_url, (room, session), chat),
    ensures
        join@ == "/api/room/"@ + room@ + "/join"@,
        events@ == "/api/room/"@ + room@ + "/events"@ + "?session_id="@ + session@,
        signal@ == "/api/room/"@ + room@ + "/signal"@ + "?session_id="@ + session@,
        chat@ == "/api/room/"@ + room@ + "/chat"@ + "?session_id="@ + session@,
{
}

/// A chat message is posted as it is, under the name that is given.
pub proof fn law_chat_is_posted_as_it_is(
    text: &str,
    sender_name: Option<&str>,
    body: ChatSendRequest,
)
    requires
        call_ensures(chat_body, (text, sender_name), body),
    ensures
        body.text@ == text@,
        sender_name matches Some(name) ==> text_view(body.sender_name) == Some(name@),
        sender_name is None ==> body.sender_name is None,
{
}

/// An answer that is no success is told by its status.
pub proof fn law_a_failure_is_told_by_its_status(status: u16, message: String)
    requires
        call_ensures(http_error, (status,), message),
    ensures
        message@ == "HTTP "@ + decimal_text(status as nat),
{
}

/// A password is asked for in a new room, to set one, and in a locked one, to enter it;
/// nowhere else.
pub proof fn law_passwords_are_set_or_entered(status: RoomStatus, prompt: Option<bool>)
    requires
        call_ensures(RoomStatus::password_prompt, (&status,), prompt),
    ensures
        prompt == Some(true) <==> status is NeedPassword,
        prompt == Some(false) <==> status is PasswordRequired,
        prompt is None <==> !(status is NeedPassword || status is PasswordRequired),
{
}

/// Connections use the servers that were handed out, all of them and as whoever they were
/// handed out to, and a public one just where none were.
pub proof fn law_the_servers_handed_out_are_used(
    creds: Result<TurnCredentials, String>,
    server: IceServer,
)
    requires
        call_ensures(ice_configuration, (creds,), server),
    ensures
        server@ == server_for(creds),
        creds is Ok && creds->Ok_0.urls@.len() > 0 ==> {
            &&& text_views(server.urls@) == text_views(creds->Ok_0.urls@)
            &&& creds->Ok_0.username@.len() > 0 ==> (server.login matches Some(login)
                && login.username@ == creds->Ok_0.username@ && login.credential@
                == creds->Ok_0.credential@)
            &&& creds->Ok_0.username@.len() == 0 ==> server.login is None
        },
        creds is Err || creds->Ok_0.urls@.len() == 0 ==> {
            &&& server.urls@.len() == 1
            &&& server.urls@[0]@ == "stun:stun.l.google.com:19302"@
            &&& server.login is None
        },
{
    assert(server@.urls == text_views(server.urls@));
    if creds is Err || creds->Ok_0.urls@.len() == 0 {
        assert(text_views(server.urls@).len() == 1);
        assert(text_views(server.urls@)[0] == server.urls@[0]@);
    } else {
        assert(server@.login is Some <==> server.login is Some);
    }
}

/// A candidate is told to the peer as it was gathered, and the end of gathering is not
/// told.
pub proof fn law_candidates_are_told_as_gathered(
    to: &str,
    candidate: Option<IceCandidate>,
    signal: Option<SignalMessage>,
)
    requires
        call_ensures(candidate_signal, (to, candidate), signal),
    ensures
        signal is Some <==> candidate is Some,
        candidate matches Some(c) ==> signal->0@ == (SignalView::IceCandidate {
            to: to@,
            candidate: c.candidate@,
            sdp_mid: text_view(c.sdp_mid),
            sdp_mline_index: c.sdp_mline_index,
        }),
{
}

/// An id can be used again just where it takes 8 bytes or more.
pub proof fn law_an_id_is_usable_from_eight_bytes(id: Seq<char>)
    ensures
        is_usable_id(id) <==> encode_utf8(id).len() >= 8,
        is_ascii_chars(id) ==> (is_usable_id(id) <==> id.len() >= 8),
{
    if is_ascii_chars(id) {
        is_ascii_chars_encode_utf8(id);
    }
}

/// Whoever has an id that can be used keeps it, and it is not kept anew; anyone else gets
/// a new one, which is kept wherever something can be.
pub proof fn law_an_id_is_kept_where_it_can_be(
    store: SessionStore,
    id: (String, bool),
    kept: Option<String>,
    other: (String, bool),
)
    requires
        call_ensures(session_id, (store,), id),
        call_ensures(kept_or_new_id, (kept,), other),
    ensures
        store is Unavailable ==> is_uuid_v4(id.0@) && !id.1,
        store matches SessionStore::Item(item) ==> {
            &&& item is Some && encode_utf8(item->0@).len() >= 8 ==> id.0@ == item->0@ && !id.1
            &&& item is Some && encode_utf8(item->0@).len() < 8 ==> is_uuid_v4(id.0@) && id.1
            &&& item is None ==> is_uuid_v4(id.0@) && id.1
        },
        kept is Some && encode_utf8(kept->0@).len() >= 8 ==> other.0@ == kept->0@ && !other.1,
        kept is Some && encode_utf8(kept->0@).len() < 8 ==> is_uuid_v4(other.0@) && other.1,
        kept is None ==> is_uuid_v4(other.0@) && other.1,
        is_usable_id(id.0@),
        is_usable_id(other.0@),
{
    if is_uuid_v4(id.0@) {
        crate::services::law_a_new_id_is_kept(id.0@);
    }
    if is_uuid_v4(other.0@) {
        crate::services::law_a_new_id_is_kept(other.0@);
    }
}

/// A reload keeps the participant's slot: the id that one call gave, put into storage, is
/// the id that the next call gives.
pub proof fn law_a_reload_keeps_the_slot(
    store: SessionStore,
    id: (String, bool),
    again: (String, bool),
)
    requires
        call_ensures(session_id, (store,), id),
        call_ensures(session_id, (SessionStore::Item(Some(id.0)),), again),
    ensures
        again.0@ == id.0@,
        !again.1,
{
    if is_uuid_v4(id.0@) {
        crate::services::law_a_new_id_is_kept(id.0@);
    }
}

/// A new id is a random UUID as it is written: five groups of hexadecimal digits, with the
/// version and the variant in their places.
pub proof fn law_a_new_id_is_a_random_uuid(id: Seq<char>, i: int)
    requires
        is_uuid_v4(id),
        0 <= i < 36,
    ensures
        id.len() == 36,
        id[14] == '4',
        id[19] == '8' || id[19] == '9' || id[19] == 'a' || id[19] == 'b',
        i == 8 || i == 13 || i == 18 || i == 23 <==> id[i] == '-',
        id[i] == '-' || '0' <= id[i] <= '9' || 'a' <= id[i] <= 'f',
{
}

} // verus!

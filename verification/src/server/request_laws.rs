//! What the server's answers are for: who is served, what is kept, and what is told.

use tokio::sync::broadcast::Receiver;
use vstd::prelude::*;
use vstd::utf8::encode_utf8;

use crate::server::access::{
    is_room_char, is_valid_room_name, query_value, refusal, require_session, session_of,
    valid_room_name, Refusal,
};
use crate::server::chat::{latest, ChatStore, InMemoryChat, MAX_MESSAGES_PER_ROOM};
use crate::server::config::{
    stylesheet_path, turn_settings, TurnSettings, DEFAULT_TURN_PORT, MAX_PARTICIPANTS,
};
use crate::server::mailbox::passed_over;
use crate::server::rooms::{RoomView, SSE_BUFFER_SIZE};
use crate::server::turn::{
    are_credentials, base64_standard, generate_credentials, hash_id, hmac_sha1, sha256,
};
use crate::server::{
    after_chat, after_opening, after_request, answers_chat, answers_join, answers_opening,
    answers_signal, chat_entry, chat_event, chat_refusal, handle_chat_history, handle_turn,
    is_snapshot, join_outcome, joined_event, relayed, room_after_signal, stream_item, AppState,
    Request, StreamEnd, HISTORY_MESSAGES, MAX_NAME_CHARS, MAX_PASSWORD_BYTES, MAX_TEXT_CHARS,
    RESYNC_MESSAGES, TURN_TTL_SECS,
};
use crate::text::{decimal_text, hex_bytes};
use crate::types::{
    chat_views, text_view, text_views, ChatMessage, ChatSendRequest, ChatView, EventView,
    JoinRequest, JoinResponse, SignalView, SseEvent, TurnCredentials,
};

verus! {

/// The limits that the documentation names.
pub proof fn law_limits_are_as_documented()
    ensures
        MAX_PASSWORD_BYTES == 128,
        MAX_NAME_CHARS == 64,
        MAX_TEXT_CHARS == 2000,
        RESYNC_MESSAGES == 50,
        HISTORY_MESSAGES == 100,
        MAX_MESSAGES_PER_ROOM == 200,
        TURN_TTL_SECS == 3600,
        SSE_BUFFER_SIZE == 128,
        MAX_PARTICIPANTS == 4,
        DEFAULT_TURN_PORT == 3478,
{
}

/// A name is one for a room just where it has 3 to 48 characters and each of them is a
/// lowercase letter, a digit or a hyphen.
pub proof fn law_room_names_are_letters_digits_and_hyphens(name: &str, valid: bool)
    requires
        call_ensures(is_valid_room_name, (name,), valid),
    ensures
        valid == valid_room_name(name@),
        valid <==> 3 <= name@.len() <= 48 && forall|i: int|
            0 <= i < name@.len() ==> ('a' <= #[trigger] name@[i] <= 'z' || '0' <= name@[i] <= '9'
                || name@[i] == '-'),
{
    if 3 <= name@.len() <= 48 && forall|i: int|
        0 <= i < name@.len() ==> ('a' <= #[trigger] name@[i] <= 'z' || '0' <= name@[i] <= '9'
            || name@[i] == '-') {
        assert forall|i: int| 0 <= i < name@.len() implies is_room_char(#[trigger] name@[i]) by {}
    }
    if valid {
        assert forall|i: int| 0 <= i < name@.len() implies ('a' <= #[trigger] name@[i] <= 'z'
            || '0' <= name@[i] <= '9' || name@[i] == '-') by {
            assert(is_room_char(name@[i]));
        }
    }
}

/// A name that is one for a room stays one with a character replaced by another allowed
/// one, and any part of it that is long enough is one too.
pub proof fn law_parts_of_room_names_are_room_names(
    name: Seq<char>,
    at: int,
    c: char,
    from: int,
    to: int,
)
    requires
        valid_room_name(name),
        0 <= at < name.len(),
        'a' <= c <= 'z' || '0' <= c <= '9' || c == '-',
        0 <= from,
        from + 3 <= to <= name.len(),
    ensures
        valid_room_name(name.update(at, c)),
        valid_room_name(name.subrange(from, to)),
{
    assert forall|i: int| 0 <= i < name.len() implies is_room_char(
        #[trigger] name.update(at, c)[i],
    ) by {
        if i != at {
            assert(is_room_char(name[i]));
        }
    }
    let part = name.subrange(from, to);
    assert forall|i: int| 0 <= i < part.len() implies is_room_char(#[trigger] part[i]) by {
        assert(is_room_char(name[from + i]));
    }
}

/// The value that a query gives last counts, whatever it gave before.
pub proof fn law_the_last_value_of_a_query_counts(
    params: Seq<(String, String)>,
    last: (String, String),
    key: Seq<char>,
)
    ensures
        query_value(params.push(last), key) == if last.0@ == key {
            Some(last.1@)
        } else {
            query_value(params, key)
        },
        query_value(Seq::empty(), key) is None,
{
    assert(params.push(last).drop_last() =~= params);
}

/// A request acts as the session that its query names; one that names none, or an empty
/// one, is a bad request.
pub proof fn law_a_request_acts_as_the_session_it_names(
    params: Vec<(String, String)>,
    session: Result<&str, Refusal>,
)
    requires
        call_ensures(require_session, (&params,), session),
    ensures
        session matches Ok(id) ==> id@.len() > 0 && query_value(params@, "session_id"@) == Some(
            id@,
        ) && session_of(params@) == Some(id@),
        session matches Err(why) ==> why == Refusal::BadRequest && (query_value(
            params@,
            "session_id"@,
        ) matches Some(id) ==> id.len() == 0),
{
}

/// Each refusal has its reason: no session, no such room, or not a participant of it.
pub proof fn law_refusals_have_their_reasons(
    rooms: Map<Seq<char>, RoomView>,
    room_id: Seq<char>,
    id: Seq<char>,
)
    ensures
        refusal(rooms, room_id, None) == Some(Refusal::BadRequest),
        !rooms.contains_key(room_id) ==> refusal(rooms, room_id, Some(id)) == Some(
            Refusal::NotFound,
        ),
        rooms.contains_key(room_id) && !rooms[room_id].inboxes.contains_key(id) ==> refusal(
            rooms,
            room_id,
            Some(id),
        ) == Some(Refusal::Forbidden),
        rooms.contains_key(room_id) && rooms[room_id].inboxes.contains_key(id) ==> refusal(
            rooms,
            room_id,
            Some(id),
        ) is None,
{
}

/// Each refusal has its status.
pub proof fn law_refusals_have_their_status(why: Refusal, code: u16)
    requires
        call_ensures(Refusal::status, (why,), code),
    ensures
        why == Refusal::BadRequest <==> code == 400,
        why == Refusal::Forbidden <==> code == 403,
        why == Refusal::NotFound <==> code == 404,
{
}

/// A chat message is refused of whoever may not act in the room, and of others just where
/// it says nothing.
pub proof fn law_only_an_empty_message_of_a_participant_is_refused(
    rooms: Map<Seq<char>, RoomView>,
    room_id: Seq<char>,
    session: Option<Seq<char>>,
    text: Seq<char>,
)
    ensures
        refusal(rooms, room_id, session) is Some ==> chat_refusal(rooms, room_id, session, text)
            == refusal(rooms, room_id, session),
        refusal(rooms, room_id, session) is None ==> (chat_refusal(rooms, room_id, session, text)
            is None <==> text.len() > 0),
        refusal(rooms, room_id, session) is None && text.len() == 0 ==> chat_refusal(
            rooms,
            room_id,
            session,
            text,
        ) == Some(Refusal::BadRequest),
{
}

/// A chat message is kept and told as it was sent: by whom, under which name, when, and
/// the whole text where it fits, its first 2000 characters where it does not.
pub proof fn law_chat_is_kept_as_it_was_sent(
    room_id: Seq<char>,
    sender_id: Seq<char>,
    body: ChatSendRequest,
    timestamp_ms: u64,
)
    ensures
        ({
            let kept = chat_entry(room_id, sender_id, body, timestamp_ms);
            &&& kept.room == room_id
            &&& kept.sender_id == sender_id
            &&& kept.sender_name == text_view(body.sender_name)
            &&& kept.timestamp_ms == timestamp_ms
            &&& kept.text.is_prefix_of(body.text@)
            &&& kept.text.len() == if body.text@.len() <= 2000 {
                body.text@.len()
            } else {
                2000
            }
            &&& chat_event(kept) == (EventView::ChatMessage {
                from: sender_id,
                sender_name: text_view(body.sender_name),
                text: kept.text,
                timestamp_ms,
            })
        }),
{
}

/// What is asked for of a log is its end: as many messages as there are, up to the limit,
/// in their order.
pub proof fn law_the_latest_are_the_end_of_the_log(log: Seq<ChatView>, limit: nat, i: int)
    ensures
        latest(log, limit).len() == if log.len() <= limit {
            log.len()
        } else {
            limit
        },
        0 <= i < latest(log, limit).len() ==> latest(log, limit)[i] == log[log.len() - latest(
            log,
            limit,
        ).len() + i],
{
}

/// A log grows by one message at a time until it holds 200; from then on the oldest makes
/// way for the newest, and everything in between stays.
pub proof fn law_a_full_log_lets_its_oldest_go(log: Seq<ChatView>, msg: ChatView, i: int)
    requires
        log.len() <= 200,
    ensures
        ({
            let kept = InMemoryChat::kept(log, msg);
            &&& kept.len() == if log.len() < 200 {
                log.len() + 1
            } else {
                200
            }
            &&& kept.last() == msg
            &&& 0 <= i < kept.len() - 1 ==> kept[i] == log[log.len() - kept.len() + 1 + i]
        }),
{
}

/// The history endpoint serves participants the last 100 messages, and refuses everyone
/// else.
pub proof fn law_history_is_for_participants<C: ChatStore>(
    state: AppState<C>,
    room_id: &str,
    params: Vec<(String, String)>,
    served: Result<Vec<ChatMessage>, Refusal>,
)
    requires
        state.wf(),
        call_ensures(handle_chat_history::<C>, (&state, room_id, &params), served),
    ensures
        served is Ok <==> refusal(state.rooms(), room_id@, session_of(params@)) is None,
        served matches Ok(messages) ==> {
            let log = state.log(room_id@);
            &&& messages@.len() == if log.len() <= 100 {
                log.len()
            } else {
                100
            }
            &&& forall|i: int|
                0 <= i < messages@.len() ==> (#[trigger] messages@[i])@ == log[log.len()
                    - messages@.len() + i]
        },
        served matches Err(why) ==> refusal(state.rooms(), room_id@, session_of(params@)) == Some(
            why,
        ),
{
    if served is Ok {
        let messages = served->Ok_0;
        assert(chat_views(messages@).len() == messages@.len());
        assert forall|i: int| 0 <= i < messages@.len() implies (#[trigger] messages@[i])@
            == state.log(room_id@)[state.log(room_id@).len() - messages@.len() + i] by {
            assert(chat_views(messages@)[i] == messages@[i]@);
        }
    }
}

/// Whoever is let in is told its own id, everyone who was there before, each once, and
/// the last 50 messages; and nobody else is told any of that.
pub proof fn law_who_is_let_in_is_told_who_is_there(
    response: Result<JoinResponse, Refusal>,
    rooms: Map<Seq<char>, RoomView>,
    max_participants: nat,
    log: Seq<ChatView>,
    room_id: Seq<char>,
    req: JoinRequest,
    id: Seq<char>,
)
    requires
        answers_join(response, rooms, max_participants, log, room_id, req),
    ensures
        (response matches Ok(JoinResponse::Joined { .. })) <==> join_outcome(
            rooms,
            max_participants,
            room_id,
            req,
        ) is Joined,
        (response matches Ok(JoinResponse::Full { .. })) <==> join_outcome(
            rooms,
            max_participants,
            room_id,
            req,
        ) is Full,
        (response matches Ok(JoinResponse::NeedPassword { .. })) <==> join_outcome(
            rooms,
            max_participants,
            room_id,
            req,
        ) is NeedPassword,
        (response matches Ok(JoinResponse::PasswordRequired { .. })) <==> join_outcome(
            rooms,
            max_participants,
            room_id,
            req,
        ) is PasswordRequired,
        response matches Err(why) ==> why == Refusal::BadRequest,
        response matches Ok(JoinResponse::Joined { self_id, peers, chat }) ==> {
            &&& self_id@ == req.session_id@
            &&& text_views(peers@).no_duplicates()
            &&& text_views(peers@).contains(id) == (rooms.contains_key(room_id)
                && rooms[room_id].inboxes.contains_key(id))
            &&& chat@.len() == if log.len() <= 50 {
                log.len()
            } else {
                50
            }
            &&& forall|i: int|
                0 <= i < chat@.len() ==> (#[trigger] chat@[i])@ == log[log.len() - chat@.len() + i]
        },
{
    if response is Ok && response->Ok_0 is Joined {
        let peers = response->Ok_0->peers;
        let chat = response->Ok_0->Joined_chat;
        assert(text_views(peers@).to_set().contains(id) == text_views(peers@).contains(id));
        assert(chat_views(chat@).len() == chat@.len());
        assert forall|i: int| 0 <= i < chat@.len() implies (#[trigger] chat@[i])@ == log[log.len()
            - chat@.len() + i] by {
            assert(chat_views(chat@)[i] == chat@[i]@);
        }
    }
}

/// A stream starts with the room as it is: everyone but the one who listens, each once and
/// under its own name, and the last 50 messages.
pub proof fn law_a_snapshot_shows_the_room_as_it_is(
    event: EventView,
    room: RoomView,
    session_id: Seq<char>,
    log: Seq<ChatView>,
    k: int,
)
    requires
        is_snapshot(event, room, session_id, log),
    ensures
        event matches EventView::Resync { peers, chat } && {
            &&& 0 <= k < peers.len() ==> {
                &&& room.inboxes.contains_key(peers[k].peer_id)
                &&& peers[k].peer_id != session_id
                &&& peers[k].peer_name == if room.names.contains_key(peers[k].peer_id) {
                    Some(room.names[peers[k].peer_id])
                } else {
                    None
                }
            }
            &&& forall|i: int, j: int|
                #![trigger peers[i], peers[j]]
                0 <= i < j < peers.len() ==> peers[i].peer_id != peers[j].peer_id
            &&& forall|id: Seq<char>| #[trigger]
                room.inboxes.contains_key(id) && id != session_id ==> exists|i: int|
                    0 <= i < peers.len() && (#[trigger] peers[i]).peer_id == id
            &&& chat.len() == if log.len() <= 50 {
                log.len()
            } else {
                50
            }
            &&& forall|i: int|
                0 <= i < chat.len() ==> #[trigger] chat[i] == log[log.len() - chat.len() + i]
        },
{
    let peers = event->peers;
    if 0 <= k < peers.len() {
        assert(room.is_participant(peers[k].peer_id));
    }
    assert forall|i: int, j: int|
        #![trigger peers[i], peers[j]]
        0 <= i < j < peers.len() implies peers[i].peer_id != peers[j].peer_id by {
        let a = peers[i].peer_id;
        let b = peers[j].peer_id;
        assert(a != b);
    }
    assert forall|id: Seq<char>| #[trigger]
        room.inboxes.contains_key(id) && id != session_id implies exists|i: int|
        0 <= i < peers.len() && (#[trigger] peers[i]).peer_id == id by {
        assert(room.is_participant(id));
        let i = choose|i: int| 0 <= i < peers.len() && #[trigger] peers[i].peer_id == id;
        assert(peers[i].peer_id == id);
    }
}

/// A participant is announced under its id, with the name it gave.
pub proof fn law_a_participant_is_announced_by_name(room: RoomView, session_id: Seq<char>)
    ensures
        joined_event(room, session_id) matches EventView::PeerJoined { peer_id, peer_name } && {
            &&& peer_id == session_id
            &&& room.names.contains_key(session_id) ==> peer_name == Some(room.names[session_id])
            &&& !room.names.contains_key(session_id) ==> peer_name is None
        },
{
}

/// A signal comes out as it went in: the same description or candidate, from whoever sent
/// it, to the participant it names; and one that names nobody goes to nobody.
pub proof fn law_signals_come_out_as_they_went_in(
    to: Seq<char>,
    from: Seq<char>,
    sdp: Seq<char>,
    candidate: Seq<char>,
    sdp_mid: Option<Seq<char>>,
    sdp_mline_index: Option<u16>,
)
    ensures
        relayed(SignalView::Offer { to, sdp }, from) == Some((to, EventView::Offer { from, sdp })),
        relayed(SignalView::Answer { to, sdp }, from) == Some(
            (to, EventView::Answer { from, sdp }),
        ),
        relayed(SignalView::IceCandidate { to, candidate, sdp_mid, sdp_mline_index }, from)
            == Some((to, EventView::IceCandidate { from, candidate, sdp_mid, sdp_mline_index })),
        relayed(SignalView::Renegotiate, from) is None,
{
}

/// A signal to somebody who is not in the room changes nothing, and one to somebody who is
/// adds one event to their inbox.
pub proof fn law_a_signal_is_one_event_for_one_participant(
    room: RoomView,
    signal: SignalView,
    from: Seq<char>,
    to: Seq<char>,
    event: EventView,
)
    requires
        relayed(signal, from) == Some((to, event)),
    ensures
        !room.inboxes.contains_key(to) ==> room_after_signal(room, signal, from) == room,
        room.inboxes.contains_key(to) ==> room_after_signal(room, signal, from).inboxes
            == room.inboxes.insert(to, room.inboxes[to].push(event)),
        room.after_send_to(to, event) == room_after_signal(room, signal, from),
{
}

/// What is told or signalled in one room concerns no other, and takes nobody out or in.
pub proof fn law_requests_concern_their_own_room(
    rooms: Map<Seq<char>, RoomView>,
    max_participants: nat,
    room_id: Seq<char>,
    event: EventView,
    exclude: Option<Seq<char>>,
    signal: SignalView,
    from: Seq<char>,
    other: Seq<char>,
    id: Seq<char>,
)
    requires
        rooms.contains_key(room_id),
    ensures
        ({
            let told = after_request(
                rooms,
                max_participants,
                Request::Tell { room_id, event, exclude },
            );
            let signalled = after_request(
                rooms,
                max_participants,
                Request::Signal { room_id, signal, from },
            );
            &&& told.dom() == rooms.dom() && signalled.dom() == rooms.dom()
            &&& other != room_id && rooms.contains_key(other) ==> told[other] == rooms[other]
                && signalled[other] == rooms[other]
            &&& told[room_id].inboxes.contains_key(id) == rooms[room_id].inboxes.contains_key(id)
            &&& signalled[room_id].inboxes.contains_key(id) == rooms[room_id].inboxes.contains_key(
                id,
            )
            &&& rooms[room_id].inboxes.contains_key(id) ==> told[room_id].inboxes[id]
                == if exclude == Some(id) {
                rooms[room_id].inboxes[id]
            } else {
                rooms[room_id].inboxes[id].push(event)
            }
        }),
{
    let told = after_request(rooms, max_participants, Request::Tell { room_id, event, exclude });
    let signalled = after_request(
        rooms,
        max_participants,
        Request::Signal { room_id, signal, from },
    );
    assert(told.dom() =~= rooms.dom());
    assert(signalled.dom() =~= rooms.dom());
}

/// Whoever opens its stream is announced to everyone else in its room, once, and is not
/// told of itself; no other room hears of it.
pub proof fn law_who_listens_is_announced_to_the_others(
    rooms: Map<Seq<char>, RoomView>,
    max_participants: nat,
    room_id: Seq<char>,
    session_id: Seq<char>,
    id: Seq<char>,
    other: Seq<char>,
)
    requires
        rooms.contains_key(room_id),
        rooms[room_id].inboxes.contains_key(id),
    ensures
        ({
            let after = after_opening(rooms, max_participants, room_id, session_id);
            &&& after[room_id].inboxes.contains_key(id)
            &&& id == session_id ==> after[room_id].inboxes[id] == rooms[room_id].inboxes[id]
            &&& id != session_id ==> {
                let inbox = after[room_id].inboxes[id];
                &&& inbox.len() == rooms[room_id].inboxes[id].len() + 1
                &&& inbox.drop_last() == rooms[room_id].inboxes[id]
                &&& inbox.last() matches EventView::PeerJoined { peer_id, peer_name }
                &&& peer_id == session_id
                &&& rooms[room_id].names.contains_key(session_id) ==> peer_name == Some(
                    rooms[room_id].names[session_id],
                )
                &&& !rooms[room_id].names.contains_key(session_id) ==> peer_name is None
            }
            &&& after[room_id].names == rooms[room_id].names
            &&& after[room_id].password == rooms[room_id].password
            &&& other != room_id && rooms.contains_key(other) ==> after[other] == rooms[other]
        }),
{
    let after = after_opening(rooms, max_participants, room_id, session_id);
    if id != session_id {
        assert(after[room_id].inboxes[id].drop_last() =~= rooms[room_id].inboxes[id]);
    }
}

/// A chat message reaches everyone in its room, its sender too, once, and no other room
/// hears of it.
pub proof fn law_chat_reaches_everyone_in_the_room(
    rooms: Map<Seq<char>, RoomView>,
    max_participants: nat,
    msg: ChatView,
    id: Seq<char>,
    other: Seq<char>,
)
    requires
        rooms.contains_key(msg.room),
        rooms[msg.room].inboxes.contains_key(id),
    ensures
        ({
            let after = after_chat(rooms, max_participants, msg);
            let told = EventView::ChatMessage {
                from: msg.sender_id,
                sender_name: msg.sender_name,
                text: msg.text,
                timestamp_ms: msg.timestamp_ms,
            };
            &&& after[msg.room].inboxes.contains_key(id)
            &&& after[msg.room].inboxes[id] == rooms[msg.room].inboxes[id].push(told)
            &&& after[msg.room].names == rooms[msg.room].names
            &&& after[msg.room].password == rooms[msg.room].password
            &&& other != msg.room && rooms.contains_key(other) ==> after[other] == rooms[other]
        }),
{
}

/// A signal is relayed just for participants: its addressee finds it at the end of the
/// inbox, under its sender's id, and nobody else finds anything.
pub proof fn law_a_signal_is_relayed_for_participants(
    done: Result<(), Refusal>,
    rooms: Map<Seq<char>, RoomView>,
    max_participants: nat,
    room_id: Seq<char>,
    from: Seq<char>,
    to: Seq<char>,
    sdp: Seq<char>,
    next: Map<Seq<char>, RoomView>,
    id: Seq<char>,
)
    requires
        answers_signal(
            done,
            rooms,
            max_participants,
            room_id,
            Some(from),
            SignalView::Offer { to, sdp },
            next,
        ),
    ensures
        done is Ok <==> rooms.contains_key(room_id) && rooms[room_id].inboxes.contains_key(from),
        done is Err ==> next == rooms,
        done is Ok && rooms[room_id].inboxes.contains_key(id) ==> {
            &&& next[room_id].inboxes.contains_key(id)
            &&& next[room_id].inboxes[id] == if id == to {
                rooms[room_id].inboxes[id].push(EventView::Offer { from, sdp })
            } else {
                rooms[room_id].inboxes[id]
            }
        },
{
}

/// Who may not act in a room signals nothing there.
pub proof fn law_strangers_signal_nothing(
    done: Result<(), Refusal>,
    rooms: Map<Seq<char>, RoomView>,
    max_participants: nat,
    room_id: Seq<char>,
    session: Option<Seq<char>>,
    signal: SignalView,
    next: Map<Seq<char>, RoomView>,
)
    requires
        answers_signal(done, rooms, max_participants, room_id, session, signal, next),
    ensures
        session is None ==> done == Err::<(), Refusal>(Refusal::BadRequest),
        session matches Some(from) && !rooms.contains_key(room_id) ==> done == Err::<(), Refusal>(
            Refusal::NotFound,
        ),
        session is Some && rooms.contains_key(room_id)
            && !rooms[room_id].inboxes.contains_key(session->0) ==> done == Err::<(), Refusal>(
            Refusal::Forbidden,
        ),
        done is Err ==> next == rooms,
        done is Ok ==> next.contains_key(room_id) && next[room_id] == room_after_signal(
            rooms[room_id],
            signal,
            session->0,
        ),
{
}

/// A stream opens just for participants; it passes over what was posted to them before,
/// and starts with the room as it is.
pub proof fn law_a_stream_opens_for_participants(
    opened: Result<(Receiver<SseEvent>, SseEvent), Refusal>,
    rooms: Map<Seq<char>, RoomView>,
    max_participants: nat,
    log: Seq<ChatView>,
    room_id: Seq<char>,
    id: Seq<char>,
    next: Map<Seq<char>, RoomView>,
)
    requires
        answers_opening(opened, rooms, max_participants, log, room_id, Some(id), next),
    ensures
        opened is Ok <==> rooms.contains_key(room_id) && rooms[room_id].inboxes.contains_key(id),
        opened is Err ==> next == rooms && opened->Err_0 == if rooms.contains_key(room_id) {
            Refusal::Forbidden
        } else {
            Refusal::NotFound
        },
        opened is Ok ==> {
            &&& passed_over(opened->Ok_0.0) == rooms[room_id].inboxes[id]
            &&& passed_over(opened->Ok_0.0) == next[room_id].inboxes[id]
            &&& is_snapshot(opened->Ok_0.1@, rooms[room_id], id, log)
            &&& next == after_opening(rooms, max_participants, room_id, id)
        },
{
}

/// A chat message of a participant that says something is kept at the end of the room's
/// log and told to everyone there; any other changes nothing.
pub proof fn law_chat_is_kept_and_told<C: ChatStore>(
    done: Result<(), Refusal>,
    before: (Map<Seq<char>, RoomView>, Seq<ChatView>),
    max_participants: nat,
    room_id: Seq<char>,
    id: Seq<char>,
    body: ChatSendRequest,
    timestamp_ms: u64,
    next: (Map<Seq<char>, RoomView>, Seq<ChatView>),
    other: Seq<char>,
)
    requires
        answers_chat::<C>(
            done,
            before,
            max_participants,
            room_id,
            Some(id),
            body,
            timestamp_ms,
            next,
        ),
    ensures
        done is Ok <==> body.text@.len() > 0 && before.0.contains_key(room_id)
            && before.0[room_id].inboxes.contains_key(id),
        done is Err ==> next == before,
        done is Ok ==> {
            &&& next.1.len() > 0
            &&& next.1.last().room == room_id
            &&& next.1.last().sender_id == id
            &&& next.1.last().sender_name == text_view(body.sender_name)
            &&& next.1.last().timestamp_ms == timestamp_ms
            &&& next.1.last().text.len() == if body.text@.len() <= 2000 {
                body.text@.len()
            } else {
                2000
            }
            &&& next.1.last().text.is_prefix_of(body.text@)
            &&& before.0[room_id].inboxes.contains_key(other) ==> next.0[room_id].inboxes[other]
                == before.0[room_id].inboxes[other].push(
                EventView::ChatMessage {
                    from: id,
                    sender_name: text_view(body.sender_name),
                    text: next.1.last().text,
                    timestamp_ms,
                },
            )
        },
{
    if done is Ok {
        let msg = chat_entry(room_id, id, body, timestamp_ms);
        C::lemma_kept(before.1, msg);
        assert(before.1.push(msg).last() == msg);
        if before.0[room_id].inboxes.contains_key(other) {
            law_chat_reaches_everyone_in_the_room(
                before.0,
                max_participants,
                msg,
                other,
                room_id,
            );
        }
    }
}

/// An event stream goes on with what it received, and ends where something was lost.
pub proof fn law_a_stream_ends_where_something_was_lost(
    received: Option<SseEvent>,
    item: Result<SseEvent, StreamEnd>,
)
    requires
        call_ensures(stream_item, (received,), item),
    ensures
        item is Ok <==> received is Some,
        received matches Some(event) ==> item == Ok::<SseEvent, StreamEnd>(event),
{
}

/// Credentials name the server under three addresses, are good from now for as long as
/// they say, and carry the signature of their user name under the secret.
pub proof fn law_credentials_are_signed_and_addressed(
    creds: TurnCredentials,
    secret: Seq<char>,
    host: Seq<char>,
    port: u16,
    ttl_secs: u64,
    expires: u64,
    random_id: u64,
)
    requires
        are_credentials(creds, secret, host, port, ttl_secs, expires, random_id),
    ensures
        creds.urls@.len() == 3,
        creds.urls@[0]@ == "turn"@ + seq![':'] + host + seq![':'] + decimal_text(port as nat),
        creds.urls@[1]@ == creds.urls@[0]@ + "?transport=udp"@,
        creds.urls@[2]@ == "stun"@ + creds.urls@[0]@.skip(4),
        creds.credential@ == base64_standard(
            hmac_sha1(encode_utf8(secret), encode_utf8(creds.username@)),
        ),
        creds.ttl_secs == ttl_secs,
        decimal_text(expires as nat).push(':').is_prefix_of(creds.username@),
        creds.username@.len() == decimal_text(expires as nat).len() + 17,
{
    assert(text_views(creds.urls@).len() == 3);
    assert(text_views(creds.urls@)[0] == creds.urls@[0]@);
    assert(text_views(creds.urls@)[1] == creds.urls@[1]@);
    assert(text_views(creds.urls@)[2] == creds.urls@[2]@);
    reveal_strlit("turn");
    assert(creds.urls@[2]@ =~= "stun"@ + creds.urls@[0]@.skip(4));
    crate::text::lemma_hex_width(random_id as nat, 16);
    let lead = decimal_text(expires as nat).push(':');
    assert(creds.username@.take(lead.len() as int) =~= lead);
}

/// Credentials that are handed out expire after their lifetime from now.
pub proof fn law_credentials_expire_after_their_lifetime(
    secret: &str,
    host: &str,
    port: u16,
    ttl_secs: u64,
    now_secs: u64,
    creds: TurnCredentials,
)
    requires
        now_secs + ttl_secs <= u64::MAX,
        call_ensures(generate_credentials, (secret, host, port, ttl_secs, now_secs), creds),
    ensures
        creds.ttl_secs == ttl_secs,
        decimal_text((now_secs + ttl_secs) as nat).push(':').is_prefix_of(creds.username@),
        creds.credential@.len() == 28,
{
    let expires = (now_secs + ttl_secs) as u64;
    let random_id = choose|random_id: u64| #[trigger]
        are_credentials(creds, secret@, host@, port, ttl_secs, expires, random_id);
    law_credentials_are_signed_and_addressed(
        creds,
        secret@,
        host@,
        port,
        ttl_secs,
        expires,
        random_id,
    );
}

/// A server starts without rooms, with the chat that it is given, and keeps to the limit
/// and the credentials that it is given.
pub proof fn law_a_server_starts_as_it_is_set_up<C: ChatStore>(
    chat: C,
    turn_secret: String,
    turn_host: String,
    turn_port: u16,
    max_participants: usize,
    state: AppState<C>,
    room: Seq<char>,
)
    requires
        chat.wf(),
        call_ensures(
            AppState::<C>::new,
            (chat, turn_secret, turn_host, turn_port, max_participants),
            state,
        ),
    ensures
        state.wf(),
        !state.rooms().contains_key(room),
        state.log(room) == chat.log(room),
        state.settings().turn_secret == turn_secret@,
        state.settings().turn_host == turn_host@,
        state.settings().turn_port == turn_port,
        state.settings().max_participants == max_participants,
{
}

/// The credentials endpoint hands out credentials for the configured server, good for an
/// hour.
pub proof fn law_the_endpoint_hands_out_an_hour<C: ChatStore>(
    state: AppState<C>,
    now_secs: u64,
    creds: TurnCredentials,
)
    requires
        now_secs + 3600 <= u64::MAX,
        call_ensures(handle_turn::<C>, (&state, now_secs), creds),
    ensures
        creds.ttl_secs == 3600,
        decimal_text((now_secs + 3600) as nat).push(':').is_prefix_of(creds.username@),
        creds.urls@.len() == 3,
        creds.urls@[0]@ == "turn"@ + seq![':'] + state.settings().turn_host + seq![':']
            + decimal_text(state.settings().turn_port as nat),
        creds.credential@ == base64_standard(
            hmac_sha1(encode_utf8(state.settings().turn_secret), encode_utf8(creds.username@)),
        ),
{
    let expires = (now_secs + 3600) as u64;
    let settings = state.settings();
    let random_id = choose|random_id: u64| #[trigger]
        are_credentials(
            creds,
            settings.turn_secret,
            settings.turn_host,
            settings.turn_port,
            TURN_TTL_SECS,
            expires,
            random_id,
        );
    law_credentials_are_signed_and_addressed(
        creds,
        settings.turn_secret,
        settings.turn_host,
        settings.turn_port,
        TURN_TTL_SECS,
        expires,
        random_id,
    );
}

/// An identifier hashes to the hexadecimal digits of the digest of its bytes.
pub proof fn law_identifiers_hash_to_hexadecimal(input: &str, hash: String)
    requires
        call_ensures(hash_id, (input,), hash),
    ensures
        hash@ == hex_bytes(sha256(encode_utf8(input@))),
        hash@.len() == 64,
{
}

/// What the environment gives is used as it is, empty or not; what it leaves out has its
/// default.
pub proof fn law_the_environment_is_taken_at_its_word(
    secret: Option<String>,
    host: Option<String>,
    port: Option<String>,
    settings: TurnSettings,
)
    requires
        call_ensures(turn_settings, (secret, host, port), settings),
    ensures
        secret matches Some(given) ==> settings.secret@ == given@ && !settings.insecure,
        secret is None ==> settings.secret@ == "dev-secret-change-me"@ && settings.insecure,
        host matches Some(given) ==> settings.host@ == given@,
        host is None ==> settings.host@ == "localhost"@,
        port is None ==> settings.port == 3478,
        port matches Some(given) ==> settings.port == match crate::scan::port_number(given@) {
            Some(n) => n,
            None => 3478,
        },
{
}

/// A site's stylesheet is named after the site, in its package directory.
pub proof fn law_a_stylesheet_is_named_after_its_site(
    pkg_dir: &str,
    output_name: &str,
    path: String,
)
    requires
        call_ensures(stylesheet_path, (pkg_dir, output_name), path),
    ensures
        path@ == "/"@ + pkg_dir@ + "/"@ + output_name@ + ".css"@,
{
}

} // verus!

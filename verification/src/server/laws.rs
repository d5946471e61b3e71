//! What the server promises across requests.

use vstd::prelude::*;

use crate::server::access::refusal;
use crate::server::auth::opens;
use crate::server::rooms::RoomView;
use crate::server::{
    after_request, chat_entry, chat_event, claimed_or_loaded, join_outcome, joined_event,
    lemma_admission_is_sound, relayed, room_after_signal, room_is_sound, rooms_after_join,
    rooms_are_sound, Request, MAX_NAME_CHARS, MAX_TEXT_CHARS,
};
use crate::text::first_chars;
use crate::types::{text_view, ChatSendRequest, EventView, JoinRequest, SignalView};

verus! {

/// No join attempt, whatever it brings, takes a room over capacity or otherwise out of
/// shape.
pub proof fn law_join_keeps_rooms_sound(
    rooms: Map<Seq<char>, RoomView>,
    max_participants: nat,
    room_id: Seq<char>,
    req: JoinRequest,
)
    requires
        rooms_are_sound(rooms, max_participants),
    ensures
        rooms_are_sound(
            rooms_after_join(rooms, max_participants, room_id, req),
            max_participants,
        ),
{
    let claim = text_view(req.claim_password);
    let room = claimed_or_loaded(rooms, room_id, claim);
    let outcome = join_outcome(rooms, max_participants, room_id, req);
    if outcome is Full || outcome is Joined {
        assert(room_is_sound(room_id, room, max_participants));
        if outcome is Joined {
            let name = match text_view(req.display_name) {
                Some(n) => Some(first_chars(n, MAX_NAME_CHARS as nat)),
                None => None,
            };
            lemma_admission_is_sound(room_id, room, req.session_id@, name, max_participants);
        }
    }
}

/// A join attempt that brings anyone into a room brings in the session it names and no
/// other, and only by opening the room with its password or by claiming a room that did
/// not exist, under a password of its own.
pub proof fn law_only_the_password_lets_anyone_in(
    rooms: Map<Seq<char>, RoomView>,
    max_participants: nat,
    room_id: Seq<char>,
    req: JoinRequest,
    other_room: Seq<char>,
    session_id: Seq<char>,
)
    requires
        ({
            let after = rooms_after_join(rooms, max_participants, room_id, req);
            &&& after.contains_key(other_room)
            &&& after[other_room].is_participant(session_id)
        }),
        !(rooms.contains_key(other_room) && rooms[other_room].is_participant(session_id)),
    ensures
        other_room == room_id,
        session_id == req.session_id@,
        rooms.contains_key(room_id) ==> opens(
            rooms[room_id].password,
            text_view(req.password),
        ),
        !rooms.contains_key(room_id) ==> {
            let after = rooms_after_join(rooms, max_participants, room_id, req);
            &&& text_view(req.claim_password) matches Some(claim)
            &&& claim.len() > 0
            &&& after[room_id].password == Some(claim)
        },
{
}

/// Joining never changes a room's password, never takes a room away, and never takes
/// anyone out of a room.
pub proof fn law_join_takes_nothing_away(
    rooms: Map<Seq<char>, RoomView>,
    max_participants: nat,
    room_id: Seq<char>,
    req: JoinRequest,
    other_room: Seq<char>,
    session_id: Seq<char>,
)
    requires
        rooms.contains_key(other_room),
    ensures
        ({
            let after = rooms_after_join(rooms, max_participants, room_id, req);
            &&& after.contains_key(other_room)
            &&& after[other_room].password == rooms[other_room].password
            &&& rooms[other_room].is_participant(session_id)
                ==> after[other_room].is_participant(session_id)
            &&& other_room != room_id ==> after[other_room] == rooms[other_room]
        }),
{
}

/// Once a room was claimed, the claim password is what opens it: anyone who brings it
/// is not asked for it again, and anyone who does not is.
pub proof fn law_the_claim_password_locks_the_room(
    rooms: Map<Seq<char>, RoomView>,
    max_participants: nat,
    room_id: Seq<char>,
    claim: JoinRequest,
    next: JoinRequest,
)
    requires
        !rooms.contains_key(room_id),
        join_outcome(rooms, max_participants, room_id, claim) is Joined,
        !(join_outcome(
            rooms_after_join(rooms, max_participants, room_id, claim),
            max_participants,
            room_id,
            next,
        ) is BadRequest),
    ensures
        join_outcome(
            rooms_after_join(rooms, max_participants, room_id, claim),
            max_participants,
            room_id,
            next,
        ) is PasswordRequired <==> text_view(next.password) != text_view(claim.claim_password),
{
}

/// A participant that comes back with the right password is let in, however full the
/// room is, and takes no further place.
pub proof fn law_rejoining_takes_no_place(
    rooms: Map<Seq<char>, RoomView>,
    max_participants: nat,
    room_id: Seq<char>,
    req: JoinRequest,
)
    requires
        rooms_are_sound(rooms, max_participants),
        rooms.contains_key(room_id),
        rooms[room_id].is_participant(req.session_id@),
        opens(rooms[room_id].password, text_view(req.password)),
        !(join_outcome(rooms, max_participants, room_id, req) is BadRequest),
    ensures
        join_outcome(rooms, max_participants, room_id, req) is Joined,
        rooms_after_join(rooms, max_participants, room_id, req)[room_id].inboxes.dom()
            == rooms[room_id].inboxes.dom(),
{
    let after = rooms_after_join(rooms, max_participants, room_id, req);
    assert(after[room_id].inboxes.dom() =~= rooms[room_id].inboxes.dom());
}

/// A refused or unanswered join attempt leaves every room as it was; a room that turns
/// out to be full is at most claimed, and nobody is let in.
pub proof fn law_a_refused_join_lets_nobody_in(
    rooms: Map<Seq<char>, RoomView>,
    max_participants: nat,
    room_id: Seq<char>,
    req: JoinRequest,
)
    requires
        !(join_outcome(rooms, max_participants, room_id, req) is Joined),
    ensures
        !(join_outcome(rooms, max_participants, room_id, req) is Full) ==> rooms_after_join(
            rooms,
            max_participants,
            room_id,
            req,
        ) == rooms,
        rooms.contains_key(room_id) ==> rooms_after_join(rooms, max_participants, room_id, req)
            == rooms,
        forall|room: Seq<char>, id: Seq<char>|
            #![trigger rooms[room].is_participant(id)]
            rooms_after_join(rooms, max_participants, room_id, req).contains_key(room)
                && rooms_after_join(rooms, max_participants, room_id, req)[room].is_participant(id)
                ==> rooms.contains_key(room) && rooms[room].is_participant(id),
{
    let after = rooms_after_join(rooms, max_participants, room_id, req);
    if rooms.contains_key(room_id) {
        assert(after =~= rooms);
    }
}

/// Whoever is not in a room can do nothing in it: only a named session that joined is
/// served.
pub proof fn law_only_participants_are_served(
    rooms: Map<Seq<char>, RoomView>,
    room_id: Seq<char>,
    session: Option<Seq<char>>,
)
    ensures
        refusal(rooms, room_id, session) is None <==> {
            &&& session matches Some(id)
            &&& rooms.contains_key(room_id)
            &&& rooms[room_id].is_participant(id)
        },
{
}

/// A media signal reaches its addressee, under its sender's id, and nobody else; it
/// changes neither who is in the room nor what opens it.
pub proof fn law_a_signal_reaches_only_its_addressee(
    room: RoomView,
    signal: SignalView,
    from: Seq<char>,
    id: Seq<char>,
)
    requires
        room.is_participant(id),
    ensures
        ({
            let after = room_after_signal(room, signal, from);
            &&& after.inboxes.dom() == room.inboxes.dom()
            &&& after.password == room.password
            &&& after.names == room.names
            &&& after.inboxes[id] == match relayed(signal, from) {
                Some((to, event)) => if to == id {
                    room.inboxes[id].push(event)
                } else {
                    room.inboxes[id]
                },
                None => room.inboxes[id],
            }
        }),
{
    let after = room_after_signal(room, signal, from);
    assert(after.inboxes.dom() =~= room.inboxes.dom());
}

/// A relayed signal names the participant that sent it.
pub proof fn law_a_signal_tells_who_sent_it(signal: SignalView, from: Seq<char>)
    ensures
        relayed(signal, from) matches Some((_, event)) ==> match event {
            EventView::Offer { from: sender, .. } => sender == from,
            EventView::Answer { from: sender, .. } => sender == from,
            EventView::IceCandidate { from: sender, .. } => sender == from,
            _ => false,
        },
{
}

/// A broadcast reaches every participant but the excluded one, exactly once, after
/// everything they were sent before; it changes nothing else.
pub proof fn law_a_broadcast_reaches_everyone_else(
    room: RoomView,
    event: EventView,
    exclude: Option<Seq<char>>,
    id: Seq<char>,
)
    requires
        room.is_participant(id),
    ensures
        ({
            let after = room.after_broadcast(event, exclude);
            &&& after.inboxes.dom() == room.inboxes.dom()
            &&& after.password == room.password
            &&& after.names == room.names
            &&& after.inboxes[id] == if exclude == Some(id) {
                room.inboxes[id]
            } else {
                room.inboxes[id].push(event)
            }
        }),
{
    let after = room.after_broadcast(event, exclude);
    assert(after.inboxes.dom() =~= room.inboxes.dom());
}

/// An offer made on the announcement of a participant is not handed in too early: the
/// participant's stream passes over what was handed to its channel up to the
/// announcement, and the offer is the first thing handed in after that.
pub proof fn law_an_offer_to_a_newcomer_comes_after_its_stream(
    room: RoomView,
    newcomer: Seq<char>,
    from: Seq<char>,
    sdp: Seq<char>,
)
    requires
        room.is_participant(newcomer),
    ensures
        ({
            let passed_over = room.inboxes[newcomer];
            let announced = room.after_broadcast(joined_event(room, newcomer), Some(newcomer));
            let offered = room_after_signal(
                announced,
                SignalView::Offer { to: newcomer, sdp },
                from,
            );
            offered.inboxes[newcomer] == passed_over.push(EventView::Offer { from, sdp })
        }),
{
}

/// Everyone in the room sees a chat message as it is stored: the same sender, name, text
/// and time, and no more text than is allowed.
pub proof fn law_chat_is_shown_as_it_is_stored(
    room_id: Seq<char>,
    sender_id: Seq<char>,
    body: ChatSendRequest,
    timestamp_ms: u64,
)
    ensures
        ({
            let stored = chat_entry(room_id, sender_id, body, timestamp_ms);
            &&& stored.text.len() <= MAX_TEXT_CHARS
            &&& chat_event(stored) == (EventView::ChatMessage {
                from: stored.sender_id,
                sender_name: stored.sender_name,
                text: stored.text,
                timestamp_ms: stored.timestamp_ms,
            })
        }),
{
}

/// The rooms of a server that started with none, after some requests.
pub open spec fn after_requests(
    requests: Seq<Request>,
    max_participants: nat,
) -> Map<Seq<char>, RoomView>
    decreases requests.len(),
{
    if requests.len() == 0 {
        Map::empty()
    } else {
        after_request(
            after_requests(requests.drop_last(), max_participants),
            max_participants,
            requests.last(),
        )
    }
}

/// Whether a request brought a session to a room together with a password.
pub open spec fn brings(
    request: Request,
    room_id: Seq<char>,
    session_id: Seq<char>,
    password: Seq<char>,
) -> bool {
    &&& request matches Request::Join { room_id: at, req }
    &&& at == room_id
    &&& req.session_id@ == session_id
    &&& text_view(req.password) == Some(password) || text_view(req.claim_password) == Some(
        password,
    )
}

/// Whatever requests a server has served, each of its rooms has a password, and everyone
/// in a room brought that password.
pub proof fn law_everyone_in_a_room_brought_its_password(
    requests: Seq<Request>,
    max_participants: nat,
    room_id: Seq<char>,
    session_id: Seq<char>,
)
    requires
        after_requests(requests, max_participants).contains_key(room_id),
        after_requests(requests, max_participants)[room_id].is_participant(session_id),
    ensures
        after_requests(requests, max_participants)[room_id].password matches Some(password)
            && exists|i: int|
            0 <= i < requests.len() && brings(
                #[trigger] requests[i],
                room_id,
                session_id,
                password,
            ),
    decreases requests.len(),
{
    let earlier = requests.drop_last();
    let last = requests.last();
    let before = after_requests(earlier, max_participants);
    let after = after_requests(requests, max_participants);
    lemma_rooms_stay_sound(earlier, max_participants);
    if before.contains_key(room_id) && before[room_id].is_participant(session_id) {
        law_everyone_in_a_room_brought_its_password(
            earlier,
            max_participants,
            room_id,
            session_id,
        );
        let password = before[room_id].password->0;
        let i = choose|i: int|
            0 <= i < earlier.len() && brings(
                #[trigger] earlier[i],
                room_id,
                session_id,
                password,
            );
        assert(requests[i] == earlier[i]);
        match last {
            Request::Join { room_id: at, req } => {
                law_join_takes_nothing_away(
                    before,
                    max_participants,
                    at,
                    req,
                    room_id,
                    session_id,
                );
            },
            _ => {},
        }
        assert(after[room_id].password == Some(password));
    } else {
        match last {
            Request::Join { room_id: at, req } => {
                law_only_the_password_lets_anyone_in(
                    before,
                    max_participants,
                    at,
                    req,
                    room_id,
                    session_id,
                );
                if before.contains_key(room_id) {
                    assert(room_is_sound(room_id, before[room_id], max_participants));
                    law_join_takes_nothing_away(
                        before,
                        max_participants,
                        at,
                        req,
                        room_id,
                        session_id,
                    );
                }
                let password = after[room_id].password->0;
                assert(brings(requests[requests.len() - 1], room_id, session_id, password));
            },
            _ => {},
        }
    }
}

/// Whatever requests a server has served, its rooms are sound.
proof fn lemma_rooms_stay_sound(requests: Seq<Request>, max_participants: nat)
    ensures
        rooms_are_sound(after_requests(requests, max_participants), max_participants),
    decreases requests.len(),
{
    if requests.len() > 0 {
        let before = after_requests(requests.drop_last(), max_participants);
        lemma_rooms_stay_sound(requests.drop_last(), max_participants);
        match requests.last() {
            Request::Join { room_id, req } => {
                law_join_keeps_rooms_sound(before, max_participants, room_id, req);
            },
            Request::Tell { room_id, event, exclude } => {
                if before.contains_key(room_id) {
                    let room = before[room_id];
                    assert(room_is_sound(room_id, room, max_participants));
                    assert(room.after_broadcast(event, exclude).inboxes.dom()
                        =~= room.inboxes.dom());
                }
            },
            Request::Signal { room_id, signal, from } => {
                if before.contains_key(room_id) {
                    let room = before[room_id];
                    assert(room_is_sound(room_id, room, max_participants));
                    assert(room_after_signal(room, signal, from).inboxes.dom()
                        =~= room.inboxes.dom());
                }
            },
        }
    }
}

} // verus!

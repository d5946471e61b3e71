//! What joining is for: a room takes in whoever opens it while it has a place, and is
//! claimed by whoever comes first.

use vstd::prelude::*;
use vstd::utf8::encode_utf8;

use crate::server::access::valid_room_name;
use crate::server::auth::{check_password, opens, AuthResult};
use crate::server::rooms::RoomView;
use crate::server::{
    join_outcome, room_is_sound, rooms_after_join, rooms_are_sound,
};
use crate::types::{str_view, text_view, EventView, JoinRequest};

verus! {

/// Whether a request is one that can be considered: the room may have that name, and the
/// claim password, if any, is within 128 bytes.
pub open spec fn is_considered(room_id: Seq<char>, req: JoinRequest) -> bool {
    &&& valid_room_name(room_id)
    &&& text_view(req.claim_password) matches Some(claim) ==> encode_utf8(claim).len() <= 128
}

/// A room that has a place takes in whoever opens it: the session is in afterwards, with
/// nothing in its inbox.
pub proof fn law_a_room_with_a_place_takes_in_whoever_opens_it(
    rooms: Map<Seq<char>, RoomView>,
    max_participants: nat,
    room_id: Seq<char>,
    req: JoinRequest,
)
    requires
        is_considered(room_id, req),
        rooms.contains_key(room_id),
        opens(rooms[room_id].password, text_view(req.password)),
        rooms[room_id].inboxes.dom().len() < max_participants,
    ensures
        join_outcome(rooms, max_participants, room_id, req) is Joined,
        ({
            let after = rooms_after_join(rooms, max_participants, room_id, req)[room_id];
            &&& after.inboxes.contains_key(req.session_id@)
            &&& after.inboxes[req.session_id@].len() == 0
        }),
{
}

/// A room is called full only when every place is taken, by others.
pub proof fn law_full_means_that_every_place_is_taken(
    rooms: Map<Seq<char>, RoomView>,
    max_participants: nat,
    room_id: Seq<char>,
    req: JoinRequest,
)
    requires
        join_outcome(rooms, max_participants, room_id, req) is Full,
    ensures
        max_participants == 0 || {
            &&& rooms.contains_key(room_id)
            &&& rooms[room_id].inboxes.dom().len() >= max_participants
            &&& !rooms[room_id].inboxes.contains_key(req.session_id@)
        },
        rooms.contains_key(room_id) ==> rooms[room_id].inboxes.dom().len() >= max_participants,
        is_considered(room_id, req),
{
}

/// A room whose every place is taken turns away everybody who is not in it, if they open
/// it; and takes back everybody who is.
pub proof fn law_a_room_without_a_place_turns_newcomers_away(
    rooms: Map<Seq<char>, RoomView>,
    max_participants: nat,
    room_id: Seq<char>,
    req: JoinRequest,
)
    requires
        is_considered(room_id, req),
        rooms.contains_key(room_id),
        opens(rooms[room_id].password, text_view(req.password)),
        rooms[room_id].inboxes.dom().len() >= max_participants,
    ensures
        join_outcome(rooms, max_participants, room_id, req) is Full
            == !rooms[room_id].inboxes.contains_key(req.session_id@),
        join_outcome(rooms, max_participants, room_id, req) is Joined
            == rooms[room_id].inboxes.contains_key(req.session_id@),
{
}

/// Whoever comes first to a room and brings a password claims it: the room is theirs
/// alone, and has that password.
pub proof fn law_the_first_to_come_claims_the_room(
    rooms: Map<Seq<char>, RoomView>,
    max_participants: nat,
    room_id: Seq<char>,
    req: JoinRequest,
    claim: Seq<char>,
)
    requires
        is_considered(room_id, req),
        !rooms.contains_key(room_id),
        text_view(req.claim_password) == Some(claim),
        claim.len() > 0,
        max_participants > 0,
    ensures
        join_outcome(rooms, max_participants, room_id, req) is Joined,
        ({
            let after = rooms_after_join(rooms, max_participants, room_id, req);
            &&& after.contains_key(room_id)
            &&& after[room_id].password == Some(claim)
            &&& after[room_id].inboxes.dom() == set![req.session_id@]
        }),
{
    let after = rooms_after_join(rooms, max_participants, room_id, req);
    let empty: Map<Seq<char>, Seq<EventView>> = Map::empty();
    assert(empty.dom().len() == 0);
    assert(after[room_id].inboxes.dom() =~= set![req.session_id@]);
}

/// A room that does not exist asks for a password to claim it with just where none was
/// brought, whatever else was.
pub proof fn law_a_new_room_asks_for_a_password(
    rooms: Map<Seq<char>, RoomView>,
    max_participants: nat,
    room_id: Seq<char>,
    req: JoinRequest,
)
    requires
        is_considered(room_id, req),
    ensures
        join_outcome(rooms, max_participants, room_id, req) is NeedPassword <==> {
            &&& !rooms.contains_key(room_id)
            &&& text_view(req.claim_password) is None || text_view(req.claim_password)->0.len() == 0
        },
{
}

/// A room that exists asks for its password just where it is locked and another one, or
/// none, was brought, full or not.
pub proof fn law_a_locked_room_asks_for_its_password(
    rooms: Map<Seq<char>, RoomView>,
    max_participants: nat,
    room_id: Seq<char>,
    req: JoinRequest,
)
    requires
        is_considered(room_id, req),
        rooms.contains_key(room_id),
    ensures
        join_outcome(rooms, max_participants, room_id, req) is PasswordRequired <==> (
        rooms[room_id].password is Some && text_view(req.password) != rooms[room_id].password),
{
}

/// A request is refused out of hand just where it cannot be considered.
pub proof fn law_only_what_cannot_be_considered_is_refused(
    rooms: Map<Seq<char>, RoomView>,
    max_participants: nat,
    room_id: Seq<char>,
    req: JoinRequest,
)
    ensures
        join_outcome(rooms, max_participants, room_id, req) is BadRequest <==> !is_considered(
            room_id,
            req,
        ),
{
}

/// A session that is let in has the display name it gave, cut to 64 characters, or the one
/// it had before; and everyone else keeps their inbox and their name.
pub proof fn law_who_joins_brings_a_name(
    rooms: Map<Seq<char>, RoomView>,
    max_participants: nat,
    room_id: Seq<char>,
    req: JoinRequest,
    other: Seq<char>,
)
    requires
        join_outcome(rooms, max_participants, room_id, req) is Joined,
        rooms.contains_key(room_id),
    ensures
        ({
            let before = rooms[room_id];
            let after = rooms_after_join(rooms, max_participants, room_id, req)[room_id];
            let given = text_view(req.display_name);
            let named = after.name_of(req.session_id@);
            &&& given is None ==> named == before.name_of(req.session_id@)
            &&& given matches Some(name) ==> {
                &&& named matches Some(kept)
                &&& kept.is_prefix_of(name)
                &&& kept.len() == if name.len() <= 64 {
                    name.len()
                } else {
                    64
                }
            }
            &&& after.password == before.password
            &&& other != req.session_id@ ==> {
                &&& after.inboxes.contains_key(other) == before.inboxes.contains_key(other)
                &&& before.inboxes.contains_key(other) ==> after.inboxes[other]
                    == before.inboxes[other]
                &&& after.name_of(other) == before.name_of(other)
            }
        }),
{
}

/// An open room needs no password, and a locked one just its own.
pub proof fn law_a_password_opens_just_its_room(
    password: Seq<char>,
    other: Seq<char>,
    supplied: Option<Seq<char>>,
)
    ensures
        opens(None, supplied),
        opens(Some(password), Some(password)),
        !opens(Some(password), None),
        other != password ==> !opens(Some(password), Some(other)),
{
}

/// Every answer of a password check follows from that, whoever asks.
pub proof fn law_a_password_check_grants_just_what_opens(
    stored: Option<String>,
    supplied: Option<&str>,
    outcome: AuthResult,
)
    requires
        call_ensures(check_password, (&stored, supplied), outcome),
    ensures
        outcome == AuthResult::Granted <==> (stored is None || text_view(stored) == str_view(
            supplied,
        )),
{
}

/// Every room of a server is in order: it has a name of 3 to 48 characters and a password
/// that is not empty, no more participants than places, and names of participants only,
/// of at most 64 characters.
pub proof fn law_every_room_is_in_order(
    rooms: Map<Seq<char>, RoomView>,
    max_participants: nat,
    name: Seq<char>,
    id: Seq<char>,
)
    requires
        rooms_are_sound(rooms, max_participants),
        rooms.contains_key(name),
    ensures
        3 <= name.len() <= 48,
        rooms[name].password matches Some(password) && password.len() > 0,
        rooms[name].inboxes.dom().finite(),
        rooms[name].inboxes.dom().len() <= max_participants,
        rooms[name].name_of(id) is Some ==> rooms[name].inboxes.contains_key(id),
        rooms[name].name_of(id) matches Some(given) ==> given.len() <= 64,
{
    assert(room_is_sound(name, rooms[name], max_participants));
}

/// A claim that is considered makes the room, locked with the password that was brought,
/// even where no place is left in it.
pub proof fn law_a_claim_makes_the_room(
    rooms: Map<Seq<char>, RoomView>,
    max_participants: nat,
    room_id: Seq<char>,
    req: JoinRequest,
)
    requires
        is_considered(room_id, req),
        !rooms.contains_key(room_id),
        req.claim_password matches Some(password) && password@.len() > 0,
    ensures
        ({
            let after = rooms_after_join(rooms, max_participants, room_id, req);
            &&& after.contains_key(room_id)
            &&& after[room_id].password == text_view(req.claim_password)
            &&& max_participants == 0 ==> after[room_id].inboxes.dom().len() == 0
                && after[room_id].names.dom().len() == 0
        }),
{
}

} // verus!

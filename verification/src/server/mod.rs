//! The room server: admission, signaling relay, chat, and event streams.
//!
//! Each handler is one step from a server state to the next. A caller that shares the
//! state between requests runs the steps one at a time.

pub mod access;
pub mod auth;
pub mod chat;
pub mod config;
pub mod join_laws;
pub mod laws;
pub mod mailbox;
pub mod request_laws;
pub mod rooms;
pub mod turn;

use tokio::sync::broadcast::Receiver;
use vstd::prelude::*;
use vstd::string::*;
use vstd::utf8::encode_utf8;

use crate::directory::Directory;
use crate::server::access::{
    is_valid_room_name, refusal, require_session, session_of, valid_room_name, Refusal,
};
use crate::server::auth::{check_password, opens, AuthResult};
use crate::server::chat::{
    latest, ChatMessage, ChatStore, InMemoryChat, MAX_MESSAGES_PER_ROOM,
};
use crate::server::mailbox::passed_over;
use crate::server::rooms::{is_presence_list, RoomState, RoomView};
use crate::server::turn::{are_credentials, generate_credentials};
use crate::text::{first_chars, truncated};
use crate::types::{
    chat_views, clone_text, text_view, text_views, ChatSendRequest, ChatView, EventView,
    JoinRequest, JoinResponse, SignalMessage, SignalView, SseEvent, TurnCredentials,
};

verus! {

/// The longest claim password, in bytes.
pub const MAX_PASSWORD_BYTES: usize = 128;

/// The longest display name, in characters.
pub const MAX_NAME_CHARS: usize = 64;

/// The longest chat message, in characters.
pub const MAX_TEXT_CHARS: usize = 2000;

/// How much chat a (re)connecting client is shown.
pub const RESYNC_MESSAGES: usize = 50;

/// How much chat the history endpoint returns.
pub const HISTORY_MESSAGES: usize = 100;

/// How long TURN credentials are good for.
pub const TURN_TTL_SECS: u64 = 3600;

/// Shared application state
pub struct AppState<C: ChatStore> {
    rooms: Directory<RoomState>,
    chat: C,
    turn_secret: String,
    turn_host: String,
    turn_port: u16,
    max_participants: usize,
}

/// What never changes while the server runs.
pub struct Settings {
    pub turn_secret: Seq<char>,
    pub turn_host: Seq<char>,
    pub turn_port: u16,
    pub max_participants: usize,
}

/// What holds of every room of a running server: it has a name it may have and a
/// password, nobody is in over capacity, and only participants have display names,
/// none of them overlong.
pub open spec fn room_is_sound(name: Seq<char>, room: RoomView, max_participants: nat) -> bool {
    &&& valid_room_name(name)
    &&& room.password matches Some(password) && password.len() > 0
    &&& room.inboxes.dom().finite()
    &&& room.inboxes.dom().len() <= max_participants
    &&& room.names.dom().subset_of(room.inboxes.dom())
    &&& forall|id: Seq<char>| #[trigger]
        room.names.contains_key(id) ==> room.names[id].len() <= MAX_NAME_CHARS
}

/// What holds of all the rooms of a running server.
pub open spec fn rooms_are_sound(
    rooms: Map<Seq<char>, RoomView>,
    max_participants: nat,
) -> bool {
    forall|name: Seq<char>| #[trigger]
        rooms.contains_key(name) ==> room_is_sound(name, rooms[name], max_participants)
}

impl<C: ChatStore> AppState<C> {
    /// The rooms by name.
    pub closed spec fn rooms(&self) -> Map<Seq<char>, RoomView> {
        self.rooms@.map_values(|room: RoomState| room@)
    }

    /// What is kept of a room's chat, oldest first.
    pub closed spec fn log(&self, room: Seq<char>) -> Seq<ChatView> {
        self.chat.log(room)
    }

    /// The server's settings.
    pub closed spec fn settings(&self) -> Settings {
        Settings {
            turn_secret: self.turn_secret@,
            turn_host: self.turn_host@,
            turn_port: self.turn_port,
            max_participants: self.max_participants,
        }
    }

    /// The state is one the server can be in.
    pub closed spec fn wf(&self) -> bool {
        &&& self.rooms.wf()
        &&& self.chat.wf()
        &&& forall|name: Seq<char>| #[trigger]
            self.rooms@.contains_key(name) ==> self.rooms@[name].wf()
        &&& rooms_are_sound(self.rooms(), self.max_participants as nat)
    }

    /// In every state a server can be in, each room has a valid name and a password, is
    /// within capacity, and holds display names of participants only, none overlong.
    pub proof fn law_rooms_are_sound(&self)
        requires
            self.wf(),
        ensures
            rooms_are_sound(self.rooms(), self.settings().max_participants as nat),
    {
    }

    /// A server with no rooms.
    pub fn new(
        chat: C,
        turn_secret: String,
        turn_host: String,
        turn_port: u16,
        max_participants: usize,
    ) -> (state: Self)
        requires
            chat.wf(),
        ensures
            state.wf(),
            state.rooms() == Map::<Seq<char>, RoomView>::empty(),
            forall|room: Seq<char>| #[trigger] state.log(room) == chat.log(room),
            state.settings() == (Settings {
                turn_secret: turn_secret@,
                turn_host: turn_host@,
                turn_port,
                max_participants,
            }),
    {
        let state = AppState {
            rooms: Directory::new(),
            chat,
            turn_secret,
            turn_host,
            turn_port,
            max_participants,
        };
        assert(state.rooms() =~= Map::<Seq<char>, RoomView>::empty());
        state
    }
}

impl AppState<InMemoryChat> {
    /// In every state that a server with [`InMemoryChat`] can be in, no room has more chat
    /// than the cap, and what is kept of a room's chat was said in that room.
    pub proof fn law_chat_is_bounded_and_stays_in_its_room(&self, room: Seq<char>)
        requires
            self.wf(),
        ensures
            self.log(room).len() <= MAX_MESSAGES_PER_ROOM,
            forall|i: int|
                0 <= i < self.log(room).len() ==> (#[trigger] self.log(room)[i]).room == room,
    {
        self.chat.law_logs_are_bounded_and_stay_in_their_room(room);
    }
}

/// How a join attempt ends.
pub enum JoinOutcome {
    /// The room name is not valid, or the claim password too long.
    BadRequest,
    /// The room does not exist, and no password was given to claim it with.
    NeedPassword,
    /// The room exists, and the password does not open it.
    PasswordRequired,
    /// The room has no place left.
    Full,
    /// The session is in.
    Joined,
}

/// The room that a join attempt is about: the one there is, or the one it claims.
pub open spec fn claimed_or_loaded(
    rooms: Map<Seq<char>, RoomView>,
    room_id: Seq<char>,
    claim_password: Option<Seq<char>>,
) -> RoomView {
    if rooms.contains_key(room_id) {
        rooms[room_id]
    } else {
        RoomView { password: claim_password, inboxes: Map::empty(), names: Map::empty() }
    }
}

/// Whether a room has no place left for a session. Re-joining with an existing session
/// does not count against the cap.
pub open spec fn is_full_for(room: RoomView, session_id: Seq<char>, max_participants: nat) -> bool {
    room.inboxes.dom().len() >= max_participants && !room.is_participant(session_id)
}

/// How a join attempt ends, given the rooms there are.
pub open spec fn join_outcome(
    rooms: Map<Seq<char>, RoomView>,
    max_participants: nat,
    room_id: Seq<char>,
    req: JoinRequest,
) -> JoinOutcome {
    let claim = text_view(req.claim_password);
    let too_long = claim is Some && encode_utf8(claim->0).len() > MAX_PASSWORD_BYTES;
    let room = claimed_or_loaded(rooms, room_id, claim);
    if !valid_room_name(room_id) || too_long {
        JoinOutcome::BadRequest
    } else if !rooms.contains_key(room_id) && (claim is None || claim->0.len() == 0) {
        JoinOutcome::NeedPassword
    } else if rooms.contains_key(room_id) && !opens(room.password, text_view(req.password)) {
        JoinOutcome::PasswordRequired
    } else if is_full_for(room, req.session_id@, max_participants) {
        JoinOutcome::Full
    } else {
        JoinOutcome::Joined
    }
}

/// The rooms after a join attempt. An attempt that claims a room leaves it there even
/// if the room then turns out to be full.
pub open spec fn rooms_after_join(
    rooms: Map<Seq<char>, RoomView>,
    max_participants: nat,
    room_id: Seq<char>,
    req: JoinRequest,
) -> Map<Seq<char>, RoomView> {
    let room = claimed_or_loaded(rooms, room_id, text_view(req.claim_password));
    match join_outcome(rooms, max_participants, room_id, req) {
        JoinOutcome::Full => rooms.insert(room_id, room),
        JoinOutcome::Joined => rooms.insert(
            room_id,
            room.after_admission(
                req.session_id@,
                match text_view(req.display_name) {
                    Some(name) => Some(first_chars(name, MAX_NAME_CHARS as nat)),
                    None => None,
                },
            ),
        ),
        _ => rooms,
    }
}

/// One request that the server serves and that changes its rooms.
pub enum Request {
    /// Someone asked to be let into a room.
    Join { room_id: Seq<char>, req: JoinRequest },
    /// Everyone in a room was told something, but for the excluded one: that a
    /// participant is listening, or what was said.
    Tell { room_id: Seq<char>, event: EventView, exclude: Option<Seq<char>> },
    /// A participant sent a media signal.
    Signal { room_id: Seq<char>, signal: SignalView, from: Seq<char> },
}

/// The rooms after one request.
pub open spec fn after_request(
    rooms: Map<Seq<char>, RoomView>,
    max_participants: nat,
    request: Request,
) -> Map<Seq<char>, RoomView> {
    match request {
        Request::Join { room_id, req } => rooms_after_join(rooms, max_participants, room_id, req),
        Request::Tell { room_id, event, exclude } => if rooms.contains_key(room_id) {
            rooms.insert(room_id, rooms[room_id].after_broadcast(event, exclude))
        } else {
            rooms
        },
        Request::Signal { room_id, signal, from } => if rooms.contains_key(room_id) {
            rooms.insert(room_id, room_after_signal(rooms[room_id], signal, from))
        } else {
            rooms
        },
    }
}

/// Admission keeps a room sound as long as there is a place.
pub proof fn lemma_admission_is_sound(
    name: Seq<char>,
    room: RoomView,
    session_id: Seq<char>,
    display_name: Option<Seq<char>>,
    max_participants: nat,
)
    requires
        room_is_sound(name, room, max_participants),
        !is_full_for(room, session_id, max_participants),
        display_name matches Some(given) ==> given.len() <= MAX_NAME_CHARS,
    ensures
        room_is_sound(name, room.after_admission(session_id, display_name), max_participants),
{
    let after = room.after_admission(session_id, display_name);
    assert(after.inboxes.dom() =~= room.inboxes.dom().insert(session_id));
    if room.is_participant(session_id) {
        assert(after.inboxes.dom() =~= room.inboxes.dom());
    }
}

/// A delivery changes nothing but inboxes, so the room stays sound.
proof fn lemma_delivery_is_sound(
    name: Seq<char>,
    room: RoomView,
    after: RoomView,
    max_participants: nat,
)
    requires
        room_is_sound(name, room, max_participants),
        after.password == room.password,
        after.names == room.names,
        after.inboxes.dom() =~= room.inboxes.dom(),
    ensures
        room_is_sound(name, after, max_participants),
{
}

/// Whether a response is the one to a join attempt, given the rooms and the room's chat
/// log at the time.
pub open spec fn answers_join(
    response: Result<JoinResponse, Refusal>,
    rooms: Map<Seq<char>, RoomView>,
    max_participants: nat,
    log: Seq<ChatView>,
    room_id: Seq<char>,
    req: JoinRequest,
) -> bool {
    match join_outcome(rooms, max_participants, room_id, req) {
        JoinOutcome::BadRequest => response == Err::<JoinResponse, Refusal>(Refusal::BadRequest),
        JoinOutcome::NeedPassword => response matches Ok(JoinResponse::NeedPassword {  }),
        JoinOutcome::PasswordRequired => response matches Ok(JoinResponse::PasswordRequired {  }),
        JoinOutcome::Full => response matches Ok(JoinResponse::Full {  }),
        JoinOutcome::Joined => {
            &&& response matches Ok(JoinResponse::Joined { self_id, peers, chat })
            &&& self_id@ == req.session_id@
            &&& text_views(peers@).no_duplicates()
            &&& text_views(peers@).to_set() == claimed_or_loaded(
                rooms,
                room_id,
                text_view(req.claim_password),
            ).inboxes.dom()
            &&& chat_views(chat@) == latest(log, RESYNC_MESSAGES as nat)
        },
    }
}

/// Joins (or claims) a room: `POST /room/:id/join`.
///
/// `peers` are the participants that were there before this attempt, in no particular
/// order. The joiner is announced from its event stream, not here: offering before the
/// joiner has a subscribed stream drops the offer and strands the pair.
pub fn handle_join<C: ChatStore>(
    state: &mut AppState<C>,
    room_id: &str,
    req: JoinRequest,
) -> (response: Result<JoinResponse, Refusal>)
    requires
        old(state).wf(),
    ensures
        final(state).wf(),
        final(state).settings() == old(state).settings(),
        forall|room: Seq<char>| #[trigger] final(state).log(room) == old(state).log(room),
        final(state).rooms() == after_request(
            old(state).rooms(),
            old(state).settings().max_participants as nat,
            Request::Join { room_id: room_id@, req },
        ),
        answers_join(
            response,
            old(state).rooms(),
            old(state).settings().max_participants as nat,
            old(state).log(room_id@),
            room_id@,
            req,
        ),
{
    let ghost rooms = state.rooms();
    let ghost max = state.max_participants as nat;
    let ghost claim = text_view(req.claim_password);
    let ghost target = claimed_or_loaded(rooms, room_id@, claim);
    if !is_valid_room_name(room_id) {
        return Err(Refusal::BadRequest);
    }
    match &req.claim_password {
        Some(pw) => {
            if pw.as_str().as_bytes().len() > MAX_PASSWORD_BYTES {
                return Err(Refusal::BadRequest);
            }
        },
        None => {},
    }

    // Claim or load the room. `is_new` is true only when this call created the room
    // with the claim password.
    let is_new = !state.rooms.contains_key(room_id);
    if is_new {
        match &req.claim_password {
            Some(pw) => {
                if pw.as_str().is_empty() {
                    return Ok(JoinResponse::NeedPassword {  });
                }
                state.rooms.insert(room_id.to_owned(), RoomState::new(Some(pw.clone())));
            },
            None => {
                return Ok(JoinResponse::NeedPassword {  });
            },
        }
        assert(room_is_sound(room_id@, target, max));
        assert(state.rooms() =~= rooms.insert(room_id@, target));
    } else {
        assert(rooms.insert(room_id@, target) =~= rooms);
    }
    let ghost loaded = state.rooms();
    let chat = state.chat.history(room_id, RESYNC_MESSAGES);
    let max_participants: usize = state.max_participants;
    match state.rooms.get_mut(room_id) {
        Some(room) => {
            // A brand-new room already passed the claim-password gate above.
            if !is_new {
                let supplied = match &req.password {
                    Some(pw) => Some(pw.as_str()),
                    None => None,
                };
                if check_password(room.password(), supplied) == AuthResult::PasswordRequired {
                    assert(state.rooms() =~= rooms);
                    return Ok(JoinResponse::PasswordRequired {  });
                }
            }
            let self_id = req.session_id.clone();
            if room.participant_count() >= max_participants && !room.is_participant(
                self_id.as_str(),
            ) {
                assert(state.rooms() =~= rooms.insert(room_id@, target));
                return Ok(JoinResponse::Full {  });
            }
            let peers = room.participant_ids();
            let name = match &req.display_name {
                Some(n) => Some(truncated(n.as_str(), MAX_NAME_CHARS)),
                None => None,
            };
            proof {
                lemma_admission_is_sound(
                    room_id@,
                    target,
                    self_id@,
                    text_view(name),
                    max,
                );
            }
            room.let_in(self_id.as_str(), name);
            assert(state.rooms() =~= rooms_after_join(rooms, max, room_id@, req));
            Ok(JoinResponse::Joined { self_id, peers, chat })
        },
        None => Ok(JoinResponse::NeedPassword {  }),
    }
}

/// The room, or why the session may not act in it.
fn require_room<'a, C: ChatStore>(
    state: &'a AppState<C>,
    room_id: &str,
    session_id: &str,
) -> (room: Result<&'a RoomState, Refusal>)
    requires
        state.wf(),
    ensures
        match room {
            Ok(room) => {
                &&& refusal(state.rooms(), room_id@, Some(session_id@)) is None
                &&& room.wf()
                &&& room@ == state.rooms()[room_id@]
            },
            Err(why) => refusal(state.rooms(), room_id@, Some(session_id@)) == Some(why),
        },
{
    match state.rooms.get(room_id) {
        Some(room) => {
            if room.is_participant(session_id) {
                Ok(room)
            } else {
                Err(Refusal::Forbidden)
            }
        },
        None => Err(Refusal::NotFound),
    }
}

/// The announcement of a participant whose event stream is up.
pub open spec fn joined_event(room: RoomView, session_id: Seq<char>) -> EventView {
    EventView::PeerJoined { peer_id: session_id, peer_name: room.name_of(session_id) }
}

/// Whether an event is the snapshot of a room that a participant's stream starts with.
pub open spec fn is_snapshot(
    event: EventView,
    room: RoomView,
    session_id: Seq<char>,
    log: Seq<ChatView>,
) -> bool {
    &&& event matches EventView::Resync { peers, chat }
    &&& is_presence_list(room, session_id, peers)
    &&& chat == latest(log, RESYNC_MESSAGES as nat)
}

/// What a participant that opens its stream makes of the rooms: everyone else in its room
/// is told that it is listening.
pub open spec fn after_opening(
    rooms: Map<Seq<char>, RoomView>,
    max_participants: nat,
    room_id: Seq<char>,
    session_id: Seq<char>,
) -> Map<Seq<char>, RoomView> {
    after_request(
        rooms,
        max_participants,
        Request::Tell {
            room_id,
            event: joined_event(rooms[room_id], session_id),
            exclude: Some(session_id),
        },
    )
}

/// Whether what is opened for a participant that wants to listen, and the rooms after it,
/// are what they have to be.
pub open spec fn answers_opening(
    opened: Result<(Receiver<SseEvent>, SseEvent), Refusal>,
    rooms: Map<Seq<char>, RoomView>,
    max_participants: nat,
    log: Seq<ChatView>,
    room_id: Seq<char>,
    session: Option<Seq<char>>,
    next: Map<Seq<char>, RoomView>,
) -> bool {
    match opened {
        Err(why) => refusal(rooms, room_id, session) == Some(why) && next == rooms,
        Ok((stream, resync)) => {
            &&& refusal(rooms, room_id, session) is None
            &&& session matches Some(session_id)
            &&& passed_over(stream) == rooms[room_id].inboxes[session_id]
            &&& is_snapshot(resync@, rooms[room_id], session_id, log)
            &&& next == after_opening(rooms, max_participants, room_id, session_id)
        },
    }
}

/// Opens a participant's event stream: `GET /room/:id/events`.
///
/// Returns the live stream and the snapshot to send before it. The snapshot heals any
/// gap (join → stream connect, or a reconnect): the stream carries exactly what is
/// posted to the participant afterwards. Everyone else is told that the participant is
/// listening, so that a peer that reacts by offering reaches it.
pub fn handle_sse<C: ChatStore>(
    state: &mut AppState<C>,
    room_id: &str,
    params: &Vec<(String, String)>,
) -> (opened: Result<(Receiver<SseEvent>, SseEvent), Refusal>)
    requires
        old(state).wf(),
    ensures
        final(state).wf(),
        final(state).settings() == old(state).settings(),
        forall|room: Seq<char>| #[trigger] final(state).log(room) == old(state).log(room),
        answers_opening(
            opened,
            old(state).rooms(),
            old(state).settings().max_participants as nat,
            old(state).log(room_id@),
            room_id@,
            session_of(params@),
            final(state).rooms(),
        ),
{
    let ghost rooms = state.rooms();
    let session_id = match require_session(params) {
        Ok(id) => id,
        Err(why) => return Err(why),
    };
    let (stream, peers, peer_name) = match require_room(&*state, room_id, session_id) {
        Ok(room) => {
            let stream = match room.subscribe(session_id) {
                Some(stream) => stream,
                None => return Err(Refusal::Forbidden),
            };
            (stream, room.others(session_id), room.display_name(session_id))
        },
        Err(why) => return Err(why),
    };
    let chat = state.chat.history(room_id, RESYNC_MESSAGES);
    let joined = SseEvent::PeerJoined { peer_id: session_id.to_owned(), peer_name };
    match state.rooms.get_mut(room_id) {
        Some(room) => {
            room.broadcast(&joined, Some(session_id));
        },
        None => {},
    }
    proof {
        let room = rooms[room_id@];
        let after = room.after_broadcast(joined@, Some(session_id@));
        lemma_delivery_is_sound(room_id@, room, after, state.max_participants as nat);
        assert(state.rooms() =~= rooms.insert(room_id@, after));
    }
    Ok((stream, SseEvent::Resync { peers, chat }))
}

/// Why the server ends an event stream. The connection is closed; the browser
/// reconnects by itself and gets a fresh snapshot.
#[derive(Debug, Clone, Copy, PartialEq, Eq, Structural)]
pub enum StreamEnd {
    /// The client did not keep up, and events it was owed are gone.
    FellBehind,
}

impl StreamEnd {
    /// What to say about it.
    pub fn message(self) -> (text: &'static str)
        ensures
            text@ == "SSE stream ended (client fell behind)"@,
    {
        "SSE stream ended (client fell behind)"
    }
}

/// The next item of an event stream, from what was received for it: an event, or none
/// where events were lost. A stream with a gap is ended rather than continued.
pub fn stream_item(received: Option<SseEvent>) -> (item: Result<SseEvent, StreamEnd>)
    ensures
        item == (match received {
            Some(event) => Ok::<SseEvent, StreamEnd>(event),
            None => Err::<SseEvent, StreamEnd>(StreamEnd::FellBehind),
        }),
{
    match received {
        Some(event) => Ok(event),
        None => Err(StreamEnd::FellBehind),
    }
}

/// Who gets a signal, and as which event.
pub open spec fn relayed(signal: SignalView, from: Seq<char>) -> Option<(Seq<char>, EventView)> {
    match signal {
        SignalView::Offer { to, sdp } => Some((to, EventView::Offer { from, sdp })),
        SignalView::Answer { to, sdp } => Some((to, EventView::Answer { from, sdp })),
        SignalView::IceCandidate { to, candidate, sdp_mid, sdp_mline_index } => Some(
            (to, EventView::IceCandidate { from, candidate, sdp_mid, sdp_mline_index }),
        ),
        SignalView::Renegotiate => None,
    }
}

/// The room after a signal was relayed.
pub open spec fn room_after_signal(room: RoomView, signal: SignalView, from: Seq<char>) -> RoomView {
    match relayed(signal, from) {
        Some((to, event)) => room.after_send_to(to, event),
        None => room,
    }
}

/// Whether a response is the one to a signal, and the rooms after it are what it makes of
/// them.
pub open spec fn answers_signal(
    done: Result<(), Refusal>,
    rooms: Map<Seq<char>, RoomView>,
    max_participants: nat,
    room_id: Seq<char>,
    session: Option<Seq<char>>,
    signal: SignalView,
    next: Map<Seq<char>, RoomView>,
) -> bool {
    match done {
        Err(why) => refusal(rooms, room_id, session) == Some(why) && next == rooms,
        Ok(_) => {
            &&& refusal(rooms, room_id, session) is None
            &&& session matches Some(from)
            &&& next == after_request(
                rooms,
                max_participants,
                Request::Signal { room_id, signal, from },
            )
        },
    }
}

/// Relays one media signal to the participant it is addressed to:
/// `POST /room/:id/signal`.
///
/// Not a room broadcast on purpose: every peer would otherwise see every offer, answer
/// and candidate, and a peer cannot tell a candidate meant for a third party from one
/// meant for it. A peer that left mid-signal is not the sender's problem: the pair is
/// rebuilt from the next `resync`, so reporting it as failure would only invite retries.
pub fn handle_signal<C: ChatStore>(
    state: &mut AppState<C>,
    room_id: &str,
    params: &Vec<(String, String)>,
    signal: SignalMessage,
) -> (done: Result<(), Refusal>)
    requires
        old(state).wf(),
    ensures
        final(state).wf(),
        final(state).settings() == old(state).settings(),
        forall|room: Seq<char>| #[trigger] final(state).log(room) == old(state).log(room),
        answers_signal(
            done,
            old(state).rooms(),
            old(state).settings().max_participants as nat,
            room_id@,
            session_of(params@),
            signal@,
            final(state).rooms(),
        ),
{
    let ghost rooms = state.rooms();
    let ghost room = rooms[room_id@];
    let from = match require_session(params) {
        Ok(id) => id,
        Err(why) => return Err(why),
    };
    match require_room(&*state, room_id, from) {
        Ok(_) => {},
        Err(why) => return Err(why),
    }
    let addressed: Option<(String, SseEvent)> = match signal {
        SignalMessage::Offer { to, sdp } => Some(
            (to, SseEvent::Offer { from: from.to_owned(), sdp }),
        ),
        SignalMessage::Answer { to, sdp } => Some(
            (to, SseEvent::Answer { from: from.to_owned(), sdp }),
        ),
        SignalMessage::IceCandidate { to, candidate, sdp_mid, sdp_mline_index } => Some(
            (
                to,
                SseEvent::IceCandidate {
                    from: from.to_owned(),
                    candidate,
                    sdp_mid,
                    sdp_mline_index,
                },
            ),
        ),
        SignalMessage::Renegotiate => None,
    };
    match addressed {
        Some((to, event)) => {
            match state.rooms.get_mut(room_id) {
                Some(target) => {
                    target.send_to(to.as_str(), &event);
                },
                None => {},
            }
        },
        None => {},
    }
    proof {
        let after = room_after_signal(room, signal@, from@);
        lemma_delivery_is_sound(room_id@, room, after, state.max_participants as nat);
        assert(state.rooms() =~= rooms.insert(room_id@, after));
    }
    Ok(())
}

/// The message that a chat request amounts to.
pub open spec fn chat_entry(
    room_id: Seq<char>,
    sender_id: Seq<char>,
    body: ChatSendRequest,
    timestamp_ms: u64,
) -> ChatView {
    ChatView {
        room: room_id,
        sender_id,
        sender_name: text_view(body.sender_name),
        text: first_chars(body.text@, MAX_TEXT_CHARS as nat),
        timestamp_ms,
    }
}

/// The event that tells a room of a chat message.
pub open spec fn chat_event(msg: ChatView) -> EventView {
    EventView::ChatMessage {
        from: msg.sender_id,
        sender_name: msg.sender_name,
        text: msg.text,
        timestamp_ms: msg.timestamp_ms,
    }
}

/// Why a chat request is not served, if it is not.
pub open spec fn chat_refusal(
    rooms: Map<Seq<char>, RoomView>,
    room_id: Seq<char>,
    session: Option<Seq<char>>,
    text: Seq<char>,
) -> Option<Refusal> {
    match refusal(rooms, room_id, session) {
        Some(why) => Some(why),
        None => if text.len() == 0 {
            Some(Refusal::BadRequest)
        } else {
            None
        },
    }
}

/// What a chat message makes of the rooms: everyone in its room is told.
pub open spec fn after_chat(
    rooms: Map<Seq<char>, RoomView>,
    max_participants: nat,
    msg: ChatView,
) -> Map<Seq<char>, RoomView> {
    after_request(
        rooms,
        max_participants,
        Request::Tell { room_id: msg.room, event: chat_event(msg), exclude: None },
    )
}

/// Whether a response is the one to a chat message, and the rooms and the room's log after
/// it are what it makes of them.
pub open spec fn answers_chat<C: ChatStore>(
    done: Result<(), Refusal>,
    before: (Map<Seq<char>, RoomView>, Seq<ChatView>),
    max_participants: nat,
    room_id: Seq<char>,
    session: Option<Seq<char>>,
    body: ChatSendRequest,
    timestamp_ms: u64,
    next: (Map<Seq<char>, RoomView>, Seq<ChatView>),
) -> bool {
    match done {
        Err(why) => {
            &&& chat_refusal(before.0, room_id, session, body.text@) == Some(why)
            &&& next.0 == before.0
            &&& next.1 == before.1
        },
        Ok(_) => {
            &&& chat_refusal(before.0, room_id, session, body.text@) is None
            &&& session matches Some(sender_id)
            &&& next.1 == C::kept(
                before.1,
                chat_entry(room_id, sender_id, body, timestamp_ms),
            )
            &&& next.0 == after_chat(
                before.0,
                max_participants,
                chat_entry(room_id, sender_id, body, timestamp_ms),
            )
        },
    }
}

/// Stores a chat message and tells everyone in the room, the sender included:
/// `POST /room/:id/chat`. `timestamp_ms` is the time of the request, in milliseconds
/// since the Unix epoch.
pub fn handle_chat_send<C: ChatStore>(
    state: &mut AppState<C>,
    room_id: &str,
    params: &Vec<(String, String)>,
    body: ChatSendRequest,
    timestamp_ms: u64,
) -> (done: Result<(), Refusal>)
    requires
        old(state).wf(),
    ensures
        final(state).wf(),
        final(state).settings() == old(state).settings(),
        forall|room: Seq<char>|
            room != room_id@ ==> #[trigger] final(state).log(room) == old(state).log(room),
        answers_chat::<C>(
            done,
            (old(state).rooms(), old(state).log(room_id@)),
            old(state).settings().max_participants as nat,
            room_id@,
            session_of(params@),
            body,
            timestamp_ms,
            (final(state).rooms(), final(state).log(room_id@)),
        ),
{
    let ghost rooms = state.rooms();
    let sender_id = match require_session(params) {
        Ok(id) => id,
        Err(why) => return Err(why),
    };
    match require_room(&*state, room_id, sender_id) {
        Ok(_) => {},
        Err(why) => return Err(why),
    }
    let text = truncated(body.text.as_str(), MAX_TEXT_CHARS);
    if text.as_str().is_empty() {
        return Err(Refusal::BadRequest);
    }
    let msg = ChatMessage {
        room: room_id.to_owned(),
        sender_id: sender_id.to_owned(),
        sender_name: clone_text(&body.sender_name),
        text,
        timestamp_ms,
    };
    state.chat.append(&msg);
    let event = SseEvent::ChatMessage {
        from: sender_id.to_owned(),
        sender_name: msg.sender_name,
        text: msg.text,
        timestamp_ms,
    };
    match state.rooms.get_mut(room_id) {
        Some(room) => {
            room.broadcast(&event, None);
        },
        None => {},
    }
    proof {
        let room = rooms[room_id@];
        let after = room.after_broadcast(event@, None);
        lemma_delivery_is_sound(room_id@, room, after, state.max_participants as nat);
        assert(state.rooms() =~= rooms.insert(room_id@, after));
    }
    Ok(())
}

/// The last 100 chat messages of a room: `GET /room/:id/chat/history`.
pub fn handle_chat_history<C: ChatStore>(
    state: &AppState<C>,
    room_id: &str,
    params: &Vec<(String, String)>,
) -> (messages: Result<Vec<ChatMessage>, Refusal>)
    requires
        state.wf(),
    ensures
        match messages {
            Err(why) => refusal(state.rooms(), room_id@, session_of(params@)) == Some(why),
            Ok(list) => {
                &&& refusal(state.rooms(), room_id@, session_of(params@)) is None
                &&& chat_views(list@) == latest(state.log(room_id@), HISTORY_MESSAGES as nat)
            },
        },
{
    let session_id = match require_session(params) {
        Ok(id) => id,
        Err(why) => return Err(why),
    };
    match require_room(state, room_id, session_id) {
        Ok(_) => Ok(state.chat.history(room_id, HISTORY_MESSAGES)),
        Err(why) => Err(why),
    }
}

/// Fresh TURN credentials for the configured server, good for an hour from
/// `now_secs`, the current Unix time: `GET /turn-credentials`.
pub fn handle_turn<C: ChatStore>(state: &AppState<C>, now_secs: u64) -> (creds: TurnCredentials)
    requires
        now_secs + TURN_TTL_SECS <= u64::MAX,
    ensures
        exists|random_id: u64| #[trigger]
            are_credentials(
                creds,
                state.settings().turn_secret,
                state.settings().turn_host,
                state.settings().turn_port,
                TURN_TTL_SECS,
                (now_secs + TURN_TTL_SECS) as u64,
                random_id,
            ),
        creds.credential@.len() == 28,
{
    let creds = generate_credentials(
        state.turn_secret.as_str(),
        state.turn_host.as_str(),
        state.turn_port,
        TURN_TTL_SECS,
        now_secs,
    );
    proof {
        let expires = (now_secs + TURN_TTL_SECS) as u64;
        let settings = state.settings();
        let random_id = choose|random_id: u64| #[trigger]
            are_credentials(
                creds,
                state.turn_secret@,
                state.turn_host@,
                state.turn_port,
                TURN_TTL_SECS,
                expires,
                random_id,
            );
        assert(are_credentials(
            creds,
            settings.turn_secret,
            settings.turn_host,
            settings.turn_port,
            TURN_TTL_SECS,
            expires,
            random_id,
        ));
    }
    creds
}

} // verus!

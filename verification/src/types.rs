//! The messages that travel between a browser and the room server.
//!
//! Every message has a view: the same message with its texts as character
//! sequences. Contracts speak of the views, so two messages are the same when
//! they say the same thing.

use vstd::prelude::*;

verus! {

/// The view of an optional text.
pub open spec fn text_view(text: Option<String>) -> Option<Seq<char>> {
    match text {
        Some(s) => Some(s@),
        None => None,
    }
}

/// The view of an optional borrowed text.
pub open spec fn str_view(text: Option<&str>) -> Option<Seq<char>> {
    match text {
        Some(s) => Some(s@),
        None => None,
    }
}

/// The views of a list of texts.
pub open spec fn text_views(texts: Seq<String>) -> Seq<Seq<char>> {
    texts.map_values(|s: String| s@)
}

/// Copies an optional text.
pub fn clone_text(text: &Option<String>) -> (copy: Option<String>)
    ensures
        copy == *text,
{
    match text {
        Some(s) => Some(s.clone()),
        None => None,
    }
}

/// A signaling message sent client → server via `POST /api/room/:id/signal`.
///
/// Media signals carry the participant they are meant for.
#[derive(Debug, Clone)]
pub enum SignalMessage {
    Offer { to: String, sdp: String },
    Answer { to: String, sdp: String },
    IceCandidate {
        to: String,
        candidate: String,
        sdp_mid: Option<String>,
        sdp_mline_index: Option<u16>,
    },
    /// Accepted, and relayed to nobody: tracks are not renegotiated yet.
    Renegotiate,
}

/// The view of a [`SignalMessage`].
pub enum SignalView {
    Offer { to: Seq<char>, sdp: Seq<char> },
    Answer { to: Seq<char>, sdp: Seq<char> },
    IceCandidate {
        to: Seq<char>,
        candidate: Seq<char>,
        sdp_mid: Option<Seq<char>>,
        sdp_mline_index: Option<u16>,
    },
    Renegotiate,
}

impl View for SignalMessage {
    type V = SignalView;

    open spec fn view(&self) -> SignalView {
        match *self {
            SignalMessage::Offer { to, sdp } => SignalView::Offer { to: to@, sdp: sdp@ },
            SignalMessage::Answer { to, sdp } => SignalView::Answer { to: to@, sdp: sdp@ },
            SignalMessage::IceCandidate { to, candidate, sdp_mid, sdp_mline_index } => {
                SignalView::IceCandidate {
                    to: to@,
                    candidate: candidate@,
                    sdp_mid: text_view(sdp_mid),
                    sdp_mline_index,
                }
            },
            SignalMessage::Renegotiate => SignalView::Renegotiate,
        }
    }
}

/// A chat message, as the server stores it and the client displays it.
#[derive(Debug, PartialEq)]
pub struct ChatMessage {
    pub room: String,
    pub sender_id: String,
    pub sender_name: Option<String>,
    pub text: String,
    pub timestamp_ms: u64,
}

/// The view of a [`ChatMessage`].
pub struct ChatView {
    pub room: Seq<char>,
    pub sender_id: Seq<char>,
    pub sender_name: Option<Seq<char>>,
    pub text: Seq<char>,
    pub timestamp_ms: u64,
}

impl View for ChatMessage {
    type V = ChatView;

    open spec fn view(&self) -> ChatView {
        ChatView {
            room: self.room@,
            sender_id: self.sender_id@,
            sender_name: text_view(self.sender_name),
            text: self.text@,
            timestamp_ms: self.timestamp_ms,
        }
    }
}

/// The views of a list of chat messages.
pub open spec fn chat_views(messages: Seq<ChatMessage>) -> Seq<ChatView> {
    messages.map_values(|m: ChatMessage| m@)
}

impl Clone for ChatMessage {
    fn clone(&self) -> (copy: Self)
        ensures
            copy == *self,
    {
        ChatMessage {
            room: self.room.clone(),
            sender_id: self.sender_id.clone(),
            sender_name: clone_text(&self.sender_name),
            text: self.text.clone(),
            timestamp_ms: self.timestamp_ms,
        }
    }
}

/// Copies a list of chat messages.
pub fn clone_chat(messages: &Vec<ChatMessage>) -> (copy: Vec<ChatMessage>)
    ensures
        copy@ == messages@,
{
    let mut copy: Vec<ChatMessage> = Vec::new();
    let mut i: usize = 0;
    while i < messages.len()
        invariant
            i <= messages.len(),
            copy@ == messages@.take(i as int),
        decreases messages.len() - i,
    {
        copy.push(messages[i].clone());
        i += 1;
        assert(messages@.take(i as int) =~= messages@.take(i - 1).push(messages@[i - 1]));
    }
    assert(messages@.take(i as int) =~= messages@);
    copy
}

/// A chat message sent client → server via `POST /api/room/:id/chat`.
#[derive(Debug, Clone)]
pub struct ChatSendRequest {
    pub text: String,
    pub sender_name: Option<String>,
}

/// One other participant, as presence lists show it.
#[derive(Debug, PartialEq)]
pub struct PeerInfo {
    pub peer_id: String,
    pub peer_name: Option<String>,
}

/// The view of a [`PeerInfo`].
pub struct PeerView {
    pub peer_id: Seq<char>,
    pub peer_name: Option<Seq<char>>,
}

impl View for PeerInfo {
    type V = PeerView;

    open spec fn view(&self) -> PeerView {
        PeerView { peer_id: self.peer_id@, peer_name: text_view(self.peer_name) }
    }
}

/// The views of a presence list.
pub open spec fn peer_views(peers: Seq<PeerInfo>) -> Seq<PeerView> {
    peers.map_values(|p: PeerInfo| p@)
}

impl Clone for PeerInfo {
    fn clone(&self) -> (copy: Self)
        ensures
            copy == *self,
    {
        PeerInfo { peer_id: self.peer_id.clone(), peer_name: clone_text(&self.peer_name) }
    }
}

/// Copies a presence list.
pub fn clone_peers(peers: &Vec<PeerInfo>) -> (copy: Vec<PeerInfo>)
    ensures
        copy@ == peers@,
{
    let mut copy: Vec<PeerInfo> = Vec::new();
    let mut i: usize = 0;
    while i < peers.len()
        invariant
            i <= peers.len(),
            copy@ == peers@.take(i as int),
        decreases peers.len() - i,
    {
        copy.push(peers[i].clone());
        i += 1;
        assert(peers@.take(i as int) =~= peers@.take(i - 1).push(peers@[i - 1]));
    }
    assert(peers@.take(i as int) =~= peers@);
    copy
}

/// Events pushed server → client over the room's event stream.
#[derive(Debug)]
pub enum SseEvent {
    /// The room as it is right now: sent once on every (re)connect, before
    /// anything else, and it replaces whatever the client had.
    Resync { peers: Vec<PeerInfo>, chat: Vec<ChatMessage> },
    PeerJoined { peer_id: String, peer_name: Option<String> },
    PeerLeft { peer_id: String },
    Offer { from: String, sdp: String },
    Answer { from: String, sdp: String },
    IceCandidate {
        from: String,
        candidate: String,
        sdp_mid: Option<String>,
        sdp_mline_index: Option<u16>,
    },
    ChatMessage { from: String, sender_name: Option<String>, text: String, timestamp_ms: u64 },
    RoomFull,
    Error { message: String },
}

/// The view of an [`SseEvent`].
pub enum EventView {
    Resync { peers: Seq<PeerView>, chat: Seq<ChatView> },
    PeerJoined { peer_id: Seq<char>, peer_name: Option<Seq<char>> },
    PeerLeft { peer_id: Seq<char> },
    Offer { from: Seq<char>, sdp: Seq<char> },
    Answer { from: Seq<char>, sdp: Seq<char> },
    IceCandidate {
        from: Seq<char>,
        candidate: Seq<char>,
        sdp_mid: Option<Seq<char>>,
        sdp_mline_index: Option<u16>,
    },
    ChatMessage {
        from: Seq<char>,
        sender_name: Option<Seq<char>>,
        text: Seq<char>,
        timestamp_ms: u64,
    },
    RoomFull,
    Error { message: Seq<char> },
}

impl View for SseEvent {
    type V = EventView;

    open spec fn view(&self) -> EventView {
        match *self {
            SseEvent::Resync { peers, chat } => EventView::Resync {
                peers: peer_views(peers@),
                chat: chat_views(chat@),
            },
            SseEvent::PeerJoined { peer_id, peer_name } => EventView::PeerJoined {
                peer_id: peer_id@,
                peer_name: text_view(peer_name),
            },
            SseEvent::PeerLeft { peer_id } => EventView::PeerLeft { peer_id: peer_id@ },
            SseEvent::Offer { from, sdp } => EventView::Offer { from: from@, sdp: sdp@ },
            SseEvent::Answer { from, sdp } => EventView::Answer { from: from@, sdp: sdp@ },
            SseEvent::IceCandidate { from, candidate, sdp_mid, sdp_mline_index } => {
                EventView::IceCandidate {
                    from: from@,
                    candidate: candidate@,
                    sdp_mid: text_view(sdp_mid),
                    sdp_mline_index,
                }
            },
            SseEvent::ChatMessage { from, sender_name, text, timestamp_ms } => {
                EventView::ChatMessage {
                    from: from@,
                    sender_name: text_view(sender_name),
                    text: text@,
                    timestamp_ms,
                }
            },
            SseEvent::RoomFull => EventView::RoomFull,
            SseEvent::Error { message } => EventView::Error { message: message@ },
        }
    }
}

impl Clone for SseEvent {
    fn clone(&self) -> (copy: Self)
        ensures
            copy@ == self@,
    {
        match self {
            SseEvent::Resync { peers, chat } => SseEvent::Resync {
                peers: clone_peers(peers),
                chat: clone_chat(chat),
            },
            SseEvent::PeerJoined { peer_id, peer_name } => SseEvent::PeerJoined {
                peer_id: peer_id.clone(),
                peer_name: clone_text(peer_name),
            },
            SseEvent::PeerLeft { peer_id } => SseEvent::PeerLeft { peer_id: peer_id.clone() },
            SseEvent::Offer { from, sdp } => SseEvent::Offer {
                from: from.clone(),
                sdp: sdp.clone(),
            },
            SseEvent::Answer { from, sdp } => SseEvent::Answer {
                from: from.clone(),
                sdp: sdp.clone(),
            },
            SseEvent::IceCandidate { from, candidate, sdp_mid, sdp_mline_index } => {
                SseEvent::IceCandidate {
                    from: from.clone(),
                    candidate: candidate.clone(),
                    sdp_mid: clone_text(sdp_mid),
                    sdp_mline_index: *sdp_mline_index,
                }
            },
            SseEvent::ChatMessage { from, sender_name, text, timestamp_ms } => {
                SseEvent::ChatMessage {
                    from: from.clone(),
                    sender_name: clone_text(sender_name),
                    text: text.clone(),
                    timestamp_ms: *timestamp_ms,
                }
            },
            SseEvent::RoomFull => SseEvent::RoomFull,
            SseEvent::Error { message } => SseEvent::Error { message: message.clone() },
        }
    }
}

/// Response from `GET /api/turn-credentials`.
#[derive(Debug, Clone)]
pub struct TurnCredentials {
    pub urls: Vec<String>,
    pub username: String,
    pub credential: String,
    pub ttl_secs: u64,
}

/// Response from `POST /api/room/:id/join`.
#[derive(Debug, Clone)]
pub enum JoinResponse {
    /// The room does not exist yet: the caller must set a password to claim it.
    NeedPassword {},
    /// The room is locked, and the password was missing or wrong.
    PasswordRequired {},
    /// The caller is in: its own id, who was there before it, and what was said.
    Joined {
        self_id: String,
        peers: Vec<String>,
        /// Recent chat history (last 50 messages)
        chat: Vec<ChatMessage>,
    },
    /// The room is at capacity.
    Full {},
}

/// Request body for `POST /api/room/:id/join`.
#[derive(Debug, Clone)]
pub struct JoinRequest {
    /// Existing password (for joining a room that already has one)
    pub password: Option<String>,
    /// First-time password claim (for creating a room)
    pub claim_password: Option<String>,
    /// Persistent session id (UUID from sessionStorage)
    pub session_id: String,
    /// Optional human-readable display name
    pub display_name: Option<String>,
    /// Optional stable user id (persisted in cookie for future auth)
    pub user_id: Option<String>,
}

/// A message, a peer and a text are seen as they are, wherever they stand in a list.
pub proof fn law_lists_are_seen_item_by_item(
    messages: Seq<ChatMessage>,
    peers: Seq<PeerInfo>,
    texts: Seq<String>,
    i: int,
)
    ensures
        chat_views(messages).len() == messages.len(),
        peer_views(peers).len() == peers.len(),
        text_views(texts).len() == texts.len(),
        0 <= i < messages.len() ==> {
            let seen = chat_views(messages)[i];
            &&& seen.room == messages[i].room@
            &&& seen.sender_id == messages[i].sender_id@
            &&& seen.sender_name == text_view(messages[i].sender_name)
            &&& seen.text == messages[i].text@
            &&& seen.timestamp_ms == messages[i].timestamp_ms
        },
        0 <= i < peers.len() ==> {
            let seen = peer_views(peers)[i];
            &&& seen.peer_id == peers[i].peer_id@
            &&& seen.peer_name == text_view(peers[i].peer_name)
        },
        0 <= i < texts.len() ==> text_views(texts)[i] == texts[i]@,
{
}

/// A text that may be missing is seen as it is.
pub proof fn law_a_text_is_seen_where_there_is_one(text: Option<String>)
    ensures
        text matches Some(t) ==> text_view(text) == Some(t@),
        text is None <==> text_view(text) is None,
{
}

/// An event is seen as the kind of event that it is, with all that it holds.
pub proof fn law_events_are_seen_whole(event: SseEvent)
    ensures
        event matches SseEvent::Resync { peers, chat } ==> event@ == (EventView::Resync {
            peers: peer_views(peers@),
            chat: chat_views(chat@),
        }),
        event matches SseEvent::PeerJoined { peer_id, peer_name } ==> event@
            == (EventView::PeerJoined { peer_id: peer_id@, peer_name: text_view(peer_name) }),
        event matches SseEvent::PeerLeft { peer_id } ==> event@ == (EventView::PeerLeft {
            peer_id: peer_id@,
        }),
        event matches SseEvent::Offer { from, sdp } ==> event@ == (EventView::Offer {
            from: from@,
            sdp: sdp@,
        }),
        event matches SseEvent::Answer { from, sdp } ==> event@ == (EventView::Answer {
            from: from@,
            sdp: sdp@,
        }),
        event matches SseEvent::IceCandidate { from, candidate, sdp_mid, sdp_mline_index }
            ==> event@ == (EventView::IceCandidate {
            from: from@,
            candidate: candidate@,
            sdp_mid: text_view(sdp_mid),
            sdp_mline_index,
        }),
        event matches SseEvent::ChatMessage { from, sender_name, text, timestamp_ms } ==> event@
            == (EventView::ChatMessage {
            from: from@,
            sender_name: text_view(sender_name),
            text: text@,
            timestamp_ms,
        }),
        event is RoomFull <==> event@ is RoomFull,
        event matches SseEvent::Error { message } ==> event@ == (EventView::Error {
            message: message@,
        }),
{
}

/// A signal is seen as the kind of signal that it is, with all that it holds.
pub proof fn law_signals_are_seen_whole(signal: SignalMessage)
    ensures
        signal matches SignalMessage::Offer { to, sdp } ==> signal@ == (SignalView::Offer {
            to: to@,
            sdp: sdp@,
        }),
        signal matches SignalMessage::Answer { to, sdp } ==> signal@ == (SignalView::Answer {
            to: to@,
            sdp: sdp@,
        }),
        signal matches SignalMessage::IceCandidate { to, candidate, sdp_mid, sdp_mline_index }
            ==> signal@ == (SignalView::IceCandidate {
            to: to@,
            candidate: candidate@,
            sdp_mid: text_view(sdp_mid),
            sdp_mline_index,
        }),
        signal is Renegotiate <==> signal@ is Renegotiate,
{
}

} // verus!

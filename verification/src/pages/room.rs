//! The room page: joining, presence, chat, and who is shown large.
//!
//! [`RoomUi`] is everything the page shows. User actions and room events change it
//! through the functions here, which also say what has to be done outside: requests to
//! make, steps for the mesh to take.

use vstd::prelude::*;
use vstd::string::*;

use crate::pages::home::{cookie_in, cookie_line, get_cookie, set_cookie};
use crate::scan::{is_blank, trimmed_text};
use crate::services::signaling::{chat_body, RoomStatus, StatusView};
use crate::services::webrtc::{step_views, steps_for, Mesh, MeshStep, StepView};
use crate::services::{is_usable_id, is_uuid_v4, kept_or_new_id};
use crate::text::{decimal_text, digit_char, first_chars, same, truncated, two_digits};
use crate::types::{
    chat_views, clone_text, peer_views, text_view, ChatMessage, ChatSendRequest, ChatView,
    EventView, JoinRequest, JoinResponse, PeerInfo, PeerView, SseEvent,
};

verus! {

/// How often the stage asks the meter who is loudest, in milliseconds. Fast enough that
/// a change of speaker lands before you finish noticing the old one; slow enough that
/// the poll is not itself something you can hear.
pub const LEVEL_POLL_MS: u64 = 350;

/// A chat message as displayed in the UI
#[derive(Debug, Clone, PartialEq)]
pub struct UiChatMsg {
    pub from: String,
    pub sender_name: String,
    pub text: String,
    /// Local HH:MM, for display
    pub time: String,
    /// Server timestamp, part of the list key (with the index)
    pub timestamp_ms: u64,
    pub own: bool,
}

/// The view of a [`UiChatMsg`].
pub struct UiChatView {
    pub from: Seq<char>,
    pub sender_name: Seq<char>,
    pub text: Seq<char>,
    pub time: Seq<char>,
    pub timestamp_ms: u64,
    pub own: bool,
}

impl View for UiChatMsg {
    type V = UiChatView;

    open spec fn view(&self) -> UiChatView {
        UiChatView {
            from: self.from@,
            sender_name: self.sender_name@,
            text: self.text@,
            time: self.time@,
            timestamp_ms: self.timestamp_ms,
            own: self.own,
        }
    }
}

/// The views of the chat as displayed.
pub open spec fn ui_chat_views(messages: Seq<UiChatMsg>) -> Seq<UiChatView> {
    messages.map_values(|m: UiChatMsg| m@)
}

/// The views of a list of events.
pub open spec fn event_views(events: Seq<SseEvent>) -> Seq<EventView> {
    events.map_values(|e: SseEvent| e@)
}

/// How to authenticate a join attempt. The server distinguishes "room does not exist,
/// claim it" from "room is locked, unlock it", so the UI can ask for the right thing
/// without guessing.
#[derive(Debug, Clone)]
pub enum Creds {
    /// No password (works for a room that has none, and is how we discover whether a
    /// claim or a verification is needed).
    Anonymous,
    /// Claim a brand-new room under this password.
    Claim(String),
    /// Unlock an existing room with this password.
    Verify(String),
}

/// The view of [`Creds`].
pub enum CredsView {
    Anonymous,
    Claim(Seq<char>),
    Verify(Seq<char>),
}

impl View for Creds {
    type V = CredsView;

    open spec fn view(&self) -> CredsView {
        match *self {
            Creds::Anonymous => CredsView::Anonymous,
            Creds::Claim(password) => CredsView::Claim(password@),
            Creds::Verify(password) => CredsView::Verify(password@),
        }
    }
}

/// A join attempt under way.
#[derive(Debug)]
pub struct JoinAttempt {
    pub request: JoinRequest,
    /// A password was given for a locked room. Distinguishes "this room is locked" from
    /// "you typed the wrong password".
    pub verifying: bool,
}

/// A chat message on its way to the server.
#[derive(Debug)]
pub struct ChatPost {
    pub session_id: String,
    pub body: ChatSendRequest,
}

/// What the room page shows.
#[derive(Debug)]
pub struct RoomUi {
    pub status: RoomStatus,
    /// The last verification attempt was rejected, so the password form can say so instead of
    /// silently redrawing the same form.
    pub bad_password: bool,
    /// Session id issued by the join; required by every other room endpoint.
    pub self_id: Option<String>,
    pub display_name: String,
    /// Stable user ID
    pub user_id: String,
    pub peers: Vec<PeerInfo>,
    /// Who the level meter currently hands the large tile to. `None` while the room is
    /// quiet, which is exactly when the stage needs a fallback.
    pub speaker: Option<String>,
    pub chat: Vec<UiChatMsg>,
    /// The chat is an overlay the user opens, not part of the page flow, so it carries
    /// its own open flag and its backlog.
    pub chat_open: bool,
    pub unread: u32,
    pub chat_input: String,
    pub chat_error: Option<String>,
    /// Whether there is a mesh, and the room events that arrived while there was none,
    /// to be replayed into it as soon as it exists.
    pub meshed: bool,
    pub early: Vec<SseEvent>,
}

/// The view of a [`RoomUi`].
#[verifier::ext_equal]
pub struct RoomUiView {
    pub status: StatusView,
    pub bad_password: bool,
    pub self_id: Option<Seq<char>>,
    pub display_name: Seq<char>,
    pub user_id: Seq<char>,
    pub peers: Seq<PeerView>,
    pub speaker: Option<Seq<char>>,
    pub chat: Seq<UiChatView>,
    pub chat_open: bool,
    pub unread: u32,
    pub chat_input: Seq<char>,
    pub chat_error: Option<Seq<char>>,
    pub meshed: bool,
    pub early: Seq<EventView>,
}

impl View for RoomUi {
    type V = RoomUiView;

    open spec fn view(&self) -> RoomUiView {
        RoomUiView {
            status: self.status@,
            bad_password: self.bad_password,
            self_id: text_view(self.self_id),
            display_name: self.display_name@,
            user_id: self.user_id@,
            peers: peer_views(self.peers@),
            speaker: text_view(self.speaker),
            chat: ui_chat_views(self.chat@),
            chat_open: self.chat_open,
            unread: self.unread,
            chat_input: self.chat_input@,
            chat_error: text_view(self.chat_error),
            meshed: self.meshed,
            early: event_views(self.early@),
        }
    }
}

/// A number below a hundred on two digits.
pub open spec fn two_digit_text(n: u32) -> Seq<char> {
    if n < 10 {
        seq!['0', digit_char(n as nat)]
    } else {
        decimal_text(n as nat)
    }
}

/// A time of day as `HH:MM`.
pub open spec fn clock_text(time: (u32, u32)) -> Seq<char> {
    two_digit_text(time.0) + ":"@ + two_digit_text(time.1)
}

/// Local time of day (HH:MM), from its hours and minutes.
/// A bare `HH:MM` is a valid HTML time string, so `<time>` can render it.
pub fn format_time(time: (u32, u32)) -> (text: String)
    ensures
        text@ == clock_text(time),
{
    two_digits(time.0).concat(":").concat(two_digits(time.1).as_str())
}

/// The name to show for a sender who may not have given one.
pub open spec fn name_or_anonymous(name: Option<Seq<char>>) -> Seq<char> {
    match name {
        Some(n) => n,
        None => "Anonymous"@,
    }
}

/// A chat message as displayed to a participant, with its local time of day.
pub open spec fn shown_chat(
    from: Seq<char>,
    sender_name: Option<Seq<char>>,
    text: Seq<char>,
    timestamp_ms: u64,
    mine: Option<Seq<char>>,
    time: (u32, u32),
) -> UiChatView {
    UiChatView {
        from,
        sender_name: name_or_anonymous(sender_name),
        text,
        time: clock_text(time),
        timestamp_ms,
        own: mine == Some(from),
    }
}

/// A stored chat message as displayed to a participant.
pub open spec fn shown_message(
    msg: ChatView,
    mine: Option<Seq<char>>,
    time: (u32, u32),
) -> UiChatView {
    shown_chat(msg.sender_id, msg.sender_name, msg.text, msg.timestamp_ms, mine, time)
}

/// A chat history as displayed to a participant.
pub open spec fn shown_history(
    chat: Seq<ChatView>,
    mine: Option<Seq<char>>,
    times: Seq<(u32, u32)>,
) -> Seq<UiChatView> {
    Seq::new(chat.len(), |i: int| shown_message(chat[i], mine, times[i]))
}

/// Whether a presence list has a peer.
pub open spec fn is_listed(peers: Seq<PeerView>, id: Seq<char>) -> bool {
    exists|i: int| 0 <= i < peers.len() && (#[trigger] peers[i]).peer_id == id
}

/// A presence list without a peer.
pub open spec fn unlisted(peers: Seq<PeerView>, id: Seq<char>) -> Seq<PeerView> {
    peers.filter(|p: PeerView| p.peer_id != id)
}

/// The times of day that an event's messages need to be displayed.
pub open spec fn stamps(event: EventView) -> Seq<u64> {
    match event {
        EventView::Resync { chat, .. } => Seq::new(chat.len(), |i: int| chat[i].timestamp_ms),
        EventView::ChatMessage { timestamp_ms, .. } => seq![timestamp_ms],
        _ => Seq::empty(),
    }
}

/// Whether an event is one that the mesh has to see.
pub open spec fn is_for_mesh(event: EventView) -> bool {
    !(event is ChatMessage || event is RoomFull || event is Error)
}

/// The steps for a list of events, one event after the other.
pub open spec fn steps_for_all(events: Seq<EventView>) -> Seq<StepView>
    decreases events.len(),
{
    if events.len() == 0 {
        Seq::empty()
    } else {
        steps_for_all(events.drop_last()) + steps_for(events.last())
    }
}

/// Something that happens on a room page, as far as the mesh is concerned.
pub enum Happening {
    /// The room sent an event; `times` are the local times of day of its messages.
    Event { event: EventView, times: Seq<(u32, u32)> },
    /// The mesh was built.
    MeshReady,
}

impl RoomUiView {
    /// What something that happens makes of the page.
    pub open spec fn after(self, happening: Happening) -> Self {
        match happening {
            Happening::Event { event, times } => self.after_event(event, times),
            Happening::MeshReady => RoomUiView { meshed: true, early: Seq::empty(), ..self },
        }
    }

    /// The steps that something that happens asks of the mesh.
    pub open spec fn steps_on(self, happening: Happening) -> Seq<StepView> {
        match happening {
            Happening::Event { event, .. } => self.handed(event),
            Happening::MeshReady => steps_for_all(self.early),
        }
    }

    /// Whether an event is a chat message that goes unread: your own echo is not news,
    /// and anything that lands while the overlay is shut is exactly what the badge is
    /// for.
    pub open spec fn goes_unread(self, event: EventView) -> bool {
        event matches EventView::ChatMessage { from, .. } && self.self_id != Some(from)
            && !self.chat_open
    }

    /// What a room event makes of the page, apart from what it means to the mesh.
    pub open spec fn informed(self, event: EventView, times: Seq<(u32, u32)>) -> Self {
        match event {
            // The authoritative snapshot: it replaces whatever the page had.
            EventView::Resync { peers, chat } => RoomUiView {
                peers,
                chat: shown_history(chat, self.self_id, times),
                ..self
            },
            EventView::PeerJoined { peer_id, peer_name } => if is_listed(self.peers, peer_id) {
                self
            } else {
                RoomUiView { peers: self.peers.push(PeerView { peer_id, peer_name }), ..self }
            },
            EventView::PeerLeft { peer_id } => RoomUiView {
                peers: unlisted(self.peers, peer_id),
                ..self
            },
            EventView::ChatMessage { from, sender_name, text, timestamp_ms } => RoomUiView {
                unread: if self.goes_unread(event) {
                    (self.unread + 1) as u32
                } else {
                    self.unread
                },
                chat: self.chat.push(
                    shown_chat(from, sender_name, text, timestamp_ms, self.self_id, times[0]),
                ),
                ..self
            },
            EventView::RoomFull => RoomUiView { status: StatusView::Full, ..self },
            EventView::Error { message } => RoomUiView {
                status: StatusView::Error(message),
                ..self
            },
            EventView::Offer { .. } => self,
            EventView::Answer { .. } => self,
            EventView::IceCandidate { .. } => self,
        }
    }

    /// What handing a room event to the mesh makes of the page: it is kept for later
    /// where the mesh has to see it and there is none yet.
    pub open spec fn routed(self, event: EventView) -> Self {
        if is_for_mesh(event) && !self.meshed {
            RoomUiView { early: self.early.push(event), ..self }
        } else {
            self
        }
    }

    /// The steps that a room event asks of the mesh there is.
    pub open spec fn handed(self, event: EventView) -> Seq<StepView> {
        if self.meshed {
            steps_for(event)
        } else {
            Seq::empty()
        }
    }

    /// What a room event makes of the page.
    pub open spec fn after_event(self, event: EventView, times: Seq<(u32, u32)>) -> Self {
        self.routed(event).informed(event, times)
    }

    /// The feed shown large: whoever the meter picked or, in a quiet room, the first
    /// peer. The meter is polled, so it can name a peer that left a moment ago.
    pub open spec fn stage(self) -> Option<Seq<char>> {
        if self.speaker matches Some(who) && is_listed(self.peers, who) {
            self.speaker
        } else if self.peers.len() > 0 {
            Some(self.peers[0].peer_id)
        } else {
            None
        }
    }

    /// Whether a join attempt would only repeat one under way, or one that succeeded.
    pub open spec fn is_settled(self) -> bool {
        self.status is Joining || self.status is Connected
    }

    /// What came of a join attempt.
    pub open spec fn after_join(
        self,
        joined: Result<JoinResponse, String>,
        verifying: bool,
    ) -> Self {
        match joined {
            Err(e) => RoomUiView { status: StatusView::Error(e@), ..self },
            Ok(JoinResponse::NeedPassword {  }) => RoomUiView {
                status: StatusView::NeedPassword,
                ..self
            },
            Ok(JoinResponse::PasswordRequired {  }) => RoomUiView {
                status: StatusView::PasswordRequired,
                bad_password: self.bad_password || verifying,
                ..self
            },
            Ok(JoinResponse::Full {  }) => RoomUiView { status: StatusView::Full, ..self },
            Ok(JoinResponse::Joined { self_id, .. }) => RoomUiView {
                status: StatusView::Connected,
                self_id: Some(self_id@),
                ..self
            },
        }
    }

    /// Whether an attempt to join, if any, and the page after it are what comes of asking
    /// to join.
    pub open spec fn starts_joining(
        self,
        creds: CredsView,
        session: Seq<char>,
        attempt: Option<JoinAttempt>,
        next: Self,
    ) -> bool {
        match attempt {
            Some(a) => {
                &&& !self.is_settled()
                &&& a.verifying == (creds is Verify)
                &&& is_join_request(a.request, self, creds, session)
                &&& next == (RoomUiView {
                    status: StatusView::Joining,
                    bad_password: false,
                    ..self
                })
            },
            None => self.is_settled() && next == self,
        }
    }

    /// How to authenticate with a password that was typed, if it can be one.
    pub open spec fn creds_for(self, password: Seq<char>) -> Option<CredsView> {
        if password.len() == 0 {
            None
        } else if self.status is NeedPassword {
            Some(CredsView::Claim(password))
        } else {
            Some(CredsView::Verify(password))
        }
    }

    /// Whether the password form says that the password was wrong.
    pub open spec fn says_wrong(self) -> bool {
        self.status is PasswordRequired && self.bad_password
    }

    /// The page with its chat overlay opened where it was shut, and the other way round.
    pub open spec fn toggled(self) -> Self {
        RoomUiView {
            chat_open: !self.chat_open,
            unread: if self.chat_open {
                self.unread
            } else {
                0
            },
            ..self
        }
    }

    /// Whether a message to send, if any, and the page after it are what comes of sending
    /// what was typed.
    pub open spec fn sends_chat(self, post: Option<ChatPost>, next: Self) -> bool {
        match post {
            Some(p) => {
                &&& trimmed_text(self.chat_input).len() > 0
                &&& self.self_id == Some(p.session_id@)
                &&& p.body.text@ == self.chat_input
                &&& text_view(p.body.sender_name) == Some(
                    if self.display_name.len() > 0 {
                        self.display_name
                    } else {
                        "Anonymous"@
                    },
                )
                &&& next == (RoomUiView {
                    chat_input: Seq::empty(),
                    chat_error: None,
                    ..self
                })
            },
            None => if trimmed_text(self.chat_input).len() == 0 {
                next == self
            } else {
                &&& self.self_id is None
                &&& next == (RoomUiView {
                    chat_error: Some("Not connected to the room yet."@),
                    ..self
                })
            },
        }
    }

    /// The page after the user did or learnt something.
    pub open spec fn noted(self, note: Note) -> Self {
        match note {
            Note::StreamFailed(why) => RoomUiView { status: StatusView::Error(why), ..self },
            Note::Speaks(who) => RoomUiView { speaker: who, ..self },
            Note::Renamed(name) => RoomUiView { display_name: name, ..self },
            Note::Typed(text) => RoomUiView { chat_input: text, ..self },
            Note::ChatClosed => RoomUiView { chat_open: false, ..self },
            Note::ChatNotSent(why) => RoomUiView {
                chat_error: Some("Message not sent: "@ + why),
                ..self
            },
        }
    }
}

/// Something that the page takes note of, and that needs no answer.
pub enum Note {
    /// The event stream did not open, and why.
    StreamFailed(Seq<char>),
    /// The meter hands the large tile to a peer, or to nobody.
    Speaks(Option<Seq<char>>),
    /// A display name was typed.
    Renamed(Seq<char>),
    /// A chat message was typed so far.
    Typed(Seq<char>),
    /// The chat overlay was shut.
    ChatClosed,
    /// A chat message did not reach the server, and why.
    ChatNotSent(Seq<char>),
}

/// The page before anything was attempted.
pub open spec fn first_page(display_name: Seq<char>, user_id: Seq<char>) -> RoomUiView {
    RoomUiView {
        status: StatusView::Idle,
        bad_password: false,
        self_id: None,
        display_name,
        user_id,
        peers: Seq::empty(),
        speaker: None,
        chat: Seq::empty(),
        chat_open: false,
        unread: 0,
        chat_input: Seq::empty(),
        chat_error: None,
        meshed: false,
        early: Seq::empty(),
    }
}

/// The line that sets the cookie which remembers a display name.
pub open spec fn name_line(name: Seq<char>) -> Seq<char> {
    cookie_line("wr_name"@, name)
}

/// The session that a join issued, if it did.
pub open spec fn issued_session(joined: Result<JoinResponse, String>) -> Option<Seq<char>> {
    match joined {
        Ok(JoinResponse::Joined { self_id, .. }) => Some(self_id@),
        _ => None,
    }
}

/// Whether a request is the one to join with.
pub open spec fn is_join_request(
    request: JoinRequest,
    ui: RoomUiView,
    creds: CredsView,
    session: Seq<char>,
) -> bool {
    &&& text_view(request.password) == match creds {
        CredsView::Verify(password) => Some(password),
        _ => None::<Seq<char>>,
    }
    &&& text_view(request.claim_password) == match creds {
        CredsView::Claim(password) => Some(password),
        _ => None::<Seq<char>>,
    }
    &&& request.session_id@ == session
    &&& text_view(request.display_name) == if ui.display_name.len() > 0 {
        Some(ui.display_name)
    } else {
        None
    }
    &&& text_view(request.user_id) == Some(ui.user_id)
}

/// Whether a sender is this participant.
fn is_own(mine: &Option<String>, from: &str) -> (own: bool)
    ensures
        own == (text_view(*mine) == Some(from@)),
{
    match mine {
        Some(id) => same(id.as_str(), from),
        None => false,
    }
}

/// The name to show for a sender who may not have given one.
fn shown_name(name: &Option<String>) -> (shown: String)
    ensures
        shown@ == name_or_anonymous(text_view(*name)),
{
    match name {
        Some(n) => n.clone(),
        None => "Anonymous".to_owned(),
    }
}

/// A stored chat message as displayed to a participant, with its local time of day.
pub fn to_ui(msg: &ChatMessage, mine: &Option<String>, time: (u32, u32)) -> (shown: UiChatMsg)
    ensures
        shown@ == shown_message(msg@, text_view(*mine), time),
{
    UiChatMsg {
        time: format_time(time),
        from: msg.sender_id.clone(),
        sender_name: shown_name(&msg.sender_name),
        text: msg.text.clone(),
        timestamp_ms: msg.timestamp_ms,
        own: is_own(mine, msg.sender_id.as_str()),
    }
}

/// A chat history as displayed to a participant.
fn history_to_ui(
    chat: &Vec<ChatMessage>,
    mine: &Option<String>,
    times: &Vec<(u32, u32)>,
) -> (shown: Vec<UiChatMsg>)
    requires
        times@.len() == chat@.len(),
    ensures
        ui_chat_views(shown@) == shown_history(chat_views(chat@), text_view(*mine), times@),
{
    let mut shown: Vec<UiChatMsg> = Vec::new();
    let mut i: usize = 0;
    while i < chat.len()
        invariant
            i <= chat.len(),
            times@.len() == chat@.len(),
            shown@.len() == i,
            forall|j: int|
                0 <= j < i ==> (#[trigger] shown@[j])@ == shown_message(
                    chat@[j]@,
                    text_view(*mine),
                    times@[j],
                ),
        decreases chat.len() - i,
    {
        shown.push(to_ui(&chat[i], mine, times[i]));
        i += 1;
    }
    assert(ui_chat_views(shown@) =~= shown_history(chat_views(chat@), text_view(*mine), times@));
    shown
}

/// Whether a presence list has a peer.
fn lists(peers: &Vec<PeerInfo>, id: &str) -> (found: bool)
    ensures
        found == is_listed(peer_views(peers@), id@),
{
    let ghost views = peer_views(peers@);
    let mut i: usize = 0;
    while i < peers.len()
        invariant
            i <= peers.len(),
            views == peer_views(peers@),
            forall|j: int| 0 <= j < i ==> (#[trigger] views[j]).peer_id != id@,
        decreases peers.len() - i,
    {
        if same(peers[i].peer_id.as_str(), id) {
            assert(views[i as int].peer_id == id@);
            return true;
        }
        i += 1;
    }
    false
}

/// A presence list without a peer.
fn without(peers: &Vec<PeerInfo>, id: &str) -> (rest: Vec<PeerInfo>)
    ensures
        peer_views(rest@) == unlisted(peer_views(peers@), id@),
{
    let ghost views = peer_views(peers@);
    let ghost stays = |p: PeerView| p.peer_id != id@;
    let mut rest: Vec<PeerInfo> = Vec::new();
    let mut i: usize = 0;
    proof {
        reveal(Seq::filter);
        assert(views.take(0).filter(stays) =~= peer_views(rest@));
    }
    while i < peers.len()
        invariant
            i <= peers.len(),
            views == peer_views(peers@),
            stays == (|p: PeerView| p.peer_id != id@),
            peer_views(rest@) == views.take(i as int).filter(stays),
        decreases peers.len() - i,
    {
        let ghost before = rest@;
        if !same(peers[i].peer_id.as_str(), id) {
            rest.push(peers[i].clone());
            assert(peer_views(rest@) =~= peer_views(before).push(peers@[i as int]@));
        }
        i += 1;
        proof {
            reveal(Seq::filter);
            assert(views.take(i as int).drop_last() =~= views.take(i - 1));
            assert(views.take(i as int).last() == peers@[i - 1]@);
        }
    }
    assert(views.take(i as int) =~= views);
    rest
}

/// The times that an event's messages were sent at, to be turned into local times of
/// day.
pub fn timestamps(ev: &SseEvent) -> (times: Vec<u64>)
    ensures
        times@ == stamps(ev@),
{
    let mut times: Vec<u64> = Vec::new();
    match ev {
        SseEvent::Resync { chat, .. } => {
            let mut i: usize = 0;
            while i < chat.len()
                invariant
                    i <= chat.len(),
                    times@.len() == i,
                    forall|j: int| 0 <= j < i ==> #[trigger] times@[j] == chat@[j].timestamp_ms,
                decreases chat.len() - i,
            {
                times.push(chat[i].timestamp_ms);
                i += 1;
            }
        },
        SseEvent::ChatMessage { timestamp_ms, .. } => {
            times.push(*timestamp_ms);
        },
        _ => {},
    }
    assert(times@ =~= stamps(ev@));
    times
}

/// Display name for a peer, falling back to a short form of the session id.
pub fn peer_label(peer: &PeerInfo) -> (label: String)
    ensures
        label@ == match text_view(peer.peer_name) {
            Some(name) => name,
            None => "Guest "@ + first_chars(peer.peer_id@, 4),
        },
{
    match &peer.peer_name {
        Some(name) => name.clone(),
        None => "Guest ".to_owned().concat(truncated(peer.peer_id.as_str(), 4).as_str()),
    }
}

/// Get or generate a stable user ID, kept in a cookie. Returns the id, and the line that
/// sets the cookie where it is new.
pub fn get_or_create_user_id(jar: &str) -> (id: (String, Option<String>))
    ensures
        if cookie_in(jar@, "wr_uid"@) matches Some(kept) && is_usable_id(kept) {
            id.0@ == cookie_in(jar@, "wr_uid"@)->0 && id.1 is None
        } else {
            is_uuid_v4(id.0@) && text_view(id.1) == Some(cookie_line("wr_uid"@, id.0@))
        },
{
    let (id, new) = kept_or_new_id(get_cookie(jar, "wr_uid"));
    let line = if new {
        Some(set_cookie("wr_uid", id.as_str()))
    } else {
        None
    };
    (id, line)
}

impl RoomUi {
    /// The page before anything was attempted.
    pub fn new(display_name: String, user_id: String) -> (ui: Self)
        ensures
            ui@ == first_page(display_name@, user_id@),
    {
        let ui = RoomUi {
            status: RoomStatus::Idle,
            bad_password: false,
            self_id: None,
            display_name,
            user_id,
            peers: Vec::new(),
            speaker: None,
            chat: Vec::new(),
            chat_open: false,
            unread: 0,
            chat_input: String::new(),
            chat_error: None,
            meshed: false,
            early: Vec::new(),
        };
        proof {
            assert(ui@.peers =~= Seq::empty());
            assert(ui@.chat =~= Seq::empty());
            assert(ui@.early =~= Seq::empty());
            assert(ui@.chat_input =~= Seq::empty());
        }
        ui
    }

    /// Starts a join attempt. Re-entrant attempts (double submit, or a submit racing
    /// mount) are ignored.
    pub fn connect(&mut self, creds: Creds, session_id: String) -> (attempt: Option<JoinAttempt>)
        ensures
            old(self)@.starts_joining(creds@, session_id@, attempt, final(self)@),
    {
        match self.status {
            RoomStatus::Joining => return None,
            RoomStatus::Connected => return None,
            _ => {},
        }
        self.status = RoomStatus::Joining;
        self.bad_password = false;
        let (password, claim_password, verifying) = match creds {
            Creds::Anonymous => (None, None, false),
            Creds::Claim(pw) => (None, Some(pw), false),
            Creds::Verify(pw) => (Some(pw), None, true),
        };
        let display_name = if self.display_name.as_str().is_empty() {
            None
        } else {
            Some(self.display_name.clone())
        };
        let request = JoinRequest {
            password,
            claim_password,
            session_id,
            display_name,
            user_id: Some(self.user_id.clone()),
        };
        Some(JoinAttempt { request, verifying })
    }

    /// Takes the outcome of a join attempt. Returns the session id to open the event
    /// stream with, where the join succeeded.
    ///
    /// Peers and chat history are not read from the join response: the stream's opening
    /// snapshot carries both, with names.
    pub fn joined(&mut self, joined: Result<JoinResponse, String>, verifying: bool) -> (session:
        Option<String>)
        ensures
            final(self)@ == old(self)@.after_join(joined, verifying),
            text_view(session) == issued_session(joined),
    {
        match joined {
            Err(e) => {
                self.status = RoomStatus::Error(e);
                None
            },
            Ok(JoinResponse::NeedPassword {  }) => {
                self.status = RoomStatus::NeedPassword;
                None
            },
            Ok(JoinResponse::PasswordRequired {  }) => {
                self.status = RoomStatus::PasswordRequired;
                if verifying {
                    self.bad_password = true;
                }
                None
            },
            Ok(JoinResponse::Full {  }) => {
                self.status = RoomStatus::Full;
                None
            },
            Ok(JoinResponse::Joined { self_id, .. }) => {
                self.self_id = Some(self_id.clone());
                self.status = RoomStatus::Connected;
                Some(self_id)
            },
        }
    }

    /// Hands a room event to the mesh: returns the steps it asks for or, while there is no
    /// mesh, keeps the event for it. What shows on the page stays as it is.
    ///
    /// Media and presence go to the mesh, which has to see them even where the page has
    /// nothing to do (an offer for a peer whose tile is already rendered).
    pub fn route(&mut self, ev: &SseEvent) -> (steps: Vec<MeshStep>)
        ensures
            final(self)@ == old(self)@.routed(ev@),
            step_views(steps@) == old(self)@.handed(ev@),
    {
        if self.meshed {
            return Mesh::on_event(ev);
        }
        let for_mesh = match ev {
            SseEvent::ChatMessage { .. } => false,
            SseEvent::RoomFull => false,
            SseEvent::Error { .. } => false,
            _ => true,
        };
        if for_mesh {
            let ghost early = self.early@;
            self.early.push(ev.clone());
            assert(event_views(self.early@) =~= event_views(early).push(ev@));
        }
        let none: Vec<MeshStep> = Vec::new();
        assert(step_views(none@) =~= Seq::empty());
        none
    }

    /// Translates a room event into what the page shows: presence, chat, and status. The
    /// media events are the mesh's business. `times` are the local times of day of the
    /// event's messages.
    pub fn inform(&mut self, ev: SseEvent, times: &Vec<(u32, u32)>)
        requires
            times@.len() == stamps(ev@).len(),
            old(self)@.goes_unread(ev@) ==> old(self)@.unread < u32::MAX,
        ensures
            final(self)@ == old(self)@.informed(ev@, times@),
    {
        match ev {
            SseEvent::Resync { peers, chat } => {
                self.chat = history_to_ui(&chat, &self.self_id, times);
                self.peers = peers;
            },
            SseEvent::PeerJoined { peer_id, peer_name } => {
                if !lists(&self.peers, peer_id.as_str()) {
                    let ghost listed = self.peers@;
                    let peer = PeerInfo { peer_id, peer_name };
                    self.peers.push(peer);
                    assert(peer_views(self.peers@) =~= peer_views(listed).push(peer@));
                }
            },
            SseEvent::PeerLeft { peer_id } => {
                self.peers = without(&self.peers, peer_id.as_str());
            },
            SseEvent::ChatMessage { from, sender_name, text, timestamp_ms } => {
                let own = is_own(&self.self_id, from.as_str());
                if !own && !self.chat_open {
                    self.unread += 1;
                }
                let ghost shown = self.chat@;
                let msg = UiChatMsg {
                    sender_name: shown_name(&sender_name),
                    time: format_time(times[0]),
                    from,
                    text,
                    timestamp_ms,
                    own,
                };
                self.chat.push(msg);
                assert(ui_chat_views(self.chat@) =~= ui_chat_views(shown).push(msg@));
            },
            SseEvent::RoomFull => {
                self.status = RoomStatus::Full;
            },
            SseEvent::Error { message } => {
                self.status = RoomStatus::Error(message);
            },
            SseEvent::Offer { .. } => {},
            SseEvent::Answer { .. } => {},
            SseEvent::IceCandidate { .. } => {},
        }
    }

    /// Translates a room event into what the page shows, and into steps for the mesh; an
    /// event that comes while there is no mesh is kept for it. `times` are the local
    /// times of day of the event's messages.
    pub fn on_event(&mut self, ev: SseEvent, times: &Vec<(u32, u32)>) -> (steps: Vec<MeshStep>)
        requires
            times@.len() == stamps(ev@).len(),
            old(self)@.goes_unread(ev@) ==> old(self)@.unread < u32::MAX,
        ensures
            final(self)@ == old(self)@.after(Happening::Event { event: ev@, times: times@ }),
            step_views(steps@) == old(self)@.steps_on(
                Happening::Event { event: ev@, times: times@ },
            ),
    {
        let steps = self.route(&ev);
        self.inform(ev, times);
        steps
    }

    /// Takes note that there is a mesh now. Returns the steps for the events that came
    /// too early for it, in the order in which they came.
    pub fn mesh_ready(&mut self) -> (steps: Vec<MeshStep>)
        ensures
            final(self)@ == old(self)@.after(Happening::MeshReady),
            step_views(steps@) == old(self)@.steps_on(Happening::MeshReady),
    {
        let ghost views = event_views(self.early@);
        let mut steps: Vec<MeshStep> = Vec::new();
        let mut i: usize = 0;
        proof {
            assert(views.take(0) =~= Seq::empty());
            assert(step_views(steps@) =~= Seq::empty());
        }
        while i < self.early.len()
            invariant
                i <= self.early.len(),
                self@ == old(self)@,
                views == event_views(self.early@),
                step_views(steps@) == steps_for_all(views.take(i as int)),
            decreases self.early.len() - i,
        {
            let ghost before = steps@;
            let mut more = Mesh::on_event(&self.early[i]);
            let ghost added = more@;
            steps.append(&mut more);
            i += 1;
            proof {
                assert(views.take(i as int).drop_last() =~= views.take(i - 1));
                assert(views.take(i as int).last() == self.early@[i - 1]@);
                assert(step_views(steps@) =~= step_views(before) + step_views(added));
            }
        }
        assert(views.take(i as int) =~= views);
        self.early = Vec::new();
        self.meshed = true;
        assert(event_views(self.early@) =~= Seq::empty());
        steps
    }

    /// The feed shown large: whoever the meter picked or, in a quiet room, the first
    /// peer. The fallback is not cosmetic: a stage with no owner is a blank tile.
    pub fn on_stage(&self) -> (who: Option<String>)
        ensures
            text_view(who) == self@.stage(),
    {
        match &self.speaker {
            Some(who) => {
                if lists(&self.peers, who.as_str()) {
                    return Some(who.clone());
                }
            },
            None => {},
        }
        if self.peers.len() > 0 {
            Some(self.peers[0].peer_id.clone())
        } else {
            None
        }
    }

    /// Takes note that the room's event stream did not open.
    pub fn stream_failed(&mut self, why: String)
        ensures
            final(self)@ == old(self)@.noted(Note::StreamFailed(why@)),
    {
        self.status = RoomStatus::Error(why);
    }

    /// Takes note of who the level meter hands the large tile to, if anyone.
    pub fn speaks(&mut self, who: Option<String>)
        ensures
            final(self)@ == old(self)@.noted(Note::Speaks(text_view(who))),
    {
        self.speaker = who;
    }

    /// Takes a display name that was typed. Returns the line that sets the cookie which
    /// remembers it.
    pub fn rename(&mut self, name: String) -> (line: String)
        ensures
            final(self)@ == old(self)@.noted(Note::Renamed(name@)),
            line@ == name_line(name@),
    {
        let line = set_cookie("wr_name", name.as_str());
        self.display_name = name;
        line
    }

    /// Takes a chat message as far as it was typed.
    pub fn type_chat(&mut self, text: String)
        ensures
            final(self)@ == old(self)@.noted(Note::Typed(text@)),
    {
        self.chat_input = text;
    }

    /// Shuts the chat overlay. What went unread stays so.
    pub fn close_chat(&mut self)
        ensures
            final(self)@ == old(self)@.noted(Note::ChatClosed),
    {
        self.chat_open = false;
    }

    /// Opens or shuts the chat overlay. Opening it is what acknowledges its backlog, so
    /// the count is cleared on the way in rather than on the way out.
    pub fn toggle_chat(&mut self)
        ensures
            final(self)@ == old(self)@.toggled(),
    {
        self.chat_open = !self.chat_open;
        if self.chat_open {
            self.unread = 0;
        }
    }

    /// Takes what was typed as a chat message. Returns what to send, if there is
    /// something to send and someone to send it as.
    ///
    /// Chat is gated on being an active participant, so the only usable session id is
    /// the one the join issued. Nothing is added to the list here: the server tells the
    /// sender too, and that echo is what shows the message.
    pub fn send_chat_msg(&mut self) -> (post: Option<ChatPost>)
        ensures
            old(self)@.sends_chat(post, final(self)@),
    {
        if is_blank(self.chat_input.as_str()) {
            return None;
        }
        let session_id = match clone_text(&self.self_id) {
            Some(id) => id,
            None => {
                self.chat_error = Some("Not connected to the room yet.".to_owned());
                return None;
            },
        };
        let name = if self.display_name.as_str().is_empty() {
            "Anonymous"
        } else {
            self.display_name.as_str()
        };
        let body = chat_body(self.chat_input.as_str(), Some(name));
        self.chat_input = String::new();
        self.chat_error = None;
        assert(self.chat_input@ =~= Seq::empty());
        Some(ChatPost { session_id, body })
    }

    /// Takes note that a chat message did not reach the server.
    pub fn chat_not_sent(&mut self, why: &str)
        ensures
            final(self)@ == old(self)@.noted(Note::ChatNotSent(why@)),
    {
        self.chat_error = Some("Message not sent: ".to_owned().concat(why));
    }

    /// Takes a password that was typed: to claim a new room, or to unlock an existing
    /// one. An empty one is not an attempt.
    pub fn gate(&self, password: &str) -> (creds: Option<Creds>)
        ensures
            match creds {
                Some(c) => self@.creds_for(password@) == Some(c@),
                None => self@.creds_for(password@) is None,
            },
    {
        if password.is_empty() {
            return None;
        }
        if self.status.password_prompt() == Some(true) {
            Some(Creds::Claim(password.to_owned()))
        } else {
            Some(Creds::Verify(password.to_owned()))
        }
    }

    /// Whether the password form says that the password was wrong.
    pub fn gate_says_wrong(&self) -> (wrong: bool)
        ensures
            wrong == self@.says_wrong(),
    {
        match self.status {
            RoomStatus::PasswordRequired => self.bad_password,
            _ => false,
        }
    }
}

} // verus!

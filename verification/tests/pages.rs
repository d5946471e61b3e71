//! The pages: identity, joining, presence, chat, and the bar under the stage.

use webrtc_room::components::controls::{badge, chat_label, Controls, Switch};
use webrtc_room::pages::home::{get_cookie, room_path, set_cookie, submit};
use webrtc_room::pages::room::{
    format_time, get_or_create_user_id, peer_label, timestamps, to_ui, Creds, RoomUi,
    LEVEL_POLL_MS,
};
use webrtc_room::services::signaling::{
    chat_body, chat_url, events_url, http_error, join_url, signal_url, RoomStatus,
};
use webrtc_room::services::webrtc::MeshStep;
use webrtc_room::services::{session_id, SessionStore};
use webrtc_room::types::{ChatMessage, JoinResponse, PeerInfo, SseEvent};

fn page() -> RoomUi {
    RoomUi::new("Alice".to_string(), "user-1234".to_string())
}

fn joined_as(id: &str) -> Result<JoinResponse, String> {
    Ok(JoinResponse::Joined {
        self_id: id.to_string(),
        peers: Vec::new(),
        chat: Vec::new(),
    })
}

/// A page that is in a room as `me`, with a mesh.
fn connected() -> RoomUi {
    let mut ui = page();
    ui.connect(Creds::Anonymous, "me".to_string()).unwrap();
    ui.joined(joined_as("me"), false).unwrap();
    assert!(ui.mesh_ready().is_empty());
    ui
}

fn peer(id: &str, name: Option<&str>) -> PeerInfo {
    PeerInfo {
        peer_id: id.to_string(),
        peer_name: name.map(str::to_string),
    }
}

fn joins(id: &str) -> SseEvent {
    SseEvent::PeerJoined {
        peer_id: id.to_string(),
        peer_name: None,
    }
}

fn leaves(id: &str) -> SseEvent {
    SseEvent::PeerLeft {
        peer_id: id.to_string(),
    }
}

fn says(id: &str, text: &str) -> SseEvent {
    SseEvent::ChatMessage {
        from: id.to_string(),
        sender_name: None,
        text: text.to_string(),
        timestamp_ms: 5,
    }
}

fn ids(ui: &RoomUi) -> Vec<&str> {
    ui.peers.iter().map(|p| p.peer_id.as_str()).collect()
}

#[test]
fn a_tab_keeps_its_session() {
    let (id, store) = session_id(SessionStore::Item(Some("12345678".to_string())));
    assert_eq!(id, "12345678");
    assert!(!store);
    // Eight bytes will do, even if they are fewer characters.
    let (id, store) = session_id(SessionStore::Item(Some("\u{e9}\u{e9}\u{e9}\u{e9}".to_string())));
    assert_eq!(id, "\u{e9}\u{e9}\u{e9}\u{e9}");
    assert!(!store);
}

#[test]
fn a_tab_without_a_session_gets_one() {
    for stored in [None, Some("short".to_string())] {
        let (id, store) = session_id(SessionStore::Item(stored));
        assert!(store);
        assert_eq!(id.len(), 36);
        assert_eq!(&id[14..15], "4");
        assert_eq!(uuid::Uuid::parse_str(&id).unwrap().get_version_num(), 4);
        // It is kept from then on.
        let (again, store) = session_id(SessionStore::Item(Some(id.clone())));
        assert_eq!(again, id);
        assert!(!store);
    }
    let (id, store) = session_id(SessionStore::Unavailable);
    assert_eq!(id.len(), 36);
    assert!(!store);
    let (other, _) = session_id(SessionStore::Unavailable);
    assert_ne!(id, other);
}

#[test]
fn cookies_are_found_by_name() {
    let jar = "a=1; wr_name=Alice B; wr_uid=12345678; wr_name=Bob; empty=";
    assert_eq!(get_cookie(jar, "a").as_deref(), Some("1"));
    assert_eq!(get_cookie(jar, "wr_name").as_deref(), Some("Alice B"));
    assert_eq!(get_cookie(jar, "empty").as_deref(), Some(""));
    assert_eq!(get_cookie(jar, "name"), None);
    assert_eq!(get_cookie(jar, "wr"), None);
    assert_eq!(get_cookie("", "a"), None);
    assert_eq!(get_cookie("x=y=z", "x").as_deref(), Some("y=z"));
    assert_eq!(get_cookie(" ; \tb=2 ", "b").as_deref(), Some("2"));
}

#[test]
fn cookies_are_set_for_a_year() {
    assert_eq!(
        set_cookie("wr_name", "Alice"),
        "wr_name=Alice; Max-Age=31536000; Path=/; SameSite=Lax"
    );
}

#[test]
fn a_browser_keeps_its_user() {
    let (id, line) = get_or_create_user_id("x=1; wr_uid=abcdefgh");
    assert_eq!(id, "abcdefgh");
    assert_eq!(line, None);
    for jar in ["", "wr_uid=short"] {
        let (id, line) = get_or_create_user_id(jar);
        assert_eq!(id.len(), 36);
        assert_eq!(line, Some(set_cookie("wr_uid", &id)));
        assert_eq!(get_or_create_user_id(&format!("wr_uid={id}")), (id, None));
    }
}

#[test]
fn typed_room_names_are_trimmed_and_lowered() {
    assert_eq!(submit("  Weekly-Sync ").as_deref(), Some("/room/weekly-sync"));
    assert_eq!(submit("\u{c9}T\u{c9}").as_deref(), Some("/room/\u{e9}t\u{e9}"));
    assert_eq!(submit(" \t "), None);
    assert_eq!(room_path("abc").as_deref(), Some("/room/abc"));
    assert_eq!(room_path(""), None);
}

#[test]
fn endpoints_are_addressed() {
    assert_eq!(join_url("room"), "/api/room/room/join");
    assert_eq!(events_url("room", "me"), "/api/room/room/events?session_id=me");
    assert_eq!(signal_url("room", "me"), "/api/room/room/signal?session_id=me");
    assert_eq!(chat_url("room", "me"), "/api/room/room/chat?session_id=me");
    assert_eq!(http_error(404), "HTTP 404");
    let body = chat_body("hi", Some("Alice"));
    assert_eq!(body.text, "hi");
    assert_eq!(body.sender_name.as_deref(), Some("Alice"));
    assert_eq!(chat_body("hi", None).sender_name, None);
}

#[test]
fn statuses_ask_for_passwords() {
    assert_eq!(RoomStatus::NeedPassword.password_prompt(), Some(true));
    assert_eq!(RoomStatus::PasswordRequired.password_prompt(), Some(false));
    for status in [
        RoomStatus::Idle,
        RoomStatus::Joining,
        RoomStatus::Full,
        RoomStatus::Connected,
        RoomStatus::Error("no".to_string()),
    ] {
        assert_eq!(status.password_prompt(), None);
        assert_eq!(status.clone(), status);
    }
}

#[test]
fn an_anonymous_attempt_brings_no_password() {
    let mut ui = page();
    let attempt = ui.connect(Creds::Anonymous, "me".to_string()).unwrap();
    assert!(!attempt.verifying);
    assert_eq!(attempt.request.password, None);
    assert_eq!(attempt.request.claim_password, None);
    assert_eq!(attempt.request.session_id, "me");
    assert_eq!(attempt.request.display_name.as_deref(), Some("Alice"));
    assert_eq!(attempt.request.user_id.as_deref(), Some("user-1234"));
    assert_eq!(ui.status, RoomStatus::Joining);
    // A second attempt while the first is under way is ignored.
    assert!(ui.connect(Creds::Anonymous, "me".to_string()).is_none());
}

#[test]
fn passwords_go_where_they_belong() {
    let mut ui = RoomUi::new(String::new(), "u".to_string());
    let attempt = ui.connect(Creds::Claim("pw".to_string()), "me".to_string()).unwrap();
    assert_eq!(attempt.request.claim_password.as_deref(), Some("pw"));
    assert_eq!(attempt.request.password, None);
    assert_eq!(attempt.request.display_name, None);
    assert!(!attempt.verifying);
    ui.joined(Ok(JoinResponse::PasswordRequired {}), false);
    let attempt = ui.connect(Creds::Verify("pw".to_string()), "me".to_string()).unwrap();
    assert_eq!(attempt.request.password.as_deref(), Some("pw"));
    assert_eq!(attempt.request.claim_password, None);
    assert!(attempt.verifying);
}

#[test]
fn join_outcomes_show() {
    let mut ui = page();
    assert_eq!(ui.joined(Ok(JoinResponse::NeedPassword {}), false), None);
    assert_eq!(ui.status, RoomStatus::NeedPassword);
    assert!(matches!(ui.gate("pw"), Some(Creds::Claim(pw)) if pw == "pw"));
    assert_eq!(ui.joined(Ok(JoinResponse::PasswordRequired {}), false), None);
    assert_eq!(ui.status, RoomStatus::PasswordRequired);
    assert!(!ui.gate_says_wrong());
    assert!(matches!(ui.gate("pw"), Some(Creds::Verify(pw)) if pw == "pw"));
    assert!(ui.gate("").is_none());
    ui.joined(Ok(JoinResponse::PasswordRequired {}), true);
    assert!(ui.gate_says_wrong());
    // The next attempt starts over.
    ui.connect(Creds::Verify("pw2".to_string()), "me".to_string()).unwrap();
    assert!(!ui.gate_says_wrong());
    assert!(!ui.bad_password);
    ui.joined(Ok(JoinResponse::Full {}), true);
    assert_eq!(ui.status, RoomStatus::Full);
    ui.joined(Err("HTTP 500".to_string()), false);
    assert_eq!(ui.status, RoomStatus::Error("HTTP 500".to_string()));
    assert_eq!(ui.joined(joined_as("me"), false).as_deref(), Some("me"));
    assert_eq!(ui.status, RoomStatus::Connected);
    assert_eq!(ui.self_id.as_deref(), Some("me"));
    assert!(ui.connect(Creds::Anonymous, "me".to_string()).is_none());
}

#[test]
fn presence_follows_the_room() {
    let mut ui = connected();
    let none = Vec::new();
    assert_eq!(ui.on_event(joins("a"), &none).len(), 2);
    ui.on_event(joins("b"), &none);
    ui.on_event(joins("a"), &none);
    assert_eq!(ids(&ui), vec!["a", "b"]);
    assert_eq!(
        ui.on_event(leaves("a"), &none),
        vec![MeshStep::Close { peer: "a".to_string() }]
    );
    assert_eq!(ids(&ui), vec!["b"]);
    ui.on_event(leaves("a"), &none);
    assert_eq!(ids(&ui), vec!["b"]);
}

#[test]
fn a_snapshot_replaces_what_the_page_had() {
    let mut ui = connected();
    ui.on_event(joins("gone"), &Vec::new());
    ui.on_event(says("gone", "old"), &vec![(1, 2)]);
    let snapshot = SseEvent::Resync {
        peers: vec![peer("a", Some("Ann")), peer("b", None)],
        chat: vec![
            ChatMessage {
                room: "room".to_string(),
                sender_id: "me".to_string(),
                sender_name: None,
                text: "mine".to_string(),
                timestamp_ms: 10,
            },
            ChatMessage {
                room: "room".to_string(),
                sender_id: "a".to_string(),
                sender_name: Some("Ann".to_string()),
                text: "theirs".to_string(),
                timestamp_ms: 20,
            },
        ],
    };
    assert_eq!(timestamps(&snapshot), vec![10, 20]);
    assert_eq!(ui.on_event(snapshot, &vec![(9, 5), (23, 59)]).len(), 4);
    assert_eq!(ids(&ui), vec!["a", "b"]);
    assert_eq!(ui.chat.len(), 2);
    assert!(ui.chat[0].own);
    assert_eq!(ui.chat[0].sender_name, "Anonymous");
    assert_eq!(ui.chat[0].time, "09:05");
    assert!(!ui.chat[1].own);
    assert_eq!(ui.chat[1].sender_name, "Ann");
    assert_eq!(ui.chat[1].time, "23:59");
    assert_eq!(ui.chat[1].timestamp_ms, 20);
}

#[test]
fn unread_counts_what_nobody_saw() {
    let mut ui = connected();
    let time = vec![(12, 0)];
    ui.on_event(says("a", "one"), &time);
    ui.on_event(says("me", "mine"), &time);
    ui.on_event(says("b", "two"), &time);
    assert_eq!(ui.unread, 2);
    assert_eq!(ui.chat.len(), 3);
    assert!(ui.chat[1].own);
    assert_eq!(ui.chat[0].sender_name, "Anonymous");
    assert_eq!(ui.chat[0].text, "one");
    ui.toggle_chat();
    assert!(ui.chat_open);
    assert_eq!(ui.unread, 0);
    ui.on_event(says("a", "three"), &time);
    assert_eq!(ui.unread, 0);
    ui.toggle_chat();
    ui.on_event(says("a", "four"), &time);
    assert_eq!(ui.unread, 1);
    assert_eq!(timestamps(&says("a", "x")), vec![5]);
    assert!(timestamps(&SseEvent::RoomFull).is_empty());
}

#[test]
fn early_events_are_replayed_in_order() {
    let mut ui = page();
    ui.connect(Creds::Anonymous, "me".to_string()).unwrap();
    ui.joined(joined_as("me"), false).unwrap();
    assert!(ui.on_event(joins("a"), &Vec::new()).is_empty());
    assert!(ui.on_event(says("a", "hi"), &vec![(0, 0)]).is_empty());
    let offer = SseEvent::Offer {
        from: "a".to_string(),
        sdp: "v=0".to_string(),
    };
    assert!(ui.on_event(offer, &Vec::new()).is_empty());
    assert_eq!(ui.early.len(), 2);
    assert_eq!(ids(&ui), vec!["a"]);
    assert_eq!(
        ui.mesh_ready(),
        vec![
            MeshStep::Connect { peer: "a".to_string() },
            MeshStep::Offer { peer: "a".to_string() },
            MeshStep::Connect { peer: "a".to_string() },
            MeshStep::AcceptOffer {
                from: "a".to_string(),
                sdp: "v=0".to_string()
            },
        ]
    );
    assert!(ui.early.is_empty());
    assert!(ui.meshed);
    assert_eq!(ui.on_event(leaves("a"), &Vec::new()).len(), 1);
    assert!(ui.early.is_empty());
}

#[test]
fn the_room_can_end_a_visit() {
    let mut ui = connected();
    ui.on_event(SseEvent::RoomFull, &Vec::new());
    assert_eq!(ui.status, RoomStatus::Full);
    let error = SseEvent::Error {
        message: "gone".to_string(),
    };
    ui.on_event(error, &Vec::new());
    assert_eq!(ui.status, RoomStatus::Error("gone".to_string()));
}

#[test]
fn the_stage_shows_the_speaker_or_the_first_peer() {
    let mut ui = connected();
    assert_eq!(ui.on_stage(), None);
    ui.speaker = Some("b".to_string());
    assert_eq!(ui.on_stage(), None);
    ui.on_event(joins("a"), &Vec::new());
    assert_eq!(ui.on_stage().as_deref(), Some("a"));
    ui.on_event(joins("b"), &Vec::new());
    assert_eq!(ui.on_stage().as_deref(), Some("b"));
    ui.speaker = None;
    assert_eq!(ui.on_stage().as_deref(), Some("a"));
    assert_eq!(LEVEL_POLL_MS, 350);
}

#[test]
fn chat_is_sent_as_the_session_that_joined() {
    let mut ui = connected();
    ui.chat_input = "  hello ".to_string();
    ui.chat_error = Some("old".to_string());
    let post = ui.send_chat_msg().unwrap();
    assert_eq!(post.session_id, "me");
    assert_eq!(post.body.text, "  hello ");
    assert_eq!(post.body.sender_name.as_deref(), Some("Alice"));
    assert_eq!(ui.chat_input, "");
    assert_eq!(ui.chat_error, None);
    assert!(ui.chat.is_empty());
    ui.chat_not_sent("HTTP 403");
    assert_eq!(ui.chat_error.as_deref(), Some("Message not sent: HTTP 403"));

    ui.chat_input = " \n".to_string();
    assert!(ui.send_chat_msg().is_none());
    assert_eq!(ui.chat_input, " \n");

    ui.display_name = String::new();
    ui.chat_input = "x".to_string();
    let post = ui.send_chat_msg().unwrap();
    assert_eq!(post.body.sender_name.as_deref(), Some("Anonymous"));
}

#[test]
fn chat_needs_a_session() {
    let mut ui = page();
    ui.chat_input = "hello".to_string();
    assert!(ui.send_chat_msg().is_none());
    assert_eq!(ui.chat_input, "hello");
    assert_eq!(
        ui.chat_error.as_deref(),
        Some("Not connected to the room yet.")
    );
}

#[test]
fn messages_are_shown_with_their_time() {
    assert_eq!(format_time((0, 0)), "00:00");
    assert_eq!(format_time((9, 41)), "09:41");
    assert_eq!(format_time((23, 5)), "23:05");
    let msg = ChatMessage {
        room: "room".to_string(),
        sender_id: "a".to_string(),
        sender_name: None,
        text: "hi".to_string(),
        timestamp_ms: 3,
    };
    let shown = to_ui(&msg, &Some("a".to_string()), (7, 8));
    assert!(shown.own);
    assert_eq!(shown.time, "07:08");
    assert_eq!(shown.from, "a");
    assert!(!to_ui(&msg, &None, (7, 8)).own);
}

#[test]
fn peers_are_labelled() {
    assert_eq!(peer_label(&peer("abcdef", Some("Ann"))), "Ann");
    assert_eq!(peer_label(&peer("abcdef", None)), "Guest abcd");
    assert_eq!(peer_label(&peer("ab", None)), "Guest ab");
}

#[test]
fn buttons_flip_back_and_alone() {
    let mut controls = Controls::new();
    assert_eq!(controls.face(Switch::Mic), "🎤");
    assert_eq!(controls.face(Switch::Cam), "📷");
    assert_eq!(controls.face(Switch::Share), "Share");
    assert_eq!(controls.face(Switch::Gallery), "Speaker");
    for switch in [Switch::Mic, Switch::Cam, Switch::Share, Switch::Gallery] {
        let before = controls;
        controls.toggle(switch);
        assert_eq!(controls.pressed(switch), !before.pressed(switch));
        for other in [Switch::Mic, Switch::Cam, Switch::Share, Switch::Gallery] {
            if other != switch {
                assert_eq!(controls.pressed(other), before.pressed(other));
            }
        }
    }
    assert_eq!(controls.face(Switch::Mic), "🔇");
    assert_eq!(controls.face(Switch::Cam), "🚫");
    assert_eq!(controls.face(Switch::Share), "Stop");
    assert_eq!(controls.face(Switch::Gallery), "Gallery");
    controls.toggle(Switch::Mic);
    assert_eq!(controls.face(Switch::Mic), "🎤");
}

#[test]
fn the_chat_button_counts() {
    assert_eq!(chat_label(0), "Chat, 0 unread");
    assert_eq!(chat_label(12), "Chat, 12 unread");
    assert_eq!(badge(0), None);
    assert_eq!(badge(3), Some(3));
}

#[test]
fn events_go_to_the_mesh_or_wait_for_it() {
    let mut ui = page();
    let offer = || SseEvent::Offer {
        from: "a".to_string(),
        sdp: "v=0".to_string(),
    };
    assert!(ui.route(&joins("a")).is_empty());
    assert!(ui.route(&says("a", "hi")).is_empty());
    assert!(ui.route(&SseEvent::RoomFull).is_empty());
    assert!(ui.route(&offer()).is_empty());
    assert_eq!(ui.early.len(), 2);
    assert!(ui.peers.is_empty());
    assert_eq!(ui.mesh_ready().len(), 4);
    assert_eq!(ui.route(&offer()).len(), 2);
    assert!(ui.route(&says("a", "hi")).is_empty());
    assert!(ui.early.is_empty());
    // Telling the page is the other half.
    ui.inform(joins("a"), &Vec::new());
    ui.inform(offer(), &Vec::new());
    assert_eq!(ids(&ui), vec!["a"]);
    assert!(ui.early.is_empty());
}

#[test]
fn small_changes_of_the_page() {
    let mut ui = connected();
    ui.stream_failed("no stream".to_string());
    assert_eq!(ui.status, RoomStatus::Error("no stream".to_string()));
    ui.speaks(Some("a".to_string()));
    assert_eq!(ui.speaker.as_deref(), Some("a"));
    ui.speaks(None);
    assert_eq!(ui.speaker, None);
    assert_eq!(ui.rename("Bob".to_string()), set_cookie("wr_name", "Bob"));
    assert_eq!(ui.display_name, "Bob");
    ui.type_chat("hel".to_string());
    assert_eq!(ui.chat_input, "hel");
    ui.toggle_chat();
    ui.close_chat();
    assert!(!ui.chat_open);
    ui.close_chat();
    assert!(!ui.chat_open);
}

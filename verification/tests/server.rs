//! The room server, from outside.

use tokio::sync::broadcast::error::TryRecvError;
use webrtc_room::server::access::{is_valid_room_name, require_session, Refusal};
use webrtc_room::server::auth::{check_password, AuthResult};
use webrtc_room::server::chat::{ChatMessage, ChatStore, InMemoryChat};
use webrtc_room::server::rooms::{RoomState, SSE_BUFFER_SIZE};
use webrtc_room::server::{
    handle_chat_history, handle_chat_send, handle_join, handle_signal, handle_sse, handle_turn,
    stream_item, AppState, StreamEnd,
};
use webrtc_room::types::{ChatSendRequest, JoinRequest, JoinResponse, SignalMessage, SseEvent};

#[test]
fn room_name_validation() {
    assert!(is_valid_room_name("abc"));
    assert!(is_valid_room_name("weekly-sync-42"));
    assert!(!is_valid_room_name(""));
    assert!(!is_valid_room_name("ab"));
    assert!(!is_valid_room_name(&"a".repeat(49)));
    assert!(!is_valid_room_name("UPPER"));
    assert!(!is_valid_room_name("has_underscore"));
    assert!(!is_valid_room_name("has space"));
}

#[test]
fn matching_password_grants() {
    assert_eq!(
        check_password(&Some("pw".into()), Some("pw")),
        AuthResult::Granted
    );
}

#[test]
fn wrong_or_missing_password_is_refused() {
    assert_eq!(
        check_password(&Some("pw".into()), Some("nope")),
        AuthResult::PasswordRequired
    );
    assert_eq!(
        check_password(&Some("pw".into()), None),
        AuthResult::PasswordRequired
    );
}

#[test]
fn passwordless_room_is_open() {
    assert_eq!(check_password(&None, None), AuthResult::Granted);
    assert_eq!(check_password(&None, Some("ignored")), AuthResult::Granted);
}

fn sample_event() -> SseEvent {
    SseEvent::ChatMessage {
        from: "a".into(),
        sender_name: Some("Alice".into()),
        text: "hi".into(),
        timestamp_ms: 1,
    }
}

#[test]
fn broadcast_reaches_participants_but_not_sender() {
    let mut room = RoomState::new(None);
    for id in ["a", "b", "c"] {
        room.let_in(id, None);
    }

    // Subscribers are created first (like live event streams), then an event is
    // broadcast.
    let mut ra = room.subscribe("a").unwrap();
    let mut rb = room.subscribe("b").unwrap();
    let mut rc = room.subscribe("c").unwrap();

    room.broadcast(&sample_event(), Some("a"));

    // b and c receive it; a (the excluded sender) does not.
    assert!(rb.try_recv().is_ok());
    assert!(rc.try_recv().is_ok());
    assert!(ra.try_recv().is_err());
}

#[test]
fn send_to_reaches_only_the_addressee() {
    let mut room = RoomState::new(None);
    for id in ["a", "b", "c"] {
        room.let_in(id, None);
    }
    let mut ra = room.subscribe("a").unwrap();
    let mut rb = room.subscribe("b").unwrap();
    let mut rc = room.subscribe("c").unwrap();

    room.send_to("b", &sample_event());

    assert!(rb.try_recv().is_ok());
    assert!(ra.try_recv().is_err());
    assert!(rc.try_recv().is_err());

    // An address that has left the room is simply dropped.
    room.send_to("gone", &sample_event());
    assert!(ra.try_recv().is_err());
}

#[test]
fn is_participant_checks_membership() {
    let mut room = RoomState::new(None);
    assert!(!room.is_participant("x"));
    room.let_in("x", None);
    assert!(room.is_participant("x"));
    assert!(!room.is_participant("y"));
}

fn server() -> AppState<InMemoryChat> {
    AppState::new(
        InMemoryChat::new(),
        "secret".to_string(),
        "turn.example.com".to_string(),
        3478,
        2,
    )
}

fn request(session: &str, password: Option<&str>, claim: Option<&str>) -> JoinRequest {
    JoinRequest {
        password: password.map(str::to_string),
        claim_password: claim.map(str::to_string),
        session_id: session.to_string(),
        display_name: Some(format!("name of {session}")),
        user_id: None,
    }
}

fn session(id: &str) -> Vec<(String, String)> {
    vec![("session_id".to_string(), id.to_string())]
}

fn say(text: &str) -> ChatSendRequest {
    ChatSendRequest {
        text: text.to_string(),
        sender_name: Some("Alice".to_string()),
    }
}

/// A server with a room that two sessions are in.
fn server_with_room() -> AppState<InMemoryChat> {
    let mut state = server();
    assert!(matches!(
        handle_join(&mut state, "room", request("a", None, Some("pw"))),
        Ok(JoinResponse::Joined { .. })
    ));
    assert!(matches!(
        handle_join(&mut state, "room", request("b", Some("pw"), None)),
        Ok(JoinResponse::Joined { .. })
    ));
    state
}

#[test]
fn room_names_of_the_longest_and_shortest_kind() {
    assert!(is_valid_room_name(&"a".repeat(48)));
    assert!(is_valid_room_name("---"));
    assert!(is_valid_room_name("0z9"));
    assert!(!is_valid_room_name("caf\u{e9}"));
    assert!(!is_valid_room_name("a/b"));
}

#[test]
fn passwords_compare_by_all_their_bytes() {
    assert_eq!(
        check_password(&Some("pass".into()), Some("password")),
        AuthResult::PasswordRequired
    );
    assert_eq!(
        check_password(&Some("p\u{e9}".into()), Some("p\u{e9}")),
        AuthResult::Granted
    );
    assert_eq!(
        check_password(&Some("pw".into()), Some("")),
        AuthResult::PasswordRequired
    );
}

#[test]
fn the_last_session_in_a_query_counts() {
    let params = vec![
        ("session_id".to_string(), "first".to_string()),
        ("other".to_string(), "x".to_string()),
        ("session_id".to_string(), "second".to_string()),
    ];
    assert_eq!(require_session(&params), Ok("second"));
    assert_eq!(require_session(&session("")), Err(Refusal::BadRequest));
    assert_eq!(require_session(&Vec::new()), Err(Refusal::BadRequest));
}

#[test]
fn refusals_have_their_status() {
    assert_eq!(Refusal::BadRequest.status(), 400);
    assert_eq!(Refusal::Forbidden.status(), 403);
    assert_eq!(Refusal::NotFound.status(), 404);
}

#[test]
fn the_first_visitor_claims_the_room() {
    let mut state = server();
    assert!(matches!(
        handle_join(&mut state, "room", request("a", None, None)),
        Ok(JoinResponse::NeedPassword {})
    ));
    assert!(matches!(
        handle_join(&mut state, "room", request("a", None, Some(""))),
        Ok(JoinResponse::NeedPassword {})
    ));
    match handle_join(&mut state, "room", request("a", None, Some("pw"))) {
        Ok(JoinResponse::Joined { self_id, peers, chat }) => {
            assert_eq!(self_id, "a");
            assert!(peers.is_empty());
            assert!(chat.is_empty());
        }
        other => panic!("{other:?}"),
    }
}

#[test]
fn a_claimed_room_asks_for_its_password() {
    let mut state = server();
    let _ = handle_join(&mut state, "room", request("a", None, Some("pw")));
    for attempt in [
        request("b", None, None),
        request("b", Some("nope"), None),
        request("b", None, Some("pw")),
    ] {
        assert!(matches!(
            handle_join(&mut state, "room", attempt),
            Ok(JoinResponse::PasswordRequired {})
        ));
    }
    match handle_join(&mut state, "room", request("b", Some("pw"), None)) {
        Ok(JoinResponse::Joined { self_id, peers, .. }) => {
            assert_eq!(self_id, "b");
            assert_eq!(peers, vec!["a".to_string()]);
        }
        other => panic!("{other:?}"),
    }
}

#[test]
fn a_full_room_takes_back_who_was_in_it() {
    let mut state = server_with_room();
    assert!(matches!(
        handle_join(&mut state, "room", request("c", Some("pw"), None)),
        Ok(JoinResponse::Full {})
    ));
    match handle_join(&mut state, "room", request("a", Some("pw"), None)) {
        Ok(JoinResponse::Joined { mut peers, .. }) => {
            peers.sort();
            assert_eq!(peers, vec!["a".to_string(), "b".to_string()]);
        }
        other => panic!("{other:?}"),
    }
}

#[test]
fn joins_with_a_bad_name_or_an_overlong_password_are_refused() {
    let mut state = server();
    assert!(matches!(
        handle_join(&mut state, "No Such", request("a", None, Some("pw"))),
        Err(Refusal::BadRequest)
    ));
    let long = "x".repeat(129);
    assert!(matches!(
        handle_join(&mut state, "room", request("a", None, Some(&long))),
        Err(Refusal::BadRequest)
    ));
    let limit = "x".repeat(128);
    assert!(matches!(
        handle_join(&mut state, "room", request("a", None, Some(&limit))),
        Ok(JoinResponse::Joined { .. })
    ));
}

#[test]
fn only_participants_are_served() {
    let mut state = server_with_room();
    assert!(matches!(
        handle_sse(&mut state, "room", &session("stranger")),
        Err(Refusal::Forbidden)
    ));
    assert!(matches!(
        handle_sse(&mut state, "nowhere", &session("a")),
        Err(Refusal::NotFound)
    ));
    assert!(matches!(
        handle_chat_history(&state, "room", &session("stranger")),
        Err(Refusal::Forbidden)
    ));
    assert!(matches!(
        handle_chat_send(&mut state, "room", &Vec::new(), say("hi"), 1),
        Err(Refusal::BadRequest)
    ));
    assert!(matches!(
        handle_signal(
            &mut state,
            "nowhere",
            &session("a"),
            SignalMessage::Renegotiate
        ),
        Err(Refusal::NotFound)
    ));
}

#[test]
fn a_stream_starts_with_a_snapshot_and_is_announced() {
    let mut state = server_with_room();
    let _ = handle_chat_send(&mut state, "room", &session("a"), say("before"), 7);
    let (mut stream_a, snapshot) = handle_sse(&mut state, "room", &session("a")).unwrap();
    match snapshot {
        SseEvent::Resync { peers, chat } => {
            assert_eq!(peers.len(), 1);
            assert_eq!(peers[0].peer_id, "b");
            assert_eq!(peers[0].peer_name.as_deref(), Some("name of b"));
            assert_eq!(chat.len(), 1);
            assert_eq!(chat[0].text, "before");
        }
        other => panic!("{other:?}"),
    }
    // Nothing of what came before the stream is repeated on it.
    assert!(matches!(stream_a.try_recv(), Err(TryRecvError::Empty)));

    let (mut stream_b, _) = handle_sse(&mut state, "room", &session("b")).unwrap();
    match stream_a.try_recv() {
        Ok(SseEvent::PeerJoined { peer_id, peer_name }) => {
            assert_eq!(peer_id, "b");
            assert_eq!(peer_name.as_deref(), Some("name of b"));
        }
        other => panic!("{other:?}"),
    }
    assert!(matches!(stream_b.try_recv(), Err(TryRecvError::Empty)));
}

#[test]
fn display_names_are_cut_to_length() {
    let mut state = server();
    let mut long = request("a", None, Some("pw"));
    long.display_name = Some("\u{e9}".repeat(80));
    let _ = handle_join(&mut state, "room", long);
    let _ = handle_join(&mut state, "room", request("b", Some("pw"), None));
    match handle_sse(&mut state, "room", &session("b")) {
        Ok((_, SseEvent::Resync { peers, .. })) => {
            assert_eq!(peers[0].peer_name, Some("\u{e9}".repeat(64)));
        }
        other => panic!("{other:?}"),
    }
}

#[test]
fn signals_reach_their_addressee_under_the_senders_id() {
    let mut state = server_with_room();
    let (mut stream_a, _) = handle_sse(&mut state, "room", &session("a")).unwrap();
    let (mut stream_b, _) = handle_sse(&mut state, "room", &session("b")).unwrap();
    let _ = stream_a.try_recv();

    let offer = SignalMessage::Offer {
        to: "b".to_string(),
        sdp: "v=0".to_string(),
    };
    assert!(handle_signal(&mut state, "room", &session("a"), offer).is_ok());
    match stream_b.try_recv() {
        Ok(SseEvent::Offer { from, sdp }) => {
            assert_eq!(from, "a");
            assert_eq!(sdp, "v=0");
        }
        other => panic!("{other:?}"),
    }

    let answer = SignalMessage::Answer {
        to: "a".to_string(),
        sdp: "v=1".to_string(),
    };
    assert!(handle_signal(&mut state, "room", &session("b"), answer).is_ok());
    assert!(matches!(
        stream_a.try_recv(),
        Ok(SseEvent::Answer { from, sdp }) if from == "b" && sdp == "v=1"
    ));

    let candidate = SignalMessage::IceCandidate {
        to: "b".to_string(),
        candidate: "candidate:1".to_string(),
        sdp_mid: Some("0".to_string()),
        sdp_mline_index: Some(3),
    };
    assert!(handle_signal(&mut state, "room", &session("a"), candidate).is_ok());
    assert!(matches!(
        stream_b.try_recv(),
        Ok(SseEvent::IceCandidate { from, candidate, sdp_mid, sdp_mline_index: Some(3) })
            if from == "a" && candidate == "candidate:1" && sdp_mid.as_deref() == Some("0")
    ));

    // Accepted, relayed to nobody.
    assert!(
        handle_signal(&mut state, "room", &session("a"), SignalMessage::Renegotiate).is_ok()
    );
    let gone = SignalMessage::Offer {
        to: "gone".to_string(),
        sdp: String::new(),
    };
    assert!(handle_signal(&mut state, "room", &session("a"), gone).is_ok());
    assert!(matches!(stream_a.try_recv(), Err(TryRecvError::Empty)));
    assert!(matches!(stream_b.try_recv(), Err(TryRecvError::Empty)));
}

#[test]
fn chat_reaches_everyone_and_the_history() {
    let mut state = server_with_room();
    let (mut stream_a, _) = handle_sse(&mut state, "room", &session("a")).unwrap();
    assert!(handle_chat_send(&mut state, "room", &session("a"), say("hello"), 42).is_ok());
    assert!(matches!(
        stream_a.try_recv(),
        Ok(SseEvent::ChatMessage { from, sender_name, text, timestamp_ms: 42 })
            if from == "a" && sender_name.as_deref() == Some("Alice") && text == "hello"
    ));
    let history = handle_chat_history(&state, "room", &session("b")).unwrap();
    assert_eq!(
        history,
        vec![ChatMessage {
            room: "room".to_string(),
            sender_id: "a".to_string(),
            sender_name: Some("Alice".to_string()),
            text: "hello".to_string(),
            timestamp_ms: 42,
        }]
    );
}

#[test]
fn chat_is_cut_to_length_and_never_empty() {
    let mut state = server_with_room();
    assert!(matches!(
        handle_chat_send(&mut state, "room", &session("a"), say(""), 1),
        Err(Refusal::BadRequest)
    ));
    assert!(handle_chat_send(&mut state, "room", &session("a"), say(&"x".repeat(2001)), 1).is_ok());
    let history = handle_chat_history(&state, "room", &session("a")).unwrap();
    assert_eq!(history.len(), 1);
    assert_eq!(history[0].text, "x".repeat(2000));
}

#[test]
fn the_history_endpoint_returns_a_hundred_and_a_snapshot_fifty() {
    let mut state = server_with_room();
    for i in 0..120u64 {
        let _ = handle_chat_send(&mut state, "room", &session("a"), say(&format!("{i}")), i);
    }
    let history = handle_chat_history(&state, "room", &session("a")).unwrap();
    assert_eq!(history.len(), 100);
    assert_eq!(history[0].text, "20");
    assert_eq!(history[99].text, "119");
    match handle_sse(&mut state, "room", &session("a")) {
        Ok((_, SseEvent::Resync { chat, .. })) => {
            assert_eq!(chat.len(), 50);
            assert_eq!(chat[0].text, "70");
        }
        other => panic!("{other:?}"),
    }
    match handle_join(&mut state, "room", request("a", Some("pw"), None)) {
        Ok(JoinResponse::Joined { chat, .. }) => assert_eq!(chat.len(), 50),
        other => panic!("{other:?}"),
    }
}

fn message(room: &str, text: &str) -> ChatMessage {
    ChatMessage {
        room: room.to_string(),
        sender_id: "a".to_string(),
        sender_name: None,
        text: text.to_string(),
        timestamp_ms: 0,
    }
}

#[test]
fn the_store_keeps_the_newest_two_hundred() {
    let mut store = InMemoryChat::new();
    for i in 0..205u32 {
        store.append(&message("room", &format!("{i}")));
    }
    store.append(&message("other", "elsewhere"));
    let all = store.history("room", 1000);
    assert_eq!(all.len(), 200);
    assert_eq!(all[0].text, "5");
    assert_eq!(all[199].text, "204");
    let last = store.history("room", 1);
    assert_eq!(last.len(), 1);
    assert_eq!(last[0].text, "204");
    assert!(store.history("room", 0).is_empty());
    assert!(store.history("nowhere", 10).is_empty());
    assert_eq!(store.history("other", 10).len(), 1);
}

#[test]
fn a_stream_that_falls_behind_is_told() {
    let mut room = RoomState::new(None);
    room.let_in("a", None);
    let mut stream = room.subscribe("a").unwrap();
    for _ in 0..SSE_BUFFER_SIZE {
        room.send_to("a", &sample_event());
    }
    assert!(stream.try_recv().is_ok());
    for _ in 0..SSE_BUFFER_SIZE {
        room.send_to("a", &sample_event());
    }
    assert!(matches!(stream.try_recv(), Err(TryRecvError::Lagged(_))));
    assert!(room.subscribe("b").is_none());
}

#[test]
fn rejoining_starts_with_an_empty_inbox_and_keeps_the_name() {
    let mut room = RoomState::new(Some("pw".to_string()));
    room.let_in("a", Some("Alice".to_string()));
    let mut old = room.subscribe("a").unwrap();
    room.let_in("a", None);
    let mut new = room.subscribe("a").unwrap();
    room.send_to("a", &sample_event());
    assert!(new.try_recv().is_ok());
    assert!(matches!(old.try_recv(), Err(TryRecvError::Closed)));
    assert_eq!(room.display_name("a").as_deref(), Some("Alice"));
    assert_eq!(room.participant_count(), 1);
    assert_eq!(room.password().as_deref(), Some("pw"));
}

#[test]
fn presence_lists_everyone_else() {
    let mut room = RoomState::new(None);
    for id in ["a", "b", "c"] {
        room.let_in(id, (id == "b").then_some("Bob".to_string()));
    }
    let mut others = room.others("a");
    others.sort_by(|x, y| x.peer_id.cmp(&y.peer_id));
    assert_eq!(others.len(), 2);
    assert_eq!(others[0].peer_id, "b");
    assert_eq!(others[0].peer_name.as_deref(), Some("Bob"));
    assert_eq!(others[1].peer_id, "c");
    assert_eq!(others[1].peer_name, None);
    let mut ids = room.participant_ids();
    ids.sort();
    assert_eq!(ids, vec!["a".to_string(), "b".to_string(), "c".to_string()]);
}

#[test]
fn turn_credentials_are_good_for_an_hour() {
    let state = server();
    let creds = handle_turn(&state, 1_000);
    assert_eq!(creds.ttl_secs, 3600);
    assert!(creds.username.starts_with("4600:"));
    assert_eq!(
        creds.urls,
        vec![
            "turn:turn.example.com:3478".to_string(),
            "turn:turn.example.com:3478?transport=udp".to_string(),
            "stun:turn.example.com:3478".to_string(),
        ]
    );
}

#[test]
fn a_stream_that_lost_events_ends() {
    assert!(matches!(
        stream_item(Some(sample_event())),
        Ok(SseEvent::ChatMessage { text, .. }) if text == "hi"
    ));
    assert!(matches!(stream_item(None), Err(StreamEnd::FellBehind)));
    assert_eq!(
        StreamEnd::FellBehind.message(),
        "SSE stream ended (client fell behind)"
    );
}

#[test]
fn a_log_holds_its_own_rooms_messages() {
    let mut store = InMemoryChat::new();
    for i in 0..450u32 {
        store.append(&message(if i % 2 == 0 { "even" } else { "odd" }, &format!("{i}")));
    }
    for room in ["even", "odd"] {
        let log = store.history(room, 1000);
        assert_eq!(log.len(), 200);
        assert!(log.iter().all(|m| m.room == room));
    }
}

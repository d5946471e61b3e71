//! The mesh, its meter, and the offer/answer exchange.

use webrtc_room::services::audio_level::{Level, LevelMeter, MAX_RESUME_TRIES, SPEECH_FLOOR};
use webrtc_room::services::ice::{candidate_signal, ice_configuration, PUBLIC_STUN};
use webrtc_room::services::negotiation::{Negotiation, Outcome, SdpKind, Work};
use webrtc_room::services::webrtc::{
    AnswerVerdict, IceCandidate, LinkState, Mesh, MeshStep, OfferVerdict, SignalingState,
};
use webrtc_room::types::{PeerInfo, SignalMessage, SseEvent, TurnCredentials};

const FRESH: LinkState = LinkState {
    signaling: SignalingState::Stable,
    is_new: true,
};

const OFFERING: LinkState = LinkState {
    signaling: SignalingState::HaveLocalOffer,
    is_new: true,
};

const BUSY: LinkState = LinkState {
    signaling: SignalingState::Busy,
    is_new: false,
};

fn candidate(text: &str) -> IceCandidate {
    IceCandidate {
        candidate: text.to_string(),
        sdp_mid: Some("0".to_string()),
        sdp_mline_index: Some(1),
    }
}

fn connect(steps: &[&str]) -> Vec<MeshStep> {
    steps
        .iter()
        .flat_map(|peer| {
            [
                MeshStep::Connect { peer: peer.to_string() },
                MeshStep::Offer { peer: peer.to_string() },
            ]
        })
        .collect()
}

fn peer(id: &str) -> PeerInfo {
    PeerInfo {
        peer_id: id.to_string(),
        peer_name: None,
    }
}

#[test]
fn events_become_steps() {
    let resync = SseEvent::Resync {
        peers: vec![peer("a"), peer("b")],
        chat: Vec::new(),
    };
    assert_eq!(Mesh::on_event(&resync), connect(&["a", "b"]));
    let joined = SseEvent::PeerJoined {
        peer_id: "c".to_string(),
        peer_name: None,
    };
    assert_eq!(Mesh::on_event(&joined), connect(&["c"]));
    let left = SseEvent::PeerLeft {
        peer_id: "c".to_string(),
    };
    assert_eq!(
        Mesh::on_event(&left),
        vec![MeshStep::Close { peer: "c".to_string() }]
    );
    let offer = SseEvent::Offer {
        from: "a".to_string(),
        sdp: "v=0".to_string(),
    };
    assert_eq!(
        Mesh::on_event(&offer),
        vec![
            MeshStep::Connect { peer: "a".to_string() },
            MeshStep::AcceptOffer {
                from: "a".to_string(),
                sdp: "v=0".to_string()
            },
        ]
    );
    let answer = SseEvent::Answer {
        from: "a".to_string(),
        sdp: "v=0".to_string(),
    };
    assert_eq!(
        Mesh::on_event(&answer),
        vec![MeshStep::AcceptAnswer {
            from: "a".to_string(),
            sdp: "v=0".to_string()
        }]
    );
    let ice = SseEvent::IceCandidate {
        from: "a".to_string(),
        candidate: "x".to_string(),
        sdp_mid: Some("0".to_string()),
        sdp_mline_index: Some(1),
    };
    let mut steps = connect(&["a"]);
    steps.push(MeshStep::AddCandidate {
        from: "a".to_string(),
        candidate: candidate("x"),
    });
    assert_eq!(Mesh::on_event(&ice), steps);
    assert!(Mesh::on_event(&SseEvent::RoomFull).is_empty());
}

#[test]
fn exactly_one_side_of_a_pair_offers() {
    let mut a = Mesh::new("a", true, false);
    let mut b = Mesh::new("b", true, false);
    a.insert_peer("b");
    b.insert_peer("a");
    assert!(a.we_initiate("b"));
    assert!(!b.we_initiate("a"));
    assert!(a.maybe_offer("b", FRESH));
    assert!(!b.maybe_offer("a", FRESH));
    assert!(!a.we_initiate("a"));
}

#[test]
fn a_pair_gets_one_offer() {
    let mut mesh = Mesh::new("a", true, false);
    assert!(!mesh.maybe_offer("b", FRESH));
    mesh.insert_peer("b");
    assert!(!mesh.maybe_offer("b", BUSY));
    assert!(!mesh.maybe_offer("b", OFFERING));
    assert!(mesh.maybe_offer("b", FRESH));
    assert!(!mesh.maybe_offer("b", FRESH));
    // A new connection with the same peer is offered to again.
    assert!(mesh.close_peer("b"));
    mesh.insert_peer("b");
    assert!(mesh.maybe_offer("b", FRESH));
}

#[test]
fn nobody_connects_with_itself_or_twice() {
    let mut mesh = Mesh::new("a", true, false);
    assert!(!mesh.ensure_peer("a"));
    assert!(mesh.ensure_peer("b"));
    let first = mesh.insert_peer("b");
    assert!(!mesh.ensure_peer("b"));
    mesh.close_peer("b");
    assert!(mesh.ensure_peer("b"));
    assert_ne!(mesh.insert_peer("b"), first);
    assert!(!mesh.close_peer("c"));
}

#[test]
fn offers_are_judged() {
    let mut mesh = Mesh::new("m", true, false);
    assert_eq!(mesh.apply_offer("a", FRESH), OfferVerdict::NoPeer);
    mesh.insert_peer("a");
    assert_eq!(mesh.apply_offer("a", BUSY), OfferVerdict::NotStable);
    assert_eq!(mesh.apply_offer("a", FRESH), OfferVerdict::Accept);
    assert_eq!(mesh.apply_offer("a", FRESH), OfferVerdict::NotStable);
    mesh.insert_peer("z");
    assert!(mesh.maybe_offer("z", FRESH));
    assert_eq!(mesh.apply_offer("z", FRESH), OfferVerdict::OursToInitiate);
}

#[test]
fn answers_are_judged() {
    let mut mesh = Mesh::new("a", true, false);
    assert_eq!(mesh.apply_answer("b", OFFERING), AnswerVerdict::NoPeer);
    mesh.insert_peer("b");
    assert_eq!(
        mesh.apply_answer("b", FRESH),
        AnswerVerdict::NoOfferOutstanding
    );
    assert_eq!(mesh.apply_answer("b", OFFERING), AnswerVerdict::Accept);
    assert!(mesh.on_ice("b", candidate("x")));
}

#[test]
fn candidates_wait_and_leave_in_order() {
    let mut mesh = Mesh::new("m", true, false);
    assert!(!mesh.on_ice("a", candidate("lost")));
    let serial = mesh.insert_peer("a");
    assert!(!mesh.on_ice("a", candidate("1")));
    assert!(!mesh.on_ice("a", candidate("2")));
    assert_eq!(mesh.apply_offer("a", FRESH), OfferVerdict::Accept);
    assert!(mesh.on_ice("a", candidate("3")));
    assert_eq!(mesh.next_candidate("a", serial), Some(candidate("1")));
    assert_eq!(mesh.next_candidate("a", serial + 1), None);
    assert_eq!(mesh.next_candidate("a", serial), Some(candidate("2")));
    assert_eq!(mesh.next_candidate("a", serial), Some(candidate("3")));
    assert_eq!(mesh.next_candidate("a", serial), None);
    // What waits for a connection goes with it.
    mesh.on_ice("a", candidate("4"));
    mesh.close_peer("a");
    let again = mesh.insert_peer("a");
    mesh.on_ice("a", candidate("5"));
    assert_eq!(mesh.next_candidate("a", serial), None);
    assert_eq!(mesh.next_candidate("a", again), Some(candidate("5")));
}

#[test]
fn streams_wait_for_their_tiles() {
    let mut mesh = Mesh::new("m", true, false);
    assert!(mesh.local_waits());
    mesh.local_shown();
    assert!(!mesh.local_waits());
    assert!(!Mesh::new("m", false, false).local_waits());
    mesh.insert_peer("a");
    mesh.insert_peer("b");
    assert!(mesh.attach_pending().is_empty());
    assert!(!mesh.stream_arrived("a"));
    mesh.stream_arrived("nobody");
    assert_eq!(mesh.attach_pending(), vec!["a".to_string()]);
    mesh.shown("a");
    assert!(mesh.attach_pending().is_empty());
}

#[test]
fn closing_everything_releases_the_camera() {
    let mut mesh = Mesh::new("m", true, true);
    mesh.insert_peer("a");
    mesh.insert_peer("b");
    assert!(mesh.stream_arrived("a"));
    mesh.listen("a");
    let (peers, stop) = mesh.close_all();
    assert_eq!(peers, vec!["a".to_string(), "b".to_string()]);
    assert!(stop);
    assert!(mesh.heard().is_empty());
    let (peers, stop) = mesh.close_all();
    assert!(peers.is_empty());
    assert!(!stop);
}

fn level(value: f32) -> Level {
    Level {
        level: value.to_bits(),
        reach: (value * 1.6).to_bits(),
    }
}

#[test]
fn levels_compare_as_the_fractions_do() {
    assert_eq!(SPEECH_FLOOR, 0.02f32.to_bits());
    let fractions = [0.0f32, 1e-9, 0.019, 0.02, 0.0201, 0.5, 0.9999, 1.0, 1.6];
    for a in fractions {
        for b in fractions {
            assert_eq!(a < b, a.to_bits() < b.to_bits());
        }
    }
}

#[test]
fn it_takes_more_than_a_level_to_displace_it() {
    for bits in [0u32, 1, 2, 3, 4, 5, 0x007f_ffff, 0x0080_0000] {
        assert!(level(f32::from_bits(bits)).fits(), "{bits:x}");
    }
    for value in [1e-9f32, 0.019, 0.02, 0.3, 0.5, 0.9999, 1.0] {
        assert!(level(value).fits(), "{value}");
    }
    assert!(!Level { level: 1, reach: 1 }.fits());
    assert!(!Level { level: 2, reach: 1 }.fits());
    assert!(Level { level: 0, reach: 1 }.fits());
}

#[test]
fn nobody_else_reaches_whoever_is_staged() {
    let mut meter = LevelMeter::new();
    let steps = [0.0f32, 0.01, 0.021, 0.03, 0.05, 0.08, 0.3];
    for peer in ["a", "b", "c"] {
        meter.watch(peer);
    }
    for i in 0..steps.len() * steps.len() * steps.len() {
        let chosen = [
            steps[i % steps.len()],
            steps[i / steps.len() % steps.len()],
            steps[i / (steps.len() * steps.len())],
        ];
        for (peer, value) in ["a", "b", "c"].iter().zip(chosen) {
            meter.hear(peer, level(value));
        }
        match meter.sample() {
            Some(who) => {
                for other in ["a", "b", "c"] {
                    if other != who {
                        assert!(meter.level(other).level < meter.level(&who).reach);
                    }
                }
            }
            None => assert!(chosen.iter().all(|value| *value <= 0.02)),
        }
    }
}

#[test]
fn the_meter_follows_the_loudest() {
    let mut meter = LevelMeter::new();
    assert_eq!(meter.sample(), None);
    meter.watch("a");
    meter.watch("b");
    assert_eq!(meter.level("a"), Level { level: 0, reach: 0 });
    assert_eq!(meter.sample(), None);
    meter.hear("a", level(0.02));
    assert_eq!(meter.sample(), None);
    meter.hear("a", level(0.1));
    assert_eq!(meter.sample().as_deref(), Some("a"));
    assert_eq!(meter.level("a"), level(0.1));
}

#[test]
fn the_stage_changes_hands_only_to_the_clearly_louder() {
    let mut meter = LevelMeter::new();
    meter.watch("a");
    meter.watch("b");
    meter.hear("a", level(0.1));
    assert_eq!(meter.sample().as_deref(), Some("a"));
    meter.hear("b", level(0.15));
    assert_eq!(meter.sample().as_deref(), Some("a"));
    meter.hear("b", level(0.17));
    assert_eq!(meter.sample().as_deref(), Some("b"));
    // A quiet room has no owner, and no memory of one.
    meter.hear("a", level(0.01));
    meter.hear("b", level(0.01));
    assert_eq!(meter.sample(), None);
    meter.hear("a", level(0.1));
    meter.hear("b", level(0.11));
    assert_eq!(meter.sample().as_deref(), Some("b"));
}

#[test]
fn the_forgotten_leave_the_stage() {
    let mut meter = LevelMeter::new();
    meter.watch("a");
    meter.watch("b");
    meter.hear("a", level(0.9));
    meter.hear("b", level(0.1));
    assert_eq!(meter.sample().as_deref(), Some("a"));
    meter.forget("a");
    assert!(!meter.is_watched("a"));
    meter.hear("a", level(0.9));
    assert_eq!(meter.sample().as_deref(), Some("b"));
    // Watching again starts from silence; watching twice changes nothing.
    meter.watch("a");
    assert_eq!(meter.level("a"), Level { level: 0, reach: 0 });
    meter.watch("b");
    assert_eq!(meter.level("b"), level(0.1));
    assert_eq!(meter.watched(), vec!["b".to_string(), "a".to_string()]);
}

#[test]
fn a_parked_context_is_asked_a_bounded_number_of_times() {
    let mut meter = LevelMeter::new();
    assert!(!meter.ensure_running(false));
    for _ in 0..MAX_RESUME_TRIES {
        assert!(meter.ensure_running(true));
    }
    assert!(!meter.ensure_running(true));
    let mut mesh = Mesh::new("m", false, true);
    assert!(mesh.ensure_running(true));
    assert!(!Mesh::new("m", false, false).ensure_running(true));
}

#[test]
fn the_mesh_listens_to_whom_it_is_connected_with() {
    let mut mesh = Mesh::new("m", true, true);
    mesh.insert_peer("a");
    assert!(mesh.stream_arrived("a"));
    mesh.listen("a");
    assert!(!mesh.stream_arrived("a"));
    mesh.listen("stranger");
    assert_eq!(mesh.heard(), vec!["a".to_string()]);
    mesh.hear("a", level(0.3));
    assert_eq!(mesh.level("a"), level(0.3));
    assert_eq!(mesh.dominant_speaker().as_deref(), Some("a"));
    mesh.close_peer("a");
    assert!(mesh.heard().is_empty());
    assert_eq!(mesh.dominant_speaker(), None);
    let mut deaf = Mesh::new("m", true, false);
    deaf.insert_peer("a");
    assert!(!deaf.stream_arrived("a"));
    deaf.listen("a");
    assert!(deaf.heard().is_empty());
    assert_eq!(deaf.dominant_speaker(), None);
}

fn created(sdp: &str) -> Outcome {
    Outcome::Created {
        sdp: Some(sdp.to_string()),
    }
}

#[test]
fn an_offer_is_created_set_and_sent() {
    let (mut exchange, work) = Negotiation::offer("b");
    assert!(matches!(work, Work::CreateOffer));
    assert!(matches!(
        exchange.next(created("v=0")),
        Work::SetLocal { kind: SdpKind::Offer, sdp } if sdp == "v=0"
    ));
    assert!(matches!(
        exchange.next(Outcome::Done),
        Work::Send { signal: SignalMessage::Offer { to, sdp } } if to == "b" && sdp == "v=0"
    ));
    assert!(matches!(exchange.next(Outcome::Failed), Work::Finished));
    assert!(matches!(exchange.next(Outcome::Done), Work::Finished));
}

#[test]
fn an_answer_drains_candidates_before_and_after() {
    let (mut exchange, work) = Negotiation::answer("a", "their offer");
    assert!(matches!(
        work,
        Work::SetRemote { kind: SdpKind::Offer, sdp } if sdp == "their offer"
    ));
    assert!(matches!(exchange.next(Outcome::Done), Work::Drain));
    assert!(matches!(exchange.next(Outcome::Done), Work::CreateAnswer));
    assert!(matches!(
        exchange.next(created("v=1")),
        Work::SetLocal { kind: SdpKind::Answer, sdp } if sdp == "v=1"
    ));
    assert!(matches!(
        exchange.next(Outcome::Done),
        Work::Send { signal: SignalMessage::Answer { to, sdp } } if to == "a" && sdp == "v=1"
    ));
    assert!(matches!(exchange.next(Outcome::Failed), Work::Drain));
    assert!(matches!(exchange.next(Outcome::Done), Work::Finished));
}

#[test]
fn an_answer_that_does_not_apply_still_drains() {
    let (mut exchange, work) = Negotiation::conclude("b", "their answer");
    assert!(matches!(
        work,
        Work::SetRemote { kind: SdpKind::Answer, sdp } if sdp == "their answer"
    ));
    assert!(matches!(exchange.next(Outcome::Failed), Work::Drain));
    assert!(matches!(exchange.next(Outcome::Done), Work::Finished));
}

#[test]
fn failures_end_an_exchange() {
    let (mut exchange, _) = Negotiation::offer("b");
    assert!(matches!(exchange.next(Outcome::Failed), Work::Finished));
    let (mut exchange, _) = Negotiation::offer("b");
    let empty = Outcome::Created { sdp: None };
    assert!(matches!(exchange.next(empty), Work::Finished));
    let (mut exchange, _) = Negotiation::offer("b");
    let _ = exchange.next(created("v=0"));
    assert!(matches!(exchange.next(Outcome::Failed), Work::Finished));
    let (mut exchange, _) = Negotiation::answer("a", "v=0");
    assert!(matches!(exchange.next(Outcome::Failed), Work::Finished));
    assert!(matches!(exchange.next(Outcome::Done), Work::Finished));
}

fn turn(urls: &[&str], username: &str) -> Result<TurnCredentials, String> {
    Ok(TurnCredentials {
        urls: urls.iter().map(|url| url.to_string()).collect(),
        username: username.to_string(),
        credential: "tag".to_string(),
        ttl_secs: 3600,
    })
}

#[test]
fn ice_servers_come_from_the_room_server() {
    let server = ice_configuration(turn(&["turn:h:1", "stun:h:1"], "user"));
    assert_eq!(server.urls, vec!["turn:h:1".to_string(), "stun:h:1".to_string()]);
    let login = server.login.unwrap();
    assert_eq!(login.username, "user");
    assert_eq!(login.credential, "tag");
    assert!(ice_configuration(turn(&["stun:h:1"], "")).login.is_none());
}

#[test]
fn public_stun_is_the_fallback() {
    assert_eq!(PUBLIC_STUN, "stun:stun.l.google.com:19302");
    for creds in [Err("HTTP 500".to_string()), turn(&[], "user")] {
        let server = ice_configuration(creds);
        assert_eq!(server.urls, vec![PUBLIC_STUN.to_string()]);
        assert!(server.login.is_none());
    }
}

#[test]
fn gathered_candidates_are_told_to_their_peer() {
    assert!(candidate_signal("b", None).is_none());
    assert!(matches!(
        candidate_signal("b", Some(candidate("x"))),
        Some(SignalMessage::IceCandidate { to, candidate, sdp_mid, sdp_mline_index: Some(1) })
            if to == "b" && candidate == "x" && sdp_mid.as_deref() == Some("0")
    ));
}

#[test]
fn only_who_has_media_sends_it() {
    let mut mesh = Mesh::new("m", true, false);
    assert!(mesh.sends_media());
    let _ = mesh.close_all();
    assert!(!mesh.sends_media());
    assert!(!Mesh::new("m", false, false).sends_media());
}

#[test]
fn later_connections_have_other_serials() {
    let mut mesh = Mesh::new("m", true, false);
    let mut serials = Vec::new();
    for _ in 0..5 {
        serials.push(mesh.insert_peer("a"));
        serials.push(mesh.insert_peer("b"));
        mesh.close_peer("a");
        mesh.close_peer("b");
    }
    let all = serials.len();
    serials.sort();
    serials.dedup();
    assert_eq!(serials.len(), all);
}

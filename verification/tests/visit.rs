//! A whole visit: two participants meet in a room and connect with each other.

use tokio::sync::broadcast::Receiver;
use webrtc_room::pages::room::{Creds, RoomUi};
use webrtc_room::server::chat::InMemoryChat;
use webrtc_room::server::{handle_join, handle_signal, handle_sse, AppState};
use webrtc_room::services::negotiation::{Negotiation, Outcome, Work};
use webrtc_room::services::webrtc::{
    AnswerVerdict, LinkState, Mesh, MeshStep, OfferVerdict, SignalingState,
};
use webrtc_room::types::{SignalMessage, SseEvent};

/// One participant: its page, its mesh, and its event stream.
struct Guest {
    id: &'static str,
    ui: RoomUi,
    mesh: Mesh,
    stream: Receiver<SseEvent>,
}

const FRESH: LinkState = LinkState {
    signaling: SignalingState::Stable,
    is_new: true,
};

const OFFERED: LinkState = LinkState {
    signaling: SignalingState::HaveLocalOffer,
    is_new: true,
};

fn session(id: &str) -> Vec<(String, String)> {
    vec![("session_id".to_string(), id.to_string())]
}

/// Joins, and takes the opening snapshot. Returns the steps it asks for too.
fn arrive(
    server: &mut AppState<InMemoryChat>,
    id: &'static str,
    creds: Creds,
) -> (Guest, Vec<MeshStep>) {
    let mut ui = RoomUi::new(String::new(), "user".to_string());
    let attempt = ui.connect(creds, id.to_string()).unwrap();
    let response = handle_join(server, "room", attempt.request).map_err(|_| "refused".to_string());
    assert_eq!(ui.joined(response, attempt.verifying).as_deref(), Some(id));
    let (stream, resync) = handle_sse(server, "room", &session(id)).unwrap();
    assert!(ui.on_event(resync, &Vec::new()).is_empty());
    let steps = ui.mesh_ready();
    let mesh = Mesh::new(id, true, false);
    (Guest { id, ui, mesh, stream }, steps)
}

/// What one step makes the guest send, with its connection in a given state.
fn take(guest: &mut Guest, step: MeshStep, state: LinkState) -> Option<SignalMessage> {
    let (mut exchange, _) = match step {
        MeshStep::Connect { peer } => {
            if guest.mesh.ensure_peer(&peer) {
                guest.mesh.insert_peer(&peer);
            }
            return None;
        }
        MeshStep::Offer { peer } => {
            if !guest.mesh.maybe_offer(&peer, state) {
                return None;
            }
            Negotiation::offer(&peer)
        }
        MeshStep::AcceptOffer { from, sdp } => {
            assert_eq!(guest.mesh.apply_offer(&from, state), OfferVerdict::Accept);
            Negotiation::answer(&from, &sdp)
        }
        MeshStep::AcceptAnswer { from, sdp } => {
            assert_eq!(guest.mesh.apply_answer(&from, state), AnswerVerdict::Accept);
            Negotiation::conclude(&from, &sdp)
        }
        other => panic!("{other:?}"),
    };
    // A browser to which everything succeeds.
    let mut outcome = match state.signaling {
        SignalingState::Stable if guest.mesh.we_initiate("b") => created(guest.id),
        _ => Outcome::Done,
    };
    loop {
        outcome = match exchange.next(outcome) {
            Work::Send { signal } => return Some(signal),
            Work::Finished => return None,
            Work::CreateOffer | Work::CreateAnswer => created(guest.id),
            Work::SetLocal { .. } | Work::SetRemote { .. } | Work::Drain => Outcome::Done,
        };
    }
}

fn created(by: &str) -> Outcome {
    Outcome::Created {
        sdp: Some(format!("from {by}")),
    }
}

/// What a guest makes of the next event on its stream.
fn listen(guest: &mut Guest) -> Vec<MeshStep> {
    let event = guest.stream.try_recv().unwrap();
    guest.ui.on_event(event, &Vec::new())
}

#[test]
fn two_participants_connect_through_the_server() {
    let mut server = AppState::new(
        InMemoryChat::new(),
        "secret".to_string(),
        "localhost".to_string(),
        3478,
        4,
    );
    let (mut a, steps) = arrive(&mut server, "a", Creds::Claim("pw".to_string()));
    assert!(steps.is_empty());
    let (mut b, steps) = arrive(&mut server, "b", Creds::Verify("pw".to_string()));
    assert_eq!(steps.len(), 2);
    for step in steps {
        // `a` sorts first, so `b` waits for its offer.
        assert!(take(&mut b, step, FRESH).is_none());
    }

    // The announcement of `b` makes `a` offer.
    let mut offer = None;
    for step in listen(&mut a) {
        if let Some(signal) = take(&mut a, step, FRESH) {
            assert!(offer.is_none());
            offer = Some(signal);
        }
    }
    let offer = offer.unwrap();
    assert!(matches!(&offer, SignalMessage::Offer { to, sdp } if to == "b" && sdp == "from a"));
    handle_signal(&mut server, "room", &session("a"), offer).unwrap();

    // The offer makes `b` answer.
    let mut answer = None;
    for step in listen(&mut b) {
        answer = take(&mut b, step, FRESH).or(answer);
    }
    let answer = answer.unwrap();
    assert!(matches!(&answer, SignalMessage::Answer { to, sdp } if to == "a" && sdp == "from b"));
    handle_signal(&mut server, "room", &session("b"), answer).unwrap();

    // The answer concludes the exchange.
    for step in listen(&mut a) {
        assert!(take(&mut a, step, OFFERED).is_none());
    }
    assert_eq!(a.ui.on_stage().as_deref(), Some("b"));
    assert_eq!(b.ui.on_stage().as_deref(), Some("a"));
    assert!(a.stream.try_recv().is_err());
    assert!(b.stream.try_recv().is_err());
}

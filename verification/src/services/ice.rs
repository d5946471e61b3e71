//! ICE: which servers a connection may use, and the candidates it gathers.

use vstd::prelude::*;
use vstd::string::*;

use crate::services::webrtc::IceCandidate;
use crate::types::{text_views, SignalMessage, SignalView, TurnCredentials};

verus! {

/// Used when the room's TURN endpoint cannot be reached, so that a dev server without
/// coturn still gathers server-reflexive candidates. Peers on the same machine connect
/// over host candidates either way.
pub const PUBLIC_STUN: &'static str = "stun:stun.l.google.com:19302";

/// Who to log in to an ICE server as.
#[derive(Debug)]
pub struct Login {
    pub username: String,
    pub credential: String,
}

/// One ICE server, under each of its URLs.
#[derive(Debug)]
pub struct IceServer {
    pub urls: Vec<String>,
    pub login: Option<Login>,
}

/// The view of an [`IceServer`]: its URLs, and user name and credential where it has
/// them.
#[verifier::ext_equal]
pub struct IceServerView {
    pub urls: Seq<Seq<char>>,
    pub login: Option<(Seq<char>, Seq<char>)>,
}

impl View for IceServer {
    type V = IceServerView;

    open spec fn view(&self) -> IceServerView {
        IceServerView {
            urls: text_views(self.urls@),
            login: match self.login {
                Some(login) => Some((login.username@, login.credential@)),
                None => None,
            },
        }
    }
}

/// Whatever the server hands out, falling back to public STUN when that request fails
/// or offers nothing.
pub open spec fn server_for(creds: Result<TurnCredentials, String>) -> IceServerView {
    if creds matches Ok(c) && c.urls@.len() > 0 {
        IceServerView {
            urls: text_views(creds->Ok_0.urls@),
            login: if creds->Ok_0.username@.len() > 0 {
                Some((creds->Ok_0.username@, creds->Ok_0.credential@))
            } else {
                None
            },
        }
    } else {
        IceServerView { urls: seq![PUBLIC_STUN@], login: None }
    }
}

/// The ICE server for every peer connection, from what came of asking for credentials.
pub fn ice_configuration(creds: Result<TurnCredentials, String>) -> (server: IceServer)
    ensures
        server@ == server_for(creds),
{
    match creds {
        Ok(creds) if creds.urls.len() > 0 => {
            let login = if creds.username.as_str().is_empty() {
                None
            } else {
                Some(Login { username: creds.username, credential: creds.credential })
            };
            IceServer { urls: creds.urls, login }
        },
        _ => {
            let mut urls: Vec<String> = Vec::new();
            urls.push(PUBLIC_STUN.to_owned());
            assert(text_views(urls@) =~= seq![PUBLIC_STUN@]);
            IceServer { urls, login: None }
        },
    }
}

/// What to tell a peer about a candidate that the connection with it gathered. No
/// candidate marks the end of gathering, which is not told.
pub fn candidate_signal(to: &str, candidate: Option<IceCandidate>) -> (signal: Option<
    SignalMessage,
>)
    ensures
        match candidate {
            Some(c) => signal matches Some(s) && s@ == (SignalView::IceCandidate {
                to: to@,
                candidate: c@.candidate,
                sdp_mid: c@.sdp_mid,
                sdp_mline_index: c@.sdp_mline_index,
            }),
            None => signal is None,
        },
{
    match candidate {
        Some(c) => Some(
            SignalMessage::IceCandidate {
                to: to.to_owned(),
                candidate: c.candidate,
                sdp_mid: c.sdp_mid,
                sdp_mline_index: c.sdp_mline_index,
            },
        ),
        None => None,
    }
}

/// There is always some server to ask, whatever came of asking for credentials.
pub proof fn law_there_is_always_an_ice_server(creds: Result<TurnCredentials, String>)
    ensures
        server_for(creds).urls.len() > 0,
{
}

} // verus!

//! What the server is started with.

use vstd::prelude::*;
use vstd::string::*;

use crate::scan::{parse_port, port_number};
use crate::types::text_view;

verus! {

/// How many participants a room has place for.
pub const MAX_PARTICIPANTS: usize = 4;

/// The TURN port where none is given, or none that can be used.
pub const DEFAULT_TURN_PORT: u16 = 3478;

/// What the server needs to hand out TURN credentials.
#[derive(Debug)]
pub struct TurnSettings {
    pub secret: String,
    pub host: String,
    pub port: u16,
    /// No secret was given, so the insecure one for development is used.
    pub insecure: bool,
}

/// The settings that the environment asks for, with a default for what it leaves out.
pub fn turn_settings(
    secret: Option<String>,
    host: Option<String>,
    port: Option<String>,
) -> (settings: TurnSettings)
    ensures
        settings.insecure == (secret is None),
        settings.secret@ == (match text_view(secret) {
            Some(s) => s,
            None => "dev-secret-change-me"@,
        }),
        settings.host@ == (match text_view(host) {
            Some(h) => h,
            None => "localhost"@,
        }),
        settings.port == (match text_view(port) {
            Some(p) => match port_number(p) {
                Some(n) => n,
                None => DEFAULT_TURN_PORT,
            },
            None => DEFAULT_TURN_PORT,
        }),
{
    let port: u16 = match port {
        Some(p) => match parse_port(p.as_str()) {
            Some(n) => n,
            None => DEFAULT_TURN_PORT,
        },
        None => DEFAULT_TURN_PORT,
    };
    let insecure = secret.is_none();
    TurnSettings {
        secret: match secret {
            Some(s) => s,
            None => "dev-secret-change-me".to_owned(),
        },
        host: match host {
            Some(h) => h,
            None => "localhost".to_owned(),
        },
        port,
        insecure,
    }
}

/// Where the stylesheet of a site is found.
pub fn stylesheet_path(pkg_dir: &str, output_name: &str) -> (path: String)
    ensures
        path@ == "/"@ + pkg_dir@ + "/"@ + output_name@ + ".css"@,
{
    "/".to_owned().concat(pkg_dir).concat("/").concat(output_name).concat(".css")
}

} // verus!

//! Room-password check. Handlers call this and nothing else about identity.

use vstd::prelude::*;

use crate::text::lemma_utf8_injective;
use crate::types::{str_view, text_view};

verus! {

/// The outcome of a room-password check.
///
/// New rooms are claimed before the check runs, so the only question left is: does
/// the supplied password match what the room already has?
#[derive(Debug, PartialEq, Eq, Structural)]
pub enum AuthResult {
    Granted,
    /// Room is locked and the password was missing or wrong.
    PasswordRequired,
}

/// Whether a supplied password opens a room: an open room needs none, a locked one
/// needs its own.
pub open spec fn opens(stored: Option<Seq<char>>, supplied: Option<Seq<char>>) -> bool {
    stored is None || stored == supplied
}

/// `constant_time_eq::constant_time_eq`: whether two byte strings are equal.
#[verifier::external_body]
fn equal_bytes(a: &[u8], b: &[u8]) -> (equal: bool)
    ensures
        equal == (a@ == b@),
{
    constant_time_eq::constant_time_eq(a, b)
}

/// Verify `supplied` against `stored`. A room with no password is open.
pub fn check_password(stored: &Option<String>, supplied: Option<&str>) -> (outcome: AuthResult)
    ensures
        outcome == (if opens(text_view(*stored), str_view(supplied)) {
            AuthResult::Granted
        } else {
            AuthResult::PasswordRequired
        }),
{
    match (stored, supplied) {
        (None, _) => AuthResult::Granted,
        (Some(stored), Some(supplied)) => {
            let locked = stored.as_str();
            if equal_bytes(locked.as_bytes(), supplied.as_bytes()) {
                proof {
                    lemma_utf8_injective(locked@, supplied@);
                }
                AuthResult::Granted
            } else {
                AuthResult::PasswordRequired
            }
        },
        _ => AuthResult::PasswordRequired,
    }
}

} // verus!

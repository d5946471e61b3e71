//! The client's side of a room: identity, signaling, media negotiation, and loudness.

pub mod audio_level;
pub mod client_laws;
pub mod ice;
pub mod laws;
pub mod mesh_laws;
pub mod negotiation;
pub mod signaling;
pub mod webrtc;

use vstd::prelude::*;
use vstd::string::*;
use vstd::utf8::{encode_utf8, is_ascii_chars, is_ascii_chars_encode_utf8};

verus! {

/// Whether an id that was kept can be used again.
pub open spec fn is_usable_id(id: Seq<char>) -> bool {
    encode_utf8(id).len() >= 8
}

/// Whether a character is a lowercase hexadecimal digit.
pub open spec fn is_hex_digit(c: char) -> bool {
    '0' <= c <= '9' || 'a' <= c <= 'f'
}

/// Whether a text is a random UUID: hexadecimal digits in groups of 8, 4, 4, 4 and 12,
/// with the version and the variant where they belong.
pub open spec fn is_uuid_v4(id: Seq<char>) -> bool {
    &&& id.len() == 36
    &&& forall|i: int|
        0 <= i < 36 ==> if i == 8 || i == 13 || i == 18 || i == 23 {
            #[trigger] id[i] == '-'
        } else {
            is_hex_digit(id[i])
        }
    &&& id[14] == '4'
    &&& id[19] == '8' || id[19] == '9' || id[19] == 'a' || id[19] == 'b'
}

/// `uuid::Uuid::new_v4`, as text: a random UUID in its hyphenated lowercase form.
///
/// Which one is left to chance; that it is a new one is likely, and not claimed.
#[verifier::external_body]
fn random_uuid() -> (id: String)
    ensures
        is_uuid_v4(id@),
{
    uuid::Uuid::new_v4().to_string()
}

/// An id that was kept, if it can be used again.
fn usable(kept: Option<String>) -> (id: Option<String>)
    ensures
        match kept {
            Some(k) => if is_usable_id(k@) {
                id == Some(k)
            } else {
                id is None
            },
            None => id is None,
        },
{
    match kept {
        Some(k) => if k.as_str().as_bytes().len() >= 8 {
            Some(k)
        } else {
            None
        },
        None => None,
    }
}

/// The id that was kept, or a new one, and whether it is new.
pub fn kept_or_new_id(kept: Option<String>) -> (id: (String, bool))
    ensures
        if kept matches Some(k) && is_usable_id(k@) {
            id == (kept->0, false)
        } else {
            is_uuid_v4(id.0@) && id.1
        },
{
    match usable(kept) {
        Some(id) => (id, false),
        None => (random_uuid(), true),
    }
}

/// What this tab's storage has to say about its id.
#[derive(Debug)]
pub enum SessionStore {
    /// Storage can be unavailable (blocked cookies, private mode).
    Unavailable,
    /// What is kept there, if anything.
    Item(Option<String>),
}

/// This tab's participant slot: a UUID v4 kept in session storage. Returns the id, and
/// whether it is to be put into storage.
///
/// Not a cookie on purpose: a cookie is shared by every tab, but each tab is a separate
/// participant. Session storage survives a reload (so a refresh re-claims the same slot
/// instead of taking another one from the room's capacity) while a second tab still gets
/// its own id.
pub fn session_id(store: SessionStore) -> (id: (String, bool))
    ensures
        match store {
            SessionStore::Unavailable => is_uuid_v4(id.0@) && !id.1,
            SessionStore::Item(kept) => if kept matches Some(k) && is_usable_id(k@) {
                id == (kept->0, false)
            } else {
                is_uuid_v4(id.0@) && id.1
            },
        },
{
    match store {
        SessionStore::Unavailable => (random_uuid(), false),
        SessionStore::Item(kept) => kept_or_new_id(kept),
    }
}

/// A new id can be used again: a reload keeps the participant's slot.
pub proof fn law_a_new_id_is_kept(id: Seq<char>)
    requires
        is_uuid_v4(id),
    ensures
        is_usable_id(id),
{
    assert(is_ascii_chars(id)) by {
        assert forall|i: int| 0 <= i < id.len() implies (0 <= #[trigger] id[i] as nat && id[i] as nat
            <= 0x7f) by {
            assert(id[i] == '-' || is_hex_digit(id[i]));
        }
    }
    is_ascii_chars_encode_utf8(id);
}

} // verus!

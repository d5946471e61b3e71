//! What the pages do: the landing page, and the room.

pub mod home;
pub mod laws;
pub mod page_laws;
pub mod room;

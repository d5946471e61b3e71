//! Rooms for peer-to-peer video calls.
//!
//! [`server`] lets people into rooms and relays what they tell each other. [`services`]
//! is the client's engine: it decides with whom to connect, who offers to whom, and who
//! is speaking. [`pages`] and [`components`] are the state of what the user sees. All of
//! it works on plain values: sockets, browsers and clocks are the caller's.

pub mod components;
pub mod directory;
pub mod pages;
pub mod roster;
pub mod scan;
pub mod server;
pub mod services;
pub mod text;
pub mod text_laws;
pub mod types;

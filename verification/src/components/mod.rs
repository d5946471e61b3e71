//! The pieces that pages are made of.

pub mod controls;

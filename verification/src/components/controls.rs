//! The bar under the stage: media toggles, the stage layout switch, and the chat toggle
//! carrying whatever has gone unread.

use vstd::prelude::*;
use vstd::string::*;

use crate::text::{decimal, decimal_text};

verus! {

/// The state of the bar.
///
/// The mic, camera and share buttons only move their own state for now: the mesh does
/// not renegotiate tracks yet.
#[derive(Debug, Clone, Copy, PartialEq, Eq, Structural)]
pub struct Controls {
    pub mic_on: bool,
    pub cam_on: bool,
    pub sharing: bool,
    /// `true` shows every feed at equal size, `false` gives the large tile to whoever is
    /// talking. Ignored on small screens, which are always a gallery.
    pub gallery: bool,
}

/// A button of the bar that switches something.
#[derive(Debug, Clone, Copy, PartialEq, Eq, Structural)]
pub enum Switch {
    Mic,
    Cam,
    Share,
    Gallery,
}

impl Controls {
    /// Mic and camera on, nothing shared, whoever speaks shown large.
    pub fn new() -> (controls: Self)
        ensures
            controls == (Controls { mic_on: true, cam_on: true, sharing: false, gallery: false }),
    {
        Controls { mic_on: true, cam_on: true, sharing: false, gallery: false }
    }

    /// Whether a button is pressed.
    pub open spec fn is_on(self, switch: Switch) -> bool {
        match switch {
            Switch::Mic => self.mic_on,
            Switch::Cam => self.cam_on,
            Switch::Share => self.sharing,
            Switch::Gallery => self.gallery,
        }
    }

    /// The bar with a button flipped.
    pub open spec fn flipped(self, switch: Switch) -> Self {
        match switch {
            Switch::Mic => Controls { mic_on: !self.mic_on, ..self },
            Switch::Cam => Controls { cam_on: !self.cam_on, ..self },
            Switch::Share => Controls { sharing: !self.sharing, ..self },
            Switch::Gallery => Controls { gallery: !self.gallery, ..self },
        }
    }

    /// Whether a button is pressed.
    pub fn pressed(&self, switch: Switch) -> (on: bool)
        ensures
            on == self.is_on(switch),
    {
        match switch {
            Switch::Mic => self.mic_on,
            Switch::Cam => self.cam_on,
            Switch::Share => self.sharing,
            Switch::Gallery => self.gallery,
        }
    }

    /// Flips a button.
    pub fn toggle(&mut self, switch: Switch)
        ensures
            *final(self) == old(self).flipped(switch),
    {
        match switch {
            Switch::Mic => {
                self.mic_on = !self.mic_on;
            },
            Switch::Cam => {
                self.cam_on = !self.cam_on;
            },
            Switch::Share => {
                self.sharing = !self.sharing;
            },
            Switch::Gallery => {
                self.gallery = !self.gallery;
            },
        }
    }

    /// What a button shows.
    pub fn face(&self, switch: Switch) -> (text: &'static str)
        ensures
            text@ == match (switch, self.is_on(switch)) {
                (Switch::Mic, true) => "🎤"@,
                (Switch::Mic, false) => "🔇"@,
                (Switch::Cam, true) => "📷"@,
                (Switch::Cam, false) => "🚫"@,
                (Switch::Share, true) => "Stop"@,
                (Switch::Share, false) => "Share"@,
                (Switch::Gallery, true) => "Gallery"@,
                (Switch::Gallery, false) => "Speaker"@,
            },
    {
        match (switch, self.pressed(switch)) {
            (Switch::Mic, true) => "🎤",
            (Switch::Mic, false) => "🔇",
            (Switch::Cam, true) => "📷",
            (Switch::Cam, false) => "🚫",
            (Switch::Share, true) => "Stop",
            (Switch::Share, false) => "Share",
            (Switch::Gallery, true) => "Gallery",
            (Switch::Gallery, false) => "Speaker",
        }
    }
}

/// What the chat button is called.
pub fn chat_label(unread: u32) -> (label: String)
    ensures
        label@ == "Chat, "@ + decimal_text(unread as nat) + " unread"@,
{
    "Chat, ".to_owned().concat(decimal(unread as u64).as_str()).concat(" unread")
}

/// The number on the chat button; there is none where nothing went unread.
pub fn badge(unread: u32) -> (count: Option<u32>)
    ensures
        count == (if unread > 0 {
            Some(unread)
        } else {
            None
        }),
{
    if unread > 0 {
        Some(unread)
    } else {
        None
    }
}

/// Each button stands for its own setting, and a new bar has mic and camera on and nothing
/// else.
pub proof fn law_buttons_stand_for_their_settings(
    controls: Controls,
    first: Controls,
    switch: Switch,
    on: bool,
)
    requires
        call_ensures(Controls::new, (), first),
        call_ensures(Controls::pressed, (&controls, switch), on),
    ensures
        on == controls.is_on(switch),
        switch == Switch::Mic ==> on == controls.mic_on,
        switch == Switch::Cam ==> on == controls.cam_on,
        switch == Switch::Share ==> on == controls.sharing,
        switch == Switch::Gallery ==> on == controls.gallery,
        first.mic_on,
        first.cam_on,
        !first.sharing,
        !first.gallery,
{
}

/// What a button shows says whether it is pressed.
pub proof fn law_a_button_shows_whether_it_is_pressed(
    controls: Controls,
    switch: Switch,
    text: &'static str,
)
    requires
        call_ensures(Controls::face, (&controls, switch), text),
    ensures
        switch == Switch::Mic ==> text@ == if controls.mic_on {
            "🎤"@
        } else {
            "🔇"@
        },
        switch == Switch::Cam ==> text@ == if controls.cam_on {
            "📷"@
        } else {
            "🚫"@
        },
        switch == Switch::Share ==> text@ == if controls.sharing {
            "Stop"@
        } else {
            "Share"@
        },
        switch == Switch::Gallery ==> text@ == if controls.gallery {
            "Gallery"@
        } else {
            "Speaker"@
        },
{
}

/// The chat button says how much went unread, and carries a number just where something
/// did.
pub proof fn law_the_chat_button_counts_what_went_unread(
    unread: u32,
    label: String,
    count: Option<u32>,
)
    requires
        call_ensures(chat_label, (unread,), label),
        call_ensures(badge, (unread,), count),
    ensures
        label@ == "Chat, "@ + decimal_text(unread as nat) + " unread"@,
        count is None <==> unread == 0,
        count matches Some(n) ==> n == unread,
{
}

/// Pressing a button twice changes nothing, and pressing one leaves the others alone.
pub proof fn law_buttons_flip_back_and_alone(controls: Controls, switch: Switch, other: Switch)
    ensures
        controls.flipped(switch).flipped(switch) == controls,
        controls.flipped(switch).is_on(switch) == !controls.is_on(switch),
        other != switch ==> controls.flipped(switch).is_on(other) == controls.is_on(other),
{
}

} // verus!

//! What the room page shows, and what it asks for, in terms of what happened on it.

use vstd::prelude::*;
use vstd::string::*;

use crate::pages::home::cookie_line;
use crate::pages::room::{
    clock_text, first_page, format_time, get_or_create_user_id, is_for_mesh, is_listed,
    issued_session, name_line, peer_label, stamps, steps_for_all, to_ui, two_digit_text, unlisted,
    ChatPost, Creds, CredsView, Happening, JoinAttempt, Note, RoomUi, RoomUiView, UiChatMsg,
    LEVEL_POLL_MS,
};
use crate::scan::trimmed_text;
use crate::services::signaling::StatusView;
use crate::services::webrtc::steps_for;
use crate::services::{is_usable_id, is_uuid_v4};
use crate::text::digit_char;
use crate::types::{text_view, ChatMessage, ChatView, EventView, JoinResponse, PeerInfo, PeerView};

verus! {

/// A live chat message shows at the end of the chat, under the name its sender gave, and
/// just as it would show if a snapshot held it.
pub proof fn law_a_live_message_shows_as_the_stored_one(
    ui: RoomUiView,
    msg: ChatView,
    time: (u32, u32),
    peers: Seq<PeerView>,
)
    ensures
        ({
            let live = EventView::ChatMessage {
                from: msg.sender_id,
                sender_name: msg.sender_name,
                text: msg.text,
                timestamp_ms: msg.timestamp_ms,
            };
            let after = ui.after_event(live, seq![time]);
            let shown = after.chat.last();
            &&& after.chat.len() == ui.chat.len() + 1
            &&& after.chat.drop_last() == ui.chat
            &&& shown.from == msg.sender_id
            &&& shown.text == msg.text
            &&& shown.timestamp_ms == msg.timestamp_ms
            &&& msg.sender_name matches Some(name) ==> shown.sender_name == name
            &&& msg.sender_name is None ==> shown.sender_name == "Anonymous"@
            &&& shown.own <==> ui.self_id == Some(msg.sender_id)
            &&& shown.time == clock_text(time)
            &&& ui.after_event(EventView::Resync { peers, chat: seq![msg] }, seq![time]).chat
                == seq![shown]
            &&& ui.informed(live, seq![time]).chat == after.chat
        }),
{
    let live = EventView::ChatMessage {
        from: msg.sender_id,
        sender_name: msg.sender_name,
        text: msg.text,
        timestamp_ms: msg.timestamp_ms,
    };
    let after = ui.after_event(live, seq![time]);
    assert(after.chat.drop_last() =~= ui.chat);
    assert(ui.after_event(EventView::Resync { peers, chat: seq![msg] }, seq![time]).chat
        =~= seq![after.chat.last()]);
}

/// A snapshot shows who it lists, and each of its messages in its place: who sent it,
/// under which name, what, when, and whether it is one's own.
pub proof fn law_a_snapshot_shows_each_message(
    ui: RoomUiView,
    peers: Seq<PeerView>,
    chat: Seq<ChatView>,
    times: Seq<(u32, u32)>,
    i: int,
)
    requires
        times.len() == chat.len(),
        0 <= i < chat.len(),
    ensures
        ({
            let after = ui.after_event(EventView::Resync { peers, chat }, times);
            let shown = after.chat[i];
            &&& after.peers == peers
            &&& after.chat.len() == chat.len()
            &&& shown.from == chat[i].sender_id
            &&& shown.text == chat[i].text
            &&& shown.timestamp_ms == chat[i].timestamp_ms
            &&& shown.time == clock_text(times[i])
            &&& chat[i].sender_name matches Some(name) ==> shown.sender_name == name
            &&& chat[i].sender_name is None ==> shown.sender_name == "Anonymous"@
            &&& shown.own <==> ui.self_id == Some(chat[i].sender_id)
        }),
{
}

/// A stored message is displayed with its own sender, name, text and time.
pub proof fn law_a_stored_message_is_displayed_whole(
    msg: ChatMessage,
    mine: Option<String>,
    time: (u32, u32),
    shown: UiChatMsg,
)
    requires
        call_ensures(to_ui, (&msg, &mine, time), shown),
    ensures
        shown.from@ == msg.sender_id@,
        shown.text@ == msg.text@,
        shown.timestamp_ms == msg.timestamp_ms,
        shown.time@ == clock_text(time),
        msg.sender_name matches Some(name) ==> shown.sender_name@ == name@,
        msg.sender_name is None ==> shown.sender_name@ == "Anonymous"@,
        mine matches Some(id) ==> shown.own == (id@ == msg.sender_id@),
        mine is None ==> !shown.own,
{
    assert(shown@.from == msg.sender_id@);
}

/// Just the messages of others that come while the chat is shut add to the backlog, one
/// each.
pub proof fn law_the_backlog_counts_what_others_said_meanwhile(
    ui: RoomUiView,
    event: EventView,
    times: Seq<(u32, u32)>,
)
    requires
        ui.unread < u32::MAX,
    ensures
        ({
            let missed = event is ChatMessage && ui.self_id != Some(event->ChatMessage_from)
                && !ui.chat_open;
            ui.after_event(event, times).unread == ui.unread + (if missed {
                1int
            } else {
                0
            })
        }),
{
}

/// Messages that others send while the chat is shut are all in the backlog, and opening
/// the chat acknowledges them.
pub proof fn law_opening_the_chat_acknowledges_the_backlog(
    ui: RoomUiView,
    event: EventView,
    times: Seq<(u32, u32)>,
)
    requires
        ui.unread < u32::MAX,
    ensures
        !ui.chat_open ==> ui.toggled().unread == 0 && ui.toggled().chat_open,
        ui.chat_open ==> ui.toggled().unread == ui.unread && !ui.toggled().chat_open,
        ui.toggled().toggled().chat_open == ui.chat_open,
        ui.chat_open ==> ui.toggled().unread == ui.noted(Note::ChatClosed).unread,
        ui.noted(Note::ChatClosed).unread == ui.unread,
        !ui.noted(Note::ChatClosed).chat_open,
        !ui.chat_open ==> ui.toggled().after_event(event, times).unread == 0,
        ui.toggled().status == ui.status,
        ui.toggled().bad_password == ui.bad_password,
        ui.toggled().self_id == ui.self_id,
        ui.toggled().display_name == ui.display_name,
        ui.toggled().user_id == ui.user_id,
        ui.toggled().peers == ui.peers,
        ui.toggled().speaker == ui.speaker,
        ui.toggled().chat == ui.chat,
        ui.toggled().chat_input == ui.chat_input,
        ui.toggled().chat_error == ui.chat_error,
        ui.toggled().meshed == ui.meshed,
        ui.toggled().early == ui.early,
{
}

/// Room events change presence, chat, backlog and status, each just where the event is
/// about it, and nothing else on the page.
pub proof fn law_events_change_what_they_are_about(
    ui: RoomUiView,
    event: EventView,
    times: Seq<(u32, u32)>,
)
    ensures
        ({
            let after = ui.after_event(event, times);
            &&& !(event is Resync || event is PeerJoined || event is PeerLeft) ==> after.peers
                == ui.peers
            &&& !(event is Resync || event is ChatMessage) ==> after.chat == ui.chat
            &&& !(event is ChatMessage) ==> after.unread == ui.unread
            &&& !(event is RoomFull || event is Error) ==> after.status == ui.status
            &&& event is RoomFull ==> after.status == StatusView::Full
            &&& event matches EventView::Error { message } ==> after.status == StatusView::Error(
                message,
            )
            &&& after.bad_password == ui.bad_password
            &&& after.self_id == ui.self_id
            &&& after.display_name == ui.display_name
            &&& after.user_id == ui.user_id
            &&& after.speaker == ui.speaker
            &&& after.chat_open == ui.chat_open
            &&& after.chat_input == ui.chat_input
            &&& after.chat_error == ui.chat_error
            &&& after.meshed == ui.meshed
        }),
{
}

/// Handing an event to the mesh shows nowhere, and showing it hands nothing to the mesh.
pub proof fn law_the_mesh_and_the_page_are_told_apart(
    ui: RoomUiView,
    event: EventView,
    times: Seq<(u32, u32)>,
)
    ensures
        ui.routed(event).peers == ui.peers,
        ui.routed(event).chat == ui.chat,
        ui.routed(event).unread == ui.unread,
        ui.routed(event).status == ui.status,
        ui.routed(event).self_id == ui.self_id,
        ui.routed(event).speaker == ui.speaker,
        ui.informed(event, times).early == ui.early,
        ui.informed(event, times).meshed == ui.meshed,
        ui.informed(event, times).routed(event) == ui.routed(event).informed(event, times),
{
    assert(ui.informed(event, times).routed(event) =~= ui.routed(event).informed(event, times));
}

/// The mesh has to see who is there and what connections are made of; chat, and what is
/// wrong with the room, are for the page alone.
pub proof fn law_what_the_mesh_has_to_see(event: EventView)
    ensures
        is_for_mesh(event) <==> (event is Resync || event is PeerJoined || event is PeerLeft
            || event is Offer || event is Answer || event is IceCandidate),
        is_for_mesh(event) <==> !(event is ChatMessage || event is RoomFull || event is Error),
{
}

/// A mesh that is built takes over what waited for it, and nothing else changes.
pub proof fn law_a_new_mesh_takes_over_what_waited(
    ui: RoomUiView,
    event: EventView,
    times: Seq<(u32, u32)>,
)
    ensures
        ({
            let after = ui.after(Happening::MeshReady);
            &&& after.meshed
            &&& after.early.len() == 0
            &&& after.status == ui.status && after.peers == ui.peers && after.chat == ui.chat
            &&& after.unread == ui.unread && after.self_id == ui.self_id
            &&& after.chat_open == ui.chat_open && after.speaker == ui.speaker
            &&& after.display_name == ui.display_name && after.user_id == ui.user_id
            &&& after.chat_input == ui.chat_input && after.chat_error == ui.chat_error
            &&& after.bad_password == ui.bad_password
        }),
        ui.steps_on(Happening::MeshReady) == steps_for_all(ui.early),
        ui.steps_on(Happening::Event { event, times }) == ui.handed(event),
        ui.after(Happening::Event { event, times }) == ui.after_event(event, times),
        ui.meshed ==> ui.handed(event) == steps_for(event),
        !ui.meshed ==> ui.handed(event).len() == 0,
{
}

/// Events that wait ask for their steps one after the other.
pub proof fn law_waiting_events_ask_in_turn(earlier: Seq<EventView>, later: Seq<EventView>)
    ensures
        steps_for_all(earlier + later) == steps_for_all(earlier) + steps_for_all(later),
        later.len() == 1 ==> steps_for_all(later) == steps_for(later[0]),
    decreases later.len(),
{
    if later.len() == 0 {
        assert(earlier + later =~= earlier);
        assert(steps_for_all(earlier) + steps_for_all(later) =~= steps_for_all(earlier));
    } else {
        let both = earlier + later;
        assert(both.drop_last() =~= earlier + later.drop_last());
        assert(both.last() == later.last());
        law_waiting_events_ask_in_turn(earlier, later.drop_last());
        assert(steps_for_all(both) =~= steps_for_all(earlier) + steps_for_all(later));
        if later.len() == 1 {
            assert(later.drop_last() =~= Seq::empty());
            assert(steps_for_all(later) =~= steps_for(later[0]));
        }
    }
}

/// Who joins is listed last, under the name it gave, unless it is listed already.
pub proof fn law_who_joins_is_listed_last(
    ui: RoomUiView,
    peer_id: Seq<char>,
    peer_name: Option<Seq<char>>,
    times: Seq<(u32, u32)>,
)
    ensures
        ({
            let after = ui.after_event(EventView::PeerJoined { peer_id, peer_name }, times);
            let known = exists|i: int|
                0 <= i < ui.peers.len() && (#[trigger] ui.peers[i]).peer_id == peer_id;
            &&& known ==> after.peers == ui.peers
            &&& !known ==> {
                &&& after.peers.drop_last() == ui.peers
                &&& after.peers.last().peer_id == peer_id
                &&& after.peers.last().peer_name == peer_name
                &&& after.peers.len() == ui.peers.len() + 1
            }
        }),
{
    let after = ui.after_event(EventView::PeerJoined { peer_id, peer_name }, times);
    if !is_listed(ui.peers, peer_id) {
        assert(after.peers.drop_last() =~= ui.peers);
    }
}

/// Leaving strikes the one who left off the list, wherever it stands, and keeps everyone
/// else in place.
pub proof fn law_leaving_strikes_one_off_the_list(
    before: Seq<PeerView>,
    behind: Seq<PeerView>,
    peer: PeerView,
    id: Seq<char>,
)
    ensures
        unlisted(before + behind, id) == unlisted(before, id) + unlisted(behind, id),
        peer.peer_id == id ==> unlisted(seq![peer], id) == Seq::<PeerView>::empty(),
        peer.peer_id != id ==> unlisted(seq![peer], id) == seq![peer],
        unlisted(Seq::empty(), id) == Seq::<PeerView>::empty(),
        !is_listed(before, id) ==> unlisted(before, id) == before,
    decreases before.len() + behind.len(),
{
    reveal(Seq::filter);
    let stays = |p: PeerView| p.peer_id != id;
    assert(seq![peer].drop_last() =~= Seq::empty());
    assert(seq![peer].last() == peer);
    assert(unlisted(Seq::empty(), id) =~= Seq::<PeerView>::empty());
    assert(peer.peer_id != id ==> unlisted(seq![peer], id) =~= seq![peer]);
    if behind.len() == 0 {
        assert(before + behind =~= before);
        assert(unlisted(before, id) + unlisted(behind, id) =~= unlisted(before, id));
        if before.len() > 0 && !is_listed(before, id) {
            let first = before.drop_last();
            if is_listed(first, id) {
                let i = choose|i: int| 0 <= i < first.len() && (#[trigger] first[i]).peer_id == id;
                assert(before[i].peer_id == id);
            }
            law_leaving_strikes_one_off_the_list(first, behind, peer, id);
            assert(before.last() == before[before.len() - 1]);
            assert(first.push(before.last()) =~= before);
        } else if before.len() == 0 {
            assert(unlisted(before, id) =~= before);
        }
    } else {
        let both = before + behind;
        assert(both.drop_last() =~= before + behind.drop_last());
        assert(both.last() == behind.last());
        law_leaving_strikes_one_off_the_list(before, behind.drop_last(), peer, id);
        assert(unlisted(both, id) =~= unlisted(before, id) + unlisted(behind, id));
    }
}

/// Who leaves is struck off the page's list.
pub proof fn law_who_leaves_is_struck_off(
    ui: RoomUiView,
    before: Seq<PeerView>,
    peer: PeerView,
    behind: Seq<PeerView>,
    times: Seq<(u32, u32)>,
)
    requires
        ui.peers == before.push(peer) + behind,
        !is_listed(before, peer.peer_id),
        !is_listed(behind, peer.peer_id),
    ensures
        ui.after_event(EventView::PeerLeft { peer_id: peer.peer_id }, times).peers == before
            + behind,
{
    let id = peer.peer_id;
    law_leaving_strikes_one_off_the_list(before.push(peer), behind, peer, id);
    law_leaving_strikes_one_off_the_list(before, seq![peer], peer, id);
    law_leaving_strikes_one_off_the_list(behind, seq![peer], peer, id);
    assert(before + seq![peer] =~= before.push(peer));
    assert(before + Seq::<PeerView>::empty() =~= before);
}

/// The large tile goes to whoever the meter named, if it is still here, and else to the
/// first on the list; it stands empty in an empty room only.
pub proof fn law_the_stage_follows_the_speaker(ui: RoomUiView, who: Seq<char>, i: int)
    ensures
        ui.speaker == Some(who) && 0 <= i < ui.peers.len() && ui.peers[i].peer_id == who
            ==> ui.stage() == Some(who),
        ui.speaker is None && ui.peers.len() > 0 ==> ui.stage() == Some(ui.peers[0].peer_id),
        ui.speaker == Some(who) && !is_listed(ui.peers, who) && ui.peers.len() > 0 ==> ui.stage()
            == Some(ui.peers[0].peer_id),
        ui.peers.len() == 0 ==> ui.stage() is None,
        is_listed(ui.peers, who) ==> ui.noted(Note::Speaks(Some(who))).stage() == Some(who),
        ui.noted(Note::Speaks(None)).stage() == if ui.peers.len() > 0 {
            Some(ui.peers[0].peer_id)
        } else {
            None
        },
{
}

/// The meter is asked about three times a second.
pub proof fn law_the_meter_is_asked_often_enough()
    ensures
        LEVEL_POLL_MS == 350,
{
}

/// An event's messages are stamped with the times they were sent at, in their order, and
/// nothing else needs a time.
pub proof fn law_messages_keep_their_times(event: EventView, i: int)
    ensures
        event matches EventView::ChatMessage { timestamp_ms, .. } ==> stamps(event) == seq![
            timestamp_ms,
        ],
        event matches EventView::Resync { chat, .. } ==> stamps(event).len() == chat.len() && (0
            <= i < chat.len() ==> stamps(event)[i] == chat[i].timestamp_ms),
        !(event is ChatMessage || event is Resync) ==> stamps(event).len() == 0,
{
}

/// An attempt to join is under way or done just while joining and once connected: from
/// everywhere else a new one starts, whatever it authenticates with.
pub proof fn law_a_form_that_is_shown_can_be_submitted(
    ui: RoomUiView,
    creds: CredsView,
    session: Seq<char>,
    attempt: Option<JoinAttempt>,
    next: RoomUiView,
)
    requires
        ui.starts_joining(creds, session, attempt, next),
    ensures
        attempt is None <==> (ui.status == StatusView::Joining || ui.status
            == StatusView::Connected),
        ui.status == StatusView::Idle || ui.status == StatusView::NeedPassword || ui.status
            == StatusView::PasswordRequired || ui.status == StatusView::Full || ui.status is Error
            ==> attempt is Some,
        attempt is None ==> next == ui,
        attempt is Some ==> next.status == StatusView::Joining && !next.bad_password,
        next.self_id == ui.self_id,
        next.display_name == ui.display_name,
        next.user_id == ui.user_id,
        next.peers == ui.peers,
        next.speaker == ui.speaker,
        next.chat == ui.chat,
        next.chat_open == ui.chat_open,
        next.unread == ui.unread,
        next.chat_input == ui.chat_input,
        next.chat_error == ui.chat_error,
        next.meshed == ui.meshed,
        next.early == ui.early,
{
}

/// Asking to join again while an attempt is under way does nothing.
pub proof fn law_a_second_attempt_waits_for_the_first(
    ui: RoomUiView,
    creds: CredsView,
    session: Seq<char>,
    attempt: Option<JoinAttempt>,
    next: RoomUiView,
    again: CredsView,
    second: Option<JoinAttempt>,
    last: RoomUiView,
)
    requires
        ui.starts_joining(creds, session, attempt, next),
        next.starts_joining(again, session, second, last),
    ensures
        second is None,
        last == next,
{
}

/// An attempt carries what it authenticates with in the one place where it belongs, and
/// says who is joining, under which session, and by which name if there is one.
pub proof fn law_an_attempt_carries_its_credentials(
    ui: RoomUiView,
    creds: CredsView,
    session: Seq<char>,
    a: JoinAttempt,
    next: RoomUiView,
)
    requires
        ui.starts_joining(creds, session, Some(a), next),
    ensures
        creds matches CredsView::Claim(password) ==> text_view(a.request.claim_password) == Some(
            password,
        ) && a.request.password is None && !a.verifying,
        creds matches CredsView::Verify(password) ==> text_view(a.request.password) == Some(
            password,
        ) && a.request.claim_password is None && a.verifying,
        creds is Anonymous ==> a.request.password is None && a.request.claim_password is None
            && !a.verifying,
        a.request.session_id@ == session,
        text_view(a.request.user_id) == Some(ui.user_id),
        ui.display_name.len() > 0 ==> text_view(a.request.display_name) == Some(ui.display_name),
        ui.display_name.len() == 0 ==> a.request.display_name is None,
{
}

/// A room that asks to be claimed is claimed with the password that is typed: submitting
/// it makes an attempt, and the request carries it as the password to claim with. A room
/// that is locked is unlocked in the same way.
pub proof fn law_the_password_that_is_typed_is_the_one_that_is_tried(
    ui: RoomUiView,
    verifying: bool,
    joined: Result<JoinResponse, String>,
    password: Seq<char>,
    session: Seq<char>,
    creds: CredsView,
    attempt: Option<JoinAttempt>,
    next: RoomUiView,
)
    requires
        (joined matches Ok(JoinResponse::NeedPassword { .. })) || (joined matches Ok(
            JoinResponse::PasswordRequired { .. },
        )),
        password.len() > 0,
        ui.after_join(joined, verifying).creds_for(password) == Some(creds),
        ui.after_join(joined, verifying).starts_joining(creds, session, attempt, next),
    ensures
        attempt is Some,
        (joined matches Ok(JoinResponse::NeedPassword { .. })) ==> {
            &&& text_view(attempt->0.request.claim_password) == Some(password)
            &&& attempt->0.request.password is None
        },
        (joined matches Ok(JoinResponse::PasswordRequired { .. })) ==> {
            &&& text_view(attempt->0.request.password) == Some(password)
            &&& attempt->0.request.claim_password is None
            &&& attempt->0.verifying
        },
{
}

/// A password form takes any password but an empty one.
pub proof fn law_only_an_empty_password_is_no_attempt(ui: RoomUiView, password: Seq<char>)
    ensures
        ui.creds_for(password) is None <==> password.len() == 0,
        password.len() > 0 && ui.status == StatusView::NeedPassword ==> ui.creds_for(password)
            == Some(CredsView::Claim(password)),
        password.len() > 0 && ui.status == StatusView::PasswordRequired ==> ui.creds_for(password)
            == Some(CredsView::Verify(password)),
{
}

/// The form that takes a password hands on the very one that was typed.
pub proof fn law_the_form_hands_on_what_was_typed(
    ui: RoomUi,
    password: &str,
    creds: Option<Creds>,
)
    requires
        call_ensures(RoomUi::gate, (&ui, password), creds),
    ensures
        creds is None <==> password@.len() == 0,
        creds matches Some(c) ==> ui@.creds_for(password@) == Some(c@),
        creds is Some && ui@.status == StatusView::NeedPassword ==> creds->0@
            == CredsView::Claim(password@),
        creds is Some && ui@.status == StatusView::PasswordRequired ==> creds->0@
            == CredsView::Verify(password@),
{
}

/// What comes of an attempt shows as the page's status; the one thing that is learnt
/// besides is the session of whoever was let in.
pub proof fn law_the_status_says_what_came_of_joining(
    ui: RoomUiView,
    joined: Result<JoinResponse, String>,
    verifying: bool,
)
    ensures
        ({
            let after = ui.after_join(joined, verifying);
            &&& joined matches Err(why) ==> after.status == StatusView::Error(why@)
            &&& (joined matches Ok(JoinResponse::NeedPassword { .. })) ==> after.status
                == StatusView::NeedPassword
            &&& (joined matches Ok(JoinResponse::PasswordRequired { .. })) ==> after.status
                == StatusView::PasswordRequired
            &&& (joined matches Ok(JoinResponse::Full { .. })) ==> after.status == StatusView::Full
            &&& joined matches Ok(JoinResponse::Joined { self_id, .. }) ==> after.status
                == StatusView::Connected && after.self_id == Some(self_id@)
            &&& issued_session(joined) is Some <==> after.status == StatusView::Connected
            &&& issued_session(joined) is Some ==> after.self_id == issued_session(joined)
            &&& issued_session(joined) is None ==> after.self_id == ui.self_id
            &&& after.status != StatusView::Joining
            &&& after.display_name == ui.display_name
            &&& after.user_id == ui.user_id
            &&& after.peers == ui.peers
            &&& after.speaker == ui.speaker
            &&& after.chat == ui.chat
            &&& after.chat_open == ui.chat_open
            &&& after.unread == ui.unread
            &&& after.chat_input == ui.chat_input
            &&& after.chat_error == ui.chat_error
            &&& after.meshed == ui.meshed
            &&& after.early == ui.early
        }),
{
}

/// The form calls a password wrong just where one was tried and the room stayed locked,
/// and no longer once another is tried.
pub proof fn law_a_wrong_password_is_called_wrong(
    ui: RoomUiView,
    creds: CredsView,
    session: Seq<char>,
    a: JoinAttempt,
    next: RoomUiView,
    joined: Result<JoinResponse, String>,
)
    requires
        ui.starts_joining(creds, session, Some(a), next),
    ensures
        !next.says_wrong(),
        next.after_join(joined, a.verifying).says_wrong() <==> creds is Verify && (joined matches Ok(
            JoinResponse::PasswordRequired { .. },
        )),
        next.after_join(joined, a.verifying).bad_password ==> next.after_join(
            joined,
            a.verifying,
        ).says_wrong(),
{
}

/// What is typed is sent as it was typed, as the session that the join issued and under
/// the name on the page; only what is nothing but space is not, nor anything without a
/// session.
pub proof fn law_what_was_typed_is_sent(
    ui: RoomUiView,
    typed: Seq<char>,
    post: Option<ChatPost>,
    next: RoomUiView,
)
    requires
        ui.noted(Note::Typed(typed)).sends_chat(post, next),
    ensures
        post is Some <==> trimmed_text(typed).len() > 0 && ui.self_id is Some,
        post matches Some(p) ==> {
            &&& p.body.text@ == typed
            &&& ui.self_id == Some(p.session_id@)
            &&& p.body.sender_name matches Some(name) && name@ == if ui.display_name.len() == 0 {
                "Anonymous"@
            } else {
                ui.display_name
            }
            &&& next.chat_input.len() == 0
            &&& next.chat_error is None
        },
        post is None ==> next.chat_input == typed,
        trimmed_text(typed).len() == 0 ==> next.chat_error == ui.chat_error,
        trimmed_text(typed).len() > 0 && ui.self_id is None ==> next.chat_error == Some(
            "Not connected to the room yet."@,
        ),
        next.chat == ui.chat,
        next.status == ui.status,
        next.bad_password == ui.bad_password,
        next.self_id == ui.self_id,
        next.display_name == ui.display_name,
        next.user_id == ui.user_id,
        next.peers == ui.peers,
        next.speaker == ui.speaker,
        next.chat_open == ui.chat_open,
        next.unread == ui.unread,
        next.meshed == ui.meshed,
        next.early == ui.early,
{
}

/// Sending once sends once: what was sent is not sent again.
pub proof fn law_a_message_is_sent_once(
    ui: RoomUiView,
    p: ChatPost,
    next: RoomUiView,
    again: Option<ChatPost>,
    last: RoomUiView,
)
    requires
        ui.sends_chat(Some(p), next),
        next.sends_chat(again, last),
    ensures
        again is None,
        last == next,
{
}

/// Each thing that the page takes note of shows in its own place, and the last one
/// counts.
pub proof fn law_notes_show_where_they_belong(
    ui: RoomUiView,
    why: Seq<char>,
    who: Option<Seq<char>>,
    name: Seq<char>,
    text: Seq<char>,
)
    ensures
        ui.noted(Note::StreamFailed(why)).status == StatusView::Error(why),
        ui.noted(Note::Speaks(who)).speaker == who,
        ui.noted(Note::Renamed(name)).display_name == name,
        ui.noted(Note::Typed(text)).chat_input == text,
        !ui.noted(Note::ChatClosed).chat_open,
        ui.noted(Note::ChatNotSent(why)).chat_error == Some("Message not sent: "@ + why),
{
}

/// Taking note of one thing leaves all others as they were.
pub proof fn law_notes_mind_their_own_business(ui: RoomUiView, note: Note)
    ensures
        ({
            let after = ui.noted(note);
            &&& !(note is StreamFailed) ==> after.status == ui.status
            &&& !(note is Speaks) ==> after.speaker == ui.speaker
            &&& !(note is Renamed) ==> after.display_name == ui.display_name
            &&& !(note is Typed) ==> after.chat_input == ui.chat_input
            &&& !(note is ChatClosed) ==> after.chat_open == ui.chat_open
            &&& !(note is ChatNotSent) ==> after.chat_error == ui.chat_error
            &&& after.bad_password == ui.bad_password
            &&& after.self_id == ui.self_id
            &&& after.user_id == ui.user_id
            &&& after.peers == ui.peers
            &&& after.chat == ui.chat
            &&& after.unread == ui.unread
            &&& after.meshed == ui.meshed
            &&& after.early == ui.early
        }),
{
}

/// A page starts with nothing on it but whose it is, and can ask to join at once.
pub proof fn law_a_page_starts_empty(
    display_name: Seq<char>,
    user_id: Seq<char>,
    creds: CredsView,
    session: Seq<char>,
    attempt: Option<JoinAttempt>,
    next: RoomUiView,
)
    ensures
        ({
            let ui = first_page(display_name, user_id);
            &&& ui.status == StatusView::Idle
            &&& ui.display_name == display_name
            &&& ui.user_id == user_id
            &&& ui.self_id is None
            &&& !ui.says_wrong() && !ui.bad_password
            &&& ui.peers.len() == 0 && ui.chat.len() == 0 && ui.early.len() == 0
            &&& ui.unread == 0 && !ui.chat_open && !ui.meshed
            &&& ui.chat_input.len() == 0 && ui.chat_error is None && ui.speaker is None
            &&& ui.starts_joining(creds, session, attempt, next) ==> attempt is Some
        }),
{
}

/// A display name is remembered under one name, and as it was typed.
pub proof fn law_a_name_is_remembered_as_typed(name: Seq<char>)
    ensures
        name_line(name) == "wr_name"@ + "="@ + name + "; Max-Age=31536000; Path=/; SameSite=Lax"@,
{
}

/// A time of day shows as two digits, a colon and two digits, which read back as its hours
/// and minutes.
pub proof fn law_a_clock_reads_back(time: (u32, u32), text: String)
    requires
        time.0 < 24,
        time.1 < 60,
        call_ensures(format_time, (time,), text),
    ensures
        text@.len() == 5,
        text@[0] == digit_char((time.0 / 10) as nat),
        text@[1] == digit_char((time.0 % 10) as nat),
        text@[2] == ':',
        text@[3] == digit_char((time.1 / 10) as nat),
        text@[4] == digit_char((time.1 % 10) as nat),
{
    reveal_strlit(":");
    reveal_with_fuel(crate::text::decimal_text, 3);
    lemma_two_digits(time.0);
    lemma_two_digits(time.1);
}

/// A number below a hundred on two digits.
proof fn lemma_two_digits(n: u32)
    requires
        n < 100,
    ensures
        two_digit_text(n) == seq![digit_char((n / 10) as nat), digit_char((n % 10) as nat)],
{
    reveal_with_fuel(crate::text::decimal_text, 3);
    assert(two_digit_text(n) =~= seq![digit_char((n / 10) as nat), digit_char((n % 10) as nat)]);
}

/// A peer shows under the name it gave, and one that gave none as a guest, with the start
/// of its id.
pub proof fn law_a_peer_shows_under_its_name(peer: PeerInfo, label: String)
    requires
        call_ensures(peer_label, (&peer,), label),
    ensures
        peer.peer_name matches Some(name) ==> label@ == name@,
        peer.peer_name is None && peer.peer_id@.len() >= 4 ==> label@ == "Guest "@
            + peer.peer_id@.subrange(0, 4),
        peer.peer_name is None && peer.peer_id@.len() < 4 ==> label@ == "Guest "@ + peer.peer_id@,
{
}

/// Whoever has an id that can be used keeps it, and anyone else gets a new one, which is
/// remembered.
pub proof fn law_a_visitor_keeps_its_id(jar: &str, id: (String, Option<String>))
    requires
        call_ensures(get_or_create_user_id, (jar,), id),
    ensures
        is_usable_id(id.0@),
        id.1 is None ==> crate::pages::home::cookie_in(jar@, "wr_uid"@) == Some(id.0@),
        id.1 matches Some(line) ==> line@ == cookie_line("wr_uid"@, id.0@) && is_uuid_v4(id.0@),
        crate::pages::home::cookie_in(jar@, "wr_uid"@) matches Some(kept) ==> (id.1 is None
            <==> is_usable_id(kept)),
{
    if is_uuid_v4(id.0@) {
        crate::services::law_a_new_id_is_kept(id.0@);
    }
}

} // verus!

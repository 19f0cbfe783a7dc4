//! The admin sync WebSocket: the frames that carry changes, and what the
//! per-connection loop does on each event.

use axum::http::HeaderMap;
use vstd::prelude::*;

use crate::json::{items_view, json_text, lemma_items_view, optional_text_view, Fields, Json, JsonView, NumberView};
use crate::reply::{rejected_view, request_security_error, service_name, Reply};
use crate::request_security::RequestSecurity;

verus! {

/// Seconds between keepalive pings on an idle socket.
pub const ADMIN_WS_HEARTBEAT_SECS: u64 = 15;

/// A row of `infra_operations`.
pub struct InfraOperationsRow {
    /// The row's id, in the usual hyphenated form.
    pub id: String,
    pub version: i64,
    pub status: String,
    /// The whole row.
    pub document: Json,
}

/// The frame that carries one row change.
pub open spec fn change_frame_view(row: InfraOperationsRow, write_key: Option<Seq<char>>, at_ms: int) -> JsonView {
    JsonView::Object(
        Map::empty().insert("event"@, JsonView::Text("fiducia:sync"@)).insert(
            "changes"@,
            JsonView::Array(
                seq![
                    JsonView::Object(
                        Map::empty().insert("table"@, JsonView::Text("infra_operations"@)).insert(
                            "op"@,
                            JsonView::Text("upsert"@),
                        ).insert("id"@, JsonView::Text(row.id@)).insert(
                            "version"@,
                            JsonView::Number(NumberView::Integer(row.version as int)),
                        ).insert("row"@, row.document@).insert(
                            "at_ms"@,
                            JsonView::Number(NumberView::Integer(at_ms)),
                        ).insert("write_key"@, optional_text_view(write_key)),
                    ),
                ],
            ),
        ),
    )
}

/// The frame that tells every subscriber of one row change, under the key of the
/// write that made it.
pub fn change_frame(row: &InfraOperationsRow, write_key: &Option<String>, at_ms: i64) -> (frame: String)
    ensures
        frame@ == json_text(change_frame_view(*row, write_key.deep_view(), at_ms as int)),
{
    let change = Fields::new().with("table", Json::text("infra_operations")).with("op", Json::text("upsert")).with(
        "id",
        Json::text(row.id.as_str()),
    ).with("version", Json::signed(row.version)).with("row", row.document.duplicate()).with(
        "at_ms",
        Json::signed(at_ms),
    ).with("write_key", Json::optional_text(write_key)).done();
    let mut changes: Vec<Json> = Vec::new();
    let ghost only = change@;
    changes.push(change);
    proof {
        lemma_items_view(changes@);
    }
    assert(items_view(changes@) =~= seq![only]);
    Fields::new().with("event", Json::text("fiducia:sync")).with("changes", Json::Array(changes)).done().to_text()
}

/// Whether a handshake of an admitted operator may open a connection; the reply
/// that turns it down where it may not. Browsers send cookies along with
/// handshakes from any page, so only the exact origin passes.
pub fn admin_ws(headers: &HeaderMap, security: &RequestSecurity) -> (result: Result<(), Reply>)
    ensures
        match result {
            Ok(_) => security.same_origin_outcome(*headers) is Ok,
            Err(reply) => security.same_origin_outcome(*headers) is Err && reply@ == rejected_view(
                security.same_origin_outcome(*headers)->Err_0,
            ),
        },
{
    match security.require_same_origin(headers) {
        Ok(_) => Ok(()),
        Err(error) => Err(request_security_error(error)),
    }
}

/// The first frame on a connection.
pub open spec fn hello_view() -> JsonView {
    JsonView::Object(
        Map::empty().insert("event"@, JsonView::Text("connected"@)).insert(
            "service"@,
            JsonView::Text(service_name()),
        ),
    )
}

/// The frame that tells a client to fetch what it missed.
pub open spec fn resync_view() -> JsonView {
    JsonView::Object(
        Map::empty().insert("event"@, JsonView::Text("fiducia:resync"@)).insert(
            "reason"@,
            JsonView::Text("lagged"@),
        ),
    )
}

/// What can happen to a sync connection.
pub enum StreamEvent {
    /// The socket is open.
    Opened,
    /// A frame was broadcast.
    Frame(String),
    /// The connection fell behind the broadcast and lost that many frames.
    Lagged(u64),
    /// The broadcast is over.
    BroadcastClosed,
    /// The keepalive timer ticked.
    Tick,
    /// The client closed the socket, or it is gone.
    PeerClosed,
    /// Receiving from the client failed.
    PeerFailed,
    /// The client sent something else. The socket is server-push only.
    PeerMessage,
    /// The last send failed.
    SendFailed,
}

/// What the loop does next.
pub enum StreamAction {
    /// Send a text, then wait.
    Send(String),
    /// Send an empty ping, then wait.
    Ping,
    /// Wait for the next event.
    Wait,
    /// Drop the connection.
    Stop,
}

/// Whether `action` is what the loop does on `event`.
pub open spec fn streams(event: StreamEvent, action: StreamAction) -> bool {
    match event {
        StreamEvent::Opened => action matches StreamAction::Send(text) && text@ == json_text(hello_view()),
        StreamEvent::Frame(frame) => action matches StreamAction::Send(text) && text@ == frame@,
        StreamEvent::Lagged(_) => action matches StreamAction::Send(text) && text@ == json_text(resync_view()),
        StreamEvent::Tick => action is Ping,
        StreamEvent::PeerMessage => action is Wait,
        StreamEvent::BroadcastClosed => action is Stop,
        StreamEvent::PeerClosed => action is Stop,
        StreamEvent::PeerFailed => action is Stop,
        StreamEvent::SendFailed => action is Stop,
    }
}

/// What the connection's loop does on an event: greet on open, forward every
/// frame as it is, tell a client that lost frames to fetch them, ping on the
/// timer, and stop once the socket or the broadcast is gone.
pub fn admin_ws_step(event: StreamEvent) -> (action: StreamAction)
    ensures
        streams(event, action),
{
    match event {
        StreamEvent::Opened => StreamAction::Send(
            Fields::new().with("event", Json::text("connected")).with("service", Json::text("fiducia-admin")).done().to_text(),
        ),
        StreamEvent::Frame(frame) => StreamAction::Send(frame),
        StreamEvent::Lagged(_) => StreamAction::Send(
            Fields::new().with("event", Json::text("fiducia:resync")).with("reason", Json::text("lagged")).done().to_text(),
        ),
        StreamEvent::Tick => StreamAction::Ping,
        StreamEvent::PeerMessage => StreamAction::Wait,
        StreamEvent::BroadcastClosed => StreamAction::Stop,
        StreamEvent::PeerClosed => StreamAction::Stop,
        StreamEvent::PeerFailed => StreamAction::Stop,
        StreamEvent::SendFailed => StreamAction::Stop,
    }
}

/// The text that is due to the client on an event, if any: the greeting, a frame
/// as it was broadcast, or the call to fetch what was lost.
pub open spec fn text_due(event: StreamEvent) -> Option<Seq<char>> {
    match event {
        StreamEvent::Opened => Some(json_text(hello_view())),
        StreamEvent::Frame(frame) => Some(frame@),
        StreamEvent::Lagged(_) => Some(json_text(resync_view())),
        _ => None,
    }
}

/// The texts that are due on events, in order.
pub open spec fn texts_due(events: Seq<StreamEvent>) -> Seq<Seq<char>>
    decreases events.len(),
{
    if events.len() == 0 {
        Seq::empty()
    } else {
        match text_due(events.last()) {
            Some(text) => texts_due(events.drop_last()).push(text),
            None => texts_due(events.drop_last()),
        }
    }
}

/// The texts that actions send, in order.
pub open spec fn texts_sent(actions: Seq<StreamAction>) -> Seq<Seq<char>>
    decreases actions.len(),
{
    if actions.len() == 0 {
        Seq::empty()
    } else {
        match actions.last() {
            StreamAction::Send(text) => texts_sent(actions.drop_last()).push(text@),
            _ => texts_sent(actions.drop_last()),
        }
    }
}

/// A connection forwards every frame as it is and in order, and puts one call to
/// fetch in the place of each loss: it never goes on in silence after one. It is
/// dropped on the first failed send, and on nothing that a client merely says.
pub proof fn law_lost_frames_are_signalled(events: Seq<StreamEvent>, actions: Seq<StreamAction>)
    requires
        actions.len() == events.len(),
        forall|i: int| 0 <= i < events.len() ==> streams(#[trigger] events[i], actions[i]),
    ensures
        texts_sent(actions) == texts_due(events),
        forall|i: int| 0 <= i < events.len() && events[i] is SendFailed ==> (#[trigger] actions[i]) is Stop,
        forall|i: int|
            0 <= i < events.len() && (#[trigger] actions[i]) is Stop ==> events[i] is SendFailed
                || events[i] is BroadcastClosed || events[i] is PeerClosed || events[i] is PeerFailed,
    decreases events.len(),
{
    if events.len() > 0 {
        let earlier = events.drop_last();
        let before = actions.drop_last();
        assert forall|i: int| 0 <= i < earlier.len() implies streams(#[trigger] earlier[i], before[i]) by {
            assert(streams(events[i], actions[i]));
        }
        law_lost_frames_are_signalled(earlier, before);
        let last = events.len() - 1;
        assert(streams(events[last], actions[last]));
    }
    assert forall|i: int| 0 <= i < events.len() && events[i] is SendFailed implies (#[trigger] actions[i]) is Stop by {
        assert(streams(events[i], actions[i]));
    }
    assert forall|i: int| 0 <= i < events.len() && (#[trigger] actions[i]) is Stop implies events[i] is SendFailed
        || events[i] is BroadcastClosed || events[i] is PeerClosed || events[i] is PeerFailed by {
        assert(streams(events[i], actions[i]));
    }
}

} // verus!

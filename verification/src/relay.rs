//! Relaying WebSocket frames between a client and the upstream: how a
//! frame of one side is written for the other, what each copying loop does
//! next, and when the session is over.

use vstd::prelude::*;
use vstd::string::StringExecFns;

verus! {

/// The code and reason that a close frame may carry.
#[derive(Debug, PartialEq, Eq)]
pub struct CloseInfo {
    pub code: u16,
    pub reason: String,
}

/// A frame as the client's socket hands it over or takes it.
#[derive(Debug, PartialEq, Eq)]
pub enum ClientFrame {
    Text(String),
    Binary(Vec<u8>),
    Ping(Vec<u8>),
    Pong(Vec<u8>),
    Close(Option<CloseInfo>),
}

/// A frame as the upstream socket hands it over or takes it. `Frame` is a
/// raw frame, which has no counterpart on the client's side.
#[derive(Debug, PartialEq, Eq)]
pub enum UpstreamFrame {
    Text(String),
    Binary(Vec<u8>),
    Ping(Vec<u8>),
    Pong(Vec<u8>),
    Close(Option<CloseInfo>),
    Frame,
}

/// A client's frame written for the upstream: payloads as they are, a close
/// frame without its code and reason.
pub open spec fn spec_map_to_upstream(message: ClientFrame) -> Option<UpstreamFrame> {
    match message {
        ClientFrame::Text(text) => Some(UpstreamFrame::Text(text)),
        ClientFrame::Binary(data) => Some(UpstreamFrame::Binary(data)),
        ClientFrame::Ping(payload) => Some(UpstreamFrame::Ping(payload)),
        ClientFrame::Pong(payload) => Some(UpstreamFrame::Pong(payload)),
        ClientFrame::Close(_) => Some(UpstreamFrame::Close(None)),
    }
}

/// An upstream frame written for the client: payloads as they are, a close
/// frame without its code and reason, and nothing for a raw frame.
pub open spec fn spec_map_from_upstream(message: UpstreamFrame) -> Option<ClientFrame> {
    match message {
        UpstreamFrame::Text(text) => Some(ClientFrame::Text(text)),
        UpstreamFrame::Binary(data) => Some(ClientFrame::Binary(data)),
        UpstreamFrame::Ping(payload) => Some(ClientFrame::Ping(payload)),
        UpstreamFrame::Pong(payload) => Some(ClientFrame::Pong(payload)),
        UpstreamFrame::Close(_) => Some(ClientFrame::Close(None)),
        UpstreamFrame::Frame => None,
    }
}

/// Writes a client's frame for the upstream.
pub fn map_to_upstream(message: ClientFrame) -> (mapped: Option<UpstreamFrame>)
    ensures
        mapped == spec_map_to_upstream(message),
{
    match message {
        ClientFrame::Text(text) => Some(UpstreamFrame::Text(text)),
        ClientFrame::Binary(data) => Some(UpstreamFrame::Binary(data)),
        ClientFrame::Ping(payload) => Some(UpstreamFrame::Ping(payload)),
        ClientFrame::Pong(payload) => Some(UpstreamFrame::Pong(payload)),
        ClientFrame::Close(_) => Some(UpstreamFrame::Close(None)),
    }
}

/// Writes an upstream frame for the client.
pub fn map_from_upstream(message: UpstreamFrame) -> (mapped: Option<ClientFrame>)
    ensures
        mapped == spec_map_from_upstream(message),
{
    match message {
        UpstreamFrame::Text(text) => Some(ClientFrame::Text(text)),
        UpstreamFrame::Binary(data) => Some(ClientFrame::Binary(data)),
        UpstreamFrame::Ping(payload) => Some(ClientFrame::Ping(payload)),
        UpstreamFrame::Pong(payload) => Some(ClientFrame::Pong(payload)),
        UpstreamFrame::Close(_) => Some(ClientFrame::Close(None)),
        UpstreamFrame::Frame => None,
    }
}

/// What happened on a copying loop's sockets since its last action.
#[derive(Debug, PartialEq, Eq)]
pub enum RelayEvent<F> {
    /// The source handed over a frame.
    Received(F),
    /// Reading from the source failed.
    ReadFailed,
    /// The source has no more frames.
    StreamEnded,
    /// The frame was written to the destination.
    Sent,
    /// Writing to the destination failed.
    SendFailed,
}

/// What a copying loop does next.
#[derive(Debug, PartialEq, Eq)]
pub enum RelayAction<F> {
    /// Read the next frame from the source.
    Read,
    /// Write this frame to the destination.
    Send(F),
    /// Leave the loop.
    Stop,
}

/// The next action of the loop that copies from the client to the upstream.
pub open spec fn spec_client_to_upstream(event: RelayEvent<ClientFrame>) -> RelayAction<
    UpstreamFrame,
> {
    match event {
        RelayEvent::Received(frame) => match spec_map_to_upstream(frame) {
            Some(mapped) => RelayAction::Send(mapped),
            None => RelayAction::Read,
        },
        RelayEvent::Sent => RelayAction::Read,
        RelayEvent::ReadFailed => RelayAction::Stop,
        RelayEvent::StreamEnded => RelayAction::Stop,
        RelayEvent::SendFailed => RelayAction::Stop,
    }
}

/// The next action of the loop that copies from the upstream to the client.
pub open spec fn spec_upstream_to_client(event: RelayEvent<UpstreamFrame>) -> RelayAction<
    ClientFrame,
> {
    match event {
        RelayEvent::Received(frame) => match spec_map_from_upstream(frame) {
            Some(mapped) => RelayAction::Send(mapped),
            None => RelayAction::Read,
        },
        RelayEvent::Sent => RelayAction::Read,
        RelayEvent::ReadFailed => RelayAction::Stop,
        RelayEvent::StreamEnded => RelayAction::Stop,
        RelayEvent::SendFailed => RelayAction::Stop,
    }
}

/// One step of the loop that copies from the client to the upstream: a
/// frame received is sent on, a frame sent leads to the next read, and a
/// failed read, a failed write or the end of the stream ends the loop.
pub fn client_to_upstream(event: RelayEvent<ClientFrame>) -> (action: RelayAction<UpstreamFrame>)
    ensures
        action == spec_client_to_upstream(event),
{
    match event {
        RelayEvent::Received(frame) => match map_to_upstream(frame) {
            Some(mapped) => RelayAction::Send(mapped),
            None => RelayAction::Read,
        },
        RelayEvent::Sent => RelayAction::Read,
        RelayEvent::ReadFailed => RelayAction::Stop,
        RelayEvent::StreamEnded => RelayAction::Stop,
        RelayEvent::SendFailed => RelayAction::Stop,
    }
}

/// One step of the loop that copies from the upstream to the client. A raw
/// frame is dropped and the loop reads on.
pub fn upstream_to_client(event: RelayEvent<UpstreamFrame>) -> (action: RelayAction<ClientFrame>)
    ensures
        action == spec_upstream_to_client(event),
{
    match event {
        RelayEvent::Received(frame) => match map_from_upstream(frame) {
            Some(mapped) => RelayAction::Send(mapped),
            None => RelayAction::Read,
        },
        RelayEvent::Sent => RelayAction::Read,
        RelayEvent::ReadFailed => RelayAction::Stop,
        RelayEvent::StreamEnded => RelayAction::Stop,
        RelayEvent::SendFailed => RelayAction::Stop,
    }
}

/// How far a relay session has come.
#[derive(Clone, Copy, Debug, PartialEq, Eq, Structural)]
pub enum RelaySession {
    /// The upstream connection is being made.
    Connecting,
    /// Both loops are copying.
    Relaying,
    /// The session is over; nothing more is copied.
    Over,
}

/// What the host of a session does next.
#[derive(Debug, PartialEq, Eq)]
pub enum SessionAction {
    /// Refuse the upgrade: no upstream is configured.
    Refuse(String),
    /// Connect to the upstream at this address.
    Connect(String),
    /// Split both sockets and run the two loops.
    Relay,
    /// Close the client's socket; nothing was relayed.
    CloseClient,
    /// Drop both loops and what they hold.
    TearDown,
    /// Nothing: the session is over already.
    Nothing,
}

/// The message with which an upgrade is refused when no upstream is configured.
pub open spec fn upstream_unavailable() -> Seq<char> {
    "QUICKNODE_WS_URL not configured"@
}

impl RelaySession {
    /// Opens a session: to the configured upstream, or not at all.
    pub fn open(upstream_ws_url: Option<String>) -> (start: (RelaySession, SessionAction))
        ensures
            match upstream_ws_url {
                Some(url) => start == (RelaySession::Connecting, SessionAction::Connect(url)),
                None => start.1 matches SessionAction::Refuse(message) && message@
                    == upstream_unavailable() && start.0 == RelaySession::Over,
            },
    {
        match upstream_ws_url {
            Some(url) => (RelaySession::Connecting, SessionAction::Connect(url)),
            None => (
                RelaySession::Over,
                SessionAction::Refuse(String::from_str("QUICKNODE_WS_URL not configured")),
            ),
        }
    }

    /// The upstream connection was made, or could not be made.
    pub fn on_connect(self, connected: bool) -> (next: (RelaySession, SessionAction))
        ensures
            next == match self {
                RelaySession::Connecting => if connected {
                    (RelaySession::Relaying, SessionAction::Relay)
                } else {
                    (RelaySession::Over, SessionAction::CloseClient)
                },
                _ => (self, SessionAction::Nothing),
            },
    {
        match self {
            RelaySession::Connecting => if connected {
                (RelaySession::Relaying, SessionAction::Relay)
            } else {
                (RelaySession::Over, SessionAction::CloseClient)
            },
            RelaySession::Relaying => (RelaySession::Relaying, SessionAction::Nothing),
            RelaySession::Over => (RelaySession::Over, SessionAction::Nothing),
        }
    }

    /// One of the two loops has stopped, whichever it is: the session is
    /// over for both.
    pub fn on_stopped(self) -> (next: (RelaySession, SessionAction))
        ensures
            next == match self {
                RelaySession::Relaying => (RelaySession::Over, SessionAction::TearDown),
                _ => (self, SessionAction::Nothing),
            },
    {
        match self {
            RelaySession::Relaying => (RelaySession::Over, SessionAction::TearDown),
            RelaySession::Connecting => (RelaySession::Connecting, SessionAction::Nothing),
            RelaySession::Over => (RelaySession::Over, SessionAction::Nothing),
        }
    }
}

/// Frame fidelity: text and binary frames, pings and pongs cross the relay
/// with their payload as it is, in both directions, and what crosses one
/// way and back is what was sent.
pub proof fn lemma_frame_fidelity(text: String, data: Vec<u8>)
    ensures
        spec_client_to_upstream(RelayEvent::Received(ClientFrame::Text(text)))
            == RelayAction::Send(UpstreamFrame::Text(text)),
        spec_upstream_to_client(RelayEvent::Received(UpstreamFrame::Text(text)))
            == RelayAction::Send(ClientFrame::Text(text)),
        spec_client_to_upstream(RelayEvent::Received(ClientFrame::Binary(data)))
            == RelayAction::Send(UpstreamFrame::Binary(data)),
        spec_upstream_to_client(RelayEvent::Received(UpstreamFrame::Binary(data)))
            == RelayAction::Send(ClientFrame::Binary(data)),
        spec_client_to_upstream(RelayEvent::Received(ClientFrame::Ping(data)))
            == RelayAction::Send(UpstreamFrame::Ping(data)),
        spec_upstream_to_client(RelayEvent::Received(UpstreamFrame::Pong(data)))
            == RelayAction::Send(ClientFrame::Pong(data)),
{
}

/// Every frame of the client reaches the upstream, and a frame that came
/// from the client and comes back from the upstream is the frame that the
/// client sent, but for what a close frame carried.
pub proof fn lemma_round_trip(frame: ClientFrame)
    ensures
        spec_map_to_upstream(frame) is Some,
        spec_map_from_upstream(spec_map_to_upstream(frame)->0) == Some(
            match frame {
                ClientFrame::Close(_) => ClientFrame::Close(None),
                _ => frame,
            },
        ),
{
}

} // verus!

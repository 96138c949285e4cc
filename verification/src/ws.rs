//! The application-level socket session, as the forwarder sees it.
//!
//! The framing client that owns the byte stream and the handshake bytes
//! lives in the surrounding application; this module holds the session's
//! state machine and its error taxonomy. A send is permitted only on an
//! open session — attempting one anywhere else is the "not connected"
//! error, with no bytes written.

use vstd::prelude::*;

verus! {

/// What can go wrong between the forwarder and the socket: the byte-stream
/// connection failed, the messaging protocol failed, or no session is open.
#[derive(Clone, Copy, PartialEq, Eq, Structural, Debug)]
pub enum WebSocketClientError {
    TcpError,
    WebSocketError,
    NotConnected,
}

/// The session's state: no socket, handshake underway, or open for frames.
#[derive(Clone, Copy, PartialEq, Eq, Structural, Debug)]
pub enum SessionState {
    Disconnected,
    HandshakeInProgress,
    Open,
}

/// The state machine of one socket session. The surrounding application
/// performs the byte-stream connect and the handshake and reports their
/// outcomes here; the session decides what may happen next.
pub struct SocketSession {
    pub state: SessionState,
}

impl SocketSession {
    /// A fresh session: nothing is connected yet.
    pub fn new() -> (s: SocketSession)
        ensures
            s.state == SessionState::Disconnected,
    {
        SocketSession { state: SessionState::Disconnected }
    }

    /// The byte-stream connection is up and the handshake bytes are being
    /// exchanged.
    pub fn handshake_started(&mut self)
        requires
            old(self).state == SessionState::Disconnected,
        ensures
            final(self).state == SessionState::HandshakeInProgress,
    {
        self.state = SessionState::HandshakeInProgress;
    }

    /// The handshake completed: frames may now be sent.
    pub fn handshake_succeeded(&mut self)
        requires
            old(self).state == SessionState::HandshakeInProgress,
        ensures
            final(self).state == SessionState::Open,
    {
        self.state = SessionState::Open;
    }

    /// The connection or the handshake failed: back to square one.
    pub fn connection_failed(&mut self)
        ensures
            final(self).state == SessionState::Disconnected,
    {
        self.state = SessionState::Disconnected;
    }

    /// Whether a frame may be sent now: only an open session qualifies;
    /// anywhere else the send is refused as "not connected", if and only
    /// if, with no bytes written.
    pub fn check_send(&self) -> (r: Result<(), WebSocketClientError>)
        ensures
            r is Ok <==> self.state == SessionState::Open,
            r matches Err(e) ==> e == WebSocketClientError::NotConnected,
    {
        match self.state {
            SessionState::Open => Ok(()),
            _ => Err(WebSocketClientError::NotConnected),
        }
    }
}

} // verus!

//! A transfer session from the user's request to its outcome.
//!
//! The session decides nothing about bytes. It keeps account of where a
//! transfer stands, which of the two transports carries it, and how much has
//! been moved, so that a front end can show it.

use crate::error::{severity, severity_spec, Severity, TransferError};
use crate::relay::capped_sum;
use vstd::prelude::*;

verus! {

/// Where a session stands.
#[derive(Debug, Clone, Copy, PartialEq, Eq, Structural)]
pub enum SessionState {
    /// Nothing was asked for yet.
    Idle,
    /// The user asked for a transfer; the peer is being looked for.
    AwaitingPeer,
    /// There is no direct route: the server was asked to relay.
    RelayNegotiating,
    /// The file is on its way.
    Transferring,
    /// The file arrived whole.
    Completed,
    /// The session ended with an error. A file written in part stays.
    Failed,
}

/// The transport that carries a transfer.
#[derive(Debug, Clone, Copy, PartialEq, Eq, Structural)]
pub enum Transport {
    /// The reliable transport over datagrams, peer to peer.
    Datagram,
    /// The relay through the signaling connection.
    Relay,
}

/// What happens to a session.
#[derive(Debug, Clone, Copy, PartialEq, Eq, Structural)]
pub enum SessionEvent {
    /// The user asks to send or to receive.
    Begin,
    /// The peer was found; `direct` says whether it can be reached directly.
    PeerFound { direct: bool },
    /// The server answered the request for a relay.
    RelayReply { granted: bool },
    /// This many bytes more were moved.
    Progress { bytes: u64 },
    /// The transport reports the file complete.
    Finished,
    /// An error occurred.
    Error(TransferError),
    /// The connection was closed.
    ConnectionClosed,
}

/// A transfer session.
#[derive(Debug, Clone, PartialEq, Eq)]
pub struct TransferSession {
    state: SessionState,
    file_name: String,
    file_size: u64,
    transferred: u64,
    transport: Option<Transport>,
    error: Option<TransferError>,
}

/// What a [`TransferSession`] holds.
pub ghost struct SessionView {
    pub state: SessionState,
    pub file_name: Seq<char>,
    pub file_size: u64,
    pub transferred: u64,
    pub transport: Option<Transport>,
    pub error: Option<TransferError>,
}

impl SessionView {
    /// Whether the session has come to its end.
    pub open spec fn is_over(self) -> bool {
        self.state == SessionState::Completed || self.state == SessionState::Failed
    }

    /// This session in another state.
    pub open spec fn moved_to(self, state: SessionState) -> SessionView {
        SessionView {
            state,
            file_name: self.file_name,
            file_size: self.file_size,
            transferred: self.transferred,
            transport: self.transport,
            error: self.error,
        }
    }

    /// This session carried by a transport.
    pub open spec fn carried_by(self, transport: Transport) -> SessionView {
        SessionView {
            state: SessionState::Transferring,
            file_name: self.file_name,
            file_size: self.file_size,
            transferred: self.transferred,
            transport: Some(transport),
            error: self.error,
        }
    }

    /// This session failed with an error.
    pub open spec fn failed_with(self, error: TransferError) -> SessionView {
        SessionView {
            state: SessionState::Failed,
            file_name: self.file_name,
            file_size: self.file_size,
            transferred: self.transferred,
            transport: self.transport,
            error: Some(error),
        }
    }

    /// The session after an event.
    ///
    /// A session that is over stays as it is. An error that ends sessions,
    /// and a closed connection, fail any other session. Apart from that each
    /// state answers to its own events and passes over the rest.
    pub open spec fn step(self, event: SessionEvent) -> SessionView {
        if self.is_over() {
            self
        } else {
            match event {
                SessionEvent::Error(e) => if severity_spec(e) == Severity::Abort {
                    self.failed_with(e)
                } else {
                    self
                },
                SessionEvent::ConnectionClosed => self.failed_with(TransferError::Network),
                SessionEvent::Begin => if self.state == SessionState::Idle {
                    self.moved_to(SessionState::AwaitingPeer)
                } else {
                    self
                },
                SessionEvent::PeerFound { direct } => if self.state == SessionState::AwaitingPeer {
                    if direct {
                        self.carried_by(Transport::Datagram)
                    } else {
                        self.moved_to(SessionState::RelayNegotiating)
                    }
                } else {
                    self
                },
                SessionEvent::RelayReply { granted } => if self.state
                    == SessionState::RelayNegotiating {
                    if granted {
                        self.carried_by(Transport::Relay)
                    } else {
                        self.failed_with(TransferError::RelayRejected)
                    }
                } else {
                    self
                },
                SessionEvent::Progress { bytes } => if self.state == SessionState::Transferring {
                    SessionView {
                        state: self.state,
                        file_name: self.file_name,
                        file_size: self.file_size,
                        transferred: capped_sum(self.transferred, bytes as int),
                        transport: self.transport,
                        error: self.error,
                    }
                } else {
                    self
                },
                SessionEvent::Finished => if self.state == SessionState::Transferring {
                    self.moved_to(SessionState::Completed)
                } else {
                    self
                },
            }
        }
    }

    /// What holds of every session: a transport is chosen by the time the
    /// file moves, nothing has moved before, and there is an error exactly
    /// in a failed session.
    pub open spec fn wf(self) -> bool {
        &&& self.state == SessionState::Transferring ==> self.transport is Some
        &&& self.state == SessionState::Completed ==> self.transport is Some
        &&& (self.state == SessionState::Idle || self.state == SessionState::AwaitingPeer
            || self.state == SessionState::RelayNegotiating) ==> self.transferred == 0
        &&& self.state == SessionState::Failed <==> self.error is Some
    }
}

impl View for TransferSession {
    type V = SessionView;

    closed spec fn view(&self) -> SessionView {
        SessionView {
            state: self.state,
            file_name: self.file_name@,
            file_size: self.file_size,
            transferred: self.transferred,
            transport: self.transport,
            error: self.error,
        }
    }
}

impl TransferSession {
    /// A session for a file, before anything was asked for.
    pub fn new(file_name: String, file_size: u64) -> (s: TransferSession)
        ensures
            s@ == (SessionView {
                state: SessionState::Idle,
                file_name: file_name@,
                file_size,
                transferred: 0,
                transport: None,
                error: None,
            }),
            s@.wf(),
    {
        TransferSession {
            state: SessionState::Idle,
            file_name,
            file_size,
            transferred: 0,
            transport: None,
            error: None,
        }
    }

    /// The state.
    pub fn state(&self) -> (state: SessionState)
        ensures
            state == self@.state,
    {
        self.state
    }

    /// The file's name.
    pub fn file_name(&self) -> (name: &String)
        ensures
            name@ == self@.file_name,
    {
        &self.file_name
    }

    /// The file's size.
    pub fn file_size(&self) -> (size: u64)
        ensures
            size == self@.file_size,
    {
        self.file_size
    }

    /// The number of bytes moved so far.
    pub fn transferred(&self) -> (bytes: u64)
        ensures
            bytes == self@.transferred,
    {
        self.transferred
    }

    /// The transport, once one is chosen.
    pub fn transport(&self) -> (transport: Option<Transport>)
        ensures
            transport == self@.transport,
    {
        self.transport
    }

    /// The error of a failed session.
    pub fn error(&self) -> (error: Option<TransferError>)
        ensures
            error == self@.error,
    {
        self.error
    }

    /// Whether the session has come to its end.
    pub fn is_over(&self) -> (over: bool)
        ensures
            over == self@.is_over(),
    {
        match self.state {
            SessionState::Completed => true,
            SessionState::Failed => true,
            _ => false,
        }
    }

    /// Takes an event.
    ///
    /// `Begin` leads from `Idle` to the search for the peer. A peer found
    /// leads to the transfer over datagrams if it can be reached directly,
    /// and to the request for a relay if not. A relay that is granted leads
    /// to the transfer through it; one that is refused fails the session
    /// before any byte has moved. Progress is counted while the file moves,
    /// and `Finished` completes the session. An error that ends sessions and
    /// a closed connection fail it. A session that is over takes no event.
    pub fn on_event(&mut self, event: SessionEvent)
        ensures
            final(self)@ == old(self)@.step(event),
            old(self)@.wf() ==> final(self)@.wf(),
    {
        if self.is_over() {
            return ;
        }
        match event {
            SessionEvent::Error(e) => {
                match severity(e) {
                    Severity::Abort => {
                        self.state = SessionState::Failed;
                        self.error = Some(e);
                    },
                    Severity::Continue => {},
                }
            },
            SessionEvent::ConnectionClosed => {
                self.state = SessionState::Failed;
                self.error = Some(TransferError::Network);
            },
            SessionEvent::Begin => {
                match self.state {
                    SessionState::Idle => {
                        self.state = SessionState::AwaitingPeer;
                    },
                    _ => {},
                }
            },
            SessionEvent::PeerFound { direct } => {
                match self.state {
                    SessionState::AwaitingPeer => {
                        if direct {
                            self.state = SessionState::Transferring;
                            self.transport = Some(Transport::Datagram);
                        } else {
                            self.state = SessionState::RelayNegotiating;
                        }
                    },
                    _ => {},
                }
            },
            SessionEvent::RelayReply { granted } => {
                match self.state {
                    SessionState::RelayNegotiating => {
                        if granted {
                            self.state = SessionState::Transferring;
                            self.transport = Some(Transport::Relay);
                        } else {
                            self.state = SessionState::Failed;
                            self.error = Some(TransferError::RelayRejected);
                        }
                    },
                    _ => {},
                }
            },
            SessionEvent::Progress { bytes } => {
                match self.state {
                    SessionState::Transferring => {
                        self.transferred = if bytes > u64::MAX - self.transferred {
                            u64::MAX
                        } else {
                            self.transferred + bytes
                        };
                    },
                    _ => {},
                }
            },
            SessionEvent::Finished => {
                match self.state {
                    SessionState::Transferring => {
                        self.state = SessionState::Completed;
                    },
                    _ => {},
                }
            },
        }
    }
}

/// A session that is over stays as it is, whatever happens.
pub proof fn lemma_outcome_is_final(s: SessionView, event: SessionEvent)
    requires
        s.is_over(),
    ensures
        s.step(event) == s,
{
}

/// A refused relay fails the session before the transfer starts: nothing has
/// moved, and nothing will.
pub proof fn lemma_refused_relay_moves_nothing(s: SessionView, event: SessionEvent)
    requires
        s.wf(),
        s.state == SessionState::RelayNegotiating,
    ensures
        s.step(SessionEvent::RelayReply { granted: false }).state == SessionState::Failed,
        s.step(SessionEvent::RelayReply { granted: false }).error == Some(
            TransferError::RelayRejected,
        ),
        s.step(SessionEvent::RelayReply { granted: false }).step(event).transferred == 0,
{
}

/// The count of bytes moved never falls.
pub proof fn lemma_progress_never_falls(s: SessionView, event: SessionEvent)
    ensures
        s.step(event).transferred >= s.transferred,
        s.step(event).file_name == s.file_name,
        s.step(event).file_size == s.file_size,
{
}

} // verus!
